//! RTCP feedback fan-in: which subscriber feedback is forwarded to
//! the publisher, and with which SSRC.

use vstd::prelude::*;

use crate::forwarder::SenderBinding;

verus! {

/// The RTCP feedback messages the bus carries.
#[derive(Clone, Copy, PartialEq, Eq, Structural, Debug)]
pub enum RtcpMessage {
    /// Keyframe request.
    PictureLossIndication,
    /// Full intra request (keyframe request).
    FullIntraRequest,
    /// Receiver bandwidth estimation.
    ReceiverEstimatedMaximumBitrate,
    /// Negative acknowledgement.
    Nack,
}

/// Keyframe-request and bandwidth feedback is forwarded to the
/// publisher; everything else is dropped.
pub open spec fn spec_forwardable(msg: RtcpMessage) -> bool {
    msg == RtcpMessage::PictureLossIndication || msg == RtcpMessage::FullIntraRequest || msg
        == RtcpMessage::ReceiverEstimatedMaximumBitrate
}

/// Demultiplexes one feedback message read from a subscriber: a
/// forwardable message whose sender is bound to a published track is
/// re-addressed to that track's publisher-side SSRC; everything else
/// is dropped.
pub fn map_feedback(msg: RtcpMessage, binding: &SenderBinding) -> (r: Option<(RtcpMessage, u32)>)
    ensures
        r == (match binding.bound_ssrc {
            Some(ssrc) => if spec_forwardable(msg) {
                Some((msg, ssrc))
            } else {
                None::<(RtcpMessage, u32)>
            },
            None => None::<(RtcpMessage, u32)>,
        }),
{
    let forwardable = match msg {
        RtcpMessage::PictureLossIndication => true,
        RtcpMessage::FullIntraRequest => true,
        RtcpMessage::ReceiverEstimatedMaximumBitrate => true,
        RtcpMessage::Nack => false,
    };
    match binding.bound_ssrc {
        Some(ssrc) => if forwardable {
            Some((msg, ssrc))
        } else {
            None
        },
        None => None,
    }
}

} // verus!
