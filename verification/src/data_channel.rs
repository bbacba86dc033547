//! Data-channel fan-out framing: every message published on the
//! per-stream bus is prefixed by the 4-byte big-endian id of the peer
//! it came from, so that each peer's write loop can skip its own
//! echoes.  Payloads are truncated to `MESSAGE_SIZE` bytes at the
//! source.

use vstd::prelude::*;

use crate::wire::{be32_bytes, be32_value, lemma_be32_roundtrip, push_be32, read_be32};

verus! {

/// Largest payload carried in one bus frame, in bytes (16 KiB).
pub const MESSAGE_SIZE: usize = 16 * 1024;

/// The bus frame for a payload read from origin `origin`: the origin's
/// big-endian id followed by the payload, truncated to `MESSAGE_SIZE`.
pub open spec fn spec_frame(origin: u32, payload: Seq<u8>) -> Seq<u8> {
    if payload.len() <= MESSAGE_SIZE {
        be32_bytes(origin) + payload
    } else {
        be32_bytes(origin) + payload.take(MESSAGE_SIZE as int)
    }
}

/// The origin id a bus frame carries in its first four bytes.
pub open spec fn frame_origin(frame: Seq<u8>) -> u32
    recommends
        frame.len() >= 4,
{
    be32_value(frame)
}

/// The payload a bus frame carries after the 4-byte origin prefix.
pub open spec fn frame_payload(frame: Seq<u8>) -> Seq<u8>
    recommends
        frame.len() >= 4,
{
    frame.skip(4)
}

/// Builds the bus frame for a payload arriving from `origin`
/// (read-loop side of the fan-out).
pub fn frame_data(origin: u32, payload: &[u8]) -> (r: Vec<u8>)
    ensures
        r@ == spec_frame(origin, payload@),
        r@.len() >= 4,
{
    let mut out: Vec<u8> = Vec::new();
    push_be32(&mut out, origin);
    let take: usize = if payload.len() <= MESSAGE_SIZE {
        payload.len()
    } else {
        MESSAGE_SIZE
    };
    let mut i: usize = 0;
    while i < take
        invariant
            i <= take,
            take <= payload@.len(),
            out@ == be32_bytes(origin) + payload@.take(i as int),
        decreases take - i,
    {
        out.push(payload[i]);
        assert(out@ =~= be32_bytes(origin) + payload@.take(i as int + 1));
        i = i + 1;
    }
    if payload.len() <= MESSAGE_SIZE {
        assert(payload@.take(take as int) =~= payload@);
    }
    out
}

/// Write-loop decision for a frame received from the bus by the peer
/// with id `self_id`: `None` when the frame originated at this very
/// peer (echo suppression), otherwise the bare payload to write.
pub fn write_decision(self_id: u32, frame: &[u8]) -> (r: Option<Vec<u8>>)
    requires
        frame@.len() >= 4,
    ensures
        frame_origin(frame@) == self_id <==> r is None,
        r matches Some(p) ==> p@ == frame_payload(frame@),
{
    let origin = read_be32(frame);
    if origin == self_id {
        None
    } else {
        let mut out: Vec<u8> = Vec::new();
        let mut i: usize = 4;
        while i < frame.len()
            invariant
                4 <= i <= frame@.len(),
                out@ == frame@.subrange(4, i as int),
            decreases frame@.len() - i,
        {
            out.push(frame[i]);
            assert(out@ =~= frame@.subrange(4, i as int + 1));
            i = i + 1;
        }
        assert(out@ =~= frame_payload(frame@));
        Some(out)
    }
}

/// Echo suppression: a frame built for origin `o` carries `o` in its
/// prefix, so `o`'s own write loop, which skips frames whose prefix
/// equals its id, never writes it back; every other peer recovers the
/// (truncated) payload unchanged.
pub proof fn lemma_echo_suppression(o: u32, payload: Seq<u8>)
    ensures
        frame_origin(spec_frame(o, payload)) == o,
        payload.len() <= MESSAGE_SIZE ==> frame_payload(spec_frame(o, payload)) == payload,
{
    lemma_be32_roundtrip(o);
    let f = spec_frame(o, payload);
    assert(f.subrange(0, 4) =~= be32_bytes(o));
    assert(frame_origin(f) == be32_value(be32_bytes(o)));
    if payload.len() <= MESSAGE_SIZE {
        assert(frame_payload(f) =~= payload);
    }
}

} // verus!
