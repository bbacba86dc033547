use rust_server_for_multiplayer::clock::current_millis;
use rust_server_for_multiplayer::data_channel::{frame_data, write_decision, MESSAGE_SIZE};
use rust_server_for_multiplayer::forwarder::SenderBinding;
use rust_server_for_multiplayer::rtcp::{map_feedback, RtcpMessage};
use rust_server_for_multiplayer::wire::{read_be32, u32_to_be_vec};
use rust_server_for_multiplayer::ws::{
    data_frame, deliver_frame, open_frame, route_frame, Group, GroupManager, WsRoute,
};

fn group(stream: &str, users: Vec<u32>) -> Group {
    Group { stream: stream.to_string(), users }
}

#[test]
fn be32_round_trip() {
    assert_eq!(u32_to_be_vec(0x0102_0304), vec![1, 2, 3, 4]);
    assert_eq!(read_be32(&[1, 2, 3, 4]), 0x0102_0304);
    assert_eq!(u32_to_be_vec(7), vec![0, 0, 0, 7]);
    assert_eq!(read_be32(&[0xff, 0xff, 0xff, 0xff]), u32::MAX);
}

#[test]
fn data_channel_framing() {
    let frame = frame_data(5, &[0xaa, 0xbb]);
    assert_eq!(frame, vec![0, 0, 0, 5, 0xaa, 0xbb]);
}

#[test]
fn data_channel_truncates_large_payload() {
    let payload = vec![0x77u8; MESSAGE_SIZE + 100];
    let frame = frame_data(1, &payload);
    assert_eq!(frame.len(), 4 + MESSAGE_SIZE);
}

#[test]
fn data_channel_echo_suppressed() {
    // the publisher (origin 0) opens a channel and sends
    // 0x01 0x02; subscribers receive it, the publisher does not.
    let frame = frame_data(0, &[0x01, 0x02]);
    assert_eq!(write_decision(0, &frame), None);
    assert_eq!(write_decision(8, &frame), Some(vec![0x01, 0x02]));
    assert_eq!(write_decision(9, &frame), Some(vec![0x01, 0x02]));
}

#[test]
fn rtcp_feedback_mapped_to_publisher_ssrc() {
    // a subscriber PLI reaches the publisher re-addressed to the
    // published track's SSRC.
    let bound = SenderBinding { bound_ssrc: Some(4242) };
    assert_eq!(
        map_feedback(RtcpMessage::PictureLossIndication, &bound),
        Some((RtcpMessage::PictureLossIndication, 4242))
    );
    assert_eq!(
        map_feedback(RtcpMessage::FullIntraRequest, &bound),
        Some((RtcpMessage::FullIntraRequest, 4242))
    );
    assert_eq!(
        map_feedback(RtcpMessage::ReceiverEstimatedMaximumBitrate, &bound),
        Some((RtcpMessage::ReceiverEstimatedMaximumBitrate, 4242))
    );
    // other feedback is dropped, as is feedback from an unbound sender
    assert_eq!(map_feedback(RtcpMessage::Nack, &bound), None);
    let unbound = SenderBinding { bound_ssrc: None };
    assert_eq!(map_feedback(RtcpMessage::PictureLossIndication, &unbound), None);
}

#[test]
fn ws_open_frame_layout() {
    assert_eq!(open_frame(7), vec![1, 0, 0, 0, 7, 0, 0, 0, 7]);
}

#[test]
fn ws_unicast_delivery() {
    // user 7 sends a frame addressed to user 5; only user 5
    // receives it, behind the data header naming the sender.
    let g = group("s", vec![3, 5, 7, 9]);
    let payload = [0x00, 0x00, 0x00, 0x05, 0xaa, 0xbb];
    let deliveries = deliver_frame(&g, 7, &payload);
    assert_eq!(deliveries.len(), 1);
    assert_eq!(deliveries[0].0, 5);
    assert_eq!(
        deliveries[0].1,
        vec![0x00, 0x00, 0x00, 0x00, 0x07, 0x00, 0x00, 0x00, 0x05, 0xaa, 0xbb]
    );
}

#[test]
fn ws_broadcast_delivery() {
    // a frame naming its own sender goes to every other
    // member exactly once and never back to the sender.
    let g = group("s", vec![3, 5, 7, 9]);
    let payload = [0x00, 0x00, 0x00, 0x07, 0xaa];
    let deliveries = deliver_frame(&g, 7, &payload);
    let recipients: Vec<u32> = deliveries.iter().map(|d| d.0).collect();
    assert_eq!(recipients, vec![3, 5, 9]);
    let expected = vec![0x00, 0x00, 0x00, 0x00, 0x07, 0x00, 0x00, 0x00, 0x07, 0xaa];
    for d in &deliveries {
        assert_eq!(d.1, expected);
    }
}

#[test]
fn ws_broadcast_of_bare_target_frame() {
    // the shortest broadcastable payload: the four target bytes alone
    let g = group("s", vec![2, 7]);
    let deliveries = deliver_frame(&g, 7, &[0x00, 0x00, 0x00, 0x07]);
    assert_eq!(deliveries.len(), 1);
    assert_eq!(deliveries[0].0, 2);
    assert_eq!(deliveries[0].1, vec![0x00, 0x00, 0x00, 0x00, 0x07, 0x00, 0x00, 0x00, 0x07]);
}

#[test]
fn ws_unknown_target_dropped() {
    let g = group("s", vec![3, 7]);
    let payload = [0x00, 0x00, 0x00, 0x05, 0xaa];
    let deliveries = deliver_frame(&g, 7, &payload);
    assert!(deliveries.is_empty());
}

#[test]
fn ws_route_decision() {
    match route_frame(7, &[0, 0, 0, 7, 0xaa]) {
        WsRoute::Broadcast(f) => assert_eq!(f, vec![0, 0, 0, 0, 7, 0, 0, 0, 7, 0xaa]),
        WsRoute::Unicast(_, _) => panic!("expected broadcast"),
    }
    match route_frame(7, &[0, 0, 0, 5, 0xaa]) {
        WsRoute::Unicast(to, f) => {
            assert_eq!(to, 5);
            assert_eq!(f, vec![0, 0, 0, 0, 7, 0, 0, 0, 5, 0xaa]);
        },
        WsRoute::Broadcast(_) => panic!("expected unicast"),
    }
}

#[test]
fn ws_data_frame_header() {
    assert_eq!(data_frame(0x0102_0304, &[0x55]), vec![0, 1, 2, 3, 4, 0x55]);
}

#[test]
fn group_membership_lifecycle() {
    let mut gm = GroupManager::new();
    gm.join_or_create(7, &"room-stream".to_string());
    gm.join_or_create(5, &"room-stream".to_string());
    gm.join_or_create(5, &"room-stream".to_string());  // re-join is a no-op
    gm.join_or_create(9, &"other".to_string());
    assert_eq!(gm.members_snapshot(&"room-stream".to_string()), vec![7, 5]);
    assert_eq!(gm.members_snapshot(&"other".to_string()), vec![9]);

    assert!(gm.leave_group(&"room-stream".to_string(), 7));
    assert!(!gm.leave_group(&"room-stream".to_string(), 7));
    assert_eq!(gm.members_snapshot(&"room-stream".to_string()), vec![5]);

    // the group disappears with its last member
    assert!(gm.leave_group(&"room-stream".to_string(), 5));
    assert!(gm.members_snapshot(&"room-stream".to_string()).is_empty());
    assert_eq!(gm.groups.len(), 1);
    assert_eq!(gm.members_snapshot(&"other".to_string()), vec![9]);
}

#[test]
fn clock_respects_floor() {
    let t = current_millis(0);
    assert_eq!(current_millis(u64::MAX), u64::MAX);
    assert!(current_millis(t) >= t);
}
