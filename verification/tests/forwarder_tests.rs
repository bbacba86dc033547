use rust_server_for_multiplayer::errors::AppError;
use rust_server_for_multiplayer::forwarder::{
    publish_transceiver_kinds, ForwardEventType, MediaInfo, PeerForwardInternal, PeerState,
    PublishSession, SenderBinding,
};
use rust_server_for_multiplayer::track::{PublishTrackRemote, TrackKind};

fn media(video_recv: u8, video_send: u8, audio_recv: u8, audio_send: u8) -> MediaInfo {
    MediaInfo {
        video_transceiver: (video_recv, video_send),
        audio_transceiver: (audio_recv, audio_send),
    }
}

fn publisher(id: &str, now: u64) -> PublishSession {
    PublishSession {
        id: id.to_string(),
        media_info: media(1, 0, 1, 0),
        create_time: now,
        connect_state: PeerState::New,
    }
}

fn track(rid: &str, kind: TrackKind, ssrc: u32) -> PublishTrackRemote {
    PublishTrackRemote { rid: rid.to_string(), kind, ssrc }
}

fn forwarder(now: u64) -> PeerForwardInternal {
    PeerForwardInternal::new("stream-a".to_string(), Vec::new(), now)
}

#[test]
fn publish_subscribe_round() {
    // a publisher with one video and one audio track, then two
    // subscribers each requesting send-only video.
    let mut f = forwarder(1_000);
    assert!(!f.publish_is_some());
    let ev = f.set_publish(publisher("pub-1", 1_000)).unwrap();
    assert_eq!(ev.kind, ForwardEventType::PublishUp);
    assert!(f.publish_is_some());
    assert!(!f.publish_is_ok());
    f.update_publish_state(PeerState::Connected);
    assert!(f.publish_is_ok());

    f.publish_track_up(track("", TrackKind::Video, 111)).unwrap();
    f.publish_track_up(track("", TrackKind::Audio, 222)).unwrap();

    let ev = f.new_subscription_peer(media(0, 1, 0, 0), "sub-x".to_string(), 1_100).unwrap();
    assert_eq!(ev.kind, ForwardEventType::SubscribeUp);
    let ev = f.new_subscription_peer(media(0, 1, 0, 0), "sub-y".to_string(), 1_200).unwrap();
    assert_eq!(ev.kind, ForwardEventType::SubscribeUp);

    let info = f.info();
    assert_eq!(info.id, "stream-a");
    let psi = info.publish_session_info.expect("publisher present");
    assert_eq!(psi.id, "pub-1");
    assert_eq!(psi.connect_state, PeerState::Connected);
    assert_eq!(info.subscribe_session_infos.len(), 2);
    assert_eq!(info.subscribe_session_infos[0].id, "sub-x");
    assert_eq!(info.subscribe_session_infos[1].id, "sub-y");
    assert_eq!(info.publish_leave_time, 0);
    assert_eq!(info.subscribe_leave_time, 0);
}

#[test]
fn publisher_churn() {
    // a second publisher fails while the first is present; after
    // the first leaves and the reaper fires, a retry succeeds.
    let mut f = forwarder(1_000);
    f.set_publish(publisher("pub-a", 1_000)).unwrap();
    let second = f.set_publish(publisher("pub-b", 1_001));
    assert_eq!(second.unwrap_err(), AppError::StreamAlreadyExists);

    let ev = f.remove_publish(&"pub-a".to_string(), 2_000).unwrap();
    assert_eq!(ev.kind, ForwardEventType::PublishDown);
    assert!(!f.should_reap(2_000 + 15_000, 15_000));
    assert!(f.should_reap(2_000 + 15_001, 15_000));

    // the reaper destroys the forwarder; the retry hits a fresh one
    let mut f = forwarder(20_000);
    assert!(f.set_publish(publisher("pub-b", 20_000)).is_ok());
}

#[test]
fn second_publisher_rejected_atomically() {
    let mut f = forwarder(1_000);
    f.set_publish(publisher("pub-a", 1_000)).unwrap();
    f.publish_track_up(track("", TrackKind::Video, 7)).unwrap();
    assert!(f.set_publish(publisher("pub-b", 1_001)).is_err());
    // the failed attempt changed nothing
    let info = f.info();
    assert_eq!(info.publish_session_info.unwrap().id, "pub-a");
}

#[test]
fn remove_publish_wrong_owner() {
    let mut f = forwarder(1_000);
    f.set_publish(publisher("pub-a", 1_000)).unwrap();
    let r = f.remove_publish(&"pub-b".to_string(), 2_000);
    assert_eq!(r.unwrap_err(), AppError::NotOwner);
    let r = f.remove_publish(&"pub-a".to_string(), 2_000);
    assert!(r.is_ok());
    let r = f.remove_publish(&"pub-a".to_string(), 2_500);
    assert_eq!(r.unwrap_err(), AppError::NoPublisher);
}

#[test]
fn subscribe_before_publish_rejected() {
    let mut f = forwarder(1_000);
    let r = f.new_subscription_peer(media(0, 1, 0, 1), "sub-1".to_string(), 1_100);
    assert_eq!(r.unwrap_err(), AppError::NoPublisher);
}

#[test]
fn oversized_media_request_rejected() {
    let mut f = forwarder(1_000);
    f.set_publish(publisher("pub-a", 1_000)).unwrap();
    let r = f.new_subscription_peer(media(0, 2, 0, 0), "sub-1".to_string(), 1_100);
    assert_eq!(r.unwrap_err(), AppError::InvalidMedia);
    let r = f.new_subscription_peer(media(0, 0, 0, 2), "sub-2".to_string(), 1_100);
    assert_eq!(r.unwrap_err(), AppError::InvalidMedia);
}

#[test]
fn idempotent_subscriber_removal() {
    // the first removal succeeds, the second reports NotFound.
    let mut f = forwarder(1_000);
    f.set_publish(publisher("pub-a", 1_000)).unwrap();
    f.new_subscription_peer(media(0, 1, 0, 1), "sub-1".to_string(), 1_100).unwrap();
    let first = f.remove_subscribe(&"sub-1".to_string(), 1_500);
    assert_eq!(first.unwrap().kind, ForwardEventType::SubscribeDown);
    let second = f.remove_subscribe(&"sub-1".to_string(), 1_600);
    assert_eq!(second.unwrap_err(), AppError::NotFound);
}

#[test]
fn track_registry_sorted_by_rid() {
    // after any insertion order the RIDs come out non-decreasing,
    // with insertion order breaking ties.
    let mut f = forwarder(1_000);
    f.set_publish(publisher("pub-a", 1_000)).unwrap();
    f.publish_track_up(track("m", TrackKind::Video, 1)).unwrap();
    f.publish_track_up(track("f", TrackKind::Video, 2)).unwrap();
    f.publish_track_up(track("", TrackKind::Audio, 3)).unwrap();
    f.publish_track_up(track("f", TrackKind::Video, 4)).unwrap();
    f.publish_track_up(track("q", TrackKind::Video, 5)).unwrap();

    let rids: Vec<&str> = f.publish_tracks.iter().map(|t| t.rid.as_str()).collect();
    assert_eq!(rids, vec!["", "f", "f", "m", "q"]);
    // the duplicate "f" keeps arrival order
    let f_ssrcs: Vec<u32> =
        f.publish_tracks.iter().filter(|t| t.rid == "f").map(|t| t.ssrc).collect();
    assert_eq!(f_ssrcs, vec![2, 4]);
}

#[test]
fn subscriber_binds_lowest_rid_track() {
    let mut f = forwarder(1_000);
    f.set_publish(publisher("pub-a", 1_000)).unwrap();
    f.publish_track_up(track("hi", TrackKind::Video, 10)).unwrap();
    f.publish_track_up(track("lo", TrackKind::Video, 20)).unwrap();
    f.new_subscription_peer(media(0, 1, 0, 0), "sub-1".to_string(), 1_100).unwrap();
    let s = &f.subscribe_group[0];
    assert_eq!(s.video_sender, Some(SenderBinding { bound_ssrc: Some(10) }));
    assert_eq!(s.audio_sender, None);
}

#[test]
fn subscriber_rebinds_when_tracks_arrive_later() {
    // a subscriber that joined before any track is bound as soon as
    // the registry changes, and rebinds when a lower RID appears
    let mut f = forwarder(1_000);
    f.set_publish(publisher("pub-a", 1_000)).unwrap();
    f.new_subscription_peer(media(0, 1, 0, 0), "sub-1".to_string(), 1_100).unwrap();
    assert_eq!(f.subscribe_group[0].video_sender, Some(SenderBinding { bound_ssrc: None }));

    f.publish_track_up(track("m", TrackKind::Video, 31)).unwrap();
    assert_eq!(f.subscribe_group[0].video_sender, Some(SenderBinding { bound_ssrc: Some(31) }));

    f.publish_track_up(track("a", TrackKind::Video, 32)).unwrap();
    assert_eq!(f.subscribe_group[0].video_sender, Some(SenderBinding { bound_ssrc: Some(32) }));
}

#[test]
fn tracks_cleared_and_unbound_on_publisher_departure() {
    // after remove_publish the registry is empty and every
    // subscriber's senders are unbound.
    let mut f = forwarder(1_000);
    f.set_publish(publisher("pub-a", 1_000)).unwrap();
    f.publish_track_up(track("", TrackKind::Video, 10)).unwrap();
    f.new_subscription_peer(media(0, 1, 0, 0), "sub-1".to_string(), 1_100).unwrap();
    assert_eq!(f.subscribe_group[0].video_sender, Some(SenderBinding { bound_ssrc: Some(10) }));

    f.remove_publish(&"pub-a".to_string(), 2_000).unwrap();
    assert!(f.publish_tracks.is_empty());
    assert_eq!(f.subscribe_group[0].video_sender, Some(SenderBinding { bound_ssrc: None }));
}

#[test]
fn timestamps_zero_while_present_and_after_creation() {
    // departure stamps are 0 while occupants exist; once stamped
    // they do not precede creation.
    let mut f = forwarder(5_000);
    assert_eq!(f.publish_leave_time, 0);
    assert_eq!(f.subscribe_leave_time, 5_000);
    f.set_publish(publisher("pub-a", 5_000)).unwrap();
    f.new_subscription_peer(media(0, 1, 0, 0), "sub-1".to_string(), 5_100).unwrap();
    assert_eq!(f.publish_leave_time, 0);
    assert_eq!(f.subscribe_leave_time, 0);
    f.remove_subscribe(&"sub-1".to_string(), 6_000).unwrap();
    assert_eq!(f.subscribe_leave_time, 6_000);
    f.remove_publish(&"pub-a".to_string(), 7_000).unwrap();
    assert_eq!(f.publish_leave_time, 7_000);
    assert!(f.publish_leave_time >= f.create_time);
    assert!(f.subscribe_leave_time >= f.create_time);
}

#[test]
fn close_lists_every_session() {
    let mut f = forwarder(1_000);
    f.set_publish(publisher("pub-a", 1_000)).unwrap();
    f.new_subscription_peer(media(0, 1, 0, 0), "sub-1".to_string(), 1_100).unwrap();
    f.new_subscription_peer(media(0, 0, 0, 1), "sub-2".to_string(), 1_200).unwrap();
    let ids = f.close_session_ids();
    assert_eq!(ids, vec!["pub-a".to_string(), "sub-1".to_string(), "sub-2".to_string()]);
}

#[test]
fn publish_kinds_follow_declared_media() {
    assert_eq!(
        publish_transceiver_kinds(media(1, 0, 1, 0)).unwrap(),
        vec![TrackKind::Video, TrackKind::Audio]
    );
    assert_eq!(publish_transceiver_kinds(media(0, 0, 1, 0)).unwrap(), vec![TrackKind::Audio]);
    assert_eq!(publish_transceiver_kinds(media(0, 0, 0, 0)).unwrap(), Vec::<TrackKind>::new());
    assert_eq!(publish_transceiver_kinds(media(2, 0, 0, 0)).unwrap_err(), AppError::InvalidMedia);
}

#[test]
fn peer_state_gone() {
    assert!(PeerState::Failed.is_gone());
    assert!(PeerState::Closed.is_gone());
    assert!(!PeerState::Connected.is_gone());
    assert!(!PeerState::New.is_gone());
}

#[test]
fn http_status_mapping() {
    assert_eq!(AppError::StreamAlreadyExists.http_status(), 409);
    assert_eq!(AppError::NoPublisher.http_status(), 404);
    assert_eq!(AppError::NotFound.http_status(), 404);
    assert_eq!(AppError::NotOwner.http_status(), 403);
    assert_eq!(AppError::InvalidMedia.http_status(), 400);
    assert_eq!(AppError::Transport.http_status(), 500);
    assert_eq!(AppError::ConfigInvalid.http_status(), 500);
}

#[test]
fn error_messages_are_stable() {
    assert_eq!(AppError::NoPublisher.message(), "publish is none");
    assert_eq!(AppError::NotOwner.message(), "publish not myself");
    assert_eq!(AppError::NotFound.message(), "not found session");
}
