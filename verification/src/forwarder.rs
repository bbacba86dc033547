//! The per-stream forwarding engine: one optional publisher session,
//! a bounded set of subscriber sessions, the RID-ordered registry of
//! published tracks, and the lifecycle events the engine emits.
//!
//! The engine is a state machine over plain values.  The driver owns
//! the peer connections, clocks and channels; it reports arrivals,
//! departures, tracks and peer-state changes here, and performs the
//! I/O the returned values call for.

use vstd::prelude::*;

use crate::config::IceServer;
use crate::errors::AppError;
use crate::track::{
    insert_track_sorted, select_track, stable_insert_pos, track_key, tracks_sorted,
    PublishTrackRemote, TrackKind,
};

verus! {

/// Connection state of a peer, as last reported by the driver.
#[derive(Clone, Copy, PartialEq, Eq, Structural, Debug)]
pub enum PeerState {
    New,
    Connecting,
    Connected,
    Disconnected,
    Failed,
    Closed,
}

impl PeerState {
    /// Whether the forwarder must treat the peer as gone and run the
    /// corresponding removal path.
    pub fn is_gone(&self) -> (r: bool)
        ensures
            r == (*self == PeerState::Failed || *self == PeerState::Closed),
    {
        match self {
            PeerState::Failed => true,
            PeerState::Closed => true,
            _ => false,
        }
    }
}

/// Transceiver counts declared in a session's SDP, one pair per kind:
/// `.0` counts the receive-direction transceivers, `.1` the
/// send-direction ones.
#[derive(Clone, Copy, Debug)]
pub struct MediaInfo {
    pub video_transceiver: (u8, u8),
    pub audio_transceiver: (u8, u8),
}

/// Snapshot of one session, as reported by `info`.
#[derive(Debug)]
pub struct SessionInfo {
    pub id: String,
    pub create_time: u64,
    pub connect_state: PeerState,
}

/// The publisher session of a stream.
#[derive(Debug)]
pub struct PublishSession {
    /// Session id, derived from the peer and stable for its lifetime.
    pub id: String,
    /// Transceiver counts parsed once from the remote description.
    pub media_info: MediaInfo,
    /// Millisecond timestamp of session creation.
    pub create_time: u64,
    /// Connection state as last reported by the driver.
    pub connect_state: PeerState,
}

/// The current track a subscriber-side outbound sender forwards:
/// the publisher-side SSRC of the selected track, or none while the
/// registry has no track of the sender's kind.
#[derive(Clone, Copy, PartialEq, Eq, Structural, Debug)]
pub struct SenderBinding {
    pub bound_ssrc: Option<u32>,
}

/// One subscriber session.  A sender is absent when the subscriber
/// requested no track of that kind.
#[derive(Debug)]
pub struct SubscribeSession {
    pub id: String,
    pub create_time: u64,
    pub connect_state: PeerState,
    pub video_sender: Option<SenderBinding>,
    pub audio_sender: Option<SenderBinding>,
}

/// Kinds of lifecycle event the forwarder emits.
#[derive(Clone, Copy, PartialEq, Eq, Structural, Debug)]
pub enum ForwardEventType {
    PublishUp,
    PublishDown,
    SubscribeUp,
    SubscribeDown,
    ReforwardUp,
    ReforwardDown,
}

/// Snapshot of a whole forwarder.
#[derive(Debug)]
pub struct ForwardInfo {
    pub id: String,
    pub create_time: u64,
    pub publish_leave_time: u64,
    pub subscribe_leave_time: u64,
    pub publish_session_info: Option<SessionInfo>,
    pub subscribe_session_infos: Vec<SessionInfo>,
}

/// One lifecycle event, carrying a snapshot of the forwarder taken
/// after the transition.
#[derive(Debug)]
pub struct ForwardEvent {
    pub kind: ForwardEventType,
    pub session: String,
    pub stream_info: ForwardInfo,
}

/// Per-stream forwarding state: at most one publisher, the subscriber
/// sessions, and the published tracks.
#[derive(Debug)]
pub struct PeerForwardInternal {
    /// The stream id; non-empty and unique process-wide.
    pub stream: String,
    /// Millisecond timestamp of forwarder creation.
    pub create_time: u64,
    /// 0 while a publisher is present; else the moment the last one left.
    pub publish_leave_time: u64,
    /// 0 while subscribers are present; else the moment the last one left.
    pub subscribe_leave_time: u64,
    /// The publisher session, at most one at any instant.
    pub publish: Option<PublishSession>,
    /// Published tracks, sorted ascending by RID.
    pub publish_tracks: Vec<PublishTrackRemote>,
    /// The subscriber sessions, ids distinct.
    pub subscribe_group: Vec<SubscribeSession>,
    /// ICE servers captured at construction.
    pub ice_server: Vec<IceServer>,
}

/// No two subscriber sessions share an id.
pub open spec fn distinct_ids(s: Seq<SubscribeSession>) -> bool {
    forall|i: int, j: int| 0 <= i < j < s.len() ==> (#[trigger] s[i]).id@ != (#[trigger] s[j]).id@
}

/// How one session is reported by `info`.
pub open spec fn session_info_matches(id: Seq<char>, create_time: u64, state: PeerState, si: SessionInfo) -> bool {
    &&& si.id@ == id
    &&& si.create_time == create_time
    &&& si.connect_state == state
}

/// How a whole forwarder is reported by `info`.
pub open spec fn info_matches(f: PeerForwardInternal, r: ForwardInfo) -> bool {
    &&& r.id@ == f.stream@
    &&& r.create_time == f.create_time
    &&& r.publish_leave_time == f.publish_leave_time
    &&& r.subscribe_leave_time == f.subscribe_leave_time
    &&& match f.publish {
        Some(p) => r.publish_session_info matches Some(si) && session_info_matches(
            p.id@,
            p.create_time,
            p.connect_state,
            si,
        ),
        None => r.publish_session_info is None,
    }
    &&& r.subscribe_session_infos@.len() == f.subscribe_group@.len()
    &&& forall|i: int|
        0 <= i < f.subscribe_group@.len() ==> session_info_matches(
            (#[trigger] f.subscribe_group@[i]).id@,
            f.subscribe_group@[i].create_time,
            f.subscribe_group@[i].connect_state,
            r.subscribe_session_infos@[i],
        )
}

/// How an emitted event describes a transition that ended in `post`.
pub open spec fn event_matches(
    post: PeerForwardInternal,
    kind: ForwardEventType,
    session: Seq<char>,
    ev: ForwardEvent,
) -> bool {
    &&& ev.kind == kind
    &&& ev.session@ == session
    &&& info_matches(post, ev.stream_info)
}

impl PeerForwardInternal {
    /// The forwarder's well-formedness: the timestamps are 0 exactly
    /// while the respective occupants are present and never precede
    /// creation; the tracks are RID-sorted and owned by a present
    /// publisher; subscriber ids are distinct.
    pub open spec fn wf(self) -> bool {
        &&& self.stream@.len() > 0
        &&& (self.publish is Some ==> self.publish_leave_time == 0)
        &&& (self.publish_leave_time != 0 ==> self.publish_leave_time >= self.create_time)
        &&& (self.subscribe_group@.len() > 0 ==> self.subscribe_leave_time == 0)
        &&& (self.subscribe_leave_time != 0 ==> self.subscribe_leave_time >= self.create_time)
        &&& tracks_sorted(self.publish_tracks@)
        &&& (self.publish is None ==> self.publish_tracks@.len() == 0)
        &&& distinct_ids(self.subscribe_group@)
    }

    /// A new forwarder for `stream`, created at `now` with no
    /// occupants: no publisher yet (so no tracks) and no subscribers
    /// since `now` itself.
    pub fn new(stream: String, ice_server: Vec<IceServer>, now: u64) -> (r: PeerForwardInternal)
        requires
            stream@.len() > 0,
            now > 0,
        ensures
            r.wf(),
            r.stream@ == stream@,
            r.create_time == now,
            r.publish_leave_time == 0,
            r.subscribe_leave_time == now,
            r.publish is None,
            r.publish_tracks@.len() == 0,
            r.subscribe_group@.len() == 0,
            r.ice_server == ice_server,
    {
        PeerForwardInternal {
            stream,
            create_time: now,
            publish_leave_time: 0,
            subscribe_leave_time: now,
            publish: None,
            publish_tracks: Vec::new(),
            subscribe_group: Vec::new(),
            ice_server,
        }
    }

    /// Whether a publisher session is present.
    pub fn publish_is_some(&self) -> (r: bool)
        ensures
            r == (self.publish is Some),
    {
        self.publish.is_some()
    }

    /// Whether a publisher session is present and its peer connected.
    pub fn publish_is_ok(&self) -> (r: bool)
        ensures
            r == (self.publish matches Some(p) && p.connect_state == PeerState::Connected),
    {
        match &self.publish {
            Some(p) => p.connect_state == PeerState::Connected,
            None => false,
        }
    }

    /// Whether some subscriber session has this id.
    pub fn has_subscriber(&self, session_id: &String) -> (r: bool)
        ensures
            r == exists|i: int|
                0 <= i < self.subscribe_group@.len() && (#[trigger] self.subscribe_group@[i]).id@
                    == session_id@,
    {
        let mut i: usize = 0;
        while i < self.subscribe_group.len()
            invariant
                i <= self.subscribe_group@.len(),
                forall|k: int|
                    0 <= k < i ==> (#[trigger] self.subscribe_group@[k]).id@ != session_id@,
            decreases self.subscribe_group@.len() - i,
        {
            if self.subscribe_group[i].id.eq(session_id) {
                return true;
            }
            i = i + 1;
        }
        false
    }

    /// The snapshot `info` reports: stream id, timestamps, and the
    /// session infos of the publisher and every subscriber.
    pub fn info(&self) -> (r: ForwardInfo)
        ensures
            info_matches(*self, r),
    {
        let publish_session_info = match &self.publish {
            Some(p) => Some(
                SessionInfo {
                    id: p.id.clone(),
                    create_time: p.create_time,
                    connect_state: p.connect_state,
                },
            ),
            None => None,
        };
        let mut subscribe_session_infos: Vec<SessionInfo> = Vec::new();
        let mut i: usize = 0;
        while i < self.subscribe_group.len()
            invariant
                i <= self.subscribe_group@.len(),
                subscribe_session_infos@.len() == i,
                forall|k: int|
                    0 <= k < i ==> session_info_matches(
                        (#[trigger] self.subscribe_group@[k]).id@,
                        self.subscribe_group@[k].create_time,
                        self.subscribe_group@[k].connect_state,
                        subscribe_session_infos@[k],
                    ),
            decreases self.subscribe_group@.len() - i,
        {
            let s = &self.subscribe_group[i];
            subscribe_session_infos.push(
                SessionInfo {
                    id: s.id.clone(),
                    create_time: s.create_time,
                    connect_state: s.connect_state,
                },
            );
            i = i + 1;
        }
        ForwardInfo {
            id: self.stream.clone(),
            create_time: self.create_time,
            publish_leave_time: self.publish_leave_time,
            subscribe_leave_time: self.subscribe_leave_time,
            publish_session_info,
            subscribe_session_infos,
        }
    }

    /// The ids of every live session, publisher first: the sessions a
    /// driver must close when the forwarder is shut down.
    pub fn close_session_ids(&self) -> (r: Vec<String>)
        ensures
            r@.len() == (if self.publish is Some {
                1int
            } else {
                0int
            }) + self.subscribe_group@.len(),
            self.publish matches Some(p) ==> r@[0]@ == p.id@,
            forall|i: int|
                0 <= i < self.subscribe_group@.len() ==> r@[i + (if self.publish is Some {
                    1int
                } else {
                    0int
                })]@ == (#[trigger] self.subscribe_group@[i]).id@,
    {
        let mut out: Vec<String> = Vec::new();
        match &self.publish {
            Some(p) => {
                out.push(p.id.clone());
            },
            None => {},
        }
        let ghost base = out@.len() as int;
        let mut i: usize = 0;
        while i < self.subscribe_group.len()
            invariant
                i <= self.subscribe_group@.len(),
                out@.len() == base + i,
                base == if self.publish is Some {
                    1int
                } else {
                    0int
                },
                self.publish matches Some(p) ==> out@[0]@ == p.id@,
                forall|k: int|
                    0 <= k < i ==> out@[k + base]@ == (#[trigger] self.subscribe_group@[k]).id@,
            decreases self.subscribe_group@.len() - i,
        {
            out.push(self.subscribe_group[i].id.clone());
            i = i + 1;
        }
        out
    }

    /// Whether the external reaper is due to destroy this forwarder:
    /// the publisher left more than `publish_leave_timeout`
    /// milliseconds before `now` and no subscribers remain.
    pub fn should_reap(&self, now: u64, publish_leave_timeout: u64) -> (r: bool)
        ensures
            r == (self.publish_leave_time != 0 && now - self.publish_leave_time
                > publish_leave_timeout && self.subscribe_group@.len() == 0),
    {
        self.publish_leave_time != 0 && now > self.publish_leave_time && now
            - self.publish_leave_time > publish_leave_timeout && self.subscribe_group.len() == 0
    }

    /// Records the peer state the driver observed for the publisher.
    pub fn update_publish_state(&mut self, state: PeerState)
        requires
            old(self).wf(),
            old(self).publish is Some,
        ensures
            final(self).wf(),
            final(self).publish matches Some(p) && p.connect_state == state && p.id
                == old(self).publish->Some_0.id && p.create_time
                == old(self).publish->Some_0.create_time && p.media_info
                == old(self).publish->Some_0.media_info,
            final(self).stream == old(self).stream,
            final(self).create_time == old(self).create_time,
            final(self).publish_leave_time == old(self).publish_leave_time,
            final(self).subscribe_leave_time == old(self).subscribe_leave_time,
            final(self).publish_tracks == old(self).publish_tracks,
            final(self).subscribe_group == old(self).subscribe_group,
    {
        let p = self.publish.take();
        match p {
            Some(mut ps) => {
                ps.connect_state = state;
                self.publish = Some(ps);
            },
            None => {},
        }
    }
}

/// The first track of the given kind, by index.
pub open spec fn spec_first_of_kind(s: Seq<PublishTrackRemote>, kind: TrackKind) -> Option<int>
    decreases s.len(),
{
    if s.len() == 0 {
        None
    } else if s[0].kind == kind {
        Some(0)
    } else {
        match spec_first_of_kind(s.skip(1), kind) {
            Some(i) => Some(i + 1),
            None => None,
        }
    }
}

/// `spec_first_of_kind` is the first matching index.
pub proof fn lemma_first_of_kind_char(s: Seq<PublishTrackRemote>, kind: TrackKind, p: int)
    requires
        0 <= p <= s.len(),
        forall|k: int| 0 <= k < p ==> (#[trigger] s[k]).kind != kind,
        p < s.len() ==> s[p].kind == kind,
    ensures
        spec_first_of_kind(s, kind) == if p < s.len() {
            Some(p)
        } else {
            None::<int>
        },
    decreases s.len(),
{
    if s.len() > 0 {
        if p == 0 {
        } else {
            let t = s.skip(1);
            assert forall|k: int| 0 <= k < p - 1 implies (#[trigger] t[k]).kind != kind by {
                assert(t[k] == s[k + 1]);
            }
            if p - 1 < t.len() {
                assert(t[p - 1] == s[p]);
            }
            lemma_first_of_kind_char(t, kind, p - 1);
        }
    }
}

/// What a sender of the given kind is bound to: the first track of
/// that kind in the (sorted) registry, or nothing while none exists.
pub open spec fn spec_selected_binding(s: Seq<PublishTrackRemote>, kind: TrackKind) -> SenderBinding {
    match spec_first_of_kind(s, kind) {
        Some(i) => SenderBinding { bound_ssrc: Some(s[i].ssrc) },
        None => SenderBinding { bound_ssrc: None },
    }
}

/// The binding a sender of `kind` takes from the current registry.
pub fn selected_binding(tracks: &Vec<PublishTrackRemote>, kind: TrackKind) -> (r: SenderBinding)
    requires
        tracks_sorted(tracks@),
    ensures
        r == spec_selected_binding(tracks@, kind),
{
    let sel = select_track(tracks, kind);
    match sel {
        Some(i) => {
            proof {
                lemma_first_of_kind_char(tracks@, kind, i as int);
            }
            SenderBinding { bound_ssrc: Some(tracks[i].ssrc) }
        },
        None => {
            proof {
                lemma_first_of_kind_char(tracks@, kind, tracks@.len() as int);
            }
            SenderBinding { bound_ssrc: None }
        },
    }
}

/// How one subscriber session looks after the binding loop has seen a
/// track-set change: present senders are re-bound to the selected
/// track of their kind (or to nothing when the registry has none);
/// everything else is untouched.
pub open spec fn rebound_session(
    s: SubscribeSession,
    tracks: Seq<PublishTrackRemote>,
    r: SubscribeSession,
) -> bool {
    &&& r.id@ == s.id@
    &&& r.create_time == s.create_time
    &&& r.connect_state == s.connect_state
    &&& r.video_sender == (match s.video_sender {
        Some(_) => Some(spec_selected_binding(tracks, TrackKind::Video)),
        None => None::<SenderBinding>,
    })
    &&& r.audio_sender == (match s.audio_sender {
        Some(_) => Some(spec_selected_binding(tracks, TrackKind::Audio)),
        None => None::<SenderBinding>,
    })
}

/// What `set_publish` guarantees: a second publisher is turned away
/// unchanged with `StreamAlreadyExists`; otherwise the session is
/// installed, the publisher-departure stamp is cleared, nothing else
/// moves, and a `PublishUp` event is produced.
pub open spec fn set_publish_post(
    pre: PeerForwardInternal,
    post: PeerForwardInternal,
    session: PublishSession,
    r: Result<ForwardEvent, AppError>,
) -> bool {
    if pre.publish is Some {
        &&& r matches Err(e) && e == AppError::StreamAlreadyExists
        &&& post == pre
    } else {
        &&& r matches Ok(ev) && event_matches(post, ForwardEventType::PublishUp, session.id@, ev)
        &&& post.publish == Some(session)
        &&& post.publish_leave_time == 0
        &&& post.stream == pre.stream
        &&& post.create_time == pre.create_time
        &&& post.subscribe_leave_time == pre.subscribe_leave_time
        &&& post.publish_tracks == pre.publish_tracks
        &&& post.subscribe_group == pre.subscribe_group
        &&& post.ice_server == pre.ice_server
    }
}

/// What `remove_publish` guarantees: without a publisher it fails
/// with `NoPublisher`; for any peer but the owner it fails with
/// `NotOwner`; otherwise the publisher is cleared, the tracks are
/// emptied, every subscriber's senders are unbound, the departure
/// moment is stamped, and a `PublishDown` event is produced.
pub open spec fn remove_publish_post(
    pre: PeerForwardInternal,
    post: PeerForwardInternal,
    session_id: Seq<char>,
    now: u64,
    r: Result<ForwardEvent, AppError>,
) -> bool {
    match pre.publish {
        None => {
            &&& r matches Err(e) && e == AppError::NoPublisher
            &&& post == pre
        },
        Some(p) => {
            if p.id@ != session_id {
                &&& r matches Err(e) && e == AppError::NotOwner
                &&& post == pre
            } else {
                &&& r matches Ok(ev) && event_matches(
                    post,
                    ForwardEventType::PublishDown,
                    session_id,
                    ev,
                )
                &&& post.publish is None
                &&& post.publish_tracks@.len() == 0
                &&& post.publish_leave_time == now
                &&& post.subscribe_group@.len() == pre.subscribe_group@.len()
                &&& forall|k: int|
                    0 <= k < pre.subscribe_group@.len() ==> rebound_session(
                        #[trigger] pre.subscribe_group@[k],
                        Seq::empty(),
                        post.subscribe_group@[k],
                    )
                &&& post.stream == pre.stream
                &&& post.create_time == pre.create_time
                &&& post.subscribe_leave_time == pre.subscribe_leave_time
                &&& post.ice_server == pre.ice_server
            }
        },
    }
}

/// What `publish_track_up` guarantees: the track is inserted at its
/// stable sorted position, every subscriber's senders are re-bound to
/// the new registry, and nothing else moves.
pub open spec fn publish_track_up_post(
    pre: PeerForwardInternal,
    post: PeerForwardInternal,
    track: PublishTrackRemote,
    r: Result<(), AppError>,
) -> bool {
    &&& r is Ok
    &&& post.publish_tracks@ == pre.publish_tracks@.insert(
        stable_insert_pos(pre.publish_tracks@, track_key(track)),
        track,
    )
    &&& post.subscribe_group@.len() == pre.subscribe_group@.len()
    &&& forall|k: int|
        0 <= k < pre.subscribe_group@.len() ==> rebound_session(
            #[trigger] pre.subscribe_group@[k],
            post.publish_tracks@,
            post.subscribe_group@[k],
        )
    &&& post.stream == pre.stream
    &&& post.create_time == pre.create_time
    &&& post.publish_leave_time == pre.publish_leave_time
    &&& post.subscribe_leave_time == pre.subscribe_leave_time
    &&& post.publish == pre.publish
    &&& post.ice_server == pre.ice_server
}

/// What `new_subscription_peer` guarantees: without a publisher it
/// fails with `NoPublisher`; more than one requested send-direction
/// transceiver of a kind fails with `InvalidMedia`; otherwise a
/// subscriber session is appended with senders for the requested
/// kinds, each bound to the currently selected track, the
/// subscriber-departure stamp is cleared, and a `SubscribeUp` event
/// is produced.
pub open spec fn new_subscription_post(
    pre: PeerForwardInternal,
    post: PeerForwardInternal,
    media_info: MediaInfo,
    session_id: Seq<char>,
    now: u64,
    r: Result<ForwardEvent, AppError>,
) -> bool {
    if pre.publish is None {
        &&& r matches Err(e) && e == AppError::NoPublisher
        &&& post == pre
    } else if media_info.video_transceiver.1 > 1 || media_info.audio_transceiver.1 > 1 {
        &&& r matches Err(e) && e == AppError::InvalidMedia
        &&& post == pre
    } else {
        &&& r matches Ok(ev) && event_matches(post, ForwardEventType::SubscribeUp, session_id, ev)
        &&& post.subscribe_group@.len() == pre.subscribe_group@.len() + 1
        &&& forall|k: int|
            0 <= k < pre.subscribe_group@.len() ==> post.subscribe_group@[k]
                == pre.subscribe_group@[k]
        &&& {
            let s = post.subscribe_group@.last();
            &&& s.id@ == session_id
            &&& s.create_time == now
            &&& s.connect_state == PeerState::New
            &&& s.video_sender == (if media_info.video_transceiver.1 > 0 {
                Some(spec_selected_binding(pre.publish_tracks@, TrackKind::Video))
            } else {
                None::<SenderBinding>
            })
            &&& s.audio_sender == (if media_info.audio_transceiver.1 > 0 {
                Some(spec_selected_binding(pre.publish_tracks@, TrackKind::Audio))
            } else {
                None::<SenderBinding>
            })
        }
        &&& post.subscribe_leave_time == 0
        &&& post.stream == pre.stream
        &&& post.create_time == pre.create_time
        &&& post.publish_leave_time == pre.publish_leave_time
        &&& post.publish == pre.publish
        &&& post.publish_tracks == pre.publish_tracks
        &&& post.ice_server == pre.ice_server
    }
}

/// The index of the subscriber session with this id.
pub open spec fn spec_sub_index(s: Seq<SubscribeSession>, id: Seq<char>) -> int {
    choose|i: int| 0 <= i < s.len() && (#[trigger] s[i]).id@ == id
}

/// What `remove_subscribe` guarantees: an unknown session id fails
/// with `NotFound`; otherwise the session is removed, the departure
/// moment is stamped once no subscriber remains, and a
/// `SubscribeDown` event is produced.  After success the id is gone.
pub open spec fn remove_subscribe_post(
    pre: PeerForwardInternal,
    post: PeerForwardInternal,
    session_id: Seq<char>,
    now: u64,
    r: Result<ForwardEvent, AppError>,
) -> bool {
    if !(exists|i: int|
        0 <= i < pre.subscribe_group@.len() && (#[trigger] pre.subscribe_group@[i]).id@
            == session_id) {
        &&& r matches Err(e) && e == AppError::NotFound
        &&& post == pre
    } else {
        &&& r matches Ok(ev) && event_matches(post, ForwardEventType::SubscribeDown, session_id, ev)
        &&& post.subscribe_group@ == pre.subscribe_group@.remove(
            spec_sub_index(pre.subscribe_group@, session_id),
        )
        &&& forall|k: int|
            0 <= k < post.subscribe_group@.len() ==> (#[trigger] post.subscribe_group@[k]).id@
                != session_id
        &&& post.subscribe_leave_time == (if post.subscribe_group@.len() == 0 {
            now
        } else {
            pre.subscribe_leave_time
        })
        &&& post.stream == pre.stream
        &&& post.create_time == pre.create_time
        &&& post.publish_leave_time == pre.publish_leave_time
        &&& post.publish == pre.publish
        &&& post.publish_tracks == pre.publish_tracks
        &&& post.ice_server == pre.ice_server
    }
}

impl PeerForwardInternal {
    /// Re-binds every subscriber's present senders to the currently
    /// selected track of each kind.
    fn rebind_subscribers(&mut self)
        requires
            old(self).wf(),
        ensures
            final(self).wf(),
            final(self).subscribe_group@.len() == old(self).subscribe_group@.len(),
            forall|k: int|
                0 <= k < old(self).subscribe_group@.len() ==> rebound_session(
                    #[trigger] old(self).subscribe_group@[k],
                    old(self).publish_tracks@,
                    final(self).subscribe_group@[k],
                ),
            final(self).stream == old(self).stream,
            final(self).create_time == old(self).create_time,
            final(self).publish_leave_time == old(self).publish_leave_time,
            final(self).subscribe_leave_time == old(self).subscribe_leave_time,
            final(self).publish == old(self).publish,
            final(self).publish_tracks == old(self).publish_tracks,
            final(self).ice_server == old(self).ice_server,
    {
        let vb = selected_binding(&self.publish_tracks, TrackKind::Video);
        let ab = selected_binding(&self.publish_tracks, TrackKind::Audio);
        let mut i: usize = 0;
        while i < self.subscribe_group.len()
            invariant
                i <= self.subscribe_group@.len(),
                vb == spec_selected_binding(old(self).publish_tracks@, TrackKind::Video),
                ab == spec_selected_binding(old(self).publish_tracks@, TrackKind::Audio),
                self.subscribe_group@.len() == old(self).subscribe_group@.len(),
                forall|k: int|
                    i <= k < self.subscribe_group@.len() ==> #[trigger] self.subscribe_group@[k]
                        == old(self).subscribe_group@[k],
                forall|k: int|
                    0 <= k < i ==> rebound_session(
                        #[trigger] old(self).subscribe_group@[k],
                        old(self).publish_tracks@,
                        self.subscribe_group@[k],
                    ),
                self.stream == old(self).stream,
                self.create_time == old(self).create_time,
                self.publish_leave_time == old(self).publish_leave_time,
                self.subscribe_leave_time == old(self).subscribe_leave_time,
                self.publish == old(self).publish,
                self.publish_tracks == old(self).publish_tracks,
                self.ice_server == old(self).ice_server,
            decreases self.subscribe_group@.len() - i,
        {
            let sid = self.subscribe_group[i].id.clone();
            let ct = self.subscribe_group[i].create_time;
            let cs = self.subscribe_group[i].connect_state;
            let vs = self.subscribe_group[i].video_sender;
            let asn = self.subscribe_group[i].audio_sender;
            let updated = SubscribeSession {
                id: sid,
                create_time: ct,
                connect_state: cs,
                video_sender: match vs {
                    Some(_) => Some(vb),
                    None => None,
                },
                audio_sender: match asn {
                    Some(_) => Some(ab),
                    None => None,
                },
            };
            self.subscribe_group[i] = updated;
            i = i + 1;
        }
        proof {
            assert forall|p: int, q: int|
                0 <= p < q < self.subscribe_group@.len() implies (
            #[trigger] self.subscribe_group@[p]).id@ != (#[trigger] self.subscribe_group@[q]).id@ by {
                assert(rebound_session(
                    old(self).subscribe_group@[p],
                    old(self).publish_tracks@,
                    self.subscribe_group@[p],
                ));
                assert(rebound_session(
                    old(self).subscribe_group@[q],
                    old(self).publish_tracks@,
                    self.subscribe_group@[q],
                ));
            }
        }
    }

    /// Installs a publisher session, turning a second publisher away
    /// with `StreamAlreadyExists`.  On success the
    /// publisher-departure stamp is cleared and a `PublishUp` event
    /// is returned for the driver to emit.
    pub fn set_publish(&mut self, session: PublishSession) -> (r: Result<ForwardEvent, AppError>)
        requires
            old(self).wf(),
        ensures
            final(self).wf(),
            set_publish_post(*old(self), *final(self), session, r),
    {
        if self.publish.is_some() {
            return Err(AppError::StreamAlreadyExists);
        }
        let sid = session.id.clone();
        self.publish = Some(session);
        self.publish_leave_time = 0;
        let stream_info = self.info();
        Ok(ForwardEvent { kind: ForwardEventType::PublishUp, session: sid, stream_info })
    }

    /// Removes the publisher session named by `session_id` at moment
    /// `now`: clears the publisher, empties the tracks, unbinds every
    /// subscriber's senders, stamps the departure, and returns the
    /// `PublishDown` event.  A missing publisher fails with
    /// `NoPublisher`, a non-owner with `NotOwner`.
    pub fn remove_publish(&mut self, session_id: &String, now: u64) -> (r: Result<
        ForwardEvent,
        AppError,
    >)
        requires
            old(self).wf(),
            now >= old(self).create_time,
        ensures
            final(self).wf(),
            remove_publish_post(*old(self), *final(self), session_id@, now, r),
    {
        match &self.publish {
            None => {
                return Err(AppError::NoPublisher);
            },
            Some(p) => {
                if !p.id.eq(session_id) {
                    return Err(AppError::NotOwner);
                }
            },
        }
        self.publish = None;
        self.publish_tracks = Vec::new();
        self.rebind_subscribers();
        self.publish_leave_time = now;
        let stream_info = self.info();
        Ok(
            ForwardEvent {
                kind: ForwardEventType::PublishDown,
                session: session_id.clone(),
                stream_info,
            },
        )
    }

    /// Adds one published track to the registry at its stable sorted
    /// position and re-binds every subscriber to the updated registry.
    pub fn publish_track_up(&mut self, track: PublishTrackRemote) -> (r: Result<(), AppError>)
        requires
            old(self).wf(),
            old(self).publish is Some,
        ensures
            final(self).wf(),
            publish_track_up_post(*old(self), *final(self), track, r),
    {
        insert_track_sorted(&mut self.publish_tracks, track);
        self.rebind_subscribers();
        Ok(())
    }

    /// Admits one subscriber session: refused with `NoPublisher`
    /// before a publisher is present and with `InvalidMedia` when
    /// more than one send-direction transceiver of a kind is
    /// requested.  On success the session is appended with senders
    /// for the requested kinds, bound to the currently selected
    /// tracks, and a `SubscribeUp` event is returned.
    pub fn new_subscription_peer(
        &mut self,
        media_info: MediaInfo,
        session_id: String,
        now: u64,
    ) -> (r: Result<ForwardEvent, AppError>)
        requires
            old(self).wf(),
            forall|k: int|
                0 <= k < old(self).subscribe_group@.len() ==> (
                #[trigger] old(self).subscribe_group@[k]).id@ != session_id@,
        ensures
            final(self).wf(),
            new_subscription_post(*old(self), *final(self), media_info, session_id@, now, r),
    {
        if !self.publish_is_some() {
            return Err(AppError::NoPublisher);
        }
        if media_info.video_transceiver.1 > 1 || media_info.audio_transceiver.1 > 1 {
            return Err(AppError::InvalidMedia);
        }
        let video_sender = if media_info.video_transceiver.1 > 0 {
            Some(selected_binding(&self.publish_tracks, TrackKind::Video))
        } else {
            None
        };
        let audio_sender = if media_info.audio_transceiver.1 > 0 {
            Some(selected_binding(&self.publish_tracks, TrackKind::Audio))
        } else {
            None
        };
        let sid = session_id.clone();
        let session = SubscribeSession {
            id: session_id,
            create_time: now,
            connect_state: PeerState::New,
            video_sender,
            audio_sender,
        };
        self.subscribe_group.push(session);
        self.subscribe_leave_time = 0;
        let stream_info = self.info();
        Ok(ForwardEvent { kind: ForwardEventType::SubscribeUp, session: sid, stream_info })
    }

    /// Removes the subscriber session named by `session_id` at moment
    /// `now`, stamping the departure once no subscriber remains, and
    /// returns the `SubscribeDown` event.  An unknown id fails with
    /// `NotFound`.
    pub fn remove_subscribe(&mut self, session_id: &String, now: u64) -> (r: Result<
        ForwardEvent,
        AppError,
    >)
        requires
            old(self).wf(),
            now >= old(self).create_time,
        ensures
            final(self).wf(),
            remove_subscribe_post(*old(self), *final(self), session_id@, now, r),
    {
        let mut i: usize = 0;
        let n = self.subscribe_group.len();
        while i < n
            invariant
                old(self) == self,
                n == self.subscribe_group@.len(),
                i <= n,
                forall|k: int|
                    0 <= k < i ==> (#[trigger] self.subscribe_group@[k]).id@ != session_id@,
            ensures
                old(self) == self,
                i <= n,
                forall|k: int|
                    0 <= k < i ==> (#[trigger] self.subscribe_group@[k]).id@ != session_id@,
                i < n ==> self.subscribe_group@[i as int].id@ == session_id@,
            decreases n - i,
        {
            if self.subscribe_group[i].id.eq(session_id) {
                break ;
            }
            i = i + 1;
        }
        if i >= n {
            return Err(AppError::NotFound);
        }
        proof {
            lemma_sub_index(old(self).subscribe_group@, i as int);
        }
        self.subscribe_group.remove(i);
        if self.subscribe_group.len() == 0 {
            self.subscribe_leave_time = now;
        }
        proof {
            assert forall|k: int| 0 <= k < self.subscribe_group@.len() implies (
            #[trigger] self.subscribe_group@[k]).id@ != session_id@ by {
                if k < i as int {
                    assert(self.subscribe_group@[k] == old(self).subscribe_group@[k]);
                } else {
                    assert(self.subscribe_group@[k] == old(self).subscribe_group@[k + 1]);
                    assert(old(self).subscribe_group@[i as int].id@ == session_id@);
                }
            }
        }
        let stream_info = self.info();
        Ok(
            ForwardEvent {
                kind: ForwardEventType::SubscribeDown,
                session: session_id.clone(),
                stream_info,
            },
        )
    }
}

/// In a duplicate-free subscriber list, a matching index is the
/// session's index.
proof fn lemma_sub_index(s: Seq<SubscribeSession>, i: int)
    requires
        distinct_ids(s),
        0 <= i < s.len(),
    ensures
        spec_sub_index(s, s[i].id@) == i,
{
    let id = s[i].id@;
    assert(0 <= i < s.len() && s[i].id@ == id);
    let j = spec_sub_index(s, id);
    if i != j {
        assert(s[i].id@ == s[j].id@);
    }
}

/// Singleton publisher: the `publish` slot holds at most one session
/// by construction, and of two attach attempts in a row on a stream
/// with no publisher exactly the first succeeds — the second is
/// turned away with `StreamAlreadyExists` and changes nothing.
pub proof fn lemma_singleton_publisher(
    f0: PeerForwardInternal,
    f1: PeerForwardInternal,
    f2: PeerForwardInternal,
    s1: PublishSession,
    s2: PublishSession,
    r1: Result<ForwardEvent, AppError>,
    r2: Result<ForwardEvent, AppError>,
)
    requires
        f0.publish is None,
        set_publish_post(f0, f1, s1, r1),
        set_publish_post(f1, f2, s2, r2),
    ensures
        r1 is Ok,
        r2 matches Err(e) && e == AppError::StreamAlreadyExists,
        f2 == f1,
{
}

/// Track atomicity: once `remove_publish` succeeds the registry is
/// empty and every subscriber's senders are unbound, and a following
/// `set_publish` still finds the registry empty — new tracks appear
/// only through later `publish_track_up` calls.
pub proof fn lemma_track_atomicity(
    f0: PeerForwardInternal,
    f1: PeerForwardInternal,
    f2: PeerForwardInternal,
    session_id: Seq<char>,
    now: u64,
    s: PublishSession,
    r1: Result<ForwardEvent, AppError>,
    r2: Result<ForwardEvent, AppError>,
)
    requires
        remove_publish_post(f0, f1, session_id, now, r1),
        r1 is Ok,
        set_publish_post(f1, f2, s, r2),
    ensures
        f1.publish_tracks@.len() == 0,
        forall|k: int|
            0 <= k < f1.subscribe_group@.len() ==> ((#[trigger] f1.subscribe_group@[k]).video_sender
                matches Some(b) ==> b.bound_ssrc is None),
        forall|k: int|
            0 <= k < f1.subscribe_group@.len() ==> ((#[trigger] f1.subscribe_group@[k]).audio_sender
                matches Some(b) ==> b.bound_ssrc is None),
        f2.publish_tracks@.len() == 0,
{
    assert(f0.publish is Some);
    assert forall|k: int|
        0 <= k < f1.subscribe_group@.len() implies ((
    #[trigger] f1.subscribe_group@[k]).video_sender matches Some(b) ==> b.bound_ssrc is None) by {
        assert(rebound_session(f0.subscribe_group@[k], Seq::empty(), f1.subscribe_group@[k]));
    }
    assert forall|k: int|
        0 <= k < f1.subscribe_group@.len() implies ((
    #[trigger] f1.subscribe_group@[k]).audio_sender matches Some(b) ==> b.bound_ssrc is None) by {
        assert(rebound_session(f0.subscribe_group@[k], Seq::empty(), f1.subscribe_group@[k]));
    }
}

/// Idempotent removal: removing a joined subscriber succeeds, and
/// removing the same session id again fails with `NotFound` and
/// changes nothing.
pub proof fn lemma_idempotent_removal(
    f0: PeerForwardInternal,
    f1: PeerForwardInternal,
    f2: PeerForwardInternal,
    session_id: Seq<char>,
    n1: u64,
    n2: u64,
    r1: Result<ForwardEvent, AppError>,
    r2: Result<ForwardEvent, AppError>,
)
    requires
        exists|i: int|
            0 <= i < f0.subscribe_group@.len() && (#[trigger] f0.subscribe_group@[i]).id@
                == session_id,
        remove_subscribe_post(f0, f1, session_id, n1, r1),
        remove_subscribe_post(f1, f2, session_id, n2, r2),
    ensures
        r1 is Ok,
        r2 matches Err(e) && e == AppError::NotFound,
        f2 == f1,
{
}

/// The receive-direction transceiver kinds a publisher peer needs,
/// video first.
pub open spec fn spec_publish_kinds(media_info: MediaInfo) -> Seq<TrackKind> {
    if media_info.video_transceiver.0 > 0 && media_info.audio_transceiver.0 > 0 {
        seq![TrackKind::Video, TrackKind::Audio]
    } else if media_info.video_transceiver.0 > 0 {
        seq![TrackKind::Video]
    } else if media_info.audio_transceiver.0 > 0 {
        seq![TrackKind::Audio]
    } else {
        Seq::empty()
    }
}

/// The transceiver kinds to add, receive direction, when building a
/// publisher peer for a session declaring `media_info`; more than one
/// declared transceiver of a kind is refused with `InvalidMedia`.
pub fn publish_transceiver_kinds(media_info: MediaInfo) -> (r: Result<Vec<TrackKind>, AppError>)
    ensures
        (media_info.video_transceiver.0 > 1 || media_info.audio_transceiver.0 > 1) <==> (r matches
            Err(e) && e == AppError::InvalidMedia),
        r matches Ok(v) ==> v@ == spec_publish_kinds(media_info),
{
    if media_info.video_transceiver.0 > 1 || media_info.audio_transceiver.0 > 1 {
        return Err(AppError::InvalidMedia);
    }
    let mut kinds: Vec<TrackKind> = Vec::new();
    if media_info.video_transceiver.0 > 0 {
        kinds.push(TrackKind::Video);
    }
    if media_info.audio_transceiver.0 > 0 {
        kinds.push(TrackKind::Audio);
    }
    proof {
        assert(kinds@ =~= spec_publish_kinds(media_info));
    }
    Ok(kinds)
}

/// Timestamp monotonicity: in a well-formed forwarder the departure
/// stamps are 0 while the respective occupants are present, and once
/// stamped they never precede the forwarder's creation.
pub proof fn lemma_timestamp_monotonicity(f: PeerForwardInternal)
    requires
        f.wf(),
    ensures
        f.publish is Some ==> f.publish_leave_time == 0,
        f.subscribe_group@.len() > 0 ==> f.subscribe_leave_time == 0,
        f.publish_leave_time != 0 ==> f.publish_leave_time >= f.create_time,
        f.subscribe_leave_time != 0 ==> f.subscribe_leave_time >= f.create_time,
{
}

} // verus!
