//! WebSocket group relay: room/stream-scoped membership and the
//! unicast/broadcast framing of binary messages.
//!
//! On the wire every relayed message carries a 5-byte header
//! `[type(1)][from(4)]` in front of the client payload; `type` is 0
//! for data and 1 for the synthetic open notice.  The first four
//! bytes of a client payload name the target user, big-endian; a
//! payload that names its own sender is broadcast to the rest of the
//! group instead.

use vstd::prelude::*;

use crate::wire::{be32_bytes, be32_value, push_be32, read_be32};

verus! {

/// Message-type byte of a relayed data frame.
pub const WS_TYPE_DATA: u8 = 0;

/// Message-type byte of the synthetic open notice.
pub const WS_TYPE_OPEN: u8 = 1;

/// The 5-byte relay header: message type, then the sender, big-endian.
pub open spec fn spec_ws_header(msg_type: u8, from: u32) -> Seq<u8> {
    seq![msg_type] + be32_bytes(from)
}

/// The frame the relay hands to recipients of a data payload from `from`.
pub open spec fn spec_data_frame(from: u32, payload: Seq<u8>) -> Seq<u8> {
    spec_ws_header(WS_TYPE_DATA, from) + payload
}

/// The synthetic frame announcing that `from` joined the group.
pub open spec fn spec_open_frame(from: u32) -> Seq<u8> {
    spec_ws_header(WS_TYPE_OPEN, from) + be32_bytes(from)
}

/// Builds the relayed data frame for a payload sent by `from`.
pub fn data_frame(from: u32, payload: &[u8]) -> (r: Vec<u8>)
    ensures
        r@ == spec_data_frame(from, payload@),
{
    let mut out: Vec<u8> = Vec::new();
    out.push(WS_TYPE_DATA);
    push_be32(&mut out, from);
    let mut i: usize = 0;
    while i < payload.len()
        invariant
            i <= payload@.len(),
            out@ == spec_ws_header(WS_TYPE_DATA, from) + payload@.take(i as int),
        decreases payload@.len() - i,
    {
        out.push(payload[i]);
        assert(out@ =~= spec_ws_header(WS_TYPE_DATA, from) + payload@.take(i as int + 1));
        i = i + 1;
    }
    assert(out@ =~= spec_data_frame(from, payload@));
    out
}

/// Builds the synthetic open notice emitted when `from` joins.
pub fn open_frame(from: u32) -> (r: Vec<u8>)
    ensures
        r@ == spec_open_frame(from),
{
    let mut out: Vec<u8> = Vec::new();
    out.push(WS_TYPE_OPEN);
    push_be32(&mut out, from);
    push_be32(&mut out, from);
    assert(out@ =~= spec_open_frame(from));
    out
}

/// Where one inbound binary payload goes: to the whole group, or to
/// the one user its first four bytes name.
pub enum WsRoute {
    /// Deliver the frame to every group member but the sender.
    Broadcast(Vec<u8>),
    /// Deliver the frame to the named user, if present.
    Unicast(u32, Vec<u8>),
}

/// A payload is broadcast exactly when its first four bytes name its
/// own sender.
pub open spec fn spec_is_broadcast(from: u32, payload: Seq<u8>) -> bool
    recommends
        payload.len() >= 4,
{
    be32_value(payload) == from
}

/// Routing decision for one inbound binary payload from `from`:
/// broadcast when the payload names its sender, otherwise unicast to
/// the user the first four bytes name.  Either way the relayed frame
/// is the payload behind a data header.
pub fn route_frame(from: u32, payload: &[u8]) -> (r: WsRoute)
    requires
        payload@.len() >= 4,
    ensures
        spec_is_broadcast(from, payload@) ==> (r matches WsRoute::Broadcast(f) && f@
            == spec_data_frame(from, payload@)),
        !spec_is_broadcast(from, payload@) ==> (r matches WsRoute::Unicast(to, f) && to
            == be32_value(payload@) && f@ == spec_data_frame(from, payload@)),
{
    let to = read_be32(payload);
    let frame = data_frame(from, payload);
    if to == from {
        WsRoute::Broadcast(frame)
    } else {
        WsRoute::Unicast(to, frame)
    }
}

/// No two entries of `s` are equal.
pub open spec fn distinct_seq<A>(s: Seq<A>) -> bool {
    forall|i: int, j: int| 0 <= i < j < s.len() ==> s[i] != s[j]
}

/// One stream's group: the users currently joined, each at most once.
pub struct Group {
    /// The stream id this group serves.
    pub stream: String,
    /// The joined users, no user twice.
    pub users: Vec<u32>,
}

impl Group {
    pub open spec fn wf(self) -> bool {
        distinct_seq(self.users@)
    }
}

/// The members other than `from`, in member order.
pub open spec fn spec_others(members: Seq<u32>, from: u32) -> Seq<u32>
    decreases members.len(),
{
    if members.len() == 0 {
        Seq::empty()
    } else {
        let rest = spec_others(members.drop_last(), from);
        if members.last() == from {
            rest
        } else {
            rest.push(members.last())
        }
    }
}

/// `spec_others` keeps exactly the members that are not the sender,
/// and keeps distinct members distinct.
pub proof fn lemma_others(members: Seq<u32>, from: u32)
    ensures
        forall|u: u32|
            #[trigger] spec_others(members, from).contains(u) <==> (members.contains(u) && u
                != from),
        distinct_seq(members) ==> distinct_seq(spec_others(members, from)),
    decreases members.len(),
{
    if members.len() == 0 {
        assert forall|u: u32| #[trigger]
            spec_others(members, from).contains(u) <==> (members.contains(u) && u != from) by {
            if members.contains(u) {
                let k = choose|k: int| 0 <= k < members.len() && members[k] == u;
            }
        }
    } else {
        let head = members.drop_last();
        lemma_others(head, from);
        let rest = spec_others(head, from);
        let out = spec_others(members, from);
        assert forall|u: u32| #[trigger] out.contains(u) implies (members.contains(u) && u
            != from) by {
            if rest.contains(u) {
                assert(head.contains(u));
                let k = choose|k: int| 0 <= k < head.len() && head[k] == u;
                assert(members[k] == u);
            } else {
                assert(members.last() != from && u == members.last());
                assert(members[members.len() - 1] == u);
            }
        }
        assert forall|u: u32| (members.contains(u) && u != from) implies #[trigger] out.contains(
            u,
        ) by {
            let k = choose|k: int| 0 <= k < members.len() && members[k] == u;
            if k < members.len() - 1 {
                assert(head[k] == u);
                assert(rest.contains(u));
                if members.last() != from {
                    let j = choose|j: int| 0 <= j < rest.len() && rest[j] == u;
                    assert(out[j] == u);
                } else {
                    assert(out == rest);
                }
            } else {
                assert(members.last() == u);
                assert(out.last() == u);
            }
        }
        if distinct_seq(members) {
            assert(distinct_seq(head));
            if members.last() != from {
                assert forall|i: int, j: int| 0 <= i < j < out.len() implies out[i] != out[j] by {
                    if j < out.len() - 1 {
                        assert(rest[i] == out[i] && rest[j] == out[j]);
                    } else {
                        assert(out[j] == members.last());
                        assert(rest.contains(out[i]));
                        assert(head.contains(out[i]));
                        let k = choose|k: int| 0 <= k < head.len() && head[k] == out[i];
                        assert(members[k] == out[i]);
                        assert(members[members.len() - 1] == members.last());
                    }
                }
            }
        }
    }
}

/// The users a payload from `from` reaches in a group with the given
/// members: on broadcast every member but the sender, in member
/// order; on unicast the named user alone, if joined.
pub open spec fn spec_recipients(members: Seq<u32>, from: u32, payload: Seq<u8>) -> Seq<u32>
    recommends
        payload.len() >= 4,
{
    if spec_is_broadcast(from, payload) {
        spec_others(members, from)
    } else if members.contains(be32_value(payload)) {
        seq![be32_value(payload)]
    } else {
        Seq::empty()
    }
}

/// Routes one payload within a group and lists each recipient with
/// the frame it receives.
pub fn deliver_frame(group: &Group, from: u32, payload: &[u8]) -> (r: Vec<(u32, Vec<u8>)>)
    requires
        payload@.len() >= 4,
    ensures
        r@.map_values(|p: (u32, Vec<u8>)| p.0) == spec_recipients(group.users@, from, payload@),
        forall|i: int|
            0 <= i < r@.len() ==> (#[trigger] r@[i]).1@ == spec_data_frame(from, payload@),
{
    let to = read_be32(payload);
    let mut out: Vec<(u32, Vec<u8>)> = Vec::new();
    if to == from {
        let mut i: usize = 0;
        while i < group.users.len()
            invariant
                i <= group.users@.len(),
                out@.map_values(|p: (u32, Vec<u8>)| p.0) == spec_others(
                    group.users@.take(i as int),
                    from,
                ),
                forall|k: int|
                    0 <= k < out@.len() ==> (#[trigger] out@[k]).1@ == spec_data_frame(
                        from,
                        payload@,
                    ),
            decreases group.users@.len() - i,
        {
            let ghost pre = out@.map_values(|p: (u32, Vec<u8>)| p.0);
            let u = group.users[i];
            if u != from {
                let frame = data_frame(from, payload);
                out.push((u, frame));
                assert(out@.map_values(|p: (u32, Vec<u8>)| p.0) =~= pre.push(u));
            }
            proof {
                let t1 = group.users@.take(i as int + 1);
                assert(t1.drop_last() =~= group.users@.take(i as int));
                assert(t1.last() == group.users@[i as int]);
            }
            i = i + 1;
        }
        proof {
            assert(group.users@.take(group.users@.len() as int) =~= group.users@);
        }
        out
    } else {
        let found = contains_user(&group.users, to);
        if found {
            let frame = data_frame(from, payload);
            out.push((to, frame));
            assert(out@.map_values(|p: (u32, Vec<u8>)| p.0) =~= seq![to]);
        } else {
            assert(out@.map_values(|p: (u32, Vec<u8>)| p.0) =~= Seq::<u32>::empty());
        }
        out
    }
}

/// Relay routing law: when the members are distinct, a payload whose
/// first four bytes name its own sender reaches every other member
/// exactly once and never the sender; any other payload reaches at
/// most one member, the one its first four bytes name.
pub proof fn lemma_ws_routing(members: Seq<u32>, from: u32, payload: Seq<u8>)
    requires
        distinct_seq(members),
        payload.len() >= 4,
    ensures
        distinct_seq(spec_recipients(members, from, payload)),
        spec_is_broadcast(from, payload) ==> forall|u: u32|
            #[trigger] spec_recipients(members, from, payload).contains(u) <==> (members.contains(
                u,
            ) && u != from),
        !spec_is_broadcast(from, payload) ==> spec_recipients(members, from, payload).len() <= 1
            && (forall|u: u32|
            #[trigger] spec_recipients(members, from, payload).contains(u) ==> u == be32_value(
                payload,
            ) && members.contains(u)),
{
    if spec_is_broadcast(from, payload) {
        lemma_others(members, from);
    }
}

/// Whether `x` is among `users`.
pub fn contains_user(users: &Vec<u32>, x: u32) -> (r: bool)
    ensures
        r == users@.contains(x),
{
    let mut i: usize = 0;
    while i < users.len()
        invariant
            i <= users@.len(),
            forall|k: int| 0 <= k < i ==> users@[k] != x,
        decreases users@.len() - i,
    {
        if users[i] == x {
            return true;
        }
        i = i + 1;
    }
    false
}

/// The per-room table of groups, one per stream id.
pub struct GroupManager {
    /// The live groups; stream ids are distinct and no group is empty.
    pub groups: Vec<Group>,
}

impl GroupManager {
    pub open spec fn wf(self) -> bool {
        &&& forall|i: int, j: int|
            0 <= i < j < self.groups@.len() ==> (#[trigger] self.groups@[i]).stream@ != (
            #[trigger] self.groups@[j]).stream@
        &&& forall|i: int| 0 <= i < self.groups@.len() ==> (#[trigger] self.groups@[i]).wf()
        &&& forall|i: int|
            0 <= i < self.groups@.len() ==> (#[trigger] self.groups@[i]).users@.len() > 0
    }

    /// Whether some group serves this stream.
    pub open spec fn has_stream(self, stream: Seq<char>) -> bool {
        exists|i: int| 0 <= i < self.groups@.len() && (#[trigger] self.groups@[i]).stream@ == stream
    }

    /// The index of the group serving this stream.
    pub open spec fn stream_index(self, stream: Seq<char>) -> int {
        choose|i: int| 0 <= i < self.groups@.len() && (#[trigger] self.groups@[i]).stream@ == stream
    }

    /// The members joined to this stream's group; empty when none is.
    pub open spec fn members(self, stream: Seq<char>) -> Seq<u32> {
        if self.has_stream(stream) {
            self.groups@[self.stream_index(stream)].users@
        } else {
            Seq::empty()
        }
    }

    /// Whether `user` is joined to this stream's group.
    pub open spec fn is_member(self, stream: Seq<char>, user: u32) -> bool {
        self.members(stream).contains(user)
    }

    /// A fresh table with no groups.
    pub fn new() -> (r: GroupManager)
        ensures
            r.wf(),
            r.groups@.len() == 0,
    {
        GroupManager { groups: Vec::new() }
    }

    /// In a well-formed table a matching index is the stream's index.
    proof fn lemma_index_of(self, i: int)
        requires
            self.wf(),
            0 <= i < self.groups@.len(),
        ensures
            self.has_stream(self.groups@[i].stream@),
            self.stream_index(self.groups@[i].stream@) == i,
    {
        let s = self.groups@[i].stream@;
        assert(self.has_stream(s));
        let j = self.stream_index(s);
        if i != j {
            assert(self.groups@[i].stream@ == self.groups@[j].stream@);
        }
    }

    /// The index of this stream's group, if any.
    fn find_group(&self, stream: &String) -> (r: Option<usize>)
        requires
            self.wf(),
        ensures
            match r {
                Some(i) => i < self.groups@.len() && self.groups@[i as int].stream@ == stream@
                    && self.has_stream(stream@) && self.stream_index(stream@) == i,
                None => !self.has_stream(stream@),
            },
    {
        let mut i: usize = 0;
        while i < self.groups.len()
            invariant
                self.wf(),
                i <= self.groups@.len(),
                forall|k: int| 0 <= k < i ==> (#[trigger] self.groups@[k]).stream@ != stream@,
            decreases self.groups@.len() - i,
        {
            if self.groups[i].stream.eq(stream) {
                proof {
                    self.lemma_index_of(i as int);
                }
                return Some(i);
            }
            i = i + 1;
        }
        None
    }

    /// Adds `user` to the stream's group, creating the group when the
    /// stream has none; a user already joined is left as is.  Every
    /// other group is untouched.
    pub fn join_or_create(&mut self, user: u32, stream: &String)
        requires
            old(self).wf(),
        ensures
            final(self).wf(),
            final(self).has_stream(stream@),
            final(self).is_member(stream@, user),
            final(self).members(stream@) == if old(self).is_member(stream@, user) {
                old(self).members(stream@)
            } else {
                old(self).members(stream@).push(user)
            },
            forall|s: Seq<char>|
                s != stream@ ==> #[trigger] final(self).members(s) == old(self).members(s),
            forall|s: Seq<char>|
                s != stream@ ==> (#[trigger] final(self).has_stream(s) == old(self).has_stream(s)),
    {
        let found = self.find_group(stream);
        match found {
            Some(i) => {
                let ghost pre = *self;
                let mut g = self.groups.remove(i);
                let already = contains_user(&g.users, user);
                if !already {
                    g.users.push(user);
                    assert(g.users@.last() == user);
                    assert(g.users@.contains(user));
                }
                let ghost gnew = g;
                self.groups.insert(i, g);
                proof {
                    assert(gnew.stream@ == stream@);
                    assert(self.groups@ =~= pre.groups@.update(i as int, gnew));
                    if !already {
                        assert(distinct_seq(gnew.users@)) by {
                            let b = pre.groups@[i as int].users@;
                            assert forall|p: int, q: int|
                                0 <= p < q < gnew.users@.len() implies gnew.users@[p]
                                != gnew.users@[q] by {
                                if q == gnew.users@.len() - 1 {
                                    assert(gnew.users@[p] == b[p]);
                                    assert(b.contains(b[p]));
                                }
                            }
                        }
                    }
                    lemma_groups_update(pre, *self, i as int, gnew);
                    self.lemma_index_of(i as int);
                    assert(gnew.users@.contains(user));
                    assert(self.members(stream@) == gnew.users@);
                }
            },
            None => {
                let ghost pre = *self;
                let mut users: Vec<u32> = Vec::new();
                users.push(user);
                let g = Group { stream: stream.clone(), users };
                let ghost gnew = g;
                self.groups.push(g);
                proof {
                    assert(self.groups@ =~= pre.groups@.push(gnew));
                    lemma_groups_push(pre, *self, gnew);
                    self.lemma_index_of(self.groups@.len() - 1);
                    assert(self.members(stream@) =~= Seq::empty().push(user));
                    assert(self.members(stream@)[0] == user);
                    assert(self.members(stream@).contains(user));
                    assert(old(self).members(stream@) =~= Seq::<u32>::empty());
                }
            },
        }
    }

    /// Removes `user` from the stream's group and the group itself
    /// once it has no members left.  Returns whether the user had
    /// been joined.  Every other group is untouched.
    pub fn leave_group(&mut self, stream: &String, user: u32) -> (r: bool)
        requires
            old(self).wf(),
        ensures
            final(self).wf(),
            r == old(self).is_member(stream@, user),
            !final(self).is_member(stream@, user),
            final(self).members(stream@) =~= old(self).members(stream@).remove_value(user),
            final(self).has_stream(stream@) <==> old(self).members(stream@).remove_value(
                user,
            ).len() > 0,
            forall|s: Seq<char>|
                s != stream@ ==> #[trigger] final(self).members(s) == old(self).members(s),
            forall|s: Seq<char>|
                s != stream@ ==> (#[trigger] final(self).has_stream(s) == old(self).has_stream(s)),
    {
        let found = self.find_group(stream);
        match found {
            Some(i) => {
                let ghost pre = *self;
                let mut g = self.groups.remove(i);
                let ghost base = pre.groups@[i as int].users@;
                let mut j: usize = 0;
                let mut removed = false;
                while j < g.users.len()
                    invariant
                        g.stream@ == stream@,
                        g.stream == pre.groups@[i as int].stream,
                        j <= g.users@.len(),
                        !removed ==> g.users@ == base,
                        !removed ==> forall|k: int| 0 <= k < j ==> (#[trigger] base[k]) != user,
                        removed ==> g.users@ =~= base.remove_value(user),
                        removed ==> base.contains(user),
                        distinct_seq(base),
                        distinct_seq(g.users@),
                        forall|u: u32| g.users@.contains(u) ==> base.contains(u),
                    decreases g.users@.len() - j,
                {
                    if !removed && g.users[j] == user {
                        proof {
                            assert(base[j as int] == user);
                            assert(base.contains(user));
                            lemma_remove_value_at(base, user, j as int);
                            lemma_remove_value_distinct(base, user);
                        }
                        g.users.remove(j);
                        removed = true;
                        proof {
                            assert forall|u: u32| g.users@.contains(u) implies base.contains(
                                u,
                            ) by {
                                assert(base.remove_value(user).contains(u));
                            }
                        }
                    } else {
                        j = j + 1;
                    }
                }
                proof {
                    if !removed {
                        assert(forall|k: int| 0 <= k < base.len() ==> (#[trigger] base[k]) != user);
                        assert(!base.contains(user));
                        base.index_of_first_ensures(user);
                        assert(base.remove_value(user) == base);
                        assert(g.users@ =~= base);
                    }
                }
                let was_member = removed;
                let ghost gnew = g;
                if g.users.len() > 0 {
                    self.groups.insert(i, g);
                    proof {
                        assert(self.groups@ =~= pre.groups@.update(i as int, gnew));
                        lemma_groups_update(pre, *self, i as int, gnew);
                        self.lemma_index_of(i as int);
                        if removed {
                            assert(!gnew.users@.contains(user)) by {
                                lemma_remove_value_distinct(
                                    pre.groups@[i as int].users@,
                                    user,
                                );
                            }
                        }
                    }
                } else {
                    proof {
                        assert(self.groups@ =~= pre.groups@.remove(i as int));
                        lemma_groups_remove(pre, *self, i as int);
                    }
                }
                was_member
            },
            None => {
                proof {
                    assert(old(self).members(stream@) =~= Seq::<u32>::empty());
                    old(self).members(stream@).index_of_first_ensures(user);
                }
                false
            },
        }
    }

    /// A copy of the members joined to this stream's group.
    pub fn members_snapshot(&self, stream: &String) -> (r: Vec<u32>)
        requires
            self.wf(),
        ensures
            r@ == self.members(stream@),
    {
        let found = self.find_group(stream);
        match found {
            Some(i) => {
                let g = &self.groups[i];
                let mut out: Vec<u32> = Vec::new();
                let mut k: usize = 0;
                while k < g.users.len()
                    invariant
                        k <= g.users@.len(),
                        out@ == g.users@.take(k as int),
                    decreases g.users@.len() - k,
                {
                    out.push(g.users[k]);
                    assert(out@ =~= g.users@.take(k as int + 1));
                    k = k + 1;
                }
                assert(out@ =~= g.users@);
                out
            },
            None => Vec::new(),
        }
    }
}

/// Removing the occurrence of `x` at index `j` of a sequence whose
/// earlier entries differ from `x` is `remove_value`.
proof fn lemma_remove_value_at(s: Seq<u32>, x: u32, j: int)
    requires
        0 <= j < s.len(),
        s[j] == x,
        forall|k: int| 0 <= k < j ==> s[k] != x,
    ensures
        s.remove_value(x) =~= s.remove(j),
{
    assert(s.contains(x));
    let i = s.index_of_first(x);
    s.index_of_first_ensures(x);
    assert(i matches Some(w) && w == j) by {
        let w = i.unwrap();
        if w < j {
            assert(s[w] == x);
        }
        if w > j {
            assert(s[j] == x);
        }
    }
}

/// After removing `x` from a duplicate-free sequence, `x` is gone and
/// the rest keeps its order and distinctness.
proof fn lemma_remove_value_distinct(s: Seq<u32>, x: u32)
    requires
        distinct_seq(s),
    ensures
        !s.remove_value(x).contains(x),
        distinct_seq(s.remove_value(x)),
        forall|u: u32| u != x ==> (s.remove_value(x).contains(u) <==> s.contains(u)),
{
    s.index_of_first_ensures(x);
    if s.contains(x) {
        let j = s.index_of_first(x).unwrap();
        let t = s.remove(j);
        assert forall|k: int| 0 <= k < t.len() implies t[k] != x by {
            if k < j {
                assert(t[k] == s[k]);
            } else {
                assert(t[k] == s[k + 1]);
            }
        }
        assert(!t.contains(x));
        assert forall|a: int, b: int| 0 <= a < b < t.len() implies t[a] != t[b] by {
            let sa = if a < j {
                a
            } else {
                a + 1
            };
            let sb = if b < j {
                b
            } else {
                b + 1
            };
            assert(t[a] == s[sa] && t[b] == s[sb]);
        }
        assert forall|u: u32| u != x implies (t.contains(u) <==> s.contains(u)) by {
            if t.contains(u) {
                let k = choose|k: int| 0 <= k < t.len() && t[k] == u;
                if k < j {
                    assert(s[k] == u);
                } else {
                    assert(s[k + 1] == u);
                }
            }
            if s.contains(u) {
                let k = choose|k: int| 0 <= k < s.len() && s[k] == u;
                if k < j {
                    assert(t[k] == u);
                } else {
                    assert(k != j);
                    assert(t[k - 1] == u);
                }
            }
        }
    }
}

/// Replacing one group by another for the same stream leaves every
/// other stream's view of the table unchanged.
proof fn lemma_groups_update(a: GroupManager, b: GroupManager, i: int, g: Group)
    requires
        a.wf(),
        0 <= i < a.groups@.len(),
        b.groups@ == a.groups@.update(i, g),
        g.stream@ == a.groups@[i].stream@,
        g.wf(),
        g.users@.len() > 0,
    ensures
        b.wf(),
        b.has_stream(g.stream@),
        b.stream_index(g.stream@) == i,
        b.members(g.stream@) == g.users@,
        forall|s: Seq<char>| s != g.stream@ ==> #[trigger] b.members(s) == a.members(s),
        forall|s: Seq<char>| s != g.stream@ ==> (#[trigger] b.has_stream(s) == a.has_stream(s)),
{
    assert(b.wf());
    b.lemma_index_of(i);
    assert forall|s: Seq<char>| s != g.stream@ implies (#[trigger] b.has_stream(s)
        == a.has_stream(s)) by {
        if a.has_stream(s) {
            let k = a.stream_index(s);
            assert(b.groups@[k].stream@ == s);
        }
        if b.has_stream(s) {
            let k = b.stream_index(s);
            assert(a.groups@[k].stream@ == s);
        }
    }
    assert forall|s: Seq<char>| s != g.stream@ implies #[trigger] b.members(s) == a.members(s) by {
        if a.has_stream(s) {
            let k = a.stream_index(s);
            assert(b.groups@[k].stream@ == s);
            b.lemma_index_of(k);
            a.lemma_index_of(k);
        }
    }
}

/// Appending a group for a fresh stream leaves every other stream's
/// view of the table unchanged.
proof fn lemma_groups_push(a: GroupManager, b: GroupManager, g: Group)
    requires
        a.wf(),
        !a.has_stream(g.stream@),
        b.groups@ == a.groups@.push(g),
        g.wf(),
        g.users@.len() > 0,
    ensures
        b.wf(),
        b.has_stream(g.stream@),
        b.stream_index(g.stream@) == a.groups@.len(),
        b.members(g.stream@) == g.users@,
        forall|s: Seq<char>| s != g.stream@ ==> #[trigger] b.members(s) == a.members(s),
        forall|s: Seq<char>| s != g.stream@ ==> (#[trigger] b.has_stream(s) == a.has_stream(s)),
{
    let n = a.groups@.len() as int;
    assert forall|i: int, j: int| 0 <= i < j < b.groups@.len() implies (
    #[trigger] b.groups@[i]).stream@ != (#[trigger] b.groups@[j]).stream@ by {
        if j == n {
            assert(b.groups@[i] == a.groups@[i]);
            if a.groups@[i].stream@ == g.stream@ {
                assert(a.has_stream(g.stream@));
            }
        }
    }
    assert(b.wf());
    b.lemma_index_of(n);
    assert forall|s: Seq<char>| s != g.stream@ implies (#[trigger] b.has_stream(s)
        == a.has_stream(s)) by {
        if a.has_stream(s) {
            let k = a.stream_index(s);
            assert(b.groups@[k].stream@ == s);
        }
        if b.has_stream(s) {
            let k = b.stream_index(s);
            assert(k != n);
            assert(a.groups@[k].stream@ == s);
        }
    }
    assert forall|s: Seq<char>| s != g.stream@ implies #[trigger] b.members(s) == a.members(s) by {
        if a.has_stream(s) {
            let k = a.stream_index(s);
            b.lemma_index_of(k);
            a.lemma_index_of(k);
        }
    }
}

/// Dropping one group leaves every other stream's view of the table
/// unchanged, and its own stream without a group.
proof fn lemma_groups_remove(a: GroupManager, b: GroupManager, i: int)
    requires
        a.wf(),
        0 <= i < a.groups@.len(),
        b.groups@ == a.groups@.remove(i),
    ensures
        b.wf(),
        !b.has_stream(a.groups@[i].stream@),
        forall|s: Seq<char>|
            s != a.groups@[i].stream@ ==> #[trigger] b.members(s) == a.members(s),
        forall|s: Seq<char>|
            s != a.groups@[i].stream@ ==> (#[trigger] b.has_stream(s) == a.has_stream(s)),
{
    let gone = a.groups@[i].stream@;
    assert forall|k: int| 0 <= k < b.groups@.len() implies (#[trigger] b.groups@[k]) == a.groups@[
        if k < i {
            k
        } else {
            k + 1
        }
    ] by {}
    assert forall|p: int, q: int| 0 <= p < q < b.groups@.len() implies (
    #[trigger] b.groups@[p]).stream@ != (#[trigger] b.groups@[q]).stream@ by {
        let sp = if p < i {
            p
        } else {
            p + 1
        };
        let sq = if q < i {
            q
        } else {
            q + 1
        };
        assert(b.groups@[p] == a.groups@[sp] && b.groups@[q] == a.groups@[sq]);
    }
    assert(b.wf());
    if b.has_stream(gone) {
        let k = b.stream_index(gone);
        let sk = if k < i {
            k
        } else {
            k + 1
        };
        assert(a.groups@[sk].stream@ == gone);
        assert(a.groups@[i].stream@ == gone);
    }
    assert forall|s: Seq<char>| s != gone implies (#[trigger] b.has_stream(s) == a.has_stream(
        s,
    )) by {
        if a.has_stream(s) {
            let k = a.stream_index(s);
            assert(k != i);
            if k < i {
                assert(b.groups@[k].stream@ == s);
            } else {
                assert(b.groups@[k - 1].stream@ == s);
            }
        }
        if b.has_stream(s) {
            let k = b.stream_index(s);
            let sk = if k < i {
                k
            } else {
                k + 1
            };
            assert(a.groups@[sk].stream@ == s);
        }
    }
    assert forall|s: Seq<char>| s != gone implies #[trigger] b.members(s) == a.members(s) by {
        if a.has_stream(s) {
            let k = a.stream_index(s);
            assert(k != i);
            let bk = if k < i {
                k
            } else {
                k - 1
            };
            assert(b.groups@[bk].stream@ == s);
            b.lemma_index_of(bk);
            a.lemma_index_of(k);
        }
    }
}

} // verus!
