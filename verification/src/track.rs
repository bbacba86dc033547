//! The published-track registry: the publisher's remote tracks, kept
//! sorted ascending by RID (lexicographic over the RID's UTF-8 bytes,
//! the empty RID first), with insertion order breaking ties.

use vstd::prelude::*;
use vstd::utf8::encode_utf8;

verus! {

/// Whether a track carries video or audio.
#[derive(Clone, Copy, PartialEq, Eq, Structural, Debug)]
pub enum TrackKind {
    Video,
    Audio,
}

/// One remote track published on a stream.  The live track handle is
/// owned by the driver; the registry keeps what the forwarding logic
/// reads: the RID, the kind, and the publisher-side SSRC.
#[derive(Debug)]
pub struct PublishTrackRemote {
    /// RTP stream id; empty when simulcast is not used.
    pub rid: String,
    /// Video or audio.
    pub kind: TrackKind,
    /// The publisher-side synchronization source id.
    pub ssrc: u32,
}

/// The sort key of a track: its RID's UTF-8 bytes.
pub open spec fn track_key(t: PublishTrackRemote) -> Seq<u8> {
    encode_utf8(t.rid@)
}

/// Lexicographic order on byte strings: `a` comes no later than `b`.
pub open spec fn lex_le(a: Seq<u8>, b: Seq<u8>) -> bool
    decreases a.len(),
{
    if a.len() == 0 {
        true
    } else if b.len() == 0 {
        false
    } else if a[0] < b[0] {
        true
    } else if a[0] > b[0] {
        false
    } else {
        lex_le(a.skip(1), b.skip(1))
    }
}

/// `lex_le` is reflexive.
pub proof fn lemma_lex_le_refl(a: Seq<u8>)
    ensures
        lex_le(a, a),
    decreases a.len(),
{
    if a.len() > 0 {
        lemma_lex_le_refl(a.skip(1));
    }
}

/// `lex_le` is total: two byte strings always compare one way or the
/// other.
pub proof fn lemma_lex_le_total(a: Seq<u8>, b: Seq<u8>)
    ensures
        lex_le(a, b) || lex_le(b, a),
    decreases a.len(),
{
    if a.len() > 0 && b.len() > 0 && a[0] == b[0] {
        lemma_lex_le_total(a.skip(1), b.skip(1));
    }
}

/// `lex_le` is transitive.
pub proof fn lemma_lex_le_trans(a: Seq<u8>, b: Seq<u8>, c: Seq<u8>)
    requires
        lex_le(a, b),
        lex_le(b, c),
    ensures
        lex_le(a, c),
    decreases a.len(),
{
    if a.len() > 0 && b.len() > 0 && c.len() > 0 && a[0] == b[0] && b[0] == c[0] {
        lemma_lex_le_trans(a.skip(1), b.skip(1), c.skip(1));
    }
}

/// The registry invariant: tracks appear in non-decreasing RID order.
pub open spec fn tracks_sorted(s: Seq<PublishTrackRemote>) -> bool {
    forall|i: int, j: int|
        0 <= i < j < s.len() ==> lex_le(track_key(#[trigger] s[i]), track_key(#[trigger] s[j]))
}

/// Where a new track with sort key `key` goes: right after every
/// track that compares no later, so equal RIDs keep arrival order.
pub open spec fn stable_insert_pos(s: Seq<PublishTrackRemote>, key: Seq<u8>) -> int
    decreases s.len(),
{
    if s.len() == 0 {
        0
    } else if lex_le(track_key(s[0]), key) {
        1 + stable_insert_pos(s.skip(1), key)
    } else {
        0
    }
}

/// `stable_insert_pos` is the first position whose track compares
/// strictly later than the key, and is within bounds.
pub proof fn lemma_insert_pos_char(s: Seq<PublishTrackRemote>, key: Seq<u8>, p: int)
    requires
        0 <= p <= s.len(),
        forall|k: int| 0 <= k < p ==> lex_le(track_key(#[trigger] s[k]), key),
        p < s.len() ==> !lex_le(track_key(s[p]), key),
    ensures
        stable_insert_pos(s, key) == p,
    decreases s.len(),
{
    if s.len() > 0 {
        if p == 0 {
        } else {
            assert(lex_le(track_key(s[0]), key));
            let t = s.skip(1);
            assert forall|k: int| 0 <= k < p - 1 implies lex_le(
                track_key(#[trigger] t[k]),
                key,
            ) by {
                assert(t[k] == s[k + 1]);
            }
            if p - 1 < t.len() {
                assert(t[p - 1] == s[p]);
            }
            lemma_insert_pos_char(t, key, p - 1);
        }
    }
}

/// Inserting a track at its stable position keeps the registry
/// sorted.
pub proof fn lemma_rid_ordering(s: Seq<PublishTrackRemote>, t: PublishTrackRemote, p: int)
    requires
        tracks_sorted(s),
        0 <= p <= s.len(),
        forall|k: int| 0 <= k < p ==> lex_le(track_key(#[trigger] s[k]), track_key(t)),
        p < s.len() ==> !lex_le(track_key(s[p]), track_key(t)),
    ensures
        tracks_sorted(s.insert(p, t)),
{
    let out = s.insert(p, t);
    assert forall|i: int, j: int| 0 <= i < j < out.len() implies lex_le(
        track_key(#[trigger] out[i]),
        track_key(#[trigger] out[j]),
    ) by {
        if i < p && j == p {
            assert(out[i] == s[i] && out[j] == t);
        } else if i == p && j > p {
            assert(out[i] == t && out[j] == s[j - 1]);
            assert(!lex_le(track_key(s[p]), track_key(t)));
            lemma_lex_le_total(track_key(s[p]), track_key(t));
            assert(lex_le(track_key(t), track_key(s[p])));
            if j - 1 > p {
                assert(lex_le(track_key(s[p]), track_key(s[j - 1])));
                lemma_lex_le_trans(track_key(t), track_key(s[p]), track_key(s[j - 1]));
            }
        } else if i < p && j > p {
            assert(out[i] == s[i] && out[j] == s[j - 1]);
            if i < j - 1 {
            } else {
                lemma_lex_le_refl(track_key(s[i]));
            }
        } else if j < p {
            assert(out[i] == s[i] && out[j] == s[j]);
        } else if i > p {
            assert(out[i] == s[i - 1] && out[j] == s[j - 1]);
        }
    }
}

/// Compares two byte strings lexicographically.
pub fn bytes_le(x: &[u8], y: &[u8]) -> (r: bool)
    ensures
        r == lex_le(x@, y@),
{
    let n = if x.len() <= y.len() {
        x.len()
    } else {
        y.len()
    };
    let mut i: usize = 0;
    while i < n
        invariant
            n == if x@.len() <= y@.len() {
                x@.len()
            } else {
                y@.len()
            },
            i <= n,
            forall|k: int| 0 <= k < i ==> x@[k] == y@[k],
        decreases n - i,
    {
        let xi = x[i];
        let yi = y[i];
        if xi < yi {
            proof {
                lemma_lex_le_prefix(x@, y@, i as int);
            }
            return true;
        }
        if xi > yi {
            proof {
                lemma_lex_le_prefix(x@, y@, i as int);
            }
            return false;
        }
        i = i + 1;
    }
    proof {
        lemma_lex_le_prefix(x@, y@, n as int);
    }
    x.len() <= y.len()
}

/// After an equal prefix of length `i`, the order of two byte strings
/// is the order of their tails.
proof fn lemma_lex_le_prefix(a: Seq<u8>, b: Seq<u8>, i: int)
    requires
        0 <= i <= a.len(),
        i <= b.len(),
        forall|k: int| 0 <= k < i ==> a[k] == b[k],
    ensures
        lex_le(a, b) == lex_le(a.skip(i), b.skip(i)),
        i == a.len() ==> lex_le(a, b),
        (i == b.len() && i < a.len()) ==> !lex_le(a, b),
    decreases i,
{
    if i > 0 {
        assert(a.len() > 0 && b.len() > 0 && a[0] == b[0]);
        let a1 = a.skip(1);
        let b1 = b.skip(1);
        assert forall|k: int| 0 <= k < i - 1 implies a1[k] == b1[k] by {
            assert(a1[k] == a[k + 1] && b1[k] == b[k + 1]);
        }
        lemma_lex_le_prefix(a1, b1, i - 1);
        assert(a1.skip(i - 1) =~= a.skip(i));
        assert(b1.skip(i - 1) =~= b.skip(i));
    } else {
        assert(a.skip(0) =~= a);
        assert(b.skip(0) =~= b);
        if a.len() == 0 {
        }
        if b.len() == 0 && a.len() > 0 {
        }
    }
}

/// Inserts a track into a sorted registry at its stable position:
/// after every track whose RID compares no later, so ties keep
/// arrival order.
pub fn insert_track_sorted(tracks: &mut Vec<PublishTrackRemote>, t: PublishTrackRemote)
    requires
        tracks_sorted(old(tracks)@),
    ensures
        final(tracks)@ == old(tracks)@.insert(
            stable_insert_pos(old(tracks)@, track_key(t)),
            t,
        ),
        tracks_sorted(final(tracks)@),
        final(tracks)@.len() == old(tracks)@.len() + 1,
{
    let mut p: usize = 0;
    loop
        invariant
            tracks_sorted(tracks@),
            tracks@ == old(tracks)@,
            p <= tracks@.len(),
            forall|k: int| 0 <= k < p ==> lex_le(track_key(#[trigger] tracks@[k]), track_key(t)),
        ensures
            tracks@ == old(tracks)@,
            p <= tracks@.len(),
            forall|k: int| 0 <= k < p ==> lex_le(track_key(#[trigger] tracks@[k]), track_key(t)),
            p < tracks@.len() ==> !lex_le(track_key(tracks@[p as int]), track_key(t)),
        decreases tracks@.len() - p,
    {
        if p >= tracks.len() {
            break ;
        }
        let cur_le = bytes_le(tracks[p].rid.as_str().as_bytes(), t.rid.as_str().as_bytes());
        if !cur_le {
            break ;
        }
        p = p + 1;
    }
    proof {
        lemma_insert_pos_char(tracks@, track_key(t), p as int);
        lemma_rid_ordering(tracks@, t, p as int);
    }
    tracks.insert(p, t);
}

/// The first track of the given kind: in a sorted registry, the one
/// with the lowest RID of that kind (the default simulcast layer).
pub fn select_track(tracks: &Vec<PublishTrackRemote>, kind: TrackKind) -> (r: Option<usize>)
    requires
        tracks_sorted(tracks@),
    ensures
        match r {
            Some(i) => i < tracks@.len() && tracks@[i as int].kind == kind && (forall|k: int|
                0 <= k < i ==> (#[trigger] tracks@[k]).kind != kind) && (forall|j: int|
                0 <= j < tracks@.len() && (#[trigger] tracks@[j]).kind == kind ==> lex_le(
                    track_key(tracks@[i as int]),
                    track_key(tracks@[j]),
                )),
            None => forall|k: int| 0 <= k < tracks@.len() ==> (#[trigger] tracks@[k]).kind != kind,
        },
{
    let mut i: usize = 0;
    while i < tracks.len()
        invariant
            tracks_sorted(tracks@),
            i <= tracks@.len(),
            forall|k: int| 0 <= k < i ==> (#[trigger] tracks@[k]).kind != kind,
        decreases tracks@.len() - i,
    {
        if tracks[i].kind == kind {
            proof {
                assert forall|j: int|
                    0 <= j < tracks@.len() && (#[trigger] tracks@[j]).kind == kind implies lex_le(
                    track_key(tracks@[i as int]),
                    track_key(tracks@[j]),
                ) by {
                    if j < i as int {
                    } else if j == i as int {
                        lemma_lex_le_refl(track_key(tracks@[j]));
                    }
                }
            }
            return Some(i);
        }
        i = i + 1;
    }
    None
}

} // verus!
