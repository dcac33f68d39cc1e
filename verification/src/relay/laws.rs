//! What the relay keeps, whatever its peers send.
use crate::protocol::{HostHelloV, HostToRelayV, InfoV, RelayToHostV, WatchHelloV, WatchToRelayV};
use crate::relay::conduct::{law_messages_keep_size_true, law_new_streams_are_true_to_size};
use crate::relay::model::{admission, after_ended, after_host, after_join, after_leave, detached,
    fan_fits, fan_outcome, free_from, holds, join_fits, kept, leave_outcome, left, lists,
    new_watcher, public_listing, refusal, relay_valid, resolved, text_le, watch_outcome, with_host,
    without_host, AdmissionV, BcastV, FanOutV, Outcome, RelayV, StreamV, WatcherV};
use vstd::prelude::*;

verus! {

/// Accepting a host keeps the relay valid.
pub proof fn law_accepting_keeps_valid(
    r: RelayV,
    hello: HostHelloV,
    id: Seq<char>,
    code: Seq<char>,
    now: u64,
)
    requires
        relay_valid(r),
        refusal(r, hello) is None,
        r.next < u64::MAX,
    ensures
        relay_valid(with_host(r, hello, id, code, now)),
{
    let s = with_host(r, hello, id, code, now);
    law_new_streams_are_true_to_size(hello, id, now);
    assert forall|x: Seq<char>| #[trigger] s.directory.dom().contains(x) implies {
        &&& s.streams.dom().contains(s.directory[x])
        &&& s.streams[s.directory[x]].info.stream_id == x
        &&& !s.streams[s.directory[x]].ended
    } by {
        if x != id {
            assert(r.directory.dom().contains(x));
            assert(r.streams.dom().contains(r.directory[x]));
        }
    }
    assert(s.directory.dom() == r.directory.dom().insert(id));
}

/// A host's messages keep the relay valid.
pub proof fn law_host_messages_keep_valid(r: RelayV, key: u64, m: HostToRelayV)
    requires
        relay_valid(r),
        r.streams.dom().contains(key),
    ensures
        relay_valid(after_host(r, key, m)),
{
    let s = after_host(r, key, m);
    law_messages_keep_size_true(r.streams[key], m);
    assert forall|x: Seq<char>| #[trigger] s.directory.dom().contains(x) implies {
        &&& s.streams.dom().contains(s.directory[x])
        &&& s.streams[s.directory[x]].info.stream_id == x
        &&& !s.streams[s.directory[x]].ended
    } by {
        assert(r.directory.dom().contains(x));
    }
}

/// The end of a stream keeps the relay valid.
pub proof fn law_ending_keeps_valid(r: RelayV, key: u64, code: Seq<char>)
    requires
        relay_valid(r),
        r.streams.dom().contains(key),
    ensures
        relay_valid(without_host(r, key, code)),
{
    let s = without_host(r, key, code);
    assert forall|x: Seq<char>| #[trigger] s.directory.dom().contains(x) implies {
        &&& s.streams.dom().contains(s.directory[x])
        &&& s.streams[s.directory[x]].info.stream_id == x
        &&& !s.streams[s.directory[x]].ended
    } by {
        assert(r.directory.dom().contains(x));
        assert(r.directory[x] != key);
    }
}

/// A watcher's leaving keeps the relay valid.
pub proof fn law_leaving_keeps_valid(r: RelayV, key: u64)
    requires
        relay_valid(r),
        r.streams.dom().contains(key),
        r.streams[key].members > 0,
    ensures
        relay_valid(after_leave(r, key)),
{
    let s = after_leave(r, key);
    assert forall|x: Seq<char>| #[trigger] s.directory.dom().contains(x) implies {
        &&& s.streams.dom().contains(s.directory[x])
        &&& s.streams[s.directory[x]].info.stream_id == x
        &&& !s.streams[s.directory[x]].ended
    } by {
        assert(r.directory.dom().contains(x));
    }
}

/// A watcher's joining keeps the relay valid.
pub proof fn law_joining_keeps_valid(r: RelayV, key: u64)
    requires
        relay_valid(r),
        r.streams.dom().contains(key),
        !r.streams[key].ended,
        r.streams[key].info.viewers < u32::MAX,
    ensures
        relay_valid(after_join(r, key)),
{
    let s = after_join(r, key);
    assert forall|x: Seq<char>| #[trigger] s.directory.dom().contains(x) implies {
        &&& s.streams.dom().contains(s.directory[x])
        &&& s.streams[s.directory[x]].info.stream_id == x
        &&& !s.streams[s.directory[x]].ended
    } by {
        assert(r.directory.dom().contains(x));
    }
}

/// A watcher's learning of the end of an ended stream keeps the relay valid.
pub proof fn law_farewell_keeps_valid(r: RelayV, key: u64)
    requires
        relay_valid(r),
        r.streams.dom().contains(key),
        r.streams[key].ended,
    ensures
        relay_valid(after_ended(r, key)),
{
    let s = after_ended(r, key);
    assert forall|x: Seq<char>| #[trigger] s.directory.dom().contains(x) implies {
        &&& s.streams.dom().contains(s.directory[x])
        &&& s.streams[s.directory[x]].info.stream_id == x
        &&& !s.streams[s.directory[x]].ended
    } by {
        assert(r.directory.dom().contains(x));
    }
}

/// A join target leads only to a stream of the directory, whose host is there.
pub proof fn law_targets_lead_to_live_streams(r: RelayV, target: Seq<char>)
    requires
        relay_valid(r),
    ensures
        resolved(r, target) matches Some(key) ==> {
            &&& r.streams.dom().contains(key)
            &&& !r.streams[key].ended
            &&& r.directory.dom().contains(r.streams[key].info.stream_id)
            &&& r.directory[r.streams[key].info.stream_id] == key
        },
{
}

/// A private stream is reached only by a join code, one that leads to its id.
pub proof fn law_private_only_by_code(r: RelayV, target: Seq<char>)
    requires
        relay_valid(r),
    ensures
        resolved(r, target) matches Some(key) ==> !r.streams[key].info.public ==> {
            &&& r.codes.dom().contains(target)
            &&& r.codes[target] == r.streams[key].info.stream_id
        },
{
}

/// A stream's join code leads to it, and so does its id if it is public and no
/// join code reads the same.
pub proof fn law_accepted_stream_is_reachable(
    r: RelayV,
    hello: HostHelloV,
    id: Seq<char>,
    code: Seq<char>,
    now: u64,
)
    ensures
        resolved(with_host(r, hello, id, code, now), code) == Some(r.next),
        hello.public && id != code && !r.codes.dom().contains(id) ==> resolved(
            with_host(r, hello, id, code, now),
            id,
        ) == Some(r.next),
{
}

/// A new stream with an id and a join code of its own takes nothing away from
/// the others: every other join code leads where it led before.
pub proof fn law_new_streams_disturb_no_code(
    r: RelayV,
    hello: HostHelloV,
    id: Seq<char>,
    code: Seq<char>,
    now: u64,
    other: Seq<char>,
)
    requires
        relay_valid(r),
        !r.directory.dom().contains(id),
        r.codes.dom().contains(other),
        r.directory.dom().contains(r.codes[other]),
        other != code,
    ensures
        resolved(with_host(r, hello, id, code, now), other) == resolved(r, other),
{
}

/// A host is turned away only for a reason that is given to it. Otherwise it is
/// taken in wherever one of the drawn join codes is free, under the first such
/// code.
pub proof fn law_admission_takes_a_free_code(
    r: RelayV,
    hello: HostHelloV,
    id: Seq<char>,
    drawn: Seq<Seq<char>>,
)
    ensures
        match admission(r, hello, id, drawn) {
            AdmissionV::Refused(m) => refusal(r, hello) is Some && m == RelayToHostV::Error(
                refusal(r, hello).unwrap(),
            ),
            AdmissionV::Exhausted => refusal(r, hello) is None && r.next == u64::MAX,
            AdmissionV::Taken => refusal(r, hello) is None && r.next < u64::MAX && forall|i: int|
                0 <= i < drawn.len() ==> r.codes.dom().contains(#[trigger] drawn[i]),
            AdmissionV::Accepted { key, id: given, code } => {
                &&& refusal(r, hello) is None
                &&& key == r.next
                &&& given == id
                &&& drawn.contains(code)
                &&& !r.codes.dom().contains(code)
            },
        },
{
    lemma_free_from(r, drawn, 0);
}

proof fn lemma_free_from(r: RelayV, drawn: Seq<Seq<char>>, from: int)
    requires
        0 <= from <= drawn.len(),
    ensures
        match free_from(r, drawn, from) {
            Some(i) => from <= i < drawn.len() && !r.codes.dom().contains(drawn[i]),
            None => forall|i: int|
                from <= i < drawn.len() ==> r.codes.dom().contains(#[trigger] drawn[i]),
        },
    decreases drawn.len() - from,
{
    if from < drawn.len() {
        lemma_free_from(r, drawn, from + 1);
    }
}

/// A private stream is in no listing.
pub proof fn law_private_streams_are_not_listed(r: RelayV, l: Seq<InfoV>, i: int)
    requires
        public_listing(r, l),
        0 <= i < l.len(),
    ensures
        l[i].public,
{
    let keys = choose|keys: Seq<u64>| lists(r, l, keys);
    assert(l[i] == r.streams[keys[i]].info);
}

/// After a stream ended, no join target leads to it.
pub proof fn law_ended_stream_is_unreachable(r: RelayV, key: u64, code: Seq<char>, target: Seq<char>)
    requires
        relay_valid(r),
        r.streams.dom().contains(key),
    ensures
        resolved(without_host(r, key, code), target) != Some(key),
{
    let s = without_host(r, key, code);
    if s.directory.dom().contains(target) {
        assert(r.directory.dom().contains(target));
    }
    if s.codes.dom().contains(target) && s.directory.dom().contains(s.codes[target]) {
        assert(r.directory.dom().contains(s.codes[target]));
    }
}

/// A watcher's leaving changes nothing about where join targets lead.
pub proof fn law_leaving_changes_no_target(r: RelayV, w: WatcherV, target: Seq<char>)
    requires
        relay_valid(r),
        holds(r, w),
    ensures
        resolved(left(r, w), target) == resolved(r, target),
{
    if r.directory.dom().contains(target) {
        assert(r.streams.dom().contains(r.directory[target]));
    }
}

// -------------------------------------------------------------- viewer counts

/// How many of the watchers have joined stream `key`.
pub open spec fn watching(ws: Seq<WatcherV>, key: u64) -> nat
    decreases ws.len(),
{
    if ws.len() == 0 {
        0
    } else {
        watching(ws.drop_last(), key) + if ws.last().joined == Some(key) {
            1nat
        } else {
            0nat
        }
    }
}

/// `ws` are the watchers of the relay: each stream counts those who joined it,
/// and what they joined is there.
pub open spec fn counted(r: RelayV, ws: Seq<WatcherV>) -> bool {
    &&& forall|key: u64| #[trigger]
        r.streams.dom().contains(key) ==> r.streams[key].members == watching(ws, key)
    &&& forall|i: int|
        0 <= i < ws.len() ==> ((#[trigger] ws[i]).joined matches Some(key)
            ==> r.streams.dom().contains(key))
}

proof fn lemma_watching_update(ws: Seq<WatcherV>, i: int, w: WatcherV, key: u64)
    requires
        0 <= i < ws.len(),
    ensures
        watching(ws.update(i, w), key) == watching(ws, key) - (if ws[i].joined == Some(key) {
            1int
        } else {
            0
        }) + (if w.joined == Some(key) {
            1int
        } else {
            0
        }),
        ws[i].joined == Some(key) ==> watching(ws, key) > 0,
    decreases ws.len(),
{
    let t = ws.update(i, w);
    if i == ws.len() - 1 {
        assert(t.drop_last() =~= ws.drop_last());
    } else {
        assert(t.drop_last() =~= ws.drop_last().update(i, w));
        lemma_watching_update(ws.drop_last(), i, w, key);
    }
}

proof fn lemma_unwatched(ws: Seq<WatcherV>, key: u64)
    requires
        forall|i: int| 0 <= i < ws.len() ==> (#[trigger] ws[i]).joined != Some(key),
    ensures
        watching(ws, key) == 0,
    decreases ws.len(),
{
    if ws.len() > 0 {
        lemma_unwatched(ws.drop_last(), key);
    }
}

/// While its host is there, the viewer count of a stream is the number of
/// watchers who joined it.
pub proof fn law_viewers_are_those_who_joined(r: RelayV, ws: Seq<WatcherV>, key: u64)
    requires
        relay_valid(r),
        counted(r, ws),
        r.streams.dom().contains(key),
        !r.streams[key].ended,
    ensures
        r.streams[key].info.viewers == watching(ws, key),
{
}

/// The stream that a watcher joined stays with the relay while the watcher is
/// in it.
pub proof fn law_joined_streams_stay(r: RelayV, ws: Seq<WatcherV>, i: int)
    requires
        counted(r, ws),
        0 <= i < ws.len(),
    ensures
        holds(r, ws[i]),
{
    if let Some(key) = ws[i].joined {
        lemma_watching_update(ws, i, ws[i], key);
    }
}

/// A relay without streams and watchers counts right.
pub proof fn law_counts_at_start(r: RelayV)
    requires
        r.streams == Map::<u64, StreamV>::empty(),
    ensures
        counted(r, Seq::empty()),
{
}

/// Letting a watcher in keeps the counts right.
pub proof fn law_newcomers_keep_counts(r: RelayV, ws: Seq<WatcherV>, hello: WatchHelloV)
    requires
        counted(r, ws),
    ensures
        counted(r, ws.push(new_watcher(hello))),
{
    assert(ws.push(new_watcher(hello)).drop_last() =~= ws);
}

/// What hosts do keeps the counts right.
pub proof fn law_hosts_keep_counts(
    r: RelayV,
    ws: Seq<WatcherV>,
    key: u64,
    m: HostToRelayV,
    hello: HostHelloV,
    id: Seq<char>,
    code: Seq<char>,
    now: u64,
)
    requires
        relay_valid(r),
        counted(r, ws),
    ensures
        r.streams.dom().contains(key) ==> counted(after_host(r, key, m), ws),
        r.streams.dom().contains(key) ==> counted(without_host(r, key, code), ws),
        counted(with_host(r, hello, id, code, now), ws),
{
    assert forall|i: int| 0 <= i < ws.len() implies (#[trigger] ws[i]).joined != Some(r.next) by {
        assert(!r.streams.dom().contains(r.next));
    }
    lemma_unwatched(ws, r.next);
    if r.streams.dom().contains(key) {
        let s = without_host(r, key, code);
        assert forall|i: int| 0 <= i < ws.len() implies ((#[trigger] ws[i]).joined matches Some(k)
            ==> s.streams.dom().contains(k)) by {
            if let Some(k) = ws[i].joined {
                lemma_watching_update(ws, i, ws[i], k);
            }
        }
    }
}

proof fn lemma_leaving_keeps_counts(r: RelayV, ws: Seq<WatcherV>, i: int)
    requires
        relay_valid(r),
        counted(r, ws),
        0 <= i < ws.len(),
    ensures
        relay_valid(left(r, ws[i])),
        counted(left(r, ws[i]), ws.update(i, detached(ws[i]))),
{
    law_joined_streams_stay(r, ws, i);
    let w = detached(ws[i]);
    let t = ws.update(i, w);
    let s = left(r, ws[i]);
    if let Some(key) = ws[i].joined {
        law_leaving_keeps_valid(r, key);
        lemma_after_letting_go(r, ws, i, w, key, s);
    } else {
        assert(t =~= ws);
    }
}

proof fn lemma_after_letting_go(
    r: RelayV,
    ws: Seq<WatcherV>,
    i: int,
    w: WatcherV,
    key: u64,
    s: RelayV,
)
    requires
        relay_valid(r),
        counted(r, ws),
        0 <= i < ws.len(),
        ws[i].joined == Some(key),
        w.joined is None,
        exists|x: StreamV|
            #![trigger kept(r.streams, key, x)]
            s.streams == kept(r.streams, key, x) && x.members == r.streams[key].members - 1
                && x.ended == r.streams[key].ended,
    ensures
        counted(s, ws.update(i, w)),
{
    let t = ws.update(i, w);
    assert forall|k: u64| #[trigger] s.streams.dom().contains(k) implies s.streams[k].members
        == watching(t, k) by {
        lemma_watching_update(ws, i, w, k);
        assert(r.streams.dom().contains(k));
    }
    assert forall|j: int| 0 <= j < t.len() implies ((#[trigger] t[j]).joined matches Some(k)
        ==> s.streams.dom().contains(k)) by {
        if j != i {
            assert(t[j] == ws[j]);
            if let Some(k) = t[j].joined {
                lemma_watching_update(ws, i, w, k);
                lemma_watching_update(t, j, t[j], k);
                assert(r.streams.dom().contains(k));
            }
        }
    }
}

/// What a watcher sends keeps the relay valid and the counts right.
pub proof fn law_watchers_keep_counts(
    r: RelayV,
    ws: Seq<WatcherV>,
    i: int,
    m: WatchToRelayV,
    now: u64,
    out: Outcome,
)
    requires
        relay_valid(r),
        counted(r, ws),
        0 <= i < ws.len(),
        watch_outcome(r, ws[i], m, now, out),
        m matches WatchToRelayV::Join { target } ==> join_fits(r, ws[i], target),
    ensures
        relay_valid(out.relay),
        counted(out.relay, ws.update(i, out.watcher)),
{
    let t = ws.update(i, out.watcher);
    match m {
        WatchToRelayV::Join { target } => {
            lemma_leaving_keeps_counts(r, ws, i);
            let r1 = left(r, ws[i]);
            let w1 = detached(ws[i]);
            let ws1 = ws.update(i, w1);
            law_targets_lead_to_live_streams(r1, target);
            match resolved(r1, target) {
                Some(key) => {
                    law_joining_keeps_valid(r1, key);
                    assert(t =~= ws1.update(i, out.watcher));
                    assert forall|k: u64| #[trigger]
                        out.relay.streams.dom().contains(k) implies out.relay.streams[k].members
                        == watching(t, k) by {
                        lemma_watching_update(ws1, i, out.watcher, k);
                        assert(r1.streams.dom().contains(k));
                    }
                    assert forall|j: int| 0 <= j < t.len() implies ((#[trigger] t[j]).joined matches
                        Some(k) ==> out.relay.streams.dom().contains(k)) by {
                        if j != i {
                            assert(t[j] == ws1[j]);
                        }
                    }
                },
                None => {
                    assert(t =~= ws1);
                },
            }
        },
        WatchToRelayV::Leave => {
            lemma_leaving_keeps_counts(r, ws, i);
        },
        _ => {
            assert(out.relay == r);
            assert(out.watcher.joined == ws[i].joined);
            assert forall|k: u64| #[trigger] r.streams.dom().contains(k) implies r.streams[k].members
                == watching(t, k) by {
                lemma_watching_update(ws, i, out.watcher, k);
            }
        },
    }
}

/// What a stream fans out to a watcher keeps the relay valid and the counts
/// right.
pub proof fn law_fan_out_keeps_counts(r: RelayV, ws: Seq<WatcherV>, i: int, f: FanOutV)
    requires
        relay_valid(r),
        counted(r, ws),
        0 <= i < ws.len(),
        fan_fits(r, ws[i], f),
    ensures
        relay_valid(fan_outcome(r, ws[i], f).relay),
        counted(fan_outcome(r, ws[i], f).relay, ws.update(i, fan_outcome(r, ws[i], f).watcher)),
{
    law_joined_streams_stay(r, ws, i);
    let out = fan_outcome(r, ws[i], f);
    let t = ws.update(i, out.watcher);
    if f == FanOutV::Event(BcastV::Ended) && ws[i].joined is Some {
        let key = ws[i].joined.unwrap();
        law_farewell_keeps_valid(r, key);
        let x = StreamV { members: (r.streams[key].members - 1) as nat, ..r.streams[key] };
        assert(out.relay.streams == kept(r.streams, key, x));
        lemma_after_letting_go(r, ws, i, out.watcher, key, out.relay);
    } else {
        assert forall|k: u64| #[trigger] r.streams.dom().contains(k) implies r.streams[k].members
            == watching(t, k) by {
            lemma_watching_update(ws, i, out.watcher, k);
        }
    }
}

/// A watcher whose connection is gone leaves the relay valid and the counts
/// right.
pub proof fn law_departures_keep_counts(r: RelayV, ws: Seq<WatcherV>, i: int)
    requires
        relay_valid(r),
        counted(r, ws),
        0 <= i < ws.len(),
    ensures
        relay_valid(leave_outcome(r, ws[i]).relay),
        counted(leave_outcome(r, ws[i]).relay, ws.remove(i)),
{
    lemma_leaving_keeps_counts(r, ws, i);
    let w = detached(ws[i]);
    let t = ws.update(i, w);
    let s = left(r, ws[i]);
    let u = ws.remove(i);
    assert(u =~= t.remove(i));
    assert forall|k: u64| #[trigger] s.streams.dom().contains(k) implies s.streams[k].members
        == watching(u, k) by {
        lemma_watching_remove(t, i, k);
    }
    assert forall|j: int| 0 <= j < u.len() implies ((#[trigger] u[j]).joined matches Some(k)
        ==> s.streams.dom().contains(k)) by {
        assert(u[j] == t[if j < i { j } else { j + 1 }]);
    }
}

proof fn lemma_watching_remove(ws: Seq<WatcherV>, i: int, key: u64)
    requires
        0 <= i < ws.len(),
        ws[i].joined is None,
    ensures
        watching(ws.remove(i), key) == watching(ws, key),
    decreases ws.len(),
{
    if i == ws.len() - 1 {
        assert(ws.remove(i) =~= ws.drop_last());
    } else {
        assert(ws.remove(i).drop_last() =~= ws.drop_last().remove(i));
        lemma_watching_remove(ws.drop_last(), i, key);
    }
}

// ---------------------------------------------------------------- text order

/// Text order is total.
pub proof fn lemma_text_le_total(a: Seq<char>, b: Seq<char>)
    ensures
        text_le(a, b) || text_le(b, a),
    decreases a.len(),
{
    if a.len() > 0 && b.len() > 0 && a[0] == b[0] {
        lemma_text_le_total(a.skip(1), b.skip(1));
    }
}

/// Text order is transitive.
pub proof fn lemma_text_le_transitive(a: Seq<char>, b: Seq<char>, c: Seq<char>)
    requires
        text_le(a, b),
        text_le(b, c),
    ensures
        text_le(a, c),
    decreases a.len(),
{
    if a.len() > 0 && b.len() > 0 && c.len() > 0 && a[0] == b[0] && b[0] == c[0] {
        lemma_text_le_transitive(a.skip(1), b.skip(1), c.skip(1));
    }
}

} // verus!
