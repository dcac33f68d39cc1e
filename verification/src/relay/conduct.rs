//! What watchers and hosts can and cannot bring about through the relay.
use crate::emulator::{after_drawing, as_it_comes, ascii, drawn, law_all_output_is_drawn,
    law_drawing_reads_everything, law_resizing_sets_the_size, law_roomy_screens_draw_as_it_comes,
    law_what_can_be_taken_is_drawn_as_it_comes, lemma_fresh, roomy, seen, shown, MAX_COLS, WIDEST};
use crate::protocol::{HostHelloV, HostToRelayV, InfoV, WatchToRelayV};
use crate::relay::model::{at_least_one, fan_outcome, fanned_out, holds, new_stream, recent,
    relay_valid, stream_after, true_to_size, watch_outcome, BcastV, EffectV, FanOutV, Outcome,
    RelayV, StreamV, WatcherV, CHAT_BURST, CHAT_WINDOW};
use crate::relay::sanitize::{clean_chat, law_chat_is_inert, CHAT_LIMIT};
use crate::text::control;
use vstd::prelude::*;

verus! {

// ------------------------------------------------------------------ watching

/// Nothing of the stream but its counts differs.
pub open spec fn same_but_counts(a: StreamV, b: StreamV) -> bool {
    &&& a.fed == b.fed
    &&& a.paused == b.paused
    &&& a.chat == b.chat
    &&& a.ended == b.ended
    &&& a.info == (InfoV { viewers: a.info.viewers, ..b.info })
}

/// The watchers of a relay cannot reach into it: the directory and the join
/// codes stay, and of a stream nothing but its counts changes.
pub open spec fn untouched(before: RelayV, after: RelayV) -> bool {
    &&& after.directory == before.directory
    &&& after.codes == before.codes
    &&& after.auth_key == before.auth_key
    &&& forall|key: u64| #[trigger]
        after.streams.dom().contains(key) ==> before.streams.dom().contains(key)
            && same_but_counts(after.streams[key], before.streams[key])
}

/// Hosts are told viewer counts and nothing else.
pub open spec fn hosts_hear_counts(effects: Seq<EffectV>) -> bool {
    forall|i: int|
        0 <= i < effects.len() ==> ((#[trigger] effects[i]) matches EffectV::ToHost(_, m) ==> m
            is Viewers)
}

/// Watching is read-only: whatever a watcher sends, no stream's screen, size or
/// state changes, and no host is sent anything but a viewer count.
pub proof fn law_watching_is_read_only(
    r: RelayV,
    w: WatcherV,
    m: WatchToRelayV,
    now: u64,
    out: Outcome,
)
    requires
        relay_valid(r),
        holds(r, w),
        watch_outcome(r, w, m, now, out),
    ensures
        untouched(r, out.relay),
        hosts_hear_counts(out.effects),
{
}

/// Receiving is read-only too, and only the watcher itself is sent anything.
pub proof fn law_receiving_is_read_only(r: RelayV, w: WatcherV, f: FanOutV)
    requires
        holds(r, w),
    ensures
        untouched(r, fan_outcome(r, w, f).relay),
        forall|i: int|
            0 <= i < fan_outcome(r, w, f).effects.len() ==> !((
            #[trigger] fan_outcome(r, w, f).effects[i]) is ToHost) && !(fan_outcome(
                r,
                w,
                f,
            ).effects[i] is Fan),
{
}

// ---------------------------------------------------------------------- chat

/// Every chat message that is passed on is inert, comes from a watcher of the
/// stream under its own name, and only where the host accepts chat.
pub proof fn law_chat_passed_on_is_clean(
    r: RelayV,
    w: WatcherV,
    m: WatchToRelayV,
    now: u64,
    out: Outcome,
    i: int,
)
    requires
        watch_outcome(r, w, m, now, out),
        0 <= i < out.effects.len(),
    ensures
        out.effects[i] matches EffectV::Fan(key, BcastV::Chat { from, text, ts }) ==> {
            &&& w.joined == Some(key)
            &&& r.streams[key].chat
            &&& from == w.name
            &&& ts == now
            &&& 0 < text.len() <= CHAT_LIMIT
            &&& forall|j: int| 0 <= j < text.len() ==> !control(#[trigger] text[j])
        },
{
    if let WatchToRelayV::Chat { text } = m {
        law_chat_is_inert(text);
    }
}

/// Whether a chat message is among the effects.
pub open spec fn passes_chat(effects: Seq<EffectV>) -> bool {
    exists|i: int|
        0 <= i < effects.len() && (#[trigger] effects[i] matches EffectV::Fan(
            _,
            BcastV::Chat { .. },
        ))
}

/// `sent` are the times at which a connection's chat messages were passed on up
/// to `clock`, and `times` are those of them that are remembered.
pub open spec fn within_rate(sent: Seq<u64>, times: Seq<u64>, clock: u64) -> bool {
    &&& times.len() <= sent.len()
    &&& times.len() <= CHAT_BURST
    &&& times == sent.skip(sent.len() - times.len())
    // The clock runs forward.
    &&& forall|i: int, j: int| 0 <= i <= j < sent.len() ==> #[trigger] sent[i] <= #[trigger] sent[j]
    &&& forall|i: int| 0 <= i < sent.len() ==> #[trigger] sent[i] <= clock
    // What is forgotten is old.
    &&& forall|i: int|
        0 <= i < sent.len() - times.len() ==> #[trigger] sent[i] + CHAT_WINDOW <= clock
    // No window holds more than the burst.
    &&& spread_out(sent)
}

/// Of any six messages in a row, the last comes a full window after the first.
pub open spec fn spread_out(sent: Seq<u64>) -> bool {
    forall|i: int, j: int|
        0 <= i && i + CHAT_BURST <= j < sent.len() ==> #[trigger] sent[i] + CHAT_WINDOW
            <= #[trigger] sent[j]
}

/// A new connection has sent nothing.
pub proof fn law_rate_at_start(clock: u64)
    ensures
        within_rate(Seq::empty(), Seq::empty(), clock),
{
    assert(Seq::<u64>::empty().skip(0) =~= Seq::<u64>::empty());
}

pub proof fn lemma_recent(times: Seq<u64>, now: u64) -> (n: int)
    requires
        forall|i: int, j: int|
            0 <= i <= j < times.len() ==> #[trigger] times[i] <= #[trigger] times[j],
    ensures
        0 <= n <= times.len(),
        recent(times, now) == times.skip(n),
        forall|i: int| 0 <= i < n ==> #[trigger] times[i] + CHAT_WINDOW <= now,
        n < times.len() ==> now < times[n] + CHAT_WINDOW,
    decreases times.len(),
{
    if times.len() > 0 && now - times[0] >= CHAT_WINDOW {
        let rest = times.skip(1);
        assert forall|i: int, j: int| 0 <= i <= j < rest.len() implies #[trigger] rest[i]
            <= #[trigger] rest[j] by {
            assert(times[i + 1] <= times[j + 1]);
        }
        let m = lemma_recent(rest, now);
        assert(rest.skip(m) =~= times.skip(m + 1));
        assert forall|i: int| 0 <= i < m + 1 implies #[trigger] times[i] + CHAT_WINDOW <= now by {
            if i > 0 {
                assert(times[i] == rest[i - 1]);
            }
        }
        m + 1
    } else {
        assert(times.skip(0) =~= times);
        0
    }
}

/// While the clock runs forward, a connection never gets more than five chat
/// messages passed on within ten seconds.
pub proof fn law_chat_rate_is_limited(
    r: RelayV,
    w: WatcherV,
    m: WatchToRelayV,
    now: u64,
    out: Outcome,
    sent: Seq<u64>,
    clock: u64,
)
    requires
        watch_outcome(r, w, m, now, out),
        within_rate(sent, w.chat_times, clock),
        clock <= now,
    ensures
        within_rate(
            if passes_chat(out.effects) {
                sent.push(now)
            } else {
                sent
            },
            out.watcher.chat_times,
            now,
        ),
{
    let times = w.chat_times;
    let base = sent.len() - times.len();
    if let WatchToRelayV::Chat { text } = m {
        assert forall|i: int, j: int| 0 <= i <= j < times.len() implies #[trigger] times[i]
            <= #[trigger] times[j] by {
            assert(times[i] == sent[base + i] && times[j] == sent[base + j]);
        }
        let n = lemma_recent(times, now);
        let left = recent(times, now);
        if w.joined is Some && r.streams[w.joined.unwrap()].chat && clean_chat(text).len() > 0 {
            assert forall|i: int| 0 <= i < sent.len() - left.len() implies #[trigger] sent[i]
                + CHAT_WINDOW <= now by {
                if i >= base {
                    assert(sent[i] == times[i - base]);
                }
            }
            assert(left =~= sent.skip(sent.len() - left.len()));
            if left.len() < CHAT_BURST {
                let next = sent.push(now);
                assert(passes_chat(out.effects)) by {
                    assert(out.effects[0] is Fan);
                }
                assert(left.push(now) =~= next.skip(next.len() - left.push(now).len()));
            } else {
                assert(!passes_chat(out.effects));
            }
        } else {
            assert(!passes_chat(out.effects));
        }
    } else {
        assert(!passes_chat(out.effects));
        assert(out.watcher.chat_times == times);
    }
}

// ------------------------------------------------------------------- privacy

/// A stream after messages of its host, one after the other.
pub open spec fn stream_run(s: StreamV, ms: Seq<HostToRelayV>) -> StreamV
    decreases ms.len(),
{
    if ms.len() == 0 {
        s
    } else {
        stream_after(stream_run(s, ms.drop_last()), ms.last())
    }
}

/// While a stream is paused, output neither reaches its watchers nor changes the
/// screen that newcomers are shown.
pub proof fn law_paused_output_stays_private(s: StreamV, data: Seq<u8>)
    requires
        s.paused,
    ensures
        fanned_out(s, HostToRelayV::Output(data)) is None,
        stream_after(s, HostToRelayV::Output(data)) == s,
{
}

/// From a pause on, until the host resumes or resizes, the screen that newcomers
/// are shown stays as it was, whatever the host sends.
pub proof fn law_pause_freezes_the_screen(s: StreamV, ms: Seq<HostToRelayV>)
    requires
        s.paused,
        forall|i: int|
            0 <= i < ms.len() ==> !(#[trigger] ms[i] matches HostToRelayV::Privacy { paused: false })
                && !(ms[i] is Resize),
    ensures
        stream_run(s, ms).fed == s.fed,
        stream_run(s, ms).paused,
    decreases ms.len(),
{
    if ms.len() > 0 {
        law_pause_freezes_the_screen(s, ms.drop_last());
    }
}

/// Output of a stream that is not paused reaches its watchers as it is, and is
/// handed to the screen that newcomers are shown: every byte is read there, in
/// order. All of it is drawn where the terminal is wide enough for any
/// character, or where it is ASCII; and it is drawn as it comes, with nothing
/// else done, wherever the screen can take it so, and always on a terminal with
/// room for any text.
pub proof fn law_live_output_is_mirrored(s: StreamV, data: Seq<u8>)
    requires
        !s.paused,
        true_to_size(s),
    ensures
        fanned_out(s, HostToRelayV::Output(data)) == Some(BcastV::Output(data)),
        ({
            let t = stream_after(s, HostToRelayV::Output(data));
            &&& seen(t.fed) == seen(s.fed) + data
            &&& s.info.cols <= MAX_COLS && (s.info.cols >= WIDEST || ascii(data)) ==> shown(t.fed)
                == shown(s.fed) + data
            &&& as_it_comes(s.fed, data) || roomy(s.info.rows, s.info.cols) ==> t.fed == s.fed
                + drawn(data)
        }),
{
    law_drawing_reads_everything(s.fed, data);
    if s.info.cols <= MAX_COLS && (s.info.cols >= WIDEST || ascii(data)) {
        law_all_output_is_drawn(s.fed, data);
    }
    if as_it_comes(s.fed, data) {
        law_what_can_be_taken_is_drawn_as_it_comes(s.fed, data);
    }
    if roomy(s.info.rows, s.info.cols) {
        law_roomy_screens_draw_as_it_comes(s.fed, data);
    }
}

/// After a pause ends, output is handed to the screen and to the watchers again,
/// and what was sent during the pause is in neither.
pub proof fn law_output_goes_on_after_a_pause(s: StreamV, hidden: Seq<u8>, data: Seq<u8>)
    ensures
        ({
            let paused = stream_after(s, HostToRelayV::Privacy { paused: true });
            let held = stream_after(paused, HostToRelayV::Output(hidden));
            let live = stream_after(held, HostToRelayV::Privacy { paused: false });
            &&& fanned_out(paused, HostToRelayV::Output(hidden)) is None
            &&& fanned_out(live, HostToRelayV::Output(data)) == Some(BcastV::Output(data))
            &&& stream_after(live, HostToRelayV::Output(data)).fed == after_drawing(s.fed, data)
        }),
{
}

// ----------------------------------------------------------------------- size

/// A new stream's mirror has the size that viewers are told.
pub proof fn law_new_streams_are_true_to_size(hello: HostHelloV, id: Seq<char>, now: u64)
    ensures
        true_to_size(new_stream(hello, id, now)),
{
    lemma_fresh(at_least_one(hello.rows), at_least_one(hello.cols));
}

/// A host's messages keep the mirror at the size that viewers are told.
pub proof fn law_messages_keep_size_true(s: StreamV, m: HostToRelayV)
    requires
        true_to_size(s),
    ensures
        true_to_size(stream_after(s, m)),
{
    match m {
        HostToRelayV::Output(data) => {
            law_drawing_reads_everything(s.fed, data);
        },
        HostToRelayV::Resize { cols, rows } => {
            law_resizing_sets_the_size(s.fed, at_least_one(rows), at_least_one(cols));
        },
        _ => {},
    }
}

} // verus!
