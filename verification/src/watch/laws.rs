//! What the viewer keeps, whatever is typed and whatever the relay sends.
use crate::emulator::{after_drawing, after_resizing, drawn, formatted_screen, last_size,
    law_drawing_reads_everything, law_only_cut_characters_are_mended, law_resizing_sets_the_size,
    law_roomy_screens_draw_as_it_comes, lemma_fresh, narrower, roomy, seen, sized, Fed};
use crate::owned::foreign;
use crate::protocol::{HostToRelayV, InfoV, RelayToHostV, RelayToWatchV, WatchToRelayV};
use crate::relay::conduct::{law_messages_keep_size_true, stream_run};
use crate::relay::model::{at_least_one, delivered, fan_outcome, fanned_out, join_effects, one_more,
    relay_valid, resync_effects, stream_after, true_to_size, BcastV, EffectV, FanOutV, RelayV,
    StreamV, WatcherV};
use crate::seqs::lemma_filter_all;
use crate::watch::model::{app_valid, first, key_turn, leave_turn, moved, net_turn, ActV, AppV, Key,
    NetV};
use vstd::arithmetic::div_mod::{lemma_fundamental_div_mod, lemma_fundamental_div_mod_converse,
    lemma_mod_bound};
use vstd::prelude::*;

verus! {

/// Keys keep the viewer valid: the selection stays in the list, and so on.
pub proof fn law_keys_keep_valid(a: AppV, ctrl: bool, key: Key)
    requires
        app_valid(a),
    ensures
        app_valid(key_turn(a, ctrl, key).app),
{
    let n = a.streams.len() as int;
    if n > 0 {
        let i = match a.selected {
            Some(i) => i,
            None => 0,
        };
        lemma_mod_bound(i + 1, n);
        lemma_mod_bound(i - 1, n);
    }
}

/// What the relay sends keeps the viewer valid: its own streams stay hidden,
/// the chat stays short, and so on.
pub proof fn law_messages_keep_valid(a: AppV, net: NetV)
    requires
        app_valid(a),
    ensures
        app_valid(net_turn(a, net).app),
{
    if let NetV::Msg(RelayToWatchV::Streams(l)) = net {
        let keep = |i: InfoV| !a.owned.contains(i.stream_id);
        lemma_filter_all(l, keep);
        let shown = foreign(l, a.owned);
        assert forall|i: int| 0 <= i < shown.len() implies !a.owned.contains(
            (#[trigger] shown[i]).stream_id,
        ) by {
            assert(keep(shown[i]));
        }
    }
}

/// A viewer that loses the connection while it watches joins the same stream
/// again when it is back.
pub proof fn law_reconnecting_rejoins(a: AppV, target: Seq<char>, why: Seq<char>)
    requires
        a.watching,
        a.last_target == Some(target),
    ensures
        ({
            let off = net_turn(a, NetV::Disconnected(why));
            let on = net_turn(off.app, NetV::Connected);
            &&& !off.app.watching
            &&& off.acts == Seq::<ActV>::empty()
            &&& on.acts == seq![ActV::Send(WatchToRelayV::Join { target })]
            &&& on.app.last_target == Some(target)
        }),
{
}

/// A viewer stays set on joining over any number of attempts that fail.
pub proof fn law_failed_attempts_forget_nothing(a: AppV, why: Seq<char>)
    requires
        !a.watching,
    ensures
        net_turn(a, NetV::Disconnected(why)).app.pending_target == a.pending_target,
{
}

/// A viewer that left a stream does not join it again by itself.
pub proof fn law_leaving_is_final(a: AppV, why: Seq<char>)
    requires
        a.pending_target is None,
    ensures
        ({
            let gone = leave_turn(a).app;
            let off = net_turn(gone, NetV::Disconnected(why)).app;
            net_turn(off, NetV::Connected).acts == seq![ActV::Send(WatchToRelayV::List)]
        }),
{
}

/// A viewer whose stream ended does not try to join it again.
pub proof fn law_ended_streams_are_not_rejoined(a: AppV, why: Seq<char>)
    requires
        a.pending_target is None,
    ensures
        ({
            let gone = net_turn(a, NetV::Msg(RelayToWatchV::Ended)).app;
            let off = net_turn(gone, NetV::Disconnected(why)).app;
            &&& !gone.watching
            &&& net_turn(off, NetV::Connected).acts == seq![ActV::Send(WatchToRelayV::List)]
        }),
{
}

/// Where a target was given, it is the first thing that is joined.
pub proof fn law_given_targets_are_joined_first(
    relay: Seq<char>,
    target: Seq<char>,
    owned: Seq<Seq<char>>,
    chat_open: bool,
    chat_only: bool,
)
    ensures
        net_turn(first(relay, Some(target), owned, chat_open, chat_only), NetV::Connected).acts
            == seq![ActV::Send(WatchToRelayV::Join { target })],
{
}

/// A machine's own streams are never in the list that a viewer picks from.
pub proof fn law_own_streams_are_hidden(a: AppV, list: Seq<InfoV>, i: int)
    requires
        0 <= i < net_turn(a, NetV::Msg(RelayToWatchV::Streams(list))).app.streams.len(),
    ensures
        !a.owned.contains(
            net_turn(a, NetV::Msg(RelayToWatchV::Streams(list))).app.streams[i].stream_id,
        ),
{
    let keep = |i: InfoV| !a.owned.contains(i.stream_id);
    lemma_filter_all(list, keep);
    assert(keep(list.filter(keep)[i]));
}

/// A move stays in the list, and moving back by as much leads back, however far
/// the move went around the ends.
pub proof fn law_moves_cancel(selected: int, len: int, delta: int)
    requires
        0 <= selected < len,
    ensures
        moved(Some(selected), len, delta) matches Some(i) && 0 <= i < len,
        moved(moved(Some(selected), len, delta), len, -delta) == Some(selected),
{
    let there = (selected + delta) % len;
    lemma_mod_bound(selected + delta, len);
    lemma_fundamental_div_mod(selected + delta, len);
    let turns = (selected + delta) / len;
    assert(there - delta == (-turns) * len + selected) by (nonlinear_arith)
        requires
            selected + delta == len * turns + there,
    ;
    lemma_fundamental_div_mod_converse(there - delta, len, -turns, selected);
}

/// While a chat message is typed, keys change nothing but the message, and
/// nothing is sent but the message.
pub proof fn law_typing_only_chats(a: AppV, key: Key)
    requires
        a.watching,
        a.composing,
    ensures
        ({
            let t = key_turn(a, false, key);
            &&& !t.quit
            &&& t.app == (AppV {
                chat_input: t.app.chat_input,
                composing: t.app.composing,
                ..a
            })
            &&& forall|i: int|
                0 <= i < t.acts.len() ==> (#[trigger] t.acts[i] matches ActV::Send(m) && m is Chat)
        }),
{
}

/// A ping of the relay is answered, and changes nothing.
pub proof fn law_pings_are_answered(a: AppV)
    ensures
        net_turn(a, NetV::Msg(RelayToWatchV::Ping)).acts == seq![ActV::Send(WatchToRelayV::Pong)],
        net_turn(a, NetV::Msg(RelayToWatchV::Ping)).app == a,
{
}

/// A muted viewer plays nothing.
pub proof fn law_muted_is_silent(a: AppV, bytes: Seq<u8>)
    requires
        a.muted,
    ensures
        net_turn(a, NetV::Msg(RelayToWatchV::Audio(bytes))).acts == Seq::<ActV>::empty(),
{
}

// -------------------------------------------------------------------- viewing

/// The viewer after the replies among what the relay does, one after the other.
pub open spec fn received(a: AppV, effects: Seq<EffectV>) -> AppV
    decreases effects.len(),
{
    if effects.len() == 0 {
        a
    } else {
        let before = received(a, effects.drop_last());
        match effects.last() {
            EffectV::Reply(m) => net_turn(before, NetV::Msg(m)).app,
            _ => before,
        }
    }
}

proof fn lemma_received_push(a: AppV, effects: Seq<EffectV>, e: EffectV)
    ensures
        received(a, effects.push(e)) == (match e {
            EffectV::Reply(m) => net_turn(received(a, effects), NetV::Msg(m)).app,
            _ => received(a, effects),
        }),
{
    assert(effects.push(e).drop_last() =~= effects);
}

/// The viewer knows the size of the stream and whether it is paused, and its
/// screen has that size.
pub open spec fn informed(a: AppV, s: StreamV) -> bool {
    &&& a.joined matches Some(i) && i.cols == s.info.cols && i.rows == s.info.rows
    &&& a.fed matches Some(f) && last_size(f) == Some((s.info.rows, s.info.cols))
    &&& a.paused == s.paused
}

/// The viewer is in step with the stream: it knows size and pause, and what its
/// screen was given from entry `shown` on is what the relay's mirror was given
/// from entry `base` on.
pub open spec fn in_step(a: AppV, s: StreamV, base: int, shown: int) -> bool {
    &&& informed(a, s)
    &&& a.fed matches Some(f) && 0 <= shown <= f.len() && 0 <= base <= s.fed.len() && f.skip(shown)
        == s.fed.skip(base)
}

/// What the screen of a viewer was given that has just joined the stream: the
/// size, and the relay's dump of the screen.
pub open spec fn greeted(s: StreamV) -> Fed {
    after_drawing(seq![sized(s.info.rows, s.info.cols)], formatted_screen(s.fed))
}

/// Joining puts the viewer in step: its screen starts from the relay's dump of
/// the screen, at the size of the stream, and it knows whether the host has
/// paused the stream.
pub proof fn law_joining_is_in_step(a: AppV, r: RelayV, key: u64)
    requires
        relay_valid(r),
        r.streams.dom().contains(key),
    ensures
        ({
            let s = r.streams[key];
            let b = received(a, join_effects(r, key));
            &&& in_step(b, s, s.fed.len() as int, greeted(s).len() as int)
            &&& b.fed == Some(greeted(s))
            &&& b.watching
        }),
{
    let s = r.streams[key];
    let info = one_more(s).info;
    let none = Seq::<EffectV>::empty();
    let e0 = EffectV::Subscribe(key);
    let e1 = EffectV::ToHost(key, RelayToHostV::Viewers(info.viewers));
    let e2 = EffectV::Fan(key, BcastV::Viewers(info.viewers));
    let e3 = EffectV::Reply(
        RelayToWatchV::Joined { info, snapshot: formatted_screen(s.fed) },
    );
    let e4 = EffectV::Reply(RelayToWatchV::Privacy { paused: true });
    let first4 = none.push(e0).push(e1).push(e2).push(e3);
    lemma_received_push(a, none, e0);
    lemma_received_push(a, none.push(e0), e1);
    lemma_received_push(a, none.push(e0).push(e1), e2);
    lemma_received_push(a, none.push(e0).push(e1).push(e2), e3);
    lemma_received_push(a, first4, e4);
    assert(join_effects(r, key) =~= if s.paused {
        first4.push(e4)
    } else {
        first4
    });
    lemma_fresh(s.info.rows, s.info.cols);
    law_drawing_reads_everything(
        seq![sized(s.info.rows, s.info.cols)],
        formatted_screen(s.fed),
    );
    let b = received(a, join_effects(r, key));
    assert(b.fed == Some(greeted(s)));
    assert(greeted(s).skip(greeted(s).len() as int) =~= s.fed.skip(s.fed.len() as int));
}

/// On a stream with room for any text, the screen of a newcomer is given the
/// relay's dump at the size of the stream, and nothing else.
pub proof fn law_newcomers_see_the_dump(s: StreamV)
    requires
        roomy(s.info.rows, s.info.cols),
    ensures
        greeted(s) == seq![sized(s.info.rows, s.info.cols)] + drawn(formatted_screen(s.fed)),
{
    lemma_fresh(s.info.rows, s.info.cols);
    law_roomy_screens_draw_as_it_comes(
        seq![sized(s.info.rows, s.info.cols)],
        formatted_screen(s.fed),
    );
}

/// A viewer that lost events is put in step again, whatever was lost: it learns
/// the size and the pause, its screen reads the relay's dump of the screen last,
/// and draws it as it comes on a stream with room for any text.
pub proof fn law_resync_is_in_step(a: AppV, r: RelayV, w: WatcherV, key: u64)
    requires
        relay_valid(r),
        r.streams.dom().contains(key),
        w.joined == Some(key),
        a.joined is Some,
        a.fed is Some,
    ensures
        ({
            let s = r.streams[key];
            let b = received(a, fan_outcome(r, w, FanOutV::Lagged).effects);
            let set = after_resizing(a.fed.unwrap(), s.info.rows, s.info.cols);
            &&& b.fed is Some
            &&& in_step(b, s, s.fed.len() as int, b.fed.unwrap().len() as int)
            &&& b.fed.unwrap() == after_drawing(set, formatted_screen(s.fed))
            &&& seen(b.fed.unwrap()) == seen(a.fed.unwrap()) + formatted_screen(s.fed)
            &&& roomy(s.info.rows, s.info.cols) ==> b.fed.unwrap() == set + drawn(
                formatted_screen(s.fed),
            )
        }),
{
    let s = r.streams[key];
    let none = Seq::<EffectV>::empty();
    let e0 = EffectV::Subscribe(key);
    let e1 = EffectV::Reply(RelayToWatchV::Resize { cols: s.info.cols, rows: s.info.rows });
    let e2 = EffectV::Reply(RelayToWatchV::Output(formatted_screen(s.fed)));
    let e3 = EffectV::Reply(RelayToWatchV::Privacy { paused: s.paused });
    lemma_received_push(a, none, e0);
    lemma_received_push(a, none.push(e0), e1);
    lemma_received_push(a, none.push(e0).push(e1), e2);
    lemma_received_push(a, none.push(e0).push(e1).push(e2), e3);
    assert(resync_effects(r, key) =~= none.push(e0).push(e1).push(e2).push(e3));
    let f = a.fed.unwrap();
    let set = after_resizing(f, s.info.rows, s.info.cols);
    law_resizing_sets_the_size(f, s.info.rows, s.info.cols);
    law_drawing_reads_everything(set, formatted_screen(s.fed));
    if roomy(s.info.rows, s.info.cols) {
        law_roomy_screens_draw_as_it_comes(set, formatted_screen(s.fed));
    }
    let b = received(a, fan_outcome(r, w, FanOutV::Lagged).effects);
    let g = b.fed.unwrap();
    assert(g == after_drawing(set, formatted_screen(s.fed)));
    assert(g.skip(g.len() as int) =~= s.fed.skip(s.fed.len() as int));
}

/// The viewer after the relay's connection to it, `w`, received what the host's
/// message brings about.
pub open spec fn told(a: AppV, r: RelayV, w: WatcherV, s: StreamV, m: HostToRelayV) -> AppV {
    match fanned_out(s, m) {
        Some(b) => received(a, fan_outcome(r, w, FanOutV::Event(b)).effects),
        None => a,
    }
}

proof fn lemma_told(a: AppV, r: RelayV, w: WatcherV, s: StreamV, m: HostToRelayV)
    ensures
        told(a, r, w, s, m) == (match fanned_out(s, m) {
            Some(b) => net_turn(a, NetV::Msg(delivered(b))).app,
            None => a,
        }),
{
    if let Some(b) = fanned_out(s, m) {
        let e = EffectV::Reply(delivered(b));
        lemma_received_push(a, Seq::empty(), e);
        assert(fan_outcome(r, w, FanOutV::Event(b)).effects =~= Seq::empty().push(e));
    }
}

/// Every message of the host keeps a viewer informed of the size of the stream
/// and of its pauses.
pub proof fn law_viewers_stay_informed(
    a: AppV,
    r: RelayV,
    w: WatcherV,
    s: StreamV,
    m: HostToRelayV,
)
    requires
        informed(a, s),
    ensures
        informed(told(a, r, w, s, m), stream_after(s, m)),
{
    lemma_told(a, r, w, s, m);
    let f = a.fed.unwrap();
    match m {
        HostToRelayV::Output(data) => {
            law_drawing_reads_everything(f, data);
        },
        HostToRelayV::Resize { cols, rows } => {
            law_resizing_sets_the_size(f, at_least_one(rows), at_least_one(cols));
        },
        _ => {},
    }
}

/// What the host sends happens to a screen as it is: output is drawn as it comes,
/// and a new size cuts no character in two.
pub open spec fn untouched_by(fed: Fed, m: HostToRelayV) -> bool {
    match m {
        HostToRelayV::Output(data) => after_drawing(fed, data) == fed + drawn(data),
        HostToRelayV::Resize { cols, rows } => after_resizing(
            fed,
            at_least_one(rows),
            at_least_one(cols),
        ) == fed.push(sized(at_least_one(rows), at_least_one(cols))),
        _ => true,
    }
}

/// What the host sends happens as it is to the relay's mirror and to the
/// viewer's screen, unless it is output that nobody sees.
pub open spec fn plain_for_both(a: AppV, s: StreamV, m: HostToRelayV) -> bool {
    (m is Output && s.paused) || {
        &&& untouched_by(s.fed, m)
        &&& a.fed matches Some(f) && untouched_by(f, m)
    }
}

/// Every such message of the host keeps a viewer in step: its screen is given
/// what the relay's mirror of the screen is given, byte for byte and in order.
pub proof fn law_viewers_stay_in_step(
    a: AppV,
    r: RelayV,
    w: WatcherV,
    s: StreamV,
    m: HostToRelayV,
    base: int,
    shown: int,
)
    requires
        in_step(a, s, base, shown),
        plain_for_both(a, s, m),
    ensures
        in_step(told(a, r, w, s, m), stream_after(s, m), base, shown),
        told(a, r, w, s, m).fed.unwrap().len() >= a.fed.unwrap().len(),
        told(a, r, w, s, m).fed.unwrap().take(a.fed.unwrap().len() as int) == a.fed.unwrap(),
{
    law_viewers_stay_informed(a, r, w, s, m);
    lemma_told(a, r, w, s, m);
    let b = told(a, r, w, s, m);
    let t = stream_after(s, m);
    let f = a.fed.unwrap();
    let new = match m {
        HostToRelayV::Output(data) => if s.paused {
            Seq::empty()
        } else {
            drawn(data)
        },
        HostToRelayV::Resize { cols, rows } => seq![
            sized(at_least_one(rows), at_least_one(cols)),
        ],
        _ => Seq::empty(),
    };
    assert(t.fed =~= s.fed + new);
    assert(b.fed.unwrap() =~= f + new);
    assert((f + new).skip(shown) =~= f.skip(shown) + new);
    assert((s.fed + new).skip(base) =~= s.fed.skip(base) + new);
    assert((f + new).take(f.len() as int) =~= f);
}

/// A viewer that was told of a run of the host's messages, one after the other.
pub open spec fn told_all(
    a: AppV,
    r: RelayV,
    w: WatcherV,
    s: StreamV,
    ms: Seq<HostToRelayV>,
) -> AppV
    decreases ms.len(),
{
    if ms.len() == 0 {
        a
    } else {
        let before = ms.drop_last();
        told(told_all(a, r, w, s, before), r, w, stream_run(s, before), ms.last())
    }
}

/// Every message of a run happens as it is to the relay's mirror and to the
/// viewer's screen.
pub open spec fn all_plain_for_both(
    a: AppV,
    r: RelayV,
    w: WatcherV,
    s: StreamV,
    ms: Seq<HostToRelayV>,
) -> bool
    decreases ms.len(),
{
    ms.len() == 0 || {
        let before = ms.drop_last();
        &&& all_plain_for_both(a, r, w, s, before)
        &&& plain_for_both(told_all(a, r, w, s, before), stream_run(s, before), ms.last())
    }
}

/// Whoever joins late and is told of all that follows is given the dump of the
/// screen at that moment, and from there on all that the mirror is given.
pub proof fn law_late_viewers_catch_up(
    a: AppV,
    r: RelayV,
    w: WatcherV,
    key: u64,
    ms: Seq<HostToRelayV>,
)
    requires
        relay_valid(r),
        r.streams.dom().contains(key),
        all_plain_for_both(received(a, join_effects(r, key)), r, w, r.streams[key], ms),
    ensures
        ({
            let s = r.streams[key];
            let b = told_all(received(a, join_effects(r, key)), r, w, s, ms);
            let t = stream_run(s, ms);
            &&& informed(b, t)
            &&& b.fed.unwrap() == greeted(s) + t.fed.skip(s.fed.len() as int)
        }),
{
    let s = r.streams[key];
    let start = received(a, join_effects(r, key));
    law_joining_is_in_step(a, r, key);
    lemma_told_all(start, r, w, s, ms, s.fed.len() as int, greeted(s).len() as int);
    let b = told_all(start, r, w, s, ms);
    let f = b.fed.unwrap();
    let n = greeted(s).len() as int;
    assert(f =~= f.take(n) + f.skip(n));
    assert(start.fed.unwrap().take(n) =~= greeted(s));
}

proof fn lemma_told_all(
    a: AppV,
    r: RelayV,
    w: WatcherV,
    s: StreamV,
    ms: Seq<HostToRelayV>,
    base: int,
    shown: int,
)
    requires
        in_step(a, s, base, shown),
        all_plain_for_both(a, r, w, s, ms),
    ensures
        in_step(told_all(a, r, w, s, ms), stream_run(s, ms), base, shown),
        told_all(a, r, w, s, ms).fed.unwrap().take(shown) == a.fed.unwrap().take(shown),
    decreases ms.len(),
{
    if ms.len() > 0 {
        let before = ms.drop_last();
        lemma_told_all(a, r, w, s, before, base, shown);
        let b = told_all(a, r, w, s, before);
        let t = stream_run(s, before);
        law_viewers_stay_in_step(b, r, w, t, ms.last(), base, shown);
        let f = b.fed.unwrap();
        let g = told(b, r, w, t, ms.last()).fed.unwrap();
        assert(g.take(shown) =~= g.take(f.len() as int).take(shown));
    }
}

/// The output of a run of the host's messages that is sent while the stream is
/// not paused.
pub open spec fn live_output(s: StreamV, ms: Seq<HostToRelayV>) -> Seq<u8>
    decreases ms.len(),
{
    if ms.len() == 0 {
        Seq::empty()
    } else {
        let before = ms.drop_last();
        match fanned_out(stream_run(s, before), ms.last()) {
            Some(BcastV::Output(data)) => live_output(s, before) + data,
            _ => live_output(s, before),
        }
    }
}

/// Whatever the host sends, whoever joins late knows size and pause at all times,
/// and its screen reads the relay's dump and then all live output, byte for byte
/// and in order, just as the relay's mirror does.
pub proof fn law_all_live_output_is_read(
    a: AppV,
    r: RelayV,
    w: WatcherV,
    key: u64,
    ms: Seq<HostToRelayV>,
)
    requires
        relay_valid(r),
        r.streams.dom().contains(key),
    ensures
        ({
            let s = r.streams[key];
            let b = told_all(received(a, join_effects(r, key)), r, w, s, ms);
            let t = stream_run(s, ms);
            &&& informed(b, t)
            &&& seen(t.fed) == seen(s.fed) + live_output(s, ms)
            &&& seen(b.fed.unwrap()) == formatted_screen(s.fed) + live_output(s, ms)
        }),
{
    let s = r.streams[key];
    let size = seq![sized(s.info.rows, s.info.cols)];
    law_joining_is_in_step(a, r, key);
    lemma_fresh(s.info.rows, s.info.cols);
    law_drawing_reads_everything(size, formatted_screen(s.fed));
    assert(seen(size) + formatted_screen(s.fed) =~= formatted_screen(s.fed));
    lemma_all_read(received(a, join_effects(r, key)), r, w, s, ms);
}

proof fn lemma_all_read(a: AppV, r: RelayV, w: WatcherV, s: StreamV, ms: Seq<HostToRelayV>)
    requires
        informed(a, s),
        true_to_size(s),
    ensures
        informed(told_all(a, r, w, s, ms), stream_run(s, ms)),
        true_to_size(stream_run(s, ms)),
        seen(stream_run(s, ms).fed) == seen(s.fed) + live_output(s, ms),
        seen(told_all(a, r, w, s, ms).fed.unwrap()) == seen(a.fed.unwrap()) + live_output(s, ms),
    decreases ms.len(),
{
    if ms.len() == 0 {
        assert(seen(s.fed) + live_output(s, ms) =~= seen(s.fed));
        assert(seen(a.fed.unwrap()) + live_output(s, ms) =~= seen(a.fed.unwrap()));
    } else {
        let before = ms.drop_last();
        lemma_all_read(a, r, w, s, before);
        let b = told_all(a, r, w, s, before);
        let t = stream_run(s, before);
        let f = b.fed.unwrap();
        let live = live_output(s, before);
        law_viewers_stay_informed(b, r, w, t, ms.last());
        lemma_told(b, r, w, t, ms.last());
        law_messages_keep_size_true(t, ms.last());
        match ms.last() {
            HostToRelayV::Output(data) => {
                law_drawing_reads_everything(t.fed, data);
                law_drawing_reads_everything(f, data);
                assert(seen(s.fed) + live + data =~= seen(s.fed) + (live + data));
                assert(seen(a.fed.unwrap()) + live + data =~= seen(a.fed.unwrap()) + (live + data));
            },
            HostToRelayV::Resize { cols, rows } => {
                law_resizing_sets_the_size(t.fed, at_least_one(rows), at_least_one(cols));
                law_resizing_sets_the_size(f, at_least_one(rows), at_least_one(cols));
            },
            _ => {},
        }
    }
}

/// Every size that the host sets has room for any text and is no narrower than
/// the one before.
pub open spec fn widening(s: StreamV, ms: Seq<HostToRelayV>) -> bool
    decreases ms.len(),
{
    ms.len() == 0 || {
        let before = ms.drop_last();
        &&& widening(s, before)
        &&& ms.last() matches HostToRelayV::Resize { cols, rows } ==> roomy(rows, cols) && cols
            >= stream_run(s, before).info.cols
    }
}

/// Where the terminal has room for any text and never becomes narrower, all that
/// the host sends happens as it is, to the relay's mirror and to the screen of
/// whoever joined late.
pub proof fn law_widening_streams_are_plain_for_both(
    a: AppV,
    r: RelayV,
    w: WatcherV,
    key: u64,
    ms: Seq<HostToRelayV>,
)
    requires
        relay_valid(r),
        r.streams.dom().contains(key),
        roomy(r.streams[key].info.rows, r.streams[key].info.cols),
        widening(r.streams[key], ms),
    ensures
        all_plain_for_both(received(a, join_effects(r, key)), r, w, r.streams[key], ms),
{
    law_joining_is_in_step(a, r, key);
    lemma_widening(received(a, join_effects(r, key)), r, w, r.streams[key], ms);
}

proof fn lemma_widening(a: AppV, r: RelayV, w: WatcherV, s: StreamV, ms: Seq<HostToRelayV>)
    requires
        informed(a, s),
        true_to_size(s),
        roomy(s.info.rows, s.info.cols),
        widening(s, ms),
    ensures
        all_plain_for_both(a, r, w, s, ms),
        ({
            let b = told_all(a, r, w, s, ms);
            let t = stream_run(s, ms);
            &&& informed(b, t)
            &&& true_to_size(t)
            &&& roomy(t.info.rows, t.info.cols)
        }),
    decreases ms.len(),
{
    if ms.len() > 0 {
        let before = ms.drop_last();
        lemma_widening(a, r, w, s, before);
        let b = told_all(a, r, w, s, before);
        let t = stream_run(s, before);
        let f = b.fed.unwrap();
        law_viewers_stay_informed(b, r, w, t, ms.last());
        lemma_told(b, r, w, t, ms.last());
        law_messages_keep_size_true(t, ms.last());
        match ms.last() {
            HostToRelayV::Output(data) => {
                law_roomy_screens_draw_as_it_comes(t.fed, data);
                law_roomy_screens_draw_as_it_comes(f, data);
            },
            HostToRelayV::Resize { cols, rows } => {
                assert(!narrower(t.fed, cols) && !narrower(f, cols));
                law_only_cut_characters_are_mended(t.fed, rows, cols);
                law_only_cut_characters_are_mended(f, rows, cols);
            },
            _ => {},
        }
    }
}

} // verus!
