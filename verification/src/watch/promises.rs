//! What each key and each message does to the viewer.
use crate::audio::{decoded, encoded, law_frame_round_trip};
use crate::emulator::{last_size, law_drawing_reads_everything, seen, Fed};
use crate::owned::foreign;
use crate::protocol::{InfoV, RelayToWatchV, WatchToRelayV};
use crate::text::{law_trimming_leaves_the_middle, text_view, white};
use crate::watch::app::{opened, with_speaker, WatchConfig};
use crate::watch::model::{app_valid, first, key_turn, net_turn, picked, ActV, AppV, Key, LineV,
    NetV, Turn};
use vstd::arithmetic::div_mod::{lemma_fundamental_div_mod_converse, lemma_small_mod};
use vstd::prelude::*;

verus! {

// ---------------------------------------------------------------------- browser

/// Control and C end the program wherever it is, and nothing else is done.
/// With any other key, control makes no difference.
pub proof fn law_interrupts_quit(a: AppV, key: Key)
    ensures
        ({
            let t = key_turn(a, true, key);
            if key == Key::Char('c') || key == Key::Char('C') {
                t.quit && t.app == a && t.acts == Seq::<ActV>::empty()
            } else {
                t == key_turn(a, false, key)
            }
        }),
{
}

/// In the browser, `q` and escape end the program, and no other key does.
pub proof fn law_browser_quits(a: AppV, key: Key)
    requires
        !a.watching,
    ensures
        key_turn(a, false, key).quit <==> key == Key::Char('q') || key == Key::Esc,
        key_turn(a, false, key).quit ==> key_turn(a, false, key).app == a && key_turn(
            a,
            false,
            key,
        ).acts == Seq::<ActV>::empty(),
{
}

/// While a stream is watched, no key ends the program but control and C.
pub proof fn law_watching_goes_on(a: AppV, key: Key)
    requires
        a.watching,
    ensures
        !key_turn(a, false, key).quit,
{
}

/// In the browser, down and `j` select the next stream and up and `k` the one
/// before, around the ends of the list; nothing else changes and nothing is
/// sent.
pub proof fn law_arrows_select_neighbours(a: AppV, i: int)
    requires
        app_valid(a),
        !a.watching,
        a.selected == Some(i),
    ensures
        ({
            let n = a.streams.len() as int;
            let next = if i + 1 < n {
                i + 1
            } else {
                0
            };
            let before = if i > 0 {
                i - 1
            } else {
                n - 1
            };
            let down = Turn {
                app: AppV { selected: Some(next), ..a },
                acts: Seq::empty(),
                quit: false,
            };
            let up = Turn {
                app: AppV { selected: Some(before), ..a },
                acts: Seq::empty(),
                quit: false,
            };
            &&& key_turn(a, false, Key::Down) == down
            &&& key_turn(a, false, Key::Char('j')) == down
            &&& key_turn(a, false, Key::Up) == up
            &&& key_turn(a, false, Key::Char('k')) == up
        }),
{
    let n = a.streams.len() as int;
    if i + 1 < n {
        lemma_small_mod((i + 1) as nat, n as nat);
    } else {
        lemma_fundamental_div_mod_converse(i + 1, n, 1, 0);
    }
    if i > 0 {
        lemma_small_mod((i - 1) as nat, n as nat);
    } else {
        lemma_fundamental_div_mod_converse(-1, n, -1, n - 1);
    }
}

/// The stream that is selected is the one of that number in the list; with an
/// empty list there is none.
pub proof fn law_the_selected_stream_is_in_the_list(a: AppV)
    requires
        app_valid(a),
    ensures
        a.streams.len() == 0 ==> picked(a) is None,
        a.streams.len() > 0 ==> (a.selected matches Some(i) && 0 <= i < a.streams.len() && picked(a)
            == Some(a.streams[i])),
{
}

/// In the browser, enter joins the stream that is selected, and remembers it.
pub proof fn law_enter_joins_the_selected(a: AppV, i: int)
    requires
        app_valid(a),
        !a.watching,
        a.selected == Some(i),
    ensures
        ({
            let t = key_turn(a, false, Key::Enter);
            let id = a.streams[i].stream_id;
            &&& t.acts == seq![ActV::Send(WatchToRelayV::Join { target: id })]
            &&& t.app == (AppV { last_target: Some(id), status: "joining…"@, ..a })
        }),
{
}

/// In the browser, `r` asks for the list again. With nothing to select, neither
/// arrows nor enter do anything.
pub proof fn law_refreshing_asks_again(a: AppV)
    requires
        app_valid(a),
        !a.watching,
    ensures
        ({
            let t = key_turn(a, false, Key::Char('r'));
            &&& t.acts == seq![ActV::Send(WatchToRelayV::List)]
            &&& t.app == (AppV { status: "refreshing…"@, ..a })
        }),
        a.streams.len() == 0 ==> {
            &&& key_turn(a, false, Key::Enter).app == a
            &&& key_turn(a, false, Key::Enter).acts == Seq::<ActV>::empty()
            &&& key_turn(a, false, Key::Down).app == a
            &&& key_turn(a, false, Key::Up).app == a
        },
{
}

/// In the browser, any other key does nothing.
pub proof fn law_other_browser_keys_do_nothing(a: AppV, key: Key)
    requires
        !a.watching,
        !(key is Esc) && !(key is Enter) && !(key is Up) && !(key is Down),
        key matches Key::Char(c) ==> c != 'q' && c != 'j' && c != 'k' && c != 'r',
    ensures
        key_turn(a, false, key) == (Turn { app: a, acts: Seq::empty(), quit: false }),
{
}

// --------------------------------------------------------------------- watching

/// While a stream is watched, `c` opens the chat for typing; nothing is sent.
pub proof fn law_chat_opens(a: AppV)
    requires
        a.watching,
        !a.composing,
    ensures
        key_turn(a, false, Key::Char('c')) == (Turn {
            app: AppV { chat_open: true, composing: true, ..a },
            acts: Seq::empty(),
            quit: false,
        }),
{
}

/// While a stream is watched, `m` mutes the host's voice and closes the speaker;
/// pressed again, it only ends the muting.
pub proof fn law_muting_toggles(a: AppV)
    requires
        a.watching,
        !a.composing,
    ensures
        !a.muted ==> {
            let t = key_turn(a, false, Key::Char('m'));
            let u = key_turn(t.app, false, Key::Char('m'));
            &&& t.app == (AppV { muted: true, speaker: false, ..a })
            &&& t.acts == seq![ActV::CloseSpeaker]
            &&& u.app == (AppV { speaker: false, ..a })
            &&& u.acts == Seq::<ActV>::empty()
        },
        a.muted ==> key_turn(a, false, Key::Char('m')) == (Turn {
            app: AppV { muted: false, ..a },
            acts: Seq::empty(),
            quit: false,
        }),
{
}

/// While a stream is watched, `q`, escape and backspace lead back to the browser:
/// the relay is told that the viewer left and is asked for the list, and the
/// stream is forgotten.
pub proof fn law_leaving_leads_back(a: AppV, key: Key)
    requires
        a.watching,
        !a.composing,
        key == Key::Char('q') || key == Key::Esc || key == Key::Backspace,
    ensures
        ({
            let t = key_turn(a, false, key);
            &&& t.acts == seq![ActV::Send(WatchToRelayV::Leave), ActV::Send(WatchToRelayV::List)]
            &&& t.app == (AppV {
                watching: false,
                joined: None,
                fed: None,
                paused: false,
                last_target: None,
                status: "browsing"@,
                ..a
            })
        }),
{
}

/// While a stream is watched, any other key does nothing.
pub proof fn law_other_watch_keys_do_nothing(a: AppV, key: Key)
    requires
        a.watching,
        !a.composing,
        !(key is Esc) && !(key is Backspace),
        key matches Key::Char(c) ==> c != 'c' && c != 'm' && c != 'q',
    ensures
        key_turn(a, false, key) == (Turn { app: a, acts: Seq::empty(), quit: false }),
{
}

/// While a chat message is typed, a character is added at its end and backspace
/// takes the last one off again; escape gives the message up.
pub proof fn law_typing_edits_the_message(a: AppV, c: char)
    requires
        a.watching,
        a.composing,
    ensures
        ({
            let typed = key_turn(a, false, Key::Char(c));
            let undone = key_turn(typed.app, false, Key::Backspace);
            let given_up = key_turn(a, false, Key::Esc);
            &&& typed.app == (AppV { chat_input: a.chat_input.push(c), ..a })
            &&& typed.acts == Seq::<ActV>::empty()
            &&& undone.app == a
            &&& undone.acts == Seq::<ActV>::empty()
            &&& a.chat_input.len() == 0 ==> key_turn(a, false, Key::Backspace).app == a
            &&& given_up.app == (AppV { chat_input: Seq::empty(), composing: false, ..a })
            &&& given_up.acts == Seq::<ActV>::empty()
        }),
        key_turn(a, false, Key::Up).app == a,
        key_turn(a, false, Key::Down).app == a,
        key_turn(a, false, Key::Other).app == a,
{
    let typed = key_turn(a, false, Key::Char(c));
    assert(typed.app.chat_input.drop_last() =~= a.chat_input);
}

/// Enter sends the typed message without white space at its ends, once, and
/// starts the next one; a message of white space alone is not sent.
pub proof fn law_enter_sends_the_message(a: AppV, i: int, j: int)
    requires
        a.watching,
        a.composing,
        0 <= i <= j <= a.chat_input.len(),
        forall|k: int|
            0 <= k < a.chat_input.len() && (k < i || k >= j) ==> white(#[trigger] a.chat_input[k]),
        i < j ==> !white(a.chat_input[i]) && !white(a.chat_input[j - 1]),
    ensures
        ({
            let t = key_turn(a, false, Key::Enter);
            &&& t.app == (AppV { chat_input: Seq::empty(), ..a })
            &&& i < j ==> t.acts == seq![
                ActV::Send(WatchToRelayV::Chat { text: a.chat_input.subrange(i, j) }),
            ]
            &&& i == j ==> t.acts == Seq::<ActV>::empty()
        }),
{
    law_trimming_leaves_the_middle(a.chat_input, i, j);
}

// --------------------------------------------------------------------- messages

/// A new list replaces the old one, without this machine's own streams. The
/// selection stays where it is, or moves up to the last stream where the list
/// has become shorter; with nothing selected, the first stream is.
pub proof fn law_lists_are_shown(a: AppV, l: Seq<InfoV>)
    ensures
        ({
            let t = net_turn(a, NetV::Msg(RelayToWatchV::Streams(l)));
            let shown = foreign(l, a.owned);
            let n = shown.len();
            &&& t.acts == Seq::<ActV>::empty()
            &&& t.app == (AppV { streams: shown, selected: t.app.selected, ..a })
            &&& n == 0 ==> t.app.selected is None
            &&& n > 0 && a.selected is None ==> t.app.selected == Some(0int)
            &&& a.selected matches Some(i) ==> {
                &&& 0 <= i < n ==> t.app.selected == Some(i)
                &&& n > 0 && i >= n ==> t.app.selected == Some(n - 1)
            }
        }),
{
}

/// Once the relay has let the viewer join, the stream is shown, as the relay
/// describes it.
pub proof fn law_joined_streams_are_shown(a: AppV, info: InfoV, snapshot: Seq<u8>)
    ensures
        ({
            let t = net_turn(a, NetV::Msg(RelayToWatchV::Joined { info, snapshot }));
            &&& t.acts == Seq::<ActV>::empty()
            &&& t.app == (AppV {
                watching: true,
                joined: Some(info),
                paused: false,
                status: Seq::empty(),
                fed: t.app.fed,
                ..a
            })
            &&& t.app.fed is Some
        }),
{
}

/// Output goes to the screen of the stream, all of it, and nowhere else.
pub proof fn law_output_goes_to_the_screen(a: AppV, f: Fed, data: Seq<u8>)
    requires
        a.fed == Some(f),
        last_size(f) is Some,
    ensures
        ({
            let t = net_turn(a, NetV::Msg(RelayToWatchV::Output(data)));
            &&& t.acts == Seq::<ActV>::empty()
            &&& t.app == (AppV { fed: t.app.fed, ..a })
            &&& t.app.fed is Some
            &&& seen(t.app.fed.unwrap()) == seen(f) + data
        }),
{
    law_drawing_reads_everything(f, data);
}

/// The host's voice is played, sample by sample, unless the viewer is muted: what
/// the host's microphone delivered is what the speaker is given. The speaker is
/// opened for it first, where it is not open and has not failed.
pub proof fn law_voice_is_played(a: AppV, frame: Seq<i16>, bytes: Seq<u8>)
    requires
        bytes == encoded(frame) || frame == decoded(bytes),
    ensures
        ({
            let t = net_turn(a, NetV::Msg(RelayToWatchV::Audio(bytes)));
            &&& t.app == (AppV { audio_seen: true, ..a })
            &&& a.muted ==> t.acts == Seq::<ActV>::empty()
            &&& !a.muted && (a.speaker || a.audio_err is Some) ==> t.acts == seq![ActV::Play(frame)]
            &&& !a.muted && !a.speaker && a.audio_err is None ==> t.acts == seq![
                ActV::OpenSpeaker,
                ActV::Play(frame),
            ]
        }),
{
    law_frame_round_trip(frame);
}

/// A new size, a pause or its end, and a new count reach what is shown of the
/// stream, and change nothing else.
pub proof fn law_the_stream_is_kept_up_to_date(
    a: AppV,
    info: InfoV,
    cols: u16,
    rows: u16,
    paused: bool,
    n: u32,
)
    requires
        a.joined == Some(info),
    ensures
        ({
            let t = net_turn(a, NetV::Msg(RelayToWatchV::Resize { cols, rows }));
            &&& t.acts == Seq::<ActV>::empty()
            &&& t.app == (AppV {
                joined: Some(InfoV { cols, rows, ..info }),
                fed: t.app.fed,
                ..a
            })
        }),
        net_turn(a, NetV::Msg(RelayToWatchV::Privacy { paused })) == (Turn {
            app: AppV { paused, ..a },
            acts: Seq::empty(),
            quit: false,
        }),
        net_turn(a, NetV::Msg(RelayToWatchV::Viewers(n))) == (Turn {
            app: AppV { joined: Some(InfoV { viewers: n, ..info }), ..a },
            acts: Seq::empty(),
            quit: false,
        }),
{
}

/// A chat message becomes the newest line of the chat, with its sender and time,
/// and opens the chat. Nothing is lost of the lines before it, unless there are
/// 200 of them: then the oldest is.
pub proof fn law_chat_is_logged(a: AppV, from: Seq<char>, text: Seq<char>, ts: u64)
    requires
        app_valid(a),
    ensures
        ({
            let t = net_turn(a, NetV::Msg(RelayToWatchV::Chat { from, text, ts_unix: ts }));
            let line = LineV { from, text, ts };
            &&& t.acts == Seq::<ActV>::empty()
            &&& t.app == (AppV { chat_log: t.app.chat_log, chat_open: true, ..a })
            &&& a.chat_log.len() < 200 ==> t.app.chat_log == a.chat_log.push(line)
            &&& a.chat_log.len() == 200 ==> t.app.chat_log == a.chat_log.skip(1).push(line)
        }),
{
    let t = net_turn(a, NetV::Msg(RelayToWatchV::Chat { from, text, ts_unix: ts }));
    let line = LineV { from, text, ts };
    if a.chat_log.len() == 200 {
        assert(t.app.chat_log =~= a.chat_log.skip(1).push(line));
    }
}

/// When the stream ends, the viewer is back in the browser, forgets the stream
/// and asks for the list. An error of the relay is shown, and a second welcome
/// means nothing.
pub proof fn law_ends_and_errors_are_shown(a: AppV, why: Seq<char>)
    ensures
        ({
            let t = net_turn(a, NetV::Msg(RelayToWatchV::Ended));
            &&& t.acts == seq![ActV::Send(WatchToRelayV::List)]
            &&& t.app == (AppV {
                watching: false,
                joined: None,
                fed: None,
                paused: false,
                last_target: None,
                status: "stream ended"@,
                ..a
            })
        }),
        net_turn(a, NetV::Msg(RelayToWatchV::Error(why))) == (Turn {
            app: AppV { status: why, ..a },
            acts: Seq::empty(),
            quit: false,
        }),
        net_turn(a, NetV::Msg(RelayToWatchV::Welcome)) == (Turn {
            app: a,
            acts: Seq::empty(),
            quit: false,
        }),
{
}

// -------------------------------------------------------------------- connection

/// Once connected, the viewer joins what it is set on, and else asks for the
/// list.
pub proof fn law_connecting_joins_or_lists(a: AppV)
    ensures
        ({
            let t = net_turn(a, NetV::Connected);
            &&& a.pending_target matches Some(target) ==> {
                &&& t.acts == seq![ActV::Send(WatchToRelayV::Join { target })]
                &&& t.app == (AppV {
                    connected: true,
                    pending_target: None,
                    last_target: Some(target),
                    status: "joining…"@,
                    ..a
                })
            }
            &&& a.pending_target is None ==> {
                &&& t.acts == seq![ActV::Send(WatchToRelayV::List)]
                &&& t.app == (AppV { connected: true, status: "browsing"@, ..a })
            }
        }),
{
}

/// A lost connection is shown with its reason. The stream that was watched is
/// closed and is what the viewer is set on next; else nothing changes.
pub proof fn law_losses_are_shown(a: AppV, why: Seq<char>)
    ensures
        ({
            let t = net_turn(a, NetV::Disconnected(why));
            let status = "disconnected: "@ + why + " — reconnecting…"@;
            &&& t.acts == Seq::<ActV>::empty()
            &&& !t.quit
            &&& !a.watching ==> t.app == (AppV { connected: false, status, ..a })
            &&& a.watching ==> t.app == (AppV {
                connected: false,
                status,
                watching: false,
                joined: None,
                fed: None,
                paused: false,
                pending_target: a.last_target,
                ..a
            })
        }),
{
}

/// At its start, the viewer is in the browser, without connection, streams and
/// chat, neither muted nor typing, and set on the target it was given.
pub proof fn law_viewers_start_in_the_browser(
    relay: Seq<char>,
    target: Option<Seq<char>>,
    owned: Seq<Seq<char>>,
    chat_open: bool,
    chat_only: bool,
)
    ensures
        ({
            let a = first(relay, target, owned, chat_open, chat_only);
            &&& app_valid(a)
            &&& a.relay == relay
            &&& a.pending_target == target
            &&& a.owned == owned
            &&& a.chat_open == chat_open
            &&& a.chat_only == chat_only
            &&& !a.watching && !a.connected && !a.paused && !a.composing
            &&& !a.speaker && !a.muted && !a.audio_seen && a.audio_err is None
            &&& a.streams == Seq::<InfoV>::empty()
            &&& a.selected is None
            &&& a.last_target is None
            &&& a.chat_log == Seq::<LineV>::empty()
            &&& a.chat_input == Seq::<char>::empty()
            &&& a.status == "connecting…"@
        }),
{
}

/// A viewer is refused exactly where it is set on a stream of this machine's own
/// and that is not allowed. It hides this machine's own streams, unless it is
/// allowed to watch them.
pub proof fn law_own_streams_are_not_watched(cfg: WatchConfig, markers: Seq<(String, String)>)
    ensures
        opened(cfg, markers) is Err <==> !cfg.allow_self && cfg.target is Some && exists|i: int|
            0 <= i < markers.len() && ((#[trigger] markers[i]).0@ == cfg.target.unwrap()@
                || markers[i].1@ == cfg.target.unwrap()@),
        opened(cfg, markers) matches Ok(a) ==> {
            &&& a.relay == cfg.relay@
            &&& a.pending_target == text_view(cfg.target)
            &&& a.chat_open == cfg.chat_open
            &&& a.chat_only == cfg.chat_only
            &&& cfg.allow_self ==> a.owned == Seq::<Seq<char>>::empty()
            &&& !cfg.allow_self ==> a.owned.len() == markers.len() && forall|i: int|
                0 <= i < markers.len() ==> #[trigger] a.owned[i] == markers[i].0@
        },
{
}

/// A speaker that opened is open, and one that failed is remembered with its
/// reason, so that it is not tried again; nothing else changes.
pub proof fn law_speakers_are_tried_once(a: AppV, why: Seq<char>, frame: Seq<i16>)
    requires
        !a.muted,
    ensures
        with_speaker(a, Ok(())) == (AppV { speaker: true, ..a }),
        with_speaker(a, Err(why)) == (AppV { audio_err: Some(why), ..a }),
        !net_turn(
            with_speaker(a, Err(why)),
            NetV::Msg(RelayToWatchV::Audio(encoded(frame))),
        ).acts.contains(ActV::OpenSpeaker),
{
}

} // verus!
