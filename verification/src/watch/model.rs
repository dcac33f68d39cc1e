//! What the viewer's state is, and what keys and messages do to it.
use crate::audio::decoded;
use crate::emulator::{after_drawing, after_resizing, sized, Fed};
use crate::owned::foreign;
use crate::protocol::{InfoV, RelayToWatchV, WatchToRelayV};
use crate::relay::model::at_least_one;
use crate::text::trimmed;
use vstd::prelude::*;

verus! {

/// Most lines of chat that are kept.
pub const CHAT_LOG_LIMIT: usize = 200;

/// A line of chat.
pub struct LineV {
    pub from: Seq<char>,
    pub text: Seq<char>,
    pub ts: u64,
}

/// Model of the viewer.
pub struct AppV {
    /// Address of the relay.
    pub relay: Seq<char>,
    /// Whether a stream is shown; otherwise the browser is.
    pub watching: bool,
    /// What the status line says.
    pub status: Seq<char>,
    /// Whether there is a connection to the relay.
    pub connected: bool,
    /// The streams that can be picked.
    pub streams: Seq<InfoV>,
    /// Which of them is selected.
    pub selected: Option<int>,
    /// The stream that is watched.
    pub joined: Option<InfoV>,
    /// What the screen of the watched stream was given.
    pub fed: Option<Fed>,
    /// Whether the host paused the stream.
    pub paused: bool,
    /// What to join at the next connection.
    pub pending_target: Option<Seq<char>>,
    /// What was joined last.
    pub last_target: Option<Seq<char>>,
    /// The streams of this machine's own.
    pub owned: Seq<Seq<char>>,
    /// The latest lines of chat, oldest first.
    pub chat_log: Seq<LineV>,
    /// The chat message that is being typed.
    pub chat_input: Seq<char>,
    /// Whether keys go to the chat message.
    pub composing: bool,
    /// Whether the chat is shown.
    pub chat_open: bool,
    /// Whether nothing but the chat is shown.
    pub chat_only: bool,
    /// Whether the speaker is open.
    pub speaker: bool,
    /// Whether the host's voice is muted.
    pub muted: bool,
    /// Whether any voice has arrived.
    pub audio_seen: bool,
    /// Why the speaker could not be opened.
    pub audio_err: Option<Seq<char>>,
}

/// What the viewer has done.
pub enum ActV {
    /// Send to the relay.
    Send(WatchToRelayV),
    /// Open the speaker and report how that went.
    OpenSpeaker,
    /// Play samples, if the speaker is open.
    Play(Seq<i16>),
    /// Close the speaker.
    CloseSpeaker,
}

/// What the connection reports.
pub enum NetV {
    Connected,
    Disconnected(Seq<char>),
    Msg(RelayToWatchV),
}

/// A key.
#[derive(Debug, Clone, Copy)]
pub enum Key {
    Char(char),
    Enter,
    Esc,
    Backspace,
    Up,
    Down,
    Other,
}

/// What a key or a message does: the viewer after it, what is done about it and
/// whether the program ends.
pub struct Turn {
    pub app: AppV,
    pub acts: Seq<ActV>,
    pub quit: bool,
}

/// Nothing is done but a change of state.
pub open spec fn quietly(a: AppV) -> Turn {
    Turn { app: a, acts: Seq::empty(), quit: false }
}

// ----------------------------------------------------------------------- keys

/// The selection `delta` further down, around the ends of the list.
pub open spec fn moved(selected: Option<int>, len: int, delta: int) -> Option<int> {
    if len == 0 {
        None
    } else {
        Some(
            ((match selected {
                Some(i) => i,
                None => 0,
            }) + delta) % len,
        )
    }
}

/// The stream that is selected.
pub open spec fn picked(a: AppV) -> Option<InfoV> {
    match a.selected {
        Some(i) => if 0 <= i < a.streams.len() {
            Some(a.streams[i])
        } else {
            None
        },
        None => None,
    }
}

/// What a key does in the browser.
pub open spec fn browse_key(a: AppV, key: Key) -> Turn {
    match key {
        Key::Char('q') => Turn { app: a, acts: Seq::empty(), quit: true },
        Key::Esc => Turn { app: a, acts: Seq::empty(), quit: true },
        Key::Down => quietly(
            AppV { selected: moved(a.selected, a.streams.len() as int, 1), ..a },
        ),
        Key::Char('j') => quietly(
            AppV { selected: moved(a.selected, a.streams.len() as int, 1), ..a },
        ),
        Key::Up => quietly(AppV { selected: moved(a.selected, a.streams.len() as int, -1), ..a }),
        Key::Char('k') => quietly(
            AppV { selected: moved(a.selected, a.streams.len() as int, -1), ..a },
        ),
        Key::Char('r') => Turn {
            app: AppV { status: "refreshing…"@, ..a },
            acts: seq![ActV::Send(WatchToRelayV::List)],
            quit: false,
        },
        Key::Enter => match picked(a) {
            Some(s) => Turn {
                app: AppV { last_target: Some(s.stream_id), status: "joining…"@, ..a },
                acts: seq![ActV::Send(WatchToRelayV::Join { target: s.stream_id })],
                quit: false,
            },
            None => quietly(a),
        },
        _ => quietly(a),
    }
}

/// What a key does while a chat message is typed.
pub open spec fn compose_key(a: AppV, key: Key) -> Turn {
    match key {
        Key::Esc => quietly(AppV { composing: false, chat_input: Seq::empty(), ..a }),
        Key::Enter => Turn {
            app: AppV { chat_input: Seq::empty(), ..a },
            acts: if trimmed(a.chat_input).len() > 0 {
                seq![ActV::Send(WatchToRelayV::Chat { text: trimmed(a.chat_input) })]
            } else {
                Seq::empty()
            },
            quit: false,
        },
        Key::Backspace => quietly(
            AppV {
                chat_input: if a.chat_input.len() > 0 {
                    a.chat_input.drop_last()
                } else {
                    a.chat_input
                },
                ..a
            },
        ),
        Key::Char(c) => quietly(AppV { chat_input: a.chat_input.push(c), ..a }),
        _ => quietly(a),
    }
}

/// The viewer when it is back in the browser.
pub open spec fn left_stream(a: AppV) -> AppV {
    AppV { watching: false, fed: None, joined: None, paused: false, ..a }
}

/// What a key does while a stream is watched.
pub open spec fn watch_key(a: AppV, key: Key) -> Turn {
    match key {
        Key::Char('c') => quietly(AppV { chat_open: true, composing: true, ..a }),
        Key::Char('m') => if a.muted {
            quietly(AppV { muted: false, ..a })
        } else {
            Turn {
                app: AppV { muted: true, speaker: false, ..a },
                acts: seq![ActV::CloseSpeaker],
                quit: false,
            }
        },
        Key::Char('q') => leave_turn(a),
        Key::Esc => leave_turn(a),
        Key::Backspace => leave_turn(a),
        _ => quietly(a),
    }
}

/// What leaving a stream does.
pub open spec fn leave_turn(a: AppV) -> Turn {
    Turn {
        app: AppV { last_target: None, status: "browsing"@, ..left_stream(a) },
        acts: seq![ActV::Send(WatchToRelayV::Leave), ActV::Send(WatchToRelayV::List)],
        quit: false,
    }
}

/// What a key does.
pub open spec fn key_turn(a: AppV, ctrl: bool, key: Key) -> Turn {
    if ctrl && (key == Key::Char('c') || key == Key::Char('C')) {
        Turn { app: a, acts: Seq::empty(), quit: true }
    } else if !a.watching {
        browse_key(a, key)
    } else if a.composing {
        compose_key(a, key)
    } else {
        watch_key(a, key)
    }
}

// ------------------------------------------------------------------- messages

/// The status line of a viewer without connection.
pub open spec fn lost_text(why: Seq<char>) -> Seq<char> {
    "disconnected: "@ + why + " — reconnecting…"@
}

/// The selection when the list is replaced by one of `len` streams.
pub open spec fn reselected(selected: Option<int>, len: int) -> Option<int> {
    if len == 0 {
        None
    } else {
        let i = match selected {
            Some(i) => i,
            None => 0,
        };
        Some(
            if i < len {
                i
            } else {
                len - 1
            },
        )
    }
}

/// The newest lines of chat.
pub open spec fn kept_lines(log: Seq<LineV>) -> Seq<LineV> {
    if log.len() <= CHAT_LOG_LIMIT {
        log
    } else {
        log.skip(log.len() - CHAT_LOG_LIMIT)
    }
}

/// What a message of the relay does.
pub open spec fn msg_turn(a: AppV, m: RelayToWatchV) -> Turn {
    match m {
        RelayToWatchV::Streams(l) => {
            let shown = foreign(l, a.owned);
            quietly(
                AppV { streams: shown, selected: reselected(a.selected, shown.len() as int), ..a },
            )
        },
        RelayToWatchV::Joined { info, snapshot } => quietly(
            AppV {
                fed: Some(
                    after_drawing(
                        seq![sized(at_least_one(info.rows), at_least_one(info.cols))],
                        snapshot,
                    ),
                ),
                joined: Some(info),
                paused: false,
                watching: true,
                status: Seq::empty(),
                ..a
            },
        ),
        RelayToWatchV::Output(b) => quietly(
            AppV {
                fed: match a.fed {
                    Some(f) => Some(after_drawing(f, b)),
                    None => None,
                },
                ..a
            },
        ),
        RelayToWatchV::Audio(b) => {
            let heard = AppV { audio_seen: true, ..a };
            if a.muted {
                quietly(heard)
            } else if !a.speaker && a.audio_err is None {
                Turn {
                    app: heard,
                    acts: seq![ActV::OpenSpeaker, ActV::Play(decoded(b))],
                    quit: false,
                }
            } else {
                Turn { app: heard, acts: seq![ActV::Play(decoded(b))], quit: false }
            }
        },
        RelayToWatchV::Resize { cols, rows } => quietly(
            AppV {
                fed: match a.fed {
                    Some(f) => Some(after_resizing(f, at_least_one(rows), at_least_one(cols))),
                    None => None,
                },
                joined: match a.joined {
                    Some(i) => Some(InfoV { cols, rows, ..i }),
                    None => None,
                },
                ..a
            },
        ),
        RelayToWatchV::Privacy { paused } => quietly(AppV { paused, ..a }),
        RelayToWatchV::Viewers(n) => quietly(
            AppV {
                joined: match a.joined {
                    Some(i) => Some(InfoV { viewers: n, ..i }),
                    None => None,
                },
                ..a
            },
        ),
        RelayToWatchV::Chat { from, text, ts_unix } => quietly(
            AppV {
                chat_log: kept_lines(a.chat_log.push(LineV { from, text, ts: ts_unix })),
                chat_open: true,
                ..a
            },
        ),
        RelayToWatchV::Ended => Turn {
            app: AppV { last_target: None, status: "stream ended"@, ..left_stream(a) },
            acts: seq![ActV::Send(WatchToRelayV::List)],
            quit: false,
        },
        RelayToWatchV::Error(e) => quietly(AppV { status: e, ..a }),
        RelayToWatchV::Welcome => quietly(a),
        RelayToWatchV::Ping => Turn {
            app: a,
            acts: seq![ActV::Send(WatchToRelayV::Pong)],
            quit: false,
        },
    }
}

/// What a report of the connection does.
pub open spec fn net_turn(a: AppV, n: NetV) -> Turn {
    match n {
        NetV::Connected => match a.pending_target {
            Some(target) => Turn {
                app: AppV {
                    connected: true,
                    pending_target: None,
                    last_target: Some(target),
                    status: "joining…"@,
                    ..a
                },
                acts: seq![ActV::Send(WatchToRelayV::Join { target })],
                quit: false,
            },
            None => Turn {
                app: AppV { connected: true, status: "browsing"@, ..a },
                acts: seq![ActV::Send(WatchToRelayV::List)],
                quit: false,
            },
        },
        NetV::Disconnected(why) => {
            let b = AppV { connected: false, status: lost_text(why), ..a };
            if a.watching {
                quietly(AppV { pending_target: a.last_target, ..left_stream(b) })
            } else {
                quietly(b)
            }
        },
        NetV::Msg(m) => msg_turn(a, m),
    }
}

// ------------------------------------------------------------------- validity

/// What holds of the viewer at all times.
pub open spec fn app_valid(a: AppV) -> bool {
    // A stream is selected exactly where there is one, and it is in the list.
    &&& a.selected is Some <==> a.streams.len() > 0
    &&& a.selected matches Some(i) ==> 0 <= i < a.streams.len()
    // This machine's own streams cannot be picked.
    &&& forall|i: int|
        0 <= i < a.streams.len() ==> !a.owned.contains((#[trigger] a.streams[i]).stream_id)
    &&& a.chat_log.len() <= CHAT_LOG_LIMIT
    // A stream is shown exactly while one is joined, and it has a screen.
    &&& a.watching <==> a.joined is Some
    &&& a.joined is Some <==> a.fed is Some
    // Nothing is heard while muted.
    &&& a.muted ==> !a.speaker
}

/// The viewer at its start.
pub open spec fn first(
    relay: Seq<char>,
    target: Option<Seq<char>>,
    owned: Seq<Seq<char>>,
    chat_open: bool,
    chat_only: bool,
) -> AppV {
    AppV {
        relay,
        watching: false,
        status: "connecting…"@,
        connected: false,
        streams: Seq::empty(),
        selected: None,
        joined: None,
        fed: None,
        paused: false,
        pending_target: target,
        last_target: None,
        owned,
        chat_log: Seq::empty(),
        chat_input: Seq::empty(),
        composing: false,
        chat_open,
        chat_only,
        speaker: false,
        muted: false,
        audio_seen: false,
        audio_err: None,
    }
}

} // verus!
