//! What the relay's state is, and what each message does to it.
use crate::emulator::{after_drawing, after_resizing, formatted_screen, last_size, sized, Fed};
use crate::protocol::{HostHelloV, HostToRelayV, InfoV, RelayToHostV, RelayToWatchV, WatchHelloV,
    WatchToRelayV, PROTOCOL_VERSION};
use crate::relay::sanitize::{clean_chat, clean_name};
use vstd::prelude::*;

verus! {

/// Most streams the relay hosts at a time.
pub const MAX_STREAMS: usize = 512;

/// Most chat messages of one connection within [`CHAT_WINDOW`] seconds.
pub const CHAT_BURST: usize = 5;

/// Seconds after which a chat message no longer counts.
pub const CHAT_WINDOW: u64 = 10;

// -------------------------------------------------------------------- models

/// Model of a stream.
pub struct StreamV {
    pub info: InfoV,
    /// What the mirror of the screen was given.
    pub fed: Fed,
    /// Whether the host paused the stream.
    pub paused: bool,
    /// Whether the host accepts chat.
    pub chat: bool,
    /// Whether the host is gone.
    pub ended: bool,
    /// How many connections hold the stream.
    pub members: nat,
}

/// Model of the relay.
pub struct RelayV {
    /// The streams that the host or a watcher still holds.
    pub streams: Map<u64, StreamV>,
    /// Stream ids, each with the stream it stands for.
    pub directory: Map<Seq<char>, u64>,
    /// Join codes, each with the stream id it leads to.
    pub codes: Map<Seq<char>, Seq<char>>,
    /// The key that hosts must present, if any.
    pub auth_key: Option<Seq<char>>,
    /// Number of the next stream.
    pub next: u64,
}

/// Model of a watcher's connection.
pub struct WatcherV {
    /// Name shown with its chat messages.
    pub name: Seq<char>,
    /// The stream it watches.
    pub joined: Option<u64>,
    /// Whether it still receives what the stream fans out.
    pub subscribed: bool,
    /// When its latest chat messages were passed on, oldest first.
    pub chat_times: Seq<u64>,
}

/// What is fanned out to everyone who watches a stream.
pub enum BcastV {
    Output(Seq<u8>),
    Resize { cols: u16, rows: u16 },
    Privacy(bool),
    Viewers(u32),
    Chat { from: Seq<char>, text: Seq<char>, ts: u64 },
    Ended,
    Audio(Seq<u8>),
}

/// What the relay does in answer to a watcher's message.
pub enum EffectV {
    /// Send to the watcher.
    Reply(RelayToWatchV),
    /// Send to the host of a stream.
    ToHost(u64, RelayToHostV),
    /// Fan out to everyone who watches a stream.
    Fan(u64, BcastV),
    /// Start to receive what a stream fans out from now on.
    Subscribe(u64),
    /// Stop receiving.
    Unsubscribe,
}

/// What a watcher's connection receives from the stream's fan-out.
pub enum FanOutV {
    Event(BcastV),
    /// The connection was too slow and lost events.
    Lagged,
    /// Nothing will be fanned out any more.
    Closed,
}

/// A relay without streams.
pub open spec fn no_streams(auth_key: Option<Seq<char>>) -> RelayV {
    RelayV {
        streams: Map::empty(),
        directory: Map::empty(),
        codes: Map::empty(),
        auth_key,
        next: 0,
    }
}

/// The answer to a host whose stream was taken in.
pub open spec fn welcomed(id: Seq<char>, code: Seq<char>) -> RelayToHostV {
    RelayToHostV::Welcome { stream_id: id, code, viewers: 0 }
}

/// What is done when the host of stream `key` is gone.
pub open spec fn farewell(key: u64) -> EffectV {
    EffectV::Fan(key, BcastV::Ended)
}

/// At least one.
pub open spec fn at_least_one(n: u16) -> u16 {
    if n < 1 {
        1
    } else {
        n
    }
}

pub open spec fn one_less(n: u32) -> u32 {
    if n == 0 {
        0
    } else {
        (n - 1) as u32
    }
}

// ------------------------------------------------------------------- hosts

/// The complaint about a peer of another version.
pub open spec fn mismatch_text(who: Seq<char>, version: Seq<char>) -> Seq<char> {
    "protocol mismatch: relay "@ + PROTOCOL_VERSION@ + who + version
}

/// Why the relay refuses a host, if it does.
pub open spec fn refusal(r: RelayV, hello: HostHelloV) -> Option<Seq<char>> {
    if hello.version != PROTOCOL_VERSION@ {
        Some(mismatch_text(", host "@, hello.version))
    } else if r.auth_key matches Some(key) && key != (match hello.auth_key {
        Some(k) => k,
        None => Seq::empty(),
    }) {
        Some("invalid auth key"@)
    } else if r.directory.len() >= MAX_STREAMS {
        Some("relay at capacity"@)
    } else {
        None
    }
}

/// The stream of a host that was just accepted.
pub open spec fn new_stream(hello: HostHelloV, id: Seq<char>, now: u64) -> StreamV {
    let cols = at_least_one(hello.cols);
    let rows = at_least_one(hello.rows);
    StreamV {
        info: InfoV {
            stream_id: id,
            name: hello.name,
            shell: hello.shell,
            cols,
            rows,
            viewers: 0,
            started_unix: now,
            public: hello.public,
        },
        fed: seq![sized(rows, cols)],
        paused: false,
        chat: hello.chat,
        ended: false,
        members: 0,
    }
}

/// The relay with a new host's stream, its id and its join code.
pub open spec fn with_host(
    r: RelayV,
    hello: HostHelloV,
    id: Seq<char>,
    code: Seq<char>,
    now: u64,
) -> RelayV {
    RelayV {
        streams: r.streams.insert(r.next, new_stream(hello, id, now)),
        directory: r.directory.insert(id, r.next),
        codes: r.codes.insert(code, id),
        next: (r.next + 1) as u64,
        ..r
    }
}

/// What becomes of a host that said hello.
pub enum AdmissionV {
    Refused(RelayToHostV),
    Taken,
    Exhausted,
    Accepted { key: u64, id: Seq<char>, code: Seq<char> },
}

/// The first of the drawn join codes, from number `from` on, that no stream has.
pub open spec fn free_from(r: RelayV, drawn: Seq<Seq<char>>, from: int) -> Option<int>
    decreases drawn.len() - from,
{
    if from < 0 || from >= drawn.len() {
        None
    } else if r.codes.dom().contains(drawn[from]) {
        free_from(r, drawn, from + 1)
    } else {
        Some(from)
    }
}

/// What becomes of a host for which an id and some join codes were drawn. The
/// first code that no stream has is taken.
pub open spec fn admission(
    r: RelayV,
    hello: HostHelloV,
    id: Seq<char>,
    drawn: Seq<Seq<char>>,
) -> AdmissionV {
    match refusal(r, hello) {
        Some(why) => AdmissionV::Refused(RelayToHostV::Error(why)),
        None => if r.next == u64::MAX {
            AdmissionV::Exhausted
        } else {
            match free_from(r, drawn, 0) {
                Some(i) => AdmissionV::Accepted { key: r.next, id, code: drawn[i] },
                None => AdmissionV::Taken,
            }
        },
    }
}

/// The relay after a host was admitted, or not.
pub open spec fn after_admission(r: RelayV, hello: HostHelloV, a: AdmissionV, now: u64) -> RelayV {
    match a {
        AdmissionV::Accepted { key, id, code } => with_host(r, hello, id, code, now),
        _ => r,
    }
}

/// A stream after a message of its host.
pub open spec fn stream_after(s: StreamV, m: HostToRelayV) -> StreamV {
    match m {
        HostToRelayV::Output(data) => if s.paused {
            s
        } else {
            StreamV { fed: after_drawing(s.fed, data), ..s }
        },
        HostToRelayV::Resize { cols, rows } => {
            let c = at_least_one(cols);
            let r = at_least_one(rows);
            StreamV {
                fed: after_resizing(s.fed, r, c),
                info: InfoV { cols: c, rows: r, ..s.info },
                ..s
            }
        },
        HostToRelayV::Privacy { paused } => StreamV { paused, ..s },
        _ => s,
    }
}

/// What watchers receive when a host sends a message.
pub open spec fn fanned_out(s: StreamV, m: HostToRelayV) -> Option<BcastV> {
    match m {
        HostToRelayV::Output(data) => if s.paused {
            None
        } else {
            Some(BcastV::Output(data))
        },
        HostToRelayV::Resize { cols, rows } => Some(
            BcastV::Resize { cols: at_least_one(cols), rows: at_least_one(rows) },
        ),
        HostToRelayV::Privacy { paused } => Some(BcastV::Privacy(paused)),
        HostToRelayV::Audio(data) => Some(BcastV::Audio(data)),
        _ => None,
    }
}

/// The streams without `key`, if its host is gone and nobody holds it.
pub open spec fn kept(streams: Map<u64, StreamV>, key: u64, s: StreamV) -> Map<u64, StreamV> {
    if s.ended && s.members == 0 {
        streams.remove(key)
    } else {
        streams.insert(key, s)
    }
}

/// The relay after a message of the host of stream `key`.
pub open spec fn after_host(r: RelayV, key: u64, m: HostToRelayV) -> RelayV {
    RelayV { streams: r.streams.insert(key, stream_after(r.streams[key], m)), ..r }
}

/// The relay after the host of stream `key` is gone.
pub open spec fn without_host(r: RelayV, key: u64, code: Seq<char>) -> RelayV {
    let s = r.streams[key];
    RelayV {
        streams: kept(r.streams, key, StreamV { ended: true, ..s }),
        directory: r.directory.remove(s.info.stream_id),
        codes: r.codes.remove(code),
        ..r
    }
}

// ---------------------------------------------------------------- directory

/// The stream that a join target leads to. A join code leads to its stream; a
/// stream id does so only where the stream is public.
pub open spec fn resolved(r: RelayV, target: Seq<char>) -> Option<u64> {
    if r.codes.dom().contains(target) && r.directory.dom().contains(r.codes[target]) {
        Some(r.directory[r.codes[target]])
    } else if r.directory.dom().contains(target)
        && r.streams[r.directory[target]].info.public {
        Some(r.directory[target])
    } else {
        None
    }
}

/// Text order: by the first character that differs, a prefix first.
pub open spec fn text_le(a: Seq<char>, b: Seq<char>) -> bool
    decreases a.len(),
{
    if a.len() == 0 {
        true
    } else if b.len() == 0 {
        false
    } else if a[0] == b[0] {
        text_le(a.skip(1), b.skip(1))
    } else {
        a[0] < b[0]
    }
}

/// The order of the listing: most viewers first, then by name.
pub open spec fn listed_before(a: InfoV, b: InfoV) -> bool {
    a.viewers > b.viewers || (a.viewers == b.viewers && text_le(a.name, b.name))
}

/// The listing is in order.
pub open spec fn in_listing_order(l: Seq<InfoV>) -> bool {
    forall|i: int, j: int| 0 <= i < j < l.len() ==> listed_before(#[trigger] l[i], #[trigger] l[j])
}

/// Whether stream `key` belongs in the listing.
pub open spec fn listable(r: RelayV, key: u64) -> bool {
    r.directory.contains_value(key) && r.streams[key].info.public
}

/// `l` lists the public streams of the directory, each once, in order. `keys`
/// says which stream each entry describes.
pub open spec fn lists(r: RelayV, l: Seq<InfoV>, keys: Seq<u64>) -> bool {
    &&& keys.len() == l.len()
    &&& keys.no_duplicates()
    &&& forall|i: int|
        0 <= i < l.len() ==> listable(r, keys[i]) && #[trigger] l[i] == r.streams[keys[i]].info
    &&& forall|key: u64| listable(r, key) ==> #[trigger] keys.contains(key)
    &&& in_listing_order(l)
}

/// `l` is a listing of the public streams.
pub open spec fn public_listing(r: RelayV, l: Seq<InfoV>) -> bool {
    exists|keys: Seq<u64>| lists(r, l, keys)
}

// ----------------------------------------------------------------- watchers

/// A watcher's connection as the relay sees it after its hello.
pub open spec fn new_watcher(hello: WatchHelloV) -> WatcherV {
    WatcherV {
        name: clean_name(
            match hello.name {
                Some(n) => n,
                None => "anon"@,
            },
        ),
        joined: None,
        subscribed: false,
        chat_times: Seq::empty(),
    }
}

/// The stream when one of its watchers is gone.
pub open spec fn one_left(s: StreamV) -> StreamV {
    StreamV {
        info: InfoV { viewers: one_less(s.info.viewers), ..s.info },
        members: (s.members - 1) as nat,
        ..s
    }
}

/// The relay after a watcher let go of stream `key`.
pub open spec fn after_leave(r: RelayV, key: u64) -> RelayV {
    RelayV { streams: kept(r.streams, key, one_left(r.streams[key])), ..r }
}

/// Who is told that a watcher let go of stream `key`.
pub open spec fn leave_effects(r: RelayV, key: u64) -> Seq<EffectV> {
    let n = one_less(r.streams[key].info.viewers);
    seq![
        EffectV::ToHost(key, RelayToHostV::Viewers(n)),
        EffectV::Fan(key, BcastV::Viewers(n)),
    ]
}

/// The relay after the watcher left what it had joined.
pub open spec fn left(r: RelayV, w: WatcherV) -> RelayV {
    match w.joined {
        Some(key) => after_leave(r, key),
        None => r,
    }
}

/// The watcher after it left what it had joined.
pub open spec fn detached(w: WatcherV) -> WatcherV {
    match w.joined {
        Some(key) => WatcherV { joined: None, subscribed: false, ..w },
        None => w,
    }
}

/// What the watcher's leaving brings about.
pub open spec fn left_effects(r: RelayV, w: WatcherV) -> Seq<EffectV> {
    match w.joined {
        Some(key) => leave_effects(r, key).push(EffectV::Unsubscribe),
        None => Seq::empty(),
    }
}

/// The stream with one more watcher.
pub open spec fn one_more(s: StreamV) -> StreamV {
    StreamV {
        info: InfoV { viewers: (s.info.viewers + 1) as u32, ..s.info },
        members: s.members + 1,
        ..s
    }
}

/// The relay after a watcher took hold of stream `key`.
pub open spec fn after_join(r: RelayV, key: u64) -> RelayV {
    RelayV { streams: r.streams.insert(key, one_more(r.streams[key])), ..r }
}

/// What a watcher's joining of stream `key` brings about. Where the host has
/// paused the stream, the newcomer is told so.
pub open spec fn join_effects(r: RelayV, key: u64) -> Seq<EffectV> {
    let s = one_more(r.streams[key]);
    let n = s.info.viewers;
    let greeting = seq![
        EffectV::Subscribe(key),
        EffectV::ToHost(key, RelayToHostV::Viewers(n)),
        EffectV::Fan(key, BcastV::Viewers(n)),
        EffectV::Reply(RelayToWatchV::Joined { info: s.info, snapshot: formatted_screen(s.fed) }),
    ];
    if s.paused {
        greeting.push(EffectV::Reply(RelayToWatchV::Privacy { paused: true }))
    } else {
        greeting
    }
}

/// The complaint about a join target that leads nowhere.
pub open spec fn no_stream_text(target: Seq<char>) -> Seq<char> {
    "no live stream for '"@ + target + "'"@
}

/// The chat times that still count at `now`.
pub open spec fn recent(times: Seq<u64>, now: u64) -> Seq<u64>
    decreases times.len(),
{
    if times.len() > 0 && now - times[0] >= CHAT_WINDOW {
        recent(times.skip(1), now)
    } else {
        times
    }
}

/// A relay, a watcher of it and what is done about them.
pub struct Outcome {
    pub relay: RelayV,
    pub watcher: WatcherV,
    pub effects: Seq<EffectV>,
}

/// Nothing happens.
pub open spec fn unchanged(r: RelayV, w: WatcherV) -> Outcome {
    Outcome { relay: r, watcher: w, effects: Seq::empty() }
}

/// What joining `target` does.
pub open spec fn join_outcome(r: RelayV, w: WatcherV, target: Seq<char>) -> Outcome {
    let r1 = left(r, w);
    let w1 = detached(w);
    let e1 = left_effects(r, w);
    match resolved(r1, target) {
        Some(key) => Outcome {
            relay: after_join(r1, key),
            watcher: WatcherV { joined: Some(key), subscribed: true, ..w1 },
            effects: e1 + join_effects(r1, key),
        },
        None => Outcome {
            relay: r1,
            watcher: w1,
            effects: e1.push(EffectV::Reply(RelayToWatchV::Error(no_stream_text(target)))),
        },
    }
}

/// What leaving does.
pub open spec fn leave_outcome(r: RelayV, w: WatcherV) -> Outcome {
    Outcome { relay: left(r, w), watcher: detached(w), effects: left_effects(r, w) }
}

/// What a chat message at time `now` does.
pub open spec fn chat_outcome(r: RelayV, w: WatcherV, text: Seq<char>, now: u64) -> Outcome {
    match w.joined {
        None => unchanged(r, w),
        Some(key) => if !r.streams[key].chat {
            Outcome {
                relay: r,
                watcher: w,
                effects: seq![
                    EffectV::Reply(RelayToWatchV::Error("chat is disabled for this stream"@)),
                ],
            }
        } else if clean_chat(text).len() == 0 {
            unchanged(r, w)
        } else {
            let times = recent(w.chat_times, now);
            if times.len() < CHAT_BURST {
                Outcome {
                    relay: r,
                    watcher: WatcherV { chat_times: times.push(now), ..w },
                    effects: seq![
                        EffectV::Fan(
                            key,
                            BcastV::Chat { from: w.name, text: clean_chat(text), ts: now },
                        ),
                    ],
                }
            } else {
                unchanged(r, WatcherV { chat_times: times, ..w })
            }
        },
    }
}

/// What a watcher's message at time `now` does.
pub open spec fn watch_outcome(
    r: RelayV,
    w: WatcherV,
    m: WatchToRelayV,
    now: u64,
    out: Outcome,
) -> bool {
    match m {
        WatchToRelayV::List => {
            &&& out.relay == r
            &&& out.watcher == w
            &&& out.effects.len() == 1
            &&& out.effects[0] matches EffectV::Reply(RelayToWatchV::Streams(l))
            &&& public_listing(r, l)
        },
        WatchToRelayV::Join { target } => out == join_outcome(r, w, target),
        WatchToRelayV::Leave => out == leave_outcome(r, w),
        WatchToRelayV::Chat { text } => out == chat_outcome(r, w, text, now),
        WatchToRelayV::Pong => out == unchanged(r, w),
        WatchToRelayV::Hello(_) => out == unchanged(r, w),
    }
}

/// The message in which an event of the fan-out reaches a watcher.
pub open spec fn delivered(b: BcastV) -> RelayToWatchV {
    match b {
        BcastV::Output(data) => RelayToWatchV::Output(data),
        BcastV::Resize { cols, rows } => RelayToWatchV::Resize { cols, rows },
        BcastV::Privacy(paused) => RelayToWatchV::Privacy { paused },
        BcastV::Viewers(n) => RelayToWatchV::Viewers(n),
        BcastV::Chat { from, text, ts } => RelayToWatchV::Chat { from, text, ts_unix: ts },
        BcastV::Ended => RelayToWatchV::Ended,
        BcastV::Audio(data) => RelayToWatchV::Audio(data),
    }
}

/// The relay after a watcher learned that stream `key` ended.
pub open spec fn after_ended(r: RelayV, key: u64) -> RelayV {
    let s = r.streams[key];
    RelayV { streams: kept(r.streams, key, StreamV { members: (s.members - 1) as nat, ..s }), ..r }
}

/// What a watcher of stream `key` that lost events is sent: the size of the
/// screen, its dump and whether the host has paused the stream.
pub open spec fn resync_effects(r: RelayV, key: u64) -> Seq<EffectV> {
    let s = r.streams[key];
    seq![
        EffectV::Subscribe(key),
        EffectV::Reply(RelayToWatchV::Resize { cols: s.info.cols, rows: s.info.rows }),
        EffectV::Reply(RelayToWatchV::Output(formatted_screen(s.fed))),
        EffectV::Reply(RelayToWatchV::Privacy { paused: s.paused }),
    ]
}

/// What an event of the fan-out does to a watcher that receives it.
pub open spec fn fan_outcome(r: RelayV, w: WatcherV, f: FanOutV) -> Outcome {
    match f {
        FanOutV::Event(BcastV::Ended) => Outcome {
            relay: match w.joined {
                Some(key) => after_ended(r, key),
                None => r,
            },
            watcher: WatcherV { joined: None, subscribed: false, ..w },
            effects: seq![EffectV::Reply(RelayToWatchV::Ended), EffectV::Unsubscribe],
        },
        FanOutV::Event(b) => Outcome {
            relay: r,
            watcher: w,
            effects: seq![EffectV::Reply(delivered(b))],
        },
        FanOutV::Lagged => match w.joined {
            Some(key) => Outcome {
                relay: r,
                watcher: WatcherV { subscribed: true, ..w },
                effects: resync_effects(r, key),
            },
            None => unchanged(r, w),
        },
        FanOutV::Closed => Outcome {
            relay: r,
            watcher: WatcherV { subscribed: false, ..w },
            effects: seq![EffectV::Unsubscribe],
        },
    }
}

// ------------------------------------------------------------------ validity

/// The mirror of the screen has the size that viewers are told.
pub open spec fn true_to_size(s: StreamV) -> bool {
    &&& last_size(s.fed) == Some((s.info.rows, s.info.cols))
    &&& s.info.rows >= 1
    &&& s.info.cols >= 1
}

/// What holds of the relay at all times.
pub open spec fn relay_valid(r: RelayV) -> bool {
    // The directory lists streams whose host is there, each under its own id.
    &&& forall|id: Seq<char>| #[trigger]
        r.directory.dom().contains(id) ==> {
            &&& r.streams.dom().contains(r.directory[id])
            &&& r.streams[r.directory[id]].info.stream_id == id
            &&& !r.streams[r.directory[id]].ended
        }
    // Streams are numbered in the order in which they came.
    &&& forall|key: u64| #[trigger] r.streams.dom().contains(key) ==> key < r.next
    // While its host is there, a stream's viewer count is that of its members;
    // after that it is kept for its members alone.
    &&& forall|key: u64| #[trigger]
        r.streams.dom().contains(key) ==> if r.streams[key].ended {
            r.streams[key].members > 0
        } else {
            r.streams[key].info.viewers == r.streams[key].members
        }
    &&& forall|key: u64| #[trigger]
        r.streams.dom().contains(key) ==> true_to_size(r.streams[key])
    &&& r.directory.dom().finite()
    &&& r.directory.len() <= MAX_STREAMS
}

/// The relay still has the stream that the watcher joined.
pub open spec fn holds(r: RelayV, w: WatcherV) -> bool {
    w.joined matches Some(key) ==> r.streams.dom().contains(key) && r.streams[key].members > 0
}

/// The end of a stream is fanned out only once its host is gone.
pub open spec fn fan_fits(r: RelayV, w: WatcherV, f: FanOutV) -> bool {
    f == FanOutV::Event(BcastV::Ended) ==> (w.joined matches Some(key) ==> r.streams[key].ended)
}

/// The viewer count of the stream that `target` leads to can still grow.
pub open spec fn join_fits(r: RelayV, w: WatcherV, target: Seq<char>) -> bool {
    resolved(left(r, w), target) matches Some(key) ==> left(r, w).streams[key].info.viewers
        < u32::MAX
}

} // verus!
