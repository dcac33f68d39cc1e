//! The messages that hosts, the relay and watchers exchange.
//!
//! A host pushes its terminal output to the relay; watchers browse the live
//! streams and receive the output of the one they joined. Nothing that a
//! watcher sends carries keystrokes: it can list, join, leave and send chat
//! text, which is shown and never typed.
use crate::text::text_view;
use vstd::prelude::*;

verus! {

/// Version of the message shapes below. A peer with another version is refused.
pub const PROTOCOL_VERSION: &'static str = "0.2";

/// Default port of the relay.
pub const DEFAULT_PORT: u16 = 4455;

/// Messages a host sends to the relay.
#[derive(Debug, Clone)]
pub enum HostToRelay {
    /// First message: announces the session.
    Hello(HostHello),
    /// A chunk of raw terminal output.
    Output(Vec<u8>),
    /// The host's terminal was resized.
    Resize { cols: u16, rows: u16 },
    /// Privacy toggle: while paused the relay forwards no output.
    Privacy { paused: bool },
    /// Answer to a keepalive.
    Pong,
    /// The stream ends.
    Bye,
    /// A frame of the host's voice: mono 16-bit little-endian samples.
    Audio(Vec<u8>),
}

/// Messages the relay sends to a host.
#[derive(Debug, Clone)]
pub enum RelayToHost {
    /// The session is accepted. `code` is the join code to share.
    Welcome { stream_id: String, code: String, viewers: u32 },
    /// How many are watching.
    Viewers(u32),
    /// The session is refused.
    Error(String),
    /// Keepalive.
    Ping,
}

/// What a host announces of its session.
#[derive(Debug, Clone)]
pub struct HostHello {
    /// Display name.
    pub name: String,
    /// Label of the shell that is shared.
    pub shell: String,
    /// Whether the stream is listed; otherwise only its code leads to it.
    pub public: bool,
    pub cols: u16,
    pub rows: u16,
    /// The operator's key, where the relay asks for one.
    pub auth_key: Option<String>,
    /// Whether the host accepts chat.
    pub chat: bool,
    /// Version of the host's messages.
    pub version: String,
}

/// Messages a watcher sends to the relay.
#[derive(Debug, Clone)]
pub enum WatchToRelay {
    /// First message.
    Hello(WatchHello),
    /// Asks for the public streams.
    List,
    /// Joins a stream by its code, or by its id if it is public.
    Join { target: String },
    /// Stops watching.
    Leave,
    /// Chat text for the joined stream.
    Chat { text: String },
    /// Answer to a keepalive.
    Pong,
}

/// Messages the relay sends to a watcher.
#[derive(Debug, Clone)]
pub enum RelayToWatch {
    /// The watcher is accepted.
    Welcome,
    /// The public streams.
    Streams(Vec<StreamInfo>),
    /// The stream is joined; `snapshot` redraws its current screen.
    Joined { info: StreamInfo, snapshot: Vec<u8> },
    /// Output of the joined stream.
    Output(Vec<u8>),
    /// The joined host resized its terminal.
    Resize { cols: u16, rows: u16 },
    /// The joined host toggled privacy.
    Privacy { paused: bool },
    /// How many watch the joined stream.
    Viewers(u32),
    /// A chat message to everyone who watches the joined stream.
    Chat { from: String, text: String, ts_unix: u64 },
    /// The joined stream ended.
    Ended,
    /// A request failed.
    Error(String),
    /// Keepalive.
    Ping,
    /// A frame of the joined host's voice.
    Audio(Vec<u8>),
}

/// What a watcher announces of itself.
#[derive(Debug, Clone)]
pub struct WatchHello {
    /// Version of the watcher's messages.
    pub version: String,
    /// Display name for chat.
    pub name: Option<String>,
    pub cols: u16,
    pub rows: u16,
}

/// Public description of a live stream.
#[derive(Debug)]
pub struct StreamInfo {
    pub stream_id: String,
    pub name: String,
    pub shell: String,
    pub cols: u16,
    pub rows: u16,
    pub viewers: u32,
    /// Unix seconds when the stream started.
    pub started_unix: u64,
    pub public: bool,
}

impl Clone for StreamInfo {
    fn clone(&self) -> (res: Self)
        ensures
            res == *self,
    {
        StreamInfo {
            stream_id: self.stream_id.clone(),
            name: self.name.clone(),
            shell: self.shell.clone(),
            cols: self.cols,
            rows: self.rows,
            viewers: self.viewers,
            started_unix: self.started_unix,
            public: self.public,
        }
    }
}

// -------------------------------------------------------------------- models

/// Model of [`StreamInfo`].
pub struct InfoV {
    pub stream_id: Seq<char>,
    pub name: Seq<char>,
    pub shell: Seq<char>,
    pub cols: u16,
    pub rows: u16,
    pub viewers: u32,
    pub started_unix: u64,
    pub public: bool,
}

impl View for StreamInfo {
    type V = InfoV;

    open spec fn view(&self) -> InfoV {
        InfoV {
            stream_id: self.stream_id@,
            name: self.name@,
            shell: self.shell@,
            cols: self.cols,
            rows: self.rows,
            viewers: self.viewers,
            started_unix: self.started_unix,
            public: self.public,
        }
    }
}

/// Models of a list of [`StreamInfo`].
pub open spec fn infos_view(v: Seq<StreamInfo>) -> Seq<InfoV> {
    v.map_values(|i: StreamInfo| i@)
}

/// Model of [`HostHello`].
pub struct HostHelloV {
    pub name: Seq<char>,
    pub shell: Seq<char>,
    pub public: bool,
    pub cols: u16,
    pub rows: u16,
    pub auth_key: Option<Seq<char>>,
    pub chat: bool,
    pub version: Seq<char>,
}

impl View for HostHello {
    type V = HostHelloV;

    open spec fn view(&self) -> HostHelloV {
        HostHelloV {
            name: self.name@,
            shell: self.shell@,
            public: self.public,
            cols: self.cols,
            rows: self.rows,
            auth_key: text_view(self.auth_key),
            chat: self.chat,
            version: self.version@,
        }
    }
}

/// Model of [`HostToRelay`].
pub enum HostToRelayV {
    Hello(HostHelloV),
    Output(Seq<u8>),
    Resize { cols: u16, rows: u16 },
    Privacy { paused: bool },
    Pong,
    Bye,
    Audio(Seq<u8>),
}

impl View for HostToRelay {
    type V = HostToRelayV;

    open spec fn view(&self) -> HostToRelayV {
        match *self {
            HostToRelay::Hello(h) => HostToRelayV::Hello(h@),
            HostToRelay::Output(b) => HostToRelayV::Output(b@),
            HostToRelay::Resize { cols, rows } => HostToRelayV::Resize { cols, rows },
            HostToRelay::Privacy { paused } => HostToRelayV::Privacy { paused },
            HostToRelay::Pong => HostToRelayV::Pong,
            HostToRelay::Bye => HostToRelayV::Bye,
            HostToRelay::Audio(b) => HostToRelayV::Audio(b@),
        }
    }
}

/// Model of [`RelayToHost`].
pub enum RelayToHostV {
    Welcome { stream_id: Seq<char>, code: Seq<char>, viewers: u32 },
    Viewers(u32),
    Error(Seq<char>),
    Ping,
}

impl View for RelayToHost {
    type V = RelayToHostV;

    open spec fn view(&self) -> RelayToHostV {
        match *self {
            RelayToHost::Welcome { stream_id, code, viewers } => RelayToHostV::Welcome {
                stream_id: stream_id@,
                code: code@,
                viewers,
            },
            RelayToHost::Viewers(n) => RelayToHostV::Viewers(n),
            RelayToHost::Error(e) => RelayToHostV::Error(e@),
            RelayToHost::Ping => RelayToHostV::Ping,
        }
    }
}

/// Model of [`WatchHello`].
pub struct WatchHelloV {
    pub version: Seq<char>,
    pub name: Option<Seq<char>>,
    pub cols: u16,
    pub rows: u16,
}

impl View for WatchHello {
    type V = WatchHelloV;

    open spec fn view(&self) -> WatchHelloV {
        WatchHelloV {
            version: self.version@,
            name: text_view(self.name),
            cols: self.cols,
            rows: self.rows,
        }
    }
}

/// Model of [`WatchToRelay`].
pub enum WatchToRelayV {
    Hello(WatchHelloV),
    List,
    Join { target: Seq<char> },
    Leave,
    Chat { text: Seq<char> },
    Pong,
}

impl View for WatchToRelay {
    type V = WatchToRelayV;

    open spec fn view(&self) -> WatchToRelayV {
        match *self {
            WatchToRelay::Hello(h) => WatchToRelayV::Hello(h@),
            WatchToRelay::List => WatchToRelayV::List,
            WatchToRelay::Join { target } => WatchToRelayV::Join { target: target@ },
            WatchToRelay::Leave => WatchToRelayV::Leave,
            WatchToRelay::Chat { text } => WatchToRelayV::Chat { text: text@ },
            WatchToRelay::Pong => WatchToRelayV::Pong,
        }
    }
}

/// Model of [`RelayToWatch`].
pub enum RelayToWatchV {
    Welcome,
    Streams(Seq<InfoV>),
    Joined { info: InfoV, snapshot: Seq<u8> },
    Output(Seq<u8>),
    Resize { cols: u16, rows: u16 },
    Privacy { paused: bool },
    Viewers(u32),
    Chat { from: Seq<char>, text: Seq<char>, ts_unix: u64 },
    Ended,
    Error(Seq<char>),
    Ping,
    Audio(Seq<u8>),
}

impl View for RelayToWatch {
    type V = RelayToWatchV;

    open spec fn view(&self) -> RelayToWatchV {
        match *self {
            RelayToWatch::Welcome => RelayToWatchV::Welcome,
            RelayToWatch::Streams(v) => RelayToWatchV::Streams(infos_view(v@)),
            RelayToWatch::Joined { info, snapshot } => RelayToWatchV::Joined {
                info: info@,
                snapshot: snapshot@,
            },
            RelayToWatch::Output(b) => RelayToWatchV::Output(b@),
            RelayToWatch::Resize { cols, rows } => RelayToWatchV::Resize { cols, rows },
            RelayToWatch::Privacy { paused } => RelayToWatchV::Privacy { paused },
            RelayToWatch::Viewers(n) => RelayToWatchV::Viewers(n),
            RelayToWatch::Chat { from, text, ts_unix } => RelayToWatchV::Chat {
                from: from@,
                text: text@,
                ts_unix,
            },
            RelayToWatch::Ended => RelayToWatchV::Ended,
            RelayToWatch::Error(e) => RelayToWatchV::Error(e@),
            RelayToWatch::Ping => RelayToWatchV::Ping,
            RelayToWatch::Audio(b) => RelayToWatchV::Audio(b@),
        }
    }
}

// ----------------------------------------------------------------- what holds

/// The model of a host's message says all that the message says.
pub proof fn law_host_messages_are_modelled_in_full(m: HostToRelay)
    ensures
        m matches HostToRelay::Hello(h) ==> m@ == HostToRelayV::Hello(h@),
        m matches HostToRelay::Output(b) ==> m@ == HostToRelayV::Output(b@),
        m matches HostToRelay::Audio(b) ==> m@ == HostToRelayV::Audio(b@),
        m matches HostToRelay::Resize { cols, rows } ==> (m@ matches HostToRelayV::Resize {
            cols: c,
            rows: r,
        } && c == cols && r == rows),
        m matches HostToRelay::Privacy { paused } ==> (m@ matches HostToRelayV::Privacy {
            paused: p,
        } && p == paused),
        m is Pong <==> m@ is Pong,
        m is Bye <==> m@ is Bye,
{
}

/// The model of what a host announces says all that it announces.
pub proof fn law_hellos_are_modelled_in_full(h: HostHello, w: WatchHello)
    ensures
        h@.name == h.name@,
        h@.shell == h.shell@,
        h@.public == h.public,
        h@.cols == h.cols,
        h@.rows == h.rows,
        h@.chat == h.chat,
        h@.version == h.version@,
        h.auth_key matches Some(k) ==> h@.auth_key == Some(k@),
        h.auth_key is None ==> h@.auth_key is None,
        w@.version == w.version@,
        w.name matches Some(n) ==> w@.name == Some(n@),
        w.name is None ==> w@.name is None,
{
}

/// The model of a watcher's message says all that the message says.
pub proof fn law_watcher_messages_are_modelled_in_full(m: WatchToRelay)
    ensures
        m matches WatchToRelay::Hello(h) ==> m@ == WatchToRelayV::Hello(h@),
        m matches WatchToRelay::Join { target } ==> (m@ matches WatchToRelayV::Join { target: t }
            && t == target@),
        m matches WatchToRelay::Chat { text } ==> (m@ matches WatchToRelayV::Chat { text: t } && t
            == text@),
        m is List <==> m@ is List,
        m is Leave <==> m@ is Leave,
        m is Pong <==> m@ is Pong,
{
}

/// The model of the relay's message to a host says all that the message says.
pub proof fn law_relay_messages_to_hosts_are_modelled_in_full(m: RelayToHost)
    ensures
        m matches RelayToHost::Welcome { stream_id, code, viewers } ==> (
        m@ matches RelayToHostV::Welcome { stream_id: i, code: c, viewers: v } && i == stream_id@
            && c == code@ && v == viewers),
        m matches RelayToHost::Viewers(n) ==> m@ == RelayToHostV::Viewers(n),
        m matches RelayToHost::Error(e) ==> m@ == RelayToHostV::Error(e@),
        m is Ping <==> m@ is Ping,
{
}

/// The model of the relay's message to a watcher says all that the message says.
pub proof fn law_relay_messages_to_watchers_are_modelled_in_full(m: RelayToWatch)
    ensures
        m matches RelayToWatch::Streams(v) ==> m@ == RelayToWatchV::Streams(infos_view(v@)),
        m matches RelayToWatch::Joined { info, snapshot } ==> (m@ matches RelayToWatchV::Joined {
            info: i,
            snapshot: s,
        } && i == info@ && s == snapshot@),
        m matches RelayToWatch::Output(b) ==> m@ == RelayToWatchV::Output(b@),
        m matches RelayToWatch::Audio(b) ==> m@ == RelayToWatchV::Audio(b@),
        m matches RelayToWatch::Resize { cols, rows } ==> (m@ matches RelayToWatchV::Resize {
            cols: c,
            rows: r,
        } && c == cols && r == rows),
        m matches RelayToWatch::Privacy { paused } ==> (m@ matches RelayToWatchV::Privacy {
            paused: p,
        } && p == paused),
        m matches RelayToWatch::Viewers(n) ==> m@ == RelayToWatchV::Viewers(n),
        m matches RelayToWatch::Chat { from, text, ts_unix } ==> (m@ matches RelayToWatchV::Chat {
            from: f,
            text: t,
            ts_unix: u,
        } && f == from@ && t == text@ && u == ts_unix),
        m matches RelayToWatch::Error(e) ==> m@ == RelayToWatchV::Error(e@),
        m is Welcome <==> m@ is Welcome,
        m is Ended <==> m@ is Ended,
        m is Ping <==> m@ is Ping,
{
}

/// The model of a listing has one entry for each stream, in order, and each says
/// all that the description says.
pub proof fn law_listings_are_modelled_in_full(v: Seq<StreamInfo>, i: int)
    requires
        0 <= i < v.len(),
    ensures
        infos_view(v).len() == v.len(),
        ({
            let m = infos_view(v)[i];
            &&& m.stream_id == v[i].stream_id@
            &&& m.name == v[i].name@
            &&& m.shell == v[i].shell@
            &&& m.cols == v[i].cols
            &&& m.rows == v[i].rows
            &&& m.viewers == v[i].viewers
            &&& m.started_unix == v[i].started_unix
            &&& m.public == v[i].public
        }),
{
}

} // verus!
