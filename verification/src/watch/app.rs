//! The viewer: what it does about keys and about what the relay sends.
use crate::audio::decode_frame;
use crate::emulator::Mirror;
use crate::owned::{foreign, ids_of, is_owned, own_ids, owns, texts_view, without_own};
use crate::protocol::{infos_view, InfoV, RelayToWatch, RelayToWatchV, StreamInfo, WatchToRelay};
use crate::relay::model::at_least_one;
use crate::text::{chars_of, copy_text, text_view, trim};
use crate::watch::laws::{law_keys_keep_valid, law_messages_keep_valid};
use crate::watch::model::{app_valid, browse_key, compose_key, first, kept_lines, key_turn,
    leave_turn, left_stream, moved, msg_turn, net_turn, picked, reselected, watch_key, ActV, AppV,
    Key, LineV, NetV, Turn, CHAT_LOG_LIMIT};
use vstd::arithmetic::div_mod::{lemma_fundamental_div_mod, lemma_fundamental_div_mod_converse};
use vstd::prelude::*;

verus! {

/// Everything needed to open the viewer.
#[derive(Debug)]
pub struct WatchConfig {
    /// Base address of the relay.
    pub relay: String,
    /// A join code or stream id to join at once.
    pub target: Option<String>,
    /// Name for this viewer's chat messages.
    pub name: Option<String>,
    /// Allow watching a stream of this machine's own.
    pub allow_self: bool,
    /// Show the chat from the start.
    pub chat_open: bool,
    /// Show nothing but the chat.
    pub chat_only: bool,
}

/// What the connection reports.
#[derive(Debug)]
pub enum Net {
    /// The relay let us in.
    Connected,
    /// The connection was lost, for the given reason.
    Disconnected(String),
    /// A message arrived.
    Msg(RelayToWatch),
}

impl View for Net {
    type V = NetV;

    open spec fn view(&self) -> NetV {
        match *self {
            Net::Connected => NetV::Connected,
            Net::Disconnected(why) => NetV::Disconnected(why@),
            Net::Msg(m) => NetV::Msg(m@),
        }
    }
}

/// What the viewer has done.
#[derive(Debug)]
pub enum Act {
    /// Send to the relay.
    Send(WatchToRelay),
    /// Open the speaker and report how that went.
    OpenSpeaker,
    /// Play samples, if the speaker is open.
    Play(Vec<i16>),
    /// Close the speaker.
    CloseSpeaker,
}

impl View for Act {
    type V = ActV;

    open spec fn view(&self) -> ActV {
        match *self {
            Act::Send(m) => ActV::Send(m@),
            Act::OpenSpeaker => ActV::OpenSpeaker,
            Act::Play(s) => ActV::Play(s@),
            Act::CloseSpeaker => ActV::CloseSpeaker,
        }
    }
}

/// Models of a list of acts.
pub open spec fn acts_view(v: Seq<Act>) -> Seq<ActV> {
    v.map_values(|a: Act| a@)
}

/// A line of chat.
#[derive(Debug)]
pub struct ChatLine {
    pub from: String,
    pub text: String,
    pub ts: u64,
}

impl View for ChatLine {
    type V = LineV;

    open spec fn view(&self) -> LineV {
        LineV { from: self.from@, text: self.text@, ts: self.ts }
    }
}

/// Models of a list of lines.
pub open spec fn lines_view(v: Seq<ChatLine>) -> Seq<LineV> {
    v.map_values(|l: ChatLine| l@)
}

/// The viewer.
pub struct App {
    pub relay: String,
    pub watching: bool,
    pub status: String,
    pub connected: bool,
    pub streams: Vec<StreamInfo>,
    pub list_selection: Option<usize>,
    pub joined: Option<StreamInfo>,
    pub screen: Option<Mirror>,
    pub paused: bool,
    pub pending_target: Option<String>,
    pub last_target: Option<String>,
    pub owned_ids: Vec<String>,
    pub chat_log: Vec<ChatLine>,
    pub chat_input: String,
    pub composing: bool,
    pub chat_open: bool,
    pub chat_only: bool,
    pub speaker: bool,
    pub muted: bool,
    pub audio_seen: bool,
    pub audio_err: Option<String>,
}

impl View for App {
    type V = AppV;

    open spec fn view(&self) -> AppV {
        AppV {
            relay: self.relay@,
            watching: self.watching,
            status: self.status@,
            connected: self.connected,
            streams: infos_view(self.streams@),
            selected: match self.list_selection {
                Some(i) => Some(i as int),
                None => None,
            },
            joined: match self.joined {
                Some(i) => Some(i@),
                None => None,
            },
            fed: match self.screen {
                Some(e) => Some(e@),
                None => None,
            },
            paused: self.paused,
            pending_target: text_view(self.pending_target),
            last_target: text_view(self.last_target),
            owned: texts_view(self.owned_ids@),
            chat_log: lines_view(self.chat_log@),
            chat_input: self.chat_input@,
            composing: self.composing,
            chat_open: self.chat_open,
            chat_only: self.chat_only,
            speaker: self.speaker,
            muted: self.muted,
            audio_seen: self.audio_seen,
            audio_err: text_view(self.audio_err),
        }
    }
}

/// What a viewer with the given target is told where the target is this
/// machine's own.
pub const OWN_STREAM: &'static str = "that's your own stream — you can't watch yourself";

/// The viewer at its start, or why there is none.
pub open spec fn opened(cfg: WatchConfig, markers: Seq<(String, String)>) -> Result<
    AppV,
    Seq<char>,
> {
    if !cfg.allow_self && cfg.target is Some && owns(markers, cfg.target.unwrap()@) {
        Err(OWN_STREAM@)
    } else {
        Ok(
            first(
                cfg.relay@,
                text_view(cfg.target),
                if cfg.allow_self {
                    Seq::empty()
                } else {
                    ids_of(markers)
                },
                cfg.chat_open,
                cfg.chat_only,
            ),
        )
    }
}

/// The viewer once it is known how opening the speaker went.
pub open spec fn with_speaker(a: AppV, result: Result<(), Seq<char>>) -> AppV {
    match result {
        Ok(_) => AppV { speaker: true, ..a },
        Err(e) => AppV { audio_err: Some(e), ..a },
    }
}

impl App {
    /// Opens the viewer. `markers` are those of the streams that this machine
    /// hosts; unless it is allowed, they are neither joined nor listed.
    pub fn open(cfg: &WatchConfig, markers: &[(String, String)]) -> (out: Result<App, String>)
        ensures
            (match out {
                Ok(app) => Ok::<AppV, Seq<char>>(app@),
                Err(why) => Err(why@),
            }) == opened(*cfg, markers@),
            if !cfg.allow_self && cfg.target is Some && owns(markers@, cfg.target.unwrap()@) {
                out matches Err(why) && why@ == OWN_STREAM@
            } else {
                &&& out matches Ok(app)
                &&& app_valid(app@)
                &&& app@ == first(
                    cfg.relay@,
                    text_view(cfg.target),
                    if cfg.allow_self {
                        Seq::empty()
                    } else {
                        ids_of(markers@)
                    },
                    cfg.chat_open,
                    cfg.chat_only,
                )
            },
    {
        let owned_ids: Vec<String> = if cfg.allow_self {
            Vec::new()
        } else {
            if let Some(t) = &cfg.target {
                if is_owned(markers, t.as_str()) {
                    return Err(OWN_STREAM.to_string());
                }
            }
            own_ids(markers)
        };
        let app = App {
            relay: cfg.relay.clone(),
            watching: false,
            status: "connecting…".to_string(),
            connected: false,
            streams: Vec::new(),
            list_selection: None,
            joined: None,
            screen: None,
            paused: false,
            pending_target: copy_text(&cfg.target),
            last_target: None,
            owned_ids,
            chat_log: Vec::new(),
            chat_input: String::new(),
            composing: false,
            chat_open: cfg.chat_open,
            chat_only: cfg.chat_only,
            speaker: false,
            muted: false,
            audio_seen: false,
            audio_err: None,
        };
        assert(app@.streams =~= Seq::<InfoV>::empty());
        assert(app@.chat_log =~= Seq::<LineV>::empty());
        assert(app@.chat_input =~= Seq::<char>::empty());
        assert(cfg.allow_self ==> app@.owned =~= Seq::<Seq<char>>::empty());
        Ok(app)
    }

    /// The stream that is selected.
    pub fn selected(&self) -> (s: Option<&StreamInfo>)
        ensures
            match s {
                Some(i) => picked(self@) == Some(i@),
                None => picked(self@) is None,
            },
    {
        match self.list_selection {
            Some(i) => if i < self.streams.len() {
                assert(infos_view(self.streams@)[i as int] == self.streams@[i as int]@);
                Some(&self.streams[i])
            } else {
                None
            },
            None => None,
        }
    }

    /// Moves the selection `delta` streams down, or up where `delta` is negative,
    /// around the ends of the list.
    pub fn move_sel(&mut self, delta: i32)
        requires
            app_valid(old(self)@),
        ensures
            app_valid(final(self)@),
            final(self)@ == (AppV {
                selected: moved(
                    old(self)@.selected,
                    old(self)@.streams.len() as int,
                    delta as int,
                ),
                ..old(self)@
            }),
    {
        let len: usize = self.streams.len();
        if len == 0 {
            self.list_selection = None;
            return;
        }
        let cur: usize = match self.list_selection {
            Some(i) => i,
            None => 0,
        };
        self.list_selection = Some(around(cur, len, delta));
    }

    fn leave_stream(&mut self)
        ensures
            final(self)@ == left_stream(old(self)@),
    {
        self.watching = false;
        self.screen = None;
        self.joined = None;
        self.paused = false;
    }

    fn on_browse_key(&mut self, key: Key) -> (out: (Vec<Act>, bool))
        requires
            app_valid(old(self)@),
        ensures
            (Turn { app: final(self)@, acts: acts_view(out.0@), quit: out.1 }) == browse_key(
                old(self)@,
                key,
            ),
    {
        match key {
            Key::Char('q') => (no_acts(), true),
            Key::Esc => (no_acts(), true),
            Key::Down => {
                self.move_sel(1);
                (no_acts(), false)
            },
            Key::Char('j') => {
                self.move_sel(1);
                (no_acts(), false)
            },
            Key::Up => {
                self.move_sel(-1);
                (no_acts(), false)
            },
            Key::Char('k') => {
                self.move_sel(-1);
                (no_acts(), false)
            },
            Key::Char('r') => {
                self.status = "refreshing…".to_string();
                (one_act(Act::Send(WatchToRelay::List)), false)
            },
            Key::Enter => {
                let target: Option<String> = match self.selected() {
                    Some(s) => Some(s.stream_id.clone()),
                    None => None,
                };
                match target {
                    Some(t) => {
                        self.last_target = Some(t.clone());
                        self.status = "joining…".to_string();
                        (one_act(Act::Send(WatchToRelay::Join { target: t })), false)
                    },
                    None => (no_acts(), false),
                }
            },
            _ => (no_acts(), false),
        }
    }

    fn on_compose_key(&mut self, key: Key) -> (acts: Vec<Act>)
        ensures
            (Turn { app: final(self)@, acts: acts_view(acts@), quit: false }) == compose_key(
                old(self)@,
                key,
            ),
    {
        match key {
            Key::Esc => {
                self.composing = false;
                self.chat_input = empty_text();
                no_acts()
            },
            Key::Enter => {
                let text = trim(chars_of(self.chat_input.as_str()).as_slice());
                self.chat_input = empty_text();
                if !text.as_str().is_empty() {
                    one_act(Act::Send(WatchToRelay::Chat { text }))
                } else {
                    no_acts()
                }
            },
            Key::Backspace => {
                self.chat_input.pop();
                no_acts()
            },
            Key::Char(c) => {
                self.chat_input.push(c);
                no_acts()
            },
            _ => no_acts(),
        }
    }

    fn on_watch_key(&mut self, key: Key) -> (acts: Vec<Act>)
        ensures
            (Turn { app: final(self)@, acts: acts_view(acts@), quit: false }) == watch_key(
                old(self)@,
                key,
            ),
    {
        match key {
            Key::Char('c') => {
                self.chat_open = true;
                self.composing = true;
                no_acts()
            },
            Key::Char('m') => {
                if self.muted {
                    self.muted = false;
                    no_acts()
                } else {
                    self.muted = true;
                    self.speaker = false;
                    one_act(Act::CloseSpeaker)
                }
            },
            Key::Char('q') => self.leave_for_browser(),
            Key::Esc => self.leave_for_browser(),
            Key::Backspace => self.leave_for_browser(),
            _ => no_acts(),
        }
    }

    fn leave_for_browser(&mut self) -> (acts: Vec<Act>)
        ensures
            (Turn { app: final(self)@, acts: acts_view(acts@), quit: false }) == leave_turn(
                old(self)@,
            ),
    {
        self.leave_stream();
        self.last_target = None;
        self.status = "browsing".to_string();
        two_acts(Act::Send(WatchToRelay::Leave), Act::Send(WatchToRelay::List))
    }

    /// Handles a key. Returns what is done about it and whether the program
    /// ends.
    pub fn handle_key(&mut self, ctrl: bool, key: Key) -> (out: (Vec<Act>, bool))
        requires
            app_valid(old(self)@),
        ensures
            app_valid(final(self)@),
            (Turn { app: final(self)@, acts: acts_view(out.0@), quit: out.1 }) == key_turn(
                old(self)@,
                ctrl,
                key,
            ),
    {
        proof {
            law_keys_keep_valid(self@, ctrl, key);
        }
        let stop: bool = match key {
            Key::Char('c') => ctrl,
            Key::Char('C') => ctrl,
            _ => false,
        };
        if stop {
            (no_acts(), true)
        } else if !self.watching {
            self.on_browse_key(key)
        } else if self.composing {
            (self.on_compose_key(key), false)
        } else {
            (self.on_watch_key(key), false)
        }
    }

    fn on_message(&mut self, m: RelayToWatch) -> (acts: Vec<Act>)
        requires
            app_valid(old(self)@),
        ensures
            (Turn { app: final(self)@, acts: acts_view(acts@), quit: false }) == msg_turn(
                old(self)@,
                m@,
            ),
    {
        match m {
            RelayToWatch::Streams(v) => {
                self.show_streams(&v);
                no_acts()
            },
            RelayToWatch::Joined { info, snapshot } => {
                self.show_joined(info, snapshot.as_slice());
                no_acts()
            },
            RelayToWatch::Output(b) => {
                self.draw(b.as_slice());
                no_acts()
            },
            RelayToWatch::Audio(b) => self.hear(b.as_slice()),
            RelayToWatch::Resize { cols, rows } => {
                self.resize(cols, rows);
                no_acts()
            },
            RelayToWatch::Privacy { paused } => {
                self.paused = paused;
                no_acts()
            },
            RelayToWatch::Viewers(n) => {
                if let Some(mut info) = self.joined.take() {
                    info.viewers = n;
                    self.joined = Some(info);
                }
                no_acts()
            },
            RelayToWatch::Chat { from, text, ts_unix } => {
                self.log_chat(ChatLine { from, text, ts: ts_unix });
                no_acts()
            },
            RelayToWatch::Ended => {
                self.leave_stream();
                self.last_target = None;
                self.status = "stream ended".to_string();
                one_act(Act::Send(WatchToRelay::List))
            },
            RelayToWatch::Error(e) => {
                self.status = e;
                no_acts()
            },
            RelayToWatch::Welcome => no_acts(),
            RelayToWatch::Ping => one_act(Act::Send(WatchToRelay::Pong)),
        }
    }

    fn show_joined(&mut self, info: StreamInfo, snapshot: &[u8])
        ensures
            final(self)@ == msg_turn(
                old(self)@,
                RelayToWatchV::Joined { info: info@, snapshot: snapshot@ },
            ).app,
    {
        let screen = Mirror::new(clamped(info.rows), clamped(info.cols));
        self.screen = Some(screen.draw(snapshot));
        self.joined = Some(info);
        self.paused = false;
        self.watching = true;
        self.status = empty_text();
    }

    fn draw(&mut self, bytes: &[u8])
        ensures
            final(self)@ == msg_turn(old(self)@, RelayToWatchV::Output(bytes@)).app,
    {
        if let Some(m) = self.screen.take() {
            self.screen = Some(m.draw(bytes));
        }
    }

    fn hear(&mut self, bytes: &[u8]) -> (acts: Vec<Act>)
        ensures
            (Turn { app: final(self)@, acts: acts_view(acts@), quit: false }) == msg_turn(
                old(self)@,
                RelayToWatchV::Audio(bytes@),
            ),
    {
        self.audio_seen = true;
        if self.muted {
            no_acts()
        } else if !self.speaker && self.audio_err.is_none() {
            two_acts(Act::OpenSpeaker, Act::Play(decode_frame(bytes)))
        } else {
            one_act(Act::Play(decode_frame(bytes)))
        }
    }

    fn resize(&mut self, cols: u16, rows: u16)
        ensures
            final(self)@ == msg_turn(old(self)@, RelayToWatchV::Resize { cols, rows }).app,
    {
        if let Some(m) = self.screen.take() {
            self.screen = Some(m.resize(clamped(rows), clamped(cols)));
        }
        if let Some(mut info) = self.joined.take() {
            info.cols = cols;
            info.rows = rows;
            self.joined = Some(info);
        }
    }

    fn show_streams(&mut self, v: &Vec<StreamInfo>)
        ensures
            final(self)@ == (AppV {
                streams: foreign(infos_view(v@), old(self)@.owned),
                selected: reselected(
                    old(self)@.selected,
                    foreign(infos_view(v@), old(self)@.owned).len() as int,
                ),
                ..old(self)@
            }),
    {
        let shown = without_own(v, &self.owned_ids);
        let len: usize = shown.len();
        self.streams = shown;
        if len == 0 {
            self.list_selection = None;
        } else {
            let cur: usize = match self.list_selection {
                Some(i) => i,
                None => 0,
            };
            self.list_selection = Some(
                if cur < len {
                    cur
                } else {
                    len - 1
                },
            );
        }
    }

    fn log_chat(&mut self, line: ChatLine)
        requires
            old(self)@.chat_log.len() <= CHAT_LOG_LIMIT,
        ensures
            final(self)@ == (AppV {
                chat_log: kept_lines(old(self)@.chat_log.push(line@)),
                chat_open: true,
                ..old(self)@
            }),
    {
        self.chat_open = true;
        let ghost before = self.chat_log@;
        self.chat_log.push(line);
        assert(lines_view(self.chat_log@) =~= lines_view(before).push(line@));
        if self.chat_log.len() > CHAT_LOG_LIMIT {
            let ghost full = self.chat_log@;
            self.chat_log.remove(0);
            assert(lines_view(self.chat_log@) =~= lines_view(full).skip(1));
        }
    }

    /// Handles what the connection reports. Returns what is done about it.
    pub fn handle_net(&mut self, net: Net) -> (acts: Vec<Act>)
        requires
            app_valid(old(self)@),
        ensures
            app_valid(final(self)@),
            (Turn { app: final(self)@, acts: acts_view(acts@), quit: false }) == net_turn(
                old(self)@,
                net@,
            ),
    {
        proof {
            law_messages_keep_valid(self@, net@);
        }
        match net {
            Net::Connected => {
                self.connected = true;
                match self.pending_target.take() {
                    Some(target) => {
                        self.last_target = Some(target.clone());
                        self.status = "joining…".to_string();
                        one_act(Act::Send(WatchToRelay::Join { target }))
                    },
                    None => {
                        self.status = "browsing".to_string();
                        one_act(Act::Send(WatchToRelay::List))
                    },
                }
            },
            Net::Disconnected(why) => {
                self.connected = false;
                let mut text = "disconnected: ".to_string();
                text.append(why.as_str());
                text.append(" — reconnecting…");
                self.status = text;
                if self.watching {
                    self.pending_target = copy_text(&self.last_target);
                    self.leave_stream();
                }
                no_acts()
            },
            Net::Msg(m) => self.on_message(m),
        }
    }

    /// Takes note of how opening the speaker went.
    pub fn speaker_opened(&mut self, result: Result<(), String>)
        requires
            app_valid(old(self)@),
            !old(self)@.muted,
        ensures
            app_valid(final(self)@),
            final(self)@ == with_speaker(
                old(self)@,
                match result {
                    Ok(_) => Ok(()),
                    Err(e) => Err(e@),
                },
            ),
            final(self)@ == (match result {
                Ok(_) => AppV { speaker: true, ..old(self)@ },
                Err(e) => AppV { audio_err: Some(e@), ..old(self)@ },
            }),
    {
        match result {
            Ok(_) => {
                self.speaker = true;
            },
            Err(e) => {
                self.audio_err = Some(e);
            },
        }
    }
}

/// `delta` places behind `cur` among `len`, around the ends.
fn around(cur: usize, len: usize, delta: i32) -> (next: usize)
    requires
        cur < len,
    ensures
        next == (cur + delta) % len as int,
        next < len,
{
    let wide: i64 = delta as i64;
    let far: u64 = if wide < 0 {
        (-wide) as u64
    } else {
        wide as u64
    };
    let step: usize = (far % (len as u64)) as usize;
    let next: usize = if wide < 0 {
        if step <= cur {
            cur - step
        } else {
            len - (step - cur)
        }
    } else if step < len - cur {
        cur + step
    } else {
        step - (len - cur)
    };
    proof {
        let n = len as int;
        let q = far as int / n;
        lemma_fundamental_div_mod(far as int, n);
        let turns = if wide < 0 {
            if step <= cur {
                -q
            } else {
                -q - 1
            }
        } else if step < len - cur {
            q
        } else {
            q + 1
        };
        assert(cur + delta == turns * n + next) by (nonlinear_arith)
            requires
                far == n * q + step,
                far == (if wide < 0 {
                    -wide
                } else {
                    wide as int
                }),
                wide == delta,
                next == (if wide < 0 {
                    if step <= cur {
                        cur - step
                    } else {
                        n - (step - cur)
                    }
                } else if step < n - cur {
                    cur + step
                } else {
                    step - (n - cur)
                }),
                turns == (if wide < 0 {
                    if step <= cur {
                        -q
                    } else {
                        -q - 1
                    }
                } else if step < n - cur {
                    q
                } else {
                    q + 1
                }),
        ;
        lemma_fundamental_div_mod_converse(cur + delta, n, turns, next as int);
    }
    next
}

fn no_acts() -> (acts: Vec<Act>)
    ensures
        acts_view(acts@) == Seq::<ActV>::empty(),
{
    let acts: Vec<Act> = Vec::new();
    assert(acts_view(acts@) =~= Seq::<ActV>::empty());
    acts
}

fn one_act(a: Act) -> (acts: Vec<Act>)
    ensures
        acts_view(acts@) == seq![a@],
{
    let mut acts: Vec<Act> = Vec::new();
    acts.push(a);
    assert(acts_view(acts@) =~= seq![a@]);
    acts
}

fn two_acts(a: Act, b: Act) -> (acts: Vec<Act>)
    ensures
        acts_view(acts@) == seq![a@, b@],
{
    let mut acts: Vec<Act> = Vec::new();
    acts.push(a);
    acts.push(b);
    assert(acts_view(acts@) =~= seq![a@, b@]);
    acts
}

fn empty_text() -> (s: String)
    ensures
        s@ == Seq::<char>::empty(),
{
    let s = String::new();
    assert(s@ =~= Seq::<char>::empty());
    s
}

/// A terminal has at least one row and one column.
fn clamped(n: u16) -> (out: u16)
    ensures
        out == at_least_one(n),
        out >= 1,
{
    if n < 1 {
        1
    } else {
        n
    }
}

/// The model of what the viewer does has one entry for each act, in order, and
/// each says all that is done. So has that of the lines of chat.
pub proof fn law_acts_are_modelled_in_full(v: Seq<Act>, l: Seq<ChatLine>, i: int)
    ensures
        acts_view(v).len() == v.len(),
        0 <= i < v.len() ==> {
            &&& v[i] matches Act::Send(m) ==> acts_view(v)[i] == ActV::Send(m@)
            &&& v[i] matches Act::Play(s) ==> acts_view(v)[i] == ActV::Play(s@)
            &&& v[i] is OpenSpeaker ==> acts_view(v)[i] is OpenSpeaker
            &&& v[i] is CloseSpeaker ==> acts_view(v)[i] is CloseSpeaker
        },
        lines_view(l).len() == l.len(),
        0 <= i < l.len() ==> {
            &&& lines_view(l)[i].from == l[i].from@
            &&& lines_view(l)[i].text == l[i].text@
            &&& lines_view(l)[i].ts == l[i].ts
        },
{
}

} // verus!
