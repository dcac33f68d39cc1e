//! The relay's state and the steps it takes.
use std::collections::{HashMap, VecDeque};

use crate::dict::Dict;
use crate::emulator::Mirror;
use crate::owned::texts_view;
use crate::protocol::{infos_view, HostHello, HostHelloV, HostToRelay, InfoV, RelayToHost,
    RelayToHostV, RelayToWatch, RelayToWatchV, StreamInfo, WatchToRelay, PROTOCOL_VERSION};
use crate::relay::auth::key_matches;
use crate::relay::codes::{codes_for, draw_codes, id_text, make_id};
use crate::relay::laws::{law_accepting_keeps_valid, law_ending_keeps_valid,
    law_farewell_keeps_valid, law_host_messages_keep_valid, law_joining_keeps_valid,
    law_leaving_changes_no_target, law_leaving_keeps_valid, law_targets_lead_to_live_streams,
    lemma_text_le_total, lemma_text_le_transitive};
use crate::relay::model::{admission, after_admission, after_ended, after_host, after_join,
    after_leave, at_least_one, chat_outcome, delivered, detached, fan_fits, fan_outcome, fanned_out,
    farewell, free_from, holds, in_listing_order, join_effects, join_fits, join_outcome, kept, leave_effects,
    leave_outcome, left, left_effects, listable, listed_before, lists, mismatch_text, new_stream,
    new_watcher, no_stream_text, no_streams, one_left, one_more, public_listing, recent, refusal, relay_valid,
    resolved, stream_after, text_le, watch_outcome, welcomed, with_host, without_host, AdmissionV, BcastV,
    EffectV, FanOutV, Outcome, RelayV, StreamV, WatcherV, CHAT_BURST, CHAT_WINDOW, MAX_STREAMS};
use crate::relay::sanitize::{clean_chat, sanitize_chat, sanitize_name};
use crate::text::{chars_of, same_text, text_view};
use vstd::prelude::*;

verus! {

broadcast use vstd::std_specs::hash::group_hash_axioms;

/// A live stream.
pub struct Stream {
    info: StreamInfo,
    /// Mirror of the host's screen, for those who join late or fall behind.
    mirror: Mirror,
    paused: bool,
    chat_enabled: bool,
    ended: bool,
    members: u64,
}

impl View for Stream {
    type V = StreamV;

    closed spec fn view(&self) -> StreamV {
        StreamV {
            info: self.info@,
            fed: self.mirror@,
            paused: self.paused,
            chat: self.chat_enabled,
            ended: self.ended,
            members: self.members as nat,
        }
    }
}

/// The directory of streams.
pub struct Registry {
    streams: HashMap<u64, Stream>,
    directory: Dict<u64>,
    codes: Dict<String>,
    auth_key: Option<String>,
    next: u64,
}

impl View for Registry {
    type V = RelayV;

    closed spec fn view(&self) -> RelayV {
        RelayV {
            streams: self.streams@.map_values(|s: Stream| s@),
            directory: self.directory@,
            codes: self.codes@.map_values(|s: String| s@),
            auth_key: text_view(self.auth_key),
            next: self.next,
        }
    }
}

/// A watcher's connection.
pub struct Watcher {
    name: String,
    joined: Option<u64>,
    subscribed: bool,
    chat_times: VecDeque<u64>,
}

impl View for Watcher {
    type V = WatcherV;

    closed spec fn view(&self) -> WatcherV {
        WatcherV {
            name: self.name@,
            joined: self.joined,
            subscribed: self.subscribed,
            chat_times: self.chat_times@,
        }
    }
}

/// What is fanned out to everyone who watches a stream.
#[derive(Debug)]
pub enum Bcast {
    Output(Vec<u8>),
    Resize { cols: u16, rows: u16 },
    Privacy(bool),
    Viewers(u32),
    Chat { from: String, text: String, ts: u64 },
    Ended,
    Audio(Vec<u8>),
}

impl View for Bcast {
    type V = BcastV;

    open spec fn view(&self) -> BcastV {
        match *self {
            Bcast::Output(data) => BcastV::Output(data@),
            Bcast::Resize { cols, rows } => BcastV::Resize { cols, rows },
            Bcast::Privacy(paused) => BcastV::Privacy(paused),
            Bcast::Viewers(n) => BcastV::Viewers(n),
            Bcast::Chat { from, text, ts } => BcastV::Chat { from: from@, text: text@, ts },
            Bcast::Ended => BcastV::Ended,
            Bcast::Audio(data) => BcastV::Audio(data@),
        }
    }
}

/// What the relay does in answer to a watcher's message.
#[derive(Debug)]
pub enum Effect {
    /// Send to the watcher.
    Reply(RelayToWatch),
    /// Send to the host of a stream.
    ToHost(u64, RelayToHost),
    /// Fan out to everyone who watches a stream.
    Fan(u64, Bcast),
    /// Start to receive what a stream fans out from now on.
    Subscribe(u64),
    /// Stop receiving.
    Unsubscribe,
}

impl View for Effect {
    type V = EffectV;

    open spec fn view(&self) -> EffectV {
        match *self {
            Effect::Reply(m) => EffectV::Reply(m@),
            Effect::ToHost(key, m) => EffectV::ToHost(key, m@),
            Effect::Fan(key, b) => EffectV::Fan(key, b@),
            Effect::Subscribe(key) => EffectV::Subscribe(key),
            Effect::Unsubscribe => EffectV::Unsubscribe,
        }
    }
}

/// Models of a list of effects.
pub open spec fn effects_view(v: Seq<Effect>) -> Seq<EffectV> {
    v.map_values(|e: Effect| e@)
}

/// What a watcher's connection receives from the stream's fan-out.
#[derive(Debug)]
pub enum FanOut {
    Event(Bcast),
    /// The connection was too slow and lost events.
    Lagged,
    /// Nothing will be fanned out any more.
    Closed,
}

impl View for FanOut {
    type V = FanOutV;

    open spec fn view(&self) -> FanOutV {
        match *self {
            FanOut::Event(b) => FanOutV::Event(b@),
            FanOut::Lagged => FanOutV::Lagged,
            FanOut::Closed => FanOutV::Closed,
        }
    }
}

/// A frame that arrived on a connection.
#[derive(Debug)]
pub enum Frame<M> {
    /// A binary frame, with the message it holds if it could be decoded.
    Binary(Option<M>),
    /// Any other frame that carries no message.
    Other,
    /// The connection is closed or broken.
    Gone,
}

impl Registry {
    /// What holds of the relay at all times.
    pub closed spec fn wf(&self) -> bool {
        &&& self.directory.wf()
        &&& self.codes.wf()
        &&& relay_valid(self@)
    }

    /// What the invariant says of the relay's model.
    pub proof fn lemma_wf(&self)
        requires
            self.wf(),
        ensures
            relay_valid(self@),
    {
    }

    /// A relay without streams. With a key, hosts must present it.
    pub fn new(auth_key: Option<String>) -> (r: Registry)
        ensures
            r.wf(),
            r@ == no_streams(text_view(auth_key)),
            r@ == (RelayV {
                streams: Map::empty(),
                directory: Map::empty(),
                codes: Map::empty(),
                auth_key: text_view(auth_key),
                next: 0,
            }),
    {
        let r = Registry {
            streams: HashMap::new(),
            directory: Dict::new(),
            codes: Dict::new(),
            auth_key,
            next: 0,
        };
        proof {
            assert(r@.streams =~= Map::<u64, StreamV>::empty());
            assert(r@.codes =~= Map::<Seq<char>, Seq<char>>::empty());
        }
        r
    }

    closed spec fn parts_wf(&self) -> bool {
        &&& self.directory.wf()
        &&& self.codes.wf()
    }

    /// Takes stream `key` out of the table.
    fn take(&mut self, key: u64) -> (s: Stream)
        requires
            old(self).parts_wf(),
            old(self)@.streams.dom().contains(key),
        ensures
            final(self).parts_wf(),
            s@ == old(self)@.streams[key],
            final(self)@ == (RelayV { streams: old(self)@.streams.remove(key), ..old(self)@ }),
    {
        let s = self.streams.remove(&key).unwrap();
        assert(self@.streams =~= old(self)@.streams.remove(key));
        s
    }

    /// Puts a stream into the table as number `key`.
    fn put(&mut self, key: u64, s: Stream)
        requires
            old(self).parts_wf(),
        ensures
            final(self).parts_wf(),
            final(self)@ == (RelayV { streams: old(self)@.streams.insert(key, s@), ..old(self)@ }),
    {
        self.streams.insert(key, s);
        assert(self@.streams =~= old(self)@.streams.insert(key, s@));
    }

    /// Puts a stream back into the table, unless nobody holds it any more.
    fn put_back(&mut self, key: u64, s: Stream)
        requires
            old(self).parts_wf(),
            !old(self)@.streams.dom().contains(key),
        ensures
            final(self).parts_wf(),
            final(self)@ == (RelayV { streams: kept(old(self)@.streams, key, s@), ..old(self)@ }),
    {
        if s.ended && s.members == 0 {
            assert(self@.streams =~= self@.streams.remove(key));
        } else {
            self.put(key, s);
        }
    }

    // ------------------------------------------------------------------ hosts

    /// Why the relay refuses a host, if it does.
    pub fn refuse(&self, hello: &HostHello) -> (why: Option<String>)
        requires
            self.wf(),
        ensures
            text_view(why) == refusal(self@, hello@),
    {
        if !same_text(hello.version.as_str(), PROTOCOL_VERSION) {
            return Some(mismatch(", host ", hello.version.as_str()));
        }
        if let Some(key) = &self.auth_key {
            if !key_matches(&hello.auth_key, key) {
                return Some("invalid auth key".to_string());
            }
        }
        if self.directory.len() >= MAX_STREAMS {
            return Some("relay at capacity".to_string());
        }
        None
    }

    /// Takes in the stream of a host that is not refused, with the given id and
    /// join code. Returns the number of the stream.
    pub fn accept(&mut self, hello: &HostHello, id: String, code: String, now: u64) -> (key: u64)
        requires
            old(self).wf(),
            refusal(old(self)@, hello@) is None,
            old(self)@.next < u64::MAX,
        ensures
            final(self).wf(),
            key == old(self)@.next,
            final(self)@ == with_host(old(self)@, hello@, id@, code@, now),
    {
        proof {
            law_accepting_keeps_valid(self@, hello@, id@, code@, now);
        }
        let cols: u16 = clamp_size(hello.cols);
        let rows: u16 = clamp_size(hello.rows);
        let s = Stream {
            info: StreamInfo {
                stream_id: id.clone(),
                name: hello.name.clone(),
                shell: hello.shell.clone(),
                cols,
                rows,
                viewers: 0,
                started_unix: now,
                public: hello.public,
            },
            mirror: Mirror::new(rows, cols),
            paused: false,
            chat_enabled: hello.chat,
            ended: false,
            members: 0,
        };
        let key: u64 = self.next;
        assert(s@ == new_stream(hello@, id@, now));
        self.put(key, s);
        self.directory.insert(id.clone(), key);
        let ghost id_view = id@;
        let ghost code_view = code@;
        self.codes.insert(code, id);
        self.next = key + 1;
        assert(self@.codes =~= old(self)@.codes.insert(code_view, id_view));
        key
    }

    /// The first of the drawn join codes that no stream has.
    pub fn first_free(&self, drawn: &[String]) -> (found: Option<usize>)
        requires
            self.wf(),
        ensures
            match found {
                Some(i) => {
                    &&& free_from(self@, texts_view(drawn@), 0) == Some(i as int)
                    &&& i < drawn@.len()
                    &&& !self@.codes.dom().contains(drawn@[i as int]@)
                    &&& forall|j: int|
                        0 <= j < i ==> self@.codes.dom().contains((#[trigger] drawn@[j])@)
                },
                None => {
                    &&& free_from(self@, texts_view(drawn@), 0) is None
                    &&& forall|j: int|
                        0 <= j < drawn@.len() ==> self@.codes.dom().contains(
                            (#[trigger] drawn@[j])@,
                        )
                },
            },
    {
        let ghost texts = texts_view(drawn@);
        let mut i: usize = 0;
        while i < drawn.len()
            invariant
                self.wf(),
                texts == texts_view(drawn@),
                i <= drawn@.len(),
                free_from(self@, texts, 0) == free_from(self@, texts, i as int),
                forall|j: int| 0 <= j < i ==> self@.codes.dom().contains((#[trigger] drawn@[j])@),
            decreases drawn@.len() - i,
        {
            assert(texts[i as int] == drawn@[i as int]@);
            if !self.codes.contains(drawn[i].as_str()) {
                return Some(i);
            }
            i += 1;
        }
        None
    }

    /// Opens a stream for a host that said hello, with the given id and the first
    /// of the drawn join codes that is free: refuses it, or takes it in.
    pub fn open_with(&mut self, hello: &HostHello, id: String, drawn: &[String], now: u64) -> (a:
        Admission)
        requires
            old(self).wf(),
        ensures
            final(self).wf(),
            a@ == admission(old(self)@, hello@, id@, texts_view(drawn@)),
            final(self)@ == after_admission(old(self)@, hello@, a@, now),
    {
        if let Some(why) = self.refuse(hello) {
            return Admission::Refused(RelayToHost::Error(why));
        }
        if self.next == u64::MAX {
            return Admission::Exhausted;
        }
        match self.first_free(drawn) {
            Some(i) => {
                assert(texts_view(drawn@)[i as int] == drawn@[i as int]@);
                let code = drawn[i].clone();
                let key = self.accept(hello, id.clone(), code.clone(), now);
                Admission::Accepted { key, id, code }
            },
            None => Admission::Taken,
        }
    }

    /// Opens a stream for a host that said hello: draws an id and `attempts` join
    /// codes for it, and refuses it or takes it in. Which id and codes are drawn
    /// is left to chance.
    pub fn open_stream(&mut self, hello: &HostHello, now: u64, attempts: usize) -> (a: Admission)
        requires
            old(self).wf(),
        ensures
            final(self).wf(),
            exists|id: Seq<char>, drawn: Seq<Seq<char>>|
                id_text(id) && codes_for(drawn, attempts as nat, hello.name@) && a@
                    == #[trigger] admission(old(self)@, hello@, id, drawn),
            final(self)@ == after_admission(old(self)@, hello@, a@, now),
    {
        let id = make_id();
        let drawn = draw_codes(hello.name.as_str(), attempts);
        let ghost id_view = id@;
        let a = self.open_with(hello, id, drawn.as_slice(), now);
        assert(a@ == admission(old(self)@, hello@, id_view, texts_view(drawn@)));
        a
    }

    /// Handles a frame from the host of stream `key`.
    pub fn host_frame(&mut self, key: u64, frame: Frame<HostToRelay>) -> (step: HostStep)
        requires
            old(self).wf(),
            old(self)@.streams.dom().contains(key),
        ensures
            final(self).wf(),
            step.done == host_done(frame),
            match frame {
                Frame::Binary(Some(m)) => {
                    &&& final(self)@ == after_host(old(self)@, key, m@)
                    &&& step.fan_view() == fanned_out(old(self)@.streams[key], m@)
                    &&& step.done == (m is Bye)
                },
                Frame::Binary(None) | Frame::Other => {
                    &&& final(self)@ == old(self)@
                    &&& step.fan is None
                    &&& !step.done
                },
                Frame::Gone => {
                    &&& final(self)@ == old(self)@
                    &&& step.fan is None
                    &&& step.done
                },
            },
    {
        match frame {
            Frame::Binary(Some(m)) => self.host_message(key, m),
            Frame::Binary(None) => HostStep { fan: None, done: false },
            Frame::Other => HostStep { fan: None, done: false },
            Frame::Gone => HostStep { fan: None, done: true },
        }
    }

    fn host_message(&mut self, key: u64, m: HostToRelay) -> (step: HostStep)
        requires
            old(self).wf(),
            old(self)@.streams.dom().contains(key),
        ensures
            final(self).wf(),
            final(self)@ == after_host(old(self)@, key, m@),
            step.fan_view() == fanned_out(old(self)@.streams[key], m@),
            step.done == (m is Bye),
    {
        proof {
            law_host_messages_keep_valid(self@, key, m@);
        }
        let mut s = self.take(key);
        let ghost before = s@;
        let step = match m {
            HostToRelay::Output(data) => {
                if s.paused {
                    HostStep { fan: None, done: false }
                } else {
                    s.mirror = s.mirror.draw(data.as_slice());
                    HostStep { fan: Some(Bcast::Output(data)), done: false }
                }
            },
            HostToRelay::Resize { cols, rows } => {
                let c: u16 = clamp_size(cols);
                let r: u16 = clamp_size(rows);
                s.mirror = s.mirror.resize(r, c);
                s.info.cols = c;
                s.info.rows = r;
                HostStep { fan: Some(Bcast::Resize { cols: c, rows: r }), done: false }
            },
            HostToRelay::Privacy { paused } => {
                s.paused = paused;
                HostStep { fan: Some(Bcast::Privacy(paused)), done: false }
            },
            HostToRelay::Audio(data) => HostStep { fan: Some(Bcast::Audio(data)), done: false },
            HostToRelay::Pong => HostStep { fan: None, done: false },
            HostToRelay::Hello(_) => HostStep { fan: None, done: false },
            HostToRelay::Bye => HostStep { fan: None, done: true },
        };
        assert(s@ == stream_after(before, m@));
        self.put(key, s);
        assert(self@.streams =~= after_host(old(self)@, key, m@).streams);
        step
    }

    /// Takes stream `key` off the directory, with its join code, when its host is
    /// gone. Everyone who watches it is to be told that it ended.
    pub fn host_gone(&mut self, key: u64, code: &str) -> (told: Effect)
        requires
            old(self).wf(),
            old(self)@.streams.dom().contains(key),
        ensures
            final(self).wf(),
            final(self)@ == without_host(old(self)@, key, code@),
            told@ == farewell(key),
            told@ == EffectV::Fan(key, BcastV::Ended),
    {
        proof {
            law_ending_keeps_valid(self@, key, code@);
        }
        let mut s = self.take(key);
        s.ended = true;
        let id = s.info.stream_id.clone();
        let ghost taken = self@;
        self.put_back(key, s);
        self.directory.remove(id.as_str());
        self.codes.remove(code);
        proof {
            let want = without_host(old(self)@, key, code@);
            assert(self@.streams =~= want.streams);
            assert(self@.codes =~= want.codes);
        }
        Effect::Fan(key, Bcast::Ended)
    }
    // -------------------------------------------------------------- directory

    /// Lists the public streams, most viewers first, then by name.
    pub fn collect_public(&self) -> (out: Vec<StreamInfo>)
        requires
            self.wf(),
        ensures
            public_listing(self@, infos_view(out@)),
    {
        let mut out: Vec<StreamInfo> = Vec::new();
        let ghost mut keys: Seq<u64> = Seq::empty();
        let n: usize = self.directory.len();
        let ghost ids = self.directory.keys();
        proof {
            self.directory.lemma_keys();
        }
        let mut i: usize = 0;
        while i < n
            invariant
                self.wf(),
                i <= n,
                n == ids.len(),
                ids == self.directory.keys(),
                ids.no_duplicates(),
                ids.to_set() == self@.directory.dom(),
                keys.len() == out@.len(),
                keys.no_duplicates(),
                forall|j: int|
                    0 <= j < keys.len() ==> exists|m: int|
                        0 <= m < i && self@.directory[#[trigger] ids[m]] == #[trigger] keys[j],
                forall|j: int|
                    0 <= j < keys.len() ==> self@.streams[#[trigger] keys[j]].info.public
                        && infos_view(out@)[j] == self@.streams[keys[j]].info,
                forall|m: int|
                    0 <= m < i && self@.streams[self@.directory[#[trigger] ids[m]]].info.public
                        ==> keys.contains(self@.directory[ids[m]]),
                in_listing_order(infos_view(out@)),
            decreases n - i,
        {
            let (id, key) = self.directory.entry(i);
            assert(ids.to_set().contains(ids[i as int]));
            let s = self.streams.get(key).unwrap();
            assert(self@.streams[*key] == s@);
            if s.info.public {
                let ghost before = out@;
                let ghost was = keys;
                let p = place(&out, &s.info);
                out.insert(p, s.info.clone());
                proof {
                    keys = was.insert(p as int, *key);
                    assert(!was.contains(*key)) by {
                        if was.contains(*key) {
                            let j = choose|j: int| 0 <= j < was.len() && was[j] == *key;
                            let m = choose|m: int|
                                0 <= m < i && self@.directory[#[trigger] ids[m]] == was[j];
                            assert(ids.to_set().contains(ids[m]));
                            assert(self@.streams[self@.directory[ids[m]]].info.stream_id == ids[m]);
                        }
                    }
                    lemma_inserted(was, p as int, *key);
                    assert(infos_view(out@) =~= infos_view(before).insert(p as int, s.info@));
                    lemma_in_order_inserted(infos_view(before), p as int, s.info@);
                    assert forall|j: int| 0 <= j < keys.len() implies exists|m: int|
                        0 <= m < i + 1 && self@.directory[#[trigger] ids[m]]
                            == #[trigger] keys[j] by {
                        if j == p {
                            assert(self@.directory[ids[i as int]] == keys[j]);
                        } else {
                            let q = if j < p { j } else { j - 1 };
                            let m = choose|m: int|
                                0 <= m < i && self@.directory[#[trigger] ids[m]] == was[q];
                            assert(self@.directory[ids[m]] == keys[j]);
                        }
                    }
                    assert forall|j: int| 0 <= j < keys.len() implies self@.streams[
                        #[trigger] keys[j]].info.public && infos_view(out@)[j]
                        == self@.streams[keys[j]].info by {
                        if j != p {
                            let q = if j < p { j } else { j - 1 };
                            assert(was[q] == keys[j]);
                        }
                    }
                }
            } else {
                assert(forall|j: int|
                    0 <= j < keys.len() ==> exists|m: int|
                        0 <= m < i + 1 && self@.directory[#[trigger] ids[m]]
                            == #[trigger] keys[j]) by {
                    assert forall|j: int| 0 <= j < keys.len() implies exists|m: int|
                        0 <= m < i + 1 && self@.directory[#[trigger] ids[m]]
                            == #[trigger] keys[j] by {
                        let m = choose|m: int|
                            0 <= m < i && self@.directory[#[trigger] ids[m]] == keys[j];
                        assert(self@.directory[ids[m]] == keys[j]);
                    }
                }
            }
            i += 1;
        }
        proof {
            let l = infos_view(out@);
            assert forall|j: int| 0 <= j < l.len() implies listable(self@, keys[j])
                && #[trigger] l[j] == self@.streams[keys[j]].info by {
                let m = choose|m: int|
                    0 <= m < i && self@.directory[#[trigger] ids[m]] == keys[j];
                assert(ids.to_set().contains(ids[m]));
                assert(self@.directory.dom().contains(ids[m]));
            }
            assert forall|key: u64| listable(self@, key) implies #[trigger] keys.contains(key) by {
                let id = choose|id: Seq<char>| #[trigger]
                    self@.directory.dom().contains(id) && self@.directory[id] == key;
                assert(ids.to_set().contains(id));
                let m = choose|m: int| 0 <= m < ids.len() && ids[m] == id;
                assert(self@.directory[ids[m]] == key);
            }
            assert(lists(self@, l, keys));
        }
        out
    }

    /// The stream that a join target leads to. A private stream is reached only
    /// by its join code; a public one also by its id.
    pub fn resolve(&self, target: &str) -> (found: Option<u64>)
        requires
            self.wf(),
        ensures
            found == resolved(self@, target@),
    {
        if let Some(id) = self.codes.get(target) {
            if let Some(key) = self.directory.get(id.as_str()) {
                return Some(*key);
            }
        }
        match self.directory.get(target) {
            Some(key) => {
                let s = self.streams.get(key).unwrap();
                assert(self@.streams[*key] == s@);
                if s.info.public {
                    Some(*key)
                } else {
                    None
                }
            },
            None => None,
        }
    }

    /// Whether the relay has stream `key`.
    pub fn has_stream(&self, key: u64) -> (yes: bool)
        ensures
            yes == self@.streams.dom().contains(key),
    {
        self.streams.contains_key(&key)
    }

    // --------------------------------------------------------------- watchers

    /// Whether the relay has the stream that the watcher joined, if any.
    pub fn holds_for(&self, w: &Watcher) -> (yes: bool)
        ensures
            yes == holds(self@, w@),
    {
        match w.joined {
            Some(key) => match self.streams.get(&key) {
                Some(s) => {
                    assert(self@.streams[key] == s@);
                    s.members > 0
                },
                None => false,
            },
            None => true,
        }
    }

    /// Whether an event may reach a watcher: the end of a stream does so only
    /// once its host is gone.
    pub fn may_reach(&self, w: &Watcher, event: &FanOut) -> (yes: bool)
        requires
            holds(self@, w@),
        ensures
            yes == fan_fits(self@, w@, event@),
    {
        match event {
            FanOut::Event(Bcast::Ended) => match w.joined {
                Some(key) => {
                    let s = self.streams.get(&key).unwrap();
                    assert(self@.streams[key] == s@);
                    s.ended
                },
                None => true,
            },
            _ => true,
        }
    }

    /// Counts one viewer of stream `key` less, and tells the host and the other
    /// watchers.
    pub fn leave(&mut self, key: u64) -> (effects: Vec<Effect>)
        requires
            old(self).wf(),
            old(self)@.streams.dom().contains(key),
            old(self)@.streams[key].members > 0,
        ensures
            final(self).wf(),
            final(self)@ == after_leave(old(self)@, key),
            effects_view(effects@) == leave_effects(old(self)@, key),
    {
        proof {
            law_leaving_keeps_valid(self@, key);
        }
        let mut s = self.take(key);
        let ghost before = s@;
        let n: u32 = if s.info.viewers == 0 { 0 } else { s.info.viewers - 1 };
        s.info.viewers = n;
        s.members -= 1;
        assert(s@ == one_left(before));
        self.put_back(key, s);
        assert(self@.streams =~= after_leave(old(self)@, key).streams);
        let mut effects: Vec<Effect> = Vec::new();
        effects.push(Effect::ToHost(key, RelayToHost::Viewers(n)));
        effects.push(Effect::Fan(key, Bcast::Viewers(n)));
        assert(effects_view(effects@) =~= leave_effects(old(self)@, key));
        effects
    }

    /// Lets the watcher go of the stream it joined, if any.
    fn detach(&mut self, w: &mut Watcher) -> (effects: Vec<Effect>)
        requires
            old(self).wf(),
            holds(old(self)@, old(w)@),
        ensures
            final(self).wf(),
            final(self)@ == left(old(self)@, old(w)@),
            final(w)@ == detached(old(w)@),
            effects_view(effects@) == left_effects(old(self)@, old(w)@),
    {
        match w.joined {
            Some(key) => {
                let mut effects = self.leave(key);
                w.joined = None;
                w.subscribed = false;
                let ghost e = effects@;
                effects.push(Effect::Unsubscribe);
                assert(effects_view(effects@) =~= effects_view(e).push(EffectV::Unsubscribe));
                effects
            },
            None => {
                let effects: Vec<Effect> = Vec::new();
                assert(effects_view(effects@) =~= Seq::<EffectV>::empty());
                effects
            },
        }
    }

    /// Whether the viewer count allows one more watcher where `target` leads to.
    pub fn has_room(&self, w: &Watcher, target: &str) -> (yes: bool)
        requires
            self.wf(),
            holds(self@, w@),
        ensures
            yes == join_fits(self@, w@, target@),
    {
        proof {
            law_leaving_changes_no_target(self@, w@, target@);
            law_targets_lead_to_live_streams(self@, target@);
        }
        match self.resolve(target) {
            Some(key) => {
                let s = self.streams.get(&key).unwrap();
                assert(self@.streams[key] == s@);
                let own: bool = match w.joined {
                    Some(k) => k == key,
                    None => false,
                };
                own || s.info.viewers < u32::MAX
            },
            None => true,
        }
    }

    fn on_join(&mut self, w: &mut Watcher, target: &str) -> (effects: Vec<Effect>)
        requires
            old(self).wf(),
            holds(old(self)@, old(w)@),
            join_fits(old(self)@, old(w)@, target@),
        ensures
            final(self).wf(),
            holds(final(self)@, final(w)@),
            (Outcome { relay: final(self)@, watcher: final(w)@, effects: effects_view(effects@) })
                == join_outcome(old(self)@, old(w)@, target@),
    {
        let mut effects = self.detach(w);
        let ghost r1 = self@;
        let ghost e1 = effects_view(effects@);
        match self.resolve(target) {
            Some(key) => {
                proof {
                    law_targets_lead_to_live_streams(r1, target@);
                    law_joining_keeps_valid(r1, key);
                }
                let mut s = self.take(key);
                let ghost before = s@;
                let snapshot = s.mirror.dump();
                let paused: bool = s.paused;
                let n: u32 = s.info.viewers + 1;
                s.info.viewers = n;
                s.members += 1;
                let info = s.info.clone();
                let ghost after = s@;
                assert(after == one_more(before));
                self.put(key, s);
                assert(self@.streams =~= after_join(r1, key).streams);
                w.joined = Some(key);
                w.subscribed = true;
                effects.push(Effect::Subscribe(key));
                effects.push(Effect::ToHost(key, RelayToHost::Viewers(n)));
                effects.push(Effect::Fan(key, Bcast::Viewers(n)));
                effects.push(Effect::Reply(RelayToWatch::Joined { info, snapshot }));
                if paused {
                    effects.push(Effect::Reply(RelayToWatch::Privacy { paused: true }));
                }
                assert(effects_view(effects@) =~= e1 + join_effects(r1, key));
            },
            None => {
                let mut text = "no live stream for '".to_string();
                text.append(target);
                text.append("'");
                effects.push(Effect::Reply(RelayToWatch::Error(text)));
                assert(effects_view(effects@) =~= e1.push(
                    EffectV::Reply(RelayToWatchV::Error(no_stream_text(target@))),
                ));
            },
        }
        effects
    }

    fn on_chat(&self, w: &mut Watcher, text: &str, now: u64) -> (effects: Vec<Effect>)
        requires
            self.wf(),
            holds(self@, old(w)@),
        ensures
            holds(self@, final(w)@),
            (Outcome { relay: self@, watcher: final(w)@, effects: effects_view(effects@) })
                == chat_outcome(self@, old(w)@, text@, now),
    {
        let mut effects: Vec<Effect> = Vec::new();
        assert(effects_view(effects@) =~= Seq::<EffectV>::empty());
        let key: u64 = match w.joined {
            Some(key) => key,
            None => {
                return effects;
            },
        };
        let s = self.streams.get(&key).unwrap();
        assert(self@.streams[key] == s@);
        if !s.chat_enabled {
            effects.push(
                Effect::Reply(RelayToWatch::Error("chat is disabled for this stream".to_string())),
            );
            assert(effects_view(effects@) =~= seq![
                EffectV::Reply(RelayToWatchV::Error("chat is disabled for this stream"@)),
            ]);
            return effects;
        }
        if let Some(clean) = sanitize_chat(text) {
            forget_old(&mut w.chat_times, now);
            if w.chat_times.len() < CHAT_BURST {
                w.chat_times.push_back(now);
                effects.push(
                    Effect::Fan(key, Bcast::Chat { from: w.name.clone(), text: clean, ts: now }),
                );
                assert(effects_view(effects@) =~= seq![
                    EffectV::Fan(
                        key,
                        BcastV::Chat { from: w@.name, text: clean_chat(text@), ts: now },
                    ),
                ]);
            }
        }
        effects
    }

    /// Handles a frame from a watcher at time `now`.
    pub fn watch_frame(&mut self, w: &mut Watcher, frame: Frame<WatchToRelay>, now: u64) -> (step:
        WatchStep)
        requires
            old(self).wf(),
            holds(old(self)@, old(w)@),
            frame matches Frame::Binary(Some(WatchToRelay::Join { target })) ==> join_fits(
                old(self)@,
                old(w)@,
                target@,
            ),
        ensures
            final(self).wf(),
            holds(final(self)@, final(w)@),
            step.done == watch_done(frame),
            match frame {
                Frame::Binary(Some(m)) => {
                    &&& watch_outcome(
                        old(self)@,
                        old(w)@,
                        m@,
                        now,
                        Outcome {
                            relay: final(self)@,
                            watcher: final(w)@,
                            effects: effects_view(step.effects@),
                        },
                    )
                    &&& !step.done
                },
                Frame::Binary(None) | Frame::Other => {
                    &&& final(self)@ == old(self)@
                    &&& final(w)@ == old(w)@
                    &&& step.effects@.len() == 0
                    &&& !step.done
                },
                Frame::Gone => {
                    &&& final(self)@ == old(self)@
                    &&& final(w)@ == old(w)@
                    &&& step.effects@.len() == 0
                    &&& step.done
                },
            },
    {
        match frame {
            Frame::Binary(Some(m)) => WatchStep {
                effects: self.watch_message(w, m, now),
                done: false,
            },
            Frame::Binary(None) => WatchStep { effects: Vec::new(), done: false },
            Frame::Other => WatchStep { effects: Vec::new(), done: false },
            Frame::Gone => WatchStep { effects: Vec::new(), done: true },
        }
    }

    fn watch_message(&mut self, w: &mut Watcher, m: WatchToRelay, now: u64) -> (effects: Vec<
        Effect,
    >)
        requires
            old(self).wf(),
            holds(old(self)@, old(w)@),
            m matches WatchToRelay::Join { target } ==> join_fits(old(self)@, old(w)@, target@),
        ensures
            final(self).wf(),
            holds(final(self)@, final(w)@),
            watch_outcome(
                old(self)@,
                old(w)@,
                m@,
                now,
                Outcome {
                    relay: final(self)@,
                    watcher: final(w)@,
                    effects: effects_view(effects@),
                },
            ),
    {
        match m {
            WatchToRelay::List => {
                let list = self.collect_public();
                let mut effects: Vec<Effect> = Vec::new();
                effects.push(Effect::Reply(RelayToWatch::Streams(list)));
                assert(effects_view(effects@)[0] == EffectV::Reply(
                    RelayToWatchV::Streams(infos_view(list@)),
                ));
                effects
            },
            WatchToRelay::Join { target } => self.on_join(w, target.as_str()),
            WatchToRelay::Leave => self.detach(w),
            WatchToRelay::Chat { text } => self.on_chat(w, text.as_str(), now),
            WatchToRelay::Pong => {
                let effects: Vec<Effect> = Vec::new();
                assert(effects_view(effects@) =~= Seq::<EffectV>::empty());
                effects
            },
            WatchToRelay::Hello(_) => {
                let effects: Vec<Effect> = Vec::new();
                assert(effects_view(effects@) =~= Seq::<EffectV>::empty());
                effects
            },
        }
    }

    /// Handles what a watcher's connection receives from the stream's fan-out.
    pub fn watch_fan(&mut self, w: &mut Watcher, event: FanOut) -> (effects: Vec<Effect>)
        requires
            old(self).wf(),
            holds(old(self)@, old(w)@),
            fan_fits(old(self)@, old(w)@, event@),
        ensures
            final(self).wf(),
            holds(final(self)@, final(w)@),
            (Outcome { relay: final(self)@, watcher: final(w)@, effects: effects_view(effects@) })
                == fan_outcome(old(self)@, old(w)@, event@),
    {
        let ghost want = fan_outcome(self@, w@, event@).effects;
        let mut effects: Vec<Effect> = Vec::new();
        match event {
            FanOut::Event(Bcast::Ended) => {
                if let Some(key) = w.joined {
                    proof {
                        law_farewell_keeps_valid(self@, key);
                    }
                    let mut s = self.take(key);
                    s.members -= 1;
                    self.put_back(key, s);
                    assert(self@.streams =~= after_ended(old(self)@, key).streams);
                }
                w.joined = None;
                w.subscribed = false;
                effects.push(Effect::Reply(RelayToWatch::Ended));
                effects.push(Effect::Unsubscribe);
            },
            FanOut::Event(b) => {
                effects.push(Effect::Reply(deliver(b)));
            },
            FanOut::Lagged => {
                if let Some(key) = w.joined {
                    let s = self.streams.get(&key).unwrap();
                    assert(self@.streams[key] == s@);
                    w.subscribed = true;
                    effects.push(Effect::Subscribe(key));
                    effects.push(
                        Effect::Reply(
                            RelayToWatch::Resize { cols: s.info.cols, rows: s.info.rows },
                        ),
                    );
                    effects.push(Effect::Reply(RelayToWatch::Output(s.mirror.dump())));
                    effects.push(Effect::Reply(RelayToWatch::Privacy { paused: s.paused }));
                }
            },
            FanOut::Closed => {
                w.subscribed = false;
                effects.push(Effect::Unsubscribe);
            },
        }
        assert(effects_view(effects@) =~= want);
        effects
    }

    /// Lets go of what a watcher had joined when its connection is gone.
    pub fn watch_gone(&mut self, w: &mut Watcher) -> (effects: Vec<Effect>)
        requires
            old(self).wf(),
            holds(old(self)@, old(w)@),
        ensures
            final(self).wf(),
            (Outcome { relay: final(self)@, watcher: final(w)@, effects: effects_view(effects@) })
                == leave_outcome(old(self)@, old(w)@),
    {
        self.detach(w)
    }
}

/// The message in which an event of the fan-out reaches a watcher.
pub fn deliver(b: Bcast) -> (m: RelayToWatch)
    ensures
        m@ == delivered(b@),
{
    match b {
        Bcast::Output(data) => RelayToWatch::Output(data),
        Bcast::Resize { cols, rows } => RelayToWatch::Resize { cols, rows },
        Bcast::Privacy(paused) => RelayToWatch::Privacy { paused },
        Bcast::Viewers(n) => RelayToWatch::Viewers(n),
        Bcast::Chat { from, text, ts } => RelayToWatch::Chat { from, text, ts_unix: ts },
        Bcast::Ended => RelayToWatch::Ended,
        Bcast::Audio(data) => RelayToWatch::Audio(data),
    }
}

/// Forgets the chat times that no longer count at `now`.
fn forget_old(times: &mut VecDeque<u64>, now: u64)
    ensures
        final(times)@ == recent(old(times)@, now),
{
    while times.len() > 0
        invariant
            recent(times@, now) == recent(old(times)@, now),
        ensures
            times@ == recent(old(times)@, now),
        decreases times@.len(),
    {
        let first: u64 = times[0];
        if now < first || now - first < CHAT_WINDOW {
            break;
        }
        let ghost before = times@;
        times.pop_front();
        assert(times@ =~= before.skip(1));
    }
}

/// Judges the first frame of a watcher. One that says hello in the relay's
/// version is let in under its cleaned name.
pub fn watch_opening(frame: Frame<WatchToRelay>) -> (o: Opening<Watcher, RelayToWatch>)
    ensures
        (match o {
            Opening::Hello(w) => Opening::<WatcherV, RelayToWatchV>::Hello(w@),
            Opening::Refuse(m) => Opening::Refuse(m@),
            Opening::Nothing => Opening::Nothing,
        }) == watch_begins(frame),
        match frame {
            Frame::Binary(Some(WatchToRelay::Hello(h))) => if h.version@ == PROTOCOL_VERSION@ {
                o matches Opening::Hello(w) && w@ == new_watcher(h@)
            } else {
                o matches Opening::Refuse(m) && m@ == RelayToWatchV::Error(
                    mismatch_text(", watcher "@, h.version@),
                )
            },
            Frame::Binary(_) => o matches Opening::Refuse(m) && m@ == RelayToWatchV::Error(
                "expected Hello"@,
            ),
            _ => o is Nothing,
        },
{
    match frame {
        Frame::Binary(Some(WatchToRelay::Hello(h))) => {
            if !same_text(h.version.as_str(), PROTOCOL_VERSION) {
                return Opening::Refuse(
                    RelayToWatch::Error(mismatch(", watcher ", h.version.as_str())),
                );
            }
            let name = match &h.name {
                Some(n) => sanitize_name(n.as_str()),
                None => sanitize_name("anon"),
            };
            let w = Watcher {
                name,
                joined: None,
                subscribed: false,
                chat_times: VecDeque::new(),
            };
            assert(w@.chat_times =~= Seq::<u64>::empty());
            Opening::Hello(w)
        },
        Frame::Binary(_) => Opening::Refuse(RelayToWatch::Error("expected Hello".to_string())),
        _ => Opening::Nothing,
    }
}

/// What a watcher's frame brings about.
#[derive(Debug)]
pub struct WatchStep {
    /// What the relay does, in order.
    pub effects: Vec<Effect>,
    /// Whether the connection is over.
    pub done: bool,
}

/// `s` with `x` put in at `p` holds what `s` held, and `x`.
proof fn lemma_inserted(s: Seq<u64>, p: int, x: u64)
    requires
        0 <= p <= s.len(),
        s.no_duplicates(),
        !s.contains(x),
    ensures
        s.insert(p, x).no_duplicates(),
        s.insert(p, x).contains(x),
        forall|y: u64| s.contains(y) ==> #[trigger] s.insert(p, x).contains(y),
{
    let t = s.insert(p, x);
    assert(t[p] == x);
    assert forall|y: u64| s.contains(y) implies #[trigger] t.contains(y) by {
        let j = choose|j: int| 0 <= j < s.len() && s[j] == y;
        assert(t[if j < p { j } else { j + 1 }] == y);
    }
    assert forall|i: int, j: int| 0 <= i < t.len() && 0 <= j < t.len() && i != j implies t[i]
        != t[j] by {
        if i != p && j != p {
            let a = if i < p { i } else { i - 1 };
            let b = if j < p { j } else { j - 1 };
            assert(t[i] == s[a] && t[j] == s[b]);
        } else if i == p {
            let b = if j < p { j } else { j - 1 };
            assert(t[j] == s[b]);
            assert(s.contains(s[b]));
        } else {
            let a = if i < p { i } else { i - 1 };
            assert(t[i] == s[a]);
            assert(s.contains(s[a]));
        }
    }
}

/// A listing stays in order when an entry is put in behind those that come
/// before it and in front of the others.
proof fn lemma_in_order_inserted(l: Seq<InfoV>, p: int, x: InfoV)
    requires
        0 <= p <= l.len(),
        in_listing_order(l),
        forall|j: int| 0 <= j < p ==> listed_before(#[trigger] l[j], x),
        forall|j: int| p <= j < l.len() ==> listed_before(x, #[trigger] l[j]),
    ensures
        in_listing_order(l.insert(p, x)),
{
    let t = l.insert(p, x);
    assert forall|i: int, j: int| 0 <= i < j < t.len() implies listed_before(
        #[trigger] t[i],
        #[trigger] t[j],
    ) by {
        let a = if i < p { i } else { i - 1 };
        let b = if j < p { j } else { j - 1 };
        assert(i != p ==> t[i] == l[a]);
        assert(j != p ==> t[j] == l[b]);
    }
}

/// Where a stream belongs in a listing that is in order.
fn place(l: &Vec<StreamInfo>, x: &StreamInfo) -> (p: usize)
    requires
        in_listing_order(infos_view(l@)),
    ensures
        p <= l@.len(),
        forall|j: int| 0 <= j < p ==> listed_before(#[trigger] infos_view(l@)[j], x@),
        forall|j: int| p <= j < l@.len() ==> listed_before(x@, #[trigger] infos_view(l@)[j]),
{
    let mut p: usize = 0;
    while p < l.len()
        invariant
            p <= l@.len(),
            in_listing_order(infos_view(l@)),
            forall|j: int| 0 <= j < p ==> listed_before(#[trigger] infos_view(l@)[j], x@),
        ensures
            p <= l@.len(),
            forall|j: int| 0 <= j < p ==> listed_before(#[trigger] infos_view(l@)[j], x@),
            p < l@.len() ==> !listed_before(infos_view(l@)[p as int], x@),
        decreases l@.len() - p,
    {
        if !comes_before(&l[p], x) {
            break;
        }
        p += 1;
    }
    proof {
        let v = infos_view(l@);
        assert forall|j: int| p <= j < l@.len() implies listed_before(x@, #[trigger] v[j]) by {
            lemma_text_le_total(v[p as int].name, x@.name);
            assert(listed_before(x@, v[p as int]));
            if p < j && x@.viewers == v[j].viewers {
                assert(listed_before(v[p as int], v[j]));
                lemma_text_le_transitive(x@.name, v[p as int].name, v[j].name);
            } else if p < j {
                assert(listed_before(v[p as int], v[j]));
            }
        }
    }
    p
}

/// The order of the listing.
fn comes_before(a: &StreamInfo, b: &StreamInfo) -> (yes: bool)
    ensures
        yes == listed_before(a@, b@),
{
    a.viewers > b.viewers || (a.viewers == b.viewers && text_before(
        a.name.as_str(),
        b.name.as_str(),
    ))
}

/// Text order.
fn text_before(a: &str, b: &str) -> (yes: bool)
    ensures
        yes == text_le(a@, b@),
{
    let x = chars_of(a);
    let y = chars_of(b);
    let mut i: usize = 0;
    assert(x@.skip(0) =~= x@);
    assert(y@.skip(0) =~= y@);
    while i < x.len() && i < y.len()
        invariant
            i <= x@.len(),
            i <= y@.len(),
            a@ == x@,
            b@ == y@,
            text_le(a@, b@) == text_le(x@.skip(i as int), y@.skip(i as int)),
        decreases x@.len() - i,
    {
        assert(x@.skip(i as int)[0] == x@[i as int]);
        assert(y@.skip(i as int)[0] == y@[i as int]);
        if x[i] != y[i] {
            return x[i] < y[i];
        }
        assert(x@.skip(i as int).skip(1) =~= x@.skip(i + 1));
        assert(y@.skip(i as int).skip(1) =~= y@.skip(i + 1));
        i += 1;
    }
    i == x.len()
}

/// What becomes of a host that said hello.
#[derive(Debug)]
pub enum Admission {
    /// It is sent this message and left.
    Refused(RelayToHost),
    /// Every join code that was drawn is taken; others are to be drawn.
    Taken,
    /// No stream number is left.
    Exhausted,
    /// Its stream has this number, id and join code.
    Accepted { key: u64, id: String, code: String },
}

impl View for Admission {
    type V = AdmissionV;

    open spec fn view(&self) -> AdmissionV {
        match *self {
            Admission::Refused(m) => AdmissionV::Refused(m@),
            Admission::Taken => AdmissionV::Taken,
            Admission::Exhausted => AdmissionV::Exhausted,
            Admission::Accepted { key, id, code } => AdmissionV::Accepted {
                key,
                id: id@,
                code: code@,
            },
        }
    }
}

/// What a host's frame brings about.
#[derive(Debug)]
pub struct HostStep {
    /// What its watchers receive.
    pub fan: Option<Bcast>,
    /// Whether the stream is over.
    pub done: bool,
}

impl HostStep {
    /// Model of what the watchers receive.
    pub open spec fn fan_view(&self) -> Option<BcastV> {
        match self.fan {
            Some(b) => Some(b@),
            None => None,
        }
    }
}

/// How a connection begins.
#[derive(Debug)]
pub enum Opening<H, R> {
    /// With a hello.
    Hello(H),
    /// With another message; this is sent before the connection is closed.
    Refuse(R),
    /// Without a message; it is closed.
    Nothing,
}

/// Whether a frame ends the connection of a host.
pub open spec fn host_done(frame: Frame<HostToRelay>) -> bool {
    match frame {
        Frame::Binary(Some(m)) => m is Bye,
        Frame::Binary(None) | Frame::Other => false,
        Frame::Gone => true,
    }
}

/// Whether a frame ends the connection of a watcher.
pub open spec fn watch_done(frame: Frame<WatchToRelay>) -> bool {
    frame is Gone
}

/// How the connection of a host begins with its first frame.
pub open spec fn host_begins(frame: Frame<HostToRelay>) -> Opening<HostHelloV, RelayToHostV> {
    match frame {
        Frame::Binary(Some(HostToRelay::Hello(h))) => Opening::Hello(h@),
        Frame::Binary(_) => Opening::Refuse(RelayToHostV::Error("expected Hello"@)),
        _ => Opening::Nothing,
    }
}

/// How the connection of a watcher begins with its first frame.
pub open spec fn watch_begins(frame: Frame<WatchToRelay>) -> Opening<WatcherV, RelayToWatchV> {
    match frame {
        Frame::Binary(Some(WatchToRelay::Hello(h))) => if h.version@ == PROTOCOL_VERSION@ {
            Opening::Hello(new_watcher(h@))
        } else {
            Opening::Refuse(RelayToWatchV::Error(mismatch_text(", watcher "@, h.version@)))
        },
        Frame::Binary(_) => Opening::Refuse(RelayToWatchV::Error("expected Hello"@)),
        _ => Opening::Nothing,
    }
}

/// Judges the first frame of a host.
pub fn host_opening(frame: Frame<HostToRelay>) -> (o: Opening<HostHello, RelayToHost>)
    ensures
        (match o {
            Opening::Hello(h) => Opening::<HostHelloV, RelayToHostV>::Hello(h@),
            Opening::Refuse(m) => Opening::Refuse(m@),
            Opening::Nothing => Opening::Nothing,
        }) == host_begins(frame),
        match frame {
            Frame::Binary(Some(HostToRelay::Hello(h))) => o == Opening::<
                HostHello,
                RelayToHost,
            >::Hello(h),
            Frame::Binary(_) => o matches Opening::Refuse(m) && m@ == RelayToHostV::Error(
                "expected Hello"@,
            ),
            _ => o is Nothing,
        },
{
    match frame {
        Frame::Binary(Some(HostToRelay::Hello(h))) => Opening::Hello(h),
        Frame::Binary(_) => Opening::Refuse(RelayToHost::Error("expected Hello".to_string())),
        _ => Opening::Nothing,
    }
}

/// The answer to a host whose stream was taken in.
pub fn welcome(id: &str, code: &str) -> (m: RelayToHost)
    ensures
        m@ == welcomed(id@, code@),
        m@ == (RelayToHostV::Welcome { stream_id: id@, code: code@, viewers: 0 }),
{
    RelayToHost::Welcome { stream_id: id.to_string(), code: code.to_string(), viewers: 0 }
}

/// The complaint about a peer of another version.
fn mismatch(who: &str, version: &str) -> (out: String)
    ensures
        out@ == mismatch_text(who@, version@),
{
    let mut out = "protocol mismatch: relay ".to_string();
    out.append(PROTOCOL_VERSION);
    out.append(who);
    out.append(version);
    out
}

/// A terminal has at least one row and one column.
fn clamp_size(n: u16) -> (out: u16)
    ensures
        out == at_least_one(n),
        out >= 1,
{
    if n < 1 {
        1
    } else {
        n
    }
}

/// The model of what the relay does has one entry for each thing that it does, in
/// order, and each says all that is done.
pub proof fn law_effects_are_modelled_in_full(v: Seq<Effect>, i: int)
    requires
        0 <= i < v.len(),
    ensures
        effects_view(v).len() == v.len(),
        v[i] matches Effect::Reply(m) ==> effects_view(v)[i] == EffectV::Reply(m@),
        v[i] matches Effect::ToHost(key, m) ==> effects_view(v)[i] == EffectV::ToHost(key, m@),
        v[i] matches Effect::Fan(key, b) ==> effects_view(v)[i] == EffectV::Fan(key, b@),
        v[i] matches Effect::Subscribe(key) ==> effects_view(v)[i] == EffectV::Subscribe(key),
        v[i] is Unsubscribe ==> effects_view(v)[i] is Unsubscribe,
{
}

/// The model of what is fanned out says all that is fanned out.
pub proof fn law_events_are_modelled_in_full(b: Bcast, step: HostStep)
    ensures
        b matches Bcast::Output(data) ==> b@ == BcastV::Output(data@),
        b matches Bcast::Audio(data) ==> b@ == BcastV::Audio(data@),
        b matches Bcast::Resize { cols, rows } ==> (b@ matches BcastV::Resize { cols: c, rows: r }
            && c == cols && r == rows),
        b matches Bcast::Privacy(paused) ==> b@ == BcastV::Privacy(paused),
        b matches Bcast::Viewers(n) ==> b@ == BcastV::Viewers(n),
        b matches Bcast::Chat { from, text, ts } ==> (b@ matches BcastV::Chat {
            from: f,
            text: t,
            ts: u,
        } && f == from@ && t == text@ && u == ts),
        b is Ended <==> b@ is Ended,
        step.fan is None ==> step.fan_view() is None,
        step.fan matches Some(x) ==> step.fan_view() == Some(x@),
{
}

} // verus!
