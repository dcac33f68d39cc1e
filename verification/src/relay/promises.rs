//! What the relay owes to hosts and to watchers, message by message.
use crate::emulator::formatted_screen;
use crate::host::verdict;
use crate::link::Incoming;
use crate::protocol::{HostHello, HostHelloV, HostToRelay, HostToRelayV, InfoV, RelayToHost,
    RelayToHostV, RelayToWatchV, WatchHello, WatchHelloV, WatchToRelay, WatchToRelayV};
use crate::relay::conduct::{lemma_recent, passes_chat, within_rate};
use crate::relay::laws::{law_leaving_changes_no_target, law_targets_lead_to_live_streams};
use crate::relay::model::{admission, after_admission, after_host, delivered, fan_fits, fan_outcome,
    fanned_out, farewell, free_from, holds, in_listing_order, join_fits, leave_outcome, left, listable, listed_before,
    lists, new_watcher, no_streams, public_listing, recent, relay_valid, resolved, stream_after, text_le,
    watch_outcome, welcomed, without_host, AdmissionV, BcastV, EffectV, FanOutV, Outcome, RelayV, StreamV,
    WatcherV};
use crate::relay::registry::{host_begins, host_done, watch_begins, watch_done, Frame, Opening};
use crate::relay::sanitize::{clean_chat, clean_name, law_chat_dropped_when_blank,
    law_tidy_names_stay};
use crate::text::{control, white};
use vstd::prelude::*;

verus! {

// --------------------------------------------------------------- connections

/// A connection ends when it is closed or broken, and that of a host also with
/// its goodbye. A frame that makes no sense ends neither.
pub proof fn law_connections_end_for_a_reason(h: Frame<HostToRelay>, w: Frame<WatchToRelay>)
    ensures
        host_done(h) <==> h is Gone || (h matches Frame::Binary(Some(HostToRelay::Bye))),
        watch_done(w) <==> w is Gone,
{
}

/// A host is heard exactly where its first message is a hello, and as it says
/// it; any other message, or one that makes no sense, is refused, and without a
/// message the connection is just closed.
pub proof fn law_hosts_say_hello_first(frame: Frame<HostToRelay>, hello: HostHello)
    ensures
        host_begins(Frame::Binary(Some(HostToRelay::Hello(hello)))) == Opening::<
            HostHelloV,
            RelayToHostV,
        >::Hello(hello@),
        host_begins(frame) is Hello <==> (frame matches Frame::Binary(
            Some(HostToRelay::Hello(_)),
        )),
        host_begins(frame) is Nothing <==> !(frame is Binary),
        host_begins(frame) matches Opening::Refuse(m) ==> m == RelayToHostV::Error(
            "expected Hello"@,
        ),
{
}

/// A watcher is let in exactly where its first message is a hello in the relay's
/// version. One of another version is told both versions.
pub proof fn law_watchers_say_hello_first(frame: Frame<WatchToRelay>, hello: WatchHello)
    ensures
        watch_begins(frame) is Hello <==> (frame matches Frame::Binary(Some(WatchToRelay::Hello(h)))
            && h.version@ == "0.2"@),
        watch_begins(frame) is Nothing <==> !(frame is Binary),
        frame is Binary && !(frame matches Frame::Binary(Some(WatchToRelay::Hello(_))))
            ==> watch_begins(frame) == Opening::<WatcherV, RelayToWatchV>::Refuse(
            RelayToWatchV::Error("expected Hello"@),
        ),
        ({
            let o = watch_begins(Frame::Binary(Some(WatchToRelay::Hello(hello))));
            &&& hello.version@ == "0.2"@ ==> (o matches Opening::Hello(w) && w.joined is None
                && !w.subscribed && w.chat_times.len() == 0 && w.name == clean_name(
                match hello@.name {
                    Some(n) => n,
                    None => "anon"@,
                },
            ))
            &&& hello.version@ != "0.2"@ ==> o == Opening::<WatcherV, RelayToWatchV>::Refuse(
                RelayToWatchV::Error(
                    "protocol mismatch: relay "@ + "0.2"@ + ", watcher "@ + hello.version@,
                ),
            )
        }),
{
}

// ------------------------------------------------------------------ receiving

/// Whoever receives an event of the fan-out is sent exactly one message, and it
/// says what the event says: the same output, the same voice, the same size,
/// the same pause, the same count, the same chat message. Only the end of the
/// stream is more than that.
pub proof fn law_events_reach_the_watcher(r: RelayV, w: WatcherV, b: BcastV)
    requires
        !(b is Ended),
    ensures
        ({
            let out = fan_outcome(r, w, FanOutV::Event(b));
            &&& out.relay == r
            &&& out.watcher == w
            &&& out.effects.len() == 1
            &&& out.effects[0] is Reply
            &&& b matches BcastV::Output(data) ==> out.effects[0] == EffectV::Reply(
                RelayToWatchV::Output(data),
            )
            &&& b matches BcastV::Audio(data) ==> out.effects[0] == EffectV::Reply(
                RelayToWatchV::Audio(data),
            )
            &&& b matches BcastV::Resize { cols, rows } ==> out.effects[0] == EffectV::Reply(
                RelayToWatchV::Resize { cols, rows },
            )
            &&& b matches BcastV::Privacy(paused) ==> out.effects[0] == EffectV::Reply(
                RelayToWatchV::Privacy { paused },
            )
            &&& b matches BcastV::Viewers(n) ==> out.effects[0] == EffectV::Reply(
                RelayToWatchV::Viewers(n),
            )
            &&& b matches BcastV::Chat { from, text, ts } ==> out.effects[0] == EffectV::Reply(
                RelayToWatchV::Chat { from, text, ts_unix: ts },
            )
        }),
{
}

/// The message that stands for an event is the one that its receiver is sent.
pub proof fn law_events_become_messages(r: RelayV, w: WatcherV, b: BcastV)
    ensures
        fan_outcome(r, w, FanOutV::Event(b)).effects[0] == EffectV::Reply(delivered(b)),
{
}

/// Whoever receives the end of a stream is told so, stops receiving and no longer
/// holds the stream; nobody else is affected. The last to let go takes the
/// stream along.
pub proof fn law_the_end_reaches_the_watcher(r: RelayV, w: WatcherV, other: u64)
    requires
        holds(r, w),
        w.joined matches Some(key) ==> r.streams[key].ended,
    ensures
        ({
            let out = fan_outcome(r, w, FanOutV::Event(BcastV::Ended));
            &&& out.effects == seq![EffectV::Reply(RelayToWatchV::Ended), EffectV::Unsubscribe]
            &&& out.watcher.joined is None
            &&& !out.watcher.subscribed
            &&& out.watcher.name == w.name
            &&& out.watcher.chat_times == w.chat_times
            &&& out.relay.directory == r.directory
            &&& out.relay.codes == r.codes
            &&& w.joined != Some(other) ==> {
                &&& out.relay.streams.dom().contains(other) == r.streams.dom().contains(other)
                &&& out.relay.streams[other] == r.streams[other]
            }
            &&& w.joined == Some(other) ==> {
                &&& out.relay.streams.dom().contains(other) <==> r.streams[other].members > 1
                &&& r.streams[other].members > 1 ==> out.relay.streams[other] == (StreamV {
                    members: out.relay.streams[other].members,
                    ..r.streams[other]
                })
                &&& r.streams[other].members > 1 ==> out.relay.streams[other].members + 1
                    == r.streams[other].members
            }
        }),
{
}

/// A watcher that lost events receives again before it is told anything, and is
/// then told the size of the stream, its screen and whether it is paused, in this
/// order. One that watches nothing is told nothing.
pub proof fn law_losses_are_made_up_for(r: RelayV, w: WatcherV)
    ensures
        ({
            let out = fan_outcome(r, w, FanOutV::Lagged);
            &&& out.relay == r
            &&& out.watcher.joined == w.joined
            &&& out.watcher.name == w.name
            &&& out.watcher.chat_times == w.chat_times
            &&& w.joined is None ==> out.effects == Seq::<EffectV>::empty() && out.watcher == w
            &&& w.joined matches Some(key) ==> {
                let s = r.streams[key];
                &&& out.watcher.subscribed
                &&& out.effects.len() == 4
                &&& out.effects[0] == EffectV::Subscribe(key)
                &&& out.effects[1] == EffectV::Reply(
                    RelayToWatchV::Resize { cols: s.info.cols, rows: s.info.rows },
                )
                &&& out.effects[2] == EffectV::Reply(RelayToWatchV::Output(formatted_screen(s.fed)))
                &&& out.effects[3] == EffectV::Reply(RelayToWatchV::Privacy { paused: s.paused })
            }
        }),
        ({
            let out = fan_outcome(r, w, FanOutV::Closed);
            &&& out.relay == r
            &&& out.watcher == (WatcherV { subscribed: false, ..w })
            &&& out.effects == seq![EffectV::Unsubscribe]
        }),
{
}

// ----------------------------------------------------------------------- chat

/// Whether fewer than five of the messages that were passed on at these times lie
/// within the ten seconds before `now`.
pub open spec fn fewer_than_five_lately(sent: Seq<u64>, now: u64) -> bool {
    sent.len() < 5 || sent[sent.len() - 5] + 10 <= now
}

/// A chat message is passed on, under the watcher's name and with the time,
/// exactly where the watcher has joined a stream whose host accepts chat, the
/// text holds anything but white space and control characters, and fewer than
/// five of the connection's messages were passed on within the last ten seconds.
/// Where the host does not accept chat, the watcher is told so. Nothing else is
/// ever done about it.
#[verifier::spinoff_prover]
pub proof fn law_chat_is_passed_on(
    r: RelayV,
    w: WatcherV,
    text: Seq<char>,
    now: u64,
    out: Outcome,
    sent: Seq<u64>,
    clock: u64,
)
    requires
        watch_outcome(r, w, WatchToRelayV::Chat { text }, now, out),
        within_rate(sent, w.chat_times, clock),
        clock <= now,
    ensures
        out.relay == r,
        out.watcher == (WatcherV { chat_times: out.watcher.chat_times, ..w }),
        ({
            let says = exists|i: int|
                0 <= i < text.len() && !white(#[trigger] text[i]) && !control(text[i]);
            match w.joined {
                None => out.effects == Seq::<EffectV>::empty(),
                Some(key) => if !r.streams[key].chat {
                    out.effects == seq![
                        EffectV::Reply(RelayToWatchV::Error("chat is disabled for this stream"@)),
                    ]
                } else if says && fewer_than_five_lately(sent, now) {
                    out.effects == seq![
                        EffectV::Fan(
                            key,
                            BcastV::Chat { from: w.name, text: clean_chat(text), ts: now },
                        ),
                    ]
                } else {
                    out.effects == Seq::<EffectV>::empty()
                },
            }
        }),
{
    law_chat_dropped_when_blank(text);
    let times = w.chat_times;
    let base = sent.len() - times.len();
    assert forall|i: int, j: int| 0 <= i <= j < times.len() implies #[trigger] times[i]
        <= #[trigger] times[j] by {
        assert(times[i] == sent[base + i] && times[j] == sent[base + j]);
    }
    let n = lemma_recent(times, now);
    let left = recent(times, now);
    if sent.len() >= 5 {
        let k = sent.len() - 5;
        if times.len() < 5 {
            assert(sent[k] + 10 <= clock);
        } else {
            assert(times[0] == sent[k]);
            if n > 0 {
                assert(times[0] + 10 <= now);
            }
        }
    }
    if clean_chat(text).len() > 0 {
        let i = choose|i: int|
            0 <= i < text.len() && !(white(#[trigger] text[i]) || control(text[i]));
        assert(!white(text[i]) && !control(text[i]));
    }
}

// ---------------------------------------------------------------------- hosts

/// A host is taken in exactly where it speaks the relay's version, presents the
/// relay's key if there is one, the relay has fewer than 512 streams and one of
/// the drawn join codes is free; and each refusal says which of these fails
/// first.
#[verifier::spinoff_prover]
pub proof fn law_hosts_are_taken_in(
    r: RelayV,
    hello: HostHelloV,
    id: Seq<char>,
    drawn: Seq<Seq<char>>,
)
    requires
        r.next < u64::MAX,
    ensures
        ({
            let a = admission(r, hello, id, drawn);
            let speaks = hello.version == "0.2"@;
            let presented = match hello.auth_key {
                Some(key) => key,
                None => Seq::<char>::empty(),
            };
            let allowed = r.auth_key is None || r.auth_key == Some(presented);
            let fits = r.directory.len() < 512;
            let free = exists|i: int|
                0 <= i < drawn.len() && !r.codes.dom().contains(#[trigger] drawn[i]);
            &&& a is Accepted <==> speaks && allowed && fits && free
            &&& a is Taken <==> speaks && allowed && fits && !free
            &&& !speaks ==> a == AdmissionV::Refused(
                RelayToHostV::Error("protocol mismatch: relay "@ + "0.2"@ + ", host "@ + hello.version),
            )
            &&& speaks && !allowed ==> a == AdmissionV::Refused(
                RelayToHostV::Error("invalid auth key"@),
            )
            &&& speaks && allowed && !fits ==> a == AdmissionV::Refused(
                RelayToHostV::Error("relay at capacity"@),
            )
            &&& a matches AdmissionV::Accepted { key, id: given, code } ==> {
                &&& key == r.next
                &&& given == id
                &&& exists|i: int| #[trigger]
                    first_that_is_free(r, drawn, i) && drawn[i] == code
            }
        }),
{
    lemma_first_free(r, drawn, 0);
    if let Some(i) = free_from(r, drawn, 0) {
        assert(first_that_is_free(r, drawn, i));
    }
}

/// Code number `i` is the first that no stream has.
pub open spec fn first_that_is_free(r: RelayV, drawn: Seq<Seq<char>>, i: int) -> bool {
    &&& 0 <= i < drawn.len()
    &&& !r.codes.dom().contains(drawn[i])
    &&& forall|j: int| 0 <= j < i ==> r.codes.dom().contains(#[trigger] drawn[j])
}

proof fn lemma_first_free(r: RelayV, drawn: Seq<Seq<char>>, from: int)
    requires
        0 <= from <= drawn.len(),
    ensures
        match free_from(r, drawn, from) {
            Some(i) => {
                &&& from <= i < drawn.len()
                &&& !r.codes.dom().contains(drawn[i])
                &&& forall|j: int| from <= j < i ==> r.codes.dom().contains(#[trigger] drawn[j])
            },
            None => forall|i: int|
                from <= i < drawn.len() ==> r.codes.dom().contains(#[trigger] drawn[i]),
        },
    decreases drawn.len() - from,
{
    if from < drawn.len() {
        lemma_first_free(r, drawn, from + 1);
    }
}

/// A host that is taken in gets a stream of its own, which is what the host said
/// it is, live and unwatched; it is found under its id and its join code. All
/// other streams, ids and codes stay as they are.
pub proof fn law_new_streams_are_as_announced(
    r: RelayV,
    hello: HostHelloV,
    id: Seq<char>,
    drawn: Seq<Seq<char>>,
    now: u64,
    other: u64,
    text: Seq<char>,
)
    ensures
        ({
            let a = admission(r, hello, id, drawn);
            let after = after_admission(r, hello, a, now);
            &&& !(a is Accepted) ==> after == r
            &&& a matches AdmissionV::Accepted { key, id: given, code } ==> {
                let s = after.streams[key];
                &&& after.streams.dom() == r.streams.dom().insert(key)
                &&& s.info.stream_id == id
                &&& s.info.name == hello.name
                &&& s.info.shell == hello.shell
                &&& s.info.public == hello.public
                &&& s.info.viewers == 0
                &&& s.info.started_unix == now
                &&& s.info.cols >= 1 && s.info.rows >= 1
                &&& hello.cols >= 1 ==> s.info.cols == hello.cols
                &&& hello.rows >= 1 ==> s.info.rows == hello.rows
                &&& hello.cols == 0 ==> s.info.cols == 1
                &&& hello.rows == 0 ==> s.info.rows == 1
                &&& s.chat == hello.chat
                &&& !s.paused
                &&& !s.ended
                &&& s.members == 0
                &&& other != key ==> after.streams[other] == r.streams[other]
                &&& after.directory.dom() == r.directory.dom().insert(id)
                &&& after.directory[id] == key
                &&& text != id ==> after.directory[text] == r.directory[text]
                &&& after.codes.dom() == r.codes.dom().insert(code)
                &&& after.codes[code] == id
                &&& text != code ==> after.codes[text] == r.codes[text]
                &&& after.auth_key == r.auth_key
                &&& after.next == key + 1
            }
        }),
{
    let a = admission(r, hello, id, drawn);
    if let AdmissionV::Accepted { key, id: given, code } = a {
        let after = after_admission(r, hello, a, now);
        assert(after.streams.dom() =~= r.streams.dom().insert(key));
        assert(after.directory.dom() =~= r.directory.dom().insert(id));
        assert(after.codes.dom() =~= r.codes.dom().insert(code));
    }
}

/// A new size reaches the watchers and the listing alike, at least one column and
/// one row; whether the stream is paused makes no difference, and nothing else
/// changes.
pub proof fn law_sizes_reach_the_watchers(s: StreamV, cols: u16, rows: u16)
    ensures
        ({
            let m = HostToRelayV::Resize { cols, rows };
            let t = stream_after(s, m);
            &&& fanned_out(s, m) == Some(BcastV::Resize { cols: t.info.cols, rows: t.info.rows })
            &&& cols >= 1 ==> t.info.cols == cols
            &&& rows >= 1 ==> t.info.rows == rows
            &&& cols == 0 ==> t.info.cols == 1
            &&& rows == 0 ==> t.info.rows == 1
            &&& t.info == (InfoV { cols: t.info.cols, rows: t.info.rows, ..s.info })
            &&& t.paused == s.paused
            &&& t.chat == s.chat
            &&& t.ended == s.ended
            &&& t.members == s.members
        }),
{
}

/// A pause and its end reach the watchers and whoever joins later, and change
/// nothing else. Voice reaches the watchers as it is, paused or not, and changes
/// nothing at all. No other message of a host reaches a watcher.
pub proof fn law_pauses_and_voice_reach_the_watchers(s: StreamV, m: HostToRelayV)
    ensures
        m matches HostToRelayV::Privacy { paused } ==> {
            &&& fanned_out(s, m) == Some(BcastV::Privacy(paused))
            &&& stream_after(s, m) == (StreamV { paused, ..s })
        },
        m matches HostToRelayV::Audio(data) ==> {
            &&& fanned_out(s, m) == Some(BcastV::Audio(data))
            &&& stream_after(s, m) == s
        },
        m is Hello || m is Bye || m is Pong ==> {
            &&& fanned_out(s, m) is None
            &&& stream_after(s, m) == s
        },
        m is Output ==> stream_after(s, m) == (StreamV { fed: stream_after(s, m).fed, ..s }),
{
}

/// A host's messages touch no stream but its own.
pub proof fn law_hosts_touch_only_their_stream(r: RelayV, key: u64, m: HostToRelayV, other: u64)
    requires
        r.streams.dom().contains(key),
    ensures
        ({
            let after = after_host(r, key, m);
            &&& after.streams.dom() == r.streams.dom()
            &&& after.streams[key] == stream_after(r.streams[key], m)
            &&& other != key ==> after.streams[other] == r.streams[other]
            &&& after.directory == r.directory
            &&& after.codes == r.codes
            &&& after.auth_key == r.auth_key
            &&& after.next == r.next
        }),
{
    assert(after_host(r, key, m).streams.dom() =~= r.streams.dom());
}

/// When a host is gone, the id and the join code of its stream are gone too, and
/// no others. The stream stays, ended and otherwise as it is, exactly as long as
/// someone holds it.
pub proof fn law_departed_hosts_leave_nothing_behind(
    r: RelayV,
    key: u64,
    code: Seq<char>,
    other: u64,
    text: Seq<char>,
)
    requires
        r.streams.dom().contains(key),
    ensures
        ({
            let after = without_host(r, key, code);
            let s = r.streams[key];
            &&& !after.directory.dom().contains(s.info.stream_id)
            &&& !after.codes.dom().contains(code)
            &&& text != s.info.stream_id ==> {
                &&& after.directory.dom().contains(text) == r.directory.dom().contains(text)
                &&& after.directory[text] == r.directory[text]
            }
            &&& text != code ==> {
                &&& after.codes.dom().contains(text) == r.codes.dom().contains(text)
                &&& after.codes[text] == r.codes[text]
            }
            &&& after.streams.dom().contains(key) <==> s.members > 0
            &&& s.members > 0 ==> after.streams[key] == (StreamV { ended: true, ..s })
            &&& other != key ==> {
                &&& after.streams.dom().contains(other) == r.streams.dom().contains(other)
                &&& after.streams[other] == r.streams[other]
            }
            &&& after.auth_key == r.auth_key
            &&& after.next == r.next
        }),
{
}

// ------------------------------------------------------------------ directory

/// A join code leads to the stream whose id it stands for.
pub proof fn law_codes_lead_to_their_stream(r: RelayV, code: Seq<char>)
    requires
        r.codes.dom().contains(code),
        r.directory.dom().contains(r.codes[code]),
    ensures
        resolved(r, code) == Some(r.directory[r.codes[code]]),
{
}

/// The id of a public stream leads to it, unless a join code of a live stream
/// reads the same.
pub proof fn law_public_ids_lead_to_their_stream(r: RelayV, id: Seq<char>)
    requires
        r.directory.dom().contains(id),
        r.streams[r.directory[id]].info.public,
        !r.codes.dom().contains(id) || !r.directory.dom().contains(r.codes[id]),
    ensures
        resolved(r, id) == Some(r.directory[id]),
{
}

/// Whatever is neither a join code of a live stream nor the id of a public one
/// leads nowhere.
pub proof fn law_nothing_else_leads_anywhere(r: RelayV, target: Seq<char>)
    requires
        !r.codes.dom().contains(target) || !r.directory.dom().contains(r.codes[target]),
        !r.directory.dom().contains(target) || !r.streams[r.directory[target]].info.public,
    ensures
        resolved(r, target) is None,
{
}

/// Whether text `a` stands behind text `b`: at the first place where they differ
/// it has the greater character, or it goes on where `b` is over.
pub open spec fn behind(a: Seq<char>, b: Seq<char>) -> bool {
    exists|k: int| #[trigger] parts_at(a, b, k) && k < a.len() && (k == b.len() || a[k] > b[k])
}

/// The texts agree up to place `k`, and not at it.
pub open spec fn parts_at(a: Seq<char>, b: Seq<char>, k: int) -> bool {
    &&& 0 <= k <= a.len()
    &&& k <= b.len()
    &&& forall|i: int| 0 <= i < k ==> #[trigger] a[i] == b[i]
    &&& k < a.len() && k < b.len() ==> a[k] != b[k]
}

/// Text order is the order of dictionaries.
#[verifier::spinoff_prover]
pub proof fn law_text_order_is_that_of_dictionaries(a: Seq<char>, b: Seq<char>)
    ensures
        text_le(a, b) <==> !behind(a, b),
    decreases a.len(),
{
    if a.len() == 0 {
        assert(text_le(a, b));
    } else if b.len() == 0 || a[0] != b[0] {
        assert(parts_at(a, b, 0));
        if behind(a, b) {
            let k = choose|k: int| #[trigger]
                parts_at(a, b, k) && k < a.len() && (k == b.len() || a[k] > b[k]);
            if k > 0 {
                assert(a[0] == b[0]);
            }
        }
    } else {
        let x = a.skip(1);
        let y = b.skip(1);
        law_text_order_is_that_of_dictionaries(x, y);
        if behind(x, y) {
            let k = choose|k: int| #[trigger]
                parts_at(x, y, k) && k < x.len() && (k == y.len() || x[k] > y[k]);
            assert forall|i: int| 0 <= i < k + 1 implies #[trigger] a[i] == b[i] by {
                if i > 0 {
                    assert(x[i - 1] == y[i - 1]);
                }
            }
            assert(parts_at(a, b, k + 1));
        }
        if behind(a, b) {
            let k = choose|k: int| #[trigger]
                parts_at(a, b, k) && k < a.len() && (k == b.len() || a[k] > b[k]);
            assert(k > 0);
            assert forall|i: int| 0 <= i < k - 1 implies #[trigger] x[i] == y[i] by {
                assert(a[i + 1] == b[i + 1]);
            }
            assert(parts_at(x, y, k - 1));
        }
    }
}

/// In every listing, streams with more viewers come first; among streams with the
/// same number, none comes before one whose name stands in front of its own.
pub proof fn law_listings_are_in_order(r: RelayV, l: Seq<InfoV>, i: int, j: int)
    requires
        public_listing(r, l),
        0 <= i < j < l.len(),
    ensures
        l[i].viewers >= l[j].viewers,
        l[i].viewers == l[j].viewers ==> !behind(l[i].name, l[j].name),
{
    let keys = choose|keys: Seq<u64>| lists(r, l, keys);
    assert(in_listing_order(l));
    assert(listed_before(l[i], l[j]));
    law_text_order_is_that_of_dictionaries(l[i].name, l[j].name);
}

/// A listing holds every public stream whose host is there, just as it is, and
/// nothing else, and no stream twice.
pub proof fn law_listings_are_complete(r: RelayV, l: Seq<InfoV>, id: Seq<char>, i: int, j: int)
    requires
        relay_valid(r),
        public_listing(r, l),
    ensures
        r.directory.dom().contains(id) && r.streams[r.directory[id]].info.public ==> l.contains(
            r.streams[r.directory[id]].info,
        ),
        0 <= i < l.len() ==> {
            &&& r.directory.dom().contains(l[i].stream_id)
            &&& l[i] == r.streams[r.directory[l[i].stream_id]].info
            &&& l[i].public
        },
        0 <= i < j < l.len() ==> l[i].stream_id != l[j].stream_id,
{
    let keys = choose|keys: Seq<u64>| lists(r, l, keys);
    if r.directory.dom().contains(id) && r.streams[r.directory[id]].info.public {
        let key = r.directory[id];
        assert(r.directory.contains_value(key));
        assert(listable(r, key));
        assert(keys.contains(key));
        let n = choose|n: int| 0 <= n < keys.len() && keys[n] == key;
        assert(l[n] == r.streams[key].info);
    }
    if 0 <= i < l.len() {
        lemma_entry(r, l, keys, i);
    }
    if 0 <= i < j < l.len() {
        lemma_entry(r, l, keys, j);
    }
}

proof fn lemma_entry(r: RelayV, l: Seq<InfoV>, keys: Seq<u64>, i: int)
    requires
        relay_valid(r),
        lists(r, l, keys),
        0 <= i < l.len(),
    ensures
        r.directory.dom().contains(l[i].stream_id),
        r.directory[l[i].stream_id] == keys[i],
        l[i] == r.streams[keys[i]].info,
        l[i].public,
{
    assert(l[i] == r.streams[keys[i]].info);
    assert(listable(r, keys[i]));
    let id = choose|id: Seq<char>| #[trigger]
        r.directory.dom().contains(id) && r.directory[id] == keys[i];
    assert(r.directory.dom().contains(id));
}

/// Whoever asks for the listing is sent one, and nothing else happens.
pub proof fn law_listings_are_sent(r: RelayV, w: WatcherV, now: u64, out: Outcome)
    requires
        watch_outcome(r, w, WatchToRelayV::List, now, out),
    ensures
        out.relay == r,
        out.watcher == w,
        out.effects.len() == 1,
        exists|l: Seq<InfoV>|
            out.effects[0] == EffectV::Reply(RelayToWatchV::Streams(l)) && #[trigger] public_listing(
                r,
                l,
            ),
{
}

/// A pong or a second hello of a watcher does nothing.
pub proof fn law_pongs_do_nothing(r: RelayV, w: WatcherV, m: WatchToRelayV, now: u64, out: Outcome)
    requires
        m is Pong || m is Hello,
        watch_outcome(r, w, m, now, out),
    ensures
        out.relay == r,
        out.watcher == w,
        out.effects == Seq::<EffectV>::empty(),
{
}

// ------------------------------------------------------------ joining, leaving

/// A new connection watches nothing and has said nothing; it goes by the name it
/// gave, cleaned, or by "anon" where it gave none.
pub proof fn law_newcomers_watch_nothing(hello: WatchHelloV)
    ensures
        new_watcher(hello).joined is None,
        !new_watcher(hello).subscribed,
        new_watcher(hello).chat_times == Seq::<u64>::empty(),
        hello.name matches Some(n) ==> new_watcher(hello).name == clean_name(n),
        hello.name is None ==> new_watcher(hello).name == "anon"@,
{
    reveal_strlit("anon");
    law_tidy_names_stay("anon"@);
}

/// Who leaves a stream is no longer counted: the host and those who remain are
/// told the new count, one less, and the connection stops receiving. No other
/// stream is affected. Who watches nothing leaves nothing.
pub proof fn law_leaving_is_told(
    r: RelayV,
    w: WatcherV,
    now: u64,
    out: Outcome,
    key: u64,
    other: u64,
)
    requires
        relay_valid(r),
        holds(r, w),
        watch_outcome(r, w, WatchToRelayV::Leave, now, out) || out == leave_outcome(r, w),
    ensures
        w.joined is None ==> {
            &&& out.relay == r
            &&& out.watcher == w
            &&& out.effects == Seq::<EffectV>::empty()
        },
        w.joined == Some(key) ==> {
            let n = r.streams[key].info.viewers;
            let m = if n == 0 {
                0
            } else {
                n - 1
            };
            &&& out.watcher.joined is None
            &&& !out.watcher.subscribed
            &&& out.watcher.name == w.name
            &&& out.watcher.chat_times == w.chat_times
            &&& out.effects == seq![
                EffectV::ToHost(key, RelayToHostV::Viewers(m as u32)),
                EffectV::Fan(key, BcastV::Viewers(m as u32)),
                EffectV::Unsubscribe,
            ]
            &&& !r.streams[key].ended ==> {
                &&& n > 0
                &&& out.relay.streams.dom().contains(key)
                &&& out.relay.streams[key].info == (InfoV {
                    viewers: m as u32,
                    ..r.streams[key].info
                })
                &&& out.relay.streams[key].members + 1 == r.streams[key].members
            }
            &&& r.streams[key].ended ==> (out.relay.streams.dom().contains(key)
                <==> r.streams[key].members > 1)
            &&& other != key ==> {
                &&& out.relay.streams.dom().contains(other) == r.streams.dom().contains(other)
                &&& out.relay.streams[other] == r.streams[other]
            }
        },
{
    if w.joined == Some(key) {
        let n = r.streams[key].info.viewers;
        let m = if n == 0 {
            0
        } else {
            n - 1
        };
        assert(out.effects =~= seq![
            EffectV::ToHost(key, RelayToHostV::Viewers(m as u32)),
            EffectV::Fan(key, BcastV::Viewers(m as u32)),
            EffectV::Unsubscribe,
        ]);
    }
}

/// Who joins a stream that it did not watch is counted: first it receives what
/// follows, then host and watchers are told the new count, one more, and the
/// newcomer is sent what the listing says of the stream, with that count, and its
/// screen; where the stream is paused, it is told that last.
pub proof fn law_joining_is_told(
    r: RelayV,
    w: WatcherV,
    target: Seq<char>,
    now: u64,
    out: Outcome,
    key: u64,
    other: u64,
)
    requires
        relay_valid(r),
        w.joined is None,
        resolved(r, target) == Some(key),
        join_fits(r, w, target),
        watch_outcome(r, w, WatchToRelayV::Join { target }, now, out),
    ensures
        ({
            let s = r.streams[key];
            let n = (s.info.viewers + 1) as u32;
            &&& out.watcher == (WatcherV { joined: Some(key), subscribed: true, ..w })
            &&& out.relay.streams.dom().contains(key)
            &&& out.relay.streams[key].info == (InfoV { viewers: n, ..s.info })
            &&& out.relay.streams[key].info.viewers == s.info.viewers + 1
            &&& out.relay.streams[key].members == s.members + 1
            &&& other != key ==> {
                &&& out.relay.streams.dom().contains(other) == r.streams.dom().contains(other)
                &&& out.relay.streams[other] == r.streams[other]
            }
            &&& out.effects.len() == if s.paused {
                5int
            } else {
                4
            }
            &&& out.effects[0] == EffectV::Subscribe(key)
            &&& out.effects[1] == EffectV::ToHost(key, RelayToHostV::Viewers(n))
            &&& out.effects[2] == EffectV::Fan(key, BcastV::Viewers(n))
            &&& out.effects[3] == EffectV::Reply(
                RelayToWatchV::Joined {
                    info: out.relay.streams[key].info,
                    snapshot: formatted_screen(s.fed),
                },
            )
            &&& s.paused ==> out.effects[4] == EffectV::Reply(
                RelayToWatchV::Privacy { paused: true },
            )
        }),
{
    law_targets_lead_to_live_streams(r, target);
    assert(r.streams.insert(key, r.streams[key]) =~= r.streams);
}

/// A target that leads nowhere joins nothing: the watcher is told so, by name of
/// the target.
pub proof fn law_dead_targets_are_reported(
    r: RelayV,
    w: WatcherV,
    target: Seq<char>,
    now: u64,
    out: Outcome,
)
    requires
        w.joined is None,
        resolved(r, target) is None,
        watch_outcome(r, w, WatchToRelayV::Join { target }, now, out),
    ensures
        out.relay == r,
        out.watcher == w,
        out.effects == seq![
            EffectV::Reply(RelayToWatchV::Error("no live stream for '"@ + target + "'"@)),
        ],
{
}

/// To join while watching is to leave first and then to join: the same is told
/// to everyone, in that order, and the relay ends up the same. So no connection
/// ever counts twice.
pub proof fn law_switching_is_leaving_and_joining(
    r: RelayV,
    w: WatcherV,
    target: Seq<char>,
    now: u64,
    gone: Outcome,
    out: Outcome,
    switched: Outcome,
)
    requires
        relay_valid(r),
        holds(r, w),
        watch_outcome(r, w, WatchToRelayV::Leave, now, gone),
        watch_outcome(gone.relay, gone.watcher, WatchToRelayV::Join { target }, now, out),
        watch_outcome(r, w, WatchToRelayV::Join { target }, now, switched),
    ensures
        switched.relay == out.relay,
        switched.watcher == out.watcher,
        switched.effects == gone.effects + out.effects,
        resolved(gone.relay, target) == resolved(r, target),
{
    law_leaving_changes_no_target(r, w, target);
    assert(left(gone.relay, gone.watcher) == gone.relay);
    assert(Seq::<EffectV>::empty() + out.effects =~= out.effects);
    assert(switched.effects =~= gone.effects + out.effects);
}

// ------------------------------------------------------- beginnings and limits

/// A relay begins without streams, ids and codes, and asks for the key that its
/// operator set, and for none where none was set.
pub proof fn law_relays_begin_empty(auth_key: Option<Seq<char>>, target: Seq<char>, l: Seq<InfoV>)
    ensures
        ({
            let r = no_streams(auth_key);
            &&& relay_valid(r)
            &&& r.auth_key == auth_key
            &&& r.streams.len() == 0
            &&& r.directory.len() == 0
            &&& resolved(r, target) is None
            &&& public_listing(r, l) ==> l.len() == 0
        }),
{
    let r = no_streams(auth_key);
    if public_listing(r, l) && l.len() > 0 {
        law_listings_are_complete(r, l, target, 0, 0);
    }
}

/// The welcome that the relay sends admits the host to the stream that was
/// opened for it: under that id and with that join code.
pub proof fn law_welcomes_admit(m: RelayToHost, id: Seq<char>, code: Seq<char>)
    requires
        m@ == welcomed(id, code),
    ensures
        verdict(Incoming::Binary(Some(m))) == Ok::<(Seq<char>, Seq<char>), Seq<char>>((id, code)),
        m@ matches RelayToHostV::Welcome { stream_id, code: _, viewers } && viewers == 0,
{
}

/// When its host is gone, all who watch the stream, and only they, are told that
/// it ended.
pub proof fn law_farewells_end_the_stream(r: RelayV, w: WatcherV, key: u64)
    ensures
        farewell(key) == EffectV::Fan(key, BcastV::Ended),
        fan_outcome(r, w, FanOutV::Event(BcastV::Ended)).effects.contains(
            EffectV::Reply(RelayToWatchV::Ended),
        ),
{
    let effects = fan_outcome(r, w, FanOutV::Event(BcastV::Ended)).effects;
    assert(effects[0] == EffectV::Reply(RelayToWatchV::Ended));
}

/// A stream can be joined as long as there is a number for one viewer more, and
/// a target that leads nowhere can always be asked for.
pub proof fn law_joining_is_limited_by_the_count_alone(r: RelayV, w: WatcherV, target: Seq<char>)
    requires
        relay_valid(r),
        holds(r, w),
    ensures
        resolved(r, target) is None ==> join_fits(r, w, target),
        resolved(r, target) matches Some(key) ==> {
            &&& w.joined != Some(key) ==> (join_fits(r, w, target) <==> r.streams[key].info.viewers
                < u32::MAX)
            &&& w.joined == Some(key) ==> join_fits(r, w, target)
        },
{
    law_leaving_changes_no_target(r, w, target);
    law_targets_lead_to_live_streams(r, target);
    if let Some(key) = w.joined {
        assert(r.streams.dom().contains(key));
    }
}

/// A watcher is in order as long as the stream that it joined is there and counts
/// it; one that joined nothing always is. The end of a stream may reach it only
/// once the stream has ended, anything else at any time.
pub proof fn law_watchers_are_in_order(r: RelayV, w: WatcherV, f: FanOutV)
    ensures
        w.joined is None ==> holds(r, w) && fan_fits(r, w, f),
        w.joined matches Some(key) ==> {
            &&& holds(r, w) <==> r.streams.dom().contains(key) && r.streams[key].members >= 1
            &&& !(f matches FanOutV::Event(BcastV::Ended)) ==> fan_fits(r, w, f)
            &&& f matches FanOutV::Event(BcastV::Ended) ==> (fan_fits(r, w, f)
                <==> r.streams[key].ended)
        },
{
}

} // verus!
