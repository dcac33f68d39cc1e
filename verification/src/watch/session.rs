//! The viewer's connection to the relay, and when to try again.
use crate::link::Incoming;
use crate::protocol::{RelayToWatch, WatchHello, WatchHelloV, WatchToRelay, WatchToRelayV,
    PROTOCOL_VERSION};
use crate::text::{copy_text, text_view};
use crate::watch::app::Net;
use crate::watch::model::NetV;
use vstd::prelude::*;

verus! {

// -------------------------------------------------------------------- backoff

/// Longest wait between two attempts to connect, in seconds.
pub const MAX_BACKOFF: u64 = 10;

/// How long to wait before the next attempt to connect.
pub struct Backoff {
    pub secs: u64,
}

/// The wait after a connection is over.
pub open spec fn wait_after(secs: u64, was_connected: bool) -> u64 {
    if was_connected {
        1
    } else {
        secs
    }
}

/// Twice the wait, up to the longest.
pub open spec fn doubled(secs: u64) -> u64 {
    if 2 * secs < MAX_BACKOFF {
        (2 * secs) as u64
    } else {
        MAX_BACKOFF
    }
}

impl Backoff {
    /// No attempt was made yet.
    pub fn new() -> (b: Backoff)
        ensures
            b.secs == 1,
            b.secs == task(Seq::empty()).secs,
    {
        Backoff { secs: 1 }
    }

    /// A connection is over. Returns for how many seconds to wait.
    pub fn lost(&mut self, was_connected: bool) -> (wait: u64)
        requires
            1 <= old(self).secs <= MAX_BACKOFF,
        ensures
            wait == wait_after(old(self).secs, was_connected),
            final(self).secs == doubled(wait),
            1 <= final(self).secs <= MAX_BACKOFF,
    {
        if was_connected {
            self.secs = 1;
        }
        let wait: u64 = self.secs;
        self.secs = if wait * 2 < MAX_BACKOFF {
            wait * 2
        } else {
            MAX_BACKOFF
        };
        wait
    }

    /// A connection ended. Returns for how many seconds to wait before the next
    /// one, or nothing where there is to be none.
    pub fn ended(&mut self, end: SessionEnd) -> (wait: Option<u64>)
        requires
            1 <= old(self).secs <= MAX_BACKOFF,
        ensures
            wait == wait_for(old(self).secs, end),
            final(self).secs == secs_after(old(self).secs, end),
            1 <= final(self).secs <= MAX_BACKOFF,
    {
        match end {
            SessionEnd::Shutdown => None,
            SessionEnd::Lost { was_connected } => Some(self.lost(was_connected)),
        }
    }
}

/// The wait after a connection ended: none where the viewer is gone.
pub open spec fn wait_for(secs: u64, end: SessionEnd) -> Option<u64> {
    match end {
        SessionEnd::Shutdown => None,
        SessionEnd::Lost { was_connected } => Some(wait_after(secs, was_connected)),
    }
}

/// What is waited next, should the next attempt fail.
pub open spec fn secs_after(secs: u64, end: SessionEnd) -> u64 {
    match end {
        SessionEnd::Shutdown => secs,
        SessionEnd::Lost { was_connected } => doubled(wait_after(secs, was_connected)),
    }
}

/// How far the connections of a viewer have come.
pub struct TaskV {
    /// What is waited next, should the next attempt fail.
    pub secs: u64,
    /// The waits so far.
    pub waits: Seq<u64>,
    /// Whether there is to be no further connection.
    pub over: bool,
}

/// The connections of a viewer that ended as given, one after the other.
pub open spec fn task(ends: Seq<SessionEnd>) -> TaskV
    decreases ends.len(),
{
    if ends.len() == 0 {
        TaskV { secs: 1, waits: Seq::empty(), over: false }
    } else {
        let before = task(ends.drop_last());
        if before.over {
            before
        } else {
            match wait_for(before.secs, ends.last()) {
                Some(wait) => TaskV {
                    secs: secs_after(before.secs, ends.last()),
                    waits: before.waits.push(wait),
                    over: false,
                },
                None => TaskV { over: true, ..before },
            }
        }
    }
}

/// A viewer connects again until it is gone, and waits before each attempt: one
/// second at first and after each real session, else twice as long as the last
/// time, up to [`MAX_BACKOFF`] seconds.
pub proof fn law_connections_go_on_until_shutdown(ends: Seq<SessionEnd>)
    ensures
        task(ends).over <==> ends.contains(SessionEnd::Shutdown),
        !task(ends).over ==> {
            &&& task(ends).waits.len() == ends.len()
            &&& forall|i: int|
                0 <= i < ends.len() ==> #[trigger] task(ends).waits[i] == (if i == 0 || ends[i]
                    == (SessionEnd::Lost { was_connected: true }) {
                    1
                } else {
                    doubled(task(ends).waits[i - 1])
                })
            &&& ends.len() > 0 ==> task(ends).secs == doubled(task(ends).waits.last())
            &&& ends.len() == 0 ==> task(ends).secs == 1
        },
    decreases ends.len(),
{
    if ends.len() > 0 {
        let before = ends.drop_last();
        law_connections_go_on_until_shutdown(before);
        assert(ends =~= before.push(ends.last()));
        if before.contains(SessionEnd::Shutdown) {
            let i = choose|i: int| 0 <= i < before.len() && before[i] == SessionEnd::Shutdown;
            assert(ends[i] == SessionEnd::Shutdown);
        } else if ends.last() == SessionEnd::Shutdown {
            assert(ends[ends.len() - 1] == SessionEnd::Shutdown);
        } else {
            assert forall|i: int| 0 <= i < ends.len() implies ends[i] != SessionEnd::Shutdown by {
                if i < before.len() {
                    assert(before.contains(before[i]));
                }
            }
            assert forall|i: int| 0 <= i < ends.len() implies #[trigger] task(ends).waits[i] == (
            if i == 0 || ends[i] == (SessionEnd::Lost { was_connected: true }) {
                1
            } else {
                doubled(task(ends).waits[i - 1])
            }) by {
                if i < before.len() {
                    assert(task(ends).waits[i] == task(before).waits[i]);
                    assert(ends[i] == before[i]);
                }
            }
        }
    }
}

/// After the end that is a shutdown, nothing more is waited for.
pub proof fn law_shutdown_is_final(ends: Seq<SessionEnd>, more: Seq<SessionEnd>)
    requires
        ends.contains(SessionEnd::Shutdown),
    ensures
        task(ends + more) == task(ends),
    decreases more.len(),
{
    law_connections_go_on_until_shutdown(ends);
    if more.len() == 0 {
        assert(ends + more =~= ends);
    } else {
        law_shutdown_is_final(ends, more.drop_last());
        assert((ends + more).drop_last() =~= ends + more.drop_last());
    }
}

/// The wait after `n` attempts in a row that failed, following one at once.
pub open spec fn wait_number(n: nat) -> u64
    decreases n,
{
    if n == 0 {
        1
    } else {
        doubled(wait_number((n - 1) as nat))
    }
}

/// The wait never shrinks while attempts fail, never exceeds [`MAX_BACKOFF`]
/// seconds, and reaches that with the fifth attempt.
pub proof fn law_waits_grow_to_the_longest(n: nat)
    ensures
        1 <= wait_number(n) <= wait_number(n + 1) <= MAX_BACKOFF,
        n >= 4 ==> wait_number(n) == MAX_BACKOFF,
    decreases n,
{
    if n > 0 {
        law_waits_grow_to_the_longest((n - 1) as nat);
    }
    if n == 4 {
        reveal_with_fuel(wait_number, 6);
    }
}

// ----------------------------------------------------------------- connection

/// How far a connection is.
#[derive(Debug, Clone, Copy)]
pub enum Phase {
    /// Not there yet.
    Connecting,
    /// The greeting was sent, and the answer is awaited.
    Greeting,
    /// The relay let us in.
    Running,
}

/// What happens to a connection.
#[derive(Debug)]
pub enum LinkEvent {
    /// It is there.
    Open,
    /// It could not be made, for the given reason.
    Refused(String),
    /// Something could not be sent.
    SendFailed,
    /// Something arrived.
    Arrived(Incoming<RelayToWatch>),
    /// The viewer asks for something to be sent.
    Command(WatchToRelay),
    /// The viewer is gone.
    ViewerGone,
}

/// How a connection ended.
#[derive(Debug, Clone, Copy)]
pub enum SessionEnd {
    /// The viewer is gone.
    Shutdown,
    /// The connection was lost, after the relay had let us in or before.
    Lost { was_connected: bool },
}

/// What is done about what happens to a connection, in the order of the fields.
#[derive(Debug)]
pub struct LinkStep {
    /// Sent to the relay.
    pub send: Option<WatchToRelay>,
    /// Payload of a pong of the transport.
    pub pong: Option<Vec<u8>>,
    /// Told to the viewer.
    pub tell: Option<Net>,
    /// How the connection ends, if it does.
    pub end: Option<SessionEnd>,
}

/// Model of [`LinkStep`].
pub struct LinkStepV {
    pub send: Option<WatchToRelayV>,
    pub pong: Option<Seq<u8>>,
    pub tell: Option<NetV>,
    pub end: Option<SessionEnd>,
}

impl View for LinkStep {
    type V = LinkStepV;

    open spec fn view(&self) -> LinkStepV {
        LinkStepV {
            send: match self.send {
                Some(m) => Some(m@),
                None => None,
            },
            pong: match self.pong {
                Some(p) => Some(p@),
                None => None,
            },
            tell: match self.tell {
                Some(n) => Some(n@),
                None => None,
            },
            end: self.end,
        }
    }
}

/// Nothing is done.
pub open spec fn nothing() -> LinkStepV {
    LinkStepV { send: None, pong: None, tell: None, end: None }
}

/// The connection is lost, for the given reason.
pub open spec fn lost(why: Seq<char>, was_connected: bool) -> LinkStepV {
    LinkStepV {
        tell: Some(NetV::Disconnected(why)),
        end: Some(SessionEnd::Lost { was_connected }),
        ..nothing()
    }
}

/// The greeting of a viewer.
pub open spec fn viewer_greeting(name: Option<Seq<char>>) -> WatchHelloV {
    WatchHelloV { version: PROTOCOL_VERSION@, name, cols: 0, rows: 0 }
}

/// The phase after an event.
pub open spec fn phase_after(phase: Phase, e: LinkEvent) -> Phase {
    match (phase, e) {
        (Phase::Connecting, LinkEvent::Open) => Phase::Greeting,
        (Phase::Greeting, LinkEvent::Arrived(Incoming::Binary(Some(RelayToWatch::Welcome)))) =>
            Phase::Running,
        _ => phase,
    }
}

/// What is done about an event.
pub open spec fn link_outcome(phase: Phase, name: Option<Seq<char>>, e: LinkEvent) -> LinkStepV {
    match phase {
        Phase::Connecting => match e {
            LinkEvent::Open => LinkStepV {
                send: Some(WatchToRelayV::Hello(viewer_greeting(name))),
                ..nothing()
            },
            LinkEvent::Refused(why) => lost(why@, false),
            _ => nothing(),
        },
        Phase::Greeting => match e {
            LinkEvent::SendFailed => lost("handshake send failed"@, false),
            LinkEvent::Arrived(Incoming::Binary(Some(RelayToWatch::Welcome))) => LinkStepV {
                tell: Some(NetV::Connected),
                ..nothing()
            },
            LinkEvent::Arrived(Incoming::Binary(Some(RelayToWatch::Error(why)))) => lost(
                why@,
                false,
            ),
            LinkEvent::Arrived(Incoming::Binary(_)) => lost("bad handshake"@, false),
            LinkEvent::Arrived(_) => lost("no handshake"@, false),
            _ => nothing(),
        },
        Phase::Running => match e {
            LinkEvent::SendFailed => lost("send failed"@, true),
            LinkEvent::Command(c) => LinkStepV { send: Some(c@), ..nothing() },
            LinkEvent::ViewerGone => LinkStepV { end: Some(SessionEnd::Shutdown), ..nothing() },
            LinkEvent::Arrived(Incoming::Binary(Some(m))) => LinkStepV {
                tell: Some(NetV::Msg(m@)),
                ..nothing()
            },
            LinkEvent::Arrived(Incoming::Binary(None)) => nothing(),
            LinkEvent::Arrived(Incoming::Ping(p)) => LinkStepV { pong: Some(p@), ..nothing() },
            LinkEvent::Arrived(Incoming::Other) => nothing(),
            LinkEvent::Arrived(Incoming::Closing) => lost("relay closed"@, true),
            LinkEvent::Arrived(Incoming::Closed) => lost("relay closed"@, true),
            LinkEvent::Arrived(Incoming::Broken(why)) => lost(why@, true),
            _ => nothing(),
        },
    }
}

/// The greeting of a viewer with the given name.
pub fn viewer_hello(name: &Option<String>) -> (h: WatchHello)
    ensures
        h@ == viewer_greeting(text_view(*name)),
{
    WatchHello { version: PROTOCOL_VERSION.to_string(), name: copy_text(name), cols: 0, rows: 0 }
}

fn still() -> (s: LinkStep)
    ensures
        s@ == nothing(),
{
    LinkStep { send: None, pong: None, tell: None, end: None }
}

fn gone(why: String, was_connected: bool) -> (s: LinkStep)
    ensures
        s@ == lost(why@, was_connected),
{
    LinkStep {
        send: None,
        pong: None,
        tell: Some(Net::Disconnected(why)),
        end: Some(SessionEnd::Lost { was_connected }),
    }
}

impl Phase {
    /// Decides what is done about what happens to the connection of a viewer
    /// with the given name.
    pub fn step(&mut self, name: &Option<String>, e: LinkEvent) -> (out: LinkStep)
        ensures
            *final(self) == phase_after(*old(self), e),
            out@ == link_outcome(*old(self), text_view(*name), e),
    {
        match self {
            Phase::Connecting => match e {
                LinkEvent::Open => {
                    *self = Phase::Greeting;
                    LinkStep {
                        send: Some(WatchToRelay::Hello(viewer_hello(name))),
                        pong: None,
                        tell: None,
                        end: None,
                    }
                },
                LinkEvent::Refused(why) => gone(why, false),
                _ => still(),
            },
            Phase::Greeting => match e {
                LinkEvent::SendFailed => gone("handshake send failed".to_string(), false),
                LinkEvent::Arrived(Incoming::Binary(Some(RelayToWatch::Welcome))) => {
                    *self = Phase::Running;
                    LinkStep { send: None, pong: None, tell: Some(Net::Connected), end: None }
                },
                LinkEvent::Arrived(Incoming::Binary(Some(RelayToWatch::Error(why)))) => gone(
                    why,
                    false,
                ),
                LinkEvent::Arrived(Incoming::Binary(_)) => gone("bad handshake".to_string(), false),
                LinkEvent::Arrived(_) => gone("no handshake".to_string(), false),
                _ => still(),
            },
            Phase::Running => match e {
                LinkEvent::SendFailed => gone("send failed".to_string(), true),
                LinkEvent::Command(c) => LinkStep {
                    send: Some(c),
                    pong: None,
                    tell: None,
                    end: None,
                },
                LinkEvent::ViewerGone => LinkStep {
                    send: None,
                    pong: None,
                    tell: None,
                    end: Some(SessionEnd::Shutdown),
                },
                LinkEvent::Arrived(Incoming::Binary(Some(m))) => LinkStep {
                    send: None,
                    pong: None,
                    tell: Some(Net::Msg(m)),
                    end: None,
                },
                LinkEvent::Arrived(Incoming::Binary(None)) => still(),
                LinkEvent::Arrived(Incoming::Ping(p)) => LinkStep {
                    send: None,
                    pong: Some(p),
                    tell: None,
                    end: None,
                },
                LinkEvent::Arrived(Incoming::Other) => still(),
                LinkEvent::Arrived(Incoming::Closing) => gone("relay closed".to_string(), true),
                LinkEvent::Arrived(Incoming::Closed) => gone("relay closed".to_string(), true),
                LinkEvent::Arrived(Incoming::Broken(why)) => gone(why, true),
                _ => still(),
            },
        }
    }
}

/// Every connection that ends other than by the viewer tells the viewer why,
/// and says whether the relay had let us in.
pub proof fn law_losses_are_told(phase: Phase, name: Option<Seq<char>>, e: LinkEvent)
    ensures
        link_outcome(phase, name, e).end matches Some(SessionEnd::Lost { was_connected }) ==> {
            &&& link_outcome(phase, name, e).tell is Some
            &&& link_outcome(phase, name, e).tell.unwrap() is Disconnected
            &&& was_connected == (phase is Running)
        },
        link_outcome(phase, name, e).tell matches Some(NetV::Disconnected(_)) ==> link_outcome(
            phase,
            name,
            e,
        ).end is Some,
{
}

/// After an attempt that failed, the next wait is twice as long, but no more than
/// ten seconds; after a real session, it is one second again.
pub proof fn law_waits_double(secs: u64)
    requires
        1 <= secs <= 10,
    ensures
        ({
            let failed = SessionEnd::Lost { was_connected: false };
            let over = SessionEnd::Lost { was_connected: true };
            &&& wait_for(secs, failed) == Some(secs)
            &&& secs <= 5 ==> secs_after(secs, failed) == 2 * secs
            &&& secs > 5 ==> secs_after(secs, failed) == 10
            &&& wait_for(secs, over) == Some(1u64)
            &&& secs_after(secs, over) == 2
            &&& wait_for(secs, SessionEnd::Shutdown) is None
        }),
{
}

/// As soon as the connection is there, the greeting is sent, with the relay's
/// version and the viewer's name; where it could not be made, the viewer is told
/// why.
pub proof fn law_connections_start_with_a_greeting(name: Option<Seq<char>>, why: String)
    ensures
        ({
            let out = link_outcome(Phase::Connecting, name, LinkEvent::Open);
            &&& phase_after(Phase::Connecting, LinkEvent::Open) is Greeting
            &&& out.send matches Some(WatchToRelayV::Hello(h)) && h.version == "0.2"@ && h.name
                == name
            &&& out.tell is None
            &&& out.pong is None
            &&& out.end is None
        }),
        ({
            let out = link_outcome(Phase::Connecting, name, LinkEvent::Refused(why));
            &&& out.tell == Some(NetV::Disconnected(why@))
            &&& out.end == Some(SessionEnd::Lost { was_connected: false })
            &&& out.send is None
        }),
{
}

/// The viewer is connected exactly when the relay answers the greeting with a
/// welcome. Any other answer ends the connection, and so does a greeting that
/// cannot be sent; the reason that the relay gives is passed on.
pub proof fn law_only_a_welcome_connects(phase: Phase, name: Option<Seq<char>>, e: LinkEvent)
    ensures
        link_outcome(phase, name, e).tell == Some(NetV::Connected) <==> phase is Greeting && (
        e matches LinkEvent::Arrived(Incoming::Binary(Some(RelayToWatch::Welcome)))),
        phase_after(phase, e) is Running <==> phase is Running || link_outcome(phase, name, e).tell
            == Some(NetV::Connected),
        phase is Greeting && (e is Arrived || e is SendFailed) && !(e matches LinkEvent::Arrived(
            Incoming::Binary(Some(RelayToWatch::Welcome)),
        )) ==> {
            let out = link_outcome(phase, name, e);
            &&& out.end == Some(SessionEnd::Lost { was_connected: false })
            &&& out.tell is Some && out.tell.unwrap() is Disconnected
            &&& e matches LinkEvent::Arrived(Incoming::Binary(Some(RelayToWatch::Error(why))))
                ==> out.tell == Some(NetV::Disconnected(why@))
        },
{
}

/// Once connected, every message of the relay is handed to the viewer as it is,
/// and whatever the viewer asks for is sent as it is; neither ends the
/// connection. A ping of the transport is answered with its own payload.
pub proof fn law_messages_and_commands_pass(
    name: Option<Seq<char>>,
    m: RelayToWatch,
    c: WatchToRelay,
    p: Vec<u8>,
)
    ensures
        link_outcome(
            Phase::Running,
            name,
            LinkEvent::Arrived(Incoming::Binary(Some(m))),
        ) == (LinkStepV { send: None, pong: None, tell: Some(NetV::Msg(m@)), end: None }),
        link_outcome(Phase::Running, name, LinkEvent::Command(c)) == (LinkStepV {
            send: Some(c@),
            pong: None,
            tell: None,
            end: None,
        }),
        link_outcome(Phase::Running, name, LinkEvent::Arrived(Incoming::Ping(p))) == (LinkStepV {
            send: None,
            pong: Some(p@),
            tell: None,
            end: None,
        }),
{
}

/// A connection ends when the viewer is gone, which is a shutdown, or when the
/// transport closes, breaks or fails to send, which is a loss; a frame that makes
/// no sense is passed over.
pub proof fn law_connections_end_for_a_reason(name: Option<Seq<char>>, e: LinkEvent)
    ensures
        ({
            let out = link_outcome(Phase::Running, name, e);
            &&& out.end == Some(SessionEnd::Shutdown) <==> e is ViewerGone
            &&& out.end == Some(SessionEnd::Lost { was_connected: true }) <==> {
                ||| e is SendFailed
                ||| e matches LinkEvent::Arrived(Incoming::Closing)
                ||| e matches LinkEvent::Arrived(Incoming::Closed)
                ||| e matches LinkEvent::Arrived(Incoming::Broken(_))
            }
            &&& !(out.end matches Some(SessionEnd::Lost { was_connected: false }))
            &&& e matches LinkEvent::Arrived(Incoming::Broken(why)) ==> out.tell == Some(
                NetV::Disconnected(why@),
            )
            &&& (e matches LinkEvent::Arrived(Incoming::Binary(None))) || (
            e matches LinkEvent::Arrived(Incoming::Other)) ==> out == (LinkStepV {
                send: None,
                pong: None,
                tell: None,
                end: None,
            })
        }),
{
}

/// Before the viewer is connected, nothing else than the above happens; once it
/// is, opening the connection again means nothing. A phase is never gone back to.
pub proof fn law_nothing_else_happens(phase: Phase, name: Option<Seq<char>>, e: LinkEvent)
    ensures
        phase is Connecting && !(e is Open) && !(e is Refused) ==> link_outcome(phase, name, e) == (
        LinkStepV { send: None, pong: None, tell: None, end: None }),
        phase is Greeting && !(e is Arrived) && !(e is SendFailed) ==> link_outcome(phase, name, e)
            == (LinkStepV { send: None, pong: None, tell: None, end: None }),
        phase is Running && (e is Open || e is Refused) ==> link_outcome(phase, name, e) == (
        LinkStepV { send: None, pong: None, tell: None, end: None }),
        phase_after(phase, e) is Connecting <==> phase is Connecting && !(e is Open),
        phase is Running ==> phase_after(phase, e) is Running,
{
}

} // verus!
