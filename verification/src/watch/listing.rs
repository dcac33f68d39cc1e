//! The one-shot listing of the public streams.
use crate::link::Incoming;
use crate::protocol::{infos_view, InfoV, RelayToWatch, StreamInfo};
use crate::text::{chars_of, decimal, law_decimals_read_back, left_aligned, number, push_decimal,
    push_left_aligned, push_right_aligned, push_two_digits, right_aligned, string_between,
    two_digits};
use vstd::prelude::*;

verus! {

// ----------------------------------------------------------------- formatting

/// Seconds as a short duration.
pub open spec fn duration_text(secs: nat) -> Seq<char> {
    if secs >= 3600 {
        decimal(secs / 3600).push('h') + two_digits(secs % 3600 / 60).push('m')
    } else if secs >= 60 {
        decimal(secs / 60).push('m') + two_digits(secs % 60).push('s')
    } else {
        decimal(secs).push('s')
    }
}

/// How long ago `started` was at `now`.
pub open spec fn uptime_text(now: u64, started: u64) -> Seq<char> {
    duration_text(
        if now >= started {
            (now - started) as nat
        } else {
            0
        },
    )
}

/// How long a stream has been running, such as "2h05m", "5m07s" or "42s".
pub fn fmt_uptime(now: u64, started: u64) -> (out: String)
    ensures
        out@ == uptime_text(now, started),
{
    let s: u64 = if now >= started {
        now - started
    } else {
        0
    };
    let mut out = String::new();
    if s >= 3600 {
        push_decimal(&mut out, s / 3600);
        out.push('h');
        push_two_digits(&mut out, (s % 3600) / 60);
        out.push('m');
    } else if s >= 60 {
        push_decimal(&mut out, s / 60);
        out.push('m');
        push_two_digits(&mut out, s % 60);
        out.push('s');
    } else {
        push_decimal(&mut out, s);
        out.push('s');
    }
    assert(out@ =~= uptime_text(now, started));
    out
}

/// `s` cut to `max` characters; one that is cut ends with an ellipsis.
pub open spec fn truncated(s: Seq<char>, max: nat) -> Seq<char> {
    if s.len() <= max {
        s
    } else if max == 0 {
        seq!['…']
    } else {
        s.take(max - 1).push('…')
    }
}

/// Cuts `s` to `max` characters.
pub fn trunc(s: &str, max: usize) -> (out: String)
    ensures
        out@ == truncated(s@, max as nat),
{
    let chars = chars_of(s);
    if chars.len() <= max {
        s.to_string()
    } else {
        let keep: usize = if max == 0 {
            0
        } else {
            max - 1
        };
        let mut out = string_between(chars.as_slice(), 0, keep);
        out.push('…');
        assert(out@ =~= truncated(s@, max as nat));
        out
    }
}

/// A cut text has at most as many characters as were allowed, if any were.
pub proof fn law_cut_texts_fit(s: Seq<char>, max: nat)
    requires
        max > 0,
    ensures
        truncated(s, max).len() <= max,
        s.len() <= max ==> truncated(s, max) == s,
{
}

/// The size of a terminal.
pub open spec fn size_text(cols: u16, rows: u16) -> Seq<char> {
    decimal(cols as nat).push('x') + decimal(rows as nat)
}

/// The size of a terminal, such as "80x24".
pub fn fmt_size(cols: u16, rows: u16) -> (out: String)
    ensures
        out@ == size_text(cols, rows),
{
    let mut out = String::new();
    push_decimal(&mut out, cols as u64);
    out.push('x');
    push_decimal(&mut out, rows as u64);
    assert(out@ =~= size_text(cols, rows));
    out
}

/// A number in decimal.
pub fn fmt_count(n: u32) -> (out: String)
    ensures
        out@ == decimal(n as nat),
{
    let mut out = String::new();
    push_decimal(&mut out, n as u64);
    assert(out@ =~= decimal(n as nat));
    out
}

// ---------------------------------------------------------------------- table

/// A line of the table.
pub open spec fn columns(
    name: Seq<char>,
    shell: Seq<char>,
    viewers: Seq<char>,
    size: Seq<char>,
    uptime: Seq<char>,
    id: Seq<char>,
) -> Seq<char> {
    left_aligned(name, 18) + left_aligned(shell, 12) + right_aligned(viewers, 4) + "  "@
        + right_aligned(size, 9) + "  "@ + left_aligned(uptime, 8) + id
}

/// The line of a stream.
pub open spec fn row_text(i: InfoV, now: u64) -> Seq<char> {
    columns(
        truncated(i.name, 17),
        truncated(i.shell, 11),
        decimal(i.viewers as nat),
        size_text(i.cols, i.rows),
        uptime_text(now, i.started_unix),
        i.stream_id,
    )
}

/// The lines of the first `n` streams.
pub open spec fn rows_text(l: Seq<InfoV>, now: u64) -> Seq<char>
    decreases l.len(),
{
    if l.len() == 0 {
        Seq::empty()
    } else {
        rows_text(l.drop_last(), now) + row_text(l.last(), now).push('\n')
    }
}

/// The table of the streams, with a heading; a remark where there are none.
pub open spec fn table_text(l: Seq<InfoV>, now: u64) -> Seq<char> {
    if l.len() == 0 {
        "No public streams are live right now.\n"@
    } else {
        columns("NAME"@, "SHELL"@, "👁"@, "SIZE"@, "UPTIME"@, "ID"@).push('\n') + rows_text(l, now)
    }
}

fn push_columns(
    out: &mut String,
    name: &str,
    shell: &str,
    viewers: &str,
    size: &str,
    uptime: &str,
    id: &str,
)
    ensures
        final(out)@ == old(out)@ + columns(name@, shell@, viewers@, size@, uptime@, id@).push('\n'),
{
    push_left_aligned(out, name, 18);
    push_left_aligned(out, shell, 12);
    push_right_aligned(out, viewers, 4);
    out.append("  ");
    push_right_aligned(out, size, 9);
    out.append("  ");
    push_left_aligned(out, uptime, 8);
    out.append(id);
    out.push('\n');
    assert(out@ =~= old(out)@ + columns(name@, shell@, viewers@, size@, uptime@, id@).push('\n'));
}

/// The table of the streams at time `now`.
pub fn table(list: &Vec<StreamInfo>, now: u64) -> (out: String)
    ensures
        out@ == table_text(infos_view(list@), now),
{
    if list.len() == 0 {
        return "No public streams are live right now.\n".to_string();
    }
    let ghost all = infos_view(list@);
    let mut out = String::new();
    push_columns(&mut out, "NAME", "SHELL", "👁", "SIZE", "UPTIME", "ID");
    let ghost head = columns("NAME"@, "SHELL"@, "👁"@, "SIZE"@, "UPTIME"@, "ID"@).push('\n');
    assert(out@ =~= head + rows_text(all.take(0), now));
    let mut i: usize = 0;
    while i < list.len()
        invariant
            i <= list@.len(),
            all == infos_view(list@),
            out@ == head + rows_text(all.take(i as int), now),
        decreases list@.len() - i,
    {
        let s = &list[i];
        let ghost before = out@;
        push_columns(
            &mut out,
            trunc(s.name.as_str(), 17).as_str(),
            trunc(s.shell.as_str(), 11).as_str(),
            fmt_count(s.viewers).as_str(),
            fmt_size(s.cols, s.rows).as_str(),
            fmt_uptime(now, s.started_unix).as_str(),
            s.stream_id.as_str(),
        );
        proof {
            let t = all.take(i + 1);
            assert(t.drop_last() =~= all.take(i as int));
            assert(t.last() == s@);
            assert(out@ =~= head + rows_text(t, now));
        }
        i += 1;
    }
    assert(all.take(i as int) =~= all);
    out
}

// ------------------------------------------------------------------- exchange

/// How far the exchange with the relay is.
#[derive(Debug, Clone, Copy)]
pub enum Stage {
    /// The relay has not let us in yet.
    Greeting,
    /// The list was asked for.
    Asked,
}

/// What is done about what arrives.
#[derive(Debug)]
pub enum Reply {
    /// Ask for the list.
    Ask,
    /// Go on waiting.
    Wait,
    /// Answer a ping of the transport.
    Pong(Vec<u8>),
    /// Answer a ping of the relay.
    Alive,
    /// The list is there.
    List(Vec<StreamInfo>),
    /// There is no list, for the given reason.
    Fail(String),
}

/// Model of [`Reply`].
pub enum ReplyV {
    Ask,
    Wait,
    Pong(Seq<u8>),
    Alive,
    List(Seq<InfoV>),
    Fail(Seq<char>),
}

impl View for Reply {
    type V = ReplyV;

    open spec fn view(&self) -> ReplyV {
        match *self {
            Reply::Ask => ReplyV::Ask,
            Reply::Wait => ReplyV::Wait,
            Reply::Pong(p) => ReplyV::Pong(p@),
            Reply::Alive => ReplyV::Alive,
            Reply::List(l) => ReplyV::List(infos_view(l@)),
            Reply::Fail(why) => ReplyV::Fail(why@),
        }
    }
}

/// The stage after something arrived.
pub open spec fn stage_after(s: Stage, m: Incoming<RelayToWatch>) -> Stage {
    match (s, m) {
        (Stage::Greeting, Incoming::Binary(Some(RelayToWatch::Welcome))) => Stage::Asked,
        _ => s,
    }
}

/// What is done about what arrives.
pub open spec fn reply_to(s: Stage, m: Incoming<RelayToWatch>) -> ReplyV {
    match m {
        Incoming::Binary(Some(RelayToWatch::Welcome)) => match s {
            Stage::Greeting => ReplyV::Ask,
            Stage::Asked => ReplyV::Wait,
        },
        Incoming::Binary(Some(RelayToWatch::Streams(l))) => match s {
            Stage::Greeting => ReplyV::Wait,
            Stage::Asked => ReplyV::List(infos_view(l@)),
        },
        Incoming::Binary(Some(RelayToWatch::Error(e))) => ReplyV::Fail(
            (match s {
                Stage::Greeting => "relay refused the connection: "@,
                Stage::Asked => "relay error: "@,
            }) + e@,
        ),
        Incoming::Binary(Some(RelayToWatch::Ping)) => ReplyV::Alive,
        Incoming::Binary(_) => ReplyV::Wait,
        Incoming::Ping(p) => ReplyV::Pong(p@),
        Incoming::Other => ReplyV::Wait,
        Incoming::Closing => ReplyV::Wait,
        _ => ReplyV::Fail(
            match s {
                Stage::Greeting => "relay closed the connection during handshake"@,
                Stage::Asked => "relay closed the connection before sending the list"@,
            },
        ),
    }
}

/// The list is asked for exactly once, when the relay lets us in, and the list
/// that arrives after that is the one that is shown, as it is.
pub proof fn law_the_list_is_asked_for_once(
    s: Stage,
    m: Incoming<RelayToWatch>,
    l: Vec<StreamInfo>,
)
    ensures
        reply_to(s, m) is Ask <==> s is Greeting && (m matches Incoming::Binary(
            Some(RelayToWatch::Welcome),
        )),
        reply_to(s, m) is Ask ==> stage_after(s, m) is Asked,
        !(reply_to(s, m) is Ask) ==> stage_after(s, m) == s,
        reply_to(Stage::Asked, Incoming::Binary(Some(RelayToWatch::Streams(l)))) == ReplyV::List(
            infos_view(l@),
        ),
        reply_to(s, m) is List <==> s is Asked && (m matches Incoming::Binary(
            Some(RelayToWatch::Streams(_)),
        )),
{
}

/// There is no list where the relay says so, and its reason is told, or where
/// the connection is closed or broken. Pings are answered, those of the transport
/// with their own payload.
pub proof fn law_failures_are_told(s: Stage, m: Incoming<RelayToWatch>)
    ensures
        reply_to(s, m) is Fail <==> m is Closed || m is Broken || (m matches Incoming::Binary(
            Some(RelayToWatch::Error(_)),
        )),
        m matches Incoming::Binary(Some(RelayToWatch::Error(e))) ==> (reply_to(
            s,
            m,
        ) matches ReplyV::Fail(why) && e@.is_suffix_of(why)),
        m matches Incoming::Ping(p) ==> reply_to(s, m) == ReplyV::Pong(p@),
        reply_to(s, m) is Alive <==> (m matches Incoming::Binary(Some(RelayToWatch::Ping))),
{
    if let Incoming::Binary(Some(RelayToWatch::Error(e))) = m {
        let why = reply_to(s, m)->Fail_0;
        assert(why.subrange(why.len() - e@.len(), why.len() as int) =~= e@);
    }
}

impl Stage {
    /// Decides what is done about what arrives.
    pub fn step(&mut self, m: Incoming<RelayToWatch>) -> (r: Reply)
        ensures
            *final(self) == stage_after(*old(self), m),
            r@ == reply_to(*old(self), m),
            *final(self) == (match (*old(self), m) {
                (Stage::Greeting, Incoming::Binary(Some(RelayToWatch::Welcome))) => Stage::Asked,
                _ => *old(self),
            }),
            match m {
                Incoming::Binary(Some(RelayToWatch::Welcome)) => r == (match *old(self) {
                    Stage::Greeting => Reply::Ask,
                    Stage::Asked => Reply::Wait,
                }),
                Incoming::Binary(Some(RelayToWatch::Streams(l))) => r == (match *old(self) {
                    Stage::Greeting => Reply::Wait,
                    Stage::Asked => Reply::List(l),
                }),
                Incoming::Binary(Some(RelayToWatch::Error(e))) => r matches Reply::Fail(why) && why@
                    == (match *old(self) {
                    Stage::Greeting => "relay refused the connection: "@,
                    Stage::Asked => "relay error: "@,
                }) + e@,
                Incoming::Binary(Some(RelayToWatch::Ping)) => r == Reply::Alive,
                Incoming::Binary(_) => r == Reply::Wait,
                Incoming::Ping(p) => r == Reply::Pong(p),
                Incoming::Other => r == Reply::Wait,
                Incoming::Closing => r == Reply::Wait,
                _ => r matches Reply::Fail(why) && why@ == (match *old(self) {
                    Stage::Greeting => "relay closed the connection during handshake"@,
                    Stage::Asked => "relay closed the connection before sending the list"@,
                }),
            },
    {
        let asked: bool = match self {
            Stage::Greeting => false,
            Stage::Asked => true,
        };
        match m {
            Incoming::Binary(Some(RelayToWatch::Welcome)) => {
                if asked {
                    Reply::Wait
                } else {
                    *self = Stage::Asked;
                    Reply::Ask
                }
            },
            Incoming::Binary(Some(RelayToWatch::Streams(l))) => {
                if asked {
                    Reply::List(l)
                } else {
                    Reply::Wait
                }
            },
            Incoming::Binary(Some(RelayToWatch::Error(e))) => {
                let mut why = if asked {
                    "relay error: ".to_string()
                } else {
                    "relay refused the connection: ".to_string()
                };
                why.append(e.as_str());
                Reply::Fail(why)
            },
            Incoming::Binary(Some(RelayToWatch::Ping)) => Reply::Alive,
            Incoming::Binary(_) => Reply::Wait,
            Incoming::Ping(p) => Reply::Pong(p),
            Incoming::Other => Reply::Wait,
            Incoming::Closing => Reply::Wait,
            _ => Reply::Fail(
                if asked {
                    "relay closed the connection before sending the list".to_string()
                } else {
                    "relay closed the connection during handshake".to_string()
                },
            ),
        }
    }
}

// ---------------------------------------------------------------- what holds

/// Durations are told in hours and minutes, below an hour in minutes and seconds,
/// and below a minute in seconds.
pub proof fn law_durations_are_told(h: nat, m: nat, s: nat)
    requires
        m < 60,
        s < 60,
    ensures
        h > 0 ==> duration_text(3600 * h + 60 * m + s) == decimal(h).push('h') + two_digits(m).push(
            'm',
        ),
        m > 0 ==> duration_text(60 * m + s) == decimal(m).push('m') + two_digits(s).push('s'),
        duration_text(s) == decimal(s).push('s'),
{
    let t = 3600 * h + 60 * m + s;
    assert(t / 3600 == h);
    assert(t % 3600 == 60 * m + s);
    assert((60 * m + s) / 60 == m);
    assert((60 * m + s) % 60 == s);
}

/// What started some seconds ago has been running for so long; what starts in the
/// future, for no time.
pub proof fn law_uptimes_count_from_the_start(started: u64, secs: nat, now: u64)
    requires
        now == started + secs,
    ensures
        uptime_text(now, started) == duration_text(secs),
        uptime_text(started, now) == duration_text(0),
{
}

/// A text that is cut keeps its front, ends with an ellipsis and fills the space.
pub proof fn law_cut_texts_keep_their_front(s: Seq<char>, max: nat)
    requires
        0 < max < s.len(),
    ensures
        truncated(s, max).len() == max,
        truncated(s, max).drop_last() == s.take(max - 1),
        truncated(s, max).last() == '…',
{
    assert(truncated(s, max).drop_last() =~= s.take(max - 1));
}

/// A size reads back: columns in front of the x, rows behind it.
pub proof fn law_sizes_read_back(cols: u16, rows: u16)
    ensures
        ({
            let t = size_text(cols, rows);
            let k = decimal(cols as nat).len() as int;
            &&& 0 < k < t.len() - 1
            &&& t[k] == 'x'
            &&& number(t.take(k)) == cols
            &&& number(t.skip(k + 1)) == rows
        }),
{
    law_decimals_read_back(cols as nat);
    law_decimals_read_back(rows as nat);
    let t = size_text(cols, rows);
    let k = decimal(cols as nat).len() as int;
    assert(t.take(k) =~= decimal(cols as nat));
    assert(t.skip(k + 1) =~= decimal(rows as nat));
}

/// The line of a stream begins with its name and shell in columns of their own,
/// ends with its id, and has in between how many watch, the size and for how
/// long, wherever these fit their columns.
#[verifier::spinoff_prover]
pub proof fn law_rows_tell_of_the_stream(i: InfoV, now: u64)
    requires
        i.name.len() <= 17,
        i.shell.len() <= 11,
        decimal(i.viewers as nat).len() <= 4,
        size_text(i.cols, i.rows).len() <= 9,
        uptime_text(now, i.started_unix).len() <= 8,
    ensures
        ({
            let r = row_text(i, now);
            let v = decimal(i.viewers as nat);
            let s = size_text(i.cols, i.rows);
            let u = uptime_text(now, i.started_unix);
            &&& r.len() == 55 + i.stream_id.len()
            &&& r.take(i.name.len() as int) == i.name
            &&& r.subrange(18, 18int + i.shell.len()) == i.shell
            &&& r.subrange(34 - v.len(), 34) == v
            &&& r.subrange(45 - s.len(), 45) == s
            &&& r.subrange(47, 47int + u.len()) == u
            &&& r.skip(55) == i.stream_id
        }),
{
    reveal_strlit("  ");
    let r = row_text(i, now);
    let v = decimal(i.viewers as nat);
    let s = size_text(i.cols, i.rows);
    let u = uptime_text(now, i.started_unix);
    assert(r.take(i.name.len() as int) =~= i.name);
    assert(r.subrange(18, 18int + i.shell.len()) =~= i.shell);
    assert(r.subrange(34 - v.len(), 34) =~= v);
    assert(r.subrange(45 - s.len(), 45) =~= s);
    assert(r.subrange(47, 47int + u.len()) =~= u);
    assert(r.skip(55) =~= i.stream_id);
}

/// The table has one line for each stream, in order, below its heading; without
/// streams it says so.
pub proof fn law_tables_list_every_stream(l: Seq<InfoV>, last: InfoV, now: u64)
    ensures
        table_text(Seq::empty(), now) == "No public streams are live right now.\n"@,
        l.len() > 0 ==> table_text(l.push(last), now) == table_text(l, now) + row_text(
            last,
            now,
        ).push('\n'),
        table_text(seq![last], now) == columns(
            "NAME"@,
            "SHELL"@,
            "👁"@,
            "SIZE"@,
            "UPTIME"@,
            "ID"@,
        ).push('\n') + row_text(last, now).push('\n'),
{
    let row = row_text(last, now).push('\n');
    assert(l.push(last).drop_last() =~= l);
    assert(seq![last].drop_last() =~= Seq::<InfoV>::empty());
    assert(rows_text(Seq::<InfoV>::empty(), now) + row =~= row);
    assert(rows_text(seq![last], now) == row);
    if l.len() > 0 {
        assert(table_text(l.push(last), now) =~= table_text(l, now) + row);
    }
}

} // verus!
