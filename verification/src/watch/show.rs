//! What the viewer shows: the lines of the browser, of the watched stream and
//! of the chat.
use crate::emulator::formatted_screen;
use crate::owned::texts_view;
use crate::protocol::{InfoV, StreamInfo};
use crate::text::{chars_of, decimal, law_decimals_read_back, left_aligned, number, push_decimal,
    push_left_aligned, push_right_aligned, right_aligned, string_between};
use crate::watch::app::{lines_view, App, ChatLine};
use crate::watch::listing::{fmt_count, fmt_size, fmt_uptime, size_text, trunc, truncated,
    uptime_text};
use crate::watch::model::{AppV, LineV};
use vstd::prelude::*;

verus! {

/// What the browser shows where there is no stream.
pub const NO_STREAMS: &'static str = "No public streams are live right now.\n\n• press r to refresh\n• to watch a private stream, pass its code on the CLI:\n    tcast watch <code>";

/// The keys of the browser.
pub const BROWSE_KEYS: &'static str = " ↑/↓ move · Enter watch · r refresh · q quit ";

/// What is shown while there is no screen.
pub const NO_SCREEN: &'static str = "waiting for output…";

/// What covers the screen while the host has paused the stream.
pub const PRIVACY: &'static str = "🙈  PRIVACY\n\nThe host paused the stream.";

// -------------------------------------------------------------------- browser

/// The parts of the line at the top of the browser.
pub open spec fn header_text(a: AppV) -> Seq<Seq<char>> {
    seq![
        " "@ + (if a.connected {
            "●"@
        } else {
            "○"@
        }) + " tcast "@,
        "· "@ + a.relay + " "@,
        "· "@ + a.status,
    ]
}

/// The parts of the line at the top of the browser.
pub fn browse_header(app: &App) -> (parts: Vec<String>)
    ensures
        texts_view(parts@) == header_text(app@),
{
    let mut mark = " ".to_string();
    if app.connected {
        mark.append("●");
    } else {
        mark.append("○");
    }
    mark.append(" tcast ");
    let mut relay = "· ".to_string();
    relay.append(app.relay.as_str());
    relay.append(" ");
    let mut status = "· ".to_string();
    status.append(app.status.as_str());
    let mut parts: Vec<String> = Vec::new();
    parts.push(mark);
    parts.push(relay);
    parts.push(status);
    assert(texts_view(parts@) =~= header_text(app@));
    parts
}

/// The heading of the list of streams.
pub open spec fn list_title_text(n: nat) -> Seq<char> {
    " live streams ("@ + decimal(n) + ") "@
}

/// The heading of the list of streams.
pub fn list_title(app: &App) -> (out: String)
    ensures
        out@ == list_title_text(app@.streams.len()),
{
    let mut out = " live streams (".to_string();
    push_decimal(&mut out, app.streams.len() as u64);
    out.append(") ");
    out
}

/// The parts of the line of a stream in the browser.
pub open spec fn entry_text(i: InfoV, now: u64) -> Seq<Seq<char>> {
    seq![
        "🔴 "@,
        left_aligned(truncated(i.name, 16), 16),
        left_aligned(truncated(i.shell, 10), 10),
        right_aligned(decimal(i.viewers as nat), 3) + " 👁  "@,
        right_aligned(size_text(i.cols, i.rows), 9) + "  "@,
        uptime_text(now, i.started_unix),
    ]
}

/// The parts of the line of a stream in the browser at time `now`.
pub fn entry(s: &StreamInfo, now: u64) -> (parts: Vec<String>)
    ensures
        texts_view(parts@) == entry_text(s@, now),
{
    let mut name = String::new();
    push_left_aligned(&mut name, trunc(s.name.as_str(), 16).as_str(), 16);
    let mut shell = String::new();
    push_left_aligned(&mut shell, trunc(s.shell.as_str(), 10).as_str(), 10);
    let mut viewers = String::new();
    push_right_aligned(&mut viewers, fmt_count(s.viewers).as_str(), 3);
    viewers.append(" 👁  ");
    let mut size = String::new();
    push_right_aligned(&mut size, fmt_size(s.cols, s.rows).as_str(), 9);
    size.append("  ");
    let mut parts: Vec<String> = Vec::new();
    parts.push("🔴 ".to_string());
    parts.push(name);
    parts.push(shell);
    parts.push(viewers);
    parts.push(size);
    parts.push(fmt_uptime(now, s.started_unix));
    proof {
        let v = texts_view(parts@);
        let want = entry_text(s@, now);
        assert(v[1] =~= want[1]);
        assert(v[2] =~= want[2]);
        assert(v[3] =~= want[3]);
        assert(v[4] =~= want[4]);
        assert(v =~= want);
    }
    parts
}

// -------------------------------------------------------------------- watching

/// The parts of the line above the watched stream.
pub open spec fn title_text(joined: Option<InfoV>, now: u64) -> Seq<Seq<char>> {
    match joined {
        Some(i) => seq![
            " 🔴 LIVE "@,
            " "@ + i.name + " "@,
            "("@ + i.shell + ") "@,
            "· "@ + decimal(i.viewers as nat) + " 👁 "@,
            "· "@ + uptime_text(now, i.started_unix) + " "@,
            "· "@ + size_text(i.cols, i.rows) + " "@,
        ],
        None => seq![" connecting… "@],
    }
}

fn between(before: &str, s: &str, after: &str) -> (out: String)
    ensures
        out@ == before@ + s@ + after@,
{
    let mut out = before.to_string();
    out.append(s);
    out.append(after);
    out
}

/// The parts of the line above the watched stream at time `now`.
pub fn watch_title(app: &App, now: u64) -> (parts: Vec<String>)
    ensures
        texts_view(parts@) == title_text(app@.joined, now),
{
    let mut parts: Vec<String> = Vec::new();
    match &app.joined {
        Some(i) => {
            parts.push(" 🔴 LIVE ".to_string());
            parts.push(between(" ", i.name.as_str(), " "));
            parts.push(between("(", i.shell.as_str(), ") "));
            parts.push(between("· ", fmt_count(i.viewers).as_str(), " 👁 "));
            parts.push(between("· ", fmt_uptime(now, i.started_unix).as_str(), " "));
            parts.push(between("· ", fmt_size(i.cols, i.rows).as_str(), " "));
        },
        None => {
            parts.push(" connecting… ".to_string());
        },
    }
    assert(texts_view(parts@) =~= title_text(app@.joined, now));
    parts
}

/// What the line at the bottom says of the host's voice.
pub open spec fn voice_text(a: AppV) -> Seq<char> {
    match a.audio_err {
        Some(e) => "🔇 audio: "@ + e + " · "@,
        None => if a.muted {
            "🔇 m unmute · "@
        } else if a.speaker {
            "🔊 m mute · "@
        } else if a.audio_seen {
            "🔊 starting… · "@
        } else {
            Seq::empty()
        },
    }
}

/// The parts of the line below the watched stream: the chat message that is
/// typed, or the keys.
pub open spec fn footer_text(a: AppV) -> Seq<Seq<char>> {
    if a.composing {
        seq![" chat> "@, a.chat_input.push('\u{2588}'), "  (Enter send · Esc cancel)"@]
    } else {
        seq![" c chat · "@ + voice_text(a) + "q/Esc back · Ctrl-C quit "@]
    }
}

/// The parts of the line below the watched stream.
pub fn watch_footer(app: &App) -> (parts: Vec<String>)
    ensures
        texts_view(parts@) == footer_text(app@),
{
    let mut parts: Vec<String> = Vec::new();
    if app.composing {
        let mut typed = app.chat_input.clone();
        typed.push('\u{2588}');
        parts.push(" chat> ".to_string());
        parts.push(typed);
        parts.push("  (Enter send · Esc cancel)".to_string());
    } else {
        let mut hint = " c chat · ".to_string();
        let ghost head = hint@;
        match &app.audio_err {
            Some(e) => {
                hint.append("🔇 audio: ");
                hint.append(e.as_str());
                hint.append(" · ");
            },
            None => {
                if app.muted {
                    hint.append("🔇 m unmute · ");
                } else if app.speaker {
                    hint.append("🔊 m mute · ");
                } else if app.audio_seen {
                    hint.append("🔊 starting… · ");
                }
            },
        }
        assert(hint@ =~= head + voice_text(app@));
        hint.append("q/Esc back · Ctrl-C quit ");
        parts.push(hint);
    }
    assert(texts_view(parts@) =~= footer_text(app@));
    parts
}

/// The bytes that draw the screen of the watched stream, if there is one.
pub fn screen_dump(app: &App) -> (dump: Option<Vec<u8>>)
    ensures
        match dump {
            Some(d) => app@.fed matches Some(fed) && d@ == formatted_screen(fed),
            None => app@.fed is None,
        },
{
    match &app.screen {
        Some(m) => Some(m.dump()),
        None => None,
    }
}

// ----------------------------------------------------------------------- chat

/// `s` cut into pieces of `width` characters; the last one may be shorter.
pub open spec fn pieces(s: Seq<char>, width: nat) -> Seq<Seq<char>>
    decreases s.len(),
{
    if s.len() == 0 || width == 0 {
        Seq::empty()
    } else if s.len() <= width {
        seq![s]
    } else {
        seq![s.take(width as int)] + pieces(s.skip(width as int), width)
    }
}

/// A line of the chat pane: the part that names the sender, and the rest.
#[derive(Debug)]
pub struct PaneLine {
    pub sender: String,
    pub rest: String,
}

/// Models of lines of the chat pane.
pub open spec fn pane_view(v: Seq<PaneLine>) -> Seq<(Seq<char>, Seq<char>)> {
    v.map_values(|l: PaneLine| (l.sender@, l.rest@))
}

/// At least one.
pub open spec fn positive(n: nat) -> nat {
    if n == 0 {
        1
    } else {
        n
    }
}

/// A whole chat message with its sender.
pub open spec fn labelled(from: Seq<char>, text: Seq<char>) -> Seq<char> {
    from + ": "@ + text
}

/// The first piece of a message, of which up to `label` characters name the
/// sender.
pub open spec fn head_line(piece: Seq<char>, label: nat) -> (Seq<char>, Seq<char>) {
    let n = if piece.len() < label {
        piece.len()
    } else {
        label
    };
    (piece.take(n as int), piece.skip(n as int))
}

/// A chat message as lines of the chat pane.
pub open spec fn wrapped(from: Seq<char>, text: Seq<char>, width: nat) -> Seq<
    (Seq<char>, Seq<char>),
> {
    let p = pieces(labelled(from, text), positive(width));
    Seq::new(
        p.len(),
        |i: int|
            if i == 0 {
                head_line(p[0], (from + ": "@).len())
            } else {
                (Seq::empty(), p[i])
            },
    )
}

/// Wraps a chat message to lines of `width` characters, behind the lines that
/// are there.
pub fn wrap_chat_message(from: &str, text: &str, width: usize, out: &mut Vec<PaneLine>)
    ensures
        pane_view(final(out)@) == pane_view(old(out)@) + wrapped(from@, text@, width as nat),
{
    let mut label = from.to_string();
    label.append(": ");
    let plen: usize = chars_of(label.as_str()).len();
    let whole = between(from, ": ", text);
    let full = chars_of(whole.as_str());
    let n: usize = full.len();
    let w: usize = if width == 0 {
        1
    } else {
        width
    };
    let ghost all = full@;
    let ghost p = pieces(all, w as nat);
    let ghost before = pane_view(out@);
    let ghost want = wrapped(from@, text@, width as nat);
    assert(all == labelled(from@, text@));
    let mut i: usize = 0;
    let ghost mut k: int = 0;
    assert(all.skip(0) =~= all);
    assert(want.take(0) =~= Seq::<(Seq<char>, Seq<char>)>::empty());
    assert(pane_view(out@) =~= before + want.take(0));
    assert(p =~= p.take(0) + pieces(all.skip(0), w as nat));
    while i < n
        invariant
            all == full@,
            n == all.len(),
            i <= n,
            w >= 1,
            plen == (from@ + ": "@).len(),
            w == positive(width as nat),
            all == labelled(from@, text@),
            p == pieces(all, w as nat),
            want == wrapped(from@, text@, width as nat),
            i == 0 <==> k == 0,
            0 <= k <= p.len(),
            p == p.take(k) + pieces(all.skip(i as int), w as nat),
            pane_view(out@) == before + want.take(k),
        decreases n - i,
    {
        let end: usize = if n - i <= w {
            n
        } else {
            i + w
        };
        let ghost rest = all.skip(i as int);
        let ghost piece = all.subrange(i as int, end as int);
        proof {
            let tail = pieces(rest, w as nat);
            if rest.len() <= w {
                assert(rest =~= piece);
                assert(tail =~= seq![piece] + pieces(all.skip(end as int), w as nat));
            } else {
                assert(rest.take(w as int) =~= piece);
                assert(rest.skip(w as int) =~= all.skip(end as int));
            }
            assert(tail == seq![piece] + pieces(all.skip(end as int), w as nat));
            assert(p[k] == (p.take(k) + tail)[k]);
            assert(p[k] == piece);
            assert(p =~= p.take(k + 1) + pieces(all.skip(end as int), w as nat));
        }
        let ghost had = out@;
        if i == 0 {
            let pc: usize = if end < plen {
                end
            } else {
                plen
            };
            let line = PaneLine {
                sender: string_between(full.as_slice(), 0, pc),
                rest: string_between(full.as_slice(), pc, end),
            };
            assert(line.sender@ =~= piece.take(pc as int));
            assert(line.rest@ =~= piece.skip(pc as int));
            out.push(line);
        } else {
            let line = PaneLine {
                sender: String::new(),
                rest: string_between(full.as_slice(), i, end),
            };
            assert(line.sender@ =~= Seq::<char>::empty());
            out.push(line);
        }
        proof {
            assert(pane_view(out@) =~= pane_view(had).push(want[k]));
            assert(want.take(k + 1) =~= want.take(k).push(want[k]));
            assert(pane_view(out@) =~= before + want.take(k + 1));
            k = k + 1;
        }
        i = end;
    }
    proof {
        assert(all.skip(i as int) =~= Seq::<char>::empty());
        assert(p =~= p.take(k));
        assert(want.take(k) =~= want);
    }
}

/// All lines of the chat.
pub open spec fn chat_text(log: Seq<LineV>, width: nat) -> Seq<(Seq<char>, Seq<char>)>
    decreases log.len(),
{
    if log.len() == 0 {
        Seq::empty()
    } else {
        chat_text(log.drop_last(), width) + wrapped(log.last().from, log.last().text, width)
    }
}

/// The last `n` of some lines.
pub open spec fn last_lines(lines: Seq<(Seq<char>, Seq<char>)>, n: nat) -> Seq<
    (Seq<char>, Seq<char>),
> {
    if lines.len() <= n {
        lines
    } else {
        lines.skip(lines.len() - n)
    }
}

/// The lines of the chat that fit into a pane of the given size: the newest.
pub fn chat_lines(log: &Vec<ChatLine>, width: u16, height: u16) -> (lines: Vec<PaneLine>)
    ensures
        pane_view(lines@) == last_lines(
            chat_text(lines_view(log@), positive(width as nat)),
            positive(height as nat),
        ),
{
    let w: usize = if width == 0 {
        1
    } else {
        width as usize
    };
    let h: usize = if height == 0 {
        1
    } else {
        height as usize
    };
    let ghost all = lines_view(log@);
    let mut lines: Vec<PaneLine> = Vec::new();
    let mut i: usize = 0;
    assert(pane_view(lines@) =~= chat_text(all.take(0), w as nat));
    while i < log.len()
        invariant
            i <= log@.len(),
            all == lines_view(log@),
            pane_view(lines@) == chat_text(all.take(i as int), w as nat),
        decreases log@.len() - i,
    {
        proof {
            assert(all.take(i + 1).drop_last() =~= all.take(i as int));
            assert(all.take(i + 1).last() == log@[i as int]@);
        }
        wrap_chat_message(log[i].from.as_str(), log[i].text.as_str(), w, &mut lines);
        i += 1;
    }
    assert(all.take(i as int) =~= all);
    let ghost full = pane_view(lines@);
    while lines.len() > h
        invariant
            h == positive(height as nat),
            pane_view(lines@).len() <= full.len(),
            pane_view(lines@) == full.skip(full.len() - lines@.len()),
            full.len() > h ==> lines@.len() >= h,
            full.len() <= h ==> lines@.len() == full.len(),
        decreases lines@.len(),
    {
        let ghost had = pane_view(lines@);
        lines.remove(0);
        assert(pane_view(lines@) =~= had.skip(1));
        assert(pane_view(lines@) =~= full.skip(full.len() - lines@.len()));
    }
    assert(pane_view(lines@) =~= last_lines(full, h as nat));
    lines
}

/// Pieces of text, one behind the other.
pub open spec fn run_together(p: Seq<Seq<char>>) -> Seq<char>
    decreases p.len(),
{
    if p.len() == 0 {
        Seq::empty()
    } else {
        p[0] + run_together(p.skip(1))
    }
}

/// Cutting text into lines loses nothing: the pieces, one behind the other, are
/// the text. None of them is empty or wider than the pane.
pub proof fn law_wrapping_loses_nothing(s: Seq<char>, width: nat)
    requires
        width > 0,
    ensures
        run_together(pieces(s, width)) == s,
        forall|i: int|
            0 <= i < pieces(s, width).len() ==> 0 < (#[trigger] pieces(s, width)[i]).len() <= width,
    decreases s.len(),
{
    let p = pieces(s, width);
    if s.len() == 0 {
        assert(run_together(p) =~= s);
    } else if s.len() <= width {
        assert(p.skip(1) =~= Seq::<Seq<char>>::empty());
        assert(run_together(p.skip(1)) =~= Seq::<char>::empty());
        assert(run_together(p) =~= s);
    } else {
        let rest = s.skip(width as int);
        law_wrapping_loses_nothing(rest, width);
        assert(p.skip(1) =~= pieces(rest, width));
        assert(run_together(p) =~= s);
        assert forall|i: int| 0 <= i < p.len() implies 0 < (#[trigger] p[i]).len() <= width by {
            if i > 0 {
                assert(p[i] == pieces(rest, width)[i - 1]);
            }
        }
    }
}

/// The newest line of chat is always shown, at the bottom.
pub proof fn law_newest_chat_is_shown(log: Seq<LineV>, width: nat, height: nat)
    requires
        log.len() > 0,
    ensures
        ({
            let all = chat_text(log, positive(width));
            let shown = last_lines(all, positive(height));
            &&& shown.len() > 0
            &&& shown.last() == all.last()
            &&& all.last() == wrapped(log.last().from, log.last().text, positive(width)).last()
        }),
{
    let w = positive(width);
    let newest = log.last();
    reveal_strlit(": ");
    let full = labelled(newest.from, newest.text);
    assert(full.len() > 0);
    assert(pieces(full, w).len() > 0);
    assert(wrapped(newest.from, newest.text, w).len() > 0);
}

// ------------------------------------------------------------------ what holds

/// The top of the browser shows whether there is a connection, the relay's
/// address and the status, each in a part of its own.
pub proof fn law_header_shows_the_connection(a: AppV)
    ensures
        ({
            let h = header_text(a);
            &&& h.len() == 3
            &&& a.connected ==> h[0] == " ● tcast "@
            &&& !a.connected ==> h[0] == " ○ tcast "@
            &&& h[1] == "· "@ + a.relay + " "@
            &&& h[2] == "· "@ + a.status
        }),
{
    reveal_strlit(" ");
    reveal_strlit("●");
    reveal_strlit("○");
    reveal_strlit(" tcast ");
    reveal_strlit(" ● tcast ");
    reveal_strlit(" ○ tcast ");
    let h = header_text(a);
    if a.connected {
        assert(h[0] =~= " ● tcast "@);
    } else {
        assert(h[0] =~= " ○ tcast "@);
    }
}

/// The heading of the list shows how many streams there are.
pub proof fn law_heading_counts_the_streams(n: nat)
    ensures
        ({
            let t = list_title_text(n);
            let head = " live streams ("@;
            let tail = ") "@;
            &&& t.len() > head.len() + tail.len()
            &&& t.take(head.len() as int) == head
            &&& number(t.subrange(head.len() as int, t.len() - tail.len())) == n
            &&& t.skip(t.len() - tail.len()) == tail
        }),
{
    law_decimals_read_back(n);
    let t = list_title_text(n);
    let head = " live streams ("@;
    let tail = ") "@;
    assert(t.take(head.len() as int) =~= head);
    assert(t.subrange(head.len() as int, t.len() - tail.len()) =~= decimal(n));
    assert(t.skip(t.len() - tail.len()) =~= tail);
}

/// The line of a stream in the browser shows its name and shell, how many watch,
/// the size of its terminal and for how long it has been running.
#[verifier::spinoff_prover]
pub proof fn law_entries_tell_of_the_stream(i: InfoV, now: u64)
    ensures
        ({
            let e = entry_text(i, now);
            let viewers = decimal(i.viewers as nat);
            let size = size_text(i.cols, i.rows);
            &&& e.len() == 6
            &&& e[0] == "🔴 "@
            &&& e[1].len() == 16
            &&& i.name.len() <= 16 ==> e[1].take(i.name.len() as int) == i.name
            &&& i.name.len() > 16 ==> e[1].drop_last() == i.name.take(15) && e[1].last() == '…'
            &&& e[2].len() == 10
            &&& i.shell.len() <= 10 ==> e[2].take(i.shell.len() as int) == i.shell
            &&& i.shell.len() > 10 ==> e[2].drop_last() == i.shell.take(9) && e[2].last() == '…'
            &&& (viewers + " 👁  "@).is_suffix_of(e[3])
            &&& (size + "  "@).is_suffix_of(e[4])
            &&& e[5] == uptime_text(now, i.started_unix)
        }),
{
    let e = entry_text(i, now);
    let viewers = decimal(i.viewers as nat);
    let size = size_text(i.cols, i.rows);
    let a = viewers + " 👁  "@;
    let b = size + "  "@;
    if i.name.len() <= 16 {
        assert(e[1].take(i.name.len() as int) =~= i.name);
    } else {
        assert(e[1].drop_last() =~= i.name.take(15));
    }
    if i.shell.len() <= 10 {
        assert(e[2].take(i.shell.len() as int) =~= i.shell);
    } else {
        assert(e[2].drop_last() =~= i.shell.take(9));
    }
    assert(e[3].subrange(e[3].len() - a.len(), e[3].len() as int) =~= a);
    assert(e[4].subrange(e[4].len() - b.len(), e[4].len() as int) =~= b);
}

/// The line above the watched stream shows its name and shell, how many watch,
/// for how long it has been running and its size; without a stream it says that
/// the viewer connects.
pub proof fn law_title_tells_of_the_stream(i: InfoV, now: u64)
    ensures
        title_text(None, now) == seq![" connecting… "@],
        ({
            let t = title_text(Some(i), now);
            &&& t.len() == 6
            &&& t[0] == " 🔴 LIVE "@
            &&& t[1] == " "@ + i.name + " "@
            &&& t[2] == "("@ + i.shell + ") "@
            &&& t[3] == "· "@ + decimal(i.viewers as nat) + " 👁 "@
            &&& t[4] == "· "@ + uptime_text(now, i.started_unix) + " "@
            &&& t[5] == "· "@ + size_text(i.cols, i.rows) + " "@
        }),
{
}

/// What is said of the host's voice: that the speaker failed and why, before all
/// else; that the viewer is muted; that voice is played; that it is about to be;
/// and nothing where none has arrived.
pub proof fn law_voice_is_described(a: AppV)
    ensures
        a.audio_err matches Some(e) ==> voice_text(a) == "🔇 audio: "@ + e + " · "@,
        a.audio_err is None && a.muted ==> voice_text(a) == "🔇 m unmute · "@,
        a.audio_err is None && !a.muted && a.speaker ==> voice_text(a) == "🔊 m mute · "@,
        a.audio_err is None && !a.muted && !a.speaker && a.audio_seen ==> voice_text(a)
            == "🔊 starting… · "@,
        a.audio_err is None && !a.muted && !a.speaker && !a.audio_seen ==> voice_text(a) == Seq::<
            char,
        >::empty(),
{
}

/// The line below the watched stream shows the message that is typed, with a
/// cursor behind it, while one is; else the keys and what is said of the voice.
pub proof fn law_footer_shows_the_message_or_the_keys(a: AppV)
    ensures
        a.composing ==> {
            let f = footer_text(a);
            &&& f.len() == 3
            &&& f[0] == " chat> "@
            &&& f[1].drop_last() == a.chat_input
            &&& f[1].last() == '█'
            &&& f[2] == "  (Enter send · Esc cancel)"@
        },
        !a.composing ==> footer_text(a) == seq![
            " c chat · "@ + voice_text(a) + "q/Esc back · Ctrl-C quit "@,
        ],
{
    assert(a.chat_input.push('\u{2588}').drop_last() =~= a.chat_input);
}

/// The text of lines of the chat pane, one behind the other.
pub open spec fn pane_text(lines: Seq<(Seq<char>, Seq<char>)>) -> Seq<char>
    decreases lines.len(),
{
    if lines.len() == 0 {
        Seq::empty()
    } else {
        lines[0].0 + lines[0].1 + pane_text(lines.skip(1))
    }
}

/// A wrapped chat message is its sender, a colon, a space and its text, nothing
/// less and nothing more. Only its first line names the sender, as far as it
/// fits; no line is wider than the pane, and every line but the last fills it.
#[verifier::spinoff_prover]
pub proof fn law_wrapped_messages_are_whole(from: Seq<char>, text: Seq<char>, width: nat)
    requires
        width > 0,
    ensures
        ({
            let w = wrapped(from, text, width);
            let label = from + ": "@;
            &&& pane_text(w) == from + ": "@ + text
            &&& forall|i: int| 0 < i < w.len() ==> (#[trigger] w[i]).0 == Seq::<char>::empty()
            &&& forall|i: int|
                0 <= i < w.len() ==> 0 < (#[trigger] w[i]).0.len() + w[i].1.len() <= width
            &&& forall|i: int|
                0 <= i < w.len() - 1 ==> (#[trigger] w[i]).0.len() + w[i].1.len() == width
            &&& w.len() > 0
            &&& w[0].0 == label.take(w[0].0.len() as int)
            &&& w[0].0.len() == label.len() || (w[0].0.len() == width && width < label.len())
        }),
{
    reveal_strlit(": ");
    let full = labelled(from, text);
    let label = from + ": "@;
    let p = pieces(full, width);
    let w = wrapped(from, text, width);
    law_wrapping_loses_nothing(full, width);
    lemma_full_pieces(full, width);
    assert(full.len() > 0);
    assert forall|i: int| 0 <= i < p.len() implies (#[trigger] w[i]).0 + w[i].1 == p[i] by {
        assert(w[i].0 + w[i].1 =~= p[i]);
    }
    lemma_pane_text(w, p);
    if full.len() <= width {
        assert(p[0] == full);
    } else {
        assert(p[0] == full.take(width as int));
    }
    assert(w[0].0 =~= label.take(w[0].0.len() as int));
}

proof fn lemma_full_pieces(s: Seq<char>, width: nat)
    requires
        width > 0,
    ensures
        forall|i: int|
            0 <= i < pieces(s, width).len() - 1 ==> (#[trigger] pieces(s, width)[i]).len() == width,
    decreases s.len(),
{
    if s.len() > width {
        let rest = s.skip(width as int);
        lemma_full_pieces(rest, width);
        let p = pieces(s, width);
        assert forall|i: int| 0 <= i < p.len() - 1 implies (#[trigger] p[i]).len() == width by {
            if i > 0 {
                assert(p[i] == pieces(rest, width)[i - 1]);
            }
        }
    }
}

proof fn lemma_pane_text(lines: Seq<(Seq<char>, Seq<char>)>, p: Seq<Seq<char>>)
    requires
        lines.len() == p.len(),
        forall|i: int| 0 <= i < p.len() ==> (#[trigger] lines[i]).0 + lines[i].1 == p[i],
    ensures
        pane_text(lines) == run_together(p),
    decreases p.len(),
{
    if p.len() > 0 {
        let rest = lines.skip(1);
        assert forall|i: int| 0 <= i < p.skip(1).len() implies (#[trigger] rest[i]).0 + rest[i].1
            == p.skip(1)[i] by {
            assert(rest[i] == lines[i + 1]);
        }
        lemma_pane_text(rest, p.skip(1));
        assert(lines[0].0 + lines[0].1 == p[0]);
    }
}

/// The chat shows its messages in the order in which they came.
pub proof fn law_chat_is_shown_in_order(log: Seq<LineV>, last: LineV, width: nat)
    ensures
        chat_text(Seq::empty(), width) == Seq::<(Seq<char>, Seq<char>)>::empty(),
        chat_text(log.push(last), width) == chat_text(log, width) + wrapped(
            last.from,
            last.text,
            width,
        ),
{
    assert(log.push(last).drop_last() =~= log);
}

/// Of too many lines the last ones are shown, as many as fit; else all are.
pub proof fn law_last_lines_are_shown(lines: Seq<(Seq<char>, Seq<char>)>, n: nat)
    ensures
        last_lines(lines, n).is_suffix_of(lines),
        last_lines(lines, n).len() == if lines.len() < n {
            lines.len()
        } else {
            n
        },
{
    let t = last_lines(lines, n);
    assert(t =~= lines.subrange(lines.len() - t.len(), lines.len() as int));
}

/// The model of the chat pane has one entry for each of its lines, in order.
pub proof fn law_pane_lines_are_modelled_in_full(v: Seq<PaneLine>, i: int)
    requires
        0 <= i < v.len(),
    ensures
        pane_view(v).len() == v.len(),
        pane_view(v)[i].0 == v[i].sender@,
        pane_view(v)[i].1 == v[i].rest@,
{
}

} // verus!
