use tcast::emulator::Mirror;
use tcast::link::Incoming;
use tcast::protocol::{HostHello, HostToRelay, RelayToWatch, StreamInfo, WatchHello, WatchToRelay,
    PROTOCOL_VERSION};
use tcast::relay::registry::{deliver, watch_opening, Admission, Bcast, Effect, FanOut, Frame, Opening,
    Registry, Watcher};
use tcast::watch::app::{Act, App, ChatLine, Net, WatchConfig};
use tcast::watch::layout::{bars, centered_rect, middle_limits, panes, Area, Limit};
use tcast::watch::listing::{fmt_size, fmt_uptime, table, trunc, Reply, Stage};
use tcast::watch::model::Key;
use tcast::watch::session::{Backoff, LinkEvent, Phase, SessionEnd};
use tcast::watch::show::{browse_header, chat_lines, entry, list_title, screen_dump, watch_footer,
    watch_title, wrap_chat_message, PaneLine};

fn info(id: &str, name: &str) -> StreamInfo {
    StreamInfo {
        stream_id: id.to_string(),
        name: name.to_string(),
        shell: "bash".to_string(),
        cols: 20,
        rows: 4,
        viewers: 7,
        started_unix: 1000,
        public: true,
    }
}

fn config(target: Option<&str>) -> WatchConfig {
    WatchConfig {
        relay: "ws://r".to_string(),
        target: target.map(|t| t.to_string()),
        name: None,
        allow_self: false,
        chat_open: false,
        chat_only: false,
    }
}

fn marks() -> Vec<(String, String)> {
    vec![("mine".to_string(), "me-2345".to_string())]
}

fn app() -> App {
    App::open(&config(None), &marks()).unwrap()
}

fn msg(a: &mut App, m: RelayToWatch) -> Vec<Act> {
    a.handle_net(Net::Msg(m))
}

fn press(a: &mut App, k: Key) -> Vec<Act> {
    let (acts, quit) = a.handle_key(false, k);
    assert!(!quit);
    acts
}

fn watching() -> App {
    let mut a = app();
    msg(&mut a, RelayToWatch::Streams(vec![info("x", "ann")]));
    press(&mut a, Key::Enter);
    msg(&mut a, RelayToWatch::Joined { info: info("x", "ann"), snapshot: b"hi".to_vec() });
    a
}

// --------------------------------------------------------------------- opening

#[test]
fn own_streams_cannot_be_watched() {
    let why = "that's your own stream — you can't watch yourself";
    assert!(App::open(&config(Some("mine")), &marks()).err() == Some(why.to_string()));
    assert!(App::open(&config(Some("me-2345")), &marks()).err() == Some(why.to_string()));
    assert!(App::open(&config(Some("other")), &marks()).is_ok());
    let mut own = config(Some("mine"));
    own.allow_self = true;
    assert!(App::open(&own, &marks()).unwrap().owned_ids.is_empty());
}

#[test]
fn own_streams_are_not_listed() {
    let mut a = app();
    msg(&mut a, RelayToWatch::Streams(vec![info("a", "1"), info("mine", "2"), info("b", "3")]));
    let ids: Vec<&str> = a.streams.iter().map(|s| s.stream_id.as_str()).collect();
    assert_eq!(ids, vec!["a", "b"]);
}

// ------------------------------------------------------------------------ keys

#[test]
fn selection_goes_around() {
    let mut a = app();
    press(&mut a, Key::Down);
    assert!(a.selected().is_none());
    msg(&mut a, RelayToWatch::Streams(vec![info("a", ""), info("b", ""), info("c", "")]));
    assert_eq!(a.list_selection, Some(0));
    press(&mut a, Key::Up);
    assert_eq!(a.list_selection, Some(2));
    press(&mut a, Key::Char('j'));
    assert_eq!(a.list_selection, Some(0));
    press(&mut a, Key::Down);
    press(&mut a, Key::Down);
    assert_eq!(a.selected().unwrap().stream_id, "c");
    press(&mut a, Key::Char('k'));
    assert_eq!(a.list_selection, Some(1));
}

#[test]
fn the_selection_moves_by_any_distance() {
    let mut a = app();
    a.move_sel(3);
    assert_eq!(a.list_selection, None);
    let list = (0..5).map(|i| info(&format!("s{i}"), "ann")).collect();
    msg(&mut a, RelayToWatch::Streams(list));
    assert_eq!(a.list_selection, Some(0));
    for delta in [1, -1, 2, 4, 5, 7, -3, -12, 1000003, i32::MAX, i32::MIN + 1] {
        let from = a.list_selection.unwrap() as i64;
        a.move_sel(delta);
        assert_eq!(a.list_selection, Some((from + delta as i64).rem_euclid(5) as usize));
        a.move_sel(-delta);
        assert_eq!(a.list_selection, Some(from as usize));
        a.move_sel(1);
    }
    let from = a.list_selection.unwrap() as i64;
    a.move_sel(i32::MIN);
    assert_eq!(a.list_selection, Some((from + i32::MIN as i64).rem_euclid(5) as usize));
}

#[test]
fn selection_stays_in_a_shorter_list() {
    let mut a = app();
    msg(&mut a, RelayToWatch::Streams(vec![info("a", ""), info("b", ""), info("c", "")]));
    press(&mut a, Key::Up);
    msg(&mut a, RelayToWatch::Streams(vec![info("a", ""), info("b", "")]));
    assert_eq!(a.list_selection, Some(1));
    msg(&mut a, RelayToWatch::Streams(vec![]));
    assert_eq!(a.list_selection, None);
}

#[test]
fn enter_joins_the_selected_stream() {
    let mut a = app();
    assert!(press(&mut a, Key::Enter).is_empty());
    msg(&mut a, RelayToWatch::Streams(vec![info("a", ""), info("b", "")]));
    press(&mut a, Key::Down);
    let acts = press(&mut a, Key::Enter);
    assert!(matches!(&acts[..], [Act::Send(WatchToRelay::Join { target })] if target == "b"));
    assert_eq!(a.status, "joining…");
    assert_eq!(a.last_target, Some("b".to_string()));
}

#[test]
fn browser_refreshes_and_quits() {
    let mut a = app();
    let acts = press(&mut a, Key::Char('r'));
    assert!(matches!(&acts[..], [Act::Send(WatchToRelay::List)]));
    assert_eq!(a.status, "refreshing…");
    assert!(a.handle_key(false, Key::Char('q')).1);
    assert!(a.handle_key(false, Key::Esc).1);
    assert!(a.handle_key(true, Key::Char('c')).1);
    assert!(a.handle_key(true, Key::Char('C')).1);
    assert!(!a.handle_key(false, Key::Char('x')).1);
}

#[test]
fn leaving_goes_back_to_the_browser() {
    for k in [Key::Char('q'), Key::Esc, Key::Backspace] {
        let mut a = watching();
        let acts = press(&mut a, k);
        assert!(matches!(&acts[..],
            [Act::Send(WatchToRelay::Leave), Act::Send(WatchToRelay::List)]));
        assert!(!a.watching && a.joined.is_none() && a.screen.is_none());
        assert_eq!(a.last_target, None);
        assert_eq!(a.status, "browsing");
    }
}

#[test]
fn chat_is_typed_and_sent() {
    let mut a = watching();
    press(&mut a, Key::Char('c'));
    assert!(a.composing && a.chat_open);
    for c in " hiq".chars() {
        press(&mut a, Key::Char(c));
    }
    press(&mut a, Key::Backspace);
    press(&mut a, Key::Up);
    assert_eq!(a.chat_input, " hi");
    let acts = press(&mut a, Key::Enter);
    assert!(matches!(&acts[..], [Act::Send(WatchToRelay::Chat { text })] if text == "hi"));
    assert_eq!(a.chat_input, "");
    assert!(a.composing);
    press(&mut a, Key::Char(' '));
    assert!(press(&mut a, Key::Enter).is_empty());
    press(&mut a, Key::Char('z'));
    press(&mut a, Key::Esc);
    assert!(!a.composing && a.watching);
    assert_eq!(a.chat_input, "");
    press(&mut a, Key::Char('c'));
    press(&mut a, Key::Backspace);
    assert_eq!(a.chat_input, "");
}

#[test]
fn muting_closes_the_speaker() {
    let mut a = watching();
    let first = msg(&mut a, RelayToWatch::Audio(vec![1, 0]));
    assert!(matches!(&first[..], [Act::OpenSpeaker, Act::Play(s)] if *s == vec![1]));
    a.speaker_opened(Ok(()));
    let second = msg(&mut a, RelayToWatch::Audio(vec![2, 0]));
    assert!(matches!(&second[..], [Act::Play(s)] if *s == vec![2]));
    let acts = press(&mut a, Key::Char('m'));
    assert!(matches!(&acts[..], [Act::CloseSpeaker]));
    assert!(a.muted && !a.speaker);
    assert!(msg(&mut a, RelayToWatch::Audio(vec![3, 0])).is_empty());
    assert!(press(&mut a, Key::Char('m')).is_empty());
    let back = msg(&mut a, RelayToWatch::Audio(vec![4, 0]));
    assert!(matches!(&back[..], [Act::OpenSpeaker, Act::Play(_)]));
}

#[test]
fn failing_speakers_are_not_tried_again() {
    let mut a = watching();
    msg(&mut a, RelayToWatch::Audio(vec![1, 0]));
    a.speaker_opened(Err("no device".to_string()));
    assert!(!a.speaker);
    let acts = msg(&mut a, RelayToWatch::Audio(vec![1, 0]));
    assert!(matches!(&acts[..], [Act::Play(_)]));
    assert_eq!(watch_footer(&a), vec![" c chat · 🔇 audio: no device · q/Esc back · Ctrl-C quit "]);
}

// -------------------------------------------------------------------- messages

#[test]
fn connecting_lists_or_joins() {
    let mut a = app();
    let acts = a.handle_net(Net::Connected);
    assert!(matches!(&acts[..], [Act::Send(WatchToRelay::List)]));
    assert!(a.connected);
    assert_eq!(a.status, "browsing");
    let mut b = App::open(&config(Some("code")), &marks()).unwrap();
    let acts = b.handle_net(Net::Connected);
    assert!(matches!(&acts[..], [Act::Send(WatchToRelay::Join { target })] if target == "code"));
    assert_eq!(b.pending_target, None);
}

#[test]
fn lost_connections_are_rejoined() {
    let mut a = watching();
    assert!(a.handle_net(Net::Disconnected("relay closed".to_string())).is_empty());
    assert_eq!(a.status, "disconnected: relay closed — reconnecting…");
    assert!(!a.watching && !a.connected);
    a.handle_net(Net::Disconnected("refused".to_string()));
    let acts = a.handle_net(Net::Connected);
    assert!(matches!(&acts[..], [Act::Send(WatchToRelay::Join { target })] if target == "x"));
}

#[test]
fn left_streams_are_not_rejoined() {
    let mut a = watching();
    press(&mut a, Key::Esc);
    a.handle_net(Net::Disconnected("e".to_string()));
    assert!(matches!(&a.handle_net(Net::Connected)[..], [Act::Send(WatchToRelay::List)]));
}

#[test]
fn ended_streams_are_left() {
    let mut a = watching();
    let acts = msg(&mut a, RelayToWatch::Ended);
    assert!(matches!(&acts[..], [Act::Send(WatchToRelay::List)]));
    assert!(!a.watching);
    assert_eq!(a.status, "stream ended");
    a.handle_net(Net::Disconnected("e".to_string()));
    assert!(matches!(&a.handle_net(Net::Connected)[..], [Act::Send(WatchToRelay::List)]));
}

#[test]
fn screens_are_drawn() {
    let mut a = app();
    assert!(screen_dump(&a).is_none());
    a = watching();
    msg(&mut a, RelayToWatch::Output(b" there".to_vec()));
    let mut want = vt100::Parser::new(4, 20, 0);
    want.process(b"hi there");
    assert_eq!(screen_dump(&a).unwrap(), want.screen().contents_formatted());
    msg(&mut a, RelayToWatch::Resize { cols: 4, rows: 0 });
    want.screen_mut().set_size(1, 4);
    assert_eq!(screen_dump(&a).unwrap(), want.screen().contents_formatted());
    let i = a.joined.as_ref().unwrap();
    assert_eq!((i.cols, i.rows), (4, 0));
}

#[test]
fn stream_details_change() {
    let mut a = watching();
    msg(&mut a, RelayToWatch::Viewers(3));
    assert_eq!(a.joined.as_ref().unwrap().viewers, 3);
    msg(&mut a, RelayToWatch::Privacy { paused: true });
    assert!(a.paused);
    msg(&mut a, RelayToWatch::Error("no".to_string()));
    assert_eq!(a.status, "no");
    assert!(matches!(&msg(&mut a, RelayToWatch::Ping)[..], [Act::Send(WatchToRelay::Pong)]));
    assert!(msg(&mut a, RelayToWatch::Welcome).is_empty());
    assert!(a.watching);
}

#[test]
fn chat_log_keeps_the_newest() {
    let mut a = watching();
    assert!(!a.chat_open);
    for i in 0..205u64 {
        let m = RelayToWatch::Chat { from: "v".to_string(), text: format!("{i}"), ts_unix: i };
        msg(&mut a, m);
    }
    assert!(a.chat_open);
    assert_eq!(a.chat_log.len(), 200);
    assert_eq!(a.chat_log[0].text, "5");
    assert_eq!(a.chat_log[199].text, "204");
}

// ------------------------------------------------------------------------ show

#[test]
fn uptimes() {
    assert_eq!(fmt_uptime(1042, 1000), "42s");
    assert_eq!(fmt_uptime(1000 + 307, 1000), "5m07s");
    assert_eq!(fmt_uptime(7500, 0), "2h05m");
    assert_eq!(fmt_uptime(59, 0), "59s");
    assert_eq!(fmt_uptime(60, 0), "1m00s");
    assert_eq!(fmt_uptime(3600, 0), "1h00m");
    assert_eq!(fmt_uptime(5, 9), "0s");
}

#[test]
fn long_texts_are_cut() {
    assert_eq!(trunc("hello", 5), "hello");
    assert_eq!(trunc("hello!", 5), "hell…");
    assert_eq!(trunc("é", 0), "…");
    assert_eq!(trunc("", 0), "");
    assert_eq!(fmt_size(120, 40), "120x40");
}

#[test]
fn listing_is_a_table() {
    assert_eq!(table(&vec![], 0), "No public streams are live right now.\n");
    let mut i = info("abc", "a name that is far too long");
    i.viewers = 12345;
    let t = table(&vec![info("id1", "ann"), i], 1042);
    let lines: Vec<&str> = t.lines().collect();
    assert_eq!(lines[0], "NAME              SHELL          👁       SIZE  UPTIME  ID");
    assert_eq!(lines[1], "ann               bash           7       20x4  42s     id1");
    assert_eq!(lines[2], "a name that is f… bash        12345       20x4  42s     abc");
    assert_eq!(lines.len(), 3);
}

#[test]
fn browser_lines() {
    let mut a = app();
    assert_eq!(browse_header(&a), vec![" ○ tcast ", "· ws://r ", "· connecting…"]);
    a.handle_net(Net::Connected);
    assert_eq!(browse_header(&a), vec![" ● tcast ", "· ws://r ", "· browsing"]);
    msg(&mut a, RelayToWatch::Streams(vec![info("a", "ann"), info("b", "bob")]));
    assert_eq!(list_title(&a), " live streams (2) ");
    assert_eq!(
        entry(&a.streams[0], 1042),
        vec!["🔴 ", "ann             ", "bash      ", "  7 👁  ", "     20x4  ", "42s"]
    );
}

#[test]
fn watch_lines() {
    let mut a = app();
    assert_eq!(watch_title(&a, 0), vec![" connecting… "]);
    a = watching();
    assert_eq!(
        watch_title(&a, 1042),
        vec![" 🔴 LIVE ", " ann ", "(bash) ", "· 7 👁 ", "· 42s ", "· 20x4 "]
    );
    assert_eq!(watch_footer(&a), vec![" c chat · q/Esc back · Ctrl-C quit "]);
    msg(&mut a, RelayToWatch::Audio(vec![]));
    assert_eq!(watch_footer(&a), vec![" c chat · 🔊 starting… · q/Esc back · Ctrl-C quit "]);
    a.speaker_opened(Ok(()));
    assert_eq!(watch_footer(&a), vec![" c chat · 🔊 m mute · q/Esc back · Ctrl-C quit "]);
    press(&mut a, Key::Char('m'));
    assert_eq!(watch_footer(&a), vec![" c chat · 🔇 m unmute · q/Esc back · Ctrl-C quit "]);
    press(&mut a, Key::Char('c'));
    press(&mut a, Key::Char('y'));
    assert_eq!(watch_footer(&a), vec![" chat> ", "y█", "  (Enter send · Esc cancel)"]);
}

fn flat(lines: &[PaneLine]) -> Vec<(String, String)> {
    lines.iter().map(|l| (l.sender.clone(), l.rest.clone())).collect()
}

fn pair(a: &str, b: &str) -> (String, String) {
    (a.to_string(), b.to_string())
}

#[test]
fn chat_messages_are_wrapped() {
    let mut out: Vec<PaneLine> = Vec::new();
    wrap_chat_message("ann", "hello", 7, &mut out);
    assert_eq!(flat(&out), vec![pair("ann: ", "he"), pair("", "llo")]);
    wrap_chat_message("ann", "", 3, &mut out);
    assert_eq!(flat(&out)[2..], [pair("ann", ""), pair("", ": ")]);
    let mut thin: Vec<PaneLine> = Vec::new();
    wrap_chat_message("", "x", 0, &mut thin);
    assert_eq!(flat(&thin), vec![pair(":", ""), pair("", " "), pair("", "x")]);
}

#[test]
fn newest_chat_is_at_the_bottom() {
    let log: Vec<ChatLine> = (0..5)
        .map(|i| ChatLine { from: "v".to_string(), text: format!("{i}"), ts: 0 })
        .collect();
    assert_eq!(flat(&chat_lines(&log, 10, 2)), vec![pair("v: ", "3"), pair("v: ", "4")]);
    assert_eq!(flat(&chat_lines(&log, 10, 0)), vec![pair("v: ", "4")]);
    assert_eq!(chat_lines(&log, 10, 9).len(), 5);
    assert_eq!(flat(&chat_lines(&log, 3, 1)), vec![pair("", "4")]);
}

// ---------------------------------------------------------------------- layout

#[test]
fn screens_have_bars() {
    let area = Area { x: 0, y: 0, width: 80, height: 24 };
    let (top, body, bottom) = bars(area);
    assert_eq!(top, Area { x: 0, y: 0, width: 80, height: 1 });
    assert_eq!(body, Area { x: 0, y: 1, width: 80, height: 22 });
    assert_eq!(bottom, Area { x: 0, y: 23, width: 80, height: 1 });
}

#[test]
fn overlays_are_centered() {
    let area = Area { x: 0, y: 0, width: 100, height: 50 };
    assert_eq!(centered_rect(60, 20, area), Area { x: 20, y: 20, width: 60, height: 10 });
    assert!(matches!(middle_limits(60),
        [Limit::Percentage(20), Limit::Percentage(60), Limit::Percentage(20)]));
}

#[test]
fn panes_follow_the_state() {
    let body = Area { x: 0, y: 1, width: 100, height: 22 };
    let plain = panes(body, false, false, false);
    assert_eq!(plain.terminal, Some(body));
    assert!(plain.chat.is_none() && plain.overlay.is_none());
    let chat = panes(body, false, true, true);
    assert_eq!(chat.terminal, Some(Area { x: 0, y: 1, width: 66, height: 22 }));
    assert_eq!(chat.chat, Some(Area { x: 66, y: 1, width: 34, height: 22 }));
    assert!(chat.overlay.is_some());
    let only = panes(body, true, true, true);
    assert_eq!(only.chat, Some(body));
    assert!(only.terminal.is_none() && only.overlay.is_none());
}

/// The cell behind the last one of a line of cells.
fn end(start: u16, len: u16) -> i64 {
    (start as i64 + len as i64).min(65535)
}

#[test]
fn bars_lie_in_a_row_at_every_size() {
    for y in [0u16, 3, 65000, 65530, 65535] {
        for height in (0u16..60).chain([700, 65535]) {
            let (top, body, bottom) = bars(Area { x: 2, y, width: 9, height });
            let size = end(y, height) - y as i64;
            assert_eq!(top.y, y);
            assert_eq!(body.y, top.y + top.height);
            assert_eq!(bottom.y, body.y + body.height);
            assert_eq!(bottom.y as i64 + bottom.height as i64, end(y, height));
            if size >= 3 {
                assert_eq!((top.height, body.height as i64, bottom.height), (1, size - 2, 1));
            } else {
                assert_eq!(body.height as i64, size.min(1));
            }
            for part in [top, body, bottom] {
                assert_eq!((part.x, part.width), (2, 9));
            }
        }
    }
}

#[test]
fn panes_lie_side_by_side_at_every_size() {
    for x in [0u16, 3, 65000, 65530] {
        for width in (0u16..120).chain([700, 65535]) {
            let body = Area { x, y: 1, width, height: 9 };
            let p = panes(body, false, true, true);
            let (terminal, chat) = (p.terminal.unwrap(), p.chat.unwrap());
            let size = end(x, width) - x as i64;
            assert_eq!(terminal.x, x);
            assert_eq!(chat.x, terminal.x + terminal.width);
            assert_eq!(chat.x as i64 + chat.width as i64, end(x, width));
            if size >= 54 {
                assert_eq!(chat.width, 34);
            } else {
                assert_eq!(terminal.width as i64, size.min(20));
            }
            assert_eq!(p.overlay, Some(centered_rect(60, 20, terminal)));
        }
    }
}

#[test]
fn middles_lie_at_the_rounded_hundredth() {
    for start in [0u16, 5, 65000, 65400] {
        for len in (0u16..40).chain([79, 131, 200, 1001, 65535]) {
            for pct in [0u16, 1, 7, 20, 33, 50, 60, 61, 99, 100] {
                let mid = centered_rect(pct, 100, Area { x: start, y: 0, width: len, height: 3 });
                let size = end(start, len) - start as i64;
                let side = (100 - pct as i64) / 2;
                let from = start as i64 + (side * size + 50) / 100;
                let to = start as i64 + ((side + pct as i64) * size + 50) / 100;
                assert_eq!((mid.x as i64, mid.x as i64 + mid.width as i64), (from, to));
                assert_eq!((mid.y, mid.height), (0, 3));
            }
        }
    }
}

// -------------------------------------------------------------------- sessions

#[test]
fn waits_double_up_to_ten() {
    let mut b = Backoff::new();
    let waits: Vec<u64> = (0..6).map(|_| b.lost(false)).collect();
    assert_eq!(waits, vec![1, 2, 4, 8, 10, 10]);
    assert_eq!(b.lost(true), 1);
    assert_eq!(b.lost(false), 2);
}

#[test]
fn connections_go_on_until_the_viewer_is_gone() {
    let mut b = Backoff::new();
    let failed = SessionEnd::Lost { was_connected: false };
    let session = SessionEnd::Lost { was_connected: true };
    let waits: Vec<Option<u64>> = [failed, failed, failed, session, failed, SessionEnd::Shutdown]
        .iter()
        .map(|e| b.ended(*e))
        .collect();
    assert_eq!(waits, vec![Some(1), Some(2), Some(4), Some(1), Some(2), None]);
    assert_eq!(b.secs, 4);
}

fn told(n: Option<Net>) -> String {
    match n {
        Some(Net::Disconnected(why)) => why,
        other => panic!("{:?}", other),
    }
}

#[test]
fn connections_greet_first() {
    let mut p = Phase::Connecting;
    let name = Some("eve".to_string());
    let s = p.step(&name, LinkEvent::Open);
    assert!(matches!(s.send, Some(WatchToRelay::Hello(h))
        if h.version == PROTOCOL_VERSION && h.name == name && h.cols == 0 && h.rows == 0));
    let w = p.step(&name, LinkEvent::Arrived(Incoming::Binary(Some(RelayToWatch::Welcome))));
    assert!(matches!(w.tell, Some(Net::Connected)));
    assert!(matches!(p, Phase::Running));
    let c = p.step(&name, LinkEvent::Command(WatchToRelay::List));
    assert!(matches!(c.send, Some(WatchToRelay::List)));
    let m = p.step(&name, LinkEvent::Arrived(Incoming::Binary(Some(RelayToWatch::Ended))));
    assert!(matches!(m.tell, Some(Net::Msg(RelayToWatch::Ended))));
    let g = p.step(&name, LinkEvent::Arrived(Incoming::Ping(vec![1])));
    assert_eq!(g.pong, Some(vec![1]));
    assert!(matches!(p.step(&name, LinkEvent::ViewerGone).end, Some(SessionEnd::Shutdown)));
}

#[test]
fn failed_greetings_are_explained() {
    let none: Option<String> = None;
    let fail = |e: LinkEvent| {
        let mut p = Phase::Greeting;
        let s = p.step(&none, e);
        assert!(matches!(s.end, Some(SessionEnd::Lost { was_connected: false })));
        told(s.tell)
    };
    assert_eq!(fail(LinkEvent::SendFailed), "handshake send failed");
    let refused = Some(RelayToWatch::Error("too old".to_string()));
    assert_eq!(fail(LinkEvent::Arrived(Incoming::Binary(refused))), "too old");
    assert_eq!(fail(LinkEvent::Arrived(Incoming::Binary(None))), "bad handshake");
    assert_eq!(fail(LinkEvent::Arrived(Incoming::Closed)), "no handshake");
    let mut p = Phase::Connecting;
    let s = p.step(&none, LinkEvent::Refused("dns".to_string()));
    assert_eq!(told(s.tell), "dns");
}

#[test]
fn lost_connections_are_explained() {
    let none: Option<String> = None;
    let lose = |e: LinkEvent| {
        let mut p = Phase::Running;
        let s = p.step(&none, e);
        assert!(matches!(s.end, Some(SessionEnd::Lost { was_connected: true })));
        told(s.tell)
    };
    assert_eq!(lose(LinkEvent::SendFailed), "send failed");
    assert_eq!(lose(LinkEvent::Arrived(Incoming::Closing)), "relay closed");
    assert_eq!(lose(LinkEvent::Arrived(Incoming::Closed)), "relay closed");
    assert_eq!(lose(LinkEvent::Arrived(Incoming::Broken("reset".to_string()))), "reset");
    let mut p = Phase::Running;
    assert!(p.step(&none, LinkEvent::Arrived(Incoming::Binary(None))).end.is_none());
}

#[test]
fn listing_asks_after_the_welcome() {
    let mut s = Stage::Greeting;
    let early = RelayToWatch::Streams(vec![]);
    assert!(matches!(s.step(Incoming::Binary(Some(early))), Reply::Wait));
    assert!(matches!(s.step(Incoming::Ping(vec![2])), Reply::Pong(p) if p == vec![2]));
    assert!(matches!(s.step(Incoming::Closing), Reply::Wait));
    assert!(matches!(s.step(Incoming::Binary(Some(RelayToWatch::Welcome))), Reply::Ask));
    assert!(matches!(s.step(Incoming::Binary(Some(RelayToWatch::Ping))), Reply::Alive));
    let list = RelayToWatch::Streams(vec![info("a", "b")]);
    assert!(matches!(s.step(Incoming::Binary(Some(list))), Reply::List(l) if l.len() == 1));
}

#[test]
fn failed_listings_are_explained() {
    let err = || Incoming::Binary(Some(RelayToWatch::Error("x".to_string())));
    let why = |mut s: Stage, m: Incoming<RelayToWatch>| match s.step(m) {
        Reply::Fail(w) => w,
        other => panic!("{:?}", other),
    };
    assert_eq!(why(Stage::Greeting, err()), "relay refused the connection: x");
    assert_eq!(why(Stage::Asked, err()), "relay error: x");
    assert_eq!(
        why(Stage::Greeting, Incoming::Closed),
        "relay closed the connection during handshake"
    );
    assert_eq!(
        why(Stage::Asked, Incoming::Broken("e".to_string())),
        "relay closed the connection before sending the list"
    );
}

// --------------------------------------------------------------------- viewing

fn dump_of(r: &mut Registry, w: &mut Watcher) -> Vec<u8> {
    let mut sent = r.watch_fan(w, FanOut::Lagged);
    match sent.swap_remove(2) {
        Effect::Reply(RelayToWatch::Output(b)) => b,
        other => panic!("{:?}", other),
    }
}

/// A stream of the given size, and a watcher of it that has not joined yet.
fn stage(cols: u16, rows: u16) -> (Registry, u64, String, Watcher) {
    let mut r = Registry::new(None);
    let hello = HostHello {
        name: "ann".to_string(),
        shell: "bash".to_string(),
        public: false,
        cols,
        rows,
        auth_key: None,
        chat: false,
        version: PROTOCOL_VERSION.to_string(),
    };
    let (key, code) = match r.open_stream(&hello, 0, 9) {
        Admission::Accepted { key, code, .. } => (key, code),
        other => panic!("{:?}", other),
    };
    let open = WatchHello { version: PROTOCOL_VERSION.to_string(), name: None, cols: 0, rows: 0 };
    match watch_opening(Frame::Binary(Some(WatchToRelay::Hello(open)))) {
        Opening::Hello(w) => (r, key, code, w),
        _ => panic!("not let in"),
    }
}

fn host_says(r: &mut Registry, key: u64, viewer: &mut App, m: HostToRelay) {
    if let Some(b) = r.host_frame(key, Frame::Binary(Some(m))).fan {
        msg(viewer, deliver(b));
    }
}

fn viewer_joins(r: &mut Registry, w: &mut Watcher, viewer: &mut App, code: &str) {
    let join = Frame::Binary(Some(WatchToRelay::Join { target: code.to_string() }));
    for e in r.watch_frame(w, join, 0).effects {
        if let Effect::Reply(m) = e {
            msg(viewer, m);
        }
    }
}

#[test]
fn newcomers_see_the_placeholder_of_a_paused_stream() {
    let (mut r, key, code, mut w) = stage(20, 4);
    let mut viewer = app();
    host_says(&mut r, key, &mut viewer, HostToRelay::Privacy { paused: true });
    viewer_joins(&mut r, &mut w, &mut viewer, &code);
    assert!(viewer.watching && viewer.paused);
    let body = Area { x: 0, y: 1, width: 80, height: 22 };
    assert!(panes(body, false, false, viewer.paused).overlay.is_some());
    host_says(&mut r, key, &mut viewer, HostToRelay::Privacy { paused: false });
    assert!(!viewer.paused);
}

#[test]
fn lost_sizes_and_pauses_are_made_up_for() {
    let (mut r, key, code, mut w) = stage(20, 4);
    let mut viewer = app();
    viewer_joins(&mut r, &mut w, &mut viewer, &code);
    for m in [
        HostToRelay::Resize { cols: 30, rows: 6 },
        HostToRelay::Output(b"lost".to_vec()),
        HostToRelay::Privacy { paused: true },
    ] {
        r.host_frame(key, Frame::Binary(Some(m)));
    }
    for e in r.watch_fan(&mut w, FanOut::Lagged) {
        if let Effect::Reply(m) = e {
            msg(&mut viewer, m);
        }
    }
    assert!(viewer.paused);
    assert_eq!(viewer.joined.as_ref().map(|i| (i.cols, i.rows)), Some((30, 6)));
    let mut seen = vt100::Parser::new(6, 30, 0);
    seen.process(&screen_dump(&viewer).unwrap());
    assert_eq!(seen.screen().contents(), "lost");
}

#[test]
fn narrowing_does_not_lose_the_stream() {
    let (mut r, key, code, mut w) = stage(6, 4);
    let mut early = app();
    viewer_joins(&mut r, &mut w, &mut early, &code);
    let wide = "漢字漢字漢".as_bytes().to_vec();
    host_says(&mut r, key, &mut early, HostToRelay::Output(wide.clone()));
    host_says(&mut r, key, &mut early, HostToRelay::Resize { cols: 5, rows: 4 });
    let mut late = app();
    viewer_joins(&mut r, &mut w, &mut late, &code);
    for bytes in [b"\x1b[K\x1b[1;5Hx".to_vec(), wide, b"\x1b[2;1Hdone".to_vec()] {
        let fan = r.host_frame(key, Frame::Binary(Some(HostToRelay::Output(bytes)))).fan;
        match fan {
            Some(Bcast::Output(b)) => {
                msg(&mut early, RelayToWatch::Output(b.clone()));
                msg(&mut late, RelayToWatch::Output(b));
            }
            other => panic!("{:?}", other),
        }
    }
    let mirror = dump_of(&mut r, &mut w);
    assert_eq!(screen_dump(&late).unwrap(), mirror);
    assert_eq!(screen_dump(&early).unwrap(), mirror);
}

/// What a bare emulator writes that was given the same.
fn bare(rows: u16, cols: u16, pieces: &[&[u8]]) -> Vec<u8> {
    let mut p = vt100::Parser::new(rows, cols, 0);
    for piece in pieces {
        p.process(piece);
    }
    p.screen().contents_formatted()
}

fn text_of(m: &Mirror) -> String {
    m.screen().contents()
}

#[test]
fn one_row_is_drawn_like_any_other() {
    let lines: [&[u8]; 6] = [
        b"hi",
        b"one\r\ntwo",
        b"\x1b[31mred\x1b[m \x1b[5Gx\x1b[K",
        "│ λ é │".as_bytes(),
        b"full to the edge 20c",
        b"\x1b]0;a title that is longer than the row\x07ok",
    ];
    for line in lines {
        assert_eq!(Mirror::new(1, 20).draw(line).dump(), bare(1, 20, &[line]));
    }
    assert_eq!(text_of(&Mirror::new(1, 80).draw(b"hi")), "hi");
}

#[test]
fn one_row_scrolls_where_text_wraps() {
    let m = Mirror::new(1, 4).draw(b"abcdef");
    assert_eq!(text_of(&m), "ef");
    let m = m.draw("漢字".as_bytes());
    assert_eq!(text_of(&m), "字");
    assert_eq!(m.screen().cursor_position(), (0, 2));
    let edge = Mirror::new(1, 4).draw(b"abcd\x1b[2");
    assert_eq!(text_of(&edge), "abcd");
    assert_eq!(text_of(&edge.draw(b"Gx")), "axcd");
    assert_eq!(text_of(&Mirror::new(1, 1).draw(b"xyz")), "z");
}

#[test]
fn output_after_a_pause_is_drawn_on_one_row() {
    let (mut r, key, code, mut w) = stage(80, 1);
    for m in [
        HostToRelay::Privacy { paused: true },
        HostToRelay::Output(b"secret".to_vec()),
        HostToRelay::Privacy { paused: false },
        HostToRelay::Output(b"hi".to_vec()),
    ] {
        r.host_frame(key, Frame::Binary(Some(m)));
    }
    let mut viewer = app();
    viewer_joins(&mut r, &mut w, &mut viewer, &code);
    assert_eq!(text_of(viewer.screen.as_ref().unwrap()), "hi");
}

#[test]
fn narrow_screens_show_what_fits() {
    for text in ["λx│é", "abc", "漢", "e\u{301}"] {
        let b = text.as_bytes();
        assert_eq!(Mirror::new(9, 2).draw(b).dump(), bare(9, 2, &[b]));
    }
    let one = Mirror::new(9, 1).draw("λ漢é".as_bytes());
    assert_eq!(one.dump(), bare(9, 1, &["λé".as_bytes()]));
    let two = Mirror::new(9, 2).draw("a\u{17d8}b".as_bytes());
    assert_eq!(two.dump(), bare(9, 2, &[b"ab"]));
    let three = Mirror::new(9, 3).draw("a\u{17d8}b".as_bytes());
    assert_eq!(three.dump(), bare(9, 3, &["a\u{17d8}b".as_bytes()]));
}

#[test]
fn tabs_stop_at_the_last_column() {
    let m = Mirror::new(2, 65535).draw(b"hello\x1b[65530G");
    assert_eq!(m.screen().cursor_position(), (0, 65529));
    let m = m.draw(b"\tx");
    assert_eq!(m.screen().cursor_position(), (0, 65535));
    assert_eq!(m.screen().cell(0, 65534).unwrap().contents(), "x");
    assert_eq!(m.screen().cell(0, 0).unwrap().contents(), "h");
}

#[test]
fn narrowing_keeps_what_the_dump_does_not_hold() {
    // A full-screen editor with line drawing is narrowed and quits.
    let m = Mirror::new(6, 20)
        .draw("$ vi λ\r\n".as_bytes())
        .draw(b"\x1b[?1049h\x1b[2;5r")
        .draw("┌──────────────────┐".as_bytes())
        .resize(6, 19);
    let mut p = vt100::Parser::new(6, 20, 0);
    p.process("$ vi λ\r\n\x1b[?1049h\x1b[2;5r┌──────────────────┐".as_bytes());
    p.screen_mut().set_size(6, 19);
    assert_eq!(m.dump(), p.screen().contents_formatted());
    let m = m.draw(b"\x1b[5;1Hlast\nmore\x1b[?1049l");
    p.process(b"\x1b[5;1Hlast\nmore\x1b[?1049l");
    assert_eq!(m.dump(), p.screen().contents_formatted());
    assert_eq!(text_of(&m), "$ vi λ");
}

#[test]
fn cut_characters_are_blanked_on_both_screens() {
    let m = Mirror::new(3, 4)
        .draw("ab漢\x1b7\x1b[2;1Hxy".as_bytes())
        .draw(b"\x1b[?47h\x1b[3;1H")
        .draw("cd字\x1b[1;2r\x1b[2;2H\x1b[3".as_bytes());
    assert_eq!(m.screen().cursor_position(), (1, 1));
    let m = m.resize(3, 3);
    assert!(m.screen().alternate_screen());
    assert_eq!(m.screen().cursor_position(), (1, 1));
    assert_eq!(text_of(&m), "\n\ncd");
    assert!(!m.screen().cell(2, 2).unwrap().is_wide());
    // The sequence that had begun goes on.
    let m = m.draw(b"Gz\x1b[3;1H\x1b[K");
    assert_eq!(text_of(&m), "\n  z");
    // So does the main screen, with its cursor.
    let m = m.draw(b"\x1b[?47l\x1b[2Gw\x1b[1;3H\x1b[K!");
    assert_eq!(text_of(&m), "ab!\nxw");
    assert_eq!(text_of(&m.draw(b"\x1b8?")), "ab?\nxw");
}

#[test]
fn pieces_of_output_do_not_matter() {
    let all = "é a漢b\x1b[31;1mλ\x1b[m\x1b]2;t\x07\r\nend".as_bytes();
    let whole = Mirror::new(4, 12).draw(all).dump();
    for cut in 0..all.len() {
        assert_eq!(Mirror::new(4, 12).draw(&all[..cut]).draw(&all[cut..]).dump(), whole);
    }
    assert_eq!(whole, bare(4, 12, &[all]));
}

#[test]
fn any_output_can_be_drawn() {
    let pieces: Vec<&[u8]> = vec![
        b"plain text that is long enough to wrap around more than once, whatever the size",
        "漢字かな交じり文".as_bytes(),
        "e\u{301}\u{17d8}x\u{1f600}\u{200d}\u{feff}".as_bytes(),
        b"\x1b[K",
        b"\x1b[1K",
        b"\x1b[2J",
        b"\x1b[1;1H",
        b"\x1b[99;99H",
        b"\x1b[3P\x1b[3@\x1b[2X",
        b"\x1b[2L\x1b[2M\x1b[2S\x1b[2T",
        b"\x1b[1;2r\x1b[?6h",
        b"\x1b[3;4r",
        b"\x1b[2;9r\x1b[?6l",
        b"\x1b[99L\x1b[99M\x1b[99@\x1b[99P\x1b[99X",
        b"\x1b[5G\x1b[3d\x1b[9A\x1b[9B\x1b[9C\x1b[9D",
        b"\t\t\t\x08\x08",
        b"\r\n\n\x1bM\x1bM",
        b"\x1b[?1049h",
        b"\x1b[?47h",
        b"\x1b[?47l",
        b"\x1b[?1049l",
        b"\x1b7\x1b8\x1bc",
        b"\xff\xc3\x28\xe6\xbc",
    ];
    let sizes =
        [(2, 3), (2, 4), (3, 3), (4, 9), (1, 1), (1, 7), (9, 2), (9, 1), (5, 20), (4, 8), (24, 80)];
    let mut seed: u64 = 7;
    let mut m = Mirror::new(4, 20);
    for _ in 0..20000 {
        seed = seed.wrapping_mul(6364136223846793005).wrapping_add(1442695040888963407);
        let pick = (seed >> 33) as usize;
        m = if pick % 4 == 0 {
            let (rows, cols) = sizes[pick / 4 % sizes.len()];
            m.resize(rows, cols)
        } else {
            m.draw(pieces[pick / 4 % pieces.len()])
        };
        if pick % 7 == 0 {
            m.dump();
        }
    }
    for cols in [1, 2, 3, 4, 5, 8, 20] {
        let mut m = Mirror::new(2, cols);
        for _ in 0..5000 {
            seed = seed.wrapping_mul(6364136223846793005).wrapping_add(1442695040888963407);
            let pick = (seed >> 33) as usize;
            m = if pick % 9 == 0 {
                m.resize(1 + (pick / 9 % 7) as u16, cols)
            } else {
                m.draw(pieces[pick / 9 % pieces.len()])
            };
        }
        m.dump();
    }
}

#[test]
fn late_viewers_follow_the_mirror() {
    let mut r = Registry::new(None);
    let hello = HostHello {
        name: "ann".to_string(),
        shell: "bash".to_string(),
        public: false,
        cols: 20,
        rows: 4,
        auth_key: None,
        chat: false,
        version: PROTOCOL_VERSION.to_string(),
    };
    let (key, code) = match r.open_stream(&hello, 0, 9) {
        Admission::Accepted { key, code, .. } => (key, code),
        other => panic!("{:?}", other),
    };
    let output = |b: &[u8]| HostToRelay::Output(b.to_vec());
    r.host_frame(key, Frame::Binary(Some(output(b"one\r\n"))));

    let open = WatchHello { version: PROTOCOL_VERSION.to_string(), name: None, cols: 0, rows: 0 };
    let mut w = match watch_opening(Frame::Binary(Some(WatchToRelay::Hello(open)))) {
        Opening::Hello(w) => w,
        _ => panic!("not let in"),
    };
    let mut viewer = app();
    let join = Frame::Binary(Some(WatchToRelay::Join { target: code }));
    for e in r.watch_frame(&mut w, join, 0).effects {
        if let Effect::Reply(m) = e {
            msg(&mut viewer, m);
        }
    }
    let later = vec![
        output(b"\x1b[31mtwo"),
        HostToRelay::Privacy { paused: true },
        output(b"secret"),
        HostToRelay::Privacy { paused: false },
        HostToRelay::Resize { cols: 12, rows: 3 },
        output(b" three"),
    ];
    for m in later {
        if let Some(b) = r.host_frame(key, Frame::Binary(Some(m))).fan {
            msg(&mut viewer, deliver(b));
        }
    }
    let mirror = dump_of(&mut r, &mut w);
    assert_eq!(screen_dump(&viewer).unwrap(), mirror);
    let mut seen = vt100::Parser::new(3, 12, 0);
    seen.process(&mirror);
    assert_eq!(seen.screen().contents(), "one\ntwo three");
    assert_eq!(viewer.joined.as_ref().map(|i| (i.cols, i.rows)), Some((12, 3)));
}
