use tcast::protocol::{HostHello, HostToRelay, RelayToHost, RelayToWatch, WatchHello, WatchToRelay,
    PROTOCOL_VERSION};
use tcast::relay::auth::{ct_eq, key_matches};
use tcast::relay::codes::{code_from, draw_codes, make_code, make_id, CODE_ALPHABET, ID_ALPHABET};
use tcast::relay::registry::{deliver, host_opening, watch_opening, welcome, Admission, Bcast, Effect,
    FanOut, Frame, Opening, Registry, Watcher};
use tcast::relay::sanitize::{sanitize_chat, sanitize_name, slug};

fn greeting(name: &str, public: bool, chat: bool) -> HostHello {
    HostHello {
        name: name.to_string(),
        shell: "bash".to_string(),
        public,
        cols: 20,
        rows: 4,
        auth_key: None,
        chat,
        version: PROTOCOL_VERSION.to_string(),
    }
}

fn open(r: &mut Registry, name: &str, public: bool, chat: bool) -> (u64, String, String) {
    match r.open_stream(&greeting(name, public, chat), 1000, 100) {
        Admission::Accepted { key, id, code } => (key, id, code),
        other => panic!("not accepted: {:?}", other),
    }
}

fn watcher(name: Option<&str>) -> Watcher {
    let h = WatchHello {
        version: PROTOCOL_VERSION.to_string(),
        name: name.map(|n| n.to_string()),
        cols: 0,
        rows: 0,
    };
    match watch_opening(Frame::Binary(Some(WatchToRelay::Hello(h)))) {
        Opening::Hello(w) => w,
        _ => panic!("not let in"),
    }
}

fn say(r: &mut Registry, w: &mut Watcher, m: WatchToRelay, now: u64) -> Vec<Effect> {
    let step = r.watch_frame(w, Frame::Binary(Some(m)), now);
    assert!(!step.done);
    step.effects
}

fn join(r: &mut Registry, w: &mut Watcher, target: &str) -> Vec<Effect> {
    say(r, w, WatchToRelay::Join { target: target.to_string() }, 0)
}

fn listed(r: &mut Registry) -> Vec<(String, u32)> {
    r.collect_public().into_iter().map(|i| (i.name, i.viewers)).collect()
}

// ---------------------------------------------------------------- cleaning

#[test]
fn chat_is_cleaned() {
    assert_eq!(sanitize_chat("hi there"), Some("hi there".to_string()));
    assert_eq!(sanitize_chat("  a\t\tb \n c  "), Some("a b c".to_string()));
    assert_eq!(sanitize_chat("\u{1b}[31mred\u{1b}[0m"), Some("[31mred [0m".to_string()));
    assert_eq!(sanitize_chat("x\u{7f}y\u{9b}z"), Some("x y z".to_string()));
}

#[test]
fn blank_chat_is_dropped() {
    assert_eq!(sanitize_chat(""), None);
    assert_eq!(sanitize_chat(" \u{3000}\t\u{7} "), None);
}

#[test]
fn chat_is_capped() {
    assert_eq!(sanitize_chat(&"é".repeat(300)), Some("é".repeat(256)));
    let spaced = format!("{} tail", "x".repeat(255));
    assert_eq!(sanitize_chat(&spaced), Some("x".repeat(255)));
}

#[test]
fn cleaning_chat_twice_changes_nothing() {
    let once = sanitize_chat(" a \u{1b}b  c ").unwrap();
    assert_eq!(sanitize_chat(&once), Some(once.clone()));
}

#[test]
fn names_are_cleaned() {
    assert_eq!(sanitize_name(" jean\u{1b} "), "jean");
    assert_eq!(sanitize_name("a  b"), "a  b");
    assert_eq!(sanitize_name("\u{0}\t"), "anon");
    assert_eq!(sanitize_name(""), "anon");
    assert_eq!(sanitize_name(&"n".repeat(30)), "n".repeat(24));
}

// -------------------------------------------------------------------- codes

#[test]
fn slugs_are_short_and_plain() {
    assert_eq!(slug("Jean Paul!"), "jeanpaul");
    assert_eq!(slug("ABCDEFGHIJKLMNOP"), "abcdefghijkl");
    assert_eq!(slug("éé"), "term");
    assert_eq!(code_from("Jean", "9F3X"), "jean-9F3X");
}

#[test]
fn drawn_codes_have_the_right_shape() {
    for _ in 0..50 {
        let c = make_code("Zoë 7");
        assert_eq!(c.len(), 8);
        assert!(c.starts_with("zo7-"));
        assert!(c[4..].chars().all(|x| CODE_ALPHABET.contains(&x)));
    }
}

#[test]
fn drawn_ids_have_the_right_shape() {
    let a = make_id();
    let b = make_id();
    assert_eq!(a.len(), 10);
    assert!(a.chars().all(|x| ID_ALPHABET.contains(&x)));
    assert!(a != b);
}

// ---------------------------------------------------------------------- key

#[test]
fn byte_strings_are_compared() {
    assert!(ct_eq(b"abc", b"abc"));
    assert!(!ct_eq(b"abc", b"abd"));
    assert!(!ct_eq(b"abc", b"ab"));
    assert!(!ct_eq(b"a", b"a\0"));
    assert!(ct_eq(b"", b""));
}

#[test]
fn presented_keys_are_compared() {
    let key = "schlüssel".to_string();
    assert!(key_matches(&Some("schlüssel".to_string()), &key));
    assert!(!key_matches(&Some("schluessel".to_string()), &key));
    assert!(!key_matches(&None, &key));
    assert!(key_matches(&None, &String::new()));
}

// -------------------------------------------------------------------- hosts

#[test]
fn hosts_must_say_hello_first() {
    assert!(matches!(
        host_opening(Frame::Binary(Some(HostToRelay::Hello(greeting("a", true, true))))),
        Opening::Hello(_)
    ));
    assert!(matches!(host_opening(Frame::Binary(Some(HostToRelay::Pong))),
        Opening::Refuse(RelayToHost::Error(e)) if e == "expected Hello"));
    assert!(matches!(host_opening(Frame::Binary(None)),
        Opening::Refuse(RelayToHost::Error(e)) if e == "expected Hello"));
    assert!(matches!(host_opening(Frame::Other), Opening::Nothing));
    assert!(matches!(host_opening(Frame::Gone), Opening::Nothing));
}

#[test]
fn other_versions_are_refused() {
    let r = Registry::new(None);
    let mut h = greeting("a", true, true);
    h.version = "0.1".to_string();
    assert_eq!(r.refuse(&h), Some("protocol mismatch: relay 0.2, host 0.1".to_string()));
}

#[test]
fn wrong_keys_are_refused() {
    let mut r = Registry::new(Some("sesame".to_string()));
    let mut h = greeting("a", true, true);
    assert!(matches!(r.open_stream(&h, 0, 9),
        Admission::Refused(RelayToHost::Error(e)) if e == "invalid auth key"));
    h.auth_key = Some("sesame".to_string());
    assert!(matches!(r.open_stream(&h, 0, 9), Admission::Accepted { key: 0, .. }));
}

#[test]
fn full_relays_refuse() {
    let mut r = Registry::new(None);
    for i in 0..512 {
        let (key, _, _) = open(&mut r, "s", false, false);
        assert_eq!(key, i);
    }
    assert_eq!(r.refuse(&greeting("x", true, true)), Some("relay at capacity".to_string()));
    let (_, _, code) = {
        let mut one = Registry::new(None);
        open(&mut one, "s", false, false)
    };
    r.host_gone(3, &code);
    assert_eq!(r.refuse(&greeting("x", true, true)), None);
}

#[test]
fn hosts_are_welcomed() {
    assert!(matches!(welcome("id", "c-2"),
        RelayToHost::Welcome { stream_id, code, viewers: 0 } if stream_id == "id" && code == "c-2"));
}

#[test]
fn no_code_without_an_attempt() {
    let mut r = Registry::new(None);
    assert!(matches!(r.open_stream(&greeting("a", true, true), 0, 0), Admission::Taken));
}

#[test]
fn the_first_free_code_is_taken() {
    let mut r = Registry::new(None);
    let drawn: Vec<String> = ["a-2222", "a-3333", "a-4444"].iter().map(|c| c.to_string()).collect();
    let hello = greeting("a", true, true);
    assert_eq!(r.first_free(&drawn), Some(0));
    assert_eq!(r.first_free(&[]), None);
    for (i, want) in ["a-2222", "a-3333", "a-4444"].iter().enumerate() {
        match r.open_with(&hello, format!("id{i}"), &drawn, 7) {
            Admission::Accepted { key, id, code } => {
                assert_eq!((key, id, code), (i as u64, format!("id{i}"), want.to_string()));
            }
            other => panic!("{:?}", other),
        }
    }
    assert_eq!(r.first_free(&drawn), None);
    assert!(matches!(r.open_with(&hello, "id3".to_string(), &drawn, 7), Admission::Taken));
    r.host_gone(1, "a-3333");
    assert_eq!(r.first_free(&drawn), Some(1));
    let mut other = greeting("a", true, true);
    other.version = "9".to_string();
    assert!(matches!(r.open_with(&other, "id4".to_string(), &drawn, 7), Admission::Refused(_)));
}

#[test]
fn codes_are_drawn_in_number() {
    let drawn = draw_codes("Ann", 5);
    assert_eq!(drawn.len(), 5);
    assert!(drawn.iter().all(|c| c.len() == 8 && c.starts_with("ann-")));
    assert!(draw_codes("Ann", 0).is_empty());
}

#[test]
fn output_is_fanned_out_unless_paused() {
    let mut r = Registry::new(None);
    let (key, _, _) = open(&mut r, "a", true, true);
    let out = |x: &[u8]| Frame::Binary(Some(HostToRelay::Output(x.to_vec())));
    let a = r.host_frame(key, out(b"hi"));
    assert!(matches!(a.fan, Some(Bcast::Output(b)) if b == b"hi"));
    let p = r.host_frame(key, Frame::Binary(Some(HostToRelay::Privacy { paused: true })));
    assert!(matches!(p.fan, Some(Bcast::Privacy(true))));
    assert!(r.host_frame(key, out(b"secret")).fan.is_none());
    let v = r.host_frame(key, Frame::Binary(Some(HostToRelay::Audio(vec![1, 2]))));
    assert!(matches!(v.fan, Some(Bcast::Audio(b)) if b == vec![1, 2]));
    let q = r.host_frame(key, Frame::Binary(Some(HostToRelay::Privacy { paused: false })));
    assert!(matches!(q.fan, Some(Bcast::Privacy(false))));
    assert!(r.host_frame(key, out(b"on")).fan.is_some());
}

#[test]
fn sizes_are_at_least_one() {
    let mut r = Registry::new(None);
    let (key, id, _) = open(&mut r, "a", true, true);
    let s = r.host_frame(key, Frame::Binary(Some(HostToRelay::Resize { cols: 0, rows: 9 })));
    assert!(matches!(s.fan, Some(Bcast::Resize { cols: 1, rows: 9 })));
    let mut w = watcher(None);
    let e = join(&mut r, &mut w, &id);
    assert!(matches!(&e[3], Effect::Reply(RelayToWatch::Joined { info, .. })
        if info.cols == 1 && info.rows == 9));
}

#[test]
fn other_host_frames_do_nothing() {
    let mut r = Registry::new(None);
    let (key, _, _) = open(&mut r, "a", true, true);
    for f in [
        Frame::Binary(Some(HostToRelay::Pong)),
        Frame::Binary(Some(HostToRelay::Hello(greeting("b", true, true)))),
        Frame::Binary(None),
        Frame::Other,
    ] {
        let s = r.host_frame(key, f);
        assert!(s.fan.is_none() && !s.done);
    }
    assert!(r.host_frame(key, Frame::Binary(Some(HostToRelay::Bye))).done);
    assert!(r.host_frame(key, Frame::Gone).done);
}

// ---------------------------------------------------------------- directory

#[test]
fn listing_is_public_and_in_order() {
    let mut r = Registry::new(None);
    open(&mut r, "zoe", true, false);
    open(&mut r, "hidden", false, false);
    let (_, _, code) = open(&mut r, "bob", true, false);
    open(&mut r, "al", true, false);
    open(&mut r, "ali", true, false);
    let all = listed(&mut r);
    let names: Vec<&str> = all.iter().map(|x| x.0.as_str()).collect();
    assert_eq!(names, vec!["al", "ali", "bob", "zoe"]);
    let mut w = watcher(None);
    join(&mut r, &mut w, &code);
    assert_eq!(listed(&mut r)[0], ("bob".to_string(), 1));
    let e = say(&mut r, &mut w, WatchToRelay::List, 0);
    assert!(matches!(&e[..], [Effect::Reply(RelayToWatch::Streams(l))] if l.len() == 4));
}

#[test]
fn private_streams_are_joined_by_code_alone() {
    let mut r = Registry::new(None);
    let (key, id, code) = open(&mut r, "a", false, false);
    assert_eq!(r.resolve(&code), Some(key));
    assert_eq!(r.resolve(&id), None);
    let (other, pid, pcode) = open(&mut r, "b", true, false);
    assert_eq!(r.resolve(&pid), Some(other));
    assert_eq!(r.resolve(&pcode), Some(other));
    assert_eq!(r.resolve("nothing"), None);
}

#[test]
fn ended_streams_are_gone() {
    let mut r = Registry::new(None);
    let (key, id, code) = open(&mut r, "a", true, false);
    assert!(matches!(r.host_gone(key, &code), Effect::Fan(k, Bcast::Ended) if k == key));
    assert_eq!(r.resolve(&code), None);
    assert_eq!(r.resolve(&id), None);
    assert!(listed(&mut r).is_empty());
    assert!(!r.has_stream(key));
}

// ----------------------------------------------------------------- watchers

#[test]
fn watchers_must_say_hello_first() {
    assert!(matches!(watch_opening(Frame::Binary(Some(WatchToRelay::List))),
        Opening::Refuse(RelayToWatch::Error(e)) if e == "expected Hello"));
    assert!(matches!(watch_opening(Frame::Other), Opening::Nothing));
    let h = WatchHello { version: "9".to_string(), name: None, cols: 0, rows: 0 };
    assert!(matches!(watch_opening(Frame::Binary(Some(WatchToRelay::Hello(h)))),
        Opening::Refuse(RelayToWatch::Error(e)) if e == "protocol mismatch: relay 0.2, watcher 9"));
}

#[test]
fn late_joiners_get_the_screen() {
    let mut r = Registry::new(None);
    let (key, _, code) = open(&mut r, "a", false, false);
    r.host_frame(key, Frame::Binary(Some(HostToRelay::Output(b"hello\r\nworld".to_vec()))));
    let mut w = watcher(None);
    let e = join(&mut r, &mut w, &code);
    assert_eq!(e.len(), 4);
    assert!(matches!(e[0], Effect::Subscribe(k) if k == key));
    assert!(matches!(e[1], Effect::ToHost(k, RelayToHost::Viewers(1)) if k == key));
    assert!(matches!(e[2], Effect::Fan(k, Bcast::Viewers(1)) if k == key));
    let mut want = vt100::Parser::new(4, 20, 0);
    want.process(b"hello\r\nworld");
    match &e[3] {
        Effect::Reply(RelayToWatch::Joined { info, snapshot }) => {
            assert_eq!(info.viewers, 1);
            assert_eq!(info.started_unix, 1000);
            assert_eq!(*snapshot, want.screen().contents_formatted());
            let mut seen = vt100::Parser::new(4, 20, 0);
            seen.process(snapshot);
            assert_eq!(seen.screen().contents(), "hello\nworld");
        }
        other => panic!("{:?}", other),
    }
}

#[test]
fn paused_output_is_not_in_the_screen() {
    let mut r = Registry::new(None);
    let (key, _, code) = open(&mut r, "a", false, false);
    let send = |r: &mut Registry, m: HostToRelay| {
        r.host_frame(key, Frame::Binary(Some(m)));
    };
    send(&mut r, HostToRelay::Output(b"open".to_vec()));
    send(&mut r, HostToRelay::Privacy { paused: true });
    send(&mut r, HostToRelay::Output(b" hunter2".to_vec()));
    let mut w = watcher(None);
    let e = join(&mut r, &mut w, &code);
    match &e[3] {
        Effect::Reply(RelayToWatch::Joined { snapshot, .. }) => {
            let mut seen = vt100::Parser::new(4, 20, 0);
            seen.process(snapshot);
            assert_eq!(seen.screen().contents(), "open");
        }
        other => panic!("{:?}", other),
    }
}

#[test]
fn newcomers_are_told_of_a_pause() {
    let mut r = Registry::new(None);
    let (key, _, code) = open(&mut r, "a", false, false);
    let mut w = watcher(None);
    r.host_frame(key, Frame::Binary(Some(HostToRelay::Privacy { paused: true })));
    let e = join(&mut r, &mut w, &code);
    assert_eq!(e.len(), 5);
    assert!(matches!(e[3], Effect::Reply(RelayToWatch::Joined { .. })));
    assert!(matches!(e[4], Effect::Reply(RelayToWatch::Privacy { paused: true })));
    r.host_frame(key, Frame::Binary(Some(HostToRelay::Privacy { paused: false })));
    let mut v = watcher(None);
    assert_eq!(join(&mut r, &mut v, &code).len(), 4);
}

#[test]
fn unknown_targets_are_answered() {
    let mut r = Registry::new(None);
    let mut w = watcher(None);
    let e = join(&mut r, &mut w, "nope");
    assert!(matches!(&e[..], [Effect::Reply(RelayToWatch::Error(t))]
        if t == "no live stream for 'nope'"));
}

#[test]
fn viewers_are_counted() {
    let mut r = Registry::new(None);
    let (_, id, code) = open(&mut r, "a", true, false);
    let mut w = watcher(None);
    let mut v = watcher(None);
    join(&mut r, &mut w, &id);
    join(&mut r, &mut v, &code);
    assert_eq!(listed(&mut r), vec![("a".to_string(), 2)]);
    let again = join(&mut r, &mut v, &id);
    assert_eq!(again.len(), 7);
    assert!(matches!(again[0], Effect::ToHost(_, RelayToHost::Viewers(1))));
    assert!(matches!(again[1], Effect::Fan(_, Bcast::Viewers(1))));
    assert!(matches!(again[2], Effect::Unsubscribe));
    assert_eq!(listed(&mut r), vec![("a".to_string(), 2)]);
    let e = say(&mut r, &mut w, WatchToRelay::Leave, 0);
    assert_eq!(e.len(), 3);
    assert!(say(&mut r, &mut w, WatchToRelay::Leave, 0).is_empty());
    r.watch_gone(&mut v);
    assert_eq!(listed(&mut r), vec![("a".to_string(), 0)]);
}

#[test]
fn chat_needs_a_stream_that_accepts_it() {
    let mut r = Registry::new(None);
    let (_, _, quiet) = open(&mut r, "q", false, false);
    let mut w = watcher(Some("eve"));
    let chat = || WatchToRelay::Chat { text: "hi".to_string() };
    assert!(say(&mut r, &mut w, chat(), 1).is_empty());
    join(&mut r, &mut w, &quiet);
    let e = say(&mut r, &mut w, chat(), 1);
    assert!(matches!(&e[..], [Effect::Reply(RelayToWatch::Error(t))]
        if t == "chat is disabled for this stream"));
}

#[test]
fn chat_is_passed_on_clean() {
    let mut r = Registry::new(None);
    let (key, _, code) = open(&mut r, "a", false, true);
    let mut w = watcher(Some(" e\u{1b}ve "));
    join(&mut r, &mut w, &code);
    let e = say(&mut r, &mut w, WatchToRelay::Chat { text: "\u{1b}hi\n".to_string() }, 77);
    assert!(matches!(&e[..], [Effect::Fan(k, Bcast::Chat { from, text, ts: 77 })]
        if *k == key && from == "eve" && text == "hi"));
    assert!(say(&mut r, &mut w, WatchToRelay::Chat { text: " \n".to_string() }, 77).is_empty());
    let mut anon = watcher(None);
    join(&mut r, &mut anon, &code);
    let e = say(&mut r, &mut anon, WatchToRelay::Chat { text: "x".to_string() }, 78);
    assert!(matches!(&e[..], [Effect::Fan(_, Bcast::Chat { from, .. })] if from == "anon"));
}

#[test]
fn chat_is_limited_to_five_in_ten_seconds() {
    let mut r = Registry::new(None);
    let (_, _, code) = open(&mut r, "a", false, true);
    let mut w = watcher(None);
    join(&mut r, &mut w, &code);
    let mut passed: Vec<u64> = Vec::new();
    for now in [100, 101, 102, 103, 104, 105, 109, 110, 110, 111, 111] {
        let e = say(&mut r, &mut w, WatchToRelay::Chat { text: "x".to_string() }, now);
        if !e.is_empty() {
            passed.push(now);
        }
    }
    assert_eq!(passed, vec![100, 101, 102, 103, 104, 110, 111]);
}

#[test]
fn watchers_learn_of_the_end() {
    let mut r = Registry::new(None);
    let (key, _, code) = open(&mut r, "a", true, true);
    let mut w = watcher(None);
    join(&mut r, &mut w, &code);
    assert!(!r.may_reach(&w, &FanOut::Event(Bcast::Ended)));
    r.host_gone(key, &code);
    assert!(r.has_stream(key) && r.holds_for(&w));
    assert!(r.may_reach(&w, &FanOut::Event(Bcast::Ended)));
    let e = r.watch_fan(&mut w, FanOut::Event(Bcast::Ended));
    assert!(matches!(&e[..], [Effect::Reply(RelayToWatch::Ended), Effect::Unsubscribe]));
    assert!(!r.has_stream(key));
    assert!(say(&mut r, &mut w, WatchToRelay::Leave, 0).is_empty());
}

#[test]
fn slow_watchers_are_resynced() {
    let mut r = Registry::new(None);
    let (key, _, code) = open(&mut r, "a", true, true);
    let mut w = watcher(None);
    assert!(r.watch_fan(&mut w, FanOut::Lagged).is_empty());
    join(&mut r, &mut w, &code);
    r.host_frame(key, Frame::Binary(Some(HostToRelay::Output(b"abc".to_vec()))));
    let e = r.watch_fan(&mut w, FanOut::Lagged);
    let mut want = vt100::Parser::new(4, 20, 0);
    want.process(b"abc");
    assert!(matches!(&e[..], [
            Effect::Subscribe(k),
            Effect::Reply(RelayToWatch::Resize { cols: 20, rows: 4 }),
            Effect::Reply(RelayToWatch::Output(b)),
            Effect::Reply(RelayToWatch::Privacy { paused: false }),
        ] if *k == key && *b == want.screen().contents_formatted()));
    r.host_frame(key, Frame::Binary(Some(HostToRelay::Resize { cols: 30, rows: 5 })));
    r.host_frame(key, Frame::Binary(Some(HostToRelay::Privacy { paused: true })));
    let again = r.watch_fan(&mut w, FanOut::Lagged);
    assert!(matches!(&again[..], [
        Effect::Subscribe(_),
        Effect::Reply(RelayToWatch::Resize { cols: 30, rows: 5 }),
        Effect::Reply(RelayToWatch::Output(_)),
        Effect::Reply(RelayToWatch::Privacy { paused: true }),
    ]));
    let closed = r.watch_fan(&mut w, FanOut::Closed);
    assert!(matches!(&closed[..], [Effect::Unsubscribe]));
}

#[test]
fn events_are_delivered() {
    assert!(matches!(deliver(Bcast::Output(vec![1])), RelayToWatch::Output(b) if b == vec![1]));
    assert!(matches!(deliver(Bcast::Resize { cols: 1, rows: 2 }),
        RelayToWatch::Resize { cols: 1, rows: 2 }));
    assert!(matches!(deliver(Bcast::Privacy(true)), RelayToWatch::Privacy { paused: true }));
    assert!(matches!(deliver(Bcast::Viewers(4)), RelayToWatch::Viewers(4)));
    assert!(matches!(deliver(Bcast::Ended), RelayToWatch::Ended));
    assert!(matches!(deliver(Bcast::Audio(vec![9])), RelayToWatch::Audio(b) if b == vec![9]));
    assert!(matches!(
        deliver(Bcast::Chat { from: "a".to_string(), text: "b".to_string(), ts: 3 }),
        RelayToWatch::Chat { from, text, ts_unix: 3 } if from == "a" && text == "b"));
}

#[test]
fn other_watch_frames_do_nothing() {
    let mut r = Registry::new(None);
    let mut w = watcher(None);
    assert!(say(&mut r, &mut w, WatchToRelay::Pong, 0).is_empty());
    let s = r.watch_frame(&mut w, Frame::Binary(None), 0);
    assert!(s.effects.is_empty() && !s.done);
    assert!(!r.watch_frame(&mut w, Frame::Other, 0).done);
    assert!(r.watch_frame(&mut w, Frame::Gone, 0).done);
    assert!(r.has_room(&w, "anything"));
}
