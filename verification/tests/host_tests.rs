use tcast::host::{admitted, banner, default_name, default_shell, hello, key_label, prefix_key,
    shell_label, status, voice_ready, Bindings, Ctl, Event, Keys, Session, StreamConfig,
    DEFAULT_PREFIX};
use tcast::link::{endpoint, Incoming};
use tcast::protocol::{HostToRelay, RelayToHost, PROTOCOL_VERSION};

fn keys() -> Bindings {
    Bindings { prefix: DEFAULT_PREFIX, voice_key: 0x14, voice: false }
}

#[test]
fn shell_labels() {
    assert_eq!(shell_label("/bin/bash"), "bash");
    assert_eq!(shell_label("C:\\Windows\\System32\\powershell.exe"), "powershell");
    assert_eq!(shell_label("powershell.exe"), "powershell");
    assert_eq!(shell_label("zsh"), "zsh");
    assert_eq!(shell_label("a/b\\c.exe.exe"), "c.exe");
    assert_eq!(shell_label(".exe"), "");
    assert_eq!(shell_label("dir/"), "");
    assert_eq!(shell_label(""), "");
    assert_eq!(shell_label("x.EXE"), "x.EXE");
}

#[test]
fn defaults_come_from_the_environment() {
    assert_eq!(default_shell(true, Some("/bin/zsh".to_string())), "powershell.exe");
    assert_eq!(default_shell(false, Some("/bin/zsh".to_string())), "/bin/zsh");
    assert_eq!(default_shell(false, None), "/bin/bash");
    assert_eq!(default_name(Some("a".to_string()), Some("b".to_string())), "a");
    assert_eq!(default_name(None, Some("b".to_string())), "b");
    assert_eq!(default_name(None, None), "anon");
}

#[test]
fn endpoints_ignore_trailing_slashes() {
    assert_eq!(endpoint("ws://127.0.0.1:4455", "/host"), "ws://127.0.0.1:4455/host");
    assert_eq!(endpoint("wss://r.example.com///", "/watch"), "wss://r.example.com/watch");
    assert_eq!(endpoint("//", "/host"), "/host");
}

#[test]
fn prefix_letters_map_to_control_codes() {
    assert_eq!(prefix_key(Some('a')).unwrap(), 1);
    assert_eq!(prefix_key(Some('O')).unwrap(), 15);
    assert_eq!(prefix_key(Some('z')).unwrap(), 26);
    assert_eq!(prefix_key(None).unwrap(), 0x1D);
}

#[test]
fn prefix_must_be_a_letter() {
    assert_eq!(prefix_key(Some('1')).unwrap_err().got, '1');
    assert_eq!(prefix_key(Some('é')).unwrap_err().got, 'é');
}

#[test]
fn key_labels() {
    assert_eq!(key_label(DEFAULT_PREFIX), "Ctrl-]");
    assert_eq!(key_label(15), "Ctrl-O");
    assert_eq!(voice_ready(20), "tcast · voice ready — press Ctrl-T to talk (toggles your mic)");
}

#[test]
fn plain_keys_reach_the_shell() {
    let mut k = Keys::new();
    let t = k.take(&keys(), b"ls -l\r\x14");
    assert_eq!(t.forward, b"ls -l\r\x14");
    assert!(t.commands.is_empty() && !t.quit);
}

#[test]
fn privacy_is_toggled() {
    let mut k = Keys::new();
    let t = k.take(&keys(), b"a\x1dpb\x1dPc");
    assert_eq!(t.forward, b"abc");
    assert_eq!(t.commands.len(), 2);
    assert!(matches!(t.commands[0], Ctl::Privacy(true)));
    assert!(matches!(t.commands[1], Ctl::Privacy(false)));
}

#[test]
fn prefix_twice_is_literal() {
    let mut k = Keys::new();
    let t = k.take(&keys(), b"\x1d\x1d");
    assert_eq!(t.forward, b"\x1d");
    assert!(t.commands.is_empty());
}

#[test]
fn prefix_may_be_split_from_its_command() {
    let mut k = Keys::new();
    let t = k.take(&keys(), b"x\x1d");
    assert_eq!(t.forward, b"x");
    let u = k.take(&keys(), b"py");
    assert_eq!(u.forward, b"y");
    assert!(matches!(u.commands[0], Ctl::Privacy(true)));
}

#[test]
fn unknown_commands_are_swallowed() {
    let mut k = Keys::new();
    let t = k.take(&keys(), b"\x1dzx");
    assert_eq!(t.forward, b"x");
    assert!(t.commands.is_empty());
}

#[test]
fn quitting_stops_everything() {
    let mut k = Keys::new();
    let t = k.take(&keys(), b"abc\x1dqdef\x1dp");
    assert!(t.quit);
    assert!(t.forward.is_empty());
    assert_eq!(t.commands.len(), 1);
    assert!(matches!(t.commands[0], Ctl::Quit));
}

#[test]
fn microphone_is_toggled_where_there_is_one() {
    let b = Bindings { prefix: DEFAULT_PREFIX, voice_key: 0x14, voice: true };
    let mut k = Keys::new();
    let t = k.take(&b, b"\x14a\x1dtb\x1d\x14c");
    assert_eq!(t.forward, b"abc");
    assert_eq!(t.commands.len(), 2);
    assert!(matches!(t.commands[0], Ctl::Talk(true)));
    assert!(matches!(t.commands[1], Ctl::Talk(false)));
    let mut plain = Keys::new();
    let u = plain.take(&keys(), b"\x1dtz");
    assert_eq!(u.forward, b"z");
    assert!(u.commands.is_empty());
}

fn config() -> StreamConfig {
    StreamConfig {
        relay: "ws://r".to_string(),
        name: None,
        shell: None,
        public: true,
        auth_key: Some("k".to_string()),
        chat: true,
        voice: false,
        voice_key: 0x14,
        prefix: DEFAULT_PREFIX,
    }
}

#[test]
fn greeting_carries_the_settings() {
    let h = hello(&config(), "jean", "/usr/bin/fish", 120, 40);
    assert_eq!(h.name, "jean");
    assert_eq!(h.shell, "fish");
    assert!(h.public && h.chat);
    assert_eq!((h.cols, h.rows), (120, 40));
    assert_eq!(h.auth_key, Some("k".to_string()));
    assert_eq!(h.version, PROTOCOL_VERSION);
}

#[test]
fn welcome_admits() {
    let (id, code) = admitted(Incoming::Binary(Some(RelayToHost::Welcome {
        stream_id: "id".to_string(),
        code: "c-1".to_string(),
        viewers: 0,
    })))
    .unwrap();
    assert_eq!((id.as_str(), code.as_str()), ("id", "c-1"));
}

#[test]
fn refusals_are_explained() {
    let e = admitted(Incoming::Binary(Some(RelayToHost::Error("relay at capacity".to_string()))));
    assert_eq!(e.unwrap_err(), "relay refused the stream: relay at capacity");
    let e = admitted(Incoming::Binary(Some(RelayToHost::Ping)));
    assert_eq!(e.unwrap_err(), "unexpected first frame from relay");
    assert_eq!(admitted(Incoming::Binary(None)).unwrap_err(), "unexpected first frame from relay");
    for m in [Incoming::Closed, Incoming::Other, Incoming::Closing] {
        assert_eq!(admitted(m).unwrap_err(), "relay closed the connection during handshake");
    }
}

#[test]
fn output_and_voice_are_sent() {
    let mut s = Session::new(80, 24);
    let a = s.step(Event::Output(vec![1, 2]));
    assert!(a.vital && !a.done);
    assert!(matches!(&a.sends[..], [HostToRelay::Output(b)] if *b == vec![1, 2]));
    let v = s.step(Event::Voice(vec![1, -1]));
    assert!(matches!(&v.sends[..], [HostToRelay::Audio(b)] if *b == vec![1, 0, 255, 255]));
}

#[test]
fn commands_are_sent() {
    let mut s = Session::new(80, 24);
    let a = s.step(Event::Command(Ctl::Privacy(true)));
    assert!(matches!(&a.sends[..], [HostToRelay::Privacy { paused: true }]));
    assert!(!a.vital && !a.done);
    let q = s.step(Event::Command(Ctl::Quit));
    assert!(matches!(&q.sends[..], [HostToRelay::Bye]));
    assert!(q.done);
    let t = s.step(Event::Command(Ctl::Talk(true)));
    assert!(t.sends.is_empty() && !t.done);
}

#[test]
fn relay_gets_pongs_and_nothing_else() {
    let mut s = Session::new(80, 24);
    let p = s.step(Event::Relay(Incoming::Binary(Some(RelayToHost::Ping))));
    assert!(matches!(&p.sends[..], [HostToRelay::Pong]));
    let w = s.step(Event::Relay(Incoming::Ping(vec![7])));
    assert_eq!(w.pong, Some(vec![7]));
    for m in [
        Incoming::Binary(Some(RelayToHost::Viewers(3))),
        Incoming::Binary(Some(RelayToHost::Error("x".to_string()))),
        Incoming::Binary(None),
        Incoming::Other,
    ] {
        let n = s.step(Event::Relay(m));
        assert!(n.sends.is_empty() && n.show.is_none() && n.resize.is_none() && !n.done);
    }
    assert!(s.step(Event::Relay(Incoming::Closed)).done);
    assert!(s.step(Event::Relay(Incoming::Closing)).done);
    assert!(s.step(Event::Relay(Incoming::Broken("e".to_string()))).done);
}

#[test]
fn resizes_are_reported_once() {
    let mut s = Session::new(80, 24);
    let same = s.step(Event::Tick { size: Some((80, 24)), talking: None });
    assert!(same.resize.is_none() && same.sends.is_empty());
    let new = s.step(Event::Tick { size: Some((100, 30)), talking: None });
    assert_eq!(new.resize, Some((100, 30)));
    assert!(matches!(&new.sends[..], [HostToRelay::Resize { cols: 100, rows: 30 }]));
    let again = s.step(Event::Tick { size: Some((100, 30)), talking: None });
    assert!(again.resize.is_none() && again.sends.is_empty());
    let unknown = s.step(Event::Tick { size: None, talking: None });
    assert!(unknown.resize.is_none());
}

#[test]
fn microphone_state_is_shown() {
    let mut s = Session::new(80, 24);
    let off = s.step(Event::Tick { size: None, talking: Some(false) });
    assert!(off.show.is_none());
    let on = s.step(Event::Tick { size: None, talking: Some(true) });
    assert_eq!(
        on.show.unwrap(),
        "\u{1b}]0;🎙 ON · tcast\u{7}\u{1b}]9;tcast — mic ON\u{7}"
    );
    let still = s.step(Event::Tick { size: None, talking: Some(true) });
    assert_eq!(still.show.unwrap(), "\u{1b}]0;🎙 ON · tcast\u{7}");
    let done = s.step(Event::Tick { size: None, talking: Some(false) });
    assert_eq!(done.show.unwrap(), "\u{1b}]0;tcast\u{7}\u{1b}]9;tcast — mic off\u{7}");
}

#[test]
fn status_sequences() {
    assert_eq!(status("t", None), "\u{1b}]0;t\u{7}");
    assert_eq!(status("t", Some("n")), "\u{1b}]0;t\u{7}\u{1b}]9;n\u{7}");
}

#[test]
fn last_output_comes_before_goodbye() {
    let mut s = Session::new(80, 24);
    let x = s.step(Event::Exited(vec![vec![1], vec![2, 3]]));
    assert!(x.done);
    assert!(matches!(&x.sends[..],
        [HostToRelay::Output(a), HostToRelay::Output(b), HostToRelay::Bye]
        if *a == vec![1] && *b == vec![2, 3]));
    let y = s.step(Event::Exited(vec![]));
    assert!(matches!(&y.sends[..], [HostToRelay::Bye]));
}

#[test]
fn banner_of_a_private_stream() {
    let b = banner("jean", "bash", false, "jean-AB23", "id", "ws://r", DEFAULT_PREFIX);
    assert_eq!(
        b,
        "\n┌─ tcast ─────────────────────────────────────────\n\
         │ streaming as : jean  (bash)\n\
         │ visibility   : private (code only)\n\
         │ join code    : jean-AB23\n\
         │\n\
         │ viewers run  : tcast watch jean-AB23\n\
         │   (first point them at this relay:\n\
         │    tcast config set-relay ws://r)\n\
         │\n\
         │ hotkeys      : Ctrl-] p = privacy · Ctrl-] q = quit\n\
         │ stop also    : type `exit` (or Ctrl-D) in the shell\n\
         └──────────────────────────────────────────────────\n\n"
    );
}

#[test]
fn banner_of_a_public_stream() {
    let b = banner("jean", "bash", true, "c", "theid", "ws://r", 15);
    assert!(b.contains("│ visibility   : PUBLIC (listed)\n"));
    assert!(b.contains("│ join code    : c\n│ stream id    : theid\n│\n"));
    assert!(b.contains("Ctrl-O p = privacy · Ctrl-O q = quit"));
}
