use tcast::config::{chat_config, relay_source, resolve_relay, saved, settings, stream_config,
    upgrade_message, watch_config, Change, Config, RelaySource, StreamArgs, LOCAL_RELAY};

fn s(x: &str) -> Option<String> {
    Some(x.to_string())
}

fn stored() -> Config {
    Config { relay: s("wss://saved"), auth_key: s("key"), name: s("ann") }
}

#[test]
fn relay_sources_take_precedence() {
    let none = Config::new();
    assert_eq!(resolve_relay(&s("ws://g"), &stored(), &s("ws://b")), "ws://g");
    assert_eq!(resolve_relay(&None, &stored(), &s("ws://b")), "wss://saved");
    assert_eq!(resolve_relay(&None, &none, &s("ws://b")), "ws://b");
    assert_eq!(resolve_relay(&None, &none, &None), "ws://127.0.0.1:4455");
    assert_eq!(LOCAL_RELAY, "ws://127.0.0.1:4455");
    assert_eq!(relay_source(&s("ws://g"), &stored(), &None), RelaySource::Given);
    assert_eq!(relay_source(&None, &stored(), &None), RelaySource::Saved);
    assert_eq!(relay_source(&None, &none, &s("b")), RelaySource::BuiltIn);
    assert_eq!(relay_source(&None, &none, &None), RelaySource::Local);
}

#[test]
fn sources_have_names() {
    assert_eq!(RelaySource::Given.label(), "--relay / TCAST_RELAY");
    assert_eq!(RelaySource::Saved.label(), "saved config");
    assert_eq!(RelaySource::BuiltIn.label(), "built-in default");
    assert_eq!(RelaySource::Local.label(), "local default");
}

fn args(name: Option<String>, prefix: Option<char>) -> StreamArgs {
    StreamArgs {
        name,
        shell: s("/bin/sh"),
        public: true,
        auth_key: None,
        prefix,
        chat: true,
        voice: true,
    }
}

#[test]
fn streams_take_saved_settings() {
    let c = stream_config("ws://r".to_string(), args(None, None), &stored(), 0x14).unwrap();
    assert_eq!(c.relay, "ws://r");
    assert_eq!(c.name, s("ann"));
    assert_eq!(c.shell, s("/bin/sh"));
    assert_eq!(c.auth_key, s("key"));
    assert!(c.public && c.chat && c.voice);
    assert_eq!((c.prefix, c.voice_key), (0x1d, 0x14));
}

#[test]
fn given_settings_beat_saved_ones() {
    let c = stream_config("r".to_string(), args(s("bob"), Some('b')), &stored(), 0).unwrap();
    assert_eq!(c.name, s("bob"));
    assert_eq!(c.prefix, 2);
    let e = stream_config("r".to_string(), args(None, Some('?')), &stored(), 0);
    assert_eq!(e.unwrap_err().got, '?');
}

#[test]
fn watching_is_configured() {
    let w = watch_config("r".to_string(), s("code"), None, &stored());
    assert_eq!((w.target, w.name), (s("code"), s("ann")));
    assert!(!w.allow_self && !w.chat_open && !w.chat_only);
    let v = watch_config("r".to_string(), None, s("eve"), &stored());
    assert_eq!((v.target, v.name), (None, s("eve")));
}

#[test]
fn chat_joins_the_own_stream() {
    let marks = vec![("id".to_string(), "me-AB".to_string()), ("x".to_string(), "y".to_string())];
    let w = chat_config("r".to_string(), &marks, &stored()).unwrap();
    assert_eq!(w.target, s("me-AB"));
    assert!(w.allow_self && w.chat_open && w.chat_only);
    let e = chat_config("r".to_string(), &[], &stored());
    assert_eq!(
        e.unwrap_err(),
        "no local stream is running here — start one with `tcast stream --chat`"
    );
}

#[test]
fn changes_are_applied_and_told() {
    let mut c = Config::new();
    let relay = Change::SetRelay("wss://x".to_string());
    c.apply(&relay);
    c.apply(&Change::SetAuthKey("sesame".to_string()));
    c.apply(&Change::SetName("ann".to_string()));
    assert_eq!((c.relay, c.auth_key, c.name), (s("wss://x"), s("sesame"), s("ann")));
    assert_eq!(saved(&relay, "/p"), "saved relay = wss://x\n  (/p)");
    assert_eq!(saved(&Change::SetAuthKey("sesame".to_string()), "/p"), "saved auth key  (/p)");
    assert_eq!(saved(&Change::SetName("ann".to_string()), "/p"), "saved name = ann  (/p)");
}

#[test]
fn settings_are_shown_without_the_key() {
    assert_eq!(
        settings(&None, &stored(), &None, "/p"),
        "config file : /p\nrelay       : wss://saved  (from saved config)\n\
         name        : ann\nauth key    : set"
    );
    assert_eq!(
        settings(&s("ws://g"), &Config::new(), &None, "/p"),
        "config file : /p\nrelay       : ws://g  (from --relay / TCAST_RELAY)\n\
         name        : <your username at stream time>\nauth key    : not set"
    );
}

#[test]
fn upgrades_are_told() {
    assert_eq!(upgrade_message(true, "1.2.3"), "tcast updated to 1.2.3");
    assert_eq!(upgrade_message(false, "1.2.3"), "tcast is already up to date (1.2.3)");
}
