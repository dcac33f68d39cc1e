//! Saved settings, and what the commands make of them.
use crate::host::{ctrl_code, letter, prefix_key, BadPrefix, StreamConfig, DEFAULT_PREFIX};
use crate::owned::own_code;
use crate::text::{copy_text, text_view};
use crate::watch::app::WatchConfig;
use vstd::prelude::*;

verus! {

/// The relay that is used where nothing else is known.
pub const LOCAL_RELAY: &'static str = "ws://127.0.0.1:4455";

/// What `tcast chat` answers where this machine hosts no stream.
pub const NO_OWN_STREAM: &'static str = "no local stream is running here — start one with `tcast stream --chat`";

/// Saved settings.
#[derive(Debug)]
pub struct Config {
    /// Address of the relay.
    pub relay: Option<String>,
    /// Key to present to the relay.
    pub auth_key: Option<String>,
    /// Display name.
    pub name: Option<String>,
}

/// Where the address of the relay comes from.
#[derive(Debug, Clone, Copy, PartialEq, Eq, Structural)]
pub enum RelaySource {
    /// From the command line or the environment.
    Given,
    /// From the saved settings.
    Saved,
    /// From the build.
    BuiltIn,
    /// From nowhere.
    Local,
}

impl RelaySource {
    /// How the source is called.
    pub open spec fn text(self) -> Seq<char> {
        match self {
            RelaySource::Given => "--relay / TCAST_RELAY"@,
            RelaySource::Saved => "saved config"@,
            RelaySource::BuiltIn => "built-in default"@,
            RelaySource::Local => "local default"@,
        }
    }

    /// How the source is called.
    pub fn label(self) -> (out: String)
        ensures
            out@ == self.text(),
    {
        match self {
            RelaySource::Given => "--relay / TCAST_RELAY".to_string(),
            RelaySource::Saved => "saved config".to_string(),
            RelaySource::BuiltIn => "built-in default".to_string(),
            RelaySource::Local => "local default".to_string(),
        }
    }
}

/// Where the address of the relay comes from: the first source that has one.
pub open spec fn source_of(
    given: Option<Seq<char>>,
    saved: Option<Seq<char>>,
    built_in: Option<Seq<char>>,
) -> RelaySource {
    if given is Some {
        RelaySource::Given
    } else if saved is Some {
        RelaySource::Saved
    } else if built_in is Some {
        RelaySource::BuiltIn
    } else {
        RelaySource::Local
    }
}

/// The address of the relay.
pub open spec fn relay_of(
    given: Option<Seq<char>>,
    saved: Option<Seq<char>>,
    built_in: Option<Seq<char>>,
) -> Seq<char> {
    match source_of(given, saved, built_in) {
        RelaySource::Given => given.unwrap(),
        RelaySource::Saved => saved.unwrap(),
        RelaySource::BuiltIn => built_in.unwrap(),
        RelaySource::Local => LOCAL_RELAY@,
    }
}

/// Where the address of the relay comes from.
pub fn relay_source(given: &Option<String>, cfg: &Config, built_in: &Option<String>) -> (src:
    RelaySource)
    ensures
        src == source_of(text_view(*given), text_view(cfg.relay), text_view(*built_in)),
{
    if given.is_some() {
        RelaySource::Given
    } else if cfg.relay.is_some() {
        RelaySource::Saved
    } else if built_in.is_some() {
        RelaySource::BuiltIn
    } else {
        RelaySource::Local
    }
}

/// The address of the relay: the one that was given, else the saved one, else
/// that of the build, else a local one.
pub fn resolve_relay(given: &Option<String>, cfg: &Config, built_in: &Option<String>) -> (relay:
    String)
    ensures
        relay@ == relay_of(text_view(*given), text_view(cfg.relay), text_view(*built_in)),
{
    match given {
        Some(r) => r.clone(),
        None => match &cfg.relay {
            Some(r) => r.clone(),
            None => match built_in {
                Some(r) => r.clone(),
                None => LOCAL_RELAY.to_string(),
            },
        },
    }
}

/// The first of two values that is there.
pub open spec fn either(a: Option<Seq<char>>, b: Option<Seq<char>>) -> Option<Seq<char>> {
    if a is Some {
        a
    } else {
        b
    }
}

fn first_of(a: Option<String>, b: &Option<String>) -> (out: Option<String>)
    ensures
        text_view(out) == either(text_view(a), text_view(*b)),
{
    match a {
        Some(s) => Some(s),
        None => copy_text(b),
    }
}

// ------------------------------------------------------------------- commands

/// What `tcast stream` was asked for.
#[derive(Debug)]
pub struct StreamArgs {
    pub name: Option<String>,
    pub shell: Option<String>,
    pub public: bool,
    pub auth_key: Option<String>,
    pub prefix: Option<char>,
    pub chat: bool,
    pub voice: bool,
}

/// Model of [`StreamConfig`].
pub struct StreamConfigV {
    pub relay: Seq<char>,
    pub name: Option<Seq<char>>,
    pub shell: Option<Seq<char>>,
    pub public: bool,
    pub auth_key: Option<Seq<char>>,
    pub chat: bool,
    pub voice: bool,
    pub voice_key: u8,
    pub prefix: int,
}

impl View for StreamConfig {
    type V = StreamConfigV;

    open spec fn view(&self) -> StreamConfigV {
        StreamConfigV {
            relay: self.relay@,
            name: text_view(self.name),
            shell: text_view(self.shell),
            public: self.public,
            auth_key: text_view(self.auth_key),
            chat: self.chat,
            voice: self.voice,
            voice_key: self.voice_key,
            prefix: self.prefix as int,
        }
    }
}

/// The session that `tcast stream` starts, or the prefix that is no letter.
pub open spec fn session_for(relay: Seq<char>, a: StreamArgs, cfg: Config, voice_key: u8) -> Result<
    StreamConfigV,
    char,
> {
    if a.prefix matches Some(c) && !letter(c) {
        Err(a.prefix.unwrap())
    } else {
        Ok(
            StreamConfigV {
                relay,
                name: either(text_view(a.name), text_view(cfg.name)),
                shell: text_view(a.shell),
                public: a.public,
                auth_key: either(text_view(a.auth_key), text_view(cfg.auth_key)),
                chat: a.chat,
                voice: a.voice,
                voice_key,
                prefix: match a.prefix {
                    Some(c) => ctrl_code(c),
                    None => DEFAULT_PREFIX as int,
                },
            },
        )
    }
}

/// A session is what was asked for: public, with chat and with voice exactly
/// where that was asked for. Name and key are those that were given, else the
/// saved ones. Only a prefix that is no letter is refused; where none is asked
/// for, it is Ctrl-].
pub proof fn law_sessions_are_as_asked(
    relay: Seq<char>,
    a: StreamArgs,
    cfg: Config,
    voice_key: u8,
)
    ensures
        ({
            let s = session_for(relay, a, cfg, voice_key);
            &&& s is Err <==> (a.prefix matches Some(c) && !('a' <= c <= 'z') && !('A' <= c <= 'Z'))
            &&& s matches Err(c) ==> a.prefix == Some(c)
            &&& s matches Ok(s) ==> {
                &&& s.relay == relay
                &&& s.public == a.public
                &&& s.chat == a.chat
                &&& s.voice == a.voice
                &&& s.voice_key == voice_key
                &&& s.shell == text_view(a.shell)
                &&& a.name matches Some(n) ==> s.name == Some(n@)
                &&& a.name is None ==> s.name == text_view(cfg.name)
                &&& a.auth_key matches Some(k) ==> s.auth_key == Some(k@)
                &&& a.auth_key is None ==> s.auth_key == text_view(cfg.auth_key)
                &&& a.prefix is None ==> s.prefix == 0x1d
                &&& a.prefix matches Some(c) ==> {
                    &&& 'a' <= c <= 'z' ==> s.prefix == c as int - 96
                    &&& 'A' <= c <= 'Z' ==> s.prefix == c as int - 64
                }
            }
        }),
{
}

/// The session that `tcast stream` starts. Name and key come from the saved
/// settings where they are not given.
pub fn stream_config(relay: String, a: StreamArgs, cfg: &Config, voice_key: u8) -> (out: Result<
    StreamConfig,
    BadPrefix,
>)
    ensures
        (match out {
            Ok(s) => Ok::<StreamConfigV, char>(s@),
            Err(e) => Err(e.got),
        }) == session_for(relay@, a, *cfg, voice_key),
        match a.prefix {
            Some(c) => out is Err == !letter(c),
            None => out is Ok,
        },
        match out {
            Ok(s) => {
                &&& s.relay == relay
                &&& text_view(s.name) == either(text_view(a.name), text_view(cfg.name))
                &&& s.shell == a.shell
                &&& s.public == a.public
                &&& text_view(s.auth_key) == either(text_view(a.auth_key), text_view(cfg.auth_key))
                &&& s.chat == a.chat
                &&& s.voice == a.voice
                &&& s.voice_key == voice_key
                &&& s.prefix == (match a.prefix {
                    Some(c) => ctrl_code(c),
                    None => DEFAULT_PREFIX as int,
                })
            },
            Err(e) => a.prefix == Some(e.got),
        },
{
    match prefix_key(a.prefix) {
        Ok(prefix) => Ok(
            StreamConfig {
                relay,
                name: first_of(a.name, &cfg.name),
                shell: a.shell,
                public: a.public,
                auth_key: first_of(a.auth_key, &cfg.auth_key),
                chat: a.chat,
                voice: a.voice,
                voice_key,
                prefix,
            },
        ),
        Err(e) => Err(e),
    }
}

/// Model of [`WatchConfig`].
pub struct WatchConfigV {
    pub relay: Seq<char>,
    pub target: Option<Seq<char>>,
    pub name: Option<Seq<char>>,
    pub allow_self: bool,
    pub chat_open: bool,
    pub chat_only: bool,
}

impl View for WatchConfig {
    type V = WatchConfigV;

    open spec fn view(&self) -> WatchConfigV {
        WatchConfigV {
            relay: self.relay@,
            target: text_view(self.target),
            name: text_view(self.name),
            allow_self: self.allow_self,
            chat_open: self.chat_open,
            chat_only: self.chat_only,
        }
    }
}

/// The viewer that `tcast watch` opens.
pub open spec fn viewer_for(
    relay: Seq<char>,
    target: Option<Seq<char>>,
    name: Option<Seq<char>>,
    saved: Option<Seq<char>>,
) -> WatchConfigV {
    WatchConfigV {
        relay,
        target,
        name: either(name, saved),
        allow_self: false,
        chat_open: false,
        chat_only: false,
    }
}

/// The viewer that `tcast chat` opens, if this machine has a stream.
pub open spec fn chat_for(
    relay: Seq<char>,
    markers: Seq<(String, String)>,
    saved: Option<Seq<char>>,
) -> Option<WatchConfigV> {
    if markers.len() > 0 {
        Some(
            WatchConfigV {
                relay,
                target: Some(markers[0].1@),
                name: saved,
                allow_self: true,
                chat_open: true,
                chat_only: true,
            },
        )
    } else {
        None
    }
}

/// A viewer joins what was asked for, under the name that was given or else the
/// saved one, and not a stream of this machine's own. The chat is of this
/// machine's first stream, and shows nothing else; without a stream there is
/// none.
pub proof fn law_viewers_are_as_asked(
    relay: Seq<char>,
    target: Option<Seq<char>>,
    name: Option<Seq<char>>,
    saved: Option<Seq<char>>,
    markers: Seq<(String, String)>,
)
    ensures
        ({
            let v = viewer_for(relay, target, name, saved);
            &&& v.relay == relay
            &&& v.target == target
            &&& name is Some ==> v.name == name
            &&& name is None ==> v.name == saved
            &&& !v.allow_self && !v.chat_open && !v.chat_only
        }),
        chat_for(relay, markers, saved) is Some <==> markers.len() > 0,
        chat_for(relay, markers, saved) matches Some(v) ==> {
            &&& v.relay == relay
            &&& v.target == Some(markers[0].1@)
            &&& v.name == saved
            &&& v.allow_self && v.chat_open && v.chat_only
        },
{
}

/// The viewer that `tcast watch` opens, and `tcast` alone, which gives neither
/// target nor name. The name comes from the saved settings where it is not
/// given.
pub fn watch_config(
    relay: String,
    target: Option<String>,
    name: Option<String>,
    cfg: &Config,
) -> (out: WatchConfig)
    ensures
        out@ == viewer_for(relay@, text_view(target), text_view(name), text_view(cfg.name)),
        out.relay == relay,
        out.target == target,
        text_view(out.name) == either(text_view(name), text_view(cfg.name)),
        !out.allow_self,
        !out.chat_open,
        !out.chat_only,
{
    WatchConfig {
        relay,
        target,
        name: first_of(name, &cfg.name),
        allow_self: false,
        chat_open: false,
        chat_only: false,
    }
}

/// The viewer that `tcast chat` opens: nothing but the chat of this machine's
/// own stream.
pub fn chat_config(relay: String, markers: &[(String, String)], cfg: &Config) -> (out: Result<
    WatchConfig,
    String,
>)
    ensures
        (match out {
            Ok(w) => Some(w@),
            Err(_) => None,
        }) == chat_for(relay@, markers@, text_view(cfg.name)),
        match out {
            Ok(w) => {
                &&& markers@.len() > 0
                &&& w.relay == relay
                &&& w.target == Some(markers@[0].1)
                &&& text_view(w.name) == text_view(cfg.name)
                &&& w.allow_self
                &&& w.chat_open
                &&& w.chat_only
            },
            Err(why) => markers@.len() == 0 && why@ == NO_OWN_STREAM@,
        },
{
    match own_code(markers) {
        Some(code) => Ok(
            WatchConfig {
                relay,
                target: Some(code),
                name: copy_text(&cfg.name),
                allow_self: true,
                chat_open: true,
                chat_only: true,
            },
        ),
        None => Err(NO_OWN_STREAM.to_string()),
    }
}

// ------------------------------------------------------------------- settings

/// A change of the saved settings.
#[derive(Debug)]
pub enum Change {
    SetRelay(String),
    SetAuthKey(String),
    SetName(String),
}

/// The settings after a change.
pub open spec fn changed(cfg: Config, c: Change) -> Config {
    match c {
        Change::SetRelay(url) => Config { relay: Some(url), ..cfg },
        Change::SetAuthKey(key) => Config { auth_key: Some(key), ..cfg },
        Change::SetName(name) => Config { name: Some(name), ..cfg },
    }
}

/// What was set last is what is saved, and setting one thing leaves the others.
pub proof fn law_changes_are_kept_apart(cfg: Config, value: String)
    ensures
        ({
            let r = changed(cfg, Change::SetRelay(value));
            &&& r.relay == Some(value)
            &&& r.auth_key == cfg.auth_key
            &&& r.name == cfg.name
        }),
        ({
            let k = changed(cfg, Change::SetAuthKey(value));
            &&& k.auth_key == Some(value)
            &&& k.relay == cfg.relay
            &&& k.name == cfg.name
        }),
        ({
            let n = changed(cfg, Change::SetName(value));
            &&& n.name == Some(value)
            &&& n.relay == cfg.relay
            &&& n.auth_key == cfg.auth_key
        }),
{
}

impl Config {
    /// No settings.
    pub fn new() -> (c: Config)
        ensures
            c.relay is None,
            c.auth_key is None,
            c.name is None,
    {
        Config { relay: None, auth_key: None, name: None }
    }

    /// Makes a change. What else was saved stays.
    pub fn apply(&mut self, c: &Change)
        ensures
            *final(self) == changed(*old(self), *c),
            match *c {
                Change::SetRelay(url) => *final(self) == (Config { relay: Some(url), ..*old(self) }),
                Change::SetAuthKey(key) => *final(self) == (Config {
                    auth_key: Some(key),
                    ..*old(self)
                }),
                Change::SetName(name) => *final(self) == (Config { name: Some(name), ..*old(self) }),
            },
    {
        match c {
            Change::SetRelay(url) => {
                self.relay = Some(url.clone());
            },
            Change::SetAuthKey(key) => {
                self.auth_key = Some(key.clone());
            },
            Change::SetName(name) => {
                self.name = Some(name.clone());
            },
        }
    }
}

/// What is said of a change that was saved at `path`.
pub open spec fn saved_text(c: Change, path: Seq<char>) -> Seq<char> {
    match c {
        Change::SetRelay(url) => "saved relay = "@ + url@ + "\n  ("@ + path + ")"@,
        Change::SetAuthKey(_) => "saved auth key  ("@ + path + ")"@,
        Change::SetName(name) => "saved name = "@ + name@ + "  ("@ + path + ")"@,
    }
}

/// What is said of a change that was saved at `path`. The key is not shown.
pub fn saved(c: &Change, path: &str) -> (out: String)
    ensures
        out@ == saved_text(*c, path@),
{
    let mut out = String::new();
    match c {
        Change::SetRelay(url) => {
            out.append("saved relay = ");
            out.append(url.as_str());
            out.append("\n  (");
        },
        Change::SetAuthKey(_) => {
            out.append("saved auth key  (");
        },
        Change::SetName(name) => {
            out.append("saved name = ");
            out.append(name.as_str());
            out.append("  (");
        },
    }
    out.append(path);
    out.append(")");
    assert(out@ =~= saved_text(*c, path@));
    out
}

/// The settings in words.
pub open spec fn settings_text(
    given: Option<Seq<char>>,
    saved: Option<Seq<char>>,
    built_in: Option<Seq<char>>,
    name: Option<Seq<char>>,
    has_key: bool,
    path: Seq<char>,
) -> Seq<char> {
    "config file : "@ + path + "\nrelay       : "@ + relay_of(given, saved, built_in) + "  (from "@
        + source_of(given, saved, built_in).text() + ")\nname        : "@ + (match name {
        Some(n) => n,
        None => "<your username at stream time>"@,
    }) + "\nauth key    : "@ + (if has_key {
        "set"@
    } else {
        "not set"@
    })
}

/// The settings in words: what counts, and where it comes from. Of the key only
/// whether there is one.
pub fn settings(given: &Option<String>, cfg: &Config, built_in: &Option<String>, path: &str) -> (out:
    String)
    ensures
        out@ == settings_text(
            text_view(*given),
            text_view(cfg.relay),
            text_view(*built_in),
            text_view(cfg.name),
            cfg.auth_key is Some,
            path@,
        ),
{
    let mut out = "config file : ".to_string();
    out.append(path);
    out.append("\nrelay       : ");
    out.append(resolve_relay(given, cfg, built_in).as_str());
    out.append("  (from ");
    out.append(relay_source(given, cfg, built_in).label().as_str());
    out.append(")\nname        : ");
    match &cfg.name {
        Some(n) => {
            out.append(n.as_str());
        },
        None => {
            out.append("<your username at stream time>");
        },
    }
    out.append("\nauth key    : ");
    if cfg.auth_key.is_some() {
        out.append("set");
    } else {
        out.append("not set");
    }
    out
}

/// What is said of an update.
pub open spec fn upgrade_text(updated: bool, version: Seq<char>) -> Seq<char> {
    if updated {
        "tcast updated to "@ + version
    } else {
        "tcast is already up to date ("@ + version + ")"@
    }
}

/// What is said of an update to `version`, or that there was none.
pub fn upgrade_message(updated: bool, version: &str) -> (out: String)
    ensures
        out@ == upgrade_text(updated, version@),
{
    if updated {
        let mut out = "tcast updated to ".to_string();
        out.append(version);
        out
    } else {
        let mut out = "tcast is already up to date (".to_string();
        out.append(version);
        out.append(")");
        out
    }
}

/// What was set is what counts, unless something else is given for once.
pub proof fn law_saved_relay_counts(
    given: Option<Seq<char>>,
    url: Seq<char>,
    built_in: Option<Seq<char>>,
)
    ensures
        given is None ==> relay_of(given, Some(url), built_in) == url,
        given matches Some(g) ==> relay_of(given, Some(url), built_in) == g,
{
}

/// What is said of a saved key does not depend on the key.
pub proof fn law_keys_are_not_shown(key: String, other: String, path: Seq<char>)
    ensures
        saved_text(Change::SetAuthKey(key), path) == saved_text(Change::SetAuthKey(other), path),
{
}

/// The address of the relay is the one that was given, else the saved one, else
/// that of the build, else a local one; and its source says which.
pub proof fn law_relays_are_looked_up_in_order(
    given: Option<Seq<char>>,
    saved: Option<Seq<char>>,
    built_in: Option<Seq<char>>,
)
    ensures
        given matches Some(a) ==> relay_of(given, saved, built_in) == a && source_of(
            given,
            saved,
            built_in,
        ).text() == "--relay / TCAST_RELAY"@,
        given is None ==> (saved matches Some(a) ==> relay_of(given, saved, built_in) == a
            && source_of(given, saved, built_in).text() == "saved config"@),
        given is None && saved is None ==> (built_in matches Some(a) ==> relay_of(
            given,
            saved,
            built_in,
        ) == a && source_of(given, saved, built_in).text() == "built-in default"@),
        given is None && saved is None && built_in is None ==> relay_of(given, saved, built_in)
            == "ws://127.0.0.1:4455"@ && source_of(given, saved, built_in).text()
            == "local default"@,
{
}

/// What is given for once counts before what is saved.
pub proof fn law_given_values_come_first(a: Option<Seq<char>>, b: Option<Seq<char>>)
    ensures
        a matches Some(x) ==> either(a, b) == Some(x),
        a is None ==> either(a, b) == b,
{
}

/// What is said of a saved address or name shows it, and where it was saved.
pub proof fn law_saved_values_are_shown(value: String, path: Seq<char>)
    ensures
        saved_text(Change::SetRelay(value), path) == "saved relay = "@ + value@ + "\n  ("@ + path
            + ")"@,
        saved_text(Change::SetName(value), path) == "saved name = "@ + value@ + "  ("@ + path
            + ")"@,
        saved_text(Change::SetAuthKey(value), path) == "saved auth key  ("@ + path + ")"@,
{
}

/// The settings show the file, the address that counts and where it comes from,
/// the name, and of the key only whether there is one.
pub proof fn law_settings_show_what_counts(
    given: Option<Seq<char>>,
    saved: Option<Seq<char>>,
    built_in: Option<Seq<char>>,
    name: Option<Seq<char>>,
    has_key: bool,
    path: Seq<char>,
)
    ensures
        ({
            let relay = if given is Some {
                given.unwrap() + "  (from "@ + "--relay / TCAST_RELAY"@
            } else if saved is Some {
                saved.unwrap() + "  (from "@ + "saved config"@
            } else if built_in is Some {
                built_in.unwrap() + "  (from "@ + "built-in default"@
            } else {
                "ws://127.0.0.1:4455"@ + "  (from "@ + "local default"@
            };
            let called = if name is Some {
                name.unwrap()
            } else {
                "<your username at stream time>"@
            };
            let key = if has_key {
                "set"@
            } else {
                "not set"@
            };
            settings_text(given, saved, built_in, name, has_key, path) == "config file : "@ + path
                + "\nrelay       : "@ + relay + ")\nname        : "@ + called + "\nauth key    : "@
                + key
        }),
{
    let head = "config file : "@ + path + "\nrelay       : "@;
    let a = relay_of(given, saved, built_in);
    let f = "  (from "@;
    let s = source_of(given, saved, built_in).text();
    assert(head + a + f + s =~= head + (a + f + s));
}

/// An update is told with the new version; where there was none, with the one
/// that stays.
pub proof fn law_updates_are_told(version: Seq<char>)
    ensures
        upgrade_text(true, version) == "tcast updated to "@ + version,
        upgrade_text(false, version) == "tcast is already up to date ("@ + version + ")"@,
{
}

} // verus!
