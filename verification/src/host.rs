//! The streaming side: hotkeys, the handshake with the relay, and what the
//! session does about each event.
use crate::audio::{decoded, encode_frame, encoded, law_frame_round_trip};
use crate::link::Incoming;
use crate::protocol::{HostHello, HostHelloV, HostToRelay, HostToRelayV, RelayToHost,
    PROTOCOL_VERSION};
use crate::text::{chars_of, copy_text, string_between, text_view};
use vstd::prelude::*;

verus! {

/// Default hotkey prefix: Ctrl-].
pub const DEFAULT_PREFIX: u8 = 0x1D;

/// Everything needed to start a host session.
#[derive(Debug)]
pub struct StreamConfig {
    /// Base address of the relay.
    pub relay: String,
    /// Display name shown to viewers.
    pub name: Option<String>,
    /// Shell to launch.
    pub shell: Option<String>,
    /// List this stream in the public directory.
    pub public: bool,
    /// Key to present to the relay.
    pub auth_key: Option<String>,
    /// Accept viewer chat.
    pub chat: bool,
    /// Capture the microphone for push-to-talk voice.
    pub voice: bool,
    /// The key that toggles the microphone while voice is on.
    pub voice_key: u8,
    /// The hotkey prefix.
    pub prefix: u8,
}

// ------------------------------------------------------------------ defaults

/// The shell to launch where none is given.
pub open spec fn shell_for(windows: bool, shell: Option<Seq<char>>) -> Seq<char> {
    if windows {
        "powershell.exe"@
    } else {
        match shell {
            Some(s) => s,
            None => "/bin/bash"@,
        }
    }
}

/// The display name where none is given.
pub open spec fn name_for(username: Option<Seq<char>>, user: Option<Seq<char>>) -> Seq<char> {
    match username {
        Some(n) => n,
        None => match user {
            Some(n) => n,
            None => "anon"@,
        },
    }
}

/// The user's own shell and name count where the environment gives them, the
/// shell not on Windows; and something is there in any case.
pub proof fn law_defaults_follow_the_environment(
    shell: Option<Seq<char>>,
    username: Option<Seq<char>>,
    user: Option<Seq<char>>,
)
    ensures
        shell_for(true, shell) == "powershell.exe"@,
        shell is None ==> shell_for(false, shell) == "/bin/bash"@,
        shell matches Some(s) ==> shell_for(false, shell) == s,
        username matches Some(n) ==> name_for(username, user) == n,
        username is None && user is Some ==> Some(name_for(username, user)) == user,
        username is None && user is None ==> name_for(username, user) == "anon"@,
{
}

/// The shell to launch where none is given. `shell` is what the environment
/// names as the user's shell.
pub fn default_shell(windows: bool, shell: Option<String>) -> (out: String)
    ensures
        out@ == shell_for(windows, text_view(shell)),
        windows ==> out@ == "powershell.exe"@,
        !windows ==> out@ == (match shell {
            Some(s) => s@,
            None => "/bin/bash"@,
        }),
{
    if windows {
        "powershell.exe".to_string()
    } else {
        match shell {
            Some(s) => s,
            None => "/bin/bash".to_string(),
        }
    }
}

/// The display name where none is given. The arguments are the names that the
/// environment gives, the first of which counts.
pub fn default_name(username: Option<String>, user: Option<String>) -> (out: String)
    ensures
        out@ == name_for(text_view(username), text_view(user)),
        out@ == (match (username, user) {
            (Some(n), _) => n@,
            (None, Some(n)) => n@,
            (None, None) => "anon"@,
        }),
{
    match username {
        Some(n) => n,
        None => match user {
            Some(n) => n,
            None => "anon".to_string(),
        },
    }
}

/// The part of a path behind its last separator.
pub open spec fn base_name(path: Seq<char>) -> Seq<char>
    decreases path.len(),
{
    if path.len() == 0 || path.last() == '/' || path.last() == '\\' {
        Seq::empty()
    } else {
        base_name(path.drop_last()).push(path.last())
    }
}

/// `s` without `suffix` at its end, if it has it there.
pub open spec fn without_suffix(s: Seq<char>, suffix: Seq<char>) -> Seq<char> {
    if suffix.is_suffix_of(s) {
        s.take(s.len() - suffix.len())
    } else {
        s
    }
}

/// The label of a shell.
pub open spec fn label_of(path: Seq<char>) -> Seq<char> {
    without_suffix(base_name(path), ".exe"@)
}

/// Short label of a shell for viewers: its file name, without ".exe".
pub fn shell_label(path: &str) -> (label: String)
    ensures
        label@ == label_of(path@),
{
    let chars = chars_of(path);
    let len: usize = chars.len();
    let mut at: usize = len;
    let ghost all = path@;
    assert(all.take(len as int) =~= all);
    assert(all.subrange(len as int, len as int) =~= Seq::<char>::empty());
    assert(base_name(all) =~= base_name(all.take(len as int)) + all.subrange(len as int, len as int));
    while at > 0 && chars[at - 1] != '/' && chars[at - 1] != '\\'
        invariant
            all == chars@,
            len == all.len(),
            at <= len,
            base_name(all) == base_name(all.take(at as int)) + all.subrange(at as int, len as int),
        decreases at,
    {
        let ghost t = all.take(at as int);
        assert(t.drop_last() =~= all.take(at - 1));
        assert(t.last() == all[at - 1]);
        assert(base_name(all) =~= base_name(all.take(at - 1)) + all.subrange(at - 1, len as int));
        at -= 1;
    }
    assert(base_name(all.take(at as int)) == Seq::<char>::empty());
    assert(base_name(all) =~= all.subrange(at as int, len as int));
    let ghost base = all.subrange(at as int, len as int);
    proof {
        reveal_strlit(".exe");
        assert(".exe"@.len() == 4);
    }
    if len - at >= 4 && chars[len - 4] == '.' && chars[len - 3] == 'e' && chars[len - 2] == 'x'
        && chars[len - 1] == 'e' {
        assert(".exe"@ =~= base.subrange(base.len() - 4, base.len() as int));
        assert(base.take(base.len() - 4) =~= all.subrange(at as int, len - 4));
        string_between(chars.as_slice(), at, len - 4)
    } else {
        proof {
            if ".exe"@.is_suffix_of(base) {
                let tail = base.subrange(base.len() - 4, base.len() as int);
                assert(tail[0] == '.' && tail[1] == 'e' && tail[2] == 'x' && tail[3] == 'e');
                assert(false);
            }
        }
        string_between(chars.as_slice(), at, len)
    }
}

// -------------------------------------------------------------------- hotkeys

/// Whether `c` is an ASCII letter.
pub open spec fn letter(c: char) -> bool {
    'a' <= c <= 'z' || 'A' <= c <= 'Z'
}

/// The code of a letter that is typed with Ctrl: its place in the alphabet.
pub open spec fn ctrl_code(c: char) -> int {
    if 'a' <= c <= 'z' {
        c as int - 'a' as int + 1
    } else {
        c as int - 'A' as int + 1
    }
}

/// A hotkey prefix that is not a letter.
#[derive(Debug)]
pub struct BadPrefix {
    pub got: char,
}

/// The hotkey prefix for the letter that was asked for, if any.
pub fn prefix_key(asked: Option<char>) -> (key: Result<u8, BadPrefix>)
    ensures
        match asked {
            None => key == Ok::<u8, BadPrefix>(DEFAULT_PREFIX),
            Some(c) => if letter(c) {
                key matches Ok(k) && k == ctrl_code(c)
            } else {
                key == Err::<u8, BadPrefix>(BadPrefix { got: c })
            },
        },
{
    match asked {
        None => Ok(DEFAULT_PREFIX),
        Some(c) => {
            if 'a' <= c && c <= 'z' {
                Ok(c as u8 - 96)
            } else if 'A' <= c && c <= 'Z' {
                Ok(c as u8 - 64)
            } else {
                Err(BadPrefix { got: c })
            }
        },
    }
}

/// How a control key is called.
pub open spec fn key_text(key: u8) -> Seq<char> {
    "Ctrl-"@.push((key | 0x40) as char)
}

/// How a control key is called, such as "Ctrl-A".
pub fn key_label(key: u8) -> (label: String)
    ensures
        label@ == key_text(key),
{
    let mut label = "Ctrl-".to_string();
    label.push((key | 0x40) as char);
    label
}

/// The keys that the host reacts to.
pub struct Bindings {
    /// Announces a command.
    pub prefix: u8,
    /// Toggles the microphone.
    pub voice_key: u8,
    /// Whether there is a microphone to toggle.
    pub voice: bool,
}

/// What the host's keys have brought about so far.
#[derive(Clone, Copy)]
pub struct Keys {
    /// The prefix was typed, so the next key is a command.
    pub armed: bool,
    /// The stream is paused.
    pub paused: bool,
    /// The microphone is on.
    pub talking: bool,
}

/// What a command asks of the session.
#[derive(Debug, Clone, Copy)]
pub enum Ctl {
    /// Pause or resume what viewers see.
    Privacy(bool),
    /// Turn the microphone on or off.
    Talk(bool),
    /// Stop streaming.
    Quit,
}

/// What one key does: what is known after it, the byte that goes to the shell
/// and the command that goes to the session.
pub open spec fn pressed(k: Keys, b: Bindings, key: u8) -> (Keys, Option<u8>, Option<Ctl>) {
    if k.armed {
        let d = Keys { armed: false, ..k };
        if key == 'p' as u8 || key == 'P' as u8 {
            (Keys { paused: !k.paused, ..d }, None, Some(Ctl::Privacy(!k.paused)))
        } else if key == 'q' as u8 || key == 'Q' as u8 {
            (d, None, Some(Ctl::Quit))
        } else if key == b.prefix {
            (d, Some(key), None)
        } else if key == 't' as u8 && b.voice {
            (Keys { talking: !k.talking, ..d }, None, Some(Ctl::Talk(!k.talking)))
        } else {
            (d, None, None)
        }
    } else if b.voice && key == b.voice_key {
        (Keys { talking: !k.talking, ..k }, None, Some(Ctl::Talk(!k.talking)))
    } else if key == b.prefix {
        (Keys { armed: true, ..k }, None, None)
    } else {
        (k, Some(key), None)
    }
}

/// No key was typed yet: the stream is live and the microphone off.
pub open spec fn new_keys() -> Keys {
    Keys { armed: false, paused: false, talking: false }
}

/// A host begins live and silent: the first pause pauses, and the first press of
/// the microphone's key turns it on.
pub proof fn law_hosts_begin_live(b: Bindings)
    ensures
        b.voice ==> pressed(new_keys(), b, b.voice_key).2 == Some(Ctl::Talk(true)),
        !(b.voice && b.voice_key == b.prefix) ==> {
            let armed = pressed(new_keys(), b, b.prefix).0;
            &&& pressed(armed, b, 0x70).2 == Some(Ctl::Privacy(true))
            &&& pressed(armed, b, 0x50).2 == Some(Ctl::Privacy(true))
        },
{
}

/// What typed keys bring about.
pub struct TypedV {
    pub keys: Keys,
    /// What goes to the shell.
    pub forward: Seq<u8>,
    /// What goes to the session.
    pub commands: Seq<Ctl>,
    /// Whether the host quit; then nothing more is read.
    pub quit: bool,
}

/// What `typed` brings about, key by key. When the host quits, nothing goes to
/// the shell any more.
pub open spec fn after_typing(k: Keys, b: Bindings, typed: Seq<u8>) -> TypedV
    decreases typed.len(),
{
    if typed.len() == 0 {
        TypedV { keys: k, forward: Seq::empty(), commands: Seq::empty(), quit: false }
    } else {
        let t = after_typing(k, b, typed.drop_last());
        if t.quit {
            t
        } else {
            let (next, byte, command) = pressed(t.keys, b, typed.last());
            let quit = command == Some(Ctl::Quit);
            TypedV {
                keys: next,
                forward: if quit {
                    Seq::empty()
                } else {
                    match byte {
                        Some(x) => t.forward.push(x),
                        None => t.forward,
                    }
                },
                commands: match command {
                    Some(c) => t.commands.push(c),
                    None => t.commands,
                },
                quit,
            }
        }
    }
}

/// What typed keys bring about.
#[derive(Debug)]
pub struct Typed {
    pub forward: Vec<u8>,
    pub commands: Vec<Ctl>,
    pub quit: bool,
}

impl Keys {
    /// Nothing was typed yet.
    pub fn new() -> (k: Keys)
        ensures
            k == new_keys(),
            k == (Keys { armed: false, paused: false, talking: false }),
    {
        Keys { armed: false, paused: false, talking: false }
    }

    fn press(&mut self, b: &Bindings, key: u8) -> (out: (Option<u8>, Option<Ctl>))
        ensures
            (*final(self), out.0, out.1) == pressed(*old(self), *b, key),
    {
        if self.armed {
            self.armed = false;
            if key == 'p' as u8 || key == 'P' as u8 {
                self.paused = !self.paused;
                (None, Some(Ctl::Privacy(self.paused)))
            } else if key == 'q' as u8 || key == 'Q' as u8 {
                (None, Some(Ctl::Quit))
            } else if key == b.prefix {
                (Some(key), None)
            } else if key == 't' as u8 && b.voice {
                self.talking = !self.talking;
                (None, Some(Ctl::Talk(self.talking)))
            } else {
                (None, None)
            }
        } else if b.voice && key == b.voice_key {
            self.talking = !self.talking;
            (None, Some(Ctl::Talk(self.talking)))
        } else if key == b.prefix {
            self.armed = true;
            (None, None)
        } else {
            (Some(key), None)
        }
    }

    /// Takes a chunk of typed keys.
    pub fn take(&mut self, b: &Bindings, typed: &[u8]) -> (out: Typed)
        ensures
            (TypedV {
                keys: *final(self),
                forward: out.forward@,
                commands: out.commands@,
                quit: out.quit,
            }) == after_typing(*old(self), *b, typed@),
    {
        let ghost start = *self;
        let mut forward: Vec<u8> = Vec::new();
        let mut commands: Vec<Ctl> = Vec::new();
        let mut i: usize = 0;
        while i < typed.len()
            invariant
                i <= typed@.len(),
                start == *old(self),
                (TypedV { keys: *self, forward: forward@, commands: commands@, quit: false })
                    == after_typing(start, *b, typed@.take(i as int)),
            decreases typed@.len() - i,
        {
            assert(typed@.take(i + 1).drop_last() =~= typed@.take(i as int));
            let (byte, command) = self.press(b, typed[i]);
            if let Some(c) = command {
                commands.push(c);
                if let Ctl::Quit = c {
                    proof {
                        lemma_nothing_after_quit(start, *b, typed@, i + 1);
                    }
                    return Typed { forward: Vec::new(), commands, quit: true };
                }
            }
            if let Some(x) = byte {
                forward.push(x);
            }
            i += 1;
        }
        assert(typed@.take(i as int) =~= typed@);
        Typed { forward, commands, quit: false }
    }
}

/// What is typed after the host quit changes nothing.
proof fn lemma_nothing_after_quit(k: Keys, b: Bindings, typed: Seq<u8>, n: int)
    requires
        0 <= n <= typed.len(),
        after_typing(k, b, typed.take(n)).quit,
    ensures
        after_typing(k, b, typed) == after_typing(k, b, typed.take(n)),
    decreases typed.len() - n,
{
    if n == typed.len() {
        assert(typed.take(n) =~= typed);
    } else {
        assert(typed.take(n + 1).drop_last() =~= typed.take(n));
        lemma_nothing_after_quit(k, b, typed, n + 1);
    }
}

/// Whether a key is one that the host reacts to.
pub open spec fn bound(b: Bindings, key: u8) -> bool {
    key == b.prefix || (b.voice && key == b.voice_key)
}

/// Keys that the host does not react to reach the shell as they were typed.
pub proof fn law_plain_keys_pass_through(k: Keys, b: Bindings, typed: Seq<u8>)
    requires
        !k.armed,
        forall|i: int| 0 <= i < typed.len() ==> !bound(b, #[trigger] typed[i]),
    ensures
        after_typing(k, b, typed) == (TypedV {
            keys: k,
            forward: typed,
            commands: Seq::empty(),
            quit: false,
        }),
    decreases typed.len(),
{
    if typed.len() > 0 {
        law_plain_keys_pass_through(k, b, typed.drop_last());
        assert(!bound(b, typed.last()));
        assert(typed.drop_last().push(typed.last()) =~= typed);
    } else {
        assert(after_typing(k, b, typed).forward =~= typed);
    }
}

/// How keys are split into chunks makes no difference, as long as the host does
/// not quit.
pub proof fn law_chunks_make_no_difference(k: Keys, b: Bindings, first: Seq<u8>, second: Seq<u8>)
    requires
        !after_typing(k, b, first + second).quit,
    ensures
        ({
            let one = after_typing(k, b, first);
            let two = after_typing(one.keys, b, second);
            after_typing(k, b, first + second) == (TypedV {
                keys: two.keys,
                forward: one.forward + two.forward,
                commands: one.commands + two.commands,
                quit: false,
            })
        }),
        !after_typing(k, b, first).quit,
        !after_typing(after_typing(k, b, first).keys, b, second).quit,
    decreases second.len(),
{
    let one = after_typing(k, b, first);
    let all = after_typing(k, b, first + second);
    if second.len() == 0 {
        assert(first + second =~= first);
        assert(one.forward + Seq::<u8>::empty() =~= one.forward);
        assert(one.commands + Seq::<Ctl>::empty() =~= one.commands);
    } else {
        let short = second.drop_last();
        assert((first + second).drop_last() =~= first + short);
        law_chunks_make_no_difference(k, b, first, short);
        let two = after_typing(one.keys, b, second);
        assert(all.forward =~= one.forward + two.forward);
        assert(all.commands =~= one.commands + two.commands);
    }
}

proof fn lemma_two_keys(k: Keys, b: Bindings, x: u8, y: u8)
    ensures
        ({
            let (k1, f1, c1) = pressed(k, b, x);
            let (k2, f2, c2) = pressed(k1, b, y);
            let t = after_typing(k, b, seq![x, y]);
            c1 != Some(Ctl::Quit) ==> {
                &&& t.keys == k2
                &&& t.quit == (c2 == Some(Ctl::Quit))
                &&& f1 is None && c1 is None ==> t.commands == (match c2 {
                    Some(c) => seq![c],
                    None => Seq::empty(),
                })
                &&& f1 is None && c1 is None && !t.quit ==> t.forward == (match f2 {
                    Some(f) => seq![f],
                    None => Seq::empty(),
                })
                &&& t.quit ==> t.forward == Seq::<u8>::empty()
            }
        }),
{
    reveal_with_fuel(after_typing, 3);
    assert(seq![x, y].drop_last() =~= seq![x]);
    assert(seq![x].drop_last() =~= Seq::<u8>::empty());
    let t = after_typing(k, b, seq![x, y]);
    let (k1, f1, c1) = pressed(k, b, x);
    let (k2, f2, c2) = pressed(k1, b, y);
    assert(Seq::<u8>::empty().push(f2.unwrap()) =~= seq![f2.unwrap()]);
    assert(Seq::<Ctl>::empty().push(c2.unwrap()) =~= seq![c2.unwrap()]);
}

/// The prefix typed twice sends one literal prefix to the shell.
pub proof fn law_prefix_twice_is_literal(k: Keys, b: Bindings)
    requires
        !k.armed,
        b.prefix != 'p' as u8 && b.prefix != 'P' as u8,
        b.prefix != 'q' as u8 && b.prefix != 'Q' as u8,
        b.voice ==> b.voice_key != b.prefix,
    ensures
        after_typing(k, b, seq![b.prefix, b.prefix]) == (TypedV {
            keys: k,
            forward: seq![b.prefix],
            commands: Seq::empty(),
            quit: false,
        }),
{
    lemma_two_keys(k, b, b.prefix, b.prefix);
}

/// The prefix and `p` pause the stream, and resume it when typed again. Neither
/// reaches the shell.
pub proof fn law_privacy_toggles(k: Keys, b: Bindings)
    requires
        !k.armed,
        b.voice ==> b.voice_key != b.prefix,
    ensures
        ({
            let t = after_typing(k, b, seq![b.prefix, 'p' as u8]);
            let u = after_typing(t.keys, b, seq![b.prefix, 'p' as u8]);
            &&& t.commands == seq![Ctl::Privacy(!k.paused)]
            &&& t.forward == Seq::<u8>::empty()
            &&& u.commands == seq![Ctl::Privacy(k.paused)]
            &&& u.forward == Seq::<u8>::empty()
            &&& u.keys == k
        }),
{
    lemma_two_keys(k, b, b.prefix, 'p' as u8);
    let t = after_typing(k, b, seq![b.prefix, 'p' as u8]);
    lemma_two_keys(t.keys, b, b.prefix, 'p' as u8);
}

/// The prefix and `t` turn the microphone on, and off when typed again, if
/// there is one.
pub proof fn law_talk_toggles(k: Keys, b: Bindings)
    requires
        !k.armed,
        b.prefix != 't' as u8,
        b.voice,
        b.voice_key != b.prefix,
    ensures
        ({
            let t = after_typing(k, b, seq![b.prefix, 't' as u8]);
            let u = after_typing(t.keys, b, seq![b.prefix, 't' as u8]);
            &&& t.commands == seq![Ctl::Talk(!k.talking)]
            &&& t.forward == Seq::<u8>::empty()
            &&& u.commands == seq![Ctl::Talk(k.talking)]
            &&& u.keys == k
        }),
{
    lemma_two_keys(k, b, b.prefix, 't' as u8);
    let t = after_typing(k, b, seq![b.prefix, 't' as u8]);
    lemma_two_keys(t.keys, b, b.prefix, 't' as u8);
}

/// The prefix and `q` quit, and nothing reaches the shell.
pub proof fn law_quit_key(k: Keys, b: Bindings)
    requires
        !k.armed,
        b.voice ==> b.voice_key != b.prefix,
    ensures
        ({
            let t = after_typing(k, b, seq![b.prefix, 'q' as u8]);
            &&& t.quit
            &&& t.commands == seq![Ctl::Quit]
            &&& t.forward == Seq::<u8>::empty()
        }),
{
    lemma_two_keys(k, b, b.prefix, 'q' as u8);
}

/// The key that toggles the microphone does so whatever its state, as long as no
/// prefix is pending: it is a command to the session and nothing to the shell,
/// and typed again it leads back.
pub proof fn law_voice_key_flips_the_microphone(k: Keys, b: Bindings)
    requires
        !k.armed,
        b.voice,
    ensures
        ({
            let (on, to_shell, command) = pressed(k, b, b.voice_key);
            let (off, again, back) = pressed(on, b, b.voice_key);
            &&& command == Some(Ctl::Talk(!k.talking))
            &&& to_shell is None
            &&& on.talking == !k.talking
            &&& on.paused == k.paused
            &&& !on.armed
            &&& back == Some(Ctl::Talk(k.talking))
            &&& again is None
            &&& off == k
        }),
        ({
            let t = after_typing(k, b, seq![b.voice_key, b.voice_key]);
            &&& t.commands == seq![Ctl::Talk(!k.talking), Ctl::Talk(k.talking)]
            &&& t.forward == Seq::<u8>::empty()
            &&& t.keys == k
            &&& !t.quit
        }),
{
    reveal_with_fuel(after_typing, 3);
    assert(seq![b.voice_key, b.voice_key].drop_last() =~= seq![b.voice_key]);
    assert(seq![b.voice_key].drop_last() =~= Seq::<u8>::empty());
    let t = after_typing(k, b, seq![b.voice_key, b.voice_key]);
    assert(t.commands =~= seq![Ctl::Talk(!k.talking), Ctl::Talk(k.talking)]);
}

/// The prefix reaches neither shell nor session; it makes the next key a
/// command, and changes nothing else.
pub proof fn law_prefix_announces_a_command(k: Keys, b: Bindings)
    requires
        !k.armed,
        b.voice ==> b.voice_key != b.prefix,
    ensures
        ({
            let (next, to_shell, command) = pressed(k, b, b.prefix);
            &&& next.armed
            &&& next.paused == k.paused
            &&& next.talking == k.talking
            &&& to_shell is None
            &&& command is None
        }),
{
}

/// A command is over with the key behind the prefix, whatever the key is. Upper
/// and lower case of a command mean the same, and each command does one thing:
/// `p` flips the pause, `q` quits, `t` flips the microphone if there is one.
pub proof fn law_commands_do_one_thing(k: Keys, b: Bindings, key: u8)
    requires
        k.armed,
    ensures
        ({
            let (next, to_shell, command) = pressed(k, b, key);
            &&& !next.armed
            &&& next.paused != k.paused <==> (key == 0x70 || key == 0x50)
            &&& next.paused != k.paused <==> command == Some(Ctl::Privacy(!k.paused))
            &&& command == Some(Ctl::Quit) <==> (key == 0x71 || key == 0x51)
            &&& command == Some(Ctl::Quit) ==> next.paused == k.paused && next.talking == k.talking
            &&& next.talking != k.talking <==> command == Some(Ctl::Talk(!k.talking))
            &&& key != b.prefix ==> (next.talking != k.talking <==> key == 0x74 && b.voice)
            &&& command matches Some(Ctl::Privacy(paused)) ==> paused == !k.paused
            &&& command matches Some(Ctl::Talk(on)) ==> on == !k.talking
            &&& to_shell matches Some(x) ==> x == key && key == b.prefix
            &&& key == b.prefix && key != 0x70 && key != 0x50 && key != 0x71 && key != 0x51 ==> {
                &&& to_shell == Some(key)
                &&& command is None
            }
            &&& command is Some ==> to_shell is None
        }),
{
}

/// A key that is neither prefix nor the microphone's reaches the shell as it is
/// and does nothing else, unless it follows the prefix.
pub proof fn law_other_keys_go_to_the_shell(k: Keys, b: Bindings, key: u8)
    requires
        !k.armed,
        key != b.prefix,
        b.voice ==> key != b.voice_key,
    ensures
        pressed(k, b, key) == (k, Some(key), None::<Ctl>),
{
}

/// Keys take effect in the order in which they were typed, one at a time: what
/// one more key brings comes behind what the others brought. When the host
/// quits, nothing goes to the shell.
pub proof fn law_keys_take_effect_in_order(k: Keys, b: Bindings, typed: Seq<u8>, key: u8)
    ensures
        ({
            let t = after_typing(k, b, typed);
            let u = after_typing(k, b, typed.push(key));
            let (next, to_shell, command) = pressed(t.keys, b, key);
            &&& t.quit ==> u == t
            &&& !t.quit ==> {
                &&& u.keys == next
                &&& u.quit == (command == Some(Ctl::Quit))
                &&& command matches Some(c) ==> u.commands == t.commands.push(c)
                &&& command is None ==> u.commands == t.commands
                &&& u.quit ==> u.forward == Seq::<u8>::empty()
                &&& !u.quit ==> (to_shell matches Some(x) ==> u.forward == t.forward.push(x))
                &&& !u.quit && to_shell is None ==> u.forward == t.forward
            }
        }),
        after_typing(k, b, Seq::empty()) == (TypedV {
            keys: k,
            forward: Seq::empty(),
            commands: Seq::empty(),
            quit: false,
        }),
{
    assert(typed.push(key).drop_last() =~= typed);
}

/// Nothing reaches the shell that was not typed here.
pub proof fn law_shell_gets_only_typed_keys(k: Keys, b: Bindings, typed: Seq<u8>, i: int)
    requires
        0 <= i < after_typing(k, b, typed).forward.len(),
    ensures
        typed.contains(after_typing(k, b, typed).forward[i]),
    decreases typed.len(),
{
    let short = typed.drop_last();
    let t = after_typing(k, b, short);
    let x = after_typing(k, b, typed).forward[i];
    if i < t.forward.len() {
        law_shell_gets_only_typed_keys(k, b, short, i);
        let j = choose|j: int| 0 <= j < short.len() && short[j] == x;
        assert(typed[j] == x);
    } else {
        assert(typed[typed.len() - 1] == x);
    }
}

// ------------------------------------------------------------------ handshake

/// The greeting of a host.
pub open spec fn greeting(
    name: Seq<char>,
    shell: Seq<char>,
    public: bool,
    auth_key: Option<Seq<char>>,
    chat: bool,
    cols: u16,
    rows: u16,
) -> HostHelloV {
    HostHelloV {
        name,
        shell: label_of(shell),
        public,
        cols,
        rows,
        auth_key,
        chat,
        version: PROTOCOL_VERSION@,
    }
}

/// The greeting of a host that streams `shell` under `name`, in a terminal of
/// the given size.
pub fn hello(cfg: &StreamConfig, name: &str, shell: &str, cols: u16, rows: u16) -> (h: HostHello)
    ensures
        h@ == greeting(name@, shell@, cfg.public, text_view(cfg.auth_key), cfg.chat, cols, rows),
{
    HostHello {
        name: name.to_string(),
        shell: shell_label(shell),
        public: cfg.public,
        cols,
        rows,
        auth_key: copy_text(&cfg.auth_key),
        chat: cfg.chat,
        version: PROTOCOL_VERSION.to_string(),
    }
}

/// What the relay's answer to the greeting comes to: the stream's id and join
/// code, or why there is no stream.
pub open spec fn verdict(answer: Incoming<RelayToHost>) -> Result<
    (Seq<char>, Seq<char>),
    Seq<char>,
> {
    match answer {
        Incoming::Binary(Some(RelayToHost::Welcome { stream_id, code, viewers })) => Ok(
            (stream_id@, code@),
        ),
        Incoming::Binary(Some(RelayToHost::Error(e))) => Err("relay refused the stream: "@ + e@),
        Incoming::Binary(_) => Err("unexpected first frame from relay"@),
        _ => Err("relay closed the connection during handshake"@),
    }
}

/// A host has a stream exactly where the relay welcomes it, under the id and the
/// join code that the welcome gives. Else it has none, and what the relay says
/// about that is told.
pub proof fn law_only_a_welcome_admits(answer: Incoming<RelayToHost>)
    ensures
        verdict(answer) is Ok <==> (answer matches Incoming::Binary(
            Some(RelayToHost::Welcome { .. }),
        )),
        answer matches Incoming::Binary(Some(RelayToHost::Welcome { stream_id, code, viewers }))
            ==> verdict(answer) == Ok::<(Seq<char>, Seq<char>), Seq<char>>((stream_id@, code@)),
        answer matches Incoming::Binary(Some(RelayToHost::Error(e))) ==> (verdict(
            answer,
        ) matches Err(why) && e@.is_suffix_of(why)),
        !(answer is Binary) ==> verdict(answer) == Err::<(Seq<char>, Seq<char>), Seq<char>>(
            "relay closed the connection during handshake"@,
        ),
{
    if let Incoming::Binary(Some(RelayToHost::Error(e))) = answer {
        let why = "relay refused the stream: "@ + e@;
        assert(why.subrange(why.len() - e@.len(), why.len() as int) =~= e@);
    }
}

/// Judges the relay's answer to the greeting: the stream's id and join code, or
/// why there is no stream.
pub fn admitted(answer: Incoming<RelayToHost>) -> (out: Result<(String, String), String>)
    ensures
        (match out {
            Ok(s) => Ok::<(Seq<char>, Seq<char>), Seq<char>>((s.0@, s.1@)),
            Err(why) => Err(why@),
        }) == verdict(answer),
        match answer {
            Incoming::Binary(Some(RelayToHost::Welcome { stream_id, code, viewers })) => out == Ok::<
                (String, String),
                String,
            >((stream_id, code)),
            Incoming::Binary(Some(RelayToHost::Error(e))) => out matches Err(why) && why@
                == "relay refused the stream: "@ + e@,
            Incoming::Binary(_) => out matches Err(why) && why@
                == "unexpected first frame from relay"@,
            _ => out matches Err(why) && why@ == "relay closed the connection during handshake"@,
        },
{
    match answer {
        Incoming::Binary(Some(RelayToHost::Welcome { stream_id, code, viewers })) => Ok(
            (stream_id, code),
        ),
        Incoming::Binary(Some(RelayToHost::Error(e))) => {
            let mut why = "relay refused the stream: ".to_string();
            why.append(e.as_str());
            Err(why)
        },
        Incoming::Binary(_) => Err("unexpected first frame from relay".to_string()),
        _ => Err("relay closed the connection during handshake".to_string()),
    }
}

// -------------------------------------------------------------------- session

/// What a running session has shown so far.
#[derive(Clone, Copy)]
pub struct Session {
    /// Size of the terminal, columns first.
    pub last_size: (u16, u16),
    /// Whether the microphone was on.
    pub last_talking: bool,
}

/// What happens during a session.
#[derive(Debug)]
pub enum Event {
    /// The shell wrote output.
    Output(Vec<u8>),
    /// The microphone delivered a frame.
    Voice(Vec<i16>),
    /// The host typed a command.
    Command(Ctl),
    /// Something arrived from the relay.
    Relay(Incoming<RelayToHost>),
    /// Time passed: the size of the terminal, if it could be read, and whether
    /// the microphone is on, if there is one.
    Tick { size: Option<(u16, u16)>, talking: Option<bool> },
    /// The shell exited, with the output that is still queued.
    Exited(Vec<Vec<u8>>),
}

/// Model of [`Event`].
pub enum EventV {
    Output(Seq<u8>),
    Voice(Seq<i16>),
    Command(Ctl),
    Relay(Incoming<RelayToHost>),
    Tick { size: Option<(u16, u16)>, talking: Option<bool> },
    Exited(Seq<Seq<u8>>),
}

impl View for Event {
    type V = EventV;

    open spec fn view(&self) -> EventV {
        match *self {
            Event::Output(b) => EventV::Output(b@),
            Event::Voice(f) => EventV::Voice(f@),
            Event::Command(c) => EventV::Command(c),
            Event::Relay(m) => EventV::Relay(m),
            Event::Tick { size, talking } => EventV::Tick { size, talking },
            Event::Exited(chunks) => EventV::Exited(chunks@.map_values(|c: Vec<u8>| c@)),
        }
    }
}

/// What a session does about an event, in the order of the fields.
#[derive(Debug)]
pub struct Step {
    /// The new size of the shell's terminal, columns first.
    pub resize: Option<(u16, u16)>,
    /// Messages to the relay.
    pub sends: Vec<HostToRelay>,
    /// Whether the session ends if one of them cannot be sent.
    pub vital: bool,
    /// A pong of the transport, with its payload.
    pub pong: Option<Vec<u8>>,
    /// What is written to the local terminal.
    pub show: Option<String>,
    /// Whether the session ends.
    pub done: bool,
}

/// Model of [`Step`].
pub struct StepV {
    pub resize: Option<(u16, u16)>,
    pub sends: Seq<HostToRelayV>,
    pub vital: bool,
    pub pong: Option<Seq<u8>>,
    pub show: Option<Seq<char>>,
    pub done: bool,
}

impl View for Step {
    type V = StepV;

    open spec fn view(&self) -> StepV {
        StepV {
            resize: self.resize,
            sends: self.sends@.map_values(|m: HostToRelay| m@),
            vital: self.vital,
            pong: match self.pong {
                Some(p) => Some(p@),
                None => None,
            },
            show: text_view(self.show),
            done: self.done,
        }
    }
}

/// Nothing is done.
pub open spec fn idle() -> StepV {
    StepV {
        resize: None,
        sends: Seq::empty(),
        vital: false,
        pong: None,
        show: None,
        done: false,
    }
}

/// The sequence that sets the title of the terminal, and shows a desktop
/// notification if there is one. The terminal draws neither.
pub open spec fn status_text(title: Seq<char>, notify: Option<Seq<char>>) -> Seq<char> {
    let t = "\x1b]0;"@ + title + "\x07"@;
    match notify {
        Some(n) => t + ("\x1b]9;"@ + n + "\x07"@),
        None => t,
    }
}

/// The sequence that sets the title of the terminal and shows a notification.
pub fn status(title: &str, notify: Option<&str>) -> (out: String)
    ensures
        out@ == status_text(
            title@,
            match notify {
                Some(n) => Some(n@),
                None => None,
            },
        ),
{
    let mut out = "\x1b]0;".to_string();
    out.append(title);
    out.append("\x07");
    if let Some(n) = notify {
        let ghost head = out@;
        out.append("\x1b]9;");
        out.append(n);
        out.append("\x07");
        assert(out@ =~= head + ("\x1b]9;"@ + n@ + "\x07"@));
    }
    out
}

/// What the terminal is told about the microphone: every change, and time and
/// again that it is on, since the shell may reset the title.
pub open spec fn mic_status(was: bool, talking: Option<bool>) -> Option<Seq<char>> {
    match talking {
        None => None,
        Some(on) => if on != was {
            if on {
                Some(status_text("🎙 ON · tcast"@, Some("tcast — mic ON"@)))
            } else {
                Some(status_text("tcast"@, Some("tcast — mic off"@)))
            }
        } else if on {
            Some(status_text("🎙 ON · tcast"@, None))
        } else {
            None
        },
    }
}

/// The session after an event.
pub open spec fn session_after(s: Session, e: EventV) -> Session {
    match e {
        EventV::Tick { size, talking } => Session {
            last_size: match size {
                Some(z) => z,
                None => s.last_size,
            },
            last_talking: match talking {
                Some(on) => on,
                None => s.last_talking,
            },
        },
        _ => s,
    }
}

/// What a session does about an event.
pub open spec fn session_step(s: Session, e: EventV) -> StepV {
    match e {
        EventV::Output(b) => StepV { sends: seq![HostToRelayV::Output(b)], vital: true, ..idle() },
        EventV::Voice(f) => StepV {
            sends: seq![HostToRelayV::Audio(encoded(f))],
            vital: true,
            ..idle()
        },
        EventV::Command(Ctl::Privacy(paused)) => StepV {
            sends: seq![HostToRelayV::Privacy { paused }],
            ..idle()
        },
        EventV::Command(Ctl::Talk(_)) => idle(),
        EventV::Command(Ctl::Quit) => StepV { sends: seq![HostToRelayV::Bye], done: true, ..idle() },
        EventV::Relay(Incoming::Binary(Some(RelayToHost::Ping))) => StepV {
            sends: seq![HostToRelayV::Pong],
            ..idle()
        },
        EventV::Relay(Incoming::Binary(_)) => idle(),
        EventV::Relay(Incoming::Ping(p)) => StepV { pong: Some(p@), ..idle() },
        EventV::Relay(Incoming::Other) => idle(),
        EventV::Relay(Incoming::Closing) => StepV { done: true, ..idle() },
        EventV::Relay(Incoming::Closed) => StepV { done: true, ..idle() },
        EventV::Relay(Incoming::Broken(_)) => StepV { done: true, ..idle() },
        EventV::Tick { size, talking } => {
            let show = mic_status(s.last_talking, talking);
            match size {
                Some((cols, rows)) => if (cols, rows) != s.last_size {
                    StepV {
                        resize: Some((cols, rows)),
                        sends: seq![HostToRelayV::Resize { cols, rows }],
                        show,
                        ..idle()
                    }
                } else {
                    StepV { show, ..idle() }
                },
                None => StepV { show, ..idle() },
            }
        },
        EventV::Exited(chunks) => StepV {
            sends: chunks.map_values(|c: Seq<u8>| HostToRelayV::Output(c)).push(HostToRelayV::Bye),
            done: true,
            ..idle()
        },
    }
}

/// A session in a terminal of the given size.
pub open spec fn new_session(cols: u16, rows: u16) -> Session {
    Session { last_size: (cols, rows), last_talking: false }
}

/// A session begins with the size that it was given and with the microphone off:
/// the first tick reports nothing unless one of them has changed.
pub proof fn law_sessions_begin_quietly(cols: u16, rows: u16, c: u16, r: u16, on: bool)
    ensures
        ({
            let s = new_session(cols, rows);
            let out = session_step(s, EventV::Tick { size: Some((c, r)), talking: Some(on) });
            &&& out.resize is Some <==> c != cols || r != rows
            &&& out.show is Some <==> on
        }),
{
}

impl Session {
    /// A session in a terminal of the given size.
    pub fn new(cols: u16, rows: u16) -> (s: Session)
        ensures
            s == new_session(cols, rows),
            s == (Session { last_size: (cols, rows), last_talking: false }),
    {
        Session { last_size: (cols, rows), last_talking: false }
    }

    /// Decides what is done about an event.
    pub fn step(&mut self, e: Event) -> (out: Step)
        ensures
            *final(self) == session_after(*old(self), e@),
            out@ == session_step(*old(self), e@),
    {
        let ghost want = session_step(*self, e@);
        let mut out = Step {
            resize: None,
            sends: Vec::new(),
            vital: false,
            pong: None,
            show: None,
            done: false,
        };
        match e {
            Event::Output(b) => {
                out.sends.push(HostToRelay::Output(b));
                out.vital = true;
            },
            Event::Voice(f) => {
                out.sends.push(HostToRelay::Audio(encode_frame(f.as_slice())));
                out.vital = true;
            },
            Event::Command(c) => match c {
                Ctl::Privacy(paused) => {
                    out.sends.push(HostToRelay::Privacy { paused });
                },
                Ctl::Talk(_) => {},
                Ctl::Quit => {
                    out.sends.push(HostToRelay::Bye);
                    out.done = true;
                },
            },
            Event::Relay(m) => match m {
                Incoming::Binary(Some(RelayToHost::Ping)) => {
                    out.sends.push(HostToRelay::Pong);
                },
                Incoming::Binary(_) => {},
                Incoming::Ping(p) => {
                    out.pong = Some(p);
                },
                Incoming::Other => {},
                Incoming::Closing => {
                    out.done = true;
                },
                Incoming::Closed => {
                    out.done = true;
                },
                Incoming::Broken(_) => {
                    out.done = true;
                },
            },
            Event::Tick { size, talking } => {
                if let Some((cols, rows)) = size {
                    if cols != self.last_size.0 || rows != self.last_size.1 {
                        self.last_size = (cols, rows);
                        out.resize = Some((cols, rows));
                        out.sends.push(HostToRelay::Resize { cols, rows });
                    }
                }
                if let Some(on) = talking {
                    if on != self.last_talking {
                        self.last_talking = on;
                        out.show = if on {
                            Some(status("🎙 ON · tcast", Some("tcast — mic ON")))
                        } else {
                            Some(status("tcast", Some("tcast — mic off")))
                        };
                    } else if on {
                        out.show = Some(status("🎙 ON · tcast", None));
                    }
                }
            },
            Event::Exited(chunks) => {
                out.sends = farewell(chunks);
                out.done = true;
            },
        }
        assert(out@.sends =~= want.sends);
        out
    }
}

/// The messages with the last output of a shell, and the goodbye.
fn farewell(chunks: Vec<Vec<u8>>) -> (sends: Vec<HostToRelay>)
    ensures
        sends@.map_values(|m: HostToRelay| m@) == chunks@.map_values(|c: Vec<u8>| c@).map_values(
            |c: Seq<u8>| HostToRelayV::Output(c),
        ).push(HostToRelayV::Bye),
{
    let mut sends: Vec<HostToRelay> = Vec::new();
    let mut i: usize = 0;
    while i < chunks.len()
        invariant
            i <= chunks@.len(),
            sends@.len() == i,
            forall|j: int|
                0 <= j < i ==> (#[trigger] sends@[j])@ == HostToRelayV::Output(chunks@[j]@),
        decreases chunks@.len() - i,
    {
        sends.push(HostToRelay::Output(copied(&chunks[i])));
        i += 1;
    }
    sends.push(HostToRelay::Bye);
    assert(sends@.map_values(|m: HostToRelay| m@) =~= chunks@.map_values(
        |c: Vec<u8>| c@,
    ).map_values(|c: Seq<u8>| HostToRelayV::Output(c)).push(HostToRelayV::Bye));
    sends
}

fn copied(bytes: &Vec<u8>) -> (out: Vec<u8>)
    ensures
        out@ == bytes@,
{
    let mut out: Vec<u8> = Vec::new();
    let mut i: usize = 0;
    while i < bytes.len()
        invariant
            i <= bytes@.len(),
            out@ == bytes@.take(i as int),
        decreases bytes@.len() - i,
    {
        out.push(bytes[i]);
        i += 1;
        assert(out@ =~= bytes@.take(i as int));
    }
    assert(bytes@.take(i as int) =~= bytes@);
    out
}

/// Nothing that the relay sends reaches the shell or the local screen: all that
/// comes of it is a pong or the end of the session.
pub proof fn law_relay_cannot_reach_the_shell(s: Session, m: Incoming<RelayToHost>)
    ensures
        session_after(s, EventV::Relay(m)) == s,
        session_step(s, EventV::Relay(m)).resize is None,
        session_step(s, EventV::Relay(m)).show is None,
        forall|i: int|
            0 <= i < session_step(s, EventV::Relay(m)).sends.len() ==> #[trigger] session_step(
                s,
                EventV::Relay(m),
            ).sends[i] == HostToRelayV::Pong,
{
}

/// Output of the shell goes to the relay as it is, also what is still queued
/// when the shell exits, which comes before the goodbye.
pub proof fn law_output_is_sent_in_full(s: Session, chunk: Seq<u8>, chunks: Seq<Seq<u8>>, i: int)
    requires
        0 <= i < chunks.len(),
    ensures
        session_step(s, EventV::Output(chunk)).sends == seq![HostToRelayV::Output(chunk)],
        session_step(s, EventV::Exited(chunks)).sends.len() == chunks.len() + 1,
        session_step(s, EventV::Exited(chunks)).sends[i] == HostToRelayV::Output(chunks[i]),
        session_step(s, EventV::Exited(chunks)).sends.last() == HostToRelayV::Bye,
{
}

/// Whenever the terminal has another number of columns or of rows than last
/// reported, the shell's terminal is resized and the relay is sent that size,
/// once; and neither is ever done without the other, nor for any other reason.
pub proof fn law_every_change_of_size_is_reported(
    s: Session,
    cols: u16,
    rows: u16,
    talking: Option<bool>,
)
    ensures
        ({
            let out = session_step(s, EventV::Tick { size: Some((cols, rows)), talking });
            &&& cols != s.last_size.0 || rows != s.last_size.1 ==> {
                &&& out.resize == Some((cols, rows))
                &&& out.sends == seq![HostToRelayV::Resize { cols, rows }]
            }
            &&& cols == s.last_size.0 && rows == s.last_size.1 ==> {
                &&& out.resize is None
                &&& out.sends == Seq::<HostToRelayV>::empty()
            }
            &&& session_after(s, EventV::Tick { size: Some((cols, rows)), talking }).last_size == (
                cols,
                rows,
            )
        }),
        ({
            let out = session_step(s, EventV::Tick { size: None, talking });
            &&& out.resize is None
            &&& out.sends == Seq::<HostToRelayV>::empty()
            &&& session_after(s, EventV::Tick { size: None, talking }).last_size == s.last_size
        }),
{
}

/// The relay and the shell never differ about the size: whatever happens, a
/// resize is sent exactly where the shell's terminal is resized, with the same
/// size.
pub proof fn law_shell_and_relay_agree_on_the_size(s: Session, e: EventV, cols: u16, rows: u16)
    ensures
        session_step(s, e).sends.contains(HostToRelayV::Resize { cols, rows }) <==> session_step(
            s,
            e,
        ).resize == Some((cols, rows)),
        session_step(s, e).resize == Some((cols, rows)) ==> session_after(s, e).last_size == (
            cols,
            rows,
        ),
        session_step(s, e).resize is None ==> session_after(s, e).last_size == s.last_size,
{
    let out = session_step(s, e);
    let m = HostToRelayV::Resize { cols, rows };
    if out.sends.contains(m) {
        let i = choose|i: int| 0 <= i < out.sends.len() && out.sends[i] == m;
        assert(out.sends[i] == m);
    }
    if out.resize == Some((cols, rows)) {
        assert(out.sends[0] == m);
    }
}

/// Each command of the host reaches the relay as it is: a pause or its end with
/// its flag, a quit as a goodbye that ends the session. The microphone's switch
/// is no business of the relay.
pub proof fn law_commands_reach_the_relay(s: Session, paused: bool, on: bool)
    ensures
        session_step(s, EventV::Command(Ctl::Privacy(paused))).sends == seq![
            HostToRelayV::Privacy { paused },
        ],
        !session_step(s, EventV::Command(Ctl::Privacy(paused))).done,
        session_step(s, EventV::Command(Ctl::Quit)).sends == seq![HostToRelayV::Bye],
        session_step(s, EventV::Command(Ctl::Quit)).done,
        session_step(s, EventV::Command(Ctl::Talk(on))).sends == Seq::<HostToRelayV>::empty(),
        !session_step(s, EventV::Command(Ctl::Talk(on))).done,
        session_after(s, EventV::Command(Ctl::Privacy(paused))) == s,
        session_after(s, EventV::Command(Ctl::Talk(on))) == s,
{
}

/// What the microphone delivers is sent as bytes from which the same samples are
/// read, and nothing else is sent.
pub proof fn law_voice_is_sent_in_full(s: Session, frame: Seq<i16>)
    ensures
        ({
            let out = session_step(s, EventV::Voice(frame));
            &&& out.sends.len() == 1
            &&& out.sends[0] matches HostToRelayV::Audio(bytes) && decoded(bytes) == frame
            &&& out.vital
            &&& !out.done
        }),
        session_after(s, EventV::Voice(frame)) == s,
{
    law_frame_round_trip(frame);
}

/// A session ends exactly when the host quits, the shell exits or the connection
/// is closed or broken; and where the host or the shell ends it, the relay is
/// told goodbye last, behind all output of the shell that had not been sent.
pub proof fn law_sessions_end_for_a_reason(s: Session, e: EventV)
    ensures
        session_step(s, e).done <==> {
            ||| e == EventV::Command(Ctl::Quit)
            ||| e is Exited
            ||| e matches EventV::Relay(Incoming::Closing)
            ||| e matches EventV::Relay(Incoming::Closed)
            ||| e matches EventV::Relay(Incoming::Broken(_))
        },
        session_step(s, e).sends.contains(HostToRelayV::Bye) <==> e == EventV::Command(Ctl::Quit)
            || e is Exited,
        e == EventV::Command(Ctl::Quit) ==> session_step(s, e).sends == seq![HostToRelayV::Bye],
        e matches EventV::Exited(chunks) ==> {
            let sends = session_step(s, e).sends;
            &&& sends.len() == chunks.len() + 1
            &&& forall|i: int|
                0 <= i < chunks.len() ==> #[trigger] sends[i] == HostToRelayV::Output(chunks[i])
            &&& sends.last() == HostToRelayV::Bye
        },
        session_step(s, e).vital <==> e is Output || e is Voice,
{
    let sends = session_step(s, e).sends;
    if e == EventV::Command(Ctl::Quit) || e is Exited {
        assert(sends[sends.len() - 1] == HostToRelayV::Bye);
    }
    if sends.contains(HostToRelayV::Bye) {
        let i = choose|i: int| 0 <= i < sends.len() && sends[i] == HostToRelayV::Bye;
        assert(sends[i] == HostToRelayV::Bye);
    }
}

/// A ping of the relay is answered with a pong, one of the transport with its own
/// payload; no other frame is answered.
pub proof fn law_pings_of_the_relay_are_answered(s: Session, m: Incoming<RelayToHost>)
    ensures
        m matches Incoming::Binary(Some(RelayToHost::Ping)) ==> session_step(
            s,
            EventV::Relay(m),
        ).sends == seq![HostToRelayV::Pong],
        !(m matches Incoming::Binary(Some(RelayToHost::Ping))) ==> session_step(
            s,
            EventV::Relay(m),
        ).sends == Seq::<HostToRelayV>::empty(),
        m matches Incoming::Ping(p) ==> session_step(s, EventV::Relay(m)).pong == Some(p@),
        !(m is Ping) ==> session_step(s, EventV::Relay(m)).pong is None,
{
}

/// The terminal is told of the microphone whenever it is switched, with a
/// notification; as long as it is on, time and again, without one; and never
/// while it stays off. What is said tells on from off.
pub proof fn law_microphone_is_announced(s: Session, size: Option<(u16, u16)>, on: bool)
    ensures
        ({
            let e = EventV::Tick { size, talking: Some(on) };
            let said = session_step(s, e).show;
            &&& session_after(s, e).last_talking == on
            &&& on != s.last_talking ==> said is Some
            &&& on && !s.last_talking ==> said == Some(
                "\x1b]0;"@ + "🎙 ON · tcast"@ + "\x07"@ + ("\x1b]9;"@ + "tcast — mic ON"@ + "\x07"@),
            )
            &&& !on && s.last_talking ==> said == Some(
                "\x1b]0;"@ + "tcast"@ + "\x07"@ + ("\x1b]9;"@ + "tcast — mic off"@ + "\x07"@),
            )
            &&& on && s.last_talking ==> said == Some("\x1b]0;"@ + "🎙 ON · tcast"@ + "\x07"@)
            &&& !on && !s.last_talking ==> said is None
        }),
        ({
            let e = EventV::Tick { size, talking: None };
            &&& session_step(s, e).show is None
            &&& session_after(s, e).last_talking == s.last_talking
        }),
{
}

/// Nothing but the passing of time shows anything on the local terminal or is
/// remembered.
pub proof fn law_only_time_is_remembered(s: Session, e: EventV)
    requires
        !(e is Tick),
    ensures
        session_after(s, e) == s,
        session_step(s, e).show is None,
        session_step(s, e).resize is None,
{
}

/// A host announces itself as it was asked to: its name, whether it is public and
/// accepts chat, the size of its terminal and its key, all as they are; and its
/// shell without folder and ".exe".
pub proof fn law_greetings_say_what_was_asked(
    name: Seq<char>,
    shell: Seq<char>,
    public: bool,
    auth_key: Option<Seq<char>>,
    chat: bool,
    cols: u16,
    rows: u16,
)
    ensures
        ({
            let h = greeting(name, shell, public, auth_key, chat, cols, rows);
            &&& h.name == name
            &&& h.public == public
            &&& h.auth_key == auth_key
            &&& h.chat == chat
            &&& h.cols == cols
            &&& h.rows == rows
            &&& h.version == "0.2"@
            &&& forall|i: int| 0 <= i < h.shell.len() ==> #[trigger] h.shell[i] != '/' && h.shell[i]
                != '\\'
        }),
{
    lemma_base_name(shell);
    let h = greeting(name, shell, public, auth_key, chat, cols, rows);
    let base = base_name(shell);
    assert forall|i: int| 0 <= i < h.shell.len() implies #[trigger] h.shell[i] != '/' && h.shell[i]
        != '\\' by {
        assert(h.shell[i] == base[i]);
    }
}

proof fn lemma_base_name(path: Seq<char>)
    ensures
        base_name(path).len() <= path.len(),
        base_name(path) == path.skip(path.len() - base_name(path).len()),
        forall|i: int|
            0 <= i < base_name(path).len() ==> #[trigger] base_name(path)[i] != '/' && base_name(
                path,
            )[i] != '\\',
        base_name(path).len() < path.len() ==> {
            let c = path[path.len() - base_name(path).len() - 1];
            c == '/' || c == '\\'
        },
    decreases path.len(),
{
    if path.len() == 0 || path.last() == '/' || path.last() == '\\' {
        assert(path.skip(path.len() as int) =~= Seq::<char>::empty());
    } else {
        let short = path.drop_last();
        lemma_base_name(short);
        assert(base_name(path) =~= path.skip(path.len() - base_name(path).len()));
    }
}

/// The label of a shell is what stands behind the last separator of its path,
/// without ".exe" at its end: a folder in front of it makes no difference, and
/// neither does the ending.
pub proof fn law_shell_labels_drop_folder_and_ending(folder: Seq<char>, file: Seq<char>, sep: char)
    requires
        sep == '/' || sep == '\\',
        forall|i: int| 0 <= i < file.len() ==> #[trigger] file[i] != '/' && file[i] != '\\',
    ensures
        label_of(folder.push(sep) + file) == label_of(file),
        label_of(file + ".exe"@) == file,
        !".exe"@.is_suffix_of(file) ==> label_of(file) == file,
{
    lemma_base_of(folder.push(sep), file);
    lemma_base_of(Seq::empty(), file);
    assert(Seq::<char>::empty() + file =~= file);
    reveal_strlit(".exe");
    let whole = file + ".exe"@;
    assert forall|i: int| 0 <= i < whole.len() implies #[trigger] whole[i] != '/' && whole[i]
        != '\\' by {
        if i < file.len() {
            assert(whole[i] == file[i]);
        }
    }
    lemma_base_of(Seq::empty(), whole);
    assert(Seq::<char>::empty() + whole =~= whole);
    assert(whole.subrange(whole.len() - 4, whole.len() as int) =~= ".exe"@);
    assert(whole.take(whole.len() - 4) =~= file);
}

proof fn lemma_base_of(front: Seq<char>, file: Seq<char>)
    requires
        front.len() == 0 || front.last() == '/' || front.last() == '\\',
        forall|i: int| 0 <= i < file.len() ==> #[trigger] file[i] != '/' && file[i] != '\\',
    ensures
        base_name(front + file) == file,
    decreases file.len(),
{
    let path = front + file;
    if file.len() == 0 {
        assert(path =~= front);
        assert(base_name(path) =~= file);
    } else {
        let short = file.drop_last();
        assert forall|i: int| 0 <= i < short.len() implies #[trigger] short[i] != '/' && short[i]
            != '\\' by {
            assert(short[i] == file[i]);
        }
        lemma_base_of(front, short);
        assert(path.drop_last() =~= front + short);
        assert(file[file.len() - 1] != '/');
        assert(base_name(path) =~= file);
    }
}

/// A control key is called by the character that it is typed with.
pub proof fn law_control_keys_are_called_by_their_letter(key: u8)
    requires
        key < 64,
    ensures
        key_text(key) == "Ctrl-"@.push((64 + key) as char),
{
    assert(key | 0x40 == 64 + key) by (bit_vector)
        requires
            key < 64,
    ;
}

/// A letter's prefix is the same in upper and lower case, differs from letter to
/// letter, and is a control code from 1 to 26.
pub proof fn law_prefixes_follow_the_alphabet(i: int)
    requires
        0 <= i < 26,
    ensures
        ctrl_code((0x61 + i) as char) == i + 1,
        ctrl_code((0x41 + i) as char) == i + 1,
        letter((0x61 + i) as char),
        letter((0x41 + i) as char),
{
}

/// Once a size was reported, it is not reported again until it changes.
pub proof fn law_sizes_are_reported_once(s: Session, size: (u16, u16), t: Option<bool>, u: Option<bool>)
    ensures
        ({
            let e = EventV::Tick { size: Some(size), talking: t };
            let f = EventV::Tick { size: Some(size), talking: u };
            let next = session_after(s, e);
            &&& session_step(next, f).resize is None
            &&& session_step(next, f).sends == Seq::<HostToRelayV>::empty()
            &&& session_step(s, e).resize == (if size == s.last_size {
                None
            } else {
                Some(size)
            })
        }),
{
}

// --------------------------------------------------------------------- banner

/// What the host is told about the stream at the start.
pub open spec fn banner_text(
    name: Seq<char>,
    shell: Seq<char>,
    public: bool,
    code: Seq<char>,
    stream_id: Seq<char>,
    relay: Seq<char>,
    prefix: u8,
) -> Seq<char> {
    "\n┌─ tcast ─────────────────────────────────────────\n│ streaming as : "@ + name + "  ("@ + shell
        + ")\n│ visibility   : "@ + (if public {
        "PUBLIC (listed)"@
    } else {
        "private (code only)"@
    }) + "\n│ join code    : "@ + code + "\n"@ + (if public {
        "│ stream id    : "@ + stream_id + "\n"@
    } else {
        Seq::empty()
    }) + "│\n│ viewers run  : tcast watch "@ + code
        + "\n│   (first point them at this relay:\n│    tcast config set-relay "@ + relay
        + ")\n│\n│ hotkeys      : "@ + key_text(prefix) + " p = privacy · "@ + key_text(prefix)
        + " q = quit\n│ stop also    : type `exit` (or Ctrl-D) in the shell\n"@
        + "└──────────────────────────────────────────────────\n\n"@
}

/// What the host is told about the stream at the start.
pub fn banner(
    name: &str,
    shell: &str,
    public: bool,
    code: &str,
    stream_id: &str,
    relay: &str,
    prefix: u8,
) -> (out: String)
    ensures
        out@ == banner_text(name@, shell@, public, code@, stream_id@, relay@, prefix),
{
    let pk = key_label(prefix);
    let mut out =
        "\n┌─ tcast ─────────────────────────────────────────\n│ streaming as : ".to_string();
    out.append(name);
    out.append("  (");
    out.append(shell);
    out.append(")\n│ visibility   : ");
    if public {
        out.append("PUBLIC (listed)");
    } else {
        out.append("private (code only)");
    }
    out.append("\n│ join code    : ");
    out.append(code);
    out.append("\n");
    let ghost head = out@;
    if public {
        out.append("│ stream id    : ");
        out.append(stream_id);
        out.append("\n");
        assert(out@ =~= head + ("│ stream id    : "@ + stream_id@ + "\n"@));
    } else {
        assert(out@ =~= head + Seq::<char>::empty());
    }
    out.append("│\n│ viewers run  : tcast watch ");
    out.append(code);
    out.append("\n│   (first point them at this relay:\n│    tcast config set-relay ");
    out.append(relay);
    out.append(")\n│\n│ hotkeys      : ");
    out.append(pk.as_str());
    out.append(" p = privacy · ");
    out.append(pk.as_str());
    out.append(" q = quit\n│ stop also    : type `exit` (or Ctrl-D) in the shell\n");
    out.append("└──────────────────────────────────────────────────\n\n");
    out
}

/// `part` stands somewhere in `whole`.
pub open spec fn occurs(part: Seq<char>, whole: Seq<char>) -> bool {
    exists|i: int|
        0 <= i <= whole.len() - part.len() && #[trigger] whole.subrange(i, i + part.len()) == part
}

proof fn lemma_occurs_in_front(part: Seq<char>, whole: Seq<char>, more: Seq<char>)
    requires
        occurs(part, whole),
    ensures
        occurs(part, whole + more),
{
    let i = choose|i: int|
        0 <= i <= whole.len() - part.len() && #[trigger] whole.subrange(i, i + part.len()) == part;
    assert((whole + more).subrange(i, i + part.len()) =~= part);
}

proof fn lemma_occurs_behind(part: Seq<char>, front: Seq<char>, whole: Seq<char>)
    requires
        occurs(part, whole),
    ensures
        occurs(part, front + whole),
{
    let i = choose|i: int|
        0 <= i <= whole.len() - part.len() && #[trigger] whole.subrange(i, i + part.len()) == part;
    let k = front.len() + i;
    assert((front + whole).subrange(k, k + part.len()) =~= part);
}

proof fn lemma_occurs_itself(part: Seq<char>)
    ensures
        occurs(part, part),
{
    assert(part.subrange(0, 0int + part.len()) =~= part);
}

/// Texts, one behind the other.
spec fn strung(parts: Seq<Seq<char>>) -> Seq<char>
    decreases parts.len(),
{
    if parts.len() == 0 {
        Seq::empty()
    } else {
        strung(parts.drop_last()) + parts.last()
    }
}

proof fn lemma_strung_push(parts: Seq<Seq<char>>, last: Seq<char>)
    ensures
        strung(parts.push(last)) == strung(parts) + last,
{
    assert(parts.push(last).drop_last() =~= parts);
}

proof fn lemma_strung_occurs(part: Seq<char>, parts: Seq<Seq<char>>, i: int)
    requires
        0 <= i < parts.len(),
        parts[i] == part || occurs(part, parts[i]),
    ensures
        occurs(part, strung(parts)),
    decreases parts.len(),
{
    lemma_occurs_itself(part);
    if i == parts.len() - 1 {
        lemma_occurs_behind(part, strung(parts.drop_last()), parts.last());
    } else {
        lemma_strung_occurs(part, parts.drop_last(), i);
        lemma_occurs_in_front(part, strung(parts.drop_last()), parts.last());
    }
}

/// The banner tells the name and the shell, whether the stream is listed, the
/// join code, the relay and the prefix; that of a public stream also its id.
#[verifier::spinoff_prover]
pub proof fn law_banners_tell_how_to_watch(
    name: Seq<char>,
    shell: Seq<char>,
    public: bool,
    code: Seq<char>,
    id: Seq<char>,
    relay: Seq<char>,
    prefix: u8,
)
    ensures
        ({
            let t = banner_text(name, shell, public, code, id, relay, prefix);
            &&& occurs(name, t)
            &&& occurs(shell, t)
            &&& occurs(code, t)
            &&& occurs(relay, t)
            &&& occurs(key_text(prefix), t)
            &&& public ==> occurs(id, t) && occurs("PUBLIC (listed)"@, t)
            &&& !public ==> occurs("private (code only)"@, t)
        }),
{
    let t0 =
        "\n┌─ tcast ─────────────────────────────────────────\n│ streaming as : "@;
    let listed = if public {
        "PUBLIC (listed)"@
    } else {
        "private (code only)"@
    };
    let own = "│ stream id    : "@ + id + "\n"@;
    let line = if public {
        own
    } else {
        Seq::empty()
    };
    let key = key_text(prefix);
    let p0 = Seq::<Seq<char>>::empty();
    let p1 = p0.push(t0);
    let p2 = p1.push(name);
    let p3 = p2.push("  ("@);
    let p4 = p3.push(shell);
    let p5 = p4.push(")\n│ visibility   : "@);
    let p6 = p5.push(listed);
    let p7 = p6.push("\n│ join code    : "@);
    let p8 = p7.push(code);
    let p9 = p8.push("\n"@);
    let p10 = p9.push(line);
    let p11 = p10.push("│\n│ viewers run  : tcast watch "@);
    let p12 = p11.push(code);
    let p13 = p12.push("\n│   (first point them at this relay:\n│    tcast config set-relay "@);
    let p14 = p13.push(relay);
    let p15 = p14.push(")\n│\n│ hotkeys      : "@);
    let p16 = p15.push(key);
    let p17 = p16.push(" p = privacy · "@);
    let p18 = p17.push(key);
    let p19 = p18.push(" q = quit\n│ stop also    : type `exit` (or Ctrl-D) in the shell\n"@);
    let p20 = p19.push("└──────────────────────────────────────────────────\n\n"@);
    lemma_strung_push(p0, t0);
    lemma_strung_push(p1, name);
    lemma_strung_push(p2, "  ("@);
    lemma_strung_push(p3, shell);
    lemma_strung_push(p4, ")\n│ visibility   : "@);
    lemma_strung_push(p5, listed);
    lemma_strung_push(p6, "\n│ join code    : "@);
    lemma_strung_push(p7, code);
    lemma_strung_push(p8, "\n"@);
    lemma_strung_push(p9, line);
    lemma_strung_push(p10, "│\n│ viewers run  : tcast watch "@);
    lemma_strung_push(p11, code);
    lemma_strung_push(p12, "\n│   (first point them at this relay:\n│    tcast config set-relay "@);
    lemma_strung_push(p13, relay);
    lemma_strung_push(p14, ")\n│\n│ hotkeys      : "@);
    lemma_strung_push(p15, key);
    lemma_strung_push(p16, " p = privacy · "@);
    lemma_strung_push(p17, key);
    lemma_strung_push(p18, " q = quit\n│ stop also    : type `exit` (or Ctrl-D) in the shell\n"@);
    lemma_strung_push(p19, "└──────────────────────────────────────────────────\n\n"@);
    assert(strung(p1) =~= t0);
    assert(strung(p20) == banner_text(name, shell, public, code, id, relay, prefix));
    lemma_strung_occurs(name, p20, 1);
    lemma_strung_occurs(shell, p20, 3);
    lemma_strung_occurs(listed, p20, 5);
    lemma_strung_occurs(code, p20, 7);
    lemma_strung_occurs(relay, p20, 13);
    lemma_strung_occurs(key, p20, 15);
    if public {
        lemma_occurs_itself(id);
        lemma_occurs_behind(id, "│ stream id    : "@, id);
        lemma_occurs_in_front(id, "│ stream id    : "@ + id, "\n"@);
        lemma_strung_occurs(id, p20, 9);
    }
}

/// The id of a private stream is not told, nor is anything else that depends on
/// it.
pub proof fn law_private_banners_hide_the_id(
    name: Seq<char>,
    shell: Seq<char>,
    code: Seq<char>,
    id: Seq<char>,
    other: Seq<char>,
    relay: Seq<char>,
    prefix: u8,
)
    ensures
        banner_text(name, shell, false, code, id, relay, prefix) == banner_text(
            name,
            shell,
            false,
            code,
            other,
            relay,
            prefix,
        ),
{
}

/// What the host is told about its microphone when it is ready.
pub fn voice_ready(voice_key: u8) -> (out: String)
    ensures
        out@ == "tcast · voice ready — press "@ + key_text(voice_key)
            + " to talk (toggles your mic)"@,
{
    let mut out = "tcast · voice ready — press ".to_string();
    out.append(key_label(voice_key).as_str());
    out.append(" to talk (toggles your mic)");
    out
}

} // verus!
