//! Cleaning of the text that untrusted peers send.
use crate::seqs::{lemma_filter_all, lemma_filter_prefix, lemma_filter_step, lemma_filter_whole};
use crate::text::{alnum, capped, chars_of, control, is_alnum, is_control, is_white, lower,
    string_of, to_lower, trim, trim_end, trim_start, trimmed, white};
use crate::text::{lemma_trim_end, lemma_trim_start};
use vstd::prelude::*;

verus! {

/// Longest chat message that is passed on, in characters.
pub const CHAT_LIMIT: usize = 256;

/// Longest display name that is shown, in characters.
pub const NAME_LIMIT: usize = 24;

/// Longest name part of a join code, in characters.
pub const SLUG_LIMIT: usize = 12;

// ---------------------------------------------------------------------- chat

/// `s` with a space in place of each control character.
pub open spec fn spaced(s: Seq<char>) -> Seq<char> {
    s.map_values(|c: char| if control(c) { ' ' } else { c })
}

/// The longest runs of characters of `s` that hold no white space, in order.
pub open spec fn words(s: Seq<char>) -> Seq<Seq<char>>
    decreases s.len(),
{
    if s.len() == 0 {
        Seq::empty()
    } else {
        let ws = words(s.drop_last());
        let c = s.last();
        if white(c) {
            ws
        } else if s.len() >= 2 && !white(s[s.len() - 2]) {
            ws.drop_last().push(ws.last().push(c))
        } else {
            ws.push(seq![c])
        }
    }
}

/// The words with a single space between neighbours.
pub open spec fn joined(ws: Seq<Seq<char>>) -> Seq<char>
    decreases ws.len(),
{
    if ws.len() == 0 {
        Seq::empty()
    } else if ws.len() == 1 {
        ws[0]
    } else {
        joined(ws.drop_last()).push(' ') + ws.last()
    }
}

/// What is left of an untrusted chat message: control characters count as
/// spaces, white space is collapsed, the length is capped, the ends are trimmed.
pub open spec fn clean_chat(s: Seq<char>) -> Seq<char> {
    trimmed(capped(joined(words(spaced(s))), CHAT_LIMIT as nat))
}

proof fn lemma_words_nonempty(s: Seq<char>)
    ensures
        forall|i: int| 0 <= i < words(s).len() ==> (#[trigger] words(s)[i]).len() > 0,
        s.len() > 0 && !white(s.last()) ==> words(s).len() > 0,
        words(s).len() == 0 <==> (forall|i: int| 0 <= i < s.len() ==> white(#[trigger] s[i])),
    decreases s.len(),
{
    if s.len() > 0 {
        let t = s.drop_last();
        lemma_words_nonempty(t);
        if s.len() >= 2 {
            assert(t.last() == s[s.len() - 2]);
        }
        assert forall|i: int| 0 <= i < words(s).len() implies (#[trigger] words(s)[i]).len() > 0 by {
            if i < words(t).len() {
                assert(words(t)[i].len() > 0);
            }
        }
        if words(s).len() == 0 {
            assert forall|i: int| 0 <= i < s.len() implies white(#[trigger] s[i]) by {
                if i < s.len() - 1 {
                    assert(s[i] == t[i]);
                }
            }
        }
        if forall|i: int| 0 <= i < s.len() ==> white(#[trigger] s[i]) {
            assert forall|i: int| 0 <= i < t.len() implies white(#[trigger] t[i]) by {
                assert(s[i] == t[i]);
            }
            assert(white(s[s.len() - 1]));
        }
    }
}

proof fn lemma_joined_empty(ws: Seq<Seq<char>>)
    requires
        forall|i: int| 0 <= i < ws.len() ==> (#[trigger] ws[i]).len() > 0,
    ensures
        joined(ws).len() == 0 <==> ws.len() == 0,
    decreases ws.len(),
{
    if ws.len() == 1 {
        assert(ws[0].len() > 0);
    }
}

proof fn lemma_joined_extend(ws: Seq<Seq<char>>, c: char)
    requires
        ws.len() > 0,
    ensures
        joined(ws.drop_last().push(ws.last().push(c))) == joined(ws).push(c),
{
    let xs = ws.drop_last().push(ws.last().push(c));
    assert(xs.drop_last() == ws.drop_last());
    assert(joined(xs) == joined(ws).push(c));
}

/// How the cleaned words grow with one more character.
proof fn lemma_joined_step(s: Seq<char>)
    requires
        s.len() > 0,
    ensures
        ({
            let before = joined(words(s.drop_last()));
            let c = s.last();
            joined(words(s)) == if white(c) {
                before
            } else if (s.len() >= 2 && !white(s[s.len() - 2])) || before.len() == 0 {
                before.push(c)
            } else {
                before.push(' ').push(c)
            }
        }),
{
    let t = s.drop_last();
    let ws = words(t);
    let c = s.last();
    lemma_words_nonempty(t);
    lemma_joined_empty(ws);
    if !white(c) {
        if s.len() >= 2 && !white(s[s.len() - 2]) {
            assert(t.last() == s[s.len() - 2]);
            lemma_joined_extend(ws, c);
        } else if ws.len() == 0 {
            assert(joined(words(s)) == joined(ws).push(c));
        } else {
            assert(ws.push(seq![c]).drop_last() == ws);
            assert(joined(words(s)) == joined(ws).push(' ').push(c));
        }
    }
}

/// Cleans an untrusted chat message. Returns nothing when nothing printable
/// remains.
pub fn sanitize_chat(text: &str) -> (out: Option<String>)
    ensures
        match out {
            Some(t) => t@ == clean_chat(text@) && t@.len() > 0,
            None => clean_chat(text@).len() == 0,
        },
{
    let chars = chars_of(text);
    let ghost s = spaced(text@);
    let mut out: Vec<char> = Vec::new();
    let mut in_word = false;
    let mut i: usize = 0;
    while i < chars.len()
        invariant
            chars@ == text@,
            s == spaced(text@),
            i <= chars@.len(),
            out@ == joined(words(s.take(i as int))),
            in_word == (i > 0 && !white(s[i - 1])),
        decreases chars@.len() - i,
    {
        let ghost t = s.take(i + 1);
        proof {
            assert(t.drop_last() == s.take(i as int));
            lemma_joined_step(t);
        }
        let c = if is_control(chars[i]) { ' ' } else { chars[i] };
        assert(c == s[i as int]);
        if is_white(c) {
            in_word = false;
        } else {
            if !in_word && out.len() > 0 {
                out.push(' ');
            }
            out.push(c);
            in_word = true;
        }
        i += 1;
    }
    assert(s.take(i as int) == s);
    let ghost whole = out@;
    if out.len() > CHAT_LIMIT {
        out.truncate(CHAT_LIMIT);
    }
    assert(out@ == capped(whole, CHAT_LIMIT as nat));
    let t = trim(out.as_slice());
    if t.as_str().is_empty() {
        None
    } else {
        Some(t)
    }
}

// --------------------------------------------------------------------- names

/// What is shown of an untrusted display name.
pub open spec fn clean_name(s: Seq<char>) -> Seq<char> {
    let t = trimmed(capped(s.filter(|c: char| !control(c)), NAME_LIMIT as nat));
    if t.len() == 0 {
        "anon"@
    } else {
        t
    }
}

/// Cleans an untrusted display name. Falls back to "anon".
pub fn sanitize_name(name: &str) -> (out: String)
    ensures
        out@ == clean_name(name@),
{
    let chars = chars_of(name);
    let mut kept: Vec<char> = Vec::new();
    let mut i: usize = 0;
    let ghost keep = |c: char| !control(c);
    while i < chars.len() && kept.len() < NAME_LIMIT
        invariant
            chars@ == name@,
            i <= chars@.len(),
            keep == (|c: char| !control(c)),
            kept@ == name@.take(i as int).filter(keep),
            kept@.len() <= NAME_LIMIT,
        decreases chars@.len() - i,
    {
        proof {
            lemma_filter_step(name@, keep, i as int);
        }
        if !is_control(chars[i]) {
            kept.push(chars[i]);
        }
        i += 1;
    }
    proof {
        lemma_filter_prefix(name@, keep, i as int);
        assert(name@.take(name@.len() as int) == name@);
        assert(kept@ == capped(name@.filter(keep), NAME_LIMIT as nat));
    }
    let t = trim(kept.as_slice());
    if t.as_str().is_empty() {
        "anon".to_string()
    } else {
        t
    }
}

// ---------------------------------------------------------------- join codes

/// The name part of a join code: letters and digits of the name, in lower case.
pub open spec fn slug_of(name: Seq<char>) -> Seq<char> {
    let s = capped(name.filter(|c: char| alnum(c)), SLUG_LIMIT as nat).map_values(
        |c: char| lower(c),
    );
    if s.len() == 0 {
        "term"@
    } else {
        s
    }
}

/// The name part of a join code.
pub fn slug(name: &str) -> (out: String)
    ensures
        out@ == slug_of(name@),
{
    let chars = chars_of(name);
    let ghost keep = |c: char| alnum(c);
    let ghost low = |c: char| lower(c);
    let mut kept: Vec<char> = Vec::new();
    let mut i: usize = 0;
    while i < chars.len() && kept.len() < SLUG_LIMIT
        invariant
            chars@ == name@,
            i <= chars@.len(),
            keep == (|c: char| alnum(c)),
            low == (|c: char| lower(c)),
            kept@ == name@.take(i as int).filter(keep).map_values(low),
            kept@.len() <= SLUG_LIMIT,
        decreases chars@.len() - i,
    {
        proof {
            lemma_filter_step(name@, keep, i as int);
        }
        if is_alnum(chars[i]) {
            kept.push(to_lower(chars[i]));
        }
        i += 1;
        assert(kept@ == name@.take(i as int).filter(keep).map_values(low));
    }
    proof {
        lemma_filter_prefix(name@, keep, i as int);
        assert(name@.take(name@.len() as int) == name@);
        assert(kept@ == capped(name@.filter(keep), SLUG_LIMIT as nat).map_values(low));
    }
    if kept.len() == 0 {
        "term".to_string()
    } else {
        string_of(kept.as_slice())
    }
}

// ---------------------------------------------------------- what cleaning keeps

/// Text without control characters whose only white space is single spaces,
/// none of them in front.
pub open spec fn tidy(s: Seq<char>) -> bool {
    forall|i: int|
        0 <= i < s.len() ==> !control(#[trigger] s[i]) && (white(s[i]) ==> s[i] == ' ' && i > 0
            && !white(s[i - 1]))
}

proof fn lemma_joined_tidy(s: Seq<char>)
    requires
        forall|i: int| 0 <= i < s.len() ==> !control(#[trigger] s[i]),
    ensures
        tidy(joined(words(s))),
        joined(words(s)).len() > 0 ==> !white(joined(words(s)).last()),
    decreases s.len(),
{
    if s.len() > 0 {
        let t = s.drop_last();
        assert forall|i: int| 0 <= i < t.len() implies !control(#[trigger] t[i]) by {
            assert(t[i] == s[i]);
        }
        lemma_joined_tidy(t);
        lemma_joined_step(s);
        let before = joined(words(t));
        let after = joined(words(s));
        assert(!control(s[s.len() - 1]));
        assert forall|i: int| 0 <= i < after.len() implies !control(#[trigger] after[i]) && (white(
            after[i],
        ) ==> after[i] == ' ' && i > 0 && !white(after[i - 1])) by {
            if i < before.len() {
                assert(after[i] == before[i]);
                if i > 0 {
                    assert(after[i - 1] == before[i - 1]);
                }
            }
        }
    }
}

proof fn lemma_tidy_kept(s: Seq<char>)
    requires
        tidy(s),
    ensures
        joined(words(s)) == if s.len() > 0 && white(s.last()) {
            s.drop_last()
        } else {
            s
        },
    decreases s.len(),
{
    if s.len() > 0 {
        let t = s.drop_last();
        assert(tidy(t)) by {
            assert forall|i: int| 0 <= i < t.len() implies !control(#[trigger] t[i]) && (white(t[i])
                ==> t[i] == ' ' && i > 0 && !white(t[i - 1])) by {
                assert(t[i] == s[i]);
            }
        }
        lemma_tidy_kept(t);
        lemma_joined_step(s);
        let n = s.len() as int;
        assert(!control(s[n - 1]));
        if n >= 2 {
            assert(t.last() == s[n - 2]);
            assert(!control(s[n - 2]));
            if !white(s[n - 1]) && white(s[n - 2]) {
                assert(t.drop_last().push(' ').push(s.last()) == s);
            }
        }
        assert(joined(words(s)) == if white(s.last()) {
            s.drop_last()
        } else {
            s
        });
    } else {
        assert(joined(words(s)) == s);
    }
}

proof fn lemma_clean_chat(s: Seq<char>)
    ensures
        tidy(clean_chat(s)),
        clean_chat(s).len() <= CHAT_LIMIT,
        clean_chat(s).len() > 0 ==> !white(clean_chat(s)[0]) && !white(clean_chat(s).last()),
        clean_chat(s).len() == 0 <==> joined(words(spaced(s))).len() == 0,
{
    let sp = spaced(s);
    assert forall|i: int| 0 <= i < sp.len() implies !control(#[trigger] sp[i]) by {}
    lemma_joined_tidy(sp);
    let j = joined(words(sp));
    let c = capped(j, CHAT_LIMIT as nat);
    assert forall|i: int| 0 <= i < c.len() implies #[trigger] c[i] == j[i] by {}
    if c.len() > 0 {
        assert(!control(j[0]) && !white(j[0]));
        assert(c[0] == j[0]);
    }
    assert(trim_start(c) == c);
    lemma_trim_end(c);
    let t = trim_end(c);
    assert forall|i: int| 0 <= i < t.len() implies !control(#[trigger] t[i]) && (white(t[i]) ==> t[i]
        == ' ' && i > 0 && !white(t[i - 1])) by {
        assert(t[i] == j[i]);
        if i > 0 {
            assert(t[i - 1] == j[i - 1]);
        }
    }
    if c.len() > 0 && t.len() == 0 {
        assert(white(c[0]));
    }
}

/// A chat message that was passed on holds no control character, so no escape
/// sequence either; it is at most [`CHAT_LIMIT`] characters long, its only
/// white space is single spaces, and it neither begins nor ends with one.
pub proof fn law_chat_is_inert(s: Seq<char>)
    ensures
        clean_chat(s).len() <= CHAT_LIMIT,
        forall|i: int| 0 <= i < clean_chat(s).len() ==> !control(#[trigger] clean_chat(s)[i]),
        !clean_chat(s).contains('\u{1b}'),
        tidy(clean_chat(s)),
        clean_chat(s).len() > 0 ==> !white(clean_chat(s)[0]) && !white(clean_chat(s).last()),
{
    lemma_clean_chat(s);
}

/// A chat message is dropped exactly when it holds nothing but white space and
/// control characters.
pub proof fn law_chat_dropped_when_blank(s: Seq<char>)
    ensures
        clean_chat(s).len() == 0 <==> (forall|i: int|
            0 <= i < s.len() ==> white(#[trigger] s[i]) || control(s[i])),
{
    lemma_clean_chat(s);
    let sp = spaced(s);
    lemma_words_nonempty(sp);
    lemma_joined_empty(words(sp));
    if clean_chat(s).len() == 0 {
        assert forall|i: int| 0 <= i < s.len() implies white(#[trigger] s[i]) || control(s[i]) by {
            assert(white(sp[i]));
        }
    }
}

/// Cleaning a cleaned chat message changes nothing.
pub proof fn law_chat_cleaning_settles(s: Seq<char>)
    ensures
        clean_chat(clean_chat(s)) == clean_chat(s),
{
    let t = clean_chat(s);
    lemma_clean_chat(s);
    assert(spaced(t) == t);
    lemma_tidy_kept(t);
    lemma_trim_end(t);
    if t.len() == 0 {
        assert(t == Seq::<char>::empty());
    }
    assert(trim_start(t) == t);
    assert(trim_end(t) == t);
}

/// A shown display name has between one and [`NAME_LIMIT`] characters, none of
/// them a control character, and no white space at either end.
pub proof fn law_name_is_inert(s: Seq<char>)
    ensures
        1 <= clean_name(s).len() <= NAME_LIMIT,
        forall|i: int| 0 <= i < clean_name(s).len() ==> !control(#[trigger] clean_name(s)[i]),
        !white(clean_name(s)[0]),
        !white(clean_name(s).last()),
{
    let keep = |c: char| !control(c);
    let f = s.filter(keep);
    let c = capped(f, NAME_LIMIT as nat);
    lemma_filter_all(s, keep);
    lemma_trim_start(c);
    lemma_trim_end(trim_start(c));
    let a = trim_start(c);
    let t = trim_end(a);
    assert(t == trimmed(c));
    if t.len() == 0 {
        reveal_strlit("anon");
        assert(clean_name(s) == "anon"@);
    } else {
        assert(clean_name(s) == t);
        assert(t[0] == a[0]);
        assert forall|i: int| 0 <= i < t.len() implies !control(#[trigger] t[i]) by {
            assert(t[i] == a[i]);
            let k = i + (c.len() - a.len());
            assert(a[i] == c[k]);
            assert(c[k] == f[k]);
            assert(keep(f[k]));
        }
    }
}

// ------------------------------------------------------- what cleaning leaves

/// The characters of `s` that say something, in order.
pub open spec fn said(s: Seq<char>) -> Seq<char> {
    s.filter(|c: char| !white(c) && !control(c))
}

proof fn lemma_said_push(s: Seq<char>, c: char)
    ensures
        said(s.push(c)) == if white(c) || control(c) {
            said(s)
        } else {
            said(s).push(c)
        },
{
    let keep = |c: char| !white(c) && !control(c);
    s.lemma_filter_push(c, keep);
}

proof fn lemma_said_spaced(s: Seq<char>)
    ensures
        said(spaced(s)) == said(s),
    decreases s.len(),
{
    if s.len() > 0 {
        let t = s.drop_last();
        let c = s.last();
        lemma_said_spaced(t);
        lemma_said_push(t, c);
        lemma_said_push(spaced(t), spaced(s).last());
        assert(t.push(c) =~= s);
        assert(spaced(t).push(spaced(s).last()) =~= spaced(s));
    } else {
        assert(spaced(s) =~= s);
    }
}

proof fn lemma_said_joined(s: Seq<char>)
    requires
        forall|i: int| 0 <= i < s.len() ==> !control(#[trigger] s[i]),
    ensures
        said(joined(words(s))) == said(s),
    decreases s.len(),
{
    if s.len() > 0 {
        let t = s.drop_last();
        let c = s.last();
        assert forall|i: int| 0 <= i < t.len() implies !control(#[trigger] t[i]) by {
            assert(t[i] == s[i]);
        }
        lemma_said_joined(t);
        lemma_joined_step(s);
        let before = joined(words(t));
        lemma_said_push(t, c);
        assert(t.push(c) =~= s);
        lemma_said_push(before, c);
        lemma_said_push(before, ' ');
        lemma_said_push(before.push(' '), c);
        assert(!control(s[s.len() - 1]));
    } else {
        assert(joined(words(s)) =~= s);
    }
}

proof fn lemma_said_trimmed(s: Seq<char>)
    ensures
        said(trim_end(s)) == said(s),
    decreases s.len(),
{
    if s.len() > 0 && white(s.last()) {
        let t = s.drop_last();
        lemma_said_trimmed(t);
        lemma_said_push(t, s.last());
        assert(t.push(s.last()) =~= s);
    }
}

/// Cleaning adds nothing to what a chat message says, leaves nothing out in
/// between and keeps its order; only what does not fit is cut off at the end.
#[verifier::spinoff_prover]
pub proof fn law_chat_keeps_what_is_said(s: Seq<char>)
    ensures
        said(clean_chat(s)).len() <= said(s).len(),
        said(clean_chat(s)) == said(s).take(said(clean_chat(s)).len() as int),
        clean_chat(s).len() < 255 ==> said(clean_chat(s)) == said(s),
{
    let sp = spaced(s);
    assert forall|i: int| 0 <= i < sp.len() implies !control(#[trigger] sp[i]) by {}
    let j = joined(words(sp));
    let c = capped(j, CHAT_LIMIT as nat);
    lemma_joined_tidy(sp);
    lemma_said_spaced(s);
    lemma_said_joined(sp);
    if c.len() > 0 {
        assert(!control(j[0]) && !white(j[0]));
        assert(c[0] == j[0]);
    }
    assert(trim_start(c) == c);
    lemma_trim_end(c);
    lemma_said_trimmed(c);
    let keep = |c: char| !white(c) && !control(c);
    if j.len() > CHAT_LIMIT {
        lemma_filter_prefix(j, keep, CHAT_LIMIT as int);
        let t = trim_end(c);
        if t.len() < 255 {
            assert(white(c[254]) && white(c[255]));
            assert(c[254] == j[254] && c[255] == j[255]);
            assert(!control(j[255]));
        }
    } else {
        assert(said(s) =~= said(s).take(said(s).len() as int));
    }
}

/// A chat message that has nothing to be cleaned is passed on as it is.
pub proof fn law_tidy_chat_stays(s: Seq<char>)
    requires
        s.len() <= 256,
        forall|i: int| 0 <= i < s.len() ==> !control(#[trigger] s[i]),
        forall|i: int| 0 <= i < s.len() && white(#[trigger] s[i]) ==> s[i] == ' ' && 0 < i < s.len()
            - 1 && !white(s[i - 1]),
    ensures
        clean_chat(s) == s,
{
    assert(spaced(s) =~= s);
    assert(tidy(s));
    lemma_tidy_kept(s);
    if s.len() > 0 {
        assert(!white(s[0]));
        assert(!white(s[s.len() - 1]));
    }
    assert(trim_start(s) == s);
    assert(trim_end(s) == s);
}

/// Of a chat message that is too long, the first 256 characters count.
#[verifier::spinoff_prover]
pub proof fn law_long_chat_is_cut(s: Seq<char>)
    requires
        s.len() >= 256,
        tidy(s),
    ensures
        clean_chat(s) == clean_chat(s.take(256)),
{
    let t = s.take(256);
    assert(spaced(s) =~= s) by {
        assert forall|i: int| 0 <= i < s.len() implies #[trigger] spaced(s)[i] == s[i] by {
            assert(!control(s[i]));
        }
    }
    assert(spaced(t) =~= t) by {
        assert forall|i: int| 0 <= i < t.len() implies #[trigger] spaced(t)[i] == t[i] by {
            assert(!control(s[i]));
        }
    }
    assert(tidy(t)) by {
        assert forall|i: int| 0 <= i < t.len() implies !control(#[trigger] t[i]) && (white(t[i])
            ==> t[i] == ' ' && i > 0 && !white(t[i - 1])) by {
            assert(t[i] == s[i]);
        }
    }
    lemma_tidy_kept(s);
    lemma_tidy_kept(t);
    assert(!control(s[0]) && !white(s[0]));
    let a = joined(words(s));
    let b = joined(words(t));
    assert(b == if white(t.last()) { t.drop_last() } else { t });
    assert(trim_start(b) == b);
    assert(trim_end(t) == trim_end(b));
    if s.len() == 256 {
        assert(t =~= s);
    } else {
        assert(capped(a, 256) =~= t);
        assert(trim_start(t) == t);
    }
}

proof fn lemma_words_same(a: Seq<char>, b: Seq<char>)
    requires
        a.len() == b.len(),
        forall|i: int| 0 <= i < a.len() ==> white(#[trigger] a[i]) == white(b[i]),
        forall|i: int| 0 <= i < a.len() && !white(#[trigger] a[i]) ==> a[i] == b[i],
    ensures
        words(a) == words(b),
    decreases a.len(),
{
    if a.len() > 0 {
        let x = a.drop_last();
        let y = b.drop_last();
        assert forall|i: int| 0 <= i < x.len() implies white(#[trigger] x[i]) == white(y[i]) && (
        !white(x[i]) ==> x[i] == y[i]) by {
            assert(x[i] == a[i]);
        }
        lemma_words_same(x, y);
        let n = a.len() - 1;
        assert(white(a[n]) == white(b[n]));
        if n > 0 {
            assert(white(a[n - 1]) == white(b[n - 1]));
        }
    }
}

proof fn lemma_words_behind(a: Seq<char>, b: Seq<char>, q: Seq<char>)
    requires
        words(a) == words(b),
        a.len() == 0 || white(a.last()),
        b.len() == 0 || white(b.last()),
    ensures
        words(a + q) == words(b + q),
    decreases q.len(),
{
    if q.len() == 0 {
        assert(a + q =~= a);
        assert(b + q =~= b);
    } else {
        let p = q.drop_last();
        lemma_words_behind(a, b, p);
        let x = a + q;
        let y = b + q;
        assert(x.drop_last() =~= a + p);
        assert(y.drop_last() =~= b + p);
        if q.len() >= 2 {
            assert(x[x.len() - 2] == q[q.len() - 2]);
            assert(y[y.len() - 2] == q[q.len() - 2]);
        } else {
            if a.len() > 0 {
                assert(x[x.len() - 2] == a.last());
            }
            if b.len() > 0 {
                assert(y[y.len() - 2] == b.last());
            }
        }
    }
}

/// Which blank stands between two words of a chat message makes no difference: a
/// control character or any white space counts as a space.
pub proof fn law_blanks_are_alike(s: Seq<char>, i: int)
    requires
        0 <= i < s.len(),
        white(s[i]) || control(s[i]),
    ensures
        clean_chat(s.update(i, ' ')) == clean_chat(s),
{
    let a = spaced(s.update(i, ' '));
    let b = spaced(s);
    assert(white(' ') && !control(' '));
    assert forall|k: int| 0 <= k < a.len() implies white(#[trigger] a[k]) == white(b[k]) && (!white(
        a[k],
    ) ==> a[k] == b[k]) by {}
    lemma_words_same(a, b);
}

/// How many blanks stand between two words of a chat message makes no
/// difference, and neither do blanks in front or at the end.
#[verifier::spinoff_prover]
pub proof fn law_blanks_are_collapsed(p: Seq<char>, c: char, d: char, q: Seq<char>)
    requires
        white(c) || control(c),
        white(d) || control(d),
    ensures
        clean_chat(p.push(c).push(d) + q) == clean_chat(p.push(c) + q),
        clean_chat(seq![c] + q) == clean_chat(q),
        clean_chat(p.push(c)) == clean_chat(p),
{
    let x = spaced(seq![c])[0];
    let y = spaced(seq![d])[0];
    assert(white(x) && white(y));
    let sp = spaced(p);
    let sq = spaced(q);
    assert(spaced(p.push(c).push(d) + q) =~= sp.push(x).push(y) + sq);
    assert(spaced(p.push(c) + q) =~= sp.push(x) + sq);
    assert(spaced(seq![c] + q) =~= seq![x] + sq);
    assert(spaced(p.push(c)) =~= sp.push(x));
    assert(sp.push(x).drop_last() =~= sp);
    assert(sp.push(x).push(y).drop_last() =~= sp.push(x));
    lemma_words_behind(sp.push(x).push(y), sp.push(x), sq);
    assert(seq![x].drop_last() =~= Seq::<char>::empty());
    assert(words(seq![x]) == words(seq![x].drop_last()));
    lemma_words_behind(seq![x], Seq::empty(), sq);
    assert(Seq::<char>::empty() + sq =~= sq);
}

/// A display name that has nothing to be cleaned is shown as it is.
pub proof fn law_tidy_names_stay(s: Seq<char>)
    requires
        1 <= s.len() <= 24,
        forall|i: int| 0 <= i < s.len() ==> !control(#[trigger] s[i]),
        !white(s[0]),
        !white(s.last()),
    ensures
        clean_name(s) == s,
{
    let keep = |c: char| !control(c);
    lemma_filter_whole(s, keep);
    assert(trim_start(s) == s);
    assert(trim_end(s) == s);
}

/// Control characters are dropped from a display name, wherever they stand.
pub proof fn law_names_lose_controls(p: Seq<char>, c: char, q: Seq<char>)
    requires
        control(c),
    ensures
        clean_name(p.push(c) + q) == clean_name(p + q),
{
    let keep = |c: char| !control(c);
    Seq::filter_distributes_over_add(p.push(c), q, keep);
    Seq::filter_distributes_over_add(p, q, keep);
    p.lemma_filter_push(c, keep);
}

/// Of a display name that is too long, the first 24 characters count.
pub proof fn law_long_names_are_cut(s: Seq<char>)
    requires
        s.len() >= 24,
        forall|i: int| 0 <= i < s.len() ==> !control(#[trigger] s[i]),
    ensures
        clean_name(s) == clean_name(s.take(24)),
{
    let keep = |c: char| !control(c);
    let t = s.take(24);
    assert forall|i: int| 0 <= i < t.len() implies keep(#[trigger] t[i]) by {
        assert(t[i] == s[i]);
    }
    lemma_filter_whole(s, keep);
    lemma_filter_whole(t, keep);
    if s.len() == 24 {
        assert(t =~= s);
    }
}

/// White space at either end of a display name makes no difference, and of
/// nothing but white space becomes "anon".
pub proof fn law_names_lose_white_ends(s: Seq<char>, c: char)
    requires
        s.len() < 24,
        forall|i: int| 0 <= i < s.len() ==> !control(#[trigger] s[i]),
        white(c),
        !control(c),
    ensures
        clean_name(seq![c] + s) == clean_name(s),
        clean_name(s.push(c)) == clean_name(s),
        clean_name(Seq::empty()) == "anon"@,
{
    let keep = |c: char| !control(c);
    let front = seq![c] + s;
    let back = s.push(c);
    assert forall|i: int| 0 <= i < front.len() implies keep(#[trigger] front[i]) by {
        if i > 0 {
            assert(front[i] == s[i - 1]);
        }
    }
    assert forall|i: int| 0 <= i < back.len() implies keep(#[trigger] back[i]) by {
        if i < s.len() {
            assert(back[i] == s[i]);
        }
    }
    lemma_filter_whole(s, keep);
    lemma_filter_whole(front, keep);
    lemma_filter_whole(back, keep);
    lemma_filter_whole(Seq::empty(), keep);
    assert forall|i: int| 0 <= i < s.len() implies #[trigger] front.skip(1)[i] == s[i] by {
        assert(front.skip(1)[i] == front[i + 1]);
    }
    assert(front.skip(1) =~= s);
    assert(trim_start(front) == trim_start(s));
    lemma_trim_start_push(s, c);
}

proof fn lemma_trim_start_push(s: Seq<char>, c: char)
    requires
        white(c),
    ensures
        trim_end(trim_start(s.push(c))) == trim_end(trim_start(s)),
    decreases s.len(),
{
    let t = s.push(c);
    if s.len() == 0 {
        assert(t.skip(1) =~= Seq::<char>::empty());
        assert(trim_start(t) == trim_start(t.skip(1)));
        assert(s =~= Seq::<char>::empty());
    } else if white(s[0]) {
        assert(t.skip(1) =~= s.skip(1).push(c));
        lemma_trim_start_push(s.skip(1), c);
    } else {
        assert(t.drop_last() =~= s);
    }
}

/// The name part of a join code is the name itself where that is short and made
/// of digits and small letters.
pub proof fn law_plain_slugs_stay(s: Seq<char>)
    requires
        1 <= s.len() <= 12,
        forall|i: int| 0 <= i < s.len() ==> ('a' <= #[trigger] s[i] <= 'z' || '0' <= s[i] <= '9'),
    ensures
        slug_of(s) == s,
{
    let keep = |c: char| alnum(c);
    lemma_filter_whole(s, keep);
    assert(s.map_values(|c: char| lower(c)) =~= s);
}

/// What is neither letter nor digit makes no difference to the name part of a
/// join code, nor whether a letter is capital or small. Where nothing is left,
/// it is "term".
#[verifier::spinoff_prover]
pub proof fn law_slugs_ignore_marks_and_case(p: Seq<char>, c: char, d: char, q: Seq<char>)
    ensures
        !alnum(c) ==> slug_of(p.push(c) + q) == slug_of(p + q),
        'A' <= c <= 'Z' && d as u32 == c as u32 + 32 ==> slug_of(p.push(c) + q) == slug_of(
            p.push(d) + q,
        ),
        slug_of(Seq::empty()) == "term"@,
{
    let keep = |c: char| alnum(c);
    Seq::filter_distributes_over_add(p.push(c), q, keep);
    Seq::filter_distributes_over_add(p.push(d), q, keep);
    Seq::filter_distributes_over_add(p, q, keep);
    p.lemma_filter_push(c, keep);
    p.lemma_filter_push(d, keep);
    let none = Seq::<char>::empty();
    lemma_filter_whole(none, keep);
    if 'A' <= c <= 'Z' && d as u32 == c as u32 + 32 {
        let a = (p.push(c) + q).filter(keep);
        let b = (p.push(d) + q).filter(keep);
        let low = |c: char| lower(c);
        assert(lower(c) == d && lower(d) == d);
        assert(capped(a, SLUG_LIMIT as nat).map_values(low) =~= capped(
            b,
            SLUG_LIMIT as nat,
        ).map_values(low));
    }
}

/// Of a long name, the first 12 letters and digits make the name part of a join
/// code.
pub proof fn law_long_slugs_are_cut(s: Seq<char>)
    requires
        s.len() >= 12,
        forall|i: int| 0 <= i < s.len() ==> alnum(#[trigger] s[i]),
    ensures
        slug_of(s) == slug_of(s.take(12)),
{
    let keep = |c: char| alnum(c);
    let t = s.take(12);
    assert forall|i: int| 0 <= i < t.len() implies keep(#[trigger] t[i]) by {
        assert(t[i] == s[i]);
    }
    lemma_filter_whole(s, keep);
    lemma_filter_whole(t, keep);
    if s.len() == 12 {
        assert(t =~= s);
    }
}

} // verus!
