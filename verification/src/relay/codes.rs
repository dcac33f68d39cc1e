//! Join codes and stream ids.
use crate::owned::texts_view;
use crate::relay::sanitize::{slug, slug_of, SLUG_LIMIT};
use crate::seqs::lemma_filter_all;
use crate::text::alnum;
use vstd::prelude::*;

verus! {

/// The alphabet of join codes: no character that is easily taken for another.
pub const CODE_ALPHABET: [char; 30] = [
    '2', '3', '4', '5', '6', '7', '8', '9', 'A', 'B', 'C', 'D', 'E', 'F', 'G', 'H', 'J', 'K', 'M',
    'N', 'P', 'Q', 'R', 'S', 'T', 'U', 'V', 'W', 'X', 'Y',
];

/// The alphabet of stream ids: the URL-safe characters.
pub const ID_ALPHABET: [char; 64] = [
    '_', '-', '0', '1', '2', '3', '4', '5', '6', '7', '8', '9', 'a', 'b', 'c', 'd', 'e', 'f', 'g',
    'h', 'i', 'j', 'k', 'l', 'm', 'n', 'o', 'p', 'q', 'r', 's', 't', 'u', 'v', 'w', 'x', 'y', 'z',
    'A', 'B', 'C', 'D', 'E', 'F', 'G', 'H', 'I', 'J', 'K', 'L', 'M', 'N', 'O', 'P', 'Q', 'R', 'S',
    'T', 'U', 'V', 'W', 'X', 'Y', 'Z',
];

/// Random characters at the end of a join code.
pub const CODE_TAIL: usize = 4;

/// Characters of a stream id.
pub const ID_LEN: usize = 10;

/// `nanoid::format` with the crate's default source of randomness. It loops
/// for ever on an empty alphabet or a size of zero, panics on an alphabet of
/// more than 255 characters, and counts bytes, so the alphabet is ASCII. The
/// contract says what holds of every draw: so many characters, all of them
/// from the alphabet.
#[verifier::external_body]
pub(crate) fn random_text(alphabet: &[char], size: usize) -> (out: String)
    requires
        1 <= alphabet@.len() <= 255,
        forall|i: int| 0 <= i < alphabet@.len() ==> (#[trigger] alphabet@[i] as u32) < 128,
        1 <= size <= 0xffff,
    ensures
        out@.len() == size,
        forall|i: int| 0 <= i < out@.len() ==> alphabet@.contains(#[trigger] out@[i]),
{
    nanoid::format(nanoid::rngs::default, alphabet, size)
}

/// The join code of a stream called `name` with the random part `tail`.
pub open spec fn code_text(name: Seq<char>, tail: Seq<char>) -> Seq<char> {
    slug_of(name).push('-') + tail
}

/// A random part that a join code may have.
pub open spec fn code_tail(tail: Seq<char>) -> bool {
    &&& tail.len() == CODE_TAIL
    &&& forall|i: int| 0 <= i < tail.len() ==> CODE_ALPHABET@.contains(#[trigger] tail[i])
}

/// Whether `code` is a join code for a stream called `name`.
pub open spec fn code_for(code: Seq<char>, name: Seq<char>) -> bool {
    exists|tail: Seq<char>| #[trigger] code_tail(tail) && code == code_text(name, tail)
}

/// A stream id.
pub open spec fn id_text(id: Seq<char>) -> bool {
    &&& id.len() == ID_LEN
    &&& forall|i: int| 0 <= i < id.len() ==> ID_ALPHABET@.contains(#[trigger] id[i])
}

/// The join code with the given random part.
pub fn code_from(name: &str, tail: &str) -> (code: String)
    ensures
        code@ == code_text(name@, tail@),
{
    let mut code = slug(name);
    code.push('-');
    code.append(tail);
    code
}

/// Draws a join code for a stream called `name`.
pub fn make_code(name: &str) -> (code: String)
    ensures
        code_for(code@, name@),
{
    let tail = random_text(&CODE_ALPHABET, CODE_TAIL);
    assert(code_tail(tail@));
    code_from(name, tail.as_str())
}

/// `drawn` are `n` join codes for a stream called `name`.
pub open spec fn codes_for(drawn: Seq<Seq<char>>, n: nat, name: Seq<char>) -> bool {
    &&& drawn.len() == n
    &&& forall|i: int| 0 <= i < drawn.len() ==> code_for(#[trigger] drawn[i], name)
}

/// Draws `n` join codes for a stream called `name`, one independently of the
/// other.
pub fn draw_codes(name: &str, n: usize) -> (drawn: Vec<String>)
    ensures
        codes_for(texts_view(drawn@), n as nat, name@),
{
    let mut drawn: Vec<String> = Vec::new();
    let mut i: usize = 0;
    while i < n
        invariant
            i <= n,
            codes_for(texts_view(drawn@), i as nat, name@),
        decreases n - i,
    {
        let ghost before = texts_view(drawn@);
        let code = make_code(name);
        drawn.push(code);
        assert(texts_view(drawn@) =~= before.push(code@));
        i += 1;
    }
    drawn
}

/// Draws a stream id.
pub fn make_id() -> (id: String)
    ensures
        id_text(id@),
{
    random_text(&ID_ALPHABET, ID_LEN)
}

/// No random part of a join code holds a character that is easily taken for
/// another: zero, one, or the letters I, L and O.
pub proof fn law_code_tails_are_unambiguous(tail: Seq<char>, i: int)
    requires
        code_tail(tail),
        0 <= i < tail.len(),
    ensures
        tail[i] != '0' && tail[i] != '1' && tail[i] != 'I' && tail[i] != 'L' && tail[i] != 'O',
        'A' <= tail[i] <= 'Z' || '2' <= tail[i] <= '9',
{
    assert(CODE_ALPHABET@.contains(tail[i]));
}

/// A join code is short and made of lower-case letters, digits and one dash,
/// then the random part.
pub proof fn lemma_code_chars(code: Seq<char>, name: Seq<char>)
    requires
        code_for(code, name),
    ensures
        CODE_TAIL + 2 <= code.len() <= SLUG_LIMIT + 1 + CODE_TAIL,
        forall|i: int| 0 <= i < code.len() ==> alnum(#[trigger] code[i]) || code[i] == '-',
{
    let tail = choose|tail: Seq<char>| #[trigger] code_tail(tail) && code == code_text(name, tail);
    let s = slug_of(name);
    let keep = |c: char| alnum(c);
    lemma_filter_all(name, keep);
    reveal_strlit("term");
    assert forall|i: int| 0 <= i < s.len() implies alnum(#[trigger] s[i]) by {
        let f = name.filter(keep);
        if f.len() > 0 {
            assert(keep(f[i]));
        }
    }
    assert forall|i: int| 0 <= i < code.len() implies alnum(#[trigger] code[i]) || code[i]
        == '-' by {
        if i > s.len() {
            law_code_tails_are_unambiguous(tail, i - s.len() - 1);
        } else if i < s.len() {
            assert(code[i] == s[i]);
        }
    }
}

/// A stream id is made of letters, digits, dashes and underscores.
pub proof fn lemma_id_chars(id: Seq<char>)
    requires
        id_text(id),
    ensures
        forall|i: int|
            0 <= i < id.len() ==> alnum(#[trigger] id[i]) || id[i] == '-' || id[i] == '_',
{
    assert forall|i: int| 0 <= i < id.len() implies alnum(#[trigger] id[i]) || id[i] == '-'
        || id[i] == '_' by {
        assert(ID_ALPHABET@.contains(id[i]));
    }
}

/// A join code is the name part, a dash and four random characters.
pub proof fn law_codes_show_the_name(code: Seq<char>, name: Seq<char>)
    requires
        code_for(code, name),
    ensures
        ({
            let s = slug_of(name);
            &&& code.len() == s.len() + 5
            &&& code.take(s.len() as int) == s
            &&& code[s.len() as int] == '-'
            &&& code_tail(code.skip(s.len() + 1int))
        }),
{
    let tail = choose|tail: Seq<char>| #[trigger] code_tail(tail) && code == code_text(name, tail);
    let s = slug_of(name);
    assert(code.take(s.len() as int) =~= s);
    assert(code.skip(s.len() + 1int) =~= tail);
}

/// Every digit from 2 on and every capital letter up to Y but I, L and O can
/// stand in a join code.
pub proof fn law_all_unambiguous_characters_count(c: char)
    requires
        '2' <= c <= '9' || 'A' <= c <= 'Y',
        c != 'I' && c != 'L' && c != 'O',
    ensures
        CODE_ALPHABET@.contains(c),
{
    let k = if c <= '9' {
        c as int - 50
    } else if c <= 'H' {
        8 + (c as int - 65)
    } else if c <= 'K' {
        16 + (c as int - 74)
    } else if c <= 'N' {
        18 + (c as int - 77)
    } else {
        20 + (c as int - 80)
    };
    assert(CODE_ALPHABET@[k] == c);
}

/// Stream ids have ten characters.
pub proof fn law_ids_have_ten_characters(id: Seq<char>)
    requires
        id_text(id),
    ensures
        id.len() == 10,
{
}

/// As many join codes are drawn as were asked for, each of them one for the name.
pub proof fn law_codes_are_drawn_for_the_name(
    drawn: Seq<Seq<char>>,
    n: nat,
    name: Seq<char>,
    i: int,
)
    requires
        codes_for(drawn, n, name),
    ensures
        drawn.len() == n,
        0 <= i < n ==> code_for(drawn[i], name),
{
}

} // verus!
