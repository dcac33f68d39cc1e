//! The check of the key that an operator may ask of hosts.
use vstd::prelude::*;
use vstd::utf8::encode_utf8_decode_utf8;

verus! {

/// Whether two byte strings are equal. Looks at every position of the longer
/// one, wherever they differ.
pub fn ct_eq(a: &[u8], b: &[u8]) -> (same: bool)
    ensures
        same == (a@ == b@),
{
    let n: usize = if a.len() < b.len() { b.len() } else { a.len() };
    let mut diff: u64 = (a.len() ^ b.len()) as u64;
    proof {
        let x: usize = a.len();
        let y: usize = b.len();
        assert(((x ^ y) as u64 == 0) == (x == y)) by (bit_vector);
    }
    let mut i: usize = 0;
    while i < n
        invariant
            n == if a@.len() < b@.len() { b@.len() } else { a@.len() },
            i <= n,
            diff == 0 <==> a@.len() == b@.len() && forall|j: int|
                0 <= j < i ==> #[trigger] padded(a@, j) == padded(b@, j),
        decreases n - i,
    {
        let x: u8 = if i < a.len() { a[i] } else { 0 };
        let y: u8 = if i < b.len() { b[i] } else { 0 };
        let d: u64 = (x ^ y) as u64;
        let before: u64 = diff;
        diff = before | d;
        proof {
            assert(((x ^ y) as u64 == 0) == (x == y)) by (bit_vector);
            assert((before | d == 0) == (before == 0 && d == 0)) by (bit_vector);
            assert(x == padded(a@, i as int));
            assert(y == padded(b@, i as int));
        }
        i += 1;
    }
    proof {
        if diff == 0 {
            assert forall|j: int| 0 <= j < a@.len() implies a@[j] == b@[j] by {
                assert(padded(a@, j) == padded(b@, j));
            }
            assert(a@ == b@);
        }
    }
    diff == 0
}

spec fn padded(s: Seq<u8>, i: int) -> u8 {
    if 0 <= i < s.len() {
        s[i]
    } else {
        0
    }
}

/// Whether a host presented the key that the relay asks for. A host that
/// presents none presents the empty key.
pub fn key_matches(presented: &Option<String>, key: &String) -> (same: bool)
    ensures
        same == (key@ == (match *presented {
            Some(k) => k@,
            None => Seq::<char>::empty(),
        })),
{
    let given = match presented {
        Some(k) => k.clone(),
        None => String::new(),
    };
    proof {
        encode_utf8_decode_utf8(given@);
        encode_utf8_decode_utf8(key@);
    }
    ct_eq(given.as_str().as_bytes(), key.as_str().as_bytes())
}

} // verus!
