//! A client's connection to the relay.
use crate::text::{chars_of, string_between};
use vstd::prelude::*;

verus! {

/// What arrives on a client's connection.
#[derive(Debug)]
pub enum Incoming<M> {
    /// A binary frame, with the message it holds if it could be decoded.
    Binary(Option<M>),
    /// A ping of the transport, with its payload.
    Ping(Vec<u8>),
    /// Any other frame.
    Other,
    /// The relay announced that it closes the connection.
    Closing,
    /// The connection is closed.
    Closed,
    /// The connection broke, for the given reason.
    Broken(String),
}

/// `s` without the slashes at its end.
pub open spec fn without_slashes(s: Seq<char>) -> Seq<char>
    decreases s.len(),
{
    if s.len() > 0 && s.last() == '/' {
        without_slashes(s.drop_last())
    } else {
        s
    }
}

/// The address of `path` at the relay.
pub open spec fn address(relay: Seq<char>, path: Seq<char>) -> Seq<char> {
    without_slashes(relay) + path
}

/// The address of `path` at the relay with the given base address.
pub fn endpoint(relay: &str, path: &str) -> (url: String)
    ensures
        url@ == address(relay@, path@),
{
    let chars = chars_of(relay);
    let mut end: usize = chars.len();
    assert(chars@.subrange(0, end as int) =~= relay@);
    while end > 0 && chars[end - 1] == '/'
        invariant
            end <= chars@.len(),
            without_slashes(chars@.subrange(0, end as int)) == without_slashes(relay@),
        decreases end,
    {
        assert(chars@.subrange(0, end as int).drop_last() =~= chars@.subrange(0, end - 1));
        end -= 1;
    }
    let mut url = string_between(chars.as_slice(), 0, end);
    url.append(path);
    url
}

/// Slashes at the end of the relay's address make no difference.
pub proof fn law_trailing_slashes_are_ignored(relay: Seq<char>, path: Seq<char>)
    ensures
        address(relay.push('/'), path) == address(relay, path),
{
    assert(relay.push('/').drop_last() =~= relay);
}

/// An address without slashes at its end is used as it is.
pub proof fn law_addresses_begin_with_the_relay(relay: Seq<char>, path: Seq<char>)
    requires
        relay.len() == 0 || relay.last() != '/',
    ensures
        address(relay, path) == relay + path,
{
}

} // verus!
