//! The token that authenticates the front end to the daemon.
//!
//! It is kept in a file in the data directory. A file whose content is
//! blank once trimmed holds no token, and a fresh one is made: two random
//! version-4 UUIDs in their simple form, 64 lower-case hexadecimal digits.

use vstd::prelude::*;
use crate::task::{new_uuid, uuid_simple, uuid_simple_text, hex_digit, nibble, is_v4_uuid};
use crate::text::{trim, trim_str};

verus! {

/// The token a token file holds: its trimmed content, when not blank.
pub open spec fn stored_token(contents: Seq<char>) -> Option<Seq<char>> {
    if trim(contents).len() > 0 {
        Some(trim(contents))
    } else {
        None
    }
}

/// The token held by a token file with these contents.
pub fn token_from_contents(contents: &str) -> (r: Option<String>)
    ensures
        match r {
            Some(t) => stored_token(contents@) == Some(t@),
            None => stored_token(contents@) is None,
        },
{
    let t = trim_str(contents);
    if t.unicode_len() > 0 {
        Some(String::from_str(t))
    } else {
        None
    }
}

/// A token made of two 128-bit values.
pub open spec fn token_text(a: u128, b: u128) -> Seq<char> {
    uuid_simple_text(a) + uuid_simple_text(b)
}

/// A fresh token: two random version-4 UUIDs in their simple form, 64
/// lower-case hexadecimal digits.
pub fn new_token() -> (t: String)
    ensures
        exists|a: u128, b: u128| is_v4_uuid(a) && is_v4_uuid(b) && t@ == token_text(a, b),
        t@.len() == 64,
{
    let a = new_uuid();
    let b = new_uuid();
    let mut t = uuid_simple(a);
    let second = uuid_simple(b);
    t.append(second.as_str());
    assert(t@ == token_text(a, b));
    assert(is_v4_uuid(a) && is_v4_uuid(b));
    t
}

/// A stored token reads back as itself.
pub proof fn lemma_token_round_trip(a: u128, b: u128)
    ensures
        stored_token(token_text(a, b)) == Some(token_text(a, b)),
{
    let t = token_text(a, b);
    assert(t[0] == hex_digit(nibble(a, 0)));
    assert(t[63] == hex_digit(nibble(b, 31)));
    assert(t.last() == t[63]);
}

} // verus!
