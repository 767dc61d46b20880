//! The 64-bit content digest and its decimal text form.
//!
//! The digest of a byte sequence is the xxh3 64-bit hash of those bytes,
//! rendered as its decimal textual representation.

use vstd::prelude::*;
use vstd::string::StringExecFns;

verus! {

/// The 64-bit xxh3 hash of a byte sequence. The hash of given bytes is a
/// fixed value on every machine, so it can be named without stating the
/// algorithm itself.
pub uninterp spec fn xxh3_of(bytes: Seq<u8>) -> u64;

/// Relies on xxhash_rust::xxh3::xxh3_64: the 64-bit digest of the input
/// bytes, with the default seed; it depends on the input bytes alone.
#[verifier::external_body]
fn xxh3_64_digest(bytes: &[u8]) -> (r: u64)
    ensures
        r == xxh3_of(bytes@),
{
    xxhash_rust::xxh3::xxh3_64(bytes)
}

/// The character for one decimal digit.
pub open spec fn digit_char(d: int) -> char {
    if d == 0 {
        '0'
    } else if d == 1 {
        '1'
    } else if d == 2 {
        '2'
    } else if d == 3 {
        '3'
    } else if d == 4 {
        '4'
    } else if d == 5 {
        '5'
    } else if d == 6 {
        '6'
    } else if d == 7 {
        '7'
    } else if d == 8 {
        '8'
    } else {
        '9'
    }
}

/// The decimal representation of a natural number, most significant digit
/// first, with no leading zeros (a single `'0'` for zero).
pub open spec fn dec_rep(n: nat) -> Seq<char>
    decreases n,
{
    if n < 10 {
        seq![digit_char(n as int)]
    } else {
        dec_rep(n / 10) + seq![digit_char((n % 10) as int)]
    }
}

/// The decimal text of the digest of a byte sequence.
pub open spec fn digest_string(bytes: Seq<u8>) -> Seq<char> {
    dec_rep(xxh3_of(bytes) as nat)
}

fn digit_str(d: u64) -> (s: &'static str)
    requires
        d < 10,
    ensures
        s@ == seq![digit_char(d as int)],
{
    proof {
        reveal_strlit("0");
        reveal_strlit("1");
        reveal_strlit("2");
        reveal_strlit("3");
        reveal_strlit("4");
        reveal_strlit("5");
        reveal_strlit("6");
        reveal_strlit("7");
        reveal_strlit("8");
        reveal_strlit("9");
    }
    let s: &'static str = match d {
        0 => "0",
        1 => "1",
        2 => "2",
        3 => "3",
        4 => "4",
        5 => "5",
        6 => "6",
        7 => "7",
        8 => "8",
        _ => "9",
    };
    proof {
        assert(s@ =~= seq![digit_char(d as int)]);
    }
    s
}

/// Renders a 64-bit value as its decimal text.
pub fn u64_to_dec_string(n: u64) -> (s: String)
    ensures
        s@ == dec_rep(n as nat),
    decreases n,
{
    if n < 10 {
        String::from_str(digit_str(n))
    } else {
        let mut s = u64_to_dec_string(n / 10);
        s.append(digit_str(n % 10));
        s
    }
}

/// The digest of a byte sequence: the xxh3 hash of the bytes as decimal text.
pub fn hash(content: &[u8]) -> (r: String)
    ensures
        r@ == digest_string(content@),
{
    u64_to_dec_string(xxh3_64_digest(content))
}

} // verus!
