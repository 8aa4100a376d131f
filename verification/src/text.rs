//! Text helpers: UTF-8 decoding, decimal digits, whitespace trimming.

use vstd::prelude::*;
use vstd::utf8::*;

verus! {

/// `up` is the length of the longest prefix of `bytes` that is valid UTF-8,
/// and `bytes` as a whole is not.
pub open spec fn utf8_valid_up_to(bytes: Seq<u8>, up: int) -> bool {
    &&& 0 <= up < bytes.len()
    &&& valid_utf8(bytes.subrange(0, up))
    &&& forall|k: int| up < k <= bytes.len() ==> !valid_utf8(#[trigger] bytes.subrange(0, k))
}

/// What `Utf8Error::error_len` reports for `bytes` when they are not valid
/// UTF-8: the length of the invalid sequence found at the end of the valid
/// prefix, or `None` when the input ends inside a sequence.
pub uninterp spec fn utf8_error_len(bytes: Seq<u8>) -> Option<usize>;

/// `std::str::from_utf8`: succeeds exactly on valid UTF-8 and then yields
/// the characters that the bytes encode. On failure it gives the error's
/// `valid_up_to()` (documented as the largest index up to which the input
/// is valid UTF-8) and `error_len()` (`Some(n)` when an invalid sequence of
/// `n` bytes starts there, `None` when the input ends inside a sequence).
/// The error length is named by `utf8_error_len`; of it only that an
/// invalid sequence is at least one byte long and lies within the input is
/// stated.
#[verifier::external_body]
pub(crate) fn utf8_str(bytes: &[u8]) -> (s: Result<&str, (usize, Option<usize>)>)
    ensures
        s is Ok <==> valid_utf8(bytes@),
        s matches Ok(t) ==> t@ == decode_utf8(bytes@),
        s matches Err(e) ==> utf8_valid_up_to(bytes@, e.0 as int),
        s matches Err(e) ==> e.1 == utf8_error_len(bytes@),
        s matches Err(e) ==> (e.1 matches Some(n) ==> 1 <= n && e.0 + n <= bytes@.len()),
{
    match std::str::from_utf8(bytes) {
        Ok(t) => Ok(t),
        Err(e) => Err((e.valid_up_to(), e.error_len())),
    }
}

/// `String::push`: appends one character.
#[verifier::external_body]
pub(crate) fn push_char(s: &mut String, c: char)
    ensures
        final(s)@ == old(s)@.push(c),
{
    s.push(c)
}

/// The ASCII digit for `d` (taken modulo 10).
pub open spec fn digit_char(d: nat) -> char {
    ((d % 10) + 48) as char
}

/// Decimal representation of `n`, without leading zeros.
pub open spec fn decimal(n: nat) -> Seq<char>
    decreases n,
{
    if n < 10 {
        seq![digit_char(n)]
    } else {
        decimal(n / 10).push(digit_char(n % 10))
    }
}

fn digit(d: u64) -> (c: char)
    requires
        d < 10,
    ensures
        c == digit_char(d as nat),
{
    ((d as u8) + 48) as char
}

/// Appends the decimal representation of `n` to `s`.
pub fn push_decimal(s: &mut String, n: u64)
    ensures
        final(s)@ == old(s)@ + decimal(n as nat),
    decreases n,
{
    let ghost start = s@;
    if n >= 10 {
        push_decimal(s, n / 10);
    }
    push_char(s, digit(n % 10));
    assert(s@ =~= start + decimal(n as nat));
}

} // verus!
