//! Reading an address from text: `host:port` for a domain name.

use vstd::prelude::*;
use vstd::string::StrSliceExecFns;
use super::address::Address;
use super::address::AddressModel;
use super::address::SocketAddress;
use crate::text::decimal;
use crate::text::digit_char;
use crate::text::push_char;
use crate::text::push_decimal;
use vstd::string::StringExecFns;

verus! {

/// Parse `Address` error.
#[derive(Clone, Copy, Debug, PartialEq, Eq, Structural)]
pub struct AddressError;

/// Index of the first `':'` in `s` at or after `from`, or `s.len()` if there
/// is none.
pub open spec fn find_colon(s: Seq<char>, from: int) -> int
    decreases s.len() - from,
{
    if from >= s.len() {
        s.len() as int
    } else if s[from] == ':' {
        from
    } else {
        find_colon(s, from + 1)
    }
}

/// The first two pieces of `s` split at `':'`, when there are at least two.
pub open spec fn first_two_fields(s: Seq<char>) -> Option<(Seq<char>, Seq<char>)> {
    let i = find_colon(s, 0);
    if i >= s.len() {
        None
    } else {
        let j = find_colon(s, i + 1);
        Some((s.subrange(0, i), s.subrange(i + 1, j)))
    }
}

pub open spec fn is_digit(c: char) -> bool {
    '0' <= c <= '9'
}

/// Value of a string of decimal digits.
pub open spec fn digits_value(d: Seq<char>) -> nat
    decreases d.len(),
{
    if d.len() == 0 {
        0
    } else {
        digits_value(d.drop_last()) * 10 + ((d.last() as nat) - 48) as nat
    }
}

pub open spec fn all_digits(d: Seq<char>) -> bool {
    forall|i: int| 0 <= i < d.len() ==> is_digit(#[trigger] d[i])
}

/// What `u16::from_str` accepts: an optional `+`, then one or more ASCII
/// digits whose value fits in 16 bits.
pub open spec fn spec_parse_u16(t: Seq<char>) -> Option<u16> {
    let d = if t.len() > 0 && t[0] == '+' {
        t.drop_first()
    } else {
        t
    };
    if d.len() > 0 && all_digits(d) && digits_value(d) <= 0xffff {
        Some(digits_value(d) as u16)
    } else {
        None
    }
}

proof fn lemma_digits_value_grows(d: Seq<char>, k: int)
    requires
        all_digits(d),
        0 <= k <= d.len(),
    ensures
        digits_value(d.subrange(0, k)) <= digits_value(d),
    decreases d.len() - k,
{
    if k < d.len() {
        let e = d.subrange(0, k + 1);
        assert(e.drop_last() =~= d.subrange(0, k));
        assert(is_digit(d[k]));
        lemma_digits_value_grows(d, k + 1);
    } else {
        assert(d.subrange(0, k) =~= d);
    }
}

proof fn lemma_find_colon_bounds(s: Seq<char>, k: int)
    requires
        0 <= k <= s.len(),
    ensures
        k <= find_colon(s, k) <= s.len(),
        find_colon(s, k) < s.len() ==> s[find_colon(s, k)] == ':',
    decreases s.len() - k,
{
    if k < s.len() && s[k] != ':' {
        lemma_find_colon_bounds(s, k + 1);
    }
}

fn find_colon_from(s: &str, from: usize) -> (i: usize)
    requires
        from <= s@.len(),
    ensures
        i == find_colon(s@, from as int),
        from <= i <= s@.len(),
{
    let len = s.unicode_len();
    let mut i = from;
    while i < len
        invariant
            from <= i <= len,
            len == s@.len(),
            find_colon(s@, from as int) == find_colon(s@, i as int),
        decreases len - i,
    {
        if s.get_char(i) == ':' {
            return i;
        }
        i = i + 1;
    }
    proof {
        lemma_find_colon_bounds(s@, from as int);
    }
    i
}

/// `u16::from_str` on the characters `s[from..to]`.
fn parse_u16(s: &str, from: usize, to: usize) -> (r: Option<u16>)
    requires
        from <= to <= s@.len(),
    ensures
        r == spec_parse_u16(s@.subrange(from as int, to as int)),
{
    let ghost t = s@.subrange(from as int, to as int);
    let mut start = from;
    if from < to && s.get_char(from) == '+' {
        start = from + 1;
    }
    let ghost d = s@.subrange(start as int, to as int);
    assert(d =~= (if t.len() > 0 && t[0] == '+' { t.drop_first() } else { t }));
    if start == to {
        return None;
    }
    let mut acc: u32 = 0;
    let mut i = start;
    while i < to
        invariant
            start <= i <= to <= s@.len(),
            d == s@.subrange(start as int, to as int),
            t == s@.subrange(from as int, to as int),
            d == (if t.len() > 0 && t[0] == '+' { t.drop_first() } else { t }),
            d.len() > 0,
            all_digits(s@.subrange(start as int, i as int)),
            acc as nat == digits_value(s@.subrange(start as int, i as int)),
            acc <= 0xffff,
        decreases to - i,
    {
        let c = s.get_char(i);
        let ghost prefix = s@.subrange(start as int, i + 1);
        assert(prefix.drop_last() =~= s@.subrange(start as int, i as int));
        if c < '0' || c > '9' {
            proof {
                assert(d[i - start] == c);
                assert(!is_digit(d[i - start]));
            }
            return None;
        }
        let v = (c as u32) - 48;
        acc = acc * 10 + v;
        if acc > 0xffff {
            proof {
                assert(all_digits(prefix));
                if all_digits(d) {
                    assert(d.subrange(0, i + 1 - start) =~= prefix);
                    lemma_digits_value_grows(d, i + 1 - start);
                }
            }
            return None;
        }
        i = i + 1;
    }
    assert(s@.subrange(start as int, i as int) =~= d);
    Some(acc as u16)
}

impl Address {
    /// Reads an address from text. `socket` is the same text read as a
    /// socket address (an IP address and a port) by the standard library's
    /// socket-address parser, when it is one; that parser belongs to
    /// `std::net` and is run by the caller. Otherwise the text must be
    /// `host:port`, and only its first two `':'`-separated pieces are looked
    /// at.
    pub fn from_text(text: &str, socket: Option<SocketAddress>) -> (res: Result<Address, AddressError>)
        ensures
            socket matches Some(a) ==> res matches Ok(x) && x@ == AddressModel::Socket(a),
            socket is None ==> (res is Ok <==> (first_two_fields(text@) matches Some(f)
                && spec_parse_u16(f.1) is Some)),
            socket is None ==> (res matches Ok(x) ==> (first_two_fields(text@) matches Some(f)
                && x@ == AddressModel::Domain(f.0, spec_parse_u16(f.1).unwrap()))),
    {
        match socket {
            Some(a) => Ok(Address::SocketAddress(a)),
            None => {
                let len = text.unicode_len();
                let i = find_colon_from(text, 0);
                if i >= len {
                    return Err(AddressError);
                }
                let j = find_colon_from(text, i + 1);
                match parse_u16(text, i + 1, j) {
                    Some(port) => {
                        let dn = text.substring_char(0, i);
                        Ok(Address::DomainNameAddress(dn.to_owned(), port))
                    },
                    None => Err(AddressError),
                }
            },
        }
    }
}

/// The text of a domain-name address: `host:port`.
pub open spec fn domain_text_spec(name: Seq<char>, port: u16) -> Seq<char> {
    name.push(':') + decimal(port as nat)
}

impl Address {
    /// Writes a domain-name address as text, `host:port`.
    pub fn domain_text(name: &str, port: u16) -> (s: String)
        ensures
            s@ == domain_text_spec(name@, port),
    {
        let mut s = name.to_owned();
        push_char(&mut s, ':');
        push_decimal(&mut s, port as u64);
        s
    }
}

proof fn lemma_decimal_digits(n: nat)
    ensures
        decimal(n).len() > 0,
        all_digits(decimal(n)),
        digits_value(decimal(n)) == n,
        !decimal(n).contains(':'),
    decreases n,
{
    if n >= 10 {
        lemma_decimal_digits(n / 10);
        let d = decimal(n);
        assert(d.drop_last() =~= decimal(n / 10));
        assert((digit_char(n % 10) as nat) - 48 == n % 10);
        assert(n / 10 * 10 + n % 10 == n);
        assert(d.last() == digit_char(n % 10));
        assert(digits_value(d) == digits_value(d.drop_last()) * 10 + ((d.last() as nat) - 48) as nat);
        assert(digits_value(d.drop_last()) == n / 10);
        assert(digits_value(d) == n);
        assert forall|i: int| 0 <= i < d.len() implies is_digit(#[trigger] d[i]) by {
            if i < d.len() - 1 {
                assert(d[i] == decimal(n / 10)[i]);
            }
        }
        assert forall|i: int| 0 <= i < d.len() implies #[trigger] d[i] != ':' by {
            if i < d.len() - 1 {
                assert(d[i] == decimal(n / 10)[i]);
            }
        }
    } else {
        let d = decimal(n);
        assert(d.drop_last() =~= Seq::<char>::empty());
        assert((digit_char(n % 10) as nat) - 48 == n % 10);
        assert(d.last() == digit_char(n % 10));
        assert(digits_value(d.drop_last()) == 0);
        assert(digits_value(d) == n);
    }
}

/// Decimal text is canonical: one or more ASCII digits, no leading zero
/// (but for zero itself), whose value is the number.
pub proof fn lemma_decimal_canonical(n: nat)
    ensures
        decimal(n).len() > 0,
        all_digits(decimal(n)),
        digits_value(decimal(n)) == n,
        n == 0 ==> decimal(n) == seq!['0'],
        n > 0 ==> decimal(n)[0] != '0',
    decreases n,
{
    lemma_decimal_digits(n);
    if n >= 10 {
        lemma_decimal_canonical(n / 10);
        assert(decimal(n)[0] == decimal(n / 10)[0]);
    } else {
        assert(decimal(n) =~= seq![digit_char(n)]);
    }
}

proof fn lemma_find_colon_none(s: Seq<char>, k: int)
    requires
        0 <= k <= s.len(),
        forall|i: int| k <= i < s.len() ==> s[i] != ':',
    ensures
        find_colon(s, k) == s.len(),
    decreases s.len() - k,
{
    if k < s.len() {
        lemma_find_colon_none(s, k + 1);
    }
}

proof fn lemma_find_colon_skip(s: Seq<char>, k: int, j: int)
    requires
        0 <= k <= j <= s.len(),
        forall|i: int| k <= i < j ==> s[i] != ':',
    ensures
        find_colon(s, k) == find_colon(s, j),
    decreases j - k,
{
    if k < j {
        lemma_find_colon_skip(s, k + 1, j);
    }
}

/// A domain-name address written as text and read back gives the same
/// address, when the host name holds no `':'` and the text does not read as
/// a socket address.
pub proof fn lemma_domain_text_roundtrip(name: Seq<char>, port: u16)
    requires
        !name.contains(':'),
    ensures
        first_two_fields(domain_text_spec(name, port)) == Some((name, decimal(port as nat))),
        spec_parse_u16(decimal(port as nat)) == Some(port),
{
    let d = decimal(port as nat);
    let t = domain_text_spec(name, port);
    lemma_decimal_digits(port as nat);
    let n = name.len() as int;
    assert forall|i: int| 0 <= i < n implies t[i] != ':' by {
        assert(t[i] == name[i]);
    }
    lemma_find_colon_skip(t, 0, n);
    assert(t[n] == ':');
    assert forall|i: int| n + 1 <= i < t.len() implies t[i] != ':' by {
        assert(t[i] == d[i - n - 1]);
    }
    lemma_find_colon_none(t, n + 1);
    assert(t.subrange(0, n) =~= name);
    assert(t.subrange(n + 1, t.len() as int) =~= d);
    assert(d[0] != '+') by {
        assert(is_digit(d[0]));
    }
}

} // verus!
