//! Decimal numbers and small string helpers.

use vstd::prelude::*;
use vstd::string::{StrSliceExecFns, StringExecFns};

verus! {

/// An ASCII decimal digit.
pub open spec fn is_digit(c: char) -> bool {
    '0' <= c && c <= '9'
}

/// Every character of `s` is an ASCII decimal digit.
pub open spec fn all_digits(s: Seq<char>) -> bool {
    forall|i: int| 0 <= i < s.len() ==> is_digit(#[trigger] s[i])
}

/// The value of a digit character.
pub open spec fn digit_value(c: char) -> nat {
    (c as nat - '0' as nat) as nat
}

/// The number that a string of decimal digits denotes.
pub open spec fn digits_value(s: Seq<char>) -> nat
    decreases s.len(),
{
    if s.len() == 0 {
        0
    } else {
        digits_value(s.drop_last()) * 10 + digit_value(s.last())
    }
}

/// What parsing `s` as a `u16` gives: an optional leading `+`, then at least
/// one decimal digit, and a value that fits in 16 bits.
pub open spec fn spec_parse_u16(s: Seq<char>) -> Option<u16> {
    let digits = if s.len() > 0 && s[0] == '+' { s.drop_first() } else { s };
    if digits.len() > 0 && all_digits(digits) && digits_value(digits) <= u16::MAX {
        Some(digits_value(digits) as u16)
    } else {
        None
    }
}

/// The character of a single decimal digit.
pub open spec fn digit_char(d: nat) -> char
    recommends
        d < 10,
{
    (('0' as nat) + d) as char
}

/// The shortest decimal representation of `n`.
pub open spec fn spec_decimal(n: nat) -> Seq<char>
    decreases n,
{
    if n < 10 {
        seq![digit_char(n)]
    } else {
        spec_decimal(n / 10).push(digit_char(n % 10))
    }
}

/// Appends one character to a string (`String::push`).
#[verifier::external_body]
pub(crate) fn push_char(s: &mut String, c: char)
    ensures
        final(s)@ == old(s)@.push(c),
{
    s.push(c);
}

/// Whether two strings hold the same characters.
pub fn same_text(a: &str, b: &str) -> (res: bool)
    ensures
        res == (a@ == b@),
{
    let x: String = a.to_owned();
    let y: String = b.to_owned();
    x == y
}

/// A copy of a string.
pub fn copy_text(a: &str) -> (res: String)
    ensures
        res@ == a@,
{
    a.to_owned()
}

/// Removes the last character of a string, if any (`String::pop`).
#[verifier::external_body]
pub(crate) fn pop_char(s: &mut String)
    ensures
        final(s)@ == (if old(s)@.len() > 0 { old(s)@.drop_last() } else { old(s)@ }),
{
    s.pop();
}

/// `a`, then `b`, then `c`.
pub fn concat3(a: &str, b: &str, c: &str) -> (res: String)
    ensures
        res@ == a@ + b@ + c@,
{
    let mut s = a.to_owned();
    s.append(b);
    s.append(c);
    s
}

/// Parses a decimal `u16` the way `str::parse::<u16>` does.
pub fn parse_u16(s: &str) -> (res: Option<u16>)
    ensures
        res == spec_parse_u16(s@),
{
    match parse_u16_checked(s) {
        Ok(v) => Some(v),
        Err(_) => None,
    }
}

proof fn reveal_parse_none(s: Seq<char>, digits: Seq<char>)
    requires
        digits == (if s.len() > 0 && s[0] == '+' { s.drop_first() } else { s }),
        !(digits.len() > 0 && all_digits(digits) && digits_value(digits) <= u16::MAX),
    ensures
        spec_parse_u16(s) is None,
{
}

/// The value of a prefix of a digit string is at most the value of the whole.
pub proof fn lemma_digits_value_prefix_le(s: Seq<char>, k: nat)
    requires
        k <= s.len(),
        all_digits(s),
    ensures
        digits_value(s.subrange(0, k as int)) <= digits_value(s),
    decreases s.len(),
{
    if k < s.len() {
        let t = s.drop_last();
        assert(all_digits(t)) by {
            assert forall|i: int| 0 <= i < t.len() implies is_digit(#[trigger] t[i]) by {
                assert(t[i] == s[i]);
            }
        }
        lemma_digits_value_prefix_le(t, k);
        assert(t.subrange(0, k as int) =~= s.subrange(0, k as int));
    } else {
        assert(s.subrange(0, k as int) =~= s);
    }
}

/// Renders `n` in decimal, as `Display` does for unsigned integers.
pub fn decimal_string(n: u64) -> (res: String)
    ensures
        res@ == spec_decimal(n as nat),
{
    let mut res = String::new();
    append_decimal(n, &mut res);
    assert(res@ =~= spec_decimal(n as nat));
    res
}

/// Appends the decimal representation of `n` to `out`.
pub fn append_decimal(n: u64, out: &mut String)
    ensures
        final(out)@ == old(out)@ + spec_decimal(n as nat),
    decreases n,
{
    if n >= 10 {
        append_decimal(n / 10, out);
    }
    push_char(out, char_of_digit(n % 10));
    proof {
        if n >= 10 {
            assert(old(out)@ + spec_decimal(n as nat) =~= (old(out)@ + spec_decimal((n / 10) as nat)).push(
                digit_char((n % 10) as nat),
            ));
        } else {
            assert(n % 10 == n);
        }
    }
}

fn char_of_digit(d: u64) -> (c: char)
    requires
        d < 10,
    ensures
        c == digit_char(d as nat),
        '0' <= c <= '9',
{
    if d == 0 { '0' }
    else if d == 1 { '1' }
    else if d == 2 { '2' }
    else if d == 3 { '3' }
    else if d == 4 { '4' }
    else if d == 5 { '5' }
    else if d == 6 { '6' }
    else if d == 7 { '7' }
    else if d == 8 { '8' }
    else { '9' }
}

/// The decimal representation of `n` is a non-empty string of digits that
/// denotes `n`.
pub proof fn lemma_decimal_digits(n: nat)
    ensures
        spec_decimal(n).len() > 0,
        all_digits(spec_decimal(n)),
        digits_value(spec_decimal(n)) == n,
    decreases n,
{
    if n < 10 {
        let s = spec_decimal(n);
        assert(s.drop_last() =~= Seq::<char>::empty());
        assert(digits_value(s.drop_last()) == 0);
        assert(s.last() == digit_char(n));
        assert(digit_value(digit_char(n)) == n);
        assert(is_digit(s[0]));
    } else {
        lemma_decimal_digits(n / 10);
        let t = spec_decimal(n / 10);
        let s = spec_decimal(n);
        assert(s.drop_last() =~= t);
        assert(s.last() == digit_char(n % 10));
        assert(digit_value(digit_char(n % 10)) == n % 10);
        assert(digits_value(s) == digits_value(t) * 10 + digit_value(s.last()));
        assert((n / 10) * 10 + n % 10 == n);
        assert forall|i: int| 0 <= i < s.len() implies is_digit(#[trigger] s[i]) by {
            if i < t.len() {
                assert(s[i] == t[i]);
            }
        }
    }
}

/// Parsing the decimal representation of a port gives the port back.
pub proof fn lemma_parse_decimal(n: u16)
    ensures
        spec_parse_u16(spec_decimal(n as nat)) == Some(n),
{
    lemma_decimal_digits(n as nat);
    let s = spec_decimal(n as nat);
    assert(is_digit(s[0]));
}

/// Why text is not a `u16`, as `std::num::IntErrorKind` tells it.
#[derive(Debug, Clone, Copy, PartialEq, Eq, Structural)]
pub enum IntErrorKind {
    /// The text is empty.
    Empty,
    /// A character is not a digit (or a lone sign).
    InvalidDigit,
    /// The value is larger than 65535.
    PosOverflow,
}

impl IntErrorKind {
    /// The message `std::num::ParseIntError` displays for this kind.
    pub fn message(&self) -> (res: &'static str)
        ensures
            *self == IntErrorKind::Empty ==> res@ == "cannot parse integer from empty string"@,
            *self == IntErrorKind::InvalidDigit ==> res@ == "invalid digit found in string"@,
            *self == IntErrorKind::PosOverflow ==> res@ == "number too large to fit in target type"@,
    {
        match self {
            IntErrorKind::Empty => "cannot parse integer from empty string",
            IntErrorKind::InvalidDigit => "invalid digit found in string",
            IntErrorKind::PosOverflow => "number too large to fit in target type",
        }
    }
}

/// The index of the first character of `s` that is not a digit, or the
/// length of `s` when all are digits.
pub open spec fn first_non_digit(s: Seq<char>) -> int
    decreases s.len(),
{
    if s.len() == 0 {
        0
    } else if !is_digit(s[0]) {
        0
    } else {
        1 + first_non_digit(s.drop_first())
    }
}

/// Why parsing `s` as a `u16` fails (meaningful when it does): the first
/// problem met reading from the left.
pub open spec fn spec_parse_u16_error(s: Seq<char>) -> IntErrorKind {
    let digits = if s.len() > 0 && s[0] == '+' { s.drop_first() } else { s };
    if s.len() == 0 {
        IntErrorKind::Empty
    } else if digits.len() == 0 {
        IntErrorKind::InvalidDigit
    } else if digits_value(digits.take(first_non_digit(digits))) > u16::MAX {
        IntErrorKind::PosOverflow
    } else {
        IntErrorKind::InvalidDigit
    }
}

/// The first non-digit lies at or after `k` when the first `k` characters
/// are digits; and it is a non-digit, unless it is the end.
pub proof fn lemma_first_non_digit(s: Seq<char>, k: int)
    requires
        0 <= k <= s.len(),
        all_digits(s.take(k)),
    ensures
        k <= first_non_digit(s) <= s.len(),
        first_non_digit(s) < s.len() ==> !is_digit(s[first_non_digit(s)]),
        all_digits(s.take(first_non_digit(s))),
    decreases s.len(),
{
    if s.len() > 0 && is_digit(s[0]) {
        let t = s.drop_first();
        let k2 = if k > 0 { k - 1 } else { 0 };
        assert(all_digits(t.take(k2))) by {
            assert forall|i: int| 0 <= i < t.take(k2).len() implies is_digit(#[trigger] t.take(k2)[i]) by {
                assert(t.take(k2)[i] == s.take(k)[i + 1]);
            }
        }
        lemma_first_non_digit(t, k2);
        let f = first_non_digit(t);
        assert forall|i: int| 0 <= i < s.take(f + 1).len() implies is_digit(#[trigger] s.take(f + 1)[i]) by {
            if i > 0 {
                assert(s.take(f + 1)[i] == t.take(f)[i - 1]);
            }
        }
    } else {
        if k > 0 {
            assert(s.take(k)[0] == s[0]);
        }
        assert(s.take(0) =~= Seq::<char>::empty());
    }
}

/// Parses a decimal `u16` as `str::parse::<u16>` does, telling why it
/// fails.
pub fn parse_u16_checked(s: &str) -> (res: Result<u16, IntErrorKind>)
    ensures
        match res {
            Ok(v) => spec_parse_u16(s@) == Some(v),
            Err(e) => spec_parse_u16(s@) is None && e == spec_parse_u16_error(s@),
        },
{
    let n = s.unicode_len();
    if n == 0 {
        return Err(IntErrorKind::Empty);
    }
    let mut start: usize = 0;
    if s.get_char(0) == '+' {
        start = 1;
    }
    let ghost digits = if s@.len() > 0 && s@[0] == '+' { s@.drop_first() } else { s@ };
    assert(digits =~= s@.subrange(start as int, n as int));
    if start >= n {
        return Err(IntErrorKind::InvalidDigit);
    }
    let mut value: u32 = 0;
    let mut i: usize = start;
    while i < n
        invariant
            n == s@.len(),
            start <= i <= n,
            start < n,
            digits =~= s@.subrange(start as int, n as int),
            digits == (if s@.len() > 0 && s@[0] == '+' { s@.drop_first() } else { s@ }),
            all_digits(s@.subrange(start as int, i as int)),
            value as nat == digits_value(s@.subrange(start as int, i as int)),
            value <= u16::MAX,
        decreases n - i,
    {
        let c = s.get_char(i);
        let ghost prefix = s@.subrange(start as int, i as int);
        assert(digits.take(i - start) =~= prefix);
        if !('0' <= c && c <= '9') {
            proof {
                assert(digits[i - start] == c);
                assert(!is_digit(digits[i - start]));
                lemma_first_non_digit(digits, i - start);
                let f = first_non_digit(digits);
                if f > i - start {
                    assert(digits.take(f)[i - start] == digits[i - start]);
                }
                assert(f == i - start);
                reveal_parse_none(s@, digits);
            }
            return Err(IntErrorKind::InvalidDigit);
        }
        let d: u32 = (c as u32) - ('0' as u32);
        let ghost next = s@.subrange(start as int, i + 1);
        assert(next.drop_last() =~= prefix);
        assert(next.last() == c);
        let next_value: u32 = value * 10 + d;
        if next_value > 65535 {
            proof {
                assert(digits.take(i + 1 - start) =~= next);
                assert(all_digits(digits.take(i + 1 - start))) by {
                    assert forall|k: int| 0 <= k < next.len() implies is_digit(#[trigger] next[k]) by {
                        if k < prefix.len() {
                            assert(next[k] == prefix[k]);
                        }
                    }
                }
                lemma_first_non_digit(digits, i + 1 - start);
                let f = first_non_digit(digits);
                lemma_digits_value_prefix_le(digits.take(f), (i + 1 - start) as nat);
                assert(digits.take(f).subrange(0, i + 1 - start) =~= next);
                if all_digits(digits) {
                    lemma_digits_value_prefix_le(digits, (i + 1 - start) as nat);
                    assert(digits.subrange(0, (i + 1 - start) as int) =~= next);
                }
                reveal_parse_none(s@, digits);
            }
            return Err(IntErrorKind::PosOverflow);
        }
        value = next_value;
        i = i + 1;
    }
    assert(s@.subrange(start as int, n as int) =~= digits);
    Ok(value as u16)
}

/// The index of the first `c` in `s`, if any.
pub open spec fn first_index_of(s: Seq<char>, c: char) -> Option<int>
    decreases s.len(),
{
    if s.len() == 0 {
        None
    } else {
        match first_index_of(s.drop_last(), c) {
            Some(i) => Some(i),
            None => if s.last() == c {
                Some(s.len() - 1)
            } else {
                None
            },
        }
    }
}

/// The index of the last `c` in `s`, if any.
pub open spec fn last_index_of(s: Seq<char>, c: char) -> Option<int>
    decreases s.len(),
{
    if s.len() == 0 {
        None
    } else if s.last() == c {
        Some(s.len() - 1)
    } else {
        last_index_of(s.drop_last(), c)
    }
}

/// A first occurrence within a prefix is the first occurrence overall.
pub proof fn lemma_first_index_prefix(s: Seq<char>, c: char, k: int)
    requires
        0 <= k <= s.len(),
        first_index_of(s.take(k), c) is Some,
    ensures
        first_index_of(s, c) == first_index_of(s.take(k), c),
    decreases s.len(),
{
    if k < s.len() {
        let t = s.drop_last();
        assert(t.take(k) =~= s.take(k));
        lemma_first_index_prefix(t, c, k);
    } else {
        assert(s.take(k) =~= s);
    }
}

/// Finds the first `c` in `s`.
pub fn find_first(s: &str, c: char) -> (res: Option<usize>)
    ensures
        match res {
            Some(i) => first_index_of(s@, c) == Some(i as int) && i < s@.len(),
            None => first_index_of(s@, c) is None,
        },
{
    let n = s.unicode_len();
    let mut i: usize = 0;
    while i < n
        invariant
            n == s@.len(),
            i <= n,
            first_index_of(s@.take(i as int), c) is None,
        decreases n - i,
    {
        assert(s@.take(i + 1).drop_last() =~= s@.take(i as int));
        if s.get_char(i) == c {
            proof {
                lemma_first_index_prefix(s@, c, i + 1);
            }
            return Some(i);
        }
        i = i + 1;
    }
    assert(s@.take(n as int) =~= s@);
    None
}

/// Finds the last `c` in `s`.
pub fn find_last(s: &str, c: char) -> (res: Option<usize>)
    ensures
        match res {
            Some(i) => last_index_of(s@, c) == Some(i as int) && i < s@.len(),
            None => last_index_of(s@, c) is None,
        },
{
    let n = s.unicode_len();
    let mut i: usize = n;
    assert(s@.take(n as int) =~= s@);
    while i > 0
        invariant
            n == s@.len(),
            i <= n,
            last_index_of(s@, c) == last_index_of(s@.take(i as int), c),
        decreases i,
    {
        assert(s@.take(i as int).drop_last() =~= s@.take(i - 1));
        assert(s@.take(i as int).last() == s@[i - 1]);
        if s.get_char(i - 1) == c {
            return Some(i - 1);
        }
        i = i - 1;
    }
    None
}

} // verus!
