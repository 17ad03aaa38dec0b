//! Decimal integers as text: the `Display` rendering of integers and the
//! `str::parse` grammar of `i64`, `u64` and `u16`.
use vstd::prelude::*;

verus! {

// ---------------------------------------------------------------------------
// Rendering
// ---------------------------------------------------------------------------

/// The ASCII digit for `d` (0..=9).
pub open spec fn digit_char(d: int) -> char {
    (d + 48) as char
}

/// Decimal digits of `n`, without leading zeros.
pub open spec fn nat_text(n: nat) -> Seq<char>
    decreases n,
{
    if n < 10 {
        seq![digit_char(n as int)]
    } else {
        nat_text(n / 10).push(digit_char((n % 10) as int))
    }
}

/// Decimal rendering of `i`, with a leading `-` when negative (`Display`).
pub open spec fn int_text(i: int) -> Seq<char> {
    if i < 0 {
        seq!['-'] + nat_text((-i) as nat)
    } else {
        nat_text(i as nat)
    }
}

/// The ASCII digit for `d`.
pub(crate) fn digit(d: u64) -> (c: char)
    requires
        d < 10,
    ensures
        c == digit_char(d as int),
{
    match d {
        0 => '0',
        1 => '1',
        2 => '2',
        3 => '3',
        4 => '4',
        5 => '5',
        6 => '6',
        7 => '7',
        8 => '8',
        _ => '9',
    }
}

/// Appends the decimal digits of `n` to `out`.
pub fn push_u64_text(out: &mut Vec<char>, n: u64)
    ensures
        final(out)@ == old(out)@ + nat_text(n as nat),
    decreases n,
{
    if n >= 10 {
        push_u64_text(out, n / 10);
    }
    out.push(digit(n % 10));
    assert(final(out)@ =~= old(out)@ + nat_text(n as nat)) by {
        if n >= 10 {
            assert(old(out)@ + nat_text((n / 10) as nat) + seq![digit_char((n % 10) as int)]
                =~= old(out)@ + nat_text(n as nat));
        } else {
            assert(nat_text(n as nat) =~= seq![digit_char(n as int)]);
        }
    }
}

/// Appends the decimal rendering of `i` to `out`.
pub fn push_i64_text(out: &mut Vec<char>, i: i64)
    ensures
        final(out)@ == old(out)@ + int_text(i as int),
{
    if i < 0 {
        out.push('-');
        let m: u64 = (0i128 - i as i128) as u64;
        push_u64_text(out, m);
        assert(final(out)@ =~= old(out)@ + int_text(i as int));
    } else {
        push_u64_text(out, i as u64);
    }
}

// ---------------------------------------------------------------------------
// Parsing
// ---------------------------------------------------------------------------

/// `c` is an ASCII decimal digit.
pub open spec fn is_digit(c: char) -> bool {
    '0' <= c <= '9'
}

/// Every character of `s` is a decimal digit.
pub open spec fn all_digits(s: Seq<char>) -> bool {
    forall|i: int| 0 <= i < s.len() ==> is_digit(#[trigger] s[i])
}

/// The number that the digit string `s` denotes.
pub open spec fn digits_value(s: Seq<char>) -> int
    decreases s.len(),
{
    if s.len() == 0 {
        0
    } else {
        digits_value(s.drop_last()) * 10 + (s.last() as int - 48)
    }
}

/// A non-empty run of digits, as its value.
pub open spec fn digits_number(s: Seq<char>) -> Option<int> {
    if s.len() > 0 && all_digits(s) {
        Some(digits_value(s))
    } else {
        None
    }
}

/// The grammar of `str::parse` for signed integers, before the range check:
/// an optional `+` or `-` followed by one or more ASCII digits, nothing else.
pub open spec fn signed_number(s: Seq<char>) -> Option<int> {
    if s.len() > 0 && s[0] == '-' {
        match digits_number(s.drop_first()) {
            Some(v) => Some(-v),
            None => None,
        }
    } else if s.len() > 0 && s[0] == '+' {
        digits_number(s.drop_first())
    } else {
        digits_number(s)
    }
}

/// The grammar of `str::parse` for unsigned integers, before the range check:
/// an optional `+` followed by one or more ASCII digits, nothing else.
pub open spec fn unsigned_number(s: Seq<char>) -> Option<int> {
    if s.len() > 0 && s[0] == '+' {
        digits_number(s.drop_first())
    } else {
        digits_number(s)
    }
}

/// What `s.parse::<i64>()` gives, as an `Option`.
pub open spec fn parsed_i64(s: Seq<char>) -> Option<i64> {
    match signed_number(s) {
        Some(v) => if i64::MIN <= v <= i64::MAX {
            Some(v as i64)
        } else {
            None
        },
        None => None,
    }
}

/// What `s.parse::<u64>()` gives, as an `Option`.
pub open spec fn parsed_u64(s: Seq<char>) -> Option<u64> {
    match unsigned_number(s) {
        Some(v) => if v <= u64::MAX {
            Some(v as u64)
        } else {
            None
        },
        None => None,
    }
}

/// What `s.parse::<u16>()` gives, as an `Option`.
pub open spec fn parsed_u16(s: Seq<char>) -> Option<u16> {
    match unsigned_number(s) {
        Some(v) => if v <= u16::MAX {
            Some(v as u16)
        } else {
            None
        },
        None => None,
    }
}

proof fn lemma_digits_value_nonneg(s: Seq<char>)
    requires
        all_digits(s),
    ensures
        digits_value(s) >= 0,
    decreases s.len(),
{
    if s.len() > 0 {
        lemma_digits_value_nonneg(s.drop_last());
    }
}

proof fn lemma_digits_value_grows(s: Seq<char>, k: int)
    requires
        all_digits(s),
        0 <= k <= s.len(),
    ensures
        digits_value(s.take(k)) <= digits_value(s),
    decreases s.len(),
{
    if k < s.len() {
        lemma_digits_value_grows(s.drop_last(), k);
        assert(s.drop_last().take(k) =~= s.take(k));
        lemma_digits_value_nonneg(s.drop_last());
    } else {
        assert(s.take(k) =~= s);
    }
}

/// The value of the digits `s[start..]` when they are one or more digits and
/// the value is at most `limit`; `None` otherwise.
fn parse_digits_from(s: &Vec<char>, start: usize, limit: u64) -> (r: Option<u64>)
    requires
        start <= s.len(),
    ensures
        r == (match digits_number(s@.skip(start as int)) {
            Some(v) => if v <= limit {
                Some(v as u64)
            } else {
                None::<u64>
            },
            None => None,
        }),
{
    let ghost t = s@.skip(start as int);
    if start == s.len() {
        return None;
    }
    let mut acc: u128 = 0;
    let mut i: usize = start;
    while i < s.len()
        invariant
            start <= i <= s.len(),
            t == s@.skip(start as int),
            acc <= limit,
            all_digits(t.take(i - start)),
            acc == digits_value(t.take(i - start)),
        decreases s.len() - i,
    {
        let c = s[i];
        assert(t[i - start] == c);
        if !('0' <= c && c <= '9') {
            assert(!all_digits(t));
            return None;
        }
        let d: u128 = (c as u32 - 48) as u128;
        acc = acc * 10 + d;
        i = i + 1;
        assert(t.take(i - start).drop_last() =~= t.take(i - 1 - start));
        assert(all_digits(t.take(i - start)));
        if acc > limit as u128 {
            proof {
                if all_digits(t) {
                    lemma_digits_value_grows(t, i - start);
                }
            }
            return None;
        }
    }
    assert(t.take(s.len() - start) =~= t);
    Some(acc as u64)
}

/// `s.parse::<i64>().ok()`.
pub fn parse_i64(s: &Vec<char>) -> (r: Option<i64>)
    ensures
        r == parsed_i64(s@),
{
    if s.len() > 0 && s[0] == '-' {
        assert(s@.skip(1) =~= s@.drop_first());
        proof {
            if let Some(v) = digits_number(s@.drop_first()) {
                lemma_digits_value_nonneg(s@.drop_first());
            }
        }
        match parse_digits_from(s, 1, 0x8000_0000_0000_0000u64) {
            Some(m) => {
                if m == 0x8000_0000_0000_0000u64 {
                    Some(i64::MIN)
                } else {
                    Some(0 - (m as i64))
                }
            },
            None => {
                proof {
                    if let Some(v) = digits_number(s@.drop_first()) {
                        assert(v > 0x8000_0000_0000_0000);
                    }
                }
                None
            },
        }
    } else {
        let start: usize = if s.len() > 0 && s[0] == '+' {
            1
        } else {
            0
        };
        assert(s@.skip(1) =~= s@.drop_first());
        assert(s@.skip(0) =~= s@);
        proof {
            if let Some(v) = digits_number(s@.skip(start as int)) {
                lemma_digits_value_nonneg(s@.skip(start as int));
            }
        }
        match parse_digits_from(s, start, 0x7fff_ffff_ffff_ffffu64) {
            Some(v) => Some(v as i64),
            None => None,
        }
    }
}

/// `s.parse::<u64>().ok()`.
pub fn parse_u64(s: &Vec<char>) -> (r: Option<u64>)
    ensures
        r == parsed_u64(s@),
{
    let start: usize = if s.len() > 0 && s[0] == '+' {
        1
    } else {
        0
    };
    assert(s@.skip(1) =~= s@.drop_first());
    assert(s@.skip(0) =~= s@);
    proof {
        if let Some(v) = digits_number(s@.skip(start as int)) {
            lemma_digits_value_nonneg(s@.skip(start as int));
        }
    }
    parse_digits_from(s, start, u64::MAX)
}

/// `s.parse::<u16>().ok()`.
pub fn parse_u16(s: &Vec<char>) -> (r: Option<u16>)
    ensures
        r == parsed_u16(s@),
{
    let start: usize = if s.len() > 0 && s[0] == '+' {
        1
    } else {
        0
    };
    assert(s@.skip(1) =~= s@.drop_first());
    assert(s@.skip(0) =~= s@);
    proof {
        if let Some(v) = digits_number(s@.skip(start as int)) {
            lemma_digits_value_nonneg(s@.skip(start as int));
        }
    }
    match parse_digits_from(s, start, 0xffff) {
        Some(v) => Some(v as u16),
        None => None,
    }
}

// ---------------------------------------------------------------------------
// Rendering and parsing agree
// ---------------------------------------------------------------------------

/// The rendering of `n` is a non-empty run of digits that denotes `n`.
pub(crate) proof fn lemma_nat_text_digits(n: nat)
    ensures
        nat_text(n).len() > 0,
        all_digits(nat_text(n)),
        digits_value(nat_text(n)) == n,
    decreases n,
{
    assert(digit_char((n % 10) as int) as int == (n % 10) + 48);
    if n >= 10 {
        lemma_nat_text_digits(n / 10);
        let t = nat_text(n);
        assert(t.drop_last() =~= nat_text(n / 10));
        assert(t.last() == digit_char((n % 10) as int));
        assert(digits_value(t) == digits_value(t.drop_last()) * 10 + (t.last() as int - 48));
        assert(n == (n / 10) * 10 + n % 10);
        assert forall|i: int| 0 <= i < t.len() implies is_digit(#[trigger] t[i]) by {
            if i < t.len() - 1 {
                assert(t[i] == nat_text(n / 10)[i]);
            }
        }
    } else {
        let t = nat_text(n);
        assert(t.drop_last() =~= Seq::<char>::empty());
        assert(digits_value(t.drop_last()) == 0);
    }
}

/// Parsing the decimal rendering of any `i64` gives the number back.
pub proof fn law_i64_text_round_trip(x: i64)
    ensures
        parsed_i64(int_text(x as int)) == Some(x),
{
    if x < 0 {
        let m = (-x) as nat;
        lemma_nat_text_digits(m);
        let t = int_text(x as int);
        assert(t.drop_first() =~= nat_text(m));
    } else {
        lemma_nat_text_digits(x as nat);
        let t = nat_text(x as nat);
        assert(is_digit(t[0]));
    }
}

} // verus!
