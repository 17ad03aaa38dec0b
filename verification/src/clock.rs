//! The local wall-clock time and its `YYYY-MM-DD HH:MM:SS` rendering, as the
//! `/test` command stamps it.
use chrono::{Datelike, Timelike};
use vstd::prelude::*;
use crate::numbers::{all_digits, digit, digit_char, digits_value, is_digit, lemma_nat_text_digits, nat_text, push_u64_text};
use crate::text::string_of;

verus! {

/// A local date and time, field by field.
#[derive(Clone, Copy, Debug)]
pub struct LocalTime {
    pub year: i32,
    /// 1..=12.
    pub month: u32,
    /// 1..=31.
    pub day: u32,
    /// 0..=23.
    pub hour: u32,
    /// 0..=59.
    pub minute: u32,
    /// 0..=59.
    pub second: u32,
    /// Below 2_000_000_000; a value of 1_000_000_000 or more marks a leap second.
    pub nanosecond: u32,
}

/// The ranges that every field of a local time keeps.
pub open spec fn valid_local_time(t: LocalTime) -> bool {
    &&& 1 <= t.month <= 12
    &&& 1 <= t.day <= 31
    &&& t.hour < 24
    &&& t.minute < 60
    &&& t.second < 60
    &&& t.nanosecond < 2_000_000_000
}

/// `n` (below 100) as two digits, zero-padded.
pub open spec fn two_digits(n: int) -> Seq<char> {
    seq![digit_char(n / 10), digit_char(n % 10)]
}

/// `n` (below 10000) as four digits, zero-padded.
pub open spec fn four_digits(n: int) -> Seq<char> {
    seq![digit_char(n / 1000), digit_char((n / 100) % 10), digit_char((n / 10) % 10), digit_char(n % 10)]
}

/// A year as `%Y` writes it: four digits for 0..=9999; otherwise a sign
/// followed by the magnitude, zero-padded to four digits.
pub open spec fn year_text(y: int) -> Seq<char> {
    if 0 <= y <= 9999 {
        four_digits(y)
    } else {
        let m: nat = if y < 0 { (-y) as nat } else { y as nat };
        let sign: char = if y < 0 { '-' } else { '+' };
        seq![sign] + if m < 10000 { four_digits(m as int) } else { nat_text(m) }
    }
}

/// The second that is shown: 60 during a leap second.
pub open spec fn shown_second(t: LocalTime) -> int {
    t.second + t.nanosecond / 1_000_000_000
}

/// `t` as `YYYY-MM-DD HH:MM:SS`.
pub open spec fn timestamp(t: LocalTime) -> Seq<char> {
    year_text(t.year as int) + seq!['-'] + two_digits(t.month as int) + seq!['-'] + two_digits(
        t.day as int,
    ) + seq![' '] + two_digits(t.hour as int) + seq![':'] + two_digits(t.minute as int) + seq![':']
        + two_digits(shown_second(t))
}

fn push_two_digits(out: &mut Vec<char>, n: u32)
    requires
        n < 100,
    ensures
        final(out)@ == old(out)@ + two_digits(n as int),
{
    out.push(digit((n / 10) as u64));
    out.push(digit((n % 10) as u64));
    assert(final(out)@ =~= old(out)@ + two_digits(n as int));
}

fn push_four_digits(out: &mut Vec<char>, n: u64)
    requires
        n < 10000,
    ensures
        final(out)@ == old(out)@ + four_digits(n as int),
{
    out.push(digit(n / 1000));
    out.push(digit((n / 100) % 10));
    out.push(digit((n / 10) % 10));
    out.push(digit(n % 10));
    assert(final(out)@ =~= old(out)@ + four_digits(n as int));
}

fn push_year(out: &mut Vec<char>, y: i32)
    ensures
        final(out)@ == old(out)@ + year_text(y as int),
{
    if 0 <= y && y <= 9999 {
        push_four_digits(out, y as u64);
    } else {
        let m: u64 = if y < 0 { (0i64 - y as i64) as u64 } else { y as u64 };
        if y < 0 {
            out.push('-');
        } else {
            out.push('+');
        }
        let ghost signed = out@;
        if m < 10000 {
            push_four_digits(out, m);
        } else {
            push_u64_text(out, m);
        }
        assert(signed =~= old(out)@ + seq![if y < 0 { '-' } else { '+' }]);
        assert(final(out)@ =~= old(out)@ + year_text(y as int));
    }
}

/// `t` as `YYYY-MM-DD HH:MM:SS`, the way `%Y-%m-%d %H:%M:%S` renders it.
pub fn timestamp_text(t: &LocalTime) -> (r: String)
    requires
        valid_local_time(*t),
    ensures
        r@ == timestamp(*t),
{
    let mut cs: Vec<char> = Vec::new();
    push_year(&mut cs, t.year);
    cs.push('-');
    push_two_digits(&mut cs, t.month);
    cs.push('-');
    push_two_digits(&mut cs, t.day);
    cs.push(' ');
    push_two_digits(&mut cs, t.hour);
    cs.push(':');
    push_two_digits(&mut cs, t.minute);
    cs.push(':');
    push_two_digits(&mut cs, t.second + t.nanosecond / 1_000_000_000);
    assert(cs@ =~= timestamp(*t));
    string_of(&cs)
}

/// A reading of the local clock. Its field is private and only
/// [`local_now`] makes one, so a value of this type holds a time that the
/// clock gave.
pub struct ClockReading {
    reading: LocalTime,
}

impl ClockReading {
    /// The local time that was read.
    pub closed spec fn time(self) -> LocalTime {
        self.reading
    }

    /// The local time that was read.
    pub fn local_time(&self) -> (t: LocalTime)
        ensures
            t == self.time(),
    {
        self.reading
    }
}

/// Reads the local clock (`chrono::Local::now()`, read through `Datelike`
/// and `Timelike`). Which time it is depends on the clock and the time
/// zone; what is claimed is only the range of each field that chrono
/// documents for those accessors.
#[verifier::external_body]
pub(crate) fn local_now() -> (r: ClockReading)
    ensures
        valid_local_time(r.time()),
{
    let now = chrono::Local::now();
    ClockReading {
        reading: LocalTime {
            year: now.year(),
            month: now.month(),
            day: now.day(),
            hour: now.hour(),
            minute: now.minute(),
            second: now.second(),
            nanosecond: now.nanosecond(),
        },
    }
}

// ---------------------------------------------------------------------------
// Laws
// ---------------------------------------------------------------------------

proof fn lemma_two_digits(n: int)
    requires
        0 <= n < 100,
    ensures
        two_digits(n).len() == 2,
        all_digits(two_digits(n)),
        digits_value(two_digits(n)) == n,
{
    let s = two_digits(n);
    let a = digit_char(n / 10);
    let b = digit_char(n % 10);
    assert(a as int == n / 10 + 48);
    assert(b as int == n % 10 + 48);
    assert(s.drop_last() =~= seq![a]);
    assert(seq![a].drop_last() =~= Seq::<char>::empty());
    assert(digits_value(Seq::<char>::empty()) == 0);
    assert(seq![a].last() == a);
    assert(digits_value(seq![a]) == n / 10);
    assert(is_digit(s[0]) && is_digit(s[1]));
}

proof fn lemma_four_digits(n: int)
    requires
        0 <= n < 10000,
    ensures
        four_digits(n).len() == 4,
        all_digits(four_digits(n)),
        digits_value(four_digits(n)) == n,
{
    let s = four_digits(n);
    let a = digit_char(n / 1000);
    let b = digit_char((n / 100) % 10);
    let c = digit_char((n / 10) % 10);
    let d = digit_char(n % 10);
    assert(a as int == n / 1000 + 48);
    assert(b as int == (n / 100) % 10 + 48);
    assert(c as int == (n / 10) % 10 + 48);
    assert(d as int == n % 10 + 48);
    assert(s.drop_last() =~= seq![a, b, c]);
    assert(seq![a, b, c].drop_last() =~= seq![a, b]);
    assert(seq![a, b].drop_last() =~= seq![a]);
    assert(seq![a].drop_last() =~= Seq::<char>::empty());
    assert(digits_value(Seq::<char>::empty()) == 0);
    assert(seq![a].last() == a);
    assert(digits_value(seq![a]) == n / 1000);
    assert(digits_value(seq![a, b]) == n / 100);
    assert(digits_value(seq![a, b, c]) == n / 10);
    assert(is_digit(s[0]) && is_digit(s[1]) && is_digit(s[2]) && is_digit(s[3]));
}

/// A stamp reads back as the time it shows: for a year of four digits it is
/// 19 characters, with `-`, `-`, a space, `:` and `:` at places 4, 7, 10, 13
/// and 16, and between them runs of digits that denote, in order, the year,
/// month, day, hour, minute and shown second of `t`.
pub proof fn law_timestamp_reads_back(t: LocalTime)
    requires
        valid_local_time(t),
        0 <= t.year <= 9999,
    ensures
        timestamp(t).len() == 19,
        timestamp(t)[4] == '-' && timestamp(t)[7] == '-' && timestamp(t)[10] == ' ',
        timestamp(t)[13] == ':' && timestamp(t)[16] == ':',
        all_digits(timestamp(t).subrange(0, 4)) && digits_value(timestamp(t).subrange(0, 4))
            == t.year,
        all_digits(timestamp(t).subrange(5, 7)) && digits_value(timestamp(t).subrange(5, 7))
            == t.month,
        all_digits(timestamp(t).subrange(8, 10)) && digits_value(timestamp(t).subrange(8, 10))
            == t.day,
        all_digits(timestamp(t).subrange(11, 13)) && digits_value(timestamp(t).subrange(11, 13))
            == t.hour,
        all_digits(timestamp(t).subrange(14, 16)) && digits_value(timestamp(t).subrange(14, 16))
            == t.minute,
        all_digits(timestamp(t).subrange(17, 19)) && digits_value(timestamp(t).subrange(17, 19))
            == shown_second(t),
{
    let s = timestamp(t);
    lemma_four_digits(t.year as int);
    lemma_two_digits(t.month as int);
    lemma_two_digits(t.day as int);
    lemma_two_digits(t.hour as int);
    lemma_two_digits(t.minute as int);
    lemma_two_digits(shown_second(t));
    assert(s.subrange(0, 4) =~= four_digits(t.year as int));
    assert(s.subrange(5, 7) =~= two_digits(t.month as int));
    assert(s.subrange(8, 10) =~= two_digits(t.day as int));
    assert(s.subrange(11, 13) =~= two_digits(t.hour as int));
    assert(s.subrange(14, 16) =~= two_digits(t.minute as int));
    assert(s.subrange(17, 19) =~= two_digits(shown_second(t)));
}

/// A year outside 0..=9999 is written as its sign (`-` or `+`) followed by
/// digits that denote its magnitude, at least four of them.
pub proof fn law_signed_year_reads_back(y: int)
    requires
        !(0 <= y <= 9999),
    ensures
        year_text(y).len() >= 5,
        year_text(y)[0] == (if y < 0 { '-' } else { '+' }),
        all_digits(year_text(y).drop_first()),
        digits_value(year_text(y).drop_first()) == (if y < 0 { -y } else { y }),
{
    let m: nat = if y < 0 { (-y) as nat } else { y as nat };
    let sign: char = if y < 0 { '-' } else { '+' };
    if m < 10000 {
        lemma_four_digits(m as int);
        assert(year_text(y).drop_first() =~= four_digits(m as int));
    } else {
        lemma_nat_text_digits(m);
        assert(year_text(y).drop_first() =~= nat_text(m));
        lemma_short_digits_are_small(nat_text(m));
    }
}

/// Fewer than four digits denote less than 10000.
proof fn lemma_short_digits_are_small(s: Seq<char>)
    requires
        all_digits(s),
    ensures
        s.len() <= 1 ==> digits_value(s) < 10,
        s.len() <= 2 ==> digits_value(s) < 100,
        s.len() <= 3 ==> digits_value(s) < 1000,
        s.len() <= 4 ==> digits_value(s) < 10000,
    decreases s.len(),
{
    if s.len() > 0 {
        let p = s.drop_last();
        assert(all_digits(p)) by {
            assert forall|i: int| 0 <= i < p.len() implies is_digit(#[trigger] p[i]) by {
                assert(p[i] == s[i]);
            }
        }
        lemma_short_digits_are_small(p);
        assert(is_digit(s[s.len() - 1]));
    }
}

} // verus!
