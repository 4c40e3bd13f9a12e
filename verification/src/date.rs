//! Calendar dates as plain year, month and day numbers, with
//! proleptic-Gregorian validity, and the `dd-mm-yyyy` text form the
//! catalog uses.

use vstd::prelude::*;
use vstd::arithmetic::div_mod::{lemma_fundamental_div_mod, lemma_fundamental_div_mod_converse};
use crate::text::{
    all_digits, dec_digits, digit_char, digits_val, lemma_spec_split_len, push_char,
    push_decimal, spec_split, split_char,
};

verus! {

#[derive(Clone, Copy, Debug, PartialEq, Eq, Structural)]
pub struct PlainDate {
    pub year: i32,
    pub month: i32,
    pub day: i32,
}

pub open spec fn is_leap_year(y: int) -> bool {
    y % 4 == 0 && (y % 100 != 0 || y % 400 == 0)
}

pub open spec fn days_in_month(y: int, m: int) -> int {
    if m == 2 {
        if is_leap_year(y) {
            29
        } else {
            28
        }
    } else if m == 4 || m == 6 || m == 9 || m == 11 {
        30
    } else {
        31
    }
}

pub open spec fn valid_ymd(y: int, m: int, d: int) -> bool {
    1 <= m <= 12 && 1 <= d <= days_in_month(y, m)
}

/// Divisibility is indifferent to sign.
proof fn lemma_divides_neg(y: int, d: int)
    requires
        d > 0,
    ensures
        (y % d == 0) <==> ((-y) % d == 0),
{
    lemma_fundamental_div_mod(y, d);
    lemma_fundamental_div_mod(-y, d);
    if y % d == 0 {
        let q = y / d;
        assert(-y == (-q) * d + 0) by (nonlinear_arith)
            requires
                y == d * q + 0,
        ;
        lemma_fundamental_div_mod_converse(-y, d, -q, 0);
    }
    if (-y) % d == 0 {
        let q = (-y) / d;
        assert(y == (-q) * d + 0) by (nonlinear_arith)
            requires
                -y == d * q + 0,
        ;
        lemma_fundamental_div_mod_converse(y, d, -q, 0);
    }
}

impl PlainDate {
    pub open spec fn wf(self) -> bool {
        valid_ymd(self.year as int, self.month as int, self.day as int)
    }

    /// Whether the year, month and day name a real calendar date.
    pub fn valid(year: i32, month: i32, day: i32) -> (r: bool)
        ensures
            r == valid_ymd(year as int, month as int, day as int),
    {
        if month < 1 || month > 12 || day < 1 {
            return false;
        }
        let mag: i64 = if year >= 0 {
            year as i64
        } else {
            -(year as i64)
        };
        proof {
            lemma_divides_neg(year as int, 4);
            lemma_divides_neg(year as int, 100);
            lemma_divides_neg(year as int, 400);
        }
        let leap = mag % 4 == 0 && (mag % 100 != 0 || mag % 400 == 0);
        let dim: i32 = if month == 2 {
            if leap {
                29
            } else {
                28
            }
        } else if month == 4 || month == 6 || month == 9 || month == 11 {
            30
        } else {
            31
        };
        day <= dim
    }

    /// Builds a date only when it names a real calendar day.
    pub fn new(year: i32, month: i32, day: i32) -> (r: Option<PlainDate>)
        ensures
            r is Some <==> valid_ymd(year as int, month as int, day as int),
            r matches Some(d) ==> d == (PlainDate { year, month, day }),
    {
        if PlainDate::valid(year, month, day) {
            Some(PlainDate { year, month, day })
        } else {
            None
        }
    }
}

/// Two-digit zero-padded decimal text, for days and months.
pub open spec fn pad2(n: int) -> Seq<char>
    recommends
        0 <= n <= 99,
{
    if n <= 9 {
        seq!['0', digit_char(n)]
    } else {
        dec_digits(n)
    }
}

/// Four-digit zero-padded decimal text with a sign for negative
/// years.
pub open spec fn pad_year(y: int) -> Seq<char> {
    if y < 0 {
        seq!['-'].add(pad_year_mag(-y))
    } else {
        pad_year_mag(y)
    }
}

pub open spec fn pad_year_mag(y: int) -> Seq<char>
    recommends
        y >= 0,
{
    if y <= 9 {
        seq!['0', '0', '0'].add(dec_digits(y))
    } else if y <= 99 {
        seq!['0', '0'].add(dec_digits(y))
    } else if y <= 999 {
        seq!['0'].add(dec_digits(y))
    } else {
        dec_digits(y)
    }
}

/// The catalog's date text: `dd-mm-yyyy`.
pub open spec fn spec_format_dmy(d: PlainDate) -> Seq<char> {
    pad2(d.day as int).add(seq!['-']).add(pad2(d.month as int)).add(seq!['-']).add(
        pad_year(d.year as int),
    )
}

fn push_pad2(s: &mut String, n: i32)
    requires
        0 <= n <= 99,
    ensures
        final(s)@ == old(s)@.add(pad2(n as int)),
{
    if n <= 9 {
        push_char(s, '0');
        let c = ((48 + n) as u8) as char;
        push_char(s, c);
        proof {
            assert(old(s)@.push('0').push(c) =~= old(s)@.add(seq!['0', digit_char(n as int)]));
        }
    } else {
        push_decimal(s, n as u64);
    }
}

fn push_pad_year(s: &mut String, y: i32)
    ensures
        final(s)@ == old(s)@.add(pad_year(y as int)),
{
    if y < 0 {
        push_char(s, '-');
        let m: i64 = -(y as i64);
        let ghost mid = s@;
        push_pad_year_mag(s, m);
        proof {
            assert(mid =~= old(s)@.add(seq!['-']));
            assert(old(s)@.add(seq!['-']).add(pad_year_mag(-(y as int))) =~= old(s)@.add(
                pad_year(y as int),
            ));
        }
    } else {
        push_pad_year_mag(s, y as i64);
    }
}

fn push_pad_year_mag(s: &mut String, y: i64)
    requires
        y >= 0,
    ensures
        final(s)@ == old(s)@.add(pad_year_mag(y as int)),
{
    if y <= 9 {
        push_char(s, '0');
        push_char(s, '0');
        push_char(s, '0');
        let ghost mid = s@;
        push_decimal(s, y as u64);
        proof {
            assert(mid =~= old(s)@.add(seq!['0', '0', '0']));
            assert(old(s)@.add(seq!['0', '0', '0']).add(dec_digits(y as int)) =~= old(s)@.add(
                pad_year_mag(y as int),
            ));
        }
    } else if y <= 99 {
        push_char(s, '0');
        push_char(s, '0');
        let ghost mid = s@;
        push_decimal(s, y as u64);
        proof {
            assert(mid =~= old(s)@.add(seq!['0', '0']));
            assert(old(s)@.add(seq!['0', '0']).add(dec_digits(y as int)) =~= old(s)@.add(
                pad_year_mag(y as int),
            ));
        }
    } else if y <= 999 {
        push_char(s, '0');
        let ghost mid = s@;
        push_decimal(s, y as u64);
        proof {
            assert(mid =~= old(s)@.add(seq!['0']));
            assert(old(s)@.add(seq!['0']).add(dec_digits(y as int)) =~= old(s)@.add(
                pad_year_mag(y as int),
            ));
        }
    } else {
        push_decimal(s, y as u64);
    }
}

/// Writes a date as `dd-mm-yyyy`, zero-padded.
pub fn format_dmy(d: &PlainDate) -> (r: String)
    requires
        d.wf(),
    ensures
        r@ == spec_format_dmy(*d),
{
    let mut s = String::new();
    push_pad2(&mut s, d.day);
    push_char(&mut s, '-');
    push_pad2(&mut s, d.month);
    push_char(&mut s, '-');
    push_pad_year(&mut s, d.year);
    proof {
        assert(s@ =~= spec_format_dmy(*d));
    }
    s
}

/// What `parse_dmy` accepts: three `-`-separated fields, day and
/// month of one or two digits, year of one to four digits, naming a
/// real calendar date.
pub open spec fn spec_parse_dmy(s: Seq<char>) -> Option<PlainDate> {
    let ps = spec_split(s, '-');
    if ps.len() != 3 {
        None
    } else if !(all_digits(ps[0]) && 1 <= ps[0].len() <= 2) {
        None
    } else if !(all_digits(ps[1]) && 1 <= ps[1].len() <= 2) {
        None
    } else if !(all_digits(ps[2]) && 1 <= ps[2].len() <= 4) {
        None
    } else {
        let d = digits_val(ps[0]);
        let m = digits_val(ps[1]);
        let y = digits_val(ps[2]);
        if valid_ymd(y, m, d) {
            Some(PlainDate { year: y as i32, month: m as i32, day: d as i32 })
        } else {
            None
        }
    }
}

/// A digit string's value is bounded by ten to its length.
proof fn lemma_digits_val_bound(s: Seq<char>)
    requires
        all_digits(s),
    ensures
        0 <= digits_val(s) < ten_pow(s.len() as int),
    decreases s.len(),
{
    if s.len() > 0 {
        lemma_digits_val_bound(s.drop_last());
    }
}

/// A digit string of at most four digits is a small non-negative
/// integer.
proof fn lemma_short_digits_small(s: Seq<char>)
    requires
        all_digits(s),
        s.len() <= 4,
    ensures
        0 <= digits_val(s) <= 9999,
{
    lemma_digits_val_bound(s);
    assert(ten_pow(0) == 1 && ten_pow(1) == 10 && ten_pow(2) == 100 && ten_pow(3) == 1000
        && ten_pow(4) == 10000);
    let n = s.len() as int;
    assert(n == 0 || n == 1 || n == 2 || n == 3 || n == 4);
}

/// Reads `dd-mm-yyyy` text into a date, rejecting anything that does
/// not name a real calendar day.
pub fn parse_dmy(s: &str) -> (r: Option<PlainDate>)
    ensures
        r == spec_parse_dmy(s@),
        r matches Some(d) ==> d.wf(),
{
    proof {
        lemma_spec_split_len(s@, '-');
    }
    let parts = split_char(s, '-');
    if parts.len() != 3 {
        return None;
    }
    assert(parts.deep_view()[0] == parts@[0]@);
    assert(parts.deep_view()[1] == parts@[1]@);
    assert(parts.deep_view()[2] == parts@[2]@);
    let p0 = &parts[0];
    let p1 = &parts[1];
    let p2 = &parts[2];
    let l0 = p0.as_str().unicode_len();
    let l1 = p1.as_str().unicode_len();
    let l2 = p2.as_str().unicode_len();
    if l0 < 1 || l0 > 2 || l1 < 1 || l1 > 2 || l2 < 1 || l2 > 4 {
        return None;
    }
    let d = match parse_digits_small(p0.as_str()) {
        Some(v) => v,
        None => {
            return None;
        },
    };
    let m = match parse_digits_small(p1.as_str()) {
        Some(v) => v,
        None => {
            return None;
        },
    };
    let y = match parse_digits_small(p2.as_str()) {
        Some(v) => v,
        None => {
            return None;
        },
    };
    if PlainDate::valid(y, m, d) {
        Some(PlainDate { year: y, month: m, day: d })
    } else {
        None
    }
}

/// Powers of ten, for digit-count bounds.
spec fn ten_pow(n: int) -> int
    decreases n,
{
    if n <= 0 {
        1
    } else {
        10 * ten_pow(n - 1)
    }
}

/// Reads an unsigned digit string of at most four digits.
fn parse_digits_small(s: &str) -> (r: Option<i32>)
    requires
        1 <= s@.len() <= 4,
    ensures
        r is Some <==> all_digits(s@),
        r matches Some(v) ==> v as int == digits_val(s@) && 0 <= v <= 9999,
{
    let len = s.unicode_len();
    let mut acc: i32 = 0;
    let mut i: usize = 0;
    proof {
        assert(s@.take(0) =~= Seq::<char>::empty());
        assert(ten_pow(0) == 1 && ten_pow(1) == 10 && ten_pow(2) == 100 && ten_pow(3) == 1000
            && ten_pow(4) == 10000);
    }
    while i < len
        invariant
            i <= len,
            len == s@.len(),
            len <= 4,
            all_digits(s@.take(i as int)),
            acc as int == digits_val(s@.take(i as int)),
            0 <= acc,
            acc < ten_pow(i as int),
            ten_pow(0) == 1 && ten_pow(1) == 10 && ten_pow(2) == 100 && ten_pow(3) == 1000
                && ten_pow(4) == 10000,
        decreases len - i,
    {
        let c = s.get_char(i);
        let cv = c as u32;
        if cv < 48 || cv > 57 {
            proof {
                assert(!crate::text::is_digit_char(s@[i as int]));
            }
            return None;
        }
        let d = (cv - 48) as i32;
        proof {
            assert(s@.take(i + 1).drop_last() =~= s@.take(i as int));
            assert(s@.take(i + 1).last() == s@[i as int]);
            assert(all_digits(s@.take(i + 1)));
        }
        acc = acc * 10 + d;
        i = i + 1;
    }
    proof {
        assert(s@.take(len as int) =~= s@);
    }
    Some(acc)
}

} // verus!
