//! Character-level text helpers: splitting on a separator and parsing
//! decimal integers, with exact mathematical specifications.

use vstd::prelude::*;

verus! {

/// The pieces of `s` between occurrences of `sep`, in order.  A string
/// with no separator yields one piece; every separator adds one piece,
/// so the result is never empty.
pub open spec fn spec_split(s: Seq<char>, sep: char) -> Seq<Seq<char>>
    decreases s.len(),
{
    if s.len() == 0 {
        seq![Seq::<char>::empty()]
    } else if s[0] == sep {
        seq![Seq::<char>::empty()].add(spec_split(s.skip(1), sep))
    } else {
        let rest = spec_split(s.skip(1), sep);
        seq![seq![s[0]].add(rest[0])].add(rest.skip(1))
    }
}

pub proof fn lemma_spec_split_len(s: Seq<char>, sep: char)
    ensures
        spec_split(s, sep).len() >= 1,
    decreases s.len(),
{
    if s.len() != 0 {
        lemma_spec_split_len(s.skip(1), sep);
    }
}

/// The first piece of a split, extended on the left by `x`.
pub open spec fn prepend_first(x: Seq<char>, ss: Seq<Seq<char>>) -> Seq<Seq<char>>
    recommends
        ss.len() >= 1,
{
    seq![x.add(ss[0])].add(ss.skip(1))
}

/// Relies on std's `String::push`: appends one character at the end.
#[verifier::external_body]
pub(crate) fn push_char(s: &mut String, c: char)
    ensures
        final(s)@ == old(s)@.push(c),
{
    s.push(c);
}

/// Splits `s` at every occurrence of `sep`, as `str::split` does.
pub fn split_char(s: &str, sep: char) -> (r: Vec<String>)
    ensures
        r.deep_view() == spec_split(s@, sep),
{
    let len = s.unicode_len();
    let mut pieces: Vec<String> = Vec::new();
    let mut cur = String::new();
    let mut i: usize = 0;
    proof {
        lemma_spec_split_len(s@, sep);
        assert(s@.skip(0) =~= s@);
        assert(spec_split(s@, sep) =~~= pieces.deep_view().add(
            prepend_first(cur@, spec_split(s@.skip(0), sep)),
        ));
    }
    while i < len
        invariant
            i <= len,
            len == s@.len(),
            spec_split(s@, sep) =~~= pieces.deep_view().add(
                prepend_first(cur@, spec_split(s@.skip(i as int), sep)),
            ),
        decreases len - i,
    {
        proof {
            lemma_spec_split_len(s@.skip(i as int), sep);
            lemma_spec_split_len(s@.skip(i + 1), sep);
            assert(s@.skip(i as int)[0] == s@[i as int]);
            assert(s@.skip(i as int).skip(1) =~= s@.skip(i + 1));
        }
        let c = s.get_char(i);
        let ghost rest = spec_split(s@.skip(i + 1), sep);
        if c == sep {
            proof {
                assert(spec_split(s@.skip(i as int), sep) =~~= seq![
                    Seq::<char>::empty(),
                ].add(rest));
            }
            let ghost old_pieces = pieces.deep_view();
            let ghost old_cur = cur@;
            pieces.push(cur);
            cur = String::new();
            proof {
                assert(pieces.deep_view() =~~= old_pieces.push(old_cur));
                assert(prepend_first(old_cur, seq![Seq::<char>::empty()].add(rest))
                    =~~= seq![old_cur].add(prepend_first(cur@, rest)));
                assert(spec_split(s@, sep) =~~= pieces.deep_view().add(
                    prepend_first(cur@, rest),
                ));
            }
        } else {
            proof {
                assert(spec_split(s@.skip(i as int), sep) =~~= prepend_first(
                    seq![s@[i as int]],
                    rest,
                ));
            }
            let ghost old_cur = cur@;
            push_char(&mut cur, c);
            proof {
                assert(prepend_first(old_cur, prepend_first(seq![s@[i as int]], rest))
                    =~~= prepend_first(cur@, rest));
                assert(spec_split(s@, sep) =~~= pieces.deep_view().add(
                    prepend_first(cur@, rest),
                ));
            }
        }
        i = i + 1;
    }
    proof {
        assert(s@.skip(len as int) =~= Seq::<char>::empty());
        assert(spec_split(Seq::<char>::empty(), sep) =~~= seq![Seq::<char>::empty()]);
    }
    let ghost old_pieces = pieces.deep_view();
    let ghost last = cur@;
    pieces.push(cur);
    proof {
        assert(prepend_first(last, seq![Seq::<char>::empty()]) =~~= seq![last]);
        assert(pieces.deep_view() =~~= old_pieces.push(last));
        assert(pieces.deep_view() =~~= spec_split(s@, sep));
    }
    pieces
}

/// No character of `s` is `sep`.
pub open spec fn sep_free(s: Seq<char>, sep: char) -> bool {
    forall|i: int| 0 <= i < s.len() ==> s[i] != sep
}

/// A separator-free string splits into itself alone.
pub proof fn lemma_split_no_sep(p: Seq<char>, sep: char)
    requires
        sep_free(p, sep),
    ensures
        spec_split(p, sep) =~~= seq![p],
    decreases p.len(),
{
    if p.len() > 0 {
        assert(sep_free(p.skip(1), sep)) by {
            assert(forall|i: int| 0 <= i < p.skip(1).len() ==> p.skip(1)[i] == p[i + 1]);
        }
        lemma_split_no_sep(p.skip(1), sep);
        assert(seq![p[0]].add(p.skip(1)) =~= p);
    }
}

/// Splitting cuts at the first separator: a separator-free piece,
/// the separator, and the rest split on their own.
pub proof fn lemma_split_concat(p: Seq<char>, rest: Seq<char>, sep: char)
    requires
        sep_free(p, sep),
    ensures
        spec_split(p.add(seq![sep]).add(rest), sep) =~~= seq![p].add(spec_split(rest, sep)),
    decreases p.len(),
{
    let whole = p.add(seq![sep]).add(rest);
    lemma_spec_split_len(rest, sep);
    if p.len() == 0 {
        assert(whole[0] == sep);
        assert(whole.skip(1) =~= rest);
    } else {
        assert(whole[0] == p[0]);
        assert(whole[0] != sep);
        assert(sep_free(p.skip(1), sep)) by {
            assert(forall|i: int| 0 <= i < p.skip(1).len() ==> p.skip(1)[i] == p[i + 1]);
        }
        lemma_split_concat(p.skip(1), rest, sep);
        assert(whole.skip(1) =~= p.skip(1).add(seq![sep]).add(rest));
        let inner = spec_split(whole.skip(1), sep);
        assert(inner =~~= seq![p.skip(1)].add(spec_split(rest, sep)));
        assert(seq![p[0]].add(inner[0]) =~= p);
        assert(inner.skip(1) =~= spec_split(rest, sep));
    }
}

pub open spec fn is_digit_char(c: char) -> bool {
    48 <= c as int <= 57
}

pub open spec fn digit_of(c: char) -> int {
    c as int - 48
}

pub open spec fn all_digits(s: Seq<char>) -> bool {
    forall|i: int| 0 <= i < s.len() ==> is_digit_char(s[i])
}

/// Value of a digit string read most-significant first.
pub open spec fn digits_val(s: Seq<char>) -> int
    decreases s.len(),
{
    if s.len() == 0 {
        0
    } else {
        digits_val(s.drop_last()) * 10 + digit_of(s.last())
    }
}

/// Decimal integer text as `i32::from_str` accepts it: an optional
/// sign followed by one or more ASCII digits.
pub open spec fn is_int_text(s: Seq<char>) -> bool {
    if s.len() == 0 {
        false
    } else if s[0] == '-' || s[0] == '+' {
        s.len() > 1 && all_digits(s.skip(1))
    } else {
        all_digits(s)
    }
}

pub open spec fn int_text_val(s: Seq<char>) -> int
    recommends
        is_int_text(s),
{
    if s.len() > 0 && s[0] == '-' {
        -digits_val(s.skip(1))
    } else if s.len() > 0 && s[0] == '+' {
        digits_val(s.skip(1))
    } else {
        digits_val(s)
    }
}

/// Integer text whose value also fits in an `i32`.
pub open spec fn is_i32_text(s: Seq<char>) -> bool {
    is_int_text(s) && i32::MIN <= int_text_val(s) <= i32::MAX
}

pub proof fn lemma_digits_val_nonneg(s: Seq<char>)
    requires
        all_digits(s),
    ensures
        digits_val(s) >= 0,
    decreases s.len(),
{
    if s.len() > 0 {
        lemma_digits_val_nonneg(s.drop_last());
    }
}

pub open spec fn digit_char(d: int) -> char
    recommends
        0 <= d <= 9,
{
    ((48 + d) as u8) as char
}

/// Decimal text of a non-negative number, most significant digit
/// first, without leading zeros.
pub open spec fn dec_digits(n: int) -> Seq<char>
    recommends
        n >= 0,
    decreases n,
{
    if n <= 9 {
        seq![digit_char(n)]
    } else {
        dec_digits(n / 10).push(digit_char(n % 10))
    }
}

/// Decimal text of any number: a leading `-` for negative values.
pub open spec fn dec_int(n: int) -> Seq<char> {
    if n < 0 {
        seq!['-'].add(dec_digits(-n))
    } else {
        dec_digits(n)
    }
}

pub proof fn lemma_dec_digits_are_digits(n: int)
    requires
        n >= 0,
    ensures
        forall|i: int| 0 <= i < dec_digits(n).len() ==> is_digit_char(#[trigger] dec_digits(n)[i]),
    decreases n,
{
    if n <= 9 {
        assert(digit_char(n) as int == 48 + n);
        assert(dec_digits(n) =~= seq![digit_char(n)]);
    } else {
        lemma_dec_digits_are_digits(n / 10);
        assert(digit_char(n % 10) as int == 48 + n % 10);
        assert forall|i: int| 0 <= i < dec_digits(n).len() implies is_digit_char(
            #[trigger] dec_digits(n)[i],
        ) by {
            if i < dec_digits(n / 10).len() {
                assert(dec_digits(n)[i] == dec_digits(n / 10)[i]);
            } else {
                assert(dec_digits(n)[i] == digit_char(n % 10));
            }
        }
    }
}

/// Decimal text never holds a path separator.
pub proof fn lemma_dec_int_no_slash(n: int)
    ensures
        forall|i: int| 0 <= i < dec_int(n).len() ==> #[trigger] dec_int(n)[i] != '/',
{
    if n < 0 {
        lemma_dec_digits_are_digits(-n);
        assert(forall|i: int|
            1 <= i < dec_int(n).len() ==> #[trigger] dec_int(n)[i] == dec_digits(-n)[i - 1]);
    } else {
        lemma_dec_digits_are_digits(n);
    }
}

/// Reading decimal text back recovers the number it was written
/// from.
pub proof fn lemma_dec_digits_val(n: int)
    requires
        n >= 0,
    ensures
        digits_val(dec_digits(n)) == n,
        dec_digits(n).len() >= 1,
    decreases n,
{
    if n <= 9 {
        assert(digit_char(n) as int == 48 + n);
        assert(dec_digits(n) =~= seq![digit_char(n)]);
        assert(dec_digits(n).drop_last() =~= Seq::<char>::empty());
        assert(digits_val(dec_digits(n)) == digits_val(Seq::<char>::empty()) * 10 + digit_of(
            digit_char(n),
        ));
        assert(digit_of(digit_char(n)) == n);
    } else {
        lemma_dec_digits_val(n / 10);
        assert(digit_char(n % 10) as int == 48 + n % 10);
        assert(dec_digits(n) == dec_digits(n / 10).push(digit_char(n % 10)));
        assert(dec_digits(n).drop_last() =~= dec_digits(n / 10));
        assert(dec_digits(n).last() == digit_char(n % 10));
        assert(digits_val(dec_digits(n)) == digits_val(dec_digits(n / 10)) * 10 + digit_of(
            digit_char(n % 10),
        ));
        assert(n / 10 * 10 + n % 10 == n);
    }
}

/// Decimal text holds only digits and a possible leading sign, and
/// reads back as the number it was written from.
pub proof fn lemma_dec_int_round_trip(n: int)
    requires
        i32::MIN <= n <= i32::MAX,
    ensures
        is_i32_text(dec_int(n)),
        int_text_val(dec_int(n)) == n,
        forall|i: int|
            0 <= i < dec_int(n).len() ==> (#[trigger] dec_int(n)[i] == '-' || is_digit_char(
                dec_int(n)[i],
            )),
{
    if n < 0 {
        lemma_dec_digits_val(-n);
        lemma_dec_digits_are_digits(-n);
        assert(dec_int(n)[0] == '-');
        assert(dec_int(n).skip(1) =~= dec_digits(-n));
        assert(forall|i: int|
            1 <= i < dec_int(n).len() ==> #[trigger] dec_int(n)[i] == dec_digits(-n)[i - 1]);
    } else {
        lemma_dec_digits_val(n);
        lemma_dec_digits_are_digits(n);
        assert(dec_int(n) == dec_digits(n));
        assert(is_digit_char(dec_int(n)[0]));
        assert(dec_int(n)[0] != '-' && dec_int(n)[0] != '+');
    }
}

/// Appends the decimal digits of `n` to `s`.
pub fn push_decimal(s: &mut String, n: u64)
    ensures
        final(s)@ == old(s)@.add(dec_digits(n as int)),
    decreases n,
{
    if n <= 9 {
        let c = ((48 + n) as u8) as char;
        push_char(s, c);
        proof {
            assert(old(s)@.push(c) =~= old(s)@.add(seq![c]));
        }
    } else {
        push_decimal(s, n / 10);
        let d = n % 10;
        let c = ((48 + d) as u8) as char;
        push_char(s, c);
        proof {
            assert(old(s)@.add(dec_digits((n / 10) as int)).push(c) =~= old(s)@.add(
                dec_digits(n as int),
            ));
        }
    }
}

/// Appends the decimal text of `n`, with a `-` sign where negative.
pub fn push_decimal_i64(s: &mut String, n: i64)
    ensures
        final(s)@ == old(s)@.add(dec_int(n as int)),
{
    if n < 0 {
        push_char(s, '-');
        let m: u64 = ((-(n + 1)) as u64) + 1;
        let ghost mid = s@;
        push_decimal(s, m);
        proof {
            assert(mid =~= old(s)@.push('-'));
            assert(old(s)@.push('-').add(dec_digits(m as int)) =~= old(s)@.add(
                seq!['-'].add(dec_digits(-(n as int))),
            ));
        }
    } else {
        push_decimal(s, n as u64);
    }
}

/// Parses a decimal integer exactly as `i32::from_str` does: `Some`
/// for well-formed text whose value fits in an `i32`, `None` otherwise.
pub fn parse_i32(s: &str) -> (r: Option<i32>)
    ensures
        r is Some ==> is_i32_text(s@) && r->0 as int == int_text_val(s@),
        r is None ==> !is_i32_text(s@),
{
    let len = s.unicode_len();
    if len == 0 {
        return None;
    }
    let first = s.get_char(0);
    let neg = first == '-';
    let start: usize = if neg || first == '+' {
        1
    } else {
        0
    };
    if start == 1 && len == 1 {
        return None;
    }
    let ghost digits = s@.skip(start as int);
    proof {
        if start == 0 {
            assert(digits =~= s@);
        }
        assert(digits.take(0) =~= Seq::<char>::empty());
    }
    let mut acc: i64 = 0;
    let mut over = false;
    let mut i: usize = start;
    while i < len
        invariant
            start <= i <= len,
            len == s@.len(),
            start == 1 <==> (s@[0] == '-' || s@[0] == '+'),
            start <= 1,
            neg == (s@[0] == '-'),
            digits == s@.skip(start as int),
            digits.len() == len - start,
            all_digits(digits.take(i - start)),
            !over ==> 0 <= acc <= 0x8000_0000i64,
            !over ==> acc as int == digits_val(digits.take(i - start)),
            over ==> digits_val(digits.take(i - start)) > 0x8000_0000,
        decreases len - i,
    {
        proof {
            assert(digits[i - start] == s@[i as int]);
        }
        let c = s.get_char(i);
        let cv = c as u32;
        if cv < 48 || cv > 57 {
            proof {
                assert(!is_digit_char(digits[i - start]));
                assert(!all_digits(digits));
            }
            return None;
        }
        let d: i64 = (cv - 48) as i64;
        proof {
            assert(digits.take(i + 1 - start).drop_last() =~= digits.take(i - start));
            assert(digits.take(i + 1 - start).last() == digits[i - start]);
            assert(digit_of(digits[i - start]) == d as int);
            assert(digits_val(digits.take(i + 1 - start)) == digits_val(digits.take(i - start))
                * 10 + d);
            assert(all_digits(digits.take(i + 1 - start)));
        }
        if over {
            proof {
                lemma_digits_val_nonneg(digits.take(i - start));
            }
        } else {
            let n = acc * 10 + d;
            if n > 0x8000_0000i64 {
                over = true;
            } else {
                acc = n;
            }
        }
        i = i + 1;
    }
    proof {
        assert(digits.take(len - start) =~= digits);
        assert(all_digits(digits));
        if start == 1 {
            assert(s@.skip(1) == digits);
            assert(s@.len() > 1);
        }
        assert(is_int_text(s@));
    }
    if over {
        proof {
            assert(digits_val(digits) > 0x8000_0000);
            if neg {
                assert(int_text_val(s@) < i32::MIN);
            } else {
                assert(int_text_val(s@) > i32::MAX);
            }
        }
        return None;
    }
    if neg {
        Some((-acc) as i32)
    } else {
        if acc > 0x7fff_ffffi64 {
            return None;
        }
        Some(acc as i32)
    }
}

/// Decimal integer text as `u64::from_str` accepts it: an optional
/// `+` followed by one or more ASCII digits, fitting a `u64`.
pub open spec fn is_u64_text(s: Seq<char>) -> bool {
    if s.len() == 0 {
        false
    } else if s[0] == '+' {
        s.len() > 1 && all_digits(s.skip(1)) && digits_val(s.skip(1)) <= u64::MAX
    } else {
        all_digits(s) && digits_val(s) <= u64::MAX
    }
}

pub open spec fn u64_text_val(s: Seq<char>) -> int
    recommends
        is_u64_text(s),
{
    if s.len() > 0 && s[0] == '+' {
        digits_val(s.skip(1))
    } else {
        digits_val(s)
    }
}

/// Parses a decimal integer exactly as `u64::from_str` does.
pub fn parse_u64(s: &str) -> (r: Option<u64>)
    ensures
        r is Some ==> is_u64_text(s@) && r->0 as int == u64_text_val(s@),
        r is None ==> !is_u64_text(s@),
{
    let len = s.unicode_len();
    if len == 0 {
        return None;
    }
    let first = s.get_char(0);
    let start: usize = if first == '+' {
        1
    } else {
        0
    };
    if start == 1 && len == 1 {
        return None;
    }
    let ghost digits = s@.skip(start as int);
    proof {
        if start == 0 {
            assert(digits =~= s@);
        }
        assert(digits.take(0) =~= Seq::<char>::empty());
    }
    let mut acc: u64 = 0;
    let mut over = false;
    let mut i: usize = start;
    while i < len
        invariant
            start <= i <= len,
            len == s@.len(),
            start == 1 <==> s@[0] == '+',
            start <= 1,
            digits == s@.skip(start as int),
            digits.len() == len - start,
            all_digits(digits.take(i - start)),
            !over ==> acc as int == digits_val(digits.take(i - start)),
            over ==> digits_val(digits.take(i - start)) > u64::MAX,
        decreases len - i,
    {
        proof {
            assert(digits[i - start] == s@[i as int]);
        }
        let c = s.get_char(i);
        let cv = c as u32;
        if cv < 48 || cv > 57 {
            proof {
                assert(!is_digit_char(digits[i - start]));
                assert(!all_digits(digits));
            }
            return None;
        }
        let d: u64 = (cv - 48) as u64;
        proof {
            assert(digits.take(i + 1 - start).drop_last() =~= digits.take(i - start));
            assert(digits.take(i + 1 - start).last() == digits[i - start]);
            assert(digit_of(digits[i - start]) == d as int);
            assert(digits_val(digits.take(i + 1 - start)) == digits_val(digits.take(i - start))
                * 10 + d);
            assert(all_digits(digits.take(i + 1 - start)));
        }
        if over {
            proof {
                lemma_digits_val_nonneg(digits.take(i - start));
            }
        } else {
            let n = match acc.checked_mul(10) {
                Some(m) => m.checked_add(d),
                None => None,
            };
            match n {
                Some(v) => {
                    acc = v;
                },
                None => {
                    over = true;
                },
            }
        }
        i = i + 1;
    }
    proof {
        assert(digits.take(len - start) =~= digits);
        assert(all_digits(digits));
        if start == 1 {
            assert(s@.skip(1) == digits);
        }
    }
    if over {
        return None;
    }
    Some(acc)
}

} // verus!
