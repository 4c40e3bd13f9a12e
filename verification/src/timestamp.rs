//! Fixed-precision `H:M:S.ms` instants used as clip boundaries and as
//! the unit of progress computation.  Components are kept as parsed;
//! subtraction is component-wise by design and is never normalized.

use vstd::prelude::*;
use crate::text::{
    dec_int, is_digit_char, is_i32_text, int_text_val, lemma_dec_int_round_trip,
    lemma_spec_split_len, lemma_split_concat, lemma_split_no_sep, parse_i32, push_char,
    push_decimal_i64, sep_free, spec_split, split_char,
};

verus! {

#[derive(Clone, Copy, Debug, PartialEq, Eq, Structural)]
pub struct Timestamp {
    pub hours: i32,
    pub minutes: i32,
    pub seconds: i32,
    pub millis: i32,
}

impl Default for Timestamp {
    /// The zero instant, `0:0:0.0`.
    fn default() -> (r: Self)
        ensures
            r == Timestamp::zero(),
    {
        Timestamp { hours: 0, minutes: 0, seconds: 0, millis: 0 }
    }
}

impl Timestamp {
    pub open spec fn zero() -> Timestamp {
        Timestamp { hours: 0, minutes: 0, seconds: 0, millis: 0 }
    }

    /// The instant in whole seconds, ignoring milliseconds.
    pub open spec fn spec_total_seconds(self) -> int {
        3600 * self.hours + 60 * self.minutes + self.seconds
    }

    /// The instant in milliseconds; the unit progress ratios are
    /// computed in.
    pub open spec fn spec_total_millis(self) -> int {
        1000 * self.spec_total_seconds() + self.millis
    }

    pub open spec fn seconds_in_i32(self) -> bool {
        i32::MIN <= self.spec_total_seconds() <= i32::MAX
    }

    pub fn to_seconds(&self) -> (r: i32)
        requires
            self.seconds_in_i32(),
        ensures
            r == self.spec_total_seconds(),
    {
        (3600i64 * self.hours as i64 + 60i64 * self.minutes as i64 + self.seconds as i64) as i32
    }

    /// The instant in milliseconds; always exact, since the widest
    /// possible components still fit a 64-bit count.
    pub fn total_millis(&self) -> (r: i64)
        ensures
            r == self.spec_total_millis(),
    {
        1000i64 * (3600i64 * self.hours as i64 + 60i64 * self.minutes as i64
            + self.seconds as i64) + self.millis as i64
    }

    /// Components bounded enough that second totals, differences and
    /// progress arithmetic all stay within machine range.
    pub open spec fn sane(self) -> bool {
        &&& 0 <= self.hours <= 500_000
        &&& 0 <= self.minutes <= 500_000
        &&& 0 <= self.seconds <= 500_000
        &&& 0 <= self.millis <= 500_000
    }

    pub open spec fn spec_minus(self, other: Timestamp) -> Timestamp {
        Timestamp {
            hours: (self.hours - other.hours) as i32,
            minutes: (self.minutes - other.minutes) as i32,
            seconds: (self.seconds - other.seconds) as i32,
            millis: (self.millis - other.millis) as i32,
        }
    }

    pub open spec fn minus_fits(self, other: Timestamp) -> bool {
        &&& i32::MIN <= self.hours - other.hours <= i32::MAX
        &&& i32::MIN <= self.minutes - other.minutes <= i32::MAX
        &&& i32::MIN <= self.seconds - other.seconds <= i32::MAX
        &&& i32::MIN <= self.millis - other.millis <= i32::MAX
    }

    /// Component-wise difference, without borrowing across fields.
    pub fn minus(&self, other: &Timestamp) -> (r: Timestamp)
        requires
            self.minus_fits(*other),
        ensures
            r == self.spec_minus(*other),
            r.spec_total_millis() == self.spec_total_millis() - other.spec_total_millis(),
    {
        Timestamp {
            hours: self.hours - other.hours,
            minutes: self.minutes - other.minutes,
            seconds: self.seconds - other.seconds,
            millis: self.millis - other.millis,
        }
    }

    /// The textual form `H:M:S.ms`, each component in plain decimal.
    pub open spec fn spec_to_text(self) -> Seq<char> {
        dec_int(self.hours as int).add(seq![':']).add(dec_int(self.minutes as int)).add(
            seq![':'],
        ).add(dec_int(self.seconds as int)).add(seq!['.']).add(dec_int(self.millis as int))
    }

    /// Writes the instant as `H:M:S.ms`.
    pub fn to_text(&self) -> (r: String)
        ensures
            r@ == self.spec_to_text(),
    {
        let mut s = String::new();
        push_decimal_i64(&mut s, self.hours as i64);
        push_char(&mut s, ':');
        push_decimal_i64(&mut s, self.minutes as i64);
        push_char(&mut s, ':');
        push_decimal_i64(&mut s, self.seconds as i64);
        push_char(&mut s, '.');
        push_decimal_i64(&mut s, self.millis as i64);
        proof {
            assert(s@ =~= self.spec_to_text());
        }
        s
    }

    /// What `from_str` accepts and yields: up to three `:`-separated
    /// fields (hours, minutes, seconds), the last optionally split by
    /// one `.` into seconds and milliseconds; missing fields read 0.
    pub open spec fn spec_from_str(s: Seq<char>) -> Option<Timestamp> {
        let ps = spec_split(s, ':');
        if ps.len() > 3 {
            None
        } else if !is_i32_text(ps[0]) {
            None
        } else {
            let h = int_text_val(ps[0]);
            if ps.len() == 1 {
                Some(Timestamp { hours: h as i32, minutes: 0, seconds: 0, millis: 0 })
            } else if !is_i32_text(ps[1]) {
                None
            } else {
                let m = int_text_val(ps[1]);
                if ps.len() == 2 {
                    Some(Timestamp { hours: h as i32, minutes: m as i32, seconds: 0, millis: 0 })
                } else {
                    let qs = spec_split(ps[2], '.');
                    if qs.len() > 2 {
                        None
                    } else if !is_i32_text(qs[0]) {
                        None
                    } else {
                        let sec = int_text_val(qs[0]);
                        if qs.len() == 1 {
                            Some(
                                Timestamp {
                                    hours: h as i32,
                                    minutes: m as i32,
                                    seconds: sec as i32,
                                    millis: 0,
                                },
                            )
                        } else if !is_i32_text(qs[1]) {
                            None
                        } else {
                            Some(
                                Timestamp {
                                    hours: h as i32,
                                    minutes: m as i32,
                                    seconds: sec as i32,
                                    millis: int_text_val(qs[1]) as i32,
                                },
                            )
                        }
                    }
                }
            }
        }
    }

    /// Parses `H[:M[:S[.ms]]]` text; each field is decimal integer
    /// text fitting an `i32`.
    pub fn from_str(line: &str) -> (r: Option<Timestamp>)
        ensures
            r == Timestamp::spec_from_str(line@),
    {
        proof {
            lemma_spec_split_len(line@, ':');
        }
        let parts = split_char(line, ':');
        assert(parts.deep_view() == spec_split(line@, ':'));
        assert(parts@.len() == spec_split(line@, ':').len());
        if parts.len() > 3 {
            return None;
        }
        assert(parts.deep_view()[0] == parts@[0]@);
        let h = match parse_i32(parts[0].as_str()) {
            Some(v) => v,
            None => {
                return None;
            },
        };
        if parts.len() == 1 {
            return Some(Timestamp { hours: h, minutes: 0, seconds: 0, millis: 0 });
        }
        assert(parts.deep_view()[1] == parts@[1]@);
        let m = match parse_i32(parts[1].as_str()) {
            Some(v) => v,
            None => {
                return None;
            },
        };
        if parts.len() == 2 {
            return Some(Timestamp { hours: h, minutes: m, seconds: 0, millis: 0 });
        }
        assert(parts.deep_view()[2] == parts@[2]@);
        proof {
            lemma_spec_split_len(parts@[2]@, '.');
        }
        let inner = split_char(parts[2].as_str(), '.');
        assert(inner.deep_view() == spec_split(parts@[2]@, '.'));
        assert(inner@.len() == spec_split(parts@[2]@, '.').len());
        if inner.len() > 2 {
            return None;
        }
        assert(inner.deep_view()[0] == inner@[0]@);
        let sec = match parse_i32(inner[0].as_str()) {
            Some(v) => v,
            None => {
                return None;
            },
        };
        if inner.len() == 1 {
            return Some(Timestamp { hours: h, minutes: m, seconds: sec, millis: 0 });
        }
        assert(inner.deep_view()[1] == inner@[1]@);
        let ms = match parse_i32(inner[1].as_str()) {
            Some(v) => v,
            None => {
                return None;
            },
        };
        Some(Timestamp { hours: h, minutes: m, seconds: sec, millis: ms })
    }

    /// Writing an instant as text and reading the text back yields
    /// the instant itself, component for component.
    pub proof fn lemma_to_text_round_trip(t: Timestamp)
        ensures
            Timestamp::spec_from_str(t.spec_to_text()) == Some(t),
    {
        let h = dec_int(t.hours as int);
        let m = dec_int(t.minutes as int);
        let s = dec_int(t.seconds as int);
        let ms = dec_int(t.millis as int);
        lemma_dec_int_round_trip(t.hours as int);
        lemma_dec_int_round_trip(t.minutes as int);
        lemma_dec_int_round_trip(t.seconds as int);
        lemma_dec_int_round_trip(t.millis as int);
        assert forall|p: Seq<char>, sep: char|
            (p == h || p == m || p == s || p == ms) && (sep == ':' || sep == '.')
                implies sep_free(p, sep) by {
            assert forall|i: int| 0 <= i < p.len() implies p[i] != sep by {
                assert(p[i] == '-' || is_digit_char(p[i]));
            }
        }
        let rest2 = s.add(seq!['.']).add(ms);
        let rest1 = m.add(seq![':']).add(rest2);
        assert(t.spec_to_text() =~= h.add(seq![':']).add(rest1));
        lemma_split_concat(h, rest1, ':');
        lemma_split_concat(m, rest2, ':');
        assert(sep_free(rest2, ':')) by {
            assert(forall|i: int|
                0 <= i < rest2.len() ==> rest2[i] == '.' || s.contains(#[trigger] rest2[i])
                    || ms.contains(rest2[i]));
        }
        lemma_split_no_sep(rest2, ':');
        let ps = spec_split(t.spec_to_text(), ':');
        assert(ps =~~= seq![h, m, rest2]);
        lemma_split_concat(s, ms, '.');
        lemma_split_no_sep(ms, '.');
        let qs = spec_split(rest2, '.');
        assert(qs =~~= seq![s, ms]);
    }

    /// Takes the first input line as the timestamp text; empty input
    /// is rejected.
    pub fn from_input(lines: &[String]) -> (r: Option<Timestamp>)
        ensures
            lines@.len() == 0 ==> r is None,
            lines@.len() > 0 ==> r == Timestamp::spec_from_str(lines@[0]@),
    {
        if lines.len() == 0 {
            return None;
        }
        Timestamp::from_str(lines[0].as_str())
    }
}

} // verus!
