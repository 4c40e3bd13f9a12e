//! Normalized progress percentages: the rounded share of the way from
//! a clip's start to its end that an elapsed instant lies, clamped to
//! the inclusive range 0 to 100.

use vstd::prelude::*;
use vstd::arithmetic::div_mod::{lemma_div_is_ordered, lemma_fundamental_div_mod_converse};
use crate::timestamp::Timestamp;

verus! {

pub open spec fn clamp100(x: int) -> int {
    if x < 0 {
        0
    } else if x > 100 {
        100
    } else {
        x
    }
}

/// `clamp(round(100 * (at - start) / (end - start)), 0, 100)`, written
/// with the rounding spelled out: `round(n / d) == (2n + d) / (2d)`.
pub open spec fn spec_progress_pct(at: int, start: int, end: int) -> int
    recommends
        start < end,
{
    clamp100((200 * (at - start) + (end - start)) / (2 * (end - start)))
}

pub proof fn lemma_progress_bounds(at: int, start: int, end: int)
    requires
        start < end,
    ensures
        0 <= spec_progress_pct(at, start, end) <= 100,
{
}

/// Reaching the start reads 0.
pub proof fn lemma_progress_at_start(start: int, end: int)
    requires
        start < end,
    ensures
        spec_progress_pct(start, start, end) == 0,
{
    let d = end - start;
    lemma_fundamental_div_mod_converse(d, 2 * d, 0, d);
}

/// The terminal sample, the clip's own end, reads exactly 100: the
/// duration measured against itself is the whole.
pub proof fn lemma_progress_complete(start: int, end: int)
    requires
        start < end,
    ensures
        spec_progress_pct(end, start, end) == 100,
{
    let d = end - start;
    assert(200 * (end - start) + d == 100 * (2 * d) + d);
    lemma_fundamental_div_mod_converse(200 * (end - start) + d, 2 * d, 100, d);
}

/// Later samples never read less: progress is monotone in the elapsed
/// instant.
pub proof fn lemma_progress_monotone(a1: int, a2: int, start: int, end: int)
    requires
        start < end,
        a1 <= a2,
    ensures
        spec_progress_pct(a1, start, end) <= spec_progress_pct(a2, start, end),
{
    let d = end - start;
    lemma_div_is_ordered(200 * (a1 - start) + d, 200 * (a2 - start) + d, 2 * d);
}

/// A whole stream of non-decreasing elapsed instants yields
/// non-decreasing percentages, and a stream ending at the clip's end
/// ends at exactly 100.
pub proof fn lemma_progress_stream_monotone(samples: Seq<int>, start: int, end: int)
    requires
        start < end,
        forall|i: int, j: int| 0 <= i <= j < samples.len() ==> samples[i] <= samples[j],
    ensures
        forall|i: int, j: int|
            0 <= i <= j < samples.len() ==> spec_progress_pct(samples[i], start, end)
                <= spec_progress_pct(samples[j], start, end),
        samples.len() > 0 && samples.last() == end ==> spec_progress_pct(
            samples.last(),
            start,
            end,
        ) == 100,
{
    assert forall|i: int, j: int| 0 <= i <= j < samples.len() implies spec_progress_pct(
        samples[i],
        start,
        end,
    ) <= spec_progress_pct(samples[j], start, end) by {
        lemma_progress_monotone(samples[i], samples[j], start, end);
    }
    if samples.len() > 0 && samples.last() == end {
        lemma_progress_complete(start, end);
    }
}

/// The rounded, clamped percentage of the way from `start` to `end`
/// at which `at` lies, measured in milliseconds.
pub fn progress_pct(at: &Timestamp, start: &Timestamp, end: &Timestamp) -> (r: u16)
    requires
        start.spec_total_millis() < end.spec_total_millis(),
    ensures
        r as int == spec_progress_pct(
            at.spec_total_millis(),
            start.spec_total_millis(),
            end.spec_total_millis(),
        ),
        r <= 100,
{
    let a = at.total_millis();
    let s = start.total_millis();
    let e = end.total_millis();
    let d = e - s;
    if a <= s {
        proof {
            let num = 200 * (a as int - s as int) + d as int;
            if num >= 0 {
                lemma_fundamental_div_mod_converse(num, 2 * d as int, 0, num);
            } else {
                lemma_div_is_ordered(num, 0, 2 * d as int);
            }
        }
        0
    } else if a >= e {
        proof {
            let num = 200 * (a as int - s as int) + d as int;
            lemma_fundamental_div_mod_converse(
                100 * (2 * d as int) + d as int,
                2 * d as int,
                100,
                d as int,
            );
            lemma_div_is_ordered(100 * (2 * d as int) + d as int, num, 2 * d as int);
        }
        100
    } else {
        let num = 200i64 * (a - s) + d;
        let den = 2i64 * d;
        let q = num / den;
        proof {
            let ni = 200 * (a as int - s as int) + d as int;
            let di = 2 * d as int;
            lemma_div_is_ordered(0, ni, di);
            lemma_div_is_ordered(ni, 100 * di + d as int, di);
            lemma_fundamental_div_mod_converse(100 * di + d as int, di, 100, d as int);
        }
        q as u16
    }
}

} // verus!
