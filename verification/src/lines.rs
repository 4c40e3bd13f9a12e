//! Parsing of the progress lines the two external tools print: the
//! clipping tool's `key=value` pairs and the transcription tool's
//! bracketed `[start --> end]` segment markers.

use vstd::prelude::*;
use crate::text::{is_digit_char, lemma_spec_split_len, spec_split, split_char};
use crate::timestamp::Timestamp;

verus! {

/// Character-for-character string equality.
pub fn str_eq(a: &str, b: &str) -> (r: bool)
    ensures
        r == (a@ == b@),
{
    let la = a.unicode_len();
    let lb = b.unicode_len();
    if la != lb {
        proof {
            assert(a@ != b@) by {
                assert(a@.len() != b@.len());
            }
        }
        return false;
    }
    let mut i: usize = 0;
    while i < la
        invariant
            i <= la,
            la == a@.len(),
            la == b@.len(),
            forall|j: int| 0 <= j < i ==> a@[j] == b@[j],
        decreases la - i,
    {
        if a.get_char(i) != b.get_char(i) {
            return false;
        }
        i = i + 1;
    }
    proof {
        assert(a@ =~= b@);
    }
    true
}

/// The value text of an `out_time=<value>` line; any other line reads
/// as nothing.
pub open spec fn spec_get_timestamp(line: Seq<char>) -> Option<Seq<char>> {
    let ps = spec_split(line, '=');
    if ps.len() == 2 && ps[0] == "out_time"@ {
        Some(ps[1])
    } else {
        None
    }
}

/// Extracts the elapsed-time text from one line of the clipping
/// tool's progress stream.
pub fn get_timestamp(line: &str) -> (r: Option<String>)
    ensures
        r is Some <==> spec_get_timestamp(line@) is Some,
        r matches Some(t) ==> Some(t@) == spec_get_timestamp(line@),
{
    let mut parts = split_char(line, '=');
    assert(parts.deep_view() == spec_split(line@, '='));
    if parts.len() != 2 {
        return None;
    }
    assert(parts.deep_view()[0] == parts@[0]@);
    assert(parts.deep_view()[1] == parts@[1]@);
    if !str_eq(parts[0].as_str(), "out_time") {
        return None;
    }
    let v = parts.pop().unwrap();
    Some(v)
}

/// The timestamp text a segment marker line denotes: the minutes and
/// seconds of the line's first bracketed `mm:ss.mmm` stamp, read as
/// `00:mm:ss.mmm`.
pub open spec fn spec_segment_text(line: Seq<char>) -> Seq<char> {
    let first = spec_split(line, ' ')[0];
    let parts = spec_split(first, ':');
    let p0 = parts[0];
    let minute_part = if p0.len() >= 2 && is_digit_char(p0[1]) {
        let bs = spec_split(p0, '[');
        if bs.len() >= 2 {
            bs[1]
        } else {
            Seq::<char>::empty()
        }
    } else {
        Seq::<char>::empty()
    };
    let tail = if parts.len() >= 2 {
        let qs = spec_split(parts[1], '.');
        let ms = if qs.len() >= 2 {
            "."@.add(qs[1])
        } else {
            ".00"@
        };
        ":"@.add(qs[0]).add(ms)
    } else {
        Seq::<char>::empty()
    };
    "00:"@.add(minute_part).add(tail)
}

pub open spec fn spec_get_segment(line: Seq<char>) -> Option<Timestamp> {
    Timestamp::spec_from_str(spec_segment_text(line))
}

/// Reads the first timestamp of a transcription segment marker such
/// as `[00:37.000 --> 00:38.000] text`, as an instant under one hour.
pub fn get_segment(line: &str) -> (r: Option<Timestamp>)
    ensures
        r == spec_get_segment(line@),
{
    proof {
        lemma_spec_split_len(line@, ' ');
    }
    let words = split_char(line, ' ');
    assert(words.deep_view()[0] == words@[0]@);
    let first = &words[0];
    proof {
        lemma_spec_split_len(first@, ':');
    }
    let parts = split_char(first.as_str(), ':');
    assert(parts.deep_view()[0] == parts@[0]@);
    let p0 = &parts[0];
    let mut found: String = "00:".to_owned();
    if p0.as_str().unicode_len() >= 2 {
        let c = p0.as_str().get_char(1);
        let cv = c as u32;
        if 48 <= cv && cv <= 57 {
            let brackets = split_char(p0.as_str(), '[');
            if brackets.len() >= 2 {
                assert(brackets.deep_view()[1] == brackets@[1]@);
                found.append(brackets[1].as_str());
            }
        }
    }
    if parts.len() >= 2 {
        assert(parts.deep_view()[1] == parts@[1]@);
        proof {
            lemma_spec_split_len(parts@[1]@, '.');
        }
        let qs = split_char(parts[1].as_str(), '.');
        assert(qs.deep_view()[0] == qs@[0]@);
        found.append(":");
        found.append(qs[0].as_str());
        if qs.len() >= 2 {
            assert(qs.deep_view()[1] == qs@[1]@);
            found.append(".");
            found.append(qs[1].as_str());
        } else {
            found.append(".00");
        }
    }
    proof {
        assert(found@ == spec_segment_text(line@));
    }
    Timestamp::from_str(found.as_str())
}

} // verus!
