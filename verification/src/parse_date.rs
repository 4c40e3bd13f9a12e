//! Reading a capture date out of a clip's file name, in the two forms
//! the ingest screen meets: a manual `dd_mm_yy-...` prefix and the
//! recorder's `Game 2 yyyy.mm.dd - ...` form.  A name that holds no
//! real calendar date reads as the empty string.

use vstd::prelude::*;
use crate::date::{spec_format_dmy, valid_ymd, format_dmy, PlainDate};
use crate::text::{
    int_text_val, is_digit_char, is_i32_text, lemma_spec_split_len, parse_i32, spec_split,
    split_char,
};

verus! {

/// The date a manual file name denotes: day, month and two-digit year
/// from the first `-`-separated part, fields split by `_`, year moved
/// into the 2000s.
pub open spec fn spec_parse_manual(title: Seq<char>) -> Seq<char> {
    let parts = spec_split(title, '-');
    let comps = spec_split(parts[0], '_');
    let d = if is_i32_text(comps[0]) {
        int_text_val(comps[0])
    } else {
        0
    };
    let m = if comps.len() >= 2 && is_i32_text(comps[1]) {
        int_text_val(comps[1])
    } else {
        0
    };
    let y = if comps.len() >= 3 && is_i32_text(comps[2]) {
        int_text_val(comps[2])
    } else {
        0
    };
    if y != 0 && m != 0 && d != 0 && y + 2000 <= i32::MAX && valid_ymd(y + 2000, m, d) {
        spec_format_dmy(
            PlainDate { year: (y + 2000) as i32, month: m as i32, day: d as i32 },
        )
    } else {
        Seq::<char>::empty()
    }
}

/// The date a recorder file name denotes: `yyyy.mm.dd` in the third
/// space-separated word.
pub open spec fn spec_parse_shadowplay(title: Seq<char>) -> Seq<char> {
    let parts = spec_split(title, ' ');
    if parts.len() < 3 {
        Seq::<char>::empty()
    } else {
        let comps = spec_split(parts[2], '.');
        let y = if is_i32_text(comps[0]) {
            int_text_val(comps[0])
        } else {
            0
        };
        let m = if comps.len() >= 2 && is_i32_text(comps[1]) {
            int_text_val(comps[1])
        } else {
            0
        };
        let d = if comps.len() >= 3 && is_i32_text(comps[2]) {
            int_text_val(comps[2])
        } else {
            0
        };
        if y != 0 && m != 0 && d != 0 && valid_ymd(y, m, d) {
            spec_format_dmy(PlainDate { year: y as i32, month: m as i32, day: d as i32 })
        } else {
            Seq::<char>::empty()
        }
    }
}

/// The date a file name denotes: names opening with a digit read as
/// manual, all others as recorder names.
pub open spec fn spec_parse(title: Seq<char>) -> Seq<char> {
    if title.len() > 0 && is_digit_char(title[0]) {
        spec_parse_manual(title)
    } else {
        spec_parse_shadowplay(title)
    }
}

fn parse_manual(title: &str) -> (r: String)
    ensures
        r@ == spec_parse_manual(title@),
{
    proof {
        lemma_spec_split_len(title@, '-');
    }
    let parts = split_char(title, '-');
    assert(parts.deep_view()[0] == parts@[0]@);
    proof {
        lemma_spec_split_len(parts@[0]@, '_');
    }
    let comps = split_char(parts[0].as_str(), '_');
    assert(comps.deep_view()[0] == comps@[0]@);
    let d: i32 = match parse_i32(comps[0].as_str()) {
        Some(v) => v,
        None => 0,
    };
    let m: i32 = if comps.len() >= 2 {
        assert(comps.deep_view()[1] == comps@[1]@);
        match parse_i32(comps[1].as_str()) {
            Some(v) => v,
            None => 0,
        }
    } else {
        0
    };
    let y: i32 = if comps.len() >= 3 {
        assert(comps.deep_view()[2] == comps@[2]@);
        match parse_i32(comps[2].as_str()) {
            Some(v) => v,
            None => 0,
        }
    } else {
        0
    };
    if y != 0 && m != 0 && d != 0 && y <= i32::MAX - 2000 && PlainDate::valid(y + 2000, m, d) {
        format_dmy(&PlainDate { year: y + 2000, month: m, day: d })
    } else {
        String::new()
    }
}

fn parse_shadowplay(title: &str) -> (r: String)
    ensures
        r@ == spec_parse_shadowplay(title@),
{
    let parts = split_char(title, ' ');
    if parts.len() < 3 {
        return String::new();
    }
    assert(parts.deep_view()[2] == parts@[2]@);
    proof {
        lemma_spec_split_len(parts@[2]@, '.');
    }
    let comps = split_char(parts[2].as_str(), '.');
    assert(comps.deep_view()[0] == comps@[0]@);
    let y: i32 = match parse_i32(comps[0].as_str()) {
        Some(v) => v,
        None => 0,
    };
    let m: i32 = if comps.len() >= 2 {
        assert(comps.deep_view()[1] == comps@[1]@);
        match parse_i32(comps[1].as_str()) {
            Some(v) => v,
            None => 0,
        }
    } else {
        0
    };
    let d: i32 = if comps.len() >= 3 {
        assert(comps.deep_view()[2] == comps@[2]@);
        match parse_i32(comps[2].as_str()) {
            Some(v) => v,
            None => 0,
        }
    } else {
        0
    };
    if y != 0 && m != 0 && d != 0 && PlainDate::valid(y, m, d) {
        format_dmy(&PlainDate { year: y, month: m, day: d })
    } else {
        String::new()
    }
}

/// Reads the capture date out of a clip's file name as `dd-mm-yyyy`,
/// or the empty string when the name holds no real date.
pub fn parse(title: &str) -> (r: String)
    ensures
        r@ == spec_parse(title@),
{
    if title.unicode_len() > 0 {
        let c = title.get_char(0) as u32;
        if 48 <= c && c <= 57 {
            return parse_manual(title);
        }
    }
    parse_shadowplay(title)
}

} // verus!
