//! Media metadata as the probing tool reports it, held as plain
//! values, and the number formatting its display uses: byte and bit
//! counts as megas with two decimals, durations as whole seconds.

use vstd::prelude::*;
use crate::date::pad2;
use crate::text::{
    dec_digits, is_u64_text, lemma_spec_split_len, parse_u64, push_char, push_decimal,
    spec_split, split_char, u64_text_val,
};
use vstd::arithmetic::div_mod::{lemma_fundamental_div_mod, lemma_fundamental_div_mod_converse};

verus! {

#[derive(Clone, Copy, Debug, PartialEq, Eq, Structural)]
pub enum Codec {
    Video,
    Audio,
}

impl Default for Codec {
    fn default() -> (r: Self)
        ensures
            r == Codec::Video,
    {
        Codec::Video
    }
}

#[derive(Clone, Debug)]
pub struct Stream {
    pub index: usize,
    pub width: usize,
    pub height: usize,
    pub codec_type: Codec,
    pub codec_long_name: String,
    pub bit_rate: String,
    pub channels: usize,
    pub sample_rate: String,
    pub display_aspect_ratio: String,
    pub channel_layout: String,
}

#[derive(Clone, Debug)]
pub struct Format {
    pub filename: String,
    pub duration: String,
    pub size: String,
    pub format_long_name: String,
    pub bit_rate: String,
    pub nb_streams: usize,
}

#[derive(Clone, Debug)]
pub struct Metadata {
    pub streams: Vec<Stream>,
    pub format: Format,
}

/// `n` scaled by one million, rounded half up to two decimals:
/// `round(n / 10^4)` hundredths, written `whole.ff`.
pub open spec fn spec_mega_2dp(n: int) -> Seq<char>
    recommends
        n >= 0,
{
    let q = (n + 5000) / 10000;
    dec_digits(q / 100).add(seq!['.']).add(pad2(q % 100))
}

/// Writes a non-negative count as megas with two decimals.
fn format_mega_2dp(n: u64) -> (r: String)
    ensures
        r@ == spec_mega_2dp(n as int),
{
    let a = n / 10000;
    let b = n % 10000;
    let carry: u64 = if b + 5000 >= 10000 {
        1
    } else {
        0
    };
    let q = a + carry;
    proof {
        lemma_fundamental_div_mod(n as int, 10000);
        lemma_fundamental_div_mod(b as int + 5000, 10000);
        lemma_fundamental_div_mod_converse(
            n as int + 5000,
            10000,
            a as int + carry as int,
            (b as int + 5000) % 10000,
        );
    }
    let whole = q / 100;
    let frac = q % 100;
    let mut s = String::new();
    push_decimal(&mut s, whole);
    push_char(&mut s, '.');
    let ghost mid = s@;
    if frac <= 9 {
        push_char(&mut s, '0');
        let c = ((48 + frac) as u8) as char;
        push_char(&mut s, c);
        proof {
            assert(s@ =~= mid.add(pad2(frac as int)));
        }
    } else {
        push_decimal(&mut s, frac);
    }
    proof {
        assert(s@ =~= spec_mega_2dp(n as int));
    }
    s
}

/// What the bitrate display shows: a bits-per-second count becomes
/// megabits with two decimals; anything unreadable passes through.
pub open spec fn spec_parse_bitrate(s: Seq<char>) -> Seq<char> {
    if is_u64_text(s) {
        spec_mega_2dp(u64_text_val(s))
    } else {
        s
    }
}

/// Formats a bits-per-second text as megabits with two decimals, or
/// hands unreadable text back unchanged.
pub fn parse_bitrate(bit: String) -> (r: String)
    ensures
        r@ == spec_parse_bitrate(bit@),
{
    match parse_u64(bit.as_str()) {
        Some(n) => format_mega_2dp(n),
        None => bit,
    }
}

/// What the size display shows: a byte count becomes megabytes with
/// two decimals; anything unreadable passes through.
pub open spec fn spec_parse_size(s: Seq<char>) -> Seq<char> {
    if is_u64_text(s) {
        spec_mega_2dp(u64_text_val(s))
    } else {
        s
    }
}

/// Formats a byte-count text as megabytes with two decimals, or
/// hands unreadable text back unchanged.
pub fn parse_size(dur: String) -> (r: String)
    ensures
        r@ == spec_parse_size(dur@),
{
    match parse_u64(dur.as_str()) {
        Some(n) => format_mega_2dp(n),
        None => dur,
    }
}

/// What the duration display shows: the whole seconds before the
/// decimal point, or the text unchanged when they do not read as a
/// number.
pub open spec fn spec_parse_duration(s: Seq<char>) -> Seq<char> {
    let head = spec_split(s, '.')[0];
    if is_u64_text(head) {
        dec_digits(u64_text_val(head))
    } else {
        s
    }
}

/// Cuts a fractional-seconds text down to its whole seconds, or
/// hands unreadable text back unchanged.
pub fn parse_duration(dur: String) -> (r: String)
    ensures
        r@ == spec_parse_duration(dur@),
{
    proof {
        lemma_spec_split_len(dur@, '.');
    }
    let parts = split_char(dur.as_str(), '.');
    assert(parts.deep_view()[0] == parts@[0]@);
    match parse_u64(parts[0].as_str()) {
        Some(n) => {
            let mut s = String::new();
            push_decimal(&mut s, n);
            proof {
                assert(s@ =~= dec_digits(n as int));
            }
            s
        },
        None => dur,
    }
}

} // verus!
