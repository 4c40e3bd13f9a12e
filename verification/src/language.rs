//! The transcription language a job asks for.  Input text reading
//! `en`, once surrounding blanks are stripped, selects English;
//! everything else falls back to German.

use vstd::prelude::*;
use crate::lines::str_eq;

verus! {

#[derive(Clone, Copy, Debug, PartialEq, Eq, Structural)]
pub enum Language {
    EN,
    DE,
}

pub open spec fn is_blank(c: char) -> bool {
    c == ' ' || c == '\t' || c == '\n' || c == '\r'
}

pub open spec fn trim_front(s: Seq<char>) -> Seq<char>
    decreases s.len(),
{
    if s.len() > 0 && is_blank(s[0]) {
        trim_front(s.skip(1))
    } else {
        s
    }
}

pub open spec fn trim_back(s: Seq<char>) -> Seq<char>
    decreases s.len(),
{
    if s.len() > 0 && is_blank(s.last()) {
        trim_back(s.drop_last())
    } else {
        s
    }
}

/// `s` without leading and trailing blanks.
pub open spec fn spec_trim(s: Seq<char>) -> Seq<char> {
    trim_back(trim_front(s))
}

proof fn lemma_trim_front_skip(s: Seq<char>, i: int)
    requires
        0 <= i <= s.len(),
        forall|j: int| 0 <= j < i ==> is_blank(s[j]),
        i == s.len() || !is_blank(s[i]),
    ensures
        trim_front(s) == s.skip(i),
    decreases i,
{
    if i == 0 {
        assert(s.skip(0) =~= s);
    } else {
        assert(is_blank(s[0]));
        lemma_trim_front_skip(s.skip(1), i - 1);
        assert(s.skip(1).skip(i - 1) =~= s.skip(i));
    }
}

proof fn lemma_trim_back_take(s: Seq<char>, i: int)
    requires
        0 <= i <= s.len(),
        forall|j: int| i <= j < s.len() ==> is_blank(s[j]),
        i == 0 || !is_blank(s[i - 1]),
    ensures
        trim_back(s) == s.take(i),
    decreases s.len() - i,
{
    if i == s.len() {
        assert(s.take(i) =~= s);
    } else {
        assert(is_blank(s.last()));
        lemma_trim_back_take(s.drop_last(), i);
        assert(s.drop_last().take(i) =~= s.take(i));
    }
}

/// `str::trim` restricted to ASCII blanks: spaces, tabs and line
/// breaks.
pub fn trim_blanks(s: &str) -> (r: &str)
    ensures
        r@ == spec_trim(s@),
{
    let len = s.unicode_len();
    let mut lo: usize = 0;
    while lo < len
        invariant
            lo <= len,
            len == s@.len(),
            forall|j: int| 0 <= j < lo ==> is_blank(s@[j]),
        ensures
            lo <= len,
            len == s@.len(),
            forall|j: int| 0 <= j < lo ==> is_blank(s@[j]),
            lo == len || !is_blank(s@[lo as int]),
        decreases len - lo,
    {
        let c = s.get_char(lo);
        if !(c == ' ' || c == '\t' || c == '\n' || c == '\r') {
            break ;
        }
        lo = lo + 1;
    }
    if lo == len {
        proof {
            lemma_trim_front_skip(s@, len as int);
            assert(s@.skip(len as int) =~= Seq::<char>::empty());
            lemma_trim_back_take(Seq::<char>::empty(), 0);
            assert(Seq::<char>::empty().take(0) =~= Seq::<char>::empty());
        }
        return s.substring_char(0, 0);
    }
    let mut hi: usize = len;
    while hi > lo + 1
        invariant
            lo < hi <= len,
            len == s@.len(),
            forall|j: int| hi <= j < len ==> is_blank(s@[j]),
        ensures
            lo < hi <= len,
            len == s@.len(),
            forall|j: int| hi <= j < len ==> is_blank(s@[j]),
            hi == lo + 1 || !is_blank(s@[hi - 1]),
        decreases hi,
    {
        let c = s.get_char(hi - 1);
        if !(c == ' ' || c == '\t' || c == '\n' || c == '\r') {
            break ;
        }
        hi = hi - 1;
    }
    proof {
        lemma_trim_front_skip(s@, lo as int);
        assert(forall|j: int|
            hi - lo <= j < s@.skip(lo as int).len() ==> is_blank(#[trigger] s@.skip(lo as int)[j]));
        assert(s@.skip(lo as int)[hi - lo - 1] == s@[hi - 1]);
        lemma_trim_back_take(s@.skip(lo as int), hi - lo);
        assert(s@.skip(lo as int).take(hi - lo) =~= s@.subrange(lo as int, hi as int));
    }
    s.substring_char(lo, hi)
}

impl Language {
    pub open spec fn spec_from_str(s: Seq<char>) -> Language {
        if spec_trim(s) == "en"@ {
            Language::EN
        } else {
            Language::DE
        }
    }

    /// Reads a language selection; anything but `en` means German.
    pub fn from_str(s: &str) -> (r: Language)
        ensures
            r == Language::spec_from_str(s@),
    {
        let t = trim_blanks(s);
        if str_eq(t, "en") {
            Language::EN
        } else {
            Language::DE
        }
    }

    /// Takes the first input line as the selection; empty input means
    /// the default.
    pub fn from_input(lines: &[String]) -> (r: Language)
        ensures
            lines@.len() == 0 ==> r == Language::DE,
            lines@.len() > 0 ==> r == Language::spec_from_str(lines@[0]@),
    {
        if lines.len() == 0 {
            return Language::DE;
        }
        Language::from_str(lines[0].as_str())
    }

    /// The language code the catalog stores.
    pub fn code(&self) -> (r: &'static str)
        ensures
            self is EN ==> r@ == "en"@,
            self is DE ==> r@ == "de"@,
    {
        match self {
            Language::EN => "en",
            Language::DE => "de",
        }
    }
}

impl Default for Language {
    fn default() -> (r: Self)
        ensures
            r == Language::DE,
    {
        Language::DE
    }
}

} // verus!
