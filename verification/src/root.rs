//! The root summary record: the allocator counter's mirror and the
//! tag usage counts, with the tag names listed by rising use.

use vstd::prelude::*;
use vstd::multiset::Multiset;

verus! {

#[derive(Clone, Debug)]
pub struct Root {
    pub counter: i64,
    /// Pairs of use count and tag name.
    pub tags: Vec<(usize, String)>,
}

pub open spec fn counts_sorted(s: Seq<(usize, String)>) -> bool {
    forall|i: int, j: int| 0 <= i <= j < s.len() ==> (#[trigger] s[i]).0 <= (#[trigger] s[j]).0
}

/// Reorders count-name pairs by non-decreasing count, keeping exactly
/// the same pairs.
fn sort_by_count(input: Vec<(usize, String)>) -> (r: Vec<(usize, String)>)
    ensures
        counts_sorted(r@),
        r@.to_multiset() == input@.to_multiset(),
        r@.len() == input@.len(),
{
    broadcast use vstd::seq_lib::group_to_multiset_ensures;
    broadcast use vstd::multiset::group_multiset_axioms;

    let ghost whole = input@.to_multiset();
    let mut src = input;
    let mut out: Vec<(usize, String)> = Vec::new();
    proof {
        assert(out@.to_multiset().add(src@.to_multiset()) =~= whole);
    }
    while src.len() > 0
        invariant
            counts_sorted(out@),
            out@.to_multiset().add(src@.to_multiset()) == whole,
            out@.len() + src@.len() == whole.len(),
            forall|i: int, j: int|
                0 <= i < out@.len() && 0 <= j < src@.len() ==> (#[trigger] out@[i]).0
                    <= (#[trigger] src@[j]).0,
        decreases src@.len(),
    {
        let mut m: usize = 0;
        let mut k: usize = 1;
        while k < src.len()
            invariant
                m < k <= src@.len(),
                src@.len() > 0,
                forall|j: int| 0 <= j < k ==> (#[trigger] src@[j]).0 >= src@[m as int].0,
            decreases src@.len() - k,
        {
            if src[k].0 < src[m].0 {
                m = k;
            }
            k = k + 1;
        }
        let ghost old_src = src@;
        let ghost old_out = out@;
        let x = src.remove(m);
        out.push(x);
        proof {
            assert(old_src.contains(old_src[m as int]));
            assert(src@ == old_src.remove(m as int));
            vstd::seq_lib::to_multiset_remove(old_src, m as int);
            assert(out@ == old_out.push(x));
            vstd::seq_lib::to_multiset_build(old_out, x);
            vstd::seq_lib::to_multiset_contains(old_src, x);
            assert(old_src.to_multiset().count(x) > 0);
            assert forall|a: (usize, String)|
                out@.to_multiset().add(src@.to_multiset()).count(a) == whole.count(a) by {
                assert(out@.to_multiset().count(a) == old_out.to_multiset().count(a) + (if a == x {
                    1int
                } else {
                    0int
                }));
                assert(src@.to_multiset().count(a) == old_src.to_multiset().count(a) - (if a == x {
                    1int
                } else {
                    0int
                }));
            }
            assert(out@.to_multiset().add(src@.to_multiset()) =~= whole);
            assert forall|i: int, j: int|
                0 <= i < out@.len() && 0 <= j < src@.len() implies (#[trigger] out@[i]).0
                <= (#[trigger] src@[j]).0 by {
                assert(src@[j] == (if j < m { old_src[j] } else { old_src[j + 1] }));
                if i < old_out.len() {
                    assert(out@[i] == old_out[i]);
                } else {
                    assert(out@[i] == x);
                }
            }
            assert(counts_sorted(out@));
        }
    }
    proof {
        assert(src@.to_multiset() =~= Multiset::<(usize, String)>::empty());
        assert(out@.to_multiset() =~= whole);
    }
    out
}

impl Root {
    /// The stored tag names, listed by rising use count.
    pub fn get_tags(&self) -> (r: Vec<String>)
        ensures
            exists|sorted: Seq<(usize, String)>|
                {
                    &&& #[trigger] sorted.to_multiset() == self.tags@.to_multiset()
                    &&& counts_sorted(sorted)
                    &&& r@.len() == sorted.len()
                    &&& forall|i: int| 0 <= i < sorted.len() ==> r@[i] == (#[trigger] sorted[i]).1
                },
    {
        let sorted = sort_by_count(crate::root::clone_pairs(&self.tags));
        let ghost witness = sorted@;
        let mut names: Vec<String> = Vec::new();
        let mut i: usize = 0;
        while i < sorted.len()
            invariant
                i <= sorted@.len(),
                sorted@ == witness,
                names@.len() == i,
                forall|j: int| 0 <= j < i ==> names@[j] == (#[trigger] witness[j]).1,
            decreases sorted@.len() - i,
        {
            let (_c, name) = &sorted[i];
            names.push(name.clone());
            i = i + 1;
        }
        proof {
            assert({
                &&& witness.to_multiset() == self.tags@.to_multiset()
                &&& counts_sorted(witness)
                &&& names@.len() == witness.len()
                &&& forall|j: int| 0 <= j < witness.len() ==> names@[j] == (#[trigger] witness[j]).1
            });
        }
        names
    }
}

/// Copies count-name pairs value for value.
fn clone_pairs(ps: &Vec<(usize, String)>) -> (r: Vec<(usize, String)>)
    ensures
        r@ == ps@,
{
    let mut out: Vec<(usize, String)> = Vec::new();
    let mut i: usize = 0;
    while i < ps.len()
        invariant
            i <= ps@.len(),
            out@ =~= ps@.take(i as int),
        decreases ps@.len() - i,
    {
        let (c, n) = &ps[i];
        out.push((*c, n.clone()));
        proof {
            assert(out@ =~= ps@.take(i + 1));
        }
        i = i + 1;
    }
    proof {
        assert(ps@.take(ps@.len() as int) =~= ps@);
    }
    out
}

} // verus!
