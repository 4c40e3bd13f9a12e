//! Tags: names attached to catalog entries, deduplicated by name in
//! the record store.

use vstd::prelude::*;

verus! {

#[derive(Clone, Debug)]
pub struct Tag {
    pub name: String,
}

impl View for Tag {
    type V = Seq<char>;

    open spec fn view(&self) -> Seq<char> {
        self.name@
    }
}

impl Tag {
    /// The tag's name text.
    pub fn text(&self) -> (r: &str)
        ensures
            r@ == self@,
    {
        self.name.as_str()
    }

    /// A copy with the same name.
    pub fn duplicate(&self) -> (r: Tag)
        ensures
            r@ == self@,
    {
        Tag { name: self.name.clone() }
    }
}

/// Copies a tag list, name for name.
pub fn clone_tags(ts: &Vec<Tag>) -> (r: Vec<Tag>)
    ensures
        r@.len() == ts@.len(),
        forall|i: int| 0 <= i < ts@.len() ==> #[trigger] r@[i]@ == ts@[i]@,
{
    let mut out: Vec<Tag> = Vec::new();
    let mut i: usize = 0;
    while i < ts.len()
        invariant
            i <= ts@.len(),
            out@.len() == i,
            forall|j: int| 0 <= j < i ==> #[trigger] out@[j]@ == ts@[j]@,
        decreases ts@.len() - i,
    {
        out.push(ts[i].duplicate());
        i = i + 1;
    }
    out
}

} // verus!
