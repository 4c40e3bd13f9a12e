//! The durable catalog record: one entry per processed clip, plus the
//! raw shape a search hit takes before it is resolved against the
//! record store.

use vstd::prelude::*;
use crate::date::PlainDate;
use crate::id::Id;
use crate::tag::Tag;

verus! {

/// Size and duration of the stored clip file.
#[derive(Clone, Copy, Debug, PartialEq, Eq, Structural)]
pub struct FileInfo {
    /// In bytes.
    pub size: u64,
    /// In seconds.
    pub duration: i32,
}

impl Default for FileInfo {
    fn default() -> (r: Self)
        ensures
            r == (FileInfo { size: 0u64, duration: 0i32 }),
    {
        FileInfo { size: 0, duration: 0 }
    }
}

/// The mathematical shape of an entry: every field as a plain value.
pub ghost struct EntryView {
    pub id: i64,
    pub title: Seq<char>,
    pub description: Seq<char>,
    pub transcript: Seq<char>,
    pub date: PlainDate,
    pub tags: Seq<Seq<char>>,
    pub size: u64,
    pub duration: i32,
}

#[derive(Clone, Debug)]
pub struct Entry {
    pub id: Id,
    pub title: String,
    pub description: String,
    pub transcript: String,
    pub date: PlainDate,
    pub tags: Vec<Tag>,
    pub file: FileInfo,
}

impl View for Entry {
    type V = EntryView;

    open spec fn view(&self) -> EntryView {
        EntryView {
            id: self.id.0,
            title: self.title@,
            description: self.description@,
            transcript: self.transcript@,
            date: self.date,
            tags: Seq::new(self.tags@.len(), |i: int| self.tags@[i]@),
            size: self.file.size,
            duration: self.file.duration,
        }
    }
}

impl Entry {
    pub fn new(
        id: Id,
        title: String,
        description: String,
        transcript: String,
        date: PlainDate,
        tags: Vec<Tag>,
        file: FileInfo,
    ) -> (r: Entry)
        ensures
            r@ == (EntryView {
                id: id.0,
                title: title@,
                description: description@,
                transcript: transcript@,
                date: date,
                tags: Seq::new(tags@.len(), |i: int| tags@[i]@),
                size: file.size,
                duration: file.duration,
            }),
    {
        Entry { id, title, description, transcript, date, tags, file }
    }
}

/// A raw search hit: the stored numeric identifiers of one indexed
/// document.  The index stores the identifier as a repeated field, so
/// a well-formed hit carries exactly one value.
#[derive(Clone, Debug)]
pub struct Indexed {
    pub id: Vec<i64>,
}

impl Indexed {
    /// The hit's single identifier.  A hit holding no identifier or
    /// more than one is malformed and is an error, never silently
    /// truncated.
    pub fn single_id(&self) -> (r: Option<i64>)
        ensures
            r is Some <==> self.id@.len() == 1,
            r matches Some(v) ==> v == self.id@[0],
    {
        if self.id.len() == 1 {
            Some(self.id[0])
        } else {
            None
        }
    }
}

} // verus!
