//! The structured record store: a schemaless keyed-document store
//! holding the allocator counter, jobs, tags and catalog entries.
//! The store itself is polodb; only the primitive document and
//! collection operations stand behind trusted wrappers, whose
//! contracts speak over typed field maps of a document and plain
//! models of the four collections.  Encoding records into documents
//! and decoding them back is verified code.

use vstd::prelude::*;
use vstd::multiset::Multiset;
use crate::date::PlainDate;
use crate::entry::{Entry, EntryView, FileInfo};
use crate::id::Id;
use crate::job::{Job, JobView};
use crate::language::Language;
use crate::lines::str_eq;
use crate::tag::Tag;
use crate::timestamp::Timestamp;

verus! {

/// Why a record-store operation failed.
#[derive(Clone, Copy, Debug, PartialEq, Eq, Structural)]
pub enum StoreError {
    /// The queried record is absent.
    NotFound,
    /// The backing store or index reported an I/O or format failure,
    /// or a stored record does not decode.
    Backend,
    /// The allocator counter cannot grow any further.
    CounterRange,
}

#[verifier::external_type_specification]
#[verifier::external_body]
pub struct ExPoloDatabase(polodb_core::Database);

#[verifier::external_type_specification]
#[verifier::external_body]
pub struct ExBsonDocument(polodb_core::bson::Document);

/// The string-valued fields of a document.
pub uninterp spec fn doc_strs(d: polodb_core::bson::Document) -> Map<Seq<char>, Seq<char>>;

/// The 64-bit-integer-valued fields of a document.
pub uninterp spec fn doc_ints(d: polodb_core::bson::Document) -> Map<Seq<char>, i64>;

/// The boolean-valued fields of a document.
pub uninterp spec fn doc_bools(d: polodb_core::bson::Document) -> Map<Seq<char>, bool>;

/// The string-list-valued fields of a document.
pub uninterp spec fn doc_lists(d: polodb_core::bson::Document) -> Map<Seq<char>, Seq<Seq<char>>>;

/// Relies on bson's `Document::new`: a fresh document.  The encoders
/// below set every field they later read, so nothing is assumed of a
/// fresh document's contents.
#[verifier::external_body]
fn doc_new() -> (r: polodb_core::bson::Document) {
    polodb_core::bson::Document::new()
}

/// Relies on bson's `Document::insert`: sets the field to a string,
/// replacing any value the key held.
#[verifier::external_body]
fn doc_put_str(d: &mut polodb_core::bson::Document, k: &str, v: &str)
    ensures
        doc_strs(*final(d)) == doc_strs(*old(d)).insert(k@, v@),
        doc_ints(*final(d)) == doc_ints(*old(d)).remove(k@),
        doc_bools(*final(d)) == doc_bools(*old(d)).remove(k@),
        doc_lists(*final(d)) == doc_lists(*old(d)).remove(k@),
{
    d.insert(k, v);
}

/// Relies on bson's `Document::insert`: sets the field to a 64-bit
/// integer, replacing any value the key held.
#[verifier::external_body]
fn doc_put_i64(d: &mut polodb_core::bson::Document, k: &str, v: i64)
    ensures
        doc_ints(*final(d)) == doc_ints(*old(d)).insert(k@, v),
        doc_strs(*final(d)) == doc_strs(*old(d)).remove(k@),
        doc_bools(*final(d)) == doc_bools(*old(d)).remove(k@),
        doc_lists(*final(d)) == doc_lists(*old(d)).remove(k@),
{
    d.insert(k, v);
}

/// Relies on bson's `Document::insert`: sets the field to a boolean,
/// replacing any value the key held.
#[verifier::external_body]
fn doc_put_bool(d: &mut polodb_core::bson::Document, k: &str, v: bool)
    ensures
        doc_bools(*final(d)) == doc_bools(*old(d)).insert(k@, v),
        doc_strs(*final(d)) == doc_strs(*old(d)).remove(k@),
        doc_ints(*final(d)) == doc_ints(*old(d)).remove(k@),
        doc_lists(*final(d)) == doc_lists(*old(d)).remove(k@),
{
    d.insert(k, v);
}

/// Relies on bson's `Document::insert`: sets the field to an array
/// of strings, replacing any value the key held.
#[verifier::external_body]
fn doc_put_str_list(d: &mut polodb_core::bson::Document, k: &str, v: &Vec<String>)
    ensures
        doc_lists(*final(d)) == doc_lists(*old(d)).insert(k@, v.deep_view()),
        doc_strs(*final(d)) == doc_strs(*old(d)).remove(k@),
        doc_ints(*final(d)) == doc_ints(*old(d)).remove(k@),
        doc_bools(*final(d)) == doc_bools(*old(d)).remove(k@),
{
    d.insert(k, v.clone());
}

/// Relies on bson's `Document::get_str`: the field's string value,
/// or nothing when the key is absent or holds another type.
#[verifier::external_body]
fn doc_get_str(d: &polodb_core::bson::Document, k: &str) -> (r: Option<String>)
    ensures
        r matches Some(s) ==> doc_strs(*d).contains_key(k@) && doc_strs(*d)[k@] == s@,
        r is None ==> !doc_strs(*d).contains_key(k@),
{
    match d.get_str(k) {
        Ok(s) => Some(s.to_string()),
        Err(_) => None,
    }
}

/// Relies on bson's `Document::get_i64`.
#[verifier::external_body]
fn doc_get_i64(d: &polodb_core::bson::Document, k: &str) -> (r: Option<i64>)
    ensures
        r matches Some(v) ==> doc_ints(*d).contains_key(k@) && doc_ints(*d)[k@] == v,
        r is None ==> !doc_ints(*d).contains_key(k@),
{
    match d.get_i64(k) {
        Ok(v) => Some(v),
        Err(_) => None,
    }
}

/// Relies on bson's `Document::get_bool`.
#[verifier::external_body]
fn doc_get_bool(d: &polodb_core::bson::Document, k: &str) -> (r: Option<bool>)
    ensures
        r matches Some(v) ==> doc_bools(*d).contains_key(k@) && doc_bools(*d)[k@] == v,
        r is None ==> !doc_bools(*d).contains_key(k@),
{
    match d.get_bool(k) {
        Ok(v) => Some(v),
        Err(_) => None,
    }
}

/// Relies on bson's `Document::get_array` and `Bson::as_str`: the
/// field's strings, or nothing when the key is absent, not an array,
/// or holds a non-string element.
#[verifier::external_body]
fn doc_get_str_list(d: &polodb_core::bson::Document, k: &str) -> (r: Option<Vec<String>>)
    ensures
        r matches Some(v) ==> doc_lists(*d).contains_key(k@) && doc_lists(*d)[k@]
            == v.deep_view(),
        r is None ==> !doc_lists(*d).contains_key(k@),
{
    let arr = d.get_array(k).ok()?;
    arr.iter().map(|b| b.as_str().map(|s| s.to_string())).collect::<Option<Vec<String>>>()
}

/// Handle to one record-store file.
pub struct RecordStore {
    db: polodb_core::Database,
}

/// The allocator counter the store holds, if its singleton record is
/// present and well-typed.
pub uninterp spec fn store_counter(s: &RecordStore) -> Option<i64>;

/// The catalog entries the store holds, keyed by identifier.  The
/// backing store keeps one record per key, overwriting on re-insert.
pub uninterp spec fn store_entries(s: &RecordStore) -> Map<i64, EntryView>;

/// The well-formed jobs the store holds.
pub uninterp spec fn store_jobs(s: &RecordStore) -> Multiset<JobView>;

/// The tag names the store holds.
pub uninterp spec fn store_tags(s: &RecordStore) -> Multiset<Seq<char>>;

/// Relies on polodb's `Database::open_file`: opens or creates the
/// store file.  Nothing is assumed about the contents found there.
#[verifier::external_body]
pub fn open_store(path: &str) -> (r: Result<RecordStore, StoreError>) {
    match polodb_core::Database::open_file(path) {
        Ok(db) => Ok(RecordStore { db }),
        Err(_) => Err(StoreError::Backend),
    }
}

/// Distinct characters at one position make distinct key texts.
proof fn lemma_key_ne_at(a: Seq<char>, b: Seq<char>, i: int)
    requires
        0 <= i < a.len(),
        0 <= i < b.len(),
        a[i] != b[i],
    ensures
        a != b,
{
}

/// Distinct lengths make distinct key texts.
proof fn lemma_key_ne_len(a: Seq<char>, b: Seq<char>)
    requires
        a.len() != b.len(),
    ensures
        a != b,
{
}

/// The entry a document encodes under the library's flat storage
/// schema: scalar fields, the date as three numbers, the tags as a
/// list of names; malformed documents encode nothing.
pub open spec fn spec_entry_of_doc(d: polodb_core::bson::Document) -> Option<EntryView> {
    let ss = doc_strs(d);
    let is = doc_ints(d);
    let ls = doc_lists(d);
    if ss.contains_key("title"@) && ss.contains_key("description"@) && ss.contains_key(
        "transcript"@,
    ) && is.contains_key("_id"@) && is.contains_key("year"@) && is.contains_key("month"@)
        && is.contains_key("day"@) && is.contains_key("size"@) && is.contains_key("duration"@)
        && ls.contains_key("tags"@) && i32::MIN <= is["year"@] <= i32::MAX && i32::MIN
        <= is["month"@] <= i32::MAX && i32::MIN <= is["day"@] <= i32::MAX && i32::MIN
        <= is["duration"@] <= i32::MAX && 0 <= is["size"@] {
        Some(
            EntryView {
                id: is["_id"@],
                title: ss["title"@],
                description: ss["description"@],
                transcript: ss["transcript"@],
                date: PlainDate {
                    year: is["year"@] as i32,
                    month: is["month"@] as i32,
                    day: is["day"@] as i32,
                },
                tags: ls["tags"@],
                size: is["size"@] as u64,
                duration: is["duration"@] as i32,
            },
        )
    } else {
        None
    }
}

/// Encodes an entry as a stored document.
fn entry_to_doc(e: &Entry) -> (r: polodb_core::bson::Document)
    requires
        e@.size <= 0x7fff_ffff_ffff_ffff,
    ensures
        spec_entry_of_doc(r) == Some(e@),
{
    let mut d = doc_new();
    doc_put_i64(&mut d, "_id", e.id.0);
    doc_put_str(&mut d, "title", e.title.as_str());
    doc_put_str(&mut d, "description", e.description.as_str());
    doc_put_str(&mut d, "transcript", e.transcript.as_str());
    doc_put_i64(&mut d, "year", e.date.year as i64);
    doc_put_i64(&mut d, "month", e.date.month as i64);
    doc_put_i64(&mut d, "day", e.date.day as i64);
    doc_put_i64(&mut d, "size", e.file.size as i64);
    doc_put_i64(&mut d, "duration", e.file.duration as i64);
    let names = tag_names(&e.tags);
    doc_put_str_list(&mut d, "tags", &names);
    proof {
        reveal_strlit("_id");
        reveal_strlit("title");
        reveal_strlit("description");
        reveal_strlit("transcript");
        reveal_strlit("year");
        reveal_strlit("month");
        reveal_strlit("day");
        reveal_strlit("size");
        reveal_strlit("duration");
        reveal_strlit("tags");
        lemma_key_ne_len("_id"@, "title"@);
        lemma_key_ne_len("_id"@, "description"@);
        lemma_key_ne_len("_id"@, "transcript"@);
        lemma_key_ne_len("_id"@, "year"@);
        lemma_key_ne_len("_id"@, "month"@);
        lemma_key_ne_at("_id"@, "day"@, 0);
        lemma_key_ne_len("_id"@, "size"@);
        lemma_key_ne_len("_id"@, "duration"@);
        lemma_key_ne_len("_id"@, "tags"@);
        lemma_key_ne_len("title"@, "description"@);
        lemma_key_ne_len("title"@, "transcript"@);
        lemma_key_ne_len("title"@, "year"@);
        lemma_key_ne_at("title"@, "month"@, 0);
        lemma_key_ne_len("title"@, "day"@);
        lemma_key_ne_len("title"@, "size"@);
        lemma_key_ne_len("title"@, "duration"@);
        lemma_key_ne_len("title"@, "tags"@);
        lemma_key_ne_len("description"@, "transcript"@);
        lemma_key_ne_len("description"@, "year"@);
        lemma_key_ne_len("description"@, "month"@);
        lemma_key_ne_len("description"@, "day"@);
        lemma_key_ne_len("description"@, "size"@);
        lemma_key_ne_len("description"@, "duration"@);
        lemma_key_ne_len("description"@, "tags"@);
        lemma_key_ne_len("transcript"@, "year"@);
        lemma_key_ne_len("transcript"@, "month"@);
        lemma_key_ne_len("transcript"@, "day"@);
        lemma_key_ne_len("transcript"@, "size"@);
        lemma_key_ne_len("transcript"@, "duration"@);
        lemma_key_ne_len("transcript"@, "tags"@);
        lemma_key_ne_len("year"@, "month"@);
        lemma_key_ne_len("year"@, "day"@);
        lemma_key_ne_at("year"@, "size"@, 0);
        lemma_key_ne_len("year"@, "duration"@);
        lemma_key_ne_at("year"@, "tags"@, 0);
        lemma_key_ne_len("month"@, "day"@);
        lemma_key_ne_len("month"@, "size"@);
        lemma_key_ne_len("month"@, "duration"@);
        lemma_key_ne_len("month"@, "tags"@);
        lemma_key_ne_len("day"@, "size"@);
        lemma_key_ne_len("day"@, "duration"@);
        lemma_key_ne_len("day"@, "tags"@);
        lemma_key_ne_len("size"@, "duration"@);
        lemma_key_ne_at("size"@, "tags"@, 0);
        lemma_key_ne_len("duration"@, "tags"@);
        assert(doc_lists(d)["tags"@] =~= e@.tags);
        assert(spec_entry_of_doc(d) == Some(e@));
    }
    d
}

/// The tags' names, in order.
fn tag_names(ts: &Vec<Tag>) -> (r: Vec<String>)
    ensures
        r.deep_view() == Seq::new(ts@.len(), |i: int| ts@[i]@),
{
    let mut out: Vec<String> = Vec::new();
    let mut i: usize = 0;
    while i < ts.len()
        invariant
            i <= ts@.len(),
            out@.len() == i,
            forall|j: int| 0 <= j < i ==> #[trigger] out@[j]@ == ts@[j]@,
        decreases ts@.len() - i,
    {
        out.push(ts[i].name.clone());
        i = i + 1;
    }
    proof {
        assert(out.deep_view() =~= Seq::new(ts@.len(), |i: int| ts@[i]@));
    }
    out
}

/// Decodes a stored document back into an entry; a document missing
/// a field or holding one of the wrong type decodes to nothing.
fn entry_from_doc(d: &polodb_core::bson::Document) -> (r: Option<Entry>)
    ensures
        r matches Some(e) ==> spec_entry_of_doc(*d) == Some(e@),
        r is None ==> spec_entry_of_doc(*d) is None,
{
    let id = match doc_get_i64(d, "_id") {
        Some(v) => v,
        None => {
            return None;
        },
    };
    let title = match doc_get_str(d, "title") {
        Some(v) => v,
        None => {
            return None;
        },
    };
    let description = match doc_get_str(d, "description") {
        Some(v) => v,
        None => {
            return None;
        },
    };
    let transcript = match doc_get_str(d, "transcript") {
        Some(v) => v,
        None => {
            return None;
        },
    };
    let year = match doc_get_i64(d, "year") {
        Some(v) => v,
        None => {
            return None;
        },
    };
    let month = match doc_get_i64(d, "month") {
        Some(v) => v,
        None => {
            return None;
        },
    };
    let day = match doc_get_i64(d, "day") {
        Some(v) => v,
        None => {
            return None;
        },
    };
    let size = match doc_get_i64(d, "size") {
        Some(v) => v,
        None => {
            return None;
        },
    };
    let duration = match doc_get_i64(d, "duration") {
        Some(v) => v,
        None => {
            return None;
        },
    };
    let names = match doc_get_str_list(d, "tags") {
        Some(v) => v,
        None => {
            return None;
        },
    };
    if !(i32::MIN as i64 <= year && year <= i32::MAX as i64 && i32::MIN as i64 <= month && month
        <= i32::MAX as i64 && i32::MIN as i64 <= day && day <= i32::MAX as i64 && i32::MIN as i64
        <= duration && duration <= i32::MAX as i64 && 0 <= size) {
        return None;
    }
    let mut tags: Vec<Tag> = Vec::new();
    let mut i: usize = 0;
    while i < names.len()
        invariant
            i <= names@.len(),
            tags@.len() == i,
            forall|j: int| 0 <= j < i ==> #[trigger] tags@[j]@ == names@[j]@,
        decreases names@.len() - i,
    {
        tags.push(Tag { name: names[i].clone() });
        i = i + 1;
    }
    let e = Entry {
        id: Id(id),
        title,
        description,
        transcript,
        date: PlainDate { year: year as i32, month: month as i32, day: day as i32 },
        tags,
        file: FileInfo { size: size as u64, duration: duration as i32 },
    };
    proof {
        assert(e@.tags =~= doc_lists(*d)["tags"@]);
        assert(spec_entry_of_doc(*d) == Some(e@));
    }
    Some(e)
}

impl RecordStore {
    /// Relies on polodb's `Collection::find_one` on the singleton
    /// configuration record: `Ok(None)` means no record matched.
    #[verifier::external_body]
    fn find_config_doc(&self) -> (r: Result<Option<polodb_core::bson::Document>, StoreError>)
        ensures
            r matches Ok(Some(d)) ==> (match store_counter(self) {
                Some(c) => doc_ints(d).contains_key("counter"@) && doc_ints(d)["counter"@] == c,
                None => !doc_ints(d).contains_key("counter"@),
            }),
            r matches Ok(o) && o is None ==> store_counter(self) is None,
    {
        let mut f = polodb_core::bson::Document::new();
        f.insert("_id", "CONFIG");
        let col = self.db.collection::<polodb_core::bson::Document>("system");
        col.find_one(f).map_err(|_| StoreError::Backend)
    }

    /// Reads the allocator counter; a missing record and a record
    /// whose counter field is not an integer both read as `NotFound`.
    pub fn read_counter(&self) -> (r: Result<i64, StoreError>)
        ensures
            r matches Ok(c) ==> store_counter(self) == Some(c),
            r matches Err(e) ==> (e == StoreError::NotFound ==> store_counter(self) is None),
    {
        match self.find_config_doc() {
            Ok(Some(d)) => {
                match doc_get_i64(&d, "counter") {
                    Some(c) => Ok(c),
                    None => Err(StoreError::NotFound),
                }
            },
            Ok(None) => Err(StoreError::NotFound),
            Err(_) => Err(StoreError::Backend),
        }
    }

    /// Relies on polodb's `Collection::insert_one`: the store keys
    /// records by `_id` and overwrites on an existing key, so this
    /// (re)establishes the singleton counter record.  A failed write
    /// is rolled back.
    #[verifier::external_body]
    pub fn put_counter_record(&mut self, c: i64) -> (r: Result<(), StoreError>)
        ensures
            r is Ok ==> store_counter(final(self)) == Some(c) && store_entries(final(self))
                == store_entries(old(self)) && store_jobs(final(self)) == store_jobs(old(self))
                && store_tags(final(self)) == store_tags(old(self)),
            r is Err ==> store_counter(final(self)) == store_counter(old(self)) && store_entries(
                final(self),
            ) == store_entries(old(self)) && store_jobs(final(self)) == store_jobs(old(self))
                && store_tags(final(self)) == store_tags(old(self)),
    {
        let mut d = polodb_core::bson::Document::new();
        d.insert("_id", "CONFIG");
        d.insert("counter", c);
        let col = self.db.collection::<polodb_core::bson::Document>("system");
        col.insert_one(d).map(|_| ()).map_err(|_| StoreError::Backend)
    }

    /// Relies on polodb's `Collection::update_one` with a `$set`
    /// patch: rewrites the counter field of the record keyed
    /// `CONFIG`, if one exists.  A record whose counter field held
    /// another type is rewritten too, so after a successful write the
    /// counter either reads the new value or, with no record to
    /// patch, stays unreadable and nothing changes.  A failed write
    /// is rolled back.
    #[verifier::external_body]
    pub fn write_counter(&mut self, c: i64) -> (r: Result<(), StoreError>)
        ensures
            r is Ok ==> (store_counter(final(self)) == Some(c) || (store_counter(old(self))
                is None && store_counter(final(self)) is None)) && store_entries(final(self))
                == store_entries(old(self)) && store_jobs(final(self)) == store_jobs(old(self))
                && store_tags(final(self)) == store_tags(old(self)),
            r is Err ==> store_counter(final(self)) == store_counter(old(self)) && store_entries(
                final(self),
            ) == store_entries(old(self)) && store_jobs(final(self)) == store_jobs(old(self))
                && store_tags(final(self)) == store_tags(old(self)),
    {
        let mut f = polodb_core::bson::Document::new();
        f.insert("_id", "CONFIG");
        let mut set = polodb_core::bson::Document::new();
        set.insert("counter", c);
        let mut patch = polodb_core::bson::Document::new();
        patch.insert("$set", set);
        let col = self.db.collection::<polodb_core::bson::Document>("system");
        col.update_one(f, patch).map(|_| ()).map_err(|_| StoreError::Backend)
    }

    /// Relies on polodb's `Collection::insert_one` into the entry
    /// collection, keyed by the entry's identifier.  A failed write
    /// is rolled back.
    #[verifier::external_body]
    fn insert_entry_doc(&mut self, d: polodb_core::bson::Document) -> (r: Result<(), StoreError>)
        requires
            spec_entry_of_doc(d) is Some,
        ensures
            r is Ok ==> store_entries(final(self)) == store_entries(old(self)).insert(
                spec_entry_of_doc(d)->0.id,
                spec_entry_of_doc(d)->0,
            ) && store_counter(final(self)) == store_counter(old(self)) && store_jobs(final(self))
                == store_jobs(old(self)) && store_tags(final(self)) == store_tags(old(self)),
            r is Err ==> store_counter(final(self)) == store_counter(old(self)) && store_entries(
                final(self),
            ) == store_entries(old(self)) && store_jobs(final(self)) == store_jobs(old(self))
                && store_tags(final(self)) == store_tags(old(self)),
    {
        let col = self.db.collection::<polodb_core::bson::Document>("entries");
        col.insert_one(d).map(|_| ()).map_err(|_| StoreError::Backend)
    }

    /// Relies on polodb's `Collection::find_one` by `_id`: returns
    /// the one record stored under the identifier, if any.
    #[verifier::external_body]
    fn find_entry_doc(&self, id: i64) -> (r: Result<
        Option<polodb_core::bson::Document>,
        StoreError,
    >)
        ensures
            r matches Ok(Some(d)) ==> (match spec_entry_of_doc(d) {
                Some(v) => store_entries(self).dom().contains(id) && store_entries(self)[id] == v
                    && v.id == id,
                None => !store_entries(self).dom().contains(id),
            }),
            r matches Ok(o) && o is None ==> !store_entries(self).dom().contains(id),
    {
        let mut f = polodb_core::bson::Document::new();
        f.insert("_id", id);
        let col = self.db.collection::<polodb_core::bson::Document>("entries");
        col.find_one(f).map_err(|_| StoreError::Backend)
    }

    /// Stores a catalog entry under its identifier, overwriting any
    /// record already under that key.
    pub fn insert_entry(&mut self, e: &Entry) -> (r: Result<(), StoreError>)
        requires
            e@.size <= 0x7fff_ffff_ffff_ffff,
        ensures
            r is Ok ==> store_entries(final(self)) == store_entries(old(self)).insert(e@.id, e@)
                && store_counter(final(self)) == store_counter(old(self)) && store_jobs(
                final(self),
            ) == store_jobs(old(self)) && store_tags(final(self)) == store_tags(old(self)),
            r is Err ==> store_counter(final(self)) == store_counter(old(self)) && store_entries(
                final(self),
            ) == store_entries(old(self)) && store_jobs(final(self)) == store_jobs(old(self))
                && store_tags(final(self)) == store_tags(old(self)),
    {
        let d = entry_to_doc(e);
        self.insert_entry_doc(d)
    }

    /// Looks one entry up by identifier.  `Ok(Some)` returns exactly
    /// the stored entry; `Ok(None)` means no record is stored under
    /// the identifier.  A stored record that does not decode is a
    /// backend error, never a silently mended value.
    pub fn get_entry(&self, id: i64) -> (r: Result<Option<Entry>, StoreError>)
        ensures
            r matches Ok(Some(e)) ==> store_entries(self).dom().contains(id) && store_entries(
                self,
            )[id] == e@ && e@.id == id,
            r matches Ok(o) && o is None ==> !store_entries(self).dom().contains(id),
    {
        match self.find_entry_doc(id) {
            Ok(Some(d)) => {
                match entry_from_doc(&d) {
                    Some(e) => Ok(Some(e)),
                    None => Err(StoreError::Backend),
                }
            },
            Ok(None) => Ok(None),
            Err(e) => Err(e),
        }
    }

    /// Whether the catalog already holds an entry under the
    /// identifier.
    pub fn entry_exists(&self, id: i64) -> (r: Result<bool, StoreError>)
        ensures
            r matches Ok(b) ==> b == store_entries(self).dom().contains(id),
    {
        match self.find_entry_doc(id) {
            Ok(Some(d)) => {
                match entry_from_doc(&d) {
                    Some(_) => Ok(true),
                    None => Ok(false),
                }
            },
            Ok(None) => Ok(false),
            Err(e) => Err(e),
        }
    }
}

pub open spec fn in_i32(v: i64) -> bool {
    i32::MIN <= v <= i32::MAX
}

/// The job a document encodes under the library's flat storage
/// schema: scalar fields, the two boundaries as eight numbers, the
/// language as its code; malformed documents encode nothing.
pub open spec fn spec_job_of_doc(d: polodb_core::bson::Document) -> Option<JobView> {
    let ss = doc_strs(d);
    let is = doc_ints(d);
    let bs = doc_bools(d);
    let ls = doc_lists(d);
    if ss.contains_key("uid"@) && ss.contains_key("file"@) && ss.contains_key("title"@)
        && ss.contains_key("description"@) && ss.contains_key("language"@) && (ss["language"@]
        == "en"@ || ss["language"@] == "de"@) && bs.contains_key("done"@) && ls.contains_key(
        "tags"@,
    ) && is.contains_key("year"@) && is.contains_key("month"@) && is.contains_key("day"@)
        && is.contains_key("sh"@) && is.contains_key("sm"@) && is.contains_key("ss"@)
        && is.contains_key("sms"@) && is.contains_key("eh"@) && is.contains_key("em"@)
        && is.contains_key("es"@) && is.contains_key("ems"@) && in_i32(is["year"@]) && in_i32(
        is["month"@],
    ) && in_i32(is["day"@]) && in_i32(is["sh"@]) && in_i32(is["sm"@]) && in_i32(is["ss"@])
        && in_i32(is["sms"@]) && in_i32(is["eh"@]) && in_i32(is["em"@]) && in_i32(is["es"@])
        && in_i32(is["ems"@]) {
        Some(
            JobView {
                uid: ss["uid"@],
                file: ss["file"@],
                title: ss["title"@],
                description: ss["description"@],
                language: if ss["language"@] == "en"@ {
                    Language::EN
                } else {
                    Language::DE
                },
                date: PlainDate {
                    year: is["year"@] as i32,
                    month: is["month"@] as i32,
                    day: is["day"@] as i32,
                },
                start: Timestamp {
                    hours: is["sh"@] as i32,
                    minutes: is["sm"@] as i32,
                    seconds: is["ss"@] as i32,
                    millis: is["sms"@] as i32,
                },
                end: Timestamp {
                    hours: is["eh"@] as i32,
                    minutes: is["em"@] as i32,
                    seconds: is["es"@] as i32,
                    millis: is["ems"@] as i32,
                },
                tags: ls["tags"@],
                done: bs["done"@],
            },
        )
    } else {
        None
    }
}

/// Encodes a job as a stored document.
fn job_to_doc(j: &Job) -> (r: polodb_core::bson::Document)
    ensures
        spec_job_of_doc(r) == Some(j@),
{
    let mut d = doc_new();
    doc_put_str(&mut d, "uid", j.uid.as_str());
    doc_put_str(&mut d, "file", j.file.as_str());
    doc_put_str(&mut d, "title", j.title.as_str());
    doc_put_str(&mut d, "description", j.description.as_str());
    doc_put_str(&mut d, "language", j.language.code());
    doc_put_i64(&mut d, "year", j.date.year as i64);
    doc_put_i64(&mut d, "month", j.date.month as i64);
    doc_put_i64(&mut d, "day", j.date.day as i64);
    doc_put_i64(&mut d, "sh", j.start.hours as i64);
    doc_put_i64(&mut d, "sm", j.start.minutes as i64);
    doc_put_i64(&mut d, "ss", j.start.seconds as i64);
    doc_put_i64(&mut d, "sms", j.start.millis as i64);
    doc_put_i64(&mut d, "eh", j.end.hours as i64);
    doc_put_i64(&mut d, "em", j.end.minutes as i64);
    doc_put_i64(&mut d, "es", j.end.seconds as i64);
    doc_put_i64(&mut d, "ems", j.end.millis as i64);
    let names = tag_names(&j.tags);
    doc_put_str_list(&mut d, "tags", &names);
    doc_put_bool(&mut d, "done", j.done);
    proof {
        reveal_strlit("uid");
        reveal_strlit("file");
        reveal_strlit("title");
        reveal_strlit("description");
        reveal_strlit("language");
        reveal_strlit("year");
        reveal_strlit("month");
        reveal_strlit("day");
        reveal_strlit("sh");
        reveal_strlit("sm");
        reveal_strlit("ss");
        reveal_strlit("sms");
        reveal_strlit("eh");
        reveal_strlit("em");
        reveal_strlit("es");
        reveal_strlit("ems");
        reveal_strlit("tags");
        reveal_strlit("done");
        lemma_key_ne_len("uid"@, "file"@);
        lemma_key_ne_len("uid"@, "title"@);
        lemma_key_ne_len("uid"@, "description"@);
        lemma_key_ne_len("uid"@, "language"@);
        lemma_key_ne_len("uid"@, "year"@);
        lemma_key_ne_len("uid"@, "month"@);
        lemma_key_ne_at("uid"@, "day"@, 0);
        lemma_key_ne_len("uid"@, "sh"@);
        lemma_key_ne_len("uid"@, "sm"@);
        lemma_key_ne_len("uid"@, "ss"@);
        lemma_key_ne_at("uid"@, "sms"@, 0);
        lemma_key_ne_len("uid"@, "eh"@);
        lemma_key_ne_len("uid"@, "em"@);
        lemma_key_ne_len("uid"@, "es"@);
        lemma_key_ne_at("uid"@, "ems"@, 0);
        lemma_key_ne_len("uid"@, "tags"@);
        lemma_key_ne_len("uid"@, "done"@);
        lemma_key_ne_len("file"@, "title"@);
        lemma_key_ne_len("file"@, "description"@);
        lemma_key_ne_len("file"@, "language"@);
        lemma_key_ne_at("file"@, "year"@, 0);
        lemma_key_ne_len("file"@, "month"@);
        lemma_key_ne_len("file"@, "day"@);
        lemma_key_ne_len("file"@, "sh"@);
        lemma_key_ne_len("file"@, "sm"@);
        lemma_key_ne_len("file"@, "ss"@);
        lemma_key_ne_len("file"@, "sms"@);
        lemma_key_ne_len("file"@, "eh"@);
        lemma_key_ne_len("file"@, "em"@);
        lemma_key_ne_len("file"@, "es"@);
        lemma_key_ne_len("file"@, "ems"@);
        lemma_key_ne_at("file"@, "tags"@, 0);
        lemma_key_ne_at("file"@, "done"@, 0);
        lemma_key_ne_len("title"@, "description"@);
        lemma_key_ne_len("title"@, "language"@);
        lemma_key_ne_len("title"@, "year"@);
        lemma_key_ne_at("title"@, "month"@, 0);
        lemma_key_ne_len("title"@, "day"@);
        lemma_key_ne_len("title"@, "sh"@);
        lemma_key_ne_len("title"@, "sm"@);
        lemma_key_ne_len("title"@, "ss"@);
        lemma_key_ne_len("title"@, "sms"@);
        lemma_key_ne_len("title"@, "eh"@);
        lemma_key_ne_len("title"@, "em"@);
        lemma_key_ne_len("title"@, "es"@);
        lemma_key_ne_len("title"@, "ems"@);
        lemma_key_ne_len("title"@, "tags"@);
        lemma_key_ne_len("title"@, "done"@);
        lemma_key_ne_len("description"@, "language"@);
        lemma_key_ne_len("description"@, "year"@);
        lemma_key_ne_len("description"@, "month"@);
        lemma_key_ne_len("description"@, "day"@);
        lemma_key_ne_len("description"@, "sh"@);
        lemma_key_ne_len("description"@, "sm"@);
        lemma_key_ne_len("description"@, "ss"@);
        lemma_key_ne_len("description"@, "sms"@);
        lemma_key_ne_len("description"@, "eh"@);
        lemma_key_ne_len("description"@, "em"@);
        lemma_key_ne_len("description"@, "es"@);
        lemma_key_ne_len("description"@, "ems"@);
        lemma_key_ne_len("description"@, "tags"@);
        lemma_key_ne_len("description"@, "done"@);
        lemma_key_ne_len("language"@, "year"@);
        lemma_key_ne_len("language"@, "month"@);
        lemma_key_ne_len("language"@, "day"@);
        lemma_key_ne_len("language"@, "sh"@);
        lemma_key_ne_len("language"@, "sm"@);
        lemma_key_ne_len("language"@, "ss"@);
        lemma_key_ne_len("language"@, "sms"@);
        lemma_key_ne_len("language"@, "eh"@);
        lemma_key_ne_len("language"@, "em"@);
        lemma_key_ne_len("language"@, "es"@);
        lemma_key_ne_len("language"@, "ems"@);
        lemma_key_ne_len("language"@, "tags"@);
        lemma_key_ne_len("language"@, "done"@);
        lemma_key_ne_len("year"@, "month"@);
        lemma_key_ne_len("year"@, "day"@);
        lemma_key_ne_len("year"@, "sh"@);
        lemma_key_ne_len("year"@, "sm"@);
        lemma_key_ne_len("year"@, "ss"@);
        lemma_key_ne_len("year"@, "sms"@);
        lemma_key_ne_len("year"@, "eh"@);
        lemma_key_ne_len("year"@, "em"@);
        lemma_key_ne_len("year"@, "es"@);
        lemma_key_ne_len("year"@, "ems"@);
        lemma_key_ne_at("year"@, "tags"@, 0);
        lemma_key_ne_at("year"@, "done"@, 0);
        lemma_key_ne_len("month"@, "day"@);
        lemma_key_ne_len("month"@, "sh"@);
        lemma_key_ne_len("month"@, "sm"@);
        lemma_key_ne_len("month"@, "ss"@);
        lemma_key_ne_len("month"@, "sms"@);
        lemma_key_ne_len("month"@, "eh"@);
        lemma_key_ne_len("month"@, "em"@);
        lemma_key_ne_len("month"@, "es"@);
        lemma_key_ne_len("month"@, "ems"@);
        lemma_key_ne_len("month"@, "tags"@);
        lemma_key_ne_len("month"@, "done"@);
        lemma_key_ne_len("day"@, "sh"@);
        lemma_key_ne_len("day"@, "sm"@);
        lemma_key_ne_len("day"@, "ss"@);
        lemma_key_ne_at("day"@, "sms"@, 0);
        lemma_key_ne_len("day"@, "eh"@);
        lemma_key_ne_len("day"@, "em"@);
        lemma_key_ne_len("day"@, "es"@);
        lemma_key_ne_at("day"@, "ems"@, 0);
        lemma_key_ne_len("day"@, "tags"@);
        lemma_key_ne_len("day"@, "done"@);
        lemma_key_ne_at("sh"@, "sm"@, 1);
        lemma_key_ne_at("sh"@, "ss"@, 1);
        lemma_key_ne_len("sh"@, "sms"@);
        lemma_key_ne_at("sh"@, "eh"@, 0);
        lemma_key_ne_at("sh"@, "em"@, 0);
        lemma_key_ne_at("sh"@, "es"@, 0);
        lemma_key_ne_len("sh"@, "ems"@);
        lemma_key_ne_len("sh"@, "tags"@);
        lemma_key_ne_len("sh"@, "done"@);
        lemma_key_ne_at("sm"@, "ss"@, 1);
        lemma_key_ne_len("sm"@, "sms"@);
        lemma_key_ne_at("sm"@, "eh"@, 0);
        lemma_key_ne_at("sm"@, "em"@, 0);
        lemma_key_ne_at("sm"@, "es"@, 0);
        lemma_key_ne_len("sm"@, "ems"@);
        lemma_key_ne_len("sm"@, "tags"@);
        lemma_key_ne_len("sm"@, "done"@);
        lemma_key_ne_len("ss"@, "sms"@);
        lemma_key_ne_at("ss"@, "eh"@, 0);
        lemma_key_ne_at("ss"@, "em"@, 0);
        lemma_key_ne_at("ss"@, "es"@, 0);
        lemma_key_ne_len("ss"@, "ems"@);
        lemma_key_ne_len("ss"@, "tags"@);
        lemma_key_ne_len("ss"@, "done"@);
        lemma_key_ne_len("sms"@, "eh"@);
        lemma_key_ne_len("sms"@, "em"@);
        lemma_key_ne_len("sms"@, "es"@);
        lemma_key_ne_at("sms"@, "ems"@, 0);
        lemma_key_ne_len("sms"@, "tags"@);
        lemma_key_ne_len("sms"@, "done"@);
        lemma_key_ne_at("eh"@, "em"@, 1);
        lemma_key_ne_at("eh"@, "es"@, 1);
        lemma_key_ne_len("eh"@, "ems"@);
        lemma_key_ne_len("eh"@, "tags"@);
        lemma_key_ne_len("eh"@, "done"@);
        lemma_key_ne_at("em"@, "es"@, 1);
        lemma_key_ne_len("em"@, "ems"@);
        lemma_key_ne_len("em"@, "tags"@);
        lemma_key_ne_len("em"@, "done"@);
        lemma_key_ne_len("es"@, "ems"@);
        lemma_key_ne_len("es"@, "tags"@);
        lemma_key_ne_len("es"@, "done"@);
        lemma_key_ne_len("ems"@, "tags"@);
        lemma_key_ne_len("ems"@, "done"@);
        lemma_key_ne_at("tags"@, "done"@, 0);
        reveal_strlit("en");
        reveal_strlit("de");
        lemma_key_ne_at("en"@, "de"@, 0);
        assert(doc_lists(d)["tags"@] =~= j@.tags);
        assert(spec_job_of_doc(d) == Some(j@));
    }
    d
}

/// Decodes a stored document back into a job; a document missing a
/// field or holding one of the wrong type or range decodes to
/// nothing.
fn job_from_doc(d: &polodb_core::bson::Document) -> (r: Option<Job>)
    ensures
        r matches Some(j) ==> spec_job_of_doc(*d) == Some(j@),
        r is None ==> spec_job_of_doc(*d) is None,
{
    let uid = match doc_get_str(d, "uid") {
        Some(v) => v,
        None => {
            return None;
        },
    };
    let file = match doc_get_str(d, "file") {
        Some(v) => v,
        None => {
            return None;
        },
    };
    let title = match doc_get_str(d, "title") {
        Some(v) => v,
        None => {
            return None;
        },
    };
    let description = match doc_get_str(d, "description") {
        Some(v) => v,
        None => {
            return None;
        },
    };
    let language = match doc_get_str(d, "language") {
        Some(v) => v,
        None => {
            return None;
        },
    };
    let lang = if str_eq(language.as_str(), "en") {
        Language::EN
    } else if str_eq(language.as_str(), "de") {
        Language::DE
    } else {
        return None;
    };
    let done = match doc_get_bool(d, "done") {
        Some(v) => v,
        None => {
            return None;
        },
    };
    let names = match doc_get_str_list(d, "tags") {
        Some(v) => v,
        None => {
            return None;
        },
    };
    let v_year = match read_i32_field(d, "year") {
        Some(v) => v,
        None => {
            return None;
        },
    };
    let v_month = match read_i32_field(d, "month") {
        Some(v) => v,
        None => {
            return None;
        },
    };
    let v_day = match read_i32_field(d, "day") {
        Some(v) => v,
        None => {
            return None;
        },
    };
    let v_sh = match read_i32_field(d, "sh") {
        Some(v) => v,
        None => {
            return None;
        },
    };
    let v_sm = match read_i32_field(d, "sm") {
        Some(v) => v,
        None => {
            return None;
        },
    };
    let v_ss = match read_i32_field(d, "ss") {
        Some(v) => v,
        None => {
            return None;
        },
    };
    let v_sms = match read_i32_field(d, "sms") {
        Some(v) => v,
        None => {
            return None;
        },
    };
    let v_eh = match read_i32_field(d, "eh") {
        Some(v) => v,
        None => {
            return None;
        },
    };
    let v_em = match read_i32_field(d, "em") {
        Some(v) => v,
        None => {
            return None;
        },
    };
    let v_es = match read_i32_field(d, "es") {
        Some(v) => v,
        None => {
            return None;
        },
    };
    let v_ems = match read_i32_field(d, "ems") {
        Some(v) => v,
        None => {
            return None;
        },
    };
    let mut tags: Vec<Tag> = Vec::new();
    let mut k: usize = 0;
    while k < names.len()
        invariant
            k <= names@.len(),
            tags@.len() == k,
            forall|j: int| 0 <= j < k ==> #[trigger] tags@[j]@ == names@[j]@,
        decreases names@.len() - k,
    {
        tags.push(Tag { name: names[k].clone() });
        k = k + 1;
    }
    let j = Job {
        uid,
        file,
        title,
        description,
        language: lang,
        date: PlainDate { year: v_year, month: v_month, day: v_day },
        start: Timestamp { hours: v_sh, minutes: v_sm, seconds: v_ss, millis: v_sms },
        end: Timestamp { hours: v_eh, minutes: v_em, seconds: v_es, millis: v_ems },
        tags,
        done,
    };
    proof {
        assert(j@.tags =~= doc_lists(*d)["tags"@]);
        assert(spec_job_of_doc(*d) == Some(j@));
    }
    Some(j)
}

/// Reads an integer field that must fit an `i32`.
fn read_i32_field(d: &polodb_core::bson::Document, k: &str) -> (r: Option<i32>)
    ensures
        r matches Some(v) ==> doc_ints(*d).contains_key(k@) && doc_ints(*d)[k@] == v as i64,
        r is None ==> !doc_ints(*d).contains_key(k@) || !in_i32(doc_ints(*d)[k@]),
{
    let v = match doc_get_i64(d, k) {
        Some(v) => v,
        None => {
            return None;
        },
    };
    if v < i32::MIN as i64 || v > i32::MAX as i64 {
        return None;
    }
    Some(v as i32)
}

impl RecordStore {
    /// Relies on polodb's `Collection::insert_one`: job records carry
    /// no caller key, so every insert adds one record.  A failed
    /// write is rolled back.
    #[verifier::external_body]
    fn insert_job_doc(&mut self, d: polodb_core::bson::Document) -> (r: Result<(), StoreError>)
        requires
            spec_job_of_doc(d) is Some,
        ensures
            r is Ok ==> store_jobs(final(self)) == store_jobs(old(self)).insert(
                spec_job_of_doc(d)->0,
            ) && store_counter(final(self)) == store_counter(old(self)) && store_entries(
                final(self),
            ) == store_entries(old(self)) && store_tags(final(self)) == store_tags(old(self)),
            r is Err ==> store_counter(final(self)) == store_counter(old(self)) && store_entries(
                final(self),
            ) == store_entries(old(self)) && store_jobs(final(self)) == store_jobs(old(self))
                && store_tags(final(self)) == store_tags(old(self)),
    {
        let col = self.db.collection::<polodb_core::bson::Document>("jobs");
        col.insert_one(d).map(|_| ()).map_err(|_| StoreError::Backend)
    }

    /// Records a newly submitted job.
    pub fn insert_job(&mut self, j: &Job) -> (r: Result<(), StoreError>)
        ensures
            r is Ok ==> store_jobs(final(self)) == store_jobs(old(self)).insert(j@)
                && store_counter(final(self)) == store_counter(old(self)) && store_entries(
                final(self),
            ) == store_entries(old(self)) && store_tags(final(self)) == store_tags(old(self)),
            r is Err ==> store_counter(final(self)) == store_counter(old(self)) && store_entries(
                final(self),
            ) == store_entries(old(self)) && store_jobs(final(self)) == store_jobs(old(self))
                && store_tags(final(self)) == store_tags(old(self)),
    {
        let d = job_to_doc(j);
        self.insert_job_doc(d)
    }

    /// Relies on polodb's `Collection::update_one` with a `$set`
    /// patch: marks done the first stored record carrying the uid
    /// field, which need not be one that decodes as a job.  So the
    /// well-formed jobs either stay as they were, or one of them,
    /// carrying the uid, is marked done, or a record carrying the uid
    /// whose done field held the wrong type newly decodes and joins
    /// them, marked done.  A failed write is rolled back.
    #[verifier::external_body]
    pub fn set_job_done(&mut self, uid: &str) -> (r: Result<(), StoreError>)
        ensures
            r is Ok ==> (store_jobs(final(self)) == store_jobs(old(self)) || (exists|j: JobView|
                {
                    &&& store_jobs(old(self)).contains(j)
                    &&& j.uid == uid@
                    &&& store_jobs(final(self)) == store_jobs(old(self)).remove(j).insert(
                        JobView { done: true, ..j },
                    )
                }) || (exists|j: JobView|
                {
                    &&& j.uid == uid@
                    &&& j.done == true
                    &&& store_jobs(final(self)) == store_jobs(old(self)).insert(j)
                })),
            r is Ok ==> store_counter(final(self)) == store_counter(old(self)) && store_entries(
                final(self),
            ) == store_entries(old(self)) && store_tags(final(self)) == store_tags(old(self)),
            r is Err ==> store_counter(final(self)) == store_counter(old(self)) && store_entries(
                final(self),
            ) == store_entries(old(self)) && store_jobs(final(self)) == store_jobs(old(self))
                && store_tags(final(self)) == store_tags(old(self)),
    {
        let mut f = polodb_core::bson::Document::new();
        f.insert("uid", uid.to_string());
        let mut set = polodb_core::bson::Document::new();
        set.insert("done", true);
        let mut patch = polodb_core::bson::Document::new();
        patch.insert("$set", set);
        let col = self.db.collection::<polodb_core::bson::Document>("jobs");
        col.update_one(f, patch).map(|_| ()).map_err(|_| StoreError::Backend)
    }

    /// Relies on polodb's `Collection::find` with a `done == false`
    /// filter: the cursor scans the whole collection, so every
    /// returned document is a stored job record that is not done,
    /// and every stored well-formed job that is not done is among
    /// the returned documents.  A record the cursor fails to yield is
    /// an error for the whole read, never silently dropped, so the
    /// completeness clause stands.
    #[verifier::external_body]
    fn undone_job_docs(&self) -> (r: Result<Vec<polodb_core::bson::Document>, StoreError>)
        ensures
            r matches Ok(ds) ==> forall|i: int|
                0 <= i < ds@.len() ==> (match spec_job_of_doc(#[trigger] ds@[i]) {
                    Some(j) => store_jobs(self).contains(j) && j.done == false,
                    None => true,
                }),
            r matches Ok(ds) ==> forall|j: JobView|
                store_jobs(self).contains(j) && j.done == false ==> exists|i: int|
                    0 <= i < ds@.len() && spec_job_of_doc(#[trigger] ds@[i]) == Some(j),
    {
        let mut f = polodb_core::bson::Document::new();
        f.insert("done", false);
        let col = self.db.collection::<polodb_core::bson::Document>("jobs");
        match col.find(f) {
            Ok(cur) => cur.collect::<Result<Vec<_>, _>>().map_err(|_| StoreError::Backend),
            Err(_) => Err(StoreError::Backend),
        }
    }

    /// The stored jobs not yet marked done: exactly the well-formed
    /// undone records, each returned as stored; records that do not
    /// decode are dropped.
    pub fn undone_jobs(&self) -> (r: Result<Vec<Job>, StoreError>)
        ensures
            r matches Ok(js) ==> forall|i: int|
                0 <= i < js@.len() ==> store_jobs(self).contains(#[trigger] js@[i]@)
                    && js@[i]@.done == false,
            r matches Ok(js) ==> forall|j: JobView|
                store_jobs(self).contains(j) && j.done == false ==> exists|k: int|
                    0 <= k < js@.len() && #[trigger] js@[k]@ == j,
    {
        let docs = match self.undone_job_docs() {
            Ok(ds) => ds,
            Err(e) => {
                return Err(e);
            },
        };
        let mut out: Vec<Job> = Vec::new();
        let mut i: usize = 0;
        while i < docs.len()
            invariant
                i <= docs@.len(),
                forall|k: int|
                    0 <= k < docs@.len() ==> (match spec_job_of_doc(#[trigger] docs@[k]) {
                        Some(j) => store_jobs(self).contains(j) && j.done == false,
                        None => true,
                    }),
                forall|k: int|
                    0 <= k < out@.len() ==> store_jobs(self).contains(#[trigger] out@[k]@)
                        && out@[k]@.done == false,
                forall|k: int|
                    0 <= k < i ==> (match spec_job_of_doc(#[trigger] docs@[k]) {
                        Some(j) => exists|m: int| 0 <= m < out@.len() && #[trigger] out@[m]@ == j,
                        None => true,
                    }),
            decreases docs@.len() - i,
        {
            let ghost prior = out@;
            match job_from_doc(&docs[i]) {
                Some(j) => {
                    out.push(j);
                    proof {
                        assert(out@[prior.len() as int]@ == spec_job_of_doc(
                            docs@[i as int],
                        )->0);
                        assert(forall|m: int| 0 <= m < prior.len() ==> out@[m] == prior[m]);
                    }
                },
                None => {},
            }
            i = i + 1;
        }
        proof {
            if forall|j: JobView|
                store_jobs(self).contains(j) && j.done == false ==> exists|k: int|
                    0 <= k < docs@.len() && spec_job_of_doc(#[trigger] docs@[k]) == Some(j) {
                assert forall|j: JobView|
                    store_jobs(self).contains(j) && j.done == false implies exists|k: int|
                        0 <= k < out@.len() && #[trigger] out@[k]@ == j by {
                    let w = choose|w: int|
                        0 <= w < docs@.len() && spec_job_of_doc(#[trigger] docs@[w]) == Some(j);
                    assert(spec_job_of_doc(docs@[w]) matches Some(jj) && jj == j);
                }
            }
        }
        Ok(out)
    }

    /// Relies on polodb's `Collection::find_one` by name on the tag
    /// collection.
    #[verifier::external_body]
    pub fn find_tag(&self, name: &str) -> (r: Result<bool, StoreError>)
        ensures
            r matches Ok(b) ==> b == store_tags(self).contains(name@),
    {
        let mut f = polodb_core::bson::Document::new();
        f.insert("name", name.to_string());
        let col = self.db.collection::<polodb_core::bson::Document>("tags");
        match col.find_one(f) {
            Ok(o) => Ok(o.is_some()),
            Err(_) => Err(StoreError::Backend),
        }
    }

    /// Relies on polodb's `Collection::insert_one` on the tag
    /// collection: adds one name record.  A failed write is rolled
    /// back.
    #[verifier::external_body]
    pub fn insert_tag(&mut self, name: &str) -> (r: Result<(), StoreError>)
        ensures
            r is Ok ==> store_tags(final(self)) == store_tags(old(self)).insert(name@)
                && store_counter(final(self)) == store_counter(old(self)) && store_entries(
                final(self),
            ) == store_entries(old(self)) && store_jobs(final(self)) == store_jobs(old(self)),
            r is Err ==> store_counter(final(self)) == store_counter(old(self)) && store_entries(
                final(self),
            ) == store_entries(old(self)) && store_jobs(final(self)) == store_jobs(old(self))
                && store_tags(final(self)) == store_tags(old(self)),
    {
        let mut d = polodb_core::bson::Document::new();
        d.insert("name", name.to_string());
        let col = self.db.collection::<polodb_core::bson::Document>("tags");
        col.insert_one(d).map(|_| ()).map_err(|_| StoreError::Backend)
    }
}

} // verus!
