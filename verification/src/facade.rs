//! The dual-store facade: one surface over the record store and the
//! search index.  Anything inserted "indexed" lands in both stores,
//! identifiers come from the store-backed sequence allocator, and
//! searching resolves index hits back into full records.

use vstd::prelude::*;
use crate::config::Config;
use crate::entry::Entry;
use crate::id::Id;
use crate::entry::EntryView;
use crate::index::{entry_batch_ids, indexed_docs, SearchIndex};
use crate::job::{
    spec_boundaries_ok, spec_boundary, spec_capture_date, spec_first_line, Job, JobError,
};
use crate::language::spec_trim;
use crate::store::{
    store_counter, store_entries, store_jobs, store_tags, RecordStore, StoreError,
};
use crate::tag::Tag;
use crate::text::{lemma_spec_split_len, spec_split, split_char};
use crate::language::trim_blanks;

verus! {

pub struct DualStore {
    pub store: RecordStore,
    pub index: SearchIndex,
}

/// Why a job submission failed: the request itself, or the store.
#[derive(Clone, Copy, Debug, PartialEq, Eq, Structural)]
pub enum SubmitError {
    Request(JobError),
    Store(StoreError),
}

/// Relies on uuid's `Uuid::new_v4` and its hyphenated text form: a
/// fresh random identifier.  Nothing is assumed about its value.
#[verifier::external_body]
fn fresh_uid() -> (r: String) {
    uuid::Uuid::new_v4().to_string()
}

/// The query's search terms: its blank-separated words, stripped,
/// empties dropped, in order.
pub open spec fn spec_terms(pieces: Seq<Seq<char>>) -> Seq<Seq<char>>
    decreases pieces.len(),
{
    if pieces.len() == 0 {
        Seq::<Seq<char>>::empty()
    } else {
        let h = spec_trim(pieces[0]);
        let rest = spec_terms(pieces.drop_first());
        if h.len() > 0 {
            seq![h].add(rest)
        } else {
            rest
        }
    }
}

pub open spec fn spec_search_terms(q: Seq<char>) -> Seq<Seq<char>> {
    spec_terms(spec_split(q, ' '))
}

/// Splits a free-text query into its terms.
fn tokenize(q: &str) -> (r: Vec<String>)
    ensures
        r.deep_view() == spec_search_terms(q@),
{
    let pieces = split_char(q, ' ');
    let ghost all = spec_split(q@, ' ');
    let mut out: Vec<String> = Vec::new();
    let mut i: usize = 0;
    proof {
        assert(all.skip(0) =~= all);
    }
    while i < pieces.len()
        invariant
            i <= pieces@.len(),
            pieces.deep_view() == all,
            pieces@.len() == all.len(),
            spec_terms(all) =~~= out.deep_view().add(spec_terms(all.skip(i as int))),
        decreases pieces@.len() - i,
    {
        proof {
            assert(all.skip(i as int)[0] == all[i as int]);
            assert(all.skip(i as int).drop_first() =~= all.skip(i + 1));
            assert(pieces.deep_view()[i as int] == pieces@[i as int]@);
        }
        let t = trim_blanks(pieces[i].as_str());
        if t.unicode_len() > 0 {
            let ghost before = out.deep_view();
            out.push(t.to_owned());
            proof {
                assert(out.deep_view() =~~= before.push(t@));
                assert(spec_terms(all) =~~= out.deep_view().add(spec_terms(all.skip(i + 1))));
            }
        } else {
            proof {
                assert(spec_terms(all) =~~= out.deep_view().add(spec_terms(all.skip(i + 1))));
            }
        }
        i = i + 1;
    }
    proof {
        assert(all.skip(all.len() as int) =~= Seq::<Seq<char>>::empty());
        assert(out.deep_view() =~~= spec_terms(all));
    }
    out
}

/// The views of a run of tags, in order.
pub open spec fn tag_views(ts: Seq<Tag>) -> Seq<Seq<char>> {
    Seq::new(ts.len(), |i: int| ts[i]@)
}

/// The tag names a submission's tag lines denote: each line split on
/// spaces, all words in order.
pub open spec fn spec_tag_words(lines: Seq<String>) -> Seq<Seq<char>>
    decreases lines.len(),
{
    if lines.len() == 0 {
        Seq::<Seq<char>>::empty()
    } else {
        spec_tag_words(lines.drop_last()).add(spec_split(lines.last()@, ' '))
    }
}

/// The views of a run of entries, in order.
pub open spec fn entry_views(es: Seq<Entry>) -> Seq<EntryView> {
    Seq::new(es.len(), |i: int| es[i]@)
}

/// The catalog after storing a run of entries in order, each keyed by
/// its identifier, later entries overwriting earlier ones.
pub open spec fn spec_catalog_after(m: Map<i64, EntryView>, es: Seq<EntryView>) -> Map<
    i64,
    EntryView,
>
    decreases es.len(),
{
    if es.len() == 0 {
        m
    } else {
        spec_catalog_after(m, es.drop_last()).insert(es.last().id, es.last())
    }
}

impl DualStore {
    /// Joins an opened record store and search index into one facade
    /// and makes sure the allocator's counter record exists: an
    /// existing counter is kept and nothing else is touched; a
    /// missing one is seeded with the starting value.
    pub fn new(store: RecordStore, index: SearchIndex) -> (r: Result<DualStore, StoreError>)
        ensures
            r matches Ok(db) ==> {
                &&& store_counter(&db.store) is Some
                &&& (store_counter(&store) matches Some(c0) ==> store_counter(&db.store) == Some(
                    c0,
                ))
                &&& (store_counter(&store) is None ==> store_counter(&db.store) == Some(1i64))
                &&& store_entries(&db.store) == store_entries(&store)
                &&& store_jobs(&db.store) == store_jobs(&store)
                &&& store_tags(&db.store) == store_tags(&store)
                &&& indexed_docs(&db.index) == indexed_docs(&index)
            },
    {
        let mut db = DualStore { store, index };
        match db.ensure_configured() {
            Ok(_) => Ok(db),
            Err(e) => Err(e),
        }
    }

    /// Reads the allocator counter, seeding the singleton record with
    /// its starting value only when it is known absent: an existing
    /// readable counter is returned as it stands and the store is not
    /// modified, so a second call returns the same value.  A counter
    /// that cannot be read for any other reason is an error, never
    /// silently reseeded.
    pub fn ensure_configured(&mut self) -> (r: Result<i64, StoreError>)
        ensures
            r matches Ok(c) ==> {
                &&& store_counter(&final(self).store) == Some(c)
                &&& (store_counter(&old(self).store) matches Some(c0) ==> c == c0
                    && store_counter(&final(self).store) == store_counter(&old(self).store))
                &&& (store_counter(&old(self).store) is None ==> c == 1)
                &&& store_entries(&final(self).store) == store_entries(&old(self).store)
                &&& store_jobs(&final(self).store) == store_jobs(&old(self).store)
                &&& store_tags(&final(self).store) == store_tags(&old(self).store)
                &&& indexed_docs(&final(self).index) == indexed_docs(&old(self).index)
            },
            r is Err ==> {
                &&& store_counter(&final(self).store) == store_counter(&old(self).store)
                &&& store_entries(&final(self).store) == store_entries(&old(self).store)
                &&& store_jobs(&final(self).store) == store_jobs(&old(self).store)
                &&& store_tags(&final(self).store) == store_tags(&old(self).store)
                &&& indexed_docs(&final(self).index) == indexed_docs(&old(self).index)
            },
    {
        match self.store.read_counter() {
            Ok(c) => Ok(c),
            Err(StoreError::NotFound) => {
                match self.store.put_counter_record(1) {
                    Ok(_) => Ok(1),
                    Err(e) => Err(e),
                }
            },
            Err(e) => Err(e),
        }
    }

    /// The current configuration record.
    pub fn get_config(&self) -> (r: Result<Config, StoreError>)
        ensures
            r matches Ok(c) ==> store_counter(&self.store) == Some(c.counter) && c.id@
                == "CONFIG"@,
    {
        match self.store.read_counter() {
            Ok(c) => Ok(Config { id: "CONFIG".to_owned(), counter: c }),
            Err(e) => Err(e),
        }
    }

    /// The sequence allocator: reads the counter, increments it, and
    /// writes it back.  Each successful call returns a value exactly
    /// one above the stored counter, so successive successful calls
    /// return strictly increasing identifiers.  Exclusive access to
    /// the store serializes the read-increment-write step.
    pub fn get_config_incr(&mut self) -> (r: Result<i64, StoreError>)
        ensures
            r matches Ok(n) ==> {
                &&& n > i64::MIN
                &&& store_counter(&old(self).store) == Some((n - 1) as i64)
                &&& store_counter(&final(self).store) == Some(n)
                &&& store_entries(&final(self).store) == store_entries(&old(self).store)
                &&& store_jobs(&final(self).store) == store_jobs(&old(self).store)
                &&& store_tags(&final(self).store) == store_tags(&old(self).store)
                &&& indexed_docs(&final(self).index) == indexed_docs(&old(self).index)
            },
            r is Err ==> {
                &&& store_counter(&final(self).store) == store_counter(&old(self).store)
                &&& store_entries(&final(self).store) == store_entries(&old(self).store)
                &&& store_jobs(&final(self).store) == store_jobs(&old(self).store)
                &&& store_tags(&final(self).store) == store_tags(&old(self).store)
                &&& indexed_docs(&final(self).index) == indexed_docs(&old(self).index)
            },
    {
        let c = match self.store.read_counter() {
            Ok(c) => c,
            Err(e) => {
                return Err(e);
            },
        };
        if c == i64::MAX {
            return Err(StoreError::CounterRange);
        }
        match self.store.write_counter(c + 1) {
            Ok(_) => Ok(c + 1),
            Err(e) => Err(e),
        }
    }

    /// A fresh catalog identifier from the allocator.
    pub fn alloc_id(&mut self) -> (r: Result<Id, StoreError>)
        ensures
            r matches Ok(id) ==> {
                &&& id.0 > i64::MIN
                &&& store_counter(&old(self).store) == Some((id.0 - 1) as i64)
                &&& store_counter(&final(self).store) == Some(id.0)
                &&& store_entries(&final(self).store) == store_entries(&old(self).store)
                &&& store_jobs(&final(self).store) == store_jobs(&old(self).store)
                &&& store_tags(&final(self).store) == store_tags(&old(self).store)
                &&& indexed_docs(&final(self).index) == indexed_docs(&old(self).index)
            },
            r is Err ==> {
                &&& store_counter(&final(self).store) == store_counter(&old(self).store)
                &&& store_entries(&final(self).store) == store_entries(&old(self).store)
                &&& store_jobs(&final(self).store) == store_jobs(&old(self).store)
                &&& store_tags(&final(self).store) == store_tags(&old(self).store)
                &&& indexed_docs(&final(self).index) == indexed_docs(&old(self).index)
            },
    {
        match self.get_config_incr() {
            Ok(n) => Ok(Id(n)),
            Err(e) => Err(e),
        }
    }

    /// Writes an entry into the record store first and then into the
    /// search index.  The write is guarded for idempotence: when the
    /// catalog already holds the identifier, nothing is written
    /// anywhere and the call reports it, so re-running a finalization
    /// can never produce a second record or a second index document
    /// under one identifier.  A failure between the two writes leaves
    /// the record stored but unindexed: the accepted inconsistency
    /// window, repaired only by an external reconciliation sweep.
    pub fn insert_indexed(&mut self, e: &Entry) -> (r: Result<bool, StoreError>)
        requires
            e@.size <= 0x7fff_ffff_ffff_ffff,
        ensures
            r matches Ok(fresh) ==> (fresh ==> {
                &&& !store_entries(&old(self).store).dom().contains(e@.id)
                &&& store_entries(&final(self).store) == store_entries(&old(self).store).insert(
                    e@.id,
                    e@,
                )
                &&& indexed_docs(&final(self).index) == indexed_docs(&old(self).index).insert(
                    seq![e@.id],
                )
                &&& store_counter(&final(self).store) == store_counter(&old(self).store)
                &&& store_jobs(&final(self).store) == store_jobs(&old(self).store)
                &&& store_tags(&final(self).store) == store_tags(&old(self).store)
            }),
            r matches Ok(fresh) ==> (!fresh ==> {
                &&& store_entries(&old(self).store).dom().contains(e@.id)
                &&& store_entries(&final(self).store) == store_entries(&old(self).store)
                &&& indexed_docs(&final(self).index) == indexed_docs(&old(self).index)
                &&& store_counter(&final(self).store) == store_counter(&old(self).store)
                &&& store_jobs(&final(self).store) == store_jobs(&old(self).store)
                &&& store_tags(&final(self).store) == store_tags(&old(self).store)
            }),
            r is Err ==> {
                &&& (
                // nothing written yet
                (store_entries(&final(self).store) == store_entries(&old(self).store)
                    && indexed_docs(&final(self).index) == indexed_docs(&old(self).index))
                // the record landed, the index write never did: the window
                 || (store_entries(&final(self).store) == store_entries(&old(self).store).insert(
                    e@.id,
                    e@,
                ) && indexed_docs(&final(self).index) == indexed_docs(&old(self).index))
                // the record landed and the index write reached the writer
                 || (store_entries(&final(self).store) == store_entries(&old(self).store).insert(
                    e@.id,
                    e@,
                ) && indexed_docs(&final(self).index) == indexed_docs(&old(self).index).insert(
                    seq![e@.id],
                )))
                &&& store_counter(&final(self).store) == store_counter(&old(self).store)
                &&& store_jobs(&final(self).store) == store_jobs(&old(self).store)
                &&& store_tags(&final(self).store) == store_tags(&old(self).store)
            },
    {
        let exists = match self.store.entry_exists(e.id.0) {
            Ok(b) => b,
            Err(e) => {
                return Err(e);
            },
        };
        if exists {
            return Ok(false);
        }
        match self.store.insert_entry(e) {
            Ok(_) => {},
            Err(e) => {
                return Err(e);
            },
        }
        let secs = crate::index::date_epoch_secs(&e.date);
        match self.index.index_entry(e, secs) {
            Ok(_) => Ok(true),
            Err(err) => Err(err),
        }
    }

    /// Writes every entry into the record store, in order, and then
    /// indexes them all under one commit.  Unlike the single guarded
    /// insert, the batch write is a bulk load and is not guarded: an
    /// entry whose identifier is already catalogued overwrites the
    /// record.  A failure leaves some prefix of the records stored
    /// and at most a prefix of the documents indexed: the same
    /// inconsistency window as the single insert, repaired only by an
    /// external reconciliation sweep.
    pub fn insert_indexed_many(&mut self, entries: &Vec<Entry>) -> (r: Result<(), StoreError>)
        requires
            forall|i: int|
                0 <= i < entries@.len() ==> (#[trigger] entries@[i])@.size
                    <= 0x7fff_ffff_ffff_ffff,
        ensures
            r is Ok ==> {
                &&& store_entries(&final(self).store) == spec_catalog_after(
                    store_entries(&old(self).store),
                    entry_views(entries@),
                )
                &&& indexed_docs(&final(self).index) == indexed_docs(&old(self).index).add(
                    entry_batch_ids(entries@, entries@.len() as int),
                )
                &&& store_counter(&final(self).store) == store_counter(&old(self).store)
                &&& store_jobs(&final(self).store) == store_jobs(&old(self).store)
                &&& store_tags(&final(self).store) == store_tags(&old(self).store)
            },
            r is Err ==> {
                &&& exists|k: int|
                    0 <= k <= entries@.len() && store_entries(&final(self).store)
                        == spec_catalog_after(
                        store_entries(&old(self).store),
                        #[trigger] entry_views(entries@).take(k),
                    )
                &&& (indexed_docs(&final(self).index) == indexed_docs(&old(self).index)
                    || exists|k: int|
                    0 <= k <= entries@.len() && indexed_docs(&final(self).index) == indexed_docs(
                        &old(self).index,
                    ).add(#[trigger] entry_batch_ids(entries@, k)))
                &&& (indexed_docs(&final(self).index) != indexed_docs(&old(self).index)
                    ==> store_entries(&final(self).store) == spec_catalog_after(
                    store_entries(&old(self).store),
                    entry_views(entries@),
                ))
                &&& store_counter(&final(self).store) == store_counter(&old(self).store)
                &&& store_jobs(&final(self).store) == store_jobs(&old(self).store)
                &&& store_tags(&final(self).store) == store_tags(&old(self).store)
            },
    {
        let ghost base = store_entries(&old(self).store);
        let mut i: usize = 0;
        proof {
            assert(entry_views(entries@).take(0) =~= Seq::<EntryView>::empty());
        }
        while i < entries.len()
            invariant
                i <= entries@.len(),
                forall|k: int|
                    0 <= k < entries@.len() ==> (#[trigger] entries@[k])@.size
                        <= 0x7fff_ffff_ffff_ffff,
                base == store_entries(&old(self).store),
                store_entries(&self.store) == spec_catalog_after(
                    base,
                    entry_views(entries@).take(i as int),
                ),
                store_counter(&self.store) == store_counter(&old(self).store),
                store_jobs(&self.store) == store_jobs(&old(self).store),
                store_tags(&self.store) == store_tags(&old(self).store),
                indexed_docs(&self.index) == indexed_docs(&old(self).index),
            decreases entries@.len() - i,
        {
            match self.store.insert_entry(&entries[i]) {
                Ok(_) => {},
                Err(e) => {
                    proof {
                        assert(store_entries(&self.store) == spec_catalog_after(
                            base,
                            #[trigger] entry_views(entries@).take(i as int),
                        ));
                    }
                    return Err(e);
                },
            }
            proof {
                assert(entry_views(entries@).take(i + 1).drop_last() =~= entry_views(
                    entries@,
                ).take(i as int));
                assert(entry_views(entries@).take(i + 1).last() == entries@[i as int]@);
            }
            i = i + 1;
        }
        proof {
            assert(entry_views(entries@).take(entries@.len() as int) =~= entry_views(entries@));
        }
        let mut secs: Vec<i64> = Vec::new();
        let mut j: usize = 0;
        while j < entries.len()
            invariant
                j <= entries@.len(),
                secs@.len() == j,
            decreases entries@.len() - j,
        {
            secs.push(crate::index::date_epoch_secs(&entries[j].date));
            j = j + 1;
        }
        let res = self.index.index_entries(entries, &secs);
        proof {
            if res is Err {
                assert(store_entries(&self.store) == spec_catalog_after(
                    base,
                    #[trigger] entry_views(entries@).take(entries@.len() as int),
                ));
            }
        }
        res
    }

    /// Searches the catalog: every whitespace-separated query term
    /// must match title, description, transcript or tags with edit
    /// distance at most 2; up to `limit` hits return by falling
    /// relevance.  Every returned entry is exactly the record the
    /// store holds under an indexed identifier.  A hit carrying zero
    /// or several identifiers is malformed and is an error; a hit
    /// whose record has gone from the store is dropped.
    pub fn search(&self, query: &str, limit: usize) -> (r: Result<Vec<Entry>, StoreError>)
        requires
            limit >= 1,
        ensures
            r matches Ok(found) ==> found@.len() <= limit && forall|i: int|
                0 <= i < found@.len() ==> {
                    &&& store_entries(&self.store).dom().contains(#[trigger] found@[i]@.id)
                    &&& store_entries(&self.store)[found@[i]@.id] == found@[i]@
                    &&& indexed_docs(&self.index).contains(seq![found@[i]@.id])
                },
    {
        let terms = tokenize(query);
        let hits = match self.index.search_terms(&terms, limit) {
            Ok(h) => h,
            Err(e) => {
                return Err(e);
            },
        };
        let mut found: Vec<Entry> = Vec::new();
        let mut i: usize = 0;
        while i < hits.len()
            invariant
                i <= hits@.len(),
                hits@.len() <= limit,
                found@.len() <= i,
                forall|k: int|
                    0 <= k < hits@.len() ==> indexed_docs(&self.index).contains(
                        #[trigger] hits@[k].id@,
                    ),
                forall|k: int|
                    0 <= k < found@.len() ==> {
                        &&& store_entries(&self.store).dom().contains(#[trigger] found@[k]@.id)
                        &&& store_entries(&self.store)[found@[k]@.id] == found@[k]@
                        &&& indexed_docs(&self.index).contains(seq![found@[k]@.id])
                    },
            decreases hits@.len() - i,
        {
            let id = match hits[i].single_id() {
                Some(v) => v,
                None => {
                    return Err(StoreError::Backend);
                },
            };
            proof {
                assert(hits@[i as int].id@ =~= seq![id]);
            }
            match self.store.get_entry(id) {
                Ok(Some(e)) => {
                    found.push(e);
                },
                Ok(None) => {},
                Err(e) => {
                    return Err(e);
                },
            }
            i = i + 1;
        }
        Ok(found)
    }

    /// Builds, validates and records a new job from raw input lines.
    /// The request is validated first; a rejected request carries
    /// exactly the first failing condition, in the validation order,
    /// and touches nothing.  Tag lines are then split on spaces; each
    /// word becomes a tag, looked up or created in the store.  The
    /// recorded job carries every field from the inputs, the tag
    /// words in order, a fresh uid, and is not done.
    pub fn create_job(
        &mut self,
        file: String,
        start_ts: &[String],
        end_ts: &[String],
        title_vec: &[String],
        desc_vec: &[String],
        lang_vec: &[String],
        date_input: &[String],
        tag_lines: &[String],
    ) -> (r: Result<Job, SubmitError>)
        ensures
            r matches Ok(j) ==> {
                &&& j.wf()
                &&& j@.done == false
                &&& j@.file == file@
                &&& spec_boundary(start_ts@) == Some(j@.start)
                &&& spec_boundary(end_ts@) == Some(j@.end)
                &&& j@.title == spec_first_line(title_vec@)
                &&& j@.description == spec_first_line(desc_vec@)
                &&& (lang_vec@.len() > 0 ==> j@.language == crate::language::Language::spec_from_str(
                    lang_vec@[0]@,
                ))
                &&& (lang_vec@.len() == 0 ==> j@.language == crate::language::Language::DE)
                &&& spec_capture_date(date_input@) == Some(j@.date)
                &&& j@.tags == spec_tag_words(tag_lines@)
                &&& store_jobs(&final(self).store) == store_jobs(&old(self).store).insert(j@)
                &&& forall|i: int|
                    0 <= i < j@.tags.len() ==> store_tags(&final(self).store).contains(
                        #[trigger] j@.tags[i],
                    )
                &&& store_entries(&final(self).store) == store_entries(&old(self).store)
                &&& store_counter(&final(self).store) == store_counter(&old(self).store)
                &&& indexed_docs(&final(self).index) == indexed_docs(&old(self).index)
            },
            r == Err::<Job, SubmitError>(SubmitError::Request(JobError::InvalidFile)) <==> file@.len()
                == 0,
            r == Err::<Job, SubmitError>(SubmitError::Request(JobError::InvalidTimestamp)) <==> file@.len()
                > 0 && !(spec_boundary(start_ts@) matches Some(st) && spec_boundary(end_ts@)
                matches Some(en) && spec_boundaries_ok(st, en)),
            r == Err::<Job, SubmitError>(SubmitError::Request(JobError::InvalidDate)) <==> file@.len()
                > 0 && (spec_boundary(start_ts@) matches Some(st) && spec_boundary(end_ts@)
                matches Some(en) && spec_boundaries_ok(st, en)) && spec_capture_date(date_input@)
                is None,
            r == Err::<Job, SubmitError>(SubmitError::Request(JobError::InvalidJob)) <==> file@.len()
                > 0 && (spec_boundary(start_ts@) matches Some(st) && spec_boundary(end_ts@)
                matches Some(en) && spec_boundaries_ok(st, en)) && spec_capture_date(date_input@)
                is Some && spec_first_line(title_vec@).len() == 0,
            r matches Err(x) ==> (x matches SubmitError::Request(e) ==> {
                &&& store_tags(&final(self).store) == store_tags(&old(self).store)
                &&& store_jobs(&final(self).store) == store_jobs(&old(self).store)
                &&& store_entries(&final(self).store) == store_entries(&old(self).store)
                &&& store_counter(&final(self).store) == store_counter(&old(self).store)
                &&& indexed_docs(&final(self).index) == indexed_docs(&old(self).index)
            }),
            r matches Err(x) ==> (x matches SubmitError::Store(se) ==> {
                &&& file@.len() > 0 && (spec_boundary(start_ts@) matches Some(st) && spec_boundary(
                    end_ts@,
                ) matches Some(en) && spec_boundaries_ok(st, en)) && spec_capture_date(date_input@)
                    is Some && spec_first_line(title_vec@).len() > 0
                &&& store_jobs(&final(self).store) == store_jobs(&old(self).store)
                &&& store_entries(&final(self).store) == store_entries(&old(self).store)
                &&& store_counter(&final(self).store) == store_counter(&old(self).store)
                &&& indexed_docs(&final(self).index) == indexed_docs(&old(self).index)
            }),
    {
        match Job::check_request(file.as_str(), start_ts, end_ts, title_vec, date_input) {
            Ok(_) => {},
            Err(e) => {
                return Err(SubmitError::Request(e));
            },
        }
        let mut tags: Vec<Tag> = Vec::new();
        let mut li: usize = 0;
        proof {
            assert(tag_lines@.take(0) =~= Seq::<String>::empty());
            assert(tag_views(tags@) =~= spec_tag_words(tag_lines@.take(0)));
        }
        while li < tag_lines.len()
            invariant
                file@.len() > 0,
                spec_boundary(start_ts@) matches Some(st) && spec_boundary(end_ts@) matches Some(
                    en,
                ) && spec_boundaries_ok(st, en),
                spec_capture_date(date_input@) is Some,
                spec_first_line(title_vec@).len() > 0,
                li <= tag_lines@.len(),
                tag_views(tags@) =~= spec_tag_words(tag_lines@.take(li as int)),
                forall|k: int|
                    0 <= k < tags@.len() ==> store_tags(&self.store).contains(
                        #[trigger] tags@[k]@,
                    ),
                store_entries(&self.store) == store_entries(&old(self).store),
                store_counter(&self.store) == store_counter(&old(self).store),
                store_jobs(&self.store) == store_jobs(&old(self).store),
                indexed_docs(&self.index) == indexed_docs(&old(self).index),
            decreases tag_lines@.len() - li,
        {
            let ghost line = tag_lines@[li as int]@;
            let words = split_char(tag_lines[li].as_str(), ' ');
            assert(words.deep_view() == spec_split(line, ' '));
            let mut wi: usize = 0;
            proof {
                assert(spec_split(line, ' ').take(0) =~= Seq::<Seq<char>>::empty());
                assert(tag_views(tags@) =~= spec_tag_words(tag_lines@.take(li as int)).add(
                    spec_split(line, ' ').take(0),
                ));
            }
            while wi < words.len()
                invariant
                file@.len() > 0,
                spec_boundary(start_ts@) matches Some(st) && spec_boundary(end_ts@) matches Some(
                    en,
                ) && spec_boundaries_ok(st, en),
                spec_capture_date(date_input@) is Some,
                spec_first_line(title_vec@).len() > 0,
                    wi <= words@.len(),
                    li < tag_lines@.len(),
                    line == tag_lines@[li as int]@,
                    words.deep_view() == spec_split(line, ' '),
                    tag_views(tags@) =~= spec_tag_words(tag_lines@.take(li as int)).add(
                        spec_split(line, ' ').take(wi as int),
                    ),
                    forall|k: int|
                        0 <= k < tags@.len() ==> store_tags(&self.store).contains(
                            #[trigger] tags@[k]@,
                        ),
                    store_entries(&self.store) == store_entries(&old(self).store),
                    store_counter(&self.store) == store_counter(&old(self).store),
                    store_jobs(&self.store) == store_jobs(&old(self).store),
                    indexed_docs(&self.index) == indexed_docs(&old(self).index),
                decreases words@.len() - wi,
            {
                let t = match Tag::new(self, words[wi].as_str()) {
                    Ok(t) => t,
                    Err(e) => {
                        return Err(SubmitError::Store(e));
                    },
                };
                let ghost before = tags@;
                tags.push(t);
                proof {
                    assert(words.deep_view()[wi as int] == words@[wi as int]@);
                    assert(spec_split(line, ' ').take(wi + 1) =~= spec_split(line, ' ').take(
                        wi as int,
                    ).push(spec_split(line, ' ')[wi as int]));
                    assert(tag_views(tags@) =~= tag_views(before).push(t@));
                }
                wi = wi + 1;
            }
            proof {
                assert(spec_split(line, ' ').take(words@.len() as int) =~= spec_split(line, ' '));
                assert(tag_lines@.take(li + 1).drop_last() =~= tag_lines@.take(li as int));
                assert(tag_lines@.take(li + 1).last() == tag_lines@[li as int]);
                assert(tag_views(tags@) =~= spec_tag_words(tag_lines@.take(li + 1)));
            }
            li = li + 1;
        }
        proof {
            assert(tag_lines@.take(tag_lines@.len() as int) =~= tag_lines@);
        }
        let uid = fresh_uid();
        let job = match Job::new(
            uid,
            file,
            start_ts,
            end_ts,
            title_vec,
            desc_vec,
            lang_vec,
            date_input,
            tags,
        ) {
            Ok(j) => j,
            Err(e) => {
                // Unreachable: the request was validated above.
                return Err(SubmitError::Request(e));
            },
        };
        proof {
            assert(job@.tags =~= spec_tag_words(tag_lines@));
        }
        match self.store.insert_job(&job) {
            Ok(_) => Ok(job),
            Err(e) => Err(SubmitError::Store(e)),
        }
    }
}

/// The catalog round trip: once an entry is inserted indexed, the
/// record standing in the store under its identifier is that entry
/// itself, so a search hit carrying the identifier resolves to every
/// field of the original.
pub proof fn lemma_catalog_round_trip(
    before: Map<i64, crate::entry::EntryView>,
    e: crate::entry::EntryView,
    found: crate::entry::EntryView,
)
    requires
        found.id == e.id,
        before.insert(e.id, e).dom().contains(found.id),
        before.insert(e.id, e)[found.id] == found,
    ensures
        found == e,
{
}

impl Tag {
    /// Looks a tag up by name, creating it when absent: names are
    /// deduplicated, so a present name is returned without a new
    /// record.
    pub fn new(db: &mut DualStore, text: &str) -> (r: Result<Tag, StoreError>)
        ensures
            r matches Ok(t) ==> {
                &&& t@ == text@
                &&& store_tags(&final(db).store).contains(text@)
                &&& (store_tags(&old(db).store).contains(text@) ==> store_tags(&final(db).store)
                    == store_tags(&old(db).store))
                &&& (!store_tags(&old(db).store).contains(text@) ==> store_tags(
                    &final(db).store,
                ) == store_tags(&old(db).store).insert(text@))
                &&& store_entries(&final(db).store) == store_entries(&old(db).store)
                &&& store_counter(&final(db).store) == store_counter(&old(db).store)
                &&& store_jobs(&final(db).store) == store_jobs(&old(db).store)
                &&& indexed_docs(&final(db).index) == indexed_docs(&old(db).index)
            },
            r is Err ==> {
                &&& store_tags(&final(db).store) == store_tags(&old(db).store)
                &&& store_counter(&final(db).store) == store_counter(&old(db).store)
                &&& store_entries(&final(db).store) == store_entries(&old(db).store)
                &&& store_jobs(&final(db).store) == store_jobs(&old(db).store)
                &&& indexed_docs(&final(db).index) == indexed_docs(&old(db).index)
            },
    {
        let present = match db.store.find_tag(text) {
            Ok(b) => b,
            Err(e) => {
                return Err(e);
            },
        };
        if present {
            return Ok(Tag { name: text.to_owned() });
        }
        match db.store.insert_tag(text) {
            Ok(_) => Ok(Tag { name: text.to_owned() }),
            Err(e) => Err(e),
        }
    }
}

} // verus!
