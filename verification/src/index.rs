//! The full-text search index: a fixed schema over title,
//! description, transcript and tags, with the catalog identifier as
//! the one stored field.  The index is tantivy; each operation stands
//! behind a trusted wrapper whose contract speaks over the multiset
//! of indexed documents' stored identifiers.  Exclusive borrows
//! serialize the write path statically, so no lock guards it.

use vstd::prelude::*;
use vstd::multiset::Multiset;
use chrono::NaiveDate;
use tantivy::collector::TopDocs;
use tantivy::query::{BooleanQuery, FuzzyTermQuery, Occur, Query};
use tantivy::schema::{Cardinality, DateOptions, Field, NumericOptions, Schema, TEXT};
use tantivy::{DatePrecision, DateTime, Document, Index, IndexReader, IndexWriter, ReloadPolicy, Term};
use crate::entry::{Entry, Indexed};
use crate::store::StoreError;

verus! {

#[verifier::external_type_specification]
#[verifier::external_body]
pub struct ExTantivyIndex(Index);

#[verifier::external_type_specification]
#[verifier::external_body]
pub struct ExTantivySchema(Schema);

#[verifier::external_type_specification]
#[verifier::external_body]
pub struct ExBooleanQuery(BooleanQuery);

#[verifier::external_type_specification]
#[verifier::external_body]
pub struct ExTantivyDocument(Document);

/// Handle to one search index: the index, its single writer, a
/// reader that reloads on commit, and the schema's field handles.
#[verifier::external_body]
pub struct SearchIndex {
    index: Index,
    writer: IndexWriter,
    reader: IndexReader,
    f_title: Field,
    f_description: Field,
    f_transcript: Field,
    f_tags: Field,
    f_id: Field,
    f_size: Field,
    f_duration: Field,
    f_time: Field,
}

/// The stored identifier lists of every document the index holds,
/// one list per document, committed or queued for the next commit.
/// Well-defined across handles because every `SearchIndex` carries
/// the one catalog schema: opening refuses any other.
pub uninterp spec fn indexed_docs(ix: &SearchIndex) -> Multiset<Seq<i64>>;

/// The values a built document carries in its stored identifier
/// field.
pub uninterp spec fn doc_id_list(d: tantivy::Document) -> Seq<i64>;

/// The identifier lists of the first `k` documents of a batch.
pub open spec fn doc_batch_ids(ds: Seq<tantivy::Document>, k: int) -> Multiset<Seq<i64>>
    recommends
        0 <= k <= ds.len(),
{
    Seq::new(k as nat, |i: int| doc_id_list(ds[i])).to_multiset()
}

/// The identifier lists of the first `k` entries of a batch.
pub open spec fn entry_batch_ids(es: Seq<Entry>, k: int) -> Multiset<Seq<i64>>
    recommends
        0 <= k <= es.len(),
{
    Seq::new(k as nat, |i: int| seq![es[i]@.id]).to_multiset()
}

/// Relies on tantivy's schema builder: the catalog schema, with four
/// indexed text fields, the identifier stored, and size, duration
/// and timestamp indexed for range queries.
#[verifier::external_body]
fn catalog_schema() -> Schema {
    let mut b = Schema::builder();
    b.add_text_field("title", TEXT);
    b.add_text_field("description", TEXT);
    b.add_text_field("transcript", TEXT);
    b.add_text_field("tags", TEXT);
    b.add_i64_field("id", NumericOptions::default().set_indexed().set_stored().set_fast(Cardinality::SingleValue));
    b.add_u64_field("size", NumericOptions::default().set_indexed());
    b.add_i64_field("duration", NumericOptions::default().set_indexed());
    b.add_date_field("timestamp", DateOptions::default().set_indexed().set_precision(DatePrecision::Seconds));
    b.build()
}

/// Relies on tantivy's `Index::create_in_dir` and `open_in_dir`:
/// creates the index under the given directory, or opens the one
/// already there, refusing a directory whose index does not carry
/// the catalog schema; field numbering is therefore the same in
/// every accepted index.
#[verifier::external_body]
fn make_index_dir(path: &str) -> (r: Result<Index, StoreError>) {
    let index = match Index::create_in_dir(path, catalog_schema()) {
        Ok(i) => i,
        Err(_) => Index::open_in_dir(path).map_err(|_| StoreError::Backend)?,
    };
    if index.schema() == catalog_schema() {
        Ok(index)
    } else {
        Err(StoreError::Backend)
    }
}

/// Relies on chrono's calendar arithmetic: the UTC midnight of the
/// date as seconds since the epoch, or 0 where chrono knows no such
/// date.
#[verifier::external_body]
pub(crate) fn date_epoch_secs(d: &crate::date::PlainDate) -> (r: i64) {
    NaiveDate::from_ymd_opt(d.year, d.month as u32, d.day as u32).and_then(
        |x| x.and_hms_opt(0, 0, 0),
    ).map(|t| t.and_utc().timestamp()).unwrap_or(0)
}

/// Relies on tantivy's `Index::writer`, the reader builder with its
/// on-commit reload policy, and `Schema::get_field` for the handles.
#[verifier::external_body]
fn finish_index(index: Index) -> (r: Result<SearchIndex, StoreError>) {
    let schema = index.schema();
    let writer = index.writer(25_000_000).map_err(|_| StoreError::Backend)?;
    let reader = index.reader_builder().reload_policy(ReloadPolicy::OnCommit).try_into().map_err(
        |_| StoreError::Backend,
    )?;
    let g = |n: &str| schema.get_field(n).ok_or(StoreError::Backend);
    Ok(SearchIndex {
        f_title: g("title")?, f_description: g("description")?, f_transcript: g("transcript")?,
        f_tags: g("tags")?, f_id: g("id")?, f_size: g("size")?, f_duration: g("duration")?,
        f_time: g("timestamp")?, index, writer, reader,
    })
}

impl SearchIndex {
    /// Opens or creates the search index under a directory, which
    /// must already exist.
    pub fn open_dir(path: &str) -> (r: Result<SearchIndex, StoreError>) {
        match make_index_dir(path) {
            Ok(i) => finish_index(i),
            Err(e) => Err(e),
        }
    }

    /// Relies on tantivy's `Index::create_in_ram`: a fresh in-memory
    /// index with the catalog schema, holding no documents, for
    /// exercising the catalog without a directory.
    #[verifier::external_body]
    pub fn open_ram() -> (r: Result<SearchIndex, StoreError>)
        ensures
            r matches Ok(ix) ==> indexed_docs(&ix) == Multiset::<Seq<i64>>::empty(),
    {
        finish_index(Index::create_in_ram(catalog_schema()))
    }

    /// Relies on tantivy's `Document` field setters: builds the
    /// document for one entry, its text fields, capture instant, and
    /// the identifier as the single value of the stored field.
    #[verifier::external_body]
    fn make_doc(&self, e: &Entry, epoch_secs: i64) -> (r: Document)
        ensures
            doc_id_list(r) == seq![e@.id],
    {
        let mut doc = Document::default();
        doc.add_text(self.f_title, &e.title);
        doc.add_text(self.f_description, &e.description);
        doc.add_text(self.f_transcript, &e.transcript);
        for t in e.tags.iter() { doc.add_text(self.f_tags, &t.name); }
        doc.add_i64(self.f_id, e.id.0);
        doc.add_u64(self.f_size, e.file.size);
        doc.add_i64(self.f_duration, e.file.duration as i64);
        doc.add_date(self.f_time, DateTime::from_timestamp_secs(epoch_secs));
        doc
    }

    /// Relies on tantivy's `IndexWriter::add_document`, `commit` and
    /// `IndexReader::reload`: appends the document and makes it
    /// visible to subsequent reads.  On failure the document either
    /// never reached the writer or was handed to it before the
    /// failing step, so the index gained at most that one document.
    #[verifier::external_body]
    fn index_doc(&mut self, d: Document) -> (r: Result<(), StoreError>)
        ensures
            r is Ok ==> indexed_docs(final(self)) == indexed_docs(old(self)).insert(
                doc_id_list(d),
            ),
            r is Err ==> indexed_docs(final(self)) == indexed_docs(old(self)) || indexed_docs(
                final(self),
            ) == indexed_docs(old(self)).insert(doc_id_list(d)),
    {
        let fail = |_x| StoreError::Backend;
        self.writer.add_document(d).map_err(fail)?;
        self.writer.commit().map_err(fail)?;
        self.reader.reload().map_err(fail)?;
        Ok(())
    }

    /// Relies on tantivy's `IndexWriter::add_document`, `commit` and
    /// `IndexReader::reload`: appends every document and makes them
    /// visible under one commit.  On failure some prefix of the
    /// documents was handed to the writer.
    #[verifier::external_body]
    fn index_doc_batch(&mut self, ds: Vec<Document>) -> (r: Result<(), StoreError>)
        ensures
            r is Ok ==> indexed_docs(final(self)) == indexed_docs(old(self)).add(
                doc_batch_ids(ds@, ds@.len() as int),
            ),
            r is Err ==> exists|k: int|
                0 <= k <= ds@.len() && indexed_docs(final(self)) == indexed_docs(old(self)).add(
                    #[trigger] doc_batch_ids(ds@, k),
                ),
    {
        let fail = |_x| StoreError::Backend;
        for d in ds {
            self.writer.add_document(d).map_err(fail)?;
        }
        self.writer.commit().map_err(fail)?;
        self.reader.reload().map_err(fail)?;
        Ok(())
    }

    /// Indexes one entry: builds its document and commits it.
    pub fn index_entry(&mut self, e: &Entry, epoch_secs: i64) -> (r: Result<(), StoreError>)
        ensures
            r is Ok ==> indexed_docs(final(self)) == indexed_docs(old(self)).insert(
                seq![e@.id],
            ),
            r is Err ==> indexed_docs(final(self)) == indexed_docs(old(self)) || indexed_docs(
                final(self),
            ) == indexed_docs(old(self)).insert(seq![e@.id]),
    {
        let d = self.make_doc(e, epoch_secs);
        self.index_doc(d)
    }

    /// Indexes a batch of entries under one commit.  On failure some
    /// prefix of the documents was handed to the writer.
    pub fn index_entries(&mut self, entries: &Vec<Entry>, secs: &Vec<i64>) -> (r: Result<
        (),
        StoreError,
    >)
        requires
            entries@.len() == secs@.len(),
        ensures
            r is Ok ==> indexed_docs(final(self)) == indexed_docs(old(self)).add(
                entry_batch_ids(entries@, entries@.len() as int),
            ),
            r is Err ==> exists|k: int|
                0 <= k <= entries@.len() && indexed_docs(final(self)) == indexed_docs(
                    old(self),
                ).add(#[trigger] entry_batch_ids(entries@, k)),
    {
        let mut docs: Vec<Document> = Vec::new();
        let mut i: usize = 0;
        while i < entries.len()
            invariant
                entries@.len() == secs@.len(),
                i <= entries@.len(),
                docs@.len() == i,
                forall|k: int|
                    0 <= k < i ==> doc_id_list(#[trigger] docs@[k]) == seq![entries@[k]@.id],
            decreases entries@.len() - i,
        {
            let d = self.make_doc(&entries[i], secs[i]);
            docs.push(d);
            i = i + 1;
        }
        let ghost built = docs@;
        let res = self.index_doc_batch(docs);
        proof {
            match res {
                Ok(_) => {
                    assert(Seq::new(built.len(), |i: int| doc_id_list(built[i])) =~= Seq::new(
                        entries@.len(),
                        |i: int| seq![entries@[i]@.id],
                    ));
                    assert(doc_batch_ids(built, built.len() as int) == entry_batch_ids(
                        entries@,
                        entries@.len() as int,
                    ));
                },
                Err(_) => {
                    let k = choose|k: int|
                        0 <= k <= built.len() && indexed_docs(self) == indexed_docs(
                            old(self),
                        ).add(#[trigger] doc_batch_ids(built, k));
                    assert(Seq::new(k as nat, |i: int| doc_id_list(built[i])) =~= Seq::new(
                        k as nat,
                        |i: int| seq![entries@[i]@.id],
                    ));
                    assert(doc_batch_ids(built, k) == entry_batch_ids(entries@, k));
                },
            }
        }
        res
    }

    /// Relies on tantivy's `Searcher::search` with `TopDocs` and
    /// `Searcher::doc`: at most `limit` hits return by falling
    /// relevance, and each hit is the stored field set of an indexed
    /// document.
    #[verifier::external_body]
    pub fn search_terms(&self, terms: &Vec<String>, limit: usize) -> (r: Result<
        Vec<Indexed>,
        StoreError,
    >)
        requires
            limit >= 1,
        ensures
            r matches Ok(hits) ==> hits@.len() <= limit && forall|i: int|
                0 <= i < hits@.len() ==> indexed_docs(self).contains(#[trigger] hits@[i].id@),
    {
        let searcher = self.reader.searcher();
        let q = self.fuzzy_query(terms);
        let hits = searcher.search(&q, &TopDocs::with_limit(limit)).map_err(|_| StoreError::Backend)?;
        let ids = |d: Document| d.get_all(self.f_id).filter_map(|v| v.as_i64()).collect();
        Ok(hits.into_iter().filter_map(|(_s, a)| searcher.doc(a).ok()).map(|d| Indexed { id: ids(d) }).collect())
    }

    /// Relies on tantivy's `BooleanQuery` and `FuzzyTermQuery`: every
    /// term must match one of the four text fields with edit distance
    /// at most 2; terms are lowercased as the default tokenizer
    /// lowercases indexed text.
    #[verifier::external_body]
    fn fuzzy_query(&self, terms: &Vec<String>) -> (r: BooleanQuery) {
        let mut subs: Vec<(Occur, Box<dyn Query>)> = Vec::new();
        for t in terms.iter() {
            let w = t.to_lowercase();
            let fs = [self.f_title, self.f_description, self.f_transcript, self.f_tags];
            let fuzz = |f: &Field| FuzzyTermQuery::new(Term::from_field_text(*f, &w), 2, true);
            let any = fs.iter().map(|f| (Occur::Should, Box::new(fuzz(f)) as Box<dyn Query>)).collect();
            subs.push((Occur::Must, Box::new(BooleanQuery::new(any))));
        }
        BooleanQuery::new(subs)
    }
}

} // verus!
