//! The dual store against the real backing crates: allocation,
//! indexed insertion, search, and the idempotence guard.

use clipcat::config::Config;
use clipcat::date::PlainDate;
use clipcat::entry::{Entry, FileInfo, Indexed};
use clipcat::facade::DualStore;
use clipcat::index::SearchIndex;
use clipcat::store::{open_store, StoreError};
use clipcat::tag::Tag;

fn open_catalog(path: &str) -> DualStore {
    let store = open_store(path).unwrap();
    let index = SearchIndex::open_ram().unwrap();
    DualStore::new(store, index).unwrap()
}

fn sample_entry(id: clipcat::id::Id, title: String) -> Entry {
    Entry {
        id,
        title,
        description: String::from("a longer description text"),
        transcript: String::from("spoken words of the clip"),
        date: PlainDate { year: 2023, month: 12, day: 5 },
        tags: vec![Tag { name: String::from("clutch") }],
        file: FileInfo { size: 4096, duration: 15 },
    }
}

#[test]
fn allocator_issues_increasing_ids() {
    let mut db = open_catalog("/tmp/ccp_test_alloc.db");
    let a = db.alloc_id().unwrap();
    let b = db.alloc_id().unwrap();
    let c = db.alloc_id().unwrap();
    assert_eq!(b.get(), a.get() + 1);
    assert_eq!(c.get(), b.get() + 1);
    let conf = db.get_config().unwrap();
    assert_eq!(conf.get_counter(), c.get());
}

#[test]
fn insert_indexed_then_search_finds_it() {
    let mut db = open_catalog("/tmp/ccp_test_search.db");
    let id = db.alloc_id().unwrap();
    let title = format!("zebra{}", id.get());
    let entry = sample_entry(id, title.clone());
    assert_eq!(db.insert_indexed(&entry).unwrap(), true);
    let found = db.search(&title, 10).unwrap();
    let hit = found.iter().find(|e| e.id == id).expect("inserted entry not found");
    assert_eq!(hit.title, entry.title);
    assert_eq!(hit.description, entry.description);
    assert_eq!(hit.transcript, entry.transcript);
    assert_eq!(hit.date, entry.date);
    assert_eq!(hit.file, entry.file);
    assert_eq!(hit.tags.len(), 1);
    assert_eq!(hit.tags[0].name, "clutch");
}

#[test]
fn search_matches_transcript_and_is_fuzzy() {
    let mut db = open_catalog("/tmp/ccp_test_fuzzy.db");
    let id = db.alloc_id().unwrap();
    let word = format!("quokka{}", id.get());
    let mut entry = sample_entry(id, String::from("untitled"));
    entry.transcript = format!("something {} something", word);
    assert_eq!(db.insert_indexed(&entry).unwrap(), true);
    // Exact term, found through the transcript field.
    assert!(db.search(&word, 10).unwrap().iter().any(|e| e.id == id));
    // One edit away still matches.
    let fuzzed = format!("quokkb{}", id.get());
    assert!(db.search(&fuzzed, 10).unwrap().iter().any(|e| e.id == id));
}

#[test]
fn reinserting_same_id_changes_nothing() {
    let mut db = open_catalog("/tmp/ccp_test_idem.db");
    let id = db.alloc_id().unwrap();
    let entry = sample_entry(id, format!("osprey{}", id.get()));
    assert_eq!(db.insert_indexed(&entry).unwrap(), true);
    // Re-running finalization on the same identifier after a crash:
    // the guarded insert reports the duplicate and writes nothing.
    let mut other = sample_entry(id, String::from("impostor"));
    other.transcript = String::from("other words");
    assert_eq!(db.insert_indexed(&other).unwrap(), false);
    let stored = db.store.get_entry(id.get()).unwrap().unwrap();
    assert_eq!(stored.title, entry.title);
    // Only one search document carries the identifier.
    let found = db.search(&entry.title, 10).unwrap();
    assert_eq!(found.iter().filter(|e| e.id == id).count(), 1);
}

#[test]
fn batch_insert_lands_in_both_stores() {
    let mut db = open_catalog("/tmp/ccp_test_batch.db");
    let a = db.alloc_id().unwrap();
    let b = db.alloc_id().unwrap();
    let batch = vec![
        sample_entry(a, format!("walrus{}", a.get())),
        sample_entry(b, format!("walrus{}", b.get())),
    ];
    db.insert_indexed_many(&batch).unwrap();
    for e in &batch {
        let stored = db.store.get_entry(e.id.get()).unwrap().unwrap();
        assert_eq!(stored.title, e.title);
        assert!(db.search(&e.title, 10).unwrap().iter().any(|f| f.id == e.id));
    }
}

#[test]
fn tags_deduplicate_by_name() {
    let mut db = open_catalog("/tmp/ccp_test_tags.db");
    let a = Tag::new(&mut db, "retake").unwrap();
    let b = Tag::new(&mut db, "retake").unwrap();
    assert_eq!(a.text(), "retake");
    assert_eq!(b.text(), "retake");
}

#[test]
fn submitted_job_is_recorded_until_done() {
    let mut db = open_catalog("/tmp/ccp_test_jobs.db");
    let job = db
        .create_job(
            String::from("clip.mp4"),
            &[String::from("00:00:10.000")],
            &[String::from("00:00:25.000")],
            &[String::from("A submitted clip")],
            &[String::from("desc")],
            &[String::from("en")],
            &[String::from("05-12-2023")],
            &[String::from("retake clutch")],
        )
        .unwrap();
    assert_eq!(job.done, false);
    assert_eq!(job.tags.len(), 2);
    let undone = db.store.undone_jobs().unwrap();
    assert!(undone.iter().any(|j| j.uid == job.uid));
    db.store.set_job_done(&job.uid).unwrap();
    let undone = db.store.undone_jobs().unwrap();
    assert!(!undone.iter().any(|j| j.uid == job.uid));
}

#[test]
fn submitted_job_carries_the_inputs() {
    let mut db = open_catalog("/tmp/ccp_test_fields.db");
    let job = db
        .create_job(
            String::from("ingest/raw.mp4"),
            &[String::from("00:00:02.000")],
            &[String::from("00:00:09.000")],
            &[String::from("Round win")],
            &[String::from("a close one")],
            &[String::from("en")],
            &[String::from("10-11-2023")],
            &[String::from("retake clutch"), String::from("awp")],
        )
        .unwrap();
    assert_eq!(job.file, "ingest/raw.mp4");
    assert_eq!(job.start.to_seconds(), 2);
    assert_eq!(job.end.to_seconds(), 9);
    assert_eq!(job.title, "Round win");
    assert_eq!(job.description, "a close one");
    assert_eq!(job.language, clipcat::language::Language::EN);
    assert_eq!((job.date.day, job.date.month, job.date.year), (10, 11, 2023));
    let names: Vec<&str> = job.tags.iter().map(|t| t.text()).collect();
    assert_eq!(names, vec!["retake", "clutch", "awp"]);
    assert_eq!(job.done, false);
}

#[test]
fn rejected_submissions() {
    let mut db = open_catalog("/tmp/ccp_test_reject.db");
    // No file chosen.
    assert!(db
        .create_job(String::new(), &[], &[], &[], &[], &[], &[], &[])
        .is_err());
    // Boundaries out of order.
    assert!(db
        .create_job(
            String::from("clip.mp4"),
            &[String::from("00:00:25.000")],
            &[String::from("00:00:10.000")],
            &[String::from("t")],
            &[],
            &[],
            &[String::from("05-12-2023")],
            &[],
        )
        .is_err());
    // Empty title.
    assert!(db
        .create_job(
            String::from("clip.mp4"),
            &[String::from("00:00:10.000")],
            &[String::from("00:00:25.000")],
            &[],
            &[],
            &[],
            &[String::from("05-12-2023")],
            &[],
        )
        .is_err());
}

#[test]
fn missing_date_is_rejected() {
    let mut db = open_catalog("/tmp/ccp_test_nodate.db");
    let r = db.create_job(
        String::from("clip.mp4"),
        &[String::from("00:00:10.000")],
        &[String::from("00:00:25.000")],
        &[String::from("t")],
        &[],
        &[],
        &[],
        &[],
    );
    assert!(r.is_err());
    let r = db.create_job(
        String::from("clip.mp4"),
        &[String::from("00:00:10.000")],
        &[String::from("00:00:25.000")],
        &[String::from("t")],
        &[],
        &[],
        &[String::from("31-02-2023")],
        &[],
    );
    assert!(r.is_err());
}

#[test]
fn unconfigured_store_has_no_counter() {
    let stamp = std::time::SystemTime::now()
        .duration_since(std::time::UNIX_EPOCH)
        .unwrap()
        .as_nanos();
    let store = open_store(&format!("/tmp/ccp_test_fresh_{}.db", stamp)).unwrap();
    assert_eq!(store.read_counter(), Err(StoreError::NotFound));
}

#[test]
fn one_identifier_per_hit() {
    assert_eq!(Indexed { id: vec![7] }.single_id(), Some(7));
    assert_eq!(Indexed { id: vec![] }.single_id(), None);
    assert_eq!(Indexed { id: vec![1, 2] }.single_id(), None);
}

#[test]
fn config_record_defaults() {
    let c = Config::default();
    assert_eq!(c.get_counter(), 1);
    assert_eq!(c.id, "CONFIG");
}
