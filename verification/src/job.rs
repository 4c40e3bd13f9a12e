//! A user-submitted clip request: what to cut, from which source,
//! with which metadata.  Jobs are validated once on construction and
//! then only ever marked done.

use vstd::prelude::*;
use crate::date::PlainDate;
use crate::entry::{Entry, FileInfo};
use crate::id::Id;
use crate::language::Language;
use crate::tag::Tag;
use crate::timestamp::Timestamp;

verus! {

/// The mathematical shape of a job: every field as a plain value.
pub ghost struct JobView {
    pub uid: Seq<char>,
    pub file: Seq<char>,
    pub start: Timestamp,
    pub end: Timestamp,
    pub title: Seq<char>,
    pub description: Seq<char>,
    pub language: Language,
    pub date: PlainDate,
    pub tags: Seq<Seq<char>>,
    pub done: bool,
}

#[derive(Clone, Debug)]
pub struct Job {
    pub uid: String,
    pub file: String,
    pub start: Timestamp,
    pub date: PlainDate,
    pub end: Timestamp,
    pub title: String,
    pub language: Language,
    pub description: String,
    pub tags: Vec<Tag>,
    pub done: bool,
}

impl View for Job {
    type V = JobView;

    open spec fn view(&self) -> JobView {
        JobView {
            uid: self.uid@,
            file: self.file@,
            start: self.start,
            end: self.end,
            title: self.title@,
            description: self.description@,
            language: self.language,
            date: self.date,
            tags: Seq::new(self.tags@.len(), |i: int| self.tags@[i]@),
            done: self.done,
        }
    }
}

/// Why a job request was rejected.
#[derive(Clone, Copy, Debug, PartialEq, Eq, Structural)]
pub enum JobError {
    /// No source file was chosen.
    InvalidFile,
    /// A boundary is not a readable timestamp, or the boundaries are
    /// out of order or beyond machine range.
    InvalidTimestamp,
    /// No capture date was given or it names no real calendar day.
    InvalidDate,
    /// The title is empty.
    InvalidJob,
}

/// The boundary a timestamp-input column denotes: its first line's
/// timestamp, if any.
pub open spec fn spec_boundary(lines: Seq<String>) -> Option<Timestamp> {
    if lines.len() == 0 {
        None
    } else {
        Timestamp::spec_from_str(lines[0]@)
    }
}

/// Whether two parsed boundaries are bounded and in order.
pub open spec fn spec_boundaries_ok(start: Timestamp, end: Timestamp) -> bool {
    start.sane() && end.sane() && start.spec_total_millis() < end.spec_total_millis()
}

/// The date a date-input column denotes: its first line's calendar
/// day, if any.
pub open spec fn spec_capture_date(lines: Seq<String>) -> Option<crate::date::PlainDate> {
    if lines.len() == 0 {
        None
    } else {
        crate::date::spec_parse_dmy(lines[0]@)
    }
}

/// The first line of an input column, or empty text.
pub open spec fn spec_first_line(lines: Seq<String>) -> Seq<char> {
    if lines.len() > 0 {
        lines[0]@
    } else {
        Seq::<char>::empty()
    }
}

impl Job {
    /// A job the pipeline can run: boundaries are bounded and ordered,
    /// the date is real, and title and source are present.
    pub open spec fn wf(self) -> bool {
        &&& self.start.sane()
        &&& self.end.sane()
        &&& self.start.spec_total_millis() < self.end.spec_total_millis()
        &&& self.date.wf()
        &&& self.title@.len() > 0
        &&& self.file@.len() > 0
    }

    /// Whether raw input lines make a valid request, with the first
    /// failing condition as the error, in the validation order: the
    /// file name must be non-empty, both boundary texts must parse
    /// into bounded timestamps in order, the date text must name a
    /// real day, and the title must be non-empty.
    pub fn check_request(
        file: &str,
        start_ts: &[String],
        end_ts: &[String],
        title_vec: &[String],
        date_input: &[String],
    ) -> (r: Result<(), JobError>)
        ensures
            r == Err::<(), JobError>(JobError::InvalidFile) <==> file@.len() == 0,
            r == Err::<(), JobError>(JobError::InvalidTimestamp) <==> file@.len() > 0 && !(
            spec_boundary(start_ts@) matches Some(st) && spec_boundary(end_ts@) matches Some(en)
                && spec_boundaries_ok(st, en)),
            r == Err::<(), JobError>(JobError::InvalidDate) <==> file@.len() > 0 && (
            spec_boundary(start_ts@) matches Some(st) && spec_boundary(end_ts@) matches Some(en)
                && spec_boundaries_ok(st, en)) && spec_capture_date(date_input@) is None,
            r == Err::<(), JobError>(JobError::InvalidJob) <==> file@.len() > 0 && (
            spec_boundary(start_ts@) matches Some(st) && spec_boundary(end_ts@) matches Some(en)
                && spec_boundaries_ok(st, en)) && spec_capture_date(date_input@) is Some
                && spec_first_line(title_vec@).len() == 0,
            r is Ok <==> file@.len() > 0 && (spec_boundary(start_ts@) matches Some(st)
                && spec_boundary(end_ts@) matches Some(en) && spec_boundaries_ok(st, en))
                && spec_capture_date(date_input@) is Some && spec_first_line(title_vec@).len()
                > 0,
    {
        if file.unicode_len() == 0 {
            return Err(JobError::InvalidFile);
        }
        let start = match Timestamp::from_input(start_ts) {
            Some(t) => t,
            None => {
                return Err(JobError::InvalidTimestamp);
            },
        };
        let end = match Timestamp::from_input(end_ts) {
            Some(t) => t,
            None => {
                return Err(JobError::InvalidTimestamp);
            },
        };
        if !(start.hours >= 0 && start.hours <= 500_000 && start.minutes >= 0 && start.minutes
            <= 500_000 && start.seconds >= 0 && start.seconds <= 500_000 && start.millis >= 0
            && start.millis <= 500_000) {
            return Err(JobError::InvalidTimestamp);
        }
        if !(end.hours >= 0 && end.hours <= 500_000 && end.minutes >= 0 && end.minutes <= 500_000
            && end.seconds >= 0 && end.seconds <= 500_000 && end.millis >= 0 && end.millis
            <= 500_000) {
            return Err(JobError::InvalidTimestamp);
        }
        if start.total_millis() >= end.total_millis() {
            return Err(JobError::InvalidTimestamp);
        }
        if date_input.len() == 0 {
            return Err(JobError::InvalidDate);
        }
        if crate::date::parse_dmy(date_input[0].as_str()).is_none() {
            return Err(JobError::InvalidDate);
        }
        if title_vec.len() == 0 || title_vec[0].as_str().unicode_len() == 0 {
            return Err(JobError::InvalidJob);
        }
        Ok(())
    }

    /// Validates a request from raw input lines.  Success is owed
    /// exactly when the file name is non-empty, both boundary texts
    /// parse into bounded timestamps in order, the date text names a
    /// real day, and the title is non-empty; each error names the
    /// first of those conditions to fail, in that order.
    pub fn new(
        uid: String,
        file: String,
        start_ts: &[String],
        end_ts: &[String],
        title_vec: &[String],
        desc_vec: &[String],
        lang_vec: &[String],
        date_input: &[String],
        tags: Vec<Tag>,
    ) -> (r: Result<Job, JobError>)
        ensures
            r matches Ok(j) ==> {
                &&& j.wf()
                &&& j@.uid == uid@
                &&& j@.file == file@
                &&& j@.done == false
                &&& j@.tags == Seq::new(tags@.len(), |i: int| tags@[i]@)
                &&& start_ts@.len() > 0 && Timestamp::spec_from_str(start_ts@[0]@) == Some(j@.start)
                &&& end_ts@.len() > 0 && Timestamp::spec_from_str(end_ts@[0]@) == Some(j@.end)
                &&& j@.title == (if title_vec@.len() > 0 {
                    title_vec@[0]@
                } else {
                    Seq::<char>::empty()
                })
                &&& j@.description == (if desc_vec@.len() > 0 {
                    desc_vec@[0]@
                } else {
                    Seq::<char>::empty()
                })
                &&& (lang_vec@.len() > 0 ==> j@.language == Language::spec_from_str(lang_vec@[0]@))
                &&& (lang_vec@.len() == 0 ==> j@.language == Language::DE)
                &&& date_input@.len() > 0 && crate::date::spec_parse_dmy(date_input@[0]@) == Some(
                    j@.date,
                )
            },
            r == Err::<Job, JobError>(JobError::InvalidFile) <==> file@.len() == 0,
            r == Err::<Job, JobError>(JobError::InvalidTimestamp) <==> file@.len() > 0 && !(
            spec_boundary(start_ts@) matches Some(st) && spec_boundary(end_ts@) matches Some(en)
                && spec_boundaries_ok(st, en)),
            r == Err::<Job, JobError>(JobError::InvalidDate) <==> file@.len() > 0 && (
            spec_boundary(start_ts@) matches Some(st) && spec_boundary(end_ts@) matches Some(en)
                && spec_boundaries_ok(st, en)) && spec_capture_date(date_input@) is None,
            r == Err::<Job, JobError>(JobError::InvalidJob) <==> file@.len() > 0 && (
            spec_boundary(start_ts@) matches Some(st) && spec_boundary(end_ts@) matches Some(en)
                && spec_boundaries_ok(st, en)) && spec_capture_date(date_input@) is Some
                && spec_first_line(title_vec@).len() == 0,
            r is Ok <==> file@.len() > 0 && (spec_boundary(start_ts@) matches Some(st)
                && spec_boundary(end_ts@) matches Some(en) && spec_boundaries_ok(st, en))
                && spec_capture_date(date_input@) is Some && spec_first_line(title_vec@).len() > 0,
    {
        if file.as_str().unicode_len() == 0 {
            return Err(JobError::InvalidFile);
        }
        let start = match Timestamp::from_input(start_ts) {
            Some(t) => t,
            None => {
                return Err(JobError::InvalidTimestamp);
            },
        };
        let end = match Timestamp::from_input(end_ts) {
            Some(t) => t,
            None => {
                return Err(JobError::InvalidTimestamp);
            },
        };
        if !(start.hours >= 0 && start.hours <= 500_000 && start.minutes >= 0 && start.minutes
            <= 500_000 && start.seconds >= 0 && start.seconds <= 500_000 && start.millis >= 0
            && start.millis <= 500_000) {
            return Err(JobError::InvalidTimestamp);
        }
        if !(end.hours >= 0 && end.hours <= 500_000 && end.minutes >= 0 && end.minutes <= 500_000
            && end.seconds >= 0 && end.seconds <= 500_000 && end.millis >= 0 && end.millis
            <= 500_000) {
            return Err(JobError::InvalidTimestamp);
        }
        if start.total_millis() >= end.total_millis() {
            return Err(JobError::InvalidTimestamp);
        }
        let title = if title_vec.len() > 0 {
            title_vec[0].clone()
        } else {
            String::new()
        };
        let description = if desc_vec.len() > 0 {
            desc_vec[0].clone()
        } else {
            String::new()
        };
        let language = Language::from_input(lang_vec);
        let date = if date_input.len() > 0 {
            match crate::date::parse_dmy(date_input[0].as_str()) {
                Some(d) => d,
                None => {
                    return Err(JobError::InvalidDate);
                },
            }
        } else {
            return Err(JobError::InvalidDate);
        };
        if title.as_str().unicode_len() == 0 {
            return Err(JobError::InvalidJob);
        }
        Ok(Job { uid, file, start, date, end, title, language, description, tags, done: false })
    }

    pub fn start(&self) -> (r: Timestamp)
        ensures
            r == self.start,
    {
        self.start
    }

    pub fn end(&self) -> (r: Timestamp)
        ensures
            r == self.end,
    {
        self.end
    }

    pub fn title(&self) -> (r: String)
        ensures
            r@ == self.title@,
    {
        self.title.clone()
    }

    pub fn get_file(&self) -> (r: String)
        ensures
            r@ == self.file@,
    {
        self.file.clone()
    }

    /// The catalog entry this job produces once its transcript and
    /// the stored file's size are known.  The entry's duration is the
    /// component-wise difference of the boundaries, in whole seconds.
    pub fn to_entry(&self, id: Id, transcript: String, size: u64) -> (r: Entry)
        requires
            self.wf(),
        ensures
            r@.id == id.0,
            r@.title == self@.title,
            r@.description == self@.description,
            r@.transcript == transcript@,
            r@.date == self@.date,
            r@.tags == self@.tags,
            r@.size == size,
            r@.duration == self.end.spec_minus(self.start).spec_total_seconds(),
    {
        let duration = self.end.minus(&self.start);
        let file = FileInfo { size, duration: duration.to_seconds() };
        let r = Entry {
            id,
            title: self.title.clone(),
            description: self.description.clone(),
            transcript,
            date: self.date,
            tags: crate::tag::clone_tags(&self.tags),
            file,
        };
        proof {
            assert(r@.tags =~= self@.tags);
        }
        r
    }
}

} // verus!
