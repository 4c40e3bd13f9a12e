//! The ingest pipeline end to end: progress streams, suppression,
//! the full success scenario and the failure path.

use clipcat::id::Id;
use clipcat::job::Job;
use clipcat::pipeline::{FinalizeStep, Phase, Pipeline};
use clipcat::status::{PhaseError, Status};

fn sample_job() -> Job {
    Job::new(
        String::from("uid-test"),
        String::from("clip.mp4"),
        &[String::from("00:00:10.000")],
        &[String::from("00:00:25.000")],
        &[String::from("A test clip")],
        &[String::from("some description")],
        &[String::from("de")],
        &[String::from("05-12-2023")],
        Vec::new(),
    )
    .unwrap()
}

#[test]
fn clip_stream_monotone_and_complete() {
    let job = sample_job();
    let mut p = Pipeline::new(job, Id(7));
    assert_eq!(p.begin(), Status::First(0));
    // Monotonically increasing out_time values between start and end.
    let stream = [
        "out_time=00:00:10.000",
        "out_time=00:00:11.500",
        "out_time=00:00:14.000",
        "out_time=00:00:17.500",
        "out_time=00:00:21.000",
        "out_time=00:00:25.000",
    ];
    let mut last: u16 = 0;
    for line in stream.iter() {
        let s = p.clip_line(line).unwrap();
        let pct = s.get_first();
        assert!(pct >= last);
        assert!(pct <= 100);
        last = pct;
    }
    // The terminal sample, the clip's own end, reads exactly 100.
    assert_eq!(last, 100);
    assert_eq!(p.clip_line("out_time=00:00:17.500").unwrap(), Status::First(50));
    // Non-progress lines yield nothing.
    assert!(p.clip_line("frame=12").is_none());
    assert_eq!(p.clip_done(true), Status::First(100));
    assert!(matches!(p.phase, Phase::Transcribing));
}

#[test]
fn transcription_suppresses_low_percentages() {
    let job = sample_job();
    let mut p = Pipeline::new(job, Id(8));
    p.begin();
    p.clip_done(true);
    // Segments whose times stay under 12% of the 15-second clip: no
    // message may appear for any of them.
    let low = [
        "[00:00.000 --> 00:00.400]  a",
        "[00:00.500 --> 00:00.900]  b",
        "[00:01.000 --> 00:01.400]  c",
        "[00:01.500 --> 00:01.800]  d",
    ];
    for line in low.iter() {
        assert!(p.transcribe_line(line).is_none());
    }
    // 1.8 s of 15 s is exactly 12: still suppressed.
    assert!(p.transcribe_line("[00:01.800 --> 00:02.000]  e").is_none());
    // The first value above the threshold comes through.
    assert_eq!(
        p.transcribe_line("[00:02.000 --> 00:03.000]  f").unwrap(),
        Status::Second(13)
    );
    assert_eq!(
        p.transcribe_line("[00:05.000 --> 00:06.000]  g").unwrap(),
        Status::Second(33)
    );
}

#[test]
fn full_run_scenario() {
    // Job{start=00:00:10.000, end=00:00:25.000, source="clip.mp4"}.
    let job = sample_job();
    let id = Id(42);
    let mut p = Pipeline::new(job.clone(), id);
    assert!(matches!(p.phase, Phase::Pending));
    assert_eq!(p.begin(), Status::First(0));
    assert!(matches!(p.phase, Phase::Clipping));
    assert_eq!(p.clip_line("out_time=00:00:10.000").unwrap(), Status::First(0));
    assert_eq!(p.clip_line("out_time=00:00:25.000").unwrap(), Status::First(100));
    assert_eq!(p.clip_done(true), Status::First(100));
    assert!(matches!(p.phase, Phase::Transcribing));
    assert_eq!(p.transcribe_begin(), Status::Second(0));
    assert!(p.transcribe_line("[00:01.000 --> 00:01.500]  low").is_none());
    assert_eq!(
        p.transcribe_line("[00:14.000 --> 00:15.000]  high").unwrap(),
        Status::Second(93)
    );
    assert_eq!(p.transcribe_done(true), Status::Second(100));
    assert!(matches!(p.phase, Phase::Finalizing));
    assert!(matches!(p.next_step(), FinalizeStep::MoveClip));
    assert_eq!(p.step_done(true), Status::Third(25));
    assert!(matches!(p.next_step(), FinalizeStep::MoveSubtitle));
    assert_eq!(p.step_done(true), Status::Third(50));
    assert!(matches!(p.next_step(), FinalizeStep::WriteMeta));
    assert_eq!(p.step_done(true), Status::Third(75));
    assert!(matches!(p.next_step(), FinalizeStep::InsertCatalog));
    assert_eq!(p.step_done(true), Status::Third(80));
    assert!(matches!(p.next_step(), FinalizeStep::MarkDone));
    assert_eq!(p.step_done(true), Status::Complete(id));
    assert!(matches!(p.phase, Phase::Complete));
    // The resulting entry's duration is the 15-second clip length.
    let entry = job.to_entry(id, String::from("transcript text"), 1000);
    assert_eq!(entry.file.duration, 15);
    assert_eq!(entry.file.size, 1000);
    assert_eq!(entry.id, id);
}

#[test]
fn failed_clipping_aborts_everything() {
    // A nonzero clipping exit: the terminal state is Failed and no
    // later phase runs; the job was never marked done.
    let job = sample_job();
    let mut p = Pipeline::new(job, Id(9));
    p.begin();
    assert_eq!(p.clip_done(false), Status::Failed(PhaseError::Clip));
    assert!(matches!(p.phase, Phase::Failed));
    assert_eq!(p.job.done, false);
}

#[test]
fn failed_transcription_and_finalization() {
    let job = sample_job();
    let mut p = Pipeline::new(job.clone(), Id(10));
    p.begin();
    p.clip_done(true);
    assert_eq!(p.transcribe_done(false), Status::Failed(PhaseError::Transcribe));
    assert!(matches!(p.phase, Phase::Failed));

    let mut q = Pipeline::new(job, Id(11));
    q.begin();
    q.clip_done(true);
    q.transcribe_done(true);
    assert_eq!(q.step_done(true), Status::Third(25));
    assert_eq!(q.step_done(false), Status::Failed(PhaseError::Finalize));
    assert!(matches!(q.phase, Phase::Failed));
}

#[test]
fn status_getters() {
    assert_eq!(Status::First(40).get_first(), 40);
    assert_eq!(Status::Second(40).get_first(), 0);
    assert_eq!(Status::Second(55).get_second(), 55);
    assert_eq!(Status::Third(80).get_third(), 80);
    assert_eq!(Status::Complete(Id(1)).get_third(), 0);
    assert_eq!(Status::default(), Status::First(0));
}
