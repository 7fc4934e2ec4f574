use rget::orchestrator::{
    choose_strategy, effective_existing, range_support_from, sequential_range, Action,
    DownloadError, Event, Orchestrator, Phase, RangeRequest, ResourceInfo, RunConfig,
    SegmentOutcome, Strategy,
};
use rget::segment::Segment;

fn info(length: Option<u64>, supports_ranges: bool) -> Option<ResourceInfo> {
    Some(ResourceInfo { length, supports_ranges })
}

fn started(segment_count: u64, resume: bool, on_disk_size: Option<u64>) -> Orchestrator {
    let mut o = Orchestrator::new(RunConfig { segment_count, resume });
    let a = o.step(Event::Begin { on_disk_size });
    assert!(matches!(a, Action::Probe));
    assert_eq!(o.phase(), Phase::Probing);
    o
}

fn good_outcomes(segs: &[Segment]) -> Vec<SegmentOutcome> {
    segs.iter()
        .map(|s| SegmentOutcome::Delivered { status: 206, bytes: s.end - s.start + 1 })
        .collect()
}

#[test]
fn segmented_happy_path() {
    let mut o = started(4, false, None);
    let a = o.step(Event::Probed { outcome: info(Some(1000), true) });
    let segs = match a {
        Action::StartSegments { total_size, segments } => {
            assert_eq!(total_size, 1000);
            segments
        }
        _ => panic!("expected StartSegments"),
    };
    assert_eq!(o.phase(), Phase::Segmenting);
    assert_eq!(segs.len(), 4);
    assert_eq!(segs[0], Segment { start: 0, end: 249 });
    let a = o.step(Event::SegmentsJoined { outcomes: good_outcomes(&segs) });
    assert!(matches!(a, Action::Succeed));
    assert_eq!(o.phase(), Phase::Done);
    assert_eq!(o.error(), None);
}

#[test]
fn status_200_on_segment_fails_run() {
    let mut o = started(4, false, None);
    let a = o.step(Event::Probed { outcome: info(Some(1000), true) });
    let segs = match a {
        Action::StartSegments { segments, .. } => segments,
        _ => panic!("expected StartSegments"),
    };
    let mut outcomes = good_outcomes(&segs);
    outcomes[1] = SegmentOutcome::Delivered { status: 200, bytes: 250 };
    let a = o.step(Event::SegmentsJoined { outcomes });
    match a {
        Action::Fail { error } => {
            assert_eq!(error, DownloadError::UnsupportedRange { segment: 1, status: 200 });
        }
        _ => panic!("expected Fail, the partial file must not be trusted"),
    }
    assert_eq!(o.phase(), Phase::Failed);
    assert_eq!(o.error(), Some(DownloadError::UnsupportedRange { segment: 1, status: 200 }));
}

#[test]
fn short_segment_is_incomplete() {
    let mut o = started(4, false, None);
    let a = o.step(Event::Probed { outcome: info(Some(1000), true) });
    let segs = match a {
        Action::StartSegments { segments, .. } => segments,
        _ => panic!("expected StartSegments"),
    };
    let mut outcomes = good_outcomes(&segs);
    outcomes[3] = SegmentOutcome::Delivered { status: 206, bytes: 100 };
    let a = o.step(Event::SegmentsJoined { outcomes });
    match a {
        Action::Fail { error } => {
            assert_eq!(
                error,
                DownloadError::IncompleteSegment { segment: 3, expected: 250, written: 100 }
            );
        }
        _ => panic!("expected Fail"),
    }
}

#[test]
fn broken_worker_fails_run() {
    let mut o = started(2, false, None);
    let a = o.step(Event::Probed { outcome: info(Some(100), true) });
    let segs = match a {
        Action::StartSegments { segments, .. } => segments,
        _ => panic!("expected StartSegments"),
    };
    let mut outcomes = good_outcomes(&segs);
    outcomes[0] = SegmentOutcome::Failed;
    let a = o.step(Event::SegmentsJoined { outcomes });
    match a {
        Action::Fail { error } => assert_eq!(error, DownloadError::SegmentFailed { segment: 0 }),
        _ => panic!("expected Fail"),
    }
}

#[test]
fn file_setup_failure_is_io_failure() {
    let mut o = started(4, false, None);
    o.step(Event::Probed { outcome: info(Some(1000), true) });
    let a = o.step(Event::FileSetupFailed);
    match a {
        Action::Fail { error } => assert_eq!(error, DownloadError::IOFailure),
        _ => panic!("expected Fail"),
    }
    assert_eq!(o.phase(), Phase::Failed);
}

#[test]
fn already_complete_succeeds_without_any_fetch() {
    let mut o = started(4, true, Some(1000));
    assert_eq!(o.existing_size(), 1000);
    let a = o.step(Event::Probed { outcome: info(Some(1000), true) });
    assert!(matches!(a, Action::Succeed));
    assert_eq!(o.phase(), Phase::Done);
    let a = o.step(Event::SequentialStatus { status: 200 });
    assert!(matches!(a, Action::Ignore));
    assert_eq!(o.phase(), Phase::Done);
}

#[test]
fn oversized_partial_file_counts_as_complete() {
    let mut o = started(4, true, Some(2000));
    let a = o.step(Event::Probed { outcome: info(Some(1000), true) });
    assert!(matches!(a, Action::Succeed));
}

#[test]
fn no_range_support_falls_back_without_range_header() {
    let mut o = started(4, false, None);
    let a = o.step(Event::Probed { outcome: info(Some(1000), false) });
    match a {
        Action::StartSequential { range } => assert_eq!(range, RangeRequest::NoRange),
        _ => panic!("expected StartSequential"),
    }
    assert_eq!(o.phase(), Phase::SequentialDownloading);
    let a = o.step(Event::SequentialStatus { status: 200 });
    assert!(matches!(a, Action::ReadSequentialBody));
    let a = o.step(Event::SequentialFinished { ok: true });
    assert!(matches!(a, Action::Succeed));
    assert_eq!(o.phase(), Phase::Done);
}

#[test]
fn unknown_length_falls_back_without_range_header() {
    let mut o = started(4, false, None);
    let a = o.step(Event::Probed { outcome: info(None, true) });
    match a {
        Action::StartSequential { range } => assert_eq!(range, RangeRequest::NoRange),
        _ => panic!("expected StartSequential"),
    }
}

#[test]
fn probe_failure_falls_back_without_range_header() {
    let mut o = started(4, false, None);
    let a = o.step(Event::Probed { outcome: None });
    match a {
        Action::StartSequential { range } => assert_eq!(range, RangeRequest::NoRange),
        _ => panic!("expected StartSequential"),
    }
}

#[test]
fn single_segment_count_downloads_sequentially() {
    let mut o = started(1, false, None);
    let a = o.step(Event::Probed { outcome: info(Some(1000), true) });
    assert!(matches!(a, Action::StartSequential { range: RangeRequest::NoRange }));
}

#[test]
fn resume_sends_open_range() {
    let mut o = started(4, true, Some(500));
    let a = o.step(Event::Probed { outcome: info(None, true) });
    match a {
        Action::StartSequential { range } => {
            assert_eq!(range, RangeRequest::FromOffset { start: 500 });
        }
        _ => panic!("expected StartSequential"),
    }
    let a = o.step(Event::SequentialStatus { status: 206 });
    assert!(matches!(a, Action::ReadSequentialBody));
    let a = o.step(Event::SequentialFinished { ok: true });
    assert!(matches!(a, Action::Succeed));
}

#[test]
fn rejected_resume_restarts_from_zero() {
    let mut o = started(4, true, Some(500));
    let a = o.step(Event::Probed { outcome: info(None, false) });
    assert!(matches!(
        a,
        Action::StartSequential { range: RangeRequest::FromOffset { start: 500 } }
    ));
    let a = o.step(Event::SequentialStatus { status: 200 });
    assert!(matches!(a, Action::RestartSequential));
    assert_eq!(o.existing_size(), 0);
    assert_eq!(o.phase(), Phase::SequentialDownloading);
    let a = o.step(Event::SequentialStatus { status: 200 });
    assert!(matches!(a, Action::ReadSequentialBody));
    let a = o.step(Event::SequentialFinished { ok: true });
    assert!(matches!(a, Action::Succeed));
}

#[test]
fn sequential_error_status_fails_run() {
    let mut o = started(4, false, None);
    o.step(Event::Probed { outcome: None });
    let a = o.step(Event::SequentialStatus { status: 404 });
    match a {
        Action::Fail { error } => assert_eq!(error, DownloadError::SequentialFailed),
        _ => panic!("expected Fail"),
    }
    assert_eq!(o.phase(), Phase::Failed);
}

#[test]
fn broken_sequential_stream_fails_run() {
    let mut o = started(4, false, None);
    o.step(Event::Probed { outcome: None });
    o.step(Event::SequentialStatus { status: 200 });
    let a = o.step(Event::SequentialFinished { ok: false });
    match a {
        Action::Fail { error } => assert_eq!(error, DownloadError::SequentialFailed),
        _ => panic!("expected Fail"),
    }
}

#[test]
fn fresh_run_ignores_partial_file() {
    let o = started(4, false, Some(500));
    assert_eq!(o.existing_size(), 0);
}

#[test]
fn events_out_of_phase_are_ignored() {
    let mut o = Orchestrator::new(RunConfig { segment_count: 4, resume: false });
    let a = o.step(Event::SequentialFinished { ok: true });
    assert!(matches!(a, Action::Ignore));
    assert_eq!(o.phase(), Phase::Init);
    let a = o.step(Event::SegmentsJoined { outcomes: vec![] });
    assert!(matches!(a, Action::Ignore));
}

#[test]
fn strategy_decisions() {
    assert_eq!(choose_strategy(info(Some(1000), true), 0, 8), Strategy::Segmented);
    assert_eq!(choose_strategy(info(Some(1000), true), 1000, 8), Strategy::AlreadyComplete);
    assert_eq!(choose_strategy(info(Some(1000), false), 0, 8), Strategy::Sequential);
    assert_eq!(choose_strategy(info(None, true), 0, 8), Strategy::Sequential);
    assert_eq!(choose_strategy(None, 0, 8), Strategy::Sequential);
    assert_eq!(choose_strategy(info(Some(1000), true), 0, 1), Strategy::Sequential);
}

#[test]
fn helper_decisions() {
    assert_eq!(effective_existing(true, Some(42)), 42);
    assert_eq!(effective_existing(true, None), 0);
    assert_eq!(effective_existing(false, Some(42)), 0);
    assert_eq!(sequential_range(true, 500), RangeRequest::FromOffset { start: 500 });
    assert_eq!(sequential_range(true, 0), RangeRequest::NoRange);
    assert_eq!(sequential_range(false, 500), RangeRequest::NoRange);
    assert!(range_support_from(206, false));
    assert!(range_support_from(200, true));
    assert!(!range_support_from(200, false));
}
