//! The orchestrator of one download run: a state machine from probe result
//! to strategy, fan-out, join, and verdict. The surrounding binary performs
//! each returned [`Action`] and reports what happened as the next [`Event`];
//! every decision in between is made and checked here.

use vstd::prelude::*;
use crate::segment::{plan_segments, spec_plan, valid_plan, Segment};

verus! {

/// What a run was asked to do: how many concurrent segments to request and
/// whether a pre-existing partial file may be resumed.
#[derive(Clone, Copy, PartialEq, Eq, Structural, Debug)]
pub struct RunConfig {
    pub segment_count: u64,
    pub resume: bool,
}

/// What probing the remote resource established: its total byte length, if
/// the server reported one, and whether it honors range requests.
#[derive(Clone, Copy, PartialEq, Eq, Debug)]
pub struct ResourceInfo {
    pub length: Option<u64>,
    pub supports_ranges: bool,
}

/// The phases of one orchestrator run.
#[derive(Clone, Copy, PartialEq, Eq, Structural, Debug)]
pub enum Phase {
    Init,
    Probing,
    Segmenting,
    SequentialDownloading,
    Done,
    Failed,
}

/// The download strategy a probe outcome calls for.
#[derive(Clone, Copy, PartialEq, Eq, Structural, Debug)]
pub enum Strategy {
    AlreadyComplete,
    Segmented,
    Sequential,
}

/// Range header of a sequential request: none, or open-ended from an offset.
#[derive(Clone, Copy, PartialEq, Eq, Structural, Debug)]
pub enum RangeRequest {
    NoRange,
    FromOffset { start: u64 },
}

/// Why a run failed. A probe failure and a rejected resume are not here:
/// both are absorbed into a strategy change and never abort a run by
/// themselves.
#[derive(Clone, Copy, PartialEq, Eq, Structural, Debug)]
pub enum DownloadError {
    /// A segment request was answered with a status other than 206: the
    /// server ignored the `Range` header, and accepting the body would
    /// corrupt the shared output file.
    UnsupportedRange { segment: usize, status: u16 },
    /// A segment stream ended with the wrong number of bytes.
    IncompleteSegment { segment: usize, expected: u64, written: u64 },
    /// A segment worker's transfer or write broke down.
    SegmentFailed { segment: usize },
    /// The sequential request was refused or its stream broke down.
    SequentialFailed,
    /// The output file could not be created, sized, or written.
    IOFailure,
}

/// What one segment worker reported once it was joined.
#[derive(Clone, Copy, PartialEq, Eq, Structural, Debug)]
pub enum SegmentOutcome {
    /// The worker got a response with this status and wrote this many bytes.
    Delivered { status: u16, bytes: u64 },
    /// The worker's request, stream, or write failed.
    Failed,
}

/// What the surrounding binary reports back to the orchestrator.
pub enum Event {
    /// The run begins; carries the size of a file already at the output
    /// path, if any.
    Begin { on_disk_size: Option<u64> },
    /// The probe finished; `None` when it failed entirely.
    Probed { outcome: Option<ResourceInfo> },
    /// Creating or pre-sizing the output file failed.
    FileSetupFailed,
    /// All segment workers were joined, one outcome each, in segment order.
    SegmentsJoined { outcomes: Vec<SegmentOutcome> },
    /// The status of the sequential response arrived.
    SequentialStatus { status: u16 },
    /// The sequential stream ended cleanly (`ok`) or broke down.
    SequentialFinished { ok: bool },
}

/// What the orchestrator asks the surrounding binary to do next.
pub enum Action {
    /// Probe the resource: HEAD, GET fallback, and a range check.
    Probe,
    /// Pre-size the output file to `total_size` bytes and fetch the segments
    /// concurrently, one ranged request each.
    StartSegments { total_size: u64, segments: Vec<Segment> },
    /// Issue one sequential request with the given range header.
    StartSequential { range: RangeRequest },
    /// Discard the partial file and issue a fresh sequential request from
    /// byte zero: the server rejected the resume range.
    RestartSequential,
    /// Stream the accepted sequential response body to the file.
    ReadSequentialBody,
    /// The run succeeded: the output file is complete.
    Succeed,
    /// The run failed; the partial file is left for a future resume.
    Fail { error: DownloadError },
    /// The event does not belong to the current phase; nothing to do.
    Ignore,
}

/// Bytes already on disk that may be kept: a pre-existing file counts only
/// when resume was requested; a fresh run starts from zero and overwrites.
pub open spec fn spec_effective_existing(resume: bool, on_disk_size: Option<u64>) -> u64 {
    if resume {
        match on_disk_size {
            Option::Some(n) => n,
            Option::None => 0,
        }
    } else {
        0
    }
}

/// See [`spec_effective_existing`].
pub fn effective_existing(resume: bool, on_disk_size: Option<u64>) -> (n: u64)
    ensures
        n == spec_effective_existing(resume, on_disk_size),
{
    if resume {
        match on_disk_size {
            Some(n) => n,
            None => 0,
        }
    } else {
        0
    }
}

/// The strategy a probe outcome calls for: the run is already complete when
/// the known length is no more than what is on disk; segmented only when the
/// length is known, bytes remain, the server honors ranges, and more than
/// one segment was asked for; sequential in every other case, including a
/// failed probe and an unknown length (a segment plan needs a known upper
/// bound).
pub open spec fn spec_strategy(
    outcome: Option<ResourceInfo>,
    existing_size: u64,
    segment_count: u64,
) -> Strategy {
    match outcome {
        Option::None => Strategy::Sequential,
        Option::Some(info) => match info.length {
            Option::None => Strategy::Sequential,
            Option::Some(total) => if existing_size >= total {
                Strategy::AlreadyComplete
            } else if info.supports_ranges && segment_count > 1 {
                Strategy::Segmented
            } else {
                Strategy::Sequential
            },
        },
    }
}

/// The total length the probe reported, where it reported one.
pub open spec fn spec_known_length(outcome: Option<ResourceInfo>) -> u64 {
    match outcome {
        Option::Some(info) => match info.length {
            Option::Some(total) => total,
            Option::None => 0,
        },
        Option::None => 0,
    }
}

/// See [`spec_strategy`].
pub fn choose_strategy(
    outcome: Option<ResourceInfo>,
    existing_size: u64,
    segment_count: u64,
) -> (s: Strategy)
    ensures
        s == spec_strategy(outcome, existing_size, segment_count),
{
    match outcome {
        None => Strategy::Sequential,
        Some(info) => match info.length {
            None => Strategy::Sequential,
            Some(total) => if existing_size >= total {
                Strategy::AlreadyComplete
            } else if info.supports_ranges && segment_count > 1 {
                Strategy::Segmented
            } else {
                Strategy::Sequential
            },
        },
    }
}

/// Whether a probe answer counts as range support: either the test request
/// was answered with 206, or an `Accept-Ranges` header was present.
pub fn range_support_from(status: u16, has_accept_ranges: bool) -> (r: bool)
    ensures
        r == (status == 206 || has_accept_ranges),
{
    status == 206 || has_accept_ranges
}

/// Range header of the first sequential request: resume from the partial
/// file's end when resume was asked for and bytes exist, else none.
pub open spec fn spec_sequential_range(resume: bool, existing_size: u64) -> RangeRequest {
    if resume && existing_size > 0 {
        RangeRequest::FromOffset { start: existing_size }
    } else {
        RangeRequest::NoRange
    }
}

/// See [`spec_sequential_range`].
pub fn sequential_range(resume: bool, existing_size: u64) -> (r: RangeRequest)
    ensures
        r == spec_sequential_range(resume, existing_size),
{
    if resume && existing_size > 0 {
        RangeRequest::FromOffset { start: existing_size }
    } else {
        RangeRequest::NoRange
    }
}

/// The verdict on one joined segment worker: a 206 answer that delivered
/// exactly the segment's bytes passes; any other status means the server
/// ignored the range; a 206 with the wrong byte count is incomplete.
pub open spec fn spec_segment_verdict(
    seg: Segment,
    index: usize,
    outcome: SegmentOutcome,
) -> Option<DownloadError> {
    match outcome {
        SegmentOutcome::Failed => Option::Some(DownloadError::SegmentFailed { segment: index }),
        SegmentOutcome::Delivered { status, bytes } => if status != 206 {
            Option::Some(DownloadError::UnsupportedRange { segment: index, status })
        } else if bytes != seg.spec_len() {
            Option::Some(
                DownloadError::IncompleteSegment {
                    segment: index,
                    expected: (seg.end - seg.start + 1) as u64,
                    written: bytes,
                },
            )
        } else {
            Option::None
        },
    }
}

/// The first failing segment at or after position `i`, scanning in segment
/// order; a worker that was joined without an outcome counts as failed.
pub open spec fn spec_first_error_from(
    segs: Seq<Segment>,
    outcomes: Seq<SegmentOutcome>,
    i: int,
) -> Option<DownloadError>
    decreases segs.len() - i,
{
    if i < 0 || i >= segs.len() {
        Option::None
    } else {
        let out = if i < outcomes.len() {
            outcomes[i]
        } else {
            SegmentOutcome::Failed
        };
        match spec_segment_verdict(segs[i], i as usize, out) {
            Option::Some(e) => Option::Some(e),
            Option::None => spec_first_error_from(segs, outcomes, i + 1),
        }
    }
}

/// Judges all joined outcomes together: the first error in segment order,
/// or nothing when the whole fan-out went through cleanly.
pub open spec fn spec_join_verdict(
    segs: Seq<Segment>,
    outcomes: Seq<SegmentOutcome>,
) -> Option<DownloadError> {
    spec_first_error_from(segs, outcomes, 0)
}

/// Below a clean verdict at `i` nothing is wrong at any later position.
proof fn lemma_no_error_suffix(
    segs: Seq<Segment>,
    outcomes: Seq<SegmentOutcome>,
    i: int,
    j: int,
)
    requires
        0 <= i <= j < segs.len(),
        spec_first_error_from(segs, outcomes, i) is None,
    ensures
        j < outcomes.len(),
        spec_segment_verdict(segs[j], j as usize, outcomes[j]) is None,
    decreases j - i,
{
    if i < j {
        lemma_no_error_suffix(segs, outcomes, i + 1, j);
    }
}

/// A clean join is only ever pronounced when every single worker was joined
/// and reported status 206 with exactly its segment's byte count: no byte of
/// the shared file is trusted on any weaker evidence.
pub proof fn lemma_clean_join_characterized(segs: Seq<Segment>, outcomes: Seq<SegmentOutcome>)
    requires
        spec_join_verdict(segs, outcomes) is None,
    ensures
        forall|i: int|
            0 <= i < segs.len() ==> i < outcomes.len() && ((#[trigger] outcomes[i]) matches
            SegmentOutcome::Delivered { status, bytes } && status == 206 && bytes == segs[i].spec_len()),
{
    assert forall|i: int|
        0 <= i < segs.len() implies i < outcomes.len() && ((#[trigger] outcomes[i]) matches
    SegmentOutcome::Delivered { status, bytes } && status == 206 && bytes == segs[i].spec_len()) by {
        lemma_no_error_suffix(segs, outcomes, 0, i);
    }
}

/// Judges the joined segment outcomes, as [`spec_join_verdict`] describes.
pub fn evaluate_outcomes(segments: &Vec<Segment>, outcomes: &Vec<SegmentOutcome>) -> (r: Result<
    (),
    DownloadError,
>)
    requires
        forall|i: int| 0 <= i < segments@.len() ==> (#[trigger] segments@[i]).wf(),
    ensures
        (match r {
            Result::Ok(u) => spec_join_verdict(segments@, outcomes@) is None,
            Result::Err(e) => spec_join_verdict(segments@, outcomes@) == Option::Some(e),
        }),
{
    let mut i: usize = 0;
    while i < segments.len()
        invariant
            0 <= i <= segments@.len(),
            forall|k: int| 0 <= k < segments@.len() ==> (#[trigger] segments@[k]).wf(),
            spec_first_error_from(segments@, outcomes@, 0) == spec_first_error_from(
                segments@,
                outcomes@,
                i as int,
            ),
        decreases segments@.len() - i,
    {
        let seg = segments[i];
        let out = if i < outcomes.len() {
            outcomes[i]
        } else {
            SegmentOutcome::Failed
        };
        match out {
            SegmentOutcome::Failed => {
                return Err(DownloadError::SegmentFailed { segment: i });
            },
            SegmentOutcome::Delivered { status, bytes } => {
                if status != 206 {
                    return Err(DownloadError::UnsupportedRange { segment: i, status });
                }
                let expected = seg.len();
                if bytes != expected {
                    return Err(
                        DownloadError::IncompleteSegment { segment: i, expected, written: bytes },
                    );
                }
            },
        }
        i = i + 1;
    }
    Ok(())
}

/// Short-circuit on a complete file: when the probe reports a length no
/// greater than what is already on disk, the strategy is `AlreadyComplete`
/// and the plan is empty, so the run succeeds without a single fetch
/// request ([`Orchestrator::step`] then answers `Succeed` straight from the
/// probe result).
pub proof fn lemma_already_complete_short_circuit(
    info: ResourceInfo,
    existing_size: u64,
    segment_count: u64,
)
    requires
        info.length is Some,
        existing_size >= spec_known_length(Option::Some(info)),
        1 <= segment_count,
    ensures
        spec_strategy(Option::Some(info), existing_size, segment_count)
            == Strategy::AlreadyComplete,
        spec_plan(
            existing_size as int,
            spec_known_length(Option::Some(info)) as int,
            segment_count as int,
        ) == Seq::<Segment>::empty(),
{
}

/// Fallback sends no range: when the probe failed, reported no length, or
/// reported no range support, the strategy is sequential, and a run that
/// has no partial file to resume sends no `Range` header at all. (A resume
/// of a non-empty partial file is the one deliberate exception: it asks the
/// server for `bytes=k-`.)
pub proof fn lemma_fallback_sends_no_range(
    outcome: Option<ResourceInfo>,
    existing_size: u64,
    segment_count: u64,
    resume: bool,
)
    requires
        (match outcome {
            Option::None => true,
            Option::Some(info) => info.length is None || !info.supports_ranges,
        }),
        spec_strategy(outcome, existing_size, segment_count) != Strategy::AlreadyComplete,
        !resume || existing_size == 0,
    ensures
        spec_strategy(outcome, existing_size, segment_count) == Strategy::Sequential,
        spec_sequential_range(resume, existing_size) == RangeRequest::NoRange,
{
}

/// An event that does not belong to the current phase changes nothing.
pub open spec fn spec_ignored(pre: Orchestrator, post: Orchestrator, action: Action) -> bool {
    post == pre && action is Ignore
}

/// One download run. Drive it by calling [`Orchestrator::step`] with each
/// event and performing the returned action.
pub struct Orchestrator {
    config: RunConfig,
    phase: Phase,
    existing_size: u64,
    total_size: u64,
    segments: Vec<Segment>,
    resumed_request: bool,
    error: Option<DownloadError>,
}

impl Orchestrator {
    /// The run's internal consistency: while segments are in flight they are
    /// exactly the planned partition of `[existing_size, total_size - 1]`,
    /// and a failed run carries its error.
    pub open spec fn wf(&self) -> bool {
        &&& self.spec_config().segment_count >= 1
        &&& (self.spec_phase() == Phase::Segmenting ==> {
            &&& self.spec_existing_size() < self.spec_total_size()
            &&& self.spec_segments() == spec_plan(
                self.spec_existing_size() as int,
                self.spec_total_size() as int,
                self.spec_config().segment_count as int,
            )
            &&& valid_plan(
                self.spec_segments(),
                self.spec_existing_size() as int,
                self.spec_total_size() as int,
            )
        })
        &&& (self.spec_phase() == Phase::Failed ==> self.spec_error() is Some)
    }

    pub closed spec fn spec_config(&self) -> RunConfig {
        self.config
    }

    pub closed spec fn spec_phase(&self) -> Phase {
        self.phase
    }

    pub closed spec fn spec_existing_size(&self) -> u64 {
        self.existing_size
    }

    pub closed spec fn spec_total_size(&self) -> u64 {
        self.total_size
    }

    pub closed spec fn spec_segments(&self) -> Seq<Segment> {
        self.segments@
    }

    pub closed spec fn spec_resumed_request(&self) -> bool {
        self.resumed_request
    }

    pub closed spec fn spec_error(&self) -> Option<DownloadError> {
        self.error
    }

    pub fn new(config: RunConfig) -> (o: Orchestrator)
        requires
            config.segment_count >= 1,
        ensures
            o.wf(),
            o.spec_config() == config,
            o.spec_phase() == Phase::Init,
    {
        Orchestrator {
            config,
            phase: Phase::Init,
            existing_size: 0,
            total_size: 0,
            segments: Vec::new(),
            resumed_request: false,
            error: None,
        }
    }

    /// The phase the run is in.
    pub fn phase(&self) -> (p: Phase)
        ensures
            p == self.spec_phase(),
    {
        self.phase
    }

    /// Why the run failed, once it has.
    pub fn error(&self) -> (e: Option<DownloadError>)
        ensures
            e == self.spec_error(),
    {
        self.error
    }

    /// The partial bytes the run decided to keep.
    pub fn existing_size(&self) -> (n: u64)
        ensures
            n == self.spec_existing_size(),
    {
        self.existing_size
    }

    /// The run's state machine: consumes one event and decides the next
    /// action. A probe failure or an unusable probe result falls back to the
    /// sequential strategy; an already-complete file succeeds without any
    /// fetch; a rejected resume restarts the sequential fetch from zero; a
    /// committed segmented fetch fails on the first worker whose range was
    /// ignored, incomplete, or broken.
    pub fn step(&mut self, event: Event) -> (action: Action)
        requires
            old(self).wf(),
        ensures
            final(self).wf(),
            final(self).spec_config() == old(self).spec_config(),
            (match old(self).spec_phase() {
                Phase::Init => (match event {
                    Event::Begin { on_disk_size } => {
                        &&& final(self).spec_phase() == Phase::Probing
                        &&& final(self).spec_existing_size() == spec_effective_existing(
                            old(self).spec_config().resume,
                            on_disk_size,
                        )
                        &&& action is Probe
                    },
                    _ => spec_ignored(*old(self), *final(self), action),
                }),
                Phase::Probing => (match event {
                    Event::Probed { outcome } => {
                        let existing = old(self).spec_existing_size();
                        let count = old(self).spec_config().segment_count;
                        let resume = old(self).spec_config().resume;
                        &&& final(self).spec_existing_size() == existing
                        &&& (match spec_strategy(outcome, existing, count) {
                            Strategy::AlreadyComplete => {
                                &&& final(self).spec_phase() == Phase::Done
                                &&& action is Succeed
                            },
                            Strategy::Segmented => {
                                let total = spec_known_length(outcome);
                                &&& final(self).spec_phase() == Phase::Segmenting
                                &&& final(self).spec_total_size() == total
                                &&& final(self).spec_segments() == spec_plan(
                                    existing as int,
                                    total as int,
                                    count as int,
                                )
                                &&& (action matches Action::StartSegments {
                                    total_size,
                                    segments,
                                } && total_size == total && segments@ == spec_plan(
                                    existing as int,
                                    total as int,
                                    count as int,
                                ))
                            },
                            Strategy::Sequential => {
                                &&& final(self).spec_phase() == Phase::SequentialDownloading
                                &&& final(self).spec_resumed_request() == (spec_sequential_range(
                                    resume,
                                    existing,
                                ) is FromOffset)
                                &&& (action matches Action::StartSequential { range } && range
                                    == spec_sequential_range(resume, existing))
                            },
                        })
                    },
                    _ => spec_ignored(*old(self), *final(self), action),
                }),
                Phase::Segmenting => (match event {
                    Event::SegmentsJoined { outcomes } => (match spec_join_verdict(
                        old(self).spec_segments(),
                        outcomes@,
                    ) {
                        Option::None => {
                            &&& final(self).spec_phase() == Phase::Done
                            &&& action is Succeed
                        },
                        Option::Some(e) => {
                            &&& final(self).spec_phase() == Phase::Failed
                            &&& final(self).spec_error() == Option::Some(e)
                            &&& (action matches Action::Fail { error } && error == e)
                        },
                    }),
                    Event::FileSetupFailed => {
                        &&& final(self).spec_phase() == Phase::Failed
                        &&& final(self).spec_error() == Option::Some(DownloadError::IOFailure)
                        &&& (action matches Action::Fail { error } && error
                            == DownloadError::IOFailure)
                    },
                    _ => spec_ignored(*old(self), *final(self), action),
                }),
                Phase::SequentialDownloading => (match event {
                    Event::SequentialStatus { status } => {
                        if old(self).spec_resumed_request() && status != 206 {
                            &&& final(self).spec_phase() == Phase::SequentialDownloading
                            &&& final(self).spec_existing_size() == 0
                            &&& !final(self).spec_resumed_request()
                            &&& action is RestartSequential
                        } else if 200 <= status < 300 {
                            &&& *final(self) == *old(self)
                            &&& action is ReadSequentialBody
                        } else {
                            &&& final(self).spec_phase() == Phase::Failed
                            &&& final(self).spec_error() == Option::Some(
                                DownloadError::SequentialFailed,
                            )
                            &&& (action matches Action::Fail { error } && error
                                == DownloadError::SequentialFailed)
                        }
                    },
                    Event::SequentialFinished { ok } => {
                        if ok {
                            &&& final(self).spec_phase() == Phase::Done
                            &&& action is Succeed
                        } else {
                            &&& final(self).spec_phase() == Phase::Failed
                            &&& final(self).spec_error() == Option::Some(
                                DownloadError::SequentialFailed,
                            )
                            &&& (action matches Action::Fail { error } && error
                                == DownloadError::SequentialFailed)
                        }
                    },
                    Event::FileSetupFailed => {
                        &&& final(self).spec_phase() == Phase::Failed
                        &&& final(self).spec_error() == Option::Some(DownloadError::IOFailure)
                        &&& (action matches Action::Fail { error } && error
                            == DownloadError::IOFailure)
                    },
                    _ => spec_ignored(*old(self), *final(self), action),
                }),
                Phase::Done => spec_ignored(*old(self), *final(self), action),
                Phase::Failed => spec_ignored(*old(self), *final(self), action),
            }),
    {
        match self.phase {
            Phase::Init => match event {
                Event::Begin { on_disk_size } => {
                    self.existing_size = effective_existing(self.config.resume, on_disk_size);
                    self.phase = Phase::Probing;
                    Action::Probe
                },
                _ => Action::Ignore,
            },
            Phase::Probing => match event {
                Event::Probed { outcome } => {
                    match choose_strategy(outcome, self.existing_size, self.config.segment_count) {
                        Strategy::AlreadyComplete => {
                            self.phase = Phase::Done;
                            Action::Succeed
                        },
                        Strategy::Segmented => {
                            let total = match outcome {
                                Some(info) => match info.length {
                                    Some(total) => total,
                                    None => 0,
                                },
                                None => 0,
                            };
                            let segments = plan_segments(
                                self.existing_size,
                                total,
                                self.config.segment_count,
                            );
                            self.total_size = total;
                            self.segments = segments.clone();
                            self.phase = Phase::Segmenting;
                            Action::StartSegments { total_size: total, segments }
                        },
                        Strategy::Sequential => {
                            let range = sequential_range(self.config.resume, self.existing_size);
                            self.resumed_request = match range {
                                RangeRequest::FromOffset { start } => true,
                                RangeRequest::NoRange => false,
                            };
                            self.phase = Phase::SequentialDownloading;
                            Action::StartSequential { range }
                        },
                    }
                },
                _ => Action::Ignore,
            },
            Phase::Segmenting => match event {
                Event::SegmentsJoined { outcomes } => {
                    match evaluate_outcomes(&self.segments, &outcomes) {
                        Ok(()) => {
                            self.phase = Phase::Done;
                            Action::Succeed
                        },
                        Err(e) => {
                            self.phase = Phase::Failed;
                            self.error = Some(e);
                            Action::Fail { error: e }
                        },
                    }
                },
                Event::FileSetupFailed => {
                    self.phase = Phase::Failed;
                    self.error = Some(DownloadError::IOFailure);
                    Action::Fail { error: DownloadError::IOFailure }
                },
                _ => Action::Ignore,
            },
            Phase::SequentialDownloading => match event {
                Event::SequentialStatus { status } => {
                    if self.resumed_request && status != 206 {
                        self.existing_size = 0;
                        self.resumed_request = false;
                        Action::RestartSequential
                    } else if 200 <= status && status < 300 {
                        Action::ReadSequentialBody
                    } else {
                        self.phase = Phase::Failed;
                        self.error = Some(DownloadError::SequentialFailed);
                        Action::Fail { error: DownloadError::SequentialFailed }
                    }
                },
                Event::SequentialFinished { ok } => {
                    if ok {
                        self.phase = Phase::Done;
                        Action::Succeed
                    } else {
                        self.phase = Phase::Failed;
                        self.error = Some(DownloadError::SequentialFailed);
                        Action::Fail { error: DownloadError::SequentialFailed }
                    }
                },
                Event::FileSetupFailed => {
                    self.phase = Phase::Failed;
                    self.error = Some(DownloadError::IOFailure);
                    Action::Fail { error: DownloadError::IOFailure }
                },
                _ => Action::Ignore,
            },
            Phase::Done => Action::Ignore,
            Phase::Failed => Action::Ignore,
        }
    }
}

} // verus!
