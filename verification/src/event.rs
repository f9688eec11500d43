//! What is measured and reported when an intercepted call completes.

use crate::info::Info;
use std::time::{Duration, Instant};
use vstd::prelude::*;

verus! {

/// `std::time::Instant`: a reading of the clock, carried and never looked
/// into.
#[verifier::external_type_specification]
#[verifier::external_body]
pub struct ExInstant(Instant);

/// Nanoseconds in one second.
pub const NANOS_PER_SEC: u32 = 1_000_000_000;

/// A span of time: whole seconds and the nanoseconds of the second begun.
#[derive(Debug, Clone, Copy, PartialEq, Eq, Structural)]
pub struct Elapsed {
    secs: u64,
    nanos: u32,
}

/// The one event reported for a call, whether it succeeded or failed.
#[derive(Debug, Clone, PartialEq, Eq)]
pub struct CompletionEvent {
    /// Service that the call was addressed to.
    pub service: String,
    /// Method that the call was addressed to.
    pub method: String,
    /// The time the call took, as text.
    pub duration: String,
    /// Identifier that ties the call to its trace.
    pub trace_id: String,
    /// The time the call took.
    pub elapsed: Elapsed,
}

/// What is kept of a call while the inner service works on it.
#[derive(Debug)]
pub struct CallContext {
    /// Identity read from the path that the call was addressed to.
    pub info: Info,
    /// Identifier that ties the call to its trace.
    pub trace_id: String,
    /// When the request was handed on.
    pub started: Instant,
}

/// A completed call: the event to report and what the inner service
/// answered.
#[derive(Debug)]
pub struct Completion<T> {
    /// The event to report.
    pub event: CompletionEvent,
    /// The answer of the inner service, as it gave it.
    pub outcome: T,
}

/// What `{:?}` prints for a `Duration` of `secs` seconds and `nanos`
/// nanoseconds.
pub uninterp spec fn duration_text(secs: u64, nanos: u32) -> Seq<char>;

/// The event that reports a call with `info` and `trace_id` which took
/// `elapsed`.
pub open spec fn reports(
    event: CompletionEvent,
    info: Info,
    trace_id: String,
    elapsed: Elapsed,
) -> bool {
    &&& event.service@ == info.service@
    &&& event.method@ == info.method@
    &&& event.trace_id@ == trace_id@
    &&& event.elapsed == elapsed
    &&& event.duration@ == duration_text(elapsed.secs(), elapsed.subsec_nanos())
}

/// Calls `Instant::now`. Nothing is said of the reading.
#[verifier::external_body]
pub(crate) fn clock_now() -> Instant {
    Instant::now()
}

/// Calls `Instant::elapsed` and splits the span into seconds and
/// nanoseconds.
///
/// Not proved: that the nanoseconds are less than a second. How long the
/// span is depends on the clock, and nothing is said of it.
#[verifier::external_body]
fn clock_elapsed(start: &Instant) -> (span: (u64, u32))
    ensures
        span.1 < NANOS_PER_SEC,
{
    let span = start.elapsed();
    (span.as_secs(), span.subsec_nanos())
}

/// Prints the `Duration` of `secs` seconds and `nanos` nanoseconds with
/// `{:?}`.
///
/// Not proved: anything of the text. The contract only gives it its name.
#[verifier::external_body]
fn render_duration(secs: u64, nanos: u32) -> (text: String)
    requires
        nanos < NANOS_PER_SEC,
    ensures
        text@ == duration_text(secs, nanos),
{
    format!("{:?}", Duration::new(secs, nanos))
}

impl Elapsed {
    #[verifier::type_invariant]
    spec fn below_one_second(self) -> bool {
        self.nanos < NANOS_PER_SEC
    }

    /// The whole seconds of the span.
    pub closed spec fn spec_secs(self) -> u64 {
        self.secs
    }

    /// The nanoseconds beyond the whole seconds.
    pub closed spec fn spec_subsec_nanos(self) -> u32 {
        self.nanos
    }

    /// The whole span in nanoseconds.
    pub open spec fn total_nanos(self) -> int {
        self.secs() * NANOS_PER_SEC + self.subsec_nanos()
    }

    /// A span of `secs` seconds and `nanos` nanoseconds, where `nanos` is
    /// less than a second.
    pub fn new(secs: u64, nanos: u32) -> (span: Option<Elapsed>)
        ensures
            match span {
                Some(e) => nanos < NANOS_PER_SEC && e.secs() == secs && e.subsec_nanos() == nanos,
                None => nanos >= NANOS_PER_SEC,
            },
    {
        if nanos < NANOS_PER_SEC {
            Some(Elapsed { secs, nanos })
        } else {
            None
        }
    }

    /// The whole seconds of the span.
    #[verifier::when_used_as_spec(spec_secs)]
    pub fn secs(self) -> (secs: u64)
        ensures
            secs == self.secs(),
    {
        self.secs
    }

    /// The nanoseconds beyond the whole seconds: less than a second.
    #[verifier::when_used_as_spec(spec_subsec_nanos)]
    pub fn subsec_nanos(self) -> (nanos: u32)
        ensures
            nanos == self.subsec_nanos(),
            nanos < NANOS_PER_SEC,
    {
        proof {
            use_type_invariant(self);
        }
        self.nanos
    }

    /// The time that the clock says has passed since `start`, as a span.
    pub(crate) fn since(start: &Instant) -> (span: Elapsed)
        ensures
            span.subsec_nanos() < NANOS_PER_SEC,
    {
        let (secs, nanos) = clock_elapsed(start);
        Elapsed { secs, nanos }
    }
}

/// The event that reports a call with `info` and `trace_id` which took
/// `elapsed`.
pub fn completion_event(info: Info, trace_id: String, elapsed: Elapsed) -> (event: CompletionEvent)
    ensures
        reports(event, info, trace_id, elapsed),
{
    let duration = render_duration(elapsed.secs(), elapsed.subsec_nanos());
    CompletionEvent { service: info.service, method: info.method, duration, trace_id, elapsed }
}

impl CallContext {
    /// Completes the call with the answer of the inner service and the time
    /// that the call took: gives the event to report, whatever the answer
    /// is, and the answer unchanged.
    pub fn complete_after<T>(self, outcome: T, elapsed: Elapsed) -> (done: Completion<T>)
        ensures
            done.outcome == outcome,
            reports(done.event, self.info, self.trace_id, elapsed),
    {
        Completion { event: completion_event(self.info, self.trace_id, elapsed), outcome }
    }

    /// Completes the call with the answer of the inner service: reads the
    /// clock, and gives the event to report, whatever the answer is, and
    /// the answer unchanged. The time reported is what the clock says has
    /// passed since the request was handed on, and is never negative.
    pub fn complete<T>(self, outcome: T) -> (done: Completion<T>)
        ensures
            done.outcome == outcome,
            reports(done.event, self.info, self.trace_id, done.event.elapsed),
            done.event.elapsed.total_nanos() >= 0,
    {
        let elapsed = Elapsed::since(&self.started);
        self.complete_after(outcome, elapsed)
    }
}

} // verus!
