//! The upload driver: drives a chunk plan through the transport, emitting a
//! progress event after every chunk and honouring cancellation at chunk
//! boundaries.
//!
//! The network, the clock and the shared flag are outside the library, so the
//! driver consumes their behaviour as data: the probe's result and, for each
//! chunk boundary, what the flag read and how the send went. The driver's
//! decisions — what is sent, what is reported, how the run ends — are then
//! verified for every possible behaviour of that outside world.

use vstd::prelude::*;

use crate::plan::{ChunkPlan, lemma_sum_prefix_monotone, lemma_sum_prefix_nonneg, sum_all,
    sum_prefix};
use crate::progress::{Ratio, percent_spec, speed_spec};
use crate::transfer::{FileHandle, ProgressEvent, TransferState};

verus! {

/// Why an upload ended without a finalized remote file.
#[derive(Clone, Copy, Debug, PartialEq, Eq, Structural)]
pub enum UploadError {
    /// The local file could not be opened or read.
    IoError,
    /// Probe negotiation or a chunk send failed on the wire.
    NetworkError,
    /// No valid session was bound to the transport client.
    AuthError,
    /// The observer cancelled the upload; a normal outcome, not a fault.
    CancelledError,
}

/// What the outside world did at one chunk boundary: `proceed` is the
/// cancellation flag as read just before the send, and `sent` is how the
/// send itself went — the milliseconds elapsed since the transfer started
/// when the chunk completed, or the error the transport reported.
#[derive(Clone, Copy, Debug, PartialEq, Eq)]
pub struct ChunkOutcome {
    pub proceed: bool,
    pub sent: Result<u64, UploadError>,
}

/// How one upload run ended.
#[derive(Clone, Copy, Debug, PartialEq, Eq)]
pub enum UploadOutcome {
    /// Every chunk went out; the remote file is complete. The speed is the
    /// last throughput computed, `None` only when the file was empty.
    Completed { bytes_uploaded: u64, speed: Option<Ratio> },
    /// The flag was lowered at a chunk boundary; the bytes already sent stay
    /// counted, and nothing further was sent.
    Cancelled { bytes_uploaded: u64 },
    /// The probe or a chunk send failed.
    Failed { error: UploadError },
}

impl UploadOutcome {
    /// The caller-facing policy for a finished run: a completed upload hands
    /// back its byte count and final speed, a cancelled one is reported as
    /// `CancelledError` rather than as a fabricated success, and a failure
    /// keeps its error.
    pub fn into_result(self) -> (r: Result<(u64, Option<Ratio>), UploadError>)
        ensures
            self matches UploadOutcome::Completed { bytes_uploaded, speed }
                ==> r == Ok::<(u64, Option<Ratio>), UploadError>((bytes_uploaded, speed)),
            self matches UploadOutcome::Cancelled { .. }
                ==> r == Err::<(u64, Option<Ratio>), UploadError>(UploadError::CancelledError),
            self matches UploadOutcome::Failed { error }
                ==> r == Err::<(u64, Option<Ratio>), UploadError>(error),
    {
        match self {
            UploadOutcome::Completed { bytes_uploaded, speed } => Ok((bytes_uploaded, speed)),
            UploadOutcome::Cancelled { .. } => Err(UploadError::CancelledError),
            UploadOutcome::Failed { error } => Err(error),
        }
    }
}

/// A chunk goes through when the flag still said go and the send succeeded.
pub open spec fn chunk_ok(o: ChunkOutcome) -> bool {
    o.proceed && o.sent is Ok
}

/// The elapsed time reported with a successful send; only meaningful where
/// `chunk_ok` holds.
pub open spec fn sent_elapsed(o: ChunkOutcome) -> u64 {
    match o.sent {
        Ok(e) => e,
        Err(_) => 0,
    }
}

/// How many leading boundary outcomes went through.
pub open spec fn ok_prefix_len(outs: Seq<ChunkOutcome>) -> int
    decreases outs.len(),
{
    if outs.len() == 0 || !chunk_ok(outs[0]) {
        0
    } else {
        1 + ok_prefix_len(outs.drop_first())
    }
}

/// How many chunks of the plan a run completes before it stops: every chunk
/// up to the first boundary where the flag was down or the send failed, and
/// never more than the plan holds.
pub open spec fn chunks_completed(chunks: Seq<u64>, outs: Seq<ChunkOutcome>) -> int {
    if ok_prefix_len(outs) <= chunks.len() {
        ok_prefix_len(outs)
    } else {
        chunks.len() as int
    }
}

/// How a run over `chunks` with boundary outcomes `outs` (one per chunk at
/// least) ends: completed when every chunk went through, cancelled at the
/// first boundary where the flag was down, failed with the transport's error
/// otherwise.
pub open spec fn run_outcome_spec(chunks: Seq<u64>, outs: Seq<ChunkOutcome>) -> UploadOutcome {
    let k = chunks_completed(chunks, outs);
    if k == chunks.len() {
        UploadOutcome::Completed {
            bytes_uploaded: sum_all(chunks) as u64,
            speed: if chunks.len() == 0 {
                None
            } else {
                speed_spec(sum_all(chunks) as u64, sent_elapsed(outs[chunks.len() - 1]))
            },
        }
    } else if !outs[k].proceed {
        UploadOutcome::Cancelled { bytes_uploaded: sum_prefix(chunks, k) as u64 }
    } else {
        match outs[k].sent {
            Ok(_) => arbitrary(),
            Err(e) => UploadOutcome::Failed { error: e },
        }
    }
}

/// If the first `i` outcomes went through and the one at `i` (if any) did
/// not, then exactly `i` leading outcomes went through.
pub proof fn lemma_ok_prefix_len_is(outs: Seq<ChunkOutcome>, i: int)
    requires
        0 <= i <= outs.len(),
        forall|j: int| 0 <= j < i ==> #[trigger] chunk_ok(outs[j]),
        i < outs.len() ==> !chunk_ok(outs[i]),
    ensures
        ok_prefix_len(outs) == i,
    decreases i,
{
    if i > 0 {
        let rest = outs.drop_first();
        assert(chunk_ok(outs[0]));
        assert forall|j: int| 0 <= j < i - 1 implies #[trigger] chunk_ok(rest[j]) by {
            assert(rest[j] == outs[j + 1]);
            assert(chunk_ok(outs[j + 1]));
        }
        if i - 1 < rest.len() {
            assert(rest[i - 1] == outs[i]);
        }
        lemma_ok_prefix_len_is(rest, i - 1);
        assert(ok_prefix_len(outs) == 1 + ok_prefix_len(rest));
    }
}

/// If the first `i` outcomes went through, at least `i` leading outcomes
/// went through.
pub proof fn lemma_ok_prefix_len_at_least(outs: Seq<ChunkOutcome>, i: int)
    requires
        0 <= i <= outs.len(),
        forall|j: int| 0 <= j < i ==> #[trigger] chunk_ok(outs[j]),
    ensures
        ok_prefix_len(outs) >= i,
    decreases i,
{
    if i > 0 {
        let rest = outs.drop_first();
        assert(chunk_ok(outs[0]));
        assert forall|j: int| 0 <= j < i - 1 implies #[trigger] chunk_ok(rest[j]) by {
            assert(rest[j] == outs[j + 1]);
            assert(chunk_ok(outs[j + 1]));
        }
        lemma_ok_prefix_len_at_least(rest, i - 1);
        assert(ok_prefix_len(outs) == 1 + ok_prefix_len(rest));
    } else {
        lemma_ok_prefix_all_ok(outs);
    }
}

/// Every outcome before the stopping point went through, and the one at the
/// stopping point (if any) did not.
pub proof fn lemma_ok_prefix_all_ok(outs: Seq<ChunkOutcome>)
    ensures
        0 <= ok_prefix_len(outs) <= outs.len(),
        forall|j: int| 0 <= j < ok_prefix_len(outs) ==> #[trigger] chunk_ok(outs[j]),
        ok_prefix_len(outs) < outs.len() ==> !chunk_ok(outs[ok_prefix_len(outs)]),
    decreases outs.len(),
{
    if outs.len() > 0 && chunk_ok(outs[0]) {
        let rest = outs.drop_first();
        lemma_ok_prefix_all_ok(rest);
        assert(ok_prefix_len(outs) == 1 + ok_prefix_len(rest));
        assert forall|j: int| 0 <= j < ok_prefix_len(outs) implies #[trigger] chunk_ok(outs[j]) by {
            if j > 0 {
                assert(rest[j - 1] == outs[j]);
                assert(chunk_ok(rest[j - 1]));
            }
        }
        if ok_prefix_len(outs) < outs.len() {
            assert(rest[ok_prefix_len(outs) - 1] == outs[ok_prefix_len(outs)]);
        }
    }
}

/// Cancellation is honoured at boundaries: once the flag reads false before
/// chunk `i`, no chunk from `i` on is ever sent, and a run that still has
/// chunks left does not complete.
pub proof fn lemma_no_sends_after_cancel(chunks: Seq<u64>, outs: Seq<ChunkOutcome>, i: int)
    requires
        0 <= i < outs.len(),
        !outs[i].proceed,
    ensures
        chunks_completed(chunks, outs) <= i,
        i < chunks.len() ==> !(run_outcome_spec(chunks, outs) matches UploadOutcome::Completed { .. }),
{
    lemma_ok_prefix_all_ok(outs);
    if ok_prefix_len(outs) > i {
        assert(chunk_ok(outs[i]));
    }
}

/// Cancelling before any chunk is sent: the run ends cancelled with zero
/// bytes uploaded — never completed.
pub proof fn lemma_cancel_before_first_chunk(chunks: Seq<u64>, outs: Seq<ChunkOutcome>)
    requires
        chunks.len() > 0,
        outs.len() > 0,
        !outs[0].proceed,
    ensures
        chunks_completed(chunks, outs) == 0,
        run_outcome_spec(chunks, outs) == (UploadOutcome::Cancelled { bytes_uploaded: 0u64 }),
{
    lemma_no_sends_after_cancel(chunks, outs, 0);
    lemma_ok_prefix_all_ok(outs);
}

/// Drives one upload of `file` to completion, cancellation or failure.
///
/// `probed` is what probing the file produced: its chunk plan, or the error
/// that aborted the upload before any chunk was sent. `outcomes` holds, for
/// each chunk boundary, the flag reading and the send result. The run sends
/// chunks in file order, stops at the first boundary whose flag was down or
/// whose send failed, and returns how it ended together with the progress
/// events emitted after each completed chunk.
#[verifier::loop_isolation(false)]
pub fn run_upload(
    file: &FileHandle,
    probed: Result<ChunkPlan, UploadError>,
    outcomes: &Vec<ChunkOutcome>,
) -> (r: (UploadOutcome, Vec<ProgressEvent>))
    requires
        probed matches Ok(plan) ==> plan.wf() && plan.total_size == file.size
            && outcomes@.len() >= plan.chunk_sizes@.len(),
    ensures
        probed matches Err(e) ==> r.0 == (UploadOutcome::Failed { error: e })
            && r.1@.len() == 0,
        probed matches Ok(plan) ==> ({
            let chunks = plan.chunk_sizes@;
            let k = chunks_completed(chunks, outcomes@);
            &&& r.0 == run_outcome_spec(chunks, outcomes@)
            &&& r.1@.len() == k
            &&& forall|i: int| 0 <= i < k ==> (#[trigger] r.1@[i]).bytes_uploaded as int
                == sum_prefix(chunks, i + 1)
            &&& forall|i: int| 0 <= i < k ==> (#[trigger] r.1@[i]).total_size == plan.total_size
            &&& forall|i: int| 0 <= i < k ==> (#[trigger] r.1@[i]).filename@ == file.filename@
            &&& forall|i: int| 0 <= i < k ==> (#[trigger] r.1@[i]).elapsed_ms
                == sent_elapsed(outcomes@[i])
            &&& forall|i: int| 0 <= i < k ==> (#[trigger] r.1@[i]).percent
                == percent_spec(r.1@[i].bytes_uploaded, plan.total_size)
            &&& forall|i: int| 0 <= i < k ==> (#[trigger] r.1@[i]).speed
                == speed_spec(r.1@[i].bytes_uploaded, r.1@[i].elapsed_ms)
            &&& forall|i: int, j: int| 0 <= i < j < k
                ==> (#[trigger] r.1@[i]).bytes_uploaded < (#[trigger] r.1@[j]).bytes_uploaded
            &&& (r.0 matches UploadOutcome::Completed { .. } ==> k == chunks.len()
                && (k > 0 ==> r.1@[k - 1].bytes_uploaded == plan.total_size
                    && r.1@[k - 1].percent.is_exactly(100)))
        }),
{
    let plan = match probed {
        Err(e) => {
            return (UploadOutcome::Failed { error: e }, Vec::new());
        },
        Ok(p) => p,
    };
    let ghost chunks = plan.chunk_sizes@;
    let n = plan.chunk_sizes.len();
    let mut state = TransferState::new(file.filename.clone(), plan);
    let mut events: Vec<ProgressEvent> = Vec::new();
    let mut idx: usize = 0;
    while idx < n
        invariant
            state.wf(),
            state.plan.chunk_sizes@ == chunks,
            state.plan.total_size as int == sum_all(chunks),
            state.filename@ == file.filename@,
            n == chunks.len(),
            outcomes@.len() >= n,
            idx == state.chunks_sent,
            idx <= n,
            forall|j: int| 0 <= j < idx ==> #[trigger] chunk_ok(outcomes@[j]),
            events@.len() == idx,
            forall|i: int| 0 <= i < idx ==> (#[trigger] events@[i]).bytes_uploaded as int
                == sum_prefix(chunks, i + 1),
            forall|i: int| 0 <= i < idx ==> (#[trigger] events@[i]).total_size
                == state.plan.total_size,
            forall|i: int| 0 <= i < idx ==> (#[trigger] events@[i]).filename@ == file.filename@,
            forall|i: int| 0 <= i < idx ==> (#[trigger] events@[i]).elapsed_ms
                == sent_elapsed(outcomes@[i]),
            forall|i: int| 0 <= i < idx ==> (#[trigger] events@[i]).percent
                == percent_spec(events@[i].bytes_uploaded, state.plan.total_size),
            forall|i: int| 0 <= i < idx ==> (#[trigger] events@[i]).speed
                == speed_spec(events@[i].bytes_uploaded, events@[i].elapsed_ms),
            idx == 0 ==> state.last_speed is None,
            idx > 0 ==> state.last_speed == speed_spec(
                state.bytes_uploaded,
                sent_elapsed(outcomes@[idx - 1]),
            ),
        decreases n - idx,
    {
        let oc = outcomes[idx];
        if !oc.proceed {
            proof {
                lemma_ok_prefix_len_is(outcomes@, idx as int);
                lemma_sum_prefix_nonneg(chunks, idx as int);
                lemma_sum_prefix_monotone(chunks, idx as int, chunks.len() as int);
                lemma_events_monotone(chunks, events@, idx as int);
            }
            return (UploadOutcome::Cancelled { bytes_uploaded: state.bytes_uploaded }, events);
        }
        match oc.sent {
            Err(e) => {
                proof {
                    lemma_ok_prefix_len_is(outcomes@, idx as int);
                    lemma_events_monotone(chunks, events@, idx as int);
                }
                return (UploadOutcome::Failed { error: e }, events);
            },
            Ok(elapsed) => {
                let ev = state.record_chunk(elapsed);
                events.push(ev);
                idx = idx + 1;
            },
        }
    }
    proof {
        lemma_ok_prefix_len_at_least(outcomes@, n as int);
        lemma_events_monotone(chunks, events@, n as int);
        if n > 0 {
            lemma_sum_prefix_monotone(chunks, 0, n as int);
        }
    }
    (
        UploadOutcome::Completed { bytes_uploaded: state.bytes_uploaded, speed: state.last_speed },
        events,
    )
}

/// Events whose byte counts are the prefix sums of a plan of non-empty
/// chunks report strictly growing byte counts.
proof fn lemma_events_monotone(chunks: Seq<u64>, events: Seq<ProgressEvent>, k: int)
    requires
        0 <= k <= chunks.len(),
        events.len() == k,
        forall|t: int| 0 <= t < chunks.len() ==> chunks[t] > 0,
        forall|i: int| 0 <= i < k ==> (#[trigger] events[i]).bytes_uploaded as int
            == sum_prefix(chunks, i + 1),
    ensures
        forall|i: int, j: int| 0 <= i < j < k
            ==> (#[trigger] events[i]).bytes_uploaded < (#[trigger] events[j]).bytes_uploaded,
{
    assert forall|i: int, j: int| 0 <= i < j < k implies (#[trigger] events[i]).bytes_uploaded
        < (#[trigger] events[j]).bytes_uploaded by {
        lemma_sum_prefix_monotone(chunks, i + 1, j + 1);
    }
}

} // verus!

