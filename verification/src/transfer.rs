//! Per-upload state: the probed file, the cancellation flag, and the running
//! progress bookkeeping that feeds the observer.

use vstd::prelude::*;

use crate::plan::{ChunkPlan, lemma_sum_prefix_monotone, sum_prefix};
use crate::progress::{Ratio, percent, percent_spec, speed, speed_spec};

verus! {

/// A local file once probed: where it lives, the name that correlates it
/// with the observer's cancel signal, and its size in bytes. Immutable.
pub struct FileHandle {
    pub path: String,
    pub filename: String,
    pub size: u64,
}

/// The advisory flag shared between the progress observer and the upload
/// driver. It starts as "continue" and can only ever be lowered to "stop":
/// no method raises it back, so the transition happens at most once.
pub struct CancellationFlag {
    go: bool,
}

impl CancellationFlag {
    /// Whether the transfer may keep going.
    pub closed spec fn is_go(self) -> bool {
        self.go
    }

    /// A fresh flag says "continue".
    pub fn new() -> (r: CancellationFlag)
        ensures
            r.is_go(),
    {
        CancellationFlag { go: true }
    }

    /// The observer's cancel request: lowers the flag, for good.
    pub fn cancel(&mut self)
        ensures
            !final (self).is_go(),
    {
        self.go = false;
    }

    /// The driver's read at a chunk boundary.
    pub fn should_continue(&self) -> (r: bool)
        ensures
            r == self.is_go(),
    {
        self.go
    }
}

/// One message to the progress observer, emitted after a chunk completes.
/// Carries the cumulative byte count together with the exact percentage and
/// throughput derived from it.
#[derive(Debug)]
pub struct ProgressEvent {
    pub filename: String,
    pub bytes_uploaded: u64,
    pub total_size: u64,
    pub elapsed_ms: u64,
    pub percent: Ratio,
    pub speed: Option<Ratio>,
}

/// The driver's private bookkeeping for one upload: how many chunks of the
/// plan have gone out and how many bytes that is, plus the last computed
/// throughput. Created when the transfer starts and dropped when the driver
/// returns.
pub struct TransferState {
    pub filename: String,
    pub plan: ChunkPlan,
    pub chunks_sent: usize,
    pub bytes_uploaded: u64,
    pub last_speed: Option<Ratio>,
}

impl TransferState {
    /// The byte count is always the sum of the chunks sent so far, which
    /// never exceeds the file size.
    pub open spec fn wf(self) -> bool {
        &&& self.plan.wf()
        &&& self.chunks_sent <= self.plan.chunk_sizes@.len()
        &&& self.bytes_uploaded as int == sum_prefix(self.plan.chunk_sizes@, self.chunks_sent as int)
    }

    /// Fresh state: nothing sent yet.
    pub fn new(filename: String, plan: ChunkPlan) -> (r: TransferState)
        requires
            plan.wf(),
        ensures
            r.wf(),
            r.filename@ == filename@,
            r.plan.chunk_sizes@ == plan.chunk_sizes@,
            r.plan.total_size == plan.total_size,
            r.chunks_sent == 0,
            r.bytes_uploaded == 0,
            r.last_speed is None,
    {
        TransferState { filename, plan, chunks_sent: 0, bytes_uploaded: 0, last_speed: None }
    }

    /// Size of the next chunk to send, or `None` once the whole file is out.
    pub fn next_chunk_len(&self) -> (r: Option<u64>)
        requires
            self.wf(),
        ensures
            self.chunks_sent < self.plan.chunk_sizes@.len()
                ==> r == Some(self.plan.chunk_sizes@[self.chunks_sent as int]),
            self.chunks_sent == self.plan.chunk_sizes@.len() ==> r is None,
    {
        if self.chunks_sent < self.plan.chunk_sizes.len() {
            Some(self.plan.chunk_sizes[self.chunks_sent])
        } else {
            None
        }
    }

    /// Accounts for the chunk that just completed after `elapsed_ms`
    /// milliseconds of transfer, and produces the event to hand to the
    /// observer: cumulative bytes, exact percentage, and throughput.
    pub fn record_chunk(&mut self, elapsed_ms: u64) -> (ev: ProgressEvent)
        requires
            old(self).wf(),
            old(self).chunks_sent < old(self).plan.chunk_sizes@.len(),
        ensures
            final (self).wf(),
            final (self).filename@ == old(self).filename@,
            final (self).plan.chunk_sizes@ == old(self).plan.chunk_sizes@,
            final (self).plan.total_size == old(self).plan.total_size,
            final (self).chunks_sent == old(self).chunks_sent + 1,
            final (self).bytes_uploaded as int == old(self).bytes_uploaded as int
                + old(self).plan.chunk_sizes@[old(self).chunks_sent as int],
            final (self).last_speed == speed_spec(final (self).bytes_uploaded, elapsed_ms),
            ev.filename@ == old(self).filename@,
            ev.bytes_uploaded == final (self).bytes_uploaded,
            ev.total_size == old(self).plan.total_size,
            ev.elapsed_ms == elapsed_ms,
            ev.percent == percent_spec(ev.bytes_uploaded, ev.total_size),
            ev.speed == speed_spec(ev.bytes_uploaded, elapsed_ms),
    {
        // Reading the chunk count as a usize lets the verifier see that the
        // sent-chunk counter below cannot overflow.
        let n = self.plan.chunk_sizes.len();
        assert(self.chunks_sent < n);
        let len = self.plan.chunk_sizes[self.chunks_sent];
        proof {
            lemma_sum_prefix_monotone(
                self.plan.chunk_sizes@,
                self.chunks_sent as int + 1,
                self.plan.chunk_sizes@.len() as int,
            );
        }
        self.bytes_uploaded = self.bytes_uploaded + len;
        self.chunks_sent = self.chunks_sent + 1;
        let sp = speed(self.bytes_uploaded, elapsed_ms);
        self.last_speed = sp;
        let pct = percent(self.bytes_uploaded, self.plan.total_size);
        ProgressEvent {
            filename: self.filename.clone(),
            bytes_uploaded: self.bytes_uploaded,
            total_size: self.plan.total_size,
            elapsed_ms,
            percent: pct,
            speed: sp,
        }
    }

    /// Whether every chunk of the plan has been sent.
    pub fn is_complete(&self) -> (r: bool)
        requires
            self.wf(),
        ensures
            r == (self.chunks_sent == self.plan.chunk_sizes@.len()),
    {
        self.chunks_sent == self.plan.chunk_sizes.len()
    }
}

} // verus!
