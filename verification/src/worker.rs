//! The worker's search loop, as a state machine.
//!
//! A worker is a four-state machine.  It blocks in `Idle` until a work item
//! arrives, then hashes in `Hashing`: per attempt it appends its nonce to the
//! header bytes, digests the 100-byte candidate, and emits a [`Response`]
//! exactly when the digest's last byte — the most significant byte of the
//! little-endian digest — is zero.  After an attempt it times out into
//! `IdleWait` (functionally `Idle` again) once `MAXIMUM_HASH_SECONDS` have
//! passed since it took up the current item, else polls its channel: a newer
//! item preempts the current one wholesale, an empty channel means one more
//! increment, a closed channel ends the worker.
//!
//! The driving loop — threads, blocking receives, the wall clock — lives
//! outside the library; it feeds each observation in as a [`WorkerEvent`]
//! and lets [`worker_step`] decide.

use vstd::prelude::*;

use crate::block::{append_nonce, block_digest, digest_of, u64_le};
use crate::responder::Response;

verus! {

/// How long a worker keeps hashing one work item with no fresher job before
/// it falls back to a blocking wait, in seconds.
pub const MAXIMUM_HASH_SECONDS: u64 = 120;

/// Where a worker stands.
pub enum WorkerState {
    /// Blocked awaiting the first work item.
    Idle,
    /// Hashing `blk` (the 92-byte encoded header) at `nonce` for job `job`.
    Hashing { blk: Vec<u8>, nonce: u64, job: String },
    /// Blocked awaiting a fresher work item after exhausting the timeout.
    IdleWait,
    /// Channel closed; no further work.
    Terminated,
}

/// What a worker observed: the outcome of a blocking receive or of the
/// non-blocking poll after an attempt, or the timeout ceiling passing.
pub enum WorkerEvent {
    /// A work item arrived: header bytes, starting nonce, job identifier.
    NewItem { blk: Vec<u8>, nonce: u64, job: String },
    /// The poll found nothing; keep hashing.
    Empty,
    /// The channel is closed for good.
    Closed,
    /// The timeout ceiling passed since taking up the current item.
    TimedOut,
}

/// The transition relation of the worker state machine.
pub open spec fn spec_worker_step(s: WorkerState, e: WorkerEvent) -> WorkerState {
    match s {
        WorkerState::Idle => spec_wait_step(s, e),
        WorkerState::IdleWait => spec_wait_step(s, e),
        WorkerState::Hashing { blk, nonce, job } => match e {
            WorkerEvent::NewItem { blk: b, nonce: n, job: j } => (WorkerState::Hashing {
                blk: b,
                nonce: n,
                job: j,
            }),
            WorkerEvent::Empty => (WorkerState::Hashing {
                blk,
                nonce: vstd::wrapping::u64_specs::wrapping_add(nonce, 1),
                job,
            }),
            WorkerEvent::Closed => WorkerState::Terminated,
            WorkerEvent::TimedOut => WorkerState::IdleWait,
        },
        WorkerState::Terminated => WorkerState::Terminated,
    }
}

/// The transitions out of the two blocked states: only an arriving item or a
/// closed channel wakes the worker.
pub open spec fn spec_wait_step(s: WorkerState, e: WorkerEvent) -> WorkerState {
    match e {
        WorkerEvent::NewItem { blk, nonce, job } => (WorkerState::Hashing { blk, nonce, job }),
        WorkerEvent::Closed => WorkerState::Terminated,
        WorkerEvent::Empty => s,
        WorkerEvent::TimedOut => s,
    }
}

/// Advance the worker state machine by one observation.
pub fn worker_step(s: WorkerState, e: WorkerEvent) -> (next: WorkerState)
    ensures
        next == spec_worker_step(s, e),
{
    match s {
        WorkerState::Idle => wait_step(WorkerState::Idle, e),
        WorkerState::IdleWait => wait_step(WorkerState::IdleWait, e),
        WorkerState::Hashing { blk, nonce, job } => match e {
            WorkerEvent::NewItem { blk: b, nonce: n, job: j } => WorkerState::Hashing {
                blk: b,
                nonce: n,
                job: j,
            },
            WorkerEvent::Empty => WorkerState::Hashing {
                blk,
                nonce: nonce.wrapping_add(1),
                job,
            },
            WorkerEvent::Closed => WorkerState::Terminated,
            WorkerEvent::TimedOut => WorkerState::IdleWait,
        },
        WorkerState::Terminated => WorkerState::Terminated,
    }
}

/// Advance a blocked worker by the outcome of its blocking receive.
fn wait_step(s: WorkerState, e: WorkerEvent) -> (next: WorkerState)
    requires
        s is Idle || s is IdleWait,
    ensures
        next == spec_wait_step(s, e),
{
    match e {
        WorkerEvent::NewItem { blk, nonce, job } => WorkerState::Hashing { blk, nonce, job },
        WorkerEvent::Closed => WorkerState::Terminated,
        WorkerEvent::Empty => s,
        WorkerEvent::TimedOut => s,
    }
}

/// The response a hashing worker may emit: only from `Hashing`, only when
/// the digest of the current candidate qualifies, and then naming exactly
/// the current job and nonce.
pub open spec fn may_emit(s: WorkerState, r: Response) -> bool {
    match s {
        WorkerState::Hashing { blk, nonce, job } => {
            &&& digest_of(blk@ + u64_le(nonce))[31] == 0
            &&& r.request@ == "block.nonce"@
            &&& r.job == job
            &&& r.packed@ == u64_le(nonce)
        },
        _ => false,
    }
}

/// One hash attempt: append the nonce to the 92 header bytes, digest the
/// 100-byte candidate, and return a response exactly when the digest's byte
/// 31 is zero.  The response carries the fixed request tag, the job
/// identifier, and the nonce packed little-endian.
pub fn hash_attempt(blk: &Vec<u8>, nonce: u64, job: &String) -> (r: Option<Response>)
    requires
        blk@.len() == 92,
    ensures
        r is Some <==> digest_of(blk@ + u64_le(nonce))[31] == 0,
        r matches Some(resp) ==> may_emit(
            (WorkerState::Hashing { blk: *blk, nonce, job: *job }),
            resp,
        ),
{
    let buf = append_nonce(blk.as_slice(), nonce);
    let digest = block_digest(buf.as_slice());
    if digest[31] == 0 {
        Some(
            Response {
                request: "block.nonce".to_owned(),
                job: job.clone(),
                packed: packed_nonce(nonce),
            },
        )
    } else {
        None
    }
}

/// The 8 little-endian bytes of a nonce, as submitted.
pub fn packed_nonce(nonce: u64) -> (r: Vec<u8>)
    ensures
        r@ == u64_le(nonce),
{
    let mut r: Vec<u8> = Vec::new();
    crate::block::push_u64_le(&mut r, nonce);
    r
}

/// Preemption: a worker mid-Hashing that observes a new work item on its
/// poll adopts it wholesale — it resumes from the item's own starting nonce
/// and job, the in-progress nonce and job are discarded — and every response
/// it can emit afterwards names the new job, never the old one.
pub proof fn lemma_preemption(s: WorkerState, blk: Vec<u8>, nonce: u64, job: String)
    requires
        s is Hashing,
    ensures
        spec_worker_step(s, WorkerEvent::NewItem { blk, nonce, job }) == (WorkerState::Hashing {
            blk,
            nonce,
            job,
        }),
        forall|r: Response|
            may_emit(spec_worker_step(s, WorkerEvent::NewItem { blk, nonce, job }), r) ==> r.job
                == job,
{
}

/// As long as the channel polls empty, a hashing worker stays on the same
/// header and job and advances its nonce by exactly one per attempt.  With
/// [`lemma_preemption`] this pins the whole run after an adoption: every
/// attempt until the next work item names the adopted job, so nothing ever
/// resumes an abandoned one.
pub proof fn lemma_empty_keeps_job(blk: Vec<u8>, nonce: u64, job: String)
    ensures
        spec_worker_step((WorkerState::Hashing { blk, nonce, job }), WorkerEvent::Empty)
            == (WorkerState::Hashing {
            blk,
            nonce: vstd::wrapping::u64_specs::wrapping_add(nonce, 1),
            job,
        }),
{
}

/// Idle timeout: a worker that exhausts the hashing ceiling without a
/// fresher work item goes back to a blocking wait — it stops incrementing,
/// and does not terminate or error.
pub proof fn lemma_idle_timeout(s: WorkerState)
    requires
        s is Hashing,
    ensures
        spec_worker_step(s, WorkerEvent::TimedOut) == WorkerState::IdleWait,
        spec_worker_step(s, WorkerEvent::TimedOut) != WorkerState::Terminated,
{
}

} // verus!
