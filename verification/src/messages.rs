//! The abstract request and update messages exchanged with a kernel. The
//! wire-level encoding of these messages belongs to the process
//! collaborator; this core only tags requests, pairs each with its private
//! output sink, and treats result payloads as opaque.

use vstd::prelude::*;

verus! {

use crate::channel::{open_update_channel, UpdateReceiver, UpdateSender};

/// Identifies one execution request. Ids are generated fresh per call and
/// never reused.
#[derive(Clone, Copy, PartialEq, Eq, Structural, Debug, Hash)]
pub struct ExecutionId {
    pub number: u64,
}

/// Hands out execution ids in strictly increasing order, so no id is ever
/// observed twice from one source.
pub struct ExecutionIdSource {
    next: u64,
}

impl ExecutionIdSource {
    /// The id the source will hand out next.
    pub closed spec fn spec_next(&self) -> u64 {
        self.next
    }

    pub fn new() -> (r: ExecutionIdSource)
        ensures
            r.spec_next() == 0,
    {
        ExecutionIdSource { next: 0 }
    }

    /// Whether the source has run out of ids.
    pub fn exhausted(&self) -> (r: bool)
        ensures
            r == (self.spec_next() == u64::MAX),
    {
        self.next == u64::MAX
    }

    /// Mints a fresh id, greater than every id minted before it.
    pub fn mint(&mut self) -> (r: ExecutionId)
        requires
            old(self).spec_next() < u64::MAX,
        ensures
            r.number == old(self).spec_next(),
            final(self).spec_next() == old(self).spec_next() + 1,
    {
        let r = ExecutionId { number: self.next };
        self.next = self.next + 1;
        r
    }
}

/// What a request asks of the kernel: run a piece of code, or answer the
/// best-effort liveness probe sent right after launch.
pub enum RequestPayload {
    Execute { code: String },
    KernelInfo,
}

/// One streamed result message, belonging to exactly one execution id. The
/// content is an opaque payload to this layer.
pub struct Update {
    pub execution_id: ExecutionId,
    pub content: String,
}

/// A tagged execution request. Each request owns its private output sink
/// end-to-end, so no shared dispatch table keyed by execution id exists.
pub struct Request {
    pub execution_id: ExecutionId,
    pub payload: RequestPayload,
    pub iopub_sender: UpdateSender,
}

/// Builds an execution request around a fresh private sink and returns the
/// receiving half for the caller to drain.
pub fn make_execution_request(execution_id: ExecutionId, code: String) -> (r: (
    Request,
    UpdateReceiver,
))
    ensures
        r.0.execution_id == execution_id,
        r.0.payload == (RequestPayload::Execute { code }),
{
    let (tx, rx) = open_update_channel();
    (Request { execution_id, payload: RequestPayload::Execute { code }, iopub_sender: tx }, rx)
}

/// Builds the liveness-probe request sent once right after a kernel
/// launches. Any reply on the returned receiver counts as life; none within
/// the timeout is not an error.
pub fn make_handshake_request(execution_id: ExecutionId) -> (r: (Request, UpdateReceiver))
    ensures
        r.0.execution_id == execution_id,
        r.0.payload is KernelInfo,
{
    let (tx, rx) = open_update_channel();
    (Request { execution_id, payload: RequestPayload::KernelInfo, iopub_sender: tx }, rx)
}

} // verus!
