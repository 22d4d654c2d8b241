//! The control and output channels of a kernel connection. A kernel owns a
//! single multi-producer control channel on which tagged requests are
//! submitted, and every request carries its own unbounded output sink, so
//! the kernel's event stream is demultiplexed by request-local wiring. The
//! channel machinery itself comes from the futures crate and stands behind
//! trusted declarations here.

use vstd::prelude::*;

verus! {

use crate::messages::{Request, Update};

#[verifier::external_type_specification]
#[verifier::external_body]
#[verifier::reject_recursive_types(T)]
pub struct ExUnboundedSender<T>(futures::channel::mpsc::UnboundedSender<T>);

#[verifier::external_type_specification]
#[verifier::external_body]
#[verifier::reject_recursive_types(T)]
pub struct ExUnboundedReceiver<T>(futures::channel::mpsc::UnboundedReceiver<T>);

#[verifier::external_type_specification]
#[verifier::external_body]
#[verifier::reject_recursive_types(T)]
pub struct ExTrySendError<T>(futures::channel::mpsc::TrySendError<T>);

/// The sender half of a kernel's control channel. It may be cloned and used
/// by several in-flight executions at once.
pub type ControlSender = futures::channel::mpsc::UnboundedSender<Request>;

/// The receiver half of a kernel's control channel, owned by the process
/// collaborator that feeds the kernel.
pub type ControlReceiver = futures::channel::mpsc::UnboundedReceiver<Request>;

/// The sender half of one request's private output sink.
pub type UpdateSender = futures::channel::mpsc::UnboundedSender<Update>;

/// The receiver half of one request's private output sink: the lazy, finite
/// stream of updates that the caller drains until the kernel side closes it.
pub type UpdateReceiver = futures::channel::mpsc::UnboundedReceiver<Update>;

/// Relies on futures' mpsc::unbounded: returns the two connected halves of a
/// fresh unbounded channel.
#[verifier::external_body]
pub(crate) fn open_update_channel() -> (r: (UpdateSender, UpdateReceiver)) {
    futures::channel::mpsc::unbounded()
}

/// Relies on UnboundedSender::unbounded_send: queues the message while the
/// channel is open, and hands it back in an error once the receiver is gone.
#[verifier::external_body]
pub(crate) fn send_request(tx: &ControlSender, req: Request) -> (r: Result<
    (),
    futures::channel::mpsc::TrySendError<Request>,
>) {
    tx.unbounded_send(req)
}

/// Relies on Clone for UnboundedSender: a clone feeds the same channel as
/// the original sender.
#[verifier::external_body]
pub(crate) fn clone_control_sender(tx: &ControlSender) -> (r: ControlSender) {
    tx.clone()
}

} // verus!
