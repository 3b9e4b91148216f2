//! Classification of I/O failures into what the connection does about them.

use vstd::prelude::*;

verus! {

/// The category of a failed socket operation, as far as the engine tells
/// categories apart.
#[derive(Clone, Copy, Debug, PartialEq, Eq, Structural)]
pub enum IoErrorKind {
    /// The peer reset the connection.
    ConnectionReset,
    /// The stream ended where more bytes were expected.
    UnexpectedEof,
    /// The operation cannot proceed now without blocking.
    WouldBlock,
    /// Any other failure.
    Other,
}

/// What to do after a failed socket operation.
#[derive(Clone, Copy, Debug, PartialEq, Eq, Structural)]
pub enum Disposition {
    /// End the task silently; nothing is reported.
    BenignClose,
    /// Suspend until the socket is ready, then repeat the same operation.
    RetryLater,
    /// Report the failure and end the task.
    Fatal,
}

/// The disposition of each error category.
pub open spec fn disposition_of(kind: IoErrorKind) -> Disposition {
    match kind {
        IoErrorKind::ConnectionReset | IoErrorKind::UnexpectedEof => Disposition::BenignClose,
        IoErrorKind::WouldBlock => Disposition::RetryLater,
        IoErrorKind::Other => Disposition::Fatal,
    }
}

/// Classifies a failed read, write or accept.
pub fn classify(kind: IoErrorKind) -> (disposition: Disposition)
    ensures
        disposition == disposition_of(kind),
{
    match kind {
        IoErrorKind::ConnectionReset => Disposition::BenignClose,
        IoErrorKind::UnexpectedEof => Disposition::BenignClose,
        IoErrorKind::WouldBlock => Disposition::RetryLater,
        IoErrorKind::Other => Disposition::Fatal,
    }
}

} // verus!
