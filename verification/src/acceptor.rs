//! What the accept loop does with each outcome of an accept.

use crate::classify::{classify, disposition_of, Disposition, IoErrorKind};
use crate::connection::Connection;
use crate::protocol::ConnectionModel;
use crate::service::HttpServiceFactory;
use vstd::prelude::*;

verus! {

/// What the accept loop does next.
#[derive(Clone, Copy, Debug, PartialEq, Eq, Structural)]
pub enum AcceptAction {
    /// Give the accepted socket a connection task of its own.
    Serve,
    /// Suspend until the listener is ready, then accept again.
    Retry,
    /// Go on to the next accept; `report` tells whether the failure is
    /// reported first.
    Skip { report: bool },
}

/// The action for each outcome of an accept. No failure ends the loop.
pub open spec fn accept_action_of(outcome: Result<(), IoErrorKind>) -> AcceptAction {
    match outcome {
        Ok(_) => AcceptAction::Serve,
        Err(kind) => match disposition_of(kind) {
            Disposition::RetryLater => AcceptAction::Retry,
            Disposition::BenignClose => AcceptAction::Skip { report: false },
            Disposition::Fatal => AcceptAction::Skip { report: true },
        },
    }
}

/// Decides what the accept loop does with the outcome of one accept.
pub fn on_accept(outcome: Result<(), IoErrorKind>) -> (action: AcceptAction)
    ensures
        action == accept_action_of(outcome),
{
    match outcome {
        Ok(_) => AcceptAction::Serve,
        Err(kind) => match classify(kind) {
            Disposition::RetryLater => AcceptAction::Retry,
            Disposition::BenignClose => AcceptAction::Skip { report: false },
            Disposition::Fatal => AcceptAction::Skip { report: true },
        },
    }
}

/// Creates the connection for an accepted socket. Its handler is what one
/// call of the factory's `new_service` returned: for a shared server a
/// clone of the server's handler.
pub fn open_connection<F: HttpServiceFactory>(factory: &F) -> (conn: Connection<F::Service>)
    ensures
        conn.wf(),
        conn@ == ConnectionModel::fresh(),
        call_ensures(F::new_service, (factory,), conn.service()),
{
    Connection::new(factory.new_service())
}

} // verus!
