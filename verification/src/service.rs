//! The request handler and the two ways a server comes by one per connection.

use crate::buffer::MAX_CAPACITY;
use crate::message::{internal_error_rsp, Request, RequestModel, Response, ResponseModel};
use vstd::prelude::*;

verus! {

/// `std::io::Error`, carried from the handler to [`dispatch`] and not
/// looked into.
#[verifier::external_type_specification]
#[verifier::external_body]
pub struct ExIoError(std::io::Error);

/// The handler of one connection. It is called once per request and either
/// fills in the response or fails.
pub trait HttpService {
    /// What a call of the handler may do, as the handler itself defines it:
    /// whether, in the state `self` and given `req` and a response holding
    /// `handed`, it may end in the state `after` with `staged` in the
    /// response, having succeeded (`ok`) or failed. A handler that does not
    /// say may do anything.
    open spec fn handles(
        &self,
        req: RequestModel,
        handed: ResponseModel,
        after: &Self,
        staged: ResponseModel,
        ok: bool,
    ) -> bool {
        true
    }

    /// Answers `req` by filling in `rsp`, or fails. The response is blank
    /// when the call begins. What the call does is what `handles` admits;
    /// of a handler that is not verified this is taken on trust, and says
    /// nothing where the handler leaves `handles` as it is.
    fn call(&mut self, req: Request, rsp: &mut Response) -> (result: Result<(), std::io::Error>)
        ensures
            old(self).handles(req@, old(rsp)@, final(self), final(rsp)@, result is Ok),
    ;
}

/// How a dispatch ended.
#[derive(Clone, Copy, Debug, PartialEq, Eq, Structural)]
pub enum Dispatched {
    /// The handler filled in the response.
    Served,
    /// The handler failed, and the response is the fallback.
    Failed,
    /// The handler failed, and its failure did not fit into a response.
    Unanswerable,
}

/// The view of the text of a failure, if there was one.
pub open spec fn failure_view(failure: Option<&[u8]>) -> Option<Seq<u8>> {
    match failure {
        None => None,
        Some(text) => Some(text@),
    }
}

/// How a dispatch ends, given the text of the handler's failure if it
/// failed.
pub open spec fn settled(failure: Option<Seq<u8>>) -> Dispatched {
    match failure {
        None => Dispatched::Served,
        Some(text) => if text.len() <= MAX_CAPACITY {
            Dispatched::Failed
        } else {
            Dispatched::Unanswerable
        },
    }
}

/// The response after a dispatch: as the handler left it, or the fallback
/// with the failure's text, or with no body where the text does not fit.
pub open spec fn settled_response(left: ResponseModel, failure: Option<Seq<u8>>) -> ResponseModel {
    match failure {
        None => left,
        Some(text) => if text.len() <= MAX_CAPACITY {
            ResponseModel::internal_error(text)
        } else {
            ResponseModel::internal_error(Seq::empty())
        },
    }
}

/// Settles the response once the handler has returned: `failure` is the
/// text of its failure, or `None` where it succeeded.
pub fn settle(failure: Option<&[u8]>, rsp: &mut Response) -> (outcome: Dispatched)
    ensures
        outcome == settled(failure_view(failure)),
        final(rsp)@ == settled_response(old(rsp)@, failure_view(failure)),
{
    match failure {
        None => Dispatched::Served,
        Some(text) => {
            if internal_error_rsp(text, rsp) {
                Dispatched::Failed
            } else {
                Dispatched::Unanswerable
            }
        },
    }
}

/// Calls the handler with `req` and a blank response, and settles the
/// response. Where the handler succeeds, its state and the response are as
/// the call left them. A failure of the handler does not pass: the response
/// becomes the fallback built from the failure's text, whatever was staged,
/// and has no body where that text does not fit.
pub fn dispatch<S: HttpService>(service: &mut S, req: Request, rsp: &mut Response) -> (outcome:
    Dispatched)
    ensures
        outcome == Dispatched::Served ==> old(service).handles(
            req@,
            ResponseModel::blank(),
            final(service),
            final(rsp)@,
            true,
        ),
        outcome != Dispatched::Served ==> exists|text: Seq<u8>, staged: ResponseModel|
            {
                &&& #[trigger] old(service).handles(
                    req@,
                    ResponseModel::blank(),
                    final(service),
                    staged,
                    false,
                )
                &&& outcome == #[trigger] settled(Some(text))
                &&& final(rsp)@ == settled_response(staged, Some(text))
            },
{
    rsp.reset();
    match service.call(req, rsp) {
        Ok(()) => settle(None, rsp),
        Err(failure) => {
            let ghost staged = rsp@;
            let text = failure.to_string();
            let bytes = text.as_str().as_bytes();
            let outcome = settle(Some(bytes), rsp);
            assert(outcome == settled(Some(bytes@)));
            outcome
        },
    }
}

/// Builds one handler per accepted connection.
pub trait HttpServiceFactory: Send + Sized + 'static {
    type Service: HttpService + Send;

    /// Creates the handler for a new connection.
    fn new_service(&self) -> Self::Service;
}

/// A server around one handler that is cheap to duplicate: every connection
/// gets a clone of it.
pub struct HttpServer<T>(pub T);

impl<T: HttpService + Clone + Send + Sync + 'static> HttpServiceFactory for HttpServer<T> {
    type Service = T;

    fn new_service(&self) -> (service: T)
        ensures
            cloned(self.0, service),
    {
        self.0.clone()
    }
}

} // verus!
