use minihttp::acceptor::{on_accept, AcceptAction};
use minihttp::classify::{classify, Disposition, IoErrorKind};

#[test]
fn connection_reset_is_benign() {
    assert_eq!(classify(IoErrorKind::ConnectionReset), Disposition::BenignClose);
}

#[test]
fn unexpected_eof_is_benign() {
    assert_eq!(classify(IoErrorKind::UnexpectedEof), Disposition::BenignClose);
}

#[test]
fn would_block_asks_to_retry() {
    assert_eq!(classify(IoErrorKind::WouldBlock), Disposition::RetryLater);
}

#[test]
fn anything_else_is_fatal() {
    assert_eq!(classify(IoErrorKind::Other), Disposition::Fatal);
}

#[test]
fn accepted_socket_is_served() {
    assert_eq!(on_accept(Ok(())), AcceptAction::Serve);
}

#[test]
fn accept_that_would_block_is_retried() {
    assert_eq!(on_accept(Err(IoErrorKind::WouldBlock)), AcceptAction::Retry);
}

#[test]
fn accept_failures_are_skipped() {
    assert_eq!(
        on_accept(Err(IoErrorKind::ConnectionReset)),
        AcceptAction::Skip { report: false }
    );
    assert_eq!(
        on_accept(Err(IoErrorKind::UnexpectedEof)),
        AcceptAction::Skip { report: false }
    );
    assert_eq!(on_accept(Err(IoErrorKind::Other)), AcceptAction::Skip { report: true });
}
