//! Connection-handling engine of a cooperative HTTP/1.x server: buffer policy,
//! request-boundary detection, I/O error classification and the per-connection
//! read, dispatch and write state machine, with the socket left to the caller.

pub mod acceptor;
pub mod boundary;
pub mod buffer;
pub mod classify;
pub mod connection;
pub mod laws;
pub mod message;
pub mod protocol;
pub mod service;
