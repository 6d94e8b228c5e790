//! The verified core of a chat relay: it takes text from connected clients,
//! forwards each message to a text-generation backend, and fans the streamed
//! answer out to every client.
//!
//! - [`hub`]: the publish/subscribe fan-out between clients.
//! - [`session`] and [`forwarder`]: the two halves of one client's
//!   connection, as state machines that decide while their caller acts.
//! - [`probe`] and [`wake`]: what to conclude from an attempt to reach the
//!   backend, and the signal that wakes its host.
//! - [`request`]: the body of a generation request.
//! - [`decoder`] and [`fragment`]: the backend's answer, decoded chunk by
//!   chunk and line by line.
//! - [`json`] and [`text`]: the calls into `serde_json` and `std` that the
//!   others rest on.

pub mod decoder;
pub mod forwarder;
pub mod fragment;
pub mod hub;
pub mod json;
pub mod probe;
pub mod request;
pub mod session;
pub mod text;
pub mod wake;
