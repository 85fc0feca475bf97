//! The core of a small HTTP service: a router over path patterns, a few text handlers, and a
//! relay that hands an upstream's body on to the client.
//!
//! Nothing here touches a socket. A server hands `Service::handle` the method and path of a
//! request and gets back either the response, or the upstream request to send first; in that
//! case it hands the outcome of the exchange to `Service::complete`.

pub mod error;
pub mod handlers;
pub mod laws;
pub mod message;
pub mod pattern;
pub mod relay;
pub mod router;
pub mod routes;
pub mod segments;
pub mod service;
pub mod text;
