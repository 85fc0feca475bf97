//! The ways in which serving a request can fail, and the status each is answered with.

use vstd::prelude::*;

verus! {

/// The router found no handler for a request.
#[derive(Clone, Copy, Debug, PartialEq, Eq, Structural)]
pub enum RoutingError {
    /// No registered pattern matches the path.
    NotFound,
    /// A pattern matches the path, but no handler is bound to the method.
    MethodNotAllowed,
}

/// The exchange with the upstream did not yield a body.
#[derive(Clone, Copy, Debug, PartialEq, Eq, Structural)]
pub enum RelayError {
    /// The upstream could not be reached.
    UpstreamUnavailable,
    /// The upstream answered, but its body could not be read to the end.
    UpstreamBodyReadError,
}

/// A route table that cannot be built.
#[derive(Clone, Copy, Debug, PartialEq, Eq, Structural)]
pub enum ConfigError {
    /// A handler is already bound to this method and this pattern.
    DuplicateRoute,
}

/// Every failure that ends a request.
#[derive(Clone, Copy, Debug, PartialEq, Eq, Structural)]
pub enum ServeError {
    Routing(RoutingError),
    Relay(RelayError),
    /// The request carries text that must not be echoed.
    MalformedRequest,
}

/// The HTTP status that answers each failure.
pub open spec fn status_of(error: ServeError) -> u16 {
    match error {
        ServeError::Routing(RoutingError::NotFound) => 404,
        ServeError::Routing(RoutingError::MethodNotAllowed) => 405,
        ServeError::Relay(_) => 502,
        ServeError::MalformedRequest => 400,
    }
}

impl ServeError {
    /// The HTTP status that answers this failure.
    pub fn status_code(&self) -> (status: u16)
        ensures
            status == status_of(*self),
    {
        match self {
            ServeError::Routing(RoutingError::NotFound) => 404,
            ServeError::Routing(RoutingError::MethodNotAllowed) => 405,
            ServeError::Relay(_) => 502,
            ServeError::MalformedRequest => 400,
        }
    }
}

} // verus!
