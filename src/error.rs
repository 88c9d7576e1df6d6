//! Request-plane routing errors.
use vstd::prelude::*;

verus! {

/// Why a request could not be routed.
#[derive(Clone, Copy, Debug, PartialEq, Eq, Structural)]
pub enum RouterError {
    /// No route matches the request.
    NotFound,
    /// A route matches but not its method (reserved for method filters).
    MethodNotAllowed,
    /// The route's service has no upstream to offer.
    NoUpstream,
}

impl RouterError {
    /// The HTTP status this error is answered with.
    pub fn status_code(&self) -> (r: u16)
        ensures
            r == match *self {
                RouterError::NotFound => 404u16,
                RouterError::MethodNotAllowed => 405u16,
                RouterError::NoUpstream => 503u16,
            },
    {
        match self {
            RouterError::NotFound => 404,
            RouterError::MethodNotAllowed => 405,
            RouterError::NoUpstream => 503,
        }
    }
}

} // verus!
