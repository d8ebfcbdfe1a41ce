//! A small HTTP request facade.
//!
//! The library owns the logic of such a facade: turning a transport outcome
//! (a network failure, or a status code with a body) into a closed set of
//! error kinds, and building the default header set that the transport
//! client is configured with.  The transport itself is an outside
//! collaborator; the functions here work on the plain values it produces.

pub mod classify;
pub mod client;
pub mod errors;
pub mod headers;
pub mod trim;

pub use crate::client::Request;
pub use crate::errors::RequestError;
pub use crate::headers::HeaderSet;
