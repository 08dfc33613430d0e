//! What is looked at of a request before its body.

use vstd::prelude::*;

verus! {

/// The HTTP methods that are told apart.
#[derive(Debug, Clone, Copy, PartialEq, Eq, Structural)]
pub enum Method {
    Get,
    Post,
    Other,
}

/// The head of a request: its method, its path, and the value of its
/// authorization header if it has one.
#[derive(Debug, Clone, PartialEq, Eq)]
pub struct RequestHead {
    pub method: Method,
    pub path: String,
    pub authorization: Option<Vec<u8>>,
}

} // verus!
