//! Application data of the replicated store.

use vstd::prelude::*;

verus! {

/// The application data response type: the value a request produced, if any.
#[derive(Debug, Clone, PartialEq, Eq)]
pub struct ClientResponse(pub Option<Vec<u8>>);

} // verus!
