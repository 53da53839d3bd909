//! The body of a request that names an address.

use vstd::prelude::*;

verus! {

/// The body of a request to block an address: the address as the
/// caller wrote it, not yet validated.
#[derive(Clone, Debug)]
pub struct ApiBody {
    pub ip: String,
}

} // verus!
