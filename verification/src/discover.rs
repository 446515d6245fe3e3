//! What the discovery of bridges yields.

use vstd::prelude::*;

verus! {

/// One bridge as the discovery service of the vendor lists it.
#[derive(Debug, Clone, PartialEq, Eq)]
pub struct Discovery {
    pub id: String,
    pub internal_ip_address: String,
    pub port: u16,
}

} // verus!
