use vstd::prelude::*;

verus! {

/// One bridge as the discovery service of the vendor lists it.
#[derive(Debug, Clone, PartialEq, Eq)]
pub struct Discovery {
    pub id: String,
    pub internalipaddress: String,
    pub port: u16,
}

} // verus!
