use vstd::prelude::*;

verus! {

/// What a bridge tells of itself without authorization.
#[derive(Debug, Clone, PartialEq, Eq)]
pub struct Config {
    pub name: String,
    pub datastoreversion: String,
    pub swversion: String,
    pub apiversion: String,
    pub mac: String,
    pub bridgeid: String,
    pub factorynew: bool,
    pub replacesbridgeid: Option<String>,
    pub modelid: String,
    pub starterkitid: Option<String>,
}

} // verus!
