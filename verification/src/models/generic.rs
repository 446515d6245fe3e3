use vstd::prelude::*;

verus! {

/// A reference to a resource: its UUID as a number, and its kind.
#[derive(Debug, Clone, PartialEq, Eq, Hash)]
pub struct GenericIdentifier {
    pub rid: u128,
    pub rtype: String,
}

/// An error as the resource interface reports it.
#[derive(Debug, Clone, PartialEq, Eq)]
pub struct GenericError {
    pub description: String,
}

/// The answer to a request that changes a resource.
#[derive(Debug, Clone, PartialEq, Eq)]
pub struct GenericResponse {
    pub errors: Option<Vec<GenericError>>,
    pub data: Option<Vec<GenericIdentifier>>,
}

/// The naming of a resource.
#[derive(Debug, Clone, PartialEq, Eq)]
pub struct Metadata {
    pub archetype: String,
    pub name: String,
}

/// The make of a device.
#[derive(Debug, Clone, PartialEq, Eq)]
pub struct ProductData {
    pub certified: bool,
    pub model_id: String,
    pub manufacturer_name: String,
    pub product_archetype: String,
    pub product_name: String,
    pub software_version: String,
}

} // verus!
