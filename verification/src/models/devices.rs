use crate::models::generic::{GenericIdentifier, Metadata, ProductData};
use crate::models::Error;
use vstd::prelude::*;

verus! {

/// A device as a bridge describes it. The identifier is its UUID as a number;
/// the services are in the order in which the bridge lists them.
#[derive(Debug, Clone, PartialEq, Eq)]
pub struct GetDevicesResponseItem {
    pub id: u128,
    pub metadata: Metadata,
    pub product_data: ProductData,
    pub services: Vec<GenericIdentifier>,
    pub device_type: String,
}

/// The answer to a request for the devices of a bridge.
#[derive(Debug, Clone, PartialEq, Eq)]
pub struct GetDevicesResponse {
    pub data: Option<Vec<GetDevicesResponseItem>>,
    pub error: Option<Error>,
}

} // verus!
