//! A device of a bridge.

use crate::models::devices::GetDevicesResponseItem;
use crate::models::generic::{GenericIdentifier, ProductData};
use vstd::prelude::*;

verus! {

/// A device: its UUID as a number, its name, its make and what it offers.
#[derive(Debug, Clone, PartialEq, Eq)]
pub struct Device {
    pub id: u128,
    pub name: String,
    pub product: ProductData,
    pub services: Vec<GenericIdentifier>,
}

impl Device {
    /// The device that `device` describes.
    pub open spec fn describes(device: GetDevicesResponseItem) -> Device {
        Device {
            id: device.id,
            name: device.metadata.name,
            product: device.product_data,
            services: device.services,
        }
    }

    /// The device that `device` describes.
    pub fn new(device: GetDevicesResponseItem) -> (r: Device)
        ensures
            r == Device::describes(device),
    {
        Device {
            id: device.id,
            name: device.metadata.name,
            product: device.product_data,
            services: device.services,
        }
    }
}

} // verus!
