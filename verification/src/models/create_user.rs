use crate::models::device_type::DeviceType;
use vstd::prelude::*;

verus! {

/// The request for an application key.
#[derive(Debug, Clone, PartialEq, Eq)]
pub struct CreateUserRequest {
    pub devicetype: String,
}

/// One entry of the answer to a `CreateUserRequest`.
#[derive(Debug, Clone, PartialEq, Eq)]
pub struct CreateUserResponseItem {
    pub success: Option<CreateUserResponseItemSub>,
    pub error: Option<crate::models::Error>,
}

/// The application key that a bridge granted.
#[derive(Debug, Clone, PartialEq, Eq)]
pub struct CreateUserResponseItemSub {
    pub username: String,
}

impl CreateUserRequest {
    /// The request that registers `device_type`.
    pub fn new(device_type: DeviceType) -> (r: CreateUserRequest)
        ensures
            r.devicetype@ == device_type.application_name@ + seq!['#'] + device_type.device_name@,
    {
        CreateUserRequest { devicetype: device_type.to_string() }
    }
}

} // verus!
