//! A session with one bridge: what is known of the bridge, who asks, and the
//! application key once the bridge has granted one.
//!
//! Nothing here talks to a bridge. Each operation is split at the exchange:
//! one function says what to send, the caller sends it, and another function
//! takes what came back and decides.

use crate::bridge::{url_parses, url_text, Bridge};
use crate::device::Device;
use crate::http::{Failure, HueError};
use crate::light::Light;
use crate::models::create_user::{CreateUserRequest, CreateUserResponseItem};
use crate::models::device_type::DeviceType;
use crate::models::devices::{GetDevicesResponse, GetDevicesResponseItem};
use crate::models::lights::{GetLightsResponse, GetLightsResponseItem};
use crate::models::{Config, Error};
use url::Url;
use vstd::prelude::*;
use vstd::std_specs::convert::FromSpec;

verus! {

/// A session with a bridge.
#[derive(Debug, Clone)]
pub struct Hue {
    bridge: Bridge,
    device_type: DeviceType,
    application_key: Option<String>,
}

/// What an answer to a request for an application key grants: the key, or the
/// reason why there is none. The transport may have failed; the answer must
/// have exactly one entry; in it a success goes before an error.
pub open spec fn granted(answer: Result<Vec<CreateUserResponseItem>, Failure>) -> Result<
    Seq<char>,
    HueError,
> {
    match answer {
        Err(e) => Err(HueError::from_spec(e)),
        Ok(items) => {
            if items@.len() != 1 {
                Err(HueError::Unexpected)
            } else {
                match (items@[0].success, items@[0].error) {
                    (Some(success), _) => Ok(success.username@),
                    (None, Some(error)) => Err(HueError::from_spec(error.error_type)),
                    (None, None) => Err(HueError::Unknown),
                }
            }
        },
    }
}

/// What an answer to a request for resources holds: the resources, or the
/// reason why there are none. The transport may have failed; in the answer the
/// data go before an error.
pub open spec fn delivered<T>(answer: Result<(Option<Vec<T>>, Option<Error>), Failure>) -> Result<
    Vec<T>,
    HueError,
> {
    match answer {
        Err(e) => Err(HueError::from_spec(e)),
        Ok((Some(data), _)) => Ok(data),
        Ok((None, Some(error))) => Err(HueError::from_spec(error.error_type)),
        Ok((None, None)) => Err(HueError::Unknown),
    }
}

/// The data and the error of an answer for lights.
pub open spec fn parted_lights(answer: Result<GetLightsResponse, Failure>) -> Result<
    (Option<Vec<GetLightsResponseItem>>, Option<Error>),
    Failure,
> {
    match answer {
        Ok(response) => Ok((response.data, response.error)),
        Err(e) => Err(e),
    }
}

/// The data and the error of an answer for devices.
pub open spec fn parted_devices(answer: Result<GetDevicesResponse, Failure>) -> Result<
    (Option<Vec<GetDevicesResponseItem>>, Option<Error>),
    Failure,
> {
    match answer {
        Ok(response) => Ok((response.data, response.error)),
        Err(e) => Err(e),
    }
}

/// The application key that `answer` grants, or the reason why there is none.
pub fn grant(answer: Result<Vec<CreateUserResponseItem>, Failure>) -> (r: Result<String, HueError>)
    ensures
        match granted(answer) {
            Ok(key) => r is Ok && r.unwrap()@ == key,
            Err(e) => r == Err::<String, HueError>(e),
        },
{
    let payload = match answer {
        Ok(payload) => payload,
        Err(e) => return Err(HueError::from(e)),
    };
    if payload.len() != 1 {
        return Err(HueError::Unexpected);
    }
    let data = &payload[0];
    if let Some(success) = &data.success {
        return Ok(success.username.clone());
    }
    if let Some(error) = &data.error {
        return Err(HueError::from(error.error_type));
    }
    Err(HueError::Unknown)
}

/// The resources that `answer` holds, or the reason why there are none.
pub fn deliver<T>(answer: Result<(Option<Vec<T>>, Option<Error>), Failure>) -> (r: Result<
    Vec<T>,
    HueError,
>)
    ensures
        r == delivered(answer),
{
    let (data, error) = match answer {
        Ok(payload) => payload,
        Err(e) => return Err(HueError::from(e)),
    };
    if let Some(data) = data {
        return Ok(data);
    }
    if let Some(error) = error {
        return Err(HueError::from(error.error_type));
    }
    Err(HueError::Unknown)
}

/// The lights that `items` describe, in their order.
pub fn lights_of(items: Vec<GetLightsResponseItem>) -> (r: Vec<Light>)
    ensures
        r@ == items@.map_values(|item: GetLightsResponseItem| Light::describes(item)),
{
    let ghost all = items@;
    let mut lights: Vec<Light> = Vec::new();
    for item in it: items
        invariant
            it.seq() == all,
            lights@ == all.take(it.index() as int).map_values(
                |item: GetLightsResponseItem| Light::describes(item),
            ),
    {
        lights.push(Light::new(item));
        assert(all.take(it.index() + 1) =~= all.take(it.index() as int).push(
            all[it.index() as int],
        ));
        assert(lights@ =~= all.take(it.index() + 1).map_values(
            |item: GetLightsResponseItem| Light::describes(item),
        ));
    }
    assert(all.take(all.len() as int) =~= all);
    lights
}

/// The devices that `items` describe, in their order.
pub fn devices_of(items: Vec<GetDevicesResponseItem>) -> (r: Vec<Device>)
    ensures
        r@ == items@.map_values(|item: GetDevicesResponseItem| Device::describes(item)),
{
    let ghost all = items@;
    let mut devices: Vec<Device> = Vec::new();
    for item in it: items
        invariant
            it.seq() == all,
            devices@ == all.take(it.index() as int).map_values(
                |item: GetDevicesResponseItem| Device::describes(item),
            ),
    {
        devices.push(Device::new(item));
        assert(all.take(it.index() + 1) =~= all.take(it.index() as int).push(
            all[it.index() as int],
        ));
        assert(devices@ =~= all.take(it.index() + 1).map_values(
            |item: GetDevicesResponseItem| Device::describes(item),
        ));
    }
    assert(all.take(all.len() as int) =~= all);
    devices
}

impl Hue {
    /// The bridge of the session.
    pub closed spec fn spec_bridge(&self) -> Bridge {
        self.bridge
    }

    /// Who asks.
    pub closed spec fn spec_device_type(&self) -> DeviceType {
        self.device_type
    }

    /// The application key, once there is one.
    pub closed spec fn key(&self) -> Option<Seq<char>> {
        match self.application_key {
            Some(key) => Some(key@),
            None => None,
        }
    }

    /// A session without an application key, with the bridge at `address`,
    /// which told `config` of itself, or told nothing.
    pub fn new(address: [u8; 4], config: Option<Config>, device_type: DeviceType) -> (r: Result<
        Hue,
        HueError,
    >)
        ensures
            config is None ==> r is Err && r.unwrap_err() == HueError::Connection,
            config is Some ==> r is Ok && r.unwrap().key() is None && r.unwrap().spec_device_type()
                == device_type && r.unwrap().spec_bridge().describes(address, config.unwrap()),
    {
        match config {
            Some(config) => Ok(
                Hue { bridge: Bridge::from((address, config)), device_type, application_key: None },
            ),
            None => Err(HueError::Connection),
        }
    }

    /// A session with the application key of an earlier one, under the same
    /// condition as `new`.
    pub fn new_with_key(
        address: [u8; 4],
        config: Option<Config>,
        device_type: DeviceType,
        application_key: String,
    ) -> (r: Result<Hue, HueError>)
        ensures
            config is None ==> r is Err && r.unwrap_err() == HueError::Connection,
            config is Some ==> r is Ok && r.unwrap().key() == Some(application_key@)
                && r.unwrap().spec_device_type() == device_type
                && r.unwrap().spec_bridge().describes(address, config.unwrap()),
    {
        match config {
            Some(config) => Ok(
                Hue {
                    bridge: Bridge::from((address, config)),
                    device_type,
                    application_key: Some(application_key),
                },
            ),
            None => Err(HueError::Connection),
        }
    }

    /// The bridge.
    pub fn bridge(&self) -> (r: &Bridge)
        ensures
            *r == self.spec_bridge(),
    {
        &self.bridge
    }

    /// The URL of `path` on the bridge, where its text is one.
    pub fn url(&self, path: &str) -> (r: Option<Url>)
        ensures
            r is Some <==> url_parses(url_text(self.spec_bridge().address, path@)),
    {
        self.bridge.url(path)
    }

    /// Who asks.
    pub fn device_type(&self) -> (r: &DeviceType)
        ensures
            *r == self.spec_device_type(),
    {
        &self.device_type
    }

    /// The application key, once there is one.
    pub fn application_key(&self) -> (r: Option<String>)
        ensures
            r is Some <==> self.key() is Some,
            r is Some ==> self.key() == Some(r.unwrap()@),
    {
        match &self.application_key {
            Some(key) => Some(key.clone()),
            None => None,
        }
    }

    /// Whether the session can ask for resources: it can once it has an
    /// application key.
    pub fn check_authorization(&self) -> (r: Result<(), HueError>)
        ensures
            self.key() is Some ==> r is Ok,
            self.key() is None ==> r == Err::<(), HueError>(HueError::AlreadyAuthorized),
    {
        if self.application_key.is_some() {
            Ok(())
        } else {
            Err(HueError::AlreadyAuthorized)
        }
    }

    /// The request that asks the bridge for an application key. A session that
    /// has one does not ask again.
    pub fn authorize_request(&self) -> (r: Result<CreateUserRequest, HueError>)
        ensures
            self.key() is Some ==> r is Err && r.unwrap_err() == HueError::AlreadyAuthorized,
            self.key() is None ==> r is Ok && r.unwrap().devicetype@
                == self.spec_device_type().application_name@ + seq!['#']
                + self.spec_device_type().device_name@,
    {
        if self.application_key.is_some() {
            return Err(HueError::AlreadyAuthorized);
        }
        Ok(CreateUserRequest { devicetype: self.device_type.to_string() })
    }

    /// Takes the answer to the request of `authorize_request`. The session has
    /// the key from then on where the answer grants one; otherwise it is left as
    /// it was and the reason is returned.
    pub fn authorize(&mut self, answer: Result<Vec<CreateUserResponseItem>, Failure>) -> (r: Result<
        (),
        HueError,
    >)
        ensures
            final(self).spec_bridge() == old(self).spec_bridge(),
            final(self).spec_device_type() == old(self).spec_device_type(),
            old(self).key() is Some ==> final(self).key() == old(self).key() && r == Err::<
                (),
                HueError,
            >(HueError::AlreadyAuthorized),
            old(self).key() is None ==> match granted(answer) {
                Ok(key) => r is Ok && final(self).key() == Some(key),
                Err(e) => r == Err::<(), HueError>(e) && final(self).key() is None,
            },
    {
        if self.application_key.is_some() {
            return Err(HueError::AlreadyAuthorized);
        }
        let key = grant(answer)?;
        self.application_key = Some(key);
        Ok(())
    }

    /// Takes the answer to a request for the lights of the bridge. A session
    /// without an application key has no lights to take.
    pub fn lights(&self, answer: Result<GetLightsResponse, Failure>) -> (r: Result<
        Vec<Light>,
        HueError,
    >)
        ensures
            self.key() is None ==> r == Err::<Vec<Light>, HueError>(HueError::AlreadyAuthorized),
            self.key() is Some ==> match delivered(parted_lights(answer)) {
                Ok(items) => r is Ok && r.unwrap()@ == items@.map_values(
                    |item: GetLightsResponseItem| Light::describes(item),
                ),
                Err(e) => r == Err::<Vec<Light>, HueError>(e),
            },
    {
        if self.application_key.is_none() {
            return Err(HueError::AlreadyAuthorized);
        }
        let parts = match answer {
            Ok(response) => Ok((response.data, response.error)),
            Err(e) => Err(e),
        };
        Ok(lights_of(deliver(parts)?))
    }

    /// Takes the answer to a request for the devices of the bridge, as `lights`
    /// takes the one for the lights.
    pub fn devices(&self, answer: Result<GetDevicesResponse, Failure>) -> (r: Result<
        Vec<Device>,
        HueError,
    >)
        ensures
            self.key() is None ==> r == Err::<Vec<Device>, HueError>(HueError::AlreadyAuthorized),
            self.key() is Some ==> match delivered(parted_devices(answer)) {
                Ok(items) => r is Ok && r.unwrap()@ == items@.map_values(
                    |item: GetDevicesResponseItem| Device::describes(item),
                ),
                Err(e) => r == Err::<Vec<Device>, HueError>(e),
            },
    {
        if self.application_key.is_none() {
            return Err(HueError::AlreadyAuthorized);
        }
        let parts = match answer {
            Ok(response) => Ok((response.data, response.error)),
            Err(e) => Err(e),
        };
        Ok(devices_of(deliver(parts)?))
    }
}

} // verus!
