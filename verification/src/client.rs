//! A client of one bridge that is known already: the bridge, who asks, and
//! the application key once the bridge has granted one.
//!
//! As with `Hue`, nothing here talks to the bridge: the caller sends what
//! `authorize_request` gives and hands the answers to `authorize` and `lights`.

use crate::bridge::Bridge;
use crate::http::{Failure, HueError};
use crate::hue::{deliver, delivered, grant, granted, lights_of, parted_lights};
use crate::light::Light;
use crate::models::lights::{GetLightsResponse, GetLightsResponseItem};
use crate::models::create_user::{CreateUserRequest, CreateUserResponseItem};
use crate::models::device_type::DeviceType;
use vstd::prelude::*;

verus! {

/// A client of a bridge.
#[derive(Debug, Clone)]
pub struct Client {
    bridge: Bridge,
    device_type: DeviceType,
    application_key: Option<String>,
}

impl Client {
    /// The bridge of the client.
    pub closed spec fn spec_bridge(&self) -> Bridge {
        self.bridge
    }

    /// Who asks.
    pub closed spec fn spec_device_type(&self) -> DeviceType {
        self.device_type
    }

    /// The application key, once there is one.
    pub closed spec fn key(&self) -> Option<Seq<char>> {
        match self.application_key {
            Some(key) => Some(key@),
            None => None,
        }
    }

    /// A client without an application key.
    pub fn new(bridge: Bridge, device_type: DeviceType) -> (r: Client)
        ensures
            r.spec_bridge() == bridge,
            r.spec_device_type() == device_type,
            r.key() is None,
    {
        Client { bridge, device_type, application_key: None }
    }

    /// A client with the application key of an earlier one.
    pub fn new_with_key(bridge: Bridge, device_type: DeviceType, application_key: String) -> (r:
        Client)
        ensures
            r.spec_bridge() == bridge,
            r.spec_device_type() == device_type,
            r.key() == Some(application_key@),
    {
        Client { bridge, device_type, application_key: Some(application_key) }
    }

    /// The bridge.
    pub fn bridge(&self) -> (r: &Bridge)
        ensures
            *r == self.spec_bridge(),
    {
        &self.bridge
    }

    /// Who asks.
    pub fn device_type(&self) -> (r: &DeviceType)
        ensures
            *r == self.spec_device_type(),
    {
        &self.device_type
    }

    /// The application key, once there is one.
    pub fn application_key(&self) -> (r: Option<String>)
        ensures
            r is Some <==> self.key() is Some,
            r is Some ==> self.key() == Some(r.unwrap()@),
    {
        match &self.application_key {
            Some(key) => Some(key.clone()),
            None => None,
        }
    }

    /// Whether the client can ask for resources: it can once it has an
    /// application key.
    pub fn check_authorization(&self) -> (r: Result<(), HueError>)
        ensures
            self.key() is Some ==> r is Ok,
            self.key() is None ==> r == Err::<(), HueError>(HueError::AlreadyAuthorized),
    {
        if self.application_key.is_some() {
            Ok(())
        } else {
            Err(HueError::AlreadyAuthorized)
        }
    }

    /// The request that asks the bridge for an application key. A client that
    /// has one does not ask again.
    pub fn authorize_request(&self) -> (r: Result<CreateUserRequest, HueError>)
        ensures
            self.key() is Some ==> r is Err && r.unwrap_err() == HueError::AlreadyAuthorized,
            self.key() is None ==> r is Ok && r.unwrap().devicetype@
                == self.spec_device_type().application_name@ + seq!['#']
                + self.spec_device_type().device_name@,
    {
        if self.application_key.is_some() {
            return Err(HueError::AlreadyAuthorized);
        }
        Ok(CreateUserRequest { devicetype: self.device_type.to_string() })
    }

    /// Takes the answer to the request of `authorize_request`. The client has
    /// the key from then on where the answer grants one; otherwise it is left as
    /// it was and the reason is returned.
    pub fn authorize(&mut self, answer: Result<Vec<CreateUserResponseItem>, Failure>) -> (r: Result<
        (),
        HueError,
    >)
        ensures
            final(self).spec_bridge() == old(self).spec_bridge(),
            final(self).spec_device_type() == old(self).spec_device_type(),
            old(self).key() is Some ==> final(self).key() == old(self).key() && r == Err::<
                (),
                HueError,
            >(HueError::AlreadyAuthorized),
            old(self).key() is None ==> match granted(answer) {
                Ok(key) => r is Ok && final(self).key() == Some(key),
                Err(e) => r == Err::<(), HueError>(e) && final(self).key() is None,
            },
    {
        if self.application_key.is_some() {
            return Err(HueError::AlreadyAuthorized);
        }
        let key = grant(answer)?;
        self.application_key = Some(key);
        Ok(())
    }

    /// Takes the answer to a request for the lights of the bridge. A client
    /// without an application key has no lights to take.
    pub fn lights(&self, answer: Result<GetLightsResponse, Failure>) -> (r: Result<
        Vec<Light>,
        HueError,
    >)
        ensures
            self.key() is None ==> r == Err::<Vec<Light>, HueError>(HueError::AlreadyAuthorized),
            self.key() is Some ==> match delivered(parted_lights(answer)) {
                Ok(items) => r is Ok && r.unwrap()@ == items@.map_values(
                    |item: GetLightsResponseItem| Light::describes(item),
                ),
                Err(e) => r == Err::<Vec<Light>, HueError>(e),
            },
    {
        if self.application_key.is_none() {
            return Err(HueError::AlreadyAuthorized);
        }
        let parts = match answer {
            Ok(response) => Ok((response.data, response.error)),
            Err(e) => Err(e),
        };
        Ok(lights_of(deliver(parts)?))
    }
}

} // verus!
