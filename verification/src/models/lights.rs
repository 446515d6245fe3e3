use crate::color::{Color, Component, Temperature};
use crate::models::generic::Metadata;
use crate::models::Error;
use vstd::prelude::*;

verus! {

/// Whether a light is on.
#[derive(Debug, Clone, Copy, PartialEq, Eq)]
pub struct On {
    pub on: bool,
}

/// How bright a light is and how dark it can get, both in percent and as the
/// bit patterns of binary32 floating-point numbers.
#[derive(Debug, Clone, Copy, PartialEq, Eq)]
pub struct Dimming {
    pub brightness: u32,
    pub min_dim_level: u32,
}

/// The answer to a request for the lights of a bridge.
#[derive(Debug, Clone, PartialEq, Eq)]
pub struct GetLightsResponse {
    pub data: Option<Vec<GetLightsResponseItem>>,
    pub error: Option<Error>,
}

/// A light as a bridge describes it. The identifier is its UUID as a number.
#[derive(Debug, Clone, PartialEq, Eq)]
pub struct GetLightsResponseItem {
    pub resource_type: String,
    pub id: u128,
    pub metadata: Metadata,
    pub dimming: Option<Dimming>,
    pub on: On,
    pub color: Option<Color>,
    pub color_temperature: Option<Temperature>,
}

/// The request that switches a light.
#[derive(Debug, Clone, Copy, PartialEq, Eq)]
pub struct LightOnRequest {
    pub on: On,
}

/// The chromaticity part of a colour request.
#[derive(Debug, Clone, Copy, PartialEq, Eq)]
pub struct LightSetColorRequestXY {
    pub xy: Component,
}

/// The request that sets the colour of a light.
#[derive(Debug, Clone, Copy, PartialEq, Eq)]
pub struct LightSetColorRequest {
    pub color: LightSetColorRequestXY,
}

impl LightOnRequest {
    /// The request that switches a light on or off.
    pub fn new(on: bool) -> (r: LightOnRequest)
        ensures
            r.on.on == on,
    {
        LightOnRequest { on: On { on } }
    }
}

impl LightSetColorRequest {
    /// The request that sets the colour of a light to `color`.
    pub fn new(color: Component) -> (r: LightSetColorRequest)
        ensures
            r.color.xy == color,
    {
        LightSetColorRequest { color: LightSetColorRequestXY { xy: color } }
    }
}

} // verus!
