//! A light: what is known of it, what can be asked of it, and what becomes of
//! it once the bridge has done what was asked.
//!
//! Nothing here talks to a bridge. `switch`, `set_color`, `set_color_rgb` and
//! `dimm` say what to send, the caller sends it, and `confirm` takes note that
//! the bridge has accepted it.

use crate::color::{Color, Component, Temperature, RGB8, STEPS_PER_UNIT};
use crate::http::HueError;
use crate::models::lights::{GetLightsResponseItem, LightOnRequest, LightSetColorRequest};
use crate::models::lights::{LightSetColorRequestXY, On};
use crate::plane::restrain;
use crate::srgb::chromaticity;
use uuid::Uuid;
use vstd::prelude::*;
use vstd::string::*;

verus! {

/// The text of the UUID that `Uuid::from_u128` of the uuid crate makes of `id`,
/// in the hyphenated form.
pub uninterp spec fn uuid_text(id: u128) -> Seq<char>;

/// Calls `Uuid::from_u128` on `id` and asks the result for its hyphenated
/// text. Nothing is claimed of the text but that it is a function of `id`.
#[verifier::external_body]
fn id_text(id: u128) -> (r: String)
    ensures
        r@ == uuid_text(id),
{
    Uuid::from_u128(id).hyphenated().to_string()
}

/// A light of a bridge.
#[derive(Debug, Clone, PartialEq, Eq)]
pub struct Light {
    /// The UUID of the light as a number.
    pub id: u128,
    pub name: String,
    pub on: bool,
    /// The brightness in percent, as the bit pattern of a binary32
    /// floating-point number, where the light can be dimmed.
    pub brightness: Option<u32>,
    /// The colour, where the light has colours.
    pub color: Option<Color>,
    pub temperature: Option<Temperature>,
}

/// What is sent to the bridge to have a light changed.
#[derive(Debug, Clone, Copy, PartialEq, Eq)]
pub enum Request {
    On(LightOnRequest),
    Color(LightSetColorRequest),
    /// The brightness that was asked for; it is brought into the range of a
    /// percentage when it is written out.
    Brightness(u32),
}

impl Light {
    /// The light that `light` describes.
    pub open spec fn describes(light: GetLightsResponseItem) -> Light {
        Light {
            id: light.id,
            name: light.metadata.name,
            on: light.on.on,
            brightness: match light.dimming {
                Some(dimming) => Some(dimming.brightness),
                None => None,
            },
            color: light.color,
            temperature: light.color_temperature,
        }
    }

    /// The light that `light` describes.
    pub fn new(light: GetLightsResponseItem) -> (r: Light)
        ensures
            r == Light::describes(light),
    {
        Light {
            id: light.id,
            name: light.metadata.name,
            on: light.on.on,
            brightness: match light.dimming {
                Some(dimming) => Some(dimming.brightness),
                None => None,
            },
            color: light.color,
            temperature: light.color_temperature,
        }
    }

    /// The path of the light among the resources of its bridge.
    pub fn path(&self) -> (r: String)
        ensures
            r@ == "clip/v2/resource/light/"@ + uuid_text(self.id),
    {
        let mut text = "clip/v2/resource/light/".to_owned();
        text.append(id_text(self.id).as_str());
        text
    }

    /// What to send to have the light on or off.
    pub fn switch(&self, on: bool) -> (r: Request)
        ensures
            r == Request::On(LightOnRequest { on: On { on } }),
    {
        Request::On(LightOnRequest::new(on))
    }

    /// What to send to have the light show the colour of the chromaticity
    /// `component`, which is asked for as it is given. A light without colours
    /// cannot be asked for one.
    pub fn set_color(&self, component: Component) -> (r: Result<Request, HueError>)
        ensures
            self.color is Some ==> r == Ok::<Request, HueError>(
                Request::Color(
                    LightSetColorRequest { color: LightSetColorRequestXY { xy: component } },
                ),
            ),
            self.color is None ==> r == Err::<Request, HueError>(HueError::Unsupported),
    {
        if self.color.is_none() {
            return Err(HueError::Unsupported);
        }
        Ok(Request::Color(LightSetColorRequest::new(component)))
    }

    /// What to send to have the light show the sRGB colour `rgb`: it is asked
    /// for by its chromaticity, brought into the gamut of the light. A light
    /// without colours cannot be asked for one.
    pub fn set_color_rgb(&self, rgb: RGB8) -> (r: Result<Request, HueError>)
        ensures
            match self.color {
                Some(color) => match r {
                    Ok(Request::Color(request)) => request.color.xy@ == restrain(
                        color@.gamut,
                        chromaticity(
                            rgb.r as int,
                            rgb.g as int,
                            rgb.b as int,
                            STEPS_PER_UNIT as int,
                        ),
                    ),
                    _ => false,
                },
                None => r == Err::<Request, HueError>(HueError::Unsupported),
            },
    {
        match &self.color {
            Some(color) => {
                let xy = color.gamut().xy_from_rgb8(rgb);
                Ok(Request::Color(LightSetColorRequest::new(xy)))
            },
            None => Err(HueError::Unsupported),
        }
    }

    /// What to send to have the light take the brightness `value`, a bit
    /// pattern like `Light::brightness`. A light that cannot be dimmed cannot be
    /// asked for a brightness.
    pub fn dimm(&self, value: u32) -> (r: Result<Request, HueError>)
        ensures
            self.brightness is Some ==> r == Ok::<Request, HueError>(Request::Brightness(value)),
            self.brightness is None ==> r == Err::<Request, HueError>(HueError::Unsupported),
    {
        if self.brightness.is_none() {
            return Err(HueError::Unsupported);
        }
        Ok(Request::Brightness(value))
    }

    /// Takes note that the bridge has accepted `request`. The light is on or
    /// off as asked; it has the brightness that was asked for, where it can be
    /// dimmed; its colour is at the point that was asked for, brought into its
    /// gamut, where it has colours.
    pub fn confirm(&mut self, request: Request)
        ensures
            final(self).id == old(self).id,
            final(self).name == old(self).name,
            final(self).temperature == old(self).temperature,
            match request {
                Request::On(asked) => {
                    &&& final(self).on == asked.on.on
                    &&& final(self).brightness == old(self).brightness
                    &&& final(self).color == old(self).color
                },
                Request::Color(asked) => {
                    &&& final(self).on == old(self).on
                    &&& final(self).brightness == old(self).brightness
                    &&& match (old(self).color, final(self).color) {
                        (Some(before), Some(after)) => {
                            &&& after@.gamut == before@.gamut
                            &&& after@.gamut_type == before@.gamut_type
                            &&& after@.xy == restrain(before@.gamut, asked.color.xy@)
                        },
                        (None, None) => true,
                        _ => false,
                    }
                },
                Request::Brightness(bits) => {
                    &&& final(self).on == old(self).on
                    &&& final(self).color == old(self).color
                    &&& final(self).brightness == match old(self).brightness {
                        Some(_) => Some(bits),
                        None => None,
                    }
                },
            },
    {
        match request {
            Request::On(asked) => {
                self.on = asked.on.on;
            },
            Request::Color(asked) => {
                if let Some(color) = &mut self.color {
                    let shown = color.gamut().restrain(&asked.color.xy);
                    let _ = color.set_xy(shown);
                }
            },
            Request::Brightness(bits) => {
                if let Some(brightness) = &mut self.brightness {
                    *brightness = bits;
                }
            },
        }
    }
}

} // verus!
