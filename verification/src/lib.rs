//! A client library for lighting bridges, without the network: the colours
//! that a light can show, and every decision that the exchange with a bridge
//! asks for.
//!
//! The heart is the gamut of a light, a triangle in the CIE 1931 xy plane:
//! [`color`] tells whether a chromaticity lies in it, brings one into it, and
//! converts between chromaticities and sRGB colours. Chromaticities are held
//! on a grid of whole numbers, so that all of this is exact; [`binary32`] reads
//! and writes them as the floating-point numbers that a bridge sends. [`plane`]
//! and [`srgb`] hold the mathematics that the colours are specified against and
//! the laws that hold of it.
//!
//! Around it stand the bodies of requests and answers ([`models`]), a session
//! with a bridge ([`hue`], [`client`]) and its lights and devices ([`light`],
//! [`device`]). None of them sends anything: they say what to send and take
//! what came back.

pub mod binary32;
pub mod bridge;
pub mod client;
pub mod color;
pub mod device;
pub mod discover;
pub mod http;
pub mod hue;
pub mod light;
pub mod models;
pub mod plane;
pub mod srgb;
