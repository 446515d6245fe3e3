//! Chromaticity points, gamuts and colours as a light reports them.
//!
//! A coordinate of the xy plane is held as a whole number of grid steps,
//! [`STEPS_PER_UNIT`] of them to 1.0, so that every test and every projection
//! is exact integer arithmetic.

use crate::binary32::{is_bits_of_steps, steps_from_bits, steps_of_bits, steps_to_bits};
use crate::plane::{along, closer, dist2, nearest_on_edge, orient, restrain, Point, Triangle};
use crate::plane::{lemma_contained_in_box, lemma_corners_contained, lemma_floor_quotient};
use crate::plane::{lemma_product_bound, lemma_round_div_bounds, round_div};
use crate::srgb::{channel_of_linear, channels_of, chromaticity, linear_level};
use crate::srgb::{lemma_channel_up_to, lemma_levels, lemma_levels_rise};
use crate::srgb::{LEVELS, LINEAR_ONE};
use vstd::prelude::*;

verus! {

/// Grid steps per unit of the xy plane: a step is 0.0000001.
pub const STEPS_PER_UNIT: i32 = 10_000_000;

/// Why a value of this module could not be made.
#[derive(Debug, Clone, Copy, PartialEq, Eq)]
pub enum ColorError {
    /// A chromaticity coordinate is negative, is no finite number, or is beyond
    /// the grid.
    InvalidComponent,
    /// The three primaries of a gamut lie on one line.
    DegenerateGamut,
    /// The point of a colour lies outside its gamut.
    OutOfGamut,
}

/// A chromaticity point: neither coordinate is negative.
#[derive(Debug, Clone, Copy, PartialEq, Eq)]
pub struct Component {
    x: i32,
    y: i32,
}

/// The range of colour temperatures that a light accepts, in mirek.
#[derive(Debug, Clone, Copy, PartialEq, Eq)]
pub struct MirekSchema {
    pub mirek_maximum: u32,
    pub mirek_minimum: u32,
}

/// The colour temperature of a light.
#[derive(Debug, Clone, Copy, PartialEq, Eq)]
pub struct Temperature {
    pub mirek: Option<u32>,
    pub mirek_schema: MirekSchema,
    pub mirek_valid: bool,
}

/// An sRGB colour of 8 bits per channel.
#[derive(Debug, Clone, Copy, PartialEq, Eq)]
pub struct RGB8 {
    pub r: u8,
    pub g: u8,
    pub b: u8,
}

impl RGB8 {
    /// The colour with the given red, green and blue.
    pub fn new(r: u8, g: u8, b: u8) -> (rgb: RGB8)
        ensures
            rgb == (RGB8 { r, g, b }),
    {
        RGB8 { r, g, b }
    }
}

impl View for Component {
    type V = Point;

    closed spec fn view(&self) -> Point {
        Point { x: self.x as int, y: self.y as int }
    }
}

impl Component {
    #[verifier::type_invariant]
    closed spec fn valid(self) -> bool {
        self.x >= 0 && self.y >= 0
    }

    /// The point `(x, y)`, both given in grid steps.
    pub fn new(x: i32, y: i32) -> (r: Result<Component, ColorError>)
        ensures
            x >= 0 && y >= 0 ==> r is Ok && r.unwrap()@ == (Point { x: x as int, y: y as int }),
            x < 0 || y < 0 ==> r == Err::<Component, ColorError>(ColorError::InvalidComponent),
    {
        if x >= 0 && y >= 0 {
            Ok(Component { x, y })
        } else {
            Err(ColorError::InvalidComponent)
        }
    }

    /// The point whose coordinates are the binary32 floating-point numbers with
    /// the bit patterns `x` and `y`, each rounded to the nearest grid step. It
    /// is refused where a coordinate is an infinity or not a number, is
    /// negative, or is too large for the grid, which ends before 214.7483648.
    pub fn from_bits(x: u32, y: u32) -> (r: Result<Component, ColorError>)
        ensures
            match r {
                Ok(c) => steps_of_bits(x, STEPS_PER_UNIT as int) == Some(c@.x) && steps_of_bits(
                    y,
                    STEPS_PER_UNIT as int,
                ) == Some(c@.y),
                Err(e) => e == ColorError::InvalidComponent && (steps_of_bits(
                    x,
                    STEPS_PER_UNIT as int,
                ) is None || steps_of_bits(y, STEPS_PER_UNIT as int) is None),
            },
    {
        match (steps_from_bits(x), steps_from_bits(y)) {
            (Some(x), Some(y)) => Ok(Component { x, y }),
            _ => Err(ColorError::InvalidComponent),
        }
    }

    /// The coordinates as the bit patterns of the binary32 floating-point
    /// numbers nearest to them.
    pub fn to_bits(&self) -> (r: (u32, u32))
        ensures
            is_bits_of_steps(r.0, self@.x, STEPS_PER_UNIT as int),
            is_bits_of_steps(r.1, self@.y, STEPS_PER_UNIT as int),
    {
        proof {
            use_type_invariant(self);
        }
        (steps_to_bits(self.x as u32), steps_to_bits(self.y as u32))
    }

    /// The horizontal coordinate, in grid steps.
    pub fn x(&self) -> (r: i32)
        ensures
            r == self@.x,
            r >= 0,
    {
        proof {
            use_type_invariant(self);
        }
        self.x
    }

    /// The vertical coordinate, in grid steps.
    pub fn y(&self) -> (r: i32)
        ensures
            r == self@.y,
            r >= 0,
    {
        proof {
            use_type_invariant(self);
        }
        self.y
    }

    /// The squared distance to `p`, in squared grid steps.
    pub fn distance2(&self, p: &Component) -> (r: u64)
        ensures
            r == dist2(self@, p@),
    {
        proof {
            use_type_invariant(self);
            use_type_invariant(p);
        }
        let dx: i64 = self.x as i64 - p.x as i64;
        let dy: i64 = self.y as i64 - p.y as i64;
        proof {
            lemma_product_bound(dx as int, dx as int, 0x8000_0000);
            lemma_product_bound(dy as int, dy as int, 0x8000_0000);
            assert(dx * dx >= 0 && dy * dy >= 0) by (nonlinear_arith);
        }
        (dx * dx) as u64 + (dy * dy) as u64
    }
}

/// A grid point in wide integers, as the arithmetic on a gamut handles it. It
/// may lie one step beyond what a `Component` can hold.
#[derive(Clone, Copy)]
struct Spot {
    x: i64,
    y: i64,
}

impl View for Spot {
    type V = Point;

    closed spec fn view(&self) -> Point {
        Point { x: self.x as int, y: self.y as int }
    }
}

impl Spot {
    /// Both coordinates are between 0 and 2^31.
    spec fn near(self) -> bool {
        0 <= self.x <= 0x8000_0000 && 0 <= self.y <= 0x8000_0000
    }

    /// The point of a chromaticity.
    fn of(c: &Component) -> (s: Spot)
        ensures
            s@ == c@,
            s.near(),
            s.x <= i32::MAX,
            s.y <= i32::MAX,
    {
        Spot { x: c.x() as i64, y: c.y() as i64 }
    }

    /// On which side of the line from `a` to `b` the point `p` lies.
    fn orient(a: Spot, b: Spot, p: Spot) -> (r: i128)
        requires
            a.near(),
            b.near(),
            p.near(),
        ensures
            r == orient(a@, b@, p@),
            -0x8000_0000_0000_0000 <= r <= 0x8000_0000_0000_0000,
    {
        let ux: i128 = (b.x - a.x) as i128;
        let uy: i128 = (b.y - a.y) as i128;
        let vx: i128 = (p.x - a.x) as i128;
        let vy: i128 = (p.y - a.y) as i128;
        proof {
            lemma_product_bound(ux as int, vy as int, 0x8000_0000);
            lemma_product_bound(uy as int, vx as int, 0x8000_0000);
        }
        ux * vy - uy * vx
    }

    /// The squared distance between two points.
    fn dist2(a: Spot, b: Spot) -> (r: i128)
        requires
            a.near(),
            b.near(),
        ensures
            r == dist2(a@, b@),
            0 <= r <= 0x8000_0000_0000_0000,
    {
        let dx: i128 = (a.x - b.x) as i128;
        let dy: i128 = (a.y - b.y) as i128;
        proof {
            lemma_product_bound(dx as int, dx as int, 0x8000_0000);
            lemma_product_bound(dy as int, dy as int, 0x8000_0000);
            assert(dx * dx >= 0 && dy * dy >= 0) by (nonlinear_arith);
        }
        dx * dx + dy * dy
    }

    /// The scalar product of `p - a` with `b - a`.
    fn along(p: Spot, a: Spot, b: Spot) -> (r: i128)
        requires
            p.near(),
            a.near(),
            b.near(),
        ensures
            r == along(p@, a@, b@),
            -0x8000_0000_0000_0000 <= r <= 0x8000_0000_0000_0000,
    {
        let ux: i128 = (p.x - a.x) as i128;
        let uy: i128 = (p.y - a.y) as i128;
        let vx: i128 = (b.x - a.x) as i128;
        let vy: i128 = (b.y - a.y) as i128;
        proof {
            lemma_product_bound(ux as int, vx as int, 0x8000_0000);
            lemma_product_bound(uy as int, vy as int, 0x8000_0000);
        }
        ux * vx + uy * vy
    }
}

/// The whole part of `al * d / len2`, rounded towards minus infinity: how far
/// along one axis the foot of a perpendicular lies from the start of an edge
/// whose extent on that axis is `d`.
fn floor_step(al: i128, d: i64, len2: i128) -> (q: i64)
    requires
        0 < al < len2 <= 0x8000_0000_0000_0000,
        -0x8000_0000 <= d <= 0x8000_0000,
    ensures
        q == (al * d) / (len2 as int),
        d >= 0 ==> 0 <= q <= d,
        d < 0 ==> d <= q <= 0,
{
    let n: u128 = len2 as u128;
    if d >= 0 {
        let e: u128 = d as u128;
        proof {
            lemma_product_bound(al as int, e as int, 0x8000_0000_0000_0000);
        }
        let m: u128 = (al as u128) * e;
        let q: u128 = m / n;
        proof {
            vstd::arithmetic::div_mod::lemma_fundamental_div_mod(m as int, n as int);
            vstd::arithmetic::div_mod::lemma_mod_bound(m as int, n as int);
            assert(m == al * d);
            let rest = m as int % n as int;
            assert(n * q <= n * e) by (nonlinear_arith)
                requires
                    0 <= al < n,
                    e >= 0,
                    al * e == n * q + rest,
                    0 <= rest,
            ;
            assert(q <= e) by (nonlinear_arith)
                requires
                    n > 0,
                    n * q <= n * e,
            ;
        }
        q as i64
    } else {
        let e: u128 = (-d) as u128;
        proof {
            lemma_product_bound(al as int, e as int, 0x8000_0000_0000_0000);
        }
        let m: u128 = (al as u128) * e;
        let t: u128 = m + (n - 1);
        let c: u128 = t / n;
        proof {
            vstd::arithmetic::div_mod::lemma_fundamental_div_mod(t as int, n as int);
            vstd::arithmetic::div_mod::lemma_mod_bound(t as int, n as int);
            assert(al * d == -(m as int)) by (nonlinear_arith)
                requires
                    m == al * e,
                    e == -d,
            ;
            let rest = t as int % n as int;
            // n * c <= m + n - 1 < n * c + n, and m <= (n - 1) * e
            assert(al * e <= (n - 1) * e) by (nonlinear_arith)
                requires
                    0 <= al <= n - 1,
                    e >= 0,
            ;
            assert((n - 1) * e == n * e - e) by (nonlinear_arith);
            assert(n * (e + 1) == n * e + n) by (nonlinear_arith);
            assert(n * c < n * (e + 1));
            assert(c < e + 1) by (nonlinear_arith)
                requires
                    n > 0,
                    n * c < n * (e + 1),
            ;
            assert((-c) * n == -(n * c) && (-c + 1) * n == -(n * c) + n) by (nonlinear_arith);
            lemma_floor_quotient(al * d, len2 as int, -(c as int));
        }
        -(c as i64)
    }
}

/// `n / d` rounded to the nearest whole number, a half rounded up.
fn round_div_to(n: u128, d: u128, bound: u128) -> (q: u128)
    requires
        d > 0,
        n <= bound * d,
        2 * n + 2 * d <= u128::MAX,
    ensures
        q == round_div(n as int, d as int),
        q <= bound,
{
    proof {
        lemma_round_div_bounds(n as int, d as int, bound as int);
    }
    (2 * n + d) / (2 * d)
}

/// The triangle of colours that a light can show, by its three primaries. They
/// do not lie on one line.
#[derive(Debug, Clone, Copy, PartialEq, Eq)]
pub struct Gamut {
    red: Component,
    green: Component,
    blue: Component,
}

impl View for Gamut {
    type V = Triangle;

    closed spec fn view(&self) -> Triangle {
        Triangle { red: self.red@, green: self.green@, blue: self.blue@ }
    }
}

impl Gamut {
    #[verifier::type_invariant]
    closed spec fn valid(self) -> bool {
        &&& self.red.valid()
        &&& self.green.valid()
        &&& self.blue.valid()
        &&& self@.nondegenerate()
    }

    /// The gamut with the given primaries, unless they lie on one line.
    pub fn new(red: Component, green: Component, blue: Component) -> (r: Result<Gamut, ColorError>)
        ensures
            orient(red@, green@, blue@) != 0 ==> r is Ok && r.unwrap()@ == (Triangle {
                red: red@,
                green: green@,
                blue: blue@,
            }) && r.unwrap()@.nondegenerate(),
            orient(red@, green@, blue@) == 0 ==> r == Err::<Gamut, ColorError>(
                ColorError::DegenerateGamut,
            ),
    {
        proof {
            use_type_invariant(&red);
            use_type_invariant(&green);
            use_type_invariant(&blue);
        }
        let area2 = Spot::orient(Spot::of(&red), Spot::of(&green), Spot::of(&blue));
        if area2 != 0 {
            Ok(Gamut { red, green, blue })
        } else {
            Err(ColorError::DegenerateGamut)
        }
    }

    /// The red primary.
    pub fn red(&self) -> (r: Component)
        ensures
            r@ == self@.red,
            self@.nondegenerate(),
    {
        proof {
            use_type_invariant(self);
        }
        self.red
    }

    /// The green primary.
    pub fn green(&self) -> (r: Component)
        ensures
            r@ == self@.green,
            self@.nondegenerate(),
    {
        proof {
            use_type_invariant(self);
        }
        self.green
    }

    /// The blue primary.
    pub fn blue(&self) -> (r: Component)
        ensures
            r@ == self@.blue,
            self@.nondegenerate(),
    {
        proof {
            use_type_invariant(self);
        }
        self.blue
    }

    /// Whether `xy` lies inside the gamut or on its boundary. The primaries
    /// and every point of an edge are in the gamut.
    pub fn contains(&self, xy: &Component) -> (r: bool)
        ensures
            r == self@.contains(xy@),
    {
        self.holds(Spot::of(xy))
    }

    /// Whether `p` lies inside the gamut or on its boundary.
    fn holds(&self, p: Spot) -> (r: bool)
        requires
            p.near(),
        ensures
            r == self@.contains(p@),
    {
        let red = Spot::of(&self.red);
        let green = Spot::of(&self.green);
        let blue = Spot::of(&self.blue);
        let s = Spot::orient(blue, red, p);
        let t = Spot::orient(red, green, p);
        if s != 0 && t != 0 && (s < 0) != (t < 0) {
            // Strictly right of one of the edges blue-red and red-green and
            // strictly left of the other.
            return false;
        }
        // The point is outside only where it is strictly on the one side of the
        // edge green-blue and on the other side of those two.
        let d = Spot::orient(green, blue, p);
        d == 0 || s + t == 0 || (d < 0) == (s + t < 0)
    }

    /// `c` where the gamut contains it and it is strictly nearer to `p` than
    /// `cur`, otherwise `cur`.
    fn closer(&self, p: Spot, cur: Spot, c: Spot) -> (r: Spot)
        requires
            p.near(),
            cur.near(),
            c.near(),
            self@.contains(cur@),
        ensures
            r@ == closer(self@, p@, cur@, c@),
            r.near(),
            self@.contains(r@),
    {
        if self.holds(c) && Spot::dist2(c, p) < Spot::dist2(cur, p) {
            c
        } else {
            cur
        }
    }

    /// The point of the gamut that stands for the point nearest to `p` on the edge
    /// from the primary `a` to the primary `b`.
    fn restrain_point_in_segment(&self, p: &Component, a: &Component, b: &Component) -> (r:
        Component)
        requires
            self@.contains(a@),
            self@.contains(b@),
        ensures
            r@ == nearest_on_edge(self@, p@, a@, b@),
            self@.contains(r@),
    {
        let sp = Spot::of(p);
        let sa = Spot::of(a);
        let sb = Spot::of(b);
        let len2 = Spot::dist2(sa, sb);
        let al = Spot::along(sp, sa, sb);
        if al <= 0 {
            *a
        } else if al >= len2 {
            *b
        } else {
            let fx: i64 = sa.x + floor_step(al, sb.x - sa.x, len2);
            let fy: i64 = sa.y + floor_step(al, sb.y - sa.y, len2);
            let c0 = self.closer(sp, sa, sb);
            let c1 = self.closer(sp, c0, Spot { x: fx, y: fy });
            let c2 = self.closer(sp, c1, Spot { x: fx + 1, y: fy });
            let c3 = self.closer(sp, c2, Spot { x: fx, y: fy + 1 });
            let c4 = self.closer(sp, c3, Spot { x: fx + 1, y: fy + 1 });
            proof {
                use_type_invariant(self);
                use_type_invariant(&self.red);
                use_type_invariant(&self.green);
                use_type_invariant(&self.blue);
                lemma_contained_in_box(self@, c4@, 0, i32::MAX as int);
            }
            Component { x: c4.x as i32, y: c4.y as i32 }
        }
    }

    /// `xy` itself where the gamut contains it, otherwise the point of the gamut
    /// that stands for the nearest point of its boundary.
    pub fn restrain(&self, xy: &Component) -> (r: Component)
        ensures
            r@ == restrain(self@, xy@),
            self@.contains(r@),
    {
        if self.contains(xy) {
            *xy
        } else {
            proof {
                lemma_corners_contained(self@);
            }
            let rg = self.restrain_point_in_segment(xy, &self.red, &self.green);
            let gb = self.restrain_point_in_segment(xy, &self.green, &self.blue);
            let br = self.restrain_point_in_segment(xy, &self.blue, &self.red);
            let drg = rg.distance2(xy);
            let dgb = gb.distance2(xy);
            let dbr = br.distance2(xy);
            if drg <= dgb && drg <= dbr {
                rg
            } else if dgb <= dbr {
                gb
            } else {
                br
            }
        }
    }

    /// The linear light of the channel value `c`, in units of 10^-14 and rounded
    /// up: the sRGB curve, which for `v = c / 255` is `v / 12.92` up to
    /// `v = 0.04045` and `((v + 0.055) / 1.055)^2.4` above.
    pub fn gamma_correct(c: u8) -> (r: u64)
        ensures
            r == linear_level(c as int),
            r <= LINEAR_ONE,
    {
        proof {
            lemma_levels_rise(c as int, 255);
            lemma_levels(255);
        }
        LEVELS[c as usize]
    }

    /// The channel value that encodes `n` units of linear light, a unit being
    /// 10^-14: the inverse of the sRGB curve times 255, cut off to a whole number
    /// and kept within 0 and 255.
    pub fn gamma_inverse(n: i64) -> (r: u8)
        ensures
            r == channel_of_linear(n as int),
    {
        let mut lo: usize = 0;
        let mut hi: usize = 256;
        while hi - lo > 1
            invariant
                0 <= lo < hi <= 256,
                lo == 0 || linear_level(lo as int) <= n,
                hi <= 255 ==> n < linear_level(hi as int),
            decreases hi - lo,
        {
            let mid = lo + (hi - lo) / 2;
            proof {
                lemma_levels_rise(mid as int, 255);
                lemma_levels(255);
            }
            if LEVELS[mid] as i64 <= n {
                lo = mid;
            } else {
                hi = mid;
            }
        }
        proof {
            lemma_channel_up_to(n as int, 255, lo as int);
        }
        lo as u8
    }

    /// The chromaticity of the sRGB colour `rgb`, brought into the gamut.
    /// Black, which has no chromaticity, counts as a grey.
    pub fn xy_from_rgb8(&self, rgb: RGB8) -> (r: Component)
        ensures
            r@ == restrain(
                self@,
                chromaticity(rgb.r as int, rgb.g as int, rgb.b as int, STEPS_PER_UNIT as int),
            ),
            self@.contains(r@),
    {
        let black = rgb.r == 0 && rgb.g == 0 && rgb.b == 0;
        let lr: u128 = if black { 1 } else { Self::gamma_correct(rgb.r) as u128 };
        let lg: u128 = if black { 1 } else { Self::gamma_correct(rgb.g) as u128 };
        let lb: u128 = if black { 1 } else { Self::gamma_correct(rgb.b) as u128 };
        proof {
            lemma_levels(0);
            if rgb.r > 0 {
                lemma_levels_rise(0, rgb.r as int);
            }
            if rgb.g > 0 {
                lemma_levels_rise(0, rgb.g as int);
            }
            if rgb.b > 0 {
                lemma_levels_rise(0, rgb.b as int);
            }
        }
        let x: u128 = 4124564 * lr + 3575761 * lg + 1804375 * lb;
        let y: u128 = 2126729 * lr + 7151522 * lg + 721750 * lb;
        let z: u128 = 193339 * lr + 1191920 * lg + 9503041 * lb;
        let sum: u128 = x + y + z;
        let steps: u128 = STEPS_PER_UNIT as u128;
        proof {
            assert(x * steps <= steps * sum && y * steps <= steps * sum) by (nonlinear_arith)
                requires
                    sum == x + y + z,
                    x >= 0,
                    y >= 0,
                    z >= 0,
                    steps >= 0,
            ;
        }
        let px = round_div_to(x * steps, sum, steps);
        let py = round_div_to(y * steps, sum, steps);
        let p = Component { x: px as i32, y: py as i32 };
        self.restrain(&p)
    }

    /// The sRGB colour of the chromaticity `xy` at full luminance, after `xy` is
    /// brought into the gamut.
    pub fn xy_to_rgb8(&self, xy: &Component) -> (r: RGB8)
        ensures
            (r.r as int, r.g as int, r.b as int) == channels_of(
                restrain(self@, xy@),
                STEPS_PER_UNIT as int,
            ),
    {
        let p = self.restrain(xy);
        let x: i64 = p.x() as i64;
        let y: i64 = p.y() as i64;
        let z: i64 = STEPS_PER_UNIT as i64 - x - y;
        let r = Self::gamma_inverse(32404542 * x - 15371385 * y - 4985314 * z);
        let g = Self::gamma_inverse(18760108 * y + 415560 * z - 9692660 * x);
        let b = Self::gamma_inverse(556434 * x - 2040259 * y + 10572252 * z);
        RGB8::new(r, g, b)
    }
}

/// A chromaticity point together with the gamut it is expressed against and
/// the class letter of that gamut. The gamut contains the point.
#[derive(Debug, PartialEq, Eq)]
pub struct Color {
    gamut: Gamut,
    gamut_type: String,
    xy: Component,
}

/// What a `Color` holds.
pub struct ColorView {
    pub gamut: Triangle,
    pub gamut_type: Seq<char>,
    pub xy: Point,
}

impl View for Color {
    type V = ColorView;

    closed spec fn view(&self) -> ColorView {
        ColorView { gamut: self.gamut@, gamut_type: self.gamut_type@, xy: self.xy@ }
    }
}

impl Clone for Color {
    fn clone(&self) -> (r: Color)
        ensures
            r@ == self@,
    {
        proof {
            use_type_invariant(self);
        }
        Color { gamut: self.gamut, gamut_type: self.gamut_type.clone(), xy: self.xy }
    }
}

impl Color {
    #[verifier::type_invariant]
    closed spec fn valid(self) -> bool {
        &&& self.gamut.valid()
        &&& self.xy.valid()
        &&& self.gamut@.contains(self.xy@)
    }

    /// The colour `xy` of a light with a gamut of class C. It is refused where
    /// the gamut does not contain `xy`: restrain the point first to have it
    /// accepted.
    pub fn new(xy: Component, gamut: Gamut) -> (r: Result<Color, ColorError>)
        ensures
            gamut@.contains(xy@) ==> r is Ok && r.unwrap()@ == (ColorView {
                gamut: gamut@,
                gamut_type: "C"@,
                xy: xy@,
            }),
            !gamut@.contains(xy@) ==> r == Err::<Color, ColorError>(ColorError::OutOfGamut),
    {
        Color::with_gamut_type(xy, gamut, "C".to_owned())
    }

    /// The colour `xy` of a light whose gamut has the class `gamut_type`, under
    /// the same condition as `new`.
    pub fn with_gamut_type(xy: Component, gamut: Gamut, gamut_type: String) -> (r: Result<
        Color,
        ColorError,
    >)
        ensures
            gamut@.contains(xy@) ==> r is Ok && r.unwrap()@ == (ColorView {
                gamut: gamut@,
                gamut_type: gamut_type@,
                xy: xy@,
            }),
            !gamut@.contains(xy@) ==> r == Err::<Color, ColorError>(ColorError::OutOfGamut),
    {
        proof {
            use_type_invariant(&gamut);
            use_type_invariant(&xy);
        }
        if gamut.contains(&xy) {
            Ok(Color { gamut, gamut_type, xy })
        } else {
            Err(ColorError::OutOfGamut)
        }
    }

    /// Replaces the point of the colour, as when a light has taken a new one.
    /// The condition is that of `new`; a point that is refused leaves the colour
    /// as it was.
    pub fn set_xy(&mut self, xy: Component) -> (r: Result<(), ColorError>)
        ensures
            final(self)@.gamut == old(self)@.gamut,
            final(self)@.gamut_type == old(self)@.gamut_type,
            old(self)@.gamut.contains(xy@) ==> r is Ok && final(self)@.xy == xy@,
            !old(self)@.gamut.contains(xy@) ==> r == Err::<(), ColorError>(ColorError::OutOfGamut)
                && final(self)@.xy == old(self)@.xy,
    {
        proof {
            use_type_invariant(&*self);
            use_type_invariant(&xy);
        }
        if self.gamut.contains(&xy) {
            self.xy = xy;
            Ok(())
        } else {
            Err(ColorError::OutOfGamut)
        }
    }

    /// The point of the colour.
    pub fn xy(&self) -> (r: Component)
        ensures
            r@ == self@.xy,
            self@.gamut.contains(r@),
    {
        proof {
            use_type_invariant(self);
        }
        self.xy
    }

    /// The gamut of the light.
    pub fn gamut(&self) -> (r: Gamut)
        ensures
            r@ == self@.gamut,
    {
        self.gamut
    }

    /// The class letter of the gamut.
    pub fn gamut_type(&self) -> (r: &str)
        ensures
            r@ == self@.gamut_type,
    {
        self.gamut_type.as_str()
    }
}

} // verus!
