use huehue::binary32::{steps_from_bits, steps_to_bits};
use huehue::color::{Color, ColorError, Component, Gamut, RGB8, STEPS_PER_UNIT};

/// The point `(x, y)` of the xy plane, rounded to the grid.
fn point(x: f32, y: f32) -> Component {
    Component::from_bits(x.to_bits(), y.to_bits()).unwrap()
}

/// A distance in the xy plane as a whole number of grid steps.
fn steps(d: f64) -> i64 {
    (d * STEPS_PER_UNIT as f64).round() as i64
}

fn assert_component_eq(a: &Component, b: &Component, d: f64) {
    let dx = a.x() as i64 - b.x() as i64;
    let dy = a.y() as i64 - b.y() as i64;
    assert!(
        dx.abs() <= steps(d),
        "x component {} and {} outside of range {}",
        a.x(),
        b.x(),
        steps(d)
    );
    assert!(
        dy.abs() <= steps(d),
        "y component {} and {} outside of range {}",
        a.y(),
        b.y(),
        steps(d)
    );
}

fn assert_rgb_eq(a: &RGB8, b: &RGB8, d: i16) {
    assert!(
        !((a.r as i16 - b.r as i16).abs() > d),
        "r component {} and {} outside of range {}",
        a.r,
        b.r,
        d
    );
    assert!(
        !((a.g as i16 - b.g as i16).abs() > d),
        "g component {} and {} outside of range {}",
        a.g,
        b.g,
        d
    );
    assert!(
        !((a.b as i16 - b.b as i16).abs() > d),
        "b component {} and {} outside of range {}",
        a.b,
        b.b,
        d
    );
}

fn gamut_c() -> Gamut {
    Gamut::new(point(0.6915f32, 0.3083f32), point(0.17f32, 0.7f32), point(0.1532f32, 0.0475f32))
        .unwrap()
}

#[test]
fn gamut_contains() {
    let gamut = gamut_c();
    assert!(gamut.contains(&point(0.2986f32, 0.3425f32)));
    assert!(gamut.contains(&point(0.675f32, 0.308f32)));
    assert!(gamut.contains(&point(0.4f32, 0.4f32)));
    assert!(!gamut.contains(&point(0.5f32, 0.5f32)));
    assert!(!gamut.contains(&point(0.01f32, 0.01f32)));
}

#[test]
fn gamut_xy_from_rgb_on_edge() {
    let gamut = gamut_c();

    assert_component_eq(
        &point(0.6399f32, 0.3300f32),
        &gamut.xy_from_rgb8(RGB8::new(255, 0, 0)),
        0.0001,
    );
    assert_component_eq(&point(0.3f32, 0.6f32), &gamut.xy_from_rgb8(RGB8::new(0, 255, 0)), 0.0001);
    assert_component_eq(
        &point(0.1535f32, 0.0599f32),
        &gamut.xy_from_rgb8(RGB8::new(0, 0, 255)),
        0.0001,
    );
}

#[test]
fn gamut_xy_from_rgb_inside() {
    let gamut = gamut_c();

    assert_component_eq(
        &point(0.3127301, 0.32901987),
        &gamut.xy_from_rgb8(RGB8::new(128, 128, 128)),
        0.0001,
    );
}

#[test]
fn gamut_xy_to_rgb_on_edge() {
    let gamut = gamut_c();

    assert_rgb_eq(&RGB8::new(255, 0, 0), &gamut.xy_to_rgb8(&point(0.6399f32, 0.3300f32)), 1);
    assert_rgb_eq(&RGB8::new(0, 236, 0), &gamut.xy_to_rgb8(&point(0.3f32, 0.6f32)), 1);
    assert_rgb_eq(&RGB8::new(30, 0, 234), &gamut.xy_to_rgb8(&point(0.1535f32, 0.0599f32)), 1);
}

#[test]
fn gamut_xy_to_rgb_inside() {
    let gamut = gamut_c();

    // No brightness is carried, so this is not the grey that the point came from.
    assert_rgb_eq(
        &RGB8::new(155, 155, 155),
        &gamut.xy_to_rgb8(&point(0.3127301, 0.32901987)),
        1,
    );
}

#[test]
fn component_rejects_negative_coordinates() {
    assert_eq!(Component::new(-1, 0), Err(ColorError::InvalidComponent));
    assert_eq!(Component::new(0, -1), Err(ColorError::InvalidComponent));
    assert_eq!(Component::new(i32::MIN, i32::MIN), Err(ColorError::InvalidComponent));
    let origin = Component::new(0, 0).unwrap();
    assert_eq!((origin.x(), origin.y()), (0, 0));
    let far = Component::new(i32::MAX, i32::MAX).unwrap();
    assert_eq!((far.x(), far.y()), (i32::MAX, i32::MAX));
}

#[test]
fn component_distance2_is_sum_of_squares() {
    let a = Component::new(3, 10).unwrap();
    let b = Component::new(7, 7).unwrap();
    assert_eq!(a.distance2(&b), 25);
    assert_eq!(b.distance2(&a), 25);
    assert_eq!(a.distance2(&a), 0);
    let origin = Component::new(0, 0).unwrap();
    let far = Component::new(i32::MAX, i32::MAX).unwrap();
    assert_eq!(origin.distance2(&far), 2 * (i32::MAX as u64) * (i32::MAX as u64));
}

#[test]
fn gamut_rejects_collinear_primaries() {
    let a = point(0.1, 0.1);
    let b = point(0.2, 0.2);
    let c = point(0.3, 0.3);
    assert_eq!(Gamut::new(a, b, c), Err(ColorError::DegenerateGamut));
    assert_eq!(Gamut::new(a, a, c), Err(ColorError::DegenerateGamut));
    assert_eq!(Gamut::new(a, a, a), Err(ColorError::DegenerateGamut));
    let d = point(0.3, 0.1);
    let gamut = Gamut::new(a, b, d).unwrap();
    assert_eq!((gamut.red(), gamut.green(), gamut.blue()), (a, b, d));
    assert!(Gamut::new(a, d, b).is_ok());
}

#[test]
fn gamut_contains_its_primaries_and_edges() {
    let gamut = gamut_c();
    assert!(gamut.contains(&gamut.red()));
    assert!(gamut.contains(&gamut.green()));
    assert!(gamut.contains(&gamut.blue()));
    // The same primaries the other way round.
    let turned = Gamut::new(gamut.blue(), gamut.green(), gamut.red()).unwrap();
    assert!(turned.contains(&turned.red()));
    assert!(turned.contains(&turned.green()));
    assert!(turned.contains(&turned.blue()));
    assert!(turned.contains(&point(0.4, 0.4)));
    assert!(!turned.contains(&point(0.5, 0.5)));
    // A point in the middle of an edge of a small triangle.
    let small = Gamut::new(
        Component::new(0, 0).unwrap(),
        Component::new(4, 0).unwrap(),
        Component::new(0, 4).unwrap(),
    )
    .unwrap();
    assert!(small.contains(&Component::new(2, 0).unwrap()));
    assert!(small.contains(&Component::new(2, 2).unwrap()));
    assert!(small.contains(&Component::new(0, 3).unwrap()));
    assert!(small.contains(&Component::new(1, 1).unwrap()));
    assert!(!small.contains(&Component::new(3, 2).unwrap()));
    assert!(!small.contains(&Component::new(5, 0).unwrap()));
}

#[test]
fn gamut_contains_its_centroid() {
    let gamut = Gamut::new(
        Component::new(6915000, 3083000).unwrap(),
        Component::new(1700000, 7000000).unwrap(),
        Component::new(1532000, 475000).unwrap(),
    )
    .unwrap();
    // The sums of the coordinates are 10147000 and 10558000: the first is not a
    // multiple of 3, so the centroid is between two grid points.
    let below = Component::new(3382333, 3519333).unwrap();
    assert!(gamut.contains(&below));
    let exact = Gamut::new(
        Component::new(0, 0).unwrap(),
        Component::new(9, 0).unwrap(),
        Component::new(0, 3).unwrap(),
    )
    .unwrap();
    assert!(exact.contains(&Component::new(3, 1).unwrap()));
}

#[test]
fn restrain_leaves_inside_points_alone() {
    let gamut = gamut_c();
    for p in [point(0.2986, 0.3425), point(0.675, 0.308), point(0.4, 0.4)] {
        assert_eq!(gamut.restrain(&p), p);
    }
    assert_eq!(gamut.restrain(&gamut.red()), gamut.red());
    assert_eq!(gamut.restrain(&gamut.green()), gamut.green());
    assert_eq!(gamut.restrain(&gamut.blue()), gamut.blue());
}

#[test]
fn restrain_projects_onto_the_nearest_edge() {
    let small = Gamut::new(
        Component::new(10, 10).unwrap(),
        Component::new(50, 10).unwrap(),
        Component::new(10, 50).unwrap(),
    )
    .unwrap();
    // Below the edge red-green: straight up onto it.
    assert_eq!(small.restrain(&Component::new(30, 0).unwrap()), Component::new(30, 10).unwrap());
    // Left of the edge blue-red: straight right onto it.
    assert_eq!(small.restrain(&Component::new(0, 25).unwrap()), Component::new(10, 25).unwrap());
    // Beyond the slanted edge green-blue: onto it along the diagonal.
    assert_eq!(small.restrain(&Component::new(40, 40).unwrap()), Component::new(30, 30).unwrap());
    // Beyond a corner: the corner.
    assert_eq!(small.restrain(&Component::new(0, 0).unwrap()), Component::new(10, 10).unwrap());
    assert_eq!(small.restrain(&Component::new(90, 0).unwrap()), Component::new(50, 10).unwrap());
    assert_eq!(small.restrain(&Component::new(0, 90).unwrap()), Component::new(10, 50).unwrap());
}

#[test]
fn restrain_snaps_into_the_gamut() {
    let gamut = gamut_c();
    let blue = Component::new(1500000, 600000).unwrap();
    assert!(!gamut.contains(&blue));
    let r = gamut.restrain(&blue);
    assert_eq!(r, Component::new(1535196, 599094).unwrap());
    assert!(gamut.contains(&r));
    // A foot of a perpendicular that is between grid points.
    let slanted = Gamut::new(
        Component::new(0, 0).unwrap(),
        Component::new(7, 3).unwrap(),
        Component::new(0, 9).unwrap(),
    )
    .unwrap();
    let p = Component::new(5, 0).unwrap();
    let r = slanted.restrain(&p);
    assert!(slanted.contains(&r));
    assert_eq!(r, Component::new(4, 2).unwrap());
}

fn small(red: (i32, i32), green: (i32, i32), blue: (i32, i32)) -> Gamut {
    Gamut::new(
        Component::new(red.0, red.1).unwrap(),
        Component::new(green.0, green.1).unwrap(),
        Component::new(blue.0, blue.1).unwrap(),
    )
    .unwrap()
}

#[test]
fn restrain_tie_goes_to_the_earlier_edge() {
    // On a coarse grid two edges can offer different points at one distance.
    // Red-green offers (9, 7) and green-blue (10, 6), both 5 steps away.
    let gamut = small((3, 11), (11, 5), (4, 12));
    let p = Component::new(6, 3).unwrap();
    assert!(gamut.contains(&Component::new(10, 6).unwrap()));
    assert_eq!(Component::new(10, 6).unwrap().distance2(&p), 25);
    assert_eq!(gamut.restrain(&p), Component::new(9, 7).unwrap());
    // Green-blue offers (7, 10) and blue-red (8, 11), both 1 step away.
    let gamut = small((2, 10), (5, 6), (9, 12));
    let p = Component::new(8, 10).unwrap();
    assert!(gamut.contains(&Component::new(8, 11).unwrap()));
    assert_eq!(gamut.restrain(&p), Component::new(7, 10).unwrap());
    // Red-green offers (9, 9) and blue-red (10, 10), both at the squared
    // distance 5.
    let gamut = small((11, 11), (0, 0), (6, 0));
    let p = Component::new(8, 11).unwrap();
    assert!(gamut.contains(&Component::new(10, 10).unwrap()));
    assert_eq!(Component::new(10, 10).unwrap().distance2(&p), 5);
    assert_eq!(gamut.restrain(&p), Component::new(9, 9).unwrap());
}

#[test]
fn restrain_beyond_a_corner_gives_the_corner() {
    let gamut = small((20, 20), (30, 10), (30, 30));
    let p = Component::new(10, 20).unwrap();
    assert_eq!(gamut.restrain(&p), Component::new(20, 20).unwrap());
    let q = Component::new(40, 20).unwrap();
    assert_eq!(gamut.restrain(&q), Component::new(30, 20).unwrap());
    let z = Component::new(100, 10).unwrap();
    assert_eq!(gamut.restrain(&z), Component::new(30, 10).unwrap());
}

#[test]
fn restrain_is_idempotent() {
    let gamut = gamut_c();
    let mut x: i32 = 0;
    while x <= STEPS_PER_UNIT {
        let mut y: i32 = 0;
        while y <= STEPS_PER_UNIT {
            let p = Component::new(x, y).unwrap();
            let r = gamut.restrain(&p);
            assert!(gamut.contains(&r));
            assert_eq!(gamut.restrain(&r), r);
            if gamut.contains(&p) {
                assert_eq!(r, p);
            }
            y += 333_333;
        }
        x += 250_001;
    }
}

#[test]
fn restrain_at_the_limits_of_the_grid() {
    let wide = Gamut::new(
        Component::new(0, 0).unwrap(),
        Component::new(i32::MAX, 0).unwrap(),
        Component::new(0, i32::MAX).unwrap(),
    )
    .unwrap();
    let corner = Component::new(i32::MAX, i32::MAX).unwrap();
    assert!(!wide.contains(&corner));
    let r = wide.restrain(&corner);
    assert!(wide.contains(&r));
    assert_eq!(wide.restrain(&r), r);
    assert_eq!(r.x() as i64 + r.y() as i64, i32::MAX as i64);
    assert!((r.x() - r.y()).abs() <= 1);
}

#[test]
fn gamma_correct_follows_the_srgb_curve() {
    assert_eq!(Gamut::gamma_correct(0), 0);
    assert_eq!(Gamut::gamma_correct(255), 100_000_000_000_000);
    // 1 / 255 / 12.92 = 0.000303526983548..., rounded up.
    assert_eq!(Gamut::gamma_correct(1), 30_352_698_355);
    // 10 / 255 / 12.92 = 0.00303526983548..., rounded up.
    assert_eq!(Gamut::gamma_correct(10), 303_526_983_549);
    // ((128 / 255 + 0.055) / 1.055)^2.4 = 0.21586050011389..., rounded up.
    assert_eq!(Gamut::gamma_correct(128), 21_586_050_011_390);
    for c in 0..=255u8 {
        let exact = if (c as f64) / 255.0 > 0.04045 {
            (((c as f64) / 255.0 + 0.055) / 1.055).powf(2.4)
        } else {
            (c as f64) / 255.0 / 12.92
        };
        let got = Gamut::gamma_correct(c) as f64 / 1e14;
        assert!((got - exact).abs() < 1e-12, "channel {}: {} and {}", c, got, exact);
    }
}

#[test]
fn gamma_inverse_cuts_off_and_clamps() {
    assert_eq!(Gamut::gamma_inverse(0), 0);
    assert_eq!(Gamut::gamma_inverse(-1), 0);
    assert_eq!(Gamut::gamma_inverse(i64::MIN), 0);
    assert_eq!(Gamut::gamma_inverse(100_000_000_000_000), 255);
    assert_eq!(Gamut::gamma_inverse(99_999_999_999_999), 254);
    assert_eq!(Gamut::gamma_inverse(i64::MAX), 255);
    assert_eq!(Gamut::gamma_inverse(30_352_698_354), 0);
    assert_eq!(Gamut::gamma_inverse(30_352_698_355), 1);
    // Linear light 0.5 encodes to 0.7353569..., which is 187.5 of 255.
    assert_eq!(Gamut::gamma_inverse(50_000_000_000_000), 187);
    let mut n: i64 = 0;
    while n <= 100_000_000_000_000 {
        let c = n as f64 / 1e14;
        let encoded = if c > 0.0031308 { 1.055 * c.powf(1.0 / 2.4) - 0.055 } else { c * 12.92 };
        let scaled = encoded * 255.0;
        // Away from a whole number, where rounding of the floats decides.
        if (scaled - scaled.round()).abs() > 1e-6 {
            assert_eq!(Gamut::gamma_inverse(n), scaled as u8, "linear light {}", n);
        }
        n += 12_345_678_901;
    }
}

#[test]
fn gamma_round_trip() {
    for c in 0..=255u8 {
        let linear = Gamut::gamma_correct(c);
        assert_eq!(Gamut::gamma_inverse(linear as i64), c);
        if c > 0 {
            assert_eq!(Gamut::gamma_inverse(linear as i64 - 1), c - 1);
        }
    }
}

#[test]
fn xy_from_rgb8_of_black_is_the_white_point() {
    let gamut = gamut_c();
    let black = gamut.xy_from_rgb8(RGB8::new(0, 0, 0));
    assert_eq!(black, Component::new(3127266, 3290232).unwrap());
    assert_eq!(black, gamut.xy_from_rgb8(RGB8::new(1, 1, 1)));
    assert_eq!(black, gamut.xy_from_rgb8(RGB8::new(255, 255, 255)));
}

#[test]
fn xy_from_rgb8_exact_values() {
    let gamut = gamut_c();
    assert_eq!(gamut.xy_from_rgb8(RGB8::new(255, 0, 0)), Component::new(6399999, 3300001).unwrap());
    assert_eq!(gamut.xy_from_rgb8(RGB8::new(0, 255, 0)), Component::new(3000000, 6000000).unwrap());
    // sRGB blue is (0.15, 0.06), outside this gamut.
    assert_eq!(gamut.xy_from_rgb8(RGB8::new(0, 0, 255)), Component::new(1535196, 599094).unwrap());
}

#[test]
fn xy_from_rgb8_is_always_in_gamut() {
    let gamut = gamut_c();
    for r in [0u8, 1, 17, 128, 254, 255] {
        for g in [0u8, 1, 17, 128, 254, 255] {
            for b in [0u8, 1, 17, 128, 254, 255] {
                let xy = gamut.xy_from_rgb8(RGB8::new(r, g, b));
                assert!(gamut.contains(&xy));
                assert!(Color::new(xy, gamut).is_ok());
            }
        }
    }
}

#[test]
fn xy_to_rgb8_restrains_first() {
    let gamut = gamut_c();
    let outside = point(0.15, 0.06);
    assert!(!gamut.contains(&outside));
    let inside = gamut.restrain(&outside);
    assert_eq!(gamut.xy_to_rgb8(&outside), gamut.xy_to_rgb8(&inside));
    assert_eq!(gamut.xy_to_rgb8(&outside), RGB8::new(30, 0, 234));
}

#[test]
fn xy_to_rgb8_exact_values() {
    let gamut = gamut_c();
    assert_eq!(gamut.xy_to_rgb8(&point(0.6399, 0.33)), RGB8::new(255, 0, 0));
    assert_eq!(gamut.xy_to_rgb8(&point(0.3, 0.6)), RGB8::new(0, 236, 0));
    assert_eq!(gamut.xy_to_rgb8(&point(0.3127301, 0.32901987)), RGB8::new(155, 155, 155));
}

#[test]
fn color_is_strict() {
    let gamut = gamut_c();
    let inside = point(0.4, 0.4);
    let outside = point(0.5, 0.5);
    let color = Color::new(inside, gamut).unwrap();
    assert_eq!(color.xy(), inside);
    assert_eq!(color.gamut(), gamut);
    assert_eq!(color.gamut_type(), "C");
    assert_eq!(Color::new(outside, gamut), Err(ColorError::OutOfGamut));
    // The caller restrains first where it wants the point accepted.
    let color = Color::new(gamut.restrain(&outside), gamut).unwrap();
    assert!(gamut.contains(&color.xy()));
    assert_eq!(color.clone(), color);
    // A primary is in gamut.
    assert!(Color::new(gamut.red(), gamut).is_ok());
}

#[test]
fn color_keeps_the_gamut_type() {
    let gamut = gamut_c();
    let color = Color::with_gamut_type(point(0.4, 0.4), gamut, "A".to_owned()).unwrap();
    assert_eq!(color.gamut_type(), "A");
    assert_eq!(
        Color::with_gamut_type(point(0.5, 0.5), gamut, "A".to_owned()),
        Err(ColorError::OutOfGamut)
    );
}

#[test]
fn rgb8_new_keeps_the_channels() {
    let rgb = RGB8::new(1, 2, 3);
    assert_eq!((rgb.r, rgb.g, rgb.b), (1, 2, 3));
}

#[test]
fn from_bits_rounds_to_the_grid() {
    let p = Component::from_bits(0.6915f32.to_bits(), 0.3083f32.to_bits()).unwrap();
    assert_eq!((p.x(), p.y()), (6915000, 3083000));
    let p = Component::from_bits(0.3127301f32.to_bits(), 0.32901987f32.to_bits()).unwrap();
    assert_eq!((p.x(), p.y()), (3127301, 3290199));
    let p = Component::from_bits(1.0f32.to_bits(), 0.5f32.to_bits()).unwrap();
    assert_eq!((p.x(), p.y()), (STEPS_PER_UNIT, STEPS_PER_UNIT / 2));
    // 0.00000005 is half a step and more, as a float a little more: up.
    let p = Component::from_bits(0.00000005f32.to_bits(), 0.00000004f32.to_bits()).unwrap();
    assert_eq!((p.x(), p.y()), (1, 0));
    // 2^-2 + 2^-25 has exactly 2500000.298... steps.
    let p = Component::from_bits(0x3e80_0001, 0x3e80_0000).unwrap();
    assert_eq!((p.x(), p.y()), (2500000, 2500000));
    // 1.5 steps exactly is not a float; 3 * 2^-25 is 0.894 steps.
    let p = Component::from_bits((3.0f32 / 33554432.0).to_bits(), 0).unwrap();
    assert_eq!((p.x(), p.y()), (1, 0));
}

#[test]
fn from_bits_agrees_with_wide_floats() {
    let mut bits: u32 = 0x3000_0000;
    while bits < 0x4300_0000 {
        let x = f32::from_bits(bits);
        // The product has at most 48 significant bits: it is exact.
        let exact = x as f64 * STEPS_PER_UNIT as f64;
        let p = Component::from_bits(bits, 0).unwrap();
        assert_eq!(p.x() as f64, (exact + 0.5).floor(), "{}", x);
        assert_eq!(p.y(), 0);
        bits += 0x0001_2345;
    }
}

#[test]
fn from_bits_zeros_and_tiny_numbers() {
    let zero = Component::new(0, 0).unwrap();
    assert_eq!(Component::from_bits(0.0f32.to_bits(), 0.0f32.to_bits()), Ok(zero));
    assert_eq!(Component::from_bits((-0.0f32).to_bits(), (-0.0f32).to_bits()), Ok(zero));
    assert_eq!(Component::from_bits(f32::MIN_POSITIVE.to_bits(), 1), Ok(zero));
    assert_eq!(Component::from_bits(0x007f_ffff, 0x0080_0000), Ok(zero));
    assert_eq!(Component::from_bits(1e-30f32.to_bits(), 4.9e-8f32.to_bits()), Ok(zero));
}

#[test]
fn from_bits_rejects_what_is_no_coordinate() {
    let bad = Err(ColorError::InvalidComponent);
    let half = 0.5f32.to_bits();
    for x in [
        f32::NAN,
        -f32::NAN,
        f32::INFINITY,
        f32::NEG_INFINITY,
        -0.5,
        -1e-30,
        -f32::MIN_POSITIVE,
        f32::MAX,
        1e10,
        8388608.0,
        16777216.0,
        215.0,
        214.74837,
    ] {
        assert_eq!(Component::from_bits(x.to_bits(), half), bad, "{}", x);
        assert_eq!(Component::from_bits(half, x.to_bits()), bad, "{}", x);
    }
    // A NaN with a payload, and the smallest negative number.
    assert_eq!(Component::from_bits(0x7f80_0001, half), bad);
    assert_eq!(Component::from_bits(0xffff_ffff, half), bad);
    assert_eq!(Component::from_bits(0x8000_0001, half), bad);
}

#[test]
fn from_bits_up_to_the_end_of_the_grid() {
    // The largest float below 214.7483648.
    let p = Component::from_bits(214.74835f32.to_bits(), 214.0f32.to_bits()).unwrap();
    assert_eq!((p.x(), p.y()), (2147483521, 2140000000));
    assert!(Component::from_bits(214.74837f32.to_bits(), 0).is_err());
}

#[test]
fn to_bits_gives_the_nearest_float() {
    let p = Component::new(6915000, 3083000).unwrap();
    assert_eq!(p.to_bits(), (0.6915f32.to_bits(), 0.3083f32.to_bits()));
    let p = Component::new(0, STEPS_PER_UNIT).unwrap();
    assert_eq!(p.to_bits(), (0.0f32.to_bits(), 1.0f32.to_bits()));
    let p = Component::new(1, 5_000_000).unwrap();
    assert_eq!(p.to_bits(), (1e-7f32.to_bits(), 0.5f32.to_bits()));
    let p = Component::new(i32::MAX, 20_000_000).unwrap();
    assert_eq!(p.to_bits(), (214.74837f32.to_bits(), 2.0f32.to_bits()));
    // No other float is nearer.
    let mut n: i64 = 1;
    while n <= i32::MAX as i64 {
        let (bits, _) = Component::new(n as i32, 0).unwrap().to_bits();
        // All three are exact: a float times 10^7 has at most 48 bits.
        let miss = |bits: u32| (f32::from_bits(bits) as f64 * 1e7 - n as f64).abs();
        assert!(miss(bits) <= miss(bits - 1), "{}", n);
        assert!(miss(bits) <= miss(bits + 1), "{}", n);
        if miss(bits) == miss(bits - 1) || miss(bits) == miss(bits + 1) {
            assert_eq!(bits % 2, 0, "{}", n);
        }
        n += n / 7 + 1;
    }
}

#[test]
fn coordinates_up_to_one_survive_as_floats() {
    let mut n: i32 = 0;
    while n <= STEPS_PER_UNIT {
        let p = Component::new(n, STEPS_PER_UNIT - n).unwrap();
        let (x, y) = p.to_bits();
        assert_eq!(Component::from_bits(x, y), Ok(p));
        n += 1 + n / 1000;
    }
    for n in [0, 1, 2, 3, 9_999_999, 10_000_000, 8_388_608, 4_194_304, 5_000_000] {
        let p = Component::new(n, n).unwrap();
        let (x, y) = p.to_bits();
        assert_eq!(Component::from_bits(x, y), Ok(p));
    }
    // Beyond 1.0 floats are wider apart than steps.
    let p = Component::new(10_000_003, 0).unwrap();
    let (x, _) = p.to_bits();
    assert_eq!(x, 0x3f80_0003);
    assert_eq!(Component::from_bits(x, 0).unwrap().x(), 10_000_004);
}

#[test]
fn steps_to_bits_takes_every_number_of_steps() {
    assert_eq!(steps_to_bits(0), 0);
    assert_eq!(steps_to_bits(10_000_000), 1.0f32.to_bits());
    assert_eq!(steps_to_bits(u32::MAX), 429.49673f32.to_bits());
    assert_eq!(steps_to_bits(2_147_483_648), 214.74837f32.to_bits());
    assert_eq!(steps_from_bits(0.25f32.to_bits()), Some(2_500_000));
    assert_eq!(steps_from_bits(f32::NAN.to_bits()), None);
    assert_eq!(steps_from_bits(steps_to_bits(1234567)), Some(1234567));
}

/// The distance from `p` to the nearest point of the segment from `a` to `b`,
/// in steps.
fn distance_to_segment(p: &Component, a: &Component, b: &Component) -> f64 {
    let (px, py) = (p.x() as f64, p.y() as f64);
    let (ax, ay) = (a.x() as f64, a.y() as f64);
    let (bx, by) = (b.x() as f64, b.y() as f64);
    let t = ((px - ax) * (bx - ax) + (py - ay) * (by - ay))
        / ((bx - ax) * (bx - ax) + (by - ay) * (by - ay));
    let t = t.max(0.0).min(1.0);
    let (fx, fy) = (ax + t * (bx - ax), ay + t * (by - ay));
    ((px - fx) * (px - fx) + (py - fy) * (py - fy)).sqrt()
}

#[test]
fn restrain_is_within_a_step_of_the_boundary() {
    let gamut = gamut_c();
    let (red, green, blue) = (gamut.red(), gamut.green(), gamut.blue());
    let mut x: i32 = 0;
    while x <= STEPS_PER_UNIT {
        let mut y: i32 = 0;
        while y <= STEPS_PER_UNIT {
            let p = Component::new(x, y).unwrap();
            if !gamut.contains(&p) {
                let r = gamut.restrain(&p);
                let nearest = distance_to_segment(&p, &red, &green)
                    .min(distance_to_segment(&p, &green, &blue))
                    .min(distance_to_segment(&p, &blue, &red));
                let got = (r.distance2(&p) as f64).sqrt();
                // No point of the gamut is nearer than its boundary, and what is
                // given is at most the diagonal of a cell farther.
                assert!(got >= nearest - 1e-6, "{:?}: {} and {}", p, got, nearest);
                assert!(got <= nearest + 1.4143, "{:?}: {} and {}", p, got, nearest);
            }
            y += 142_857;
        }
        x += 90_909;
    }
}
