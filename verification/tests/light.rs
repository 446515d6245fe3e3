use huehue::color::{Color, Component, Gamut, RGB8};
use huehue::http::HueError;
use huehue::hue::Hue;
use huehue::light::{Light, Request};
use huehue::models::device_type::DeviceType;
use huehue::models::lights::{LightOnRequest, LightSetColorRequest};
use huehue::models::Config;

fn point(x: f32, y: f32) -> Component {
    Component::from_bits(x.to_bits(), y.to_bits()).unwrap()
}

fn gamut_c() -> Gamut {
    Gamut::new(point(0.6915, 0.3083), point(0.17, 0.7), point(0.1532, 0.0475)).unwrap()
}

fn light(color: bool, dimmable: bool) -> Light {
    Light {
        id: 0xa1a2a3a4_b1b2_c1c2_d1d2_d3d4d5d6d7d8,
        name: "desk".to_owned(),
        on: false,
        brightness: if dimmable { Some(50.0f32.to_bits()) } else { None },
        color: if color { Some(Color::new(point(0.4, 0.4), gamut_c()).unwrap()) } else { None },
        temperature: None,
    }
}

#[test]
fn path_names_the_light_by_its_uuid() {
    assert_eq!(
        light(true, true).path(),
        "clip/v2/resource/light/a1a2a3a4-b1b2-c1c2-d1d2-d3d4d5d6d7d8"
    );
    let mut first = light(false, false);
    first.id = 1;
    assert_eq!(first.path(), "clip/v2/resource/light/00000000-0000-0000-0000-000000000001");
}

#[test]
fn switch_is_asked_and_confirmed() {
    let mut light = light(true, true);
    let before = light.clone();
    let request = light.switch(true);
    assert_eq!(request, Request::On(LightOnRequest::new(true)));
    // Asking changes nothing.
    assert_eq!(light, before);
    light.confirm(request);
    assert!(light.on);
    assert_eq!(light.color, before.color);
    assert_eq!(light.brightness, before.brightness);
    light.confirm(Request::On(LightOnRequest::new(false)));
    assert!(!light.on);
}

#[test]
fn colour_needs_a_light_with_colours() {
    let plain = light(false, true);
    assert_eq!(plain.set_color(point(0.3, 0.3)), Err(HueError::Unsupported));
    assert_eq!(
        plain.set_color_rgb(RGB8::new(255, 0, 0)),
        Err(HueError::Unsupported)
    );
    // A switch and a brightness are still taken.
    assert!(plain.switch(true) == Request::On(LightOnRequest::new(true)));
    assert!(plain.dimm(10.0f32.to_bits()).is_ok());
}

#[test]
fn colour_is_asked_as_given_and_kept_in_gamut() {
    let mut light = light(true, true);
    let outside = point(0.15, 0.06);
    let request = light.set_color(outside).unwrap();
    assert_eq!(request, Request::Color(LightSetColorRequest::new(outside)));
    light.confirm(request);
    let color = light.color.clone().unwrap();
    assert_eq!(color.xy(), Component::new(1535196, 599094).unwrap());
    assert_eq!(color.gamut(), gamut_c());
    assert_eq!(color.gamut_type(), "C");
    assert!(!light.on);
    assert_eq!(light.brightness, Some(50.0f32.to_bits()));

    let inside = point(0.3, 0.3);
    let request = light.set_color(inside).unwrap();
    light.confirm(request);
    assert_eq!(light.color.clone().unwrap().xy(), inside);
}

#[test]
fn rgb_is_asked_by_its_chromaticity() {
    let mut light = light(true, false);
    let request = light.set_color_rgb(RGB8::new(0, 0, 255)).unwrap();
    let blue = Component::new(1535196, 599094).unwrap();
    assert_eq!(request, Request::Color(LightSetColorRequest::new(blue)));
    light.confirm(request);
    assert_eq!(light.color.clone().unwrap().xy(), blue);
    let request = light.set_color_rgb(RGB8::new(0, 255, 0)).unwrap();
    assert_eq!(
        request,
        Request::Color(LightSetColorRequest::new(Component::new(3000000, 6000000).unwrap()))
    );
}

#[test]
fn confirming_a_colour_on_a_light_without_colours_changes_nothing() {
    let mut plain = light(false, true);
    let before = plain.clone();
    plain.confirm(Request::Color(LightSetColorRequest::new(point(0.3, 0.3))));
    assert_eq!(plain, before);
}

#[test]
fn brightness_needs_a_light_that_can_be_dimmed() {
    let fixed = light(true, false);
    assert_eq!(fixed.dimm(10.0f32.to_bits()), Err(HueError::Unsupported));
    let mut fixed = fixed;
    let before = fixed.clone();
    fixed.confirm(Request::Brightness(10.0f32.to_bits()));
    assert_eq!(fixed, before);

    let mut light = light(true, true);
    let request = light.dimm(120.0f32.to_bits()).unwrap();
    assert_eq!(request, Request::Brightness(120.0f32.to_bits()));
    light.confirm(request);
    // The light keeps what was asked for, as it was asked.
    assert_eq!(light.brightness, Some(120.0f32.to_bits()));
    assert!(light.color.is_some());
}

fn session(address: [u8; 4]) -> Hue {
    let config = Config {
        name: "Philips hue".to_owned(),
        datastoreversion: "126".to_owned(),
        swversion: "1950207110".to_owned(),
        apiversion: "1.50.0".to_owned(),
        mac: "00:17:88:00:00:00".to_owned(),
        bridgeid: "001788FFFE000000".to_owned(),
        factorynew: false,
        replacesbridgeid: None,
        modelid: "BSB002".to_owned(),
        starterkitid: None,
    };
    let device_type = DeviceType::new("my_app".to_owned(), "my_device".to_owned()).unwrap();
    Hue::new(address, Some(config), device_type).unwrap()
}

#[test]
fn url_text_writes_the_address_in_decimal() {
    assert_eq!(session([192, 168, 1, 2]).bridge().url_text("api"), "https://192.168.1.2/api");
    assert_eq!(session([0, 0, 0, 0]).bridge().url_text(""), "https://0.0.0.0/");
    assert_eq!(
        session([255, 100, 99, 10]).bridge().url_text("clip/v2/resource/light"),
        "https://255.100.99.10/clip/v2/resource/light"
    );
    let mut bridge = session([9, 10, 109, 200]).bridge().clone();
    assert_eq!(bridge.address_text(), "9.10.109.200");
    for n in 0..=255u8 {
        bridge.address = [n, 255 - n, n / 2, n];
        assert_eq!(bridge.address_text(), format!("{}.{}.{}.{}", n, 255 - n, n / 2, n));
    }
}

#[test]
fn url_is_what_the_text_parses_to() {
    let hue = session([192, 168, 1, 2]);
    let url = hue.url("clip/v2/resource/light").unwrap();
    assert_eq!(url.as_str(), "https://192.168.1.2/clip/v2/resource/light");
    assert_eq!(url.scheme(), "https");
    assert_eq!(url.host_str(), Some("192.168.1.2"));
    assert_eq!(url.path(), "/clip/v2/resource/light");
    assert_eq!(hue.bridge().url("api").unwrap().as_str(), "https://192.168.1.2/api");
    let url = hue.url(light(true, true).path().as_str()).unwrap();
    assert_eq!(url.path(), "/clip/v2/resource/light/a1a2a3a4-b1b2-c1c2-d1d2-d3d4d5d6d7d8");
}
