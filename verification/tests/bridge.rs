use huehue::bridge::{address_text, bytes_le, url_of, url_text_of, Bridge, Model, VERSION_MIN};
use huehue::models::Config;

fn config(modelid: &str, swversion: &str) -> Config {
    Config {
        name: "Philips hue".to_owned(),
        datastoreversion: "126".to_owned(),
        swversion: swversion.to_owned(),
        apiversion: "1.50.0".to_owned(),
        mac: "00:17:88:00:00:00".to_owned(),
        bridgeid: "001788FFFE000000".to_owned(),
        factorynew: false,
        replacesbridgeid: None,
        modelid: modelid.to_owned(),
        starterkitid: None,
    }
}

#[test]
fn model_from_identifier() {
    assert_eq!(Model::from(&"BSB001".to_owned()), Model::BSB001);
    assert_eq!(Model::from(&"BSB002".to_owned()), Model::BSB002);
    assert_eq!(Model::from(&"BSB003".to_owned()), Model::Unknown);
    assert_eq!(Model::from(&"bsb001".to_owned()), Model::Unknown);
    assert_eq!(Model::from(&"".to_owned()), Model::Unknown);
    assert_eq!(Model::from(&"BSB0011".to_owned()), Model::Unknown);
}

#[test]
fn bridge_from_config() {
    let bridge = Bridge::from(([192, 168, 1, 2], config("BSB002", "1950207110")));
    assert_eq!(bridge.id, "001788FFFE000000");
    assert_eq!(bridge.model, Model::BSB002);
    assert_eq!(bridge.version, "1950207110");
    assert_eq!(bridge.address, [192, 168, 1, 2]);
    assert!(bridge.supported);
}

#[test]
fn bridge_supported_from_the_minimum_version_on() {
    assert_eq!(VERSION_MIN, "1948086000");
    for (version, supported) in [
        ("1948086000", true),
        ("1948085999", false),
        ("1948086001", true),
        ("19480860000", true),
        ("194808600", false),
        ("2", true),
        ("1", false),
        ("", false),
        ("1948086000a", true),
        ("0948086000", false),
    ] {
        let bridge = Bridge::from(([10, 0, 0, 1], config("BSB001", version)));
        assert_eq!(bridge.supported, supported, "{:?}", version);
        assert_eq!(bridge.supported, version >= VERSION_MIN, "{:?}", version);
    }
}

#[test]
fn bytes_le_is_the_order_of_a_dictionary() {
    let words: [&[u8]; 8] = [b"", b"a", b"aa", b"ab", b"b", b"ba", b"\xff", b"\xff\x00"];
    for a in words {
        for b in words {
            assert_eq!(bytes_le(a, b), a <= b, "{:?} {:?}", a, b);
        }
    }
}

#[test]
fn url_of_an_address() {
    assert_eq!(address_text([10, 0, 200, 7]), "10.0.200.7");
    assert_eq!(url_text_of([10, 0, 200, 7], "api/0/config"), "https://10.0.200.7/api/0/config");
    let url = url_of([10, 0, 200, 7], "api/0/config").unwrap();
    assert_eq!(url.as_str(), "https://10.0.200.7/api/0/config");
    assert_eq!(url.host_str(), Some("10.0.200.7"));
    assert_eq!(url.port_or_known_default(), Some(443));
    // What the path holds is written as a URL writes it.
    let url = url_of([10, 0, 200, 7], "a b?c=d e").unwrap();
    assert_eq!(url.path(), "/a%20b");
    assert_eq!(url.query(), Some("c=d%20e"));
}
