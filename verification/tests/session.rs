use huehue::client::Client;
use huehue::device::Device;
use huehue::http::{Failure, HueError};
use huehue::hue::Hue;
use huehue::light::Light;
use huehue::models::create_user::{CreateUserResponseItem, CreateUserResponseItemSub};
use huehue::models::device_type::DeviceType;
use huehue::models::error::ErrorCode;
use huehue::models::devices::{GetDevicesResponse, GetDevicesResponseItem};
use huehue::models::generic::{GenericIdentifier, Metadata, ProductData};
use huehue::models::lights::{
    Dimming, GetLightsResponse, GetLightsResponseItem, LightOnRequest, LightSetColorRequest, On,
};
use huehue::models::{Config, Error};

fn config() -> Config {
    Config {
        name: "Philips hue".to_owned(),
        datastoreversion: "126".to_owned(),
        swversion: "1950207110".to_owned(),
        apiversion: "1.50.0".to_owned(),
        mac: "00:17:88:00:00:00".to_owned(),
        bridgeid: "001788FFFE000000".to_owned(),
        factorynew: false,
        replacesbridgeid: None,
        modelid: "BSB002".to_owned(),
        starterkitid: None,
    }
}

fn device_type() -> DeviceType {
    DeviceType::new("my_app".to_owned(), "my_device".to_owned()).unwrap()
}

fn session() -> Hue {
    Hue::new([192, 168, 1, 2], Some(config()), device_type()).unwrap()
}

fn error(code: ErrorCode) -> Error {
    Error { error_type: code, address: "".to_owned(), description: "".to_owned() }
}

fn granted(key: &str) -> CreateUserResponseItem {
    CreateUserResponseItem {
        success: Some(CreateUserResponseItemSub { username: key.to_owned() }),
        error: None,
    }
}

fn refused(code: ErrorCode) -> CreateUserResponseItem {
    CreateUserResponseItem { success: None, error: Some(error(code)) }
}

const NO_STATUS: Failure = Failure { status: None, connect: false, decode: false };

#[test]
fn error_code_numbers() {
    let all = [
        (ErrorCode::Unauthorized, 1),
        (ErrorCode::InvalidJson, 2),
        (ErrorCode::ResourceNotAvailable, 3),
        (ErrorCode::ResourceMethodNotAvailable, 4),
        (ErrorCode::ParameterMissing, 5),
        (ErrorCode::ParameterNotAvailable, 6),
        (ErrorCode::ParameterValue, 7),
        (ErrorCode::ParameterNotModifiable, 8),
        (ErrorCode::TooManyItems, 11),
        (ErrorCode::PortalConnectionRequired, 12),
        (ErrorCode::InternalError, 901),
        (ErrorCode::LinkButtonNotPressed, 101),
    ];
    for (kind, number) in all {
        assert_eq!(kind.code(), number);
        assert_eq!(ErrorCode::from_code(number), Some(kind));
    }
    for number in [0, 9, 10, 13, 100, 102, 900, 902, u32::MAX] {
        assert_eq!(ErrorCode::from_code(number), None);
    }
}

#[test]
fn hue_error_from_error_code() {
    assert_eq!(HueError::from(ErrorCode::Unauthorized), HueError::Unauthorized);
    assert_eq!(HueError::from(ErrorCode::LinkButtonNotPressed), HueError::Unauthorized);
    for code in [
        ErrorCode::InvalidJson,
        ErrorCode::ResourceNotAvailable,
        ErrorCode::ResourceMethodNotAvailable,
        ErrorCode::ParameterMissing,
        ErrorCode::ParameterNotAvailable,
        ErrorCode::ParameterValue,
        ErrorCode::ParameterNotModifiable,
        ErrorCode::TooManyItems,
        ErrorCode::PortalConnectionRequired,
        ErrorCode::InternalError,
    ] {
        assert_eq!(HueError::from(code), HueError::Unknown);
    }
}

#[test]
fn hue_error_from_failure() {
    let status = |status: u16| Failure { status: Some(status), connect: true, decode: true };
    assert_eq!(HueError::from(status(401)), HueError::Unauthorized);
    assert_eq!(HueError::from(status(403)), HueError::Unknown);
    assert_eq!(HueError::from(status(500)), HueError::Unknown);
    assert_eq!(
        HueError::from(Failure { status: None, connect: true, decode: true }),
        HueError::Connection
    );
    assert_eq!(
        HueError::from(Failure { status: None, connect: true, decode: false }),
        HueError::Connection
    );
    assert_eq!(
        HueError::from(Failure { status: None, connect: false, decode: true }),
        HueError::Response
    );
    assert_eq!(HueError::from(NO_STATUS), HueError::Unknown);
}

#[test]
fn session_needs_the_configuration() {
    assert_eq!(
        Hue::new([192, 168, 1, 2], None, device_type()).unwrap_err(),
        HueError::Connection
    );
    assert_eq!(
        Hue::new_with_key([192, 168, 1, 2], None, device_type(), "key".to_owned()).unwrap_err(),
        HueError::Connection
    );
    let hue = session();
    assert_eq!(hue.application_key(), None);
    assert_eq!(hue.bridge().address, [192, 168, 1, 2]);
    assert_eq!(hue.bridge().id, "001788FFFE000000");
    assert!(hue.bridge().supported);
    assert_eq!(hue.device_type(), &device_type());
    let hue =
        Hue::new_with_key([192, 168, 1, 2], Some(config()), device_type(), "key".to_owned())
            .unwrap();
    assert_eq!(hue.application_key(), Some("key".to_owned()));
}

#[test]
fn check_authorization_wants_a_key() {
    assert_eq!(session().check_authorization(), Err(HueError::AlreadyAuthorized));
    let hue =
        Hue::new_with_key([192, 168, 1, 2], Some(config()), device_type(), "key".to_owned())
            .unwrap();
    assert_eq!(hue.check_authorization(), Ok(()));
}

#[test]
fn authorize_takes_the_key() {
    let mut hue = session();
    assert_eq!(hue.authorize_request().unwrap().devicetype, "my_app#my_device");
    assert_eq!(hue.authorize(Ok(vec![granted("secret")])), Ok(()));
    assert_eq!(hue.application_key(), Some("secret".to_owned()));
    // Once authorized, neither step is taken again.
    assert_eq!(hue.authorize_request(), Err(HueError::AlreadyAuthorized));
    assert_eq!(hue.authorize(Ok(vec![granted("other")])), Err(HueError::AlreadyAuthorized));
    assert_eq!(hue.application_key(), Some("secret".to_owned()));
}

#[test]
fn authorize_success_goes_before_error() {
    let mut hue = session();
    let both = CreateUserResponseItem {
        success: Some(CreateUserResponseItemSub { username: "secret".to_owned() }),
        error: Some(error(ErrorCode::InternalError)),
    };
    assert_eq!(hue.authorize(Ok(vec![both])), Ok(()));
    assert_eq!(hue.application_key(), Some("secret".to_owned()));
}

#[test]
fn authorize_link_button_not_pressed_is_unauthorized() {
    let mut hue = session();
    assert_eq!(
        hue.authorize(Ok(vec![refused(ErrorCode::LinkButtonNotPressed)])),
        Err(HueError::Unauthorized)
    );
    assert_eq!(hue.application_key(), None);
    // The session can try again.
    assert!(hue.authorize_request().is_ok());
    assert_eq!(hue.authorize(Ok(vec![granted("secret")])), Ok(()));
}

#[test]
fn authorize_refuses_other_answers() {
    let cases: Vec<(Result<Vec<CreateUserResponseItem>, Failure>, HueError)> = vec![
        (Ok(vec![]), HueError::Unexpected),
        (Ok(vec![granted("a"), granted("b")]), HueError::Unexpected),
        (Ok(vec![refused(ErrorCode::Unauthorized)]), HueError::Unauthorized),
        (Ok(vec![refused(ErrorCode::InternalError)]), HueError::Unknown),
        (Ok(vec![CreateUserResponseItem { success: None, error: None }]), HueError::Unknown),
        (Err(Failure { status: Some(401), connect: false, decode: false }), HueError::Unauthorized),
        (Err(Failure { status: None, connect: true, decode: false }), HueError::Connection),
        (Err(Failure { status: None, connect: false, decode: true }), HueError::Response),
        (Err(NO_STATUS), HueError::Unknown),
    ];
    for (answer, expected) in cases {
        let mut hue = session();
        assert_eq!(hue.authorize(answer), Err(expected));
        assert_eq!(hue.application_key(), None);
    }
}

fn authorized() -> Hue {
    Hue::new_with_key([192, 168, 1, 2], Some(config()), device_type(), "key".to_owned()).unwrap()
}

fn light_item(name: &str, dimming: Option<(f32, f32)>) -> GetLightsResponseItem {
    GetLightsResponseItem {
        resource_type: "light".to_owned(),
        id: 7,
        metadata: Metadata { archetype: "sultan_bulb".to_owned(), name: name.to_owned() },
        dimming: dimming.map(|(brightness, min_dim_level)| Dimming {
            brightness: brightness.to_bits(),
            min_dim_level: min_dim_level.to_bits(),
        }),
        on: On { on: true },
        color: None,
        color_temperature: None,
    }
}

fn lights_answer(
    data: Option<Vec<GetLightsResponseItem>>,
    error: Option<Error>,
) -> Result<GetLightsResponse, Failure> {
    Ok(GetLightsResponse { data, error })
}

fn device_item(name: &str) -> GetDevicesResponseItem {
    GetDevicesResponseItem {
        id: 9,
        metadata: Metadata { archetype: "bridge_v2".to_owned(), name: name.to_owned() },
        product_data: ProductData {
            certified: true,
            model_id: "BSB002".to_owned(),
            manufacturer_name: "Signify".to_owned(),
            product_archetype: "bridge_v2".to_owned(),
            product_name: "Bridge".to_owned(),
            software_version: "1.50".to_owned(),
        },
        services: vec![
            GenericIdentifier { rid: 2, rtype: "bridge".to_owned() },
            GenericIdentifier { rid: 1, rtype: "zigbee".to_owned() },
        ],
        device_type: "device".to_owned(),
    }
}

#[test]
fn lights_data_go_before_error() {
    let hue = authorized();
    let items = vec![light_item("desk", Some((50.0, 2.0))), light_item("door", None)];
    let lights = hue.lights(lights_answer(Some(items.clone()), None)).unwrap();
    assert_eq!(lights.len(), 2);
    assert_eq!(lights[0].name, "desk");
    assert_eq!(lights[0].id, 7);
    assert!(lights[0].on);
    assert_eq!(lights[0].brightness, Some(50.0f32.to_bits()));
    assert_eq!(lights[0].color, None);
    assert_eq!(lights[1].name, "door");
    assert_eq!(lights[1].brightness, None);
    assert_eq!(lights, items.iter().cloned().map(Light::new).collect::<Vec<_>>());
    assert_eq!(
        hue.lights(lights_answer(Some(items), Some(error(ErrorCode::InternalError)))).unwrap().len(),
        2
    );
    assert_eq!(hue.lights(lights_answer(Some(vec![]), None)), Ok(vec![]));
    assert_eq!(
        hue.lights(lights_answer(None, Some(error(ErrorCode::Unauthorized)))),
        Err(HueError::Unauthorized)
    );
    assert_eq!(
        hue.lights(lights_answer(None, Some(error(ErrorCode::ParameterValue)))),
        Err(HueError::Unknown)
    );
    assert_eq!(hue.lights(lights_answer(None, None)), Err(HueError::Unknown));
    assert_eq!(
        hue.lights(Err(Failure { status: None, connect: true, decode: false })),
        Err(HueError::Connection)
    );
}

#[test]
fn devices_are_taken_as_lights_are() {
    let hue = authorized();
    let items = vec![device_item("bridge"), device_item("plug")];
    let devices =
        hue.devices(Ok(GetDevicesResponse { data: Some(items.clone()), error: None })).unwrap();
    assert_eq!(devices.len(), 2);
    assert_eq!(devices[0].name, "bridge");
    assert_eq!(devices[1].name, "plug");
    assert_eq!(devices[0].id, 9);
    assert_eq!(devices[0].product, items[0].product_data);
    assert_eq!(devices[0].services, items[0].services);
    assert_eq!(devices[1], Device::new(items[1].clone()));
    assert_eq!(
        hue.devices(Ok(GetDevicesResponse {
            data: None,
            error: Some(error(ErrorCode::LinkButtonNotPressed))
        })),
        Err(HueError::Unauthorized)
    );
    assert_eq!(
        hue.devices(Ok(GetDevicesResponse { data: None, error: None })),
        Err(HueError::Unknown)
    );
    assert_eq!(hue.devices(Err(NO_STATUS)), Err(HueError::Unknown));
}

#[test]
fn resources_need_a_key() {
    let hue = session();
    assert_eq!(
        hue.lights(lights_answer(Some(vec![light_item("desk", None)]), None)),
        Err(HueError::AlreadyAuthorized)
    );
    assert_eq!(
        hue.devices(Ok(GetDevicesResponse { data: Some(vec![device_item("plug")]), error: None })),
        Err(HueError::AlreadyAuthorized)
    );
}

#[test]
fn grant_and_deliver_decide_alone() {
    assert_eq!(huehue::hue::grant(Ok(vec![granted("secret")])), Ok("secret".to_owned()));
    assert_eq!(huehue::hue::grant(Ok(vec![])), Err(HueError::Unexpected));
    assert_eq!(
        huehue::hue::grant(Ok(vec![refused(ErrorCode::LinkButtonNotPressed)])),
        Err(HueError::Unauthorized)
    );
    assert_eq!(huehue::hue::deliver(Ok((Some(vec![7]), None))), Ok(vec![7]));
    assert_eq!(huehue::hue::deliver::<u8>(Ok((None, None))), Err(HueError::Unknown));
}

#[test]
fn client_takes_a_known_bridge() {
    let bridge = session().bridge().clone();
    let mut client = Client::new(bridge.clone(), device_type());
    assert_eq!(client.bridge(), &bridge);
    assert_eq!(client.device_type(), &device_type());
    assert_eq!(client.application_key(), None);
    assert_eq!(client.check_authorization(), Err(HueError::AlreadyAuthorized));
    assert_eq!(
        client.lights(lights_answer(Some(vec![light_item("desk", None)]), None)),
        Err(HueError::AlreadyAuthorized)
    );
    assert_eq!(client.authorize_request().unwrap().devicetype, "my_app#my_device");
    assert_eq!(
        client.authorize(Ok(vec![refused(ErrorCode::LinkButtonNotPressed)])),
        Err(HueError::Unauthorized)
    );
    assert_eq!(client.application_key(), None);
    assert_eq!(client.authorize(Ok(vec![granted("secret")])), Ok(()));
    assert_eq!(client.application_key(), Some("secret".to_owned()));
    assert_eq!(client.check_authorization(), Ok(()));
    assert_eq!(client.authorize_request(), Err(HueError::AlreadyAuthorized));
    assert_eq!(client.authorize(Ok(vec![granted("other")])), Err(HueError::AlreadyAuthorized));
    let lights = client.lights(lights_answer(Some(vec![light_item("desk", None)]), None));
    assert_eq!(lights, Ok(vec![Light::new(light_item("desk", None))]));
    assert_eq!(
        client.lights(lights_answer(None, Some(error(ErrorCode::Unauthorized)))),
        Err(HueError::Unauthorized)
    );

    let client = Client::new_with_key(bridge, device_type(), "key".to_owned());
    assert_eq!(client.application_key(), Some("key".to_owned()));
    assert_eq!(client.lights(lights_answer(None, None)), Err(HueError::Unknown));
}

#[test]
fn light_requests() {
    assert!(LightOnRequest::new(true).on.on);
    assert!(!LightOnRequest::new(false).on.on);
    let xy = huehue::color::Component::new(3127266, 3290232).unwrap();
    assert_eq!(LightSetColorRequest::new(xy).color.xy, xy);
}
