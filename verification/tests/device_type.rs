use huehue::models::create_user::CreateUserRequest;
use huehue::models::device_type::{DeviceType, Error};

#[test]
fn new() {
    assert!(DeviceType::new("some".to_owned(), "thing".to_owned()).is_ok());
    assert!(DeviceType::new("123_some".to_owned(), "thing_345".to_owned()).is_ok());

    assert!(DeviceType::new("some".to_owned(), "".to_owned()).is_err());
    assert!(DeviceType::new("".to_owned(), "thing".to_owned()).is_err());
}

#[test]
fn to_string() {
    let dt = DeviceType::new("some".to_owned(), "thing".to_owned());
    assert!(dt.is_ok());
    assert_eq!(dt.unwrap().to_string().as_str(), "some#thing");
}

#[test]
fn new_says_which_name_is_wrong() {
    assert_eq!(
        DeviceType::new("".to_owned(), "thing".to_owned()),
        Err(Error::ApplicationName)
    );
    assert_eq!(DeviceType::new("some".to_owned(), "".to_owned()), Err(Error::DeviceName));
    // The application name is judged first.
    assert_eq!(DeviceType::new("".to_owned(), "".to_owned()), Err(Error::ApplicationName));
    assert_eq!(
        DeviceType::new("so me".to_owned(), "thing".to_owned()),
        Err(Error::ApplicationName)
    );
    assert_eq!(
        DeviceType::new("some".to_owned(), "th#ing".to_owned()),
        Err(Error::DeviceName)
    );
    assert_eq!(
        DeviceType::new("some".to_owned(), "thing\n".to_owned()),
        Err(Error::DeviceName)
    );
}

#[test]
fn new_counts_characters() {
    let twenty = "a".repeat(20);
    let nineteen = "b".repeat(19);
    let dt = DeviceType::new(twenty.clone(), nineteen.clone()).unwrap();
    assert_eq!(dt.application_name, twenty);
    assert_eq!(dt.device_name, nineteen);
    assert_eq!(
        DeviceType::new("a".repeat(21), nineteen.clone()),
        Err(Error::ApplicationName)
    );
    assert_eq!(DeviceType::new(twenty.clone(), "b".repeat(20)), Err(Error::DeviceName));
    // A word character is counted once, whatever its length in bytes.
    assert!(DeviceType::new("é".repeat(20), "ß".repeat(19)).is_ok());
}

#[test]
fn checked_goes_by_what_it_is_told() {
    let made = DeviceType::checked("a".to_owned(), "b".to_owned(), true, true).unwrap();
    assert_eq!((made.application_name.as_str(), made.device_name.as_str()), ("a", "b"));
    assert_eq!(
        DeviceType::checked("a".to_owned(), "b".to_owned(), false, true),
        Err(Error::ApplicationName)
    );
    assert_eq!(
        DeviceType::checked("a".to_owned(), "b".to_owned(), false, false),
        Err(Error::ApplicationName)
    );
    assert_eq!(
        DeviceType::checked("a".to_owned(), "b".to_owned(), true, false),
        Err(Error::DeviceName)
    );
}

#[test]
fn create_user_request_carries_the_device_type() {
    let dt = DeviceType::new("my_app".to_owned(), "my_device".to_owned()).unwrap();
    assert_eq!(CreateUserRequest::new(dt).devicetype, "my_app#my_device");
}

#[test]
fn from_str_splits_at_the_hash() {
    let dt = DeviceType::from_str("my_app#my_device").unwrap();
    assert_eq!(dt.application_name, "my_app");
    assert_eq!(dt.device_name, "my_device");
    assert_eq!(DeviceType::from_str(&dt.to_string()), Ok(dt));
}

#[test]
fn from_str_refuses_what_is_no_device_type() {
    for text in ["", "#", "app", "app#", "#device", "a#b#c", "a b#c", "app#device\n"] {
        assert_eq!(DeviceType::from_str(text), Err(Error::Invalid), "{:?}", text);
    }
    assert_eq!(
        DeviceType::from_str(&format!("{}#device", "a".repeat(21))),
        Err(Error::Invalid)
    );
    assert_eq!(DeviceType::from_str(&format!("app#{}", "b".repeat(20))), Err(Error::Invalid));
    assert!(DeviceType::from_str(&format!("{}#{}", "a".repeat(20), "b".repeat(19))).is_ok());
}

#[test]
fn names_are_the_second_and_third_group() {
    let groups = vec![Some("a#b".to_owned()), Some("a".to_owned()), Some("b".to_owned())];
    assert_eq!(DeviceType::names(Some(groups)), Some(("a".to_owned(), "b".to_owned())));
    assert_eq!(DeviceType::names(None), None);
    assert_eq!(DeviceType::names(Some(vec![])), None);
    assert_eq!(DeviceType::names(Some(vec![Some("a".to_owned()), Some("a".to_owned())])), None);
    assert_eq!(
        DeviceType::names(Some(vec![Some("a#b".to_owned()), None, Some("b".to_owned())])),
        None
    );
    assert_eq!(
        DeviceType::names(Some(vec![Some("a#b".to_owned()), Some("a".to_owned()), None])),
        None
    );
    assert_eq!(
        DeviceType::names(Some(vec![
            Some("a#b".to_owned()),
            Some("a".to_owned()),
            Some("b".to_owned()),
            Some("c".to_owned()),
        ])),
        None
    );
}
