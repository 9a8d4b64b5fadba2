use keylogger::discovery::{
    get_default_device, get_keyboard_device_filenames, is_whitespace, DeviceError,
};

#[test]
fn single_detected_device_is_the_default() {
    let picked = get_default_device(vec!["/dev/input/event3".to_string()]);
    assert!(matches!(picked, Ok(ref name) if name == "/dev/input/event3"));
}

#[test]
fn no_detected_device_is_an_error() {
    assert!(matches!(get_default_device(Vec::new()), Err(DeviceError::NoneDetected)));
}

#[test]
fn several_detected_devices_are_an_error() {
    let names = vec!["/dev/input/event3".to_string(), "/dev/input/event7".to_string()];
    match get_default_device(names.clone()) {
        Err(DeviceError::Ambiguous(found)) => assert_eq!(found, names),
        _ => panic!("two devices must not be picked from"),
    }
    let names = vec!["a".to_string(), "b".to_string(), "c".to_string()];
    match get_default_device(names.clone()) {
        Err(DeviceError::Ambiguous(found)) => assert_eq!(found, names),
        _ => panic!("three devices must not be picked from"),
    }
}

#[test]
fn listing_of_one_device() {
    assert_eq!(get_keyboard_device_filenames("event3\n"), vec!["/dev/input/event3"]);
    assert_eq!(get_keyboard_device_filenames("event3"), vec!["/dev/input/event3"]);
    assert_eq!(get_keyboard_device_filenames("e"), vec!["/dev/input/e"]);
}

#[test]
fn listing_of_several_devices() {
    assert_eq!(
        get_keyboard_device_filenames("event3\nevent12\nevent0\n"),
        vec!["/dev/input/event3", "/dev/input/event12", "/dev/input/event0"]
    );
}

#[test]
fn listing_of_nothing_names_no_device() {
    assert_eq!(get_keyboard_device_filenames(""), Vec::<String>::new());
    assert_eq!(get_keyboard_device_filenames("\n"), Vec::<String>::new());
    assert_eq!(get_keyboard_device_filenames(" \t\r\n\n  "), Vec::<String>::new());
    assert_eq!(get_keyboard_device_filenames("\u{a0}\u{3000}"), Vec::<String>::new());
}

#[test]
fn listing_is_trimmed_at_both_ends_only() {
    assert_eq!(
        get_keyboard_device_filenames("\n\n  event1\nevent2 \n\nevent 4\t\n \n"),
        vec!["/dev/input/event1", "/dev/input/event2 ", "/dev/input/", "/dev/input/event 4"]
    );
    assert_eq!(
        get_keyboard_device_filenames("\u{2003}a\r\nb\u{2028}"),
        vec!["/dev/input/a\r", "/dev/input/b"]
    );
}

#[test]
fn listing_agrees_with_trim_and_split() {
    let listings = [
        "event3\nevent5\n",
        "a\n\nb",
        "  x  ",
        "\n\nfirst\nsecond\n\n\nthird\n",
        "caf\u{e9}\n\u{65e5}\u{672c}\n",
        "one",
        "\tevent9\u{85}",
    ];
    for listing in listings {
        let expected: Vec<String> =
            listing.trim().split('\n').map(|name| format!("/dev/input/{}", name)).collect();
        assert_eq!(get_keyboard_device_filenames(listing), expected, "listing {:?}", listing);
    }
}

#[test]
fn listing_then_pick() {
    let picked = get_default_device(get_keyboard_device_filenames("event4\n"));
    assert!(matches!(picked, Ok(ref name) if name == "/dev/input/event4"));
    let picked = get_default_device(get_keyboard_device_filenames("\n"));
    assert!(matches!(picked, Err(DeviceError::NoneDetected)));
    let picked = get_default_device(get_keyboard_device_filenames("event4\nevent5\n"));
    assert!(matches!(picked, Err(DeviceError::Ambiguous(_))));
}

#[test]
fn white_space_is_the_unicode_property() {
    let mut c = '\0';
    loop {
        assert_eq!(is_whitespace(c), c.is_whitespace(), "char {:?}", c);
        if c == char::MAX {
            break;
        }
        c = char::from_u32(c as u32 + 1).unwrap_or('\u{e000}');
    }
}
