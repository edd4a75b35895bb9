use du_analog_inputs::devices::{DeviceEvent, DeviceRegistry, FilterAction};

#[test]
fn registered_devices_are_found() {
    let mut r = DeviceRegistry::new();
    assert_eq!(r.register(3, Some(String::from("abc"))), "abc");
    assert_eq!(r.register(4, None), "Unknown GUID");
    assert_eq!(r.get_guid(3).map(|s| s.as_str()), Some("abc"));
    assert_eq!(r.get_guid(4).map(|s| s.as_str()), Some("Unknown GUID"));
    assert_eq!(r.unregister(3), Some(String::from("abc")));
    assert_eq!(r.unregister(3), None);
    assert!(r.get_guid(3).is_none());
}

#[test]
fn controller_input_is_forwarded_with_its_guid() {
    let mut r = DeviceRegistry::new();
    r.register(1, Some(String::from("pad")));
    match r.event_filter(&DeviceEvent::ControllerButtonDown { which: 1 }, true) {
        FilterAction::Forward(g) => assert_eq!(g, "pad"),
        other => panic!("unexpected {:?}", other),
    }
    assert!(r.is_from_unknown_device(&DeviceEvent::ControllerAxisMotion { which: 2 }, true));
    assert!(!r.is_from_unknown_device(&DeviceEvent::ControllerAxisMotion { which: 1 }, true));
    assert!(!r.is_from_unknown_device(&DeviceEvent::JoyAxisMotion { which: 2 }, true));
    assert!(r.is_from_unknown_device(&DeviceEvent::JoyAxisMotion { which: 2 }, false));
    assert!(!r.is_from_unknown_device(&DeviceEvent::ControllerDeviceAdded { which: 2 }, false));
}

#[test]
fn joystick_input_of_controllers_is_ignored() {
    let mut r = DeviceRegistry::new();
    r.register(1, Some(String::from("pad")));
    assert!(matches!(r.event_filter(&DeviceEvent::JoyButtonDown { which: 1 }, true), FilterAction::Ignore));
    match r.event_filter(&DeviceEvent::JoyHatMotion { which: 1 }, false) {
        FilterAction::Forward(g) => assert_eq!(g, "pad"),
        other => panic!("unexpected {:?}", other),
    }
}

#[test]
fn device_changes_and_quit() {
    let r = DeviceRegistry::new();
    assert!(matches!(r.event_filter(&DeviceEvent::ControllerDeviceAdded { which: 5 }, false), FilterAction::AddDevice(5)));
    assert!(matches!(r.event_filter(&DeviceEvent::ControllerDeviceRemoved { which: 5 }, false), FilterAction::RemoveDevice(5)));
    assert!(matches!(r.event_filter(&DeviceEvent::JoyDeviceAdded { which: 6 }, false), FilterAction::AddDevice(6)));
    assert!(matches!(r.event_filter(&DeviceEvent::JoyDeviceAdded { which: 6 }, true), FilterAction::Ignore));
    assert!(matches!(r.event_filter(&DeviceEvent::JoyDeviceRemoved { which: 6 }, false), FilterAction::RemoveDevice(6)));
    assert!(matches!(r.event_filter(&DeviceEvent::JoyDeviceRemoved { which: 6 }, true), FilterAction::Ignore));
    assert!(matches!(r.event_filter(&DeviceEvent::Quit, false), FilterAction::Quit));
    assert!(matches!(r.event_filter(&DeviceEvent::Other, false), FilterAction::Ignore));
}
