use ratatoskr::upower::{
    classify_event, is_auxiliary_device, map_device_type, parse_upower_event,
    parse_upower_event_type, DeviceKind, DeviceTable, EventKind,
};

const CHANGED: &str = "[10:21:33.412]\tdevice changed:     /org/freedesktop/UPower/devices/mouse_dev_1";
const REMOVED: &str = "[10:21:34.000]\tdevice removed:     /org/freedesktop/UPower/devices/mouse_dev_1";
const ADDED: &str = "[10:21:35.000]\tdevice added:     /org/freedesktop/UPower/devices/headset_dev_2";

#[test]
fn device_type_codes() {
    assert_eq!(map_device_type(5), DeviceKind::Mouse);
    assert_eq!(map_device_type(6), DeviceKind::Keyboard);
    assert_eq!(map_device_type(11), DeviceKind::Headphones);
    assert_eq!(map_device_type(12), DeviceKind::Gamepad);
    assert_eq!(map_device_type(2), DeviceKind::Unknown);
    assert_eq!(map_device_type(0), DeviceKind::Unknown);
}

#[test]
fn auxiliary_devices_exclude_host_power() {
    assert!(is_auxiliary_device(true, false, 5));
    assert!(!is_auxiliary_device(false, false, 5));
    assert!(!is_auxiliary_device(true, true, 5));
    assert!(!is_auxiliary_device(true, false, 1));
    assert!(!is_auxiliary_device(true, false, 2));
}

#[test]
fn event_path_is_the_second_field() {
    assert_eq!(
        parse_upower_event(CHANGED),
        Some("    /org/freedesktop/UPower/devices/mouse_dev_1")
    );
    assert_eq!(parse_upower_event("no separator here"), None);
    assert_eq!(parse_upower_event("a: b: c"), Some("b"));
    assert_eq!(parse_upower_event("a: "), Some(""));
}

#[test]
fn event_type_follows_the_tab() {
    assert_eq!(parse_upower_event_type(CHANGED), Some("device changed"));
    assert_eq!(parse_upower_event_type(ADDED), Some("device added"));
    assert_eq!(parse_upower_event_type("no tab: x"), None);
    assert_eq!(parse_upower_event_type("a\tb\tc: x"), Some("b"));
    assert_eq!(parse_upower_event_type(""), None);
}

#[test]
fn event_kinds() {
    assert_eq!(classify_event("device added"), EventKind::Added);
    assert_eq!(classify_event("device changed"), EventKind::Changed);
    assert_eq!(classify_event("device removed"), EventKind::Removed);
    assert_eq!(classify_event("daemon changed"), EventKind::Other);
}

#[test]
fn table_keeps_each_path_once() {
    let mut t: DeviceTable<u32> = DeviceTable::new();
    t.insert("/a".to_string(), 1);
    t.insert("/b".to_string(), 2);
    t.insert("/a".to_string(), 3);
    assert_eq!(*t.devices(), vec![3, 2]);
    assert!(t.contains_path("/b"));
    assert!(t.remove("/a"));
    assert!(!t.remove("/a"));
    assert_eq!(*t.devices(), vec![2]);
}

#[test]
fn events_decide_refresh_and_removal() {
    let mut t: DeviceTable<u32> = DeviceTable::new();
    // A change of an unknown device is ignored.
    assert!(!t.apply_event(CHANGED));
    t.insert("/org/freedesktop/UPower/devices/mouse_dev_1".to_string(), 40);
    assert!(t.apply_event(CHANGED));
    assert_eq!(t.devices().len(), 1);
    assert!(t.apply_event(REMOVED));
    assert!(t.devices().is_empty());
    // Removing it again changes nothing.
    assert!(!t.apply_event(REMOVED));
    assert!(t.apply_event(ADDED));
    assert!(!t.apply_event("garbage"));
    assert!(!t.apply_event("[1]\tdaemon changed: x"));
}
