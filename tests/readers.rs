use ratatoskr::readers::{
    active_wifi, battery_icon, battery_state_name, connected_device, disk_used_percent,
    ethernet_icon, ram_levels, wifi_icon, BatteryState,
};

#[test]
fn ram_percentages() {
    assert_eq!(ram_levels(16_000, 6_880, 8_000, 2_000), Some((43, 25)));
    assert_eq!(ram_levels(16_000, 6_880, 0, 0), Some((43, 0)));
    assert_eq!(ram_levels(0, 0, 10, 1), None);
    assert_eq!(ram_levels(u64::MAX, u64::MAX, u64::MAX, 0), Some((100, 0)));
}

#[test]
fn disk_percentage() {
    assert_eq!(disk_used_percent(1000, 250), Some(75));
    assert_eq!(disk_used_percent(1000, 1000), Some(0));
    assert_eq!(disk_used_percent(3, 1), Some(67));
    assert_eq!(disk_used_percent(0, 0), None);
}

#[test]
fn battery_states_and_icons() {
    assert_eq!(battery_state_name(BatteryState::Charging), "Charging");
    assert_eq!(battery_state_name(BatteryState::Other), "Strage");
    assert_eq!(battery_icon(BatteryState::Charging, 3), "\u{f0084}");
    assert_eq!(battery_icon(BatteryState::Discharging, 14), "\u{f007a}");
    assert_eq!(battery_icon(BatteryState::Discharging, 15), "\u{f007b}");
    assert_eq!(battery_icon(BatteryState::Discharging, 50), "\u{f007e}");
    assert_eq!(battery_icon(BatteryState::Discharging, 95), "\u{f0079}");
    assert_eq!(battery_icon(BatteryState::Full, 100), "\u{f17e2}");
    assert_eq!(battery_icon(BatteryState::Unknown, 0), "\u{f17e2}");
    assert_eq!(battery_icon(BatteryState::Empty, 0), "Empty");
    assert_eq!(battery_icon(BatteryState::Other, 0), "\u{f19e5}");
}

#[test]
fn wifi_icons() {
    assert_eq!(wifi_icon(None), "\u{f0783}");
    assert_eq!(wifi_icon(Some(14)), "\u{f08bf}");
    assert_eq!(wifi_icon(Some(29)), "\u{f08bc}");
    assert_eq!(wifi_icon(Some(59)), "\u{f08bd}");
    assert_eq!(wifi_icon(Some(60)), "\u{f08be}");
    assert_eq!(ethernet_icon(), "\u{f0200}");
}

#[test]
fn nmcli_device_lines() {
    assert_eq!(connected_device("wlan0:wifi:connected:Home"), Some(("wlan0", "wifi")));
    assert_eq!(connected_device("eth0:ethernet:unavailable:"), None);
    assert_eq!(connected_device("lo:loopback:connected"), None);
    assert_eq!(connected_device("lo:loopback:connected (externally):lo"), None);
    assert_eq!(connected_device(""), None);
}

#[test]
fn nmcli_wifi_lines() {
    assert_eq!(active_wifi("yes:Home:72"), Some(("Home", "72")));
    assert_eq!(active_wifi("no:Neighbour:40"), None);
    assert_eq!(active_wifi("yes:Home"), None);
    assert_eq!(active_wifi("yes:Cafe:31:extra"), Some(("Cafe", "31")));
}
