use navipod::system::{
    battery_from, battery_names, bt_connect_script, bt_connected_name,
    bt_connected_name_in_output, bt_devices_from, bt_devices_in_output, bt_disconnect_script,
    bt_powered, bt_powered_in_output, bt_status_from, bt_toggle_script, default_signal_bars,
    parse_bt_device_line, parse_wifi_line, parse_wifi_scan, probe_wifi, quality_bars, signal_bars_from,
    wifi_connect_succeeded, wifi_disconnect_args, wifi_fallback_args, wifi_line_fits, wifi_networks_in_output,
    wifi_probe_in_output, wifi_scan_fits, wifi_status_from, wifi_toggle_args, wifi_up_args,
    wireless_quality, BatteryStatus, SystemStatus, WifiNetwork, WifiProbe,
};

fn summary(n: &WifiNetwork) -> (&str, u8, bool, bool) {
    (&n.ssid, n.signal_bars, n.secured, n.connected)
}

#[test]
fn batteries_are_looked_for_under_these_names() {
    assert_eq!(battery_names(), ["BAT0", "BAT1", "BAT2", "battery", "BATC", "BATT"]);
}

#[test]
fn charge_and_charging() {
    let full = BatteryStatus { percent: 87, charging: false };
    assert_eq!(battery_from(Some("87\n"), Some("Discharging\n")), Some(full));
    assert_eq!(battery_from(Some(" 87 "), Some("DISCHARGING")), Some(full));
    let charging = BatteryStatus { percent: 5, charging: true };
    assert_eq!(battery_from(Some("5"), Some("Charging")), Some(charging));
    assert_eq!(battery_from(Some("5"), None), Some(charging));
    let full = BatteryStatus { percent: 100, charging: true };
    assert_eq!(battery_from(Some("100"), Some("Full")), Some(full));
    assert_eq!(battery_from(Some("101"), Some("Full")), None);
    assert_eq!(battery_from(Some("150"), Some("Discharging")), None);
    assert_eq!(battery_from(Some("300"), Some("Full")), None);
    assert_eq!(battery_from(Some("many"), Some("Full")), None);
    assert_eq!(battery_from(None, Some("Full")), None);
}

#[test]
fn the_wireless_adapter_among_the_devices() {
    let output = "eth0:connected:Wired\nwlan0:connected:Cafe: Guest\nwlan1:disconnected:\n";
    match probe_wifi(output) {
        WifiProbe::Connected { ssid } => assert_eq!(ssid, "Cafe: Guest"),
        other => panic!("{other:?}"),
    }
    assert!(matches!(probe_wifi("wlan0:disconnected:"), WifiProbe::Idle { enabled: true }));
    assert!(matches!(probe_wifi("wlan0:unavailable:"), WifiProbe::Idle { enabled: false }));
    assert!(matches!(probe_wifi("wifi0:unmanaged"), WifiProbe::Idle { enabled: false }));
    assert!(matches!(probe_wifi("eth0:connected:Wired\nlo:unmanaged:"), WifiProbe::Missing));
    assert!(matches!(probe_wifi(""), WifiProbe::Missing));
}

#[test]
fn the_adapter_and_its_bars() {
    let on = wifi_status_from(WifiProbe::Connected { ssid: "Home".to_string() }, 2);
    assert!(on.enabled);
    assert_eq!(on.ssid.as_deref(), Some("Home"));
    assert_eq!(on.signal_bars, 2);
    let idle = wifi_status_from(WifiProbe::Idle { enabled: true }, 2);
    assert!(idle.enabled && idle.ssid.is_none());
    assert_eq!(idle.signal_bars, 0);
    let none = wifi_status_from(WifiProbe::Missing, 2);
    assert!(!none.enabled && none.ssid.is_none());
    let status = SystemStatus::default();
    assert!(status.battery.is_none() && !status.wifi.enabled && !status.bluetooth.enabled);
}

#[test]
fn link_quality_in_the_kernels_table() {
    let table = "Inter-| sta-|   Quality        |\n face | tus | link level noise |\n wlan0: 0000   54.  -56.  -256        0\n";
    assert_eq!(wireless_quality(table), Some(54));
    assert_eq!(wireless_quality("a b 9.\nc d 9.\n"), None);
    assert_eq!(wireless_quality("h\nh\nwlan0: 0000\nwlan1: 0000 x.\nwlan2: 0000 33\n"), Some(33));
    assert_eq!(wireless_quality(""), None);
    assert_eq!(default_signal_bars(), 1);
}

#[test]
fn quality_as_bars() {
    for q in 0..=200u32 {
        assert_eq!(u32::from(quality_bars(q)), ((q * 3 + 34) / 70).min(3), "{q}");
    }
    assert_eq!(quality_bars(0), 0);
    assert_eq!(quality_bars(54), 2);
    assert_eq!(quality_bars(70), 3);
}

#[test]
fn lines_of_a_scan() {
    let net = parse_wifi_line("Home:80:WPA2:yes").unwrap();
    assert_eq!(summary(&net), ("Home", 2, true, true));
    let net = parse_wifi_line("a:b: c :100:--:no").unwrap();
    assert_eq!(summary(&net), ("a:b: c", 3, false, false));
    let net = parse_wifi_line("Open:0::no").unwrap();
    assert_eq!(summary(&net), ("Open", 0, false, false));
    assert!(parse_wifi_line(" :50:WPA2:no").is_none());
    assert!(parse_wifi_line("50:WPA2:no").is_none());
    assert!(parse_wifi_line("Home:much:WPA2:no").is_none());
    assert!(wifi_line_fits("Home:80:WPA2:yes"));
    assert!(!wifi_line_fits("Home:4000000000:WPA2:yes"));
}

#[test]
fn scans_are_sorted_and_name_each_network_once() {
    let output = "Weak:10:WPA2:no\nStrong:90:WPA2:no\nHome:40:WPA2:yes\nStrong:20::no\nMid:50:--:no\nbroken\nAlso:95:WPA2:no\n";
    assert!(wifi_scan_fits(output));
    let networks = parse_wifi_scan(output);
    let names: Vec<&str> = networks.iter().map(|n| n.ssid.as_str()).collect();
    assert_eq!(names, ["Home", "Strong", "Also", "Mid", "Weak"]);
    assert!(networks[1].secured);
    assert!(!networks[3].secured);
    assert!(parse_wifi_scan("").is_empty());
    assert!(!wifi_scan_fits("a:1::no\nb:4294967295::no\n"));
}

#[test]
fn lines_of_bluetooth_devices() {
    let d = parse_bt_device_line("Device AA:BB My Head Phones").unwrap();
    assert_eq!((d.name.as_str(), d.address.as_str(), d.connected), ("My Head Phones", "AA:BB", false));
    assert!(parse_bt_device_line("Device AA:BB").is_none());
    assert!(parse_bt_device_line("Controller AA:BB Name").is_none());
    assert!(parse_bt_device_line("").is_none());
    assert_eq!(parse_bt_device_line("Device AA:BB ").unwrap().name, "");
}

#[test]
fn paired_devices_and_their_connections() {
    let paired = "Device AA One\nDevice BB Two\nnoise\nDevice CC Three\n";
    let devices = bt_devices_from(paired, Some("Device BB Two\n"));
    let seen: Vec<(&str, bool)> = devices.iter().map(|d| (d.address.as_str(), d.connected)).collect();
    assert_eq!(seen, [("AA", false), ("BB", true), ("CC", false)]);
    assert!(bt_devices_from(paired, None).iter().all(|d| !d.connected));
}

#[test]
fn power_and_connection_of_bluetooth() {
    assert!(bt_powered("Controller X\n\tPowered: yes\n"));
    assert!(!bt_powered("Controller X\n\tPowered: no\n\tPairable: yes\n"));
    assert!(!bt_powered(""));
    assert_eq!(bt_connected_name("Device AA My Phones\nDevice BB Two\n").as_deref(), Some("My Phones"));
    assert_eq!(bt_connected_name("Device AA\nDevice BB Two\n").as_deref(), Some("Two"));
    assert_eq!(bt_connected_name("nothing"), None);
    let on = bt_status_from(true, Some("Phones".to_string()));
    assert_eq!(on.connected_device.as_deref(), Some("Phones"));
    assert!(on.enabled);
    let off = bt_status_from(false, None);
    assert!(!off.enabled && off.connected_device.is_none());
}

#[test]
fn commands_for_the_systems_tools() {
    assert_eq!(wifi_toggle_args(true), ["radio", "wifi", "on"]);
    assert_eq!(wifi_toggle_args(false), ["radio", "wifi", "off"]);
    assert_eq!(wifi_up_args("My Net"), ["connection", "up", "My Net"]);
    assert_eq!(wifi_fallback_args(true, "My Net"), None);
    assert_eq!(
        wifi_fallback_args(false, "My Net"),
        Some(vec!["device", "wifi", "connect", "My Net"])
    );
    assert_eq!(wifi_disconnect_args(), ["device", "disconnect", "wlan0"]);
    assert_eq!(bt_toggle_script(true), "echo 'power on' | bluetoothctl");
    assert_eq!(bt_toggle_script(false), "echo 'power off' | bluetoothctl");
    assert_eq!(bt_connect_script("AA:BB"), "echo 'connect AA:BB' | bluetoothctl");
    assert_eq!(bt_disconnect_script("AA:BB"), "echo 'disconnect AA:BB' | bluetoothctl");
}

#[test]
fn output_is_read_as_far_as_it_is_text() {
    match wifi_probe_in_output(b"wlan0:connected:Caf\xc3\xa9 \xff\n") {
        WifiProbe::Connected { ssid } => assert_eq!(ssid, "Café \u{fffd}"),
        other => panic!("{other:?}"),
    }
    let networks = wifi_networks_in_output("Ünï:80:WPA2:no\n".as_bytes()).unwrap();
    assert_eq!(networks[0].ssid, "Ünï");
    let networks = wifi_networks_in_output(b"A\xe2\x82:80:WPA2:no\nB:1::no\n").unwrap();
    assert_eq!(networks[0].ssid, "A\u{fffd}");
    assert!(wifi_networks_in_output(b"a:4294967295::no\n").is_none());
    assert!(wifi_networks_in_output(b"").unwrap().is_empty());
    assert!(bt_powered_in_output(b"\tPowered: yes\n"));
    assert!(!bt_powered_in_output(b"\xffPowered: yes\n"));
    assert_eq!(bt_connected_name_in_output(b"Device AA One\n").as_deref(), Some("One"));
    let devices = bt_devices_in_output(b"Device AA One\nDevice BB \xff\n", Some(b"Device AA One\n"));
    assert!(devices[0].connected && !devices[1].connected);
    assert_eq!(devices[1].name, "\u{fffd}");
    assert!(!bt_devices_in_output(b"Device AA One\n", None)[0].connected);
}

#[test]
fn when_connecting_worked() {
    assert!(wifi_connect_succeeded(true, None));
    assert!(wifi_connect_succeeded(false, Some(true)));
    assert!(!wifi_connect_succeeded(false, Some(false)));
    assert!(!wifi_connect_succeeded(false, None));
}

#[test]
fn signal_bars_come_from_the_wireless_table() {
    assert_eq!(signal_bars_from(Some("h\nh\nwlan0: 0000 54. -56.\n")), Some(2));
    assert_eq!(signal_bars_from(Some("h\nh\nwlan0: 0000 70.\n")), Some(3));
    assert_eq!(signal_bars_from(Some("h\nh\nwlan0: 0000 0.\n")), Some(0));
    assert_eq!(signal_bars_from(Some("h\nh\n")), Some(1));
    assert_eq!(signal_bars_from(None), Some(1));
    assert_eq!(signal_bars_from(Some("h\nh\nwlan0: 0000 1431655753.\n")), Some(3));
    assert_eq!(signal_bars_from(Some("h\nh\nwlan0: 0000 1431655754.\n")), None);
}
