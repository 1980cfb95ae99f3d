use navipod::single::Single;
use navipod::subsonic::{Album, Artist, Track};
use navipod::system::{BatteryStatus, BtDevice, BtStatus, SystemStatus, WifiNetwork, WifiStatus};
use navipod::ui::items::{
    albums_to_items, artists_to_items, bt_status_subtitle, bt_toggle_item,
    build_bt_device_detail_items, build_bt_items, build_wifi_items,
    build_wifi_network_detail_items, format_seconds, format_system_status, format_time,
    settings_items, tracks_to_items, wifi_status_subtitle, wifi_toggle_item, LibraryItem,
};

fn rows(items: &[LibraryItem]) -> Vec<(&str, &str)> {
    items.iter().map(|i| (i.title.as_str(), i.subtitle.as_str())).collect()
}

fn network(ssid: &str, bars: u8, secured: bool, connected: bool) -> WifiNetwork {
    WifiNetwork { ssid: ssid.to_string(), signal_bars: bars, secured, connected }
}

fn device(name: &str, connected: bool) -> BtDevice {
    BtDevice { name: name.to_string(), address: "AA:BB".to_string(), connected }
}

fn track(title: &str) -> Track {
    Track {
        id: "t".to_string(),
        title: title.to_string(),
        artist: None,
        album: None,
        duration: None,
        cover_art: None,
        track_number: None,
    }
}

#[test]
fn times_in_minutes_and_seconds() {
    assert_eq!(format_seconds(0), "0:00");
    assert_eq!(format_seconds(61), "1:01");
    assert_eq!(format_seconds(3600), "60:00");
    for x in [0.0f32, 59.99, 60.0, 75.5, -3.0, f32::NAN, 1e20] {
        let s = x.max(0.0) as u32;
        let expected = format!("{}:{:02}", s / 60, s % 60);
        assert_eq!(format_time(Single { bits: x.to_bits() }), expected);
    }
}

#[test]
fn rows_of_artists_and_albums() {
    let artists = [Artist {
        id: "1".to_string(),
        name: "Björk".to_string(),
        album_count: 12,
        cover_art: None,
    }];
    assert_eq!(rows(&artists_to_items(&artists)), [("Björk", "12 albums")]);
    let mut albums = vec![];
    for year in [Some(1993), None] {
        albums.push(Album {
            id: "2".to_string(),
            name: "Debut".to_string(),
            artist: None,
            year,
            song_count: 11,
            cover_art: None,
        });
    }
    assert_eq!(
        rows(&albums_to_items(&albums)),
        [("Debut", "1993 • 11 songs"), ("Debut", "11 songs")]
    );
    assert!(artists_to_items(&[]).is_empty());
}

#[test]
fn rows_of_tracks() {
    let mut first = track("One");
    first.artist = Some("Björk".to_string());
    first.duration = Some(245);
    first.track_number = Some(9);
    let mut long = track("Long");
    long.duration = Some(16_777_217);
    let items = tracks_to_items(&[first, track("Two"), long]);
    assert_eq!(
        rows(&items),
        [("9. One", "Björk • 4:05"), ("2. Two", "? • —"), ("3. Long", "? • 279620:16")]
    );
}

#[test]
fn what_the_settings_say() {
    let mut status = SystemStatus::default();
    assert_eq!(rows(&settings_items(&status)), [("WiFi", "Off"), ("Bluetooth", "Off")]);
    status.wifi = WifiStatus { enabled: true, ssid: None, signal_bars: 0 };
    status.bluetooth = BtStatus { enabled: true, connected_device: None };
    assert_eq!(rows(&settings_items(&status)), [("WiFi", "Not connected"), ("Bluetooth", "On")]);
    let wifi = WifiStatus { enabled: true, ssid: Some("Home".to_string()), signal_bars: 2 };
    assert_eq!(wifi_status_subtitle(&wifi), "Home");
    let off = WifiStatus { enabled: false, ssid: Some("Home".to_string()), signal_bars: 2 };
    assert_eq!(wifi_status_subtitle(&off), "Off");
    let bt = BtStatus { enabled: true, connected_device: Some("Phones".to_string()) };
    assert_eq!(bt_status_subtitle(&bt), "Phones");
}

#[test]
fn rows_of_the_wifi_list() {
    let networks = [
        network("Home", 3, true, true),
        network("Cafe", 2, false, false),
        network("Far", 1, true, false),
        network("Edge", 0, false, false),
    ];
    assert_eq!(
        rows(&build_wifi_items(true, &networks)),
        [
            ("WiFi: On", "tap to toggle"),
            ("✓ Home", "▁▃▅ • Secured"),
            ("Cafe", "▁▃▅ • Open"),
            ("Far", "▁▃  • Secured"),
            ("Edge", "▁   • Open"),
        ]
    );
    assert_eq!(rows(&build_wifi_items(false, &[])), [("WiFi: Off", "tap to toggle")]);
    assert_eq!(wifi_toggle_item(true).title, "WiFi: On");
}

#[test]
fn rows_of_the_bluetooth_list() {
    let devices = [device("Phones", true), device("Car", false)];
    assert_eq!(
        rows(&build_bt_items(true, &devices)),
        [
            ("Bluetooth: On", "tap to toggle"),
            ("Scan for devices", "~5 seconds"),
            ("✓ Phones", "AA:BB"),
            ("Car", "AA:BB"),
        ]
    );
    assert_eq!(rows(&build_bt_items(false, &devices)), [("Bluetooth: Off", "tap to toggle")]);
    assert_eq!(bt_toggle_item(false).title, "Bluetooth: Off");
}

#[test]
fn rows_of_details() {
    assert_eq!(
        rows(&build_wifi_network_detail_items(&network("n", 2, true, false))),
        [
            ("Security", "WPA2-Personal"),
            ("Signal", "▁▃▅ Good"),
            ("Connect", "Uses saved credentials"),
            ("Enter Password", "Coming soon"),
        ]
    );
    assert_eq!(
        rows(&build_wifi_network_detail_items(&network("n", 3, false, false))),
        [("Security", "Open"), ("Signal", "▁▃▅ Excellent"), ("Connect", "Open network")]
    );
    assert_eq!(
        rows(&build_wifi_network_detail_items(&network("n", 0, true, true)))[1..],
        [("Signal", "▁   Very Weak"), ("Disconnect", "Tap to disconnect")]
    );
    assert_eq!(
        rows(&build_wifi_network_detail_items(&network("n", 1, true, true)))[1].1,
        "▁▃  Weak"
    );
    assert_eq!(
        rows(&build_bt_device_detail_items(&device("d", true))),
        [("Address", "AA:BB"), ("Disconnect", "Tap to disconnect")]
    );
    assert_eq!(
        rows(&build_bt_device_detail_items(&device("d", false)))[1],
        ("Connect", "Tap to connect")
    );
}

#[test]
fn the_status_bar() {
    let mut status = SystemStatus::default();
    let empty = String::new();
    assert_eq!(
        format_system_status(&status),
        (empty.clone(), false, empty.clone(), false, empty.clone(), false)
    );
    status.battery = Some(BatteryStatus { percent: 19, charging: false });
    status.wifi = WifiStatus { enabled: true, ssid: Some("Home".to_string()), signal_bars: 3 };
    status.bluetooth = BtStatus { enabled: true, connected_device: None };
    assert_eq!(
        format_system_status(&status),
        ("19%".to_string(), true, "W".to_string(), true, "B".to_string(), false)
    );
    status.battery = Some(BatteryStatus { percent: 19, charging: true });
    let bar = format_system_status(&status);
    assert_eq!((bar.0.as_str(), bar.1), ("⚡19%", false));
    status.battery = Some(BatteryStatus { percent: 20, charging: false });
    assert!(!format_system_status(&status).1);
}
