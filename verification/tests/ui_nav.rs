use navipod::player::PlayerCommand;
use navipod::subsonic::{Album, Artist, Track};
use navipod::system::{BtDevice, SystemStatus, WifiNetwork};
use navipod::ui::nav::{
    BtListReason, LibraryLevel, NavAction, NavCommand, NavReply, NavState, WifiScanReason,
};
use navipod::ui::screen::{AppTheme, AppView, Screen, ScreenUpdate};

fn artist(id: &str) -> Artist {
    Artist { id: id.to_string(), name: format!("Artist {id}"), album_count: 1, cover_art: None }
}

fn album(id: &str) -> Album {
    Album {
        id: id.to_string(),
        name: format!("Album {id}"),
        artist: None,
        year: None,
        song_count: 1,
        cover_art: None,
    }
}

fn track(id: &str) -> Track {
    Track {
        id: id.to_string(),
        title: format!("Track {id}"),
        artist: None,
        album: None,
        duration: None,
        cover_art: None,
        track_number: None,
    }
}

fn network(ssid: &str, secured: bool, connected: bool) -> WifiNetwork {
    WifiNetwork { ssid: ssid.to_string(), signal_bars: 2, secured, connected }
}

fn device(name: &str, connected: bool) -> BtDevice {
    BtDevice { name: name.to_string(), address: format!("addr {name}"), connected }
}

fn status(wifi: bool, bt: bool) -> SystemStatus {
    let mut s = SystemStatus::default();
    s.wifi.enabled = wifi;
    s.bluetooth.enabled = bt;
    s
}

/// The actions in short.
fn told(actions: Vec<NavAction>) -> Vec<String> {
    actions.into_iter().map(|a| match a {
        NavAction::Update(ScreenUpdate::ReplaceList { items, header }) => format!("list {header} {}", items.len()),
        NavAction::Update(ScreenUpdate::OpenList { items, header }) => format!("open {header} {}", items.len()),
        NavAction::Update(ScreenUpdate::OpenLoading { row, header }) => format!("loading {header} [{}]", row.title),
        NavAction::Update(ScreenUpdate::OpenEmpty { header }) => format!("empty {header}"),
        NavAction::Update(ScreenUpdate::SetHeader(header)) => format!("header {header}"),
        NavAction::Update(ScreenUpdate::SetEmptyText(text)) => format!("text {text}"),
        NavAction::Update(ScreenUpdate::SelectRow(row)) => format!("row {row}"),
        NavAction::Update(ScreenUpdate::OpenKeyboard { prompt }) => format!("keyboard {prompt}"),
        NavAction::Update(other) => format!("{other:?}"),
        NavAction::Player(PlayerCommand::PlayQueue { tracks, start_index }) => format!("play {start_index}/{}", tracks.len()),
        NavAction::FetchAlbums { artist_id, artist_name } => format!("albums {artist_id} {artist_name}"),
        NavAction::FetchTracks { album_id, album_name } => format!("tracks {album_id} {album_name}"),
        NavAction::WifiConnect { ssid } => format!("join {ssid}"),
        NavAction::BtConnect { address } => format!("pair {address}"),
        NavAction::BtDisconnect { address } => format!("part {address}"),
        other => format!("{other:?}"),
    }).collect()
}

fn menu(nav: &mut NavState, idx: i32, s: &SystemStatus) -> Vec<String> {
    told(nav.handle(NavCommand::MenuSelect(idx), s))
}

fn select(nav: &mut NavState, idx: i32, s: &SystemStatus) -> Vec<String> {
    told(nav.handle(NavCommand::LibrarySelect(idx), s))
}

fn back(nav: &mut NavState, s: &SystemStatus) -> Vec<String> {
    told(nav.handle(NavCommand::Back, s))
}

#[test]
fn entries_of_the_menu() {
    let s = status(true, false);
    let mut nav = NavState::default();
    assert_eq!(menu(&mut nav, 0, &s), ["empty Loading…", "FetchArtists"]);
    assert_eq!(menu(&mut nav, 1, &s), ["empty Starred ★", "LoadStarred"]);
    assert_eq!(menu(&mut nav, 2, &s), ["SetView(NowPlaying)"]);
    assert_eq!(nav.level, LibraryLevel::Artists);
    assert_eq!(menu(&mut nav, 3, &s), ["open Settings 2"]);
    assert_eq!(nav.level, LibraryLevel::SettingsRoot);
    assert_eq!(menu(&mut nav, 4, &s), ["NextTheme"]);
    assert!(menu(&mut nav, 5, &s).is_empty());
    assert!(menu(&mut nav, -1, &s).is_empty());
}

#[test]
fn down_to_a_track_and_back_up() {
    let s = status(false, false);
    let mut nav = NavState::default();
    let actions = nav.reply(NavReply::Artists(Some(vec![artist("1"), artist("2")])));
    assert_eq!(told(actions), ["list Artists 2"]);
    assert_eq!(select(&mut nav, 1, &s), ["header Loading…", "albums 2 Artist 2"]);
    let actions = nav.reply(NavReply::Albums {
        artist_name: "Artist 2".to_string(),
        albums: Some(vec![album("a"), album("b"), album("c")]),
    });
    assert_eq!(told(actions), ["list Artist 2 3"]);
    assert_eq!(select(&mut nav, 2, &s), ["header Loading…", "tracks c Album c"]);
    let actions = nav.reply(NavReply::Tracks {
        album_name: "Album c".to_string(),
        tracks: Some(vec![track("x"), track("y")]),
    });
    assert_eq!(told(actions), ["list Album c 2"]);
    assert_eq!(nav.level, LibraryLevel::Tracks);
    assert_eq!(select(&mut nav, 1, &s), ["play 1/2", "SetView(NowPlaying)"]);
    assert_eq!(back(&mut nav, &s), ["list Artist 2 3"]);
    assert_eq!(back(&mut nav, &s), ["list Artists 2"]);
    assert_eq!(back(&mut nav, &s), ["SetView(Menu)"]);
    assert_eq!(nav.level, LibraryLevel::Artists);
}

#[test]
fn rows_that_are_not_there_do_nothing() {
    let s = status(false, false);
    let mut nav = NavState::default();
    for idx in [0, 5, -1, i32::MIN, i32::MAX] {
        assert!(select(&mut nav, idx, &s).is_empty());
    }
    nav.level = LibraryLevel::Tracks;
    assert!(select(&mut nav, 0, &s).is_empty());
    nav.level = LibraryLevel::Albums;
    assert!(select(&mut nav, -7, &s).is_empty());
}

#[test]
fn failures_change_the_header_alone() {
    let mut nav = NavState::default();
    assert_eq!(told(nav.reply(NavReply::Artists(None))), ["header Error loading artists"]);
    let none = NavReply::Albums { artist_name: "A".to_string(), albums: None };
    assert_eq!(told(nav.reply(none)), ["header Error loading albums"]);
    let none = NavReply::Tracks { album_name: "A".to_string(), tracks: None };
    assert_eq!(told(nav.reply(none)), ["header Error loading tracks"]);
    let empty = NavReply::Tracks { album_name: "A".to_string(), tracks: Some(vec![]) };
    assert_eq!(told(nav.reply(empty)), ["header No tracks found"]);
    assert_eq!(told(nav.reply(NavReply::Starred(None))), ["header Error loading starred"]);
    assert_eq!(told(nav.reply(NavReply::Starred(Some(vec![])))), ["header No starred tracks yet"]);
    assert_eq!(told(nav.reply(NavReply::WifiConnected { ok: false })), ["header Connection failed"]);
    assert_eq!(told(nav.reply(NavReply::WifiDisconnected { ok: false })), ["header Disconnect failed"]);
    assert_eq!(told(nav.reply(NavReply::BtConnected { ok: false })), ["header Connection failed"]);
    assert_eq!(told(nav.reply(NavReply::BtDisconnected { ok: false })), ["header Disconnect failed"]);
    assert_eq!(nav.level, LibraryLevel::Artists);
    assert_eq!(nav.current_artist_name, "");
}

#[test]
fn starred_tracks_play_too() {
    let s = status(false, false);
    let mut nav = NavState::default();
    let actions = nav.reply(NavReply::Starred(Some(vec![track("x")])));
    assert_eq!(told(actions), ["list Starred ★ 1"]);
    assert_eq!(select(&mut nav, 0, &s), ["play 0/1", "SetView(NowPlaying)"]);
    assert_eq!(back(&mut nav, &s), ["SetView(Menu)"]);
}

#[test]
fn the_wifi_list() {
    let on = status(true, false);
    let mut nav = NavState::default();
    menu(&mut nav, 3, &on);
    assert_eq!(
        select(&mut nav, 0, &on),
        ["loading Scanning for networks… [WiFi: On]", "ScanWifi(Opened)"]
    );
    let networks = vec![network("Home", true, true), network("Cafe", true, false)];
    let actions = nav.reply(NavReply::WifiNetworks { reason: WifiScanReason::Opened, networks });
    assert_eq!(told(actions), ["list WiFi 3"]);
    assert_eq!(select(&mut nav, 2, &on), ["list Cafe 4"]);
    assert_eq!(nav.level, LibraryLevel::WifiNetworkDetail);
    assert!(select(&mut nav, 0, &on).is_empty());
    assert!(select(&mut nav, 1, &on).is_empty());
    assert_eq!(select(&mut nav, 2, &on), ["header Connecting…", "join Cafe"]);
    assert_eq!(select(&mut nav, 3, &on), ["keyboard WiFi Password: Cafe"]);
    assert_eq!(nav.keyboard_wifi_ssid.as_deref(), Some("Cafe"));
    assert!(told(nav.handle(NavCommand::KeyboardSubmitted("PW".to_string()), &on)).is_empty());
    assert_eq!(nav.keyboard_wifi_ssid, None);
    select(&mut nav, 3, &on);
    nav.handle(NavCommand::KeyboardDismissed, &on);
    assert_eq!(nav.keyboard_wifi_ssid, None);
    assert_eq!(back(&mut nav, &on), ["list WiFi 3", "row 2"]);
    assert_eq!(select(&mut nav, 1, &on), ["list Home 3"]);
    assert_eq!(select(&mut nav, 2, &on), ["header Disconnecting…", "WifiDisconnect"]);
    assert!(select(&mut nav, 3, &on).is_empty());
    back(&mut nav, &on);
    assert!(select(&mut nav, 3, &on).is_empty());
    assert_eq!(back(&mut nav, &on), ["list Settings 2"]);
    assert_eq!(nav.level, LibraryLevel::SettingsRoot);
}

#[test]
fn wifi_that_is_off_has_a_toggle_alone() {
    let off = status(false, false);
    let mut nav = NavState::default();
    menu(&mut nav, 3, &off);
    assert_eq!(
        select(&mut nav, 0, &off),
        ["loading Scanning for networks… [WiFi: Off]", "list WiFi 1"]
    );
    assert_eq!(
        select(&mut nav, 0, &off),
        [
            "WifiToggle(true)",
            "loading Scanning for networks… [WiFi: On]",
            "header Enabling WiFi…",
            "Wait(3)",
            "header Scanning…",
            "ScanWifi(Toggled)",
        ]
    );
    let networks = vec![network("Home", true, false)];
    let actions = nav.reply(NavReply::WifiNetworks { reason: WifiScanReason::Toggled, networks });
    assert_eq!(told(actions), ["list WiFi 2", "RefreshStatus"]);
    assert_eq!(select(&mut nav, 0, &off), ["WifiToggle(false)", "list WiFi 1", "RefreshStatus"]);
    assert!(!nav.wifi_enabled);
    assert!(nav.wifi_networks.is_empty());
}

#[test]
fn after_a_connection_the_details_are_shown_again() {
    let on = status(true, false);
    let mut nav = NavState::default();
    nav.level = LibraryLevel::WifiList;
    nav.wifi_enabled = true;
    nav.wifi_networks = vec![network("A", false, false), network("B", false, false)];
    select(&mut nav, 2, &on);
    assert_eq!(told(nav.reply(NavReply::WifiConnected { ok: true })), ["ScanWifi(Connected)"]);
    let networks = vec![network("B", false, true), network("A", false, false)];
    let actions = nav.reply(NavReply::WifiNetworks { reason: WifiScanReason::Connected, networks });
    assert_eq!(told(actions), ["RefreshStatus", "list A 3"]);
    assert_eq!(nav.level, LibraryLevel::WifiNetworkDetail);
    assert_eq!(told(nav.reply(NavReply::WifiDisconnected { ok: true })), ["ScanWifi(Disconnected)"]);
    let networks = vec![network("B", false, false)];
    let actions = nav.reply(NavReply::WifiNetworks { reason: WifiScanReason::Disconnected, networks });
    assert_eq!(told(actions), ["RefreshStatus", "list WiFi 2"]);
    assert_eq!(nav.level, LibraryLevel::WifiList);
}

#[test]
fn the_bluetooth_list() {
    let on = status(false, true);
    let mut nav = NavState::default();
    menu(&mut nav, 3, &on);
    assert_eq!(select(&mut nav, 1, &on), ["loading Loading… [Bluetooth: On]", "ListBt(Opened)"]);
    let devices = vec![device("One", true), device("Two", false)];
    let actions = nav.reply(NavReply::BtDevices { listing: BtListReason::Opened, devices });
    assert_eq!(told(actions), ["list Bluetooth 4"]);
    assert_eq!(
        select(&mut nav, 1, &on),
        ["header Scanning… (~5s)", "text Scanning for devices…", "ScanBt"]
    );
    let devices = vec![device("One", true), device("Two", false), device("Three", false)];
    assert_eq!(told(nav.reply(NavReply::BtScanned(devices))), ["list Bluetooth 5"]);
    assert_eq!(select(&mut nav, 2, &on), ["list One 2"]);
    assert!(select(&mut nav, 0, &on).is_empty());
    assert_eq!(select(&mut nav, 1, &on), ["header Disconnecting…", "part addr One"]);
    assert_eq!(told(nav.reply(NavReply::BtDisconnected { ok: true })), ["ListBt(Changed)"]);
    let devices = vec![device("One", false)];
    let actions = nav.reply(NavReply::BtDevices { listing: BtListReason::Changed, devices });
    assert_eq!(told(actions), ["RefreshStatus", "list One 2"]);
    assert_eq!(select(&mut nav, 1, &on), ["header Connecting…", "pair addr One"]);
    assert_eq!(told(nav.reply(NavReply::BtConnected { ok: true })), ["ListBt(Changed)"]);
    assert_eq!(back(&mut nav, &on), ["list Bluetooth 3", "row 2"]);
    assert_eq!(back(&mut nav, &on), ["list Settings 2"]);
}

#[test]
fn switching_bluetooth() {
    let s = status(false, true);
    let mut nav = NavState::default();
    nav.level = LibraryLevel::BtDeviceList;
    assert!(select(&mut nav, 1, &s).is_empty());
    assert!(select(&mut nav, 2, &s).is_empty());
    assert_eq!(
        select(&mut nav, 0, &s),
        ["BtToggle(true)", "loading Loading… [Bluetooth: On]", "ListBt(Toggled)"]
    );
    let devices = vec![device("One", false)];
    let actions = nav.reply(NavReply::BtDevices { listing: BtListReason::Toggled, devices });
    assert_eq!(told(actions), ["list Bluetooth 3", "RefreshStatus"]);
    assert_eq!(
        select(&mut nav, 0, &s),
        ["BtToggle(false)", "loading Loading… [Bluetooth: Off]", "list Bluetooth 1", "RefreshStatus"]
    );
    let mut off = NavState::default();
    off.level = LibraryLevel::SettingsRoot;
    let s = status(false, false);
    assert_eq!(select(&mut off, 1, &s), ["loading Loading… [Bluetooth: Off]", "list Bluetooth 1"]);
    off.level = LibraryLevel::SettingsRoot;
    assert!(select(&mut off, 2, &s).is_empty());
}

#[test]
fn a_device_that_is_gone_leaves_its_details() {
    let s = status(false, true);
    let mut nav = NavState::default();
    nav.level = LibraryLevel::BtDeviceList;
    nav.bt_enabled = true;
    nav.bt_devices = vec![device("One", true)];
    select(&mut nav, 2, &s);
    let gone = NavReply::BtDevices { listing: BtListReason::Changed, devices: vec![] };
    assert_eq!(told(nav.reply(gone)), ["RefreshStatus"]);
    assert_eq!(nav.level, LibraryLevel::BtDeviceDetail);
    assert!(select(&mut nav, 1, &s).is_empty());
    assert_eq!(back(&mut nav, &s), ["list Bluetooth 2", "row 2"]);
}

#[test]
fn the_window_follows_the_navigation() {
    let on = status(true, false);
    let mut nav = NavState::default();
    let mut screen = Screen::new(AppTheme::LiquidGlass);
    nav.level = LibraryLevel::WifiList;
    nav.wifi_enabled = true;
    nav.wifi_networks = vec![network("A", false, false), network("B", false, false)];
    screen.current_view = AppView::Library;
    for command in [NavCommand::LibrarySelect(2), NavCommand::Back] {
        for action in nav.handle(command, &on) {
            match action {
                NavAction::Update(update) => screen.apply(update),
                other => panic!("{other:?}"),
            }
        }
    }
    assert_eq!(screen.library_selected_index, 2);
    assert_eq!(screen.library_items[2].title, "B");
    assert_eq!(screen.library_item_count, 3);
}

fn show(screen: &mut Screen, actions: Vec<NavAction>) {
    for action in actions {
        if let NavAction::Update(update) = action {
            screen.apply(update);
        }
    }
}

#[test]
fn details_and_back_leave_the_list_as_it_was() {
    let on = status(false, true);
    let mut nav = NavState::default();
    let mut screen = Screen::new(AppTheme::LiquidGlass);
    nav.level = LibraryLevel::BtDeviceList;
    nav.bt_enabled = true;
    let devices = vec![device("One", true), device("Two", false)];
    let actions = nav.reply(NavReply::BtDevices { listing: BtListReason::Toggled, devices });
    show(&mut screen, actions);
    let rows: Vec<String> = screen.library_items.iter().map(|i| i.title.clone()).collect();
    assert_eq!(rows.len(), 4);
    show(&mut screen, nav.handle(NavCommand::LibrarySelect(3), &on));
    assert_eq!(screen.library_header, "Two");
    show(&mut screen, nav.handle(NavCommand::Back, &on));
    let again: Vec<String> = screen.library_items.iter().map(|i| i.title.clone()).collect();
    assert_eq!(again, rows);
    assert_eq!(screen.library_item_count, 4);
    assert_eq!(screen.library_header, "Bluetooth");
    assert_eq!(screen.library_selected_index, 3);
}
