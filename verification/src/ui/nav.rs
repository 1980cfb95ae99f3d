//! Navigation through the library and the settings: which list each command
//! leads to, and what has to be asked of the server, the network and the system
//! on the way.
//!
//! Every step gives a list of actions to be carried out in order. An action that
//! brings something back is the last of its list; what it brings is handed to
//! [`NavState::reply`], which gives the actions that follow.

use vstd::prelude::*;

use crate::player::{PlayerCommand, PlayerCommandView};
use crate::subsonic::{Album, AlbumView, Artist, ArtistView, Track, TrackView};
use crate::system::{
    BtDevice, BtDeviceView, SystemStatus, SystemStatusView, WifiNetwork, WifiNetworkView,
};
use crate::ui::items::{self, LibraryItem, LibraryItemView};
use crate::ui::screen::{AppView, ScreenUpdate, ScreenUpdateView, ScreenView};

verus! {

// ── Types ────────────────────────────────────────────────────────────────────

/// Library and settings levels.
#[derive(Debug, Clone, Copy, PartialEq, Eq, Structural)]
pub enum LibraryLevel {
    // Music library
    Artists,
    Albums,
    Tracks,
    Starred,
    // Settings
    SettingsRoot,
    WifiList,
    WifiNetworkDetail,
    BtDeviceList,
    BtDeviceDetail,
}

#[derive(Debug)]
pub struct NavState {
    pub artists: Vec<Artist>,
    pub albums: Vec<Album>,
    pub tracks: Vec<Track>,
    pub current_artist_name: String,
    pub current_album_name: String,
    pub level: LibraryLevel,
    pub wifi_networks: Vec<WifiNetwork>,
    pub wifi_enabled: bool,
    pub selected_wifi_idx: usize,
    pub bt_devices: Vec<BtDevice>,
    pub bt_enabled: bool,
    pub selected_bt_idx: usize,
    /// SSID waiting for a password, if any
    pub keyboard_wifi_ssid: Option<String>,
}

/// What the window asks of the navigation.
#[derive(Debug)]
pub enum NavCommand {
    MenuSelect(i32),
    LibrarySelect(i32),
    Back,
    KeyboardSubmitted(String),
    KeyboardDismissed,
}

/// What a scan for WiFi networks is for.
#[derive(Debug, Clone, Copy, PartialEq, Eq, Structural)]
pub enum WifiScanReason {
    /// The list was opened.
    Opened,
    /// WiFi was switched on.
    Toggled,
    /// A connection was made.
    Connected,
    /// The connection was ended.
    Disconnected,
}

/// What a listing of Bluetooth devices is for.
#[derive(Debug, Clone, Copy, PartialEq, Eq, Structural)]
pub enum BtListReason {
    /// The list was opened.
    Opened,
    /// Bluetooth was switched on.
    Toggled,
    /// A device was connected or disconnected.
    Changed,
}

/// What the navigation asks for.
#[derive(Debug)]
pub enum NavAction {
    Update(ScreenUpdate),
    Player(PlayerCommand),
    /// Poll the system's status and show it.
    RefreshStatus,
    /// Wait for so many seconds.
    Wait(u64),
    WifiToggle(bool),
    BtToggle(bool),
    // These bring something back.
    FetchArtists,
    FetchAlbums { artist_id: String, artist_name: String },
    FetchTracks { album_id: String, album_name: String },
    LoadStarred,
    ScanWifi(WifiScanReason),
    WifiConnect { ssid: String },
    WifiDisconnect,
    ListBt(BtListReason),
    ScanBt,
    BtConnect { address: String },
    BtDisconnect { address: String },
}

/// What an action brought back. Nothing is brought where the server or the
/// database failed.
#[derive(Debug)]
pub enum NavReply {
    Artists(Option<Vec<Artist>>),
    Albums { artist_name: String, albums: Option<Vec<Album>> },
    Tracks { album_name: String, tracks: Option<Vec<Track>> },
    Starred(Option<Vec<Track>>),
    WifiNetworks { reason: WifiScanReason, networks: Vec<WifiNetwork> },
    WifiConnected { ok: bool },
    WifiDisconnected { ok: bool },
    BtDevices { listing: BtListReason, devices: Vec<BtDevice> },
    BtScanned(Vec<BtDevice>),
    BtConnected { ok: bool },
    BtDisconnected { ok: bool },
}

pub struct NavView {
    pub artists: Seq<ArtistView>,
    pub albums: Seq<AlbumView>,
    pub tracks: Seq<TrackView>,
    pub current_artist_name: Seq<char>,
    pub current_album_name: Seq<char>,
    pub level: LibraryLevel,
    pub wifi_networks: Seq<WifiNetworkView>,
    pub wifi_enabled: bool,
    pub selected_wifi_idx: int,
    pub bt_devices: Seq<BtDeviceView>,
    pub bt_enabled: bool,
    pub selected_bt_idx: int,
    pub keyboard_wifi_ssid: Option<Seq<char>>,
}

pub enum NavCommandView {
    MenuSelect(int),
    LibrarySelect(int),
    Back,
    KeyboardSubmitted(Seq<char>),
    KeyboardDismissed,
}

pub enum NavActionView {
    Update(ScreenUpdateView),
    Player(PlayerCommandView),
    RefreshStatus,
    Wait(u64),
    WifiToggle(bool),
    BtToggle(bool),
    FetchArtists,
    FetchAlbums { artist_id: Seq<char>, artist_name: Seq<char> },
    FetchTracks { album_id: Seq<char>, album_name: Seq<char> },
    LoadStarred,
    ScanWifi(WifiScanReason),
    WifiConnect { ssid: Seq<char> },
    WifiDisconnect,
    ListBt(BtListReason),
    ScanBt,
    BtConnect { address: Seq<char> },
    BtDisconnect { address: Seq<char> },
}

pub enum NavReplyView {
    Artists(Option<Seq<ArtistView>>),
    Albums { artist_name: Seq<char>, albums: Option<Seq<AlbumView>> },
    Tracks { album_name: Seq<char>, tracks: Option<Seq<TrackView>> },
    Starred(Option<Seq<TrackView>>),
    WifiNetworks { reason: WifiScanReason, networks: Seq<WifiNetworkView> },
    WifiConnected { ok: bool },
    WifiDisconnected { ok: bool },
    BtDevices { listing: BtListReason, devices: Seq<BtDeviceView> },
    BtScanned(Seq<BtDeviceView>),
    BtConnected { ok: bool },
    BtDisconnected { ok: bool },
}

impl View for NavState {
    type V = NavView;

    open spec fn view(&self) -> NavView {
        NavView {
            artists: self.artists.deep_view(),
            albums: self.albums.deep_view(),
            tracks: self.tracks.deep_view(),
            current_artist_name: self.current_artist_name@,
            current_album_name: self.current_album_name@,
            level: self.level,
            wifi_networks: self.wifi_networks.deep_view(),
            wifi_enabled: self.wifi_enabled,
            selected_wifi_idx: self.selected_wifi_idx as int,
            bt_devices: self.bt_devices.deep_view(),
            bt_enabled: self.bt_enabled,
            selected_bt_idx: self.selected_bt_idx as int,
            keyboard_wifi_ssid: self.keyboard_wifi_ssid.deep_view(),
        }
    }
}

impl DeepView for NavCommand {
    type V = NavCommandView;

    open spec fn deep_view(&self) -> NavCommandView {
        match self {
            NavCommand::MenuSelect(idx) => NavCommandView::MenuSelect(*idx as int),
            NavCommand::LibrarySelect(idx) => NavCommandView::LibrarySelect(*idx as int),
            NavCommand::Back => NavCommandView::Back,
            NavCommand::KeyboardSubmitted(text) => NavCommandView::KeyboardSubmitted(text@),
            NavCommand::KeyboardDismissed => NavCommandView::KeyboardDismissed,
        }
    }
}

impl DeepView for NavAction {
    type V = NavActionView;

    open spec fn deep_view(&self) -> NavActionView {
        match self {
            NavAction::Update(update) => NavActionView::Update(update.deep_view()),
            NavAction::Player(command) => NavActionView::Player(command.deep_view()),
            NavAction::RefreshStatus => NavActionView::RefreshStatus,
            NavAction::Wait(secs) => NavActionView::Wait(*secs),
            NavAction::WifiToggle(enable) => NavActionView::WifiToggle(*enable),
            NavAction::BtToggle(enable) => NavActionView::BtToggle(*enable),
            NavAction::FetchArtists => NavActionView::FetchArtists,
            NavAction::FetchAlbums { artist_id, artist_name } => NavActionView::FetchAlbums {
                artist_id: artist_id@,
                artist_name: artist_name@,
            },
            NavAction::FetchTracks { album_id, album_name } => NavActionView::FetchTracks {
                album_id: album_id@,
                album_name: album_name@,
            },
            NavAction::LoadStarred => NavActionView::LoadStarred,
            NavAction::ScanWifi(reason) => NavActionView::ScanWifi(*reason),
            NavAction::WifiConnect { ssid } => NavActionView::WifiConnect { ssid: ssid@ },
            NavAction::WifiDisconnect => NavActionView::WifiDisconnect,
            NavAction::ListBt(reason) => NavActionView::ListBt(*reason),
            NavAction::ScanBt => NavActionView::ScanBt,
            NavAction::BtConnect { address } => NavActionView::BtConnect { address: address@ },
            NavAction::BtDisconnect { address } => NavActionView::BtDisconnect {
                address: address@,
            },
        }
    }
}

impl DeepView for NavReply {
    type V = NavReplyView;

    open spec fn deep_view(&self) -> NavReplyView {
        match self {
            NavReply::Artists(artists) => NavReplyView::Artists(artists.deep_view()),
            NavReply::Albums { artist_name, albums } => NavReplyView::Albums {
                artist_name: artist_name@,
                albums: albums.deep_view(),
            },
            NavReply::Tracks { album_name, tracks } => NavReplyView::Tracks {
                album_name: album_name@,
                tracks: tracks.deep_view(),
            },
            NavReply::Starred(tracks) => NavReplyView::Starred(tracks.deep_view()),
            NavReply::WifiNetworks { reason, networks } => NavReplyView::WifiNetworks {
                reason: *reason,
                networks: networks.deep_view(),
            },
            NavReply::WifiConnected { ok } => NavReplyView::WifiConnected { ok: *ok },
            NavReply::WifiDisconnected { ok } => NavReplyView::WifiDisconnected { ok: *ok },
            NavReply::BtDevices { listing, devices } => NavReplyView::BtDevices {
                listing: *listing,
                devices: devices.deep_view(),
            },
            NavReply::BtScanned(devices) => NavReplyView::BtScanned(devices.deep_view()),
            NavReply::BtConnected { ok } => NavReplyView::BtConnected { ok: *ok },
            NavReply::BtDisconnected { ok } => NavReplyView::BtDisconnected { ok: *ok },
        }
    }
}

impl Default for NavState {
    fn default() -> (r: Self)
        ensures
            r@ == NavView::initial(),
            r@.well_formed(),
    {
        let r = NavState {
            artists: Vec::new(),
            albums: Vec::new(),
            tracks: Vec::new(),
            current_artist_name: String::new(),
            current_album_name: String::new(),
            level: LibraryLevel::Artists,
            wifi_networks: Vec::new(),
            wifi_enabled: false,
            selected_wifi_idx: 0,
            bt_devices: Vec::new(),
            bt_enabled: false,
            selected_bt_idx: 0,
            keyboard_wifi_ssid: None,
        };
        assert(r@.artists =~= Seq::<ArtistView>::empty());
        assert(r@.albums =~= Seq::<AlbumView>::empty());
        assert(r@.tracks =~= Seq::<TrackView>::empty());
        assert(r@.wifi_networks =~= Seq::<WifiNetworkView>::empty());
        assert(r@.bt_devices =~= Seq::<BtDeviceView>::empty());
        r
    }
}

// ── Actions, as contracts write them ─────────────────────────────────────────

pub open spec fn replace_list(items: Seq<LibraryItemView>, header: Seq<char>) -> NavActionView {
    NavActionView::Update(ScreenUpdateView::ReplaceList { items, header })
}

pub open spec fn set_header(header: Seq<char>) -> NavActionView {
    NavActionView::Update(ScreenUpdateView::SetHeader(header))
}

pub open spec fn set_view(view: AppView) -> NavActionView {
    NavActionView::Update(ScreenUpdateView::SetView(view))
}

pub open spec fn open_empty(header: Seq<char>) -> NavActionView {
    NavActionView::Update(ScreenUpdateView::OpenEmpty { header })
}

pub open spec fn open_loading(row: LibraryItemView, header: Seq<char>) -> NavActionView {
    NavActionView::Update(ScreenUpdateView::OpenLoading { row, header })
}

/// The action brings something back.
pub open spec fn brings_reply(action: NavActionView) -> bool {
    match action {
        NavActionView::Update(_) => false,
        NavActionView::Player(_) => false,
        NavActionView::RefreshStatus => false,
        NavActionView::Wait(_) => false,
        NavActionView::WifiToggle(_) => false,
        NavActionView::BtToggle(_) => false,
        _ => true,
    }
}

// ── Transitions ──────────────────────────────────────────────────────────────

impl NavView {
    pub open spec fn initial() -> NavView {
        NavView {
            artists: Seq::empty(),
            albums: Seq::empty(),
            tracks: Seq::empty(),
            current_artist_name: Seq::empty(),
            current_album_name: Seq::empty(),
            level: LibraryLevel::Artists,
            wifi_networks: Seq::empty(),
            wifi_enabled: false,
            selected_wifi_idx: 0,
            bt_devices: Seq::empty(),
            bt_enabled: false,
            selected_bt_idx: 0,
            keyboard_wifi_ssid: None,
        }
    }

    /// The row of the network and that of the device whose details were opened
    /// have an index of 32 bits, and details are only shown of what is switched
    /// on.
    pub open spec fn well_formed(self) -> bool {
        &&& 0 <= self.selected_wifi_idx <= i32::MAX - 1
        &&& 0 <= self.selected_bt_idx <= i32::MAX - 2
        &&& self.level == LibraryLevel::WifiNetworkDetail ==> self.wifi_enabled
        &&& self.level == LibraryLevel::BtDeviceDetail ==> self.bt_enabled
    }

    /// After an entry of the menu.
    pub open spec fn after_menu(self, idx: int) -> NavView {
        if idx == 3 {
            NavView { level: LibraryLevel::SettingsRoot, ..self }
        } else {
            self
        }
    }

    /// What an entry of the menu asks for: Music, Starred, Now Playing, Settings,
    /// and the next theme.
    pub open spec fn menu_actions(self, idx: int, status: SystemStatusView) -> Seq<NavActionView> {
        if idx == 0 {
            seq![open_empty("Loading…"@), NavActionView::FetchArtists]
        } else if idx == 1 {
            seq![open_empty("Starred ★"@), NavActionView::LoadStarred]
        } else if idx == 2 {
            seq![set_view(AppView::NowPlaying)]
        } else if idx == 3 {
            seq![
                NavActionView::Update(
                    ScreenUpdateView::OpenList {
                        items: items::settings_rows(status),
                        header: "Settings"@,
                    },
                ),
            ]
        } else if idx == 4 {
            seq![NavActionView::Update(ScreenUpdateView::NextTheme)]
        } else {
            Seq::empty()
        }
    }

    /// The network whose details are shown, where it is still there.
    pub open spec fn shown_network(self) -> Option<WifiNetworkView> {
        if 0 <= self.selected_wifi_idx < self.wifi_networks.len() {
            Some(self.wifi_networks[self.selected_wifi_idx])
        } else {
            None
        }
    }

    /// The device whose details are shown, where it is still there.
    pub open spec fn shown_device(self) -> Option<BtDeviceView> {
        if 0 <= self.selected_bt_idx < self.bt_devices.len() {
            Some(self.bt_devices[self.selected_bt_idx])
        } else {
            None
        }
    }

    /// After a row of the settings.
    pub open spec fn after_settings(self, idx: int, status: SystemStatusView) -> NavView {
        if idx == 0 {
            NavView {
                wifi_enabled: status.wifi.enabled,
                wifi_networks: Seq::empty(),
                level: LibraryLevel::WifiList,
                ..self
            }
        } else if idx == 1 {
            NavView {
                bt_enabled: status.bluetooth.enabled,
                bt_devices: Seq::empty(),
                level: LibraryLevel::BtDeviceList,
                ..self
            }
        } else {
            self
        }
    }

    /// What a row of the settings asks for: the list with its toggle at once,
    /// the rest when it was scanned or listed.
    pub open spec fn settings_actions(self, idx: int, status: SystemStatusView) -> Seq<
        NavActionView,
    > {
        if idx == 0 {
            seq![
                open_loading(
                    items::wifi_toggle_row(status.wifi.enabled),
                    "Scanning for networks…"@,
                ),
                if status.wifi.enabled {
                    NavActionView::ScanWifi(WifiScanReason::Opened)
                } else {
                    replace_list(items::wifi_rows(false, Seq::empty()), "WiFi"@)
                },
            ]
        } else if idx == 1 {
            seq![
                open_loading(items::bt_toggle_row(status.bluetooth.enabled), "Loading…"@),
                if status.bluetooth.enabled {
                    NavActionView::ListBt(BtListReason::Opened)
                } else {
                    replace_list(items::bt_rows(false, Seq::empty()), "Bluetooth"@)
                },
            ]
        } else {
            Seq::empty()
        }
    }

    /// After a row of the WiFi list: the toggle, or a network.
    pub open spec fn after_wifi_row(self, idx: int) -> NavView {
        if idx == 0 {
            NavView { wifi_enabled: !self.wifi_enabled, wifi_networks: Seq::empty(), ..self }
        } else if self.wifi_enabled && 1 <= idx <= self.wifi_networks.len() {
            NavView {
                selected_wifi_idx: idx - 1,
                level: LibraryLevel::WifiNetworkDetail,
                ..self
            }
        } else {
            self
        }
    }

    pub open spec fn wifi_row_actions(self, idx: int) -> Seq<NavActionView> {
        if idx == 0 {
            if !self.wifi_enabled {
                seq![
                    NavActionView::WifiToggle(true),
                    open_loading(items::wifi_toggle_row(true), "Scanning for networks…"@),
                    set_header("Enabling WiFi…"@),
                    NavActionView::Wait(3),
                    set_header("Scanning…"@),
                    NavActionView::ScanWifi(WifiScanReason::Toggled),
                ]
            } else {
                seq![
                    NavActionView::WifiToggle(false),
                    replace_list(items::wifi_rows(false, Seq::empty()), "WiFi"@),
                    NavActionView::RefreshStatus,
                ]
            }
        } else if self.wifi_enabled && 1 <= idx <= self.wifi_networks.len() {
            let network = self.wifi_networks[idx - 1];
            seq![replace_list(items::wifi_detail_rows(network), network.ssid)]
        } else {
            Seq::empty()
        }
    }

    /// After a row of a network's details.
    pub open spec fn after_wifi_detail(self, idx: int) -> NavView {
        match self.shown_network() {
            Some(network) => if idx == 3 && network.secured && !network.connected {
                NavView { keyboard_wifi_ssid: Some(network.ssid), ..self }
            } else {
                self
            },
            None => self,
        }
    }

    pub open spec fn wifi_detail_actions(self, idx: int) -> Seq<NavActionView> {
        match self.shown_network() {
            Some(network) => if idx == 2 && network.connected {
                seq![set_header("Disconnecting…"@), NavActionView::WifiDisconnect]
            } else if idx == 2 {
                seq![
                    set_header("Connecting…"@),
                    NavActionView::WifiConnect { ssid: network.ssid },
                ]
            } else if idx == 3 && network.secured && !network.connected {
                seq![
                    NavActionView::Update(
                        ScreenUpdateView::OpenKeyboard {
                            prompt: "WiFi Password: "@ + network.ssid,
                        },
                    ),
                ]
            } else {
                Seq::empty()
            },
            None => Seq::empty(),
        }
    }

    /// After a row of the Bluetooth list: the toggle, the scan, or a device.
    pub open spec fn after_bt_row(self, idx: int) -> NavView {
        if idx == 0 {
            NavView { bt_enabled: !self.bt_enabled, bt_devices: Seq::empty(), ..self }
        } else if self.bt_enabled && 2 <= idx < self.bt_devices.len() + 2 {
            NavView { selected_bt_idx: idx - 2, level: LibraryLevel::BtDeviceDetail, ..self }
        } else {
            self
        }
    }

    pub open spec fn bt_row_actions(self, idx: int) -> Seq<NavActionView> {
        if idx == 0 {
            if !self.bt_enabled {
                seq![
                    NavActionView::BtToggle(true),
                    open_loading(items::bt_toggle_row(true), "Loading…"@),
                    NavActionView::ListBt(BtListReason::Toggled),
                ]
            } else {
                seq![
                    NavActionView::BtToggle(false),
                    open_loading(items::bt_toggle_row(false), "Loading…"@),
                    replace_list(items::bt_rows(false, Seq::empty()), "Bluetooth"@),
                    NavActionView::RefreshStatus,
                ]
            }
        } else if self.bt_enabled && idx == 1 {
            seq![
                set_header("Scanning… (~5s)"@),
                NavActionView::Update(ScreenUpdateView::SetEmptyText("Scanning for devices…"@)),
                NavActionView::ScanBt,
            ]
        } else if self.bt_enabled && 2 <= idx < self.bt_devices.len() + 2 {
            let device = self.bt_devices[idx - 2];
            seq![replace_list(items::bt_detail_rows(device), device.name)]
        } else {
            Seq::empty()
        }
    }

    pub open spec fn bt_detail_actions(self, idx: int) -> Seq<NavActionView> {
        match self.shown_device() {
            Some(device) => if idx == 1 && device.connected {
                seq![
                    set_header("Disconnecting…"@),
                    NavActionView::BtDisconnect { address: device.address },
                ]
            } else if idx == 1 {
                seq![
                    set_header("Connecting…"@),
                    NavActionView::BtConnect { address: device.address },
                ]
            } else {
                Seq::empty()
            },
            None => Seq::empty(),
        }
    }

    /// After a row of the list that is shown.
    pub open spec fn after_select(self, idx: int, status: SystemStatusView) -> NavView {
        match self.level {
            LibraryLevel::SettingsRoot => self.after_settings(idx, status),
            LibraryLevel::WifiList => self.after_wifi_row(idx),
            LibraryLevel::WifiNetworkDetail => self.after_wifi_detail(idx),
            LibraryLevel::BtDeviceList => self.after_bt_row(idx),
            _ => self,
        }
    }

    /// What a row of the list that is shown asks for. An artist and an album are
    /// fetched; a track plays, with those of its list around it.
    pub open spec fn select_actions(self, idx: int, status: SystemStatusView) -> Seq<
        NavActionView,
    > {
        match self.level {
            LibraryLevel::Artists => if 0 <= idx < self.artists.len() {
                seq![
                    set_header("Loading…"@),
                    NavActionView::FetchAlbums {
                        artist_id: self.artists[idx].id,
                        artist_name: self.artists[idx].name,
                    },
                ]
            } else {
                Seq::empty()
            },
            LibraryLevel::Albums => if 0 <= idx < self.albums.len() {
                seq![
                    set_header("Loading…"@),
                    NavActionView::FetchTracks {
                        album_id: self.albums[idx].id,
                        album_name: self.albums[idx].name,
                    },
                ]
            } else {
                Seq::empty()
            },
            LibraryLevel::Tracks | LibraryLevel::Starred => if 0 <= idx < self.tracks.len() {
                seq![
                    NavActionView::Player(
                        PlayerCommandView::PlayQueue {
                            tracks: self.tracks,
                            start_index: idx as usize,
                        },
                    ),
                    set_view(AppView::NowPlaying),
                ]
            } else {
                Seq::empty()
            },
            LibraryLevel::SettingsRoot => self.settings_actions(idx, status),
            LibraryLevel::WifiList => self.wifi_row_actions(idx),
            LibraryLevel::WifiNetworkDetail => self.wifi_detail_actions(idx),
            LibraryLevel::BtDeviceList => self.bt_row_actions(idx),
            LibraryLevel::BtDeviceDetail => self.bt_detail_actions(idx),
        }
    }

    /// One level up. The top levels stay, as the menu takes their place.
    pub open spec fn after_back(self) -> NavView {
        NavView {
            level: match self.level {
                LibraryLevel::Tracks => LibraryLevel::Albums,
                LibraryLevel::Albums => LibraryLevel::Artists,
                LibraryLevel::WifiNetworkDetail => LibraryLevel::WifiList,
                LibraryLevel::BtDeviceDetail => LibraryLevel::BtDeviceList,
                LibraryLevel::WifiList | LibraryLevel::BtDeviceList => LibraryLevel::SettingsRoot,
                top => top,
            },
            ..self
        }
    }

    /// What going a level up asks for. The lists come from memory, with the row
    /// selected from which a network or a device was opened.
    pub open spec fn back_actions(self, status: SystemStatusView) -> Seq<NavActionView> {
        match self.level {
            LibraryLevel::Tracks => seq![
                replace_list(items::album_items(self.albums), self.current_artist_name),
            ],
            LibraryLevel::Albums => seq![
                replace_list(items::artist_items(self.artists), "Artists"@),
            ],
            LibraryLevel::Artists
            | LibraryLevel::Starred
            | LibraryLevel::SettingsRoot => seq![set_view(AppView::Menu)],
            LibraryLevel::WifiNetworkDetail => seq![
                replace_list(items::wifi_rows(self.wifi_enabled, self.wifi_networks), "WiFi"@),
                NavActionView::Update(ScreenUpdateView::SelectRow(self.selected_wifi_idx + 1)),
            ],
            LibraryLevel::BtDeviceDetail => seq![
                replace_list(items::bt_rows(self.bt_enabled, self.bt_devices), "Bluetooth"@),
                NavActionView::Update(ScreenUpdateView::SelectRow(self.selected_bt_idx + 2)),
            ],
            LibraryLevel::WifiList
            | LibraryLevel::BtDeviceList => seq![
                replace_list(items::settings_rows(status), "Settings"@),
            ],
        }
    }

    /// After a command.
    pub open spec fn after_command(self, command: NavCommandView, status: SystemStatusView) -> NavView {
        match command {
            NavCommandView::MenuSelect(idx) => self.after_menu(idx),
            NavCommandView::LibrarySelect(idx) => self.after_select(idx, status),
            NavCommandView::Back => self.after_back(),
            NavCommandView::KeyboardSubmitted(_) | NavCommandView::KeyboardDismissed => NavView {
                keyboard_wifi_ssid: None,
                ..self
            },
        }
    }

    /// What a command asks for.
    pub open spec fn command_actions(
        self,
        command: NavCommandView,
        status: SystemStatusView,
    ) -> Seq<NavActionView> {
        match command {
            NavCommandView::MenuSelect(idx) => self.menu_actions(idx, status),
            NavCommandView::LibrarySelect(idx) => self.select_actions(idx, status),
            NavCommandView::Back => self.back_actions(status),
            NavCommandView::KeyboardSubmitted(_)
            | NavCommandView::KeyboardDismissed => Seq::empty(),
        }
    }

    /// After a scan for networks. The details of a network that is gone give
    /// way to the list.
    pub open spec fn after_wifi_scan(
        self,
        reason: WifiScanReason,
        networks: Seq<WifiNetworkView>,
    ) -> NavView {
        let scanned = NavView { wifi_networks: networks, ..self };
        match reason {
            WifiScanReason::Opened | WifiScanReason::Toggled => scanned,
            WifiScanReason::Connected
            | WifiScanReason::Disconnected => if scanned.shown_network() is None {
                NavView { level: LibraryLevel::WifiList, ..scanned }
            } else {
                scanned
            },
        }
    }

    /// What is left to do after a scan for networks.
    pub open spec fn wifi_scan_actions(
        self,
        reason: WifiScanReason,
        networks: Seq<WifiNetworkView>,
    ) -> Seq<NavActionView> {
        let scanned = NavView { wifi_networks: networks, ..self };
        match reason {
            WifiScanReason::Opened => seq![
                replace_list(items::wifi_rows(self.wifi_enabled, networks), "WiFi"@),
            ],
            WifiScanReason::Toggled => seq![
                replace_list(items::wifi_rows(self.wifi_enabled, networks), "WiFi"@),
                NavActionView::RefreshStatus,
            ],
            WifiScanReason::Connected | WifiScanReason::Disconnected => seq![
                NavActionView::RefreshStatus,
                match scanned.shown_network() {
                    Some(network) => replace_list(items::wifi_detail_rows(network), network.ssid),
                    None => replace_list(
                        items::wifi_rows(
                            self.wifi_enabled || reason == WifiScanReason::Connected,
                            networks,
                        ),
                        "WiFi"@,
                    ),
                },
            ],
        }
    }

    /// What is left to do after the devices were listed.
    pub open spec fn bt_list_actions(
        self,
        reason: BtListReason,
        devices: Seq<BtDeviceView>,
    ) -> Seq<NavActionView> {
        let listed = NavView { bt_devices: devices, ..self };
        match reason {
            BtListReason::Opened => seq![
                replace_list(items::bt_rows(self.bt_enabled, devices), "Bluetooth"@),
            ],
            BtListReason::Toggled => seq![
                replace_list(items::bt_rows(self.bt_enabled, devices), "Bluetooth"@),
                NavActionView::RefreshStatus,
            ],
            BtListReason::Changed => match listed.shown_device() {
                Some(device) => seq![
                    NavActionView::RefreshStatus,
                    replace_list(items::bt_detail_rows(device), device.name),
                ],
                None => seq![NavActionView::RefreshStatus],
            },
        }
    }

    /// After something was brought back. What failed, and a list of tracks
    /// without any, changes nothing.
    pub open spec fn after_reply(self, reply: NavReplyView) -> NavView {
        match reply {
            NavReplyView::Artists(Some(artists)) => NavView {
                artists,
                level: LibraryLevel::Artists,
                ..self
            },
            NavReplyView::Albums { artist_name, albums: Some(albums) } => NavView {
                albums,
                current_artist_name: artist_name,
                level: LibraryLevel::Albums,
                ..self
            },
            NavReplyView::Tracks { album_name, tracks: Some(tracks) } => if tracks.len() > 0 {
                NavView {
                    tracks,
                    current_album_name: album_name,
                    level: LibraryLevel::Tracks,
                    ..self
                }
            } else {
                self
            },
            NavReplyView::Starred(Some(tracks)) => if tracks.len() > 0 {
                NavView { tracks, level: LibraryLevel::Starred, ..self }
            } else {
                self
            },
            NavReplyView::WifiNetworks { reason, networks } => self.after_wifi_scan(
                reason,
                networks,
            ),
            NavReplyView::BtDevices { listing: _, devices } => NavView {
                bt_devices: devices,
                ..self
            },
            NavReplyView::BtScanned(devices) => NavView { bt_devices: devices, ..self },
            _ => self,
        }
    }

    /// What is left to do after something was brought back.
    pub open spec fn reply_actions(self, reply: NavReplyView) -> Seq<NavActionView> {
        match reply {
            NavReplyView::Artists(artists) => match artists {
                Some(artists) => seq![replace_list(items::artist_items(artists), "Artists"@)],
                None => seq![set_header("Error loading artists"@)],
            },
            NavReplyView::Albums { artist_name, albums } => match albums {
                Some(albums) => seq![replace_list(items::album_items(albums), artist_name)],
                None => seq![set_header("Error loading albums"@)],
            },
            NavReplyView::Tracks { album_name, tracks } => match tracks {
                Some(tracks) => if tracks.len() > 0 {
                    seq![replace_list(items::track_items(tracks), album_name)]
                } else {
                    seq![set_header("No tracks found"@)]
                },
                None => seq![set_header("Error loading tracks"@)],
            },
            NavReplyView::Starred(tracks) => match tracks {
                Some(tracks) => if tracks.len() > 0 {
                    seq![replace_list(items::track_items(tracks), "Starred ★"@)]
                } else {
                    seq![set_header("No starred tracks yet"@)]
                },
                None => seq![set_header("Error loading starred"@)],
            },
            NavReplyView::WifiNetworks { reason, networks } => self.wifi_scan_actions(
                reason,
                networks,
            ),
            NavReplyView::WifiConnected { ok } => if ok {
                seq![NavActionView::ScanWifi(WifiScanReason::Connected)]
            } else {
                seq![set_header("Connection failed"@)]
            },
            NavReplyView::WifiDisconnected { ok } => if ok {
                seq![NavActionView::ScanWifi(WifiScanReason::Disconnected)]
            } else {
                seq![set_header("Disconnect failed"@)]
            },
            NavReplyView::BtDevices { listing, devices } => self.bt_list_actions(listing, devices),
            NavReplyView::BtScanned(devices) => seq![
                replace_list(items::bt_rows(true, devices), "Bluetooth"@),
            ],
            NavReplyView::BtConnected { ok } => if ok {
                seq![NavActionView::ListBt(BtListReason::Changed)]
            } else {
                seq![set_header("Connection failed"@)]
            },
            NavReplyView::BtDisconnected { ok } => if ok {
                seq![NavActionView::ListBt(BtListReason::Changed)]
            } else {
                seq![set_header("Disconnect failed"@)]
            },
        }
    }
}

// ── Steps ────────────────────────────────────────────────────────────────────

fn act_replace_list(items: Vec<LibraryItem>, header: &str) -> (r: NavAction)
    ensures
        r.deep_view() == replace_list(items.deep_view(), header@),
{
    NavAction::Update(ScreenUpdate::ReplaceList { items, header: header.to_string() })
}

fn act_set_header(header: &'static str) -> (r: NavAction)
    ensures
        r.deep_view() == set_header(header@),
{
    NavAction::Update(ScreenUpdate::SetHeader(header))
}

fn no_actions() -> (r: Vec<NavAction>)
    ensures
        r.deep_view() == Seq::<NavActionView>::empty(),
{
    let r: Vec<NavAction> = Vec::new();
    assert(r.deep_view() =~= Seq::<NavActionView>::empty());
    r
}

fn one_action(a: NavAction) -> (r: Vec<NavAction>)
    ensures
        r.deep_view() == seq![a.deep_view()],
{
    let mut r: Vec<NavAction> = Vec::new();
    r.push(a);
    assert(r.deep_view() =~= seq![a.deep_view()]);
    r
}

fn two_actions(a: NavAction, b: NavAction) -> (r: Vec<NavAction>)
    ensures
        r.deep_view() == seq![a.deep_view(), b.deep_view()],
{
    let mut r: Vec<NavAction> = Vec::new();
    r.push(a);
    r.push(b);
    assert(r.deep_view() =~= seq![a.deep_view(), b.deep_view()]);
    r
}

fn no_networks() -> (r: Vec<WifiNetwork>)
    ensures
        r.deep_view() == Seq::<WifiNetworkView>::empty(),
{
    let r: Vec<WifiNetwork> = Vec::new();
    assert(r.deep_view() =~= Seq::<WifiNetworkView>::empty());
    r
}

fn no_devices() -> (r: Vec<BtDevice>)
    ensures
        r.deep_view() == Seq::<BtDeviceView>::empty(),
{
    let r: Vec<BtDevice> = Vec::new();
    assert(r.deep_view() =~= Seq::<BtDeviceView>::empty());
    r
}

impl NavState {
    /// An entry of the menu.
    pub fn handle_menu_select(&mut self, idx: i32, status: &SystemStatus) -> (r: Vec<NavAction>)
        ensures
            final(self)@ == old(self)@.after_menu(idx as int),
            r.deep_view() == old(self)@.menu_actions(idx as int, status.deep_view()),
    {
        match idx {
            0 => two_actions(
                NavAction::Update(ScreenUpdate::OpenEmpty { header: "Loading…".to_string() }),
                NavAction::FetchArtists,
            ),
            1 => two_actions(
                NavAction::Update(ScreenUpdate::OpenEmpty { header: "Starred ★".to_string() }),
                NavAction::LoadStarred,
            ),
            2 => one_action(NavAction::Update(ScreenUpdate::SetView(AppView::NowPlaying))),
            3 => {
                self.level = LibraryLevel::SettingsRoot;
                one_action(
                    NavAction::Update(
                        ScreenUpdate::OpenList {
                            items: items::settings_items(status),
                            header: "Settings".to_string(),
                        },
                    ),
                )
            },
            4 => one_action(NavAction::Update(ScreenUpdate::NextTheme)),
            _ => no_actions(),
        }
    }

    fn select_setting(&mut self, idx: i32, status: &SystemStatus) -> (r: Vec<NavAction>)
        ensures
            final(self)@ == old(self)@.after_settings(idx as int, status.deep_view()),
            r.deep_view() == old(self)@.settings_actions(idx as int, status.deep_view()),
    {
        match idx {
            0 => {
                self.wifi_enabled = status.wifi.enabled;
                self.wifi_networks = no_networks();
                self.level = LibraryLevel::WifiList;
                let loading: NavAction = NavAction::Update(
                    ScreenUpdate::OpenLoading {
                        row: items::wifi_toggle_item(self.wifi_enabled),
                        header: "Scanning for networks…".to_string(),
                    },
                );
                let rest: NavAction = if self.wifi_enabled {
                    NavAction::ScanWifi(WifiScanReason::Opened)
                } else {
                    act_replace_list(
                        items::build_wifi_items(false, self.wifi_networks.as_slice()),
                        "WiFi",
                    )
                };
                two_actions(loading, rest)
            },
            1 => {
                self.bt_enabled = status.bluetooth.enabled;
                self.bt_devices = no_devices();
                self.level = LibraryLevel::BtDeviceList;
                let loading: NavAction = NavAction::Update(
                    ScreenUpdate::OpenLoading {
                        row: items::bt_toggle_item(self.bt_enabled),
                        header: "Loading…".to_string(),
                    },
                );
                let rest: NavAction = if self.bt_enabled {
                    NavAction::ListBt(BtListReason::Opened)
                } else {
                    act_replace_list(
                        items::build_bt_items(false, self.bt_devices.as_slice()),
                        "Bluetooth",
                    )
                };
                two_actions(loading, rest)
            },
            _ => no_actions(),
        }
    }

    fn select_wifi_row(&mut self, idx: i32) -> (r: Vec<NavAction>)
        requires
            old(self)@.well_formed(),
            old(self)@.level == LibraryLevel::WifiList,
        ensures
            final(self)@ == old(self)@.after_wifi_row(idx as int),
            final(self)@.well_formed(),
            r.deep_view() == old(self)@.wifi_row_actions(idx as int),
    {
        if idx == 0 {
            let enable: bool = !self.wifi_enabled;
            self.wifi_enabled = enable;
            self.wifi_networks = no_networks();
            let mut actions: Vec<NavAction> = Vec::new();
            actions.push(NavAction::WifiToggle(enable));
            if enable {
                actions.push(
                    NavAction::Update(
                        ScreenUpdate::OpenLoading {
                            row: items::wifi_toggle_item(true),
                            header: "Scanning for networks…".to_string(),
                        },
                    ),
                );
                actions.push(act_set_header("Enabling WiFi…"));
                actions.push(NavAction::Wait(3));
                actions.push(act_set_header("Scanning…"));
                actions.push(NavAction::ScanWifi(WifiScanReason::Toggled));
            } else {
                actions.push(
                    act_replace_list(
                        items::build_wifi_items(false, self.wifi_networks.as_slice()),
                        "WiFi",
                    ),
                );
                actions.push(NavAction::RefreshStatus);
            }
            assert(actions.deep_view() =~= old(self)@.wifi_row_actions(idx as int));
            return actions;
        }
        if self.wifi_enabled && idx >= 1 {
            let net_idx: usize = (idx - 1) as usize;
            if net_idx < self.wifi_networks.len() {
                self.selected_wifi_idx = net_idx;
                self.level = LibraryLevel::WifiNetworkDetail;
                let network: &WifiNetwork = &self.wifi_networks[net_idx];
                return one_action(
                    act_replace_list(
                        items::build_wifi_network_detail_items(network),
                        network.ssid.as_str(),
                    ),
                );
            }
        }
        no_actions()
    }

    fn select_wifi_detail(&mut self, idx: i32) -> (r: Vec<NavAction>)
        requires
            old(self)@.well_formed(),
        ensures
            final(self)@ == old(self)@.after_wifi_detail(idx as int),
            r.deep_view() == old(self)@.wifi_detail_actions(idx as int),
    {
        if self.selected_wifi_idx >= self.wifi_networks.len() {
            return no_actions();
        }
        let network: WifiNetwork = self.wifi_networks[self.selected_wifi_idx].clone();
        if idx == 2 {
            if network.connected {
                two_actions(act_set_header("Disconnecting…"), NavAction::WifiDisconnect)
            } else {
                two_actions(
                    act_set_header("Connecting…"),
                    NavAction::WifiConnect { ssid: network.ssid },
                )
            }
        } else if idx == 3 && network.secured && !network.connected {
            let prompt: String = "WiFi Password: ".to_string().concat(network.ssid.as_str());
            self.keyboard_wifi_ssid = Some(network.ssid);
            one_action(NavAction::Update(ScreenUpdate::OpenKeyboard { prompt }))
        } else {
            no_actions()
        }
    }

    fn select_bt_row(&mut self, idx: i32) -> (r: Vec<NavAction>)
        requires
            old(self)@.well_formed(),
            old(self)@.level == LibraryLevel::BtDeviceList,
        ensures
            final(self)@ == old(self)@.after_bt_row(idx as int),
            final(self)@.well_formed(),
            r.deep_view() == old(self)@.bt_row_actions(idx as int),
    {
        if idx == 0 {
            let enable: bool = !self.bt_enabled;
            self.bt_enabled = enable;
            self.bt_devices = no_devices();
            let mut actions: Vec<NavAction> = Vec::new();
            actions.push(NavAction::BtToggle(enable));
            actions.push(
                NavAction::Update(
                    ScreenUpdate::OpenLoading {
                        row: items::bt_toggle_item(enable),
                        header: "Loading…".to_string(),
                    },
                ),
            );
            if enable {
                actions.push(NavAction::ListBt(BtListReason::Toggled));
            } else {
                actions.push(
                    act_replace_list(
                        items::build_bt_items(false, self.bt_devices.as_slice()),
                        "Bluetooth",
                    ),
                );
                actions.push(NavAction::RefreshStatus);
            }
            assert(actions.deep_view() =~= old(self)@.bt_row_actions(idx as int));
            return actions;
        }
        if self.bt_enabled && idx == 1 {
            let mut actions: Vec<NavAction> = Vec::new();
            actions.push(act_set_header("Scanning… (~5s)"));
            actions.push(NavAction::Update(ScreenUpdate::SetEmptyText("Scanning for devices…")));
            actions.push(NavAction::ScanBt);
            assert(actions.deep_view() =~= old(self)@.bt_row_actions(idx as int));
            return actions;
        }
        if self.bt_enabled && idx >= 2 {
            let dev_idx: usize = (idx - 2) as usize;
            if dev_idx < self.bt_devices.len() {
                self.selected_bt_idx = dev_idx;
                self.level = LibraryLevel::BtDeviceDetail;
                let device: &BtDevice = &self.bt_devices[dev_idx];
                return one_action(
                    act_replace_list(
                        items::build_bt_device_detail_items(device),
                        device.name.as_str(),
                    ),
                );
            }
        }
        no_actions()
    }

    fn select_bt_detail(&self, idx: i32) -> (r: Vec<NavAction>)
        requires
            self@.well_formed(),
        ensures
            r.deep_view() == self@.bt_detail_actions(idx as int),
    {
        if self.selected_bt_idx >= self.bt_devices.len() || idx != 1 {
            return no_actions();
        }
        let device: BtDevice = self.bt_devices[self.selected_bt_idx].clone();
        if device.connected {
            two_actions(
                act_set_header("Disconnecting…"),
                NavAction::BtDisconnect { address: device.address },
            )
        } else {
            two_actions(
                act_set_header("Connecting…"),
                NavAction::BtConnect { address: device.address },
            )
        }
    }

    /// A row of the list that is shown.
    pub fn handle_library_select(&mut self, idx: i32, status: &SystemStatus) -> (r: Vec<NavAction>)
        requires
            old(self)@.well_formed(),
        ensures
            final(self)@ == old(self)@.after_select(idx as int, status.deep_view()),
            final(self)@.well_formed(),
            r.deep_view() == old(self)@.select_actions(idx as int, status.deep_view()),
    {
        match self.level {
            LibraryLevel::Artists => {
                if idx < 0 || idx as usize >= self.artists.len() {
                    return no_actions();
                }
                let artist: &Artist = &self.artists[idx as usize];
                two_actions(
                    act_set_header("Loading…"),
                    NavAction::FetchAlbums {
                        artist_id: artist.id.clone(),
                        artist_name: artist.name.clone(),
                    },
                )
            },
            LibraryLevel::Albums => {
                if idx < 0 || idx as usize >= self.albums.len() {
                    return no_actions();
                }
                let album: &Album = &self.albums[idx as usize];
                two_actions(
                    act_set_header("Loading…"),
                    NavAction::FetchTracks {
                        album_id: album.id.clone(),
                        album_name: album.name.clone(),
                    },
                )
            },
            LibraryLevel::Tracks | LibraryLevel::Starred => {
                if idx < 0 || idx as usize >= self.tracks.len() {
                    return no_actions();
                }
                let tracks: Vec<Track> = self.tracks.clone();
                assert(tracks@ =~= self.tracks@);
                two_actions(
                    NavAction::Player(
                        PlayerCommand::PlayQueue { tracks, start_index: idx as usize },
                    ),
                    NavAction::Update(ScreenUpdate::SetView(AppView::NowPlaying)),
                )
            },
            LibraryLevel::SettingsRoot => self.select_setting(idx, status),
            LibraryLevel::WifiList => self.select_wifi_row(idx),
            LibraryLevel::WifiNetworkDetail => self.select_wifi_detail(idx),
            LibraryLevel::BtDeviceList => self.select_bt_row(idx),
            LibraryLevel::BtDeviceDetail => self.select_bt_detail(idx),
        }
    }

    /// One level up.
    pub fn handle_back(&mut self, status: &SystemStatus) -> (r: Vec<NavAction>)
        requires
            old(self)@.well_formed(),
        ensures
            final(self)@ == old(self)@.after_back(),
            final(self)@.well_formed(),
            r.deep_view() == old(self)@.back_actions(status.deep_view()),
    {
        match self.level {
            LibraryLevel::Tracks => {
                self.level = LibraryLevel::Albums;
                one_action(
                    act_replace_list(
                        items::albums_to_items(self.albums.as_slice()),
                        self.current_artist_name.as_str(),
                    ),
                )
            },
            LibraryLevel::Albums => {
                self.level = LibraryLevel::Artists;
                one_action(
                    act_replace_list(items::artists_to_items(self.artists.as_slice()), "Artists"),
                )
            },
            LibraryLevel::Artists
            | LibraryLevel::Starred
            | LibraryLevel::SettingsRoot => one_action(
                NavAction::Update(ScreenUpdate::SetView(AppView::Menu)),
            ),
            LibraryLevel::WifiNetworkDetail => {
                self.level = LibraryLevel::WifiList;
                two_actions(
                    act_replace_list(
                        items::build_wifi_items(self.wifi_enabled, self.wifi_networks.as_slice()),
                        "WiFi",
                    ),
                    NavAction::Update(
                        ScreenUpdate::SelectRow((self.selected_wifi_idx + 1) as i32),
                    ),
                )
            },
            LibraryLevel::BtDeviceDetail => {
                self.level = LibraryLevel::BtDeviceList;
                two_actions(
                    act_replace_list(
                        items::build_bt_items(self.bt_enabled, self.bt_devices.as_slice()),
                        "Bluetooth",
                    ),
                    NavAction::Update(ScreenUpdate::SelectRow((self.selected_bt_idx + 2) as i32)),
                )
            },
            LibraryLevel::WifiList | LibraryLevel::BtDeviceList => {
                self.level = LibraryLevel::SettingsRoot;
                one_action(act_replace_list(items::settings_items(status), "Settings"))
            },
        }
    }

    /// A command, in the order in which they come.
    pub fn handle(&mut self, command: NavCommand, status: &SystemStatus) -> (r: Vec<NavAction>)
        requires
            old(self)@.well_formed(),
        ensures
            final(self)@ == old(self)@.after_command(command.deep_view(), status.deep_view()),
            final(self)@.well_formed(),
            r.deep_view() == old(self)@.command_actions(command.deep_view(), status.deep_view()),
    {
        match command {
            NavCommand::MenuSelect(idx) => self.handle_menu_select(idx, status),
            NavCommand::LibrarySelect(idx) => self.handle_library_select(idx, status),
            NavCommand::Back => self.handle_back(status),
            NavCommand::KeyboardSubmitted(_) | NavCommand::KeyboardDismissed => {
                self.keyboard_wifi_ssid = None;
                no_actions()
            },
        }
    }

    fn wifi_scanned(&mut self, reason: WifiScanReason, networks: Vec<WifiNetwork>) -> (r: Vec<
        NavAction,
    >)
        requires
            old(self)@.well_formed(),
        ensures
            final(self)@ == old(self)@.after_wifi_scan(reason, networks.deep_view()),
            r.deep_view() == old(self)@.wifi_scan_actions(reason, networks.deep_view()),
    {
        self.wifi_networks = networks;
        let enabled: bool = self.wifi_enabled || reason == WifiScanReason::Connected;
        match reason {
            WifiScanReason::Opened => one_action(
                act_replace_list(
                    items::build_wifi_items(self.wifi_enabled, self.wifi_networks.as_slice()),
                    "WiFi",
                ),
            ),
            WifiScanReason::Toggled => two_actions(
                act_replace_list(
                    items::build_wifi_items(self.wifi_enabled, self.wifi_networks.as_slice()),
                    "WiFi",
                ),
                NavAction::RefreshStatus,
            ),
            WifiScanReason::Connected | WifiScanReason::Disconnected => {
                if self.selected_wifi_idx < self.wifi_networks.len() {
                    let network: &WifiNetwork = &self.wifi_networks[self.selected_wifi_idx];
                    two_actions(
                        NavAction::RefreshStatus,
                        act_replace_list(
                            items::build_wifi_network_detail_items(network),
                            network.ssid.as_str(),
                        ),
                    )
                } else {
                    self.level = LibraryLevel::WifiList;
                    two_actions(
                        NavAction::RefreshStatus,
                        act_replace_list(
                            items::build_wifi_items(enabled, self.wifi_networks.as_slice()),
                            "WiFi",
                        ),
                    )
                }
            },
        }
    }

    fn bt_listed(&mut self, reason: BtListReason, devices: Vec<BtDevice>) -> (r: Vec<NavAction>)
        requires
            old(self)@.well_formed(),
        ensures
            final(self)@ == (NavView { bt_devices: devices.deep_view(), ..old(self)@ }),
            r.deep_view() == old(self)@.bt_list_actions(reason, devices.deep_view()),
    {
        self.bt_devices = devices;
        match reason {
            BtListReason::Opened => one_action(
                act_replace_list(
                    items::build_bt_items(self.bt_enabled, self.bt_devices.as_slice()),
                    "Bluetooth",
                ),
            ),
            BtListReason::Toggled => two_actions(
                act_replace_list(
                    items::build_bt_items(self.bt_enabled, self.bt_devices.as_slice()),
                    "Bluetooth",
                ),
                NavAction::RefreshStatus,
            ),
            BtListReason::Changed => {
                if self.selected_bt_idx < self.bt_devices.len() {
                    let device: &BtDevice = &self.bt_devices[self.selected_bt_idx];
                    two_actions(
                        NavAction::RefreshStatus,
                        act_replace_list(
                            items::build_bt_device_detail_items(device),
                            device.name.as_str(),
                        ),
                    )
                } else {
                    one_action(NavAction::RefreshStatus)
                }
            },
        }
    }

    /// What the last of a list of actions brought back.
    pub fn reply(&mut self, reply: NavReply) -> (r: Vec<NavAction>)
        requires
            old(self)@.well_formed(),
        ensures
            final(self)@ == old(self)@.after_reply(reply.deep_view()),
            final(self)@.well_formed(),
            r.deep_view() == old(self)@.reply_actions(reply.deep_view()),
    {
        match reply {
            NavReply::Artists(artists) => match artists {
                Some(artists) => {
                    self.artists = artists;
                    self.level = LibraryLevel::Artists;
                    one_action(
                        act_replace_list(
                            items::artists_to_items(self.artists.as_slice()),
                            "Artists",
                        ),
                    )
                },
                None => one_action(act_set_header("Error loading artists")),
            },
            NavReply::Albums { artist_name, albums } => match albums {
                Some(albums) => {
                    self.albums = albums;
                    self.current_artist_name = artist_name;
                    self.level = LibraryLevel::Albums;
                    one_action(
                        act_replace_list(
                            items::albums_to_items(self.albums.as_slice()),
                            self.current_artist_name.as_str(),
                        ),
                    )
                },
                None => one_action(act_set_header("Error loading albums")),
            },
            NavReply::Tracks { album_name, tracks } => match tracks {
                Some(tracks) => {
                    if tracks.len() == 0 {
                        return one_action(act_set_header("No tracks found"));
                    }
                    self.tracks = tracks;
                    self.current_album_name = album_name;
                    self.level = LibraryLevel::Tracks;
                    one_action(
                        act_replace_list(
                            items::tracks_to_items(self.tracks.as_slice()),
                            self.current_album_name.as_str(),
                        ),
                    )
                },
                None => one_action(act_set_header("Error loading tracks")),
            },
            NavReply::Starred(tracks) => match tracks {
                Some(tracks) => {
                    if tracks.len() == 0 {
                        return one_action(act_set_header("No starred tracks yet"));
                    }
                    self.tracks = tracks;
                    self.level = LibraryLevel::Starred;
                    one_action(
                        act_replace_list(
                            items::tracks_to_items(self.tracks.as_slice()),
                            "Starred ★",
                        ),
                    )
                },
                None => one_action(act_set_header("Error loading starred")),
            },
            NavReply::WifiNetworks { reason, networks } => self.wifi_scanned(reason, networks),
            NavReply::WifiConnected { ok } => {
                if ok {
                    one_action(NavAction::ScanWifi(WifiScanReason::Connected))
                } else {
                    one_action(act_set_header("Connection failed"))
                }
            },
            NavReply::WifiDisconnected { ok } => {
                if ok {
                    one_action(NavAction::ScanWifi(WifiScanReason::Disconnected))
                } else {
                    one_action(act_set_header("Disconnect failed"))
                }
            },
            NavReply::BtDevices { listing, devices } => self.bt_listed(listing, devices),
            NavReply::BtScanned(devices) => {
                self.bt_devices = devices;
                one_action(
                    act_replace_list(
                        items::build_bt_items(true, self.bt_devices.as_slice()),
                        "Bluetooth",
                    ),
                )
            },
            NavReply::BtConnected { ok } => {
                if ok {
                    one_action(NavAction::ListBt(BtListReason::Changed))
                } else {
                    one_action(act_set_header("Connection failed"))
                }
            },
            NavReply::BtDisconnected { ok } => {
                if ok {
                    one_action(NavAction::ListBt(BtListReason::Changed))
                } else {
                    one_action(act_set_header("Disconnect failed"))
                }
            },
        }
    }
}

// ── Laws ─────────────────────────────────────────────────────────────────────

/// The window after actions were carried out.
pub open spec fn shown(screen: ScreenView, actions: Seq<NavActionView>) -> ScreenView
    decreases actions.len(),
{
    if actions.len() == 0 {
        screen
    } else {
        let before = shown(screen, actions.drop_last());
        match actions.last() {
            NavActionView::Update(update) => before.updated(update),
            _ => before,
        }
    }
}

/// How many levels lie between a list and the menu.
pub open spec fn depth(level: LibraryLevel) -> int {
    match level {
        LibraryLevel::Artists | LibraryLevel::Starred | LibraryLevel::SettingsRoot => 1,
        LibraryLevel::Albums | LibraryLevel::WifiList | LibraryLevel::BtDeviceList => 2,
        LibraryLevel::Tracks
        | LibraryLevel::WifiNetworkDetail
        | LibraryLevel::BtDeviceDetail => 3,
    }
}

/// Only the last action of a list brings something back.
pub proof fn law_one_reply_at_a_time(
    s: NavView,
    command: NavCommandView,
    reply: NavReplyView,
    status: SystemStatusView,
)
    ensures
        forall|i: int|
            0 <= i < s.command_actions(command, status).len() - 1 ==> !brings_reply(
                #[trigger] s.command_actions(command, status)[i],
            ),
        forall|i: int|
            0 <= i < s.reply_actions(reply).len() - 1 ==> !brings_reply(
                #[trigger] s.reply_actions(reply)[i],
            ),
{
}

/// Commands and replies keep what holds of every state.
pub proof fn law_steps_keep_the_state_well_formed(
    s: NavView,
    command: NavCommandView,
    reply: NavReplyView,
    status: SystemStatusView,
)
    requires
        s.well_formed(),
        command matches NavCommandView::LibrarySelect(idx) ==> idx <= i32::MAX,
    ensures
        NavView::initial().well_formed(),
        s.after_command(command, status).well_formed(),
        s.after_reply(reply).well_formed(),
{
}

/// Going back leads one level up each time, and from the top to the menu.
pub proof fn law_back_leads_to_the_menu(s: NavView, status: SystemStatusView)
    ensures
        1 <= depth(s.level) <= 3,
        depth(s.level) > 1 ==> depth(s.after_back().level) == depth(s.level) - 1,
        depth(s.level) == 1 ==> s.after_back() == s && s.back_actions(status) == seq![
            set_view(AppView::Menu),
        ],
{
}

/// Back from an artist's albums, and from an album's tracks, shows the list
/// from which they were opened.
pub proof fn law_back_from_albums_and_tracks(
    s: NavView,
    name: Seq<char>,
    albums: Seq<AlbumView>,
    tracks: Seq<TrackView>,
    status: SystemStatusView,
)
    requires
        tracks.len() > 0,
    ensures
        ({
            let opened = s.after_reply(
                NavReplyView::Albums { artist_name: name, albums: Some(albums) },
            );
            &&& opened.after_back().level == LibraryLevel::Artists
            &&& opened.after_back().artists == s.artists
            &&& opened.back_actions(status) == s.reply_actions(
                NavReplyView::Artists(Some(s.artists)),
            )
        }),
        ({
            let opened = s.after_reply(
                NavReplyView::Tracks { album_name: name, tracks: Some(tracks) },
            );
            &&& opened.after_back().level == LibraryLevel::Albums
            &&& opened.after_back().albums == s.albums
            &&& opened.back_actions(status) == s.reply_actions(
                NavReplyView::Albums {
                    artist_name: s.current_artist_name,
                    albums: Some(s.albums),
                },
            )
        }),
{
}

/// The window shows the networks, or the devices, that are listed.
pub open spec fn shows_list(s: NavView, screen: ScreenView) -> bool {
    &&& match s.level {
        LibraryLevel::WifiList => {
            &&& screen.library_items == items::wifi_rows(s.wifi_enabled, s.wifi_networks)
            &&& screen.library_header == "WiFi"@
        },
        LibraryLevel::BtDeviceList => {
            &&& screen.library_items == items::bt_rows(s.bt_enabled, s.bt_devices)
            &&& screen.library_header == "Bluetooth"@
        },
        _ => false,
    }
    &&& screen.library_item_count == screen.library_items.len()
}

/// The networks, or the devices, that were asked for when the list was opened or
/// switched on are shown as soon as they are there, and so are the devices that a
/// scan found.
pub proof fn law_lists_are_shown(
    s: NavView,
    screen: ScreenView,
    networks: Seq<WifiNetworkView>,
    devices: Seq<BtDeviceView>,
    scan: WifiScanReason,
    listing: BtListReason,
)
    requires
        scan == WifiScanReason::Opened || scan == WifiScanReason::Toggled,
        listing == BtListReason::Opened || listing == BtListReason::Toggled,
    ensures
        ({
            let reply = NavReplyView::WifiNetworks { reason: scan, networks };
            s.level == LibraryLevel::WifiList ==> shows_list(
                s.after_reply(reply),
                shown(screen, s.reply_actions(reply)),
            )
        }),
        ({
            let reply = NavReplyView::BtDevices { listing, devices };
            s.level == LibraryLevel::BtDeviceList ==> shows_list(
                s.after_reply(reply),
                shown(screen, s.reply_actions(reply)),
            )
        }),
        ({
            let reply = NavReplyView::BtScanned(devices);
            s.level == LibraryLevel::BtDeviceList && s.bt_enabled ==> shows_list(
                s.after_reply(reply),
                shown(screen, s.reply_actions(reply)),
            )
        }),
{
    reveal_with_fuel(shown, 3);
}

/// Back from the details of a network shows the list as it was, with the
/// network's row selected; the same holds of a device.
pub proof fn law_back_from_details(
    s: NavView,
    screen: ScreenView,
    idx: int,
    status: SystemStatusView,
)
    requires
        s.level == LibraryLevel::WifiList && s.wifi_enabled && 1 <= idx <= s.wifi_networks.len()
            || s.level == LibraryLevel::BtDeviceList && s.bt_enabled && 2 <= idx
            < s.bt_devices.len() + 2,
    ensures
        ({
            let opened = s.after_select(idx, status);
            let back = opened.after_back();
            let window = shown(screen, opened.back_actions(status));
            &&& opened.level != s.level
            &&& back.level == s.level
            &&& back.wifi_networks == s.wifi_networks
            &&& back.bt_devices == s.bt_devices
            &&& window.library_selected_index == idx
            &&& s.level == LibraryLevel::WifiList ==> window.library_items == items::wifi_rows(
                true,
                s.wifi_networks,
            )
            &&& s.level == LibraryLevel::BtDeviceList ==> window.library_items == items::bt_rows(
                true,
                s.bt_devices,
            )
            &&& idx < window.library_items.len()
        }),
        shows_list(s, screen) ==> ({
            let opened = s.after_select(idx, status);
            let details = shown(screen, s.select_actions(idx, status));
            let window = shown(details, opened.back_actions(status));
            &&& shows_list(opened.after_back(), window)
            &&& window.library_items == screen.library_items
            &&& window.library_item_count == screen.library_item_count
            &&& window.library_header == screen.library_header
        }),
{
    let opened = s.after_select(idx, status);
    let actions = opened.back_actions(status);
    assert(actions.drop_last() =~= seq![actions[0]]);
    assert(actions.drop_last().drop_last() =~= Seq::<NavActionView>::empty());
    reveal_with_fuel(shown, 3);
}

/// A row that is selected is the one that is opened: the artist and the album
/// that are fetched are those whose names the rows show.
pub proof fn law_rows_open_what_they_show(s: NavView, idx: int, status: SystemStatusView)
    requires
        0 <= idx,
    ensures
        s.level == LibraryLevel::Artists && idx < items::artist_items(s.artists).len()
            ==> s.select_actions(idx, status).last() == (NavActionView::FetchAlbums {
            artist_id: s.artists[idx].id,
            artist_name: items::artist_items(s.artists)[idx].title,
        }),
        s.level == LibraryLevel::Albums && idx < items::album_items(s.albums).len()
            ==> s.select_actions(idx, status).last() == (NavActionView::FetchTracks {
            album_id: s.albums[idx].id,
            album_name: items::album_items(s.albums)[idx].title,
        }),
{
}

/// A row behind the end of a list of music does nothing.
pub proof fn law_rows_behind_the_end(s: NavView, idx: int, status: SystemStatusView)
    requires
        s.level == LibraryLevel::Artists && idx >= s.artists.len()
            || s.level == LibraryLevel::Albums && idx >= s.albums.len()
            || (s.level == LibraryLevel::Tracks || s.level == LibraryLevel::Starred) && idx
            >= s.tracks.len(),
    ensures
        s.after_select(idx, status) == s,
        s.select_actions(idx, status).len() == 0,
{
}

/// Whenever a queue is handed to the player, it is the list that is shown, its
/// start lies within it, and the window goes to what plays.
pub proof fn law_queues_start_within(
    s: NavView,
    command: NavCommandView,
    screen: ScreenView,
    status: SystemStatusView,
    tracks: Seq<TrackView>,
    start_index: usize,
)
    requires
        command matches NavCommandView::LibrarySelect(idx) ==> idx <= i32::MAX,
        s.command_actions(command, status).contains(
            NavActionView::Player(PlayerCommandView::PlayQueue { tracks, start_index }),
        ),
    ensures
        tracks == s.tracks,
        start_index < tracks.len(),
        command == NavCommandView::LibrarySelect(start_index as int),
        shown(screen, s.command_actions(command, status)).current_view == AppView::NowPlaying,
{
    let actions = s.command_actions(command, status);
    let play = NavActionView::Player(PlayerCommandView::PlayQueue { tracks, start_index });
    let i = choose|i: int| 0 <= i < actions.len() && actions[i] == play;
    assert(actions[i] == play);
    assert(actions.last() == set_view(AppView::NowPlaying));
}

/// Every command and every reply leaves the selections of the window pointing at
/// something. Only the row of a network or a device that is gone is selected all
/// the same when its details are left.
pub proof fn law_selections_survive_navigation(
    s: NavView,
    screen: ScreenView,
    command: NavCommandView,
    reply: NavReplyView,
    status: SystemStatusView,
)
    requires
        screen.well_formed(),
        s.well_formed(),
        s.wifi_networks.len() < i32::MAX,
        s.bt_devices.len() < i32::MAX - 1,
        s.level == LibraryLevel::WifiNetworkDetail ==> s.shown_network() is Some,
        s.level == LibraryLevel::BtDeviceDetail ==> s.shown_device() is Some,
    ensures
        shown(screen, s.command_actions(command, status)).well_formed(),
        shown(screen, s.reply_actions(reply)).well_formed(),
{
    let actions = s.command_actions(command, status);
    if command == NavCommandView::Back && actions.len() == 2 {
        assert(actions.drop_last() =~= seq![actions[0]]);
        assert(actions.drop_last().drop_last() =~= Seq::<NavActionView>::empty());
        reveal_with_fuel(shown, 3);
    } else {
        assert forall|i: int| 0 <= i < actions.len() implies !selects_row(#[trigger] actions[i]) by {
        }
        lemma_shown_well_formed(screen, actions);
    }
    let replies = s.reply_actions(reply);
    assert forall|i: int| 0 <= i < replies.len() implies !selects_row(#[trigger] replies[i]) by {
    }
    lemma_shown_well_formed(screen, replies);
}

/// The action selects a row.
pub open spec fn selects_row(action: NavActionView) -> bool {
    action matches NavActionView::Update(ScreenUpdateView::SelectRow(_))
}

proof fn lemma_shown_well_formed(screen: ScreenView, actions: Seq<NavActionView>)
    requires
        screen.well_formed(),
        forall|i: int| 0 <= i < actions.len() ==> !selects_row(#[trigger] actions[i]),
    ensures
        shown(screen, actions).well_formed(),
    decreases actions.len(),
{
    if actions.len() > 0 {
        lemma_shown_well_formed(screen, actions.drop_last());
    }
}

/// A switch that is used twice is where it was.
pub proof fn law_toggles_undo_themselves(s: NavView)
    ensures
        s.after_wifi_row(0).after_wifi_row(0).wifi_enabled == s.wifi_enabled,
        s.after_bt_row(0).after_bt_row(0).bt_enabled == s.bt_enabled,
        s.wifi_row_actions(0)[0] == NavActionView::WifiToggle(!s.wifi_enabled),
        s.bt_row_actions(0)[0] == NavActionView::BtToggle(!s.bt_enabled),
{
}

/// A password is only asked for where a secured network without a connection is
/// shown, its name is kept until the keyboard goes, and no longer.
pub proof fn law_passwords(s: NavView, idx: int, typed: Seq<char>, status: SystemStatusView)
    requires
        s.level == LibraryLevel::WifiNetworkDetail,
        idx == 3,
    ensures
        s.select_actions(idx, status).len() > 0 <==> (s.shown_network() matches Some(network)
            && network.secured && !network.connected),
        s.select_actions(idx, status).len() > 0 ==> s.after_select(
            idx,
            status,
        ).keyboard_wifi_ssid == Some(s.shown_network()->0.ssid),
        s.after_command(NavCommandView::KeyboardSubmitted(typed), status).keyboard_wifi_ssid
            is None,
        s.after_command(NavCommandView::KeyboardDismissed, status).keyboard_wifi_ssid is None,
{
}

/// A track plays from the row that was chosen: at every row of a list of tracks, the
/// player is handed the whole list with that row to start from, and the window goes
/// to what plays. The list itself stays as it was.
pub proof fn law_tracks_play_from_their_row(s: NavView, row: usize, status: SystemStatusView)
    requires
        s.level == LibraryLevel::Tracks || s.level == LibraryLevel::Starred,
        row < s.tracks.len(),
    ensures
        s.select_actions(row as int, status) == seq![
            NavActionView::Player(
                PlayerCommandView::PlayQueue { tracks: s.tracks, start_index: row },
            ),
            NavActionView::Update(ScreenUpdateView::SetView(AppView::NowPlaying)),
        ],
        s.command_actions(NavCommandView::LibrarySelect(row as int), status) == s.select_actions(
            row as int,
            status,
        ),
        s.after_select(row as int, status) == s,
{
}

/// Every row of the artists asks for the albums of the artist in that place, and
/// every row of the albums for the tracks of that album, under a header that says so.
/// What is listed stays until the answer comes.
pub proof fn law_artists_and_albums_open(s: NavView, row: int, status: SystemStatusView)
    requires
        0 <= row,
    ensures
        s.level == LibraryLevel::Artists && row < s.artists.len() ==> {
            &&& s.select_actions(row, status) == seq![
                NavActionView::Update(ScreenUpdateView::SetHeader("Loading…"@)),
                NavActionView::FetchAlbums {
                    artist_id: s.artists[row].id,
                    artist_name: s.artists[row].name,
                },
            ]
            &&& s.after_select(row, status) == s
        },
        s.level == LibraryLevel::Albums && row < s.albums.len() ==> {
            &&& s.select_actions(row, status) == seq![
                NavActionView::Update(ScreenUpdateView::SetHeader("Loading…"@)),
                NavActionView::FetchTracks {
                    album_id: s.albums[row].id,
                    album_name: s.albums[row].name,
                },
            ]
            &&& s.after_select(row, status) == s
        },
{
}

/// A row in front of a list of music does nothing either.
pub proof fn law_rows_before_the_start(s: NavView, idx: int, status: SystemStatusView)
    requires
        idx < 0,
        s.level == LibraryLevel::Artists || s.level == LibraryLevel::Albums || s.level
            == LibraryLevel::Tracks || s.level == LibraryLevel::Starred,
    ensures
        s.after_select(idx, status) == s,
        s.select_actions(idx, status).len() == 0,
{
}

/// Each command is what its button or row does: the menu's entries, the rows of the
/// list and the way back. The keyboard's commands ask for nothing, and change nothing
/// but that no password is waited for.
pub proof fn law_commands_are_their_steps(
    s: NavView,
    idx: int,
    typed: Seq<char>,
    status: SystemStatusView,
)
    ensures
        s.command_actions(NavCommandView::MenuSelect(idx), status) == s.menu_actions(idx, status),
        s.command_actions(NavCommandView::LibrarySelect(idx), status) == s.select_actions(
            idx,
            status,
        ),
        s.command_actions(NavCommandView::Back, status) == s.back_actions(status),
        s.after_command(NavCommandView::MenuSelect(idx), status) == s.after_menu(idx),
        s.after_command(NavCommandView::LibrarySelect(idx), status) == s.after_select(idx, status),
        s.after_command(NavCommandView::Back, status) == s.after_back(),
        s.command_actions(NavCommandView::KeyboardSubmitted(typed), status).len() == 0,
        s.command_actions(NavCommandView::KeyboardDismissed, status).len() == 0,
        s.after_command(NavCommandView::KeyboardSubmitted(typed), status) == (NavView {
            keyboard_wifi_ssid: None,
            ..s
        }),
        s.after_command(NavCommandView::KeyboardDismissed, status) == (NavView {
            keyboard_wifi_ssid: None,
            ..s
        }),
{
}

/// The menu's entries, in their order: the artists, the starred tracks, what plays,
/// the settings and the next theme. Only the settings change what is navigated, and
/// there is nothing behind the last entry.
pub proof fn law_menu_entries(s: NavView, idx: int, screen: ScreenView, status: SystemStatusView)
    ensures
        ({
            let window = shown(screen, s.menu_actions(0, status));
            &&& s.menu_actions(0, status).last() == NavActionView::FetchArtists
            &&& s.menu_actions(0, status).len() == 2
            &&& window == (ScreenView {
                current_view: AppView::Library,
                library_items: Seq::empty(),
                library_header: "Loading…"@,
                library_selected_index: 0,
                ..screen
            })
        }),
        ({
            let window = shown(screen, s.menu_actions(1, status));
            &&& s.menu_actions(1, status).last() == NavActionView::LoadStarred
            &&& s.menu_actions(1, status).len() == 2
            &&& window == (ScreenView {
                current_view: AppView::Library,
                library_items: Seq::empty(),
                library_header: "Starred ★"@,
                library_selected_index: 0,
                ..screen
            })
        }),
        s.menu_actions(2, status).len() == 1,
        shown(screen, s.menu_actions(2, status)) == (ScreenView {
            current_view: AppView::NowPlaying,
            ..screen
        }),
        s.menu_actions(3, status).len() == 1,
        shown(screen, s.menu_actions(3, status)) == (ScreenView {
            current_view: AppView::Library,
            library_items: items::settings_rows(status),
            library_item_count: 2,
            library_header: "Settings"@,
            library_selected_index: 0,
            ..screen
        }),
        s.menu_actions(4, status) == seq![NavActionView::Update(ScreenUpdateView::NextTheme)],
        idx < 0 || idx > 4 ==> s.menu_actions(idx, status).len() == 0,
        s.after_menu(3) == (NavView { level: LibraryLevel::SettingsRoot, ..s }),
        idx != 3 ==> s.after_menu(idx) == s,
{
    reveal_with_fuel(shown, 3);
    let none = Seq::<NavActionView>::empty();
    assert(s.menu_actions(0, status).drop_last().drop_last() =~= none);
    assert(s.menu_actions(1, status).drop_last().drop_last() =~= none);
    assert(s.menu_actions(2, status).drop_last() =~= none);
    assert(s.menu_actions(3, status).drop_last() =~= none);
}

/// The settings lead to the WiFi networks and to the Bluetooth devices. The list that
/// opens starts empty, as the status has it on or off, with its switch as the one row;
/// what is on is then scanned or listed, and what is off has no more to show.
pub proof fn law_settings_open_lists(
    s: NavView,
    idx: int,
    screen: ScreenView,
    status: SystemStatusView,
)
    requires
        s.level == LibraryLevel::SettingsRoot,
    ensures
        s.after_select(0, status) == (NavView {
            level: LibraryLevel::WifiList,
            wifi_enabled: status.wifi.enabled,
            wifi_networks: Seq::empty(),
            ..s
        }),
        s.after_select(1, status) == (NavView {
            level: LibraryLevel::BtDeviceList,
            bt_enabled: status.bluetooth.enabled,
            bt_devices: Seq::empty(),
            ..s
        }),
        ({
            let actions = s.select_actions(0, status);
            let window = shown(screen, actions);
            &&& actions.len() == 2
            &&& actions[0] is Update
            &&& status.wifi.enabled ==> actions[1] == NavActionView::ScanWifi(
                WifiScanReason::Opened,
            )
            &&& !status.wifi.enabled ==> actions[1] is Update
            &&& window.current_view == AppView::Library
            &&& window.library_items == seq![items::wifi_toggle_row(status.wifi.enabled)]
            &&& window.library_item_count == 1
            &&& window.library_selected_index == 0
            &&& window.library_header == (if status.wifi.enabled {
                "Scanning for networks…"@
            } else {
                "WiFi"@
            })
        }),
        ({
            let actions = s.select_actions(1, status);
            let window = shown(screen, actions);
            &&& actions.len() == 2
            &&& actions[0] is Update
            &&& status.bluetooth.enabled ==> actions[1] == NavActionView::ListBt(
                BtListReason::Opened,
            )
            &&& !status.bluetooth.enabled ==> actions[1] is Update
            &&& window.current_view == AppView::Library
            &&& window.library_items == seq![items::bt_toggle_row(status.bluetooth.enabled)]
            &&& window.library_item_count == 1
            &&& window.library_selected_index == 0
            &&& window.library_header == (if status.bluetooth.enabled {
                "Loading…"@
            } else {
                "Bluetooth"@
            })
        }),
        idx < 0 || idx > 1 ==> s.after_select(idx, status) == s && s.select_actions(
            idx,
            status,
        ).len() == 0,
{
    reveal_with_fuel(shown, 3);
    let none = Seq::<NavActionView>::empty();
    assert(s.select_actions(0, status).drop_last().drop_last() =~= none);
    assert(s.select_actions(1, status).drop_last().drop_last() =~= none);
    assert(items::wifi_rows(false, Seq::empty()) =~= seq![items::wifi_toggle_row(false)]);
}

/// The rows of the WiFi list: the first switches WiFi, and forgets the networks; each
/// of those below opens the network of its place; a row that is not there does
/// nothing. What is switched on is waited for and scanned.
pub proof fn law_wifi_rows(s: NavView, k: int, idx: int, status: SystemStatusView)
    requires
        s.level == LibraryLevel::WifiList,
    ensures
        s.after_select(0, status) == (NavView {
            wifi_enabled: !s.wifi_enabled,
            wifi_networks: Seq::empty(),
            ..s
        }),
        !s.wifi_enabled ==> s.select_actions(0, status) == seq![
            NavActionView::WifiToggle(true),
            NavActionView::Update(
                ScreenUpdateView::OpenLoading {
                    row: items::wifi_toggle_row(true),
                    header: "Scanning for networks…"@,
                },
            ),
            NavActionView::Update(ScreenUpdateView::SetHeader("Enabling WiFi…"@)),
            NavActionView::Wait(3),
            NavActionView::Update(ScreenUpdateView::SetHeader("Scanning…"@)),
            NavActionView::ScanWifi(WifiScanReason::Toggled),
        ],
        s.wifi_enabled ==> s.select_actions(0, status) == seq![
            NavActionView::WifiToggle(false),
            NavActionView::Update(
                ScreenUpdateView::ReplaceList {
                    items: seq![items::wifi_toggle_row(false)],
                    header: "WiFi"@,
                },
            ),
            NavActionView::RefreshStatus,
        ],
        s.wifi_enabled && 0 <= k < s.wifi_networks.len() ==> {
            &&& s.after_select(k + 1, status) == (NavView {
                level: LibraryLevel::WifiNetworkDetail,
                selected_wifi_idx: k,
                ..s
            })
            &&& s.select_actions(k + 1, status) == seq![
                NavActionView::Update(
                    ScreenUpdateView::ReplaceList {
                        items: items::wifi_detail_rows(s.wifi_networks[k]),
                        header: s.wifi_networks[k].ssid,
                    },
                ),
            ]
        },
        idx < 0 || idx > s.wifi_networks.len() || (idx != 0 && !s.wifi_enabled) ==> {
            &&& s.after_select(idx, status) == s
            &&& s.select_actions(idx, status).len() == 0
        },
{
    assert(items::wifi_rows(false, Seq::empty()) =~= seq![items::wifi_toggle_row(false)]);
}

/// The rows of a network's details: the third ends the connection, or makes it to the
/// network that is shown; the fourth, of a secured network without a connection, asks
/// for its password; the others do nothing, and nor does any row once the network is
/// gone from the list. Only asking for the password changes what is navigated.
pub proof fn law_wifi_details(s: NavView, idx: int, status: SystemStatusView)
    requires
        s.level == LibraryLevel::WifiNetworkDetail,
    ensures
        0 <= s.selected_wifi_idx < s.wifi_networks.len() ==> {
            let network = s.wifi_networks[s.selected_wifi_idx];
            &&& network.connected ==> s.select_actions(2, status) == seq![
                NavActionView::Update(ScreenUpdateView::SetHeader("Disconnecting…"@)),
                NavActionView::WifiDisconnect,
            ]
            &&& !network.connected ==> s.select_actions(2, status) == seq![
                NavActionView::Update(ScreenUpdateView::SetHeader("Connecting…"@)),
                NavActionView::WifiConnect { ssid: network.ssid },
            ]
            &&& network.secured && !network.connected ==> {
                &&& s.select_actions(3, status) == seq![
                    NavActionView::Update(
                        ScreenUpdateView::OpenKeyboard {
                            prompt: "WiFi Password: "@ + network.ssid,
                        },
                    ),
                ]
                &&& s.after_select(3, status) == (NavView {
                    keyboard_wifi_ssid: Some(network.ssid),
                    ..s
                })
            }
            &&& idx != 2 && !(idx == 3 && network.secured && !network.connected)
                ==> s.select_actions(idx, status).len() == 0
            &&& !(idx == 3 && network.secured && !network.connected) ==> s.after_select(
                idx,
                status,
            ) == s
        },
        !(0 <= s.selected_wifi_idx < s.wifi_networks.len()) ==> {
            &&& s.select_actions(idx, status).len() == 0
            &&& s.after_select(idx, status) == s
        },
{
}

/// The rows of the Bluetooth list: the first switches Bluetooth, and forgets the
/// devices; where it is on, the second looks for devices and each of those below opens
/// the device of its place. A row that is not there does nothing.
pub proof fn law_bt_rows(s: NavView, k: int, idx: int, status: SystemStatusView)
    requires
        s.level == LibraryLevel::BtDeviceList,
    ensures
        s.after_select(0, status) == (NavView {
            bt_enabled: !s.bt_enabled,
            bt_devices: Seq::empty(),
            ..s
        }),
        !s.bt_enabled ==> s.select_actions(0, status) == seq![
            NavActionView::BtToggle(true),
            NavActionView::Update(
                ScreenUpdateView::OpenLoading {
                    row: items::bt_toggle_row(true),
                    header: "Loading…"@,
                },
            ),
            NavActionView::ListBt(BtListReason::Toggled),
        ],
        s.bt_enabled ==> s.select_actions(0, status) == seq![
            NavActionView::BtToggle(false),
            NavActionView::Update(
                ScreenUpdateView::OpenLoading {
                    row: items::bt_toggle_row(false),
                    header: "Loading…"@,
                },
            ),
            NavActionView::Update(
                ScreenUpdateView::ReplaceList {
                    items: seq![items::bt_toggle_row(false)],
                    header: "Bluetooth"@,
                },
            ),
            NavActionView::RefreshStatus,
        ],
        s.bt_enabled ==> s.after_select(1, status) == s && s.select_actions(1, status) == seq![
            NavActionView::Update(ScreenUpdateView::SetHeader("Scanning… (~5s)"@)),
            NavActionView::Update(ScreenUpdateView::SetEmptyText("Scanning for devices…"@)),
            NavActionView::ScanBt,
        ],
        s.bt_enabled && 0 <= k < s.bt_devices.len() ==> {
            &&& s.after_select(k + 2, status) == (NavView {
                level: LibraryLevel::BtDeviceDetail,
                selected_bt_idx: k,
                ..s
            })
            &&& s.select_actions(k + 2, status) == seq![
                NavActionView::Update(
                    ScreenUpdateView::ReplaceList {
                        items: items::bt_detail_rows(s.bt_devices[k]),
                        header: s.bt_devices[k].name,
                    },
                ),
            ]
        },
        idx < 0 || idx > s.bt_devices.len() + 1 && idx != 1 || (idx != 0 && !s.bt_enabled) ==> {
            &&& s.after_select(idx, status) == s
            &&& s.select_actions(idx, status).len() == 0
        },
{
}

/// The second row of a device's details ends its connection, or makes it, by the
/// device's address. The other rows do nothing, nor does any row once the device is
/// gone from the list, and no row changes what is navigated.
pub proof fn law_bt_details(s: NavView, idx: int, status: SystemStatusView)
    requires
        s.level == LibraryLevel::BtDeviceDetail,
    ensures
        s.after_select(idx, status) == s,
        0 <= s.selected_bt_idx < s.bt_devices.len() ==> {
            let device = s.bt_devices[s.selected_bt_idx];
            &&& device.connected ==> s.select_actions(1, status) == seq![
                NavActionView::Update(ScreenUpdateView::SetHeader("Disconnecting…"@)),
                NavActionView::BtDisconnect { address: device.address },
            ]
            &&& !device.connected ==> s.select_actions(1, status) == seq![
                NavActionView::Update(ScreenUpdateView::SetHeader("Connecting…"@)),
                NavActionView::BtConnect { address: device.address },
            ]
            &&& idx != 1 ==> s.select_actions(idx, status).len() == 0
        },
        !(0 <= s.selected_bt_idx < s.bt_devices.len()) ==> s.select_actions(idx, status).len()
            == 0,
{
}

/// The way back, level by level, with what is listed there: from the tracks to the
/// artist's albums, from the albums to the artists, from the details to their list
/// with the row selected that was opened, from the lists to the settings, and from
/// the top to the menu. Nothing that is kept changes on the way.
pub proof fn law_way_back(s: NavView, status: SystemStatusView)
    ensures
        s.after_back() == (NavView { level: s.after_back().level, ..s }),
        s.level == LibraryLevel::Tracks ==> s.after_back().level == LibraryLevel::Albums
            && s.back_actions(status) == seq![
            NavActionView::Update(
                ScreenUpdateView::ReplaceList {
                    items: items::album_items(s.albums),
                    header: s.current_artist_name,
                },
            ),
        ],
        s.level == LibraryLevel::Albums ==> s.after_back().level == LibraryLevel::Artists
            && s.back_actions(status) == seq![
            NavActionView::Update(
                ScreenUpdateView::ReplaceList {
                    items: items::artist_items(s.artists),
                    header: "Artists"@,
                },
            ),
        ],
        s.level == LibraryLevel::WifiNetworkDetail ==> s.after_back().level
            == LibraryLevel::WifiList && s.back_actions(status) == seq![
            NavActionView::Update(
                ScreenUpdateView::ReplaceList {
                    items: items::wifi_rows(s.wifi_enabled, s.wifi_networks),
                    header: "WiFi"@,
                },
            ),
            NavActionView::Update(ScreenUpdateView::SelectRow(s.selected_wifi_idx + 1)),
        ],
        s.level == LibraryLevel::BtDeviceDetail ==> s.after_back().level
            == LibraryLevel::BtDeviceList && s.back_actions(status) == seq![
            NavActionView::Update(
                ScreenUpdateView::ReplaceList {
                    items: items::bt_rows(s.bt_enabled, s.bt_devices),
                    header: "Bluetooth"@,
                },
            ),
            NavActionView::Update(ScreenUpdateView::SelectRow(s.selected_bt_idx + 2)),
        ],
        s.level == LibraryLevel::WifiList || s.level == LibraryLevel::BtDeviceList
            ==> s.after_back().level == LibraryLevel::SettingsRoot && s.back_actions(status)
            == seq![
            NavActionView::Update(
                ScreenUpdateView::ReplaceList {
                    items: items::settings_rows(status),
                    header: "Settings"@,
                },
            ),
        ],
        s.level == LibraryLevel::Artists || s.level == LibraryLevel::Starred || s.level
            == LibraryLevel::SettingsRoot ==> s.after_back() == s && s.back_actions(status)
            == seq![NavActionView::Update(ScreenUpdateView::SetView(AppView::Menu))],
{
}

/// What the server or the database brings is kept and shown as it came: artists,
/// albums under the name of their artist, tracks under that of their album, and the
/// starred tracks.
pub proof fn law_music_is_kept_and_shown(
    s: NavView,
    name: Seq<char>,
    artists: Seq<ArtistView>,
    albums: Seq<AlbumView>,
    tracks: Seq<TrackView>,
)
    requires
        tracks.len() > 0,
    ensures
        ({
            let reply = NavReplyView::Artists(Some(artists));
            &&& s.after_reply(reply) == (NavView { level: LibraryLevel::Artists, artists, ..s })
            &&& s.reply_actions(reply) == seq![
                NavActionView::Update(
                    ScreenUpdateView::ReplaceList {
                        items: items::artist_items(artists),
                        header: "Artists"@,
                    },
                ),
            ]
        }),
        ({
            let reply = NavReplyView::Albums { artist_name: name, albums: Some(albums) };
            &&& s.after_reply(reply) == (NavView {
                level: LibraryLevel::Albums,
                albums,
                current_artist_name: name,
                ..s
            })
            &&& s.reply_actions(reply) == seq![
                NavActionView::Update(
                    ScreenUpdateView::ReplaceList {
                        items: items::album_items(albums),
                        header: name,
                    },
                ),
            ]
        }),
        ({
            let reply = NavReplyView::Tracks { album_name: name, tracks: Some(tracks) };
            &&& s.after_reply(reply) == (NavView {
                level: LibraryLevel::Tracks,
                tracks,
                current_album_name: name,
                ..s
            })
            &&& s.reply_actions(reply) == seq![
                NavActionView::Update(
                    ScreenUpdateView::ReplaceList {
                        items: items::track_items(tracks),
                        header: name,
                    },
                ),
            ]
        }),
        ({
            let reply = NavReplyView::Starred(Some(tracks));
            &&& s.after_reply(reply) == (NavView { level: LibraryLevel::Starred, tracks, ..s })
            &&& s.reply_actions(reply) == seq![
                NavActionView::Update(
                    ScreenUpdateView::ReplaceList {
                        items: items::track_items(tracks),
                        header: "Starred ★"@,
                    },
                ),
            ]
        }),
{
}

/// What cannot be had leaves everything as it was, and the header says why: a server
/// or a database that failed, a list of tracks without any, a connection that was not
/// made or not ended.
pub proof fn law_failures_change_nothing(s: NavView, name: Seq<char>)
    ensures
        ({
            let reply = NavReplyView::Artists(None);
            &&& s.after_reply(reply) == s
            &&& s.reply_actions(reply) == seq![
                NavActionView::Update(ScreenUpdateView::SetHeader("Error loading artists"@)),
            ]
        }),
        ({
            let reply = NavReplyView::Albums { artist_name: name, albums: None };
            &&& s.after_reply(reply) == s
            &&& s.reply_actions(reply) == seq![
                NavActionView::Update(ScreenUpdateView::SetHeader("Error loading albums"@)),
            ]
        }),
        ({
            let reply = NavReplyView::Tracks { album_name: name, tracks: None };
            &&& s.after_reply(reply) == s
            &&& s.reply_actions(reply) == seq![
                NavActionView::Update(ScreenUpdateView::SetHeader("Error loading tracks"@)),
            ]
        }),
        ({
            let reply = NavReplyView::Starred(None);
            &&& s.after_reply(reply) == s
            &&& s.reply_actions(reply) == seq![
                NavActionView::Update(ScreenUpdateView::SetHeader("Error loading starred"@)),
            ]
        }),
        ({
            let reply = NavReplyView::Tracks { album_name: name, tracks: Some(Seq::empty()) };
            &&& s.after_reply(reply) == s
            &&& s.reply_actions(reply) == seq![
                NavActionView::Update(ScreenUpdateView::SetHeader("No tracks found"@)),
            ]
        }),
        ({
            let reply = NavReplyView::Starred(Some(Seq::empty()));
            &&& s.after_reply(reply) == s
            &&& s.reply_actions(reply) == seq![
                NavActionView::Update(ScreenUpdateView::SetHeader("No starred tracks yet"@)),
            ]
        }),
        ({
            let failed = seq![
                NavActionView::Update(ScreenUpdateView::SetHeader("Connection failed"@)),
            ];
            &&& s.after_reply(NavReplyView::WifiConnected { ok: false }) == s
            &&& s.reply_actions(NavReplyView::WifiConnected { ok: false }) == failed
            &&& s.after_reply(NavReplyView::BtConnected { ok: false }) == s
            &&& s.reply_actions(NavReplyView::BtConnected { ok: false }) == failed
        }),
        ({
            let failed = seq![
                NavActionView::Update(ScreenUpdateView::SetHeader("Disconnect failed"@)),
            ];
            &&& s.after_reply(NavReplyView::WifiDisconnected { ok: false }) == s
            &&& s.reply_actions(NavReplyView::WifiDisconnected { ok: false }) == failed
            &&& s.after_reply(NavReplyView::BtDisconnected { ok: false }) == s
            &&& s.reply_actions(NavReplyView::BtDisconnected { ok: false }) == failed
        }),
{
}

/// A connection that was made or ended has the networks scanned, or the devices
/// listed, anew, and changes nothing until they are there.
pub proof fn law_changed_connections_are_looked_up(s: NavView)
    ensures
        s.after_reply(NavReplyView::WifiConnected { ok: true }) == s,
        s.reply_actions(NavReplyView::WifiConnected { ok: true }) == seq![
            NavActionView::ScanWifi(WifiScanReason::Connected),
        ],
        s.after_reply(NavReplyView::WifiDisconnected { ok: true }) == s,
        s.reply_actions(NavReplyView::WifiDisconnected { ok: true }) == seq![
            NavActionView::ScanWifi(WifiScanReason::Disconnected),
        ],
        s.after_reply(NavReplyView::BtConnected { ok: true }) == s,
        s.reply_actions(NavReplyView::BtConnected { ok: true }) == seq![
            NavActionView::ListBt(BtListReason::Changed),
        ],
        s.after_reply(NavReplyView::BtDisconnected { ok: true }) == s,
        s.reply_actions(NavReplyView::BtDisconnected { ok: true }) == seq![
            NavActionView::ListBt(BtListReason::Changed),
        ],
{
}

/// A scan for networks replaces those that were known. Where it was asked for by the
/// list, the list is shown; where a connection was made or ended, the status is looked
/// up and the details are shown of the network that now stands in the row that was
/// opened, or the list where there is none.
pub proof fn law_scanned_networks(
    s: NavView,
    reason: WifiScanReason,
    networks: Seq<WifiNetworkView>,
)
    ensures
        ({
            let reply = NavReplyView::WifiNetworks { reason, networks };
            let list = ScreenUpdateView::ReplaceList {
                items: items::wifi_rows(s.wifi_enabled, networks),
                header: "WiFi"@,
            };
            let known = NavView { wifi_networks: networks, ..s };
            let there = 0 <= s.selected_wifi_idx < networks.len();
            let details = ScreenUpdateView::ReplaceList {
                items: items::wifi_detail_rows(networks[s.selected_wifi_idx]),
                header: networks[s.selected_wifi_idx].ssid,
            };
            &&& reason == WifiScanReason::Opened ==> s.after_reply(reply) == known
                && s.reply_actions(reply) == seq![NavActionView::Update(list)]
            &&& reason == WifiScanReason::Toggled ==> s.after_reply(reply) == known
                && s.reply_actions(reply) == seq![
                NavActionView::Update(list),
                NavActionView::RefreshStatus,
            ]
            &&& (reason == WifiScanReason::Connected || reason == WifiScanReason::Disconnected)
                && there ==> s.after_reply(reply) == known && s.reply_actions(reply) == seq![
                NavActionView::RefreshStatus,
                NavActionView::Update(details),
            ]
            &&& (reason == WifiScanReason::Connected || reason == WifiScanReason::Disconnected)
                && !there ==> s.after_reply(reply) == (NavView {
                level: LibraryLevel::WifiList,
                ..known
            }) && s.reply_actions(reply).len() == 2 && s.reply_actions(reply)[0]
                == NavActionView::RefreshStatus
            &&& (reason == WifiScanReason::Disconnected || s.wifi_enabled) && reason
                != WifiScanReason::Opened && reason != WifiScanReason::Toggled && !there
                ==> s.reply_actions(reply)[1] == NavActionView::Update(list)
            &&& reason == WifiScanReason::Connected && !there ==> s.reply_actions(reply)[1]
                == NavActionView::Update(
                ScreenUpdateView::ReplaceList {
                    items: items::wifi_rows(true, networks),
                    header: "WiFi"@,
                },
            )
        }),
{
}

/// Devices that were listed or found replace those that were known, and nothing else
/// changes. Where the list asked for them it is shown; where a connection was made or
/// ended, the status is looked up, and the details are shown of the device that now
/// stands in the row that was opened, if there is one.
pub proof fn law_listed_devices(s: NavView, listing: BtListReason, devices: Seq<BtDeviceView>)
    ensures
        ({
            let reply = NavReplyView::BtDevices { listing, devices };
            let list = ScreenUpdateView::ReplaceList {
                items: items::bt_rows(s.bt_enabled, devices),
                header: "Bluetooth"@,
            };
            let there = 0 <= s.selected_bt_idx < devices.len();
            let details = ScreenUpdateView::ReplaceList {
                items: items::bt_detail_rows(devices[s.selected_bt_idx]),
                header: devices[s.selected_bt_idx].name,
            };
            &&& s.after_reply(reply) == (NavView { bt_devices: devices, ..s })
            &&& listing == BtListReason::Opened ==> s.reply_actions(reply) == seq![
                NavActionView::Update(list),
            ]
            &&& listing == BtListReason::Toggled ==> s.reply_actions(reply) == seq![
                NavActionView::Update(list),
                NavActionView::RefreshStatus,
            ]
            &&& listing == BtListReason::Changed && there ==> s.reply_actions(reply) == seq![
                NavActionView::RefreshStatus,
                NavActionView::Update(details),
            ]
            &&& listing == BtListReason::Changed && !there ==> s.reply_actions(reply) == seq![
                NavActionView::RefreshStatus,
            ]
        }),
        s.after_reply(NavReplyView::BtScanned(devices)) == (NavView { bt_devices: devices, ..s }),
        s.reply_actions(NavReplyView::BtScanned(devices)) == seq![
            NavActionView::Update(
                ScreenUpdateView::ReplaceList {
                    items: items::bt_rows(true, devices),
                    header: "Bluetooth"@,
                },
            ),
        ],
{
}

/// The navigation starts at the artists, with nothing known yet.
pub proof fn law_navigation_starts_empty()
    ensures
        ({
            let s = NavView::initial();
            &&& s.level == LibraryLevel::Artists
            &&& s.artists.len() == 0
            &&& s.albums.len() == 0
            &&& s.tracks.len() == 0
            &&& s.wifi_networks.len() == 0
            &&& s.bt_devices.len() == 0
            &&& s.current_artist_name.len() == 0
            &&& s.current_album_name.len() == 0
            &&& !s.wifi_enabled
            &&& !s.bt_enabled
            &&& s.selected_wifi_idx == 0
            &&& s.selected_bt_idx == 0
            &&& s.keyboard_wifi_ssid is None
        }),
{
}

} // verus!
