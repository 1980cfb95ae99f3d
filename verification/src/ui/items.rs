//! The rows of the lists, and the texts of the status bar.

use vstd::prelude::*;

use crate::single::{self, Single};
use crate::subsonic::{Album, AlbumView, Artist, ArtistView, Track, TrackView};
use crate::system::{
    BtDevice, BtDeviceView, BtStatus, BtStatusView, SystemStatus, SystemStatusView, WifiNetwork,
    WifiNetworkView, WifiStatus, WifiStatusView,
};
use crate::text;

verus! {

/// A row of a list: a title and a smaller line below it.
#[derive(Debug)]
pub struct LibraryItem {
    pub title: String,
    pub subtitle: String,
}

pub struct LibraryItemView {
    pub title: Seq<char>,
    pub subtitle: Seq<char>,
}

impl DeepView for LibraryItem {
    type V = LibraryItemView;

    open spec fn deep_view(&self) -> LibraryItemView {
        LibraryItemView { title: self.title@, subtitle: self.subtitle@ }
    }
}

/// A row, as contracts write it.
pub open spec fn item(title: Seq<char>, subtitle: Seq<char>) -> LibraryItemView {
    LibraryItemView { title, subtitle }
}

fn make_item(title: &str, subtitle: &str) -> (r: LibraryItem)
    ensures
        r.deep_view() == item(title@, subtitle@),
{
    LibraryItem { title: title.to_string(), subtitle: subtitle.to_string() }
}

// ── Times ────────────────────────────────────────────────────────────────────

/// Minutes, a colon, and the seconds in two digits.
pub open spec fn minutes_of(secs: nat) -> Seq<char> {
    text::decimal(secs / 60) + ":"@ + text::two_digits(secs % 60)
}

/// A number of seconds as minutes and seconds.
pub fn format_seconds(secs: u32) -> (r: String)
    ensures
        r@ == minutes_of(secs as nat),
{
    let mut out: String = String::new();
    text::push_decimal(&mut out, (secs / 60) as u64);
    out.append(":");
    text::push_two_digits(&mut out, (secs % 60) as u64);
    assert(out@ =~= minutes_of(secs as nat));
    out
}

/// A time in seconds as minutes and seconds. Fractions are cut off, and what
/// lies before zero counts as zero.
pub fn format_time(total_secs: Single) -> (r: String)
    ensures
        r@ == minutes_of(total_secs.whole()),
{
    format_seconds(total_secs.whole_part())
}

// ── Music ────────────────────────────────────────────────────────────────────

pub open spec fn artist_item(artist: ArtistView) -> LibraryItemView {
    item(artist.name, text::decimal(artist.album_count as nat) + " albums"@)
}

pub open spec fn artist_items(artists: Seq<ArtistView>) -> Seq<LibraryItemView> {
    Seq::new(artists.len(), |i: int| artist_item(artists[i]))
}

/// The number of songs, behind the year where it is known.
pub open spec fn album_item(album: AlbumView) -> LibraryItemView {
    item(
        album.name,
        match album.year {
            Some(year) => text::decimal(year as nat) + " • "@,
            None => Seq::empty(),
        } + text::decimal(album.song_count as nat) + " songs"@,
    )
}

pub open spec fn album_items(albums: Seq<AlbumView>) -> Seq<LibraryItemView> {
    Seq::new(albums.len(), |i: int| album_item(albums[i]))
}

/// The number in front of a title: the track's own, or else its place in the
/// list, counted from one and held in 32 bits.
pub open spec fn track_number_of(track: TrackView, place: int) -> u32 {
    match track.track_number {
        Some(n) => n,
        None => (place + 1) as u32,
    }
}

/// How long the track plays. The seconds pass through single precision.
pub open spec fn track_time_of(track: TrackView) -> Seq<char> {
    match track.duration {
        Some(secs) => minutes_of(single::through_single(secs)),
        None => "—"@,
    }
}

pub open spec fn track_item(track: TrackView, place: int) -> LibraryItemView {
    item(
        text::decimal(track_number_of(track, place) as nat) + ". "@ + track.title,
        match track.artist {
            Some(artist) => artist,
            None => "?"@,
        } + " • "@ + track_time_of(track),
    )
}

pub open spec fn track_items(tracks: Seq<TrackView>) -> Seq<LibraryItemView> {
    Seq::new(tracks.len(), |i: int| track_item(tracks[i], i))
}

pub fn artists_to_items(artists: &[Artist]) -> (r: Vec<LibraryItem>)
    ensures
        r.deep_view() == artist_items(artists.deep_view()),
{
    let mut items: Vec<LibraryItem> = Vec::new();
    let n: usize = artists.len();
    let mut i: usize = 0;
    while i < n
        invariant
            i <= n == artists@.len(),
            items@.len() == i,
            forall|j: int|
                0 <= j < i ==> (#[trigger] items@[j]).deep_view()
                    == artist_items(artists.deep_view())[j],
        decreases n - i,
    {
        let artist: &Artist = &artists[i];
        let mut subtitle: String = String::new();
        text::push_decimal(&mut subtitle, artist.album_count as u64);
        subtitle.append(" albums");
        assert(subtitle@ =~= artist_item(artist.deep_view()).subtitle);
        items.push(LibraryItem { title: artist.name.clone(), subtitle });
        i = i + 1;
    }
    assert(items.deep_view() =~= artist_items(artists.deep_view()));
    items
}

pub fn albums_to_items(albums: &[Album]) -> (r: Vec<LibraryItem>)
    ensures
        r.deep_view() == album_items(albums.deep_view()),
{
    let mut items: Vec<LibraryItem> = Vec::new();
    let n: usize = albums.len();
    let mut i: usize = 0;
    while i < n
        invariant
            i <= n == albums@.len(),
            items@.len() == i,
            forall|j: int|
                0 <= j < i ==> (#[trigger] items@[j]).deep_view()
                    == album_items(albums.deep_view())[j],
        decreases n - i,
    {
        let album: &Album = &albums[i];
        let mut subtitle: String = String::new();
        if let Some(year) = album.year {
            text::push_decimal(&mut subtitle, year as u64);
            subtitle.append(" • ");
        }
        text::push_decimal(&mut subtitle, album.song_count as u64);
        subtitle.append(" songs");
        assert(subtitle@ =~= album_item(album.deep_view()).subtitle);
        items.push(LibraryItem { title: album.name.clone(), subtitle });
        i = i + 1;
    }
    assert(items.deep_view() =~= album_items(albums.deep_view()));
    items
}

pub fn tracks_to_items(tracks: &[Track]) -> (r: Vec<LibraryItem>)
    ensures
        r.deep_view() == track_items(tracks.deep_view()),
{
    let mut items: Vec<LibraryItem> = Vec::new();
    let n: usize = tracks.len();
    let mut i: usize = 0;
    while i < n
        invariant
            i <= n == tracks@.len(),
            items@.len() == i,
            forall|j: int|
                0 <= j < i ==> (#[trigger] items@[j]).deep_view()
                    == track_items(tracks.deep_view())[j],
        decreases n - i,
    {
        let track: &Track = &tracks[i];
        let number: u32 = match track.track_number {
            Some(n) => n,
            None => #[verifier::truncate] ((i + 1) as u32),
        };
        let mut title: String = String::new();
        text::push_decimal(&mut title, number as u64);
        title.append(". ");
        title.append(track.title.as_str());
        assert(title@ =~= track_item(track.deep_view(), i as int).title);
        let mut subtitle: String = String::new();
        match &track.artist {
            Some(artist) => subtitle.append(artist.as_str()),
            None => subtitle.append("?"),
        }
        subtitle.append(" • ");
        match track.duration {
            Some(secs) => subtitle.append(format_seconds(single::round_to_single(secs)).as_str()),
            None => subtitle.append("—"),
        }
        assert(subtitle@ =~= track_item(track.deep_view(), i as int).subtitle);
        items.push(LibraryItem { title, subtitle });
        i = i + 1;
    }
    assert(items.deep_view() =~= track_items(tracks.deep_view()));
    items
}

// ── Settings ─────────────────────────────────────────────────────────────────

pub open spec fn wifi_subtitle(w: WifiStatusView) -> Seq<char> {
    if !w.enabled {
        "Off"@
    } else {
        match w.ssid {
            Some(ssid) => ssid,
            None => "Not connected"@,
        }
    }
}

pub open spec fn bt_subtitle(b: BtStatusView) -> Seq<char> {
    if !b.enabled {
        "Off"@
    } else {
        match b.connected_device {
            Some(name) => name,
            None => "On"@,
        }
    }
}

pub open spec fn settings_rows(status: SystemStatusView) -> Seq<LibraryItemView> {
    seq![
        item("WiFi"@, wifi_subtitle(status.wifi)),
        item("Bluetooth"@, bt_subtitle(status.bluetooth)),
    ]
}

pub fn wifi_status_subtitle(w: &WifiStatus) -> (r: String)
    ensures
        r@ == wifi_subtitle(w.deep_view()),
{
    if !w.enabled {
        return "Off".to_string();
    }
    match &w.ssid {
        Some(ssid) => ssid.clone(),
        None => "Not connected".to_string(),
    }
}

pub fn bt_status_subtitle(b: &BtStatus) -> (r: String)
    ensures
        r@ == bt_subtitle(b.deep_view()),
{
    if !b.enabled {
        return "Off".to_string();
    }
    match &b.connected_device {
        Some(name) => name.clone(),
        None => "On".to_string(),
    }
}

pub fn settings_items(status: &SystemStatus) -> (r: Vec<LibraryItem>)
    ensures
        r.deep_view() == settings_rows(status.deep_view()),
{
    let mut items: Vec<LibraryItem> = Vec::new();
    items.push(make_item("WiFi", wifi_status_subtitle(&status.wifi).as_str()));
    items.push(make_item("Bluetooth", bt_status_subtitle(&status.bluetooth).as_str()));
    assert(items.deep_view() =~= settings_rows(status.deep_view()));
    items
}

/// The first row of the WiFi list.
pub open spec fn wifi_toggle_row(enabled: bool) -> LibraryItemView {
    item(
        if enabled {
            "WiFi: On"@
        } else {
            "WiFi: Off"@
        },
        "tap to toggle"@,
    )
}

/// The first row of the Bluetooth list.
pub open spec fn bt_toggle_row(enabled: bool) -> LibraryItemView {
    item(
        if enabled {
            "Bluetooth: On"@
        } else {
            "Bluetooth: Off"@
        },
        "tap to toggle"@,
    )
}

/// A tick in front of what is connected.
pub open spec fn ticked_name(connected: bool, name: Seq<char>) -> Seq<char> {
    if connected {
        "✓ "@ + name
    } else {
        name
    }
}

pub open spec fn wifi_row(net: WifiNetworkView) -> LibraryItemView {
    item(
        ticked_name(net.connected, net.ssid),
        if net.signal_bars == 0 {
            "▁  "@
        } else if net.signal_bars == 1 {
            "▁▃ "@
        } else {
            "▁▃▅"@
        } + " • "@ + (if net.secured {
            "Secured"@
        } else {
            "Open"@
        }),
    )
}

/// The toggle, then the networks.
pub open spec fn wifi_rows(enabled: bool, networks: Seq<WifiNetworkView>) -> Seq<LibraryItemView> {
    seq![wifi_toggle_row(enabled)] + Seq::new(networks.len(), |i: int| wifi_row(networks[i]))
}

pub open spec fn bt_row(dev: BtDeviceView) -> LibraryItemView {
    item(ticked_name(dev.connected, dev.name), dev.address)
}

/// The toggle, and where Bluetooth is on, the scan and the devices.
pub open spec fn bt_rows(enabled: bool, devices: Seq<BtDeviceView>) -> Seq<LibraryItemView> {
    if enabled {
        seq![bt_toggle_row(enabled), item("Scan for devices"@, "~5 seconds"@)] + Seq::new(
            devices.len(),
            |i: int| bt_row(devices[i]),
        )
    } else {
        seq![bt_toggle_row(enabled)]
    }
}

/// Security and signal, then what can be done: disconnect, or connect and, for
/// a secured network, enter its password.
pub open spec fn wifi_detail_rows(net: WifiNetworkView) -> Seq<LibraryItemView> {
    let facts = seq![
        item(
            "Security"@,
            if net.secured {
                "WPA2-Personal"@
            } else {
                "Open"@
            },
        ),
        item(
            "Signal"@,
            if net.signal_bars == 0 {
                "▁   Very Weak"@
            } else if net.signal_bars == 1 {
                "▁▃  Weak"@
            } else if net.signal_bars == 2 {
                "▁▃▅ Good"@
            } else {
                "▁▃▅ Excellent"@
            },
        ),
    ];
    if net.connected {
        facts.push(item("Disconnect"@, "Tap to disconnect"@))
    } else if net.secured {
        facts.push(item("Connect"@, "Uses saved credentials"@)).push(
            item("Enter Password"@, "Coming soon"@),
        )
    } else {
        facts.push(item("Connect"@, "Open network"@))
    }
}

pub open spec fn bt_detail_rows(dev: BtDeviceView) -> Seq<LibraryItemView> {
    seq![
        item("Address"@, dev.address),
        if dev.connected {
            item("Disconnect"@, "Tap to disconnect"@)
        } else {
            item("Connect"@, "Tap to connect"@)
        },
    ]
}

/// The first row of the WiFi list.
pub fn wifi_toggle_item(enabled: bool) -> (r: LibraryItem)
    ensures
        r.deep_view() == wifi_toggle_row(enabled),
{
    make_item(
        if enabled {
            "WiFi: On"
        } else {
            "WiFi: Off"
        },
        "tap to toggle",
    )
}

/// The first row of the Bluetooth list.
pub fn bt_toggle_item(enabled: bool) -> (r: LibraryItem)
    ensures
        r.deep_view() == bt_toggle_row(enabled),
{
    make_item(
        if enabled {
            "Bluetooth: On"
        } else {
            "Bluetooth: Off"
        },
        "tap to toggle",
    )
}

fn tick_name(connected: bool, name: &str) -> (r: String)
    ensures
        r@ == ticked_name(connected, name@),
{
    let mut out: String = String::new();
    if connected {
        out.append("✓ ");
    }
    out.append(name);
    assert(out@ =~= ticked_name(connected, name@));
    out
}

pub fn build_wifi_items(enabled: bool, networks: &[WifiNetwork]) -> (r: Vec<LibraryItem>)
    ensures
        r.deep_view() == wifi_rows(enabled, networks.deep_view()),
{
    let mut items: Vec<LibraryItem> = Vec::new();
    items.push(wifi_toggle_item(enabled));
    let n: usize = networks.len();
    let mut i: usize = 0;
    while i < n
        invariant
            i <= n == networks@.len(),
            items@.len() == i + 1,
            items@[0].deep_view() == wifi_toggle_row(enabled),
            forall|j: int|
                1 <= j <= i ==> (#[trigger] items@[j]).deep_view() == wifi_row(
                    networks@[j - 1].deep_view(),
                ),
        decreases n - i,
    {
        let net: &WifiNetwork = &networks[i];
        let mut subtitle: String = String::new();
        match net.signal_bars {
            0 => subtitle.append("▁  "),
            1 => subtitle.append("▁▃ "),
            _ => subtitle.append("▁▃▅"),
        }
        subtitle.append(" • ");
        subtitle.append(
            if net.secured {
                "Secured"
            } else {
                "Open"
            },
        );
        assert(subtitle@ =~= wifi_row(net.deep_view()).subtitle);
        items.push(
            LibraryItem { title: tick_name(net.connected, net.ssid.as_str()), subtitle },
        );
        i = i + 1;
    }
    assert(items.deep_view() =~= wifi_rows(enabled, networks.deep_view()));
    items
}

pub fn build_bt_items(enabled: bool, devices: &[BtDevice]) -> (r: Vec<LibraryItem>)
    ensures
        r.deep_view() == bt_rows(enabled, devices.deep_view()),
{
    let mut items: Vec<LibraryItem> = Vec::new();
    items.push(bt_toggle_item(enabled));
    if enabled {
        items.push(make_item("Scan for devices", "~5 seconds"));
        let n: usize = devices.len();
        let mut i: usize = 0;
        while i < n
            invariant
                i <= n == devices@.len(),
                items@.len() == i + 2,
                items@[0].deep_view() == bt_toggle_row(enabled),
                items@[1].deep_view() == item("Scan for devices"@, "~5 seconds"@),
                forall|j: int|
                    2 <= j < i + 2 ==> (#[trigger] items@[j]).deep_view() == bt_row(
                        devices@[j - 2].deep_view(),
                    ),
            decreases n - i,
        {
            let dev: &BtDevice = &devices[i];
            items.push(
                LibraryItem {
                    title: tick_name(dev.connected, dev.name.as_str()),
                    subtitle: dev.address.clone(),
                },
            );
            i = i + 1;
        }
    }
    assert(items.deep_view() =~= bt_rows(enabled, devices.deep_view()));
    items
}

pub fn build_wifi_network_detail_items(network: &WifiNetwork) -> (r: Vec<LibraryItem>)
    ensures
        r.deep_view() == wifi_detail_rows(network.deep_view()),
{
    let mut items: Vec<LibraryItem> = Vec::new();
    items.push(
        make_item(
            "Security",
            if network.secured {
                "WPA2-Personal"
            } else {
                "Open"
            },
        ),
    );
    items.push(
        make_item(
            "Signal",
            match network.signal_bars {
                0 => "▁   Very Weak",
                1 => "▁▃  Weak",
                2 => "▁▃▅ Good",
                _ => "▁▃▅ Excellent",
            },
        ),
    );
    if network.connected {
        items.push(make_item("Disconnect", "Tap to disconnect"));
    } else {
        items.push(
            make_item(
                "Connect",
                if network.secured {
                    "Uses saved credentials"
                } else {
                    "Open network"
                },
            ),
        );
        if network.secured {
            items.push(make_item("Enter Password", "Coming soon"));
        }
    }
    assert(items.deep_view() =~= wifi_detail_rows(network.deep_view()));
    items
}

pub fn build_bt_device_detail_items(device: &BtDevice) -> (r: Vec<LibraryItem>)
    ensures
        r.deep_view() == bt_detail_rows(device.deep_view()),
{
    let mut items: Vec<LibraryItem> = Vec::new();
    items.push(make_item("Address", device.address.as_str()));
    if device.connected {
        items.push(make_item("Disconnect", "Tap to disconnect"));
    } else {
        items.push(make_item("Connect", "Tap to connect"));
    }
    assert(items.deep_view() =~= bt_detail_rows(device.deep_view()));
    items
}

// ── Status bar ───────────────────────────────────────────────────────────────

/// The battery's charge, with a flash while it is charged.
pub open spec fn battery_text(status: SystemStatusView) -> Seq<char> {
    match status.battery {
        None => Seq::empty(),
        Some(b) => if b.charging {
            "⚡"@ + text::decimal(b.percent as nat) + "%"@
        } else {
            text::decimal(b.percent as nat) + "%"@
        },
    }
}

/// Less than a fifth is left, and it is not being charged.
pub open spec fn battery_low(status: SystemStatusView) -> bool {
    match status.battery {
        None => false,
        Some(b) => b.percent < 20 && !b.charging,
    }
}

/// A letter for what is switched on.
pub open spec fn letter_if(on: bool, letter: Seq<char>) -> Seq<char> {
    if on {
        letter
    } else {
        Seq::empty()
    }
}

/// Format system status into the six status-bar properties: the battery's text
/// and whether it is low, WiFi's text and whether it is connected, and the same
/// of Bluetooth.
pub fn format_system_status(s: &SystemStatus) -> (r: (String, bool, String, bool, String, bool))
    ensures
        r.0@ == battery_text(s.deep_view()),
        r.1 == battery_low(s.deep_view()),
        r.2@ == letter_if(s.deep_view().wifi.enabled, "W"@),
        r.3 == (s.deep_view().wifi.ssid is Some),
        r.4@ == letter_if(s.deep_view().bluetooth.enabled, "B"@),
        r.5 == (s.deep_view().bluetooth.connected_device is Some),
{
    let mut bat_text: String = String::new();
    let mut bat_low: bool = false;
    if let Some(b) = s.battery {
        if b.charging {
            bat_text.append("⚡");
        }
        text::push_decimal(&mut bat_text, b.percent as u64);
        bat_text.append("%");
        bat_low = b.percent < 20 && !b.charging;
    }
    assert(bat_text@ =~= battery_text(s.deep_view()));
    let wifi_text: String = if s.wifi.enabled {
        "W".to_string()
    } else {
        String::new()
    };
    let bt_text: String = if s.bluetooth.enabled {
        "B".to_string()
    } else {
        String::new()
    };
    (
        bat_text,
        bat_low,
        wifi_text,
        s.wifi.ssid.is_some(),
        bt_text,
        s.bluetooth.connected_device.is_some(),
    )
}

// ── Laws ─────────────────────────────────────────────────────────────────────

/// Each network has its row one below its place among the networks, and each
/// device two below, under the toggle and the scan.
pub proof fn law_rows_of_networks_and_devices(
    enabled: bool,
    networks: Seq<WifiNetworkView>,
    devices: Seq<BtDeviceView>,
)
    ensures
        wifi_rows(enabled, networks).len() == networks.len() + 1,
        forall|i: int|
            0 <= i < networks.len() ==> #[trigger] wifi_rows(enabled, networks)[i + 1] == wifi_row(
                networks[i],
            ),
        bt_rows(true, devices).len() == devices.len() + 2,
        forall|i: int|
            0 <= i < devices.len() ==> #[trigger] bt_rows(true, devices)[i + 2] == bt_row(
                devices[i],
            ),
        bt_rows(false, devices).len() == 1,
{
}

/// Only a secured network to which there is no connection offers a fourth row.
pub proof fn law_password_row(net: WifiNetworkView)
    ensures
        wifi_detail_rows(net).len() == (if net.secured && !net.connected {
            4nat
        } else {
            3
        }),
        wifi_detail_rows(net)[2].title == (if net.connected {
            "Disconnect"@
        } else {
            "Connect"@
        }),
{
}

/// A time is whole minutes and less than sixty seconds, written with a colon between
/// them and the seconds in two digits.
pub proof fn law_times(minutes: nat, seconds: nat)
    requires
        seconds < 60,
    ensures
        minutes_of(60 * minutes + seconds) == text::decimal(minutes) + seq![':']
            + text::two_digits(seconds),
{
    reveal_strlit(":");
    assert(":"@ =~= seq![':']);
    assert((60 * minutes + seconds) / 60 == minutes);
    assert((60 * minutes + seconds) % 60 == seconds);
}

/// Artists, albums and tracks have a row each, in their order, with their names as the
/// titles.
pub proof fn law_rows_of_music(
    artists: Seq<ArtistView>,
    albums: Seq<AlbumView>,
    tracks: Seq<TrackView>,
    i: int,
)
    ensures
        artist_items(artists).len() == artists.len(),
        album_items(albums).len() == albums.len(),
        track_items(tracks).len() == tracks.len(),
        0 <= i < artists.len() ==> artist_items(artists)[i].title == artists[i].name,
        0 <= i < albums.len() ==> album_items(albums)[i].title == albums[i].name,
        0 <= i < tracks.len() && tracks[i].track_number is Some ==> track_items(tracks)[i].title
            == text::decimal(tracks[i].track_number->0 as nat) + seq!['.', ' '] + tracks[i].title,
        0 <= i < tracks.len() && tracks[i].track_number is None && i < u32::MAX ==> track_items(
            tracks,
        )[i].title == text::decimal((i + 1) as nat) + seq!['.', ' '] + tracks[i].title,
{
    reveal_strlit(". ");
    assert(". "@ =~= seq!['.', ' ']);
}

/// Below an artist's name stands the number of albums, below an album's the number of
/// songs, behind the year where it is known, and below a track's title its artist and
/// how long it plays, or what stands in for them.
pub proof fn law_lines_below_music(
    artists: Seq<ArtistView>,
    albums: Seq<AlbumView>,
    tracks: Seq<TrackView>,
    i: int,
)
    ensures
        0 <= i < artists.len() ==> artist_items(artists)[i].subtitle == text::decimal(
            artists[i].album_count as nat,
        ) + " albums"@,
        0 <= i < albums.len() && albums[i].year is None ==> album_items(albums)[i].subtitle
            == text::decimal(albums[i].song_count as nat) + " songs"@,
        0 <= i < albums.len() && albums[i].year is Some ==> album_items(albums)[i].subtitle
            == text::decimal(albums[i].year->0 as nat) + " • "@ + text::decimal(
            albums[i].song_count as nat,
        ) + " songs"@,
        0 <= i < tracks.len() ==> track_items(tracks)[i].subtitle == (if tracks[i].artist is Some {
            tracks[i].artist->0
        } else {
            "?"@
        }) + " • "@ + (if tracks[i].duration is Some {
            minutes_of(single::through_single(tracks[i].duration->0))
        } else {
            "—"@
        }),
{
    if 0 <= i < albums.len() && albums[i].year is None {
        assert(Seq::<char>::empty() + text::decimal(albums[i].song_count as nat) + " songs"@
            =~= text::decimal(albums[i].song_count as nat) + " songs"@);
    }
}

/// A track of less than two to the twenty-fourth seconds is listed with its length to
/// the second.
pub proof fn law_track_lengths(track: TrackView, minutes: nat, seconds: nat)
    requires
        seconds < 60,
        60 * minutes + seconds <= 0x0100_0000,
        track.duration == Some((60 * minutes + seconds) as u32),
    ensures
        track_time_of(track) == text::decimal(minutes) + seq![':'] + text::two_digits(seconds),
{
    let n = (60 * minutes + seconds) as u32;
    single::law_small_numbers_are_exact(n);
    law_times(minutes, seconds);
}

/// The settings show the network and the device that there is a connection to, and else
/// whether WiFi and Bluetooth are on.
pub proof fn law_settings_show_the_status(status: SystemStatusView)
    ensures
        ({
            let rows = settings_rows(status);
            &&& rows.len() == 2
            &&& rows[0].title == "WiFi"@
            &&& rows[1].title == "Bluetooth"@
            &&& !status.wifi.enabled ==> rows[0].subtitle == "Off"@
            &&& status.wifi.enabled && status.wifi.ssid is Some ==> rows[0].subtitle
                == status.wifi.ssid->0
            &&& status.wifi.enabled && status.wifi.ssid is None ==> rows[0].subtitle
                == "Not connected"@
            &&& !status.bluetooth.enabled ==> rows[1].subtitle == "Off"@
            &&& status.bluetooth.enabled && status.bluetooth.connected_device is Some
                ==> rows[1].subtitle == status.bluetooth.connected_device->0
            &&& status.bluetooth.enabled && status.bluetooth.connected_device is None
                ==> rows[1].subtitle == "On"@
            &&& rows[0].subtitle == wifi_subtitle(status.wifi)
            &&& rows[1].subtitle == bt_subtitle(status.bluetooth)
        }),
{
}

/// The first row of the networks and of the devices is a switch that says how it
/// stands.
pub proof fn law_switches_say_how_they_stand(
    networks: Seq<WifiNetworkView>,
    devices: Seq<BtDeviceView>,
)
    ensures
        wifi_rows(true, networks)[0] == (LibraryItemView {
            title: "WiFi: On"@,
            subtitle: "tap to toggle"@,
        }),
        wifi_rows(false, networks)[0] == (LibraryItemView {
            title: "WiFi: Off"@,
            subtitle: "tap to toggle"@,
        }),
        bt_rows(true, devices)[0] == (LibraryItemView {
            title: "Bluetooth: On"@,
            subtitle: "tap to toggle"@,
        }),
        bt_rows(false, devices)[0] == (LibraryItemView {
            title: "Bluetooth: Off"@,
            subtitle: "tap to toggle"@,
        }),
        bt_rows(true, devices)[1] == (LibraryItemView {
            title: "Scan for devices"@,
            subtitle: "~5 seconds"@,
        }),
        wifi_rows(true, networks)[0] == wifi_toggle_row(true),
        wifi_rows(false, networks)[0] == wifi_toggle_row(false),
        bt_rows(true, devices)[0] == bt_toggle_row(true),
        bt_rows(false, devices)[0] == bt_toggle_row(false),
{
}

/// The row of a network or a device shows its name, with a tick in front where there is
/// a connection. Below stand the network's signal and whether it is secured, and the
/// device's address.
pub proof fn law_rows_name_what_is_there(net: WifiNetworkView, dev: BtDeviceView)
    ensures
        net.connected ==> wifi_row(net).title == "✓ "@ + net.ssid,
        !net.connected ==> wifi_row(net).title == net.ssid,
        dev.connected ==> bt_row(dev).title == "✓ "@ + dev.name,
        !dev.connected ==> bt_row(dev).title == dev.name,
        bt_row(dev).subtitle == dev.address,
        wifi_row(net).subtitle == "▁▃▅"@.take(
            if net.signal_bars < 2 {
                net.signal_bars + 1
            } else {
                3
            },
        ) + "   "@.take(
            if net.signal_bars < 2 {
                2 - net.signal_bars
            } else {
                0
            },
        ) + " • "@ + (if net.secured {
            "Secured"@
        } else {
            "Open"@
        }),
{
    reveal_strlit("▁▃▅");
    reveal_strlit("▁  ");
    reveal_strlit("▁▃ ");
    reveal_strlit("   ");
    if net.signal_bars == 0 {
        assert("▁▃▅"@.take(1) + "   "@.take(2) =~= "▁  "@);
    } else if net.signal_bars == 1 {
        assert("▁▃▅"@.take(2) + "   "@.take(1) =~= "▁▃ "@);
    } else {
        assert("▁▃▅"@.take(3) + "   "@.take(0) =~= "▁▃▅"@);
    }
}

/// The details of a network tell its security and its signal, and offer to end the
/// connection, or to make it and, where it is secured, to enter the password.
pub proof fn law_network_details(net: WifiNetworkView)
    ensures
        ({
            let rows = wifi_detail_rows(net);
            &&& rows[0].title == "Security"@
            &&& net.secured ==> rows[0].subtitle == "WPA2-Personal"@
            &&& !net.secured ==> rows[0].subtitle == "Open"@
            &&& rows[1].title == "Signal"@
            &&& net.signal_bars == 0 ==> rows[1].subtitle == "▁   Very Weak"@
            &&& net.signal_bars == 1 ==> rows[1].subtitle == "▁▃  Weak"@
            &&& net.signal_bars == 2 ==> rows[1].subtitle == "▁▃▅ Good"@
            &&& net.signal_bars >= 3 ==> rows[1].subtitle == "▁▃▅ Excellent"@
            &&& net.connected ==> rows.len() == 3 && rows[2] == (LibraryItemView {
                title: "Disconnect"@,
                subtitle: "Tap to disconnect"@,
            })
            &&& !net.connected ==> rows[2].title == "Connect"@
            &&& !net.connected && !net.secured ==> rows.len() == 3 && rows[2].subtitle
                == "Open network"@
            &&& !net.connected && net.secured ==> rows.len() == 4 && rows[2].subtitle
                == "Uses saved credentials"@ && rows[3] == (LibraryItemView {
                title: "Enter Password"@,
                subtitle: "Coming soon"@,
            })
        }),
{
}

/// The details of a device tell its address and offer to end or to make the connection.
pub proof fn law_device_details(dev: BtDeviceView)
    ensures
        bt_detail_rows(dev).len() == 2,
        bt_detail_rows(dev)[0] == (LibraryItemView {
            title: "Address"@,
            subtitle: dev.address,
        }),
        dev.connected ==> bt_detail_rows(dev)[1] == (LibraryItemView {
            title: "Disconnect"@,
            subtitle: "Tap to disconnect"@,
        }),
        !dev.connected ==> bt_detail_rows(dev)[1] == (LibraryItemView {
            title: "Connect"@,
            subtitle: "Tap to connect"@,
        }),
{
}

/// The battery is shown in percent, behind a flash while it charges, and not at all
/// where there is none. It is low below a fifth unless it charges.
pub proof fn law_battery_is_shown(status: SystemStatusView, percent: u8)
    ensures
        status.battery is None ==> battery_text(status).len() == 0 && !battery_low(status),
        status.battery matches Some(b) ==> {
            &&& b.percent == percent && b.charging ==> battery_text(status) == seq!['⚡']
                + text::decimal(percent as nat) + seq!['%'] && !battery_low(status)
            &&& b.percent == percent && !b.charging ==> battery_text(status) == text::decimal(
                percent as nat,
            ) + seq!['%'] && (battery_low(status) <==> percent <= 19)
        },
{
    reveal_strlit("⚡");
    reveal_strlit("%");
    assert("⚡"@ =~= seq!['⚡']);
    assert("%"@ =~= seq!['%']);
}

/// A letter is shown of what is switched on, and of nothing else.
pub proof fn law_letters(letter: Seq<char>)
    ensures
        letter_if(true, letter) == letter,
        letter_if(false, letter).len() == 0,
{
}

} // verus!
