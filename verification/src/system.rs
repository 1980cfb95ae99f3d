//! OS-level system status and control: what the output of the system's own
//! tools means, and how they are called.
//!
//! Where a tool is missing, or the hardware is, sensible defaults stand in.

use vstd::prelude::*;

use crate::text;

verus! {

/// How often the status is polled, in seconds.
pub const POLL_SECONDS: u64 = 30;

// ── Status types ─────────────────────────────────────────────────────────────

#[derive(Debug)]
pub struct SystemStatus {
    pub battery: Option<BatteryStatus>,
    pub wifi: WifiStatus,
    pub bluetooth: BtStatus,
}

#[derive(Debug, Clone, Copy, PartialEq, Eq, Structural)]
pub struct BatteryStatus {
    /// 0 – 100
    pub percent: u8,
    pub charging: bool,
}

#[derive(Debug)]
pub struct WifiStatus {
    pub enabled: bool,
    pub ssid: Option<String>,
    /// 0 – 3 signal bars
    pub signal_bars: u8,
}

#[derive(Debug)]
pub struct BtStatus {
    pub enabled: bool,
    pub connected_device: Option<String>,
}

// ── Action/list types ────────────────────────────────────────────────────────

#[derive(Debug)]
pub struct WifiNetwork {
    pub ssid: String,
    /// 0 – 3
    pub signal_bars: u8,
    pub secured: bool,
    pub connected: bool,
}

#[derive(Debug)]
pub struct BtDevice {
    pub name: String,
    pub address: String,
    pub connected: bool,
}

/// What the list of network devices says of the WiFi adapter.
#[derive(Debug)]
pub enum WifiProbe {
    /// There is none.
    Missing,
    /// There is one, without a connection.
    Idle { enabled: bool },
    /// There is one, connected to this network.
    Connected { ssid: String },
}

pub struct WifiStatusView {
    pub enabled: bool,
    pub ssid: Option<Seq<char>>,
    pub signal_bars: u8,
}

pub struct BtStatusView {
    pub enabled: bool,
    pub connected_device: Option<Seq<char>>,
}

pub struct SystemStatusView {
    pub battery: Option<BatteryStatus>,
    pub wifi: WifiStatusView,
    pub bluetooth: BtStatusView,
}

pub struct WifiNetworkView {
    pub ssid: Seq<char>,
    pub signal_bars: u8,
    pub secured: bool,
    pub connected: bool,
}

pub struct BtDeviceView {
    pub name: Seq<char>,
    pub address: Seq<char>,
    pub connected: bool,
}

pub enum WifiProbeView {
    Missing,
    Idle { enabled: bool },
    Connected { ssid: Seq<char> },
}

impl DeepView for WifiStatus {
    type V = WifiStatusView;

    open spec fn deep_view(&self) -> WifiStatusView {
        WifiStatusView {
            enabled: self.enabled,
            ssid: self.ssid.deep_view(),
            signal_bars: self.signal_bars,
        }
    }
}

impl DeepView for BtStatus {
    type V = BtStatusView;

    open spec fn deep_view(&self) -> BtStatusView {
        BtStatusView {
            enabled: self.enabled,
            connected_device: self.connected_device.deep_view(),
        }
    }
}

impl DeepView for SystemStatus {
    type V = SystemStatusView;

    open spec fn deep_view(&self) -> SystemStatusView {
        SystemStatusView {
            battery: self.battery,
            wifi: self.wifi.deep_view(),
            bluetooth: self.bluetooth.deep_view(),
        }
    }
}

impl DeepView for WifiNetwork {
    type V = WifiNetworkView;

    open spec fn deep_view(&self) -> WifiNetworkView {
        WifiNetworkView {
            ssid: self.ssid@,
            signal_bars: self.signal_bars,
            secured: self.secured,
            connected: self.connected,
        }
    }
}

impl DeepView for BtDevice {
    type V = BtDeviceView;

    open spec fn deep_view(&self) -> BtDeviceView {
        BtDeviceView { name: self.name@, address: self.address@, connected: self.connected }
    }
}

impl DeepView for WifiProbe {
    type V = WifiProbeView;

    open spec fn deep_view(&self) -> WifiProbeView {
        match self {
            WifiProbe::Missing => WifiProbeView::Missing,
            WifiProbe::Idle { enabled } => WifiProbeView::Idle { enabled: *enabled },
            WifiProbe::Connected { ssid } => WifiProbeView::Connected { ssid: ssid@ },
        }
    }
}

impl Clone for WifiStatus {
    fn clone(&self) -> (r: Self)
        ensures
            r == *self,
    {
        WifiStatus {
            enabled: self.enabled,
            ssid: self.ssid.clone(),
            signal_bars: self.signal_bars,
        }
    }
}

impl Clone for BtStatus {
    fn clone(&self) -> (r: Self)
        ensures
            r == *self,
    {
        BtStatus { enabled: self.enabled, connected_device: self.connected_device.clone() }
    }
}

impl Clone for SystemStatus {
    fn clone(&self) -> (r: Self)
        ensures
            r == *self,
    {
        SystemStatus {
            battery: self.battery,
            wifi: self.wifi.clone(),
            bluetooth: self.bluetooth.clone(),
        }
    }
}

impl Clone for WifiNetwork {
    fn clone(&self) -> (r: Self)
        ensures
            r == *self,
    {
        WifiNetwork {
            ssid: self.ssid.clone(),
            signal_bars: self.signal_bars,
            secured: self.secured,
            connected: self.connected,
        }
    }
}

impl Clone for BtDevice {
    fn clone(&self) -> (r: Self)
        ensures
            r == *self,
    {
        BtDevice {
            name: self.name.clone(),
            address: self.address.clone(),
            connected: self.connected,
        }
    }
}

impl Default for WifiStatus {
    fn default() -> (r: Self)
        ensures
            r.deep_view() == (WifiStatusView { enabled: false, ssid: None, signal_bars: 0 }),
    {
        WifiStatus { enabled: false, ssid: None, signal_bars: 0 }
    }
}

impl Default for BtStatus {
    fn default() -> (r: Self)
        ensures
            r.deep_view() == (BtStatusView { enabled: false, connected_device: None }),
    {
        BtStatus { enabled: false, connected_device: None }
    }
}

impl Default for SystemStatus {
    fn default() -> (r: Self)
        ensures
            r.deep_view() == (SystemStatusView {
                battery: None,
                wifi: WifiStatusView { enabled: false, ssid: None, signal_bars: 0 },
                bluetooth: BtStatusView { enabled: false, connected_device: None },
            }),
    {
        SystemStatus {
            battery: None,
            wifi: WifiStatus::default(),
            bluetooth: BtStatus::default(),
        }
    }
}

// ── Battery ──────────────────────────────────────────────────────────────────

/// Standard Linux power-supply names, in the order in which they are tried.
pub fn battery_names() -> (r: Vec<&'static str>)
    ensures
        text::texts(r@) == seq!["BAT0"@, "BAT1"@, "BAT2"@, "battery"@, "BATC"@, "BATT"@],
{
    let mut names: Vec<&'static str> = Vec::new();
    names.push("BAT0");
    names.push("BAT1");
    names.push("BAT2");
    names.push("battery");
    names.push("BATC");
    names.push("BATT");
    assert(text::texts(names@) =~= seq![
        "BAT0"@,
        "BAT1"@,
        "BAT2"@,
        "battery"@,
        "BATC"@,
        "BATT"@,
    ]);
    names
}

/// What a battery's files say. Without a readable number of percent, at most a
/// hundred, there is no status; a battery that is not said to be discharging
/// counts as charging.
pub open spec fn battery_of(capacity: Option<Seq<char>>, status: Option<Seq<char>>) -> Option<
    BatteryStatus,
> {
    let said = match status {
        Some(s) => s,
        None => Seq::empty(),
    };
    match capacity {
        Some(c) => match text::parsed(text::trimmed(c), 100) {
            Some(n) => Some(
                BatteryStatus {
                    percent: n as u8,
                    charging: !text::same_but_case(text::trimmed(said), "Discharging"@),
                },
            ),
            None => None,
        },
        None => None,
    }
}

/// The battery's status from its `capacity` and `status` files, where they could
/// be read.
pub fn battery_from(capacity: Option<&str>, status: Option<&str>) -> (r: Option<BatteryStatus>)
    ensures
        r == battery_of(capacity.deep_view(), status.deep_view()),
        r matches Some(b) ==> b.percent <= 100,
{
    let said: &str = match status {
        Some(s) => s,
        None => "",
    };
    proof {
        reveal_strlit("");
        assert(""@ =~= Seq::<char>::empty());
    }
    match capacity {
        Some(c) => match text::parse_up_to(text::trim(c), 100) {
            Some(n) => Some(
                BatteryStatus {
                    percent: n as u8,
                    charging: !text::eq_ignore_ascii_case(text::trim(said), "Discharging"),
                },
            ),
            None => None,
        },
        None => None,
    }
}

// ── WiFi ─────────────────────────────────────────────────────────────────────

/// The three fields of a line, separated by colons; the last one may hold more
/// colons, and what is missing is empty.
pub open spec fn three_fields(s: Seq<char>) -> (Seq<char>, Seq<char>, Seq<char>) {
    match text::split_first_of(s, ':') {
        None => (s, Seq::empty(), Seq::empty()),
        Some((a, rest)) => match text::split_first_of(rest, ':') {
            None => (a, rest, Seq::empty()),
            Some((b, c)) => (a, b, c),
        },
    }
}

/// A line that speaks of a WiFi adapter.
pub open spec fn is_wifi_line(s: Seq<char>) -> bool {
    text::begins_with(three_fields(s).0, "wl"@) || text::begins_with(three_fields(s).0, "wifi"@)
}

/// What a line `device:state:connection` says.
pub open spec fn probe_line(s: Seq<char>) -> WifiProbeView {
    let (_, state, connection) = three_fields(s);
    if state == "connected"@ {
        WifiProbeView::Connected { ssid: connection }
    } else {
        WifiProbeView::Idle { enabled: state != "unavailable"@ && state != "unmanaged"@ }
    }
}

/// What the first line of a WiFi adapter says.
pub open spec fn probe_of(lines: Seq<Seq<char>>) -> WifiProbeView
    decreases lines.len(),
{
    if lines.len() == 0 {
        WifiProbeView::Missing
    } else if is_wifi_line(lines[0]) {
        probe_line(lines[0])
    } else {
        probe_of(lines.drop_first())
    }
}

fn fields_of<'a>(s: &'a str) -> (r: (&'a str, &'a str, &'a str))
    ensures
        (r.0@, r.1@, r.2@) == three_fields(s@),
{
    proof {
        reveal_strlit("");
        assert(""@ =~= Seq::<char>::empty());
    }
    match text::split_first(s, ':') {
        None => (s, "", ""),
        Some((a, rest)) => match text::split_first(rest, ':') {
            None => (a, rest, ""),
            Some((b, c)) => (a, b, c),
        },
    }
}

/// Reads `nmcli -t -f DEVICE,STATE,CONNECTION device`.
pub fn probe_wifi(output: &str) -> (r: WifiProbe)
    ensures
        r.deep_view() == probe_of(text::lines_of(output@)),
{
    let lines: Vec<&str> = text::lines(output);
    let ghost all = text::lines_of(output@);
    let n: usize = lines.len();
    let mut i: usize = 0;
    assert(all.skip(0) == all);
    while i < n
        invariant
            i <= n == lines@.len(),
            text::texts(lines@) == all,
            all == text::lines_of(output@),
            probe_of(all.skip(i as int)) == probe_of(all),
        decreases n - i,
    {
        let line: &str = lines[i];
        assert(line@ == all[i as int]);
        assert(all.skip(i as int)[0] == line@);
        assert(all.skip(i as int).drop_first() == all.skip(i + 1));
        let (device, state, connection) = fields_of(line);
        if text::starts_with(device, "wl") || text::starts_with(device, "wifi") {
            if text::same(state, "connected") {
                return WifiProbe::Connected { ssid: connection.to_string() };
            }
            let enabled: bool = !text::same(state, "unavailable") && !text::same(
                state,
                "unmanaged",
            );
            return WifiProbe::Idle { enabled };
        }
        i = i + 1;
    }
    assert(all.skip(n as int) == Seq::<Seq<char>>::empty());
    WifiProbe::Missing
}

/// The status that follows from what was found, and from the signal where there
/// is a connection.
pub open spec fn wifi_status_of(probe: WifiProbeView, bars: u8) -> WifiStatusView {
    match probe {
        WifiProbeView::Missing => WifiStatusView { enabled: false, ssid: None, signal_bars: 0 },
        WifiProbeView::Idle { enabled } => WifiStatusView { enabled, ssid: None, signal_bars: 0 },
        WifiProbeView::Connected { ssid } => WifiStatusView {
            enabled: true,
            ssid: Some(ssid),
            signal_bars: bars,
        },
    }
}

pub fn wifi_status_from(probe: WifiProbe, bars: u8) -> (r: WifiStatus)
    ensures
        r.deep_view() == wifi_status_of(probe.deep_view(), bars),
{
    match probe {
        WifiProbe::Missing => WifiStatus::default(),
        WifiProbe::Idle { enabled } => WifiStatus { enabled, ssid: None, signal_bars: 0 },
        WifiProbe::Connected { ssid } => WifiStatus {
            enabled: true,
            ssid: Some(ssid),
            signal_bars: bars,
        },
    }
}

/// The link quality on a line of `/proc/net/wireless`: its third word, which
/// may end in full stops.
pub open spec fn quality_on(line: Seq<char>) -> Option<nat> {
    let words = text::words_of(line);
    if words.len() >= 3 {
        text::parsed(text::trim_end_char_of(words[2], '.'), u32::MAX as nat)
    } else {
        None
    }
}

/// The link quality on the first line that gives one.
pub open spec fn quality_in(lines: Seq<Seq<char>>) -> Option<nat>
    decreases lines.len(),
{
    if lines.len() == 0 {
        None
    } else if quality_on(lines[0]) is Some {
        quality_on(lines[0])
    } else {
        quality_in(lines.drop_first())
    }
}

/// The link quality in `/proc/net/wireless`, whose first two lines are headings.
pub open spec fn quality_of(content: Seq<char>) -> Option<nat> {
    let lines = text::lines_of(content);
    if lines.len() <= 2 {
        None
    } else {
        quality_in(lines.skip(2))
    }
}

/// Reads the link quality from `/proc/net/wireless`.
pub fn wireless_quality(content: &str) -> (r: Option<u32>)
    ensures
        quality_of(content@) == (match r {
            Some(q) => Some(q as nat),
            None => None,
        }),
{
    let lines: Vec<&str> = text::lines(content);
    let ghost all = text::lines_of(content@);
    let n: usize = lines.len();
    let mut i: usize = 2;
    while i < n
        invariant
            2 <= i,
            n == lines@.len(),
            n > 2 ==> i <= n,
            text::texts(lines@) == all,
            all == text::lines_of(content@),
            n > 2 ==> quality_in(all.skip(i as int)) == quality_in(all.skip(2)),
        decreases n - i,
    {
        let line: &str = lines[i];
        assert(all.skip(i as int)[0] == line@);
        assert(all.skip(i as int).drop_first() == all.skip(i + 1));
        let words: Vec<&str> = text::words(line);
        if words.len() >= 3 {
            assert(text::texts(words@)[2] == words@[2]@);
            match text::parse_up_to(text::trim_end_char(words[2], '.'), u32::MAX) {
                Some(q) => {
                    return Some(q);
                },
                None => {},
            }
        }
        i = i + 1;
    }
    if n > 2 {
        assert(all.skip(n as int) == Seq::<Seq<char>>::empty());
    }
    None
}

/// Signal bars for a link quality, which is typically 0-70 on most drivers.
pub open spec fn quality_bars_of(quality: nat) -> nat {
    let bars = (quality * 3 + 34) / 70;
    if bars < 3 {
        bars
    } else {
        3
    }
}

pub fn quality_bars(quality: u32) -> (r: u8)
    requires
        quality * 3 + 34 <= u32::MAX,
    ensures
        r == quality_bars_of(quality as nat),
{
    let bars: u32 = (quality * 3 + 34) / 70;
    if bars < 3 {
        bars as u8
    } else {
        3
    }
}

/// Signal bars where no link quality can be had.
pub fn default_signal_bars() -> (r: u8)
    ensures
        r == 1,
{
    1
}

/// The text of the table, where it could be read.
pub open spec fn table_text(table: Option<&str>) -> Option<Seq<char>> {
    match table {
        Some(content) => Some(content@),
        None => None,
    }
}

/// Signal bars from `/proc/net/wireless`, where it could be read: those of the link
/// quality, or the default where none is given.
pub open spec fn signal_bars_of(table: Option<Seq<char>>) -> nat {
    match table {
        Some(content) => match quality_of(content) {
            Some(quality) => quality_bars_of(quality),
            None => 1,
        },
        None => 1,
    }
}

/// The link quality in the table, if it gives one, can be reckoned with in 32 bits.
pub open spec fn quality_fits(table: Option<Seq<char>>) -> bool {
    table matches Some(content) ==> quality_of(content) matches Some(quality) ==> quality * 3 + 34
        <= u32::MAX
}

/// Signal bars from `/proc/net/wireless`, where it could be read, unless the link
/// quality in it is too large to be reckoned with.
pub fn signal_bars_from(table: Option<&str>) -> (r: Option<u8>)
    ensures
        match r {
            Some(bars) => quality_fits(table_text(table)) && bars == signal_bars_of(
                table_text(table),
            ),
            None => !quality_fits(table_text(table)),
        },
{
    let quality: Option<u32> = match table {
        Some(content) => wireless_quality(content),
        None => None,
    };
    match quality {
        Some(q) => {
            if q > (u32::MAX - 34) / 3 {
                None
            } else {
                Some(quality_bars(q))
            }
        },
        None => Some(default_signal_bars()),
    }
}

/// Signal bars for a strength in percent.
pub open spec fn strength_bars_of(signal: nat) -> nat {
    let bars = (signal * 3 + 49) / 100;
    if bars < 3 {
        bars
    } else {
        3
    }
}

/// The four fields of a line `SSID:SIGNAL:SECURITY:ACTIVE`, taken from the right
/// so that the name may hold colons.
pub open spec fn scan_fields(s: Seq<char>) -> Option<
    (Seq<char>, Seq<char>, Seq<char>, Seq<char>),
> {
    match text::split_last_of(s, ':') {
        None => None,
        Some((a, active)) => match text::split_last_of(a, ':') {
            None => None,
            Some((b, security)) => match text::split_last_of(b, ':') {
                None => None,
                Some((ssid, signal)) => Some((ssid, signal, security, active)),
            },
        },
    }
}

/// The network on a line of a scan. A line without a name is a hidden network
/// and is left out, as is one without a readable signal.
pub open spec fn network_of(s: Seq<char>) -> Option<WifiNetworkView> {
    match scan_fields(s) {
        None => None,
        Some((ssid, signal, security, active)) => match text::parsed(signal, u32::MAX as nat) {
            None => None,
            Some(n) => if text::trimmed(ssid).len() == 0 {
                None
            } else {
                Some(
                    WifiNetworkView {
                        ssid: text::trimmed(ssid),
                        signal_bars: strength_bars_of(n) as u8,
                        secured: security.len() > 0 && security != "--"@,
                        connected: active == "yes"@,
                    },
                )
            },
        },
    }
}

/// The strength on a line can be reckoned with in 32 bits.
pub open spec fn network_fits(s: Seq<char>) -> bool {
    scan_fields(s) matches Some((ssid, signal, _, _)) ==> text::parsed(
        signal,
        u32::MAX as nat,
    ) matches Some(n) ==> text::trimmed(ssid).len() > 0 ==> n * 3 + 49 <= u32::MAX
}

fn split_scan_line<'a>(line: &'a str) -> (r: Option<(&'a str, &'a str, &'a str, &'a str)>)
    ensures
        (match r {
            Some((a, b, c, d)) => scan_fields(line@) == Some((a@, b@, c@, d@)),
            None => scan_fields(line@) is None,
        }),
{
    match text::split_last(line, ':') {
        None => None,
        Some((a, active)) => match text::split_last(a, ':') {
            None => None,
            Some((b, security)) => match text::split_last(b, ':') {
                None => None,
                Some((ssid, signal)) => Some((ssid, signal, security, active)),
            },
        },
    }
}

/// Whether the strength on a line can be reckoned with.
pub fn wifi_line_fits(line: &str) -> (r: bool)
    ensures
        r == network_fits(line@),
{
    match split_scan_line(line) {
        None => true,
        Some((ssid, signal, _, _)) => match text::parse_up_to(signal, u32::MAX) {
            None => true,
            Some(n) => text::trim(ssid).is_empty() || n as u64 * 3 + 49 <= u32::MAX as u64,
        },
    }
}

/// Reads a line of `nmcli -t --escape no -f SSID,SIGNAL,SECURITY,ACTIVE dev wifi`.
pub fn parse_wifi_line(line: &str) -> (r: Option<WifiNetwork>)
    requires
        network_fits(line@),
    ensures
        r.deep_view() == network_of(line@),
{
    match split_scan_line(line) {
        None => None,
        Some((ssid, signal, security, active)) => match text::parse_up_to(signal, u32::MAX) {
            None => None,
            Some(n) => {
                let name: &str = text::trim(ssid);
                if name.is_empty() {
                    return None;  // hidden network
                }
                let bars: u32 = (n * 3 + 49) / 100;
                Some(
                    WifiNetwork {
                        ssid: name.to_string(),
                        signal_bars: if bars < 3 {
                            bars as u8
                        } else {
                            3
                        },
                        secured: !security.is_empty() && !text::same(security, "--"),
                        connected: text::same(active, "yes"),
                    },
                )
            },
        },
    }
}

/// The networks on some lines, in order.
pub open spec fn networks_in(lines: Seq<Seq<char>>) -> Seq<WifiNetworkView>
    decreases lines.len(),
{
    if lines.len() == 0 {
        Seq::empty()
    } else {
        match network_of(lines.last()) {
            Some(n) => networks_in(lines.drop_last()).push(n),
            None => networks_in(lines.drop_last()),
        }
    }
}

pub open spec fn lists_ssid(networks: Seq<WifiNetworkView>, ssid: Seq<char>) -> bool {
    exists|i: int| 0 <= i < networks.len() && (#[trigger] networks[i]).ssid == ssid
}

/// `networks` with only the first one of each name.
pub open spec fn first_of_each(networks: Seq<WifiNetworkView>) -> Seq<WifiNetworkView>
    decreases networks.len(),
{
    if networks.len() == 0 {
        Seq::empty()
    } else {
        let before = first_of_each(networks.drop_last());
        if lists_ssid(before, networks.last().ssid) {
            before
        } else {
            before.push(networks.last())
        }
    }
}

/// How far in front a network stands: the connected one first, then by signal.
pub open spec fn rank_of(n: WifiNetworkView) -> int {
    n.signal_bars + (if n.connected {
        4int
    } else {
        0
    })
}

/// The networks of one rank, in the order of the list.
pub open spec fn of_rank(networks: Seq<WifiNetworkView>, rank: int) -> Seq<WifiNetworkView>
    decreases networks.len(),
{
    if networks.len() == 0 {
        Seq::empty()
    } else if rank_of(networks.last()) == rank {
        of_rank(networks.drop_last(), rank).push(networks.last())
    } else {
        of_rank(networks.drop_last(), rank)
    }
}

/// The networks of the given rank and of those below it, rank by rank.
pub open spec fn ranked_from(networks: Seq<WifiNetworkView>, rank: int) -> Seq<WifiNetworkView>
    decreases rank + 1,
{
    if rank < 0 {
        Seq::empty()
    } else {
        of_rank(networks, rank) + ranked_from(networks, rank - 1)
    }
}

/// The networks that a scan found: each name once, the connected network first,
/// then by descending signal strength, and in the order of the scan among equals.
pub open spec fn scan_of(output: Seq<char>) -> Seq<WifiNetworkView> {
    ranked_from(first_of_each(networks_in(text::lines_of(output))), 7)
}

/// The strengths on all lines can be reckoned with.
pub open spec fn scan_fits(output: Seq<char>) -> bool {
    forall|i: int|
        0 <= i < text::lines_of(output).len() ==> network_fits(
            #[trigger] text::lines_of(output)[i],
        )
}

/// Whether the strengths on all lines can be reckoned with.
pub fn wifi_scan_fits(output: &str) -> (r: bool)
    ensures
        r == scan_fits(output@),
{
    let lines: Vec<&str> = text::lines(output);
    let ghost all = text::lines_of(output@);
    let n: usize = lines.len();
    let mut i: usize = 0;
    while i < n
        invariant
            i <= n == lines@.len(),
            text::texts(lines@) == all,
            all == text::lines_of(output@),
            forall|j: int| 0 <= j < i ==> network_fits(#[trigger] all[j]),
        decreases n - i,
    {
        assert(all[i as int] == lines@[i as int]@);
        if !wifi_line_fits(lines[i]) {
            return false;
        }
        i = i + 1;
    }
    true
}

fn has_ssid(networks: &Vec<WifiNetwork>, ssid: &String) -> (r: bool)
    ensures
        r == lists_ssid(networks.deep_view(), ssid@),
{
    let n: usize = networks.len();
    let mut i: usize = 0;
    let ghost all = networks.deep_view();
    while i < n
        invariant
            i <= n == networks@.len(),
            all == networks.deep_view(),
            forall|j: int| 0 <= j < i ==> (#[trigger] all[j]).ssid != ssid@,
        decreases n - i,
    {
        assert(all[i as int].ssid == networks@[i as int].ssid@);
        if networks[i].ssid == *ssid {
            return true;
        }
        i = i + 1;
    }
    false
}

fn rank(n: &WifiNetwork) -> (r: i64)
    ensures
        r == rank_of(n.deep_view()),
{
    if n.connected {
        n.signal_bars as i64 + 4
    } else {
        n.signal_bars as i64
    }
}

fn sort_networks(networks: &Vec<WifiNetwork>) -> (r: Vec<WifiNetwork>)
    ensures
        r.deep_view() == ranked_from(networks.deep_view(), 7),
{
    let mut out: Vec<WifiNetwork> = Vec::new();
    let ghost all = networks.deep_view();
    let n: usize = networks.len();
    let mut k: i64 = 7;
    assert(out.deep_view() + ranked_from(all, 7) =~= ranked_from(all, 7));
    while k >= 0
        invariant
            -1 <= k <= 7,
            n == networks@.len(),
            all == networks.deep_view(),
            out.deep_view() + ranked_from(all, k as int) == ranked_from(all, 7),
        decreases k + 1,
    {
        let ghost before = out.deep_view();
        let mut i: usize = 0;
        assert(all.take(0) == Seq::<WifiNetworkView>::empty());
        assert(out.deep_view() =~= before + of_rank(all.take(0), k as int));
        while i < n
            invariant
                i <= n == networks@.len(),
                all == networks.deep_view(),
                out.deep_view() == before + of_rank(all.take(i as int), k as int),
            decreases n - i,
        {
            let ghost sofar = out.deep_view();
            assert(all.take(i + 1).drop_last() == all.take(i as int));
            assert(all.take(i + 1).last() == networks@[i as int].deep_view());
            if rank(&networks[i]) == k {
                out.push(networks[i].clone());
                assert(out.deep_view() =~= sofar.push(networks@[i as int].deep_view()));
            }
            assert(out.deep_view() =~= before + of_rank(all.take(i + 1), k as int));
            i = i + 1;
        }
        assert(all.take(n as int) == all);
        assert(out.deep_view() + ranked_from(all, k - 1) =~= before + ranked_from(all, k as int));
        k = k - 1;
    }
    assert(out.deep_view() + ranked_from(all, -1) =~= out.deep_view());
    out
}

/// Reads the visible networks: each name once, sorted.
pub fn parse_wifi_scan(output: &str) -> (r: Vec<WifiNetwork>)
    requires
        scan_fits(output@),
    ensures
        r.deep_view() == scan_of(output@),
{
    let lines: Vec<&str> = text::lines(output);
    let ghost all = text::lines_of(output@);
    let n: usize = lines.len();
    let mut networks: Vec<WifiNetwork> = Vec::new();
    let mut i: usize = 0;
    assert(all.take(0) == Seq::<Seq<char>>::empty());
    assert(networks.deep_view() =~= first_of_each(networks_in(all.take(0))));
    while i < n
        invariant
            i <= n == lines@.len(),
            text::texts(lines@) == all,
            all == text::lines_of(output@),
            scan_fits(output@),
            networks.deep_view() == first_of_each(networks_in(all.take(i as int))),
        decreases n - i,
    {
        let ghost found = networks_in(all.take(i as int));
        assert(all[i as int] == lines@[i as int]@);
        assert(all.take(i + 1).drop_last() == all.take(i as int));
        match parse_wifi_line(lines[i]) {
            Some(network) => {
                let ghost view = network.deep_view();
                assert(found.push(view).drop_last() == found);
                let ghost before = networks.deep_view();
                if !has_ssid(&networks, &network.ssid) {
                    networks.push(network);
                    assert(networks.deep_view() =~= before.push(view));
                }
            },
            None => {},
        }
        i = i + 1;
    }
    assert(all.take(n as int) == all);
    sort_networks(&networks)
}

// ── Bluetooth ────────────────────────────────────────────────────────────────

/// The device on a line `Device ADDRESS NAME`.
pub open spec fn device_of(s: Seq<char>) -> Option<BtDeviceView> {
    match text::split_first_of(s, ' ') {
        None => None,
        Some((keyword, rest)) => match text::split_first_of(rest, ' ') {
            None => None,
            Some((address, name)) => if keyword == "Device"@ {
                Some(BtDeviceView { name, address, connected: false })
            } else {
                None
            },
        },
    }
}

/// Reads a line of `bluetoothctl devices`. Whether the device is connected is
/// not on the line.
pub fn parse_bt_device_line(line: &str) -> (r: Option<BtDevice>)
    ensures
        r.deep_view() == device_of(line@),
{
    match text::split_first(line, ' ') {
        None => None,
        Some((keyword, rest)) => match text::split_first(rest, ' ') {
            None => None,
            Some((address, name)) => if text::same(keyword, "Device") {
                Some(
                    BtDevice {
                        name: name.to_string(),
                        address: address.to_string(),
                        connected: false,
                    },
                )
            } else {
                None
            },
        },
    }
}

/// The devices on some lines, in order.
pub open spec fn devices_in(lines: Seq<Seq<char>>) -> Seq<BtDeviceView>
    decreases lines.len(),
{
    if lines.len() == 0 {
        Seq::empty()
    } else {
        match device_of(lines.last()) {
            Some(d) => devices_in(lines.drop_last()).push(d),
            None => devices_in(lines.drop_last()),
        }
    }
}

pub open spec fn lists_address(devices: Seq<BtDeviceView>, address: Seq<char>) -> bool {
    exists|i: int| 0 <= i < devices.len() && (#[trigger] devices[i]).address == address
}

/// The paired devices, those among the connected ones marked.
pub open spec fn marked(paired: Seq<BtDeviceView>, connected: Seq<BtDeviceView>) -> Seq<
    BtDeviceView,
> {
    paired.map_values(
        |d: BtDeviceView|
            BtDeviceView { connected: lists_address(connected, d.address), ..d },
    )
}

fn read_devices(output: &str) -> (r: Vec<BtDevice>)
    ensures
        r.deep_view() == devices_in(text::lines_of(output@)),
{
    let lines: Vec<&str> = text::lines(output);
    let ghost all = text::lines_of(output@);
    let n: usize = lines.len();
    let mut devices: Vec<BtDevice> = Vec::new();
    let mut i: usize = 0;
    assert(all.take(0) == Seq::<Seq<char>>::empty());
    assert(devices.deep_view() =~= devices_in(all.take(0)));
    while i < n
        invariant
            i <= n == lines@.len(),
            text::texts(lines@) == all,
            all == text::lines_of(output@),
            devices.deep_view() == devices_in(all.take(i as int)),
        decreases n - i,
    {
        assert(all[i as int] == lines@[i as int]@);
        assert(all.take(i + 1).drop_last() == all.take(i as int));
        let ghost before = devices.deep_view();
        match parse_bt_device_line(lines[i]) {
            Some(device) => {
                let ghost view = device.deep_view();
                devices.push(device);
                assert(devices.deep_view() =~= before.push(view));
            },
            None => {},
        }
        i = i + 1;
    }
    assert(all.take(n as int) == all);
    devices
}

fn has_address(devices: &Vec<BtDevice>, address: &String) -> (r: bool)
    ensures
        r == lists_address(devices.deep_view(), address@),
{
    let n: usize = devices.len();
    let mut i: usize = 0;
    let ghost all = devices.deep_view();
    while i < n
        invariant
            i <= n == devices@.len(),
            all == devices.deep_view(),
            forall|j: int| 0 <= j < i ==> (#[trigger] all[j]).address != address@,
        decreases n - i,
    {
        assert(all[i as int].address == devices@[i as int].address@);
        if devices[i].address == *address {
            return true;
        }
        i = i + 1;
    }
    false
}

/// All paired devices with their connection state, from the output of
/// `bluetoothctl devices Paired` and of `bluetoothctl devices Connected`, where
/// the latter could be run.
pub fn bt_devices_from(paired: &str, connected: Option<&str>) -> (r: Vec<BtDevice>)
    ensures
        r.deep_view() == marked(
            devices_in(text::lines_of(paired@)),
            match connected {
                Some(c) => devices_in(text::lines_of(c@)),
                None => Seq::empty(),
            },
        ),
{
    let online: Vec<BtDevice> = match connected {
        Some(c) => read_devices(c),
        None => Vec::new(),
    };
    let ghost on = online.deep_view();
    assert(connected is None ==> on =~= Seq::empty());
    let known: Vec<BtDevice> = read_devices(paired);
    let ghost want = marked(known.deep_view(), on);
    let n: usize = known.len();
    let mut out: Vec<BtDevice> = Vec::new();
    let mut i: usize = 0;
    while i < n
        invariant
            i <= n == known@.len(),
            on == online.deep_view(),
            want == marked(known.deep_view(), on),
            out@.len() == i,
            forall|j: int| 0 <= j < i ==> (#[trigger] out@[j]).deep_view() == want[j],
        decreases n - i,
    {
        let device: &BtDevice = &known[i];
        out.push(
            BtDevice {
                name: device.name.clone(),
                address: device.address.clone(),
                connected: has_address(&online, &device.address),
            },
        );
        i = i + 1;
    }
    assert(out.deep_view() =~= want);
    out
}

/// A line that says that the adapter is powered.
pub open spec fn says_powered(line: Seq<char>) -> bool {
    text::begins_with(text::trimmed(line), "Powered:"@) && text::holds(line, "yes"@)
}

/// Whether some line of `bluetoothctl show` says that the adapter is powered.
pub open spec fn powered_in(output: Seq<char>) -> bool {
    exists|i: int|
        0 <= i < text::lines_of(output).len() && says_powered(#[trigger] text::lines_of(output)[i])
}

/// Reads `bluetoothctl show`.
pub fn bt_powered(output: &str) -> (r: bool)
    ensures
        r == powered_in(output@),
{
    let lines: Vec<&str> = text::lines(output);
    let ghost all = text::lines_of(output@);
    let n: usize = lines.len();
    let mut i: usize = 0;
    while i < n
        invariant
            i <= n == lines@.len(),
            text::texts(lines@) == all,
            all == text::lines_of(output@),
            forall|j: int| 0 <= j < i ==> !says_powered(#[trigger] all[j]),
        decreases n - i,
    {
        assert(all[i as int] == lines@[i as int]@);
        let line: &str = lines[i];
        if text::starts_with(text::trim(line), "Powered:") && text::contains(line, "yes") {
            return true;
        }
        i = i + 1;
    }
    false
}

/// The name of the first of some devices.
pub open spec fn first_name(devices: Seq<BtDeviceView>) -> Option<Seq<char>> {
    if devices.len() > 0 {
        Some(devices[0].name)
    } else {
        None
    }
}

/// The name of the first device in `bluetoothctl devices Connected`.
pub fn bt_connected_name(output: &str) -> (r: Option<String>)
    ensures
        r.deep_view() == first_name(devices_in(text::lines_of(output@))),
{
    let devices: Vec<BtDevice> = read_devices(output);
    if devices.len() > 0 {
        Some(devices[0].name.clone())
    } else {
        None
    }
}

/// The Bluetooth status: a device counts as connected only while the adapter is
/// powered.
pub open spec fn bt_status_of(powered: bool, connected: Option<Seq<char>>) -> BtStatusView {
    BtStatusView {
        enabled: powered,
        connected_device: if powered {
            connected
        } else {
            None
        },
    }
}

/// The Bluetooth status: a device counts as connected only while the adapter is
/// powered.
pub fn bt_status_from(powered: bool, connected: Option<String>) -> (r: BtStatus)
    ensures
        r.enabled == powered,
        r.connected_device.deep_view() == (if powered {
            connected.deep_view()
        } else {
            None
        }),
        r.deep_view() == bt_status_of(powered, connected.deep_view()),
{
    BtStatus {
        enabled: powered,
        connected_device: if powered {
            connected
        } else {
            None
        },
    }
}

// ── Output as bytes ──────────────────────────────────────────────────────────

/// Bytes read as text, with a replacement character for what is not UTF-8.
pub uninterp spec fn lossy_text(bytes: Seq<u8>) -> Seq<char>;

/// Calls `String::from_utf8_lossy`. The claim: the text depends on the bytes
/// alone, and where they are UTF-8 it is what they encode.
#[verifier::external_body]
fn text_from_utf8_lossy(bytes: &[u8]) -> (r: String)
    ensures
        r@ == lossy_text(bytes@),
        vstd::utf8::valid_utf8(bytes@) ==> r@ == vstd::utf8::decode_utf8(bytes@),
{
    String::from_utf8_lossy(bytes).into_owned()
}

/// The WiFi adapter in the output of `nmcli -t -f DEVICE,STATE,CONNECTION device`.
pub fn wifi_probe_in_output(stdout: &[u8]) -> (r: WifiProbe)
    ensures
        r.deep_view() == probe_of(text::lines_of(lossy_text(stdout@))),
        vstd::utf8::valid_utf8(stdout@) ==> r.deep_view() == probe_of(
            text::lines_of(vstd::utf8::decode_utf8(stdout@)),
        ),
{
    probe_wifi(text_from_utf8_lossy(stdout).as_str())
}

/// The networks in the output of a scan, unless a strength in it is too large to
/// be reckoned with.
pub fn wifi_networks_in_output(stdout: &[u8]) -> (r: Option<Vec<WifiNetwork>>)
    ensures
        r.deep_view() == (if scan_fits(lossy_text(stdout@)) {
            Some(scan_of(lossy_text(stdout@)))
        } else {
            None
        }),
        vstd::utf8::valid_utf8(stdout@) ==> r.deep_view() == (if scan_fits(
            vstd::utf8::decode_utf8(stdout@),
        ) {
            Some(scan_of(vstd::utf8::decode_utf8(stdout@)))
        } else {
            None
        }),
{
    let output: String = text_from_utf8_lossy(stdout);
    if wifi_scan_fits(output.as_str()) {
        Some(parse_wifi_scan(output.as_str()))
    } else {
        None
    }
}

/// Whether the adapter is powered, from the output of `bluetoothctl show`.
pub fn bt_powered_in_output(stdout: &[u8]) -> (r: bool)
    ensures
        r == powered_in(lossy_text(stdout@)),
        vstd::utf8::valid_utf8(stdout@) ==> r == powered_in(vstd::utf8::decode_utf8(stdout@)),
{
    bt_powered(text_from_utf8_lossy(stdout).as_str())
}

/// The name of the first device in the output of `bluetoothctl devices Connected`.
pub fn bt_connected_name_in_output(stdout: &[u8]) -> (r: Option<String>)
    ensures
        r.deep_view() == first_name(devices_in(text::lines_of(lossy_text(stdout@)))),
        vstd::utf8::valid_utf8(stdout@) ==> r.deep_view() == first_name(
            devices_in(text::lines_of(vstd::utf8::decode_utf8(stdout@))),
        ),
{
    bt_connected_name(text_from_utf8_lossy(stdout).as_str())
}

/// All paired devices with their connection state, from the output of
/// `bluetoothctl devices Paired` and of `bluetoothctl devices Connected`, where
/// the latter could be run.
pub fn bt_devices_in_output(paired: &[u8], connected: Option<&[u8]>) -> (r: Vec<BtDevice>)
    ensures
        r.deep_view() == marked(
            devices_in(text::lines_of(lossy_text(paired@))),
            match connected {
                Some(c) => devices_in(text::lines_of(lossy_text(c@))),
                None => Seq::empty(),
            },
        ),
        vstd::utf8::valid_utf8(paired@) && (connected matches Some(c) ==> vstd::utf8::valid_utf8(
            c@,
        )) ==> r.deep_view() == marked(
            devices_in(text::lines_of(vstd::utf8::decode_utf8(paired@))),
            match connected {
                Some(c) => devices_in(text::lines_of(vstd::utf8::decode_utf8(c@))),
                None => Seq::empty(),
            },
        ),
{
    let paired_text: String = text_from_utf8_lossy(paired);
    match connected {
        Some(c) => {
            let connected_text: String = text_from_utf8_lossy(c);
            bt_devices_from(paired_text.as_str(), Some(connected_text.as_str()))
        },
        None => bt_devices_from(paired_text.as_str(), None),
    }
}

// ── Actions ──────────────────────────────────────────────────────────────────

/// The arguments with which `nmcli` switches WiFi on or off.
pub fn wifi_toggle_args(enable: bool) -> (r: Vec<&'static str>)
    ensures
        text::texts(r@) == seq![
            "radio"@,
            "wifi"@,
            if enable {
                "on"@
            } else {
                "off"@
            },
        ],
{
    let mut args: Vec<&'static str> = Vec::new();
    args.push("radio");
    args.push("wifi");
    if enable {
        args.push("on");
    } else {
        args.push("off");
    }
    assert(text::texts(args@) =~= seq![
        "radio"@,
        "wifi"@,
        if enable {
            "on"@
        } else {
            "off"@
        },
    ]);
    args
}

/// The arguments with which `nmcli` brings up a saved connection.
pub fn wifi_up_args<'a>(ssid: &'a str) -> (r: Vec<&'a str>)
    ensures
        text::texts(r@) == seq!["connection"@, "up"@, ssid@],
{
    let mut args: Vec<&'a str> = Vec::new();
    args.push("connection");
    args.push("up");
    args.push(ssid);
    assert(text::texts(args@) =~= seq!["connection"@, "up"@, ssid@]);
    args
}

/// What is tried when the saved connection was tried: nothing where it came up,
/// else to connect by name (works for open networks, fails for new secured
/// networks without credentials).
pub fn wifi_fallback_args<'a>(came_up: bool, ssid: &'a str) -> (r: Option<Vec<&'a str>>)
    ensures
        r is Some <==> !came_up,
        r matches Some(args) ==> text::texts(args@) == seq![
            "device"@,
            "wifi"@,
            "connect"@,
            ssid@,
        ],
{
    if came_up {
        return None;
    }
    let mut args: Vec<&'a str> = Vec::new();
    args.push("device");
    args.push("wifi");
    args.push("connect");
    args.push(ssid);
    assert(text::texts(args@) =~= seq!["device"@, "wifi"@, "connect"@, ssid@]);
    Some(args)
}

/// Whether connecting worked: a saved connection came up, or the fallback, where it
/// was tried, did its work. A tool that is missing did not.
pub fn wifi_connect_succeeded(came_up: bool, fallback: Option<bool>) -> (r: bool)
    ensures
        r == (came_up || fallback == Some(true)),
{
    came_up || match fallback {
        Some(worked) => worked,
        None => false,
    }
}

/// The arguments with which `nmcli` takes the adapter off its network.
pub fn wifi_disconnect_args() -> (r: Vec<&'static str>)
    ensures
        text::texts(r@) == seq!["device"@, "disconnect"@, "wlan0"@],
{
    let mut args: Vec<&'static str> = Vec::new();
    args.push("device");
    args.push("disconnect");
    args.push("wlan0");
    assert(text::texts(args@) =~= seq!["device"@, "disconnect"@, "wlan0"@]);
    args
}

/// A shell line that hands a command to `bluetoothctl`.
pub open spec fn bt_script_of(command: Seq<char>) -> Seq<char> {
    "echo '"@ + command + "' | bluetoothctl"@
}

fn bt_script(command: &str) -> (r: String)
    ensures
        r@ == bt_script_of(command@),
{
    "echo '".to_string().concat(command).concat("' | bluetoothctl")
}

/// The shell line that switches Bluetooth on or off.
pub fn bt_toggle_script(enable: bool) -> (r: String)
    ensures
        r@ == bt_script_of(
            if enable {
                "power on"@
            } else {
                "power off"@
            },
        ),
{
    if enable {
        bt_script("power on")
    } else {
        bt_script("power off")
    }
}

/// The shell line that connects a device.
pub fn bt_connect_script(address: &str) -> (r: String)
    ensures
        r@ == bt_script_of("connect "@ + address@),
{
    bt_script("connect ".to_string().concat(address).as_str())
}

/// The shell line that disconnects a device.
pub fn bt_disconnect_script(address: &str) -> (r: String)
    ensures
        r@ == bt_script_of("disconnect "@ + address@),
{
    bt_script("disconnect ".to_string().concat(address).as_str())
}

// ── Laws ─────────────────────────────────────────────────────────────────────

/// Signal bars never exceed three.
pub proof fn law_three_bars(signal: nat)
    ensures
        strength_bars_of(signal) <= 3,
        quality_bars_of(signal) <= 3,
{
}

proof fn lemma_networks_have_three_bars(lines: Seq<Seq<char>>)
    ensures
        forall|i: int|
            0 <= i < networks_in(lines).len() ==> (#[trigger] networks_in(lines)[i]).signal_bars
                <= 3,
    decreases lines.len(),
{
    if lines.len() > 0 {
        let before = networks_in(lines.drop_last());
        let all = networks_in(lines);
        lemma_networks_have_three_bars(lines.drop_last());
        assert forall|i: int| 0 <= i < all.len() implies (#[trigger] all[i]).signal_bars <= 3 by {
            if i < before.len() {
                assert(all[i] == before[i]);
            }
        }
    }
}

proof fn lemma_first_of_each(networks: Seq<WifiNetworkView>)
    ensures
        forall|i: int, j: int|
            0 <= i < j < first_of_each(networks).len() ==> (#[trigger] first_of_each(
                networks,
            )[i]).ssid != (#[trigger] first_of_each(networks)[j]).ssid,
        forall|i: int|
            0 <= i < first_of_each(networks).len() ==> networks.contains(
                #[trigger] first_of_each(networks)[i],
            ),
        forall|i: int|
            0 <= i < networks.len() ==> lists_ssid(
                first_of_each(networks),
                (#[trigger] networks[i]).ssid,
            ),
    decreases networks.len(),
{
    if networks.len() > 0 {
        let rest = networks.drop_last();
        let before = first_of_each(rest);
        let last = networks.last();
        lemma_first_of_each(rest);
        let all = first_of_each(networks);
        assert forall|i: int, j: int| 0 <= i < j < all.len() implies (#[trigger] all[i]).ssid != (
        #[trigger] all[j]).ssid by {
            if j < before.len() {
                assert(before[i].ssid != before[j].ssid);
            } else {
                assert(before[i] == all[i]);
            }
        }
        assert forall|i: int| 0 <= i < all.len() implies networks.contains(#[trigger] all[i]) by {
            if i < before.len() {
                assert(rest.contains(before[i]));
                let k = choose|k: int| 0 <= k < rest.len() && rest[k] == before[i];
                assert(networks[k] == all[i]);
            } else {
                assert(networks[networks.len() - 1] == all[i]);
            }
        }
        assert forall|i: int| 0 <= i < networks.len() implies lists_ssid(
            all,
            (#[trigger] networks[i]).ssid,
        ) by {
            if i < rest.len() {
                assert(lists_ssid(before, rest[i].ssid));
                let k = choose|k: int| 0 <= k < before.len() && (#[trigger] before[k]).ssid
                    == rest[i].ssid;
                assert(all[k] == before[k]);
            } else if !lists_ssid(before, last.ssid) {
                assert(all[before.len() as int].ssid == last.ssid);
            }
        }
    }
}

proof fn lemma_of_rank(networks: Seq<WifiNetworkView>, rank: int)
    ensures
        forall|i: int|
            0 <= i < of_rank(networks, rank).len() ==> rank_of(
                #[trigger] of_rank(networks, rank)[i],
            ) == rank,
        forall|n: WifiNetworkView|
            #[trigger] of_rank(networks, rank).to_multiset().count(n) == (if rank_of(n) == rank {
                networks.to_multiset().count(n)
            } else {
                0
            }),
    decreases networks.len(),
{
    broadcast use vstd::seq_lib::to_multiset_build;

    let empty = Seq::<WifiNetworkView>::empty();
    empty.to_multiset_ensures();
    if networks.len() > 0 {
        let rest = networks.drop_last();
        lemma_of_rank(rest, rank);
        assert(networks == rest.push(networks.last()));
        assert forall|i: int| 0 <= i < of_rank(networks, rank).len() implies rank_of(
            #[trigger] of_rank(networks, rank)[i],
        ) == rank by {
            if i < of_rank(rest, rank).len() {
                assert(of_rank(networks, rank)[i] == of_rank(rest, rank)[i]);
            }
        }
        assert forall|n: WifiNetworkView|
            #[trigger] of_rank(networks, rank).to_multiset().count(n) == (if rank_of(n) == rank {
                networks.to_multiset().count(n)
            } else {
                0
            }) by {
            assert(of_rank(rest, rank).to_multiset().count(n) == (if rank_of(n) == rank {
                rest.to_multiset().count(n)
            } else {
                0
            }));
            vstd::seq_lib::to_multiset_build(rest, networks.last());
            vstd::seq_lib::to_multiset_build(of_rank(rest, rank), networks.last());
        }
    } else {
        assert(networks =~= empty);
    }
}

proof fn lemma_ranked_from(networks: Seq<WifiNetworkView>, rank: int)
    requires
        rank >= -1,
        forall|i: int| 0 <= i < networks.len() ==> 0 <= rank_of(#[trigger] networks[i]),
    ensures
        forall|i: int|
            0 <= i < ranked_from(networks, rank).len() ==> rank_of(
                #[trigger] ranked_from(networks, rank)[i],
            ) <= rank,
        forall|i: int, j: int|
            0 <= i < j < ranked_from(networks, rank).len() ==> rank_of(
                #[trigger] ranked_from(networks, rank)[i],
            ) >= rank_of(#[trigger] ranked_from(networks, rank)[j]),
        forall|n: WifiNetworkView|
            #[trigger] ranked_from(networks, rank).to_multiset().count(n) == (if 0 <= rank_of(n)
                <= rank {
                networks.to_multiset().count(n)
            } else {
                0
            }),
    decreases rank + 1,
{
    broadcast use vstd::seq_lib::lemma_multiset_commutative;

    if rank < 0 {
        Seq::<WifiNetworkView>::empty().to_multiset_ensures();
    } else {
        lemma_of_rank(networks, rank);
        lemma_ranked_from(networks, rank - 1);
        let front = of_rank(networks, rank);
        let back = ranked_from(networks, rank - 1);
        let all = ranked_from(networks, rank);
        assert(all == front + back);
        vstd::seq_lib::lemma_multiset_commutative(front, back);
        assert forall|i: int| 0 <= i < all.len() implies rank_of(#[trigger] all[i]) <= rank by {
            if i < front.len() {
                assert(all[i] == front[i]);
            } else {
                assert(all[i] == back[i - front.len()]);
            }
        }
        assert forall|i: int, j: int| 0 <= i < j < all.len() implies rank_of(#[trigger] all[i])
            >= rank_of(#[trigger] all[j]) by {
            if i < front.len() {
                assert(all[i] == front[i]);
                assert(rank_of(all[i]) == rank);
                if j < front.len() {
                    assert(all[j] == front[j]);
                } else {
                    assert(all[j] == back[j - front.len()]);
                }
            } else {
                assert(all[i] == back[i - front.len()]);
                assert(all[j] == back[j - front.len()]);
            }
        }
        assert forall|n: WifiNetworkView|
            #[trigger] all.to_multiset().count(n) == (if 0 <= rank_of(n) <= rank {
                networks.to_multiset().count(n)
            } else {
                0
            }) by {
            assert(front.to_multiset().count(n) == (if rank_of(n) == rank {
                networks.to_multiset().count(n)
            } else {
                0
            }));
            assert(back.to_multiset().count(n) == (if 0 <= rank_of(n) <= rank - 1 {
                networks.to_multiset().count(n)
            } else {
                0
            }));
        }
    }
}

/// A scan lists the connected network before the others and otherwise a
/// stronger one before a weaker one.
pub proof fn law_scan_is_sorted(output: Seq<char>, i: int, j: int)
    requires
        0 <= i < j < scan_of(output).len(),
    ensures
        scan_of(output)[j].connected ==> scan_of(output)[i].connected,
        scan_of(output)[i].connected == scan_of(output)[j].connected ==> scan_of(
            output,
        )[i].signal_bars >= scan_of(output)[j].signal_bars,
        scan_of(output)[i].signal_bars <= 3,
{
    law_scan_keeps_networks(output);
    let kept = first_of_each(networks_in(text::lines_of(output)));
    lemma_ranked_from(kept, 7);
    let all = scan_of(output);
    assert(rank_of(all[i]) >= rank_of(all[j]));
    lemma_scan_has_three_bars(output, i);
    lemma_scan_has_three_bars(output, j);
}

proof fn lemma_scan_has_three_bars(output: Seq<char>, i: int)
    requires
        0 <= i < scan_of(output).len(),
    ensures
        scan_of(output)[i].signal_bars <= 3,
{
    law_scan_keeps_networks(output);
    let found = networks_in(text::lines_of(output));
    let kept = first_of_each(found);
    let all = scan_of(output);
    all.to_multiset_ensures();
    kept.to_multiset_ensures();
    assert(all.contains(all[i]));
    assert(all.to_multiset().count(all[i]) > 0);
    assert(kept.contains(all[i]));
    let k = choose|k: int| 0 <= k < kept.len() && kept[k] == all[i];
    lemma_first_of_each(found);
    assert(found.contains(kept[k]));
    let m = choose|m: int| 0 <= m < found.len() && found[m] == kept[k];
    lemma_networks_have_three_bars(text::lines_of(output));
    assert(found[m].signal_bars <= 3);
}

/// Sorting loses no network and adds none.
pub proof fn law_scan_keeps_networks(output: Seq<char>)
    ensures
        scan_of(output).to_multiset() == first_of_each(
            networks_in(text::lines_of(output)),
        ).to_multiset(),
{
    let found = networks_in(text::lines_of(output));
    let kept = first_of_each(found);
    lemma_networks_have_three_bars(text::lines_of(output));
    lemma_first_of_each(found);
    assert forall|i: int| 0 <= i < kept.len() implies 0 <= rank_of(#[trigger] kept[i]) <= 7 by {
        assert(found.contains(kept[i]));
        let m = choose|m: int| 0 <= m < found.len() && found[m] == kept[i];
        assert(found[m].signal_bars <= 3);
    }
    lemma_ranked_from(kept, 7);
    kept.to_multiset_ensures();
    assert forall|n: WifiNetworkView|
        #[trigger] scan_of(output).to_multiset().count(n) == kept.to_multiset().count(n) by {
        if kept.to_multiset().count(n) > 0 {
            assert(kept.contains(n));
        }
    }
    assert(scan_of(output).to_multiset() =~= kept.to_multiset());
}

/// A scan names each network once, and names every network that a line names.
pub proof fn law_scan_names_each_once(output: Seq<char>)
    ensures
        forall|i: int, j: int|
            0 <= i < j < scan_of(output).len() ==> (#[trigger] scan_of(output)[i]).ssid != (
            #[trigger] scan_of(output)[j]).ssid,
        forall|i: int|
            0 <= i < networks_in(text::lines_of(output)).len() ==> lists_ssid(
                scan_of(output),
                (#[trigger] networks_in(text::lines_of(output))[i]).ssid,
            ),
{
    let found = networks_in(text::lines_of(output));
    let kept = first_of_each(found);
    let all = scan_of(output);
    lemma_first_of_each(found);
    law_scan_keeps_networks(output);
    kept.to_multiset_ensures();
    all.to_multiset_ensures();
    assert(kept.no_duplicates());
    kept.lemma_multiset_has_no_duplicates();
    all.lemma_multiset_has_no_duplicates_conv();
    assert forall|i: int, j: int| 0 <= i < j < all.len() implies (#[trigger] all[i]).ssid != (
    #[trigger] all[j]).ssid by {
        assert(all.contains(all[i]) && all.contains(all[j]));
        assert(all.to_multiset().count(all[i]) > 0 && all.to_multiset().count(all[j]) > 0);
        assert(kept.contains(all[i]) && kept.contains(all[j]));
        let a = choose|a: int| 0 <= a < kept.len() && kept[a] == all[i];
        let b = choose|b: int| 0 <= b < kept.len() && kept[b] == all[j];
        assert(all[i] != all[j]);
        assert(a != b);
        if a < b {
            assert(kept[a].ssid != kept[b].ssid);
        } else {
            assert(kept[b].ssid != kept[a].ssid);
        }
    }
    assert forall|i: int| 0 <= i < found.len() implies lists_ssid(
        all,
        (#[trigger] found[i]).ssid,
    ) by {
        assert(lists_ssid(kept, found[i].ssid));
        let k = choose|k: int| 0 <= k < kept.len() && (#[trigger] kept[k]).ssid == found[i].ssid;
        assert(kept.contains(kept[k]));
        assert(kept.to_multiset().count(kept[k]) > 0);
        assert(all.contains(kept[k]));
        let m = choose|m: int| 0 <= m < all.len() && all[m] == kept[k];
        assert(all[m].ssid == found[i].ssid);
    }
}

/// A line of a scan: a name, a signal, a security and whether the network is in use,
/// with colons between them.
pub open spec fn scan_line(
    name: Seq<char>,
    signal: Seq<char>,
    security: Seq<char>,
    active: Seq<char>,
) -> Seq<char> {
    name + seq![':'] + signal + seq![':'] + security + seq![':'] + active
}

proof fn lemma_scan_line(
    name: Seq<char>,
    signal: Seq<char>,
    security: Seq<char>,
    active: Seq<char>,
)
    requires
        !signal.contains(':'),
        !security.contains(':'),
        !active.contains(':'),
    ensures
        scan_fields(scan_line(name, signal, security, active)) == Some(
            (name, signal, security, active),
        ),
{
    text::law_split_last(name + seq![':'] + signal + seq![':'] + security, ':', active);
    text::law_split_last(name + seq![':'] + signal, ':', security);
    text::law_split_last(name, ':', signal);
}

proof fn lemma_digits_hold_no_colon(digits: Seq<char>)
    requires
        text::all_digits(digits),
    ensures
        !digits.contains(':'),
{
    if digits.contains(':') {
        let i = choose|i: int| 0 <= i < digits.len() && digits[i] == ':';
        assert(text::is_digit(digits[i]));
    }
}

/// A line of a scan, whatever its name holds, colons too, is read as the network of
/// that name: secured exactly where the security is neither empty nor two dashes,
/// connected exactly where it is said to be in use, and with the more bars the
/// stronger the signal is.
pub proof fn law_scan_lines_are_read(
    name: Seq<char>,
    signal: Seq<char>,
    security: Seq<char>,
    active: Seq<char>,
)
    requires
        !text::blank(name),
        signal.len() > 0,
        text::all_digits(signal),
        3 * text::number_of(signal) + 49 <= u32::MAX,
        !security.contains(':'),
        !active.contains(':'),
    ensures
        ({
            let line = scan_line(name, signal, security, active);
            let strength = text::number_of(signal);
            &&& network_fits(line)
            &&& network_of(line) is Some
            &&& network_of(line)->0.ssid == text::trimmed(name)
            &&& network_of(line)->0.secured <==> security.len() > 0 && security != seq!['-', '-']
            &&& network_of(line)->0.connected <==> active == seq!['y', 'e', 's']
            &&& network_of(line)->0.signal_bars == (if strength < 17 {
                0u8
            } else if strength < 51 {
                1
            } else if strength < 84 {
                2
            } else {
                3
            })
        }),
{
    text::law_reading_numbers(signal, u32::MAX as nat, signal, 0);
    lemma_digits_hold_no_colon(signal);
    lemma_scan_line(name, signal, security, active);
    lemma_not_blank(name);
    reveal_strlit("--");
    reveal_strlit("yes");
    assert("--"@ =~= seq!['-', '-']);
    assert("yes"@ =~= seq!['y', 'e', 's']);
}

proof fn lemma_not_blank(s: Seq<char>)
    requires
        !text::blank(s),
    ensures
        text::trimmed(s).len() > 0,
{
    lemma_inside_trimmed_start(s);
    lemma_inside_trimmed_end(text::trim_start_of(s));
}

proof fn lemma_inside_trimmed_start(s: Seq<char>)
    ensures
        text::blank(s) || !text::blank(text::trim_start_of(s)),
    decreases s.len(),
{
    if s.len() > 0 && text::is_space(s[0]) {
        let rest = s.drop_first();
        lemma_inside_trimmed_start(rest);
        if text::blank(rest) {
            assert forall|i: int| 0 <= i < s.len() implies text::is_space(#[trigger] s[i]) by {
                if i > 0 {
                    assert(text::is_space(rest[i - 1]));
                }
            }
        }
    }
}

proof fn lemma_inside_trimmed_end(s: Seq<char>)
    ensures
        text::blank(s) || text::trim_end_of(s).len() > 0,
    decreases s.len(),
{
    if s.len() > 0 && text::is_space(s.last()) {
        let rest = s.drop_last();
        lemma_inside_trimmed_end(rest);
        if text::blank(rest) {
            assert forall|i: int| 0 <= i < s.len() implies text::is_space(#[trigger] s[i]) by {
                if i < rest.len() {
                    assert(text::is_space(rest[i]));
                }
            }
        }
    }
}

proof fn lemma_blank_is_trimmed_away(s: Seq<char>)
    requires
        text::blank(s),
    ensures
        text::trimmed(s).len() == 0,
{
    let none = Seq::<char>::empty();
    text::law_trimming(s, none, none);
    assert(s + none + none =~= s);
}

/// Networks without a name are hidden, and left out; so is a line whose signal is no
/// number, and one with fewer than three colons.
pub proof fn law_lines_left_out(
    name: Seq<char>,
    signal: Seq<char>,
    security: Seq<char>,
    active: Seq<char>,
)
    requires
        !signal.contains(':'),
        !security.contains(':'),
        !active.contains(':'),
    ensures
        text::blank(name) || text::parsed(signal, u32::MAX as nat) is None ==> {
            &&& network_of(scan_line(name, signal, security, active)) is None
            &&& network_fits(scan_line(name, signal, security, active))
        },
        network_of(active) is None,
        network_of(security + seq![':'] + active) is None,
        network_of(signal + seq![':'] + security + seq![':'] + active) is None,
{
    lemma_scan_line(name, signal, security, active);
    if text::blank(name) {
        lemma_blank_is_trimmed_away(name);
    }
    text::law_split_last(security, ':', active);
    text::law_split_last(signal, ':', security);
    text::law_split_last(signal + seq![':'] + security, ':', active);
    text::law_split_last(name, ':', signal);
}

/// A signal that 32 bits cannot hold three times is not reckoned with, unless its line
/// is left out anyhow.
pub proof fn law_signals_that_do_not_fit(
    name: Seq<char>,
    signal: Seq<char>,
    security: Seq<char>,
    active: Seq<char>,
)
    requires
        signal.len() > 0,
        text::all_digits(signal),
        !security.contains(':'),
        !active.contains(':'),
    ensures
        network_fits(scan_line(name, signal, security, active)) <==> text::blank(name)
            || text::number_of(signal) > u32::MAX || 3 * text::number_of(signal) + 49 <= u32::MAX,
{
    text::law_reading_numbers(signal, u32::MAX as nat, signal, 0);
    lemma_digits_hold_no_colon(signal);
    lemma_scan_line(name, signal, security, active);
    if text::blank(name) {
        lemma_blank_is_trimmed_away(name);
    } else {
        lemma_not_blank(name);
    }
}

/// The line is the first one that names this network, and says this of it.
pub open spec fn first_line_of(lines: Seq<Seq<char>>, i: int, n: WifiNetworkView) -> bool {
    &&& 0 <= i < lines.len()
    &&& network_of(lines[i]) == Some(n)
    &&& forall|j: int|
        0 <= j < i ==> (network_of(#[trigger] lines[j]) matches Some(m) ==> m.ssid != n.ssid)
}

/// Some line is the first one that names this network.
pub open spec fn has_first_line(lines: Seq<Seq<char>>, n: WifiNetworkView) -> bool {
    exists|i: int| first_line_of(lines, i, n)
}

proof fn lemma_first_line_stays(lines: Seq<Seq<char>>, i: int, n: WifiNetworkView)
    requires
        lines.len() > 0,
        i < lines.len() - 1,
    ensures
        first_line_of(lines, i, n) <==> first_line_of(lines.drop_last(), i, n),
{
    let rest = lines.drop_last();
    assert forall|j: int| 0 <= j < rest.len() implies rest[j] == #[trigger] lines[j] by {
    }
    if first_line_of(rest, i, n) {
        assert forall|j: int| 0 <= j < i implies (network_of(#[trigger] lines[j]) matches Some(m)
            ==> m.ssid != n.ssid) by {
            assert(rest[j] == lines[j]);
        }
    }
}

proof fn lemma_first_line_is_one(
    lines: Seq<Seq<char>>,
    i: int,
    n: WifiNetworkView,
    j: int,
    m: WifiNetworkView,
)
    requires
        first_line_of(lines, i, n),
        first_line_of(lines, j, m),
        n.ssid == m.ssid,
    ensures
        i == j,
        n == m,
{
    if i < j {
        assert(network_of(lines[i]) == Some(n));
    }
    if j < i {
        assert(network_of(lines[j]) == Some(m));
    }
}

proof fn lemma_kept_have_lines(lines: Seq<Seq<char>>, k: int)
    requires
        0 <= k < first_of_each(networks_in(lines)).len(),
    ensures
        has_first_line(lines, first_of_each(networks_in(lines))[k]),
    decreases lines.len(),
{
    if lines.len() > 0 {
        let rest = lines.drop_last();
        let before = first_of_each(networks_in(rest));
        let last = lines.len() - 1;
        if network_of(lines.last()) is Some {
            assert(networks_in(lines).drop_last() =~= networks_in(rest));
        }
        if k < before.len() {
            lemma_kept_have_lines(rest, k);
            let i = choose|i: int| first_line_of(rest, i, before[k]);
            lemma_first_line_stays(lines, i, before[k]);
            assert(first_line_of(lines, i, before[k]));
        } else {
            let n = network_of(lines.last())->0;
            assert(!lists_ssid(before, n.ssid));
            lemma_unlisted_has_no_line(rest, n.ssid);
            assert forall|j: int| 0 <= j < last implies (network_of(
                #[trigger] lines[j],
            ) matches Some(m) ==> m.ssid != n.ssid) by {
                assert(rest[j] == lines[j]);
            }
            assert(first_line_of(lines, last, n));
        }
    }
}

proof fn lemma_unlisted_has_no_line(lines: Seq<Seq<char>>, ssid: Seq<char>)
    requires
        !lists_ssid(first_of_each(networks_in(lines)), ssid),
    ensures
        forall|j: int|
            0 <= j < lines.len() ==> (network_of(#[trigger] lines[j]) matches Some(m) ==> m.ssid
                != ssid),
    decreases lines.len(),
{
    let found = networks_in(lines);
    lemma_first_of_each(found);
    assert forall|j: int| 0 <= j < lines.len() implies (network_of(
        #[trigger] lines[j],
    ) matches Some(m) ==> m.ssid != ssid) by {
        if network_of(lines[j]) is Some {
            lemma_line_is_found(lines, j);
            let k = choose|k: int| 0 <= k < found.len() && found[k] == network_of(lines[j])->0;
            assert(lists_ssid(first_of_each(found), found[k].ssid));
        }
    }
}

proof fn lemma_line_is_found(lines: Seq<Seq<char>>, j: int)
    requires
        0 <= j < lines.len(),
        network_of(lines[j]) is Some,
    ensures
        networks_in(lines).contains(network_of(lines[j])->0),
    decreases lines.len(),
{
    let rest = lines.drop_last();
    let n = network_of(lines[j])->0;
    if j < rest.len() {
        assert(rest[j] == lines[j]);
        lemma_line_is_found(rest, j);
        let k = choose|k: int| 0 <= k < networks_in(rest).len() && networks_in(rest)[k] == n;
        assert(networks_in(lines)[k] == n);
    } else {
        assert(networks_in(lines)[networks_in(rest).len() as int] == n);
    }
}

proof fn lemma_first_line_is_kept(lines: Seq<Seq<char>>, i: int, n: WifiNetworkView)
    requires
        first_line_of(lines, i, n),
    ensures
        first_of_each(networks_in(lines)).contains(n),
{
    let found = networks_in(lines);
    let kept = first_of_each(found);
    lemma_line_is_found(lines, i);
    lemma_first_of_each(found);
    let k = choose|k: int| 0 <= k < found.len() && found[k] == n;
    assert(lists_ssid(kept, found[k].ssid));
    let p = choose|p: int| 0 <= p < kept.len() && (#[trigger] kept[p]).ssid == n.ssid;
    lemma_kept_have_lines(lines, p);
    let j = choose|j: int| first_line_of(lines, j, kept[p]);
    lemma_first_line_is_one(lines, i, n, j, kept[p]);
    assert(kept[p] == n);
}

proof fn lemma_kept_in_order(lines: Seq<Seq<char>>, a: int, b: int, i: int, j: int)
    requires
        0 <= a < b < first_of_each(networks_in(lines)).len(),
        first_line_of(lines, i, first_of_each(networks_in(lines))[a]),
        first_line_of(lines, j, first_of_each(networks_in(lines))[b]),
    ensures
        i < j,
    decreases lines.len(),
{
    if lines.len() > 0 {
        let rest = lines.drop_last();
        let before = first_of_each(networks_in(rest));
        let kept = first_of_each(networks_in(lines));
        let last = lines.len() - 1;
        if network_of(lines.last()) is Some {
            assert(networks_in(lines).drop_last() =~= networks_in(rest));
        }
        assert(a < before.len());
        assert(kept[a] == before[a]);
        lemma_kept_have_lines(rest, a);
        let x = choose|x: int| first_line_of(rest, x, before[a]);
        lemma_first_line_stays(lines, x, before[a]);
        lemma_first_line_is_one(lines, i, kept[a], x, kept[a]);
        if b < before.len() {
            assert(kept[b] == before[b]);
            lemma_kept_have_lines(rest, b);
            let y = choose|y: int| first_line_of(rest, y, before[b]);
            lemma_first_line_stays(lines, y, before[b]);
            lemma_first_line_is_one(lines, j, kept[b], y, kept[b]);
            lemma_kept_in_order(rest, a, b, i, j);
        } else {
            let n = network_of(lines.last())->0;
            assert(kept[b] == n);
            assert(!lists_ssid(before, n.ssid));
            if j < last {
                lemma_first_line_stays(lines, j, n);
                lemma_first_line_is_kept(rest, j, n);
                let p = choose|p: int| 0 <= p < before.len() && before[p] == n;
                assert(before[p].ssid == n.ssid);
            }
        }
    }
}

proof fn lemma_of_rank_in_order(networks: Seq<WifiNetworkView>, rank: int, x: int, y: int)
    requires
        0 <= x < y < of_rank(networks, rank).len(),
    ensures
        exists|p: int, q: int|
            0 <= p < q < networks.len() && #[trigger] networks[p] == of_rank(networks, rank)[x]
                && #[trigger] networks[q] == of_rank(networks, rank)[y],
    decreases networks.len(),
{
    if networks.len() > 0 {
        let rest = networks.drop_last();
        let before = of_rank(rest, rank);
        let all = of_rank(networks, rank);
        if y < before.len() {
            lemma_of_rank_in_order(rest, rank, x, y);
            let (p, q) = choose|p: int, q: int|
                0 <= p < q < rest.len() && #[trigger] rest[p] == before[x] && #[trigger] rest[q]
                    == before[y];
            assert(networks[p] == all[x] && networks[q] == all[y]);
        } else {
            lemma_of_rank_is_there(rest, rank, x);
            let p = choose|p: int| 0 <= p < rest.len() && rest[p] == before[x];
            assert(networks[p] == all[x]);
            assert(networks[networks.len() - 1] == all[y]);
        }
    }
}

proof fn lemma_of_rank_is_there(networks: Seq<WifiNetworkView>, rank: int, x: int)
    requires
        0 <= x < of_rank(networks, rank).len(),
    ensures
        networks.contains(of_rank(networks, rank)[x]),
    decreases networks.len(),
{
    if networks.len() > 0 {
        let rest = networks.drop_last();
        let before = of_rank(rest, rank);
        if x < before.len() {
            lemma_of_rank_is_there(rest, rank, x);
            let p = choose|p: int| 0 <= p < rest.len() && rest[p] == before[x];
            assert(networks[p] == before[x]);
        } else {
            assert(networks[networks.len() - 1] == of_rank(networks, rank)[x]);
        }
    }
}

proof fn lemma_ranked_in_order(networks: Seq<WifiNetworkView>, rank: int, x: int, y: int)
    requires
        rank >= -1,
        forall|i: int| 0 <= i < networks.len() ==> 0 <= rank_of(#[trigger] networks[i]),
        0 <= x < y < ranked_from(networks, rank).len(),
        rank_of(ranked_from(networks, rank)[x]) == rank_of(ranked_from(networks, rank)[y]),
    ensures
        exists|p: int, q: int|
            0 <= p < q < networks.len() && #[trigger] networks[p] == ranked_from(networks, rank)[x]
                && #[trigger] networks[q] == ranked_from(networks, rank)[y],
    decreases rank + 1,
{
    if rank >= 0 {
        let front = of_rank(networks, rank);
        let back = ranked_from(networks, rank - 1);
        let all = ranked_from(networks, rank);
        lemma_of_rank(networks, rank);
        lemma_ranked_from(networks, rank - 1);
        if y < front.len() {
            assert(all[x] == front[x] && all[y] == front[y]);
            lemma_of_rank_in_order(networks, rank, x, y);
        } else if x >= front.len() {
            let u = x - front.len();
            let v = y - front.len();
            assert(all[x] == back[u] && all[y] == back[v]);
            lemma_ranked_in_order(networks, rank - 1, u, v);
        } else {
            assert(all[x] == front[x] && all[y] == back[y - front.len()]);
            assert(rank_of(front[x]) == rank);
            assert(rank_of(back[y - front.len()]) <= rank - 1);
        }
    }
}

/// Of the lines that name a network the first one counts: what it says is in the scan,
/// whatever the lines behind it say.
pub proof fn law_first_line_counts(output: Seq<char>, i: int, n: WifiNetworkView)
    requires
        first_line_of(text::lines_of(output), i, n),
    ensures
        scan_of(output).contains(n),
{
    let lines = text::lines_of(output);
    let kept = first_of_each(networks_in(lines));
    lemma_first_line_is_kept(lines, i, n);
    law_scan_keeps_networks(output);
    kept.to_multiset_ensures();
    scan_of(output).to_multiset_ensures();
    assert(kept.to_multiset().count(n) > 0);
}

/// A scan lists networks that are alike in connection and signal in the order of their
/// lines.
pub proof fn law_scan_follows_the_lines(output: Seq<char>, x: int, y: int)
    requires
        0 <= x < y < scan_of(output).len(),
    ensures
        forall|i: int, j: int|
            scan_of(output)[x].connected == scan_of(output)[y].connected && scan_of(
                output,
            )[x].signal_bars == scan_of(output)[y].signal_bars && #[trigger] first_line_of(
                text::lines_of(output),
                i,
                scan_of(output)[x],
            ) && #[trigger] first_line_of(text::lines_of(output), j, scan_of(output)[y]) ==> i < j,
{
    let lines = text::lines_of(output);
    let kept = first_of_each(networks_in(lines));
    let all = scan_of(output);
    if all[x].connected == all[y].connected && all[x].signal_bars == all[y].signal_bars {
        lemma_ranked_in_order(kept, 7, x, y);
        let (p, q) = choose|p: int, q: int|
            0 <= p < q < kept.len() && #[trigger] kept[p] == all[x] && #[trigger] kept[q] == all[y];
        assert forall|i: int, j: int| #[trigger]
            first_line_of(lines, i, all[x]) && #[trigger] first_line_of(lines, j, all[y]) implies i
            < j by {
            lemma_kept_in_order(lines, p, q, i, j);
        }
    }
}

/// A scan lists nothing but what the lines say: every network of it is as the first
/// line that names it has it.
pub proof fn law_scan_lists_nothing_else(output: Seq<char>, x: int)
    requires
        0 <= x < scan_of(output).len(),
    ensures
        has_first_line(text::lines_of(output), scan_of(output)[x]),
{
    let lines = text::lines_of(output);
    let kept = first_of_each(networks_in(lines));
    let all = scan_of(output);
    law_scan_keeps_networks(output);
    kept.to_multiset_ensures();
    all.to_multiset_ensures();
    assert(all.contains(all[x]));
    assert(kept.to_multiset().count(all[x]) > 0);
    assert(kept.contains(all[x]));
    let k = choose|k: int| 0 <= k < kept.len() && kept[k] == all[x];
    lemma_kept_have_lines(lines, k);
}

/// A battery's charge is what its file says in percent, whatever white space stands
/// around it, and it counts as charging unless it is said to be discharging, in
/// capitals or not. Without a charge that can be read there is no status.
pub proof fn law_battery(
    before: Seq<char>,
    digits: Seq<char>,
    behind: Seq<char>,
    status: Option<Seq<char>>,
)
    requires
        text::blank(before),
        text::blank(behind),
        digits.len() > 0,
        text::all_digits(digits),
    ensures
        ({
            let battery = battery_of(Some(before + digits + behind), status);
            &&& battery is Some <==> text::number_of(digits) <= 100
            &&& battery matches Some(b) ==> {
                &&& b.percent == text::number_of(digits)
                &&& !b.charging <==> status is Some && text::same_but_case(
                    text::trimmed(status->0),
                    "Discharging"@,
                )
            }
        }),
        battery_of(None, status) is None,
        battery_of(Some(before + behind), status) is None,
{
    assert(text::is_digit(digits[0]));
    assert(text::is_digit(digits[digits.len() - 1]));
    text::law_trimming(before, digits, behind);
    text::law_reading_numbers(digits, 100, digits, 0);
    let none = Seq::<char>::empty();
    text::law_trimming(before + behind, none, none);
    assert(before + behind + none + none =~= before + behind);
    text::law_trimming(none, none, none);
    assert(none + none + none =~= none);
    reveal_strlit("Discharging");
    text::law_same_but_case(none, "Discharging"@);
}

/// A capacity that is no number gives no status.
pub proof fn law_battery_without_a_number(
    capacity: Seq<char>,
    status: Option<Seq<char>>,
    i: int,
)
    requires
        0 <= i < text::trimmed(capacity).len(),
        !text::is_digit(text::trimmed(capacity)[i]),
        i > 0 || text::trimmed(capacity)[i] != '+',
    ensures
        battery_of(Some(capacity), status) is None,
{
    let one = seq!['1'];
    assert(text::all_digits(one));
    text::law_reading_numbers(one, 100, text::trimmed(capacity), i);
}

/// What the line of a WiFi adapter says: the connection's name, colons and all, where
/// it is connected, and otherwise whether the adapter can be used.
pub proof fn law_adapter_lines(
    device: Seq<char>,
    state: Seq<char>,
    connection: Seq<char>,
    lines: Seq<Seq<char>>,
)
    requires
        !device.contains(':'),
        !state.contains(':'),
    ensures
        ({
            let line = device + seq![':'] + state + seq![':'] + connection;
            let named = text::begins_with(device, seq!['w', 'l']) || text::begins_with(
                device,
                seq!['w', 'i', 'f', 'i'],
            );
            &&& named && state == "connected"@ ==> probe_of(seq![line] + lines)
                == WifiProbeView::Connected { ssid: connection }
            &&& named && state != "connected"@ ==> probe_of(seq![line] + lines)
                == WifiProbeView::Idle {
                enabled: state != "unavailable"@ && state != "unmanaged"@,
            }
            &&& !named ==> probe_of(seq![line] + lines) == probe_of(lines)
        }),
        probe_of(Seq::empty()) == WifiProbeView::Missing,
{
    let line = device + seq![':'] + state + seq![':'] + connection;
    text::law_split_first(device, ':', state + seq![':'] + connection);
    text::law_split_first(state, ':', connection);
    assert(line =~= device + seq![':'] + (state + seq![':'] + connection));
    assert((seq![line] + lines)[0] == line);
    assert((seq![line] + lines).drop_first() =~= lines);
    reveal_strlit("wl");
    reveal_strlit("wifi");
    assert("wl"@ =~= seq!['w', 'l']);
    assert("wifi"@ =~= seq!['w', 'i', 'f', 'i']);
}

/// The status names a network, and has its bars, only where there is a connection; it
/// has WiFi on where there is one, and else as the adapter has it.
pub proof fn law_wifi_status(ssid: Seq<char>, enabled: bool, bars: u8)
    ensures
        ({
            let status = wifi_status_of(WifiProbeView::Connected { ssid }, bars);
            status.enabled && status.ssid == Some(ssid) && status.signal_bars == bars
        }),
        ({
            let status = wifi_status_of(WifiProbeView::Idle { enabled }, bars);
            status.enabled == enabled && status.ssid is None && status.signal_bars == 0
        }),
        ({
            let status = wifi_status_of(WifiProbeView::Missing, bars);
            !status.enabled && status.ssid is None && status.signal_bars == 0
        }),
{
}

/// The bars grow with the link quality, one at a time.
pub proof fn law_quality_bars(quality: nat)
    ensures
        quality_bars_of(quality) == (if quality < 12 {
            0nat
        } else if quality < 36 {
            1
        } else if quality < 59 {
            2
        } else {
            3
        }),
{
}

/// Where no link quality is given there is one bar, and otherwise there are the bars of
/// the quality that is.
pub proof fn law_signal_bars(content: Seq<char>)
    ensures
        signal_bars_of(None) == 1,
        quality_of(content) is None ==> signal_bars_of(Some(content)) == 1,
        quality_of(content) matches Some(quality) ==> signal_bars_of(Some(content))
            == quality_bars_of(quality),
        quality_fits(None),
        quality_of(content) is None ==> quality_fits(Some(content)),
        quality_of(content) matches Some(quality) ==> (quality_fits(Some(content)) <==> 3 * quality
            + 34 <= u32::MAX),
{
}

/// The link quality is the third word of the first line below the two headings whose
/// third word is a number, full stops at its end apart.
pub proof fn law_link_quality(lines: Seq<Seq<char>>, i: int, quality: nat)
    requires
        0 <= i < lines.len(),
        quality_on(lines[i]) == Some(quality),
        forall|j: int| 0 <= j < i ==> quality_on(#[trigger] lines[j]) is None,
    ensures
        quality_in(lines) == Some(quality),
    decreases lines.len(),
{
    if i > 0 {
        assert(quality_on(lines[0]) is None);
        let rest = lines.drop_first();
        assert forall|j: int| 0 <= j < i - 1 implies quality_on(#[trigger] rest[j]) is None by {
            assert(rest[j] == lines[j + 1]);
        }
        law_link_quality(rest, i - 1, quality);
    }
}

/// Lines that give no link quality leave none.
pub proof fn law_no_link_quality(lines: Seq<Seq<char>>)
    requires
        forall|j: int| 0 <= j < lines.len() ==> quality_on(#[trigger] lines[j]) is None,
    ensures
        quality_in(lines) is None,
    decreases lines.len(),
{
    if lines.len() > 0 {
        let rest = lines.drop_first();
        assert(quality_on(lines[0]) is None);
        assert forall|j: int| 0 <= j < rest.len() implies quality_on(#[trigger] rest[j]) is None by {
            assert(rest[j] == lines[j + 1]);
        }
        law_no_link_quality(rest);
    }
}

/// The two headings of the table do not count, whatever they hold.
pub proof fn law_headings_do_not_count(content: Seq<char>)
    ensures
        text::lines_of(content).len() <= 2 ==> quality_of(content) is None,
        text::lines_of(content).len() > 2 ==> quality_of(content) == quality_in(
            text::lines_of(content).skip(2),
        ),
{
}

/// A line of the table: a name, a status, the link quality with any number of full
/// stops, and whatever else.
pub proof fn law_quality_on_a_line(
    name: Seq<char>,
    status: Seq<char>,
    digits: Seq<char>,
    stops: nat,
    rest: Seq<char>,
)
    requires
        name.len() > 0,
        status.len() > 0,
        digits.len() > 0,
        forall|i: int| 0 <= i < name.len() ==> !text::is_space(#[trigger] name[i]),
        forall|i: int| 0 <= i < status.len() ==> !text::is_space(#[trigger] status[i]),
        text::all_digits(digits),
        text::number_of(digits) <= u32::MAX,
    ensures
        quality_on(
            name + seq![' '] + status + seq![' '] + (digits + Seq::new(stops, |i: int| '.'))
                + seq![' '] + rest,
        ) == Some(text::number_of(digits)),
        quality_on(name + seq![' '] + status) is None,
{
    let none = Seq::<char>::empty();
    let dots = Seq::new(stops, |i: int| '.');
    let third = digits + dots;
    assert forall|i: int| 0 <= i < third.len() implies !text::is_space(#[trigger] third[i]) by {
        if i < digits.len() {
            assert(text::is_digit(digits[i]));
        }
    }
    let behind = third + seq![' '] + rest;
    text::law_words(none, name, ' ', status + seq![' '] + behind);
    text::law_words(none, status, ' ', behind);
    text::law_words(none, third, ' ', rest);
    let line = name + seq![' '] + status + seq![' '] + third + seq![' '] + rest;
    assert(line =~= none + name + seq![' '] + (status + seq![' '] + behind));
    assert(status + seq![' '] + behind =~= none + status + seq![' '] + behind);
    assert(behind =~= none + third + seq![' '] + rest);
    let words = text::words_of(line);
    assert(words == seq![name] + (seq![status] + (seq![third] + text::words_of(rest))));
    assert(words[2] == third);
    assert(text::is_digit(digits[digits.len() - 1]));
    text::law_trimming_off_a_character(digits, '.', stops);
    text::law_reading_numbers(digits, u32::MAX as nat, digits, 0);
    text::law_words(none, name, ' ', status);
    assert(name + seq![' '] + status =~= none + name + seq![' '] + status);
    assert(none + status =~= status);
    assert(text::words_of(status) == seq![status]);
    assert(text::words_of(name + seq![' '] + status) =~= seq![name, status]);
}

/// A line of the list of devices is read as the device of that address and name, spaces
/// in the name too; a line that begins with another word names no device.
pub proof fn law_device_lines(keyword: Seq<char>, address: Seq<char>, name: Seq<char>)
    requires
        !keyword.contains(' '),
        !address.contains(' '),
    ensures
        ({
            let line = keyword + seq![' '] + address + seq![' '] + name;
            &&& device_of(line) is Some <==> keyword == "Device"@
            &&& device_of(line) matches Some(d) ==> d.name == name && d.address == address
                && !d.connected
        }),
        device_of(keyword) is None,
        device_of(keyword + seq![' '] + address) is None,
{
    let line = keyword + seq![' '] + address + seq![' '] + name;
    text::law_split_first(keyword, ' ', address + seq![' '] + name);
    text::law_split_first(address, ' ', name);
    text::law_split_first(keyword, ' ', address);
    assert(line =~= keyword + seq![' '] + (address + seq![' '] + name));
}

/// Each line that names a device adds it behind those of the lines before, and the
/// other lines add nothing: the devices of two runs of lines are those of the first and
/// then those of the second.
pub proof fn law_devices_line_by_line(a: Seq<Seq<char>>, b: Seq<Seq<char>>, line: Seq<char>)
    ensures
        devices_in(a + b) == devices_in(a) + devices_in(b),
        device_of(line) matches Some(d) ==> devices_in(seq![line]) == seq![d],
        device_of(line) is None ==> devices_in(seq![line]).len() == 0,
        devices_in(Seq::empty()).len() == 0,
    decreases b.len(),
{
    let none = Seq::<Seq<char>>::empty();
    assert(seq![line].drop_last() =~= none);
    assert(devices_in(none) == Seq::<BtDeviceView>::empty());
    reveal_with_fuel(devices_in, 2);
    if b.len() > 0 {
        law_devices_line_by_line(a, b.drop_last(), line);
        assert((a + b).drop_last() =~= a + b.drop_last());
        assert((a + b).last() == b.last());
        assert(devices_in(a + b) =~= devices_in(a) + devices_in(b));
    } else {
        assert(a + b =~= a);
        assert(devices_in(a) + devices_in(b) =~= devices_in(a));
    }
}

/// The paired devices are listed as they are paired, all of them in their order, each
/// marked as connected exactly where its address is among the connected ones.
pub proof fn law_connected_devices_are_marked(
    paired: Seq<BtDeviceView>,
    connected: Seq<BtDeviceView>,
    i: int,
)
    requires
        0 <= i < paired.len(),
    ensures
        marked(paired, connected).len() == paired.len(),
        marked(paired, connected)[i].name == paired[i].name,
        marked(paired, connected)[i].address == paired[i].address,
        marked(paired, connected)[i].connected <==> exists|j: int|
            0 <= j < connected.len() && (#[trigger] connected[j]).address == paired[i].address,
{
}

/// The device that is shown as connected is the first that is listed, if any is.
pub proof fn law_first_device_is_named(devices: Seq<BtDeviceView>)
    ensures
        first_name(Seq::empty()) is None,
        devices.len() > 0 ==> first_name(devices) == Some(devices[0].name),
{
}

/// The adapter is powered where some line, white space in front apart, begins with
/// `Powered:` and says yes, wherever it stands among the lines.
pub proof fn law_powered(
    output: Seq<char>,
    i: int,
    space: Seq<char>,
    middle: Seq<char>,
    behind: Seq<char>,
)
    requires
        text::blank(space),
        0 <= i < text::lines_of(output).len(),
        text::lines_of(output)[i] == space + "Powered:"@ + middle + "yes"@ + behind,
        text::tight("Powered:"@ + middle + "yes"@ + behind),
    ensures
        powered_in(output),
{
    let line = text::lines_of(output)[i];
    let none = Seq::<char>::empty();
    let said = "Powered:"@ + middle + "yes"@ + behind;
    text::law_trimming(space, said, none);
    assert(line =~= space + said + none);
    text::law_searching(none, "Powered:"@, middle + "yes"@ + behind, said);
    assert(said =~= "Powered:"@ + (middle + "yes"@ + behind));
    text::law_searching(space + "Powered:"@ + middle, "yes"@, behind, line);
    assert(says_powered(line));
}

/// An adapter is powered only where some line begins with `Powered:` and says yes, and
/// any such line will do.
pub proof fn law_only_lines_say_powered(output: Seq<char>)
    ensures
        powered_in(output) <==> exists|i: int|
            0 <= i < text::lines_of(output).len() && text::holds(
                #[trigger] text::lines_of(output)[i],
                "yes"@,
            ) && text::begins_with(text::trimmed(text::lines_of(output)[i]), "Powered:"@),
{
    let lines = text::lines_of(output);
    if powered_in(output) {
        let i = choose|i: int| 0 <= i < lines.len() && says_powered(#[trigger] lines[i]);
        assert(text::holds(lines[i], "yes"@));
    }
    if exists|i: int|
        0 <= i < lines.len() && text::holds(#[trigger] lines[i], "yes"@) && text::begins_with(
            text::trimmed(lines[i]),
            "Powered:"@,
        ) {
        let i = choose|i: int|
            0 <= i < lines.len() && text::holds(#[trigger] lines[i], "yes"@) && text::begins_with(
                text::trimmed(lines[i]),
                "Powered:"@,
            );
        assert(says_powered(lines[i]));
    }
}

/// A command is handed to the Bluetooth tool between quotes.
pub proof fn law_bt_scripts(command: Seq<char>)
    ensures
        bt_script_of(command).len() == command.len() + 22,
        bt_script_of(command).take(6) == "echo '"@,
        bt_script_of(command).subrange(6, 6 + command.len() as int) == command,
        bt_script_of(command).skip(6 + command.len() as int) == "' | bluetoothctl"@,
{
    reveal_strlit("echo '");
    reveal_strlit("' | bluetoothctl");
    let s = bt_script_of(command);
    assert(s.take(6) =~= "echo '"@);
    assert(s.subrange(6, 6 + command.len() as int) =~= command);
    assert(s.skip(6 + command.len() as int) =~= "' | bluetoothctl"@);
}

/// An adapter that is powered is on, with the device that is connected, if any; one that
/// is not is off, without a device.
pub proof fn law_bt_status(name: Seq<char>, connected: Option<Seq<char>>)
    ensures
        bt_status_of(true, Some(name)).enabled,
        bt_status_of(true, Some(name)).connected_device == Some(name),
        bt_status_of(true, None).enabled,
        bt_status_of(true, None).connected_device is None,
        !bt_status_of(false, connected).enabled,
        bt_status_of(false, connected).connected_device is None,
{
}

/// What the line of a WiFi adapter says that leaves out the connection, or the state
/// too: without a connection's name it is connected to a network without one, and an
/// unknown state counts as one that can be used.
pub proof fn law_short_adapter_lines(device: Seq<char>, state: Seq<char>, lines: Seq<Seq<char>>)
    requires
        !device.contains(':'),
        !state.contains(':'),
    ensures
        ({
            let line = device + seq![':'] + state;
            let named = text::begins_with(device, seq!['w', 'l']) || text::begins_with(
                device,
                seq!['w', 'i', 'f', 'i'],
            );
            &&& named && state == "connected"@ ==> probe_of(seq![line] + lines)
                == WifiProbeView::Connected { ssid: Seq::empty() }
            &&& named && state != "connected"@ ==> probe_of(seq![line] + lines)
                == WifiProbeView::Idle {
                enabled: state != "unavailable"@ && state != "unmanaged"@,
            }
            &&& named ==> probe_of(seq![device] + lines) == WifiProbeView::Idle { enabled: true }
            &&& !named ==> probe_of(seq![line] + lines) == probe_of(lines)
            &&& !named ==> probe_of(seq![device] + lines) == probe_of(lines)
        }),
{
    let line = device + seq![':'] + state;
    text::law_split_first(device, ':', state);
    text::law_split_first(state, ':', state);
    assert((seq![line] + lines).drop_first() =~= lines);
    assert((seq![device] + lines).drop_first() =~= lines);
    reveal_strlit("wl");
    reveal_strlit("wifi");
    reveal_strlit("connected");
    reveal_strlit("unavailable");
    reveal_strlit("unmanaged");
    assert("wl"@ =~= seq!['w', 'l']);
    assert("wifi"@ =~= seq!['w', 'i', 'f', 'i']);
    let none = Seq::<char>::empty();
    assert(none.len() == 0 && "connected"@.len() > 0 && "unavailable"@.len() > 0
        && "unmanaged"@.len() > 0);
}

/// A scan can be reckoned with exactly where each of its lines can.
pub proof fn law_scans_fit_line_by_line(output: Seq<char>, i: int)
    ensures
        scan_fits(output) && 0 <= i < text::lines_of(output).len() ==> network_fits(
            text::lines_of(output)[i],
        ),
        !scan_fits(output) ==> exists|j: int|
            0 <= j < text::lines_of(output).len() && !network_fits(
                #[trigger] text::lines_of(output)[j],
            ),
{
}

/// A line gives a link quality only by its third word, and only where that is a number.
pub proof fn law_third_word_is_the_quality(line: Seq<char>)
    ensures
        text::words_of(line).len() < 3 ==> quality_on(line) is None,
        text::words_of(line).len() >= 3 ==> quality_on(line) == text::parsed(
            text::trim_end_char_of(text::words_of(line)[2], '.'),
            0xffff_ffff,
        ),
{
}

} // verus!
