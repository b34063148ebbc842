//! What the device's display shows: the state of the recording, the colours
//! that go with it, the screens and how the buttons move between them, and
//! the pixel format of the frame buffer.

use crate::analysis::analyzer::EventType;
use crate::text::{
    append_decimal, append_padded, append_signed_decimal, decimal, digit, digit_char, pad_left,
    push_char, signed_decimal,
};
use vstd::prelude::*;
use vstd::string::*;

verus! {

/// What the display says of the recording.
#[derive(Clone, Copy, Debug, PartialEq, Eq, Structural)]
pub enum DisplayState {
    /// Recording, and no warning so far.
    Recording,
    /// Not recording.
    Paused,
    /// An event above informational severity was detected. With an
    /// informational event this is the same as `Recording`.
    WarningDetected { event_type: EventType },
}

/// Why a recording came to an end on its own.
#[derive(Clone, Copy, Debug, PartialEq, Eq, Structural)]
pub enum StoppedReason {
    DiskFull,
    DiagError,
}

/// What the display knows of the device.
#[derive(Clone, Debug, PartialEq, Eq)]
pub struct DeviceInfo {
    pub display_state: DisplayState,
    pub disk_available_mb: u32,
    pub disk_total_mb: u32,
    pub battery_level: Option<u8>,
    pub battery_plugged: bool,
    pub colorblind_mode: bool,
    pub mem_total_mb: u32,
    pub mem_free_mb: u32,
    pub uptime_secs: u64,
    pub version: &'static str,
    pub ap_ssid: Option<String>,
    pub ap_password: Option<String>,
    pub ap_port: u16,
    pub wifi_ssid: Option<String>,
    pub wifi_connected: bool,
    pub wifi_ip: Option<String>,
    /// Number of events seen, by severity: informational first.
    pub event_counts: [u32; 4],
    pub last_event_time: Option<String>,
    pub last_event_name: Option<String>,
    pub last_event_severity: Option<EventType>,
    pub low_disk: bool,
    pub stopped_reason: Option<StoppedReason>,
    pub wake_display: bool,
    pub mcc_mnc: Option<String>,
    pub rsrp_dbm: Option<i16>,
}

impl DeviceInfo {
    /// What the display knows when the device starts: that it is
    /// recording, and nothing else.
    pub fn new(colorblind_mode: bool, ap_port: u16, version: &'static str) -> (info: Self)
        ensures
            info.display_state == DisplayState::Recording,
            info.colorblind_mode == colorblind_mode,
            info.ap_port == ap_port,
            info.version@ == version@,
            info.disk_available_mb == 0 && info.disk_total_mb == 0,
            info.mem_total_mb == 0 && info.mem_free_mb == 0,
            info.uptime_secs == 0,
            info.battery_level is None && !info.battery_plugged,
            info.ap_ssid is None && info.ap_password is None,
            info.wifi_ssid is None && !info.wifi_connected && info.wifi_ip is None,
            forall|i: int| 0 <= i < 4 ==> info.event_counts@[i] == 0,
            info.last_event_time is None && info.last_event_name is None
                && info.last_event_severity is None,
            !info.low_disk && info.stopped_reason is None && !info.wake_display,
            info.mcc_mnc is None && info.rsrp_dbm is None,
    {
        DeviceInfo {
            display_state: DisplayState::Recording,
            disk_available_mb: 0,
            disk_total_mb: 0,
            battery_level: None,
            battery_plugged: false,
            colorblind_mode,
            mem_total_mb: 0,
            mem_free_mb: 0,
            uptime_secs: 0,
            version,
            ap_ssid: None,
            ap_password: None,
            ap_port,
            wifi_ssid: None,
            wifi_connected: false,
            wifi_ip: None,
            event_counts: [0, 0, 0, 0],
            last_event_time: None,
            last_event_name: None,
            last_event_severity: None,
            low_disk: false,
            stopped_reason: None,
            wake_display: false,
            mcc_mnc: None,
            rsrp_dbm: None,
        }
    }
}

/// A colour as the number `0xRRGGBB`: eight bits each of red, green and blue.
pub type Rgb = u32;

/// The colours of the display.
pub const GREEN: Rgb = 0x00c853;

pub const BLUE: Rgb = 0x0091ea;

pub const YELLOW: Rgb = 0xffd600;

pub const ORANGE: Rgb = 0xff6d00;

pub const RED: Rgb = 0xd50000;

pub const LIGHT_GRAY: Rgb = 0xe0e0e0;

pub const MID_GRAY: Rgb = 0xaaaaaa;

pub const AMBER: Rgb = 0xff8f00;

pub const DARK_RED: Rgb = 0xb71c1c;

pub const SEPARATOR: Rgb = 0x333333;

pub const DIM_GRAY: Rgb = 0x777777;

pub const DARK_GRAY: Rgb = 0x666666;

pub const DARKER_GRAY: Rgb = 0x444444;

pub const WHITE: Rgb = 0xffffff;

pub const BLACK: Rgb = 0x000000;

/// The width of the display, in pixels.
pub const WIDTH: u32 = 128;

/// The colour that says that all is well: green, or blue for those who
/// cannot tell green from red.
pub open spec fn spec_accent_color(colorblind_mode: bool) -> Rgb {
    if colorblind_mode {
        BLUE
    } else {
        GREEN
    }
}

/// The colour of a severity.
pub open spec fn spec_severity_color(event_type: EventType) -> Rgb {
    match event_type {
        EventType::High => RED,
        EventType::Medium => ORANGE,
        EventType::Low => YELLOW,
        EventType::Informational => MID_GRAY,
    }
}

/// The colour of the state of the device: red when stopped, light gray when
/// paused, the colour of the warning when there is one above informational
/// severity, else the colour that says that all is well.
pub open spec fn spec_state_color(info: DeviceInfo) -> Rgb {
    if info.stopped_reason is Some {
        RED
    } else {
        match info.display_state {
            DisplayState::Paused => LIGHT_GRAY,
            DisplayState::Recording => spec_accent_color(info.colorblind_mode),
            DisplayState::WarningDetected { event_type } => match event_type {
                EventType::Informational => spec_accent_color(info.colorblind_mode),
                EventType::Low => YELLOW,
                EventType::Medium => ORANGE,
                EventType::High => RED,
            },
        }
    }
}

/// The word for the state of the device.
pub open spec fn spec_state_label(info: DeviceInfo) -> Seq<char> {
    if info.stopped_reason is Some {
        "STOPPED"@
    } else if info.display_state is Paused {
        "PAUSED"@
    } else {
        "RECORDING"@
    }
}

/// The colour of the most severe kind of event that was counted, mid gray
/// if none above informational was.
pub open spec fn spec_highest_severity_color(counts: Seq<u32>) -> Rgb
    recommends
        counts.len() == 4,
{
    if counts[3] > 0 {
        RED
    } else if counts[2] > 0 {
        ORANGE
    } else if counts[1] > 0 {
        YELLOW
    } else {
        MID_GRAY
    }
}

/// The darker colour that a pill on a block of the given colour gets.
pub open spec fn spec_pill_bg_for_block(block: Rgb) -> Rgb {
    if block == GREEN {
        0x006e2e
    } else if block == YELLOW {
        0x8c7600
    } else if block == ORANGE {
        0x8c3c00
    } else if block == RED {
        0x750000
    } else if block == BLUE {
        0x005081
    } else {
        0x404040
    }
}

/// The colour that says that all is well.
pub fn accent_color(info: &DeviceInfo) -> (c: Rgb)
    ensures
        c == spec_accent_color(info.colorblind_mode),
{
    if info.colorblind_mode {
        BLUE
    } else {
        GREEN
    }
}

/// The colour of a severity.
pub fn severity_color(event_type: EventType) -> (c: Rgb)
    ensures
        c == spec_severity_color(event_type),
{
    match event_type {
        EventType::High => RED,
        EventType::Medium => ORANGE,
        EventType::Low => YELLOW,
        EventType::Informational => MID_GRAY,
    }
}

/// The colour of the state of the device.
pub fn state_color(info: &DeviceInfo) -> (c: Rgb)
    ensures
        c == spec_state_color(*info),
{
    if info.stopped_reason.is_some() {
        return RED;
    }
    match info.display_state {
        DisplayState::Paused => LIGHT_GRAY,
        DisplayState::Recording => accent_color(info),
        DisplayState::WarningDetected { event_type } => match event_type {
            EventType::Informational => accent_color(info),
            EventType::Low => YELLOW,
            EventType::Medium => ORANGE,
            EventType::High => RED,
        },
    }
}

/// The word for the state of the device.
pub fn state_label(info: &DeviceInfo) -> (label: &'static str)
    ensures
        label@ == spec_state_label(*info),
{
    if info.stopped_reason.is_some() {
        return "STOPPED";
    }
    match info.display_state {
        DisplayState::Paused => "PAUSED",
        _ => "RECORDING",
    }
}

/// The colour of the most severe kind of event that was counted.
pub fn highest_severity_color(counts: &[u32; 4]) -> (c: Rgb)
    ensures
        c == spec_highest_severity_color(counts@),
{
    if counts[3] > 0 {
        RED
    } else if counts[2] > 0 {
        ORANGE
    } else if counts[1] > 0 {
        YELLOW
    } else {
        MID_GRAY
    }
}

/// The darker colour that a pill on a block of the given colour gets.
pub fn pill_bg_for_block(block: Rgb) -> (c: Rgb)
    ensures
        c == spec_pill_bg_for_block(block),
{
    if block == GREEN {
        0x006e2e
    } else if block == YELLOW {
        0x8c7600
    } else if block == ORANGE {
        0x8c3c00
    } else if block == RED {
        0x750000
    } else if block == BLUE {
        0x005081
    } else {
        0x404040
    }
}

/// The screens of the display, in the order in which a button press goes
/// through them.
#[derive(Clone, Copy, Debug, PartialEq, Eq, Structural)]
pub enum Screen {
    Status,
    Network,
    System,
    Alerts,
}

impl Screen {
    /// The screen that follows; the first follows the last.
    pub open spec fn spec_next(self) -> Screen {
        match self {
            Screen::Status => Screen::Network,
            Screen::Network => Screen::System,
            Screen::System => Screen::Alerts,
            Screen::Alerts => Screen::Status,
        }
    }

    /// The screen that follows.
    pub fn next(self) -> (s: Screen)
        ensures
            s == self.spec_next(),
    {
        match self {
            Screen::Status => Screen::Network,
            Screen::Network => Screen::System,
            Screen::System => Screen::Alerts,
            Screen::Alerts => Screen::Status,
        }
    }
}

/// Four presses of the button lead back to the screen they started from.
pub proof fn lemma_screens_cycle(s: Screen)
    ensures
        s.spec_next().spec_next().spec_next().spec_next() == s,
        s.spec_next() != s,
{
}

/// An uptime as the display shows it: days and hours from one day on, else
/// hours and minutes, the minutes with two digits.
pub open spec fn uptime_text(secs: u64) -> Seq<char> {
    let hours = (secs / 3600) as nat;
    let minutes = ((secs % 3600) / 60) as nat;
    if hours >= 24 {
        decimal(hours / 24) + "d "@ + decimal(hours % 24) + "h"@
    } else {
        decimal(hours) + "h "@ + seq![digit_char(minutes / 10), digit_char(minutes % 10)] + "m"@
    }
}

/// Writes an uptime as the display shows it.
pub fn format_uptime(secs: u64) -> (text: String)
    ensures
        text@ == uptime_text(secs),
{
    let hours = secs / 3600;
    let minutes = (secs % 3600) / 60;
    let mut text = String::new();
    if hours >= 24 {
        append_decimal(&mut text, hours / 24);
        text.append("d ");
        append_decimal(&mut text, hours % 24);
        text.append("h");
    } else {
        append_decimal(&mut text, hours);
        text.append("h ");
        let ghost head = text@;
        push_char(&mut text, digit((minutes / 10) as u8));
        push_char(&mut text, digit((minutes % 10) as u8));
        assert(text@ == head + seq![
            digit_char((minutes / 10) as nat),
            digit_char((minutes % 10) as nat),
        ]);
        text.append("m");
    }
    text
}

/// A colour in the sixteen bits of the frame buffer: five bits of red, six
/// of green, five of blue.
pub open spec fn rgb565(r: u8, g: u8, b: u8) -> u16 {
    (((r as u16) & 0xf8) << 8) | (((g as u16) & 0xfc) << 3) | ((b as u16) >> 3)
}

/// The frame buffer's two bytes for a colour, low byte first.
pub open spec fn rgb565_bytes(r: u8, g: u8, b: u8) -> Seq<u8> {
    seq![(rgb565(r, g, b) & 0xff) as u8, (rgb565(r, g, b) >> 8) as u8]
}

/// The frame buffer's bytes for the first `n` pixels of `rgb888`, which
/// holds three bytes for each pixel.
pub open spec fn frame_bytes(rgb888: Seq<u8>, n: nat) -> Seq<u8>
    decreases n,
{
    if n == 0 {
        Seq::empty()
    } else {
        frame_bytes(rgb888, (n - 1) as nat) + rgb565_bytes(
            rgb888[3 * (n - 1)],
            rgb888[3 * (n - 1) + 1],
            rgb888[3 * (n - 1) + 2],
        )
    }
}

/// The sixteen bits of the frame buffer for a colour.
pub fn pack_rgb565(r: u8, g: u8, b: u8) -> (packed: u16)
    ensures
        packed == rgb565(r, g, b),
{
    (((r as u16) & 0xf8) << 8) | (((g as u16) & 0xfc) << 3) | ((b as u16) >> 3)
}

/// Turns pixels of three bytes each into the bytes of the frame buffer.
/// Bytes behind the last whole pixel are left out.
pub fn to_frame_buffer(rgb888: &[u8]) -> (raw: Vec<u8>)
    ensures
        raw@ == frame_bytes(rgb888@, rgb888@.len() / 3),
{
    let n: usize = rgb888.len();
    let mut raw: Vec<u8> = Vec::new();
    let mut at: usize = 0;
    let ghost mut i: nat = 0;
    while n - at >= 3
        invariant
            at <= n,
            n == rgb888@.len(),
            at == 3 * i,
            raw@ == frame_bytes(rgb888@, i),
        decreases n - at,
    {
        let packed = pack_rgb565(rgb888[at], rgb888[at + 1], rgb888[at + 2]);
        assert(packed & 0xff <= 0xff) by (bit_vector);
        assert(packed >> 8 <= 0xff) by (bit_vector);
        let ghost before = raw@;
        raw.push((packed & 0xff) as u8);
        raw.push((packed >> 8) as u8);
        proof {
            assert(raw@ == before + rgb565_bytes(
                rgb888@[at as int],
                rgb888@[at + 1],
                rgb888@[at + 2],
            ));
            i = i + 1;
        }
        at = at + 3;
    }
    assert(i == rgb888@.len() / 3);
    raw
}

/// How long the display stays lit without a button press, in seconds.
pub const SCREEN_TIMEOUT_SECS: u64 = 30;

/// What the display shows and whether it is lit.
#[derive(Clone, Copy, Debug, PartialEq, Eq, Structural)]
pub struct UiState {
    pub screen: Screen,
    pub backlight_on: bool,
}

/// What can happen to the display.
#[derive(Clone, Copy, Debug, PartialEq, Eq, Structural)]
pub enum UiEvent {
    /// A screen was drawn; `idle_secs` have gone by since the last activity.
    Drawn { idle_secs: u64 },
    /// The device asks for the display to be lit.
    Wake,
    /// A button was pressed.
    Press,
}

/// What an event asks of the backlight.
#[derive(Clone, Copy, Debug, PartialEq, Eq, Structural)]
pub enum Backlight {
    Keep,
    SwitchOn,
    SwitchOff,
}

/// What an event leads to: the state of the display, what to do with the
/// backlight, and whether the event counts as activity.
#[derive(Clone, Copy, Debug, PartialEq, Eq, Structural)]
pub struct UiStep {
    pub state: UiState,
    pub backlight: Backlight,
    pub activity: bool,
}

/// What an event leads to. A lit display goes dark once it was idle for the
/// timeout. A wake lights a dark display and shows the status screen. A
/// press lights a dark display, and moves a lit one to the next screen.
pub open spec fn ui_step(state: UiState, event: UiEvent) -> UiStep {
    match event {
        UiEvent::Drawn { idle_secs } => if state.backlight_on && idle_secs >= SCREEN_TIMEOUT_SECS {
            UiStep {
                state: UiState { backlight_on: false, ..state },
                backlight: Backlight::SwitchOff,
                activity: false,
            }
        } else {
            UiStep { state, backlight: Backlight::Keep, activity: false }
        },
        UiEvent::Wake => if state.backlight_on {
            UiStep { state, backlight: Backlight::Keep, activity: true }
        } else {
            UiStep {
                state: UiState { screen: Screen::Status, backlight_on: true },
                backlight: Backlight::SwitchOn,
                activity: true,
            }
        },
        UiEvent::Press => if state.backlight_on {
            UiStep {
                state: UiState { screen: state.screen.spec_next(), ..state },
                backlight: Backlight::Keep,
                activity: true,
            }
        } else {
            UiStep {
                state: UiState { backlight_on: true, ..state },
                backlight: Backlight::SwitchOn,
                activity: true,
            }
        },
    }
}

/// Says what an event leads to.
pub fn on_ui_event(state: UiState, event: UiEvent) -> (step: UiStep)
    ensures
        step == ui_step(state, event),
{
    match event {
        UiEvent::Drawn { idle_secs } => {
            if state.backlight_on && idle_secs >= SCREEN_TIMEOUT_SECS {
                UiStep {
                    state: UiState { screen: state.screen, backlight_on: false },
                    backlight: Backlight::SwitchOff,
                    activity: false,
                }
            } else {
                UiStep { state, backlight: Backlight::Keep, activity: false }
            }
        },
        UiEvent::Wake => {
            if state.backlight_on {
                UiStep { state, backlight: Backlight::Keep, activity: true }
            } else {
                UiStep {
                    state: UiState { screen: Screen::Status, backlight_on: true },
                    backlight: Backlight::SwitchOn,
                    activity: true,
                }
            }
        },
        UiEvent::Press => {
            if state.backlight_on {
                UiStep {
                    state: UiState { screen: state.screen.next(), backlight_on: true },
                    backlight: Backlight::Keep,
                    activity: true,
                }
            } else {
                UiStep {
                    state: UiState { screen: state.screen, backlight_on: true },
                    backlight: Backlight::SwitchOn,
                    activity: true,
                }
            }
        },
    }
}

/// The shortest time between two input events that both count, in
/// milliseconds.
pub const DEBOUNCE_MS: u64 = 50;

/// Whether an input event counts as a press of the button: it does not
/// follow the event before it too closely, and it reports the release of the
/// key.
pub open spec fn is_press(since_last_ms: Option<u64>, value: u8) -> bool {
    !(since_last_ms matches Some(ms) && ms < DEBOUNCE_MS) && value == 0
}

/// Says whether an input event counts as a press of the button.
/// `since_last_ms` is the time since the event before, if there was one;
/// `value` is the value byte of the event.
pub fn counts_as_press(since_last_ms: Option<u64>, value: u8) -> (press: bool)
    ensures
        press == is_press(since_last_ms, value),
{
    match since_last_ms {
        Some(ms) => {
            if ms < DEBOUNCE_MS {
                return false;
            }
        },
        None => {},
    }
    value == 0
}

/// The word in the pill of the status screen, if it has a pill: an error
/// when stopped, else the kind of alert for a warning above informational
/// severity.
pub open spec fn spec_pill_text(info: DeviceInfo) -> Option<Seq<char>> {
    if info.stopped_reason is Some {
        Some("ERROR"@)
    } else {
        match info.display_state {
            DisplayState::WarningDetected { event_type } => match event_type {
                EventType::Low => Some("LOW ALERT"@),
                EventType::Medium => Some("ALERT"@),
                EventType::High => Some("HIGH ALERT"@),
                EventType::Informational => None,
            },
            _ => None,
        }
    }
}

/// Whether the battery is low: under a fifth and not charging.
pub open spec fn is_low_battery(info: DeviceInfo) -> bool {
    info.battery_level matches Some(level) && level < 20 && !info.battery_plugged
}

/// The colour of the disk line: red when the disk is full, amber when it
/// is nearly full, else white.
pub open spec fn spec_disk_color(info: DeviceInfo) -> Rgb {
    if info.stopped_reason == Some(StoppedReason::DiskFull) {
        RED
    } else if info.low_disk {
        AMBER
    } else {
        WHITE
    }
}

/// The disk line: the free space, or a hint when the transport failed.
pub open spec fn spec_disk_text(info: DeviceInfo) -> Seq<char> {
    if info.stopped_reason == Some(StoppedReason::DiagError) {
        "check web UI"@
    } else {
        "disk: "@ + decimal(info.disk_available_mb as nat) + "MB"@
    }
}

/// A battery level behind a label, or two dashes where it is not known.
pub open spec fn spec_battery_text(label: Seq<char>, level: Option<u8>) -> Seq<char> {
    match level {
        Some(l) => label + decimal(l as nat) + "%"@,
        None => label + "--"@,
    }
}

/// Number of events counted, of all severities.
pub open spec fn total_events(counts: Seq<u32>) -> nat
    recommends
        counts.len() == 4,
{
    (counts[0] + counts[1] + counts[2] + counts[3]) as nat
}

/// What the bottom of the status screen shows.
pub enum SpecBottom {
    Banner { background: Rgb, text_color: Rgb, text: Seq<char> },
    Footer { text: Seq<char>, color: Rgb },
}

/// What the bottom of the status screen shows: a banner for a full disk, a
/// failed transport, a nearly full disk or a low battery, in this order of
/// precedence, else the number of alerts.
pub open spec fn spec_status_bottom(info: DeviceInfo) -> SpecBottom {
    let total = total_events(info.event_counts@);
    if info.stopped_reason == Some(StoppedReason::DiskFull) {
        SpecBottom::Banner { background: DARK_RED, text_color: WHITE, text: "DISK FULL"@ }
    } else if info.stopped_reason == Some(StoppedReason::DiagError) {
        SpecBottom::Banner { background: DARK_RED, text_color: WHITE, text: "DIAG ERROR"@ }
    } else if info.low_disk {
        SpecBottom::Banner { background: AMBER, text_color: BLACK, text: "LOW DISK SPACE"@ }
    } else if is_low_battery(info) {
        SpecBottom::Banner {
            background: AMBER,
            text_color: BLACK,
            text: spec_battery_text("LOW BATTERY: "@, info.battery_level),
        }
    } else {
        SpecBottom::Footer {
            text: decimal(total) + if total == 1 {
                " ALERT"@
            } else {
                " ALERTS"@
            },
            color: if total == 0 {
                DIM_GRAY
            } else {
                spec_highest_severity_color(info.event_counts@)
            },
        }
    }
}

/// The pill of the status screen.
#[derive(Clone, Copy, Debug, PartialEq, Eq)]
pub struct Pill {
    pub text: &'static str,
    /// The left edge of the pill, so that it stands in the middle.
    pub x: u32,
    /// Five pixels for each letter, and eight.
    pub width: u32,
    pub background: Rgb,
}

/// What the bottom of the status screen shows.
#[derive(Clone, Debug, PartialEq, Eq)]
pub enum StatusBottom {
    Banner { background: Rgb, text_color: Rgb, text: String },
    Footer { text: String, color: Rgb },
}

impl View for StatusBottom {
    type V = SpecBottom;

    open spec fn view(&self) -> SpecBottom {
        match self {
            StatusBottom::Banner { background, text_color, text } => SpecBottom::Banner {
                background: *background,
                text_color: *text_color,
                text: text@,
            },
            StatusBottom::Footer { text, color } => SpecBottom::Footer {
                text: text@,
                color: *color,
            },
        }
    }
}

/// What the status screen shows.
#[derive(Clone, Debug, PartialEq, Eq)]
pub struct StatusView {
    pub color: Rgb,
    pub pill: Option<Pill>,
    pub label: &'static str,
    pub disk_text: String,
    pub disk_color: Rgb,
    pub battery_text: String,
    pub battery_color: Rgb,
    pub bottom: StatusBottom,
}

/// Whether a pill is the one that goes with a word on a block of a colour.
pub open spec fn is_pill_for(pill: Option<Pill>, text: Option<Seq<char>>, block: Rgb) -> bool {
    match text {
        Some(word) => pill matches Some(p) && p.text@ == word && p.width == 5 * word.len() + 8
            && p.x == (WIDTH - p.width) / 2 && p.background == spec_pill_bg_for_block(block),
        None => pill is None,
    }
}

/// Writes a battery level behind a label.
fn battery_text(label: &str, level: Option<u8>) -> (text: String)
    ensures
        text@ == spec_battery_text(label@, level),
{
    let mut text = String::from_str(label);
    match level {
        Some(l) => {
            append_decimal(&mut text, l as u64);
            text.append("%");
        },
        None => {
            text.append("--");
        },
    }
    text
}

/// A pill with the given word.
fn pill(text: &'static str, letters: u32, block: Rgb) -> (p: Pill)
    requires
        letters == text@.len(),
        letters <= 10,
    ensures
        is_pill_for(Some(p), Some(text@), block),
{
    let width = letters * 5 + 8;
    Pill { text, x: (WIDTH - width) / 2, width, background: pill_bg_for_block(block) }
}

/// Says what the status screen shows.
pub fn status_view(info: &DeviceInfo) -> (view: StatusView)
    ensures
        view.color == spec_state_color(*info),
        is_pill_for(view.pill, spec_pill_text(*info), spec_state_color(*info)),
        view.label@ == spec_state_label(*info),
        view.disk_text@ == spec_disk_text(*info),
        view.disk_color == spec_disk_color(*info),
        view.battery_text@ == spec_battery_text("batt: "@, info.battery_level),
        view.battery_color == if is_low_battery(*info) {
            AMBER
        } else {
            WHITE
        },
        view.bottom@ == spec_status_bottom(*info),
{
    proof {
        reveal_strlit("ERROR");
        reveal_strlit("LOW ALERT");
        reveal_strlit("ALERT");
        reveal_strlit("HIGH ALERT");
    }
    let color = state_color(info);
    let stopped = info.stopped_reason.is_some();
    let disk_full = match info.stopped_reason {
        Some(StoppedReason::DiskFull) => true,
        _ => false,
    };
    let diag_error = match info.stopped_reason {
        Some(StoppedReason::DiagError) => true,
        _ => false,
    };
    let the_pill = if stopped {
        Some(pill("ERROR", 5, color))
    } else {
        match info.display_state {
            DisplayState::WarningDetected { event_type } => match event_type {
                EventType::Low => Some(pill("LOW ALERT", 9, color)),
                EventType::Medium => Some(pill("ALERT", 5, color)),
                EventType::High => Some(pill("HIGH ALERT", 10, color)),
                EventType::Informational => None,
            },
            _ => None,
        }
    };
    let disk_color = if disk_full {
        RED
    } else if info.low_disk {
        AMBER
    } else {
        WHITE
    };
    let disk_text = if diag_error {
        String::from_str("check web UI")
    } else {
        let mut text = String::from_str("disk: ");
        append_decimal(&mut text, info.disk_available_mb as u64);
        text.append("MB");
        text
    };
    let low_battery = match info.battery_level {
        Some(level) => level < 20 && !info.battery_plugged,
        None => false,
    };
    let bottom = if disk_full {
        StatusBottom::Banner {
            background: DARK_RED,
            text_color: WHITE,
            text: String::from_str("DISK FULL"),
        }
    } else if diag_error {
        StatusBottom::Banner {
            background: DARK_RED,
            text_color: WHITE,
            text: String::from_str("DIAG ERROR"),
        }
    } else if info.low_disk {
        StatusBottom::Banner {
            background: AMBER,
            text_color: BLACK,
            text: String::from_str("LOW DISK SPACE"),
        }
    } else if low_battery {
        StatusBottom::Banner {
            background: AMBER,
            text_color: BLACK,
            text: battery_text("LOW BATTERY: ", info.battery_level),
        }
    } else {
        let total: u64 = info.event_counts[0] as u64 + info.event_counts[1] as u64
            + info.event_counts[2] as u64 + info.event_counts[3] as u64;
        let mut text = String::new();
        append_decimal(&mut text, total);
        if total == 1 {
            text.append(" ALERT");
        } else {
            text.append(" ALERTS");
        }
        StatusBottom::Footer {
            text,
            color: if total == 0 {
                DIM_GRAY
            } else {
                highest_severity_color(&info.event_counts)
            },
        }
    };
    StatusView {
        color,
        pill: the_pill,
        label: state_label(info),
        disk_text,
        disk_color,
        battery_text: battery_text("batt: ", info.battery_level),
        battery_color: if low_battery {
            AMBER
        } else {
            WHITE
        },
        bottom,
    }
}

/// The characters of an optional string, or `fallback` where there is none.
pub open spec fn text_or(s: Option<String>, fallback: Seq<char>) -> Seq<char> {
    match s {
        Some(text) => text@,
        None => fallback,
    }
}

/// What the Wi-Fi part of the network screen shows.
pub enum SpecWifiLines {
    Connected { ssid: Option<Seq<char>>, ip: Option<Seq<char>> },
    NotConnected,
    NotConfigured,
}

/// What the Wi-Fi part of the network screen shows.
#[derive(Clone, Debug, PartialEq, Eq)]
pub enum WifiLines {
    Connected { ssid: Option<String>, ip: Option<String> },
    NotConnected,
    NotConfigured,
}

/// The characters of an optional string.
pub open spec fn optional_text(s: Option<String>) -> Option<Seq<char>> {
    match s {
        Some(text) => Some(text@),
        None => None,
    }
}

impl View for WifiLines {
    type V = SpecWifiLines;

    open spec fn view(&self) -> SpecWifiLines {
        match self {
            WifiLines::Connected { ssid, ip } => SpecWifiLines::Connected {
                ssid: optional_text(*ssid),
                ip: optional_text(*ip),
            },
            WifiLines::NotConnected => SpecWifiLines::NotConnected,
            WifiLines::NotConfigured => SpecWifiLines::NotConfigured,
        }
    }
}

/// What the network screen shows.
#[derive(Clone, Debug, PartialEq, Eq)]
pub struct NetworkView {
    pub ap_ssid: String,
    pub ap_password: String,
    pub address: String,
    pub wifi: WifiLines,
    /// Whether the footer says that the web interface can be reached.
    pub web_ui_available: bool,
}

/// The Wi-Fi part of the network screen: the network and address when
/// connected, else whether a network is configured at all.
pub open spec fn spec_wifi_lines(info: DeviceInfo) -> SpecWifiLines {
    if info.wifi_connected {
        SpecWifiLines::Connected {
            ssid: optional_text(info.wifi_ssid),
            ip: optional_text(info.wifi_ip),
        }
    } else if info.wifi_ssid is Some {
        SpecWifiLines::NotConnected
    } else {
        SpecWifiLines::NotConfigured
    }
}

/// A copy of an optional string.
fn copy_text(s: &Option<String>) -> (copy: Option<String>)
    ensures
        optional_text(copy) == optional_text(*s),
{
    match s {
        Some(text) => Some(text.clone()),
        None => None,
    }
}

/// Says what the network screen shows.
pub fn network_view(info: &DeviceInfo) -> (view: NetworkView)
    ensures
        view.ap_ssid@ == text_or(info.ap_ssid, "N/A"@),
        view.ap_password@ == "Pass: "@ + text_or(info.ap_password, "N/A"@),
        view.address@ == "192.168.1.1:"@ + decimal(info.ap_port as nat),
        view.wifi@ == spec_wifi_lines(*info),
        view.web_ui_available == info.wifi_connected,
{
    let ap_ssid = match &info.ap_ssid {
        Some(ssid) => ssid.clone(),
        None => String::from_str("N/A"),
    };
    let mut ap_password = String::from_str("Pass: ");
    match &info.ap_password {
        Some(pw) => ap_password.append(pw.as_str()),
        None => ap_password.append("N/A"),
    }
    let mut address = String::from_str("192.168.1.1:");
    append_decimal(&mut address, info.ap_port as u64);
    let wifi = if info.wifi_connected {
        WifiLines::Connected { ssid: copy_text(&info.wifi_ssid), ip: copy_text(&info.wifi_ip) }
    } else if info.wifi_ssid.is_some() {
        WifiLines::NotConnected
    } else {
        WifiLines::NotConfigured
    };
    NetworkView { ap_ssid, ap_password, address, wifi, web_ui_available: info.wifi_connected }
}

/// What the system screen shows. A line that stands for a value that is
/// not known is shown dimmed.
#[derive(Clone, Debug, PartialEq, Eq)]
pub struct SystemView {
    pub disk: String,
    pub memory: String,
    pub battery: String,
    pub uptime: String,
    pub cell: String,
    pub cell_dimmed: bool,
    pub rsrp: String,
    pub rsrp_dimmed: bool,
    pub version: String,
}

/// The signal power line of the system screen.
pub open spec fn spec_rsrp_text(rsrp_dbm: Option<i16>) -> Seq<char> {
    match rsrp_dbm {
        Some(dbm) => "RSRP "@ + signed_decimal(dbm as int) + "dBm"@,
        None => "RSRP ---"@,
    }
}

/// The cell line of the system screen.
pub open spec fn spec_cell_text(mcc_mnc: Option<String>) -> Seq<char> {
    match mcc_mnc {
        Some(plmn) => "Cell "@ + plmn@,
        None => "Cell ---/---"@,
    }
}

/// Says what the system screen shows.
pub fn system_view(info: &DeviceInfo) -> (view: SystemView)
    ensures
        view.disk@ == "Disk "@ + decimal(info.disk_available_mb as nat) + "/"@ + decimal(
            info.disk_total_mb as nat,
        ) + "M"@,
        view.memory@ == "Mem  "@ + decimal(info.mem_free_mb as nat) + "/"@ + decimal(
            info.mem_total_mb as nat,
        ) + "M"@,
        view.battery@ == spec_battery_text("Batt    "@, info.battery_level),
        view.uptime@ == "Up   "@ + uptime_text(info.uptime_secs),
        view.cell@ == spec_cell_text(info.mcc_mnc),
        view.cell_dimmed == (info.mcc_mnc is None),
        view.rsrp@ == spec_rsrp_text(info.rsrp_dbm),
        view.rsrp_dimmed == (info.rsrp_dbm is None),
        view.version@ == "v"@ + info.version@,
{
    let mut disk = String::from_str("Disk ");
    append_decimal(&mut disk, info.disk_available_mb as u64);
    disk.append("/");
    append_decimal(&mut disk, info.disk_total_mb as u64);
    disk.append("M");
    let mut memory = String::from_str("Mem  ");
    append_decimal(&mut memory, info.mem_free_mb as u64);
    memory.append("/");
    append_decimal(&mut memory, info.mem_total_mb as u64);
    memory.append("M");
    let mut uptime = String::from_str("Up   ");
    let shown = format_uptime(info.uptime_secs);
    uptime.append(shown.as_str());
    let cell = match &info.mcc_mnc {
        Some(plmn) => {
            let mut text = String::from_str("Cell ");
            text.append(plmn.as_str());
            text
        },
        None => String::from_str("Cell ---/---"),
    };
    let rsrp = match info.rsrp_dbm {
        Some(dbm) => {
            let mut text = String::from_str("RSRP ");
            append_signed_decimal(&mut text, dbm as i32);
            text.append("dBm");
            text
        },
        None => String::from_str("RSRP ---"),
    };
    let mut version = String::from_str("v");
    version.append(info.version);
    SystemView {
        disk,
        memory,
        battery: battery_text("Batt    ", info.battery_level),
        uptime,
        cell,
        cell_dimmed: info.mcc_mnc.is_none(),
        rsrp,
        rsrp_dimmed: info.rsrp_dbm.is_none(),
        version,
    }
}

/// A row of the alerts screen: a label in six characters, a colon, and a
/// count in at least three.
pub open spec fn alert_row_text(label: Seq<char>, count: u32) -> Seq<char> {
    pad_left(label, 6) + ": "@ + pad_left(decimal(count as nat), 3)
}

/// One row of the alerts screen.
#[derive(Clone, Debug, PartialEq, Eq)]
pub struct AlertRow {
    pub text: String,
    pub color: Rgb,
}

/// Writes a row of the alerts screen.
fn alert_row(label: &str, count: u32, severity: EventType) -> (row: AlertRow)
    ensures
        row.text@ == alert_row_text(label@, count),
        row.color == spec_severity_color(severity),
{
    let mut number = String::new();
    append_decimal(&mut number, count as u64);
    let mut text = String::new();
    append_padded(&mut text, label, 6);
    text.append(": ");
    append_padded(&mut text, number.as_str(), 3);
    AlertRow { text, color: severity_color(severity) }
}

/// The rows of the alerts screen, most severe first, unless no event was
/// counted: then the screen says that all is clear and shows no rows.
pub fn alert_rows(counts: &[u32; 4]) -> (rows: Option<Vec<AlertRow>>)
    ensures
        total_events(counts@) == 0 <==> rows is None,
        rows matches Some(list) ==> list@.len() == 4 && list@[0].text@ == alert_row_text(
            "HIGH"@,
            counts@[3],
        ) && list@[0].color == RED && list@[1].text@ == alert_row_text("MEDIUM"@, counts@[2])
            && list@[1].color == ORANGE && list@[2].text@ == alert_row_text("LOW"@, counts@[1])
            && list@[2].color == YELLOW && list@[3].text@ == alert_row_text("INFO"@, counts@[0])
            && list@[3].color == MID_GRAY,
{
    if counts[0] == 0 && counts[1] == 0 && counts[2] == 0 && counts[3] == 0 {
        return None;
    }
    let mut rows: Vec<AlertRow> = Vec::new();
    rows.push(alert_row("HIGH", counts[3], EventType::High));
    rows.push(alert_row("MEDIUM", counts[2], EventType::Medium));
    rows.push(alert_row("LOW", counts[1], EventType::Low));
    rows.push(alert_row("INFO", counts[0], EventType::Informational));
    Some(rows)
}

/// The colour of the name of the last event: that of its severity, mid gray
/// where the severity is not known.
pub fn last_event_color(severity: Option<EventType>) -> (c: Rgb)
    ensures
        c == match severity {
            Some(s) => spec_severity_color(s),
            None => MID_GRAY,
        },
{
    match severity {
        Some(s) => severity_color(s),
        None => MID_GRAY,
    }
}

/// The bytes of the lines that show the name of the last event: a name of
/// up to twenty bytes stands on one line, a longer one is cut after twenty
/// bytes, and what follows stands on a second line, up to forty bytes.
pub open spec fn name_lines(name: Seq<u8>) -> (Seq<u8>, Option<Seq<u8>>) {
    if name.len() > 20 {
        (
            name.take(20),
            Some(
                name.subrange(
                    20,
                    if name.len() < 40 {
                        name.len() as int
                    } else {
                        40
                    },
                ),
            ),
        )
    } else {
        (name, None)
    }
}

/// The bytes of an optional string.
pub open spec fn optional_bytes(s: Option<&str>) -> Option<Seq<u8>> {
    match s {
        Some(text) => Some(text.spec_bytes()),
        None => None,
    }
}

/// The lines that show the name of the last event. The cuts after twenty
/// and forty bytes must not fall inside a character.
pub fn last_event_name_lines(name: &str) -> (lines: (&str, Option<&str>))
    requires
        name.spec_bytes().len() > 20 ==> vstd::utf8::is_char_boundary(name.spec_bytes(), 20),
        name.spec_bytes().len() > 40 ==> vstd::utf8::is_char_boundary(name.spec_bytes(), 40),
    ensures
        (lines.0.spec_bytes(), optional_bytes(lines.1)) == name_lines(name.spec_bytes()),
{
    let n = name.as_bytes().len();
    if n > 20 {
        let (first, rest) = name.split_at(20);
        let ghost all = name.spec_bytes();
        assert(all.subrange(0, 20) == all.take(20));
        if n > 40 {
            proof {
                let tail = all.subrange(20, all.len() as int);
                assert(rest.spec_bytes() == tail);
                assert(vstd::utf8::is_char_boundary(tail, 20)) by {
                    vstd::utf8::encode_utf8_valid_utf8(name@);
                    vstd::utf8::valid_utf8_split(all, 20);
                    vstd::utf8::is_char_boundary_iff_not_is_continuation_byte(all, 40);
                    vstd::utf8::is_char_boundary_iff_not_is_continuation_byte(tail, 20);
                    assert(tail[20] == all[40]);
                }
            }
            let (second, _) = rest.split_at(20);
            assert(rest.spec_bytes().subrange(0, 20) == all.subrange(20, 40));
            (first, Some(second))
        } else {
            assert(all.subrange(20, all.len() as int) == all.subrange(20, n as int));
            (first, Some(rest))
        }
    } else {
        (name, None)
    }
}

} // verus!
