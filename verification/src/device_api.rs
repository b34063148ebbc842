//! What a running device says of itself over its admin interface, and what
//! can be asked of a device with a given configuration.

use crate::analysis::harness::{default_analyzer_config, AnalyzerConfig};
use crate::device::{is_wifi_capable_name, wifi_capable_name};
use vstd::prelude::*;
use vstd::string::*;

verus! {

/// The configuration of a device.
#[derive(Clone, Debug, PartialEq, Eq)]
pub struct Config {
    pub qmdl_store_path: String,
    pub port: u16,
    pub debug_mode: bool,
    pub device: String,
    pub ui_level: u8,
    pub colorblind_mode: bool,
    pub key_input_mode: u8,
    pub ntfy_url: Option<String>,
    pub enabled_notifications: Vec<String>,
    pub analyzers: AnalyzerConfig,
    pub min_space_to_start_recording_mb: u64,
    pub min_space_to_continue_recording_mb: u64,
    pub wifi_ssid: Option<String>,
    pub wifi_password: Option<String>,
    pub wifi_enabled: bool,
    pub block_ota_daemons: bool,
    pub dns_servers: Option<Vec<String>>,
    pub firewall_restrict_outbound: bool,
    pub firewall_allowed_ports: Option<Vec<u16>>,
}

impl Default for Config {
    /// The configuration of a device that was never configured.
    fn default() -> (c: Self)
        ensures
            c.qmdl_store_path@ == "/data/rayhunter/qmdl"@,
            c.port == 8080,
            !c.debug_mode,
            c.device@ == "orbic"@,
            c.ui_level == 1,
            !c.colorblind_mode,
            c.key_input_mode == 0,
            c.ntfy_url is None,
            c.enabled_notifications@.len() == 2,
            c.enabled_notifications@[0]@ == "Warning"@,
            c.enabled_notifications@[1]@ == "LowBattery"@,
            c.analyzers == default_analyzer_config(),
            c.min_space_to_start_recording_mb == 1,
            c.min_space_to_continue_recording_mb == 1,
            c.wifi_ssid is None,
            c.wifi_password is None,
            !c.wifi_enabled,
            !c.block_ota_daemons,
            c.dns_servers is None,
            c.firewall_restrict_outbound,
            c.firewall_allowed_ports is None,
    {
        let mut enabled_notifications: Vec<String> = Vec::new();
        enabled_notifications.push(String::from_str("Warning"));
        enabled_notifications.push(String::from_str("LowBattery"));
        Config {
            qmdl_store_path: String::from_str("/data/rayhunter/qmdl"),
            port: 8080,
            debug_mode: false,
            device: String::from_str("orbic"),
            ui_level: 1,
            colorblind_mode: false,
            key_input_mode: 0,
            ntfy_url: None,
            enabled_notifications,
            analyzers: AnalyzerConfig::default(),
            min_space_to_start_recording_mb: 1,
            min_space_to_continue_recording_mb: 1,
            wifi_ssid: None,
            wifi_password: None,
            wifi_enabled: false,
            block_ota_daemons: false,
            dns_servers: None,
            firewall_restrict_outbound: true,
            firewall_allowed_ports: None,
        }
    }
}

/// What can be asked of a device.
#[derive(Clone, Copy, Debug, PartialEq, Eq, Structural)]
pub struct Capabilities {
    pub http: bool,
    pub shell: bool,
    pub wifi_enabled: bool,
    pub wifi_capable: bool,
    pub recording: bool,
}

impl Capabilities {
    /// What can be asked of a device with the given configuration: HTTP
    /// always, a shell if one is at hand, Wi-Fi if the device can do it and
    /// has it switched on, and recording unless the device is in debug mode.
    pub fn from_config(config: &Config, shell_available: bool) -> (c: Self)
        ensures
            c == (Capabilities {
                http: true,
                shell: shell_available,
                wifi_enabled: config.wifi_enabled && is_wifi_capable_name(config.device@),
                wifi_capable: is_wifi_capable_name(config.device@),
                recording: !config.debug_mode,
            }),
    {
        let wifi_capable = wifi_capable_name(config.device.as_str());
        Capabilities {
            http: true,
            shell: shell_available,
            wifi_enabled: config.wifi_enabled && wifi_capable,
            wifi_capable,
            recording: !config.debug_mode,
        }
    }
}

/// What a device reports of its disk, memory, software and battery.
#[derive(Clone, Debug, PartialEq, Eq)]
pub struct SystemStats {
    pub disk_stats: DiskStats,
    pub memory_stats: MemoryStats,
    pub runtime_metadata: RuntimeMetadata,
    pub battery_status: Option<BatteryState>,
}

/// What a device reports of the disk that holds the recordings.
#[derive(Clone, Debug, PartialEq, Eq)]
pub struct DiskStats {
    pub partition: String,
    pub total_size: String,
    pub used_size: String,
    pub available_size: String,
    pub used_percent: String,
    pub mounted_on: String,
    pub available_bytes: Option<u64>,
}

/// What a device reports of its memory.
#[derive(Clone, Debug, PartialEq, Eq)]
pub struct MemoryStats {
    pub total: String,
    pub used: String,
    pub free: String,
}

/// What a device reports of the software it runs.
#[derive(Clone, Debug, PartialEq, Eq)]
pub struct RuntimeMetadata {
    pub rayhunter_version: String,
    pub system_os: String,
    pub arch: String,
}

/// What a device reports of its battery.
#[derive(Clone, Copy, Debug, PartialEq, Eq, Structural)]
pub struct BatteryState {
    pub level: u8,
    pub is_plugged_in: bool,
}

/// The recordings of a device: those that are finished, and the one
/// that is being made, if any.
#[derive(Clone, Debug, PartialEq, Eq)]
pub struct ManifestStats {
    pub entries: Vec<ManifestEntry>,
    pub current_entry: Option<ManifestEntry>,
}

/// What the manifest records of one recording.
#[derive(Clone, Debug, PartialEq, Eq)]
pub struct ManifestEntry {
    pub name: String,
    pub start_time: String,
    pub last_message_time: Option<String>,
    pub qmdl_size_bytes: usize,
    pub rayhunter_version: Option<String>,
    pub system_os: Option<String>,
    pub arch: Option<String>,
    pub stop_reason: Option<String>,
}

/// What a device reports of its clock.
#[derive(Clone, Debug, PartialEq, Eq)]
pub struct TimeResponse {
    pub system_time: String,
    pub adjusted_time: String,
    pub offset_seconds: i64,
}

/// Which recordings wait for analysis, are being analyzed, and are done.
#[derive(Clone, Debug, PartialEq, Eq)]
pub struct AnalysisStatus {
    pub queued: Vec<String>,
    pub running: Option<String>,
    pub finished: Vec<String>,
}

/// The state of the Wi-Fi client as the admin interface reports it.
#[derive(Clone, Debug, PartialEq, Eq)]
pub struct WifiStatus {
    pub state: String,
    pub ssid: Option<String>,
    pub ip: Option<String>,
    pub error: Option<String>,
}

/// A network as the admin interface reports it.
#[derive(Clone, Debug, PartialEq, Eq)]
pub struct WifiNetwork {
    pub ssid: String,
    pub signal_dbm: i32,
    pub security: String,
}

} // verus!
