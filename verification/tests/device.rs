use rayhunter::analysis::harness::AnalyzerConfig;
use rayhunter::device::wifi_capable_name;
use rayhunter::device_api::{Capabilities, Config};
use rayhunter::display::{DisplayState, StoppedReason};
use rayhunter::analysis::analyzer::EventType;
use rayhunter::Device;

#[test]
fn device_names_are_lower_case() {
    let all = [
        (Device::Orbic, "orbic"),
        (Device::Tplink, "tplink"),
        (Device::Tmobile, "tmobile"),
        (Device::Wingtech, "wingtech"),
        (Device::Pinephone, "pinephone"),
        (Device::Uz801, "uz801"),
        (Device::Moxee, "moxee"),
    ];
    for (device, name) in all {
        assert_eq!(device.name(), name);
        assert_eq!(device.name(), format!("{:?}", device).to_lowercase());
        assert_eq!(device.is_wifi_capable(), wifi_capable_name(name));
    }
}

#[test]
fn only_orbic_and_moxee_do_wifi() {
    assert!(wifi_capable_name("orbic"));
    assert!(wifi_capable_name("moxee"));
    for name in ["tplink", "tmobile", "wingtech", "pinephone", "uz801", "Orbic", "orbic ", "", "moxe"] {
        assert!(!wifi_capable_name(name), "{:?}", name);
    }
}

#[test]
fn default_config_of_a_device() {
    let config = Config::default();
    assert_eq!(config.qmdl_store_path, "/data/rayhunter/qmdl");
    assert_eq!(config.port, 8080);
    assert!(!config.debug_mode);
    assert_eq!(config.device, "orbic");
    assert_eq!(config.ui_level, 1);
    assert!(!config.colorblind_mode);
    assert_eq!(config.key_input_mode, 0);
    assert_eq!(config.ntfy_url, None);
    assert_eq!(config.enabled_notifications, vec!["Warning".to_string(), "LowBattery".to_string()]);
    assert_eq!(config.analyzers, AnalyzerConfig::default());
    assert_eq!(config.min_space_to_start_recording_mb, 1);
    assert_eq!(config.min_space_to_continue_recording_mb, 1);
    assert_eq!(config.wifi_ssid, None);
    assert_eq!(config.wifi_password, None);
    assert!(!config.wifi_enabled);
    assert!(!config.block_ota_daemons);
    assert_eq!(config.dns_servers, None);
    assert!(config.firewall_restrict_outbound);
    assert_eq!(config.firewall_allowed_ports, None);
}

#[test]
fn capabilities_follow_the_config() {
    let mut config = Config::default();
    assert_eq!(
        Capabilities::from_config(&config, false),
        Capabilities { http: true, shell: false, wifi_enabled: false, wifi_capable: true, recording: true }
    );
    config.wifi_enabled = true;
    config.debug_mode = true;
    assert_eq!(
        Capabilities::from_config(&config, true),
        Capabilities { http: true, shell: true, wifi_enabled: true, wifi_capable: true, recording: false }
    );
    config.device = "tplink".to_string();
    assert_eq!(
        Capabilities::from_config(&config, true),
        Capabilities { http: true, shell: true, wifi_enabled: false, wifi_capable: false, recording: false }
    );
    config.device = "moxee".to_string();
    assert!(Capabilities::from_config(&config, false).wifi_enabled);
}

#[test]
fn display_states_compare() {
    assert_ne!(DisplayState::Recording, DisplayState::Paused);
    assert_eq!(
        DisplayState::WarningDetected { event_type: EventType::High },
        DisplayState::WarningDetected { event_type: EventType::High }
    );
    assert_ne!(StoppedReason::DiskFull, StoppedReason::DiagError);
}
