use rayhunter::wifi::{crash_report, crash_report_path, effective_dns_servers, format_resolv_conf, link_is_up, module_paths, parse_iw_scan, push_or_update, Recovery, RecoveryOutcome, RecoveryStep, ScanEntry, sighting, sort_strongest_first, strongest_networks, WifiNetwork, WifiState, WifiStatus, DEFAULT_SIGNAL_DBM};

/// Reads the signal strength the way the scan tool prints it: a decimal
/// number, cut to a whole number.
fn read_dbm(text: &str) -> i32 {
    text.parse::<f32>().unwrap_or(-100.0) as i32
}

/// The networks of a scan, strongest first.
fn networks_of_scan(output: &str) -> Vec<WifiNetwork> {
    let sightings = parse_iw_scan(output)
        .into_iter()
        .map(|entry| {
            let dbm = entry.signal.as_deref().map(read_dbm);
            sighting(entry, dbm)
        })
        .collect();
    strongest_networks(sightings)
}

fn net(ssid: &str, signal_dbm: i32, security: &str) -> WifiNetwork {
    WifiNetwork { ssid: ssid.to_string(), signal_dbm, security: security.to_string() }
}

#[test]
fn test_parse_iw_scan_basic() {
    let output = "\
BSS aa:bb:cc:dd:ee:ff(on wlan1)
\tTSF: 12345 usec
\tfreq: 2412
\tsignal: -45.00 dBm
\tSSID: MyNetwork
\tRSN:\t * Version: 1
BSS 11:22:33:44:55:66(on wlan1)
\tsignal: -72.00 dBm
\tSSID: OtherNet
\tWPA:\t * Version: 1
";
    let networks = networks_of_scan(output);
    assert_eq!(networks.len(), 2);
    assert_eq!(networks[0].ssid, "MyNetwork");
    assert_eq!(networks[0].signal_dbm, -45);
    assert_eq!(networks[0].security, "WPA2");
    assert_eq!(networks[1].ssid, "OtherNet");
    assert_eq!(networks[1].signal_dbm, -72);
    assert_eq!(networks[1].security, "WPA");
}

#[test]
fn test_parse_iw_scan_dedup_keeps_strongest() {
    let output = "\
BSS aa:bb:cc:dd:ee:ff(on wlan1)
\tsignal: -80.00 dBm
\tSSID: DupNet
\tRSN:\t * Version: 1
BSS 11:22:33:44:55:66(on wlan1)
\tsignal: -50.00 dBm
\tSSID: DupNet
\tRSN:\t * Version: 1
";
    let networks = networks_of_scan(output);
    assert_eq!(networks.len(), 1);
    assert_eq!(networks[0].ssid, "DupNet");
    assert_eq!(networks[0].signal_dbm, -50);
}

#[test]
fn test_parse_iw_scan_hidden_ssid_filtered() {
    let output = "\
BSS aa:bb:cc:dd:ee:ff(on wlan1)
\tsignal: -45.00 dBm
\tSSID:
";
    let networks = networks_of_scan(output);
    assert_eq!(networks.len(), 0);
}

#[test]
fn test_parse_iw_scan_open_network() {
    let output = "\
BSS aa:bb:cc:dd:ee:ff(on wlan1)
\tsignal: -60.00 dBm
\tSSID: OpenCafe
";
    let networks = networks_of_scan(output);
    assert_eq!(networks.len(), 1);
    assert_eq!(networks[0].security, "Open");
}

#[test]
fn scan_entries_carry_what_the_output_gives() {
    let output = "\
BSS aa:bb:cc:dd:ee:ff(on wlan1)
\tsignal: -45.00 dBm
\tSSID: MyNetwork
\tRSN:\t * Version: 1
BSS 11:22:33:44:55:66(on wlan1)
\tSSID: Quiet
BSS 11:22:33:44:55:77(on wlan1)
\tsignal:   -72.5   dBm extra
\tSSID: With Spaces
\tWPA:\t * Version: 1
";
    assert_eq!(
        parse_iw_scan(output),
        vec![
            ScanEntry {
                ssid: "MyNetwork".to_string(),
                signal: Some("-45.00".to_string()),
                security: "WPA2".to_string()
            },
            ScanEntry { ssid: "Quiet".to_string(), signal: None, security: String::new() },
            ScanEntry {
                ssid: "With Spaces".to_string(),
                signal: Some("-72.5".to_string()),
                security: "WPA".to_string()
            },
        ]
    );
}

#[test]
fn scan_security_prefers_rsn_and_first_seen() {
    // WPA after RSN does not lower the security; RSN after WPA raises it.
    let output = "BSS a\n\tSSID: one\n\tRSN: x\n\tWPA: y\nBSS b\n\tSSID: two\n\tWPA: y\n\tRSN: x\n";
    let entries = parse_iw_scan(output);
    assert_eq!(entries[0].security, "WPA2");
    assert_eq!(entries[1].security, "WPA2");
}

#[test]
fn scan_state_is_reset_at_each_access_point() {
    // The signal and security of one access point do not leak into the next.
    let output = "BSS a\n\tsignal: -30.00 dBm\n\tRSN: x\n\tSSID: first\nBSS b\n\tSSID: second\n";
    let entries = parse_iw_scan(output);
    assert_eq!(entries.len(), 2);
    assert_eq!(entries[1].signal, None);
    assert_eq!(entries[1].security, "");
    let networks = networks_of_scan(output);
    assert_eq!(networks[0], net("first", -30, "WPA2"));
    assert_eq!(networks[1], net("second", -100, "Open"));
}

#[test]
fn scan_reads_lines_before_the_first_access_point_and_the_last_without_newline() {
    assert_eq!(parse_iw_scan(""), vec![]);
    let entries = parse_iw_scan("\tSSID: early\nBSS a\n\tSSID: late");
    assert_eq!(entries.len(), 2);
    assert_eq!(entries[0].ssid, "early");
    assert_eq!(entries[1].ssid, "late");
}

#[test]
fn scan_marker_must_start_the_line() {
    // An indented "BSS " does not start a new access point.
    let entries = parse_iw_scan("BSS a\n\tSSID: one\n\tBSS Load:\n\tsignal: -40.00 dBm\n");
    assert_eq!(entries.len(), 1);
    assert_eq!(entries[0].signal, Some("-40.00".to_string()));
}

#[test]
fn scan_handles_carriage_returns() {
    let entries = parse_iw_scan("BSS a\r\n\tSSID: dos\r\n\tRSN: x\r\n");
    assert_eq!(
        entries,
        vec![ScanEntry { ssid: "dos".to_string(), signal: None, security: "WPA2".to_string() }]
    );
}

#[test]
fn unreadable_signal_counts_as_the_default() {
    assert_eq!(DEFAULT_SIGNAL_DBM, -100);
    let networks = networks_of_scan("BSS a\n\tsignal: strong dBm\n\tSSID: odd\n");
    assert_eq!(networks, vec![net("odd", -100, "Open")]);
    let entry = ScanEntry { ssid: "x".to_string(), signal: None, security: "WPA".to_string() };
    assert_eq!(sighting(entry.clone(), None), net("x", -100, "WPA"));
    assert_eq!(sighting(entry, Some(-7)), net("x", -7, "WPA"));
}

#[test]
fn push_or_update_adds_new_and_keeps_strongest() {
    let mut networks = Vec::new();
    push_or_update(&mut networks, "a".to_string(), -70, "WPA2");
    push_or_update(&mut networks, "b".to_string(), -60, "");
    assert_eq!(networks, vec![net("a", -70, "WPA2"), net("b", -60, "Open")]);
    // Weaker and equal sightings change nothing.
    push_or_update(&mut networks, "a".to_string(), -80, "WPA");
    push_or_update(&mut networks, "a".to_string(), -70, "");
    assert_eq!(networks, vec![net("a", -70, "WPA2"), net("b", -60, "Open")]);
    // A stronger sighting raises the signal and keeps the security.
    push_or_update(&mut networks, "b".to_string(), -10, "WPA2");
    assert_eq!(networks, vec![net("a", -70, "WPA2"), net("b", -10, "Open")]);
}

#[test]
fn sort_is_strongest_first_and_stable() {
    let sorted = sort_strongest_first(vec![
        net("a", -70, "x"),
        net("b", -50, "x"),
        net("c", -70, "x"),
        net("d", -90, "x"),
        net("e", -50, "x"),
    ]);
    let order: Vec<&str> = sorted.iter().map(|n| n.ssid.as_str()).collect();
    assert_eq!(order, vec!["b", "e", "a", "c", "d"]);
    assert_eq!(sort_strongest_first(vec![]), vec![]);
}

#[test]
fn sort_handles_extreme_signals() {
    let sorted = sort_strongest_first(vec![
        net("min", i32::MIN, ""),
        net("max", i32::MAX, ""),
        net("zero", 0, ""),
    ]);
    let order: Vec<&str> = sorted.iter().map(|n| n.ssid.as_str()).collect();
    assert_eq!(order, vec!["max", "zero", "min"]);
}

#[test]
fn strongest_networks_merges_then_sorts() {
    let networks = strongest_networks(vec![
        net("a", -80, "WPA"),
        net("b", -60, ""),
        net("a", -40, "WPA2"),
        net("c", -60, "WPA2"),
    ]);
    assert_eq!(networks, vec![net("a", -40, "WPA"), net("b", -60, "Open"), net("c", -60, "WPA2")]);
}

#[test]
fn link_state_is_read_from_the_output() {
    assert!(link_is_up("3: wlan1: <BROADCAST,MULTICAST,UP> mtu 1500 state UP mode DEFAULT"));
    assert!(!link_is_up("3: wlan1: <BROADCAST,MULTICAST> mtu 1500 state DOWN mode DEFAULT"));
    assert!(!link_is_up(""));
    assert!(!link_is_up("state U"));
    assert!(link_is_up("state UP"));
}

#[test]
fn wifi_defaults_to_disabled() {
    assert_eq!(WifiState::default(), WifiState::Disabled);
    let status = WifiStatus::default();
    assert_eq!(status.state, WifiState::Disabled);
    assert_eq!(status.ssid, None);
    assert_eq!(status.ip, None);
    assert_eq!(status.error, None);
}

#[test]
fn recovery_counts_attempts_and_gives_up_after_five() {
    let mut recovery = Recovery::start();
    assert_eq!(recovery, Recovery { attempts: 0, backoff_secs: 30 });
    for attempt in 1..=5u32 {
        match recovery.on_interface_missing() {
            RecoveryStep::Attempt { recovery: next, save_diagnostics } => {
                assert_eq!(next.attempts, attempt);
                assert_eq!(save_diagnostics, attempt == 1);
                recovery = next.after_attempt(RecoveryOutcome::ReloadFailed);
            }
            RecoveryStep::GiveUp => panic!("gave up at attempt {}", attempt),
        }
    }
    assert_eq!(recovery.on_interface_missing(), RecoveryStep::GiveUp);
}

#[test]
fn backoff_doubles_up_to_four_minutes() {
    let mut recovery = Recovery { attempts: 1, backoff_secs: 30 };
    let mut seen = Vec::new();
    for _ in 0..5 {
        recovery = recovery.after_attempt(RecoveryOutcome::RestartFailed);
        seen.push(recovery.backoff_secs);
    }
    assert_eq!(seen, vec![60, 120, 240, 240, 240]);
    assert_eq!(recovery.attempts, 1);
    assert_eq!(recovery.after_attempt(RecoveryOutcome::Recovered), Recovery::start());
}

#[test]
fn a_present_interface_resets_a_recovery() {
    let recovering = Recovery { attempts: 3, backoff_secs: 240 };
    assert_eq!(recovering.on_interface_present(), Recovery::start());
    let idle = Recovery { attempts: 0, backoff_secs: 120 };
    assert_eq!(idle.on_interface_present(), idle);
}

#[test]
fn dns_servers_default_when_none_are_named() {
    let default = vec!["9.9.9.9".to_string(), "149.112.112.112".to_string()];
    assert_eq!(effective_dns_servers(&None), default);
    assert_eq!(effective_dns_servers(&Some(vec![])), default);
    let named = vec!["1.1.1.1".to_string(), "not an address".to_string()];
    assert_eq!(effective_dns_servers(&Some(named.clone())), named);
}

#[test]
fn resolv_conf_has_one_line_per_server() {
    assert_eq!(format_resolv_conf(&vec![]), "\n");
    assert_eq!(format_resolv_conf(&vec!["9.9.9.9".to_string()]), "nameserver 9.9.9.9\n");
    assert_eq!(
        format_resolv_conf(&vec!["9.9.9.9".to_string(), "2620:fe::fe".to_string(), "1.1.1.1".to_string()]),
        "nameserver 9.9.9.9\nnameserver 2620:fe::fe\nnameserver 1.1.1.1\n"
    );
}

#[test]
fn crash_report_has_four_sections() {
    let report = crash_report(
        "20240102_030405",
        &Ok("kernel: oops\n".to_string()),
        &Err("No such file".to_string()),
        &Ok(String::new()),
        &Ok("PID CMD\n1 init\n".to_string()),
    );
    assert_eq!(
        report,
        "WiFi module crash detected at 20240102_030405\n\n=== dmesg ===\nkernel: oops\n\n=== /proc/modules ===\n(failed: No such file)\n\n=== ip addr ===\n\n=== ps ===\nPID CMD\n1 init\n"
    );
    assert_eq!(
        crash_report_path("20240102_030405"),
        "/data/rayhunter/crash-logs/wifi-crash-20240102_030405.log"
    );
}

#[test]
fn module_paths_follow_the_kernel_version() {
    assert_eq!(
        module_paths("3.18.48\n"),
        (
            "/lib/modules/3.18.48/extra/wlan.ko".to_string(),
            "/usr/lib/modules/3.18.48/extra/wlan.ko".to_string()
        )
    );
    assert_eq!(module_paths("").0, "/lib/modules//extra/wlan.ko");
}
