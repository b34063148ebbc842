use rayhunter::wifi::{wpa_conf_update, WpaConfUpdate};
use rayhunter::{format_wpa_conf, ssid_from_wpa_conf};

#[test]
fn test_format_wpa_conf_basic() {
    let conf = format_wpa_conf("MyNetwork", "mypassword");
    assert!(conf.contains("ssid=\"MyNetwork\""));
    assert!(conf.contains("psk=\"mypassword\""));
    assert!(conf.contains("key_mgmt=WPA-PSK"));
    assert!(conf.starts_with("ctrl_interface=/var/run/wpa_supplicant\n"));
}

#[test]
fn test_format_wpa_conf_escapes_quotes() {
    let conf = format_wpa_conf("My\"Net", "pass\"word");
    assert!(conf.contains("ssid=\"My\\\"Net\""));
    assert!(conf.contains("psk=\"pass\\\"word\""));
}

#[test]
fn test_format_wpa_conf_escapes_backslashes() {
    let conf = format_wpa_conf("Net\\work", "pass\\word");
    assert!(conf.contains("ssid=\"Net\\\\work\""));
    assert!(conf.contains("psk=\"pass\\\\word\""));
}

#[test]
fn test_read_ssid_from_wpa_conf() {
    let conf = format_wpa_conf("TestSSID", "password123");
    let ssid = ssid_from_wpa_conf(&conf);
    assert_eq!(ssid, Some("TestSSID".to_string()));
}

#[test]
fn test_read_ssid_roundtrips_special_chars() {
    let conf = format_wpa_conf("My\"Net\\work", "pass");
    let ssid = ssid_from_wpa_conf(&conf);
    assert_eq!(ssid, Some("My\"Net\\work".to_string()));
}

#[test]
fn format_wpa_conf_gives_the_whole_file() {
    assert_eq!(
        format_wpa_conf("a\"b", "c\\d"),
        "ctrl_interface=/var/run/wpa_supplicant\nnetwork={\n    ssid=\"a\\\"b\"\n    psk=\"c\\\\d\"\n    key_mgmt=WPA-PSK\n}\n"
    );
    assert_eq!(
        format_wpa_conf("", ""),
        "ctrl_interface=/var/run/wpa_supplicant\nnetwork={\n    ssid=\"\"\n    psk=\"\"\n    key_mgmt=WPA-PSK\n}\n"
    );
}

#[test]
fn format_wpa_conf_keeps_other_characters() {
    let conf = format_wpa_conf("caf\u{e9} \u{1F4F6}'s", "p{}\n\t");
    assert!(conf.contains("ssid=\"caf\u{e9} \u{1F4F6}'s\""));
    assert!(conf.contains("psk=\"p{}\n\t\""));
}

#[test]
fn ssid_is_read_from_the_first_line_that_sets_one() {
    assert_eq!(ssid_from_wpa_conf(""), None);
    assert_eq!(ssid_from_wpa_conf("network={\n}\n"), None);
    assert_eq!(ssid_from_wpa_conf("ssid=\"one\"\nssid=\"two\"\n"), Some("one".to_string()));
    assert_eq!(ssid_from_wpa_conf("  \t ssid=\"padded\" \r\n"), Some("padded".to_string()));
    assert_eq!(ssid_from_wpa_conf("ssid=\"last\""), Some("last".to_string()));
    assert_eq!(ssid_from_wpa_conf("ssid=\"\""), Some(String::new()));
}

#[test]
fn lines_that_do_not_set_an_ssid_are_passed_over() {
    // No closing quote, no opening quote, or only the prefix.
    assert_eq!(ssid_from_wpa_conf("ssid=\"open\nssid=\"ok\""), Some("ok".to_string()));
    assert_eq!(ssid_from_wpa_conf("ssid=bare\n"), None);
    assert_eq!(ssid_from_wpa_conf("ssid=\""), None);
    assert_eq!(ssid_from_wpa_conf("# ssid=\"commented\"\n"), None);
    assert_eq!(ssid_from_wpa_conf("bssid=\"x\"\n"), None);
}

#[test]
fn ssid_unescaping_runs_in_two_passes() {
    // Every backslash-quote becomes a quote, then every two backslashes
    // become one.
    assert_eq!(ssid_from_wpa_conf("ssid=\"a\\\"b\""), Some("a\"b".to_string()));
    assert_eq!(ssid_from_wpa_conf("ssid=\"a\\\\b\""), Some("a\\b".to_string()));
    assert_eq!(ssid_from_wpa_conf("ssid=\"a\\b\""), Some("a\\b".to_string()));
    assert_eq!(ssid_from_wpa_conf("ssid=\"a\\\\\\b\""), Some("a\\\\b".to_string()));
    assert_eq!(ssid_from_wpa_conf("ssid=\"\\\\\\\"\""), Some("\\\"".to_string()));
}

#[test]
fn ssid_round_trips_through_the_file() {
    for ssid in ["plain", "", "\\", "\"", "\\\"", "\"\\", "a\\\\b\"\"c", " lead and trail ", "tab\there"] {
        let conf = format_wpa_conf(ssid, "secret\"\\");
        assert_eq!(ssid_from_wpa_conf(&conf), Some(ssid.to_string()), "{:?}", ssid);
    }
}

#[test]
fn conf_is_written_with_ssid_and_password() {
    let update = wpa_conf_update(&Some("TestNet".to_string()), &Some("pass123".to_string()));
    match update {
        WpaConfUpdate::Write(content) => {
            assert!(content.contains("ssid=\"TestNet\""));
            assert!(content.contains("psk=\"pass123\""));
            assert_eq!(content, format_wpa_conf("TestNet", "pass123"));
        }
        other => panic!("expected a write, got {:?}", other),
    }
}

#[test]
fn conf_is_removed_without_ssid() {
    assert_eq!(wpa_conf_update(&None, &None), WpaConfUpdate::Remove);
    assert_eq!(wpa_conf_update(&None, &Some("pass".to_string())), WpaConfUpdate::Remove);
    assert_eq!(wpa_conf_update(&Some("  \t".to_string()), &Some("pass".to_string())), WpaConfUpdate::Remove);
    assert_eq!(wpa_conf_update(&Some(String::new()), &None), WpaConfUpdate::Remove);
}

#[test]
fn conf_is_left_alone_with_ssid_but_no_password() {
    assert_eq!(wpa_conf_update(&Some("TestNet".to_string()), &None), WpaConfUpdate::Skip);
    assert_eq!(wpa_conf_update(&Some("TestNet".to_string()), &Some(" ".to_string())), WpaConfUpdate::Skip);
}

#[test]
fn test_update_wpa_conf_writes_and_removes() {
    let mut wifi_ssid = Some("TestNet".to_string());
    let mut wifi_password = Some("pass123".to_string());

    let content = match wpa_conf_update(&wifi_ssid, &wifi_password) {
        WpaConfUpdate::Write(content) => content,
        other => panic!("expected a write, got {:?}", other),
    };
    assert!(content.contains("ssid=\"TestNet\""));
    assert!(content.contains("psk=\"pass123\""));

    wifi_ssid = None;
    wifi_password = None;
    assert_eq!(wpa_conf_update(&wifi_ssid, &wifi_password), WpaConfUpdate::Remove);
}

#[test]
fn test_update_wpa_conf_ssid_without_password_is_noop() {
    let wifi_ssid = Some("TestNet".to_string());
    let wifi_password = None;
    assert_eq!(wpa_conf_update(&wifi_ssid, &wifi_password), WpaConfUpdate::Skip);
}
