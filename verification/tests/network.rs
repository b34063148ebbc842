use rayhunter::network::{
    ap_credentials, assumed_gateway, explicit_gateway, inet_address, interface_is_up,
    kernel_subnet, wifi_ssid,
};

fn some(s: &str) -> Option<String> {
    Some(s.to_string())
}

#[test]
fn credentials_are_read_from_hostapd_conf() {
    let conf = "interface=wlan0\nssid=Orbic-1234\nwpa=2\nwpa_passphrase=s3cret pass\n";
    assert_eq!(ap_credentials(conf), (some("Orbic-1234"), some("s3cret pass")));
}

#[test]
fn last_credential_line_counts() {
    let conf = "ssid=first\nwpa_passphrase=one\nssid=second\nwpa_passphrase=two";
    assert_eq!(ap_credentials(conf), (some("second"), some("two")));
}

#[test]
fn credential_lines_must_start_with_the_key() {
    assert_eq!(ap_credentials(""), (None, None));
    assert_eq!(ap_credentials(" ssid=indented\n#ssid=comment\nbssid=x\n"), (None, None));
    assert_eq!(ap_credentials("ssid=\nwpa_passphrase=\n"), (some(""), some("")));
    assert_eq!(ap_credentials("ssid=only\n"), (some("only"), None));
    assert_eq!(ap_credentials("ssid=dos\r\nwpa_passphrase=line\r\n"), (some("dos"), some("line")));
}

#[test]
fn wifi_ssid_is_the_first_set() {
    assert_eq!(wifi_ssid("password=x\nssid=home\nssid=other\n"), some("home"));
    assert_eq!(wifi_ssid("ssid=a=b"), some("a=b"));
    assert_eq!(wifi_ssid("nothing here\n"), None);
    assert_eq!(wifi_ssid(""), None);
    assert_eq!(wifi_ssid("\tssid=indented\n"), None);
}

#[test]
fn operstate_up_means_up() {
    assert!(interface_is_up("up\n"));
    assert!(interface_is_up("  up \t"));
    assert!(interface_is_up("up"));
    assert!(!interface_is_up("down\n"));
    assert!(!interface_is_up("UP"));
    assert!(!interface_is_up("up up"));
    assert!(!interface_is_up(""));
}

#[test]
fn inet_address_is_read_up_to_the_slash() {
    let output = "\
4: wlan1: <BROADCAST,MULTICAST,UP,LOWER_UP> mtu 1500 qdisc mq state UP group default qlen 3000
    link/ether aa:bb:cc:dd:ee:ff brd ff:ff:ff:ff:ff:ff
    inet 192.168.1.57/24 brd 192.168.1.255 scope global wlan1
       valid_lft forever preferred_lft forever
    inet 10.0.0.2/8 scope global secondary wlan1
    inet6 fe80::1/64 scope link
";
    assert_eq!(inet_address(output), some("192.168.1.57"));
    assert_eq!(inet_address("inet 10.1.2.3"), some("10.1.2.3"));
    assert_eq!(inet_address("inet /24"), some(""));
    assert_eq!(inet_address("    inet6 fe80::1/64 scope link\n"), None);
    assert_eq!(inet_address("inet"), None);
    assert_eq!(inet_address(""), None);
}

#[test]
fn kernel_subnet_is_the_first_word_of_the_kernel_route() {
    let output = "\
default via 192.168.1.1 metric 10
192.168.1.0/24 proto kernel scope link src 192.168.1.57
10.0.0.0/8 proto kernel scope link src 10.0.0.2
";
    assert_eq!(kernel_subnet(output), some("192.168.1.0/24"));
    assert_eq!(kernel_subnet("   172.16.0.0/12   proto kernel"), some("172.16.0.0/12"));
    assert_eq!(kernel_subnet("proto kernel"), some("proto"));
    assert_eq!(kernel_subnet("192.168.1.0/24 proto  kernel"), None);
    assert_eq!(kernel_subnet("default via 192.168.1.1"), None);
    assert_eq!(kernel_subnet(""), None);
}

#[test]
fn explicit_gateway_follows_via() {
    assert_eq!(explicit_gateway("default via 192.168.1.1 metric 10\n"), some("192.168.1.1"));
    assert_eq!(explicit_gateway("default dev wlan1\ndefault   via\t10.0.0.1\n"), some("10.0.0.1"));
    // A line that ends with "via" gives nothing, and the search goes on.
    assert_eq!(explicit_gateway("default via\ndefault via 1.2.3.4"), some("1.2.3.4"));
    // The first "via" of a line counts.
    assert_eq!(explicit_gateway("a via via b"), some("via"));
    assert_eq!(explicit_gateway("viaduct 1.2.3.4"), None);
    assert_eq!(explicit_gateway(""), None);
}

#[test]
fn gateway_is_assumed_at_dot_one() {
    assert_eq!(assumed_gateway("192.168.1.57"), some("192.168.1.1"));
    assert_eq!(assumed_gateway("10.0.0.1"), some("10.0.0.1"));
    assert_eq!(assumed_gateway("a.b"), some("a.1"));
    assert_eq!(assumed_gateway("trailing."), some("trailing.1"));
    assert_eq!(assumed_gateway(".5"), some(".1"));
    assert_eq!(assumed_gateway("nodots"), None);
    assert_eq!(assumed_gateway(""), None);
}
