use rayhunter::firewall::{outbound_whitelist, whitelist_rules};

fn rule(words: &[&str]) -> Vec<String> {
    words.iter().map(|w| w.to_string()).collect()
}

fn base() -> Vec<Vec<String>> {
    vec![
        rule(&["-A", "OUTPUT", "-o", "lo", "-j", "ACCEPT"]),
        rule(&["-A", "OUTPUT", "-o", "bridge0", "-j", "ACCEPT"]),
        rule(&["-A", "OUTPUT", "-m", "state", "--state", "ESTABLISHED,RELATED", "-j", "ACCEPT"]),
        rule(&["-A", "OUTPUT", "-p", "udp", "--dport", "67:68", "-j", "ACCEPT"]),
        rule(&["-A", "OUTPUT", "-p", "udp", "--dport", "53", "-j", "ACCEPT"]),
        rule(&["-A", "OUTPUT", "-p", "tcp", "--dport", "53", "-j", "ACCEPT"]),
        rule(&["-A", "OUTPUT", "-p", "tcp", "--dport", "443", "-j", "ACCEPT"]),
    ]
}

fn tcp(port: &str) -> Vec<String> {
    rule(&["-A", "OUTPUT", "-p", "tcp", "--dport", port, "-j", "ACCEPT"])
}

fn drop_rest() -> Vec<String> {
    rule(&["-A", "OUTPUT", "-j", "DROP"])
}

#[test]
fn base_rules_then_drop() {
    let mut expected = base();
    expected.push(drop_rest());
    assert_eq!(whitelist_rules(&None, None), expected);
    assert_eq!(whitelist_rules(&Some(vec![]), None), expected);
    assert_eq!(outbound_whitelist(&None, &None), expected);
}

#[test]
fn ntfy_port_is_let_out_unless_443() {
    let mut expected = base();
    expected.push(tcp("8080"));
    expected.push(drop_rest());
    assert_eq!(whitelist_rules(&None, Some(8080)), expected);
    let mut plain = base();
    plain.push(drop_rest());
    assert_eq!(whitelist_rules(&None, Some(443)), plain);
}

#[test]
fn extra_ports_follow_in_order() {
    let mut expected = base();
    expected.push(tcp("1"));
    expected.push(tcp("22"));
    expected.push(tcp("65535"));
    expected.push(tcp("22"));
    expected.push(tcp("0"));
    expected.push(drop_rest());
    assert_eq!(whitelist_rules(&Some(vec![22, 65535, 22, 0]), Some(1)), expected);
}

#[test]
fn ntfy_url_gives_its_port() {
    let with_port = |url: &str| outbound_whitelist(&None, &Some(url.to_string()));
    let mut plain = base();
    plain.push(drop_rest());
    let mut with_8080 = base();
    with_8080.push(tcp("8080"));
    with_8080.push(drop_rest());
    assert_eq!(with_port("https://ntfy.example.org:8080/topic"), with_8080);
    assert_eq!(with_port("http://10.0.0.5:8080"), with_8080);
    // No port, the default port of the scheme, port 443, or no URL at all.
    assert_eq!(with_port("https://ntfy.sh/topic"), plain);
    assert_eq!(with_port("https://ntfy.sh:443/topic"), plain);
    assert_eq!(with_port("http://ntfy.sh:443/topic"), plain);
    assert_eq!(with_port("not a url"), plain);
    assert_eq!(with_port(""), plain);
    // The default port of http is not named, so nothing is added for it.
    assert_eq!(with_port("http://ntfy.sh:80/topic"), plain);
}

#[test]
fn ntfy_port_comes_before_extra_ports() {
    let rules = outbound_whitelist(&Some(vec![9000]), &Some("https://n.example:2586/t".to_string()));
    let mut expected = base();
    expected.push(tcp("2586"));
    expected.push(tcp("9000"));
    expected.push(drop_rest());
    assert_eq!(rules, expected);
}
