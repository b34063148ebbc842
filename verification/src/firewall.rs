//! The outbound firewall: which packets may leave the device.
//!
//! The rules are handed out as argument lists for `iptables`; running them
//! is left to the caller.

use crate::text::{append_decimal, decimal};
use vstd::prelude::*;
use vstd::string::*;

verus! {

/// Where the flag lives that says that the firewall is on.
pub const FIREWALL_FLAG: &'static str = "/data/rayhunter/firewall-enabled";

/// The port that a URL names, if it names one that is not the default of
/// its scheme; `None` also for a text that is no absolute URL.
pub uninterp spec fn url_port(url: Seq<char>) -> Option<u16>;

/// The port that a URL names. Parses the text with `url::Url::parse` and, if
/// that succeeds, asks `url::Url::port` for the port, which is `None` where
/// the URL names no port or the default port of its scheme. The contract
/// only gives the result a name, as a function of the text.
#[verifier::external_body]
fn named_port(url: &str) -> (port: Option<u16>)
    ensures
        port == url_port(url@),
{
    match url::Url::parse(url) {
        Ok(parsed) => parsed.port(),
        Err(_) => None,
    }
}

/// The rule that lets TCP packets to `port` out.
pub open spec fn tcp_accept(port: u16) -> Seq<Seq<char>> {
    seq!["-A"@, "OUTPUT"@, "-p"@, "tcp"@, "--dport"@, decimal(port as nat), "-j"@, "ACCEPT"@]
}

/// The rules that come first: loopback, the bridge, answers to what came
/// in, DHCP, DNS over UDP and TCP, and HTTPS.
pub open spec fn base_rules() -> Seq<Seq<Seq<char>>> {
    seq![
        seq!["-A"@, "OUTPUT"@, "-o"@, "lo"@, "-j"@, "ACCEPT"@],
        seq!["-A"@, "OUTPUT"@, "-o"@, "bridge0"@, "-j"@, "ACCEPT"@],
        seq![
            "-A"@,
            "OUTPUT"@,
            "-m"@,
            "state"@,
            "--state"@,
            "ESTABLISHED,RELATED"@,
            "-j"@,
            "ACCEPT"@,
        ],
        seq!["-A"@, "OUTPUT"@, "-p"@, "udp"@, "--dport"@, "67:68"@, "-j"@, "ACCEPT"@],
        seq!["-A"@, "OUTPUT"@, "-p"@, "udp"@, "--dport"@, "53"@, "-j"@, "ACCEPT"@],
        seq!["-A"@, "OUTPUT"@, "-p"@, "tcp"@, "--dport"@, "53"@, "-j"@, "ACCEPT"@],
        seq!["-A"@, "OUTPUT"@, "-p"@, "tcp"@, "--dport"@, "443"@, "-j"@, "ACCEPT"@],
    ]
}

/// The rule for the notification service: its port is let out if its URL
/// names one other than 443.
pub open spec fn ntfy_rules(ntfy_port: Option<u16>) -> Seq<Seq<Seq<char>>> {
    match ntfy_port {
        Some(port) => if port != 443 {
            seq![tcp_accept(port)]
        } else {
            Seq::empty()
        },
        None => Seq::empty(),
    }
}

/// The rules for the extra ports: each is let out, in the order given.
pub open spec fn extra_rules(extra_ports: Option<Vec<u16>>) -> Seq<Seq<Seq<char>>> {
    match extra_ports {
        Some(ports) => Seq::new(ports@.len(), |i: int| tcp_accept(ports@[i])),
        None => Seq::empty(),
    }
}

/// The rules of the outbound firewall, in the order in which they are to
/// be added: the base rules, the notification service, the extra ports, and
/// last the rule that drops everything else.
pub open spec fn whitelist(extra_ports: Option<Vec<u16>>, ntfy_port: Option<u16>) -> Seq<
    Seq<Seq<char>>,
> {
    base_rules() + ntfy_rules(ntfy_port) + extra_rules(extra_ports) + seq![
        seq!["-A"@, "OUTPUT"@, "-j"@, "DROP"@],
    ]
}

/// The rules of a list, as mathematical values.
pub open spec fn rule_views(rules: Seq<Vec<String>>) -> Seq<Seq<Seq<char>>> {
    Seq::new(rules.len(), |i: int| Seq::new(rules[i]@.len(), |j: int| rules[i]@[j]@))
}

/// A rule of six words.
fn rule6(a: &str, b: &str, c: &str, d: &str, e: &str, f: &str) -> (rule: Vec<String>)
    ensures
        Seq::new(rule@.len(), |j: int| rule@[j]@) == seq![a@, b@, c@, d@, e@, f@],
{
    let mut rule: Vec<String> = Vec::new();
    rule.push(String::from_str(a));
    rule.push(String::from_str(b));
    rule.push(String::from_str(c));
    rule.push(String::from_str(d));
    rule.push(String::from_str(e));
    rule.push(String::from_str(f));
    assert(Seq::new(rule@.len(), |j: int| rule@[j]@) =~= seq![a@, b@, c@, d@, e@, f@]);
    rule
}

/// A rule of eight words that lets packets out.
fn accept8(c: &str, d: &str, e: &str, f: &str) -> (rule: Vec<String>)
    ensures
        Seq::new(rule@.len(), |j: int| rule@[j]@) == seq![
            "-A"@,
            "OUTPUT"@,
            c@,
            d@,
            e@,
            f@,
            "-j"@,
            "ACCEPT"@,
        ],
{
    let mut rule: Vec<String> = Vec::new();
    rule.push(String::from_str("-A"));
    rule.push(String::from_str("OUTPUT"));
    rule.push(String::from_str(c));
    rule.push(String::from_str(d));
    rule.push(String::from_str(e));
    rule.push(String::from_str(f));
    rule.push(String::from_str("-j"));
    rule.push(String::from_str("ACCEPT"));
    assert(Seq::new(rule@.len(), |j: int| rule@[j]@) =~= seq![
        "-A"@,
        "OUTPUT"@,
        c@,
        d@,
        e@,
        f@,
        "-j"@,
        "ACCEPT"@,
    ]);
    rule
}

/// The rule that lets TCP packets to `port` out.
fn accept_tcp(port: u16) -> (rule: Vec<String>)
    ensures
        Seq::new(rule@.len(), |j: int| rule@[j]@) == tcp_accept(port),
{
    let mut number = String::new();
    append_decimal(&mut number, port as u64);
    assert(number@ == decimal(port as nat));
    accept8("-p", "tcp", "--dport", number.as_str())
}

/// The rules of the outbound firewall, given the port of the notification
/// service if its URL names one.
pub fn whitelist_rules(extra_ports: &Option<Vec<u16>>, ntfy_port: Option<u16>) -> (rules: Vec<
    Vec<String>,
>)
    ensures
        rule_views(rules@) == whitelist(*extra_ports, ntfy_port),
{
    let mut rules: Vec<Vec<String>> = Vec::new();
    rules.push(rule6("-A", "OUTPUT", "-o", "lo", "-j", "ACCEPT"));
    rules.push(rule6("-A", "OUTPUT", "-o", "bridge0", "-j", "ACCEPT"));
    rules.push(accept8("-m", "state", "--state", "ESTABLISHED,RELATED"));
    rules.push(accept8("-p", "udp", "--dport", "67:68"));
    rules.push(accept8("-p", "udp", "--dport", "53"));
    rules.push(accept8("-p", "tcp", "--dport", "53"));
    rules.push(accept8("-p", "tcp", "--dport", "443"));
    assert(rule_views(rules@) =~= base_rules());
    match ntfy_port {
        Some(port) => {
            if port != 443 {
                rules.push(accept_tcp(port));
            }
        },
        None => {},
    }
    assert(rule_views(rules@) =~= base_rules() + ntfy_rules(ntfy_port));
    let ghost head = rule_views(rules@);
    match extra_ports {
        Some(ports) => {
            let mut i: usize = 0;
            while i < ports.len()
                invariant
                    i <= ports@.len(),
                    rule_views(rules@) == head + Seq::new(
                        i as nat,
                        |k: int| tcp_accept(ports@[k]),
                    ),
                decreases ports@.len() - i,
            {
                let ghost before = rule_views(rules@);
                let rule = accept_tcp(ports[i]);
                rules.push(rule);
                assert(rule_views(rules@) =~= before.push(tcp_accept(ports@[i as int])));
                assert(rule_views(rules@) =~= head + Seq::new(
                    (i + 1) as nat,
                    |k: int| tcp_accept(ports@[k]),
                ));
                i = i + 1;
            }
        },
        None => {
            assert(rule_views(rules@) =~= head + Seq::<Seq<Seq<char>>>::empty());
        },
    }
    assert(rule_views(rules@) == head + extra_rules(*extra_ports));
    let ghost body = rule_views(rules@);
    rules.push(rule4("-A", "OUTPUT", "-j", "DROP"));
    assert(rule_views(rules@) =~= body.push(seq!["-A"@, "OUTPUT"@, "-j"@, "DROP"@]));
    rules
}

/// A rule of four words.
fn rule4(a: &str, b: &str, c: &str, d: &str) -> (rule: Vec<String>)
    ensures
        Seq::new(rule@.len(), |j: int| rule@[j]@) == seq![a@, b@, c@, d@],
{
    let mut rule: Vec<String> = Vec::new();
    rule.push(String::from_str(a));
    rule.push(String::from_str(b));
    rule.push(String::from_str(c));
    rule.push(String::from_str(d));
    assert(Seq::new(rule@.len(), |j: int| rule@[j]@) =~= seq![a@, b@, c@, d@]);
    rule
}

/// The port of the notification service that a configuration names.
pub open spec fn configured_ntfy_port(ntfy_url: Option<String>) -> Option<u16> {
    match ntfy_url {
        Some(url) => url_port(url@),
        None => None,
    }
}

/// The rules of the outbound firewall for a configuration: DHCP, DNS and
/// HTTPS are let out, as are the port of the notification service, if its
/// URL names one, and the extra ports; everything else is dropped.
pub fn outbound_whitelist(extra_ports: &Option<Vec<u16>>, ntfy_url: &Option<String>) -> (rules:
    Vec<Vec<String>>)
    ensures
        rule_views(rules@) == whitelist(*extra_ports, configured_ntfy_port(*ntfy_url)),
{
    let ntfy_port = match ntfy_url {
        Some(url) => named_port(url.as_str()),
        None => None,
    };
    whitelist_rules(extra_ports, ntfy_port)
}

} // verus!
