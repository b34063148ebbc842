//! The Wi-Fi client's view of the world: its state, the networks a scan
//! found, and what to do with the client's configuration file.

use crate::text::{
    chars_of, contains, first_word, first_word_range, has_prefix, lines,
    range_contains, range_has_prefix, same_text, split_lines, string_of, trim, trim_range,
};
use crate::wpa_conf::{format_wpa_conf, wpa_conf};
use vstd::prelude::*;
use vstd::string::*;

verus! {

/// Where the configuration file of the Wi-Fi client lives.
pub const WPA_CONF_PATH: &'static str = "/data/rayhunter/wpa_sta.conf";

/// The interface of the Wi-Fi client.
pub const STA_IFACE: &'static str = "wlan1";

/// What the Wi-Fi client is doing.
#[derive(Clone, Copy, Debug, PartialEq, Eq, Structural)]
pub enum WifiState {
    Disabled,
    Connecting,
    Connected,
    Failed,
    Recovering,
}

impl Default for WifiState {
    fn default() -> (s: Self)
        ensures
            s == WifiState::Disabled,
    {
        WifiState::Disabled
    }
}

/// The state of the Wi-Fi client, with what is known of its connection.
#[derive(Clone, Debug, PartialEq, Eq)]
pub struct WifiStatus {
    pub state: WifiState,
    pub ssid: Option<String>,
    pub ip: Option<String>,
    pub error: Option<String>,
}

impl Default for WifiStatus {
    fn default() -> (s: Self)
        ensures
            s.state == WifiState::Disabled,
            s.ssid is None,
            s.ip is None,
            s.error is None,
    {
        WifiStatus { state: WifiState::Disabled, ssid: None, ip: None, error: None }
    }
}

/// A network that a scan found.
#[derive(Clone, Debug, PartialEq, Eq)]
pub struct WifiNetwork {
    pub ssid: String,
    pub signal_dbm: i32,
    pub security: String,
}

/// A network as a mathematical value.
pub struct SpecNetwork {
    pub ssid: Seq<char>,
    pub signal_dbm: int,
    pub security: Seq<char>,
}

impl View for WifiNetwork {
    type V = SpecNetwork;

    open spec fn view(&self) -> SpecNetwork {
        SpecNetwork {
            ssid: self.ssid@,
            signal_dbm: self.signal_dbm as int,
            security: self.security@,
        }
    }
}

/// The networks of a list, as mathematical values.
pub open spec fn network_views(networks: Seq<WifiNetwork>) -> Seq<SpecNetwork> {
    Seq::new(networks.len(), |i: int| networks[i]@)
}

/// The place of the first network with the given SSID, or the length of the
/// list if it holds none.
pub open spec fn position_of(networks: Seq<SpecNetwork>, ssid: Seq<char>) -> int
    decreases networks.len(),
{
    if networks.len() == 0 || networks[0].ssid == ssid {
        0
    } else {
        1 + position_of(networks.skip(1), ssid)
    }
}

/// The list after a sighting of a network: the first network with that SSID
/// keeps the stronger of its signal and the new one, and keeps its security;
/// if there is none, the sighting is added at the end, as an open network
/// when no security was seen.
pub open spec fn merged(
    networks: Seq<SpecNetwork>,
    ssid: Seq<char>,
    signal: int,
    security: Seq<char>,
) -> Seq<SpecNetwork> {
    let at = position_of(networks, ssid);
    if 0 <= at < networks.len() {
        if signal > networks[at].signal_dbm {
            networks.update(at, SpecNetwork { signal_dbm: signal, ..networks[at] })
        } else {
            networks
        }
    } else {
        networks.push(
            SpecNetwork {
                ssid,
                signal_dbm: signal,
                security: if security.len() == 0 {
                    "Open"@
                } else {
                    security
                },
            },
        )
    }
}

/// Where no network before `at` has the given SSID and the one at `at` has
/// it, or `at` is the end of the list, `at` is the position of that SSID.
pub proof fn lemma_position_found(networks: Seq<SpecNetwork>, ssid: Seq<char>, at: int)
    requires
        0 <= at <= networks.len(),
        forall|i: int| 0 <= i < at ==> networks[i].ssid != ssid,
        at < networks.len() ==> networks[at].ssid == ssid,
    ensures
        position_of(networks, ssid) == at,
    decreases networks.len(),
{
    if at > 0 {
        assert(networks[0].ssid != ssid);
        assert forall|i: int| 0 <= i < at - 1 implies networks.skip(1)[i].ssid != ssid by {
            assert(networks.skip(1)[i] == networks[i + 1]);
        }
        lemma_position_found(networks.skip(1), ssid, at - 1);
    }
}

/// Records a sighting of a network: a network already in the list keeps the
/// stronger signal, a new one is added at the end.
pub fn push_or_update(networks: &mut Vec<WifiNetwork>, ssid: String, signal: i32, security: &str)
    ensures
        network_views(final(networks)@) == merged(
            network_views(old(networks)@),
            ssid@,
            signal as int,
            security@,
        ),
{
    let ghost before = network_views(networks@);
    let mut i: usize = 0;
    while i < networks.len()
        invariant
            i <= networks.len(),
            networks@ == old(networks)@,
            before == network_views(networks@),
            forall|j: int| 0 <= j < i ==> before[j].ssid != ssid@,
        decreases networks.len() - i,
    {
        if same_text(networks[i].ssid.as_str(), ssid.as_str()) {
            proof {
                lemma_position_found(before, ssid@, i as int);
            }
            if signal > networks[i].signal_dbm {
                networks[i].signal_dbm = signal;
                assert(network_views(networks@) == before.update(
                    i as int,
                    SpecNetwork { signal_dbm: signal as int, ..before[i as int] },
                ));
            }
            return ;
        }
        i = i + 1;
    }
    proof {
        lemma_position_found(before, ssid@, before.len() as int);
        reveal_strlit("");
    }
    let shown = if chars_of(security).len() == 0 {
        String::from_str("Open")
    } else {
        String::from_str(security)
    };
    let added = WifiNetwork { ssid, signal_dbm: signal, security: shown };
    networks.push(added);
    assert(network_views(networks@) == before.push(added@));
}

/// An access point as a scan reports it: its SSID, the text of its signal
/// strength if the scan gave one, and its security, empty where the scan
/// showed none.
#[derive(Clone, Debug, PartialEq, Eq)]
pub struct ScanEntry {
    pub ssid: String,
    pub signal: Option<String>,
    pub security: String,
}

/// A scan entry as a mathematical value.
pub struct SpecScanEntry {
    pub ssid: Seq<char>,
    pub signal: Option<Seq<char>>,
    pub security: Seq<char>,
}

/// The characters of an optional string.
pub open spec fn text_view(s: Option<String>) -> Option<Seq<char>> {
    match s {
        Some(text) => Some(text@),
        None => None,
    }
}

impl View for ScanEntry {
    type V = SpecScanEntry;

    open spec fn view(&self) -> SpecScanEntry {
        SpecScanEntry { ssid: self.ssid@, signal: text_view(self.signal), security: self.security@ }
    }
}

/// The entries of a list, as mathematical values.
pub open spec fn entry_views(entries: Seq<ScanEntry>) -> Seq<SpecScanEntry> {
    Seq::new(entries.len(), |i: int| entries[i]@)
}

/// A reader of scan output between two lines: what it has seen of the access
/// point at hand, and the entries of those before it.
pub struct ScanState {
    pub ssid: Option<Seq<char>>,
    pub signal: Option<Seq<char>>,
    pub security: Seq<char>,
    pub entries: Seq<SpecScanEntry>,
}

/// The entries once the access point at hand is closed: it becomes an entry
/// if it has an SSID that is not empty.
pub open spec fn flushed(state: ScanState) -> Seq<SpecScanEntry> {
    match state.ssid {
        Some(ssid) => if ssid.len() > 0 {
            state.entries.push(
                SpecScanEntry { ssid, signal: state.signal, security: state.security },
            )
        } else {
            state.entries
        },
        None => state.entries,
    }
}

/// The reader after one more line. A line that starts with `BSS ` closes the
/// access point at hand and opens the next. Of the other lines, taken
/// without the white space around them: `SSID: ` gives the SSID, `signal: `
/// gives the signal strength as its first word, `RSN:` says WPA2, and `WPA:`
/// says WPA unless a security was seen before.
pub open spec fn scan_line(state: ScanState, line: Seq<char>) -> ScanState {
    let trimmed = trim(line);
    if has_prefix(line, "BSS "@) {
        ScanState { ssid: None, signal: None, security: Seq::empty(), entries: flushed(state) }
    } else if has_prefix(trimmed, "SSID: "@) {
        ScanState { ssid: Some(trimmed.skip("SSID: "@.len() as int)), ..state }
    } else if has_prefix(trimmed, "signal: "@) {
        match first_word(trimmed.skip("signal: "@.len() as int)) {
            Some(word) => ScanState { signal: Some(word), ..state },
            None => state,
        }
    } else if has_prefix(trimmed, "RSN:"@) {
        ScanState { security: "WPA2"@, ..state }
    } else if has_prefix(trimmed, "WPA:"@) && state.security.len() == 0 {
        ScanState { security: "WPA"@, ..state }
    } else {
        state
    }
}

/// The reader after the given lines.
pub open spec fn scan_lines(ls: Seq<Seq<char>>) -> ScanState
    decreases ls.len(),
{
    if ls.len() == 0 {
        ScanState { ssid: None, signal: None, security: Seq::empty(), entries: Seq::empty() }
    } else {
        scan_line(scan_lines(ls.drop_last()), ls.last())
    }
}

/// The access points that scan output reports, in the order of the output:
/// those with an SSID that is not empty.
pub open spec fn scan_entries(output: Seq<char>) -> Seq<SpecScanEntry> {
    flushed(scan_lines(lines(output)))
}

/// Closes the access point at hand.
fn flush(
    entries: &mut Vec<ScanEntry>,
    ssid: Option<String>,
    signal: Option<String>,
    security: String,
)
    ensures
        entry_views(final(entries)@) == flushed(
            ScanState {
                ssid: text_view(ssid),
                signal: text_view(signal),
                security: security@,
                entries: entry_views(old(entries)@),
            },
        ),
{
    let ghost before = entry_views(entries@);
    match ssid {
        Some(name) => {
            if chars_of(name.as_str()).len() > 0 {
                let entry = ScanEntry { ssid: name, signal, security };
                entries.push(entry);
                assert(entry_views(entries@) == before.push(entry@));
            }
        },
        None => {},
    }
}

/// Reads the output of a scan: the access points with an SSID that is not
/// empty, in the order of the output, each with the text of its signal
/// strength and its security as the output gives them.
pub fn parse_iw_scan(output: &str) -> (entries: Vec<ScanEntry>)
    ensures
        entry_views(entries@) == scan_entries(output@),
{
    proof {
        reveal_strlit("SSID: ");
        reveal_strlit("signal: ");
        reveal_strlit("");
    }
    let v = chars_of(output);
    let bounds = split_lines(&v);
    let ghost ls = lines(v@);
    let mut entries: Vec<ScanEntry> = Vec::new();
    let mut current_ssid: Option<String> = None;
    let mut current_signal: Option<String> = None;
    let mut current_security: String = String::new();
    let mut i: usize = 0;
    assert(ls.take(0) == Seq::<Seq<char>>::empty());
    assert(entry_views(entries@) == Seq::<SpecScanEntry>::empty());
    while i < bounds.len()
        invariant
            i <= bounds@.len(),
            v@ == output@,
            ls == lines(v@),
            bounds@.len() == ls.len(),
            forall|k: int|
                0 <= k < bounds@.len() ==> (#[trigger] bounds@[k]).0 <= bounds@[k].1 <= v@.len()
                    && v@.subrange(bounds@[k].0 as int, bounds@[k].1 as int) == ls[k],
            "SSID: "@.len() == 6,
            "signal: "@.len() == 8,
            scan_lines(ls.take(i as int)) == (ScanState {
                ssid: text_view(current_ssid),
                signal: text_view(current_signal),
                security: current_security@,
                entries: entry_views(entries@),
            }),
        decreases bounds@.len() - i,
    {
        let (from, to) = bounds[i];
        let ghost line = ls[i as int];
        proof {
            assert(ls.take(i + 1).drop_last() == ls.take(i as int));
            assert(ls.take(i + 1).last() == line);
        }
        let (a, b) = trim_range(&v, from, to);
        let ghost trimmed = v@.subrange(a as int, b as int);
        if range_has_prefix(&v, from, to, "BSS ") {
            flush(&mut entries, current_ssid, current_signal, current_security);
            current_ssid = None;
            current_signal = None;
            current_security = String::new();
        } else if range_has_prefix(&v, a, b, "SSID: ") {
            assert(trimmed.skip(6) == v@.subrange(a + 6, b as int));
            current_ssid = Some(string_of(&v, a + 6, b));
        } else if range_has_prefix(&v, a, b, "signal: ") {
            assert(trimmed.skip(8) == v@.subrange(a + 8, b as int));
            match first_word_range(&v, a + 8, b) {
                Some((wa, wb)) => {
                    current_signal = Some(string_of(&v, wa, wb));
                },
                None => {},
            }
        } else if range_has_prefix(&v, a, b, "RSN:") {
            current_security = String::from_str("WPA2");
        } else if range_has_prefix(&v, a, b, "WPA:") && chars_of(current_security.as_str()).len()
            == 0 {
            current_security = String::from_str("WPA");
        }
        i = i + 1;
    }
    assert(ls.take(ls.len() as int) == ls);
    flush(&mut entries, current_ssid, current_signal, current_security);
    entries
}

/// A list with `network` put in by signal strength: behind every network
/// that is at least as strong, before the first that is weaker.
pub open spec fn inserted(sorted: Seq<SpecNetwork>, network: SpecNetwork) -> Seq<SpecNetwork>
    decreases sorted.len(),
{
    if sorted.len() == 0 {
        seq![network]
    } else if sorted[0].signal_dbm < network.signal_dbm {
        seq![network] + sorted
    } else {
        seq![sorted[0]] + inserted(sorted.skip(1), network)
    }
}

/// A list ordered by signal strength, strongest first; networks of equal
/// strength keep the order they had.
pub open spec fn strongest_first(networks: Seq<SpecNetwork>) -> Seq<SpecNetwork>
    decreases networks.len(),
{
    if networks.len() == 0 {
        Seq::empty()
    } else {
        inserted(strongest_first(networks.drop_last()), networks.last())
    }
}

/// Whether a list is ordered by signal strength, strongest first.
pub open spec fn is_strongest_first(networks: Seq<SpecNetwork>) -> bool {
    forall|i: int, j: int|
        0 <= i < j < networks.len() ==> networks[i].signal_dbm >= networks[j].signal_dbm
}

/// Putting a network into an ordered list keeps the list ordered, adds
/// that network and loses none.
pub proof fn lemma_inserted(sorted: Seq<SpecNetwork>, network: SpecNetwork)
    requires
        is_strongest_first(sorted),
    ensures
        is_strongest_first(inserted(sorted, network)),
        inserted(sorted, network).to_multiset() == sorted.to_multiset().insert(network),
        inserted(sorted, network).len() == sorted.len() + 1,
    decreases sorted.len(),
{
    broadcast use vstd::seq_lib::group_to_multiset_ensures;

    if sorted.len() == 0 {
        assert(sorted.to_multiset() =~= vstd::multiset::Multiset::<SpecNetwork>::empty());
        assert(seq![network] =~= Seq::<SpecNetwork>::empty().push(network));
    } else if sorted[0].signal_dbm < network.signal_dbm {
        let out = seq![network] + sorted;
        assert(out =~= sorted.insert(0, network));
        vstd::seq_lib::to_multiset_insert(sorted, 0, network);
        assert forall|i: int, j: int| 0 <= i < j < out.len() implies out[i].signal_dbm
            >= out[j].signal_dbm by {
            if i == 0 {
                assert(out[j] == sorted[j - 1]);
                assert(sorted[0].signal_dbm >= sorted[j - 1].signal_dbm);
            } else {
                assert(out[i] == sorted[i - 1]);
                assert(out[j] == sorted[j - 1]);
            }
        }
    } else {
        let rest = sorted.skip(1);
        assert forall|i: int, j: int| 0 <= i < j < rest.len() implies rest[i].signal_dbm
            >= rest[j].signal_dbm by {
            assert(rest[i] == sorted[i + 1]);
            assert(rest[j] == sorted[j + 1]);
        }
        lemma_inserted(rest, network);
        let tail = inserted(rest, network);
        let out = seq![sorted[0]] + tail;
        assert(out =~= tail.insert(0, sorted[0]));
        vstd::seq_lib::to_multiset_insert(tail, 0, sorted[0]);
        assert(sorted =~= rest.insert(0, sorted[0]));
        vstd::seq_lib::to_multiset_insert(rest, 0, sorted[0]);
        assert(out.to_multiset() =~= sorted.to_multiset().insert(network));
        assert forall|i: int, j: int| 0 <= i < j < out.len() implies out[i].signal_dbm
            >= out[j].signal_dbm by {
            if i == 0 {
                assert(out[j] == tail[j - 1]);
                assert(tail.to_multiset().count(tail[j - 1]) > 0);
                assert(rest.to_multiset().insert(network).count(tail[j - 1]) > 0);
                if tail[j - 1] != network {
                    assert(rest.to_multiset().count(tail[j - 1]) > 0);
                    let k = choose|k: int| 0 <= k < rest.len() && rest[k] == tail[j - 1];
                    assert(rest[k] == sorted[k + 1]);
                }
            } else {
                assert(out[i] == tail[i - 1]);
                assert(out[j] == tail[j - 1]);
            }
        }
    }
}

/// Ordering a list by signal strength gives the same networks, ordered.
pub proof fn lemma_strongest_first(networks: Seq<SpecNetwork>)
    ensures
        is_strongest_first(strongest_first(networks)),
        strongest_first(networks).to_multiset() == networks.to_multiset(),
        strongest_first(networks).len() == networks.len(),
    decreases networks.len(),
{
    broadcast use vstd::seq_lib::group_to_multiset_ensures;

    if networks.len() == 0 {
    } else {
        lemma_strongest_first(networks.drop_last());
        lemma_inserted(strongest_first(networks.drop_last()), networks.last());
        assert(networks =~= networks.drop_last().push(networks.last()));
    }
}

/// The signal strength that a network gets when the scan gave none that
/// could be read.
pub const DEFAULT_SIGNAL_DBM: i32 = -100;

/// The networks that a run of sightings leaves: each sighting recorded in
/// turn.
pub open spec fn merged_all(sightings: Seq<SpecNetwork>) -> Seq<SpecNetwork>
    decreases sightings.len(),
{
    if sightings.len() == 0 {
        Seq::empty()
    } else {
        merged(
            merged_all(sightings.drop_last()),
            sightings.last().ssid,
            sightings.last().signal_dbm,
            sightings.last().security,
        )
    }
}

/// The sighting of an access point, given its signal strength as a number
/// where the scan's text could be read as one.
pub fn sighting(entry: ScanEntry, signal_dbm: Option<i32>) -> (seen: WifiNetwork)
    ensures
        seen@ == (SpecNetwork {
            ssid: entry.ssid@,
            signal_dbm: match signal_dbm {
                Some(dbm) => dbm as int,
                None => DEFAULT_SIGNAL_DBM as int,
            },
            security: entry.security@,
        }),
{
    let dbm = match signal_dbm {
        Some(dbm) => dbm,
        None => DEFAULT_SIGNAL_DBM,
    };
    WifiNetwork { ssid: entry.ssid, signal_dbm: dbm, security: entry.security }
}

/// Where every network before `at` is at least as strong as `network` and
/// the one at `at` is weaker, or `at` is the end of the list, the network
/// goes in at `at`.
pub proof fn lemma_inserted_at(sorted: Seq<SpecNetwork>, network: SpecNetwork, at: int)
    requires
        0 <= at <= sorted.len(),
        forall|j: int| 0 <= j < at ==> sorted[j].signal_dbm >= network.signal_dbm,
        at < sorted.len() ==> sorted[at].signal_dbm < network.signal_dbm,
    ensures
        inserted(sorted, network) == sorted.insert(at, network),
    decreases sorted.len(),
{
    if sorted.len() == 0 {
        assert(sorted.insert(at, network) =~= seq![network]);
    } else if at == 0 {
        assert(sorted.insert(0, network) =~= seq![network] + sorted);
    } else {
        assert(sorted[0].signal_dbm >= network.signal_dbm);
        let rest = sorted.skip(1);
        assert forall|j: int| 0 <= j < at - 1 implies rest[j].signal_dbm
            >= network.signal_dbm by {
            assert(rest[j] == sorted[j + 1]);
        }
        if at < sorted.len() {
            assert(rest[at - 1] == sorted[at]);
        }
        lemma_inserted_at(rest, network, at - 1);
        assert(sorted.insert(at, network) =~= seq![sorted[0]] + rest.insert(at - 1, network));
    }
}

/// Orders networks by signal strength, strongest first; networks of equal
/// strength keep the order they had.
pub fn sort_strongest_first(networks: Vec<WifiNetwork>) -> (sorted: Vec<WifiNetwork>)
    ensures
        network_views(sorted@) == strongest_first(network_views(networks@)),
        is_strongest_first(network_views(sorted@)),
        sorted@.len() == networks@.len(),
{
    let ghost all = network_views(networks@);
    let mut sorted: Vec<WifiNetwork> = Vec::new();
    assert(all.take(0) == Seq::<SpecNetwork>::empty());
    assert(network_views(sorted@) == Seq::<SpecNetwork>::empty());
    for network in it: networks
        invariant
            it.seq() == networks@,
            all == network_views(networks@),
            network_views(sorted@) == strongest_first(all.take(it.index())),
    {
        let ghost k = it.index();
        let ghost before = network_views(sorted@);
        let mut at: usize = 0;
        while at < sorted.len() && sorted[at].signal_dbm >= network.signal_dbm
            invariant
                at <= sorted.len(),
                before == network_views(sorted@),
                forall|j: int| 0 <= j < at ==> before[j].signal_dbm >= network.signal_dbm,
            decreases sorted.len() - at,
        {
            at = at + 1;
        }
        proof {
            lemma_inserted_at(before, network@, at as int);
            assert(all.take(k + 1).drop_last() == all.take(k));
            assert(all.take(k + 1).last() == network@);
        }
        sorted.insert(at, network);
        assert(network_views(sorted@) == before.insert(at as int, network@));
    }
    proof {
        assert(all.take(all.len() as int) == all);
        lemma_strongest_first(all);
    }
    sorted
}

/// The networks that a run of sightings shows, strongest first: one network
/// for each SSID, with the strongest signal it was seen with and the
/// security it was first seen with.
pub fn strongest_networks(sightings: Vec<WifiNetwork>) -> (networks: Vec<WifiNetwork>)
    ensures
        network_views(networks@) == strongest_first(merged_all(network_views(sightings@))),
{
    let ghost all = network_views(sightings@);
    let mut found: Vec<WifiNetwork> = Vec::new();
    assert(all.take(0) == Seq::<SpecNetwork>::empty());
    assert(network_views(found@) == Seq::<SpecNetwork>::empty());
    for seen in it: sightings
        invariant
            it.seq() == sightings@,
            all == network_views(sightings@),
            network_views(found@) == merged_all(all.take(it.index())),
    {
        let ghost k = it.index();
        proof {
            assert(all.take(k + 1).drop_last() == all.take(k));
            assert(all.take(k + 1).last() == seen@);
        }
        let WifiNetwork { ssid, signal_dbm, security } = seen;
        push_or_update(&mut found, ssid, signal_dbm, security.as_str());
    }
    assert(all.take(all.len() as int) == all);
    sort_strongest_first(found)
}

/// Says whether the output of `ip link show` reports the interface as up.
pub fn link_is_up(link_output: &str) -> (up: bool)
    ensures
        up == contains(link_output@, "state UP"@),
{
    let v = chars_of(link_output);
    assert(v@.subrange(0, v@.len() as int) == v@);
    range_contains(&v, 0, v.len(), "state UP")
}

/// What to do with the configuration file of the Wi-Fi client.
#[derive(Clone, Debug, PartialEq, Eq)]
pub enum WpaConfUpdate {
    /// Write the file with this content.
    Write(String),
    /// Remove the file.
    Remove,
    /// Leave the file as it is: an SSID is set without a password.
    Skip,
}

/// Whether a setting is given: it is there and holds more than white space.
pub open spec fn is_given(setting: Option<String>) -> bool {
    setting matches Some(text) && trim(text@).len() > 0
}

/// Whether `update` is what the two settings call for.
pub open spec fn is_update_for(
    wifi_ssid: Option<String>,
    wifi_password: Option<String>,
    update: WpaConfUpdate,
) -> bool {
    if is_given(wifi_ssid) && is_given(wifi_password) {
        update matches WpaConfUpdate::Write(conf) && conf@ == wpa_conf(
            wifi_ssid->0@,
            wifi_password->0@,
        )
    } else if !is_given(wifi_ssid) {
        update is Remove
    } else {
        update is Skip
    }
}

/// Says whether a setting is given.
fn given(setting: &Option<String>) -> (b: bool)
    ensures
        b == is_given(*setting),
{
    match setting {
        Some(text) => {
            let v = chars_of(text.as_str());
            assert(v@.subrange(0, v@.len() as int) == v@);
            let (a, b) = trim_range(&v, 0, v.len());
            b > a
        },
        None => false,
    }
}

/// Decides what to do with the configuration file: with an SSID and a
/// password it is written, without an SSID it is removed, and with an SSID
/// alone it is left as it is.
pub fn wpa_conf_update(wifi_ssid: &Option<String>, wifi_password: &Option<String>) -> (update:
    WpaConfUpdate)
    ensures
        is_update_for(*wifi_ssid, *wifi_password, update),
{
    let has_ssid = given(wifi_ssid);
    let has_password = given(wifi_password);
    if has_ssid && has_password {
        match (wifi_ssid, wifi_password) {
            (Some(ssid), Some(password)) => WpaConfUpdate::Write(
                format_wpa_conf(ssid.as_str(), password.as_str()),
            ),
            _ => WpaConfUpdate::Skip,
        }
    } else if !has_ssid {
        WpaConfUpdate::Remove
    } else {
        WpaConfUpdate::Skip
    }
}

/// How many times in a row a recovery of the Wi-Fi module is tried.
pub const MAX_RECOVERY_ATTEMPTS: u32 = 5;

/// The time between two looks at the interface while all is well, in
/// seconds.
pub const BASE_BACKOFF_SECS: u64 = 30;

/// The longest time between two looks at the interface, in seconds.
pub const MAX_BACKOFF_SECS: u64 = 240;

/// Where the client stands with recovering from a crash of the Wi-Fi
/// module: how many recoveries it has tried in a row, and how long it waits
/// before it looks at the interface again.
#[derive(Clone, Copy, Debug, PartialEq, Eq, Structural)]
pub struct Recovery {
    pub attempts: u32,
    pub backoff_secs: u64,
}

/// What to do when the interface has disappeared.
#[derive(Clone, Copy, Debug, PartialEq, Eq, Structural)]
pub enum RecoveryStep {
    /// Too many recoveries failed in a row: stop the client for good.
    GiveUp,
    /// Try to recover. Crash diagnostics are saved on the first attempt of a
    /// row only.
    Attempt { recovery: Recovery, save_diagnostics: bool },
}

/// How an attempt to recover ended.
#[derive(Clone, Copy, Debug, PartialEq, Eq, Structural)]
pub enum RecoveryOutcome {
    /// The module could not be reloaded.
    ReloadFailed,
    /// The module was reloaded and the client did not start.
    RestartFailed,
    /// The client is connected again.
    Recovered,
}

impl Recovery {
    /// The backoff is between its base and its maximum.
    pub open spec fn wf(self) -> bool {
        BASE_BACKOFF_SECS <= self.backoff_secs <= MAX_BACKOFF_SECS
    }

    /// The state while all is well.
    pub open spec fn spec_start() -> Recovery {
        Recovery { attempts: 0, backoff_secs: BASE_BACKOFF_SECS }
    }

    /// What to do when the interface has disappeared: give up after the
    /// maximum number of attempts in a row, else count one more attempt.
    pub open spec fn spec_on_interface_missing(self) -> RecoveryStep {
        if self.attempts >= MAX_RECOVERY_ATTEMPTS {
            RecoveryStep::GiveUp
        } else {
            RecoveryStep::Attempt {
                recovery: Recovery { attempts: (self.attempts + 1) as u32, ..self },
                save_diagnostics: self.attempts == 0,
            }
        }
    }

    /// The state after an attempt: back to the start after a recovery, else
    /// with the backoff doubled, up to its maximum.
    pub open spec fn spec_after_attempt(self, outcome: RecoveryOutcome) -> Recovery {
        match outcome {
            RecoveryOutcome::Recovered => Self::spec_start(),
            _ => Recovery {
                backoff_secs: if self.backoff_secs * 2 < MAX_BACKOFF_SECS {
                    (self.backoff_secs * 2) as u64
                } else {
                    MAX_BACKOFF_SECS
                },
                ..self
            },
        }
    }

    /// The state after a look that found the interface in place: back to
    /// the start if recoveries were counted.
    pub open spec fn spec_on_interface_present(self) -> Recovery {
        if self.attempts > 0 {
            Self::spec_start()
        } else {
            self
        }
    }

    /// The state while all is well.
    pub fn start() -> (r: Recovery)
        ensures
            r == Self::spec_start(),
            r.wf(),
    {
        Recovery { attempts: 0, backoff_secs: BASE_BACKOFF_SECS }
    }

    /// Says what to do when the interface has disappeared.
    pub fn on_interface_missing(self) -> (step: RecoveryStep)
        ensures
            step == self.spec_on_interface_missing(),
    {
        if self.attempts >= MAX_RECOVERY_ATTEMPTS {
            RecoveryStep::GiveUp
        } else {
            RecoveryStep::Attempt {
                recovery: Recovery { attempts: self.attempts + 1, backoff_secs: self.backoff_secs },
                save_diagnostics: self.attempts == 0,
            }
        }
    }

    /// The state after an attempt to recover.
    pub fn after_attempt(self, outcome: RecoveryOutcome) -> (r: Recovery)
        requires
            self.wf(),
        ensures
            r == self.spec_after_attempt(outcome),
            r.wf(),
    {
        match outcome {
            RecoveryOutcome::Recovered => Recovery::start(),
            _ => {
                let doubled = self.backoff_secs * 2;
                Recovery {
                    attempts: self.attempts,
                    backoff_secs: if doubled < MAX_BACKOFF_SECS {
                        doubled
                    } else {
                        MAX_BACKOFF_SECS
                    },
                }
            },
        }
    }

    /// The state after a look that found the interface in place.
    pub fn on_interface_present(self) -> (r: Recovery)
        ensures
            r == self.spec_on_interface_present(),
            self.wf() ==> r.wf(),
    {
        if self.attempts > 0 {
            Recovery::start()
        } else {
            self
        }
    }
}

/// The name servers to use when the configuration names none.
pub open spec fn default_dns() -> Seq<Seq<char>> {
    seq!["9.9.9.9"@, "149.112.112.112"@]
}

/// The texts of a list of strings.
pub open spec fn texts(list: Seq<String>) -> Seq<Seq<char>> {
    Seq::new(list.len(), |i: int| list[i]@)
}

/// The name servers to use: those of the configuration if it names any,
/// else the default ones.
pub open spec fn dns_servers_for(configured: Option<Vec<String>>) -> Seq<Seq<char>> {
    match configured {
        Some(servers) => if servers@.len() > 0 {
            texts(servers@)
        } else {
            default_dns()
        },
        None => default_dns(),
    }
}

/// Says which name servers to use.
pub fn effective_dns_servers(configured: &Option<Vec<String>>) -> (servers: Vec<String>)
    ensures
        texts(servers@) == dns_servers_for(*configured),
{
    match configured {
        Some(list) => {
            if list.len() > 0 {
                let mut servers: Vec<String> = Vec::new();
                let mut i: usize = 0;
                while i < list.len()
                    invariant
                        i <= list@.len(),
                        texts(servers@) == texts(list@).take(i as int),
                    decreases list@.len() - i,
                {
                    let ghost before = texts(servers@);
                    servers.push(list[i].clone());
                    assert(texts(servers@) == before.push(list@[i as int]@));
                    i = i + 1;
                }
                assert(texts(list@).take(list@.len() as int) == texts(list@));
                return servers;
            }
        },
        None => {},
    }
    let mut servers: Vec<String> = Vec::new();
    servers.push(String::from_str("9.9.9.9"));
    servers.push(String::from_str("149.112.112.112"));
    assert(texts(servers@) == default_dns());
    servers
}

/// The content of the resolver's configuration for the given name servers:
/// one `nameserver` line for each, in order.
pub open spec fn resolv_conf(servers: Seq<Seq<char>>) -> Seq<char>
    decreases servers.len(),
{
    if servers.len() == 0 {
        "\n"@
    } else if servers.len() == 1 {
        "nameserver "@ + servers[0] + "\n"@
    } else {
        "nameserver "@ + servers[0] + "\n"@ + resolv_conf(servers.skip(1))
    }
}

/// Writes the content of the resolver's configuration for the given name
/// servers.
pub fn format_resolv_conf(servers: &Vec<String>) -> (conf: String)
    ensures
        conf@ == resolv_conf(texts(servers@)),
{
    let ghost all = texts(servers@);
    let mut conf = String::new();
    if servers.len() == 0 {
        conf.append("\n");
        return conf;
    }
    let mut i: usize = 0;
    assert(all.skip(0) == all);
    while i < servers.len()
        invariant
            i <= servers@.len(),
            servers@.len() > 0,
            all == texts(servers@),
            i < servers@.len() ==> resolv_conf(all) == conf@ + resolv_conf(all.skip(i as int)),
            i == servers@.len() ==> resolv_conf(all) == conf@,
        decreases servers@.len() - i,
    {
        let ghost before = conf@;
        let ghost rest = all.skip(i as int);
        assert(rest[0] == servers@[i as int]@);
        conf.append("nameserver ");
        conf.append(servers[i].as_str());
        conf.append("\n");
        proof {
            let line = "nameserver "@ + rest[0] + "\n"@;
            assert(conf@ == before + line);
            if i + 1 < servers.len() {
                assert(rest.skip(1) == all.skip(i + 1));
                assert(before + (line + resolv_conf(rest.skip(1))) == (before + line)
                    + resolv_conf(rest.skip(1)));
            }
        }
        i = i + 1;
    }
    conf
}

/// Where crash reports are kept.
pub const CRASH_LOG_DIR: &'static str = "/data/rayhunter/crash-logs";

/// What a command or file gave for a crash report: its output, or what went
/// wrong.
pub open spec fn section_text(outcome: Result<String, String>) -> Seq<char> {
    match outcome {
        Ok(output) => output@,
        Err(error) => "(failed: "@ + error@ + ")\n"@,
    }
}

/// The report of a crash of the Wi-Fi module: when it was noticed, and what
/// the kernel log, the module list, the addresses and the process list said
/// at that time.
pub open spec fn crash_report_text(
    timestamp: Seq<char>,
    dmesg: Result<String, String>,
    modules: Result<String, String>,
    ip_addr: Result<String, String>,
    ps: Result<String, String>,
) -> Seq<char> {
    "WiFi module crash detected at "@ + timestamp + "\n\n"@ + "=== dmesg ===\n"@ + section_text(
        dmesg,
    ) + "\n=== /proc/modules ===\n"@ + section_text(modules) + "\n=== ip addr ===\n"@
        + section_text(ip_addr) + "\n=== ps ===\n"@ + section_text(ps)
}

/// Appends what a command or file gave.
fn append_section(report: &mut String, outcome: &Result<String, String>)
    ensures
        final(report)@ == old(report)@ + section_text(*outcome),
{
    match outcome {
        Ok(output) => report.append(output.as_str()),
        Err(error) => {
            report.append("(failed: ");
            report.append(error.as_str());
            report.append(")\n");
            assert(report@ == old(report)@ + ("(failed: "@ + error@ + ")\n"@));
        },
    }
}

/// Writes the report of a crash of the Wi-Fi module.
pub fn crash_report(
    timestamp: &str,
    dmesg: &Result<String, String>,
    modules: &Result<String, String>,
    ip_addr: &Result<String, String>,
    ps: &Result<String, String>,
) -> (report: String)
    ensures
        report@ == crash_report_text(timestamp@, *dmesg, *modules, *ip_addr, *ps),
{
    let mut report = String::from_str("WiFi module crash detected at ");
    report.append(timestamp);
    report.append("\n\n");
    report.append("=== dmesg ===\n");
    append_section(&mut report, dmesg);
    report.append("\n=== /proc/modules ===\n");
    append_section(&mut report, modules);
    report.append("\n=== ip addr ===\n");
    append_section(&mut report, ip_addr);
    report.append("\n=== ps ===\n");
    append_section(&mut report, ps);
    report
}

/// The path of the report of a crash noticed at the given time.
pub fn crash_report_path(timestamp: &str) -> (path: String)
    ensures
        path@ == CRASH_LOG_DIR@ + "/wifi-crash-"@ + timestamp@ + ".log"@,
{
    let mut path = String::from_str(CRASH_LOG_DIR);
    path.append("/wifi-crash-");
    path.append(timestamp);
    path.append(".log");
    path
}

/// The two places where the Wi-Fi module of a kernel may lie, in the order
/// in which they are looked at, given what `uname -r` printed.
pub fn module_paths(uname_output: &str) -> (paths: (String, String))
    ensures
        paths.0@ == "/lib/modules/"@ + trim(uname_output@) + "/extra/wlan.ko"@,
        paths.1@ == "/usr/lib/modules/"@ + trim(uname_output@) + "/extra/wlan.ko"@,
{
    let v = chars_of(uname_output);
    assert(v@.subrange(0, v@.len() as int) == v@);
    let (a, b) = trim_range(&v, 0, v.len());
    let kver = string_of(&v, a, b);
    let mut first = String::from_str("/lib/modules/");
    first.append(kver.as_str());
    first.append("/extra/wlan.ko");
    let mut second = String::from_str("/usr/lib/modules/");
    second.append(kver.as_str());
    second.append("/extra/wlan.ko");
    (first, second)
}

} // verus!
