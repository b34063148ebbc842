//! Reading what the system's network tools and files say: access point
//! credentials, the state of an interface, its address, subnet and gateway.

use crate::text::{
    chars_of, contains, first_match, first_word, first_word_range, has_prefix, last_match, lines,
    range_contains, range_equals, range_has_prefix, split_lines, split_words, string_of, trim,
    trim_range, words,
};
use vstd::prelude::*;
use vstd::string::*;

verus! {

/// What follows `prefix` in `line`, if the line starts with it.
pub open spec fn after_prefix(line: Seq<char>, prefix: Seq<char>) -> Option<Seq<char>> {
    if has_prefix(line, prefix) {
        Some(line.skip(prefix.len() as int))
    } else {
        None
    }
}

/// The place of the first `c` in `s`, or the length of `s` if it holds none.
pub open spec fn first_position(s: Seq<char>, c: char) -> int
    decreases s.len(),
{
    if s.len() == 0 || s[0] == c {
        0
    } else {
        1 + first_position(s.skip(1), c)
    }
}

/// The place of the last `c` in `s`, or -1 if it holds none.
pub open spec fn last_position(s: Seq<char>, c: char) -> int
    decreases s.len(),
{
    if s.len() == 0 {
        -1
    } else if s.last() == c {
        s.len() - 1
    } else {
        last_position(s.drop_last(), c)
    }
}

/// The SSID that a line sets: what follows `ssid=`.
pub open spec fn ssid_setting() -> spec_fn(Seq<char>) -> Option<Seq<char>> {
    |line: Seq<char>| after_prefix(line, "ssid="@)
}

/// The passphrase that a line sets: what follows `wpa_passphrase=`.
pub open spec fn passphrase_setting() -> spec_fn(Seq<char>) -> Option<Seq<char>> {
    |line: Seq<char>| after_prefix(line, "wpa_passphrase="@)
}

/// The address that a line of `ip addr` reports: in a line that, without
/// the white space around it, starts with `inet `, what follows up to the
/// first slash.
pub open spec fn inet_of_line() -> spec_fn(Seq<char>) -> Option<Seq<char>> {
    |line: Seq<char>|
        match after_prefix(trim(line), "inet "@) {
            Some(rest) => Some(rest.take(first_position(rest, '/'))),
            None => None,
        }
}

/// The subnet that a line of `ip route` reports: the first word of a line
/// that holds `proto kernel`.
pub open spec fn subnet_of_line() -> spec_fn(Seq<char>) -> Option<Seq<char>> {
    |line: Seq<char>|
        if contains(line, "proto kernel"@) {
            first_word(line)
        } else {
            None
        }
}

/// The word that follows the first `key` among `ws`, if one follows.
pub open spec fn word_after(ws: Seq<Seq<char>>, key: Seq<char>) -> Option<Seq<char>>
    decreases ws.len(),
{
    if ws.len() == 0 {
        None
    } else if ws[0] == key {
        if ws.len() >= 2 {
            Some(ws[1])
        } else {
            None
        }
    } else {
        word_after(ws.skip(1), key)
    }
}

/// The gateway that a line of `ip route` reports: the word that follows its
/// first `via`.
pub open spec fn gateway_of_line() -> spec_fn(Seq<char>) -> Option<Seq<char>> {
    |line: Seq<char>| word_after(words(line), "via"@)
}

/// The characters of an optional string.
pub open spec fn text_of(s: Option<String>) -> Option<Seq<char>> {
    match s {
        Some(text) => Some(text@),
        None => None,
    }
}

/// What follows `prefix` in the line `v[from..to]`, if the line starts with
/// it.
fn range_after_prefix(v: &Vec<char>, from: usize, to: usize, prefix: &str) -> (rest: Option<
    String,
>)
    requires
        from <= to <= v.len(),
    ensures
        text_of(rest) == after_prefix(v@.subrange(from as int, to as int), prefix@),
{
    if range_has_prefix(v, from, to, prefix) {
        let n = chars_of(prefix).len();
        assert(v@.subrange(from as int, to as int).skip(n as int) == v@.subrange(
            from + n,
            to as int,
        ));
        Some(string_of(v, from + n, to))
    } else {
        None
    }
}

/// Reads the credentials of the access point from the content of its
/// configuration file: the SSID and the passphrase that the file sets. Where
/// several lines set one, the last counts.
pub fn ap_credentials(contents: &str) -> (credentials: (Option<String>, Option<String>))
    ensures
        text_of(credentials.0) == last_match(lines(contents@), ssid_setting()),
        text_of(credentials.1) == last_match(lines(contents@), passphrase_setting()),
{
    let v = chars_of(contents);
    let bounds = split_lines(&v);
    let ghost ls = lines(v@);
    let mut ssid: Option<String> = None;
    let mut password: Option<String> = None;
    let mut i: usize = 0;
    assert(ls.take(0) == Seq::<Seq<char>>::empty());
    while i < bounds.len()
        invariant
            i <= bounds@.len(),
            v@ == contents@,
            ls == lines(v@),
            bounds@.len() == ls.len(),
            forall|k: int|
                0 <= k < bounds@.len() ==> (#[trigger] bounds@[k]).0 <= bounds@[k].1 <= v@.len()
                    && v@.subrange(bounds@[k].0 as int, bounds@[k].1 as int) == ls[k],
            text_of(ssid) == last_match(ls.take(i as int), ssid_setting()),
            text_of(password) == last_match(ls.take(i as int), passphrase_setting()),
        decreases bounds@.len() - i,
    {
        let (from, to) = bounds[i];
        proof {
            assert(ls.take(i + 1).drop_last() == ls.take(i as int));
            assert(ls.take(i + 1).last() == ls[i as int]);
        }
        match range_after_prefix(&v, from, to, "ssid=") {
            Some(value) => {
                ssid = Some(value);
            },
            None => {},
        }
        match range_after_prefix(&v, from, to, "wpa_passphrase=") {
            Some(value) => {
                password = Some(value);
            },
            None => {},
        }
        i = i + 1;
    }
    assert(ls.take(ls.len() as int) == ls);
    (ssid, password)
}

/// Reads the SSID from the content of the Wi-Fi credentials file: what the
/// first line that sets one sets.
pub fn wifi_ssid(contents: &str) -> (ssid: Option<String>)
    ensures
        text_of(ssid) == first_match(lines(contents@), ssid_setting()),
{
    let v = chars_of(contents);
    let bounds = split_lines(&v);
    let ghost ls = lines(v@);
    let mut i: usize = 0;
    assert(ls.skip(0) == ls);
    while i < bounds.len()
        invariant
            i <= bounds@.len(),
            v@ == contents@,
            ls == lines(v@),
            bounds@.len() == ls.len(),
            forall|k: int|
                0 <= k < bounds@.len() ==> (#[trigger] bounds@[k]).0 <= bounds@[k].1 <= v@.len()
                    && v@.subrange(bounds@[k].0 as int, bounds@[k].1 as int) == ls[k],
            first_match(ls, ssid_setting()) == first_match(ls.skip(i as int), ssid_setting()),
        decreases bounds@.len() - i,
    {
        let (from, to) = bounds[i];
        assert(ls.skip(i as int)[0] == ls[i as int]);
        assert(ls.skip(i as int).skip(1) == ls.skip(i + 1));
        let found = range_after_prefix(&v, from, to, "ssid=");
        if found.is_some() {
            return found;
        }
        i = i + 1;
    }
    None
}

/// Says whether the content of an interface's `operstate` file says that
/// the interface is up.
pub fn interface_is_up(operstate: &str) -> (up: bool)
    ensures
        up == (trim(operstate@) == "up"@),
{
    let v = chars_of(operstate);
    assert(v@.subrange(0, v@.len() as int) == v@);
    let (a, b) = trim_range(&v, 0, v.len());
    range_equals(&v, a, b, "up")
}

/// The address that the line `v[from..to]` reports, if it reports one.
fn inet_of_range(v: &Vec<char>, from: usize, to: usize) -> (address: Option<String>)
    requires
        from <= to <= v.len(),
    ensures
        text_of(address) == inet_of_line()(v@.subrange(from as int, to as int)),
{
    proof {
        reveal_strlit("inet ");
    }
    let (a, b) = trim_range(v, from, to);
    let ghost trimmed = v@.subrange(a as int, b as int);
    if !range_has_prefix(v, a, b, "inet ") {
        return None;
    }
    let start: usize = a + 5;
    let ghost rest = v@.subrange(start as int, b as int);
    assert(trimmed.skip(5) == rest);
    let mut end: usize = start;
    assert(rest.skip(0) == rest);
    while end < b && v[end] != '/'
        invariant
            start <= end <= b <= v.len(),
            rest == v@.subrange(start as int, b as int),
            first_position(rest, '/') == (end - start) + first_position(
                rest.skip(end - start),
                '/',
            ),
        decreases b - end,
    {
        assert(rest.skip(end - start)[0] == v@[end as int]);
        assert(rest.skip(end - start).skip(1) == rest.skip(end + 1 - start));
        end = end + 1;
    }
    proof {
        if end < b {
            assert(rest.skip(end - start)[0] == v@[end as int]);
        }
        assert(rest.take(end - start) == v@.subrange(start as int, end as int));
    }
    Some(string_of(v, start, end))
}

/// Reads the address of an interface from the output of `ip addr show`:
/// that of the first line that reports one.
pub fn inet_address(output: &str) -> (address: Option<String>)
    ensures
        text_of(address) == first_match(lines(output@), inet_of_line()),
{
    let v = chars_of(output);
    let bounds = split_lines(&v);
    let ghost ls = lines(v@);
    let mut i: usize = 0;
    assert(ls.skip(0) == ls);
    while i < bounds.len()
        invariant
            i <= bounds@.len(),
            v@ == output@,
            ls == lines(v@),
            bounds@.len() == ls.len(),
            forall|k: int|
                0 <= k < bounds@.len() ==> (#[trigger] bounds@[k]).0 <= bounds@[k].1 <= v@.len()
                    && v@.subrange(bounds@[k].0 as int, bounds@[k].1 as int) == ls[k],
            first_match(ls, inet_of_line()) == first_match(ls.skip(i as int), inet_of_line()),
        decreases bounds@.len() - i,
    {
        let (from, to) = bounds[i];
        assert(ls.skip(i as int)[0] == ls[i as int]);
        assert(ls.skip(i as int).skip(1) == ls.skip(i + 1));
        let found = inet_of_range(&v, from, to);
        if found.is_some() {
            return found;
        }
        i = i + 1;
    }
    None
}

/// Reads the subnet of an interface from the output of `ip route show`:
/// that of the first line that reports one.
pub fn kernel_subnet(output: &str) -> (subnet: Option<String>)
    ensures
        text_of(subnet) == first_match(lines(output@), subnet_of_line()),
{
    let v = chars_of(output);
    let bounds = split_lines(&v);
    let ghost ls = lines(v@);
    let mut i: usize = 0;
    assert(ls.skip(0) == ls);
    while i < bounds.len()
        invariant
            i <= bounds@.len(),
            v@ == output@,
            ls == lines(v@),
            bounds@.len() == ls.len(),
            forall|k: int|
                0 <= k < bounds@.len() ==> (#[trigger] bounds@[k]).0 <= bounds@[k].1 <= v@.len()
                    && v@.subrange(bounds@[k].0 as int, bounds@[k].1 as int) == ls[k],
            first_match(ls, subnet_of_line()) == first_match(ls.skip(i as int), subnet_of_line()),
        decreases bounds@.len() - i,
    {
        let (from, to) = bounds[i];
        assert(ls.skip(i as int)[0] == ls[i as int]);
        assert(ls.skip(i as int).skip(1) == ls.skip(i + 1));
        if range_contains(&v, from, to, "proto kernel") {
            match first_word_range(&v, from, to) {
                Some((a, b)) => {
                    return Some(string_of(&v, a, b));
                },
                None => {},
            }
        }
        i = i + 1;
    }
    None
}

/// The gateway that the line `v[from..to]` reports, if it reports one.
fn gateway_of_range(v: &Vec<char>, from: usize, to: usize) -> (gateway: Option<String>)
    requires
        from <= to <= v.len(),
    ensures
        text_of(gateway) == gateway_of_line()(v@.subrange(from as int, to as int)),
{
    let bounds = split_words(v, from, to);
    let ghost ws = words(v@.subrange(from as int, to as int));
    let mut i: usize = 0;
    assert(ws.skip(0) == ws);
    while i < bounds.len()
        invariant
            i <= bounds@.len(),
            from <= to <= v.len(),
            ws == words(v@.subrange(from as int, to as int)),
            bounds@.len() == ws.len(),
            forall|k: int|
                0 <= k < bounds@.len() ==> from <= (#[trigger] bounds@[k]).0 <= bounds@[k].1 <= to
                    && v@.subrange(bounds@[k].0 as int, bounds@[k].1 as int) == ws[k],
            word_after(ws, "via"@) == word_after(ws.skip(i as int), "via"@),
        decreases bounds@.len() - i,
    {
        let (a, b) = bounds[i];
        let ghost here = ws.skip(i as int);
        assert(here[0] == ws[i as int]);
        assert(here.skip(1) == ws.skip(i + 1));
        if range_equals(v, a, b, "via") {
            if i + 1 < bounds.len() {
                let (c, d) = bounds[i + 1];
                assert(here[1] == ws[i + 1]);
                return Some(string_of(v, c, d));
            } else {
                return None;
            }
        }
        i = i + 1;
    }
    None
}

/// Reads the gateway of an interface from the output of `ip route show`:
/// that of the first line that reports one.
pub fn explicit_gateway(output: &str) -> (gateway: Option<String>)
    ensures
        text_of(gateway) == first_match(lines(output@), gateway_of_line()),
{
    let v = chars_of(output);
    let bounds = split_lines(&v);
    let ghost ls = lines(v@);
    let mut i: usize = 0;
    assert(ls.skip(0) == ls);
    while i < bounds.len()
        invariant
            i <= bounds@.len(),
            v@ == output@,
            ls == lines(v@),
            bounds@.len() == ls.len(),
            forall|k: int|
                0 <= k < bounds@.len() ==> (#[trigger] bounds@[k]).0 <= bounds@[k].1 <= v@.len()
                    && v@.subrange(bounds@[k].0 as int, bounds@[k].1 as int) == ls[k],
            first_match(ls, gateway_of_line()) == first_match(
                ls.skip(i as int),
                gateway_of_line(),
            ),
        decreases bounds@.len() - i,
    {
        let (from, to) = bounds[i];
        assert(ls.skip(i as int)[0] == ls[i as int]);
        assert(ls.skip(i as int).skip(1) == ls.skip(i + 1));
        let found = gateway_of_range(&v, from, to);
        if found.is_some() {
            return found;
        }
        i = i + 1;
    }
    None
}

/// The gateway to assume for an address when the routes name none: the
/// address with what follows its last dot replaced by 1. `None` for an
/// address without a dot.
pub open spec fn gateway_for(ip: Seq<char>) -> Option<Seq<char>> {
    let dot = last_position(ip, '.');
    if 0 <= dot < ip.len() {
        Some(ip.take(dot) + ".1"@)
    } else {
        None
    }
}

/// Says which gateway to assume for an address when the routes name none.
pub fn assumed_gateway(ip: &str) -> (gateway: Option<String>)
    ensures
        text_of(gateway) == gateway_for(ip@),
{
    let v = chars_of(ip);
    let n = v.len();
    let mut end: usize = n;
    assert(v@.take(n as int) == v@);
    while end > 0 && v[end - 1] != '.'
        invariant
            end <= n,
            n == v@.len(),
            last_position(v@, '.') == last_position(v@.take(end as int), '.'),
        decreases end,
    {
        assert(v@.take(end as int).drop_last() == v@.take(end - 1));
        end = end - 1;
    }
    if end == 0 {
        assert(v@.take(0).len() == 0);
        return None;
    }
    assert(v@.take(end as int).last() == v@[end - 1]);
    let mut gateway = string_of(&v, 0, end - 1);
    assert(v@.subrange(0, end - 1) == v@.take(end - 1));
    gateway.append(".1");
    Some(gateway)
}

} // verus!
