//! The configuration file of the Wi-Fi client: writing it from an SSID and a
//! password, and reading the SSID back.

use crate::text::{
    chars_of, has_prefix, has_suffix, is_whitespace, lemma_lines_first, lines, push_char,
    range_has_prefix, range_has_suffix, split_lines, string_of, strip_cr, trim, trim_end,
    trim_start, trim_range,
};
use vstd::prelude::*;
use vstd::string::*;

verus! {

/// How one character stands inside a quoted value: a backslash goes before
/// a backslash and before a double quote.
pub open spec fn escape_char(c: char) -> Seq<char> {
    if c == '\\' || c == '"' {
        seq!['\\', c]
    } else {
        seq![c]
    }
}

/// How a text stands inside a quoted value.
pub open spec fn escape_text(s: Seq<char>) -> Seq<char>
    decreases s.len(),
{
    if s.len() == 0 {
        Seq::empty()
    } else {
        escape_text(s.drop_last()) + escape_char(s.last())
    }
}

/// The configuration file for a network with the given SSID and password.
pub open spec fn wpa_conf(ssid: Seq<char>, password: Seq<char>) -> Seq<char> {
    "ctrl_interface=/var/run/wpa_supplicant\nnetwork={\n    ssid=\""@ + escape_text(ssid)
        + "\"\n    psk=\""@ + escape_text(password) + "\"\n    key_mgmt=WPA-PSK\n}\n"@
}

/// `s` with every occurrence of `first` followed by `second` replaced by
/// `with`, found from left to right without overlap.
pub open spec fn replace_pair(s: Seq<char>, first: char, second: char, with: char) -> Seq<char>
    decreases s.len(),
{
    if s.len() < 2 {
        s
    } else if s[0] == first && s[1] == second {
        seq![with] + replace_pair(s.skip(2), first, second, with)
    } else {
        seq![s[0]] + replace_pair(s.skip(1), first, second, with)
    }
}

/// The text that a quoted value stands for: first every backslash and
/// double quote becomes a double quote, then every two backslashes become
/// one.
pub open spec fn unescape_text(s: Seq<char>) -> Seq<char> {
    replace_pair(replace_pair(s, '\\', '"', '"'), '\\', '\\', '\\')
}

/// The SSID that a line of the file sets, if it sets one: the line, without
/// the white space around it, is `ssid="`, the quoted value, and `"`.
pub open spec fn ssid_of_line(line: Seq<char>) -> Option<Seq<char>> {
    let trimmed = trim(line);
    if has_prefix(trimmed, "ssid=\""@) {
        let rest = trimmed.skip("ssid=\""@.len() as int);
        if has_suffix(rest, "\""@) {
            Some(unescape_text(rest.take(rest.len() - "\""@.len())))
        } else {
            None
        }
    } else {
        None
    }
}

/// The SSID of the first of `ls` that sets one.
pub open spec fn first_ssid(ls: Seq<Seq<char>>) -> Option<Seq<char>>
    decreases ls.len(),
{
    if ls.len() == 0 {
        None
    } else {
        match ssid_of_line(ls[0]) {
            Some(ssid) => Some(ssid),
            None => first_ssid(ls.skip(1)),
        }
    }
}

/// The SSID that a configuration file sets: that of its first line that
/// sets one.
pub open spec fn ssid_of_conf(content: Seq<char>) -> Option<Seq<char>> {
    first_ssid(lines(content))
}

/// Appends a text as it stands inside a quoted value.
fn append_escaped(out: &mut String, s: &str)
    ensures
        final(out)@ == old(out)@ + escape_text(s@),
{
    let v = chars_of(s);
    let mut i: usize = 0;
    assert(v@.take(0) == Seq::<char>::empty());
    while i < v.len()
        invariant
            i <= v.len(),
            out@ == old(out)@ + escape_text(v@.take(i as int)),
        decreases v.len() - i,
    {
        let c = v[i];
        if c == '\\' || c == '"' {
            push_char(out, '\\');
        }
        push_char(out, c);
        proof {
            assert(v@.take(i + 1).drop_last() == v@.take(i as int));
            assert(v@.take(i + 1).last() == c);
            assert(out@ == old(out)@ + (escape_text(v@.take(i as int)) + escape_char(c)));
        }
        i = i + 1;
    }
    assert(v@.take(v@.len() as int) == v@);
}

/// Writes the configuration file for a network with the given SSID and
/// password. Backslashes and double quotes in either are escaped.
pub fn format_wpa_conf(ssid: &str, password: &str) -> (conf: String)
    ensures
        conf@ == wpa_conf(ssid@, password@),
{
    let mut conf = String::from_str(
        "ctrl_interface=/var/run/wpa_supplicant\nnetwork={\n    ssid=\"",
    );
    append_escaped(&mut conf, ssid);
    conf.append("\"\n    psk=\"");
    append_escaped(&mut conf, password);
    conf.append("\"\n    key_mgmt=WPA-PSK\n}\n");
    conf
}

/// Replaces every `first` followed by `second` by `with`, from left to right.
fn replace_pair_in(s: &Vec<char>, first: char, second: char, with: char) -> (out: Vec<char>)
    ensures
        out@ == replace_pair(s@, first, second, with),
{
    let mut out: Vec<char> = Vec::new();
    let mut i: usize = 0;
    assert(s@.skip(0) == s@);
    while i < s.len()
        invariant
            i <= s.len(),
            replace_pair(s@, first, second, with) == out@ + replace_pair(
                s@.skip(i as int),
                first,
                second,
                with,
            ),
        decreases s.len() - i,
    {
        let ghost here = s@.skip(i as int);
        let ghost so_far = out@;
        assert(here[0] == s@[i as int]);
        if i + 1 < s.len() && s[i] == first && s[i + 1] == second {
            assert(here[1] == s@[i + 1]);
            out.push(with);
            proof {
                assert(here.skip(2) == s@.skip(i + 2));
                let rest = replace_pair(here.skip(2), first, second, with);
                assert(so_far + (seq![with] + rest) == out@ + rest);
            }
            i = i + 2;
        } else {
            out.push(s[i]);
            proof {
                if i + 1 < s.len() {
                    assert(here[1] == s@[i + 1]);
                    assert(here.skip(1) == s@.skip(i + 1));
                    let rest = replace_pair(here.skip(1), first, second, with);
                    assert(so_far + (seq![here[0]] + rest) == out@ + rest);
                } else {
                    assert(here.len() == 1);
                    assert(here == seq![s@[i as int]]);
                    assert(s@.skip(i + 1) == Seq::<char>::empty());
                }
            }
            i = i + 1;
        }
    }
    assert(s@.skip(s@.len() as int) == Seq::<char>::empty());
    assert(out@ + Seq::<char>::empty() == out@);
    out
}

/// The SSID that the line `v[from..to]` sets, if it sets one.
fn ssid_of_range(v: &Vec<char>, from: usize, to: usize) -> (ssid: Option<String>)
    requires
        from <= to <= v.len(),
    ensures
        match ssid {
            Some(found) => ssid_of_line(v@.subrange(from as int, to as int)) == Some(found@),
            None => ssid_of_line(v@.subrange(from as int, to as int)) is None,
        },
{
    proof {
        reveal_strlit("ssid=\"");
        reveal_strlit("\"");
    }
    let (a, b) = trim_range(v, from, to);
    let ghost trimmed = v@.subrange(a as int, b as int);
    if !range_has_prefix(v, a, b, "ssid=\"") {
        return None;
    }
    let start: usize = a + 6;
    assert(trimmed.skip(6) == v@.subrange(start as int, b as int));
    if !range_has_suffix(v, start, b, "\"") {
        return None;
    }
    let quoted = crate::text::vec_of(v, start, b - 1);
    assert(quoted@ == trimmed.skip(6).take(trimmed.skip(6).len() - 1));
    let pass = replace_pair_in(&quoted, '\\', '"', '"');
    let plain = replace_pair_in(&pass, '\\', '\\', '\\');
    Some(string_of(&plain, 0, plain.len()))
}

/// Reads the SSID from the content of a configuration file: `None` if no
/// line sets one.
pub fn ssid_from_wpa_conf(content: &str) -> (ssid: Option<String>)
    ensures
        match ssid {
            Some(found) => ssid_of_conf(content@) == Some(found@),
            None => ssid_of_conf(content@) is None,
        },
{
    let v = chars_of(content);
    let bounds = split_lines(&v);
    let ghost ls = lines(v@);
    let mut i: usize = 0;
    assert(ls.skip(0) == ls);
    while i < bounds.len()
        invariant
            i <= bounds@.len(),
            v@ == content@,
            ls == lines(v@),
            bounds@.len() == ls.len(),
            forall|k: int|
                0 <= k < bounds@.len() ==> (#[trigger] bounds@[k]).0 <= bounds@[k].1 <= v@.len()
                    && v@.subrange(bounds@[k].0 as int, bounds@[k].1 as int) == ls[k],
            first_ssid(ls) == first_ssid(ls.skip(i as int)),
        decreases bounds@.len() - i,
    {
        let (from, to) = bounds[i];
        assert(ls.skip(i as int)[0] == ls[i as int]);
        assert(ls.skip(i as int).skip(1) == ls.skip(i + 1));
        let found = ssid_of_range(&v, from, to);
        if found.is_some() {
            return found;
        }
        i = i + 1;
    }
    None
}

/// A text with every backslash doubled.
pub open spec fn doubled(s: Seq<char>) -> Seq<char>
    decreases s.len(),
{
    if s.len() == 0 {
        Seq::empty()
    } else if s[0] == '\\' {
        seq!['\\', '\\'] + doubled(s.skip(1))
    } else {
        seq![s[0]] + doubled(s.skip(1))
    }
}

/// Escaping goes character by character: a text escapes to its parts'
/// escapes, joined.
pub proof fn lemma_escape_text_concat(a: Seq<char>, b: Seq<char>)
    ensures
        escape_text(a + b) == escape_text(a) + escape_text(b),
    decreases b.len(),
{
    if b.len() == 0 {
        assert(a + b == a);
    } else {
        lemma_escape_text_concat(a, b.drop_last());
        assert((a + b).drop_last() == a + b.drop_last());
        assert((a + b).last() == b.last());
    }
}

/// An escaped text starts with the escape of its first character.
pub proof fn lemma_escape_text_first(s: Seq<char>)
    requires
        s.len() > 0,
    ensures
        escape_text(s) == escape_char(s[0]) + escape_text(s.skip(1)),
        escape_text(s)[0] != '"',
{
    let head = seq![s[0]];
    assert(s == head + s.skip(1));
    lemma_escape_text_concat(head, s.skip(1));
    assert(head.drop_last() == Seq::<char>::empty());
    assert(head.last() == s[0]);
    assert(escape_text(Seq::<char>::empty()) == Seq::<char>::empty());
    assert(Seq::<char>::empty() + escape_char(s[0]) == escape_char(s[0]));
    assert(escape_text(head) == escape_char(s[0]));
}

/// An escaped text holds a line feed only if the text holds one.
pub proof fn lemma_escape_text_keeps_lines(s: Seq<char>)
    requires
        forall|i: int| 0 <= i < s.len() ==> s[i] != '\n',
    ensures
        forall|i: int| 0 <= i < escape_text(s).len() ==> escape_text(s)[i] != '\n',
    decreases s.len(),
{
    if s.len() > 0 {
        let before = s.drop_last();
        assert forall|i: int| 0 <= i < before.len() implies before[i] != '\n' by {
            assert(before[i] == s[i]);
        }
        lemma_escape_text_keeps_lines(before);
        let head = escape_text(before);
        let last = escape_char(s.last());
        assert forall|i: int| 0 <= i < escape_text(s).len() implies escape_text(s)[i]
            != '\n' by {
            if i >= head.len() {
                assert(escape_text(s)[i] == last[i - head.len()]);
            }
        }
    }
}

/// The first pass of reading back takes the backslash from before every
/// double quote: what stays is the text with its backslashes doubled.
pub proof fn lemma_first_pass(s: Seq<char>)
    ensures
        replace_pair(escape_text(s), '\\', '"', '"') == doubled(s),
    decreases s.len(),
{
    if s.len() == 0 {
        assert(escape_text(s) == Seq::<char>::empty());
    } else {
        let c = s[0];
        let rest = s.skip(1);
        let tail = escape_text(rest);
        lemma_escape_text_first(s);
        lemma_first_pass(rest);
        let escaped = escape_text(s);
        assert(escaped == escape_char(c) + tail);
        if rest.len() > 0 {
            lemma_escape_text_first(rest);
            assert(tail.len() > 0);
        } else {
            assert(tail == Seq::<char>::empty());
            assert(doubled(rest) == Seq::<char>::empty());
        }
        if c == '"' {
            assert(escaped[0] == '\\' && escaped[1] == '"');
            assert(escaped.skip(2) == tail);
            assert(replace_pair(escaped, '\\', '"', '"') == seq!['"'] + replace_pair(
                tail,
                '\\',
                '"',
                '"',
            ));
        } else if c == '\\' {
            assert(escaped[0] == '\\' && escaped[1] == '\\');
            let behind = escaped.skip(1);
            assert(behind == seq!['\\'] + tail);
            assert(replace_pair(escaped, '\\', '"', '"') == seq!['\\'] + replace_pair(
                behind,
                '\\',
                '"',
                '"',
            ));
            if tail.len() > 0 {
                assert(behind[0] == '\\' && behind[1] == tail[0]);
                assert(behind.skip(1) == tail);
                assert(replace_pair(behind, '\\', '"', '"') == seq!['\\'] + replace_pair(
                    tail,
                    '\\',
                    '"',
                    '"',
                ));
            } else {
                assert(behind.len() == 1);
                assert(replace_pair(behind, '\\', '"', '"') == behind);
                assert(behind == seq!['\\'] + doubled(rest));
            }
            assert(seq!['\\'] + (seq!['\\'] + doubled(rest)) == seq!['\\', '\\'] + doubled(
                rest,
            ));
        } else {
            assert(escape_char(c) == seq![c]);
            if tail.len() > 0 {
                assert(escaped[0] == c);
                assert(escaped.skip(1) == tail);
                assert(replace_pair(escaped, '\\', '"', '"') == seq![c] + replace_pair(
                    tail,
                    '\\',
                    '"',
                    '"',
                ));
            } else {
                assert(escaped == seq![c]);
                assert(replace_pair(escaped, '\\', '"', '"') == escaped);
                assert(seq![c] + doubled(rest) == seq![c]);
            }
        }
    }
}

/// The second pass of reading back halves the backslashes.
pub proof fn lemma_second_pass(s: Seq<char>)
    ensures
        replace_pair(doubled(s), '\\', '\\', '\\') == s,
    decreases s.len(),
{
    if s.len() > 0 {
        let c = s[0];
        let rest = s.skip(1);
        lemma_second_pass(rest);
        let d = doubled(s);
        let tail = doubled(rest);
        assert(seq![c] + rest == s);
        if c == '\\' {
            assert(d == seq!['\\', '\\'] + tail);
            assert(d[0] == '\\' && d[1] == '\\');
            assert(d.skip(2) == tail);
            assert(replace_pair(d, '\\', '\\', '\\') == seq!['\\'] + replace_pair(
                tail,
                '\\',
                '\\',
                '\\',
            ));
        } else {
            assert(d == seq![c] + tail);
            if tail.len() > 0 {
                assert(d[0] == c);
                assert(d.skip(1) == tail);
                assert(replace_pair(d, '\\', '\\', '\\') == seq![c] + replace_pair(
                    tail,
                    '\\',
                    '\\',
                    '\\',
                ));
            } else {
                assert(d == seq![c]);
                assert(replace_pair(d, '\\', '\\', '\\') == d);
                assert(rest.len() == 0) by {
                    if rest.len() > 0 {
                        assert(doubled(rest).len() > 0);
                    }
                }
            }
        }
    }
}

/// Reading back undoes escaping.
pub proof fn lemma_unescape_escape_text(s: Seq<char>)
    ensures
        unescape_text(escape_text(s)) == s,
{
    lemma_first_pass(s);
    lemma_second_pass(s);
}

/// The line of a configuration file that sets the given SSID.
pub open spec fn ssid_line(ssid: Seq<char>) -> Seq<char> {
    "    ssid=\""@ + escape_text(ssid) + seq!['"']
}

/// The line that sets an SSID is read back as that SSID.
pub proof fn lemma_ssid_of_ssid_line(ssid: Seq<char>)
    ensures
        ssid_of_line(ssid_line(ssid)) == Some(ssid),
        strip_cr(ssid_line(ssid)) == ssid_line(ssid),
{
    reveal_strlit("    ssid=\"");
    reveal_strlit("ssid=\"");
    reveal_strlit("\"");
    let lead = "    ssid=\""@;
    let key = "ssid=\""@;
    let escaped = escape_text(ssid);
    let line = ssid_line(ssid);
    let bare = key + escaped + seq!['"'];
    assert(line.last() == '"');
    assert(line.skip(1).skip(1).skip(1).skip(1) == bare) by {
        assert(line.skip(1).skip(1) == line.skip(2));
        assert(line.skip(2).skip(1) == line.skip(3));
        assert(line.skip(3).skip(1) == line.skip(4));
        assert(line.skip(4) =~= bare);
    }
    assert(trim_start(line) == bare) by {
        assert(is_whitespace(' '));
        assert(!is_whitespace('s'));
        assert(line[0] == ' ');
        assert(line.skip(1)[0] == ' ');
        assert(line.skip(1).skip(1)[0] == ' ');
        assert(line.skip(1).skip(1).skip(1)[0] == ' ');
        assert(bare[0] == 's');
        assert(trim_start(line.skip(1).skip(1).skip(1)) == trim_start(bare));
        assert(trim_start(line.skip(1).skip(1)) == trim_start(line.skip(1).skip(1).skip(1)));
        assert(trim_start(line.skip(1)) == trim_start(line.skip(1).skip(1)));
    }
    assert(trim_end(bare) == bare) by {
        assert(bare.last() == '"');
        assert(!is_whitespace('"'));
    }
    assert(trim(line) == bare);
    assert(bare.take(6) =~= key);
    let rest = bare.skip(6);
    assert(rest =~= escaped + seq!['"']);
    assert(rest.skip(rest.len() - 1) =~= seq!['"']);
    assert("\""@ =~= seq!['"']);
    assert(rest.take(rest.len() - 1) =~= escaped);
    lemma_unescape_escape_text(ssid);
}

/// What is written can be read back: the SSID read from the configuration
/// file written for an SSID without line feed is that SSID, whatever the
/// password.
pub proof fn lemma_ssid_round_trip(ssid: Seq<char>, password: Seq<char>)
    requires
        forall|i: int| 0 <= i < ssid.len() ==> ssid[i] != '\n',
    ensures
        ssid_of_conf(wpa_conf(ssid, password)) == Some(ssid),
{
    reveal_strlit("ctrl_interface=/var/run/wpa_supplicant\nnetwork={\n    ssid=\"");
    reveal_strlit("ctrl_interface=/var/run/wpa_supplicant");
    reveal_strlit("network={");
    reveal_strlit("    ssid=\"");
    reveal_strlit("ssid=\"");
    reveal_strlit("\"\n    psk=\"");
    reveal_strlit("    psk=\"");
    let first = "ctrl_interface=/var/run/wpa_supplicant"@;
    let second = "network={"@;
    let third = ssid_line(ssid);
    let rest = "    psk=\""@ + escape_text(password) + "\"\n    key_mgmt=WPA-PSK\n}\n"@;
    let conf = wpa_conf(ssid, password);
    let newline = seq!['\n'];
    assert("ctrl_interface=/var/run/wpa_supplicant\nnetwork={\n    ssid=\""@ =~= first + newline
        + second + newline + "    ssid=\""@);
    assert("\"\n    psk=\""@ =~= seq!['"'] + newline + "    psk=\""@);
    let after_second = third + newline + rest;
    let after_first = second + newline + after_second;
    assert(conf =~= first + newline + after_first);
    lemma_escape_text_keeps_lines(ssid);
    assert forall|i: int| 0 <= i < third.len() implies third[i] != '\n' by {
        let lead = "    ssid=\""@;
        if i < lead.len() {
            assert(third[i] == lead[i]);
        } else if i < lead.len() + escape_text(ssid).len() {
            assert(third[i] == escape_text(ssid)[i - lead.len()]);
        }
    }
    lemma_lines_first(first, after_first);
    lemma_lines_first(second, after_second);
    lemma_lines_first(third, rest);
    lemma_ssid_of_ssid_line(ssid);
    let key = "ssid=\""@;
    assert(ssid_of_line(first) is None) by {
        assert(!is_whitespace('c') && !is_whitespace('t'));
        assert(first[0] == 'c' && first.last() == 't');
        assert(trim(first) == first);
        assert(first.take(6)[0] != key[0]);
    }
    assert(ssid_of_line(second) is None) by {
        assert(!is_whitespace('n') && !is_whitespace('{'));
        assert(second[0] == 'n' && second.last() == '{');
        assert(trim(second) == second);
        assert(second.take(6)[0] != key[0]);
    }
    assert(strip_cr(first) == first);
    assert(strip_cr(second) == second);
    let all = lines(conf);
    assert(all == seq![first] + (seq![second] + (seq![third] + lines(rest))));
    assert(all[0] == first);
    assert(all.skip(1) == seq![second] + (seq![third] + lines(rest)));
    assert(all.skip(1)[0] == second);
    assert(all.skip(1).skip(1) == seq![third] + lines(rest));
    assert(all.skip(1).skip(1)[0] == third);
    assert(first_ssid(all.skip(1).skip(1)) == Some(ssid));
    assert(first_ssid(all.skip(1)) == first_ssid(all.skip(1).skip(1)));
    assert(first_ssid(all) == first_ssid(all.skip(1)));
}

} // verus!
