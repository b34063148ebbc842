//! Text as sequences of characters: taking strings apart, putting them
//! together, and writing numbers.

use vstd::prelude::*;
use vstd::string::*;

verus! {

/// The character for a decimal digit.
pub open spec fn digit_char(d: nat) -> char
    recommends
        d < 10,
{
    (('0' as nat) + d) as char
}

/// `n` in decimal, without sign or leading zeros.
pub open spec fn decimal(n: nat) -> Seq<char>
    decreases n,
{
    if n < 10 {
        seq![digit_char(n)]
    } else {
        decimal(n / 10).push(digit_char(n % 10))
    }
}

/// `n` in decimal, with a leading minus sign when negative.
pub open spec fn signed_decimal(n: int) -> Seq<char> {
    if n < 0 {
        seq!['-'] + decimal((-n) as nat)
    } else {
        decimal(n as nat)
    }
}

/// Appends one character to a string. Calls `String::push`, whose
/// documentation says that it appends the given character to the end of the
/// string; the contract claims exactly that and nothing else.
#[verifier::external_body]
pub(crate) fn push_char(s: &mut String, c: char)
    ensures
        final(s)@ == old(s)@.push(c),
{
    s.push(c)
}

/// The characters of a string, in order.
pub fn chars_of(s: &str) -> (v: Vec<char>)
    ensures
        v@ == s@,
{
    broadcast use vstd::string::group_string_axioms;

    let mut v: Vec<char> = Vec::new();
    for c in it: s.chars()
        invariant
            it.seq() == s@,
            v@ == s@.take(it.index()),
    {
        v.push(c);
    }
    assert(s@.take(s@.len() as int) == s@);
    v
}

/// Appends the characters `v[from..to]` to `out`.
pub fn append_chars(out: &mut String, v: &Vec<char>, from: usize, to: usize)
    requires
        from <= to <= v.len(),
    ensures
        final(out)@ == old(out)@ + v@.subrange(from as int, to as int),
{
    let mut i: usize = from;
    while i < to
        invariant
            from <= i <= to <= v.len(),
            out@ == old(out)@ + v@.subrange(from as int, i as int),
        decreases to - i,
    {
        push_char(out, v[i]);
        i = i + 1;
        assert(v@.subrange(from as int, i as int) == v@.subrange(from as int, i - 1).push(
            v@[i - 1],
        ));
    }
}

/// The string made of the characters `v[from..to]`.
pub fn string_of(v: &Vec<char>, from: usize, to: usize) -> (s: String)
    requires
        from <= to <= v.len(),
    ensures
        s@ == v@.subrange(from as int, to as int),
{
    let mut s = String::new();
    append_chars(&mut s, v, from, to);
    s
}

/// The characters `v[from..to]`.
pub fn vec_of(v: &Vec<char>, from: usize, to: usize) -> (out: Vec<char>)
    requires
        from <= to <= v.len(),
    ensures
        out@ == v@.subrange(from as int, to as int),
{
    let mut out: Vec<char> = Vec::new();
    let mut i: usize = from;
    while i < to
        invariant
            from <= i <= to <= v.len(),
            out@ == v@.subrange(from as int, i as int),
        decreases to - i,
    {
        out.push(v[i]);
        i = i + 1;
    }
    out
}

/// The character for the decimal digit `d`.
pub fn digit(d: u8) -> (c: char)
    requires
        d < 10,
    ensures
        c == digit_char(d as nat),
{
    (48u8 + d) as char
}

/// Appends `n` in decimal to `out`.
pub fn append_decimal(out: &mut String, n: u64)
    ensures
        final(out)@ == old(out)@ + decimal(n as nat),
    decreases n,
{
    if n >= 10 {
        append_decimal(out, n / 10);
    }
    push_char(out, digit((n % 10) as u8));
}

/// Appends `n` in decimal to `out`, with a minus sign when negative.
pub fn append_signed_decimal(out: &mut String, n: i32)
    ensures
        final(out)@ == old(out)@ + signed_decimal(n as int),
{
    let wide: i64 = n as i64;
    if wide < 0 {
        push_char(out, '-');
        append_decimal(out, (-wide) as u64);
        assert(out@ == old(out)@ + (seq!['-'] + decimal((-n) as nat)));
    } else {
        append_decimal(out, wide as u64);
    }
}

/// Whether a character is white space: the characters with the Unicode
/// property `White_Space`.
pub open spec fn is_whitespace(c: char) -> bool {
    let n = c as u32;
    ||| 0x09 <= n <= 0x0d
    ||| n == 0x20
    ||| n == 0x85
    ||| n == 0xa0
    ||| n == 0x1680
    ||| 0x2000 <= n <= 0x200a
    ||| n == 0x2028
    ||| n == 0x2029
    ||| n == 0x202f
    ||| n == 0x205f
    ||| n == 0x3000
}

/// `s` without the white space at its start.
pub open spec fn trim_start(s: Seq<char>) -> Seq<char>
    decreases s.len(),
{
    if s.len() > 0 && is_whitespace(s[0]) {
        trim_start(s.skip(1))
    } else {
        s
    }
}

/// `s` without the white space at its end.
pub open spec fn trim_end(s: Seq<char>) -> Seq<char>
    decreases s.len(),
{
    if s.len() > 0 && is_whitespace(s.last()) {
        trim_end(s.drop_last())
    } else {
        s
    }
}

/// `s` without the white space at its start and at its end.
pub open spec fn trim(s: Seq<char>) -> Seq<char> {
    trim_end(trim_start(s))
}

/// Whether `s` starts with `prefix`.
pub open spec fn has_prefix(s: Seq<char>, prefix: Seq<char>) -> bool {
    prefix.len() <= s.len() && s.take(prefix.len() as int) == prefix
}

/// Whether `s` ends with `suffix`.
pub open spec fn has_suffix(s: Seq<char>, suffix: Seq<char>) -> bool {
    suffix.len() <= s.len() && s.skip(s.len() - suffix.len()) == suffix
}

/// Whether `pattern` occurs in `s` at `at`.
pub open spec fn occurs_at(s: Seq<char>, pattern: Seq<char>, at: int) -> bool {
    0 <= at && at + pattern.len() <= s.len() && s.subrange(at, at + pattern.len()) == pattern
}

/// Whether `pattern` occurs somewhere in `s`.
pub open spec fn contains(s: Seq<char>, pattern: Seq<char>) -> bool {
    exists|at: int| occurs_at(s, pattern, at)
}

/// The place of the first line feed in `s`, or the length of `s` if it
/// holds none.
pub open spec fn first_newline(s: Seq<char>) -> int
    decreases s.len(),
{
    if s.len() == 0 || s[0] == '\n' {
        0
    } else {
        1 + first_newline(s.skip(1))
    }
}

/// `s` without a carriage return at its end.
pub open spec fn strip_cr(s: Seq<char>) -> Seq<char> {
    if s.len() > 0 && s.last() == '\r' {
        s.drop_last()
    } else {
        s
    }
}

/// The lines of a text. A line ends with a line feed, or with a carriage
/// return and a line feed; neither belongs to the line. What follows the
/// last line feed is a line too unless it is empty, and keeps a carriage
/// return at its end.
pub open spec fn lines(s: Seq<char>) -> Seq<Seq<char>>
    decreases s.len(),
{
    let end = first_newline(s);
    if s.len() == 0 {
        Seq::empty()
    } else if end < 0 || end >= s.len() {
        seq![s]
    } else {
        seq![strip_cr(s.take(end))] + lines(s.skip(end + 1))
    }
}

/// The place of the first white space in `s`, or the length of `s` if it
/// holds none.
pub open spec fn first_whitespace(s: Seq<char>) -> int
    decreases s.len(),
{
    if s.len() == 0 || is_whitespace(s[0]) {
        0
    } else {
        1 + first_whitespace(s.skip(1))
    }
}

/// The first run of characters of `s` that are not white space, or `None`
/// if `s` is all white space.
pub open spec fn first_word(s: Seq<char>) -> Option<Seq<char>> {
    let rest = trim_start(s);
    if rest.len() == 0 {
        None
    } else {
        Some(rest.take(first_whitespace(rest)))
    }
}

/// The first newline lies within the text, and nothing before it is a
/// newline.
pub proof fn lemma_first_newline(s: Seq<char>)
    ensures
        0 <= first_newline(s) <= s.len(),
        first_newline(s) < s.len() ==> s[first_newline(s)] == '\n',
        forall|i: int| 0 <= i < first_newline(s) ==> s[i] != '\n',
    decreases s.len(),
{
    if s.len() > 0 && s[0] != '\n' {
        lemma_first_newline(s.skip(1));
        assert forall|i: int| 0 <= i < first_newline(s) implies s[i] != '\n' by {
            if i > 0 {
                assert(s[i] == s.skip(1)[i - 1]);
            }
        }
    }
}

/// In a text that starts with a stretch free of newlines, followed by a
/// newline, the first newline is that one.
pub proof fn lemma_first_newline_after_clean(clean: Seq<char>, rest: Seq<char>)
    requires
        forall|i: int| 0 <= i < clean.len() ==> clean[i] != '\n',
    ensures
        first_newline(clean + seq!['\n'] + rest) == clean.len(),
    decreases clean.len(),
{
    let text = clean + seq!['\n'] + rest;
    if clean.len() > 0 {
        assert(text[0] == clean[0]);
        assert(text.skip(1) == clean.skip(1) + seq!['\n'] + rest);
        lemma_first_newline_after_clean(clean.skip(1), rest);
    } else {
        assert(text[0] == '\n');
    }
}

/// The first line of a text that holds a line feed is what stands before
/// the first line feed; the other lines are those of what follows it.
pub proof fn lemma_lines_first(clean: Seq<char>, rest: Seq<char>)
    requires
        forall|i: int| 0 <= i < clean.len() ==> clean[i] != '\n',
    ensures
        lines(clean + seq!['\n'] + rest) == seq![strip_cr(clean)] + lines(rest),
{
    let text = clean + seq!['\n'] + rest;
    lemma_first_newline_after_clean(clean, rest);
    assert(text.take(clean.len() as int) == clean);
    assert(text.skip(clean.len() as int + 1) == rest);
}

/// Says whether a character is white space.
pub fn is_whitespace_char(c: char) -> (b: bool)
    ensures
        b == is_whitespace(c),
{
    let n: u32 = c as u32;
    (0x09 <= n && n <= 0x0d) || n == 0x20 || n == 0x85 || n == 0xa0 || n == 0x1680 || (0x2000
        <= n && n <= 0x200a) || n == 0x2028 || n == 0x2029 || n == 0x202f || n == 0x205f || n
        == 0x3000
}

/// The bounds of `v[from..to]` without the white space at its start and end.
pub fn trim_range(v: &Vec<char>, from: usize, to: usize) -> (r: (usize, usize))
    requires
        from <= to <= v.len(),
    ensures
        from <= r.0 <= r.1 <= to,
        v@.subrange(r.0 as int, r.1 as int) == trim(v@.subrange(from as int, to as int)),
{
    let mut a: usize = from;
    while a < to && is_whitespace_char(v[a])
        invariant
            from <= a <= to <= v.len(),
            trim_start(v@.subrange(from as int, to as int)) == trim_start(
                v@.subrange(a as int, to as int),
            ),
        decreases to - a,
    {
        assert(v@.subrange(a as int, to as int).skip(1) == v@.subrange(a + 1, to as int));
        a = a + 1;
    }
    let mut b: usize = to;
    while b > a && is_whitespace_char(v[b - 1])
        invariant
            a <= b <= to <= v.len(),
            trim_end(v@.subrange(a as int, to as int)) == trim_end(v@.subrange(a as int, b as int)),
        decreases b,
    {
        assert(v@.subrange(a as int, b as int).drop_last() == v@.subrange(a as int, b - 1));
        b = b - 1;
    }
    (a, b)
}

/// Says whether `v[from..to]` starts with `prefix`.
pub fn range_has_prefix(v: &Vec<char>, from: usize, to: usize, prefix: &str) -> (b: bool)
    requires
        from <= to <= v.len(),
    ensures
        b == has_prefix(v@.subrange(from as int, to as int), prefix@),
{
    let p = chars_of(prefix);
    let ghost s = v@.subrange(from as int, to as int);
    if p.len() > to - from {
        return false;
    }
    let mut i: usize = 0;
    while i < p.len()
        invariant
            i <= p.len() <= to - from,
            from <= to <= v.len(),
            s == v@.subrange(from as int, to as int),
            p@ == prefix@,
            forall|j: int| 0 <= j < i ==> s[j] == p@[j],
        decreases p.len() - i,
    {
        if v[from + i] != p[i] {
            assert(s.take(p@.len() as int)[i as int] != p@[i as int]);
            return false;
        }
        i = i + 1;
    }
    assert(s.take(p@.len() as int) == p@);
    true
}

/// Says whether `v[from..to]` ends with `suffix`.
pub fn range_has_suffix(v: &Vec<char>, from: usize, to: usize, suffix: &str) -> (b: bool)
    requires
        from <= to <= v.len(),
    ensures
        b == has_suffix(v@.subrange(from as int, to as int), suffix@),
{
    let p = chars_of(suffix);
    let ghost s = v@.subrange(from as int, to as int);
    if p.len() > to - from {
        return false;
    }
    let base: usize = to - p.len();
    let mut i: usize = 0;
    while i < p.len()
        invariant
            i <= p.len() <= to - from,
            base == to - p.len(),
            from <= to <= v.len(),
            s == v@.subrange(from as int, to as int),
            p@ == suffix@,
            forall|j: int| 0 <= j < i ==> s[s.len() - p@.len() + j] == p@[j],
        decreases p.len() - i,
    {
        if v[base + i] != p[i] {
            assert(s.skip(s.len() - p@.len())[i as int] != p@[i as int]);
            return false;
        }
        i = i + 1;
    }
    assert(s.skip(s.len() - p@.len()) == p@);
    true
}

/// Says whether `pattern` occurs somewhere in `v[from..to]`.
pub fn range_contains(v: &Vec<char>, from: usize, to: usize, pattern: &str) -> (b: bool)
    requires
        from <= to <= v.len(),
    ensures
        b == contains(v@.subrange(from as int, to as int), pattern@),
{
    let p = chars_of(pattern);
    let ghost s = v@.subrange(from as int, to as int);
    if p.len() > to - from {
        assert(forall|at: int| !occurs_at(s, p@, at));
        return false;
    }
    let last: usize = to - p.len();
    let mut at: usize = from;
    loop
        invariant_except_break
            from <= at <= last,
            last == to - p.len(),
            from <= to <= v.len(),
            s == v@.subrange(from as int, to as int),
            p@ == pattern@,
            forall|k: int| 0 <= k < at - from ==> !occurs_at(s, p@, k),
        ensures
            last == to - p.len(),
            from <= to <= v.len(),
            s == v@.subrange(from as int, to as int),
            p@ == pattern@,
            forall|k: int| 0 <= k <= last - from ==> !occurs_at(s, p@, k),
        decreases last - at,
    {
        let mut i: usize = 0;
        let mut same = true;
        while i < p.len()
            invariant
                i <= p.len(),
                from <= at <= last,
                last == to - p.len(),
                to <= v.len(),
                s == v@.subrange(from as int, to as int),
                same ==> forall|j: int| 0 <= j < i ==> s[at - from + j] == p@[j],
                !same ==> !occurs_at(s, p@, at - from),
            decreases p.len() - i,
        {
            if same && v[at + i] != p[i] {
                same = false;
                assert(s.subrange(at - from, at - from + p@.len())[i as int] != p@[i as int]);
            }
            i = i + 1;
        }
        if same {
            assert(s.subrange(at - from, at - from + p@.len()) == p@);
            assert(occurs_at(s, p@, at - from));
            return true;
        }
        if at == last {
            break;
        }
        at = at + 1;
    }
    assert(forall|k: int| !occurs_at(s, p@, k));
    false
}

/// The bounds of the lines of `v`, in order.
pub fn split_lines(v: &Vec<char>) -> (bounds: Vec<(usize, usize)>)
    ensures
        bounds@.len() == lines(v@).len(),
        forall|i: int|
            0 <= i < bounds@.len() ==> (#[trigger] bounds@[i]).0 <= bounds@[i].1 <= v@.len()
                && v@.subrange(bounds@[i].0 as int, bounds@[i].1 as int) == lines(v@)[i],
{
    let mut bounds: Vec<(usize, usize)> = Vec::new();
    let ghost mut done: Seq<Seq<char>> = Seq::empty();
    let mut start: usize = 0;
    assert(v@.skip(0) == v@);
    assert(done + lines(v@) == lines(v@));
    while start < v.len()
        invariant
            start <= v@.len(),
            lines(v@) == done + lines(v@.skip(start as int)),
            bounds@.len() == done.len(),
            forall|i: int|
                0 <= i < bounds@.len() ==> (#[trigger] bounds@[i]).0 <= bounds@[i].1 <= v@.len()
                    && v@.subrange(bounds@[i].0 as int, bounds@[i].1 as int) == done[i],
        decreases v@.len() - start,
    {
        let ghost rest = v@.skip(start as int);
        let mut end: usize = start;
        while end < v.len() && v[end] != '\n'
            invariant
                start <= end <= v@.len(),
                forall|i: int| start <= i < end ==> v@[i] != '\n',
            decreases v@.len() - end,
        {
            end = end + 1;
        }
        let ghost clean = v@.subrange(start as int, end as int);
        proof {
            lemma_first_newline(rest);
            if end < v@.len() {
                let tail = v@.skip(end + 1);
                assert(rest == clean + seq!['\n'] + tail);
                lemma_first_newline_after_clean(clean, tail);
                assert(rest.take(end - start) == clean);
                assert(rest.skip(end - start + 1) == tail);
            } else {
                assert(rest == clean);
                let found = first_newline(rest);
                if found < rest.len() {
                    assert(rest[found] == v@[start + found]);
                }
            }
        }
        if end == v.len() {
            bounds.push((start, end));
            proof {
                assert(lines(rest) == seq![rest]);
                assert(v@.skip(end as int) == Seq::<char>::empty());
                assert(lines(Seq::<char>::empty()) == Seq::<Seq<char>>::empty());
                done = done.push(rest);
            }
            start = end;
        } else {
            let line_end: usize = if end > start && v[end - 1] == '\r' {
                end - 1
            } else {
                end
            };
            bounds.push((start, line_end));
            proof {
                assert(v@.subrange(start as int, line_end as int) == strip_cr(clean)) by {
                    if clean.len() > 0 && clean.last() == '\r' {
                        assert(clean.drop_last() == v@.subrange(start as int, end - 1));
                    }
                }
                done = done.push(strip_cr(clean));
            }
            start = end + 1;
        }
    }
    assert(v@.skip(start as int) == Seq::<char>::empty());
    assert(lines(Seq::<char>::empty()) == Seq::<Seq<char>>::empty());
    assert(done + Seq::<Seq<char>>::empty() == done);
    bounds
}

/// The bounds of the first word of `v[from..to]`, if it has one.
pub fn first_word_range(v: &Vec<char>, from: usize, to: usize) -> (r: Option<(usize, usize)>)
    requires
        from <= to <= v.len(),
    ensures
        match r {
            Some((a, b)) => from <= a <= b <= to && first_word(v@.subrange(from as int, to as int))
                == Some(v@.subrange(a as int, b as int)),
            None => first_word(v@.subrange(from as int, to as int)) is None,
        },
{
    let mut a: usize = from;
    while a < to && is_whitespace_char(v[a])
        invariant
            from <= a <= to <= v.len(),
            trim_start(v@.subrange(from as int, to as int)) == trim_start(
                v@.subrange(a as int, to as int),
            ),
        decreases to - a,
    {
        assert(v@.subrange(a as int, to as int).skip(1) == v@.subrange(a + 1, to as int));
        a = a + 1;
    }
    if a == to {
        return None;
    }
    let ghost rest = v@.subrange(a as int, to as int);
    let mut b: usize = a;
    assert(rest.skip(0) == rest);
    while b < to && !is_whitespace_char(v[b])
        invariant
            a <= b <= to <= v.len(),
            rest == v@.subrange(a as int, to as int),
            first_whitespace(rest) == (b - a) + first_whitespace(rest.skip(b - a)),
        decreases to - b,
    {
        assert(rest.skip(b - a)[0] == v@[b as int]);
        assert(rest.skip(b - a).skip(1) == rest.skip(b + 1 - a));
        b = b + 1;
    }
    proof {
        if b < to {
            assert(rest.skip(b - a)[0] == v@[b as int]);
        }
        assert(first_whitespace(rest) == b - a);
        assert(rest.take(b - a) == v@.subrange(a as int, b as int));
    }
    Some((a, b))
}

/// Says whether two strings hold the same characters.
pub fn same_text(a: &str, b: &str) -> (same: bool)
    ensures
        same == (a@ == b@),
{
    let x = chars_of(a);
    let y = chars_of(b);
    if x.len() != y.len() {
        return false;
    }
    let mut i: usize = 0;
    while i < x.len()
        invariant
            i <= x.len(),
            x.len() == y.len(),
            x@ == a@,
            y@ == b@,
            forall|j: int| 0 <= j < i ==> x@[j] == y@[j],
        decreases x.len() - i,
    {
        if x[i] != y[i] {
            return false;
        }
        i = i + 1;
    }
    assert(x@ == y@);
    true
}

/// The character for a hexadecimal digit, in upper or lower case.
pub open spec fn hex_digit_char(d: nat, upper: bool) -> char
    recommends
        d < 16,
{
    if d < 10 {
        digit_char(d)
    } else if upper {
        (('A' as nat) + d - 10) as char
    } else {
        (('a' as nat) + d - 10) as char
    }
}

/// `n` in hexadecimal, without prefix or leading zeros.
pub open spec fn hexadecimal(n: nat, upper: bool) -> Seq<char>
    decreases n,
{
    if n < 16 {
        seq![hex_digit_char(n, upper)]
    } else {
        hexadecimal(n / 16, upper).push(hex_digit_char(n % 16, upper))
    }
}

/// A byte as two hexadecimal digits in lower case.
pub open spec fn hex_byte(b: u8) -> Seq<char> {
    seq![hex_digit_char((b / 16) as nat, false), hex_digit_char((b % 16) as nat, false)]
}

/// The character for the hexadecimal digit `d`.
pub fn hex_digit(d: u8, upper: bool) -> (c: char)
    requires
        d < 16,
    ensures
        c == hex_digit_char(d as nat, upper),
{
    if d < 10 {
        digit(d)
    } else if upper {
        (55u8 + d) as char
    } else {
        (87u8 + d) as char
    }
}

/// Appends `n` in hexadecimal to `out`.
pub fn append_hexadecimal(out: &mut String, n: u64, upper: bool)
    ensures
        final(out)@ == old(out)@ + hexadecimal(n as nat, upper),
    decreases n,
{
    if n >= 16 {
        append_hexadecimal(out, n / 16, upper);
    }
    push_char(out, hex_digit((n % 16) as u8, upper));
}

/// Appends a byte as two hexadecimal digits in lower case.
pub fn append_hex_byte(out: &mut String, b: u8)
    ensures
        final(out)@ == old(out)@ + hex_byte(b),
{
    push_char(out, hex_digit(b / 16, false));
    push_char(out, hex_digit(b % 16, false));
}

/// How `Debug` shows a string: in double quotes, with the characters that
/// would not show as themselves escaped.
pub uninterp spec fn debug_rendering(s: Seq<char>) -> Seq<char>;

/// A string as `Debug` shows it. Formats the string with `{:?}`; the
/// contract only gives the result a name, as a function of the string.
#[verifier::external_body]
pub(crate) fn debug_text(s: &str) -> (shown: String)
    ensures
        shown@ == debug_rendering(s@),
{
    format!("{:?}", s)
}

/// The text that bytes stand for as UTF-8, with the replacement character
/// in place of every stretch that is not valid UTF-8.
pub uninterp spec fn lossy_text(bytes: Seq<u8>) -> Seq<char>;

/// Bytes read as text. Calls `String::from_utf8_lossy`; the contract only
/// gives the result a name, as a function of the bytes.
#[verifier::external_body]
pub(crate) fn utf8_lossy(bytes: &[u8]) -> (text: String)
    ensures
        text@ == lossy_text(bytes@),
{
    String::from_utf8_lossy(bytes).into_owned()
}

/// What `f` gives for the first of `ls` for which it gives anything.
pub open spec fn first_match(
    ls: Seq<Seq<char>>,
    f: spec_fn(Seq<char>) -> Option<Seq<char>>,
) -> Option<Seq<char>>
    decreases ls.len(),
{
    if ls.len() == 0 {
        None
    } else {
        match f(ls[0]) {
            Some(found) => Some(found),
            None => first_match(ls.skip(1), f),
        }
    }
}

/// What `f` gives for the last of `ls` for which it gives anything.
pub open spec fn last_match(
    ls: Seq<Seq<char>>,
    f: spec_fn(Seq<char>) -> Option<Seq<char>>,
) -> Option<Seq<char>>
    decreases ls.len(),
{
    if ls.len() == 0 {
        None
    } else {
        match f(ls.last()) {
            Some(found) => Some(found),
            None => last_match(ls.drop_last(), f),
        }
    }
}

/// The words of a text: its runs of characters that are not white space,
/// in order.
pub open spec fn words(s: Seq<char>) -> Seq<Seq<char>>
    decreases s.len(),
{
    let n = first_whitespace(s);
    if s.len() == 0 {
        Seq::empty()
    } else if is_whitespace(s[0]) {
        words(s.skip(1))
    } else if 0 < n <= s.len() {
        seq![s.take(n)] + words(s.skip(n))
    } else {
        Seq::empty()
    }
}

/// Where nothing before `at` is white space and the character at `at` is,
/// or `at` is the end of the text, `at` is the place of the first white
/// space.
pub proof fn lemma_whitespace_found(s: Seq<char>, at: int)
    requires
        0 <= at <= s.len(),
        forall|i: int| 0 <= i < at ==> !is_whitespace(s[i]),
        at < s.len() ==> is_whitespace(s[at]),
    ensures
        first_whitespace(s) == at,
    decreases s.len(),
{
    if at > 0 {
        assert(!is_whitespace(s[0]));
        assert forall|i: int| 0 <= i < at - 1 implies !is_whitespace(s.skip(1)[i]) by {
            assert(s.skip(1)[i] == s[i + 1]);
        }
        if at < s.len() {
            assert(s.skip(1)[at - 1] == s[at]);
        }
        lemma_whitespace_found(s.skip(1), at - 1);
    }
}

/// The bounds of the words of `v[from..to]`, in order.
pub fn split_words(v: &Vec<char>, from: usize, to: usize) -> (bounds: Vec<(usize, usize)>)
    requires
        from <= to <= v.len(),
    ensures
        bounds@.len() == words(v@.subrange(from as int, to as int)).len(),
        forall|i: int|
            0 <= i < bounds@.len() ==> from <= (#[trigger] bounds@[i]).0 <= bounds@[i].1 <= to
                && v@.subrange(bounds@[i].0 as int, bounds@[i].1 as int) == words(
                v@.subrange(from as int, to as int),
            )[i],
{
    let ghost s = v@.subrange(from as int, to as int);
    let mut bounds: Vec<(usize, usize)> = Vec::new();
    let ghost mut done: Seq<Seq<char>> = Seq::empty();
    let mut at: usize = from;
    assert(s.skip(0) == s);
    assert(done + words(s) == words(s));
    while at < to
        invariant
            from <= at <= to <= v.len(),
            s == v@.subrange(from as int, to as int),
            words(s) == done + words(s.skip(at - from)),
            bounds@.len() == done.len(),
            forall|i: int|
                0 <= i < bounds@.len() ==> from <= (#[trigger] bounds@[i]).0 <= bounds@[i].1 <= to
                    && v@.subrange(bounds@[i].0 as int, bounds@[i].1 as int) == done[i],
        decreases to - at,
    {
        let ghost here = s.skip(at - from);
        assert(here[0] == v@[at as int]);
        if is_whitespace_char(v[at]) {
            assert(here.skip(1) == s.skip(at + 1 - from));
            at = at + 1;
        } else {
            let mut end: usize = at + 1;
            while end < to && !is_whitespace_char(v[end])
                invariant
                    at < end <= to <= v.len(),
                    from <= at,
                    s == v@.subrange(from as int, to as int),
                    here == s.skip(at - from),
                    forall|i: int| 0 <= i < end - at ==> !is_whitespace(here[i]),
                decreases to - end,
            {
                assert(here[end - at] == v@[end as int]);
                end = end + 1;
            }
            proof {
                if end < to {
                    assert(here[end - at] == v@[end as int]);
                }
                lemma_whitespace_found(here, end - at);
                assert(here.take(end - at) == v@.subrange(at as int, end as int));
                assert(here.skip(end - at) == s.skip(end - from));
                done = done.push(here.take(end - at));
                assert(words(s) == done + words(s.skip(end - from))) by {
                    let first = seq![here.take(end - at)];
                    assert(done == done.drop_last() + first);
                    assert(words(here) == first + words(here.skip(end - at)));
                }
            }
            bounds.push((at, end));
            at = end;
        }
    }
    assert(s.skip(to - from) == Seq::<char>::empty());
    assert(words(Seq::<char>::empty()) == Seq::<Seq<char>>::empty());
    assert(done + Seq::<Seq<char>>::empty() == done);
    bounds
}

/// Says whether `v[from..to]` holds the same characters as `text`.
pub fn range_equals(v: &Vec<char>, from: usize, to: usize, text: &str) -> (b: bool)
    requires
        from <= to <= v.len(),
    ensures
        b == (v@.subrange(from as int, to as int) == text@),
{
    let p = chars_of(text);
    let ghost s = v@.subrange(from as int, to as int);
    if p.len() != to - from {
        return false;
    }
    let same = range_has_prefix(v, from, to, text);
    assert(s.take(s.len() as int) == s);
    same
}

/// `n` spaces.
pub open spec fn spaces(n: nat) -> Seq<char> {
    Seq::new(n, |i: int| ' ')
}

/// `s` with spaces before it so that it is at least `width` characters long.
pub open spec fn pad_left(s: Seq<char>, width: nat) -> Seq<char> {
    if s.len() >= width {
        s
    } else {
        spaces((width - s.len()) as nat) + s
    }
}

/// Appends `text` with spaces before it so that it takes at least `width`
/// characters.
pub fn append_padded(out: &mut String, text: &str, width: usize)
    ensures
        final(out)@ == old(out)@ + pad_left(text@, width as nat),
{
    let n = text.unicode_len();
    if n < width {
        let mut i: usize = 0;
        while i < width - n
            invariant
                n < width,
                i <= width - n,
                out@ == old(out)@ + spaces(i as nat),
            decreases width - n - i,
        {
            push_char(out, ' ');
            assert(spaces((i + 1) as nat) == spaces(i as nat).push(' '));
            i = i + 1;
        }
    } else {
        assert(out@ + Seq::<char>::empty() == out@);
    }
    out.append(text);
}

} // verus!
