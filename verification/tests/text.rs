use rayhunter::text::{
    append_chars, append_decimal, append_hex_byte, append_hexadecimal, append_padded,
    append_signed_decimal, chars_of, first_word_range, is_whitespace_char, range_contains,
    range_equals, range_has_prefix, range_has_suffix, same_text, split_lines, split_words,
    string_of, trim_range, vec_of,
};

/// Texts with every kind of line ending and white space in every place.
fn samples() -> Vec<String> {
    let pieces = ["", "a", "ab c", " ", "\t", "\r", "\n", "\r\n", "\u{a0}", "\u{2003}x", "\u{200b}", "é", "x\ry"];
    let mut out = Vec::new();
    for a in pieces {
        for b in pieces {
            for c in pieces {
                out.push(format!("{a}{b}{c}"));
            }
        }
    }
    out
}

fn slice(v: &Vec<char>, bounds: (usize, usize)) -> String {
    v[bounds.0..bounds.1].iter().collect()
}

#[test]
fn chars_and_strings_convert_both_ways() {
    for s in samples() {
        let v = chars_of(&s);
        assert_eq!(v, s.chars().collect::<Vec<char>>());
        assert_eq!(string_of(&v, 0, v.len()), s);
        assert_eq!(vec_of(&v, 0, v.len()), v);
    }
    let v = chars_of("hello");
    assert_eq!(string_of(&v, 1, 3), "el");
    assert_eq!(vec_of(&v, 4, 5), vec!['o']);
    let mut out = String::from(">");
    append_chars(&mut out, &v, 2, 5);
    assert_eq!(out, ">llo");
}

#[test]
fn white_space_is_what_the_language_says() {
    for code in 0..=0x3100u32 {
        if let Some(c) = char::from_u32(code) {
            assert_eq!(is_whitespace_char(c), c.is_whitespace(), "U+{:04X}", code);
        }
    }
    assert!(!is_whitespace_char('\u{10ffff}'));
    assert!(!is_whitespace_char('\u{feff}'));
}

#[test]
fn lines_are_split_as_the_language_splits_them() {
    for s in samples() {
        let v = chars_of(&s);
        let ours: Vec<String> = split_lines(&v).into_iter().map(|b| slice(&v, b)).collect();
        let theirs: Vec<String> = s.lines().map(|l| l.to_string()).collect();
        assert_eq!(ours, theirs, "{:?}", s);
    }
}

#[test]
fn trimming_is_as_the_language_trims() {
    for s in samples() {
        let v = chars_of(&s);
        assert_eq!(slice(&v, trim_range(&v, 0, v.len())), s.trim(), "{:?}", s);
    }
    let v = chars_of("ab  cd  ef");
    assert_eq!(trim_range(&v, 2, 8), (4, 6));
    assert_eq!(trim_range(&v, 2, 4), (4, 4));
}

#[test]
fn words_are_split_as_the_language_splits_them() {
    for s in samples() {
        let v = chars_of(&s);
        let ours: Vec<String> =
            split_words(&v, 0, v.len()).into_iter().map(|b| slice(&v, b)).collect();
        let theirs: Vec<String> = s.split_whitespace().map(|w| w.to_string()).collect();
        assert_eq!(ours, theirs, "{:?}", s);
        let first = first_word_range(&v, 0, v.len()).map(|b| slice(&v, b));
        assert_eq!(first, theirs.first().cloned(), "{:?}", s);
    }
}

#[test]
fn searching_is_as_the_language_searches() {
    let patterns = ["", "a", "ab", " ", "\n", "b c", "é", "xy", "\r\n"];
    for s in samples() {
        let v = chars_of(&s);
        for p in patterns {
            assert_eq!(range_contains(&v, 0, v.len(), p), s.contains(p), "{:?} {:?}", s, p);
            assert_eq!(range_has_prefix(&v, 0, v.len(), p), s.starts_with(p), "{:?} {:?}", s, p);
            assert_eq!(range_has_suffix(&v, 0, v.len(), p), s.ends_with(p), "{:?} {:?}", s, p);
            assert_eq!(range_equals(&v, 0, v.len(), p), s == p, "{:?} {:?}", s, p);
            assert_eq!(same_text(&s, p), s == p);
        }
    }
    let v = chars_of("abcabc");
    assert!(range_contains(&v, 1, 5, "ca"));
    assert!(!range_contains(&v, 1, 3, "ca"));
    assert!(range_has_prefix(&v, 3, 6, "abc"));
    assert!(!range_has_prefix(&v, 4, 6, "abc"));
    assert!(range_has_suffix(&v, 0, 3, "bc"));
}

#[test]
fn numbers_are_written_as_the_language_writes_them() {
    let values = [0u64, 1, 9, 10, 11, 99, 100, 255, 256, 4095, 65535, 65536, u32::MAX as u64, u64::MAX];
    for n in values {
        let mut out = String::new();
        append_decimal(&mut out, n);
        assert_eq!(out, format!("{}", n));
        let mut out = String::new();
        append_hexadecimal(&mut out, n, true);
        assert_eq!(out, format!("{:X}", n));
        let mut out = String::new();
        append_hexadecimal(&mut out, n, false);
        assert_eq!(out, format!("{:x}", n));
    }
    for n in [0i32, 1, -1, 42, -42, i32::MAX, i32::MIN] {
        let mut out = String::from("n=");
        append_signed_decimal(&mut out, n);
        assert_eq!(out, format!("n={}", n));
    }
    for b in 0..=255u8 {
        let mut out = String::new();
        append_hex_byte(&mut out, b);
        assert_eq!(out, format!("{:02x}", b));
    }
}

#[test]
fn padding_is_as_the_language_pads() {
    for text in ["", "a", "abc", "abcd", "é", "日本語"] {
        for width in 0..6usize {
            let mut out = String::from("[");
            append_padded(&mut out, text, width);
            assert_eq!(out, format!("[{:>width$}", text, width = width));
        }
    }
}
