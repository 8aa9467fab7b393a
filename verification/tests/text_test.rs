use easyp2p::text::{
    chars_of, join_lines, lines_of, starts_with, string_of, trim, trim_after_prefixes, white_space,
};

const SAMPLES: [&str; 16] = [
    "",
    "\n",
    "\r\n",
    "a",
    "a\n",
    "a\r\nb",
    "a\r\nb\n\nc\r",
    "a\r\r\nb",
    "\r",
    "\n\n\n",
    "  x y\t",
    "\u{3000}wide\u{2003}",
    "data: x",
    "data:data: x",
    "data:data:",
    "v=0\r\na=candidate:udp 1\r\ns=-\r\n",
];

#[test]
fn lines_are_those_of_std() {
    for s in SAMPLES {
        assert_eq!(lines_of(s), s.lines().collect::<Vec<&str>>());
    }
    assert_eq!(lines_of("a\r\nb\n\nc\r"), vec!["a", "b", "", "c\r"]);
}

#[test]
fn joined_lines_are_those_of_std() {
    for s in SAMPLES {
        assert_eq!(join_lines(&lines_of(s)), s.lines().collect::<Vec<&str>>().join("\r\n"));
    }
    assert_eq!(join_lines(&vec!["a".to_string(), "b".to_string()]), "a\r\nb");
    assert_eq!(join_lines(&Vec::new()), "");
}

#[test]
fn joined_lines_are_read_back_but_for_an_empty_end() {
    let parts = vec!["a".to_string(), "".to_string(), "b\r".to_string()];
    assert_eq!(lines_of(&join_lines(&parts)), parts);
    let parts = vec!["a".to_string(), "".to_string()];
    assert_eq!(lines_of(&join_lines(&parts)), vec!["a"]);
}

#[test]
fn lines_of_a_text_cut_after_a_line_feed() {
    let mut parts = lines_of("a\r\nb\n");
    parts.extend(lines_of("c"));
    assert_eq!(lines_of("a\r\nb\nc"), parts);
}

#[test]
fn no_line_holds_a_line_feed() {
    for s in SAMPLES {
        assert!(lines_of(s).iter().all(|line| !line.contains('\n')));
    }
}

#[test]
fn white_space_is_that_of_std() {
    for n in 0..=0x10ffffu32 {
        if let Some(c) = char::from_u32(n) {
            assert_eq!(white_space(c), c.is_whitespace(), "{n:x}");
        }
    }
}

#[test]
fn trimming_is_that_of_std() {
    for s in SAMPLES {
        assert_eq!(trim(s), s.trim());
        assert_eq!(
            trim_after_prefixes(s, "data:"),
            s.trim_start_matches("data:").trim()
        );
        assert_eq!(starts_with(s, "data:"), s.starts_with("data:"));
        assert_eq!(starts_with(s, ""), s.starts_with(""));
    }
    assert_eq!(trim("  x y\t"), "x y");
    assert_eq!(trim("x y"), "x y");
    assert_eq!(trim_after_prefixes("aab", ""), "aab");
}

#[test]
fn characters_make_up_a_string_again() {
    let chars = chars_of("häß\u{1f600}");
    assert_eq!(chars, vec!['h', 'ä', 'ß', '\u{1f600}']);
    assert_eq!(string_of(&chars, 1, 4), "äß\u{1f600}");
    assert_eq!(string_of(&chars, 2, 2), "");
}
