use tuxscale::text::{
    char_is_space, chars_of, join_first, lines_of, str_contains, str_contains_char, str_eq,
    str_is_blank, str_lt, words_of,
};

fn owned(v: &[&str]) -> Vec<String> {
    v.iter().map(|s| s.to_string()).collect()
}

const SAMPLES: &[&str] = &[
    "",
    "\n",
    "a",
    "a\n",
    "a\r\nb",
    "a\r\nb\r\n",
    "a\rb\n",
    "line one\n\nline three\n",
    "\r\n\r\n",
    "tail\r",
    "  spaced   words\there \u{3000}wide\u{a0}nbsp ",
    "ünïcödé\nlines",
];

#[test]
fn lines_match_str_lines() {
    for s in SAMPLES {
        let expected: Vec<String> = s.lines().map(|l| l.to_string()).collect();
        assert_eq!(lines_of(s), expected, "lines of {:?}", s);
    }
}

#[test]
fn lines_drop_the_final_line_ending() {
    assert_eq!(lines_of("x\ny\n"), owned(&["x", "y"]));
    assert_eq!(lines_of("x\r\n\ny"), owned(&["x", "", "y"]));
    assert!(lines_of("").is_empty());
}

#[test]
fn words_match_split_whitespace() {
    for s in SAMPLES {
        let expected: Vec<String> = s.split_whitespace().map(|w| w.to_string()).collect();
        assert_eq!(words_of(s), expected, "words of {:?}", s);
    }
}

#[test]
fn whitespace_matches_char_is_whitespace() {
    for u in 0u32..=0x10FFFF {
        if let Some(c) = char::from_u32(u) {
            assert_eq!(char_is_space(c), c.is_whitespace(), "char {:#x}", u);
        }
    }
}

#[test]
fn blank_matches_trim() {
    for s in SAMPLES {
        assert_eq!(str_is_blank(s), s.trim().is_empty(), "blank {:?}", s);
    }
    assert!(str_is_blank(" \t\u{2003}"));
    assert!(!str_is_blank(" x "));
}

#[test]
fn contains_matches_str_contains() {
    let hay = ["pong from peer (100.1.2.3) via DERP(fra) in 23ms", "", "ms", "m s", "pon"];
    let pats = ["ms", "pong", "", "x", "DERP(fra)"];
    for h in hay {
        for p in pats {
            assert_eq!(str_contains(h, p), h.contains(p), "{:?} in {:?}", p, h);
        }
        assert_eq!(str_contains_char(h, '('), h.contains('('));
    }
}

#[test]
fn lt_matches_string_order() {
    let names = ["", "a", "b", "ab", "aB", "Z", "é", "e", "zeta", "alpha", "alpha2", "\u{10000}", "\u{ffff}"];
    for a in names {
        for b in names {
            assert_eq!(str_lt(a, b), a.to_string() < b.to_string(), "{:?} < {:?}", a, b);
            assert_eq!(str_eq(a, b), a == b);
        }
    }
}

#[test]
fn chars_are_in_order() {
    assert_eq!(chars_of("héllo"), vec!['h', 'é', 'l', 'l', 'o']);
}

#[test]
fn join_first_takes_a_prefix() {
    let parts = owned(&["a", "b", "c", "d"]);
    assert_eq!(join_first(&parts, 3, " | "), "a | b | c");
    assert_eq!(join_first(&parts, 1, " | "), "a");
    assert_eq!(join_first(&parts, 0, " | "), "");
}
