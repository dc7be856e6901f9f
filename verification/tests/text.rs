use live_region::text::{is_control, is_white_space, sanitize_message, MAX_ANNOUNCEMENT_CHARS};

/// The cleaning the library promises, written with std's own character classes.
fn expected(message: &str) -> String {
    let mut cleaned = String::new();
    for ch in message.chars() {
        if matches!(ch, '\n' | '\r' | '\t') {
            cleaned.push(' ');
        } else if !ch.is_control() {
            cleaned.push(ch);
        }
    }
    let collapsed = cleaned.split_whitespace().collect::<Vec<_>>().join(" ");
    collapsed.chars().take(512).collect()
}

#[test]
fn control_class_matches_std() {
    for c in (0u32..=0x10FFFF).filter_map(char::from_u32) {
        assert_eq!(is_control(c), c.is_control(), "{:?}", c);
    }
}

#[test]
fn white_space_class_matches_std() {
    for c in (0u32..=0x10FFFF).filter_map(char::from_u32) {
        assert_eq!(is_white_space(c), c.is_whitespace(), "{:?}", c);
    }
}

#[test]
fn layout_characters_become_spaces() {
    assert_eq!(sanitize_message("Hello\nworld"), "Hello world");
    assert_eq!(sanitize_message("a\tb\r\nc"), "a b c");
}

#[test]
fn other_control_characters_are_dropped() {
    assert_eq!(sanitize_message("a\u{0}b\u{7}c\u{7f}d\u{9f}e"), "abcde");
    // NEXT LINE is a control character, so it is removed rather than splitting words.
    assert_eq!(sanitize_message("a\u{85}b"), "ab");
}

#[test]
fn whitespace_runs_collapse() {
    assert_eq!(sanitize_message("   Hello    there   "), "Hello there");
    assert_eq!(sanitize_message("a\u{a0}\u{3000}b"), "a b");
    assert_eq!(sanitize_message("x \u{2028}\u{2029} y"), "x y");
}

#[test]
fn blank_messages_become_empty() {
    assert_eq!(sanitize_message(""), "");
    assert_eq!(sanitize_message(" \n\t\r\u{1}\u{3000} "), "");
}

#[test]
fn long_messages_are_capped() {
    let long = "é".repeat(600);
    let r = sanitize_message(&long);
    assert_eq!(r.chars().count(), MAX_ANNOUNCEMENT_CHARS);
    assert_eq!(r, "é".repeat(512));
}

#[test]
fn cap_can_leave_trailing_space() {
    let message = format!("{} b", "a".repeat(511));
    let r = sanitize_message(&message);
    assert_eq!(r, format!("{} ", "a".repeat(511)));
    // Cleaning again drops only that space.
    assert_eq!(sanitize_message(&r), "a".repeat(511));
    assert_eq!(sanitize_message(&r), r[..r.len() - 1]);
}

#[test]
fn cleaning_twice_changes_nothing() {
    for m in ["  Hello \n world ", "a\u{0}b  c", "", "x", "日本 語\t\tテキスト"] {
        let once = sanitize_message(m);
        assert_eq!(sanitize_message(&once), once);
    }
}

#[test]
fn agrees_with_std_based_cleaning() {
    let pieces = [
        "a", "bc", " ", "  ", "\n", "\t", "\r", "\u{0}", "\u{7f}", "\u{85}", "\u{a0}", "\u{2003}",
        "\u{3000}", "é", "語", "\u{200b}", "\u{feff}", "!", "\u{1680}", "\u{180e}",
    ];
    let mut seed: u64 = 0x2545F4914F6CDD1D;
    for _ in 0..2000 {
        let mut m = String::new();
        seed ^= seed << 13;
        seed ^= seed >> 7;
        seed ^= seed << 17;
        let n = (seed % 40) as usize;
        for _ in 0..n {
            seed ^= seed << 13;
            seed ^= seed >> 7;
            seed ^= seed << 17;
            m.push_str(pieces[(seed % pieces.len() as u64) as usize]);
        }
        assert_eq!(sanitize_message(&m), expected(&m), "{:?}", m);
    }
    let long = "word ".repeat(200);
    assert_eq!(sanitize_message(&long), expected(&long));
}
