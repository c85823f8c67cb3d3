use repo::error::ProjectStatus;
use repo::git::{check_project_status, origin_url_text, status_from_rev_list};
use repo::text::{has_line, is_whitespace, lines, pad_right, parse_u64, repeat, split_whitespace, trim};

#[test]
fn parse_accepts_plus_sign_and_digits() {
    assert_eq!(parse_u64("0"), Some(0));
    assert_eq!(parse_u64("42"), Some(42));
    assert_eq!(parse_u64("+7"), Some(7));
    assert_eq!(parse_u64("18446744073709551615"), Some(u64::MAX));
}

#[test]
fn parse_rejects_what_str_parse_rejects() {
    assert_eq!(parse_u64(""), None);
    assert_eq!(parse_u64("+"), None);
    assert_eq!(parse_u64("-1"), None);
    assert_eq!(parse_u64("-0"), None);
    assert_eq!(parse_u64("1a"), None);
    assert_eq!(parse_u64(" 1"), None);
    assert_eq!(parse_u64("18446744073709551616"), None);
    assert_eq!(parse_u64("99999999999999999999x"), None);
}

#[test]
fn parse_agrees_with_std() {
    for s in ["0", "+0", "00012", "+", "++1", "1+", "٣", "4294967296", "18446744073709551615"] {
        assert_eq!(parse_u64(s), s.parse::<u64>().ok(), "input {:?}", s);
    }
}

#[test]
fn whitespace_is_unicode_white_space() {
    for c in ['\t', '\n', '\u{b}', '\u{c}', '\r', ' ', '\u{85}', '\u{a0}', '\u{1680}', '\u{2000}', '\u{200a}', '\u{2028}', '\u{2029}', '\u{202f}', '\u{205f}', '\u{3000}'] {
        assert!(is_whitespace(c), "{:?}", c);
    }
    for c in ['a', '0', '\u{200b}', '\u{feff}', '\u{180e}', '\u{1f}'] {
        assert!(!is_whitespace(c), "{:?}", c);
    }
    for c in (0u32..0x3100).filter_map(char::from_u32) {
        assert_eq!(is_whitespace(c), c.is_whitespace(), "{:?}", c);
    }
}

#[test]
fn split_whitespace_matches_std() {
    for s in ["", "   ", "3\t0\n", "  a  b ", "a\u{3000}b", "one", "x\r\ny"] {
        let ours = split_whitespace(s);
        let std_words: Vec<String> = s.split_whitespace().map(|w| w.to_string()).collect();
        assert_eq!(ours, std_words, "input {:?}", s);
    }
}

#[test]
fn lines_match_std() {
    for s in ["", "\n", "a", "a\n", "a\nb", "a\r\nb\r\n", "x\r", "\n\nz", "a\rb\n", "\r\n"] {
        let ours = lines(s);
        let std_lines: Vec<String> = s.lines().map(|l| l.to_string()).collect();
        assert_eq!(ours, std_lines, "input {:?}", s);
    }
}

#[test]
fn has_line_finds_whole_lines_only() {
    assert!(has_line("target\nbuild\n", "build"));
    assert!(has_line("target\r\nbuild", "target"));
    assert!(!has_line("target/\n", "target"));
    assert!(!has_line("", "target"));
}

#[test]
fn padding_and_repetition() {
    assert_eq!(pad_right("ab", 5), "ab   ");
    assert_eq!(pad_right("abcdef", 3), "abcdef");
    assert_eq!(pad_right("ü", 3), format!("{:<3}", "ü"));
    assert_eq!(repeat("─", 3), "───");
    assert_eq!(repeat("-", 0), "");
}

#[test]
fn rev_list_counts_decide_the_status() {
    assert_eq!(status_from_rev_list("0\t0\n"), ProjectStatus::Clean);
    assert_eq!(status_from_rev_list("2\t0\n"), ProjectStatus::Ahead);
    assert_eq!(status_from_rev_list("0\t5\n"), ProjectStatus::Behind);
    assert_eq!(status_from_rev_list("1\t1\n"), ProjectStatus::OutOfSync);
}

#[test]
fn malformed_rev_list_output() {
    assert_eq!(status_from_rev_list(""), ProjectStatus::Unknown);
    assert_eq!(status_from_rev_list("1 2 3"), ProjectStatus::Unknown);
    // a count that does not parse counts as 0
    assert_eq!(status_from_rev_list("x 3"), ProjectStatus::Behind);
    assert_eq!(status_from_rev_list("x y"), ProjectStatus::Clean);
}

#[test]
fn working_tree_check_settles_changes_and_failures() {
    let dirty = Ok(b" M src/lib.rs\n".to_vec());
    assert_eq!(check_project_status(&dirty, &None), Some(ProjectStatus::Changes));
    let io = Err(repo::error::RepoError::Io("denied".to_string()));
    assert_eq!(check_project_status(&io, &None), Some(ProjectStatus::Uninitialized));
    let clean = Ok(Vec::new());
    let failed_upstream = Some(Err(repo::error::RepoError::Git {
        path: "/ws/p".to_string(),
        message: "no upstream configured".to_string(),
    }));
    assert_eq!(check_project_status(&clean, &failed_upstream), Some(ProjectStatus::Unknown));
}

#[test]
fn upstream_output_is_decoded_as_utf8() {
    let clean = Ok(Vec::new());
    // valid UTF-8: the text itself
    assert_eq!(check_project_status(&clean, &Some(Ok(b"3\t0".to_vec()))), Some(ProjectStatus::Ahead));
    // an invalid byte turns into U+FFFD, so that count no longer parses
    assert_eq!(check_project_status(&clean, &Some(Ok(vec![0xff, b'1', b'\t', b'0']))), Some(ProjectStatus::Clean));
    assert_eq!(check_project_status(&clean, &Some(Ok(vec![b'1', b'\t', 0xc3, 0xa9]))), Some(ProjectStatus::Ahead));
}

#[test]
fn status_labels() {
    assert_eq!(ProjectStatus::Clean.label(), "CLEAN");
    assert_eq!(ProjectStatus::Changes.label(), "CHANGES");
    assert_eq!(ProjectStatus::Uninitialized.label(), "UNINITIALIZED");
    assert_eq!(ProjectStatus::Unknown.label(), "UNKNOWN");
    assert_eq!(ProjectStatus::Ahead.label(), "AHEAD");
    assert_eq!(ProjectStatus::Behind.label(), "BEHIND");
    assert_eq!(ProjectStatus::OutOfSync.label(), "OUT_OF_SYNC");
}

#[test]
fn trim_matches_std() {
    for s in ["", "  ", " a ", "a", "\tab c\r\n", "\u{3000}x\u{a0}", "x  y", "\n"] {
        assert_eq!(trim(s), s.trim(), "input {:?}", s);
    }
}

#[test]
fn origin_url_is_trimmed_or_unknown() {
    assert_eq!(origin_url_text(&Ok(b"ssh://git@example.com/a.git\n".to_vec())), "ssh://git@example.com/a.git");
    let failed = Err(repo::error::RepoError::Git { path: "/ws/a".to_string(), message: "no remote".to_string() });
    assert_eq!(origin_url_text(&failed), "<unknown>");
}
