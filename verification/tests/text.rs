use termshell::text::{
    chars_of, ends_with, is_control_char, is_white_space, seq_ends_with, seq_starts_with,
    split_whitespace, starts_with, strip_prefix,
};

#[test]
fn white_space_matches_std_for_every_char() {
    for n in 0u32..=0x10FFFF {
        if let Some(c) = char::from_u32(n) {
            assert_eq!(is_white_space(c), c.is_whitespace(), "U+{:04X}", n);
        }
    }
}

#[test]
fn control_matches_std_for_every_char() {
    for n in 0u32..=0x10FFFF {
        if let Some(c) = char::from_u32(n) {
            assert_eq!(is_control_char(c), c.is_control(), "U+{:04X}", n);
        }
    }
}

#[test]
fn chars_of_keeps_every_char() {
    assert_eq!(chars_of("añ 日"), vec!['a', 'ñ', ' ', '日']);
    assert_eq!(chars_of(""), Vec::<char>::new());
}

fn std_words(s: &str) -> Vec<String> {
    s.split_whitespace().map(|w| w.to_string()).collect()
}

#[test]
fn split_whitespace_matches_std() {
    let lines = [
        "",
        "   ",
        "ls",
        "ls -la /tmp",
        "  cd   /home/bob  ",
        "a\tb\nc\r\nd",
        "x\u{3000}y\u{00A0}z\u{2028}w",
        "日本 語",
        "\u{85}lead and trail\u{1680}",
    ];
    for line in lines {
        assert_eq!(split_whitespace(line), std_words(line), "{:?}", line);
    }
}

#[test]
fn words_are_nonempty_and_unbroken() {
    for line in ["  a  bb\tccc ", "one", "\t\n", "x y"] {
        for w in split_whitespace(line) {
            assert!(!w.is_empty());
            assert!(!w.chars().any(|c| c.is_whitespace()));
        }
    }
}

#[test]
fn words_keep_all_text() {
    let line = " cd\t/home/bob  extra ";
    let joined: String = split_whitespace(line).concat();
    let kept: String = line.chars().filter(|c| !c.is_whitespace()).collect();
    assert_eq!(joined, kept);
    assert_eq!(joined, "cd/home/bobextra");
}

#[test]
fn prefix_and_suffix_tests() {
    assert!(starts_with("/home/bob", "/home/"));
    assert!(starts_with("abc", ""));
    assert!(!starts_with("ab", "abc"));
    assert!(!starts_with("/usr/home/", "/home/"));
    assert!(ends_with("cat.png", ".png"));
    assert!(ends_with("x", ""));
    assert!(!ends_with("png", ".png"));
    assert!(!ends_with("cat.png.txt", ".png"));
    assert!(seq_starts_with(&vec!['a', 'b'], &vec!['a']));
    assert!(!seq_starts_with(&vec!['a', 'b'], &vec!['b']));
    assert!(seq_ends_with(&vec!['a', 'b'], &vec!['b']));
    assert!(!seq_ends_with(&vec!['a'], &vec!['a', 'a']));
}

#[test]
fn strip_prefix_cases() {
    assert_eq!(strip_prefix("/home/bob/x", "/home/"), Some("bob/x".to_string()));
    assert_eq!(strip_prefix("/home/", "/home/"), Some(String::new()));
    assert_eq!(strip_prefix("/root", "/home/"), None);
    assert_eq!(strip_prefix("日本語", "日"), Some("本語".to_string()));
}

#[test]
fn split_inverts_join() {
    let ws = vec!["ls".to_string(), "-la".to_string(), "/tmp".to_string()];
    assert_eq!(split_whitespace(&ws.join(" ")), ws);
    let one = vec!["x".to_string()];
    assert_eq!(split_whitespace(&one.join(" ")), one);
    assert_eq!(split_whitespace(&Vec::<String>::new().join(" ")), Vec::<String>::new());
}
