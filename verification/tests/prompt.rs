use termshell::prompt::{
    completion_dir, echo_sections, image_path, in_home, prepend_sections, prompt_sections, strip_path,
    window_title,
};

#[test]
fn strip_path_keeps_what_is_below_home() {
    assert_eq!(strip_path("/home/bob/docs/src".to_string(), "bob"), "/docs/src");
    assert_eq!(strip_path("/home/bob".to_string(), "bob"), "");
    assert_eq!(strip_path("/home/bobby/x".to_string(), "bob"), "by/x");
}

#[test]
fn strip_path_inverts_home() {
    let rest = "/a/b";
    let path = format!("/home/{}{}", "eve", rest);
    assert!(in_home(&path, "eve"));
    assert_eq!(strip_path(path, "eve"), rest);
}

#[test]
fn in_home_cases() {
    assert!(in_home("/home/bob/x", "bob"));
    assert!(!in_home("/root", "bob"));
    assert!(!in_home("/home/al", "bob"));
}

#[test]
fn window_title_text() {
    assert_eq!(window_title("bob", "box", "/docs"), "bob@box:~/docs");
}

#[test]
fn prompt_sections_text() {
    assert_eq!(
        prompt_sections("bob", "box", "/docs", "ls -la"),
        vec!["bob@box:".to_string(), "~/docs".to_string(), "$ ls -la".to_string()]
    );
}

#[test]
fn echo_sections_text() {
    assert_eq!(
        echo_sections("bob", "box", "/docs", "ls", "a\nb\n"),
        vec![
            "bob@box".to_string(),
            "/docs".to_string(),
            "$ ls".to_string(),
            "\na\nb\n".to_string()
        ]
    );
}

#[test]
fn paths_below_home() {
    assert_eq!(completion_dir("bob", "/docs"), "/home/bob//docs/");
    assert_eq!(image_path("bob", "/docs", "cat.png"), "/home/bob//docs/cat.png");
    assert_eq!(image_path("bob", "", "cat.png"), "/home/bob//cat.png");
}

#[test]
fn prepend_sections_puts_the_echo_first() {
    let mut sections = vec!["old1".to_string(), "old2".to_string()];
    prepend_sections(&mut sections, vec!["a".to_string(), "b".to_string(), "c".to_string(), "d".to_string()]);
    assert_eq!(sections, vec!["a", "b", "c", "d", "old1", "old2"]);
    let mut empty: Vec<u32> = vec![];
    prepend_sections(&mut empty, vec![]);
    assert!(empty.is_empty());
}
