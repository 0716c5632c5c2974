use termshell::command::{
    after_dir_check, is_image_file, plan_command, return_action, spawn_reply, ReturnAction,
    ShellAction,
};

#[test]
fn cd_alone_goes_home() {
    assert!(matches!(plan_command("cd"), ShellAction::GoHome));
    assert!(matches!(plan_command("  cd  "), ShellAction::GoHome));
}

#[test]
fn cd_with_one_argument_checks_the_directory() {
    match plan_command("cd /tmp") {
        ShellAction::CheckDir(d) => assert_eq!(d, "/tmp"),
        _ => panic!("expected a directory check"),
    }
}

#[test]
fn cd_with_two_arguments_is_refused() {
    match plan_command("cd a b") {
        ShellAction::Reply(m) => assert_eq!(m, "cd: too many arguments"),
        _ => panic!("expected a reply"),
    }
}

#[test]
fn other_commands_are_spawned_with_their_arguments() {
    match plan_command("  ls   -la\t/tmp ") {
        ShellAction::Spawn { program, args } => {
            assert_eq!(program, "ls");
            assert_eq!(args, vec!["-la".to_string(), "/tmp".to_string()]);
        }
        _ => panic!("expected a spawn"),
    }
    match plan_command("cdx") {
        ShellAction::Spawn { program, args } => {
            assert_eq!(program, "cdx");
            assert!(args.is_empty());
        }
        _ => panic!("expected a spawn"),
    }
}

#[test]
fn missing_directory_is_reported() {
    match after_dir_check("/nowhere".to_string(), false) {
        ShellAction::Reply(m) => assert_eq!(m, "cd: no such file or directory"),
        _ => panic!("expected a reply"),
    }
    match after_dir_check("/tmp".to_string(), true) {
        ShellAction::ChangeDir(d) => assert_eq!(d, "/tmp"),
        _ => panic!("expected a change of directory"),
    }
}

#[test]
fn return_actions_by_first_word() {
    assert_eq!(return_action(&"clear".to_string()), ReturnAction::Clear);
    assert_eq!(return_action(&"exit".to_string()), ReturnAction::Exit);
    assert_eq!(return_action(&"ls".to_string()), ReturnAction::Echo);
    assert_eq!(return_action(&"Clear".to_string()), ReturnAction::Echo);
}

#[test]
fn image_files_by_ending() {
    assert!(is_image_file("cat.png"));
    assert!(is_image_file("a.jpg"));
    assert!(is_image_file("a.jpeg"));
    assert!(is_image_file("a.gif"));
    assert!(is_image_file("a.webp"));
    assert!(is_image_file("awebp"));
    assert!(!is_image_file("a.PNG"));
    assert!(!is_image_file("notes.txt"));
    assert!(!is_image_file("png"));
}

#[test]
fn spawn_reply_decodes_utf8() {
    assert_eq!(spawn_reply(b"total 0\n".to_vec()), Some("total 0\n".to_string()));
    assert_eq!(spawn_reply("日本\n".as_bytes().to_vec()), Some("日本\n".to_string()));
    assert_eq!(spawn_reply(Vec::new()), Some(String::new()));
    assert_eq!(spawn_reply(vec![0xff, 0x41]), None);
    assert_eq!(spawn_reply(vec![0xed, 0xa0, 0x80]), None);
}

#[test]
fn same_words_same_plan() {
    for (a, b) in [("  cd\t/   / ", "cd / /"), ("ls  -l", " ls -l "), (" cd ", "cd"), ("cd\t/tmp", "cd /tmp")] {
        let same = match (plan_command(a), plan_command(b)) {
            (ShellAction::GoHome, ShellAction::GoHome) => true,
            (ShellAction::CheckDir(d), ShellAction::CheckDir(e)) => d == e,
            (ShellAction::Reply(m), ShellAction::Reply(n)) => m == n,
            (ShellAction::Spawn { program: p, args: x }, ShellAction::Spawn { program: q, args: y }) => {
                p == q && x == y
            }
            _ => false,
        };
        assert!(same, "{:?} and {:?}", a, b);
    }
    match plan_command("  cd\t/   / ") {
        ShellAction::Reply(m) => assert_eq!(m, "cd: too many arguments"),
        _ => panic!("expected a reply"),
    }
}
