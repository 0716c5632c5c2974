//! What the shell does with a command line: the built-in `cd`, the commands
//! that the terminal handles itself (`clear`, `exit`), programs to spawn, and
//! the file names that it shows as images.
use vstd::prelude::*;
use vstd::string::StringExecFns;

use crate::text::{ends_with, split_whitespace, string_from_utf8, views, words};

verus! {

/// The next step the shell takes for a command line.
pub enum ShellAction {
    /// `cd` alone: change to the home directory, reply with nothing.
    GoHome,
    /// `cd` with one argument: see whether the directory exists first.
    CheckDir(String),
    /// Change to this directory, reply with nothing.
    ChangeDir(String),
    /// Reply with this text and do nothing else.
    Reply(String),
    /// Run `program` with `args`, reply with what it writes to standard output.
    Spawn { program: String, args: Vec<String> },
}

/// The reply to `cd` with more than one argument.
pub open spec fn too_many_arguments() -> Seq<char> {
    "cd: too many arguments"@
}

/// The reply to `cd` into a directory that does not exist.
pub open spec fn no_such_directory() -> Seq<char> {
    "cd: no such file or directory"@
}

/// What `plan_command` decides for a line whose words are `ws`.
pub open spec fn planned(ws: Seq<Seq<char>>, a: ShellAction) -> bool {
    if ws[0] == "cd"@ {
        if ws.len() == 1 {
            a is GoHome
        } else if ws.len() == 2 {
            a matches ShellAction::CheckDir(d) && d@ == ws[1]
        } else {
            a matches ShellAction::Reply(m) && m@ == too_many_arguments()
        }
    } else {
        a matches ShellAction::Spawn { program, args } && program@ == ws[0] && views(args@)
            == ws.drop_first()
    }
}

/// Decides what to do with a command line: its first word names the command
/// and the other words are its arguments. `cd` is handled by the shell itself;
/// anything else is a program to run.
pub fn plan_command(command: &str) -> (a: ShellAction)
    requires
        words(command@).len() > 0,
    ensures
        planned(words(command@), a),
{
    let mut parts = split_whitespace(command);
    let ghost ws = words(command@);
    assert(parts@[0]@ == ws[0]);
    let cd = String::from_str("cd");
    if parts[0] == cd {
        if parts.len() == 1 {
            ShellAction::GoHome
        } else if parts.len() == 2 {
            assert(parts@[1]@ == ws[1]);
            let dir = parts.pop().unwrap();
            ShellAction::CheckDir(dir)
        } else {
            ShellAction::Reply(String::from_str("cd: too many arguments"))
        }
    } else {
        let program = parts.remove(0);
        assert(views(parts@) =~= ws.drop_first());
        ShellAction::Spawn { program, args: parts }
    }
}

/// `a` and `b` are the same step, their texts compared by content.
pub open spec fn same_action(a: ShellAction, b: ShellAction) -> bool {
    match (a, b) {
        (ShellAction::GoHome, ShellAction::GoHome) => true,
        (ShellAction::CheckDir(d), ShellAction::CheckDir(e)) => d@ == e@,
        (ShellAction::ChangeDir(d), ShellAction::ChangeDir(e)) => d@ == e@,
        (ShellAction::Reply(m), ShellAction::Reply(n)) => m@ == n@,
        (
            ShellAction::Spawn { program: p, args: x },
            ShellAction::Spawn { program: q, args: y },
        ) => p@ == q@ && views(x@) == views(y@),
        _ => false,
    }
}

/// Law: the shell's step depends on the words of a line only, not on how
/// they are spaced: two lines with the same words get the same step.
pub proof fn lemma_same_words_same_plan(s1: Seq<char>, s2: Seq<char>, a1: ShellAction, a2: ShellAction)
    requires
        words(s1).len() > 0,
        words(s1) == words(s2),
        planned(words(s1), a1),
        planned(words(s2), a2),
    ensures
        same_action(a1, a2),
{
}

/// Law: a planned step uses every word of the line. Any command but `cd` is
/// spawned with the first word as the program and all the other words, in
/// order and none left out, as its arguments; `cd` goes home with no argument,
/// checks its one argument, and refuses more than one.
pub proof fn lemma_plan_uses_every_word(ws: Seq<Seq<char>>, a: ShellAction)
    requires
        ws.len() > 0,
        planned(ws, a),
    ensures
        ws[0] != "cd"@ ==> (a matches ShellAction::Spawn { program, args } && seq![program@]
            + views(args@) == ws && args.len() + 1 == ws.len()),
        ws[0] == "cd"@ && ws.len() == 1 ==> a is GoHome,
        ws[0] == "cd"@ && ws.len() == 2 ==> (a matches ShellAction::CheckDir(d) && d@ == ws.last()),
        ws[0] == "cd"@ && ws.len() > 2 ==> (a matches ShellAction::Reply(m) && m@
            == "cd: too many arguments"@),
{
    if ws[0] != "cd"@ {
        if let ShellAction::Spawn { program, args } = a {
            assert(seq![program@] + views(args@) =~= ws);
        }
    }
}

/// Law: what the program and its arguments spell, written one after another,
/// is exactly the line without its whitespace, for any command but `cd`.
pub proof fn lemma_spawn_keeps_the_line(s: Seq<char>, a: ShellAction)
    requires
        words(s).len() > 0,
        words(s)[0] != "cd"@,
        planned(words(s), a),
    ensures
        a matches ShellAction::Spawn { program, args } && (seq![program@] + views(
            args@,
        )).flatten() == s.filter(|c: char| !crate::text::spec_is_white_space(c)),
{
    lemma_plan_uses_every_word(words(s), a);
    crate::text::lemma_words_keep_all_text(s);
}

/// The step after checking whether the directory of `cd` exists: change into
/// it, or reply that there is no such directory.
pub fn after_dir_check(dir: String, exists: bool) -> (a: ShellAction)
    ensures
        exists ==> (a matches ShellAction::ChangeDir(d) && d@ == dir@),
        !exists ==> (a matches ShellAction::Reply(m) && m@ == no_such_directory()),
{
    if exists {
        ShellAction::ChangeDir(dir)
    } else {
        ShellAction::Reply(String::from_str("cd: no such file or directory"))
    }
}

/// The reply of a spawned program: what it wrote to standard output, as
/// text; `None` when that is not valid UTF-8.
pub fn spawn_reply(stdout: Vec<u8>) -> (r: Option<String>)
    ensures
        r is Some <==> vstd::utf8::valid_utf8(stdout@),
        r matches Some(t) ==> t@ == vstd::utf8::decode_utf8(stdout@),
{
    string_from_utf8(stdout)
}

/// How the terminal treats a command when Return is pressed.
#[derive(PartialEq, Eq, Structural, Clone, Copy, Debug)]
pub enum ReturnAction {
    /// `clear`: wipe the output and the images.
    Clear,
    /// `exit`: quit the terminal.
    Exit,
    /// Anything else: show the command and its output, remember it in the history.
    Echo,
}

/// The action for a command whose first word is `name`.
pub open spec fn spec_return_action(name: Seq<char>) -> ReturnAction {
    if name == "clear"@ {
        ReturnAction::Clear
    } else if name == "exit"@ {
        ReturnAction::Exit
    } else {
        ReturnAction::Echo
    }
}

/// Law: only the word `exit` quits and only the word `clear` clears; every
/// other first word is echoed and recorded.
pub proof fn lemma_only_exit_and_clear_are_special(name: Seq<char>)
    ensures
        spec_return_action(name) == ReturnAction::Exit <==> name == "exit"@,
        spec_return_action(name) == ReturnAction::Clear <==> name == "clear"@,
        spec_return_action(name) == ReturnAction::Echo <==> (name != "exit"@ && name
            != "clear"@),
{
    reveal_strlit("exit");
    reveal_strlit("clear");
    assert("exit"@ != "clear"@) by {
        assert("exit"@[0] != "clear"@[0]);
    }
}

/// Classifies a command by its first word.
pub fn return_action(name: &String) -> (r: ReturnAction)
    ensures
        r == spec_return_action(name@),
{
    if *name == String::from_str("clear") {
        ReturnAction::Clear
    } else if *name == String::from_str("exit") {
        ReturnAction::Exit
    } else {
        ReturnAction::Echo
    }
}

/// The endings of the file names that are shown as images.
pub open spec fn spec_is_image_file(name: Seq<char>) -> bool {
    ||| ".png"@.is_suffix_of(name)
    ||| ".jpg"@.is_suffix_of(name)
    ||| ".jpeg"@.is_suffix_of(name)
    ||| ".gif"@.is_suffix_of(name)
    ||| "webp"@.is_suffix_of(name)
}

/// The endings that mark an image file, in the order they are tried.
pub open spec fn image_endings() -> Seq<Seq<char>> {
    seq![".png"@, ".jpg"@, ".jpeg"@, ".gif"@, "webp"@]
}

/// Law: a name is an image file exactly when it ends with one of the five
/// image endings; a name that ends with none of them is not.
pub proof fn lemma_image_file_by_listed_ending(name: Seq<char>)
    ensures
        spec_is_image_file(name) <==> exists|k: int|
            0 <= k < image_endings().len() && (#[trigger] image_endings()[k]).is_suffix_of(name),
{
    let e = image_endings();
    if spec_is_image_file(name) {
        if ".png"@.is_suffix_of(name) {
            assert(e[0].is_suffix_of(name));
        } else if ".jpg"@.is_suffix_of(name) {
            assert(e[1].is_suffix_of(name));
        } else if ".jpeg"@.is_suffix_of(name) {
            assert(e[2].is_suffix_of(name));
        } else if ".gif"@.is_suffix_of(name) {
            assert(e[3].is_suffix_of(name));
        } else {
            assert(e[4].is_suffix_of(name));
        }
    }
}

/// Whether a command names an image file, judged by its ending.
pub fn is_image_file(command: &str) -> (r: bool)
    ensures
        r == spec_is_image_file(command@),
{
    ends_with(command, ".png") || ends_with(command, ".jpg") || ends_with(command, ".jpeg")
        || ends_with(command, ".gif") || ends_with(command, "webp")
}

} // verus!
