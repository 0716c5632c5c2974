//! The text the terminal shows around commands: the path of the working
//! directory below the user's home, the window title, the prompt, the echo of
//! a command with its output, and the paths built from the working directory.
use vstd::prelude::*;
use vstd::string::StringExecFns;

use crate::text::strip_prefix;

verus! {

/// Where the home directories are.
pub open spec fn home_root() -> Seq<char> {
    "/home/"@
}

/// `path` lies under the home directory of `user` (as a string prefix).
pub open spec fn is_home_path(path: Seq<char>, user: Seq<char>) -> bool {
    (home_root() + user).is_prefix_of(path)
}

/// Whether `path` begins with the home directory of `user`.
pub fn in_home(path: &str, user: &str) -> (r: bool)
    ensures
        r == is_home_path(path@, user@),
{
    let home = String::from_str("/home/").concat(user);
    crate::text::starts_with(path, home.as_str())
}

/// The part of the working directory `path` after `/home/` and the user name.
pub fn strip_path(path: String, user: &str) -> (r: String)
    requires
        is_home_path(path@, user@),
    ensures
        r@ == path@.skip((home_root().len() + user@.len()) as int),
{
    proof {
        reveal_strlit("/home/");
        let h = home_root();
        assert(h.is_prefix_of(path@)) by {
            assert forall|i: int| 0 <= i < h.len() implies h[i] == path@[i] by {
                assert((h + user@)[i] == h[i]);
                assert((h + user@)[i] == path@.subrange(0, (h + user@).len() as int)[i]);
            }
            assert(h =~= path@.subrange(0, h.len() as int));
        }
        assert(user@.is_prefix_of(path@.skip(h.len() as int))) by {
            assert forall|i: int| 0 <= i < user@.len() implies user@[i] == path@.skip(
                h.len() as int,
            )[i] by {
                assert((h + user@)[h.len() + i] == user@[i]);
                assert((h + user@)[h.len() + i] == path@.subrange(0, (h + user@).len() as int)[h.len()
                    + i]);
            }
            assert(user@ =~= path@.skip(h.len() as int).subrange(0, user@.len() as int));
        }
    }
    let below_home = strip_prefix(path.as_str(), "/home/");
    match below_home {
        Some(rest) => {
            let mine = strip_prefix(rest.as_str(), user);
            match mine {
                Some(r) => {
                    assert(r@ =~= path@.skip((home_root().len() + user@.len()) as int));
                    r
                },
                None => {
                    assert(false);
                    String::new()
                },
            }
        },
        None => {
            assert(false);
            String::new()
        },
    }
}

/// Law: the path of a directory below the home of `user` is in that home, and
/// stripping it gives back the part below the home.
pub proof fn lemma_strip_path_inverts_home(user: Seq<char>, rest: Seq<char>)
    ensures
        is_home_path(home_root() + user + rest, user),
        (home_root() + user + rest).skip((home_root().len() + user.len()) as int) == rest,
{
    let p = home_root() + user + rest;
    assert((home_root() + user) =~= p.subrange(0, (home_root() + user).len() as int));
    assert(p.skip((home_root().len() + user.len()) as int) =~= rest);
}

/// `user@hostname`, the first part of the prompt.
pub open spec fn spec_user_at_host(user: Seq<char>, hostname: Seq<char>) -> Seq<char> {
    user + "@"@ + hostname
}

/// The window title: `user@hostname:~path`.
pub open spec fn spec_window_title(user: Seq<char>, hostname: Seq<char>, path: Seq<char>) -> Seq<
    char,
> {
    spec_user_at_host(user, hostname) + ":~"@ + path
}

/// The three parts of the prompt line: `user@hostname:`, `~path` and `$ input`.
pub open spec fn spec_prompt_sections(
    user: Seq<char>,
    hostname: Seq<char>,
    path: Seq<char>,
    input: Seq<char>,
) -> Seq<Seq<char>> {
    seq![spec_user_at_host(user, hostname) + ":"@, "~"@ + path, "$ "@ + input]
}

/// The four parts that echo a command above the earlier output:
/// `user@hostname`, the path, `$ command` and, on a new line, what the command printed.
pub open spec fn spec_echo_sections(
    user: Seq<char>,
    hostname: Seq<char>,
    path: Seq<char>,
    input: Seq<char>,
    output: Seq<char>,
) -> Seq<Seq<char>> {
    seq![spec_user_at_host(user, hostname), path, "$ "@ + input, "\n"@ + output]
}

/// Law: the prompt, the window title and the echo of a command agree: the
/// title is the prompt's first two sections written together, and the echo
/// repeats the prompt's `user@hostname`, its path and its `$ command`.
pub proof fn lemma_prompt_texts_agree(
    user: Seq<char>,
    hostname: Seq<char>,
    path: Seq<char>,
    input: Seq<char>,
    output: Seq<char>,
)
    ensures
        spec_window_title(user, hostname, path) == spec_prompt_sections(
            user,
            hostname,
            path,
            input,
        )[0] + spec_prompt_sections(user, hostname, path, input)[1],
        spec_prompt_sections(user, hostname, path, input)[0] == spec_echo_sections(
            user,
            hostname,
            path,
            input,
            output,
        )[0] + ":"@,
        spec_prompt_sections(user, hostname, path, input)[1] == "~"@ + spec_echo_sections(
            user,
            hostname,
            path,
            input,
            output,
        )[1],
        spec_prompt_sections(user, hostname, path, input)[2] == spec_echo_sections(
            user,
            hostname,
            path,
            input,
            output,
        )[2],
        spec_echo_sections(user, hostname, path, input, output)[1] == path,
        spec_echo_sections(user, hostname, path, input, output)[3] == "\n"@ + output,
{
    reveal_strlit(":~");
    reveal_strlit(":");
    reveal_strlit("~");
    assert(spec_window_title(user, hostname, path) =~= (spec_user_at_host(user, hostname)
        + ":"@) + ("~"@ + path));
}

fn user_at_host(user: &str, hostname: &str) -> (r: String)
    ensures
        r@ == spec_user_at_host(user@, hostname@),
{
    String::from_str(user).concat("@").concat(hostname)
}

/// The window title for `user` on `hostname` in `path`.
pub fn window_title(user: &str, hostname: &str, path: &str) -> (r: String)
    ensures
        r@ == spec_window_title(user@, hostname@, path@),
{
    user_at_host(user, hostname).concat(":~").concat(path)
}

/// The texts of the three sections of the prompt line.
pub fn prompt_sections(user: &str, hostname: &str, path: &str, input: &str) -> (r: Vec<String>)
    ensures
        crate::text::views(r@) == spec_prompt_sections(user@, hostname@, path@, input@),
{
    let mut r: Vec<String> = Vec::new();
    r.push(user_at_host(user, hostname).concat(":"));
    r.push(String::from_str("~").concat(path));
    r.push(String::from_str("$ ").concat(input));
    assert(crate::text::views(r@) =~= spec_prompt_sections(user@, hostname@, path@, input@));
    r
}

/// The texts of the four sections that echo a command and what it printed.
pub fn echo_sections(user: &str, hostname: &str, path: &str, input: &str, output: &str) -> (r: Vec<
    String,
>)
    ensures
        crate::text::views(r@) == spec_echo_sections(user@, hostname@, path@, input@, output@),
{
    let mut r: Vec<String> = Vec::new();
    r.push(user_at_host(user, hostname));
    r.push(String::from_str(path));
    r.push(String::from_str("$ ").concat(input));
    r.push(String::from_str("\n").concat(output));
    assert(crate::text::views(r@) =~= spec_echo_sections(
        user@,
        hostname@,
        path@,
        input@,
        output@,
    ));
    r
}

/// Puts `front` before the sections of a text, in order, as the echo of a
/// command goes above the earlier output.
pub fn prepend_sections<T>(sections: &mut Vec<T>, front: Vec<T>)
    ensures
        final(sections)@ == front@ + old(sections)@,
{
    let mut front = front;
    let ghost f = front@;
    let ghost rest = sections@;
    let mut k: usize = 0;
    let n = front.len();
    while k < n
        invariant
            n == f.len(),
            k <= n,
            front@ == f.skip(k as int),
            sections@ == f.take(k as int) + rest,
        decreases n - k,
    {
        let x = front.remove(0);
        sections.insert(k, x);
        assert(f.take(k as int + 1) =~= f.take(k as int).push(f[k as int]));
        assert(sections@ =~= f.take(k as int + 1) + rest);
        assert(front@ =~= f.skip(k as int + 1));
        k = k + 1;
    }
    assert(f.take(n as int) =~= f);
}

/// `/home/user/path/`, the directory whose first entry completes a word on Tab.
pub open spec fn spec_completion_dir(user: Seq<char>, path: Seq<char>) -> Seq<char> {
    home_root() + user + "/"@ + path + "/"@
}

/// `/home/user/path/name`, where an image named on the command line is read from.
pub open spec fn spec_image_path(user: Seq<char>, path: Seq<char>, name: Seq<char>) -> Seq<char> {
    home_root() + user + "/"@ + path + "/"@ + name
}

/// The directory listed to complete a word on Tab.
pub fn completion_dir(user: &str, path: &str) -> (r: String)
    ensures
        r@ == spec_completion_dir(user@, path@),
{
    String::from_str("/home/").concat(user).concat("/").concat(path).concat("/")
}

/// The file an image command reads.
pub fn image_path(user: &str, path: &str, name: &str) -> (r: String)
    ensures
        r@ == spec_image_path(user@, path@, name@),
{
    completion_dir(user, path).concat(name)
}

} // verus!
