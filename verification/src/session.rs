//! The state of one terminal session: the line being typed and the history of
//! commands, and how key presses change them.
use vstd::prelude::*;
use vstd::string::StrSliceExecFns;
use vstd::string::StringExecFns;

use crate::command::{ReturnAction, return_action, spec_return_action};
use crate::prompt::{echo_sections, spec_echo_sections};
use crate::text::{is_control_char, push_char, spec_is_control, split_whitespace, views, words};

verus! {

/// The line being typed.
pub struct TextInputResource {
    pub value: String,
}

impl Default for TextInputResource {
    fn default() -> (r: Self)
        ensures
            r.value@ == Seq::<char>::empty(),
    {
        TextInputResource { value: String::new() }
    }
}

/// The commands entered so far, the most recent first, and the position that
/// Up and Down move through.
pub struct History {
    pub vec: Vec<String>,
    pub index: usize,
}

impl History {
    /// The commands as character sequences, the most recent first.
    pub open spec fn entries(&self) -> Seq<Seq<char>> {
        views(self.vec@)
    }

    /// The position points at a command, or is at the start while there is none.
    pub open spec fn wf(&self) -> bool {
        self.index == 0 || self.index < self.vec.len()
    }

    /// Remembers a command as the most recent one. The position is kept.
    pub fn record(&mut self, command: String)
        ensures
            old(self).wf() ==> final(self).wf(),
            final(self).entries() == old(self).entries().insert(0, command@),
            final(self).index == old(self).index,
    {
        let ghost before = self.vec@;
        self.vec.insert(0, command);
        assert(views(self.vec@) =~= views(before).insert(0, command@));
    }
}

impl Default for History {
    fn default() -> (r: Self)
        ensures
            r.entries() == Seq::<Seq<char>>::empty(),
            r.index == 0,
            r.wf(),
    {
        let h = History { vec: Vec::new(), index: 0 };
        assert(h.entries() =~= Seq::<Seq<char>>::empty());
        h
    }
}

/// Up: the line shows the command at the position, and the position moves one
/// step towards older commands unless it is at the oldest.
pub open spec fn spec_up(entries: Seq<Seq<char>>, index: int) -> (Seq<char>, int) {
    (entries[index], if index < entries.len() - 1 {
        index + 1
    } else {
        index
    })
}

/// Down: the line shows the command at the position, and the position moves
/// one step towards newer commands unless it is at the newest.
pub open spec fn spec_down(entries: Seq<Seq<char>>, index: int) -> (Seq<char>, int) {
    (entries[index], if index > 0 {
        index - 1
    } else {
        index
    })
}

/// Shows the command at the history's position and moves towards older ones.
pub fn handle_up_key(text_input: &mut TextInputResource, history: &mut History)
    requires
        old(history).index < old(history).vec.len(),
    ensures
        final(history).vec == old(history).vec,
        (final(text_input).value@, final(history).index as int) == spec_up(
            old(history).entries(),
            old(history).index as int,
        ),
        final(history).wf(),
{
    let index = history.index;
    text_input.value = history.vec[index].clone();
    if index < history.vec.len() - 1 {
        history.index = history.index + 1;
    }
}

/// Shows the command at the history's position and moves towards newer ones.
pub fn handle_down_key(text_input: &mut TextInputResource, history: &mut History)
    requires
        old(history).index < old(history).vec.len(),
    ensures
        final(history).vec == old(history).vec,
        (final(text_input).value@, final(history).index as int) == spec_down(
            old(history).entries(),
            old(history).index as int,
        ),
        final(history).wf(),
{
    let index = history.index;
    text_input.value = history.vec[index].clone();
    if index > 0 {
        history.index = history.index - 1;
    }
}

/// Law: Down after Up comes back to where the position was, whenever Up could
/// move it; the line then shows the command one step older than before.
pub proof fn lemma_down_undoes_up(entries: Seq<Seq<char>>, index: int)
    requires
        0 <= index < entries.len() - 1,
    ensures
        spec_down(entries, spec_up(entries, index).1).1 == index,
        spec_down(entries, spec_up(entries, index).1).0 == entries[index + 1],
{
}

/// Law: Up after Down comes back to where the position was, whenever Down
/// could move it.
pub proof fn lemma_up_undoes_down(entries: Seq<Seq<char>>, index: int)
    requires
        0 < index < entries.len(),
    ensures
        spec_up(entries, spec_down(entries, index).1).1 == index,
        spec_up(entries, spec_down(entries, index).1).0 == entries[index - 1],
{
}

/// Law: when the position is at the newest command, Up right after a command
/// was recorded brings that command back.
pub proof fn lemma_up_recalls_recorded(entries: Seq<Seq<char>>, command: Seq<char>)
    ensures
        spec_up(entries.insert(0, command), 0).0 == command,
{
}

/// Law: Up and Down keep the position on a command.
pub proof fn lemma_navigation_stays_in_history(entries: Seq<Seq<char>>, index: int)
    requires
        0 <= index < entries.len(),
    ensures
        0 <= spec_up(entries, index).1 < entries.len(),
        0 <= spec_down(entries, index).1 < entries.len(),
{
}

/// Removes the last character of `s` and returns it, or returns `None` and
/// leaves `s` as it is when `s` is empty, as `String::pop` does.
fn pop_char(s: &mut String) -> (r: Option<char>)
    ensures
        old(s)@.len() == 0 ==> r is None && final(s)@ == old(s)@,
        old(s)@.len() > 0 ==> r == Some(old(s)@.last()) && final(s)@ == old(s)@.drop_last(),
{
    let n = s.as_str().unicode_len();
    if n == 0 {
        None
    } else {
        let c = s.as_str().get_char(n - 1);
        let rest = String::from_str(s.as_str().substring_char(0, n - 1));
        assert(rest@ =~= old(s)@.drop_last());
        *s = rest;
        Some(c)
    }
}

/// The keys pressed this frame that edit the line.
#[derive(Clone, Copy)]
pub struct Keys {
    pub up: bool,
    pub down: bool,
    pub back: bool,
}

/// What Tab brought this frame.
pub enum TabCompletion {
    /// Tab was not pressed.
    NotPressed,
    /// Tab was pressed but the working directory could not be listed: the
    /// rest of this frame's input is dropped.
    Unreadable,
    /// Tab was pressed and this is the name of the first entry of the directory.
    Entry(String),
}

/// The characters typed this frame that go into the line: all but control characters.
pub open spec fn printable(typed: Seq<char>) -> Seq<char> {
    typed.filter(|c: char| !spec_is_control(c))
}

/// Backspace: the line loses its last character, if it has one.
pub open spec fn spec_erase(value: Seq<char>) -> Seq<char> {
    if value.len() > 0 {
        value.drop_last()
    } else {
        value
    }
}

/// The line and the position after one frame of input: Up, then Down (each only
/// when the history holds a command), then Tab, then Backspace, then the typed
/// characters.
pub open spec fn spec_text_input(
    entries: Seq<Seq<char>>,
    value: Seq<char>,
    index: int,
    keys: Keys,
    tab: TabCompletion,
    typed: Seq<char>,
) -> (Seq<char>, int) {
    let (v1, i1) = if keys.up && entries.len() > 0 {
        spec_up(entries, index)
    } else {
        (value, index)
    };
    let (v2, i2) = if keys.down && entries.len() > 0 {
        spec_down(entries, i1)
    } else {
        (v1, i1)
    };
    match tab {
        TabCompletion::Unreadable => (v2, i2),
        _ => {
            let v3 = match tab {
                TabCompletion::Entry(name) => v2 + name@,
                _ => v2,
            };
            let v4 = if keys.back {
                spec_erase(v3)
            } else {
                v3
            };
            (v4 + printable(typed), i2)
        },
    }
}

/// Applies one frame of keyboard input to the line and the history position.
pub fn text_input(
    text_input: &mut TextInputResource,
    history: &mut History,
    keys: Keys,
    tab: TabCompletion,
    typed: &Vec<char>,
)
    requires
        (keys.up || keys.down) && old(history).vec.len() > 0 ==> old(history).index < old(
            history,
        ).vec.len(),
    ensures
        final(history).vec == old(history).vec,
        old(history).wf() ==> final(history).wf(),
        (final(text_input).value@, final(history).index as int) == spec_text_input(
            old(history).entries(),
            old(text_input).value@,
            old(history).index as int,
            keys,
            tab,
            typed@,
        ),
{
    let ghost entries = history.entries();
    if keys.up && history.vec.len() > 0 {
        handle_up_key(text_input, history);
    }
    if keys.down && history.vec.len() > 0 {
        handle_down_key(text_input, history);
    }
    match tab {
        TabCompletion::Unreadable => {
            return ;
        },
        TabCompletion::Entry(name) => {
            text_input.value.append(name.as_str());
        },
        TabCompletion::NotPressed => {},
    }
    if keys.back {
        let _ = pop_char(&mut text_input.value);
    }
    let ghost start = text_input.value@;
    let mut i: usize = 0;
    while i < typed.len()
        invariant
            i <= typed.len(),
            text_input.value@ == start + printable(typed@.take(i as int)),
        decreases typed.len() - i,
    {
        let c = typed[i];
        proof {
            reveal_with_fuel(Seq::filter, 1);
            assert(typed@.take(i + 1).drop_last() == typed@.take(i as int));
        }
        if !is_control_char(c) {
            push_char(&mut text_input.value, c);
        }
        i = i + 1;
    }
    assert(typed@.take(typed.len() as int) == typed@);
}

/// No key pressed and Tab not pressed.
pub open spec fn no_keys() -> Keys {
    Keys { up: false, down: false, back: false }
}

/// Law: typing a single character appends it to the line exactly when it is not
/// a control character, and leaves the position alone.
pub proof fn lemma_typing_one_char(
    entries: Seq<Seq<char>>,
    value: Seq<char>,
    index: int,
    c: char,
)
    ensures
        spec_text_input(entries, value, index, no_keys(), TabCompletion::NotPressed, seq![c])
            == (if spec_is_control(c) {
            value
        } else {
            value.push(c)
        }, index),
{
    reveal_with_fuel(Seq::filter, 2);
    assert(seq![c].drop_last() =~= Seq::<char>::empty());
    if spec_is_control(c) {
        assert(printable(seq![c]) =~= Seq::<char>::empty());
        assert(value + printable(seq![c]) =~= value);
    } else {
        assert(printable(seq![c]) =~= seq![c]);
        assert(value + printable(seq![c]) =~= value.push(c));
    }
}

/// The characters kept from `typed` join one another: keeping from two runs of
/// typing is keeping from each in turn.
proof fn lemma_printable_concat(a: Seq<char>, b: Seq<char>)
    ensures
        printable(a + b) == printable(a) + printable(b),
    decreases b.len(),
{
    reveal_with_fuel(Seq::filter, 1);
    if b.len() == 0 {
        assert(a + b =~= a);
        assert(printable(b) =~= Seq::<char>::empty());
        assert(printable(a) + printable(b) =~= printable(a));
    } else {
        lemma_printable_concat(a, b.drop_last());
        assert((a + b).drop_last() =~= a + b.drop_last());
        assert((a + b).last() == b.last());
        if !spec_is_control(b.last()) {
            assert(printable(a) + printable(b.drop_last()).push(b.last()) =~= (printable(a)
                + printable(b.drop_last())).push(b.last()));
        }
    }
}

/// Law: characters typed in one frame go into the line as if typed one frame
/// after another: the frame's result is the line after the first part,
/// extended by the second part.
pub proof fn lemma_typing_splits(
    entries: Seq<Seq<char>>,
    value: Seq<char>,
    index: int,
    a: Seq<char>,
    b: Seq<char>,
)
    ensures
        spec_text_input(entries, value, index, no_keys(), TabCompletion::NotPressed, a + b)
            == spec_text_input(
            entries,
            spec_text_input(entries, value, index, no_keys(), TabCompletion::NotPressed, a).0,
            index,
            no_keys(),
            TabCompletion::NotPressed,
            b,
        ),
{
    lemma_printable_concat(a, b);
    assert(value + (printable(a) + printable(b)) =~= (value + printable(a)) + printable(b));
}

/// Law: with no key pressed, the line grows by exactly the typed characters
/// that are not control characters, in order.
pub proof fn lemma_typing_keeps_printable(
    entries: Seq<Seq<char>>,
    value: Seq<char>,
    index: int,
    typed: Seq<char>,
)
    ensures
        spec_text_input(entries, value, index, no_keys(), TabCompletion::NotPressed, typed)
            == (value + typed.filter(|c: char| !spec_is_control(c)), index),
{
}

/// Law: a printable character typed and then erased with Backspace leaves the
/// line as it was.
pub proof fn lemma_erase_undoes_typing(value: Seq<char>, c: char)
    requires
        !spec_is_control(c),
    ensures
        spec_erase(value + printable(seq![c])) == value,
{
    reveal_with_fuel(Seq::filter, 2);
    assert(seq![c].drop_last() =~= Seq::<char>::empty());
    assert(printable(seq![c]) =~= seq![c]);
    assert((value + seq![c]).drop_last() =~= value);
}

/// What pressing Return did, for the parts of the terminal outside the line and
/// the history.
pub enum ReturnOutcome {
    /// `exit`: quit.
    Exit,
    /// `clear`: wipe the output and the images; `command` is the first word.
    Clear { command: String },
    /// Any other command: put `sections` in front of the output; `command` is
    /// the first word.
    Echo { command: String, sections: Vec<String> },
}

/// Handles Return on a line whose words are not empty: `exit` quits and changes
/// nothing; `clear` empties the line; any other command empties the line,
/// becomes the most recent entry of the history, and is echoed with
/// `command_return`, what running it printed.
pub fn handle_return_key(
    text_input: &mut TextInputResource,
    history: &mut History,
    command_return: &str,
    user: &str,
    hostname: &str,
    path: &str,
) -> (r: ReturnOutcome)
    requires
        words(old(text_input).value@).len() > 0,
    ensures
        old(history).wf() ==> final(history).wf(),
        match r {
            ReturnOutcome::Exit => {
                &&& spec_return_action(words(old(text_input).value@)[0]) == ReturnAction::Exit
                &&& *final(text_input) == *old(text_input)
                &&& *final(history) == *old(history)
            },
            ReturnOutcome::Clear { command } => {
                &&& spec_return_action(words(old(text_input).value@)[0]) == ReturnAction::Clear
                &&& command@ == words(old(text_input).value@)[0]
                &&& final(text_input).value@ == Seq::<char>::empty()
                &&& *final(history) == *old(history)
            },
            ReturnOutcome::Echo { command, sections } => {
                &&& spec_return_action(words(old(text_input).value@)[0]) == ReturnAction::Echo
                &&& command@ == words(old(text_input).value@)[0]
                &&& final(text_input).value@ == Seq::<char>::empty()
                &&& final(history).entries() == old(history).entries().insert(
                    0,
                    old(text_input).value@,
                )
                &&& final(history).index == old(history).index
                &&& views(sections@) == spec_echo_sections(
                    user@,
                    hostname@,
                    path@,
                    old(text_input).value@,
                    command_return@,
                )
            },
        },
{
    let parts = split_whitespace(text_input.value.as_str());
    let command = parts[0].clone();
    match return_action(&command) {
        ReturnAction::Exit => ReturnOutcome::Exit,
        ReturnAction::Clear => {
            text_input.value = String::new();
            ReturnOutcome::Clear { command }
        },
        ReturnAction::Echo => {
            let sections = echo_sections(
                user,
                hostname,
                path,
                text_input.value.as_str(),
                command_return,
            );
            history.record(text_input.value.clone());
            text_input.value = String::new();
            ReturnOutcome::Echo { command, sections }
        },
    }
}

} // verus!
