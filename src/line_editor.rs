//! The line editor: turns decoded key presses into one line of input.
use vstd::prelude::*;

use crate::text::{alphanumeric, is_alphanumeric, pop_char, push_char};

verus! {

/// The character that Enter produces.
pub const ENTER: char = '\r';

/// The character that Backspace produces.
pub const BACKSPACE: char = '\u{8}';

/// The character echoed when a line is finished.
pub const NEWLINE: char = '\n';

/// One decoded key press.
#[derive(Clone, Copy, Debug, PartialEq, Eq, Structural)]
pub enum Key {
    /// A key that yields a character (Enter and Backspace among them).
    Printable(char),
    /// A key without a character, by its firmware scan code.
    Special(u16),
}

/// What the console must do after a key press.
#[derive(Clone, Copy, Debug, PartialEq, Eq, Structural)]
pub enum EditAction {
    /// Nothing to show.
    Ignore,
    /// Show this character.
    Echo(char),
    /// The line is complete: move to a new line.
    Finish,
}

/// The stored line after one key press.
pub open spec fn stored_after(line: Seq<char>, key: Key) -> Seq<char> {
    match key {
        Key::Printable(c) => {
            if c == ENTER {
                line
            } else if c == BACKSPACE {
                if line.len() > 0 {
                    line.drop_last()
                } else {
                    line
                }
            } else if alphanumeric(c) {
                line.push(c)
            } else {
                line
            }
        },
        Key::Special(_) => line,
    }
}

/// What the console shows for one key press, given the stored line before it.
/// Every printable key is shown, stored or not; Backspace is shown only where
/// it removed a character.
pub open spec fn action_for(line: Seq<char>, key: Key) -> EditAction {
    match key {
        Key::Printable(c) => {
            if c == ENTER {
                EditAction::Finish
            } else if c == BACKSPACE && line.len() == 0 {
                EditAction::Ignore
            } else {
                EditAction::Echo(c)
            }
        },
        Key::Special(_) => EditAction::Ignore,
    }
}

/// The stored line after a sequence of key presses, from an empty line.
pub open spec fn stored_line(keys: Seq<Key>) -> Seq<char>
    decreases keys.len(),
{
    if keys.len() == 0 {
        seq![]
    } else {
        stored_after(stored_line(keys.drop_last()), keys.last())
    }
}

/// The characters shown for what an action asks.
pub open spec fn shown(a: EditAction) -> Seq<char> {
    match a {
        EditAction::Ignore => seq![],
        EditAction::Echo(c) => seq![c],
        EditAction::Finish => seq![NEWLINE],
    }
}

/// Everything shown on the console for a sequence of key presses.
pub open spec fn echo_of(keys: Seq<Key>) -> Seq<char>
    decreases keys.len(),
{
    if keys.len() == 0 {
        seq![]
    } else {
        echo_of(keys.drop_last()) + shown(
            action_for(stored_line(keys.drop_last()), keys.last()),
        )
    }
}

pub open spec fn is_enter(k: Key) -> bool {
    k == Key::Printable(ENTER)
}

/// `n` is the index of the first Enter in `keys`.
pub open spec fn first_enter(keys: Seq<Key>, n: int) -> bool {
    0 <= n < keys.len() && is_enter(keys[n]) && forall|j: int| 0 <= j < n ==> !is_enter(#[trigger] keys[j])
}

/// A line being typed.
pub struct LineEditor {
    line: String,
}

impl LineEditor {
    /// The characters stored so far.
    pub closed spec fn view(&self) -> Seq<char> {
        self.line@
    }

    pub fn new() -> (r: LineEditor)
        ensures
            r.view() == Seq::<char>::empty(),
    {
        LineEditor { line: String::new() }
    }

    /// Applies one key press and says what the console must show for it.
    pub fn feed(&mut self, key: Key) -> (r: EditAction)
        ensures
            r == action_for(old(self).view(), key),
            final(self).view() == stored_after(old(self).view(), key),
    {
        match key {
            Key::Printable(c) => {
                if c == ENTER {
                    return EditAction::Finish;
                }
                if c == BACKSPACE {
                    if self.line.as_str().unicode_len() == 0 {
                        return EditAction::Ignore;
                    }
                    let _ = pop_char(&mut self.line);
                    return EditAction::Echo(c);
                }
                if is_alphanumeric(c) {
                    push_char(&mut self.line, c);
                }
                EditAction::Echo(c)
            },
            Key::Special(_) => EditAction::Ignore,
        }
    }

    /// The characters stored so far.
    pub fn line(&self) -> (r: &String)
        ensures
            r@ == self.view(),
    {
        &self.line
    }

    /// Ends the edit and hands over the stored line.
    pub fn into_line(self) -> (r: String)
        ensures
            r@ == self.view(),
    {
        self.line
    }
}

/// The result of editing a whole line: what is stored, what was shown, and how
/// many keys were read (the Enter included).
pub struct EditedLine {
    pub line: String,
    pub echo: String,
    pub keys_used: usize,
}

/// Runs the editor over `keys` up to and including the first Enter. Returns
/// `None` where no Enter comes.
pub fn edit_line(keys: &Vec<Key>) -> (r: Option<EditedLine>)
    ensures
        (exists|n: int| first_enter(keys@, n)) <==> r is Some,
        r is Some ==> first_enter(keys@, r->Some_0.keys_used - 1) && r->Some_0.line@ == stored_line(
            keys@.take(r->Some_0.keys_used as int),
        ) && r->Some_0.echo@ == echo_of(keys@.take(r->Some_0.keys_used as int)),
{
    let mut editor = LineEditor::new();
    let mut echo = String::new();
    let mut i: usize = 0;
    while i < keys.len()
        invariant
            i <= keys@.len(),
            editor.view() == stored_line(keys@.take(i as int)),
            echo@ == echo_of(keys@.take(i as int)),
            forall|j: int| 0 <= j < i ==> !is_enter(#[trigger] keys@[j]),
        decreases keys@.len() - i,
    {
        let key = keys[i];
        let action = editor.feed(key);
        assert(keys@.take(i + 1).drop_last() =~= keys@.take(i as int));
        match action {
            EditAction::Ignore => {},
            EditAction::Echo(c) => push_char(&mut echo, c),
            EditAction::Finish => push_char(&mut echo, NEWLINE),
        }
        assert(echo@ =~= echo_of(keys@.take(i + 1)));
        i = i + 1;
        if action == EditAction::Finish {
            assert(first_enter(keys@, i - 1));
            return Some(EditedLine { line: editor.into_line(), echo, keys_used: i });
        }
    }
    assert forall|n: int| !first_enter(keys@, n) by {
        if first_enter(keys@, n) {
            assert(!is_enter(keys@[n]));
        }
    }
    None
}

/// A key press that puts its character into the line when no Backspace follows.
pub open spec fn is_kept(k: Key) -> bool {
    match k {
        Key::Printable(c) => c != ENTER && c != BACKSPACE && alphanumeric(c),
        Key::Special(_) => false,
    }
}

/// The characters of the kept key presses, in order.
pub open spec fn kept_chars(keys: Seq<Key>) -> Seq<char> {
    keys.filter(|k: Key| is_kept(k)).map_values(|k: Key| k->Printable_0)
}

/// What the line stores: without Backspace, exactly the alphanumeric characters
/// typed, in order; every stored character is alphanumeric; Backspace removes
/// the last one, and on an empty line changes nothing.
pub proof fn lemma_stored_line(keys: Seq<Key>)
    ensures
        (forall|i: int| 0 <= i < keys.len() ==> keys[i] != Key::Printable(BACKSPACE))
            ==> stored_line(keys) == kept_chars(keys),
        forall|i: int|
            0 <= i < stored_line(keys).len() ==> alphanumeric(#[trigger] stored_line(keys)[i]),
        stored_line(keys).len() <= keys.len(),
        stored_line(keys.push(Key::Printable(BACKSPACE))) == (if stored_line(keys).len() > 0 {
            stored_line(keys).drop_last()
        } else {
            stored_line(keys)
        }),
    decreases keys.len(),
{
    let bs = Key::Printable(BACKSPACE);
    assert(keys.push(bs).drop_last() =~= keys);
    if keys.len() > 0 {
        let init = keys.drop_last();
        lemma_stored_line(init);
        let prev = stored_line(init);
        let cur = stored_line(keys);
        assert forall|i: int| 0 <= i < cur.len() implies alphanumeric(#[trigger] cur[i]) by {
            if i < prev.len() {
                assert(cur[i] == prev[i]);
            }
        }
        if forall|i: int| 0 <= i < keys.len() ==> keys[i] != bs {
            assert forall|i: int| 0 <= i < init.len() implies init[i] != bs by {
                assert(init[i] == keys[i]);
            }
            assert(keys[keys.len() - 1] != bs);
            reveal(Seq::filter);
            let kept = keys.filter(|k: Key| is_kept(k));
            let kept_init = init.filter(|k: Key| is_kept(k));
            assert(kept == if is_kept(keys.last()) {
                kept_init.push(keys.last())
            } else {
                kept_init
            });
            if is_kept(keys.last()) {
                assert(kept.map_values(|k: Key| k->Printable_0) =~= kept_init.map_values(
                    |k: Key| k->Printable_0,
                ).push(keys.last()->Printable_0));
            }
            assert(stored_line(keys) =~= kept_chars(keys));
        }
    }
}

} // verus!
