use vstd::prelude::*;

use crate::app::actions::PendingAction;
use crate::keys::{pressed, KeyCode, KeyEvent};
use crate::text::{
    at_boundary, byte_len, char_pos, lemma_ascii_edits, lemma_ascii_offsets, on_boundary, string_fits,
    string_insert, string_remove, utf8_len,
};
use vstd::utf8::is_ascii_chars;

verus! {

/// A one-line text prompt (renaming, or naming a new subtask).
/// `cursor_pos` is a byte offset into `input`.
pub struct RenamePopup {
    pub title: String,
    pub input: String,
    pub cursor_pos: usize,
    /// The first typed character replaces the prefilled text.
    pub is_first_input: bool,
}

/// Abstract value of a text prompt.
#[verifier::ext_equal]
pub struct RenameModel {
    pub title: Seq<char>,
    pub input: Seq<char>,
    pub cursor_pos: usize,
    pub is_first_input: bool,
}

impl View for RenamePopup {
    type V = RenameModel;

    open spec fn view(&self) -> RenameModel {
        RenameModel {
            title: self.title@,
            input: self.input@,
            cursor_pos: self.cursor_pos,
            is_first_input: self.is_first_input,
        }
    }
}

impl Clone for RenamePopup {
    fn clone(&self) -> (r: Self)
        ensures
            r@ == self@,
    {
        RenamePopup {
            title: self.title.clone(),
            input: self.input.clone(),
            cursor_pos: self.cursor_pos,
            is_first_input: self.is_first_input,
        }
    }
}

/// The prompt can take the key without an out-of-range string edit.
pub open spec fn rename_accepts(p: RenameModel, key: KeyEvent) -> bool {
    match key.code {
        KeyCode::Backspace => !p.is_first_input && p.cursor_pos > 0 ==> {
            &&& p.cursor_pos - 1 < utf8_len(p.input)
            &&& on_boundary(p.input, p.cursor_pos - 1)
        },
        KeyCode::Delete => !p.is_first_input && p.cursor_pos < utf8_len(p.input) ==> on_boundary(
            p.input,
            p.cursor_pos as int,
        ),
        KeyCode::Char(_) => p.is_first_input || (on_boundary(p.input, p.cursor_pos as int)
            && p.cursor_pos < usize::MAX),
        _ => true,
    }
}

/// The prompt after one key, and its answer: Enter saves (`Some(true)`), Esc cancels
/// (`Some(false)`). The cursor is a byte offset; while the prefilled text has not been
/// touched, the first edit replaces it and the first move leaves it in place.
pub open spec fn rename_step(p: RenameModel, key: KeyEvent) -> (RenameModel, Option<bool>) {
    let edit = |input: Seq<char>, cursor_pos: usize|
        RenameModel { input, cursor_pos, is_first_input: false, ..p };
    match key.code {
        KeyCode::Enter => (p, Some(true)),
        KeyCode::Esc => (p, Some(false)),
        KeyCode::Backspace => (
            if p.is_first_input {
                edit(Seq::empty(), 0)
            } else if p.cursor_pos > 0 {
                edit(p.input.remove(char_pos(p.input, p.cursor_pos - 1)), (p.cursor_pos - 1) as usize)
            } else {
                p
            },
            None,
        ),
        KeyCode::Delete => (
            if p.is_first_input {
                edit(Seq::empty(), 0)
            } else if p.cursor_pos < utf8_len(p.input) {
                edit(p.input.remove(char_pos(p.input, p.cursor_pos as int)), p.cursor_pos)
            } else {
                p
            },
            None,
        ),
        KeyCode::Left => (
            edit(
                p.input,
                if p.is_first_input {
                    0
                } else if p.cursor_pos > 0 {
                    (p.cursor_pos - 1) as usize
                } else {
                    0
                },
            ),
            None,
        ),
        KeyCode::Right => (
            edit(
                p.input,
                if p.is_first_input {
                    utf8_len(p.input) as usize
                } else if p.cursor_pos < utf8_len(p.input) {
                    (p.cursor_pos + 1) as usize
                } else {
                    p.cursor_pos
                },
            ),
            None,
        ),
        KeyCode::Home => (edit(p.input, 0), None),
        KeyCode::End => (edit(p.input, utf8_len(p.input) as usize), None),
        KeyCode::Char(c) => (
            if p.is_first_input {
                edit(seq![c], 1)
            } else {
                edit(p.input.insert(char_pos(p.input, p.cursor_pos as int), c), (p.cursor_pos + 1) as usize)
            },
            None,
        ),
        _ => (p, None),
    }
}

impl RenamePopup {
    /// Opens a prompt prefilled with `initial_val`, the cursor at its end. For a new subtask
    /// the first keystroke replaces the prefilled text.
    pub fn new(title: String, initial_val: String, action: PendingAction) -> (p: Self)
        ensures
            p.title@ == title@,
            p.input@ == initial_val@,
            p.cursor_pos == utf8_len(initial_val@),
            p.is_first_input == (action == PendingAction::AddSubtaskBefore || action
                == PendingAction::AddSubtaskAfter),
    {
        let is_first = matches!(action, PendingAction::AddSubtaskBefore | PendingAction::AddSubtaskAfter);
        let cursor_pos = byte_len(&initial_val);
        RenamePopup { title, input: initial_val, cursor_pos, is_first_input: is_first }
    }

    /// The key can be handled without an out-of-range string edit.
    pub open spec fn accepts(&self, key: KeyEvent) -> bool {
        rename_accepts(self@, key)
    }

    /// Tests `accepts`.
    pub fn key_ok(&self, key: KeyEvent) -> (r: bool)
        ensures
            r == self.accepts(key),
    {
        let cursor = self.cursor_pos;
        match key.code {
            KeyCode::Backspace => self.is_first_input || cursor == 0 || (cursor - 1 < byte_len(
                &self.input,
            ) && at_boundary(&self.input, cursor - 1)),
            KeyCode::Delete => self.is_first_input || !(cursor < byte_len(&self.input))
                || at_boundary(&self.input, cursor),
            KeyCode::Char(_) => self.is_first_input || (at_boundary(&self.input, cursor) && cursor
                < usize::MAX),
            _ => true,
        }
    }

    /// Edits the text for one key. Enter answers `Some(true)`, Esc `Some(false)`,
    /// every other key `None`.
    pub fn handle_input(&mut self, key: KeyEvent) -> (r: Option<bool>)
        requires
            old(self).accepts(key),
        ensures
            (final(self)@, r) == rename_step(old(self)@, key),
            final(self).title@ == old(self).title@,
            key.code == KeyCode::Enter ==> r == Some(true),
            key.code == KeyCode::Esc ==> r == Some(false),
            key.code != KeyCode::Enter && key.code != KeyCode::Esc ==> r is None,
            match key.code {
                KeyCode::Backspace | KeyCode::Delete => if old(self).is_first_input {
                    &&& final(self).input@.len() == 0
                    &&& final(self).cursor_pos == 0
                    &&& !final(self).is_first_input
                } else {
                    &&& !final(self).is_first_input
                    &&& if key.code == KeyCode::Backspace {
                        if old(self).cursor_pos > 0 {
                            &&& final(self).input@ == old(self).input@.remove(
                                char_pos(old(self).input@, old(self).cursor_pos - 1),
                            )
                            &&& final(self).cursor_pos == old(self).cursor_pos - 1
                        } else {
                            final(self).input@ == old(self).input@ && final(self).cursor_pos == 0
                        }
                    } else {
                        &&& final(self).cursor_pos == old(self).cursor_pos
                        &&& final(self).input@ == if old(self).cursor_pos < utf8_len(
                            old(self).input@,
                        ) {
                            old(self).input@.remove(
                                char_pos(old(self).input@, old(self).cursor_pos as int),
                            )
                        } else {
                            old(self).input@
                        }
                    }
                },
                KeyCode::Left => {
                    &&& final(self).input@ == old(self).input@
                    &&& !final(self).is_first_input
                    &&& final(self).cursor_pos == if old(self).is_first_input {
                        0
                    } else if old(self).cursor_pos > 0 {
                        (old(self).cursor_pos - 1) as usize
                    } else {
                        0
                    }
                },
                KeyCode::Right => {
                    &&& final(self).input@ == old(self).input@
                    &&& !final(self).is_first_input
                    &&& final(self).cursor_pos == if old(self).is_first_input {
                        utf8_len(old(self).input@) as usize
                    } else if old(self).cursor_pos < utf8_len(old(self).input@) {
                        (old(self).cursor_pos + 1) as usize
                    } else {
                        old(self).cursor_pos
                    }
                },
                KeyCode::Home => {
                    &&& final(self).input@ == old(self).input@
                    &&& !final(self).is_first_input
                    &&& final(self).cursor_pos == 0
                },
                KeyCode::End => {
                    &&& final(self).input@ == old(self).input@
                    &&& !final(self).is_first_input
                    &&& final(self).cursor_pos == utf8_len(old(self).input@)
                },
                KeyCode::Char(c) => {
                    &&& !final(self).is_first_input
                    &&& if old(self).is_first_input {
                        final(self).input@ == seq![c] && final(self).cursor_pos == 1
                    } else {
                        &&& final(self).input@ == old(self).input@.insert(
                            char_pos(old(self).input@, old(self).cursor_pos as int),
                            c,
                        )
                        &&& final(self).cursor_pos == old(self).cursor_pos + 1
                    }
                },
                _ => {
                    &&& final(self).input@ == old(self).input@
                    &&& final(self).cursor_pos == old(self).cursor_pos
                    &&& final(self).is_first_input == old(self).is_first_input
                },
            },
    {
        match key.code {
            KeyCode::Enter => Some(true),
            KeyCode::Esc => Some(false),
            KeyCode::Backspace => {
                if self.is_first_input {
                    self.input = String::new();
                    self.cursor_pos = 0;
                    self.is_first_input = false;
                } else if self.cursor_pos > 0 {
                    string_remove(&mut self.input, self.cursor_pos - 1);
                    self.cursor_pos = self.cursor_pos - 1;
                }
                None
            },
            KeyCode::Delete => {
                if self.is_first_input {
                    self.input = String::new();
                    self.cursor_pos = 0;
                    self.is_first_input = false;
                } else if self.cursor_pos < byte_len(&self.input) {
                    string_remove(&mut self.input, self.cursor_pos);
                }
                None
            },
            KeyCode::Left => {
                if self.is_first_input {
                    self.is_first_input = false;
                    self.cursor_pos = 0;
                } else if self.cursor_pos > 0 {
                    self.cursor_pos = self.cursor_pos - 1;
                }
                None
            },
            KeyCode::Right => {
                if self.is_first_input {
                    self.is_first_input = false;
                    self.cursor_pos = byte_len(&self.input);
                } else if self.cursor_pos < byte_len(&self.input) {
                    self.cursor_pos = self.cursor_pos + 1;
                }
                None
            },
            KeyCode::Home => {
                self.is_first_input = false;
                self.cursor_pos = 0;
                None
            },
            KeyCode::End => {
                self.is_first_input = false;
                self.cursor_pos = byte_len(&self.input);
                None
            },
            KeyCode::Char(c) => {
                if self.is_first_input {
                    self.input = String::new();
                    self.cursor_pos = 0;
                    self.is_first_input = false;
                    proof {
                        assert(on_boundary(self.input@, 0));
                    }
                }
                string_insert(&mut self.input, self.cursor_pos, c);
                proof {
                    if old(self).is_first_input {
                        assert(self.input@ =~= seq![c]);
                    }
                }
                self.cursor_pos = self.cursor_pos + 1;
                None
            },
            _ => None,
        }
    }
}

/// Typing a character and then Backspace gives back the prompt as it was (once the
/// prefilled text has been touched); the prompt can take that Backspace.
pub proof fn law_type_then_backspace(p: RenameModel, c: char)
    requires
        !p.is_first_input,
        rename_accepts(p, pressed(KeyCode::Char(c))),
    ensures
        rename_accepts(
            rename_step(p, pressed(KeyCode::Char(c))).0,
            pressed(KeyCode::Backspace),
        ),
        rename_step(
            rename_step(p, pressed(KeyCode::Char(c))).0,
            pressed(KeyCode::Backspace),
        ).0 == p,
{
    crate::text::lemma_insert_at_boundary(p.input, p.cursor_pos as int, c);
}

/// On ASCII text with the cursor inside it, every key but a non-ASCII character keeps the
/// text ASCII and the cursor inside it, and the prompt can take the key. Enter answers
/// `Some(true)` and Esc `Some(false)`, both leaving the prompt as it was; every other key
/// answers `None`.
pub proof fn law_ascii_prompt_stays_whole(p: RenameModel, key: KeyEvent)
    requires
        string_fits(p.input),
        is_ascii_chars(p.input),
        p.cursor_pos <= p.input.len(),
        forall|c: char| key.code == KeyCode::Char(c) ==> (c as u32) < 128,
    ensures
        rename_accepts(p, key),
        is_ascii_chars(rename_step(p, key).0.input),
        rename_step(p, key).0.cursor_pos <= rename_step(p, key).0.input.len(),
        (rename_step(p, key).1 == Some(true)) == (key.code == KeyCode::Enter),
        (rename_step(p, key).1 == Some(false)) == (key.code == KeyCode::Esc),
        (rename_step(p, key).1 is None) == (key.code != KeyCode::Enter && key.code
            != KeyCode::Esc),
        key.code == KeyCode::Enter || key.code == KeyCode::Esc ==> rename_step(p, key).0 == p,
{
    let s = p.input;
    let n = s.len() as int;
    let k = p.cursor_pos as int;
    lemma_ascii_offsets(s, k);
    lemma_ascii_offsets(s, n);
    if k > 0 {
        lemma_ascii_offsets(s, k - 1);
        lemma_ascii_edits(s, k - 1, ' ');
    }
    if k < n {
        lemma_ascii_edits(s, k, ' ');
    }
    match key.code {
        KeyCode::Char(c) => {
            assert((c as u32) < 128);
            lemma_ascii_edits(s, k, c);
            let one = seq![c];
            assert(is_ascii_chars(one)) by {
                assert forall|i: int| 0 <= i < one.len() implies '\0' <= #[trigger] one[i]
                    <= '\u{7f}' by {
                    assert(one[i] == c);
                }
            }
        },
        _ => {},
    }
    assert(is_ascii_chars(Seq::<char>::empty()));
}

} // verus!
