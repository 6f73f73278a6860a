use vstd::prelude::*;

use crate::keys::{KeyCode, KeyEvent};
use crate::text::{ascii_lower, char_lowercase_first, lowercase_first, str_to_lowercase};

verus! {

/// A question with a row of buttons; `selected_idx` is the highlighted button.
pub struct ConfirmPopup {
    pub title: String,
    pub message: String,
    pub buttons: Vec<String>,
    pub selected_idx: usize,
}

pub open spec fn strings_model(s: Seq<String>) -> Seq<Seq<char>> {
    s.map_values(|x: String| x@)
}

/// Abstract value of a confirmation popup.
#[verifier::ext_equal]
pub struct ConfirmModel {
    pub title: Seq<char>,
    pub message: Seq<char>,
    pub buttons: Seq<Seq<char>>,
    pub selected_idx: usize,
}

impl View for ConfirmPopup {
    type V = ConfirmModel;

    open spec fn view(&self) -> ConfirmModel {
        ConfirmModel {
            title: self.title@,
            message: self.message@,
            buttons: strings_model(self.buttons@),
            selected_idx: self.selected_idx,
        }
    }
}

impl Clone for ConfirmPopup {
    fn clone(&self) -> (r: Self)
        ensures
            r@ == self@,
    {
        let buttons = self.buttons.clone();
        proof {
            assert(strings_model(buttons@) =~= strings_model(self.buttons@));
        }
        ConfirmPopup {
            title: self.title.clone(),
            message: self.message.clone(),
            buttons,
            selected_idx: self.selected_idx,
        }
    }
}

/// Button `i` carries the shortcut `target`.
pub open spec fn button_matches(buttons: Seq<Seq<char>>, i: int, target: char) -> bool {
    0 <= i < buttons.len() && buttons[i].len() > 0 && lowercase_first(buttons[i][0]) == target
}

/// Button `i` is the first one that carries the shortcut `target`.
pub open spec fn first_match(buttons: Seq<Seq<char>>, i: int, target: char) -> bool {
    button_matches(buttons, i, target) && forall|j: int|
        0 <= j < i ==> !#[trigger] button_matches(buttons, j, target)
}

/// Index of the first button whose label starts (ignoring case) with `target`.
pub open spec fn shortcut_index(buttons: Seq<Seq<char>>, target: char) -> Option<usize> {
    if exists|i: int| #[trigger] button_matches(buttons, i, target) {
        Some((choose|i: int| first_match(buttons, i, target)) as usize)
    } else {
        None
    }
}

/// Every label that is not empty starts with an ASCII character.
pub open spec fn first_chars_ascii(buttons: Seq<Seq<char>>) -> bool {
    forall|i: int|
        0 <= i < buttons.len() && #[trigger] buttons[i].len() > 0 ==> (buttons[i][0] as u32) < 128
}

/// Button `i`'s label starts with a letter whose ASCII lower case is `target`.
pub open spec fn ascii_button_matches(buttons: Seq<Seq<char>>, i: int, target: char) -> bool {
    0 <= i < buttons.len() && buttons[i].len() > 0 && ascii_lower(buttons[i][0]) == target
}

/// Button `i` is the first one whose label starts with `target` in ASCII lower case.
pub open spec fn ascii_first_match(buttons: Seq<Seq<char>>, i: int, target: char) -> bool {
    ascii_button_matches(buttons, i, target) && forall|j: int|
        0 <= j < i ==> !#[trigger] ascii_button_matches(buttons, j, target)
}

/// For ASCII labels and keys: index of the first button whose label starts with `target`,
/// ignoring ASCII case.
pub open spec fn ascii_shortcut_index(buttons: Seq<Seq<char>>, target: char) -> Option<usize> {
    if exists|i: int| #[trigger] ascii_button_matches(buttons, i, target) {
        Some((choose|i: int| ascii_first_match(buttons, i, target)) as usize)
    } else {
        None
    }
}

/// The popup can take the key without arithmetic overflow (stepping right past the last
/// button of an empty row underflows).
pub open spec fn confirm_accepts(p: ConfirmModel, key: KeyEvent) -> bool {
    match key.code {
        KeyCode::Right | KeyCode::Char('l') => p.buttons.len() > 0,
        _ => true,
    }
}

/// The popup after one key, and the chosen button if the key chose one: Enter chooses the
/// highlighted button, `h`/`l` and the arrows move the highlight, another letter chooses the
/// first button whose label starts with it (ignoring case).
pub open spec fn confirm_step(p: ConfirmModel, key: KeyEvent) -> (ConfirmModel, Option<usize>) {
    let left = ConfirmModel {
        selected_idx: if p.selected_idx > 0 {
            (p.selected_idx - 1) as usize
        } else {
            p.selected_idx
        },
        ..p
    };
    let right = ConfirmModel {
        selected_idx: if p.selected_idx < p.buttons.len() - 1 {
            (p.selected_idx + 1) as usize
        } else {
            p.selected_idx
        },
        ..p
    };
    match key.code {
        KeyCode::Enter => (p, Some(p.selected_idx)),
        KeyCode::Left => (left, None),
        KeyCode::Right => (right, None),
        KeyCode::Char(c) => if c == 'h' {
            (left, None)
        } else if c == 'l' {
            (right, None)
        } else {
            (p, shortcut_index(p.buttons, lowercase_first(c)))
        },
        _ => (p, None),
    }
}

impl ConfirmPopup {
    /// A popup with the given buttons, the first one highlighted.
    pub fn new(title: String, message: String, buttons: Vec<String>) -> (p: Self)
        ensures
            p.title@ == title@,
            p.message@ == message@,
            p.buttons@ == buttons@,
            p.selected_idx == 0,
    {
        ConfirmPopup { title, message, buttons, selected_idx: 0 }
    }

    /// The key can be handled without arithmetic overflow (stepping right past the last
    /// button of an empty row underflows).
    pub open spec fn accepts(&self, key: KeyEvent) -> bool {
        confirm_accepts(self@, key)
    }

    /// Tests `accepts`.
    pub fn key_ok(&self, key: KeyEvent) -> (r: bool)
        ensures
            r == self.accepts(key),
    {
        match key.code {
            KeyCode::Right | KeyCode::Char('l') => self.buttons.len() > 0,
            _ => true,
        }
    }

    /// Moves the highlight, or answers with the index of the chosen button: Enter picks the
    /// highlighted one, a letter picks the first button whose label starts with it.
    pub fn handle_input(&mut self, key: KeyEvent) -> (r: Option<usize>)
        requires
            old(self).accepts(key),
        ensures
            (final(self)@, r) == confirm_step(old(self)@, key),
            final(self).title@ == old(self).title@,
            final(self).message@ == old(self).message@,
            final(self).buttons@ == old(self).buttons@,
            key.code == KeyCode::Enter ==> r == Some(old(self).selected_idx)
                && final(self).selected_idx == old(self).selected_idx,
            key.code == KeyCode::Left || key.code == KeyCode::Char('h') ==> r is None
                && final(self).selected_idx == if old(self).selected_idx > 0 {
                (old(self).selected_idx - 1) as usize
            } else {
                old(self).selected_idx
            },
            key.code == KeyCode::Right || key.code == KeyCode::Char('l') ==> r is None
                && final(self).selected_idx == if old(self).selected_idx < old(self).buttons.len() - 1 {
                (old(self).selected_idx + 1) as usize
            } else {
                old(self).selected_idx
            },
            forall|c: char|
                key.code == KeyCode::Char(c) && c != 'h' && c != 'l' ==> final(self).selected_idx
                    == old(self).selected_idx && r == shortcut_index(
                    strings_model(old(self).buttons@),
                    lowercase_first(c),
                ),
            forall|c: char|
                key.code == KeyCode::Char(c) && c != 'h' && c != 'l' && (c as u32) < 128
                    && first_chars_ascii(strings_model(old(self).buttons@)) ==> r
                    == ascii_shortcut_index(strings_model(old(self).buttons@), ascii_lower(c)),
            !(key.code is Char) && key.code != KeyCode::Enter && key.code != KeyCode::Left
                && key.code != KeyCode::Right ==> r is None && final(self).selected_idx
                == old(self).selected_idx,
    {
        match key.code {
            KeyCode::Enter => Some(self.selected_idx),
            KeyCode::Esc => None,
            KeyCode::Left | KeyCode::Char('h') => {
                if self.selected_idx > 0 {
                    self.selected_idx = self.selected_idx - 1;
                }
                None
            },
            KeyCode::Right | KeyCode::Char('l') => {
                if self.selected_idx < self.buttons.len() - 1 {
                    self.selected_idx = self.selected_idx + 1;
                }
                None
            },
            KeyCode::Char(c) => {
                let target = char_lowercase_first(c);
                let ghost bs = strings_model(self.buttons@);
                let ghost ascii_case = (c as u32) < 128 && first_chars_ascii(bs);
                let mut i: usize = 0;
                while i < self.buttons.len()
                    invariant
                        i <= self.buttons.len(),
                        bs == strings_model(self.buttons@),
                        target == lowercase_first(c),
                        (c as u32) < 128 ==> target == ascii_lower(c),
                        ascii_case == ((c as u32) < 128 && first_chars_ascii(bs)),
                        key.code == KeyCode::Char(c),
                        c != 'h' && c != 'l',
                        self.buttons@ == old(self).buttons@,
                        self.selected_idx == old(self).selected_idx,
                        self.title@ == old(self).title@,
                        self.message@ == old(self).message@,
                        forall|j: int| 0 <= j < i ==> !#[trigger] button_matches(bs, j, target),
                        ascii_case ==> forall|j: int|
                            0 <= j < i ==> !#[trigger] ascii_button_matches(bs, j, target),
                    decreases self.buttons.len() - i,
                {
                    proof {
                        assert(bs[i as int] == self.buttons@[i as int]@);
                    }
                    let lower = str_to_lowercase(self.buttons[i].as_str());
                    let hit = lower.as_str().unicode_len() > 0 && lower.as_str().get_char(0) == target;
                    proof {
                        assert(hit == button_matches(bs, i as int, target));
                        if ascii_case && bs[i as int].len() > 0 {
                            assert((bs[i as int][0] as u32) < 128);
                            assert(hit == ascii_button_matches(bs, i as int, target));
                        }
                    }
                    if hit {
                        proof {
                            assert(first_match(bs, i as int, target));
                            let k = choose|k: int| first_match(bs, k, target);
                            assert(k == i) by {
                                if k < i {
                                    assert(!button_matches(bs, k, target));
                                } else if k > i {
                                    assert(!button_matches(bs, i as int, target));
                                }
                            }
                            if ascii_case {
                                assert(ascii_first_match(bs, i as int, target));
                                let k2 = choose|k: int| ascii_first_match(bs, k, target);
                                assert(k2 == i) by {
                                    if k2 < i {
                                        assert(!ascii_button_matches(bs, k2, target));
                                    } else if k2 > i {
                                        assert(!ascii_button_matches(bs, i as int, target));
                                    }
                                }
                            }
                        }
                        return Some(i);
                    }
                    i = i + 1;
                }
                proof {
                    assert forall|j: int| !#[trigger] button_matches(bs, j, target) by {
                        if 0 <= j < bs.len() {
                        }
                    }
                    if ascii_case {
                        assert forall|j: int| !#[trigger] ascii_button_matches(bs, j, target) by {
                            if 0 <= j < bs.len() {
                            }
                        }
                    }
                }
                None
            },
            _ => None,
        }
    }
}

} // verus!
