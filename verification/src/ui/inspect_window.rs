use vstd::prelude::*;

use crate::keys::{pressed, KeyCode, KeyEvent};
use crate::models::{Notebook, Task, tasks_model, subtasks_model};
use crate::text::{
    at_boundary, byte_len, char_pos, is_blank, lemma_ascii_edits, lemma_ascii_offsets, on_boundary,
    string_insert, string_remove, trim_is_empty, utf8_len,
};
use vstd::utf8::is_ascii_chars;
use crate::ui::confirm::strings_model;

verus! {

/// Whether the inspector only shows an item or lets the user type.
#[derive(Clone, Copy, PartialEq, Eq, Structural, Debug)]
pub enum InspectMode {
    View,
    Edit,
    Add,
}

/// The field that has the keyboard.
#[derive(Clone, Copy, PartialEq, Eq, Structural, Debug)]
pub enum InspectField {
    Title,
    Description,
    Contents,
}

/// What the inspector asks the application to do.
#[derive(Clone, Copy, PartialEq, Eq, Structural, Debug)]
pub enum InspectorAction {
    Submit,
    Cancel,
    Edit,
}

/// The side panel for viewing, adding or editing a notebook or a task: a title, a
/// description and a list (tasks of a notebook, subtasks of a task). `cursor_pos` is a
/// byte offset into the focused field.
pub struct Inspector {
    pub mode: InspectMode,
    pub title_input: String,
    pub desc_input: String,
    /// The list entry being typed.
    pub task_input: String,
    pub list_items: Vec<String>,
    pub list_label: String,
    pub focused_field: InspectField,
    pub cursor_pos: usize,
}

/// Abstract value of the inspector.
#[verifier::ext_equal]
pub struct InspectorModel {
    pub mode: InspectMode,
    pub title: Seq<char>,
    pub desc: Seq<char>,
    pub task: Seq<char>,
    pub items: Seq<Seq<char>>,
    pub label: Seq<char>,
    pub field: InspectField,
    pub cursor: int,
}

impl View for Inspector {
    type V = InspectorModel;

    open spec fn view(&self) -> InspectorModel {
        InspectorModel {
            mode: self.mode,
            title: self.title_input@,
            desc: self.desc_input@,
            task: self.task_input@,
            items: strings_model(self.list_items@),
            label: self.list_label@,
            field: self.focused_field,
            cursor: self.cursor_pos as int,
        }
    }
}

impl Clone for Inspector {
    fn clone(&self) -> (r: Self)
        ensures
            r@ == self@,
    {
        let items = self.list_items.clone();
        proof {
            assert(strings_model(items@) =~= strings_model(self.list_items@));
        }
        Inspector {
            mode: self.mode,
            title_input: self.title_input.clone(),
            desc_input: self.desc_input.clone(),
            task_input: self.task_input.clone(),
            list_items: items,
            list_label: self.list_label.clone(),
            focused_field: self.focused_field,
            cursor_pos: self.cursor_pos,
        }
    }
}

/// Tab order of the fields.
pub open spec fn next_field(f: InspectField) -> InspectField {
    match f {
        InspectField::Title => InspectField::Description,
        InspectField::Description => InspectField::Contents,
        InspectField::Contents => InspectField::Title,
    }
}

/// Reverse tab order of the fields.
pub open spec fn prev_field(f: InspectField) -> InspectField {
    match f {
        InspectField::Title => InspectField::Contents,
        InspectField::Description => InspectField::Title,
        InspectField::Contents => InspectField::Description,
    }
}

/// The text of the focused field.
pub open spec fn current(m: InspectorModel) -> Seq<char> {
    match m.field {
        InspectField::Title => m.title,
        InspectField::Description => m.desc,
        InspectField::Contents => m.task,
    }
}

/// `m` with the focused field's text replaced by `s`.
pub open spec fn set_current(m: InspectorModel, s: Seq<char>) -> InspectorModel {
    match m.field {
        InspectField::Title => InspectorModel { title: s, ..m },
        InspectField::Description => InspectorModel { desc: s, ..m },
        InspectField::Contents => InspectorModel { task: s, ..m },
    }
}

/// Focus `f` with the cursor at the end of its text.
pub open spec fn focus(m: InspectorModel, f: InspectField) -> InspectorModel {
    let m2 = InspectorModel { field: f, ..m };
    InspectorModel { cursor: utf8_len(current(m2)) as int, ..m2 }
}

/// The typed list entry, unless blank, moves to the end of the list.
pub open spec fn flushed(m: InspectorModel) -> InspectorModel {
    if !is_blank(m.task) {
        InspectorModel { items: m.items.push(m.task), task: Seq::empty(), ..m }
    } else {
        m
    }
}

/// Byte lengths of the lines (separated by byte 10, the newline) of a UTF-8 text.
pub open spec fn line_lens(b: Seq<u8>) -> Seq<int>
    decreases b.len(),
{
    if b.len() == 0 {
        seq![0int]
    } else {
        let r = line_lens(b.drop_last());
        if b.last() == 10u8 {
            r.push(0int)
        } else {
            r.update(r.len() - 1, r.last() + 1)
        }
    }
}

/// Byte offset at which line `t` starts.
pub open spec fn line_start(lens: Seq<int>, t: int) -> int
    decreases t,
{
    if t <= 0 {
        0
    } else {
        line_start(lens, t - 1) + lens[t - 1] + 1
    }
}

/// Line and column (in bytes) of byte offset `cursor`, scanning from line `i`; an offset
/// past the text counts as line 0, column 0.
pub open spec fn locate(lens: Seq<int>, cursor: int, i: int) -> (int, int)
    decreases lens.len() - i,
{
    if i < 0 || i >= lens.len() {
        (0, 0)
    } else if cursor <= line_start(lens, i) + lens[i] {
        (i, cursor - line_start(lens, i))
    } else {
        locate(lens, cursor, i + 1)
    }
}

/// Where the cursor lands when moved `dir` lines in the description, keeping its column as
/// far as the target line allows; `None` when it stays on its line.
pub open spec fn vertical_target(desc: Seq<char>, cursor: int, dir: int) -> Option<int> {
    let lens = line_lens(vstd::utf8::encode_utf8(desc));
    let (cur, col) = locate(lens, cursor, 0);
    let raw = cur + dir;
    let t = if raw < 0 {
        0
    } else if raw > lens.len() - 1 {
        lens.len() - 1
    } else {
        raw
    };
    if desc.len() == 0 || t == cur {
        None
    } else {
        Some(
            line_start(lens, t) + if col < lens[t] {
                col
            } else {
                lens[t]
            },
        )
    }
}

/// `m` after a vertical cursor move of `dir` lines in the description.
pub open spec fn moved_vertically(m: InspectorModel, dir: int) -> InspectorModel {
    match vertical_target(m.desc, m.cursor, dir) {
        Some(p) => InspectorModel { cursor: p, ..m },
        None => m,
    }
}

/// What one key does to the inspector, and what it asks of the application.
pub open spec fn inspector_step(m: InspectorModel, key: KeyEvent) -> (
    InspectorModel,
    Option<InspectorAction>,
) {
    if m.mode == InspectMode::View {
        match key.code {
            KeyCode::Esc => (m, Some(InspectorAction::Cancel)),
            KeyCode::Char('e') => (m, Some(InspectorAction::Edit)),
            _ => (m, None),
        }
    } else if (key.code == KeyCode::Char('s') && key.ctrl) || (key.code == KeyCode::Enter
        && key.alt) {
        if !is_blank(m.title) {
            (flushed(m), Some(InspectorAction::Submit))
        } else {
            (m, None)
        }
    } else {
        match key.code {
            KeyCode::Esc => (m, Some(InspectorAction::Cancel)),
            KeyCode::Tab => (focus(m, next_field(m.field)), None),
            KeyCode::BackTab => (focus(m, prev_field(m.field)), None),
            KeyCode::Left => (
                InspectorModel {
                    cursor: if m.cursor > 0 {
                        m.cursor - 1
                    } else {
                        m.cursor
                    },
                    ..m
                },
                None,
            ),
            KeyCode::Right => (
                InspectorModel {
                    cursor: if m.cursor < utf8_len(current(m)) {
                        m.cursor + 1
                    } else {
                        m.cursor
                    },
                    ..m
                },
                None,
            ),
            KeyCode::Up => if m.field == InspectField::Description {
                (moved_vertically(m, -1), None)
            } else {
                (focus(m, prev_field(m.field)), None)
            },
            KeyCode::Down => if m.field == InspectField::Description {
                (moved_vertically(m, 1), None)
            } else {
                (focus(m, next_field(m.field)), None)
            },
            KeyCode::Home => (InspectorModel { cursor: 0, ..m }, None),
            KeyCode::End => (InspectorModel { cursor: utf8_len(current(m)) as int, ..m }, None),
            KeyCode::Enter => match m.field {
                InspectField::Title => if !is_blank(m.title) {
                    (focus(m, InspectField::Description), None)
                } else {
                    (m, None)
                },
                InspectField::Description => if key.shift {
                    (focus(m, InspectField::Contents), None)
                } else {
                    (
                        InspectorModel {
                            desc: m.desc.insert(char_pos(m.desc, m.cursor), '\n'),
                            cursor: m.cursor + 1,
                            ..m
                        },
                        None,
                    )
                },
                InspectField::Contents => (InspectorModel { cursor: 0, ..flushed(m) }, None),
            },
            KeyCode::Backspace => if m.cursor > 0 {
                (
                    InspectorModel {
                        cursor: m.cursor - 1,
                        ..set_current(m, current(m).remove(char_pos(current(m), m.cursor - 1)))
                    },
                    None,
                )
            } else {
                (m, None)
            },
            KeyCode::Delete => if m.cursor < utf8_len(current(m)) {
                (set_current(m, current(m).remove(char_pos(current(m), m.cursor))), None)
            } else {
                (m, None)
            },
            KeyCode::Char(c) => (
                InspectorModel {
                    cursor: m.cursor + 1,
                    ..set_current(m, current(m).insert(char_pos(current(m), m.cursor), c))
                },
                None,
            ),
            _ => (m, None),
        }
    }
}

/// The list of names shown for a notebook's tasks.
pub open spec fn task_names(ts: Seq<crate::models::TaskModel>) -> Seq<Seq<char>> {
    ts.map_values(|t: crate::models::TaskModel| t.name)
}

/// The list of names shown for a task's subtasks.
pub open spec fn subtask_names(ss: Seq<crate::models::SubtaskModel>) -> Seq<Seq<char>> {
    ss.map_values(|s: crate::models::SubtaskModel| s.name)
}

/// Copies the names of a notebook's tasks.
pub fn collect_task_names(tasks: &Vec<Task>) -> (names: Vec<String>)
    ensures
        strings_model(names@) == task_names(tasks_model(tasks@)),
{
    let mut names: Vec<String> = Vec::new();
    let mut i: usize = 0;
    while i < tasks.len()
        invariant
            i <= tasks.len(),
            strings_model(names@) =~= task_names(tasks_model(tasks@.subrange(0, i as int))),
        decreases tasks.len() - i,
    {
        let ghost before = names@;
        names.push(tasks[i].name.clone());
        proof {
            assert(strings_model(names@) =~= strings_model(before).push(tasks@[i as int].name@));
            assert(tasks_model(tasks@.subrange(0, i + 1)) =~= tasks_model(
                tasks@.subrange(0, i as int),
            ).push(tasks@[i as int]@));
        }
        i = i + 1;
    }
    proof {
        assert(tasks@.subrange(0, tasks.len() as int) =~= tasks@);
    }
    names
}

/// Copies the names of a task's subtasks.
pub fn collect_subtask_names(subtasks: &Vec<crate::models::Subtask>) -> (names: Vec<String>)
    ensures
        strings_model(names@) == subtask_names(subtasks_model(subtasks@)),
{
    let mut names: Vec<String> = Vec::new();
    let mut i: usize = 0;
    while i < subtasks.len()
        invariant
            i <= subtasks.len(),
            strings_model(names@) =~= subtask_names(
                subtasks_model(subtasks@.subrange(0, i as int)),
            ),
        decreases subtasks.len() - i,
    {
        let ghost before = names@;
        names.push(subtasks[i].name.clone());
        proof {
            assert(strings_model(names@) =~= strings_model(before).push(subtasks@[i as int].name@));
            assert(subtasks_model(subtasks@.subrange(0, i + 1)) =~= subtasks_model(
                subtasks@.subrange(0, i as int),
            ).push(subtasks@[i as int]@));
        }
        i = i + 1;
    }
    proof {
        assert(subtasks@.subrange(0, subtasks.len() as int) =~= subtasks@);
    }
    names
}

/// The inspector `Inspector::setup` builds: filled from a notebook (its tasks listed), else
/// from a task (its subtasks listed), both in edit mode; with neither, empty and in add mode.
/// The title is focused with the cursor at its end.
pub open spec fn setup_model(
    nb: Option<crate::models::NotebookModel>,
    task: Option<crate::models::TaskModel>,
    label: Seq<char>,
) -> InspectorModel {
    let (mode, title, desc, items) = match (nb, task) {
        (Some(n), _) => (InspectMode::Edit, n.name, n.description, task_names(n.tasks)),
        (None, Some(t)) => (InspectMode::Edit, t.name, t.description, subtask_names(t.subtasks)),
        (None, None) => (InspectMode::Add, Seq::empty(), Seq::empty(), Seq::empty()),
    };
    InspectorModel {
        mode,
        title,
        desc,
        task: Seq::empty(),
        items,
        label,
        field: InspectField::Title,
        cursor: utf8_len(title) as int,
    }
}

/// The inspector can take the key without an out-of-range string edit or an overflow.
pub open spec fn inspector_accepts(m: InspectorModel, key: KeyEvent) -> bool {
    if m.mode == InspectMode::View {
        true
    } else if (key.code == KeyCode::Char('s') && key.ctrl) || (key.code == KeyCode::Enter
        && key.alt) {
        true
    } else {
        match key.code {
            KeyCode::Up | KeyCode::Down => m.field == InspectField::Description ==> utf8_len(
                m.desc,
            ) < 0x7fff_ffff,
            KeyCode::Enter => m.field == InspectField::Description && !key.shift ==> (
            on_boundary(m.desc, m.cursor) && m.cursor < usize::MAX),
            KeyCode::Backspace => m.cursor > 0 ==> (m.cursor - 1 < utf8_len(current(m))
                && on_boundary(current(m), m.cursor - 1)),
            KeyCode::Delete => m.cursor < utf8_len(current(m)) ==> on_boundary(
                current(m),
                m.cursor,
            ),
            KeyCode::Char(_) => on_boundary(current(m), m.cursor) && m.cursor < usize::MAX,
            _ => true,
        }
    }
}

impl Inspector {
    /// An inspector with the given contents, the title focused and the cursor at its end.
    pub fn new(
        mode: InspectMode,
        title_input: String,
        desc_input: String,
        list_items: Vec<String>,
        list_label: String,
    ) -> (r: Self)
        ensures
            r@ == (InspectorModel {
                mode,
                title: title_input@,
                desc: desc_input@,
                task: Seq::empty(),
                items: strings_model(list_items@),
                label: list_label@,
                field: InspectField::Title,
                cursor: utf8_len(title_input@) as int,
            }),
    {
        let cursor_pos = byte_len(&title_input);
        Inspector {
            mode,
            title_input,
            desc_input,
            task_input: String::new(),
            list_items,
            list_label,
            focused_field: InspectField::Title,
            cursor_pos,
        }
    }

    /// An inspector filled from a notebook (its tasks listed), else from a task (its subtasks
    /// listed), both in edit mode; with neither, an empty one in add mode.
    pub fn setup(nb: Option<&Notebook>, task: Option<&Task>, list_label: String) -> (r: Self)
        ensures
            r@ == setup_model(
                match nb {
                    Some(n) => Some(n@),
                    None => None,
                },
                match task {
                    Some(t) => Some(t@),
                    None => None,
                },
                list_label@,
            ),
            r.list_label@ == list_label@,
            r.task_input@.len() == 0,
            r.focused_field == InspectField::Title,
            r.cursor_pos == utf8_len(r.title_input@),
            match (nb, task) {
                (Some(n), _) => r.mode == InspectMode::Edit && r.title_input@ == n.name@
                    && r.desc_input@ == n.description@ && strings_model(r.list_items@)
                    == task_names(tasks_model(n.tasks@)),
                (None, Some(t)) => r.mode == InspectMode::Edit && r.title_input@ == t.name@
                    && r.desc_input@ == t.description@ && strings_model(r.list_items@)
                    == subtask_names(subtasks_model(t.subtasks@)),
                (None, None) => r.mode == InspectMode::Add && r.title_input@.len() == 0
                    && r.desc_input@.len() == 0 && r.list_items@.len() == 0,
            },
    {
        let (mode, title, desc, items) = match (nb, task) {
            (Some(n), _) => (
                InspectMode::Edit,
                n.name.clone(),
                n.description.clone(),
                collect_task_names(&n.tasks),
            ),
            (None, Some(t)) => (
                InspectMode::Edit,
                t.name.clone(),
                t.description.clone(),
                collect_subtask_names(&t.subtasks),
            ),
            (None, None) => (InspectMode::Add, String::new(), String::new(), Vec::new()),
        };
        let cursor_pos = byte_len(&title);
        proof {
            assert(strings_model(items@).len() == items@.len());
        }
        Inspector {
            mode,
            title_input: title,
            desc_input: desc,
            task_input: String::new(),
            list_items: items,
            list_label,
            focused_field: InspectField::Title,
            cursor_pos,
        }
    }

    /// Nothing has been typed anywhere (white space does not count).
    pub fn is_empty(&self) -> (r: bool)
        ensures
            r == (is_blank(self.title_input@) && is_blank(self.desc_input@)
                && self.list_items@.len() == 0 && is_blank(self.task_input@)),
    {
        trim_is_empty(self.title_input.as_str()) && trim_is_empty(self.desc_input.as_str())
            && self.list_items.len() == 0 && trim_is_empty(self.task_input.as_str())
    }

    /// Tests `accepts`.
    pub fn key_ok(&self, key: KeyEvent) -> (r: bool)
        ensures
            r == self.accepts(key),
    {
        if self.mode == InspectMode::View {
            return true;
        }
        if (key.code == KeyCode::Char('s') && key.ctrl) || (key.code == KeyCode::Enter && key.alt) {
            return true;
        }
        let cursor = self.cursor_pos;
        match key.code {
            KeyCode::Up | KeyCode::Down => self.focused_field != InspectField::Description
                || byte_len(&self.desc_input) < 0x7fff_ffff,
            KeyCode::Enter => !(self.focused_field == InspectField::Description && !key.shift) || (
            at_boundary(&self.desc_input, cursor) && cursor < usize::MAX),
            KeyCode::Backspace => cursor == 0 || (cursor - 1 < self.current_len() && at_boundary(
                self.get_current_buffer(),
                cursor - 1,
            )),
            KeyCode::Delete => !(cursor < self.current_len()) || at_boundary(
                self.get_current_buffer(),
                cursor,
            ),
            KeyCode::Char(_) => at_boundary(self.get_current_buffer(), cursor) && cursor < usize::MAX,
            _ => true,
        }
    }

    /// Byte length of the focused field.
    fn current_len(&self) -> (n: usize)
        ensures
            n == utf8_len(current(self@)),
    {
        match self.focused_field {
            InspectField::Title => byte_len(&self.title_input),
            InspectField::Description => byte_len(&self.desc_input),
            InspectField::Contents => byte_len(&self.task_input),
        }
    }

    /// The text of the focused field.
    pub fn get_current_buffer(&self) -> (s: &String)
        ensures
            s@ == current(self@),
    {
        match self.focused_field {
            InspectField::Title => &self.title_input,
            InspectField::Description => &self.desc_input,
            InspectField::Contents => &self.task_input,
        }
    }

    /// Puts the cursor at the end of the focused field.
    pub fn reset_cursor_to_end(&mut self)
        ensures
            final(self)@ == (InspectorModel {
                cursor: utf8_len(current(old(self)@)) as int,
                ..old(self)@
            }),
    {
        self.cursor_pos = self.current_len();
    }

    /// Moves the typed list entry, unless blank, to the end of the list.
    pub fn flush_task_buffer(&mut self)
        ensures
            final(self)@ == flushed(old(self)@),
    {
        if !trim_is_empty(self.task_input.as_str()) {
            let entry = self.task_input.clone();
            self.list_items.push(entry);
            self.task_input = String::new();
            proof {
                assert(strings_model(self.list_items@) =~= strings_model(
                    old(self).list_items@,
                ).push(old(self).task_input@));
                assert(self@ =~= flushed(old(self)@));
            }
        }
    }

    /// The key can be handled without an out-of-range string edit or an overflow.
    pub open spec fn accepts(&self, key: KeyEvent) -> bool {
        inspector_accepts(self@, key)
    }

    /// Moves the cursor `dir` lines up (-1) or down (1) in the description.
    fn move_cursor_vertical(&mut self, dir: i32)
        requires
            dir == 1 || dir == -1,
            utf8_len(old(self).desc_input@) < 0x7fff_ffff,
        ensures
            final(self)@ == moved_vertically(old(self)@, dir as int),
    {
        let n = byte_len(&self.desc_input);
        if n == 0 {
            proof {
                assert(old(self)@.desc.len() == 0) by {
                    if old(self)@.desc.len() > 0 {
                        assert(vstd::utf8::encode_utf8(old(self)@.desc) =~= vstd::utf8::encode_scalar(old(self)@.desc[0] as u32) + vstd::utf8::encode_utf8(old(self)@.desc.drop_first()));
                    }
                }
            }
            return ;
        }
        let bytes = self.desc_input.as_str().as_bytes();
        let ghost b = bytes@;
        assert(b == vstd::utf8::encode_utf8(self.desc_input@));
        // 1. Line lengths
        let mut lens: Vec<usize> = Vec::new();
        lens.push(0);
        let mut i: usize = 0;
        proof {
            assert(b.subrange(0, 0) =~= Seq::<u8>::empty());
        }
        while i < bytes.len()
            invariant
                b == bytes@,
                self@ == old(self)@,
                i <= bytes.len(),
                bytes.len() < 0x7fff_ffff,
                lens@.len() >= 1,
                lens@.len() <= i + 1,
                forall|k: int| 0 <= k < lens@.len() ==> lens@[k] <= i,
                lens@.map_values(|x: usize| x as int) =~= line_lens(b.subrange(0, i as int)),
            decreases bytes.len() - i,
        {
            let ghost old_lens = lens@;
            proof {
                assert(b.subrange(0, i + 1).drop_last() =~= b.subrange(0, i as int));
            }
            if bytes[i] == 10u8 {
                lens.push(0);
            } else {
                let last = lens.len() - 1;
                let v = lens[last] + 1;
                lens.set(last, v);
            }
            i = i + 1;
            proof {
                assert(lens@.map_values(|x: usize| x as int) =~= line_lens(b.subrange(0, i as int)));
            }
        }
        proof {
            assert(b.subrange(0, bytes.len() as int) =~= b);
        }
        let ghost lz = line_lens(b);
        proof {
            lemma_line_lens_sum(b);
            lemma_line_lens_nonneg(b);
        }
        // 2. Locate the cursor
        let mut current_line: usize = 0;
        let mut current_col: usize = 0;
        let mut char_count: usize = 0;
        let mut j: usize = 0;
        let mut found = false;
        while j < lens.len()
            invariant_except_break
                !found,
                char_count == line_start(lz, j as int),
                self.cursor_pos >= char_count,
                locate(lz, self.cursor_pos as int, 0) == locate(lz, self.cursor_pos as int, j as int),
                current_line == 0 && current_col == 0,
            invariant
                lz == line_lens(b),
                lens@.map_values(|x: usize| x as int) == lz,
                j <= lens.len(),
                b.len() < 0x7fff_ffff,
                line_start(lz, lz.len() as int) == b.len() + 1,
                forall|k: int| 0 <= k < lz.len() ==> lz[k] >= 0,
                self@ == old(self)@,
            ensures
                found ==> locate(lz, self.cursor_pos as int, 0) == (
                    current_line as int,
                    current_col as int,
                ) && current_line < lz.len(),
                !found ==> locate(lz, self.cursor_pos as int, 0) == (0int, 0int) && current_line
                    == 0 && current_col == 0,
            decreases lens.len() - j,
        {
            proof {
                lemma_line_start_mono(lz, j + 1, lz.len() as int);
                assert(lz[j as int] == lens@[j as int] as int);
            }
            let next_boundary = char_count + lens[j];
            if self.cursor_pos <= next_boundary {
                proof {
                    assert(locate(lz, self.cursor_pos as int, j as int) == (j as int, self.cursor_pos - char_count));
                }
                current_line = j;
                current_col = self.cursor_pos - char_count;
                found = true;
                break;
            }
            proof {
                assert(locate(lz, self.cursor_pos as int, j as int) == locate(lz, self.cursor_pos as int, j + 1));
            }
            char_count = char_count + lens[j] + 1;
            j = j + 1;
        }
        // 3. Target line
        let nlines = lens.len();
        let raw: i64 = current_line as i64 + dir as i64;
        let target_line: usize = if raw < 0 {
            0
        } else if raw > (nlines - 1) as i64 {
            nlines - 1
        } else {
            raw as usize
        };
        proof {
            assert(lz.len() == nlines);
        }
        if target_line == current_line {
            return ;
        }
        // 4. New position
        let mut new_pos: usize = 0;
        let mut k: usize = 0;
        while k < target_line
            invariant
                lz == line_lens(b),
                lens@.map_values(|x: usize| x as int) == lz,
                target_line < lens.len(),
                k <= target_line,
                b.len() < 0x7fff_ffff,
                line_start(lz, lz.len() as int) == b.len() + 1,
                forall|q: int| 0 <= q < lz.len() ==> lz[q] >= 0,
                new_pos == line_start(lz, k as int),
                self@ == old(self)@,
            decreases target_line - k,
        {
            proof {
                lemma_line_start_mono(lz, k + 1, lz.len() as int);
                assert(lz[k as int] == lens@[k as int] as int);
            }
            new_pos = new_pos + lens[k] + 1;
            k = k + 1;
        }
        proof {
            lemma_line_start_mono(lz, target_line as int, lz.len() as int);
            assert(lz[target_line as int] == lens@[target_line as int] as int);
        }
        let target_len = lens[target_line];
        let target_col = if current_col < target_len {
            current_col
        } else {
            target_len
        };
        new_pos = new_pos + target_col;
        self.cursor_pos = new_pos;
        proof {
            assert(vertical_target(old(self)@.desc, old(self)@.cursor, dir as int) == Some(new_pos as int));
        }
    }

    /// Handles one key: typing and cursor keys edit the focused field, Tab and the arrows
    /// move between fields, Ctrl-S / Alt-Enter submit (when the title is not blank), Esc
    /// cancels; in view mode only Esc (cancel) and `e` (edit) mean something.
    pub fn handle_input(&mut self, key: KeyEvent) -> (r: Option<InspectorAction>)
        requires
            old(self).accepts(key),
        ensures
            (final(self)@, r) == inspector_step(old(self)@, key),
    {
        if self.mode == InspectMode::View {
            return match key.code {
                KeyCode::Esc => Some(InspectorAction::Cancel),
                KeyCode::Char('e') => Some(InspectorAction::Edit),
                _ => None,
            };
        }
        let alt = key.alt;
        let shift = key.shift;
        let ctrl = key.ctrl;
        if (key.code == KeyCode::Char('s') && ctrl) || (key.code == KeyCode::Enter && alt) {
            if !trim_is_empty(self.title_input.as_str()) {
                self.flush_task_buffer();
                return Some(InspectorAction::Submit);
            }
            return None;
        }
        match key.code {
            KeyCode::Esc => {
                return Some(InspectorAction::Cancel);
            },
            KeyCode::Tab => {
                self.focused_field = match self.focused_field {
                    InspectField::Title => InspectField::Description,
                    InspectField::Description => InspectField::Contents,
                    InspectField::Contents => InspectField::Title,
                };
                self.reset_cursor_to_end();
            },
            KeyCode::BackTab => {
                self.focused_field = match self.focused_field {
                    InspectField::Title => InspectField::Contents,
                    InspectField::Description => InspectField::Title,
                    InspectField::Contents => InspectField::Description,
                };
                self.reset_cursor_to_end();
            },
            KeyCode::Left => {
                if self.cursor_pos > 0 {
                    self.cursor_pos = self.cursor_pos - 1;
                }
            },
            KeyCode::Right => {
                let len = self.current_len();
                if self.cursor_pos < len {
                    self.cursor_pos = self.cursor_pos + 1;
                }
            },
            KeyCode::Up => {
                if self.focused_field == InspectField::Description {
                    self.move_cursor_vertical(-1);
                } else {
                    self.focused_field = match self.focused_field {
                        InspectField::Title => InspectField::Contents,
                        InspectField::Description => InspectField::Title,
                        InspectField::Contents => InspectField::Description,
                    };
                    self.reset_cursor_to_end();
                }
            },
            KeyCode::Down => {
                if self.focused_field == InspectField::Description {
                    self.move_cursor_vertical(1);
                } else {
                    self.focused_field = match self.focused_field {
                        InspectField::Title => InspectField::Description,
                        InspectField::Description => InspectField::Contents,
                        InspectField::Contents => InspectField::Title,
                    };
                    self.reset_cursor_to_end();
                }
            },
            KeyCode::Home => {
                self.cursor_pos = 0;
            },
            KeyCode::End => {
                self.cursor_pos = self.current_len();
            },
            KeyCode::Enter => match self.focused_field {
                InspectField::Title => {
                    if !trim_is_empty(self.title_input.as_str()) {
                        self.focused_field = InspectField::Description;
                        self.reset_cursor_to_end();
                    }
                },
                InspectField::Description => {
                    if shift {
                        self.focused_field = InspectField::Contents;
                        self.reset_cursor_to_end();
                    } else {
                        string_insert(&mut self.desc_input, self.cursor_pos, '\n');
                        self.cursor_pos = self.cursor_pos + 1;
                    }
                },
                InspectField::Contents => {
                    self.flush_task_buffer();
                    self.cursor_pos = 0;
                },
            },
            KeyCode::Backspace => {
                if self.cursor_pos > 0 {
                    match self.focused_field {
                        InspectField::Title => {
                            string_remove(&mut self.title_input, self.cursor_pos - 1);
                        },
                        InspectField::Description => {
                            string_remove(&mut self.desc_input, self.cursor_pos - 1);
                        },
                        InspectField::Contents => {
                            string_remove(&mut self.task_input, self.cursor_pos - 1);
                        },
                    }
                    self.cursor_pos = self.cursor_pos - 1;
                }
            },
            KeyCode::Delete => {
                let len = self.current_len();
                if self.cursor_pos < len {
                    match self.focused_field {
                        InspectField::Title => {
                            string_remove(&mut self.title_input, self.cursor_pos);
                        },
                        InspectField::Description => {
                            string_remove(&mut self.desc_input, self.cursor_pos);
                        },
                        InspectField::Contents => {
                            string_remove(&mut self.task_input, self.cursor_pos);
                        },
                    }
                }
            },
            KeyCode::Char(c) => {
                match self.focused_field {
                    InspectField::Title => {
                        string_insert(&mut self.title_input, self.cursor_pos, c);
                    },
                    InspectField::Description => {
                        string_insert(&mut self.desc_input, self.cursor_pos, c);
                    },
                    InspectField::Contents => {
                        string_insert(&mut self.task_input, self.cursor_pos, c);
                    },
                }
                self.cursor_pos = self.cursor_pos + 1;
            },
            _ => {},
        }
        proof {
            assert((self@, None::<InspectorAction>) =~~= inspector_step(old(self)@, key));
        }
        None
    }
}

proof fn lemma_line_lens_nonneg(b: Seq<u8>)
    ensures
        line_lens(b).len() >= 1,
        line_lens(b).len() <= b.len() + 1,
        forall|k: int| 0 <= k < line_lens(b).len() ==> line_lens(b)[k] >= 0,
    decreases b.len(),
{
    if b.len() > 0 {
        lemma_line_lens_nonneg(b.drop_last());
    }
}

proof fn lemma_line_start_prefix(l1: Seq<int>, l2: Seq<int>, t: int)
    requires
        0 <= t <= l1.len(),
        t <= l2.len(),
        forall|k: int| 0 <= k < t ==> l1[k] == l2[k],
    ensures
        line_start(l1, t) == line_start(l2, t),
    decreases t,
{
    if t > 0 {
        lemma_line_start_prefix(l1, l2, t - 1);
    }
}

proof fn lemma_line_lens_sum(b: Seq<u8>)
    ensures
        line_start(line_lens(b), line_lens(b).len() as int) == b.len() + 1,
    decreases b.len(),
{
    lemma_line_lens_nonneg(b);
    if b.len() == 0 {
        assert(line_lens(b) == seq![0int]);
        assert(line_start(seq![0int], 0) == 0);
        assert(line_start(seq![0int], 1) == 1);
    } else {
        let p = b.drop_last();
        let r = line_lens(p);
        lemma_line_lens_sum(p);
        lemma_line_lens_nonneg(p);
        let n = r.len() as int;
        assert(line_start(r, n) == line_start(r, n - 1) + r[n - 1] + 1);
        if b.last() == 10u8 {
            let r2 = r.push(0int);
            assert(line_lens(b) == r2);
            lemma_line_start_prefix(r, r2, n);
            assert(line_start(r2, n + 1) == line_start(r2, n) + r2[n] + 1);
        } else {
            let r2 = r.update(n - 1, r.last() + 1);
            assert(line_lens(b) == r2);
            lemma_line_start_prefix(r, r2, n - 1);
            assert(line_start(r2, n) == line_start(r2, n - 1) + r2[n - 1] + 1);
        }
    }
}

proof fn lemma_line_start_mono(lens: Seq<int>, a: int, c: int)
    requires
        0 <= a <= c <= lens.len(),
        forall|k: int| 0 <= k < lens.len() ==> lens[k] >= 0,
    ensures
        line_start(lens, a) <= line_start(lens, c),
    decreases c - a,
{
    if a < c {
        lemma_line_start_mono(lens, a, c - 1);
    }
}

/// While editing, typing a character and then Backspace gives back the inspector as it
/// was; the inspector can take that Backspace.
pub proof fn law_type_then_backspace(m: InspectorModel, c: char)
    requires
        m.mode != InspectMode::View,
        inspector_accepts(m, pressed(KeyCode::Char(c))),
    ensures
        inspector_accepts(
            inspector_step(m, pressed(KeyCode::Char(c))).0,
            pressed(KeyCode::Backspace),
        ),
        inspector_step(
            inspector_step(m, pressed(KeyCode::Char(c))).0,
            pressed(KeyCode::Backspace),
        ).0 == m,
{
    crate::text::lemma_insert_at_boundary(current(m), m.cursor, c);
    let m1 = inspector_step(m, pressed(KeyCode::Char(c))).0;
    assert(current(m1) == current(m).insert(char_pos(current(m), m.cursor), c));
    let m2 = inspector_step(m1, pressed(KeyCode::Backspace)).0;
    let k = char_pos(current(m), m.cursor);
    assert(current(m1).remove(k) == current(m));
    assert(m2 =~= m);
}

/// While editing, Tab then BackTab returns to the same field (the cursor goes to its end),
/// and three Tabs go round all the fields.
pub proof fn law_tab_round_trip(m: InspectorModel)
    requires
        m.mode != InspectMode::View,
    ensures
        inspector_step(inspector_step(m, pressed(KeyCode::Tab)).0, pressed(KeyCode::BackTab)).0
            == focus(m, m.field),
        inspector_step(
            inspector_step(inspector_step(m, pressed(KeyCode::Tab)).0, pressed(KeyCode::Tab)).0,
            pressed(KeyCode::Tab),
        ).0 == focus(m, m.field),
{
}

/// Scanning for a cursor at or past the start of line `i` finds a line of the text and a
/// column that is not negative.
proof fn lemma_locate_bounds(lens: Seq<int>, cursor: int, i: int)
    requires
        0 <= i,
        line_start(lens, i) <= cursor,
        forall|k: int| 0 <= k < lens.len() ==> lens[k] >= 0,
    ensures
        locate(lens, cursor, i).1 >= 0,
        locate(lens, cursor, i).0 >= 0,
        locate(lens, cursor, i).0 < lens.len() || locate(lens, cursor, i) == (0int, 0int),
    decreases lens.len() - i,
{
    if i < lens.len() && cursor > line_start(lens, i) + lens[i] {
        lemma_locate_bounds(lens, cursor, i + 1);
    }
}

/// A vertical move lands inside the description.
proof fn lemma_vertical_bounds(desc: Seq<char>, cursor: int, dir: int)
    requires
        0 <= cursor,
    ensures
        vertical_target(desc, cursor, dir) matches Some(p) ==> 0 <= p <= utf8_len(desc),
{
    let b = vstd::utf8::encode_utf8(desc);
    let lens = line_lens(b);
    lemma_line_lens_nonneg(b);
    lemma_line_lens_sum(b);
    lemma_locate_bounds(lens, cursor, 0);
    let (cur, col) = locate(lens, cursor, 0);
    let raw = cur + dir;
    let t = if raw < 0 {
        0
    } else if raw > lens.len() - 1 {
        lens.len() - 1
    } else {
        raw
    };
    if desc.len() != 0 && t != cur {
        lemma_line_start_mono(lens, 0, t);
        lemma_line_start_mono(lens, t + 1, lens.len() as int);
        assert(line_start(lens, t + 1) == line_start(lens, t) + lens[t] + 1);
    }
}

/// All three text fields are ASCII.
pub open spec fn ascii_fields(m: InspectorModel) -> bool {
    &&& is_ascii_chars(m.title)
    &&& is_ascii_chars(m.desc)
    &&& is_ascii_chars(m.task)
}

/// While the fields hold ASCII text, every key but a non-ASCII character and the two submit
/// keys (Ctrl-S, Alt-Enter) keeps them ASCII and keeps the cursor inside the focused field.
pub proof fn law_ascii_fields_stay_whole(m: InspectorModel, key: KeyEvent)
    requires
        ascii_fields(m),
        0 <= m.cursor <= current(m).len(),
        forall|c: char| key.code == KeyCode::Char(c) ==> (c as u32) < 128,
        !(key.code == KeyCode::Char('s') && key.ctrl),
        !(key.code == KeyCode::Enter && key.alt),
    ensures
        ascii_fields(inspector_step(m, key).0),
        0 <= inspector_step(m, key).0.cursor <= current(inspector_step(m, key).0).len(),
{
    let s = current(m);
    let k = m.cursor;
    let n = s.len() as int;
    lemma_ascii_offsets(s, k);
    lemma_ascii_offsets(m.title, 0);
    lemma_ascii_offsets(m.desc, 0);
    lemma_ascii_offsets(m.task, 0);
    assert(is_ascii_chars(Seq::<char>::empty()));
    if k > 0 {
        lemma_ascii_offsets(s, k - 1);
        lemma_ascii_edits(s, k - 1, ' ');
    }
    if k < n {
        lemma_ascii_edits(s, k, ' ');
    }
    lemma_ascii_edits(s, k, '\n');
    match key.code {
        KeyCode::Char(c) => {
            lemma_ascii_edits(s, k, c);
        },
        KeyCode::Up | KeyCode::Down => {
            lemma_vertical_bounds(m.desc, k, -1);
            lemma_vertical_bounds(m.desc, k, 1);
        },
        _ => {},
    }
}

/// Start of the line holding byte offset `p`: just after the last newline before `p`.
pub open spec fn line_begin(b: Seq<u8>, p: int) -> int
    decreases p,
{
    if p <= 0 {
        0
    } else if b[p - 1] == 10u8 {
        p
    } else {
        line_begin(b, p - 1)
    }
}

/// End of the line holding byte offset `p`: the first newline at or after `p`, or the end
/// of the text.
pub open spec fn line_end(b: Seq<u8>, p: int) -> int
    decreases b.len() - p,
{
    if p < 0 || p >= b.len() {
        b.len() as int
    } else if b[p] == 10u8 {
        p
    } else {
        line_end(b, p + 1)
    }
}

/// The last line that `line_lens` finds ends where the text does.
proof fn lemma_last_line_end(b: Seq<u8>)
    ensures
        line_lens(b).len() >= 1,
        line_start(line_lens(b), line_lens(b).len() - 1) + line_lens(b)[line_lens(b).len() - 1]
            == b.len(),
{
    lemma_line_lens_nonneg(b);
    lemma_line_lens_sum(b);
    let lens = line_lens(b);
    assert(line_start(lens, lens.len() as int) == line_start(lens, lens.len() - 1) + lens[lens.len()
        - 1] + 1);
}

/// Every line that `line_lens` finds but the last ends at a newline.
proof fn lemma_line_ends_at_newline(b: Seq<u8>, i: int)
    requires
        0 <= i < line_lens(b).len() - 1,
    ensures
        line_start(line_lens(b), i) + line_lens(b)[i] < b.len(),
        b[line_start(line_lens(b), i) + line_lens(b)[i]] == 10u8,
    decreases b.len(),
{
    lemma_line_lens_nonneg(b);
    let lens = line_lens(b);
    if b.len() > 0 {
        let pb = b.drop_last();
        let r = line_lens(pb);
        let nr = r.len() as int;
        lemma_line_lens_nonneg(pb);
        lemma_last_line_end(pb);
        let x = line_start(r, i) + r[i];
        lemma_line_start_mono(r, 0, i);
        if b.last() == 10u8 {
            assert(lens == r.push(0int));
            lemma_line_start_prefix(r, lens, i);
            assert(lens[i] == r[i]);
            if i < nr - 1 {
                lemma_line_ends_at_newline(pb, i);
                assert(b[x] == pb[x]);
            } else {
                assert(x == pb.len());
                assert(b[x] == b.last());
            }
        } else {
            assert(lens == r.update(nr - 1, r.last() + 1));
            lemma_line_start_prefix(r, lens, i);
            assert(lens[i] == r[i]);
            lemma_line_ends_at_newline(pb, i);
            assert(b[x] == pb[x]);
        }
    }
}

/// No line that `line_lens` finds holds a newline.
proof fn lemma_line_has_no_newline(b: Seq<u8>, i: int, q: int)
    requires
        0 <= i < line_lens(b).len(),
        line_start(line_lens(b), i) <= q < line_start(line_lens(b), i) + line_lens(b)[i],
    ensures
        b[q] != 10u8,
    decreases b.len(),
{
    lemma_line_lens_nonneg(b);
    let lens = line_lens(b);
    if b.len() > 0 {
        let pb = b.drop_last();
        let r = line_lens(pb);
        let nr = r.len() as int;
        lemma_line_lens_nonneg(pb);
        lemma_last_line_end(pb);
        if i < nr {
            lemma_line_start_mono(r, 0, i);
        }
        if b.last() == 10u8 {
            assert(lens == r.push(0int));
            lemma_line_start_prefix(r, lens, i);
            if i < nr {
                assert(lens[i] == r[i]);
                if i < nr - 1 {
                    assert(line_start(r, i + 1) == line_start(r, i) + r[i] + 1);
                    lemma_line_start_mono(r, i + 1, nr - 1);
                }
                lemma_line_has_no_newline(pb, i, q);
                assert(b[q] == pb[q]);
            }
        } else {
            assert(lens == r.update(nr - 1, r.last() + 1));
            lemma_line_start_prefix(r, lens, i);
            lemma_line_start_mono(r, i, nr - 1);
            if i < nr - 1 {
                assert(lens[i] == r[i]);
                assert(line_start(r, i + 1) == line_start(r, i) + r[i] + 1);
                lemma_line_start_mono(r, i + 1, nr - 1);
                lemma_line_has_no_newline(pb, i, q);
                assert(b[q] == pb[q]);
            } else if q < pb.len() {
                lemma_line_has_no_newline(pb, i, q);
                assert(b[q] == pb[q]);
            } else {
                assert(b[q] == b.last());
            }
        }
    }
}

/// A stretch without newlines that starts the text or follows a newline is where the line
/// of its every offset begins.
proof fn lemma_line_begin_at(b: Seq<u8>, lo: int, p: int)
    requires
        0 <= lo <= p <= b.len(),
        lo == 0 || b[lo - 1] == 10u8,
        forall|q: int| lo <= q < p ==> b[q] != 10u8,
    ensures
        line_begin(b, p) == lo,
    decreases p - lo,
{
    if p > lo {
        lemma_line_begin_at(b, lo, p - 1);
    }
}

/// A stretch without newlines that ends the text or meets a newline is where the line of its
/// every offset ends.
proof fn lemma_line_end_at(b: Seq<u8>, p: int, hi: int)
    requires
        0 <= p <= hi <= b.len(),
        hi == b.len() || b[hi] == 10u8,
        forall|q: int| p <= q < hi ==> b[q] != 10u8,
    ensures
        line_end(b, p) == hi,
    decreases hi - p,
{
    if p < hi {
        lemma_line_end_at(b, p + 1, hi);
    }
}

/// Within the text, the scan finds the line whose stretch holds the cursor.
proof fn lemma_locate_finds(lens: Seq<int>, total: int, p: int, j: int)
    requires
        0 <= j < lens.len(),
        forall|k: int| 0 <= k < lens.len() ==> lens[k] >= 0,
        line_start(lens, lens.len() - 1) + lens[lens.len() - 1] == total,
        line_start(lens, j) <= p <= total,
    ensures
        ({
            let (i, c) = locate(lens, p, j);
            &&& j <= i < lens.len()
            &&& line_start(lens, i) <= p <= line_start(lens, i) + lens[i]
            &&& c == p - line_start(lens, i)
        }),
    decreases lens.len() - j,
{
    if p > line_start(lens, j) + lens[j] {
        lemma_locate_finds(lens, total, p, j + 1);
    }
}

/// The stretch of line `i` lies between `line_begin` and `line_end` of any offset on it.
proof fn lemma_line_bounds(b: Seq<u8>, i: int, p: int)
    requires
        0 <= i < line_lens(b).len(),
        line_start(line_lens(b), i) <= p <= line_start(line_lens(b), i) + line_lens(b)[i],
    ensures
        line_begin(b, p) == line_start(line_lens(b), i),
        line_end(b, p) == line_start(line_lens(b), i) + line_lens(b)[i],
        line_start(line_lens(b), i) + line_lens(b)[i] <= b.len(),
{
    let lens = line_lens(b);
    let n = lens.len() as int;
    let lo = line_start(lens, i);
    let hi = lo + lens[i];
    lemma_line_lens_nonneg(b);
    lemma_last_line_end(b);
    lemma_line_start_mono(lens, 0, i);
    if i < n - 1 {
        lemma_line_ends_at_newline(b, i);
    }
    if i > 0 {
        assert(line_start(lens, i) == line_start(lens, i - 1) + lens[i - 1] + 1);
        lemma_line_ends_at_newline(b, i - 1);
    }
    assert forall|q: int| lo <= q < hi implies b[q] != 10u8 by {
        lemma_line_has_no_newline(b, i, q);
    }
    lemma_line_begin_at(b, lo, p);
    lemma_line_end_at(b, p, hi);
}

/// Where Down puts a cursor at byte `p`: on the next line, at the same column or at that
/// line's end if it is shorter; where there is no next line, nowhere else.
pub open spec fn below(b: Seq<u8>, p: int) -> int {
    if line_end(b, p) < b.len() {
        let s = line_end(b, p) + 1;
        let w = line_end(b, s) - s;
        let col = p - line_begin(b, p);
        s + if col < w {
            col
        } else {
            w
        }
    } else {
        p
    }
}

/// Where Up puts a cursor at byte `p`: on the previous line, at the same column or at that
/// line's end if it is shorter; on the first line, nowhere else.
pub open spec fn above(b: Seq<u8>, p: int) -> int {
    if line_begin(b, p) > 0 {
        let e = line_begin(b, p) - 1;
        let s = line_begin(b, e);
        let w = e - s;
        let col = p - line_begin(b, p);
        s + if col < w {
            col
        } else {
            w
        }
    } else {
        p
    }
}

/// The vertical move lands where `below` / `above` say.
proof fn lemma_vertical_target_lines(desc: Seq<char>, p: int, dir: int)
    requires
        dir == 1 || dir == -1,
        0 <= p <= utf8_len(desc),
    ensures
        ({
            let b = vstd::utf8::encode_utf8(desc);
            let q = if dir == 1 {
                below(b, p)
            } else {
                above(b, p)
            };
            &&& vertical_target(desc, p, dir) matches Some(t) ==> t == q
            &&& vertical_target(desc, p, dir) is None ==> q == p
        }),
{
    let b = vstd::utf8::encode_utf8(desc);
    let lens = line_lens(b);
    let n = lens.len() as int;
    lemma_line_lens_nonneg(b);
    lemma_last_line_end(b);
    lemma_locate_finds(lens, b.len() as int, p, 0);
    let (i, c) = locate(lens, p, 0);
    lemma_line_bounds(b, i, p);
    if desc.len() == 0 {
        assert(b =~= Seq::<u8>::empty());
    }
    if dir == 1 && i < n - 1 {
        let s = line_start(lens, i) + lens[i] + 1;
        assert(line_start(lens, i + 1) == s);
        lemma_line_bounds(b, i + 1, s);
    }
    if dir == -1 && i > 0 {
        assert(line_start(lens, i) == line_start(lens, i - 1) + lens[i - 1] + 1);
        lemma_line_bounds(b, i - 1, line_start(lens, i) - 1);
    }
}

/// Up and Down in the description move the cursor to the line above or below, keeping its
/// column when that line is long enough and landing at that line's end when it is not; on the
/// first (for Up) or last (for Down) line the cursor stays. Lines are the stretches between
/// newline bytes of the text, and columns count bytes; nothing but the cursor changes.
pub proof fn law_vertical_move_keeps_column(m: InspectorModel, key: KeyEvent)
    requires
        m.mode != InspectMode::View,
        m.field == InspectField::Description,
        key.code == KeyCode::Up || key.code == KeyCode::Down,
        0 <= m.cursor <= utf8_len(m.desc),
    ensures
        inspector_step(m, key).0 == (InspectorModel {
            cursor: if key.code == KeyCode::Down {
                below(vstd::utf8::encode_utf8(m.desc), m.cursor)
            } else {
                above(vstd::utf8::encode_utf8(m.desc), m.cursor)
            },
            ..m
        }),
        inspector_step(m, key).1 is None,
{
    let dir: int = if key.code == KeyCode::Down {
        1
    } else {
        -1
    };
    lemma_vertical_target_lines(m.desc, m.cursor, dir);
    assert(inspector_step(m, key).0 == moved_vertically(m, dir));
}

} // verus!
