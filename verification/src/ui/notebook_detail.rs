use vstd::prelude::*;

use crate::keys::{pressed, KeyCode, KeyEvent};
use crate::models::{Notebook, NotebookModel, SubtaskModel, TaskModel, recalculated, tasks_model};
use crate::text::{byte_len, utf8_len};
use crate::ui::list_state::ListSelection;
use crate::ui::overview::{next_index, previous_index};
use crate::ui::task_column::TaskColumnState;

verus! {

/// One open notebook shown as side-by-side task columns.
pub struct NotebookDetail {
    pub notebook: Option<Notebook>,
    /// One subtask highlight per task.
    pub task_states: Vec<TaskColumnState>,
    pub selected_task_idx: Option<usize>,
    /// First task column shown.
    pub scroll_offset: usize,
}

/// Abstract value of the notebook view.
#[verifier::ext_equal]
pub struct DetailModel {
    pub notebook: Option<NotebookModel>,
    pub task_states: Seq<TaskColumnState>,
    pub selected_task_idx: Option<usize>,
    pub scroll_offset: usize,
}

impl View for NotebookDetail {
    type V = DetailModel;

    open spec fn view(&self) -> DetailModel {
        DetailModel {
            notebook: opt_model(self.notebook),
            task_states: self.task_states@,
            selected_task_idx: self.selected_task_idx,
            scroll_offset: self.scroll_offset,
        }
    }
}

/// What the user asked for in the notebook view.
#[derive(Clone, Copy, PartialEq, Eq, Structural, Debug)]
pub enum NotebookViewAction {
    Exit,
    RenameTask,
    RenameSubtask,
    DeleteTask,
    DeleteSubtask,
    AddTaskBefore,
    AddTaskAfter,
    AddSubtaskBefore,
    AddSubtaskAfter,
    EditTask,
    InspectTask,
    ConfirmToggleTask,
}

pub open spec fn opt_model(o: Option<Notebook>) -> Option<NotebookModel> {
    match o {
        Some(n) => Some(n@),
        None => None,
    }
}

/// The request a key makes of the application in the notebook view.
pub open spec fn detail_key_action(code: KeyCode) -> Option<NotebookViewAction> {
    match code {
        KeyCode::Esc => Some(NotebookViewAction::Exit),
        KeyCode::Enter => Some(NotebookViewAction::InspectTask),
        KeyCode::Char(c) => if c == 'r' {
            Some(NotebookViewAction::RenameTask)
        } else if c == 'e' {
            Some(NotebookViewAction::RenameSubtask)
        } else if c == 'E' {
            Some(NotebookViewAction::EditTask)
        } else if c == 'A' {
            Some(NotebookViewAction::AddTaskAfter)
        } else if c == 'I' {
            Some(NotebookViewAction::AddTaskBefore)
        } else if c == 'a' {
            Some(NotebookViewAction::AddSubtaskAfter)
        } else if c == 'i' {
            Some(NotebookViewAction::AddSubtaskBefore)
        } else if c == 'D' {
            Some(NotebookViewAction::DeleteTask)
        } else if c == 'd' {
            Some(NotebookViewAction::DeleteSubtask)
        } else if c == 'X' {
            Some(NotebookViewAction::ConfirmToggleTask)
        } else {
            None
        },
        _ => None,
    }
}

/// `m` with subtask `s` of task `t` toggled and the task recalculated.
pub open spec fn with_subtask_toggled(m: NotebookModel, t: int, s: int) -> NotebookModel {
    let task = m.tasks[t];
    if 0 <= s < task.subtasks.len() {
        let sub = task.subtasks[s];
        NotebookModel {
            tasks: m.tasks.update(
                t,
                recalculated(
                    TaskModel {
                        subtasks: task.subtasks.update(
                            s,
                            SubtaskModel { is_done: !sub.is_done, ..sub },
                        ),
                        ..task
                    },
                ),
            ),
            ..m
        }
    } else {
        m
    }
}

/// Width (with borders) of the column of a task: the longest of its name and its subtask lines
/// ("[ ] " and "> " take 6 more), kept between 20 and 70, plus 2.
pub open spec fn column_width(t: TaskModel) -> int {
    let w = widest(t.subtasks, utf8_len(t.name) as int);
    (if w < 20 {
        20
    } else if w > 70 {
        70
    } else {
        w
    }) + 2
}

/// The larger of `base` and the widest subtask line.
pub open spec fn widest(subs: Seq<SubtaskModel>, base: int) -> int
    decreases subs.len(),
{
    if subs.len() == 0 {
        base
    } else {
        let w = utf8_len(subs.last().name) as int + 6;
        let rest = widest(subs.drop_last(), base);
        if w > rest {
            w
        } else {
            rest
        }
    }
}

/// Sum of `w[a..b]`.
pub open spec fn width_sum(w: Seq<u16>, a: int, b: int) -> int
    decreases b - a,
{
    if b <= a {
        0
    } else {
        width_sum(w, a, b - 1) + w[b - 1]
    }
}

/// Column `sel` is shown when the columns are drawn from `start` in `area` cells.
pub open spec fn in_view(w: Seq<u16>, start: int, sel: int, area: int) -> bool {
    start <= sel < w.len() && width_sum(w, start, sel + 1) <= area
}

/// The first start column from `o` on that shows column `sel`, or `sel` itself.
pub open spec fn first_showing(w: Seq<u16>, o: int, sel: int, area: int) -> int
    decreases sel - o,
{
    if in_view(w, o, sel, area) || o >= sel {
        o
    } else {
        first_showing(w, o + 1, sel, area)
    }
}

/// Number of columns that fit from `start` on (the longest prefix within `area`).
pub open spec fn fitting_count(w: Seq<u16>, start: int, area: int) -> int
    decreases w.len() - start,
{
    if start >= w.len() || w[start] > area {
        0
    } else {
        1 + fitting_count(w, start + 1, area - w[start])
    }
}

/// Number of tasks of the open notebook (none without one).
pub open spec fn task_total(d: DetailModel) -> nat {
    match d.notebook {
        Some(nb) => nb.tasks.len(),
        None => 0,
    }
}

/// Moving the subtask highlight reads the selected task and, when it has subtasks, its
/// column state.
pub open spec fn can_move_subtask(d: DetailModel) -> bool {
    match (d.notebook, d.selected_task_idx) {
        (Some(nb), Some(s)) => s < nb.tasks.len() && (nb.tasks[s as int].subtasks.len() > 0 ==> s
            < d.task_states.len()),
        _ => true,
    }
}

/// Toggling a subtask reads the selected column state and, when it highlights a subtask,
/// the selected task.
pub open spec fn can_toggle_subtask(d: DetailModel) -> bool {
    match d.selected_task_idx {
        Some(s) => s < d.task_states.len() && (d.task_states[s as int].state.selected is Some
            && d.notebook is Some ==> s < d.notebook->0.tasks.len()),
        None => true,
    }
}

/// The view can take the key without reading past the tasks or the column states (or
/// stepping right in a notebook without tasks, which underflows).
pub open spec fn detail_accepts(d: DetailModel, key: KeyEvent) -> bool {
    match key.code {
        KeyCode::Down | KeyCode::Up => can_move_subtask(d),
        KeyCode::Right => d.selected_task_idx is Some ==> task_total(d) > 0,
        KeyCode::Char(c) => if c == 'j' || c == 'k' {
            can_move_subtask(d)
        } else if c == 'l' {
            d.selected_task_idx is Some ==> task_total(d) > 0
        } else if c == 'x' {
            can_toggle_subtask(d)
        } else {
            true
        },
        _ => true,
    }
}

/// Column states after moving the selected task's subtask highlight one row down (or up),
/// wrapping; nothing moves without a selected task or without subtasks.
pub open spec fn moved_highlight(d: DetailModel, down: bool) -> Seq<TaskColumnState> {
    match (d.notebook, d.selected_task_idx) {
        (Some(nb), Some(sel)) => {
            let n = nb.tasks[sel as int].subtasks.len();
            if n > 0 {
                let st = d.task_states[sel as int].state;
                d.task_states.update(
                    sel as int,
                    TaskColumnState {
                        state: ListSelection {
                            selected: Some(
                                if down {
                                    next_index(st.selected, n)
                                } else {
                                    previous_index(st.selected, n)
                                },
                            ),
                            ..st
                        },
                    },
                )
            } else {
                d.task_states
            }
        },
        _ => d.task_states,
    }
}

/// The view after one key, and the request it makes of the application: `h`/`l` (arrows)
/// move between tasks with wrap-around, `j`/`k` (arrows) move the subtask highlight, `x`
/// toggles the highlighted subtask; other keys are requests (see `detail_key_action`).
pub open spec fn detail_step(d: DetailModel, key: KeyEvent) -> (DetailModel, Option<NotebookViewAction>) {
    let n = task_total(d);
    let left = DetailModel {
        selected_task_idx: match d.selected_task_idx {
            Some(s) => Some(
                if s == 0 && n == 0 {
                    0usize
                } else {
                    previous_index(Some(s), n)
                },
            ),
            None => None,
        },
        ..d
    };
    let right = DetailModel {
        selected_task_idx: match d.selected_task_idx {
            Some(s) => Some(next_index(Some(s), n)),
            None => None,
        },
        ..d
    };
    let down = DetailModel { task_states: moved_highlight(d, true), ..d };
    let up = DetailModel { task_states: moved_highlight(d, false), ..d };
    let toggled = DetailModel {
        notebook: match (d.notebook, d.selected_task_idx) {
            (Some(nb), Some(t)) => match d.task_states[t as int].state.selected {
                Some(s) => Some(with_subtask_toggled(nb, t as int, s as int)),
                None => Some(nb),
            },
            (o, _) => o,
        },
        ..d
    };
    match key.code {
        KeyCode::Left => (left, None),
        KeyCode::Right => (right, None),
        KeyCode::Down => (down, None),
        KeyCode::Up => (up, None),
        KeyCode::Char(c) => if c == 'h' {
            (left, None)
        } else if c == 'l' {
            (right, None)
        } else if c == 'j' {
            (down, None)
        } else if c == 'k' {
            (up, None)
        } else if c == 'x' {
            (toggled, None)
        } else {
            (d, detail_key_action(key.code))
        },
        _ => (d, detail_key_action(key.code)),
    }
}

impl NotebookDetail {
    /// The view of `nb` (one column state per task, first task selected), or an empty view.
    pub fn new(nb: Option<Notebook>) -> (d: Self)
        ensures
            opt_model(d.notebook) == opt_model(nb),
            d.scroll_offset == 0,
            match nb {
                Some(n) => {
                    &&& d.task_states@.len() == n.tasks@.len()
                    &&& forall|i: int|
                        0 <= i < d.task_states@.len() ==> (#[trigger] d.task_states@[i]).state
                            == (ListSelection { selected: Some(0usize), offset: 0 })
                    &&& d.selected_task_idx == if n.tasks@.len() > 0 {
                        Some(0usize)
                    } else {
                        None
                    }
                },
                None => d.task_states@.len() == 0 && d.selected_task_idx is None,
            },
    {
        match nb {
            Some(notebook) => {
                let task_count = notebook.tasks.len();
                let mut states: Vec<TaskColumnState> = Vec::new();
                let mut i: usize = 0;
                while i < task_count
                    invariant
                        i <= task_count,
                        states@.len() == i,
                        forall|j: int|
                            0 <= j < i ==> (#[trigger] states@[j]).state == (ListSelection {
                                selected: Some(0usize),
                                offset: 0,
                            }),
                    decreases task_count - i,
                {
                    states.push(TaskColumnState::new());
                    i = i + 1;
                }
                NotebookDetail {
                    notebook: Some(notebook),
                    task_states: states,
                    selected_task_idx: if task_count > 0 {
                        Some(0)
                    } else {
                        None
                    },
                    scroll_offset: 0,
                }
            },
            None => NotebookDetail {
                notebook: None,
                task_states: Vec::new(),
                selected_task_idx: None,
                scroll_offset: 0,
            },
        }
    }

    /// Column states match the tasks and the selection names a task.
    pub open spec fn wf(&self) -> bool {
        match self.notebook {
            Some(nb) => {
                &&& self.task_states@.len() == nb.tasks@.len()
                &&& self.selected_task_idx matches Some(i) ==> i < nb.tasks@.len()
            },
            None => self.task_states@.len() == 0 && self.selected_task_idx is None,
        }
    }

    /// Number of tasks of the open notebook (none without one).
    pub open spec fn task_count(&self) -> nat {
        match self.notebook {
            Some(nb) => nb.tasks@.len(),
            None => 0,
        }
    }

    /// Number of subtasks of task `t` of the open notebook.
    pub open spec fn subtask_count(&self, t: int) -> nat {
        match self.notebook {
            Some(nb) => nb.tasks@[t].subtasks@.len(),
            None => 0,
        }
    }

    /// Column states after moving the selected task's subtask highlight one row down (or up),
    /// wrapping; nothing moves without a selected task or without subtasks.
    pub open spec fn subtask_moved(&self, down: bool) -> Seq<TaskColumnState> {
        match self.selected_task_idx {
            Some(sel) => if self.subtask_count(sel as int) > 0 {
                let st = self.task_states@[sel as int].state;
                let n = self.subtask_count(sel as int);
                self.task_states@.update(
                    sel as int,
                    TaskColumnState {
                        state: ListSelection {
                            selected: Some(
                                if down {
                                    next_index(st.selected, n)
                                } else {
                                    previous_index(st.selected, n)
                                },
                            ),
                            ..st
                        },
                    },
                )
            } else {
                self.task_states@
            },
            None => self.task_states@,
        }
    }

    /// The key can be handled without reading past the tasks or the column states.
    pub open spec fn accepts(&self, key: KeyEvent) -> bool {
        detail_accepts(self@, key)
    }

    /// Tests `accepts`.
    pub fn key_ok(&self, key: KeyEvent) -> (r: bool)
        ensures
            r == self.accepts(key),
    {
        let can_move = match (&self.notebook, self.selected_task_idx) {
            (Some(nb), Some(s)) => s < nb.tasks.len() && (nb.tasks[s].subtasks.len() == 0 || s
                < self.task_states.len()),
            _ => true,
        };
        let can_step_right = match &self.notebook {
            Some(nb) => self.selected_task_idx.is_none() || nb.tasks.len() > 0,
            None => self.selected_task_idx.is_none(),
        };
        let can_toggle = match self.selected_task_idx {
            Some(s) => s < self.task_states.len() && (!(self.task_states[s].state.selected.is_some()
                && self.notebook.is_some()) || match &self.notebook {
                Some(nb) => s < nb.tasks.len(),
                None => true,
            }),
            None => true,
        };
        proof {
            match &self.notebook {
                Some(nb) => {
                    assert(tasks_model(nb.tasks@).len() == nb.tasks@.len());
                    if self.selected_task_idx is Some && self.selected_task_idx->0 < nb.tasks@.len() {
                        let t = self.selected_task_idx->0 as int;
                        assert(tasks_model(nb.tasks@)[t] == nb.tasks@[t]@);
                        assert(crate::models::subtasks_model(nb.tasks@[t].subtasks@).len()
                            == nb.tasks@[t].subtasks@.len());
                    }
                },
                None => {},
            }
        }
        match key.code {
            KeyCode::Down | KeyCode::Up => can_move,
            KeyCode::Right => can_step_right,
            KeyCode::Char(c) => if c == 'j' || c == 'k' {
                can_move
            } else if c == 'l' {
                can_step_right
            } else if c == 'x' {
                can_toggle
            } else {
                true
            },
            _ => true,
        }
    }

    /// Moves the subtask highlight of the selected task one row down, wrapping.
    fn next_subtask(&mut self)
        requires
            can_move_subtask(old(self)@),
        ensures
            old(self).wf() ==> final(self).wf(),
            opt_model(final(self).notebook) == opt_model(old(self).notebook),
            final(self).selected_task_idx == old(self).selected_task_idx,
            final(self).scroll_offset == old(self).scroll_offset,
            final(self).task_states@ == old(self).subtask_moved(true),
    {
        if let Some(selected) = self.selected_task_idx {
            let subtask_count = match &self.notebook {
                Some(n) => n.tasks[selected].subtasks.len(),
                None => 0,
            };
            if subtask_count > 0 {
                let mut st = self.task_states[selected];
                let i = match st.state.selected() {
                    Some(i) => {
                        if i >= subtask_count - 1 {
                            0
                        } else {
                            i + 1
                        }
                    },
                    None => 0,
                };
                st.state.select(Some(i));
                self.task_states.set(selected, st);
            }
        }
    }

    /// Moves the subtask highlight of the selected task one row up, wrapping.
    fn previous_subtask(&mut self)
        requires
            can_move_subtask(old(self)@),
        ensures
            old(self).wf() ==> final(self).wf(),
            opt_model(final(self).notebook) == opt_model(old(self).notebook),
            final(self).selected_task_idx == old(self).selected_task_idx,
            final(self).scroll_offset == old(self).scroll_offset,
            final(self).task_states@ == old(self).subtask_moved(false),
    {
        if let Some(selected) = self.selected_task_idx {
            let subtask_count = match &self.notebook {
                Some(n) => n.tasks[selected].subtasks.len(),
                None => 0,
            };
            if subtask_count > 0 {
                let mut st = self.task_states[selected];
                let i = match st.state.selected() {
                    Some(i) => {
                        if i == 0 {
                            subtask_count - 1
                        } else {
                            i - 1
                        }
                    },
                    None => 0,
                };
                st.state.select(Some(i));
                self.task_states.set(selected, st);
            }
        }
    }

    /// Keys of the notebook view: `h`/`l` (arrows) move between tasks with wrap-around,
    /// `j`/`k` between subtasks, `x` toggles the highlighted subtask; the other keys are
    /// requests for the application (see `detail_key_action`).
    pub fn handle_input(&mut self, key: KeyEvent) -> (r: Option<NotebookViewAction>)
        requires
            old(self).accepts(key),
        ensures
            (final(self)@, r) == detail_step(old(self)@, key),
            old(self).wf() ==> final(self).wf(),
            final(self).scroll_offset == old(self).scroll_offset,
            key.code == KeyCode::Left || key.code == KeyCode::Char('h') ==> {
                &&& r is None
                &&& opt_model(final(self).notebook) == opt_model(old(self).notebook)
                &&& final(self).task_states@ == old(self).task_states@
                &&& final(self).selected_task_idx == match old(self).selected_task_idx {
                    Some(s) => Some(
                        if s == 0 && old(self).task_count() == 0 {
                            0usize
                        } else {
                            previous_index(Some(s), old(self).task_count())
                        },
                    ),
                    None => None,
                }
            },
            key.code == KeyCode::Right || key.code == KeyCode::Char('l') ==> {
                &&& r is None
                &&& opt_model(final(self).notebook) == opt_model(old(self).notebook)
                &&& final(self).task_states@ == old(self).task_states@
                &&& final(self).selected_task_idx == match old(self).selected_task_idx {
                    Some(s) => Some(next_index(Some(s), old(self).task_count())),
                    None => None,
                }
            },
            key.code == KeyCode::Down || key.code == KeyCode::Char('j') ==> {
                &&& r is None
                &&& opt_model(final(self).notebook) == opt_model(old(self).notebook)
                &&& final(self).selected_task_idx == old(self).selected_task_idx
                &&& final(self).task_states@ == old(self).subtask_moved(true)
            },
            key.code == KeyCode::Up || key.code == KeyCode::Char('k') ==> {
                &&& r is None
                &&& opt_model(final(self).notebook) == opt_model(old(self).notebook)
                &&& final(self).selected_task_idx == old(self).selected_task_idx
                &&& final(self).task_states@ == old(self).subtask_moved(false)
            },
            key.code == KeyCode::Char('x') ==> {
                &&& r is None
                &&& final(self).selected_task_idx == old(self).selected_task_idx
                &&& final(self).task_states@ == old(self).task_states@
                &&& opt_model(final(self).notebook) == match (
                    old(self).notebook,
                    old(self).selected_task_idx,
                ) {
                    (Some(nb), Some(t)) => match old(self).task_states@[t as int].state.selected {
                        Some(s) => Some(with_subtask_toggled(nb@, t as int, s as int)),
                        None => Some(nb@),
                    },
                    (o, _) => opt_model(o),
                }
            },
            !(key.code == KeyCode::Left || key.code == KeyCode::Char('h') || key.code
                == KeyCode::Right || key.code == KeyCode::Char('l') || key.code == KeyCode::Down
                || key.code == KeyCode::Char('j') || key.code == KeyCode::Up || key.code
                == KeyCode::Char('k') || key.code == KeyCode::Char('x')) ==> {
                &&& r == detail_key_action(key.code)
                &&& opt_model(final(self).notebook) == opt_model(old(self).notebook)
                &&& final(self).task_states@ == old(self).task_states@
                &&& final(self).selected_task_idx == old(self).selected_task_idx
            },
    {
        let task_count = match &self.notebook {
            Some(nb) => nb.tasks.len(),
            None => 0,
        };
        match key.code {
            KeyCode::Esc => Some(NotebookViewAction::Exit),
            KeyCode::Char('h') | KeyCode::Left => {
                if let Some(selected) = self.selected_task_idx {
                    if selected > 0 {
                        self.selected_task_idx = Some(selected - 1);
                    } else if task_count > 0 {
                        self.selected_task_idx = Some(task_count - 1);
                    }
                }
                None
            },
            KeyCode::Char('l') | KeyCode::Right => {
                if let Some(selected) = self.selected_task_idx {
                    if selected < task_count - 1 {
                        self.selected_task_idx = Some(selected + 1);
                    } else if task_count > 0 {
                        self.selected_task_idx = Some(0);
                    }
                }
                None
            },
            KeyCode::Char('j') | KeyCode::Down => {
                self.next_subtask();
                None
            },
            KeyCode::Char('k') | KeyCode::Up => {
                self.previous_subtask();
                None
            },
            KeyCode::Char('x') => {
                if let Some(selected) = self.selected_task_idx {
                    let subtask_idx = self.task_states[selected].state.selected();
                    if let Some(s_idx) = subtask_idx {
                        match &mut self.notebook {
                            Some(nb) => {
                                let mut t = nb.tasks[selected].clone();
                                t.toggle_subtask(s_idx);
                                nb.tasks.set(selected, t);
                                proof {
                                    assert(nb@ =~= with_subtask_toggled(
                                        old(self).notebook.unwrap()@,
                                        selected as int,
                                        s_idx as int,
                                    ));
                                }
                            },
                            None => {},
                        }
                    }
                }
                None
            },
            KeyCode::Char('r') => Some(NotebookViewAction::RenameTask),
            KeyCode::Char('e') => Some(NotebookViewAction::RenameSubtask),
            KeyCode::Char('E') => Some(NotebookViewAction::EditTask),
            KeyCode::Char('A') => Some(NotebookViewAction::AddTaskAfter),
            KeyCode::Char('I') => Some(NotebookViewAction::AddTaskBefore),
            KeyCode::Char('a') => Some(NotebookViewAction::AddSubtaskAfter),
            KeyCode::Char('i') => Some(NotebookViewAction::AddSubtaskBefore),
            KeyCode::Char('D') => Some(NotebookViewAction::DeleteTask),
            KeyCode::Char('d') => Some(NotebookViewAction::DeleteSubtask),
            KeyCode::Char('X') => Some(NotebookViewAction::ConfirmToggleTask),
            KeyCode::Enter => Some(NotebookViewAction::InspectTask),
            _ => None,
        }
    }

    /// Width of every task column of the open notebook (none without one).
    pub fn get_column_widths(&self) -> (r: Vec<u16>)
        ensures
            match self.notebook {
                Some(nb) => r@.len() == nb.tasks@.len() && forall|i: int|
                    0 <= i < r@.len() ==> r@[i] as int == column_width(#[trigger] nb.tasks@[i]@),
                None => r@.len() == 0,
            },
    {
        let mut r: Vec<u16> = Vec::new();
        match &self.notebook {
            Some(notebook) => {
                let mut i: usize = 0;
                while i < notebook.tasks.len()
                    invariant
                        i <= notebook.tasks.len(),
                        r@.len() == i,
                        forall|k: int|
                            0 <= k < i ==> r@[k] as int == column_width(
                                #[trigger] notebook.tasks@[k]@,
                            ),
                    decreases notebook.tasks.len() - i,
                {
                    let t = &notebook.tasks[i];
                    let mut max_w: u128 = byte_len(&t.name) as u128;
                    let mut j: usize = 0;
                    while j < t.subtasks.len()
                        invariant
                            j <= t.subtasks.len(),
                            max_w as int == widest(
                                t@.subtasks.subrange(0, j as int),
                                utf8_len(t.name@) as int,
                            ),
                            max_w <= 0xffff_ffff_ffff_ffff_ffff,
                        decreases t.subtasks.len() - j,
                    {
                        proof {
                            assert(t@.subtasks.subrange(0, j + 1).drop_last() =~= t@.subtasks.subrange(
                                0,
                                j as int,
                            ));
                            assert(t@.subtasks.subrange(0, j + 1).last() == t.subtasks@[j as int]@);
                        }
                        let w: u128 = byte_len(&t.subtasks[j].name) as u128 + 6;
                        if w > max_w {
                            max_w = w;
                        }
                        j = j + 1;
                    }
                    proof {
                        assert(t@.subtasks.subrange(0, t.subtasks.len() as int) =~= t@.subtasks);
                    }
                    let clamped: u16 = if max_w < 20 {
                        20
                    } else if max_w > 70 {
                        70
                    } else {
                        max_w as u16
                    };
                    r.push(clamped + 2);
                    i = i + 1;
                }
            },
            None => {},
        }
        r
    }

    /// Column `sel` is fully shown when columns are drawn from `start` in `area` cells.
    fn shows(widths: &Vec<u16>, start: usize, sel: usize, area: u16) -> (r: bool)
        ensures
            r == in_view(widths@, start as int, sel as int, area as int),
    {
        let mut current_w: u32 = 0;
        let mut idx: usize = start;
        while idx < widths.len()
            invariant
                start <= idx,
                idx <= widths.len() || idx == start,
                current_w as int == width_sum(widths@, start as int, idx as int),
                current_w <= area,
                idx <= sel || sel < start,
            decreases widths.len() - idx,
        {
            let w = widths[idx];
            if current_w + w as u32 > area as u32 {
                proof {
                    if start <= sel < widths@.len() {
                        lemma_width_sum_mono(widths@, start as int, idx + 1, sel + 1);
                    }
                }
                return false;
            }
            if idx == sel {
                return true;
            }
            current_w = current_w + w as u32;
            idx = idx + 1;
        }
        false
    }

    /// Scrolls the columns so that the selected task is shown: back to it when it lies left of
    /// the first shown column, else forward one column at a time until it fits (or is first).
    pub fn update_scroll_offset(&mut self, widths: &Vec<u16>, area_width: u16)
        ensures
            opt_model(final(self).notebook) == opt_model(old(self).notebook),
            final(self).task_states@ == old(self).task_states@,
            final(self).selected_task_idx == old(self).selected_task_idx,
            final(self).scroll_offset == match old(self).selected_task_idx {
                None => old(self).scroll_offset as int,
                Some(s) => if s < old(self).scroll_offset {
                    s as int
                } else {
                    first_showing(
                        widths@,
                        old(self).scroll_offset as int,
                        s as int,
                        area_width as int,
                    )
                },
            },
    {
        let selected = match self.selected_task_idx {
            Some(s) => s,
            None => {
                return ;
            },
        };
        if selected < self.scroll_offset {
            self.scroll_offset = selected;
        } else if Self::shows(widths, self.scroll_offset, selected, area_width) {
            proof {
                assert(first_showing(widths@, self.scroll_offset as int, selected as int, area_width as int) == self.scroll_offset);
            }
        } else {
            let mut new_offset = self.scroll_offset;
            loop
                invariant
                    old(self).scroll_offset <= new_offset <= selected,
                    first_showing(
                        widths@,
                        old(self).scroll_offset as int,
                        selected as int,
                        area_width as int,
                    ) == first_showing(widths@, new_offset as int, selected as int, area_width as int),
                ensures
                    first_showing(
                        widths@,
                        old(self).scroll_offset as int,
                        selected as int,
                        area_width as int,
                    ) == new_offset,
                decreases selected - new_offset,
            {
                if Self::shows(widths, new_offset, selected, area_width) || new_offset >= selected {
                    break;
                }
                proof {
                    assert(first_showing(widths@, new_offset as int, selected as int, area_width as int)
                        == first_showing(widths@, new_offset + 1, selected as int, area_width as int));
                }
                new_offset = new_offset + 1;
            }
            self.scroll_offset = new_offset;
        }
    }

    /// How many columns fit from the first shown one, and their widths; when none fits, the
    /// first one is shown anyway.
    pub fn get_visible_columns(&self, widths: &Vec<u16>, area_width: u16) -> (r: (usize, Vec<u16>))
        requires
            widths@.len() > 0 ==> self.scroll_offset < widths@.len(),
        ensures
            ({
                let f = fitting_count(widths@, self.scroll_offset as int, area_width as int);
                let n = if f == 0 && widths@.len() > 0 {
                    1
                } else {
                    f
                };
                &&& r.0 == n
                &&& r.1@ == if n == 0 {
                    Seq::<u16>::empty()
                } else {
                    widths@.subrange(self.scroll_offset as int, self.scroll_offset as int + n)
                }
            }),
    {
        let mut count: usize = 0;
        let mut total: u32 = 0;
        let mut cols: Vec<u16> = Vec::new();
        if widths.len() == 0 {
            return (count, cols);
        }
        let mut idx: usize = self.scroll_offset;
        let ghost start = self.scroll_offset as int;
        let ghost a = area_width as int;
        proof {
            assert(cols@ =~= widths@.subrange(start, idx as int));
        }
        while idx < widths.len()
            invariant_except_break
                fitting_count(widths@, start, a) == count + fitting_count(
                    widths@,
                    idx as int,
                    a - total,
                ),
            invariant
                start == self.scroll_offset,
                a == area_width,
                start <= idx,
                idx <= widths.len(),
                count == idx - start,
                total <= area_width,
                cols@ == widths@.subrange(start, idx as int),
            ensures
                fitting_count(widths@, start, a) == count,
            decreases widths.len() - idx,
        {
            let w = widths[idx];
            if total + w as u32 > area_width as u32 {
                break;
            }
            total = total + w as u32;
            count = count + 1;
            cols.push(w);
            idx = idx + 1;
            proof {
                assert(cols@ =~= widths@.subrange(start, idx as int));
            }
        }
        proof {
            if count == 0 {
                assert(cols@ =~= Seq::<u16>::empty());
            }
        }
        if count == 0 && widths.len() > 0 {
            let w = widths[self.scroll_offset];
            count = 1;
            cols.push(w);
            proof {
                assert(cols@ =~= widths@.subrange(start, start + 1));
            }
        }
        (count, cols)
    }
}

proof fn lemma_width_sum_mono(w: Seq<u16>, a: int, b: int, c: int)
    requires
        a <= b <= c,
    ensures
        width_sum(w, a, b) <= width_sum(w, a, c),
    decreases c - b,
{
    if b < c {
        lemma_width_sum_mono(w, a, b, c - 1);
    }
}

/// Moving to the next task and back returns to the same task.
pub proof fn law_right_then_left(d: DetailModel)
    requires
        d.selected_task_idx matches Some(s) && s < task_total(d) <= usize::MAX,
    ensures
        detail_step(detail_step(d, pressed(KeyCode::Char('l'))).0, pressed(KeyCode::Char('h'))).0
            == d,
{
    let n = task_total(d);
    let s = d.selected_task_idx->0;
    let d1 = detail_step(d, pressed(KeyCode::Char('l'))).0;
    assert(d1.selected_task_idx == Some(next_index(Some(s), n)));
    assert(task_total(d1) == n);
    crate::ui::overview::lemma_next_then_previous(s, n);
}

/// Moving the subtask highlight down and back up returns it to the same subtask.
pub proof fn law_down_then_up(d: DetailModel)
    requires
        d.notebook is Some,
        d.selected_task_idx is Some,
        ({
            let nb = d.notebook->0;
            let t = d.selected_task_idx->0 as int;
            &&& t < nb.tasks.len()
            &&& t < d.task_states.len()
            &&& d.task_states[t].state.selected is Some
            &&& d.task_states[t].state.selected->0 < nb.tasks[t].subtasks.len() <= usize::MAX
        }),
    ensures
        detail_step(detail_step(d, pressed(KeyCode::Char('j'))).0, pressed(KeyCode::Char('k'))).0
            == d,
{
    let nb = d.notebook->0;
    let t = d.selected_task_idx->0 as int;
    let n = nb.tasks[t].subtasks.len();
    let i = d.task_states[t].state.selected->0;
    let d1 = detail_step(d, pressed(KeyCode::Char('j'))).0;
    assert(d1.task_states[t].state.selected == Some(next_index(Some(i), n)));
    crate::ui::overview::lemma_next_then_previous(i, n);
    let d2 = detail_step(d1, pressed(KeyCode::Char('k'))).0;
    assert(d2.task_states =~= d.task_states);
    assert(d2 =~= d);
}

} // verus!
