use vstd::prelude::*;

use crate::keys::{pressed, KeyCode, KeyEvent};
use crate::models::{Notebook, NotebookModel, notebooks_model, tasks_model};
use crate::ui::confirm::strings_model;
use crate::ui::inspect_window::{
    collect_task_names, task_names, InspectMode, Inspector, InspectorModel,
};
use crate::ui::list_state::ListSelection;

verus! {

/// The main window: the list of notebooks beside the details of the highlighted one.
pub struct Overview {
    pub notebooks: Vec<Notebook>,
    pub state: ListSelection,
    pub inspector: Inspector,
}

/// Abstract value of the overview.
#[verifier::ext_equal]
pub struct OverviewModel {
    pub notebooks: Seq<NotebookModel>,
    pub state: ListSelection,
    pub inspector: InspectorModel,
}

impl View for Overview {
    type V = OverviewModel;

    open spec fn view(&self) -> OverviewModel {
        OverviewModel {
            notebooks: notebooks_model(self.notebooks@),
            state: self.state,
            inspector: self.inspector@,
        }
    }
}

/// What the user asked for in the overview.
#[derive(Clone, Copy, PartialEq, Eq, Structural, Debug)]
pub enum OverviewAction {
    DeleteNotebook,
    RenameNotebook,
    AccessNotebook,
    AddNotebook,
    EditNotebook,
}

/// The detail panel `m` showing notebook `nb`.
pub open spec fn showing(m: InspectorModel, nb: NotebookModel) -> InspectorModel {
    InspectorModel { title: nb.name, desc: nb.description, items: task_names(nb.tasks), ..m }
}

/// The detail panel after following the selection: it shows the selected notebook, if the
/// selection names one, and is left as it was otherwise.
pub open spec fn synced_panel(
    m: InspectorModel,
    nbs: Seq<NotebookModel>,
    sel: Option<usize>,
) -> InspectorModel {
    match sel {
        Some(i) => if i < nbs.len() {
            showing(m, nbs[i as int])
        } else {
            m
        },
        None => m,
    }
}

/// Position after moving one row down, wrapping to the top.
pub open spec fn next_index(sel: Option<usize>, len: nat) -> usize {
    match sel {
        Some(i) => if i >= len - 1 {
            0
        } else {
            (i + 1) as usize
        },
        None => 0,
    }
}

/// Position after moving one row up, wrapping to the bottom.
pub open spec fn previous_index(sel: Option<usize>, len: nat) -> usize {
    match sel {
        Some(i) => if i == 0 {
            (len - 1) as usize
        } else {
            (i - 1) as usize
        },
        None => 0,
    }
}

/// The overview with row `i` highlighted and shown in the detail panel.
pub open spec fn highlighted(o: OverviewModel, i: usize) -> OverviewModel {
    OverviewModel {
        state: ListSelection { selected: Some(i), ..o.state },
        inspector: synced_panel(o.inspector, o.notebooks, Some(i)),
        ..o
    }
}

/// The overview after one key, and what the key asks of the application: `j`/`k` and the
/// arrows move with wrap-around (nothing moves in an empty list), `g`/`G` and Home/End jump
/// to the first and last rows, `1`..`5` highlight that row (if it exists) and open the
/// highlighted notebook, Enter opens it, `d`/`r`/`a`/`e` ask to delete, rename, add and edit.
pub open spec fn overview_step(o: OverviewModel, key: KeyEvent) -> (OverviewModel, Option<
    OverviewAction,
>) {
    let n = o.notebooks.len();
    let down = if n == 0 {
        o
    } else {
        highlighted(o, next_index(o.state.selected, n))
    };
    let up = if n == 0 {
        o
    } else {
        highlighted(o, previous_index(o.state.selected, n))
    };
    match key.code {
        KeyCode::Down => (down, None),
        KeyCode::Up => (up, None),
        KeyCode::Home => (highlighted(o, 0), None),
        KeyCode::End => (highlighted(o, usize::MAX), None),
        KeyCode::Enter => (o, Some(OverviewAction::AccessNotebook)),
        KeyCode::Char(c) => if c == 'j' {
            (down, None)
        } else if c == 'k' {
            (up, None)
        } else if c == 'g' {
            (highlighted(o, 0), None)
        } else if c == 'G' {
            (highlighted(o, usize::MAX), None)
        } else if c == 'd' {
            (o, Some(OverviewAction::DeleteNotebook))
        } else if c == 'r' {
            (o, Some(OverviewAction::RenameNotebook))
        } else if c == 'a' {
            (o, Some(OverviewAction::AddNotebook))
        } else if c == 'e' {
            (o, Some(OverviewAction::EditNotebook))
        } else if '1' <= c <= '5' {
            let index = (c as u32 - '1' as u32) as usize;
            (
                if index < n {
                    highlighted(o, index)
                } else {
                    o
                },
                Some(OverviewAction::AccessNotebook),
            )
        } else {
            (o, None)
        },
        _ => (o, None),
    }
}

/// The detail panel before any notebook is shown.
pub open spec fn placeholder_panel() -> InspectorModel {
    InspectorModel {
        mode: InspectMode::View,
        title: "No Selection"@,
        desc: "Select a notebook to see its details."@,
        task: Seq::empty(),
        items: Seq::empty(),
        label: "Tasks"@,
        field: crate::ui::inspect_window::InspectField::Title,
        cursor: crate::text::utf8_len("No Selection"@) as int,
    }
}

/// The overview of `nbs` as it opens: the first notebook highlighted and shown.
pub open spec fn opened_overview(nbs: Seq<NotebookModel>) -> OverviewModel {
    let sel = if nbs.len() > 0 {
        Some(0usize)
    } else {
        None
    };
    OverviewModel {
        notebooks: nbs,
        state: ListSelection { selected: sel, offset: 0 },
        inspector: synced_panel(placeholder_panel(), nbs, sel),
    }
}

impl Overview {
    /// An overview of `notebooks` with the first one highlighted (if any) and shown.
    pub fn new(notebooks: Vec<Notebook>) -> (o: Self)
        ensures
            o@ == opened_overview(notebooks_model(notebooks@)),
            notebooks_model(o.notebooks@) == notebooks_model(notebooks@),
            o.state.offset == 0,
            o.state.selected == if notebooks@.len() > 0 {
                Some(0usize)
            } else {
                None
            },
            o.inspector.mode == InspectMode::View,
            o.inspector.list_label@ == "Tasks"@,
            notebooks@.len() > 0 ==> {
                &&& o.inspector.title_input@ == notebooks@[0].name@
                &&& o.inspector.desc_input@ == notebooks@[0].description@
                &&& strings_model(o.inspector.list_items@) == task_names(
                    tasks_model(notebooks@[0].tasks@),
                )
            },
            notebooks@.len() == 0 ==> {
                &&& o.inspector.title_input@ == "No Selection"@
                &&& o.inspector.desc_input@ == "Select a notebook to see its details."@
                &&& o.inspector.list_items@.len() == 0
            },
    {
        let mut state = ListSelection::new();
        if notebooks.len() > 0 {
            state.select(Some(0));
        }
        let inspector = Inspector::new(
            InspectMode::View,
            "No Selection".to_owned(),
            "Select a notebook to see its details.".to_owned(),
            Vec::new(),
            "Tasks".to_owned(),
        );
        let mut overview = Overview { notebooks, state, inspector };
        overview.sync_inspector();
        proof {
            assert(strings_model(overview.inspector.list_items@).len() == overview.inspector.list_items@.len());
        }
        overview
    }

    /// Shows the highlighted notebook in the detail panel.
    pub fn sync_inspector(&mut self)
        ensures
            final(self).notebooks@ == old(self).notebooks@,
            final(self).state == old(self).state,
            final(self).inspector@ == synced_panel(
                old(self).inspector@,
                notebooks_model(old(self).notebooks@),
                old(self).state.selected,
            ),
    {
        if let Some(idx) = self.state.selected() {
            if idx < self.notebooks.len() {
                let name = self.notebooks[idx].name.clone();
                let desc = self.notebooks[idx].description.clone();
                let items = collect_task_names(&self.notebooks[idx].tasks);
                self.inspector.title_input = name;
                self.inspector.desc_input = desc;
                self.inspector.list_items = items;
                proof {
                    assert(self.inspector@ =~= showing(
                        old(self).inspector@,
                        notebooks_model(old(self).notebooks@)[idx as int],
                    ));
                }
            }
        }
    }

    /// Highlights the next notebook, wrapping around.
    pub fn next(&mut self)
        ensures
            final(self).notebooks@ == old(self).notebooks@,
            old(self).notebooks@.len() == 0 ==> final(self).state == old(self).state
                && final(self).inspector@ == old(self).inspector@,
            old(self).notebooks@.len() > 0 ==> {
                let i = next_index(old(self).state.selected, old(self).notebooks@.len());
                &&& final(self).state == (ListSelection { selected: Some(i), ..old(self).state })
                &&& final(self).inspector@ == synced_panel(
                    old(self).inspector@,
                    notebooks_model(old(self).notebooks@),
                    Some(i),
                )
            },
    {
        if self.notebooks.len() == 0 {
            return ;
        }
        let i = match self.state.selected() {
            Some(i) => {
                if i >= self.notebooks.len() - 1 {
                    0
                } else {
                    i + 1
                }
            },
            None => 0,
        };
        self.state.select(Some(i));
        self.sync_inspector();
    }

    /// Highlights the previous notebook, wrapping around.
    pub fn previous(&mut self)
        ensures
            final(self).notebooks@ == old(self).notebooks@,
            old(self).notebooks@.len() == 0 ==> final(self).state == old(self).state
                && final(self).inspector@ == old(self).inspector@,
            old(self).notebooks@.len() > 0 ==> {
                let i = previous_index(old(self).state.selected, old(self).notebooks@.len());
                &&& final(self).state == (ListSelection { selected: Some(i), ..old(self).state })
                &&& final(self).inspector@ == synced_panel(
                    old(self).inspector@,
                    notebooks_model(old(self).notebooks@),
                    Some(i),
                )
            },
    {
        if self.notebooks.len() == 0 {
            return ;
        }
        let i = match self.state.selected() {
            Some(i) => {
                if i == 0 {
                    self.notebooks.len() - 1
                } else {
                    i - 1
                }
            },
            None => 0,
        };
        self.state.select(Some(i));
        self.sync_inspector();
    }

    /// Keys of the overview: `j`/`k` and the arrows move, `g`/`G` jump to the ends, `1`..`5`
    /// open one of the first five notebooks, Enter opens the highlighted one; `d`, `r`, `a`
    /// and `e` ask to delete, rename, add and edit.
    pub fn handle_input(&mut self, key: KeyEvent) -> (r: Option<OverviewAction>)
        ensures
            (final(self)@, r) == overview_step(old(self)@, key),
            final(self).notebooks@ == old(self).notebooks@,
            match key.code {
                KeyCode::Down | KeyCode::Up | KeyCode::Home | KeyCode::End => r is None,
                KeyCode::Char(c) => if c == 'j' || c == 'k' || c == 'g' || c == 'G' {
                    r is None
                } else if c == 'd' {
                    r == Some(OverviewAction::DeleteNotebook)
                } else if c == 'r' {
                    r == Some(OverviewAction::RenameNotebook)
                } else if c == 'a' {
                    r == Some(OverviewAction::AddNotebook)
                } else if c == 'e' {
                    r == Some(OverviewAction::EditNotebook)
                } else if '1' <= c <= '5' {
                    r == Some(OverviewAction::AccessNotebook)
                } else {
                    r is None
                },
                KeyCode::Enter => r == Some(OverviewAction::AccessNotebook),
                _ => r is None,
            },
            ({
                let moves_down = key.code == KeyCode::Down || key.code == KeyCode::Char('j');
                let moves_up = key.code == KeyCode::Up || key.code == KeyCode::Char('k');
                let n = old(self).notebooks@.len();
                moves_down || moves_up ==> if n == 0 {
                    final(self).state == old(self).state && final(self).inspector@ == old(
                        self,
                    ).inspector@
                } else {
                    let i = if moves_down {
                        next_index(old(self).state.selected, n)
                    } else {
                        previous_index(old(self).state.selected, n)
                    };
                    &&& final(self).state == (ListSelection {
                        selected: Some(i),
                        ..old(self).state
                    })
                    &&& final(self).inspector@ == synced_panel(
                        old(self).inspector@,
                        notebooks_model(old(self).notebooks@),
                        Some(i),
                    )
                }
            }),
            key.code == KeyCode::Home || key.code == KeyCode::Char('g') ==> {
                &&& final(self).state == (ListSelection {
                    selected: Some(0usize),
                    ..old(self).state
                })
                &&& final(self).inspector@ == synced_panel(
                    old(self).inspector@,
                    notebooks_model(old(self).notebooks@),
                    Some(0usize),
                )
            },
            key.code == KeyCode::End || key.code == KeyCode::Char('G') ==> {
                &&& final(self).state == (ListSelection {
                    selected: Some(usize::MAX),
                    ..old(self).state
                })
                &&& final(self).inspector@ == synced_panel(
                    old(self).inspector@,
                    notebooks_model(old(self).notebooks@),
                    Some(usize::MAX),
                )
            },
            forall|c: char|
                key.code == KeyCode::Char(c) && '1' <= c <= '5' ==> {
                    let index = (c as u32 - '1' as u32) as usize;
                    if index < old(self).notebooks@.len() {
                        &&& final(self).state == (ListSelection {
                            selected: Some(index),
                            ..old(self).state
                        })
                        &&& final(self).inspector@ == synced_panel(
                            old(self).inspector@,
                            notebooks_model(old(self).notebooks@),
                            Some(index),
                        )
                    } else {
                        final(self).state == old(self).state && final(self).inspector@ == old(
                            self,
                        ).inspector@
                    }
                },
            !(key.code is Char) && key.code != KeyCode::Down && key.code != KeyCode::Up
                && key.code != KeyCode::Home && key.code != KeyCode::End ==> final(self).state
                == old(self).state && final(self).inspector@ == old(self).inspector@,
            forall|c: char|
                key.code == KeyCode::Char(c) && !(c == 'j' || c == 'k' || c == 'g' || c == 'G'
                    || ('1' <= c <= '5')) ==> final(self).state == old(self).state
                    && final(self).inspector@ == old(self).inspector@,
    {
        match key.code {
            KeyCode::Char('j') | KeyCode::Down => {
                self.next();
                None
            },
            KeyCode::Char('k') | KeyCode::Up => {
                self.previous();
                None
            },
            KeyCode::Char('g') | KeyCode::Home => {
                self.state.select_first();
                self.sync_inspector();
                None
            },
            KeyCode::Char('G') | KeyCode::End => {
                self.state.select_last();
                self.sync_inspector();
                None
            },
            KeyCode::Char('d') => Some(OverviewAction::DeleteNotebook),
            KeyCode::Char('r') => Some(OverviewAction::RenameNotebook),
            KeyCode::Char('a') => Some(OverviewAction::AddNotebook),
            KeyCode::Char('e') => Some(OverviewAction::EditNotebook),
            KeyCode::Enter => Some(OverviewAction::AccessNotebook),
            KeyCode::Char(c) => {
                if '1' <= c && c <= '5' {
                    let index: usize = (c as u32 - '1' as u32) as usize;
                    if self.notebooks.len() > index {
                        self.state.select(Some(index));
                        self.sync_inspector();
                    }
                    Some(OverviewAction::AccessNotebook)
                } else {
                    None
                }
            },
            _ => None,
        }
    }
}

/// Stepping down and then up in a list of `n` rows (with wrap-around) comes back to the row.
pub proof fn lemma_next_then_previous(i: usize, n: nat)
    requires
        i < n <= usize::MAX,
    ensures
        previous_index(Some(next_index(Some(i), n)), n) == i,
{
    if i >= n - 1 {
        assert(next_index(Some(i), n) == 0);
        assert(n - 1 == i);
    } else {
        assert(next_index(Some(i), n) == i + 1);
    }
}

/// Moving down and back up returns to the same notebook, with the panel showing it again.
pub proof fn law_down_then_up(o: OverviewModel, i: usize)
    requires
        o.state.selected == Some(i),
        i < o.notebooks.len() <= usize::MAX,
        o.inspector == showing(o.inspector, o.notebooks[i as int]),
    ensures
        overview_step(
            overview_step(o, pressed(KeyCode::Char('j'))).0,
            pressed(KeyCode::Char('k')),
        ).0 == o,
{
    let n = o.notebooks.len();
    let j = next_index(Some(i), n);
    let o1 = overview_step(o, pressed(KeyCode::Char('j'))).0;
    assert(o1 == highlighted(o, j));
    assert(o1.notebooks == o.notebooks);
    lemma_next_then_previous(i, n);
    let o2 = overview_step(o1, pressed(KeyCode::Char('k'))).0;
    assert(o2 == highlighted(o1, i));
    assert(o2.inspector =~= o.inspector);
    assert(o2 =~= o);
}

} // verus!
