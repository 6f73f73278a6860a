use vstd::prelude::*;

verus! {

/// Completion is kept in tenths of a percent: 1000 means 100.0 %.
pub const FULL_COMPLETION: u32 = 1000;

/// Abstract value of a subtask.
#[verifier::ext_equal]
pub struct SubtaskModel {
    pub name: Seq<char>,
    pub is_done: bool,
}

/// Abstract value of a task.
#[verifier::ext_equal]
pub struct TaskModel {
    pub name: Seq<char>,
    pub description: Seq<char>,
    pub completion: u32,
    pub is_done: bool,
    pub subtasks: Seq<SubtaskModel>,
}

/// Abstract value of a notebook.
#[verifier::ext_equal]
pub struct NotebookModel {
    pub id: Seq<char>,
    pub name: Seq<char>,
    pub description: Seq<char>,
    pub tasks: Seq<TaskModel>,
}

/// One checklist line of a task.
pub struct Subtask {
    pub name: String,
    pub is_done: bool,
}

/// A task: a titled card with a description and a checklist of subtasks.
/// `completion` is measured in tenths of a percent (0 ..= 1000).
pub struct Task {
    pub name: String,
    pub description: String,
    pub completion: u32,
    pub is_done: bool,
    pub subtasks: Vec<Subtask>,
}

/// A notebook: a named column board of tasks, stored in its own file.
pub struct Notebook {
    pub id: String,
    pub name: String,
    pub description: String,
    pub tasks: Vec<Task>,
}

impl View for Subtask {
    type V = SubtaskModel;

    open spec fn view(&self) -> SubtaskModel {
        SubtaskModel { name: self.name@, is_done: self.is_done }
    }
}

pub open spec fn subtasks_model(s: Seq<Subtask>) -> Seq<SubtaskModel> {
    s.map_values(|x: Subtask| x@)
}

impl View for Task {
    type V = TaskModel;

    open spec fn view(&self) -> TaskModel {
        TaskModel {
            name: self.name@,
            description: self.description@,
            completion: self.completion,
            is_done: self.is_done,
            subtasks: subtasks_model(self.subtasks@),
        }
    }
}

pub open spec fn tasks_model(s: Seq<Task>) -> Seq<TaskModel> {
    s.map_values(|x: Task| x@)
}

impl View for Notebook {
    type V = NotebookModel;

    open spec fn view(&self) -> NotebookModel {
        NotebookModel {
            id: self.id@,
            name: self.name@,
            description: self.description@,
            tasks: tasks_model(self.tasks@),
        }
    }
}

pub open spec fn notebooks_model(s: Seq<Notebook>) -> Seq<NotebookModel> {
    s.map_values(|x: Notebook| x@)
}

impl Clone for Subtask {
    fn clone(&self) -> (r: Self)
        ensures
            r@ == self@,
    {
        Subtask { name: self.name.clone(), is_done: self.is_done }
    }
}

impl Clone for Task {
    fn clone(&self) -> (r: Self)
        ensures
            r@ == self@,
    {
        let subtasks = self.subtasks.clone();
        assert(subtasks_model(subtasks@) =~= subtasks_model(self.subtasks@));
        Task {
            name: self.name.clone(),
            description: self.description.clone(),
            completion: self.completion,
            is_done: self.is_done,
            subtasks,
        }
    }
}

impl Clone for Notebook {
    fn clone(&self) -> (r: Self)
        ensures
            r@ == self@,
    {
        let tasks = self.tasks.clone();
        assert(tasks_model(tasks@) =~= tasks_model(self.tasks@));
        Notebook {
            id: self.id.clone(),
            name: self.name.clone(),
            description: self.description.clone(),
            tasks,
        }
    }
}

/// Number of finished subtasks.
pub open spec fn done_count(s: Seq<SubtaskModel>) -> nat
    decreases s.len(),
{
    if s.len() == 0 {
        0
    } else {
        done_count(s.drop_last()) + if s.last().is_done {
            1nat
        } else {
            0nat
        }
    }
}

/// `done / total` as a percentage, rounded half-up to one decimal, in tenths of a percent.
pub open spec fn rounded_tenths(done: nat, total: nat) -> nat
    recommends
        total > 0,
{
    ((2000 * done + total) / (2 * total)) as nat
}

/// The completion a task shows for its subtask list and done flag.
pub open spec fn completion_for(subtasks: Seq<SubtaskModel>, is_done: bool) -> u32 {
    if subtasks.len() == 0 {
        if is_done {
            1000
        } else {
            0
        }
    } else {
        rounded_tenths(done_count(subtasks), subtasks.len()) as u32
    }
}

/// A task whose completion and done flag agree with its subtasks, as recalculation leaves it.
pub open spec fn task_consistent(t: TaskModel) -> bool {
    &&& t.completion == completion_for(t.subtasks, t.is_done)
    &&& t.subtasks.len() > 0 ==> t.is_done == (t.completion == 1000)
}

/// What recalculation makes of a task.
pub open spec fn recalculated(t: TaskModel) -> TaskModel {
    let c = completion_for(t.subtasks, t.is_done);
    TaskModel {
        completion: c,
        is_done: if t.subtasks.len() == 0 {
            t.is_done
        } else {
            c == 1000
        },
        ..t
    }
}

pub proof fn lemma_done_count_bound(s: Seq<SubtaskModel>)
    ensures
        done_count(s) <= s.len(),
    decreases s.len(),
{
    if s.len() > 0 {
        lemma_done_count_bound(s.drop_last());
    }
}

pub proof fn lemma_rounded_tenths_bound(done: nat, total: nat)
    requires
        total > 0,
        done <= total,
    ensures
        rounded_tenths(done, total) <= 1000,
        rounded_tenths(done, total) == 1000 <==> 2000 * done + total >= 2000 * total,
        done == total ==> rounded_tenths(done, total) == 1000,
        done == 0 ==> rounded_tenths(done, total) == 0,
{
    let n = 2 * total;
    let x = 2000 * done + total;
    assert(x < 1001 * n) by (nonlinear_arith)
        requires
            x == 2000 * done + total,
            n == 2 * total,
            done <= total,
            total > 0,
    ;
    assert(x / n < 1001) by (nonlinear_arith)
        requires
            x < 1001 * n,
            n > 0,
            x >= 0,
    ;
    assert((x / n >= 1000) <==> (x >= 1000 * n)) by (nonlinear_arith)
        requires
            n > 0,
            x >= 0,
    ;
    if done == 0 {
        assert(x / n == 0) by (nonlinear_arith)
            requires
                x == total,
                n == 2 * total,
                total > 0,
        ;
    }
}

pub proof fn lemma_all_done_count(s: Seq<SubtaskModel>, flag: bool)
    requires
        forall|i: int| 0 <= i < s.len() ==> (#[trigger] s[i]).is_done == flag,
    ensures
        done_count(s) == if flag {
            s.len()
        } else {
            0
        },
    decreases s.len(),
{
    if s.len() > 0 {
        let t = s.drop_last();
        assert forall|i: int| 0 <= i < t.len() implies (#[trigger] t[i]).is_done == flag by {
            assert(t[i] == s[i]);
        }
        lemma_all_done_count(t, flag);
    }
}

/// Counts the finished subtasks of a list.
fn count_done(subtasks: &Vec<Subtask>) -> (n: usize)
    ensures
        n == done_count(subtasks_model(subtasks@)),
        n <= subtasks.len(),
{
    let mut n: usize = 0;
    let mut i: usize = 0;
    while i < subtasks.len()
        invariant
            i <= subtasks.len(),
            n <= i,
            n == done_count(subtasks_model(subtasks@.subrange(0, i as int))),
        decreases subtasks.len() - i,
    {
        proof {
            let s = subtasks_model(subtasks@.subrange(0, i + 1));
            assert(s.drop_last() =~= subtasks_model(subtasks@.subrange(0, i as int)));
            assert(s.last() == subtasks@[i as int]@);
        }
        if subtasks[i].is_done {
            n = n + 1;
        }
        i = i + 1;
    }
    assert(subtasks@.subrange(0, subtasks.len() as int) =~= subtasks@);
    n
}

/// A task after subtask `i` was flipped and the task recalculated (`Task::toggle_subtask`).
pub open spec fn subtask_toggled(t: TaskModel, i: int) -> TaskModel {
    let s = t.subtasks[i];
    recalculated(
        TaskModel { subtasks: t.subtasks.update(i, SubtaskModel { is_done: !s.is_done, ..s }), ..t },
    )
}

/// A task after its done flag was flipped by hand: every subtask follows the task, and
/// completion jumps to 100 % or 0 %.
pub open spec fn toggled_task(t: TaskModel) -> TaskModel {
    TaskModel {
        is_done: !t.is_done,
        completion: if !t.is_done {
            FULL_COMPLETION
        } else {
            0
        },
        subtasks: t.subtasks.map_values(|s: SubtaskModel| SubtaskModel { is_done: !t.is_done, ..s }),
        ..t
    }
}

impl Subtask {
    /// Flips the done flag.
    pub fn toggle(&mut self)
        ensures
            final(self)@ == (SubtaskModel { is_done: !old(self).is_done, ..old(self)@ }),
    {
        self.is_done = !self.is_done;
    }
}

impl Task {
    /// Recomputes `completion` from the subtasks; with subtasks, the task is done exactly
    /// when completion reaches 100.0 %.
    pub fn recalculate_completion(&mut self)
        ensures
            final(self)@ == recalculated(old(self)@),
            task_consistent(final(self)@),
    {
        if self.subtasks.len() == 0 {
            self.completion = if self.is_done {
                1000
            } else {
                0
            };
            return ;
        }
        let done = count_done(&self.subtasks);
        let total = self.subtasks.len();
        proof {
            lemma_rounded_tenths_bound(done as nat, total as nat);
        }
        let num: u128 = 2000 * (done as u128) + (total as u128);
        let den: u128 = 2 * (total as u128);
        let c = num / den;
        self.completion = c as u32;
        self.is_done = self.completion == 1000;
    }

    /// Flips the done flag of subtask `index` (if it exists) and recalculates the task.
    pub fn toggle_subtask(&mut self, index: usize)
        ensures
            index < old(self).subtasks.len() ==> final(self)@ == subtask_toggled(
                old(self)@,
                index as int,
            ),
            index >= old(self).subtasks.len() ==> final(self)@ == old(self)@,
    {
        if index < self.subtasks.len() {
            let ghost before = self@;
            let mut s = self.subtasks[index].clone();
            s.toggle();
            self.subtasks.set(index, s);
            proof {
                assert(subtasks_model(self.subtasks@) =~= before.subtasks.update(
                    index as int,
                    SubtaskModel { is_done: !before.subtasks[index as int].is_done, ..before.subtasks[index as int] },
                ));
            }
            self.recalculate_completion();
        }
    }

    /// Flips the task's done flag; every subtask follows it and completion jumps to 100 % or 0 %.
    pub fn toggle_task(&mut self)
        ensures
            final(self)@ == toggled_task(old(self)@),
            final(self).is_done == !old(self).is_done,
            final(self).completion == if final(self).is_done {
                1000u32
            } else {
                0u32
            },
            final(self).name@ == old(self).name@,
            final(self).description@ == old(self).description@,
            final(self).subtasks.len() == old(self).subtasks.len(),
            forall|i: int|
                0 <= i < final(self).subtasks.len() ==> (#[trigger] final(self)@.subtasks[i])
                    == (SubtaskModel { is_done: final(self).is_done, ..old(self)@.subtasks[i] }),
            task_consistent(final(self)@),
    {
        self.is_done = !self.is_done;
        let flag = self.is_done;
        self.completion = if flag {
            1000
        } else {
            0
        };
        let mut subs: Vec<Subtask> = Vec::new();
        let mut i: usize = 0;
        while i < self.subtasks.len()
            invariant
                0 <= i <= self.subtasks.len(),
                subs.len() == i,
                forall|j: int|
                    0 <= j < i ==> (#[trigger] subs@[j]@) == (SubtaskModel {
                        is_done: flag,
                        ..self.subtasks@[j]@
                    }),
            decreases self.subtasks.len() - i,
        {
            let mut s = self.subtasks[i].clone();
            s.is_done = flag;
            subs.push(s);
            i = i + 1;
        }
        let ghost orig = self@.subtasks;
        self.subtasks = subs;
        proof {
            let s = self@.subtasks;
            assert forall|j: int| 0 <= j < s.len() implies (#[trigger] s[j]).is_done == flag by {
                assert(s[j] == self.subtasks@[j]@);
            }
            assert forall|j: int| 0 <= j < s.len() implies (#[trigger] self@.subtasks[j]) == (SubtaskModel { is_done: flag, ..orig[j] }) by {
                assert(s[j] == self.subtasks@[j]@);
            }
            lemma_all_done_count(s, flag);
            if s.len() > 0 {
                lemma_rounded_tenths_bound(done_count(s), s.len());
            }
            assert(self@.subtasks =~= orig.map_values(
                |x: SubtaskModel| SubtaskModel { is_done: flag, ..x },
            ));
            assert(self@ =~= toggled_task(old(self)@));
        }
    }
}

/// `c` is a digit or one of `a`..`f`.
pub open spec fn is_lower_hex_digit(c: char) -> bool {
    (48 <= c as u32 <= 57) || (97 <= c as u32 <= 102)
}

/// The hyphenated lower-case text of a random (version 4, RFC 4122 variant) UUID,
/// such as `67e55044-10b1-426f-9247-bb680e5fe0c8`.
pub open spec fn is_uuid_v4_text(s: Seq<char>) -> bool {
    &&& s.len() == 36
    &&& forall|i: int|
        0 <= i < 36 ==> if i == 8 || i == 13 || i == 18 || i == 23 {
            s[i] == '-'
        } else {
            is_lower_hex_digit(#[trigger] s[i])
        }
    &&& s[14] == '4'
    &&& (s[19] == '8' || s[19] == '9' || s[19] == 'a' || s[19] == 'b')
}

/// Calls `uuid::Uuid::new_v4` and renders it with `to_string`. The identifier is random;
/// what holds of every outcome is that it is the hyphenated lower-case text of a version-4
/// UUID (the crate formats `Uuid` through `LowerHex`, which writes the hyphenated form).
#[verifier::external_body]
fn new_uuid_v4_text() -> (id: String)
    ensures
        is_uuid_v4_text(id@),
{
    uuid::Uuid::new_v4().to_string()
}

impl Notebook {
    /// A new, empty notebook with a fresh random identifier.
    pub fn new(name: String, description: String) -> (nb: Self)
        ensures
            nb.name@ == name@,
            nb.description@ == description@,
            nb.tasks@.len() == 0,
            is_uuid_v4_text(nb.id@),
    {
        Notebook { id: new_uuid_v4_text(), name, description, tasks: Vec::new() }
    }
}

/// Recalculation leaves every task consistent, and leaves a consistent task as it is.
pub proof fn law_recalculation(t: TaskModel)
    ensures
        task_consistent(recalculated(t)),
        recalculated(recalculated(t)) == recalculated(t),
        task_consistent(t) ==> recalculated(t) == t,
{
    if t.subtasks.len() > 0 {
        lemma_done_count_bound(t.subtasks);
        lemma_rounded_tenths_bound(done_count(t.subtasks), t.subtasks.len());
    }
}

/// A task's completion never exceeds 100 % (1000 tenths).
pub proof fn law_completion_at_most_full(t: TaskModel)
    ensures
        recalculated(t).completion <= FULL_COMPLETION,
{
    if t.subtasks.len() > 0 {
        lemma_done_count_bound(t.subtasks);
        lemma_rounded_tenths_bound(done_count(t.subtasks), t.subtasks.len());
    }
}

/// A task with subtasks is done exactly when all its subtasks are done. This fails only
/// where rounding to a tenth of a percent reaches 100 % with subtasks left open (at least
/// 2000 subtasks), which the condition leaves out.
pub proof fn law_done_iff_all_subtasks_done(t: TaskModel)
    requires
        t.subtasks.len() > 0,
        done_count(t.subtasks) == t.subtasks.len() || 2000 * (t.subtasks.len() - done_count(
            t.subtasks,
        )) > t.subtasks.len(),
    ensures
        recalculated(t).is_done <==> done_count(t.subtasks) == t.subtasks.len(),
{
    lemma_done_count_bound(t.subtasks);
    lemma_rounded_tenths_bound(done_count(t.subtasks), t.subtasks.len());
}

/// Toggling the same subtask twice gives back the task, when its completion was up to date.
pub proof fn law_toggle_subtask_twice(t: TaskModel, i: int)
    requires
        task_consistent(t),
        0 <= i < t.subtasks.len(),
    ensures
        subtask_toggled(subtask_toggled(t, i), i) == t,
{
    let once = subtask_toggled(t, i);
    let s = t.subtasks[i];
    assert(once.subtasks[i] == SubtaskModel { is_done: !s.is_done, ..s });
    assert(once.subtasks.update(i, SubtaskModel { is_done: s.is_done, ..once.subtasks[i] })
        =~= t.subtasks);
    law_recalculation(t);
    assert(subtask_toggled(once, i) =~= recalculated(t));
}

/// Toggling a task by hand leaves it consistent with every subtask following it, and
/// toggling it again brings back its done flag.
pub proof fn law_toggle_task(t: TaskModel)
    ensures
        task_consistent(toggled_task(t)),
        forall|i: int|
            0 <= i < t.subtasks.len() ==> (#[trigger] toggled_task(t).subtasks[i]).is_done
                == !t.is_done,
        toggled_task(toggled_task(t)).is_done == t.is_done,
        toggled_task(toggled_task(t)).completion == if t.is_done {
            FULL_COMPLETION
        } else {
            0
        },
{
    let s = toggled_task(t).subtasks;
    assert forall|i: int| 0 <= i < s.len() implies (#[trigger] s[i]).is_done == !t.is_done by {}
    lemma_all_done_count(s, !t.is_done);
    if s.len() > 0 {
        lemma_rounded_tenths_bound(done_count(s), s.len());
    }
}

} // verus!
