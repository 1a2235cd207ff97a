//! The repository: it owns the store and exposes one operation per entity
//! per verb. Every multi-step mutation (check-then-insert, rename with a
//! collision check, cascading delete) either completes in full or leaves the
//! store exactly as it was — no failure exposes partial state.
//!
//! Identifiers are assigned by the store from a per-table counter, so they
//! grow monotonically and are never reused, and the creation time is read
//! from the store clock at insert.

use vstd::prelude::*;
use vstd::string::StringExecFns;

use crate::clock;
use crate::errors::DatabaseError;
use crate::models::{NewProject, NewSubTask, NewTask, Project, SubTask, Task, Thoughts};

verus! {

/// The mathematical content of the store: the rows of each table and the
/// next identifier each table will assign.
pub ghost struct StoreModel {
    pub projects: Seq<Project>,
    pub tasks: Seq<Task>,
    pub subtasks: Seq<SubTask>,
    pub thoughts: Seq<Thoughts>,
    pub next_project_id: int,
    pub next_task_id: int,
    pub next_subtask_id: int,
}

/// Some project carries this name.
pub open spec fn has_project_named(ps: Seq<Project>, name: Seq<char>) -> bool {
    exists|i: int| 0 <= i < ps.len() && #[trigger] ps[i].name@ == name
}

/// Some project carries this identifier.
pub open spec fn has_project_with_id(ps: Seq<Project>, id: i32) -> bool {
    exists|i: int| 0 <= i < ps.len() && #[trigger] ps[i].id == id
}

/// Some task in the given project carries this name.
pub open spec fn has_task_in_project(ts: Seq<Task>, name: Seq<char>, pid: i32) -> bool {
    exists|i: int|
        0 <= i < ts.len() && #[trigger] ts[i].name@ == name && #[trigger] ts[i].project_id == pid
}

/// Some task, in any project, carries this name.
pub open spec fn has_task_named(ts: Seq<Task>, name: Seq<char>) -> bool {
    exists|i: int| 0 <= i < ts.len() && #[trigger] ts[i].name@ == name
}

/// Some task carries this identifier.
pub open spec fn has_task_with_id(ts: Seq<Task>, id: i32) -> bool {
    exists|i: int| 0 <= i < ts.len() && #[trigger] ts[i].id == id
}

/// The task with this identifier belongs to the given project.
pub open spec fn task_in_project_with_id(ts: Seq<Task>, pid: i32, tid: i32) -> bool {
    exists|i: int|
        0 <= i < ts.len() && #[trigger] ts[i].id == tid && #[trigger] ts[i].project_id == pid
}

/// Some subtask under the given task carries this name.
pub open spec fn has_subtask_in_task(sts: Seq<SubTask>, name: Seq<char>, tid: i32) -> bool {
    exists|i: int|
        0 <= i < sts.len() && #[trigger] sts[i].name@ == name && #[trigger] sts[i].task_id == tid
}

/// Some subtask carries this identifier.
pub open spec fn has_subtask_with_id(sts: Seq<SubTask>, id: i32) -> bool {
    exists|i: int| 0 <= i < sts.len() && #[trigger] sts[i].id == id
}

/// Some subtask under the given task carries this identifier.
pub open spec fn has_subtask_in_task_with_id(sts: Seq<SubTask>, tid: i32, sid: i32) -> bool {
    exists|i: int|
        0 <= i < sts.len() && #[trigger] sts[i].id == sid && #[trigger] sts[i].task_id == tid
}

/// Index `i` is the first task carrying this name, in store order.
pub open spec fn is_first_task_named(ts: Seq<Task>, name: Seq<char>, i: int) -> bool {
    &&& 0 <= i < ts.len()
    &&& ts[i].name@ == name
    &&& forall|j: int| 0 <= j < i ==> #[trigger] ts[j].name@ != name
}

/// The identifier of the project carrying this name (meaningful only when
/// such a project exists; well-formedness makes it unique).
pub open spec fn project_id_by_name(ps: Seq<Project>, name: Seq<char>) -> i32 {
    ps[choose|i: int| 0 <= i < ps.len() && #[trigger] ps[i].name@ == name].id
}

/// The identifier of the task carrying this name within the given project
/// (meaningful only when such a task exists; well-formedness makes it
/// unique).
pub open spec fn task_id_by_name_in_project(ts: Seq<Task>, name: Seq<char>, pid: i32) -> i32 {
    ts[choose|i: int|
        0 <= i < ts.len() && #[trigger] ts[i].name@ == name && ts[i].project_id == pid].id
}

/// The store's invariant: identifiers are positive, below the table's next
/// counter and pairwise distinct; project names are unique; task names are
/// unique within their project and subtask names within their task; and
/// every task belongs to an existing project, every subtask to an existing
/// task — there is no orphaned row.
pub open spec fn store_wf(m: StoreModel) -> bool {
    &&& 1 <= m.next_project_id <= i32::MAX
    &&& 1 <= m.next_task_id <= i32::MAX
    &&& 1 <= m.next_subtask_id <= i32::MAX
    &&& forall|i: int|
        0 <= i < m.projects.len() ==> 1 <= #[trigger] m.projects[i].id < m.next_project_id
    &&& forall|i: int, j: int|
        0 <= i < j < m.projects.len() ==> #[trigger] m.projects[i].id != #[trigger] m.projects[j].id
    &&& forall|i: int, j: int|
        0 <= i < j < m.projects.len() ==> #[trigger] m.projects[i].name@ != #[trigger] m.projects[j].name@
    &&& forall|i: int| 0 <= i < m.tasks.len() ==> 1 <= #[trigger] m.tasks[i].id < m.next_task_id
    &&& forall|i: int, j: int|
        0 <= i < j < m.tasks.len() ==> #[trigger] m.tasks[i].id != #[trigger] m.tasks[j].id
    &&& forall|i: int, j: int|
        0 <= i < j < m.tasks.len() && m.tasks[i].project_id == m.tasks[j].project_id
            ==> #[trigger] m.tasks[i].name@ != #[trigger] m.tasks[j].name@
    &&& forall|i: int|
        0 <= i < m.tasks.len() ==> has_project_with_id(
            m.projects,
            #[trigger] m.tasks[i].project_id,
        )
    &&& forall|i: int|
        0 <= i < m.subtasks.len() ==> 1 <= #[trigger] m.subtasks[i].id < m.next_subtask_id
    &&& forall|i: int, j: int|
        0 <= i < j < m.subtasks.len() ==> #[trigger] m.subtasks[i].id != #[trigger] m.subtasks[j].id
    &&& forall|i: int, j: int|
        0 <= i < j < m.subtasks.len() && m.subtasks[i].task_id == m.subtasks[j].task_id
            ==> #[trigger] m.subtasks[i].name@ != #[trigger] m.subtasks[j].name@
    &&& forall|i: int|
        0 <= i < m.subtasks.len() ==> has_task_with_id(m.tasks, #[trigger] m.subtasks[i].task_id)
}

/// The repository. It owns the single store held by the process and is the
/// only way to read or change it.
pub struct Database {
    projects: Vec<Project>,
    tasks: Vec<Task>,
    subtasks: Vec<SubTask>,
    thoughts: Vec<Thoughts>,
    next_project_id: i32,
    next_task_id: i32,
    next_subtask_id: i32,
}

impl View for Database {
    type V = StoreModel;

    closed spec fn view(&self) -> StoreModel {
        StoreModel {
            projects: self.projects@,
            tasks: self.tasks@,
            subtasks: self.subtasks@,
            thoughts: self.thoughts@,
            next_project_id: self.next_project_id as int,
            next_task_id: self.next_task_id as int,
            next_subtask_id: self.next_subtask_id as int,
        }
    }
}

/// The store transition made by a successful project creation: one row is
/// appended with the next identifier and the given name; nothing else moves.
pub open spec fn project_created(pre: StoreModel, post: StoreModel, name: Seq<char>, pid: i32) -> bool {
    &&& pid as int == pre.next_project_id
    &&& post.next_project_id == pre.next_project_id + 1
    &&& post.projects.len() == pre.projects.len() + 1
    &&& post.projects.drop_last() == pre.projects
    &&& post.projects.last().id == pid
    &&& post.projects.last().name@ == name
    &&& post.tasks == pre.tasks
    &&& post.subtasks == pre.subtasks
    &&& post.thoughts == pre.thoughts
    &&& post.next_task_id == pre.next_task_id
    &&& post.next_subtask_id == pre.next_subtask_id
}

/// A successful project creation preserves the store invariant.
proof fn lemma_wf_project_created(pre: StoreModel, post: StoreModel, name: Seq<char>, pid: i32)
    requires
        store_wf(pre),
        pre.next_project_id < i32::MAX,
        !has_project_named(pre.projects, name),
        project_created(pre, post, name, pid),
    ensures
        store_wf(post),
{
    assert forall|i: int| 0 <= i < pre.projects.len() implies post.projects[i]
        == pre.projects[i] by {
        assert(post.projects.drop_last()[i] == pre.projects[i]);
    }
    assert forall|i: int|
        0 <= i < post.tasks.len() implies has_project_with_id(
        post.projects,
        #[trigger] post.tasks[i].project_id,
    ) by {
        let k = choose|k: int|
            0 <= k < pre.projects.len() && #[trigger] pre.projects[k].id == pre.tasks[
                i
            ].project_id;
        assert(post.projects[k].id == post.tasks[i].project_id);
    }
}

/// Every element of a filtered sequence stands somewhere in the original.
proof fn lemma_filter_element_from<A>(s: Seq<A>, pred: spec_fn(A) -> bool, i: int)
    requires
        0 <= i < s.filter(pred).len(),
    ensures
        exists|k: int| 0 <= k < s.len() && #[trigger] s[k] == s.filter(pred)[i],
    decreases s.len(),
{
    reveal(Seq::filter);
    let rest = s.drop_last().filter(pred);
    if i < rest.len() {
        lemma_filter_element_from(s.drop_last(), pred, i);
        let k = choose|k: int| 0 <= k < s.drop_last().len() && #[trigger] s.drop_last()[k] == rest[i];
        assert(s[k] == s.filter(pred)[i]);
    } else {
        assert(s[s.len() - 1] == s.filter(pred)[i]);
    }
}

/// Two distinct positions of a filtered sequence come from two distinct,
/// equally ordered positions of the original.
proof fn lemma_filter_pair_from<A>(s: Seq<A>, pred: spec_fn(A) -> bool, i: int, j: int)
    requires
        0 <= i < j < s.filter(pred).len(),
    ensures
        exists|a: int, b: int|
            0 <= a < b < s.len() && #[trigger] s[a] == s.filter(pred)[i] && #[trigger] s[b]
                == s.filter(pred)[j],
    decreases s.len(),
{
    reveal(Seq::filter);
    let rest = s.drop_last().filter(pred);
    if j < rest.len() {
        lemma_filter_pair_from(s.drop_last(), pred, i, j);
        let (a, b) = choose|a: int, b: int|
            0 <= a < b < s.drop_last().len() && #[trigger] s.drop_last()[a] == rest[i]
                && #[trigger] s.drop_last()[b] == rest[j];
        assert(s[a] == s.filter(pred)[i] && s[b] == s.filter(pred)[j]);
    } else {
        lemma_filter_element_from(s.drop_last(), pred, i);
        let a = choose|a: int| 0 <= a < s.drop_last().len() && #[trigger] s.drop_last()[a] == rest[i];
        assert(s[a] == s.filter(pred)[i] && s[s.len() - 1] == s.filter(pred)[j]);
    }
}

/// The store transition made by renaming a project: the one project that
/// carried the old name keeps its identifier and creation time under the
/// new name; nothing else moves.
pub open spec fn project_renamed(
    pre: StoreModel,
    post: StoreModel,
    from: Seq<char>,
    to: Seq<char>,
    pid: i32,
) -> bool {
    &&& post.tasks == pre.tasks
    &&& post.subtasks == pre.subtasks
    &&& post.thoughts == pre.thoughts
    &&& post.next_project_id == pre.next_project_id
    &&& post.next_task_id == pre.next_task_id
    &&& post.next_subtask_id == pre.next_subtask_id
    &&& exists|i: int|
        #![auto]
        0 <= i < pre.projects.len() && pre.projects[i].name@ == from && pre.projects[i].id == pid
            && post.projects[i].id == pid && post.projects[i].name@ == to && post.projects[
            i
        ].created_on == pre.projects[i].created_on && post.projects == pre.projects.update(
            i,
            post.projects[i],
        )
}

/// Renaming a project to a name no project carries preserves the store
/// invariant.
proof fn lemma_wf_project_renamed(
    pre: StoreModel,
    post: StoreModel,
    from: Seq<char>,
    to: Seq<char>,
    pid: i32,
)
    requires
        store_wf(pre),
        !has_project_named(pre.projects, to),
        project_renamed(pre, post, from, to, pid),
    ensures
        store_wf(post),
{
    let i = choose|i: int|
        #![auto]
        0 <= i < pre.projects.len() && pre.projects[i].name@ == from && pre.projects[i].id == pid
            && post.projects[i].id == pid && post.projects[i].name@ == to && post.projects[
            i
        ].created_on == pre.projects[i].created_on && post.projects == pre.projects.update(
            i,
            post.projects[i],
        );
    assert(forall|j: int|
        0 <= j < post.projects.len() && j != i ==> post.projects[j] == pre.projects[j]);
    assert(post.projects[i].id == pre.projects[i].id);
    assert forall|j: int|
        0 <= j < post.tasks.len() implies has_project_with_id(
        post.projects,
        #[trigger] post.tasks[j].project_id,
    ) by {
        let k = choose|k: int|
            0 <= k < pre.projects.len() && #[trigger] pre.projects[k].id == pre.tasks[j].project_id;
        assert(post.projects[k].id == post.tasks[j].project_id);
    }
}

/// The store transition made by a cascading project delete: the project, its
/// tasks, and every subtask under any of those tasks leave the store; every
/// other row stays.
pub open spec fn project_deleted(pre: StoreModel, post: StoreModel, name: Seq<char>, pid: i32) -> bool {
    &&& exists|i: int|
        0 <= i < pre.projects.len() && #[trigger] pre.projects[i].name@ == name && pre.projects[
            i
        ].id == pid
    &&& post.projects == pre.projects.filter(|p: Project| p.id != pid)
    &&& post.tasks == pre.tasks.filter(|t: Task| t.project_id != pid)
    &&& post.subtasks == pre.subtasks.filter(
        |st: SubTask| !task_in_project_with_id(pre.tasks, pid, st.task_id),
    )
    &&& post.thoughts == pre.thoughts
    &&& post.next_project_id == pre.next_project_id
    &&& post.next_task_id == pre.next_task_id
    &&& post.next_subtask_id == pre.next_subtask_id
}

/// A cascading project delete preserves the store invariant.
proof fn lemma_wf_project_deleted(pre: StoreModel, post: StoreModel, name: Seq<char>, pid: i32)
    requires
        store_wf(pre),
        project_deleted(pre, post, name, pid),
    ensures
        store_wf(post),
{
    let ppred = |p: Project| p.id != pid;
    let tpred = |t: Task| t.project_id != pid;
    let spred = |st: SubTask| !task_in_project_with_id(pre.tasks, pid, st.task_id);
    assert forall|a: int|
        0 <= a < post.projects.len() implies 1 <= #[trigger] post.projects[a].id
        < post.next_project_id by {
        lemma_filter_element_from(pre.projects, ppred, a);
    }
    assert forall|a: int, b: int|
        0 <= a < b < post.projects.len() implies #[trigger] post.projects[a].id
        != #[trigger] post.projects[b].id by {
        lemma_filter_pair_from(pre.projects, ppred, a, b);
    }
    assert forall|a: int, b: int|
        0 <= a < b < post.projects.len() implies #[trigger] post.projects[a].name@
        != #[trigger] post.projects[b].name@ by {
        lemma_filter_pair_from(pre.projects, ppred, a, b);
    }
    assert forall|a: int|
        0 <= a < post.tasks.len() implies 1 <= #[trigger] post.tasks[a].id < post.next_task_id by {
        lemma_filter_element_from(pre.tasks, tpred, a);
    }
    assert forall|a: int, b: int|
        0 <= a < b < post.tasks.len() implies #[trigger] post.tasks[a].id != #[trigger] post.tasks[
        b
    ].id by {
        lemma_filter_pair_from(pre.tasks, tpred, a, b);
    }
    assert forall|a: int, b: int|
        0 <= a < b < post.tasks.len() && post.tasks[a].project_id == post.tasks[b].project_id
        implies #[trigger] post.tasks[a].name@ != #[trigger] post.tasks[b].name@ by {
        lemma_filter_pair_from(pre.tasks, tpred, a, b);
    }
    assert forall|a: int|
        0 <= a < post.tasks.len() implies has_project_with_id(
        post.projects,
        #[trigger] post.tasks[a].project_id,
    ) by {
        lemma_filter_element_from(pre.tasks, tpred, a);
        let k = choose|k: int| 0 <= k < pre.tasks.len() && #[trigger] pre.tasks[k] == post.tasks[a];
        pre.tasks.lemma_filter_pred(tpred, a);
        let w = choose|w: int|
            0 <= w < pre.projects.len() && #[trigger] pre.projects[w].id == pre.tasks[k].project_id;
        assert(ppred(pre.projects[w]));
        pre.projects.lemma_filter_contains(ppred, w);
        let v = choose|v: int|
            0 <= v < post.projects.len() && #[trigger] post.projects[v] == pre.projects[w];
        assert(post.projects[v].id == post.tasks[a].project_id);
    }
    assert forall|a: int|
        0 <= a < post.subtasks.len() implies 1 <= #[trigger] post.subtasks[a].id
        < post.next_subtask_id by {
        lemma_filter_element_from(pre.subtasks, spred, a);
    }
    assert forall|a: int, b: int|
        0 <= a < b < post.subtasks.len() implies #[trigger] post.subtasks[a].id
        != #[trigger] post.subtasks[b].id by {
        lemma_filter_pair_from(pre.subtasks, spred, a, b);
    }
    assert forall|a: int, b: int|
        0 <= a < b < post.subtasks.len() && post.subtasks[a].task_id == post.subtasks[b].task_id
        implies #[trigger] post.subtasks[a].name@ != #[trigger] post.subtasks[b].name@ by {
        lemma_filter_pair_from(pre.subtasks, spred, a, b);
    }
    assert forall|a: int|
        0 <= a < post.subtasks.len() implies has_task_with_id(
        post.tasks,
        #[trigger] post.subtasks[a].task_id,
    ) by {
        lemma_filter_element_from(pre.subtasks, spred, a);
        let k = choose|k: int|
            0 <= k < pre.subtasks.len() && #[trigger] pre.subtasks[k] == post.subtasks[a];
        pre.subtasks.lemma_filter_pred(spred, a);
        let w = choose|w: int|
            0 <= w < pre.tasks.len() && #[trigger] pre.tasks[w].id == pre.subtasks[k].task_id;
        assert(tpred(pre.tasks[w]));
        pre.tasks.lemma_filter_contains(tpred, w);
        let v = choose|v: int| 0 <= v < post.tasks.len() && #[trigger] post.tasks[v] == pre.tasks[w];
        assert(post.tasks[v].id == post.subtasks[a].task_id);
    }
}

/// The store transition made by a successful task creation: one row is
/// appended with the next identifier, the given owning project, name and
/// completion state; nothing else moves.
pub open spec fn task_created(
    pre: StoreModel,
    post: StoreModel,
    pid: i32,
    name: Seq<char>,
    completed: bool,
    tid: i32,
) -> bool {
    &&& tid as int == pre.next_task_id
    &&& post.next_task_id == pre.next_task_id + 1
    &&& post.tasks.len() == pre.tasks.len() + 1
    &&& post.tasks.drop_last() == pre.tasks
    &&& post.tasks.last().id == tid
    &&& post.tasks.last().project_id == pid
    &&& post.tasks.last().name@ == name
    &&& post.tasks.last().completed == completed
    &&& post.projects == pre.projects
    &&& post.subtasks == pre.subtasks
    &&& post.thoughts == pre.thoughts
    &&& post.next_project_id == pre.next_project_id
    &&& post.next_subtask_id == pre.next_subtask_id
}

/// A successful task creation preserves the store invariant.
proof fn lemma_wf_task_created(
    pre: StoreModel,
    post: StoreModel,
    pid: i32,
    name: Seq<char>,
    completed: bool,
    tid: i32,
)
    requires
        store_wf(pre),
        pre.next_task_id < i32::MAX,
        has_project_with_id(pre.projects, pid),
        !has_task_in_project(pre.tasks, name, pid),
        task_created(pre, post, pid, name, completed, tid),
    ensures
        store_wf(post),
{
    assert forall|i: int| 0 <= i < pre.tasks.len() implies post.tasks[i] == pre.tasks[i] by {
        assert(post.tasks.drop_last()[i] == pre.tasks[i]);
    }
    assert forall|i: int|
        0 <= i < post.tasks.len() implies has_project_with_id(
        post.projects,
        #[trigger] post.tasks[i].project_id,
    ) by {
        if i < pre.tasks.len() {
            assert(has_project_with_id(pre.projects, pre.tasks[i].project_id));
        }
    }
    assert forall|i: int|
        0 <= i < post.subtasks.len() implies has_task_with_id(
        post.tasks,
        #[trigger] post.subtasks[i].task_id,
    ) by {
        let k = choose|k: int|
            0 <= k < pre.tasks.len() && #[trigger] pre.tasks[k].id == pre.subtasks[i].task_id;
        assert(post.tasks[k].id == post.subtasks[i].task_id);
    }
}

/// The project identifier of the first task carrying this name, in store
/// order (meaningful only when such a task exists; the first index is
/// unique by construction).
pub open spec fn first_task_named_project(ts: Seq<Task>, name: Seq<char>) -> i32 {
    ts[choose|i: int| #[trigger] is_first_task_named(ts, name, i)].project_id
}

/// Removing an element and inserting another at the same position is a
/// point update.
proof fn lemma_remove_insert_is_update<A>(s: Seq<A>, i: int, x: A)
    requires
        0 <= i < s.len(),
    ensures
        s.remove(i).insert(i, x) == s.update(i, x),
{
    assert(s.remove(i).insert(i, x) =~= s.update(i, x));
}

/// The store transition made by renaming a task: the first task that
/// carried the old name, in store order, keeps everything but its name;
/// nothing else moves.
pub open spec fn task_renamed(
    pre: StoreModel,
    post: StoreModel,
    from: Seq<char>,
    to: Seq<char>,
    tid: i32,
) -> bool {
    &&& post.projects == pre.projects
    &&& post.subtasks == pre.subtasks
    &&& post.thoughts == pre.thoughts
    &&& post.next_project_id == pre.next_project_id
    &&& post.next_task_id == pre.next_task_id
    &&& post.next_subtask_id == pre.next_subtask_id
    &&& exists|i: int|
        #![auto]
        is_first_task_named(pre.tasks, from, i) && pre.tasks[i].id == tid && post.tasks[i].id == tid
            && post.tasks[i].project_id == pre.tasks[i].project_id && post.tasks[i].name@ == to
            && post.tasks[i].completed == pre.tasks[i].completed && post.tasks[i].created_on
            == pre.tasks[i].created_on && post.tasks == pre.tasks.update(i, post.tasks[i])
}

/// The store transition made by marking a task complete or incomplete: the
/// first task carrying the name, in store order, changes only its
/// completion state; nothing else moves.
pub open spec fn task_status_set(
    pre: StoreModel,
    post: StoreModel,
    name: Seq<char>,
    done: bool,
    tid: i32,
) -> bool {
    &&& post.projects == pre.projects
    &&& post.subtasks == pre.subtasks
    &&& post.thoughts == pre.thoughts
    &&& post.next_project_id == pre.next_project_id
    &&& post.next_task_id == pre.next_task_id
    &&& post.next_subtask_id == pre.next_subtask_id
    &&& exists|i: int|
        #![auto]
        is_first_task_named(pre.tasks, name, i) && pre.tasks[i].id == tid && post.tasks[i].id == tid
            && post.tasks[i].project_id == pre.tasks[i].project_id && post.tasks[i].name
            == pre.tasks[i].name && post.tasks[i].completed == done && post.tasks[i].created_on
            == pre.tasks[i].created_on && post.tasks == pre.tasks.update(i, post.tasks[i])
}

/// The store transition made by a cascading task delete: the first task
/// carrying the name, in store order, leaves the store together with every
/// subtask under it; every other row stays.
pub open spec fn task_deleted(pre: StoreModel, post: StoreModel, name: Seq<char>, tid: i32) -> bool {
    &&& exists|i: int| #[trigger] is_first_task_named(pre.tasks, name, i) && pre.tasks[i].id == tid
    &&& post.tasks == pre.tasks.filter(|t: Task| t.id != tid)
    &&& post.subtasks == pre.subtasks.filter(|st: SubTask| st.task_id != tid)
    &&& post.projects == pre.projects
    &&& post.thoughts == pre.thoughts
    &&& post.next_project_id == pre.next_project_id
    &&& post.next_task_id == pre.next_task_id
    &&& post.next_subtask_id == pre.next_subtask_id
}

/// A point update of one task that keeps its identifier and owning project,
/// and either keeps its name or moves to a name unused within that project,
/// preserves the store invariant.
proof fn lemma_wf_task_updated(pre: StoreModel, post: StoreModel, i: int)
    requires
        store_wf(pre),
        0 <= i < pre.tasks.len(),
        post.tasks == pre.tasks.update(i, post.tasks[i]),
        post.tasks[i].id == pre.tasks[i].id,
        post.tasks[i].project_id == pre.tasks[i].project_id,
        post.tasks[i].name@ == pre.tasks[i].name@ || !has_task_in_project(
            pre.tasks,
            post.tasks[i].name@,
            pre.tasks[i].project_id,
        ),
        post.projects == pre.projects,
        post.subtasks == pre.subtasks,
        post.thoughts == pre.thoughts,
        post.next_project_id == pre.next_project_id,
        post.next_task_id == pre.next_task_id,
        post.next_subtask_id == pre.next_subtask_id,
    ensures
        store_wf(post),
{
    assert(forall|j: int|
        0 <= j < post.tasks.len() && j != i ==> post.tasks[j] == pre.tasks[j]);
    assert forall|a: int, b: int|
        0 <= a < b < post.tasks.len() && post.tasks[a].project_id == post.tasks[b].project_id
        implies #[trigger] post.tasks[a].name@ != #[trigger] post.tasks[b].name@ by {
        if a != i && b != i {
            assert(pre.tasks[a].name@ != pre.tasks[b].name@);
        } else {
            let o = if a == i {
                b
            } else {
                a
            };
            if post.tasks[i].name@ == pre.tasks[i].name@ {
                assert(pre.tasks[o].name@ != pre.tasks[i].name@);
            } else {
                assert(pre.tasks[o].name@ != post.tasks[i].name@);
            }
        }
    }
    assert forall|a: int|
        0 <= a < post.tasks.len() implies has_project_with_id(
        post.projects,
        #[trigger] post.tasks[a].project_id,
    ) by {
        if a == i {
            assert(has_project_with_id(pre.projects, pre.tasks[i].project_id));
        } else {
            assert(has_project_with_id(pre.projects, pre.tasks[a].project_id));
        }
    }
    assert forall|a: int|
        0 <= a < post.subtasks.len() implies has_task_with_id(
        post.tasks,
        #[trigger] post.subtasks[a].task_id,
    ) by {
        let k = choose|k: int|
            0 <= k < pre.tasks.len() && #[trigger] pre.tasks[k].id == pre.subtasks[a].task_id;
        assert(post.tasks[k].id == post.subtasks[a].task_id);
    }
}

/// A cascading task delete preserves the store invariant.
proof fn lemma_wf_task_deleted(pre: StoreModel, post: StoreModel, name: Seq<char>, tid: i32)
    requires
        store_wf(pre),
        task_deleted(pre, post, name, tid),
    ensures
        store_wf(post),
{
    let tpred = |t: Task| t.id != tid;
    let spred = |st: SubTask| st.task_id != tid;
    assert forall|a: int|
        0 <= a < post.tasks.len() implies 1 <= #[trigger] post.tasks[a].id < post.next_task_id by {
        lemma_filter_element_from(pre.tasks, tpred, a);
    }
    assert forall|a: int, b: int|
        0 <= a < b < post.tasks.len() implies #[trigger] post.tasks[a].id != #[trigger] post.tasks[
        b
    ].id by {
        lemma_filter_pair_from(pre.tasks, tpred, a, b);
    }
    assert forall|a: int, b: int|
        0 <= a < b < post.tasks.len() && post.tasks[a].project_id == post.tasks[b].project_id
        implies #[trigger] post.tasks[a].name@ != #[trigger] post.tasks[b].name@ by {
        lemma_filter_pair_from(pre.tasks, tpred, a, b);
    }
    assert forall|a: int|
        0 <= a < post.tasks.len() implies has_project_with_id(
        post.projects,
        #[trigger] post.tasks[a].project_id,
    ) by {
        lemma_filter_element_from(pre.tasks, tpred, a);
        let k = choose|k: int| 0 <= k < pre.tasks.len() && #[trigger] pre.tasks[k] == post.tasks[a];
        assert(has_project_with_id(pre.projects, pre.tasks[k].project_id));
    }
    assert forall|a: int|
        0 <= a < post.subtasks.len() implies 1 <= #[trigger] post.subtasks[a].id
        < post.next_subtask_id by {
        lemma_filter_element_from(pre.subtasks, spred, a);
    }
    assert forall|a: int, b: int|
        0 <= a < b < post.subtasks.len() implies #[trigger] post.subtasks[a].id
        != #[trigger] post.subtasks[b].id by {
        lemma_filter_pair_from(pre.subtasks, spred, a, b);
    }
    assert forall|a: int, b: int|
        0 <= a < b < post.subtasks.len() && post.subtasks[a].task_id == post.subtasks[b].task_id
        implies #[trigger] post.subtasks[a].name@ != #[trigger] post.subtasks[b].name@ by {
        lemma_filter_pair_from(pre.subtasks, spred, a, b);
    }
    assert forall|a: int|
        0 <= a < post.subtasks.len() implies has_task_with_id(
        post.tasks,
        #[trigger] post.subtasks[a].task_id,
    ) by {
        lemma_filter_element_from(pre.subtasks, spred, a);
        let k = choose|k: int|
            0 <= k < pre.subtasks.len() && #[trigger] pre.subtasks[k] == post.subtasks[a];
        pre.subtasks.lemma_filter_pred(spred, a);
        let w = choose|w: int|
            0 <= w < pre.tasks.len() && #[trigger] pre.tasks[w].id == pre.subtasks[k].task_id;
        assert(tpred(pre.tasks[w]));
        pre.tasks.lemma_filter_contains(tpred, w);
        let v = choose|v: int| 0 <= v < post.tasks.len() && #[trigger] post.tasks[v] == pre.tasks[w];
        assert(post.tasks[v].id == post.subtasks[a].task_id);
    }
}

/// The store transition made by a successful subtask creation: one row is
/// appended with the next identifier, the given owning task, name and
/// completion state; nothing else moves.
pub open spec fn subtask_created(
    pre: StoreModel,
    post: StoreModel,
    tid: i32,
    name: Seq<char>,
    completed: bool,
    sid: i32,
) -> bool {
    &&& sid as int == pre.next_subtask_id
    &&& post.next_subtask_id == pre.next_subtask_id + 1
    &&& post.subtasks.len() == pre.subtasks.len() + 1
    &&& post.subtasks.drop_last() == pre.subtasks
    &&& post.subtasks.last().id == sid
    &&& post.subtasks.last().task_id == tid
    &&& post.subtasks.last().name@ == name
    &&& post.subtasks.last().completed == completed
    &&& post.projects == pre.projects
    &&& post.tasks == pre.tasks
    &&& post.thoughts == pre.thoughts
    &&& post.next_project_id == pre.next_project_id
    &&& post.next_task_id == pre.next_task_id
}

/// A successful subtask creation preserves the store invariant.
proof fn lemma_wf_subtask_created(
    pre: StoreModel,
    post: StoreModel,
    tid: i32,
    name: Seq<char>,
    completed: bool,
    sid: i32,
)
    requires
        store_wf(pre),
        pre.next_subtask_id < i32::MAX,
        has_task_with_id(pre.tasks, tid),
        !has_subtask_in_task(pre.subtasks, name, tid),
        subtask_created(pre, post, tid, name, completed, sid),
    ensures
        store_wf(post),
{
    assert forall|i: int|
        0 <= i < pre.subtasks.len() implies post.subtasks[i] == pre.subtasks[i] by {
        assert(post.subtasks.drop_last()[i] == pre.subtasks[i]);
    }
    assert forall|i: int|
        0 <= i < post.tasks.len() implies has_project_with_id(
        post.projects,
        #[trigger] post.tasks[i].project_id,
    ) by {
        assert(has_project_with_id(pre.projects, pre.tasks[i].project_id));
    }
    assert forall|i: int|
        0 <= i < post.subtasks.len() implies has_task_with_id(
        post.tasks,
        #[trigger] post.subtasks[i].task_id,
    ) by {
        if i < pre.subtasks.len() {
            assert(has_task_with_id(pre.tasks, pre.subtasks[i].task_id));
        }
    }
}

/// The store transition made by renaming a subtask: the one subtask with
/// the given identifier under the given task keeps everything but its name;
/// nothing else moves.
pub open spec fn subtask_renamed(
    pre: StoreModel,
    post: StoreModel,
    tid: i32,
    sid: i32,
    to: Seq<char>,
) -> bool {
    &&& post.projects == pre.projects
    &&& post.tasks == pre.tasks
    &&& post.thoughts == pre.thoughts
    &&& post.next_project_id == pre.next_project_id
    &&& post.next_task_id == pre.next_task_id
    &&& post.next_subtask_id == pre.next_subtask_id
    &&& exists|i: int|
        #![auto]
        0 <= i < pre.subtasks.len() && pre.subtasks[i].id == sid && pre.subtasks[i].task_id == tid
            && post.subtasks[i].id == sid && post.subtasks[i].task_id == tid && post.subtasks[
            i
        ].name@ == to && post.subtasks[i].completed == pre.subtasks[i].completed && post.subtasks[
            i
        ].created_on == pre.subtasks[i].created_on && post.subtasks == pre.subtasks.update(
            i,
            post.subtasks[i],
        )
}

/// The store transition made by marking a subtask complete or incomplete:
/// the one subtask with the given identifier under the given task changes
/// only its completion state; nothing else moves.
pub open spec fn subtask_status_set(
    pre: StoreModel,
    post: StoreModel,
    tid: i32,
    sid: i32,
    done: bool,
) -> bool {
    &&& post.projects == pre.projects
    &&& post.tasks == pre.tasks
    &&& post.thoughts == pre.thoughts
    &&& post.next_project_id == pre.next_project_id
    &&& post.next_task_id == pre.next_task_id
    &&& post.next_subtask_id == pre.next_subtask_id
    &&& exists|i: int|
        #![auto]
        0 <= i < pre.subtasks.len() && pre.subtasks[i].id == sid && pre.subtasks[i].task_id == tid
            && post.subtasks[i].id == sid && post.subtasks[i].task_id == tid && post.subtasks[
            i
        ].name == pre.subtasks[i].name && post.subtasks[i].completed == done && post.subtasks[
            i
        ].created_on == pre.subtasks[i].created_on && post.subtasks == pre.subtasks.update(
            i,
            post.subtasks[i],
        )
}

/// The store transition made by deleting one subtask: a direct delete with
/// no cascade; nothing else moves.
pub open spec fn subtask_deleted(pre: StoreModel, post: StoreModel, tid: i32, sid: i32) -> bool {
    &&& exists|i: int|
        0 <= i < pre.subtasks.len() && #[trigger] pre.subtasks[i].id == sid && pre.subtasks[
            i
        ].task_id == tid
    &&& post.subtasks == pre.subtasks.filter(|st: SubTask| st.id != sid)
    &&& post.projects == pre.projects
    &&& post.tasks == pre.tasks
    &&& post.thoughts == pre.thoughts
    &&& post.next_project_id == pre.next_project_id
    &&& post.next_task_id == pre.next_task_id
    &&& post.next_subtask_id == pre.next_subtask_id
}

/// A point update of one subtask that keeps its identifier and owning task,
/// and either keeps its name or moves to a name unused within that task,
/// preserves the store invariant.
proof fn lemma_wf_subtask_updated(pre: StoreModel, post: StoreModel, i: int)
    requires
        store_wf(pre),
        0 <= i < pre.subtasks.len(),
        post.subtasks == pre.subtasks.update(i, post.subtasks[i]),
        post.subtasks[i].id == pre.subtasks[i].id,
        post.subtasks[i].task_id == pre.subtasks[i].task_id,
        post.subtasks[i].name@ == pre.subtasks[i].name@ || !has_subtask_in_task(
            pre.subtasks,
            post.subtasks[i].name@,
            pre.subtasks[i].task_id,
        ),
        post.projects == pre.projects,
        post.tasks == pre.tasks,
        post.thoughts == pre.thoughts,
        post.next_project_id == pre.next_project_id,
        post.next_task_id == pre.next_task_id,
        post.next_subtask_id == pre.next_subtask_id,
    ensures
        store_wf(post),
{
    assert(forall|j: int|
        0 <= j < post.subtasks.len() && j != i ==> post.subtasks[j] == pre.subtasks[j]);
    assert forall|a: int, b: int|
        0 <= a < b < post.subtasks.len() && post.subtasks[a].task_id == post.subtasks[b].task_id
        implies #[trigger] post.subtasks[a].name@ != #[trigger] post.subtasks[b].name@ by {
        if a != i && b != i {
            assert(pre.subtasks[a].name@ != pre.subtasks[b].name@);
        } else {
            let o = if a == i {
                b
            } else {
                a
            };
            if post.subtasks[i].name@ == pre.subtasks[i].name@ {
                assert(pre.subtasks[o].name@ != pre.subtasks[i].name@);
            } else {
                assert(pre.subtasks[o].name@ != post.subtasks[i].name@);
            }
        }
    }
    assert forall|a: int|
        0 <= a < post.tasks.len() implies has_project_with_id(
        post.projects,
        #[trigger] post.tasks[a].project_id,
    ) by {
        assert(has_project_with_id(pre.projects, pre.tasks[a].project_id));
    }
    assert forall|a: int|
        0 <= a < post.subtasks.len() implies has_task_with_id(
        post.tasks,
        #[trigger] post.subtasks[a].task_id,
    ) by {
        if a == i {
            assert(has_task_with_id(pre.tasks, pre.subtasks[i].task_id));
        } else {
            assert(has_task_with_id(pre.tasks, pre.subtasks[a].task_id));
        }
    }
}

/// A direct subtask delete preserves the store invariant.
proof fn lemma_wf_subtask_deleted(pre: StoreModel, post: StoreModel, tid: i32, sid: i32)
    requires
        store_wf(pre),
        subtask_deleted(pre, post, tid, sid),
    ensures
        store_wf(post),
{
    let spred = |st: SubTask| st.id != sid;
    assert forall|a: int|
        0 <= a < post.subtasks.len() implies 1 <= #[trigger] post.subtasks[a].id
        < post.next_subtask_id by {
        lemma_filter_element_from(pre.subtasks, spred, a);
    }
    assert forall|a: int, b: int|
        0 <= a < b < post.subtasks.len() implies #[trigger] post.subtasks[a].id
        != #[trigger] post.subtasks[b].id by {
        lemma_filter_pair_from(pre.subtasks, spred, a, b);
    }
    assert forall|a: int, b: int|
        0 <= a < b < post.subtasks.len() && post.subtasks[a].task_id == post.subtasks[b].task_id
        implies #[trigger] post.subtasks[a].name@ != #[trigger] post.subtasks[b].name@ by {
        lemma_filter_pair_from(pre.subtasks, spred, a, b);
    }
    assert forall|a: int|
        0 <= a < post.tasks.len() implies has_project_with_id(
        post.projects,
        #[trigger] post.tasks[a].project_id,
    ) by {
        assert(has_project_with_id(pre.projects, pre.tasks[a].project_id));
    }
    assert forall|a: int|
        0 <= a < post.subtasks.len() implies has_task_with_id(
        post.tasks,
        #[trigger] post.subtasks[a].task_id,
    ) by {
        lemma_filter_element_from(pre.subtasks, spred, a);
        let k = choose|k: int|
            0 <= k < pre.subtasks.len() && #[trigger] pre.subtasks[k] == post.subtasks[a];
        assert(has_task_with_id(pre.tasks, pre.subtasks[k].task_id));
    }
}

/// Project rows as they may come from an untrusted copy of the store:
/// identifiers positive and below the largest assignable value, and both
/// identifiers and names pairwise distinct.
pub open spec fn project_rows_wf(ps: Seq<Project>) -> bool {
    &&& forall|i: int| 0 <= i < ps.len() ==> 1 <= #[trigger] ps[i].id < i32::MAX
    &&& forall|i: int, j: int|
        0 <= i < j < ps.len() ==> #[trigger] ps[i].id != #[trigger] ps[j].id
    &&& forall|i: int, j: int|
        0 <= i < j < ps.len() ==> #[trigger] ps[i].name@ != #[trigger] ps[j].name@
}

/// Task rows as they may come from an untrusted copy of the store:
/// identifier bounds and uniqueness, name uniqueness within each project,
/// and an existing owning project for every row.
pub open spec fn task_rows_wf(ps: Seq<Project>, ts: Seq<Task>) -> bool {
    &&& forall|i: int| 0 <= i < ts.len() ==> 1 <= #[trigger] ts[i].id < i32::MAX
    &&& forall|i: int, j: int|
        0 <= i < j < ts.len() ==> #[trigger] ts[i].id != #[trigger] ts[j].id
    &&& forall|i: int, j: int|
        0 <= i < j < ts.len() && ts[i].project_id == ts[j].project_id ==> #[trigger] ts[i].name@
            != #[trigger] ts[j].name@
    &&& forall|i: int|
        0 <= i < ts.len() ==> has_project_with_id(ps, #[trigger] ts[i].project_id)
}

/// Subtask rows as they may come from an untrusted copy of the store:
/// identifier bounds and uniqueness, name uniqueness within each task, and
/// an existing owning task for every row.
pub open spec fn subtask_rows_wf(ts: Seq<Task>, sts: Seq<SubTask>) -> bool {
    &&& forall|i: int| 0 <= i < sts.len() ==> 1 <= #[trigger] sts[i].id < i32::MAX
    &&& forall|i: int, j: int|
        0 <= i < j < sts.len() ==> #[trigger] sts[i].id != #[trigger] sts[j].id
    &&& forall|i: int, j: int|
        0 <= i < j < sts.len() && sts[i].task_id == sts[j].task_id ==> #[trigger] sts[i].name@
            != #[trigger] sts[j].name@
    &&& forall|i: int| 0 <= i < sts.len() ==> has_task_with_id(ts, #[trigger] sts[i].task_id)
}

/// Law: a cascading project delete removes the project itself, every task
/// it owned and every subtask under any of those tasks, and only those rows
/// — every project, task and subtask not under the deleted project
/// survives, and the thoughts log is untouched.
pub proof fn lemma_delete_project_cascades(
    pre: StoreModel,
    post: StoreModel,
    name: Seq<char>,
    pid: i32,
)
    requires
        store_wf(pre),
        project_deleted(pre, post, name, pid),
    ensures
        !has_project_with_id(post.projects, pid),
        forall|p: Project| #[trigger]
            post.projects.contains(p) <==> pre.projects.contains(p) && p.id != pid,
        forall|t: Task| #[trigger]
            post.tasks.contains(t) <==> pre.tasks.contains(t) && t.project_id != pid,
        forall|st: SubTask| #[trigger]
            post.subtasks.contains(st) <==> pre.subtasks.contains(st) && !task_in_project_with_id(
                pre.tasks,
                pid,
                st.task_id,
            ),
        post.thoughts == pre.thoughts,
{
    let ppred = |p: Project| p.id != pid;
    let tpred = |t: Task| t.project_id != pid;
    let spred = |st: SubTask| !task_in_project_with_id(pre.tasks, pid, st.task_id);
    assert forall|i: int| 0 <= i < post.projects.len() implies #[trigger] post.projects[i].id
        != pid by {
        pre.projects.lemma_filter_pred(ppred, i);
    }
    assert forall|p: Project| #[trigger]
        post.projects.contains(p) implies pre.projects.contains(p) && p.id != pid by {
        let i = choose|i: int| 0 <= i < post.projects.len() && post.projects[i] == p;
        pre.projects.lemma_filter_pred(ppred, i);
        lemma_filter_element_from(pre.projects, ppred, i);
        let k = choose|k: int|
            0 <= k < pre.projects.len() && #[trigger] pre.projects[k] == post.projects[i];
        assert(pre.projects.contains(p));
    }
    assert forall|p: Project|
        pre.projects.contains(p) && p.id != pid implies #[trigger] post.projects.contains(p) by {
        let k = choose|k: int| 0 <= k < pre.projects.len() && pre.projects[k] == p;
        assert(ppred(pre.projects[k]));
        pre.projects.lemma_filter_contains(ppred, k);
    }
    assert forall|t: Task| #[trigger]
        post.tasks.contains(t) implies pre.tasks.contains(t) && t.project_id != pid by {
        let i = choose|i: int| 0 <= i < post.tasks.len() && post.tasks[i] == t;
        pre.tasks.lemma_filter_pred(tpred, i);
        lemma_filter_element_from(pre.tasks, tpred, i);
        let k = choose|k: int| 0 <= k < pre.tasks.len() && #[trigger] pre.tasks[k] == post.tasks[i];
        assert(pre.tasks.contains(t));
    }
    assert forall|t: Task|
        pre.tasks.contains(t) && t.project_id != pid implies #[trigger] post.tasks.contains(t) by {
        let k = choose|k: int| 0 <= k < pre.tasks.len() && pre.tasks[k] == t;
        assert(tpred(pre.tasks[k]));
        pre.tasks.lemma_filter_contains(tpred, k);
    }
    assert forall|st: SubTask| #[trigger]
        post.subtasks.contains(st) implies pre.subtasks.contains(st) && !task_in_project_with_id(
        pre.tasks,
        pid,
        st.task_id,
    ) by {
        let i = choose|i: int| 0 <= i < post.subtasks.len() && post.subtasks[i] == st;
        pre.subtasks.lemma_filter_pred(spred, i);
        lemma_filter_element_from(pre.subtasks, spred, i);
        let k = choose|k: int|
            0 <= k < pre.subtasks.len() && #[trigger] pre.subtasks[k] == post.subtasks[i];
        assert(pre.subtasks.contains(st));
    }
    assert forall|st: SubTask|
        pre.subtasks.contains(st) && !task_in_project_with_id(pre.tasks, pid, st.task_id)
        implies #[trigger] post.subtasks.contains(st) by {
        let k = choose|k: int| 0 <= k < pre.subtasks.len() && pre.subtasks[k] == st;
        assert(spred(pre.subtasks[k]));
        pre.subtasks.lemma_filter_contains(spred, k);
    }
}

/// Law: after a project is created under a name that no project carried, a
/// lookup by that name finds a project, and every project carrying that
/// name carries exactly the identifier the creation reported.
pub proof fn lemma_create_then_get_project(
    pre: StoreModel,
    post: StoreModel,
    name: Seq<char>,
    pid: i32,
)
    requires
        store_wf(pre),
        !has_project_named(pre.projects, name),
        project_created(pre, post, name, pid),
    ensures
        has_project_named(post.projects, name),
        project_id_by_name(post.projects, name) == pid,
        forall|i: int|
            0 <= i < post.projects.len() && #[trigger] post.projects[i].name@ == name
                ==> post.projects[i].id == pid,
{
    let n = pre.projects.len() as int;
    assert(post.projects[n].name@ == name && post.projects[n].id == pid);
    assert forall|i: int|
        0 <= i < post.projects.len() && #[trigger] post.projects[i].name@ == name
        implies post.projects[i].id == pid by {
        if i < n {
            assert(post.projects.drop_last()[i] == pre.projects[i]);
            assert(pre.projects[i].name@ != name);
        }
    }
    let c = choose|i: int| 0 <= i < post.projects.len() && #[trigger] post.projects[i].name@ == name;
    assert(post.projects[c].id == pid);
}

/// Decides whether some project row carries this identifier.
fn some_project_has_id(ps: &Vec<Project>, id: i32) -> (r: bool)
    ensures
        r == has_project_with_id(ps@, id),
{
    let n = ps.len();
    let mut i: usize = 0;
    while i < n
        invariant
            0 <= i <= n,
            n == ps@.len(),
            forall|j: int| 0 <= j < i ==> #[trigger] ps@[j].id != id,
        decreases n - i,
    {
        if ps[i].id == id {
            return true;
        }
        i = i + 1;
    }
    false
}

/// Decides whether some task row carries this identifier.
fn some_task_has_id(ts: &Vec<Task>, id: i32) -> (r: bool)
    ensures
        r == has_task_with_id(ts@, id),
{
    let n = ts.len();
    let mut i: usize = 0;
    while i < n
        invariant
            0 <= i <= n,
            n == ts@.len(),
            forall|j: int| 0 <= j < i ==> #[trigger] ts@[j].id != id,
        decreases n - i,
    {
        if ts[i].id == id {
            return true;
        }
        i = i + 1;
    }
    false
}

/// Decides whether untrusted project rows satisfy the store's constraints.
fn check_project_rows(ps: &Vec<Project>) -> (r: bool)
    ensures
        r == project_rows_wf(ps@),
{
    let n = ps.len();
    let mut i: usize = 0;
    while i < n
        invariant
            0 <= i <= n,
            n == ps@.len(),
            forall|a: int| 0 <= a < i ==> 1 <= #[trigger] ps@[a].id < i32::MAX,
            forall|a: int, b: int| 0 <= a < b < i ==> ps@[a].id != ps@[b].id,
            forall|a: int, b: int| 0 <= a < b < i ==> ps@[a].name@ != ps@[b].name@,
        decreases n - i,
    {
        if ps[i].id < 1 || ps[i].id == i32::MAX {
            return false;
        }
        let mut j: usize = 0;
        while j < i
            invariant
                0 <= j <= i < n,
                n == ps@.len(),
                forall|b: int|
                    0 <= b < j ==> ps@[b].id != ps@[i as int].id && ps@[b].name@ != ps@[
                        i as int
                    ].name@,
            decreases i - j,
        {
            if ps[j].id == ps[i].id || ps[j].name == ps[i].name {
                return false;
            }
            j = j + 1;
        }
        i = i + 1;
    }
    true
}

/// Decides whether untrusted task rows satisfy the store's constraints
/// against the given project rows.
fn check_task_rows(ps: &Vec<Project>, ts: &Vec<Task>) -> (r: bool)
    ensures
        r == task_rows_wf(ps@, ts@),
{
    let n = ts.len();
    let mut i: usize = 0;
    while i < n
        invariant
            0 <= i <= n,
            n == ts@.len(),
            forall|a: int| 0 <= a < i ==> 1 <= #[trigger] ts@[a].id < i32::MAX,
            forall|a: int, b: int| 0 <= a < b < i ==> ts@[a].id != ts@[b].id,
            forall|a: int, b: int|
                0 <= a < b < i && ts@[a].project_id == ts@[b].project_id ==> ts@[a].name@ != ts@[
                    b
                ].name@,
            forall|a: int| 0 <= a < i ==> has_project_with_id(ps@, #[trigger] ts@[a].project_id),
        decreases n - i,
    {
        if ts[i].id < 1 || ts[i].id == i32::MAX {
            return false;
        }
        if !some_project_has_id(ps, ts[i].project_id) {
            return false;
        }
        let mut j: usize = 0;
        while j < i
            invariant
                0 <= j <= i < n,
                n == ts@.len(),
                forall|b: int|
                    0 <= b < j ==> ts@[b].id != ts@[i as int].id && !(ts@[b].project_id == ts@[
                        i as int
                    ].project_id && ts@[b].name@ == ts@[i as int].name@),
            decreases i - j,
        {
            if ts[j].id == ts[i].id || (ts[j].project_id == ts[i].project_id && ts[j].name
                == ts[i].name) {
                return false;
            }
            j = j + 1;
        }
        i = i + 1;
    }
    true
}

/// Decides whether untrusted subtask rows satisfy the store's constraints
/// against the given task rows.
fn check_subtask_rows(ts: &Vec<Task>, sts: &Vec<SubTask>) -> (r: bool)
    ensures
        r == subtask_rows_wf(ts@, sts@),
{
    let n = sts.len();
    let mut i: usize = 0;
    while i < n
        invariant
            0 <= i <= n,
            n == sts@.len(),
            forall|a: int| 0 <= a < i ==> 1 <= #[trigger] sts@[a].id < i32::MAX,
            forall|a: int, b: int| 0 <= a < b < i ==> sts@[a].id != sts@[b].id,
            forall|a: int, b: int|
                0 <= a < b < i && sts@[a].task_id == sts@[b].task_id ==> sts@[a].name@ != sts@[
                    b
                ].name@,
            forall|a: int| 0 <= a < i ==> has_task_with_id(ts@, #[trigger] sts@[a].task_id),
        decreases n - i,
    {
        if sts[i].id < 1 || sts[i].id == i32::MAX {
            return false;
        }
        if !some_task_has_id(ts, sts[i].task_id) {
            return false;
        }
        let mut j: usize = 0;
        while j < i
            invariant
                0 <= j <= i < n,
                n == sts@.len(),
                forall|b: int|
                    0 <= b < j ==> sts@[b].id != sts@[i as int].id && !(sts@[b].task_id == sts@[
                        i as int
                    ].task_id && sts@[b].name@ == sts@[i as int].name@),
            decreases i - j,
        {
            if sts[j].id == sts[i].id || (sts[j].task_id == sts[i].task_id && sts[j].name
                == sts[i].name) {
                return false;
            }
            j = j + 1;
        }
        i = i + 1;
    }
    true
}

/// The largest project identifier among the rows, or zero when there is
/// none.
fn max_project_id(ps: &Vec<Project>) -> (r: i32)
    requires
        forall|i: int| 0 <= i < ps@.len() ==> 1 <= #[trigger] ps@[i].id,
    ensures
        r >= 0,
        forall|i: int| 0 <= i < ps@.len() ==> #[trigger] ps@[i].id <= r,
        r == 0 || exists|i: int| 0 <= i < ps@.len() && #[trigger] ps@[i].id == r,
{
    let n = ps.len();
    let mut best: i32 = 0;
    let mut i: usize = 0;
    while i < n
        invariant
            0 <= i <= n,
            n == ps@.len(),
            best >= 0,
            forall|j: int| 0 <= j < i ==> #[trigger] ps@[j].id <= best,
            best == 0 || exists|j: int| 0 <= j < i && #[trigger] ps@[j].id == best,
            forall|j: int| 0 <= j < ps@.len() ==> 1 <= #[trigger] ps@[j].id,
        decreases n - i,
    {
        if ps[i].id > best {
            best = ps[i].id;
        }
        i = i + 1;
    }
    best
}

/// The largest task identifier among the rows, or zero when there is none.
fn max_task_id(ts: &Vec<Task>) -> (r: i32)
    requires
        forall|i: int| 0 <= i < ts@.len() ==> 1 <= #[trigger] ts@[i].id,
    ensures
        r >= 0,
        forall|i: int| 0 <= i < ts@.len() ==> #[trigger] ts@[i].id <= r,
        r == 0 || exists|i: int| 0 <= i < ts@.len() && #[trigger] ts@[i].id == r,
{
    let n = ts.len();
    let mut best: i32 = 0;
    let mut i: usize = 0;
    while i < n
        invariant
            0 <= i <= n,
            n == ts@.len(),
            best >= 0,
            forall|j: int| 0 <= j < i ==> #[trigger] ts@[j].id <= best,
            best == 0 || exists|j: int| 0 <= j < i && #[trigger] ts@[j].id == best,
            forall|j: int| 0 <= j < ts@.len() ==> 1 <= #[trigger] ts@[j].id,
        decreases n - i,
    {
        if ts[i].id > best {
            best = ts[i].id;
        }
        i = i + 1;
    }
    best
}

/// The largest subtask identifier among the rows, or zero when there is
/// none.
fn max_subtask_id(sts: &Vec<SubTask>) -> (r: i32)
    requires
        forall|i: int| 0 <= i < sts@.len() ==> 1 <= #[trigger] sts@[i].id,
    ensures
        r >= 0,
        forall|i: int| 0 <= i < sts@.len() ==> #[trigger] sts@[i].id <= r,
        r == 0 || exists|i: int| 0 <= i < sts@.len() && #[trigger] sts@[i].id == r,
{
    let n = sts.len();
    let mut best: i32 = 0;
    let mut i: usize = 0;
    while i < n
        invariant
            0 <= i <= n,
            n == sts@.len(),
            best >= 0,
            forall|j: int| 0 <= j < i ==> #[trigger] sts@[j].id <= best,
            best == 0 || exists|j: int| 0 <= j < i && #[trigger] sts@[j].id == best,
            forall|j: int| 0 <= j < sts@.len() ==> 1 <= #[trigger] sts@[j].id,
        decreases n - i,
    {
        if sts[i].id > best {
            best = sts[i].id;
        }
        i = i + 1;
    }
    best
}

impl Database {
    /// The store is well formed.
    pub open spec fn wf(self) -> bool {
        store_wf(self@)
    }

    /// Opens an empty store.
    pub fn new() -> (db: Database)
        ensures
            db.wf(),
            db@.projects == Seq::<Project>::empty(),
            db@.tasks == Seq::<Task>::empty(),
            db@.subtasks == Seq::<SubTask>::empty(),
            db@.thoughts == Seq::<Thoughts>::empty(),
            db@.next_project_id == 1,
            db@.next_task_id == 1,
            db@.next_subtask_id == 1,
    {
        Database {
            projects: Vec::new(),
            tasks: Vec::new(),
            subtasks: Vec::new(),
            thoughts: Vec::new(),
            next_project_id: 1,
            next_task_id: 1,
            next_subtask_id: 1,
        }
    }

    /// Opens a store over rows read back from a persisted copy. The rows
    /// are untrusted: they are accepted exactly when they satisfy every
    /// constraint the store enforces — identifier bounds and uniqueness,
    /// name uniqueness within each scope, and an existing owner for every
    /// task and subtask — and refused as corrupt otherwise. Each table's
    /// next identifier resumes above the largest identifier present.
    pub fn from_rows(
        projects: Vec<Project>,
        tasks: Vec<Task>,
        subtasks: Vec<SubTask>,
        thoughts: Vec<Thoughts>,
    ) -> (r: Result<Database, DatabaseError>)
        ensures
            match r {
                Ok(db) => {
                    &&& db.wf()
                    &&& db@.projects == projects@
                    &&& db@.tasks == tasks@
                    &&& db@.subtasks == subtasks@
                    &&& db@.thoughts == thoughts@
                },
                Err(e) => {
                    &&& e is Unknown
                    &&& !(project_rows_wf(projects@) && task_rows_wf(projects@, tasks@)
                        && subtask_rows_wf(tasks@, subtasks@))
                },
            },
    {
        if !check_project_rows(&projects) || !check_task_rows(&projects, &tasks)
            || !check_subtask_rows(&tasks, &subtasks) {
            return Err(
                DatabaseError::Unknown(
                    String::from_str("persisted rows violate the store's constraints"),
                ),
            );
        }
        let next_project_id = max_project_id(&projects) + 1;
        let next_task_id = max_task_id(&tasks) + 1;
        let next_subtask_id = max_subtask_id(&subtasks) + 1;
        let db = Database {
            projects,
            tasks,
            subtasks,
            thoughts,
            next_project_id,
            next_task_id,
            next_subtask_id,
        };
        Ok(db)
    }

    /// Whether every table can still assign a fresh identifier. Creation
    /// requires this; a caller outside the verified library tests it before
    /// creating.
    pub fn has_capacity(&self) -> (r: bool)
        ensures
            r == (self@.next_project_id < i32::MAX && self@.next_task_id < i32::MAX
                && self@.next_subtask_id < i32::MAX),
    {
        self.next_project_id < i32::MAX && self.next_task_id < i32::MAX && self.next_subtask_id
            < i32::MAX
    }

    /// The project rows, in store order.
    pub fn project_rows(&self) -> (r: &Vec<Project>)
        ensures
            r@ == self@.projects,
    {
        &self.projects
    }

    /// The task rows, in store order.
    pub fn task_rows(&self) -> (r: &Vec<Task>)
        ensures
            r@ == self@.tasks,
    {
        &self.tasks
    }

    /// The subtask rows, in store order.
    pub fn subtask_rows(&self) -> (r: &Vec<SubTask>)
        ensures
            r@ == self@.subtasks,
    {
        &self.subtasks
    }

    /// The thought rows, in store order.
    pub fn thought_rows(&self) -> (r: &Vec<Thoughts>)
        ensures
            r@ == self@.thoughts,
    {
        &self.thoughts
    }

    /// The index of the project carrying this name, if any.
    fn find_project_index_by_name(&self, name: &String) -> (r: Option<usize>)
        ensures
            match r {
                Some(i) => i < self@.projects.len() && self@.projects[i as int].name@ == name@,
                None => !has_project_named(self@.projects, name@),
            },
    {
        let n = self.projects.len();
        let mut i: usize = 0;
        while i < n
            invariant
                0 <= i <= n,
                n == self@.projects.len(),
                forall|j: int| 0 <= j < i ==> #[trigger] self@.projects[j].name@ != name@,
            decreases n - i,
        {
            if self.projects[i].name == *name {
                return Some(i);
            }
            i = i + 1;
        }
        None
    }

    /// The index of the project carrying this identifier, if any.
    fn find_project_index_by_id(&self, id: i32) -> (r: Option<usize>)
        ensures
            match r {
                Some(i) => i < self@.projects.len() && self@.projects[i as int].id == id,
                None => !has_project_with_id(self@.projects, id),
            },
    {
        let n = self.projects.len();
        let mut i: usize = 0;
        while i < n
            invariant
                0 <= i <= n,
                n == self@.projects.len(),
                forall|j: int| 0 <= j < i ==> #[trigger] self@.projects[j].id != id,
            decreases n - i,
        {
            if self.projects[i].id == id {
                return Some(i);
            }
            i = i + 1;
        }
        None
    }

    /// Creates a project: within one atomic step, checks that no project
    /// carries the requested name, inserts the row, and reports the
    /// identifier the store assigned to it.
    pub fn create_project(&mut self, new_project: NewProject) -> (r: Result<i32, DatabaseError>)
        requires
            old(self).wf(),
            old(self)@.next_project_id < i32::MAX,
        ensures
            final(self).wf(),
            match r {
                Ok(pid) => {
                    &&& !has_project_named(old(self)@.projects, new_project.name@)
                    &&& project_created(old(self)@, final(self)@, new_project.name@, pid)
                },
                Err(e) => {
                    &&& e is AlreadyExists
                    &&& has_project_named(old(self)@.projects, new_project.name@)
                    &&& final(self)@ == old(self)@
                },
            },
    {
        match self.find_project_index_by_name(&new_project.name) {
            Some(_) => Err(
                DatabaseError::AlreadyExists(
                    String::from_str("Project with name '").concat(
                        new_project.name.as_str(),
                    ).concat("' already exists"),
                ),
            ),
            None => {
                let pid = self.next_project_id;
                let created_on = clock::now_timestamp();
                self.projects.push(Project { id: pid, name: new_project.name, created_on });
                self.next_project_id = self.next_project_id + 1;
                proof {
                    assert(self@.projects.drop_last() =~= old(self)@.projects);
                    lemma_wf_project_created(old(self)@, self@, new_project.name@, pid);
                }
                Ok(pid)
            },
        }
    }

    /// The lowest index of a task carrying this name, in any project.
    fn find_first_task_index_named(&self, name: &String) -> (r: Option<usize>)
        ensures
            match r {
                Some(i) => is_first_task_named(self@.tasks, name@, i as int),
                None => !has_task_named(self@.tasks, name@),
            },
    {
        let n = self.tasks.len();
        let mut i: usize = 0;
        while i < n
            invariant
                0 <= i <= n,
                n == self@.tasks.len(),
                forall|j: int| 0 <= j < i ==> #[trigger] self@.tasks[j].name@ != name@,
            decreases n - i,
        {
            if self.tasks[i].name == *name {
                return Some(i);
            }
            i = i + 1;
        }
        None
    }

    /// The index of the task carrying this identifier, if any.
    fn find_task_index_by_id(&self, id: i32) -> (r: Option<usize>)
        ensures
            match r {
                Some(i) => i < self@.tasks.len() && self@.tasks[i as int].id == id,
                None => !has_task_with_id(self@.tasks, id),
            },
    {
        let n = self.tasks.len();
        let mut i: usize = 0;
        while i < n
            invariant
                0 <= i <= n,
                n == self@.tasks.len(),
                forall|j: int| 0 <= j < i ==> #[trigger] self@.tasks[j].id != id,
            decreases n - i,
        {
            if self.tasks[i].id == id {
                return Some(i);
            }
            i = i + 1;
        }
        None
    }

    /// The index of the task carrying this name within the given project,
    /// if any.
    fn find_task_index_by_name_and_project(&self, name: &String, pid: i32) -> (r: Option<usize>)
        ensures
            match r {
                Some(i) => {
                    &&& i < self@.tasks.len()
                    &&& self@.tasks[i as int].name@ == name@
                    &&& self@.tasks[i as int].project_id == pid
                },
                None => !has_task_in_project(self@.tasks, name@, pid),
            },
    {
        let n = self.tasks.len();
        let mut i: usize = 0;
        while i < n
            invariant
                0 <= i <= n,
                n == self@.tasks.len(),
                forall|j: int|
                    0 <= j < i ==> !(#[trigger] self@.tasks[j].name@ == name@ && self@.tasks[
                        j
                    ].project_id == pid),
            decreases n - i,
        {
            if self.tasks[i].project_id == pid && self.tasks[i].name == *name {
                return Some(i);
            }
            i = i + 1;
        }
        None
    }

    /// Reads the single project carrying this identifier.
    pub fn get_project_by_id(&self, project_id: i32) -> (r: Result<Project, DatabaseError>)
        ensures
            match r {
                Ok(p) => self@.projects.contains(p) && p.id == project_id,
                Err(e) => e is NotFound && !has_project_with_id(self@.projects, project_id),
            },
    {
        match self.find_project_index_by_id(project_id) {
            Some(i) => {
                let p = self.projects[i].clone();
                proof {
                    assert(self@.projects[i as int] == p);
                }
                Ok(p)
            },
            None => Err(
                DatabaseError::NotFound(
                    String::from_str("Project with id ").concat(
                        project_id.to_string().as_str(),
                    ).concat(" not found"),
                ),
            ),
        }
    }

    /// Reads the single project carrying this name.
    pub fn get_project_by_name(&self, project_name: String) -> (r: Result<Project, DatabaseError>)
        requires
            self.wf(),
        ensures
            match r {
                Ok(p) => {
                    &&& has_project_named(self@.projects, project_name@)
                    &&& self@.projects.contains(p)
                    &&& p.name@ == project_name@
                    &&& p.id == project_id_by_name(self@.projects, project_name@)
                },
                Err(e) => e is NotFound && !has_project_named(self@.projects, project_name@),
            },
    {
        match self.find_project_index_by_name(&project_name) {
            Some(i) => {
                let p = self.projects[i].clone();
                proof {
                    assert(self@.projects[i as int] == p);
                    let c = choose|k: int|
                        0 <= k < self@.projects.len() && #[trigger] self@.projects[k].name@
                            == project_name@;
                    assert(self@.projects[c].name@ == project_name@);
                    assert(c == i as int);
                }
                Ok(p)
            },
            None => Err(
                DatabaseError::NotFound(
                    String::from_str("Project '").concat(project_name.as_str()).concat(
                        "' not found",
                    ),
                ),
            ),
        }
    }

    /// Creates a task: checks that its project exists, then, within one
    /// atomic step, checks that the project holds no task of the same name,
    /// inserts the row, and reports the identifier the store assigned.
    pub fn add_new_task(&mut self, new_task: NewTask) -> (r: Result<i32, DatabaseError>)
        requires
            old(self).wf(),
            old(self)@.next_task_id < i32::MAX,
        ensures
            final(self).wf(),
            match r {
                Ok(tid) => {
                    &&& has_project_with_id(old(self)@.projects, new_task.project_id)
                    &&& !has_task_in_project(old(self)@.tasks, new_task.name@, new_task.project_id)
                    &&& task_created(
                        old(self)@,
                        final(self)@,
                        new_task.project_id,
                        new_task.name@,
                        new_task.completed,
                        tid,
                    )
                },
                Err(e) => {
                    &&& final(self)@ == old(self)@
                    &&& (e is NotFound <==> !has_project_with_id(
                        old(self)@.projects,
                        new_task.project_id,
                    ))
                    &&& (e is AlreadyExists <==> has_project_with_id(
                        old(self)@.projects,
                        new_task.project_id,
                    ) && has_task_in_project(
                        old(self)@.tasks,
                        new_task.name@,
                        new_task.project_id,
                    ))
                    &&& (e is NotFound || e is AlreadyExists)
                },
            },
    {
        if self.find_project_index_by_id(new_task.project_id).is_none() {
            return Err(
                DatabaseError::NotFound(
                    String::from_str("Project with id ").concat(
                        new_task.project_id.to_string().as_str(),
                    ).concat(" not found"),
                ),
            );
        }
        match self.find_task_index_by_name_and_project(&new_task.name, new_task.project_id) {
            Some(_) => Err(
                DatabaseError::AlreadyExists(
                    String::from_str("Task with name '").concat(new_task.name.as_str()).concat(
                        "' already exists",
                    ),
                ),
            ),
            None => {
                let tid = self.next_task_id;
                let created_on = clock::now_timestamp();
                self.tasks.push(
                    Task {
                        id: tid,
                        project_id: new_task.project_id,
                        name: new_task.name,
                        completed: new_task.completed,
                        created_on,
                    },
                );
                self.next_task_id = self.next_task_id + 1;
                proof {
                    assert(self@.tasks.drop_last() =~= old(self)@.tasks);
                    lemma_wf_task_created(
                        old(self)@,
                        self@,
                        new_task.project_id,
                        new_task.name@,
                        new_task.completed,
                        tid,
                    );
                }
                Ok(tid)
            },
        }
    }

    /// Reads the first task carrying this name, in store order, across all
    /// projects.
    pub fn get_tasks_by_name(&self, req_task_name: String) -> (r: Result<Task, DatabaseError>)
        ensures
            match r {
                Ok(t) => exists|i: int|
                    #[trigger] is_first_task_named(self@.tasks, req_task_name@, i) && self@.tasks[i]
                        == t,
                Err(e) => e is NotFound && !has_task_named(self@.tasks, req_task_name@),
            },
    {
        match self.find_first_task_index_named(&req_task_name) {
            Some(i) => {
                let t = self.tasks[i].clone();
                proof {
                    assert(is_first_task_named(self@.tasks, req_task_name@, i as int));
                }
                Ok(t)
            },
            None => Err(
                DatabaseError::NotFound(
                    String::from_str("Task '").concat(req_task_name.as_str()).concat("' not found"),
                ),
            ),
        }
    }

    /// Reads the single task carrying this identifier.
    pub fn get_tasks_by_id(&self, req_task_id: i32) -> (r: Result<Task, DatabaseError>)
        ensures
            match r {
                Ok(t) => self@.tasks.contains(t) && t.id == req_task_id,
                Err(e) => e is NotFound && !has_task_with_id(self@.tasks, req_task_id),
            },
    {
        match self.find_task_index_by_id(req_task_id) {
            Some(i) => {
                let t = self.tasks[i].clone();
                proof {
                    assert(self@.tasks[i as int] == t);
                }
                Ok(t)
            },
            None => Err(
                DatabaseError::NotFound(
                    String::from_str("Task with id ").concat(
                        req_task_id.to_string().as_str(),
                    ).concat(" not found"),
                ),
            ),
        }
    }

    /// Reads the single task carrying this name within the given project.
    pub fn get_task_by_name_and_project_id(
        &self,
        task_name: String,
        project_id: i32,
    ) -> (r: Result<Task, DatabaseError>)
        requires
            self.wf(),
        ensures
            match r {
                Ok(t) => {
                    &&& has_task_in_project(self@.tasks, task_name@, project_id)
                    &&& self@.tasks.contains(t)
                    &&& t.name@ == task_name@
                    &&& t.project_id == project_id
                    &&& t.id == task_id_by_name_in_project(self@.tasks, task_name@, project_id)
                },
                Err(e) => e is NotFound && !has_task_in_project(
                    self@.tasks,
                    task_name@,
                    project_id,
                ),
            },
    {
        match self.find_task_index_by_name_and_project(&task_name, project_id) {
            Some(i) => {
                let t = self.tasks[i].clone();
                proof {
                    assert(self@.tasks[i as int] == t);
                    let c = choose|k: int|
                        0 <= k < self@.tasks.len() && #[trigger] self@.tasks[k].name@ == task_name@
                            && self@.tasks[k].project_id == project_id;
                    assert(self@.tasks[c].name@ == task_name@);
                    assert(c == i as int);
                }
                Ok(t)
            },
            None => Err(
                DatabaseError::NotFound(
                    String::from_str("Task ").concat(task_name.as_str()).concat(
                        " not found in this project",
                    ),
                ),
            ),
        }
    }

    /// Reads every task belonging to the given project, in store order.
    pub fn get_all_tasks(&self, req_project_id: i32) -> (r: Result<Vec<Task>, DatabaseError>)
        ensures
            match r {
                Ok(v) => v@ == self@.tasks.filter(
                    |t: Task| t.project_id == req_project_id,
                ),
                Err(_) => false,
            },
    {
        let mut out: Vec<Task> = Vec::new();
        let n = self.tasks.len();
        let mut i: usize = 0;
        proof {
            reveal(Seq::filter);
            assert(self@.tasks.subrange(0, 0) =~= Seq::<Task>::empty());
        }
        while i < n
            invariant
                0 <= i <= n,
                n == self@.tasks.len(),
                out@ == self@.tasks.subrange(0, i as int).filter(
                    |t: Task| t.project_id == req_project_id,
                ),
            decreases n - i,
        {
            proof {
                reveal(Seq::filter);
                assert(self@.tasks.subrange(0, i as int + 1).drop_last() =~= self@.tasks.subrange(
                    0,
                    i as int,
                ));
                assert(self@.tasks.subrange(0, i as int + 1).last() == self@.tasks[i as int]);
            }
            if self.tasks[i].project_id == req_project_id {
                out.push(self.tasks[i].clone());
            }
            i = i + 1;
        }
        proof {
            assert(self@.tasks.subrange(0, n as int) =~= self@.tasks);
        }
        Ok(out)
    }

    /// Whether the task carrying this identifier belongs to the given
    /// project.
    fn task_in_project_check(&self, pid: i32, tid: i32) -> (r: bool)
        ensures
            r == task_in_project_with_id(self@.tasks, pid, tid),
    {
        let n = self.tasks.len();
        let mut i: usize = 0;
        while i < n
            invariant
                0 <= i <= n,
                n == self@.tasks.len(),
                forall|j: int|
                    0 <= j < i ==> !(#[trigger] self@.tasks[j].id == tid && self@.tasks[
                        j
                    ].project_id == pid),
            decreases n - i,
        {
            if self.tasks[i].id == tid && self.tasks[i].project_id == pid {
                return true;
            }
            i = i + 1;
        }
        false
    }

    /// Renames a project: within one atomic step, locates the project by its
    /// current name, checks that no project carries the new name, applies
    /// the rename, and reports the identifier of the renamed project.
    pub fn update_project(
        &mut self,
        project_name: String,
        updated_project_name: String,
    ) -> (r: Result<i32, DatabaseError>)
        requires
            old(self).wf(),
        ensures
            final(self).wf(),
            match r {
                Ok(pid) => {
                    &&& has_project_named(old(self)@.projects, project_name@)
                    &&& !has_project_named(old(self)@.projects, updated_project_name@)
                    &&& pid == project_id_by_name(old(self)@.projects, project_name@)
                    &&& project_renamed(
                        old(self)@,
                        final(self)@,
                        project_name@,
                        updated_project_name@,
                        pid,
                    )
                },
                Err(e) => {
                    &&& final(self)@ == old(self)@
                    &&& (e is NotFound <==> !has_project_named(
                        old(self)@.projects,
                        project_name@,
                    ))
                    &&& (e is AlreadyExists <==> has_project_named(
                        old(self)@.projects,
                        project_name@,
                    ) && has_project_named(old(self)@.projects, updated_project_name@))
                    &&& (e is NotFound || e is AlreadyExists)
                },
            },
    {
        let i = match self.find_project_index_by_name(&project_name) {
            None => {
                return Err(
                    DatabaseError::NotFound(
                        String::from_str("Project '").concat(project_name.as_str()).concat(
                            "' not found",
                        ),
                    ),
                );
            },
            Some(i) => i,
        };
        if self.find_project_index_by_name(&updated_project_name).is_some() {
            return Err(
                DatabaseError::AlreadyExists(
                    String::from_str("Project with name '").concat(
                        updated_project_name.as_str(),
                    ).concat("' already exists"),
                ),
            );
        }
        let pid = self.projects[i].id;
        let created_on = self.projects[i].created_on;
        self.projects.remove(i);
        self.projects.insert(i, Project { id: pid, name: updated_project_name, created_on });
        proof {
            let pre = old(self)@;
            lemma_remove_insert_is_update(pre.projects, i as int, self@.projects[i as int]);
            let c = choose|k: int|
                0 <= k < pre.projects.len() && #[trigger] pre.projects[k].name@ == project_name@;
            assert(pre.projects[c].name@ == project_name@);
            assert(c == i as int);
            lemma_wf_project_renamed(
                pre,
                self@,
                project_name@,
                updated_project_name@,
                pid,
            );
        }
        Ok(pid)
    }

    /// Deletes a project and, within the same atomic step, every task it
    /// owns and every subtask under those tasks — children before parents,
    /// so no orphaned row is ever visible. Reports the identifier of the
    /// deleted project.
    pub fn delete_project(&mut self, project_name: String) -> (r: Result<i32, DatabaseError>)
        requires
            old(self).wf(),
        ensures
            final(self).wf(),
            match r {
                Ok(pid) => {
                    &&& has_project_named(old(self)@.projects, project_name@)
                    &&& pid == project_id_by_name(old(self)@.projects, project_name@)
                    &&& project_deleted(old(self)@, final(self)@, project_name@, pid)
                },
                Err(e) => {
                    &&& final(self)@ == old(self)@
                    &&& e is NotFound
                    &&& !has_project_named(old(self)@.projects, project_name@)
                },
            },
    {
        let i = match self.find_project_index_by_name(&project_name) {
            None => {
                return Err(
                    DatabaseError::NotFound(
                        String::from_str("Project '").concat(project_name.as_str()).concat(
                            "' not found",
                        ),
                    ),
                );
            },
            Some(i) => i,
        };
        let pid = self.projects[i].id;
        proof {
            let pre = old(self)@;
            let c = choose|k: int|
                0 <= k < pre.projects.len() && #[trigger] pre.projects[k].name@ == project_name@;
            assert(pre.projects[c].name@ == project_name@);
            assert(c == i as int);
        }
        // subtasks under the project's tasks go first
        let mut kept_subtasks: Vec<SubTask> = Vec::new();
        let sn = self.subtasks.len();
        let mut k: usize = 0;
        proof {
            reveal(Seq::filter);
            assert(self@.subtasks.subrange(0, 0) =~= Seq::<SubTask>::empty());
        }
        while k < sn
            invariant
                0 <= k <= sn,
                self == old(self),
                sn == self@.subtasks.len(),
                kept_subtasks@ == self@.subtasks.subrange(0, k as int).filter(
                    |st: SubTask| !task_in_project_with_id(old(self)@.tasks, pid, st.task_id),
                ),
            decreases sn - k,
        {
            proof {
                reveal(Seq::filter);
                assert(self@.subtasks.subrange(0, k as int + 1).drop_last()
                    =~= self@.subtasks.subrange(0, k as int));
                assert(self@.subtasks.subrange(0, k as int + 1).last() == self@.subtasks[k as int]);
            }
            let owned = self.task_in_project_check(pid, self.subtasks[k].task_id);
            if !owned {
                kept_subtasks.push(self.subtasks[k].clone());
            }
            k = k + 1;
        }
        proof {
            assert(self@.subtasks.subrange(0, sn as int) =~= self@.subtasks);
        }
        // then the project's tasks
        let mut kept_tasks: Vec<Task> = Vec::new();
        let tn = self.tasks.len();
        let mut t: usize = 0;
        proof {
            reveal(Seq::filter);
            assert(self@.tasks.subrange(0, 0) =~= Seq::<Task>::empty());
        }
        while t < tn
            invariant
                0 <= t <= tn,
                self == old(self),
                tn == self@.tasks.len(),
                kept_tasks@ == self@.tasks.subrange(0, t as int).filter(
                    |x: Task| x.project_id != pid,
                ),
            decreases tn - t,
        {
            proof {
                reveal(Seq::filter);
                assert(self@.tasks.subrange(0, t as int + 1).drop_last() =~= self@.tasks.subrange(
                    0,
                    t as int,
                ));
                assert(self@.tasks.subrange(0, t as int + 1).last() == self@.tasks[t as int]);
            }
            if self.tasks[t].project_id != pid {
                kept_tasks.push(self.tasks[t].clone());
            }
            t = t + 1;
        }
        proof {
            assert(self@.tasks.subrange(0, tn as int) =~= self@.tasks);
        }
        // and last the project itself
        let mut kept_projects: Vec<Project> = Vec::new();
        let pn = self.projects.len();
        let mut p: usize = 0;
        proof {
            reveal(Seq::filter);
            assert(self@.projects.subrange(0, 0) =~= Seq::<Project>::empty());
        }
        while p < pn
            invariant
                0 <= p <= pn,
                self == old(self),
                pn == self@.projects.len(),
                kept_projects@ == self@.projects.subrange(0, p as int).filter(
                    |y: Project| y.id != pid,
                ),
            decreases pn - p,
        {
            proof {
                reveal(Seq::filter);
                assert(self@.projects.subrange(0, p as int + 1).drop_last()
                    =~= self@.projects.subrange(0, p as int));
                assert(self@.projects.subrange(0, p as int + 1).last() == self@.projects[p as int]);
            }
            if self.projects[p].id != pid {
                kept_projects.push(self.projects[p].clone());
            }
            p = p + 1;
        }
        proof {
            assert(self@.projects.subrange(0, pn as int) =~= self@.projects);
        }
        self.subtasks = kept_subtasks;
        self.tasks = kept_tasks;
        self.projects = kept_projects;
        proof {
            lemma_wf_project_deleted(old(self)@, self@, project_name@, pid);
        }
        Ok(pid)
    }

    /// Renames a task: within one atomic step, locates the first task
    /// carrying the current name, in store order, checks that its project
    /// holds no task of the new name, applies the rename, and reports the
    /// renamed task's identifier. Name uniqueness is scoped to the task's
    /// project: a task in a different project may carry the same name.
    pub fn update_task(
        &mut self,
        req_task_name: String,
        update_task_name: String,
    ) -> (r: Result<i32, DatabaseError>)
        requires
            old(self).wf(),
        ensures
            final(self).wf(),
            match r {
                Ok(tid) => {
                    &&& has_task_named(old(self)@.tasks, req_task_name@)
                    &&& !has_task_in_project(
                        old(self)@.tasks,
                        update_task_name@,
                        first_task_named_project(old(self)@.tasks, req_task_name@),
                    )
                    &&& task_renamed(
                        old(self)@,
                        final(self)@,
                        req_task_name@,
                        update_task_name@,
                        tid,
                    )
                },
                Err(e) => {
                    &&& final(self)@ == old(self)@
                    &&& (e is NotFound <==> !has_task_named(old(self)@.tasks, req_task_name@))
                    &&& (e is AlreadyExists <==> has_task_named(old(self)@.tasks, req_task_name@)
                        && has_task_in_project(
                        old(self)@.tasks,
                        update_task_name@,
                        first_task_named_project(old(self)@.tasks, req_task_name@),
                    ))
                    &&& (e is NotFound || e is AlreadyExists)
                },
            },
    {
        let i = match self.find_first_task_index_named(&req_task_name) {
            None => {
                return Err(
                    DatabaseError::NotFound(
                        String::from_str("Task '").concat(req_task_name.as_str()).concat(
                            "' not found",
                        ),
                    ),
                );
            },
            Some(i) => i,
        };
        proof {
            let c = choose|k: int| #[trigger] is_first_task_named(self@.tasks, req_task_name@, k);
            assert(is_first_task_named(self@.tasks, req_task_name@, i as int));
            if c < i as int {
                assert(self@.tasks[c].name@ == req_task_name@);
            }
            assert(c == i as int);
        }
        let pid_of_task = self.tasks[i].project_id;
        if self.find_task_index_by_name_and_project(&update_task_name, pid_of_task).is_some() {
            return Err(
                DatabaseError::AlreadyExists(
                    String::from_str("Task with name '").concat(
                        update_task_name.as_str(),
                    ).concat("' already exists"),
                ),
            );
        }
        let tid = self.tasks[i].id;
        let completed = self.tasks[i].completed;
        let created_on = self.tasks[i].created_on;
        self.tasks.remove(i);
        self.tasks.insert(
            i,
            Task { id: tid, project_id: pid_of_task, name: update_task_name, completed, created_on },
        );
        proof {
            let pre = old(self)@;
            lemma_remove_insert_is_update(pre.tasks, i as int, self@.tasks[i as int]);
            lemma_wf_task_updated(pre, self@, i as int);
        }
        Ok(tid)
    }

    /// Marks a task complete or incomplete: locates the first task carrying
    /// the name, in store order, sets its completion state, and reports its
    /// identifier. No collision check applies — only the name-uniqueness
    /// space is protected.
    pub fn update_task_status(
        &mut self,
        req_task_name: String,
        completed: bool,
    ) -> (r: Result<i32, DatabaseError>)
        requires
            old(self).wf(),
        ensures
            final(self).wf(),
            match r {
                Ok(tid) => {
                    &&& has_task_named(old(self)@.tasks, req_task_name@)
                    &&& task_status_set(old(self)@, final(self)@, req_task_name@, completed, tid)
                },
                Err(e) => {
                    &&& final(self)@ == old(self)@
                    &&& e is NotFound
                    &&& !has_task_named(old(self)@.tasks, req_task_name@)
                },
            },
    {
        let i = match self.find_first_task_index_named(&req_task_name) {
            None => {
                return Err(
                    DatabaseError::NotFound(
                        String::from_str("Task '").concat(req_task_name.as_str()).concat(
                            "' not found",
                        ),
                    ),
                );
            },
            Some(i) => i,
        };
        let tid = self.tasks[i].id;
        let pid_of_task = self.tasks[i].project_id;
        let name = self.tasks[i].name.clone();
        let created_on = self.tasks[i].created_on;
        self.tasks.remove(i);
        self.tasks.insert(
            i,
            Task { id: tid, project_id: pid_of_task, name, completed, created_on },
        );
        proof {
            let pre = old(self)@;
            lemma_remove_insert_is_update(pre.tasks, i as int, self@.tasks[i as int]);
            lemma_wf_task_updated(pre, self@, i as int);
        }
        Ok(tid)
    }

    /// Deletes a task and, within the same atomic step, every subtask under
    /// it — children first. The target is the first task carrying the name,
    /// in store order; its identifier is reported.
    pub fn delete_task(&mut self, req_task_name: String) -> (r: Result<i32, DatabaseError>)
        requires
            old(self).wf(),
        ensures
            final(self).wf(),
            match r {
                Ok(tid) => {
                    &&& has_task_named(old(self)@.tasks, req_task_name@)
                    &&& task_deleted(old(self)@, final(self)@, req_task_name@, tid)
                },
                Err(e) => {
                    &&& final(self)@ == old(self)@
                    &&& e is NotFound
                    &&& !has_task_named(old(self)@.tasks, req_task_name@)
                },
            },
    {
        let i = match self.find_first_task_index_named(&req_task_name) {
            None => {
                return Err(
                    DatabaseError::NotFound(
                        String::from_str("Task '").concat(req_task_name.as_str()).concat(
                            "' not found",
                        ),
                    ),
                );
            },
            Some(i) => i,
        };
        let tid = self.tasks[i].id;
        // subtasks under the task go first
        let mut kept_subtasks: Vec<SubTask> = Vec::new();
        let sn = self.subtasks.len();
        let mut k: usize = 0;
        proof {
            reveal(Seq::filter);
            assert(self@.subtasks.subrange(0, 0) =~= Seq::<SubTask>::empty());
        }
        while k < sn
            invariant
                0 <= k <= sn,
                self == old(self),
                sn == self@.subtasks.len(),
                kept_subtasks@ == self@.subtasks.subrange(0, k as int).filter(
                    |st: SubTask| st.task_id != tid,
                ),
            decreases sn - k,
        {
            proof {
                reveal(Seq::filter);
                assert(self@.subtasks.subrange(0, k as int + 1).drop_last()
                    =~= self@.subtasks.subrange(0, k as int));
                assert(self@.subtasks.subrange(0, k as int + 1).last() == self@.subtasks[k as int]);
            }
            if self.subtasks[k].task_id != tid {
                kept_subtasks.push(self.subtasks[k].clone());
            }
            k = k + 1;
        }
        proof {
            assert(self@.subtasks.subrange(0, sn as int) =~= self@.subtasks);
        }
        // then the task itself
        let mut kept_tasks: Vec<Task> = Vec::new();
        let tn = self.tasks.len();
        let mut t: usize = 0;
        proof {
            reveal(Seq::filter);
            assert(self@.tasks.subrange(0, 0) =~= Seq::<Task>::empty());
        }
        while t < tn
            invariant
                0 <= t <= tn,
                self == old(self),
                tn == self@.tasks.len(),
                kept_tasks@ == self@.tasks.subrange(0, t as int).filter(|x: Task| x.id != tid),
            decreases tn - t,
        {
            proof {
                reveal(Seq::filter);
                assert(self@.tasks.subrange(0, t as int + 1).drop_last() =~= self@.tasks.subrange(
                    0,
                    t as int,
                ));
                assert(self@.tasks.subrange(0, t as int + 1).last() == self@.tasks[t as int]);
            }
            if self.tasks[t].id != tid {
                kept_tasks.push(self.tasks[t].clone());
            }
            t = t + 1;
        }
        proof {
            assert(self@.tasks.subrange(0, tn as int) =~= self@.tasks);
        }
        self.subtasks = kept_subtasks;
        self.tasks = kept_tasks;
        proof {
            lemma_wf_task_deleted(old(self)@, self@, req_task_name@, tid);
        }
        Ok(tid)
    }

    /// The index of the subtask carrying this identifier, if any.
    fn find_subtask_index_by_id(&self, id: i32) -> (r: Option<usize>)
        ensures
            match r {
                Some(i) => i < self@.subtasks.len() && self@.subtasks[i as int].id == id,
                None => !has_subtask_with_id(self@.subtasks, id),
            },
    {
        let n = self.subtasks.len();
        let mut i: usize = 0;
        while i < n
            invariant
                0 <= i <= n,
                n == self@.subtasks.len(),
                forall|j: int| 0 <= j < i ==> #[trigger] self@.subtasks[j].id != id,
            decreases n - i,
        {
            if self.subtasks[i].id == id {
                return Some(i);
            }
            i = i + 1;
        }
        None
    }

    /// The index of the subtask carrying this identifier under the given
    /// task, if any.
    fn find_subtask_index_by_task_and_id(&self, tid: i32, sid: i32) -> (r: Option<usize>)
        ensures
            match r {
                Some(i) => {
                    &&& i < self@.subtasks.len()
                    &&& self@.subtasks[i as int].id == sid
                    &&& self@.subtasks[i as int].task_id == tid
                },
                None => !has_subtask_in_task_with_id(self@.subtasks, tid, sid),
            },
    {
        let n = self.subtasks.len();
        let mut i: usize = 0;
        while i < n
            invariant
                0 <= i <= n,
                n == self@.subtasks.len(),
                forall|j: int|
                    0 <= j < i ==> !(#[trigger] self@.subtasks[j].id == sid && self@.subtasks[
                        j
                    ].task_id == tid),
            decreases n - i,
        {
            if self.subtasks[i].id == sid && self.subtasks[i].task_id == tid {
                return Some(i);
            }
            i = i + 1;
        }
        None
    }

    /// The index of the subtask carrying this name under the given task, if
    /// any.
    fn find_subtask_index_by_name_and_task(&self, name: &String, tid: i32) -> (r: Option<usize>)
        ensures
            match r {
                Some(i) => {
                    &&& i < self@.subtasks.len()
                    &&& self@.subtasks[i as int].name@ == name@
                    &&& self@.subtasks[i as int].task_id == tid
                },
                None => !has_subtask_in_task(self@.subtasks, name@, tid),
            },
    {
        let n = self.subtasks.len();
        let mut i: usize = 0;
        while i < n
            invariant
                0 <= i <= n,
                n == self@.subtasks.len(),
                forall|j: int|
                    0 <= j < i ==> !(#[trigger] self@.subtasks[j].name@ == name@ && self@.subtasks[
                        j
                    ].task_id == tid),
            decreases n - i,
        {
            if self.subtasks[i].task_id == tid && self.subtasks[i].name == *name {
                return Some(i);
            }
            i = i + 1;
        }
        None
    }

    /// Creates a subtask: checks that its task exists, then, within one
    /// atomic step, checks that the task holds no subtask of the same name,
    /// inserts the row, and reports the identifier the store assigned.
    pub fn add_new_subtask(&mut self, new_subtask: NewSubTask) -> (r: Result<i32, DatabaseError>)
        requires
            old(self).wf(),
            old(self)@.next_subtask_id < i32::MAX,
        ensures
            final(self).wf(),
            match r {
                Ok(sid) => {
                    &&& has_task_with_id(old(self)@.tasks, new_subtask.task_id)
                    &&& !has_subtask_in_task(
                        old(self)@.subtasks,
                        new_subtask.name@,
                        new_subtask.task_id,
                    )
                    &&& subtask_created(
                        old(self)@,
                        final(self)@,
                        new_subtask.task_id,
                        new_subtask.name@,
                        new_subtask.completed,
                        sid,
                    )
                },
                Err(e) => {
                    &&& final(self)@ == old(self)@
                    &&& (e is NotFound <==> !has_task_with_id(
                        old(self)@.tasks,
                        new_subtask.task_id,
                    ))
                    &&& (e is AlreadyExists <==> has_task_with_id(
                        old(self)@.tasks,
                        new_subtask.task_id,
                    ) && has_subtask_in_task(
                        old(self)@.subtasks,
                        new_subtask.name@,
                        new_subtask.task_id,
                    ))
                    &&& (e is NotFound || e is AlreadyExists)
                },
            },
    {
        if self.find_task_index_by_id(new_subtask.task_id).is_none() {
            return Err(
                DatabaseError::NotFound(
                    String::from_str("Task with id ").concat(
                        new_subtask.task_id.to_string().as_str(),
                    ).concat(" not found"),
                ),
            );
        }
        match self.find_subtask_index_by_name_and_task(&new_subtask.name, new_subtask.task_id) {
            Some(_) => Err(
                DatabaseError::AlreadyExists(
                    String::from_str("Subtask with name '").concat(
                        new_subtask.name.as_str(),
                    ).concat("' already exists for the owning task"),
                ),
            ),
            None => {
                let sid = self.next_subtask_id;
                let created_on = clock::now_timestamp();
                self.subtasks.push(
                    SubTask {
                        id: sid,
                        task_id: new_subtask.task_id,
                        name: new_subtask.name,
                        completed: new_subtask.completed,
                        created_on,
                    },
                );
                self.next_subtask_id = self.next_subtask_id + 1;
                proof {
                    assert(self@.subtasks.drop_last() =~= old(self)@.subtasks);
                    lemma_wf_subtask_created(
                        old(self)@,
                        self@,
                        new_subtask.task_id,
                        new_subtask.name@,
                        new_subtask.completed,
                        sid,
                    );
                }
                Ok(sid)
            },
        }
    }

    /// Reads the single subtask carrying this identifier.
    pub fn get_subtask_by_id(&self, req_subtask_id: i32) -> (r: Result<SubTask, DatabaseError>)
        ensures
            match r {
                Ok(st) => self@.subtasks.contains(st) && st.id == req_subtask_id,
                Err(e) => e is NotFound && !has_subtask_with_id(self@.subtasks, req_subtask_id),
            },
    {
        match self.find_subtask_index_by_id(req_subtask_id) {
            Some(i) => {
                let st = self.subtasks[i].clone();
                proof {
                    assert(self@.subtasks[i as int] == st);
                }
                Ok(st)
            },
            None => Err(
                DatabaseError::NotFound(
                    String::from_str("Subtask ").concat(
                        req_subtask_id.to_string().as_str(),
                    ).concat(" not found"),
                ),
            ),
        }
    }

    /// Renames a subtask: within one atomic step, locates the subtask by
    /// its identifier under the given task, checks that the task holds no
    /// subtask of the new name, applies the rename, and reports the renamed
    /// subtask's identifier.
    pub fn update_subtask(
        &mut self,
        req_task_id: i32,
        req_subtask_id: i32,
        req_subtask_name: String,
    ) -> (r: Result<i32, DatabaseError>)
        requires
            old(self).wf(),
        ensures
            final(self).wf(),
            match r {
                Ok(sid) => {
                    &&& sid == req_subtask_id
                    &&& has_subtask_in_task_with_id(
                        old(self)@.subtasks,
                        req_task_id,
                        req_subtask_id,
                    )
                    &&& !has_subtask_in_task(old(self)@.subtasks, req_subtask_name@, req_task_id)
                    &&& subtask_renamed(
                        old(self)@,
                        final(self)@,
                        req_task_id,
                        req_subtask_id,
                        req_subtask_name@,
                    )
                },
                Err(e) => {
                    &&& final(self)@ == old(self)@
                    &&& (e is NotFound <==> !has_subtask_in_task_with_id(
                        old(self)@.subtasks,
                        req_task_id,
                        req_subtask_id,
                    ))
                    &&& (e is AlreadyExists <==> has_subtask_in_task_with_id(
                        old(self)@.subtasks,
                        req_task_id,
                        req_subtask_id,
                    ) && has_subtask_in_task(old(self)@.subtasks, req_subtask_name@, req_task_id))
                    &&& (e is NotFound || e is AlreadyExists)
                },
            },
    {
        let i = match self.find_subtask_index_by_task_and_id(req_task_id, req_subtask_id) {
            None => {
                return Err(
                    DatabaseError::NotFound(
                        String::from_str("Subtask ").concat(
                            req_subtask_id.to_string().as_str(),
                        ).concat(" for task ").concat(req_task_id.to_string().as_str()).concat(
                            " not found",
                        ),
                    ),
                );
            },
            Some(i) => i,
        };
        if self.find_subtask_index_by_name_and_task(&req_subtask_name, req_task_id).is_some() {
            return Err(
                DatabaseError::AlreadyExists(
                    String::from_str("Subtask with name '").concat(
                        req_subtask_name.as_str(),
                    ).concat("' already exists for the owning task"),
                ),
            );
        }
        let completed = self.subtasks[i].completed;
        let created_on = self.subtasks[i].created_on;
        self.subtasks.remove(i);
        self.subtasks.insert(
            i,
            SubTask {
                id: req_subtask_id,
                task_id: req_task_id,
                name: req_subtask_name,
                completed,
                created_on,
            },
        );
        proof {
            let pre = old(self)@;
            lemma_remove_insert_is_update(pre.subtasks, i as int, self@.subtasks[i as int]);
            lemma_wf_subtask_updated(pre, self@, i as int);
        }
        Ok(req_subtask_id)
    }

    /// Deletes one subtask, located by its identifier under the given task:
    /// a direct delete with no cascade. Reports the deleted subtask's
    /// identifier.
    pub fn delete_subtask(
        &mut self,
        req_subtask_id: i32,
        req_task_id: i32,
    ) -> (r: Result<i32, DatabaseError>)
        requires
            old(self).wf(),
        ensures
            final(self).wf(),
            match r {
                Ok(sid) => {
                    &&& sid == req_subtask_id
                    &&& has_subtask_in_task_with_id(
                        old(self)@.subtasks,
                        req_task_id,
                        req_subtask_id,
                    )
                    &&& subtask_deleted(old(self)@, final(self)@, req_task_id, req_subtask_id)
                },
                Err(e) => {
                    &&& final(self)@ == old(self)@
                    &&& e is NotFound
                    &&& !has_subtask_in_task_with_id(
                        old(self)@.subtasks,
                        req_task_id,
                        req_subtask_id,
                    )
                },
            },
    {
        if self.find_subtask_index_by_task_and_id(req_task_id, req_subtask_id).is_none() {
            return Err(
                DatabaseError::NotFound(
                    String::from_str("Subtask ").concat(
                        req_subtask_id.to_string().as_str(),
                    ).concat(" for task ").concat(req_task_id.to_string().as_str()).concat(
                        " not found",
                    ),
                ),
            );
        }
        let mut kept_subtasks: Vec<SubTask> = Vec::new();
        let sn = self.subtasks.len();
        let mut k: usize = 0;
        proof {
            reveal(Seq::filter);
            assert(self@.subtasks.subrange(0, 0) =~= Seq::<SubTask>::empty());
        }
        while k < sn
            invariant
                0 <= k <= sn,
                self == old(self),
                sn == self@.subtasks.len(),
                kept_subtasks@ == self@.subtasks.subrange(0, k as int).filter(
                    |st: SubTask| st.id != req_subtask_id,
                ),
            decreases sn - k,
        {
            proof {
                reveal(Seq::filter);
                assert(self@.subtasks.subrange(0, k as int + 1).drop_last()
                    =~= self@.subtasks.subrange(0, k as int));
                assert(self@.subtasks.subrange(0, k as int + 1).last() == self@.subtasks[k as int]);
            }
            if self.subtasks[k].id != req_subtask_id {
                kept_subtasks.push(self.subtasks[k].clone());
            }
            k = k + 1;
        }
        proof {
            assert(self@.subtasks.subrange(0, sn as int) =~= self@.subtasks);
        }
        self.subtasks = kept_subtasks;
        proof {
            lemma_wf_subtask_deleted(old(self)@, self@, req_task_id, req_subtask_id);
        }
        Ok(req_subtask_id)
    }

    /// Marks a subtask complete or incomplete, located by its identifier
    /// under the given task, and reports its identifier. No collision check
    /// applies — only the name-uniqueness space is protected.
    pub fn update_subtask_status(
        &mut self,
        completed: bool,
        req_subtask_id: i32,
        req_task_id: i32,
    ) -> (r: Result<i32, DatabaseError>)
        requires
            old(self).wf(),
        ensures
            final(self).wf(),
            match r {
                Ok(sid) => {
                    &&& sid == req_subtask_id
                    &&& has_subtask_in_task_with_id(
                        old(self)@.subtasks,
                        req_task_id,
                        req_subtask_id,
                    )
                    &&& subtask_status_set(
                        old(self)@,
                        final(self)@,
                        req_task_id,
                        req_subtask_id,
                        completed,
                    )
                },
                Err(e) => {
                    &&& final(self)@ == old(self)@
                    &&& e is NotFound
                    &&& !has_subtask_in_task_with_id(
                        old(self)@.subtasks,
                        req_task_id,
                        req_subtask_id,
                    )
                },
            },
    {
        let i = match self.find_subtask_index_by_task_and_id(req_task_id, req_subtask_id) {
            None => {
                return Err(
                    DatabaseError::NotFound(
                        String::from_str("Subtask ").concat(
                            req_subtask_id.to_string().as_str(),
                        ).concat(" for task ").concat(req_task_id.to_string().as_str()).concat(
                            " not found",
                        ),
                    ),
                );
            },
            Some(i) => i,
        };
        let name = self.subtasks[i].name.clone();
        let created_on = self.subtasks[i].created_on;
        self.subtasks.remove(i);
        self.subtasks.insert(
            i,
            SubTask { id: req_subtask_id, task_id: req_task_id, name, completed, created_on },
        );
        proof {
            let pre = old(self)@;
            lemma_remove_insert_is_update(pre.subtasks, i as int, self@.subtasks[i as int]);
            lemma_wf_subtask_updated(pre, self@, i as int);
        }
        Ok(req_subtask_id)
    }
}

} // verus!
