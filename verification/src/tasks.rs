//! The task board of agent teams: tasks with their dependencies. Creating a
//! task checks that every task it waits for exists and records the new task
//! in their `blocks` lists; completing a task lifts it from the `blocked_by`
//! list of every task it blocked.
use vstd::prelude::*;

use crate::text::{owned, str_eq};

verus! {

/// Where a task stands.
#[derive(Debug, Clone, Copy, PartialEq, Eq, Structural)]
pub enum TaskStatus {
    Pending,
    InProgress,
    Completed,
}

/// Failures of task-board operations.
#[derive(Debug, Clone, PartialEq, Eq)]
pub enum TeamError {
    /// A task named as a dependency does not exist in the team.
    BlockedTaskNotFound(String),
    /// The task to update does not exist in the team.
    TaskNotFound(String),
}

/// One task of a team. `metadata` is carried as JSON text; times are epoch
/// milliseconds.
#[derive(Debug)]
pub struct TeamTask {
    pub id: String,
    pub team_id: String,
    pub subject: String,
    pub description: Option<String>,
    pub status: TaskStatus,
    pub owner: Option<String>,
    pub blocked_by: Vec<String>,
    pub blocks: Vec<String>,
    pub metadata: Option<String>,
    pub created_at: i64,
    pub updated_at: i64,
}

/// The abstract value of a task.
pub struct TaskView {
    pub id: Seq<char>,
    pub team_id: Seq<char>,
    pub subject: Seq<char>,
    pub description: Option<Seq<char>>,
    pub status: TaskStatus,
    pub owner: Option<Seq<char>>,
    pub blocked_by: Seq<Seq<char>>,
    pub blocks: Seq<Seq<char>>,
    pub metadata: Option<Seq<char>>,
    pub created_at: i64,
    pub updated_at: i64,
}

/// The texts of a list of strings.
pub open spec fn texts(v: Seq<String>) -> Seq<Seq<char>> {
    v.map_values(|s: String| s@)
}

/// The text of an optional string.
pub open spec fn opt_text(o: Option<String>) -> Option<Seq<char>> {
    match o {
        Some(s) => Some(s@),
        None => None,
    }
}

impl View for TeamTask {
    type V = TaskView;

    open spec fn view(&self) -> TaskView {
        TaskView {
            id: self.id@,
            team_id: self.team_id@,
            subject: self.subject@,
            description: opt_text(self.description),
            status: self.status,
            owner: opt_text(self.owner),
            blocked_by: texts(self.blocked_by@),
            blocks: texts(self.blocks@),
            metadata: opt_text(self.metadata),
            created_at: self.created_at,
            updated_at: self.updated_at,
        }
    }
}

/// The optional changes of a task update; `metadata` is JSON text.
#[derive(Debug, Default)]
pub struct TaskUpdate {
    pub status: Option<TaskStatus>,
    pub description: Option<String>,
    pub owner: Option<String>,
    pub blocked_by: Option<Vec<String>>,
    pub metadata: Option<String>,
}

/// A copy of an optional string.
fn copy_opt(o: &Option<String>) -> (r: Option<String>)
    ensures
        opt_text(r) == opt_text(*o),
{
    match o {
        Some(s) => Some(owned(s.as_str())),
        None => None,
    }
}

/// A copy of a list of strings.
fn copy_list(v: &Vec<String>) -> (r: Vec<String>)
    ensures
        texts(r@) == texts(v@),
{
    let mut r: Vec<String> = Vec::new();
    let mut i: usize = 0;
    while i < v.len()
        invariant
            i <= v.len(),
            r@.len() == i,
            texts(r@) == texts(v@.take(i as int)),
        decreases v.len() - i,
    {
        let ghost before = r@;
        let c = owned(v[i].as_str());
        assert(c@ == v@[i as int]@);
        r.push(c);
        proof {
            assert(v@.take(i + 1)[i as int] == v@[i as int]);
            assert forall|j: int| 0 <= j < i + 1 implies #[trigger] texts(r@)[j] == texts(
                v@.take(i + 1),
            )[j] by {
                if j < i {
                    assert(r@[j] == before[j]);
                    assert(v@.take(i + 1)[j] == v@.take(i as int)[j]);
                    assert(texts(before)[j] == texts(v@.take(i as int))[j]);
                }
            }
            assert(texts(r@) =~= texts(v@.take(i + 1)));
        }
        i += 1;
    }
    assert(v@.take(v.len() as int) =~= v@);
    r
}

/// A copy of a task.
fn copy_task(t: &TeamTask) -> (r: TeamTask)
    ensures
        r@ == t@,
{
    TeamTask {
        id: owned(t.id.as_str()),
        team_id: owned(t.team_id.as_str()),
        subject: owned(t.subject.as_str()),
        description: copy_opt(&t.description),
        status: t.status,
        owner: copy_opt(&t.owner),
        blocked_by: copy_list(&t.blocked_by),
        blocks: copy_list(&t.blocks),
        metadata: copy_opt(&t.metadata),
        created_at: t.created_at,
        updated_at: t.updated_at,
    }
}

/// The predicate "differs from `id`".
pub open spec fn differs_from(id: Seq<char>) -> spec_fn(Seq<char>) -> bool {
    |x: Seq<char>| x != id
}

/// `list` without the entries equal to `id`.
pub open spec fn without(list: Seq<Seq<char>>, id: Seq<char>) -> Seq<Seq<char>> {
    list.filter(differs_from(id))
}

/// Removes every entry equal to `id` (`Vec::retain`).
fn remove_all(list: Vec<String>, id: &str) -> (r: Vec<String>)
    ensures
        texts(r@) == without(texts(list@), id@),
{
    let ghost all = texts(list@);
    let mut r: Vec<String> = Vec::new();
    let mut rest = list;
    let ghost n = all.len();
    proof {
        assert(all.take(0) =~= Seq::<Seq<char>>::empty());
        reveal_with_fuel(Seq::filter, 1);
        assert(texts(rest@) =~= all.skip(0));
    }
    while rest.len() > 0
        invariant
            n == all.len(),
            rest@.len() <= n,
            texts(rest@) == all.skip(n - rest@.len()),
            texts(r@) == without(all.take(n - rest@.len()), id@),
        decreases rest.len(),
    {
        let ghost k = n - rest@.len();
        let ghost rest_before = rest@;
        let x = rest.remove(0);
        proof {
            assert(texts(rest_before)[0] == all.skip(k)[0]);
            assert(x@ == all[k]);
            assert forall|j: int| 0 <= j < rest@.len() implies #[trigger] texts(rest@)[j] == all.skip(
                k + 1,
            )[j] by {
                assert(texts(rest_before)[j + 1] == all.skip(k)[j + 1]);
            }
            assert(texts(rest@) =~= all.skip(k + 1));
            assert(all.take(k + 1).drop_last() =~= all.take(k));
            assert(all.take(k + 1).last() == all[k]);
            reveal_with_fuel(Seq::filter, 1);
        }
        if !str_eq(x.as_str(), id) {
            let ghost before = r@;
            r.push(x);
            proof {
                assert forall|j: int| 0 <= j < r@.len() implies #[trigger] texts(r@)[j] == texts(
                    before,
                ).push(all[k])[j] by {
                    if j < before.len() {
                        assert(r@[j] == before[j]);
                    }
                }
                assert(texts(r@) =~= texts(before).push(all[k]));
            }
        }
    }
    assert(all.take(n as int) =~= all);
    r
}

/// The tasks of a board, in creation order, each under a distinct id; every
/// id in a `blocks` list names a task of the board.
pub struct TaskBoard {
    tasks: Vec<TeamTask>,
}

/// The abstract tasks of a board.
pub open spec fn task_views(tasks: Seq<TeamTask>) -> Seq<TaskView> {
    tasks.map_values(|t: TeamTask| t@)
}

/// Whether some task of `ts` has id `id`.
pub open spec fn has_id(ts: Seq<TaskView>, id: Seq<char>) -> bool {
    exists|i: int| 0 <= i < ts.len() && #[trigger] ts[i].id == id
}

/// Whether task `id` exists in team `team`.
pub open spec fn in_team(ts: Seq<TaskView>, team: Seq<char>, id: Seq<char>) -> bool {
    exists|i: int| 0 <= i < ts.len() && #[trigger] ts[i].id == id && ts[i].team_id == team
}

/// The board's invariant.
pub open spec fn board_wf(ts: Seq<TaskView>) -> bool {
    &&& forall|i: int, j: int| 0 <= i < j < ts.len() ==> #[trigger] ts[i].id != #[trigger] ts[j].id
    &&& forall|i: int, k: int|
        0 <= i < ts.len() && 0 <= k < ts[i].blocks.len() ==> has_id(ts, #[trigger] ts[i].blocks[k])
}

/// The first dependency in `deps` that is not a task of team `team`, if any.
pub open spec fn first_missing(ts: Seq<TaskView>, team: Seq<char>, deps: Seq<Seq<char>>) -> Option<
    Seq<char>,
>
    decreases deps.len(),
{
    if deps.len() == 0 {
        None
    } else if !in_team(ts, team, deps[0]) {
        Some(deps[0])
    } else {
        first_missing(ts, team, deps.drop_first())
    }
}

/// The number of entries of `s` equal to `x`.
pub open spec fn occurrences(s: Seq<Seq<char>>, x: Seq<char>) -> nat
    decreases s.len(),
{
    if s.len() == 0 {
        0
    } else {
        occurrences(s.drop_last(), x) + if s.last() == x {
            1nat
        } else {
            0nat
        }
    }
}

/// `t` with `id` appended to its `blocks` once per occurrence of `t`'s id in
/// `deps`.
pub open spec fn with_blocks(t: TaskView, deps: Seq<Seq<char>>, id: Seq<char>) -> TaskView {
    TaskView { blocks: t.blocks + Seq::new(occurrences(deps, t.id), |_i: int| id), ..t }
}

/// The map "record `id` for each occurrence in `deps`".
pub open spec fn add_blocks(deps: Seq<Seq<char>>, id: Seq<char>) -> spec_fn(TaskView) -> TaskView {
    |t: TaskView| with_blocks(t, deps, id)
}

/// The tasks `ts` after task `id` was recorded in the `blocks` list of each
/// task it waits for.
pub open spec fn blocks_added(ts: Seq<TaskView>, deps: Seq<Seq<char>>, id: Seq<char>) -> Seq<TaskView> {
    ts.map_values(add_blocks(deps, id))
}

/// The task a creation stores.
pub open spec fn created_task(
    id: Seq<char>,
    team: Seq<char>,
    subject: Seq<char>,
    description: Option<Seq<char>>,
    owner: Option<Seq<char>>,
    deps: Seq<Seq<char>>,
    now: i64,
) -> TaskView {
    TaskView {
        id,
        team_id: team,
        subject,
        description,
        status: TaskStatus::Pending,
        owner,
        blocked_by: deps,
        blocks: Seq::empty(),
        metadata: None,
        created_at: now,
        updated_at: now,
    }
}

/// `t` with the fields that `update` sets replaced, last updated at `now`.
pub open spec fn applied(t: TaskView, update: TaskUpdate, now: i64) -> TaskView {
    TaskView {
        status: match update.status {
            Some(s) => s,
            None => t.status,
        },
        description: match update.description {
            Some(d) => Some(d@),
            None => t.description,
        },
        owner: match update.owner {
            Some(o) => Some(o@),
            None => t.owner,
        },
        blocked_by: match update.blocked_by {
            Some(b) => texts(b@),
            None => t.blocked_by,
        },
        metadata: match update.metadata {
            Some(m) => Some(m@),
            None => t.metadata,
        },
        updated_at: now,
        ..t
    }
}

/// Task `j` of `ts` once task `i` took `update` at `now`.
pub open spec fn after_update(ts: Seq<TaskView>, i: int, update: TaskUpdate, now: i64, j: int) -> TaskView {
    if j == i {
        applied(ts[i], update, now)
    } else {
        ts[j]
    }
}

/// The tasks after `update` of task `i` at `now`: the task takes the
/// update, and when it is completed, every task it blocked loses it from its
/// `blocked_by` list.
pub open spec fn updated_tasks(ts: Seq<TaskView>, i: int, update: TaskUpdate, now: i64) -> Seq<
    TaskView,
> {
    Seq::new(
        ts.len(),
        |j: int|
            {
                let t1 = after_update(ts, i, update, now, j);
                if update.status == Some(TaskStatus::Completed) && ts[i].blocks.contains(ts[j].id) {
                    TaskView { blocked_by: without(t1.blocked_by, ts[i].id), ..t1 }
                } else {
                    t1
                }
            },
    )
}

/// The predicate "belongs to team `team`".
pub open spec fn of_team(team: Seq<char>) -> spec_fn(TaskView) -> bool {
    |t: TaskView| t.team_id == team
}

/// Creating a task records it in every task it waits for: each listed
/// dependency's `blocks` list keeps its entries and gains the new id; the
/// tasks that are not listed are left as they were.
pub proof fn law_dependencies_record_the_new_task(ts: Seq<TaskView>, deps: Seq<Seq<char>>, id: Seq<char>, k: int)
    requires
        0 <= k < ts.len(),
    ensures
        blocks_added(ts, deps, id).len() == ts.len(),
        deps.contains(ts[k].id) ==> blocks_added(ts, deps, id)[k].blocks.contains(id),
        blocks_added(ts, deps, id)[k].blocks.take(ts[k].blocks.len() as int) == ts[k].blocks,
        !deps.contains(ts[k].id) ==> blocks_added(ts, deps, id)[k] == ts[k],
{
    let t = blocks_added(ts, deps, id)[k];
    assert(t == with_blocks(ts[k], deps, id));
    assert(t.blocks.take(ts[k].blocks.len() as int) =~= ts[k].blocks);
    lemma_occurrences_contains(deps, ts[k].id);
    if deps.contains(ts[k].id) {
        assert(t.blocks[ts[k].blocks.len() as int] == id);
    } else {
        assert(t.blocks =~= ts[k].blocks);
    }
}

proof fn lemma_occurrences_contains(s: Seq<Seq<char>>, x: Seq<char>)
    ensures
        s.contains(x) <==> occurrences(s, x) > 0,
    decreases s.len(),
{
    if s.len() > 0 {
        lemma_occurrences_contains(s.drop_last(), x);
        if s.contains(x) && s.last() != x {
            let i = choose|i: int| 0 <= i < s.len() && s[i] == x;
            assert(s.drop_last()[i] == x);
        }
        if s.drop_last().contains(x) {
            let i = choose|i: int| 0 <= i < s.drop_last().len() && s.drop_last()[i] == x;
            assert(s[i] == x);
        }
        if s.last() == x {
            assert(s[s.len() - 1] == x);
        }
    }
}

/// Completing a task unblocks its dependents: each task it blocked no
/// longer waits for it and keeps its other dependencies, and every other task
/// is left as it was.
pub proof fn law_completion_unblocks_dependents(ts: Seq<TaskView>, i: int, update: TaskUpdate, now: i64)
    requires
        board_wf(ts),
        0 <= i < ts.len(),
        update.status == Some(TaskStatus::Completed),
    ensures
        updated_tasks(ts, i, update, now).len() == ts.len(),
        updated_tasks(ts, i, update, now)[i].status == TaskStatus::Completed,
        forall|j: int|
            0 <= j < ts.len() && j != i && ts[i].blocks.contains(ts[j].id) ==> {
                &&& !(#[trigger] updated_tasks(ts, i, update, now)[j]).blocked_by.contains(ts[i].id)
                &&& updated_tasks(ts, i, update, now)[j].blocked_by == without(ts[j].blocked_by, ts[i].id)
                &&& updated_tasks(ts, i, update, now)[j] == TaskView {
                    blocked_by: without(ts[j].blocked_by, ts[i].id),
                    ..ts[j]
                }
            },
        forall|j: int|
            0 <= j < ts.len() && j != i && !ts[i].blocks.contains(ts[j].id) ==> #[trigger] updated_tasks(
                ts,
                i,
                update,
                now,
            )[j] == ts[j],
{
    let u = updated_tasks(ts, i, update, now);
    assert forall|j: int| 0 <= j < ts.len() && j != i && ts[i].blocks.contains(ts[j].id) implies !(
    #[trigger] u[j]).blocked_by.contains(ts[i].id) by {
        let w = without(ts[j].blocked_by, ts[i].id);
        assert(u[j].blocked_by == w);
        if w.contains(ts[i].id) {
            let k = choose|k: int| 0 <= k < w.len() && w[k] == ts[i].id;
            ts[j].blocked_by.lemma_filter_pred(differs_from(ts[i].id), k);
        }
    }
}

/// An update that does not complete a task changes that task alone.
pub proof fn law_update_touches_only_its_task(ts: Seq<TaskView>, i: int, update: TaskUpdate, now: i64)
    requires
        board_wf(ts),
        0 <= i < ts.len(),
        update.status != Some(TaskStatus::Completed),
    ensures
        updated_tasks(ts, i, update, now).len() == ts.len(),
        updated_tasks(ts, i, update, now)[i] == applied(ts[i], update, now),
        forall|j: int| 0 <= j < ts.len() && j != i ==> #[trigger] updated_tasks(ts, i, update, now)[j] == ts[j],
{
}

/// An update sets every field it names on the task it updates: the status,
/// description, owner, dependency list and metadata it carries replace the
/// task's own, the fields it leaves out keep their values, the identity,
/// subject, `blocks` list and creation time never change, and the task was
/// last updated at `now`. (The one exception: completing a task that lists
/// itself among the tasks it blocks also drops it from its own
/// dependencies, so such a task is left out here.)
pub proof fn law_update_sets_the_fields_it_names(ts: Seq<TaskView>, i: int, update: TaskUpdate, now: i64)
    requires
        0 <= i < ts.len(),
        !(update.status == Some(TaskStatus::Completed) && ts[i].blocks.contains(ts[i].id)),
    ensures
        ({
            let t = updated_tasks(ts, i, update, now)[i];
            &&& update.status matches Some(st) ==> t.status == st
            &&& update.status is None ==> t.status == ts[i].status
            &&& update.description matches Some(d) ==> t.description == Some(d@)
            &&& update.description is None ==> t.description == ts[i].description
            &&& update.owner matches Some(o) ==> t.owner == Some(o@)
            &&& update.owner is None ==> t.owner == ts[i].owner
            &&& update.metadata matches Some(m) ==> t.metadata == Some(m@)
            &&& update.metadata is None ==> t.metadata == ts[i].metadata
            &&& update.blocked_by matches Some(b) ==> (t.blocked_by.len() == b@.len() && forall|k: int|
                0 <= k < b@.len() ==> #[trigger] t.blocked_by[k] == b@[k]@)
            &&& update.blocked_by is None ==> t.blocked_by == ts[i].blocked_by
            &&& t.id == ts[i].id
            &&& t.team_id == ts[i].team_id
            &&& t.subject == ts[i].subject
            &&& t.blocks == ts[i].blocks
            &&& t.created_at == ts[i].created_at
            &&& t.updated_at == now
        }),
{
}

/// Dropping an id twice drops it once.
proof fn lemma_without_idempotent(s: Seq<Seq<char>>, id: Seq<char>)
    ensures
        without(without(s, id), id) == without(s, id),
    decreases s.len(),
{
    reveal_with_fuel(Seq::filter, 1);
    if s.len() > 0 {
        lemma_without_idempotent(s.drop_last(), id);
        if s.last() != id {
            assert(without(s, id) == without(s.drop_last(), id).push(s.last()));
            assert(without(s, id).drop_last() =~= without(s.drop_last(), id));
        } else {
            assert(without(s, id) == without(s.drop_last(), id));
        }
    }
}

impl TaskBoard {
    /// The tasks of the board, in creation order.
    pub closed spec fn tasks_view(&self) -> Seq<TaskView> {
        task_views(self.tasks@)
    }

    /// The board's invariant holds.
    pub open spec fn wf(&self) -> bool {
        board_wf(self.tasks_view())
    }

    /// An empty board.
    pub fn new() -> (b: Self)
        ensures
            b.wf(),
            b.tasks_view().len() == 0,
    {
        let b = TaskBoard { tasks: Vec::new() };
        assert(b.tasks_view() =~= Seq::<TaskView>::empty());
        b
    }

    /// The position of the task with id `id`.
    fn position(&self, id: &str) -> (r: Option<usize>)
        ensures
            match r {
                Some(i) => i < self.tasks_view().len() && self.tasks_view()[i as int].id == id@,
                None => !has_id(self.tasks_view(), id@),
            },
    {
        let mut i: usize = 0;
        while i < self.tasks.len()
            invariant
                i <= self.tasks@.len(),
                forall|j: int| 0 <= j < i ==> #[trigger] self.tasks_view()[j].id != id@,
            decreases self.tasks.len() - i,
        {
            assert(self.tasks_view()[i as int] == self.tasks@[i as int]@);
            if str_eq(self.tasks[i].id.as_str(), id) {
                return Some(i);
            }
            i += 1;
        }
        None
    }

    /// The position of task `id` of team `team`.
    fn position_in_team(&self, team: &str, id: &str) -> (r: Option<usize>)
        requires
            self.wf(),
        ensures
            match r {
                Some(i) => i < self.tasks_view().len() && self.tasks_view()[i as int].id == id@
                    && self.tasks_view()[i as int].team_id == team@,
                None => !in_team(self.tasks_view(), team@, id@),
            },
    {
        match self.position(id) {
            Some(i) => {
                assert(self.tasks_view()[i as int] == self.tasks@[i as int]@);
                if str_eq(self.tasks[i].team_id.as_str(), team) {
                    Some(i)
                } else {
                    None
                }
            },
            None => None,
        }
    }

    /// Creates task `task_id` in team `team_id`, waiting for the tasks
    /// `blocked_by`, which must all exist in the team. The new task is
    /// pending, blocks nothing yet, and was created and updated at `now`;
    /// each task it waits for records it in its `blocks` list.
    pub fn create_task(
        &mut self,
        team_id: &str,
        subject: &str,
        description: Option<&str>,
        owner: Option<&str>,
        blocked_by: &Vec<String>,
        task_id: String,
        now: i64,
    ) -> (r: Result<TeamTask, TeamError>)
        requires
            old(self).wf(),
            !has_id(old(self).tasks_view(), task_id@),
        ensures
            final(self).wf(),
            match first_missing(old(self).tasks_view(), team_id@, texts(blocked_by@)) {
                Some(d) => r matches Err(TeamError::BlockedTaskNotFound(m)) && m@ == d
                    && final(self).tasks_view() == old(self).tasks_view(),
                None => {
                    let created = created_task(
                        task_id@,
                        team_id@,
                        subject@,
                        match description {
                            Some(d) => Some(d@),
                            None => None,
                        },
                        match owner {
                            Some(o) => Some(o@),
                            None => None,
                        },
                        texts(blocked_by@),
                        now,
                    );
                    &&& r matches Ok(t) && t@ == created
                    &&& final(self).tasks_view() == blocks_added(
                        old(self).tasks_view(),
                        texts(blocked_by@),
                        task_id@,
                    ).push(created)
                },
            },
    {
        let ghost old_view = self.tasks_view();
        let ghost deps = texts(blocked_by@);
        assert(deps.skip(0) =~= deps);
        let mut d: usize = 0;
        while d < blocked_by.len()
            invariant
                d <= blocked_by.len(),
                self.wf(),
                self.tasks_view() == old_view,
                deps == texts(blocked_by@),
                first_missing(old_view, team_id@, deps) == first_missing(
                    old_view,
                    team_id@,
                    deps.skip(d as int),
                ),
            decreases blocked_by.len() - d,
        {
            proof {
                assert(deps.skip(d as int).drop_first() =~= deps.skip(d + 1));
                assert(deps.skip(d as int)[0] == blocked_by@[d as int]@);
            }
            if self.position_in_team(team_id, blocked_by[d].as_str()).is_none() {
                return Err(TeamError::BlockedTaskNotFound(owned(blocked_by[d].as_str())));
            }
            d += 1;
        }
        assert(deps.skip(blocked_by.len() as int) =~= Seq::<Seq<char>>::empty());
        let ghost created = created_task(
            task_id@,
            team_id@,
            subject@,
            match description {
                Some(d) => Some(d@),
                None => None,
            },
            match owner {
                Some(o) => Some(o@),
                None => None,
            },
            deps,
            now,
        );
        let row = TeamTask {
            id: owned(task_id.as_str()),
            team_id: owned(team_id),
            subject: owned(subject),
            description: match description {
                Some(d) => Some(owned(d)),
                None => None,
            },
            status: TaskStatus::Pending,
            owner: match owner {
                Some(o) => Some(owned(o)),
                None => None,
            },
            blocked_by: copy_list(blocked_by),
            blocks: Vec::new(),
            metadata: None,
            created_at: now,
            updated_at: now,
        };
        assert(texts(row.blocks@) =~= Seq::<Seq<char>>::empty());
        assert(row@ == created);
        self.tasks.push(row);
        let ghost n = old_view.len();
        assert(self.tasks@.len() == n + 1);
        proof {
            assert(self.tasks_view() =~= old_view.push(created));
            assert forall|j: int| 0 <= j < n implies #[trigger] blocks_added(old_view, deps.take(0), task_id@)[j] == old_view[j] by {
                assert(occurrences(deps.take(0), old_view[j].id) == 0);
                assert(old_view[j].blocks + Seq::new(0, |_i: int| task_id@) =~= old_view[j].blocks);
            }
            assert(blocks_added(old_view, deps.take(0), task_id@) =~= old_view);
            let ts = self.tasks_view();
            assert forall|i: int, j: int| 0 <= i < j < ts.len() implies #[trigger] ts[i].id != #[trigger] ts[j].id by {
                if j == n {
                    assert(ts[i] == old_view[i]);
                    assert(old_view[i].id != task_id@);
                } else {
                    assert(ts[i] == old_view[i]);
                    assert(ts[j] == old_view[j]);
                }
            }
            assert forall|i: int, q: int|
                0 <= i < ts.len() && 0 <= q < ts[i].blocks.len() implies has_id(ts, #[trigger] ts[i].blocks[q]) by {
                if i < n {
                    let x = old_view[i].blocks[q];
                    assert(ts[i] == old_view[i]);
                    assert(has_id(old_view, x));
                    let w = choose|w: int| 0 <= w < old_view.len() && #[trigger] old_view[w].id == x;
                    assert(ts[w] == old_view[w]);
                }
            }
        }
        let mut d: usize = 0;
        while d < blocked_by.len()
            invariant
                d <= blocked_by.len(),
                n == old_view.len(),
                deps == texts(blocked_by@),
                first_missing(old_view, team_id@, deps.skip(d as int)) is None,
                self.tasks_view() == blocks_added(old_view, deps.take(d as int), task_id@).push(created),
                created.id == task_id@,
                forall|i: int, j: int| 0 <= i < j < old_view.len() ==> #[trigger] old_view[i].id != #[trigger] old_view[j].id,
                !has_id(old_view, task_id@),
                self.wf(),
            decreases blocked_by.len() - d,
        {
            let ghost before = self.tasks_view();
            proof {
                assert(deps.skip(d as int)[0] == deps[d as int]);
                assert(deps.skip(d as int).drop_first() =~= deps.skip(d + 1));
                assert(in_team(old_view, team_id@, deps[d as int]));
            }
            let k = match self.position(blocked_by[d].as_str()) {
                Some(k) => k,
                None => {
                    proof {
                        let w = choose|w: int| 0 <= w < old_view.len() && #[trigger] old_view[w].id == deps[d as int] && old_view[w].team_id == team_id@;
                        assert(before[w].id == old_view[w].id);
                    }
                    return Err(TeamError::BlockedTaskNotFound(owned(blocked_by[d].as_str())));
                },
            };
            proof {
                if k as int == n {
                    let w = choose|w: int| 0 <= w < old_view.len() && #[trigger] old_view[w].id == deps[d as int] && old_view[w].team_id == team_id@;
                    assert(before[w].id == old_view[w].id);
                }
            }
            let mut t = self.tasks.remove(k);
            let ghost tv = t@;
            t.blocks.push(owned(task_id.as_str()));
            proof {
                let add = task_id@;
                assert(texts(t.blocks@) =~= tv.blocks.push(add));
            }
            self.tasks.insert(k, t);
            proof {
                let m0 = blocks_added(old_view, deps.take(d as int), task_id@);
                let m1 = blocks_added(old_view, deps.take(d + 1), task_id@);
                let occ_old = occurrences(deps.take(d as int), old_view[k as int].id);
                assert(deps.take(d + 1).drop_last() =~= deps.take(d as int));
                assert(deps.take(d + 1).last() == deps[d as int]);
                let ts = self.tasks_view();
                assert(ts.len() == n + 1);
                assert forall|j: int| 0 <= j < n + 1 implies #[trigger] ts[j] == m1.push(created)[j] by {
                    if j == n {
                        assert(ts[j] == before[j]);
                    } else if j == k {
                        let o = old_view[j];
                        assert(before[j] == m0[j]);
                        assert(o.id == deps[d as int]);
                        assert(occurrences(deps.take(d + 1), o.id) == occ_old + 1);
                        assert(ts[j].blocks =~= o.blocks + Seq::new(occ_old + 1, |_i: int| task_id@));
                        assert(m1[j].blocks =~= o.blocks + Seq::new(occ_old + 1, |_i: int| task_id@));
                    } else {
                        assert(ts[j] == before[j]);
                        assert(before[j] == m0[j]);
                        assert(old_view[j].id != deps[d as int]);
                        assert(occurrences(deps.take(d + 1), old_view[j].id) == occurrences(deps.take(d as int), old_view[j].id));
                    }
                }
                assert(ts =~= m1.push(created));
                assert forall|i: int, j: int| 0 <= i < j < ts.len() implies #[trigger] ts[i].id != #[trigger] ts[j].id by {
                    assert(ts[i].id == before[i].id);
                    assert(ts[j].id == before[j].id);
                }
                assert forall|i: int, q: int|
                    0 <= i < ts.len() && 0 <= q < ts[i].blocks.len() implies has_id(ts, #[trigger] ts[i].blocks[q]) by {
                    if i == k && q == ts[i].blocks.len() - 1 {
                        assert(ts[n as int] == created);
                    } else {
                        let x = before[i].blocks[q];
                        assert(ts[i].blocks[q] == x);
                        assert(has_id(before, x));
                        let w = choose|w: int| 0 <= w < before.len() && #[trigger] before[w].id == x;
                        assert(ts[w].id == x);
                    }
                }
            }
            d += 1;
        }
        proof {
            assert(deps.take(blocked_by.len() as int) =~= deps);
        }
        let last = self.tasks.len() - 1;
        assert(self.tasks_view()[last as int] == self.tasks@[last as int]@);
        Ok(copy_task(&self.tasks[last]))
    }
}

impl TaskBoard {
    /// Applies `update` at `now` to task `task_id` of team `team_id`. When
    /// the update completes the task, every task it blocked loses it from
    /// its `blocked_by` list. Returns the task as updated.
    pub fn update_task(&mut self, team_id: &str, task_id: &str, update: &TaskUpdate, now: i64) -> (r:
        Result<TeamTask, TeamError>)
        requires
            old(self).wf(),
        ensures
            final(self).wf(),
            !in_team(old(self).tasks_view(), team_id@, task_id@) ==> (r matches Err(
                TeamError::TaskNotFound(m),
            ) && m@ == task_id@ && final(self).tasks_view() == old(self).tasks_view()),
            in_team(old(self).tasks_view(), team_id@, task_id@) ==> exists|i: int|
                0 <= i < old(self).tasks_view().len() && old(self).tasks_view()[i].id == task_id@
                    && old(self).tasks_view()[i].team_id == team_id@ && final(self).tasks_view()
                    == updated_tasks(old(self).tasks_view(), i, *update, now) && (r matches Ok(t)
                    && t@ == final(self).tasks_view()[i]),
    {
        let ghost old_view = self.tasks_view();
        let i = match self.position_in_team(team_id, task_id) {
            Some(i) => i,
            None => return Err(TeamError::TaskNotFound(owned(task_id))),
        };
        let ghost n = old_view.len();
        let ghost old_t = old_view[i as int];
        assert(old_view[i as int] == self.tasks@[i as int]@);
        let blocks = copy_list(&self.tasks[i].blocks);
        let mut t = self.tasks.remove(i);
        match &update.status {
            Some(st) => t.status = *st,
            None => {},
        }
        match &update.description {
            Some(d) => t.description = Some(owned(d.as_str())),
            None => {},
        }
        match &update.owner {
            Some(o) => t.owner = Some(owned(o.as_str())),
            None => {},
        }
        match &update.blocked_by {
            Some(b) => t.blocked_by = copy_list(b),
            None => {},
        }
        match &update.metadata {
            Some(m) => t.metadata = Some(owned(m.as_str())),
            None => {},
        }
        t.updated_at = now;
        assert(t@ == applied(old_t, *update, now));
        self.tasks.insert(i, t);
        let completes = match update.status {
            Some(TaskStatus::Completed) => true,
            _ => false,
        };
        proof {
            assert forall|j: int| 0 <= j < n implies #[trigger] self.tasks_view()[j] == after_update(old_view, i as int, *update, now, j) by {
                if j != i {
                    assert(self.tasks@[j] == old(self).tasks@[j]);
                }
            }
        }
        if completes {
            let mut m: usize = 0;
            while m < blocks.len()
                invariant
                    m <= blocks.len(),
                    n == old_view.len(),
                    i < n,
                    old_t == old_view[i as int],
                    old_t.id == task_id@,
                    texts(blocks@) == old_t.blocks,
                    board_wf(old_view),
                    self.tasks_view().len() == n,
                    forall|j: int| 0 <= j < n ==> #[trigger] self.tasks_view()[j] == (if old_t.blocks.take(
                        m as int,
                    ).contains(old_view[j].id) {
                        TaskView { blocked_by: without(after_update(old_view, i as int, *update, now, j).blocked_by, old_t.id), ..after_update(old_view, i as int, *update, now, j) }
                    } else {
                        after_update(old_view, i as int, *update, now, j)
                    }),
                decreases blocks.len() - m,
            {
                let ghost before = self.tasks_view();
                proof {
                    assert(texts(blocks@)[m as int] == blocks@[m as int]@);
                    assert(has_id(old_view, old_t.blocks[m as int]));
                }
                let k = match self.position(blocks[m].as_str()) {
                    Some(k) => k,
                    None => {
                        proof {
                            let w = choose|w: int| 0 <= w < old_view.len() && #[trigger] old_view[w].id == old_t.blocks[m as int];
                            assert(after_update(old_view, i as int, *update, now, w).id == old_view[w].id);
                            assert(before[w] == self.tasks_view()[w]);
                            assert(before[w].id == old_view[w].id);
                        }
                        m += 1;
                        continue;
                    },
                };
                let mut u = self.tasks.remove(k);
                let ghost uv = u@;
                let mut list: Vec<String> = Vec::new();
                std::mem::swap(&mut list, &mut u.blocked_by);
                u.blocked_by = remove_all(list, task_id);
                self.tasks.insert(k, u);
                proof {
                    let x = old_t.blocks[m as int];
                    assert(old_t.blocks.take(m + 1) =~= old_t.blocks.take(m as int).push(x));
                    assert(before[k as int].id == x);
                    assert(after_update(old_view, i as int, *update, now, k as int).id == old_view[k as int].id);
                    assert(before[k as int].id == old_view[k as int].id);
                    assert forall|j: int| 0 <= j < n implies #[trigger] self.tasks_view()[j] == (if old_t.blocks.take(
                        m + 1,
                    ).contains(old_view[j].id) {
                        TaskView { blocked_by: without(after_update(old_view, i as int, *update, now, j).blocked_by, old_t.id), ..after_update(old_view, i as int, *update, now, j) }
                    } else {
                        after_update(old_view, i as int, *update, now, j)
                    }) by {
                        if j == k {
                            if old_t.blocks.take(m as int).contains(old_view[j].id) {
                                lemma_without_idempotent(after_update(old_view, i as int, *update, now, j).blocked_by, old_t.id);
                            }
                            assert(old_t.blocks.take(m + 1).contains(old_view[j].id)) by {
                                assert(old_t.blocks.take(m + 1)[m as int] == x);
                            }
                        } else {
                            assert(self.tasks_view()[j] == before[j]);
                            assert(old_view[j].id != x);
                            if old_t.blocks.take(m + 1).contains(old_view[j].id) {
                                let q = choose|q: int| 0 <= q < m + 1 && #[trigger] old_t.blocks.take(m + 1)[q] == old_view[j].id;
                                assert(old_t.blocks.take(m as int)[q] == old_view[j].id);
                            }
                        }
                    }
                }
                m += 1;
            }
            proof {
                assert(old_t.blocks.take(blocks.len() as int) =~= old_t.blocks);
            }
        }
        proof {
            let f = self.tasks_view();
            let u = updated_tasks(old_view, i as int, *update, now);
            assert forall|j: int| 0 <= j < n implies #[trigger] f[j] == u[j] by {
                if !completes {
                    assert(old_t.blocks.take(0) =~= Seq::<Seq<char>>::empty());
                }
            }
            assert(f =~= u);
            assert forall|a: int, b: int| 0 <= a < b < f.len() implies #[trigger] f[a].id != #[trigger] f[b].id by {
                assert(f[a].id == old_view[a].id);
                assert(f[b].id == old_view[b].id);
            }
            assert forall|a: int, q: int|
                0 <= a < f.len() && 0 <= q < f[a].blocks.len() implies has_id(f, #[trigger] f[a].blocks[q]) by {
                let x = old_view[a].blocks[q];
                assert(f[a].blocks == old_view[a].blocks);
                assert(has_id(old_view, x));
                let w = choose|w: int| 0 <= w < old_view.len() && #[trigger] old_view[w].id == x;
                assert(f[w].id == x);
            }
        }
        assert(self.tasks_view()[i as int] == self.tasks@[i as int]@);
        Ok(copy_task(&self.tasks[i]))
    }

    /// The tasks of team `team_id`, in creation order.
    pub fn list_tasks(&self, team_id: &str) -> (r: Vec<TeamTask>)
        ensures
            task_views(r@) == self.tasks_view().filter(of_team(team_id@)),
    {
        let ghost all = self.tasks_view();
        let mut r: Vec<TeamTask> = Vec::new();
        let mut i: usize = 0;
        proof {
            assert(all.take(0) =~= Seq::<TaskView>::empty());
            reveal_with_fuel(Seq::filter, 1);
            assert(task_views(r@) =~= all.take(0).filter(of_team(team_id@)));
        }
        while i < self.tasks.len()
            invariant
                i <= self.tasks@.len(),
                all == self.tasks_view(),
                task_views(r@) == all.take(i as int).filter(of_team(team_id@)),
            decreases self.tasks.len() - i,
        {
            proof {
                assert(all.take(i + 1).drop_last() =~= all.take(i as int));
                assert(all.take(i + 1).last() == all[i as int]);
                assert(all[i as int] == self.tasks@[i as int]@);
                reveal_with_fuel(Seq::filter, 1);
            }
            if str_eq(self.tasks[i].team_id.as_str(), team_id) {
                let ghost before = r@;
                let c = copy_task(&self.tasks[i]);
                r.push(c);
                proof {
                    assert forall|j: int| 0 <= j < r@.len() implies #[trigger] task_views(r@)[j] == task_views(before).push(all[i as int])[j] by {
                        if j < before.len() {
                            assert(r@[j] == before[j]);
                        }
                    }
                    assert(task_views(r@) =~= task_views(before).push(all[i as int]));
                }
            }
            i += 1;
        }
        assert(all.take(self.tasks@.len() as int) =~= all);
        r
    }
}

} // verus!
