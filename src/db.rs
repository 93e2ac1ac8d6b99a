use vstd::prelude::*;

use crate::task::{
    precedes, CreateTaskRequest, ErrorKind, Filters, NextTaskTimeResponse, SchedulerError, Task,
    TaskID, TaskState,
};

verus! {

/// Ids strictly increase along the sequence, so each id appears at most once.
pub open spec fn ids_ascending(tasks: Seq<Task>) -> bool {
    forall|i: int, j: int| 0 <= i < j < tasks.len() ==> tasks[i].id < tasks[j].id
}

pub open spec fn has_id(tasks: Seq<Task>, id: TaskID) -> bool {
    exists|i: int| 0 <= i < tasks.len() && tasks[i].id == id
}

/// Position of the task with the given id.
pub open spec fn index_of(tasks: Seq<Task>, id: TaskID) -> int
    recommends
        has_id(tasks, id),
{
    choose|i: int| 0 <= i < tasks.len() && tasks[i].id == id
}

/// The task with the given id, if any.
pub open spec fn find_task(tasks: Seq<Task>, id: TaskID) -> Option<Task> {
    if has_id(tasks, id) {
        Some(tasks[index_of(tasks, id)])
    } else {
        None
    }
}

/// The tasks without the one with the given id.
pub open spec fn remove_task(tasks: Seq<Task>, id: TaskID) -> Seq<Task> {
    if has_id(tasks, id) {
        tasks.remove(index_of(tasks, id))
    } else {
        tasks
    }
}

/// True when the task with the given id exists and is in state `st`.
pub open spec fn in_status(tasks: Seq<Task>, id: TaskID, st: TaskState) -> bool {
    has_id(tasks, id) && tasks[index_of(tasks, id)].status == st
}

pub open spec fn with_status(t: Task, st: TaskState) -> Task {
    Task { typ: t.typ, status: st, id: t.id, time: t.time }
}

/// Compare-and-set on a task's state: the task in state `from` moves to `to`.
pub open spec fn advanced_task(tasks: Seq<Task>, id: TaskID, from: TaskState, to: TaskState) -> Option<Task> {
    if in_status(tasks, id, from) {
        Some(with_status(tasks[index_of(tasks, id)], to))
    } else {
        None
    }
}

/// The tasks after the compare-and-set of `advanced_task`; unchanged when it fails.
pub open spec fn advance(tasks: Seq<Task>, id: TaskID, from: TaskState, to: TaskState) -> Seq<Task> {
    if in_status(tasks, id, from) {
        tasks.update(index_of(tasks, id), with_status(tasks[index_of(tasks, id)], to))
    } else {
        tasks
    }
}

pub open spec fn new_task(req: CreateTaskRequest, id: TaskID) -> Task {
    Task { typ: req.typ, status: TaskState::Waiting, id, time: req.time }
}

/// The tasks a listing with these filters returns, in store order.
pub open spec fn selected(tasks: Seq<Task>, f: Filters) -> Seq<Task> {
    tasks.filter(|t: Task| f.admits(t))
}

pub open spec fn is_pending(tasks: Seq<Task>, t: Task) -> bool {
    tasks.contains(t) && t.status == TaskState::Waiting
}

pub open spec fn has_pending(tasks: Seq<Task>) -> bool {
    exists|t: Task| is_pending(tasks, t)
}

/// `t` is the pending task served first: every other pending task comes after it.
pub open spec fn is_next_pending(tasks: Seq<Task>, t: Task) -> bool {
    &&& is_pending(tasks, t)
    &&& forall|u: Task| is_pending(tasks, u) && u != t ==> precedes(t, u)
}

pub open spec fn sorted_by_schedule(s: Seq<Task>) -> bool {
    forall|i: int, j: int| 0 <= i < j < s.len() ==> precedes(s[i], s[j])
}

/// The whole task collection, as one document persists it.
#[derive(Debug)]
pub struct State {
    pub last_id: TaskID,
    pub tasks: Vec<Task>,
}

impl State {
    /// Ids ascend in store order and none exceeds the last id handed out.
    pub open spec fn wf(&self) -> bool {
        &&& ids_ascending(self.tasks@)
        &&& forall|i: int| 0 <= i < self.tasks@.len() ==> self.tasks@[i].id <= self.last_id
    }

    /// An empty store.
    pub fn new() -> (r: State)
        ensures
            r.wf(),
            r.last_id == 0,
            r.tasks@.len() == 0,
    {
        State { last_id: 0, tasks: Vec::new() }
    }

    /// Tells whether a state read back from storage is well formed.
    pub fn is_well_formed(&self) -> (r: bool)
        ensures
            r == self.wf(),
    {
        let n = self.tasks.len();
        let mut i: usize = 0;
        while i < n
            invariant
                n == self.tasks@.len(),
                i <= n,
                forall|a: int, b: int| 0 <= a < b < i ==> self.tasks@[a].id < self.tasks@[b].id,
                forall|a: int| 0 <= a < i ==> self.tasks@[a].id <= self.last_id,
            decreases n - i,
        {
            if self.tasks[i].id > self.last_id {
                return false;
            }
            if i > 0 && self.tasks[i - 1].id >= self.tasks[i].id {
                return false;
            }
            i += 1;
        }
        true
    }
}

/// In an id-ascending sequence, a position holding `id` is the position of `id`.
pub proof fn lemma_index_of_unique(tasks: Seq<Task>, id: TaskID, k: int)
    requires
        ids_ascending(tasks),
        0 <= k < tasks.len(),
        tasks[k].id == id,
    ensures
        has_id(tasks, id),
        index_of(tasks, id) == k,
        find_task(tasks, id) == Some(tasks[k]),
{
    assert(has_id(tasks, id));
    let j = index_of(tasks, id);
    if j < k {
        assert(tasks[j].id < tasks[k].id);
    } else if j > k {
        assert(tasks[k].id < tasks[j].id);
    }
}

/// Position of the task with the given id.
fn position(tasks: &Vec<Task>, id: TaskID) -> (r: Option<usize>)
    requires
        ids_ascending(tasks@),
    ensures
        r is None <==> !has_id(tasks@, id),
        r matches Some(k) ==> k < tasks@.len() && k == index_of(tasks@, id),
{
    let n = tasks.len();
    let mut i: usize = 0;
    while i < n
        invariant
            n == tasks@.len(),
            i <= n,
            ids_ascending(tasks@),
            forall|a: int| 0 <= a < i ==> tasks@[a].id != id,
        decreases n - i,
    {
        if tasks[i].id == id {
            proof {
                lemma_index_of_unique(tasks@, id, i as int);
            }
            return Some(i);
        }
        i += 1;
    }
    None
}


/// All tasks the filters admit, in store order.
pub fn list_tasks(state: &State, filters: &Filters) -> (r: Vec<Task>)
    ensures
        r@ == selected(state.tasks@, *filters),
{
    let n = state.tasks.len();
    let mut out: Vec<Task> = Vec::new();
    let mut i: usize = 0;
    while i < n
        invariant
            n == state.tasks@.len(),
            i <= n,
            out@ == selected(state.tasks@.subrange(0, i as int), *filters),
        decreases n - i,
    {
        let t = state.tasks[i];
        proof {
            let pre = state.tasks@.subrange(0, i as int);
            let next = state.tasks@.subrange(0, i + 1);
            assert(next.drop_last() =~= pre);
            assert(next.last() == t);
            reveal(Seq::filter);
            assert(selected(next, *filters) == if filters.admits(t) {
                selected(pre, *filters).push(t)
            } else {
                selected(pre, *filters)
            });
        }
        if filters.matches(&t) {
            out.push(t);
        }
        i += 1;
    }
    proof {
        assert(state.tasks@.subrange(0, n as int) =~= state.tasks@);
    }
    out
}

/// The task with the given id, or `None` when there is none.
pub fn get_task(state: &State, id: TaskID) -> (r: Option<Task>)
    requires
        state.wf(),
    ensures
        r == find_task(state.tasks@, id),
{
    match position(&state.tasks, id) {
        Some(k) => Some(state.tasks[k]),
        None => None,
    }
}

/// Stores a new waiting task under the next id and returns that id.
pub fn create_task(state: &mut State, req: CreateTaskRequest) -> (r: Result<TaskID, SchedulerError>)
    requires
        old(state).wf(),
    ensures
        final(state).wf(),
        r is Ok <==> old(state).last_id < i32::MAX,
        r matches Ok(id) ==> {
            &&& id == old(state).last_id + 1
            &&& final(state).last_id == id
            &&& final(state).tasks@ == old(state).tasks@.push(new_task(req, id))
        },
        r matches Err(e) ==> {
            &&& e.kind == ErrorKind::IdsExhausted
            &&& final(state).last_id == old(state).last_id
            &&& final(state).tasks@ == old(state).tasks@
        },
{
    if state.last_id == i32::MAX {
        return Err(SchedulerError::new(ErrorKind::IdsExhausted));
    }
    let id = state.last_id + 1;
    state.last_id = id;
    state.tasks.push(Task { typ: req.typ, status: TaskState::Waiting, id, time: req.time });
    Ok(id)
}

/// Removes the task with the given id, whatever its state, and returns it.
pub fn delete_task(state: &mut State, id: TaskID) -> (r: Option<Task>)
    requires
        old(state).wf(),
    ensures
        final(state).wf(),
        r == find_task(old(state).tasks@, id),
        final(state).tasks@ == remove_task(old(state).tasks@, id),
        final(state).last_id == old(state).last_id,
{
    match position(&state.tasks, id) {
        Some(k) => {
            let removed = state.tasks.remove(k);
            proof {
                lemma_remove_keeps_wf(old(state).tasks@, old(state).last_id, k as int);
            }
            Some(removed)
        }
        None => None,
    }
}

proof fn lemma_remove_keeps_wf(tasks: Seq<Task>, last_id: TaskID, k: int)
    requires
        ids_ascending(tasks),
        forall|i: int| 0 <= i < tasks.len() ==> tasks[i].id <= last_id,
        0 <= k < tasks.len(),
    ensures
        ids_ascending(tasks.remove(k)),
        forall|i: int| 0 <= i < tasks.remove(k).len() ==> tasks.remove(k)[i].id <= last_id,
{
    let r = tasks.remove(k);
    assert forall|i: int, j: int| 0 <= i < j < r.len() implies r[i].id < r[j].id by {
        let a = if i < k { i } else { i + 1 };
        let b = if j < k { j } else { j + 1 };
        assert(r[i] == tasks[a]);
        assert(r[j] == tasks[b]);
    }
    assert forall|i: int| 0 <= i < r.len() implies r[i].id <= last_id by {
        let a = if i < k { i } else { i + 1 };
        assert(r[i] == tasks[a]);
    }
}

/// Atomic compare-and-set of the state of task `id` from `from` to `to`.
fn advance_task(state: &mut State, id: TaskID, from: TaskState, to: TaskState) -> (r: Option<Task>)
    requires
        old(state).wf(),
    ensures
        final(state).wf(),
        r == advanced_task(old(state).tasks@, id, from, to),
        final(state).tasks@ == advance(old(state).tasks@, id, from, to),
        final(state).last_id == old(state).last_id,
{
    match position(&state.tasks, id) {
        Some(k) => {
            let t = state.tasks[k];
            if t.status == from {
                let moved = Task { typ: t.typ, status: to, id: t.id, time: t.time };
                state.tasks.set(k, moved);
                proof {
                    let o = old(state).tasks@;
                    let f = state.tasks@;
                    assert forall|i: int, j: int| 0 <= i < j < f.len() implies f[i].id < f[j].id by {
                        assert(f[i].id == o[i].id);
                        assert(f[j].id == o[j].id);
                    }
                    assert forall|i: int| 0 <= i < f.len() implies f[i].id <= state.last_id by {
                        assert(f[i].id == o[i].id);
                    }
                }
                Some(moved)
            } else {
                None
            }
        }
        None => None,
    }
}

/// Claims a waiting task: succeeds only if its state is exactly `Waiting`,
/// and then marks it `Claimed`. Otherwise nothing changes.
pub fn claim_task(state: &mut State, id: TaskID) -> (r: Option<Task>)
    requires
        old(state).wf(),
    ensures
        final(state).wf(),
        r is Some <==> in_status(old(state).tasks@, id, TaskState::Waiting),
        r == advanced_task(old(state).tasks@, id, TaskState::Waiting, TaskState::Claimed),
        final(state).tasks@ == advance(old(state).tasks@, id, TaskState::Waiting, TaskState::Claimed),
        final(state).last_id == old(state).last_id,
{
    advance_task(state, id, TaskState::Waiting, TaskState::Claimed)
}

/// Completes a claimed task: succeeds only if its state is exactly `Claimed`,
/// and then marks it `Complete`. Otherwise nothing changes.
pub fn complete_task(state: &mut State, id: TaskID) -> (r: Option<Task>)
    requires
        old(state).wf(),
    ensures
        final(state).wf(),
        r is Some <==> in_status(old(state).tasks@, id, TaskState::Claimed),
        r == advanced_task(old(state).tasks@, id, TaskState::Claimed, TaskState::Complete),
        r is None ==> final(state).tasks@ == old(state).tasks@,
        final(state).tasks@ == advance(old(state).tasks@, id, TaskState::Claimed, TaskState::Complete),
        final(state).last_id == old(state).last_id,
{
    advance_task(state, id, TaskState::Claimed, TaskState::Complete)
}


/// Where `t` goes in a schedule-sorted sequence whose ids are all below `t.id`.
fn insertion_point(out: &Vec<Task>, t: &Task) -> (r: usize)
    requires
        sorted_by_schedule(out@),
        forall|k: int| 0 <= k < out@.len() ==> out@[k].id < t.id,
    ensures
        r <= out@.len(),
        forall|k: int| 0 <= k < r ==> precedes(out@[k], *t),
        forall|k: int| r <= k < out@.len() ==> precedes(*t, out@[k]),
{
    let n = out.len();
    let mut i: usize = 0;
    while i < n
        invariant
            n == out@.len(),
            i <= n,
            sorted_by_schedule(out@),
            forall|k: int| 0 <= k < i ==> precedes(out@[k], *t),
            forall|k: int| 0 <= k < out@.len() ==> out@[k].id < t.id,
        decreases n - i,
    {
        if t.runs_before(&out[i]) {
            assert forall|k: int| i <= k < out@.len() implies precedes(*t, out@[k]) by {
                if k > i {
                    assert(precedes(out@[i as int], out@[k]));
                }
            }
            return i;
        }
        i += 1;
    }
    i
}

proof fn lemma_insert_sorted(s: Seq<Task>, pos: int, t: Task)
    requires
        sorted_by_schedule(s),
        0 <= pos <= s.len(),
        forall|k: int| 0 <= k < pos ==> precedes(s[k], t),
        forall|k: int| pos <= k < s.len() ==> precedes(t, s[k]),
    ensures
        sorted_by_schedule(s.insert(pos, t)),
        s.insert(pos, t).len() == s.len() + 1,
        forall|u: Task| #[trigger] s.insert(pos, t).contains(u) <==> (s.contains(u) || u == t),
{
    let r = s.insert(pos, t);
    assert forall|i: int, j: int| 0 <= i < j < r.len() implies precedes(r[i], r[j]) by {
        if j < pos {
            assert(r[i] == s[i] && r[j] == s[j]);
        } else if j == pos {
            assert(r[i] == s[i]);
        } else if i < pos {
            assert(r[i] == s[i] && r[j] == s[j - 1]);
        } else if i == pos {
            assert(r[j] == s[j - 1]);
        } else {
            assert(r[i] == s[i - 1] && r[j] == s[j - 1]);
        }
    }
    assert forall|u: Task| r.contains(u) implies (s.contains(u) || u == t) by {
        let i = choose|i: int| 0 <= i < r.len() && r[i] == u;
        if i < pos {
            assert(s[i] == u);
        } else if i > pos {
            assert(s[i - 1] == u);
        }
    }
    assert forall|u: Task| (s.contains(u) || u == t) implies r.contains(u) by {
        if u == t {
            assert(r[pos] == t);
        } else {
            let i = choose|i: int| 0 <= i < s.len() && s[i] == u;
            if i < pos {
                assert(r[i] == u);
            } else {
                assert(r[i + 1] == u);
            }
        }
    }
}

/// The waiting tasks, earliest scheduled time first and, on equal times, lowest id first.
pub fn pending_tasks_by_timestamp(state: &State) -> (r: Vec<Task>)
    requires
        state.wf(),
    ensures
        sorted_by_schedule(r@),
        forall|t: Task| r@.contains(t) <==> is_pending(state.tasks@, t),
{
    let n = state.tasks.len();
    let mut out: Vec<Task> = Vec::new();
    let mut i: usize = 0;
    while i < n
        invariant
            n == state.tasks@.len(),
            i <= n,
            state.wf(),
            sorted_by_schedule(out@),
            forall|k: int|
                #![trigger out@[k]]
                0 <= k < out@.len() ==> exists|j: int|
                    0 <= j < i && #[trigger] state.tasks@[j] == out@[k] && out@[k].status
                        == TaskState::Waiting,
            forall|j: int|
                0 <= j < i && state.tasks@[j].status == TaskState::Waiting ==> out@.contains(
                    #[trigger] state.tasks@[j],
                ),
        decreases n - i,
    {
        let t = state.tasks[i];
        if t.status == TaskState::Waiting {
            assert forall|k: int| 0 <= k < out@.len() implies out@[k].id < t.id by {
                let j = choose|j: int| 0 <= j < i && #[trigger] state.tasks@[j] == out@[k];
                assert(state.tasks@[j].id < state.tasks@[i as int].id);
            }
            let pos = insertion_point(&out, &t);
            proof {
                lemma_insert_sorted(out@, pos as int, t);
            }
            let ghost before = out@;
            out.insert(pos, t);
            assert forall|k: int| #![trigger out@[k]] 0 <= k < out@.len() implies exists|j: int|
                0 <= j < i + 1 && #[trigger] state.tasks@[j] == out@[k] && out@[k].status
                    == TaskState::Waiting by {
                assert(out@.contains(out@[k]));
                if out@[k] != t {
                    assert(before.contains(out@[k]));
                    let m = choose|m: int| 0 <= m < before.len() && before[m] == out@[k];
                    let j = choose|j: int| 0 <= j < i && #[trigger] state.tasks@[j] == before[m]
                        && before[m].status == TaskState::Waiting;
                } else {
                    assert(state.tasks@[i as int] == out@[k]);
                }
            }
            assert forall|j: int|
                0 <= j < i + 1 && state.tasks@[j].status == TaskState::Waiting implies out@.contains(
                #[trigger] state.tasks@[j],
            ) by {
                if j < i {
                    assert(before.contains(state.tasks@[j]));
                }
                assert(before.insert(pos as int, t).contains(state.tasks@[j]));
            }
        }
        i += 1;
    }
    assert forall|t: Task| out@.contains(t) <==> is_pending(state.tasks@, t) by {
        if out@.contains(t) {
            let k = choose|k: int| 0 <= k < out@.len() && out@[k] == t;
            let j = choose|j: int| 0 <= j < i && #[trigger] state.tasks@[j] == out@[k]
                && out@[k].status == TaskState::Waiting;
            assert(state.tasks@.contains(t));
        }
        if is_pending(state.tasks@, t) {
            let j = choose|j: int| 0 <= j < state.tasks@.len() && state.tasks@[j] == t;
            assert(out@.contains(state.tasks@[j]));
        }
    }
    out
}

/// The pending task to serve next, if any task is waiting.
pub fn pull_pending_task(state: &State) -> (r: Option<Task>)
    requires
        state.wf(),
    ensures
        r is None <==> !has_pending(state.tasks@),
        r matches Some(t) ==> is_next_pending(state.tasks@, t),
{
    let tasks = pending_tasks_by_timestamp(state);
    if tasks.len() >= 1 {
        let next = tasks[0];
        assert(tasks@.contains(next));
        assert forall|u: Task| is_pending(state.tasks@, u) && u != next implies precedes(next, u) by {
            assert(tasks@.contains(u));
            let k = choose|k: int| 0 <= k < tasks@.len() && tasks@[k] == u;
            assert(k != 0);
        }
        Some(next)
    } else {
        assert forall|u: Task| !is_pending(state.tasks@, u) by {
            if is_pending(state.tasks@, u) {
                assert(tasks@.contains(u));
            }
        }
        None
    }
}

/// Id and due time of the next pending task; read-only.
pub fn next_task_time(state: &State) -> (r: Option<NextTaskTimeResponse>)
    requires
        state.wf(),
    ensures
        r is None <==> !has_pending(state.tasks@),
        r matches Some(resp) ==> exists|t: Task|
            is_next_pending(state.tasks@, t) && t.id == resp.id && t.time == resp.time,
{
    match pull_pending_task(state) {
        Some(t) => Some(NextTaskTimeResponse { time: t.time, id: t.id }),
        None => None,
    }
}


/// The tasks after `n` claims of task `id`, made one after another, and how
/// many of those claims succeeded.
pub open spec fn claim_run(tasks: Seq<Task>, id: TaskID, n: nat) -> (Seq<Task>, nat)
    decreases n,
{
    if n == 0 {
        (tasks, 0)
    } else {
        let prev = claim_run(tasks, id, (n - 1) as nat);
        let won: nat = if in_status(prev.0, id, TaskState::Waiting) {
            1
        } else {
            0
        };
        (advance(prev.0, id, TaskState::Waiting, TaskState::Claimed), prev.1 + won)
    }
}

/// A successful compare-and-set keeps ids in place and leaves the task in `to`.
pub proof fn lemma_advance_moves(tasks: Seq<Task>, id: TaskID, from: TaskState, to: TaskState)
    requires
        ids_ascending(tasks),
        in_status(tasks, id, from),
    ensures
        ids_ascending(advance(tasks, id, from, to)),
        in_status(advance(tasks, id, from, to), id, to),
{
    let k = index_of(tasks, id);
    let f = advance(tasks, id, from, to);
    assert forall|i: int, j: int| 0 <= i < j < f.len() implies f[i].id < f[j].id by {
        assert(f[i].id == tasks[i].id);
        assert(f[j].id == tasks[j].id);
    }
    lemma_index_of_unique(f, id, k);
}

/// Position of a state in the lifecycle `Waiting -> Claimed -> Complete`.
pub open spec fn status_rank(st: TaskState) -> int {
    match st {
        TaskState::Waiting => 0,
        TaskState::Claimed => 1,
        TaskState::Complete => 2,
    }
}

/// A forward compare-and-set (as claim and completion are) never moves any
/// task backwards in its lifecycle and leaves every id, type and time as it was.
pub proof fn lemma_advance_is_monotonic(tasks: Seq<Task>, id: TaskID, from: TaskState, to: TaskState)
    requires
        status_rank(from) < status_rank(to),
    ensures
        advance(tasks, id, from, to).len() == tasks.len(),
        forall|i: int|
            0 <= i < tasks.len() ==> {
                let after = #[trigger] advance(tasks, id, from, to)[i];
                &&& status_rank(after.status) >= status_rank(tasks[i].status)
                &&& after.id == tasks[i].id
                &&& after.typ == tasks[i].typ
                &&& after.time == tasks[i].time
            },
{
}

/// Claims of one waiting task, however many are made: exactly one succeeds,
/// every other reports that the task is not eligible, and the task ends up
/// `Claimed`.
pub proof fn lemma_claim_succeeds_once(tasks: Seq<Task>, id: TaskID, n: nat)
    requires
        ids_ascending(tasks),
        in_status(tasks, id, TaskState::Waiting),
        n >= 1,
    ensures
        claim_run(tasks, id, n).1 == 1,
        ids_ascending(claim_run(tasks, id, n).0),
        in_status(claim_run(tasks, id, n).0, id, TaskState::Claimed),
    decreases n,
{
    if n == 1 {
        assert(claim_run(tasks, id, 0) == (tasks, 0nat));
        lemma_advance_moves(tasks, id, TaskState::Waiting, TaskState::Claimed);
    } else {
        lemma_claim_succeeds_once(tasks, id, (n - 1) as nat);
    }
}

/// The next pending task is never one that another pending task precedes:
/// of two waiting tasks, the earlier (or, at equal times, the lower id) is served first.
pub proof fn lemma_next_pending_earliest(tasks: Seq<Task>, next: Task, a: Task, b: Task)
    requires
        is_next_pending(tasks, next),
        is_pending(tasks, a),
        is_pending(tasks, b),
        precedes(a, b),
    ensures
        next != b,
        next == a || precedes(next, a),
{
}

/// Peeking is stable: a store has at most one next pending task.
pub proof fn lemma_next_pending_unique(tasks: Seq<Task>, t1: Task, t2: Task)
    requires
        is_next_pending(tasks, t1),
        is_next_pending(tasks, t2),
    ensures
        t1 == t2,
{
}

/// Creating a task and then looking up the id it got yields a waiting task
/// with the requested type and time.
pub proof fn lemma_create_then_get(s: State, req: CreateTaskRequest)
    requires
        s.wf(),
        s.last_id < i32::MAX,
    ensures
        ({
            let id = (s.last_id + 1) as TaskID;
            let t = find_task(s.tasks@.push(new_task(req, id)), id);
            &&& t is Some
            &&& t->0.typ == req.typ
            &&& t->0.status == TaskState::Waiting
            &&& t->0.time == req.time
            &&& t->0.id == id
        }),
{
    let id = (s.last_id + 1) as TaskID;
    let after = s.tasks@.push(new_task(req, id));
    assert(ids_ascending(after)) by {
        assert forall|i: int, j: int| 0 <= i < j < after.len() implies after[i].id < after[j].id by {
            if j == after.len() - 1 {
                assert(after[i] == s.tasks@[i]);
            } else {
                assert(after[i] == s.tasks@[i] && after[j] == s.tasks@[j]);
            }
        }
    }
    lemma_index_of_unique(after, id, s.tasks@.len() as int);
}

/// Deleting twice: after the first deletion the id is gone, so a second
/// deletion finds nothing and changes nothing.
pub proof fn lemma_delete_twice(s: State, id: TaskID)
    requires
        s.wf(),
    ensures
        find_task(remove_task(s.tasks@, id), id) is None,
        remove_task(remove_task(s.tasks@, id), id) == remove_task(s.tasks@, id),
{
    let once = remove_task(s.tasks@, id);
    if has_id(s.tasks@, id) {
        let k = index_of(s.tasks@, id);
        lemma_remove_keeps_wf(s.tasks@, s.last_id, k);
        if has_id(once, id) {
            let m = choose|m: int| 0 <= m < once.len() && once[m].id == id;
            if m < k {
                assert(once[m] == s.tasks@[m]);
            } else {
                assert(once[m] == s.tasks@[m + 1]);
            }
        }
    }
}

} // verus!
