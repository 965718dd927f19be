use vstd::prelude::*;

use crate::status::{lower_of, status_of_token, TaskStatus};

verus! {

/// A point in time, in microseconds since the Unix epoch.
#[derive(Debug, Clone, Copy, PartialEq, Eq, Structural)]
pub struct Timestamp {
    pub micros: i64,
}

/// Why an operation on the store did not take place.
#[derive(Debug, Clone, Copy, PartialEq, Eq, Structural)]
pub enum TaskError {
    /// An empty description or an identifier of zero.
    InvalidInput,
    /// No task has the identifier asked for.
    NotFound,
    /// Every identifier a `u32` can hold has been handed out.
    IdsExhausted,
    /// A set of records that breaks the store's invariants.
    Corrupt,
}

/// A unit of trackable work.
#[derive(Debug)]
pub struct Task {
    pub id: u32,
    pub status: TaskStatus,
    pub description: String,
    pub created_at: Timestamp,
    pub updated_at: Timestamp,
}

/// The mathematical content of a task.
pub struct TaskView {
    pub id: nat,
    pub status: TaskStatus,
    pub description: Seq<char>,
    pub created_at: int,
    pub updated_at: int,
}

impl View for Task {
    type V = TaskView;

    open spec fn view(&self) -> TaskView {
        TaskView {
            id: self.id as nat,
            status: self.status,
            description: self.description@,
            created_at: self.created_at.micros as int,
            updated_at: self.updated_at.micros as int,
        }
    }
}

impl Clone for Task {
    fn clone(&self) -> (r: Task)
        ensures
            r == *self,
    {
        Task {
            id: self.id,
            status: self.status,
            description: self.description.clone(),
            created_at: self.created_at,
            updated_at: self.updated_at,
        }
    }
}

/// The views of a sequence of tasks.
pub open spec fn tasks_view(s: Seq<Task>) -> Seq<TaskView> {
    s.map_values(|t: Task| t@)
}

/// The later of two instants.
pub open spec fn later(a: int, b: int) -> int {
    if b < a {
        a
    } else {
        b
    }
}

/// A task on its own is sound: a positive id, and not updated before it was created.
pub open spec fn task_ok(t: TaskView) -> bool {
    t.id >= 1 && t.created_at <= t.updated_at
}

/// Records that a store can hold: each sound, ids strictly increasing in order.
pub open spec fn valid_tasks(ts: Seq<TaskView>) -> bool {
    &&& forall|i: int| 0 <= i < ts.len() ==> task_ok(#[trigger] ts[i])
    &&& forall|i: int, j: int| 0 <= i < j < ts.len() ==> #[trigger] ts[i].id < #[trigger] ts[j].id
}

/// The largest id in increasing records: the last one's, or zero.
pub open spec fn max_id(ts: Seq<TaskView>) -> nat {
    if ts.len() == 0 {
        0
    } else {
        ts.last().id
    }
}

/// Whether a task has the given status.
pub open spec fn status_is(st: TaskStatus) -> spec_fn(TaskView) -> bool {
    |t: TaskView| t.status == st
}

/// The tasks that a filter keeps, in their order.
pub open spec fn select(ts: Seq<TaskView>, filter: Option<TaskStatus>) -> Seq<TaskView> {
    match filter {
        None => ts,
        Some(st) => ts.filter(status_is(st)),
    }
}

/// The mathematical content of a store: its tasks in order, and the
/// highest id it has ever handed out.
pub struct StoreView {
    pub tasks: Seq<TaskView>,
    pub last_id: nat,
}

/// What loading a set of records gives: those records when they are valid,
/// an empty store otherwise.
pub open spec fn loaded(ts: Seq<TaskView>) -> StoreView {
    if valid_tasks(ts) {
        StoreView { tasks: ts, last_id: max_id(ts) }
    } else {
        StoreView { tasks: Seq::empty(), last_id: 0 }
    }
}

impl StoreView {
    /// The store's invariant: valid records, none with an id above the
    /// highest one handed out, which fits in a `u32`.
    pub open spec fn valid(self) -> bool {
        &&& valid_tasks(self.tasks)
        &&& max_id(self.tasks) <= self.last_id
        &&& self.last_id <= u32::MAX
    }

    /// Whether some task has the given id.
    pub open spec fn has_id(self, id: nat) -> bool {
        exists|i: int| 0 <= i < self.tasks.len() && #[trigger] self.tasks[i].id == id
    }

    /// The position of the task with the given id.
    pub open spec fn index_of(self, id: nat) -> int {
        choose|i: int| 0 <= i < self.tasks.len() && #[trigger] self.tasks[i].id == id
    }

    /// The store after a new task with the next id is appended.
    pub open spec fn added(self, desc: Seq<char>, now: int) -> StoreView {
        StoreView {
            tasks: self.tasks.push(
                TaskView {
                    id: self.last_id + 1,
                    status: TaskStatus::Todo,
                    description: desc,
                    created_at: now,
                    updated_at: now,
                },
            ),
            last_id: self.last_id + 1,
        }
    }

    /// The store after the task with the given id gets a new description.
    pub open spec fn described(self, id: nat, desc: Seq<char>, now: int) -> StoreView {
        StoreView {
            tasks: self.tasks.map_values(
                |t: TaskView|
                    if t.id == id {
                        TaskView {
                            id: t.id,
                            status: t.status,
                            description: desc,
                            created_at: t.created_at,
                            updated_at: later(t.updated_at, now),
                        }
                    } else {
                        t
                    },
            ),
            last_id: self.last_id,
        }
    }

    /// The store after the task with the given id gets a new status.
    pub open spec fn with_status(self, id: nat, st: TaskStatus, now: int) -> StoreView {
        StoreView {
            tasks: self.tasks.map_values(
                |t: TaskView|
                    if t.id == id {
                        TaskView {
                            id: t.id,
                            status: st,
                            description: t.description,
                            created_at: t.created_at,
                            updated_at: later(t.updated_at, now),
                        }
                    } else {
                        t
                    },
            ),
            last_id: self.last_id,
        }
    }

    /// The store after the task with the given id is removed.
    pub open spec fn deleted(self, id: nat) -> StoreView {
        StoreView { tasks: self.tasks.remove(self.index_of(id)), last_id: self.last_id }
    }

    /// The tasks a listing shows.
    pub open spec fn matching(self, filter: Option<TaskStatus>) -> Seq<TaskView> {
        select(self.tasks, filter)
    }
}

/// The authoritative, ordered collection of tasks.
pub struct TaskStore {
    tasks: Vec<Task>,
    last_id: u32,
}

impl View for TaskStore {
    type V = StoreView;

    closed spec fn view(&self) -> StoreView {
        StoreView { tasks: tasks_view(self.tasks@), last_id: self.last_id as nat }
    }
}

/// The later of two timestamps.
fn later_of(a: Timestamp, b: Timestamp) -> (r: Timestamp)
    ensures
        r.micros as int == later(a.micros as int, b.micros as int),
{
    if b.micros < a.micros {
        a
    } else {
        b
    }
}

impl TaskStore {
    /// An empty store.
    pub fn new() -> (r: TaskStore)
        ensures
            r@.tasks == Seq::<TaskView>::empty(),
            r@.last_id == 0,
            r@.valid(),
    {
        TaskStore { tasks: Vec::new(), last_id: 0 }
    }

    /// A store holding exactly the given records, if they are valid.
    pub fn from_tasks(tasks: Vec<Task>) -> (r: Result<TaskStore, TaskError>)
        ensures
            match r {
                Ok(s) => valid_tasks(tasks_view(tasks@)) && s@ == loaded(tasks_view(tasks@))
                    && s@.valid(),
                Err(e) => !valid_tasks(tasks_view(tasks@)) && e == TaskError::Corrupt,
            },
    {
        let ghost vs = tasks_view(tasks@);
        let n = tasks.len();
        let mut i: usize = 0;
        while i < n
            invariant
                n == tasks@.len(),
                vs == tasks_view(tasks@),
                i <= n,
                forall|k: int| 0 <= k < i ==> task_ok(#[trigger] vs[k]),
                forall|k: int, j: int| 0 <= k < j < i ==> #[trigger] vs[k].id < #[trigger] vs[j].id,
            decreases n - i,
        {
            let t = &tasks[i];
            if t.id == 0 || t.updated_at.micros < t.created_at.micros {
                assert(!task_ok(vs[i as int]));
                return Err(TaskError::Corrupt);
            }
            if i > 0 && tasks[i - 1].id >= t.id {
                assert(!(vs[i - 1].id < vs[i as int].id));
                return Err(TaskError::Corrupt);
            }
            proof {
                assert forall|k: int, j: int| 0 <= k < j < i + 1 implies #[trigger] vs[k].id
                    < #[trigger] vs[j].id by {
                    if j == i && k < i - 1 {
                        assert(vs[k].id < vs[i - 1].id);
                    }
                }
            }
            i += 1;
        }
        let last_id: u32 = if n == 0 {
            0
        } else {
            tasks[n - 1].id
        };
        Ok(TaskStore { tasks, last_id })
    }

    /// The store kept in a backing file: what could be read from it, or an
    /// empty store where the file was absent, unreadable or held invalid records.
    pub fn load(parsed: Option<Vec<Task>>) -> (r: TaskStore)
        ensures
            r@.valid(),
            match parsed {
                Some(ts) => r@ == loaded(tasks_view(ts@)),
                None => r@ == loaded(Seq::empty()),
            },
    {
        match parsed {
            Some(ts) => match TaskStore::from_tasks(ts) {
                Ok(s) => s,
                Err(_) => TaskStore::new(),
            },
            None => TaskStore::new(),
        }
    }

    /// The position of the task with the given id, if there is one.
    fn find_index(&self, id: u32) -> (r: Option<usize>)
        requires
            self.wf(),
        ensures
            match r {
                Some(i) => i < self.tasks@.len() && self@.has_id(id as nat) && self@.index_of(
                    id as nat,
                ) == i as int,
                None => !self@.has_id(id as nat),
            },
    {
        let ghost v = self@;
        let mut i: usize = 0;
        while i < self.tasks.len()
            invariant
                v == self@,
                v.valid(),
                i <= self.tasks@.len(),
                forall|k: int| 0 <= k < i ==> #[trigger] v.tasks[k].id != id as nat,
            decreases self.tasks@.len() - i,
        {
            if self.tasks[i].id == id {
                proof {
                    assert(v.tasks[i as int].id == id as nat);
                    assert(v.has_id(id as nat));
                    let j = v.index_of(id as nat);
                    if j != i as int {
                        if j < i as int {
                            assert(v.tasks[j].id < v.tasks[i as int].id);
                        } else {
                            assert(v.tasks[i as int].id < v.tasks[j].id);
                        }
                    }
                }
                return Some(i);
            }
            i += 1;
        }
        None
    }

    /// A snapshot of the tasks that the filter keeps, in insertion order.
    pub fn filtered(&self, filter: Option<TaskStatus>) -> (r: Vec<Task>)
        ensures
            tasks_view(r@) == self@.matching(filter),
    {
        let ghost vs = self@.tasks;
        let mut out: Vec<Task> = Vec::new();
        let mut i: usize = 0;
        while i < self.tasks.len()
            invariant
                vs == self@.tasks,
                i <= self.tasks@.len(),
                tasks_view(out@) == select(vs.take(i as int), filter),
            decreases self.tasks@.len() - i,
        {
            let t = &self.tasks[i];
            let keep = match filter {
                None => true,
                Some(st) => t.status == st,
            };
            let ghost before = out@;
            if keep {
                out.push(t.clone());
            }
            proof {
                assert(vs.take(i + 1).drop_last() =~= vs.take(i as int));
                assert(vs.take(i + 1) =~= vs.take(i as int).push(vs[i as int]));
                reveal(Seq::filter);
                if keep {
                    assert(tasks_view(out@) =~= tasks_view(before).push(t@));
                }
            }
            i += 1;
        }
        proof {
            assert(vs.take(vs.len() as int) =~= vs);
        }
        out
    }

    /// Appends a task with the next id, created and updated at `now`.
    pub fn add_at(&mut self, desc: &str, now: Timestamp) -> (r: Result<Task, TaskError>)
        requires
            old(self).wf(),
        ensures
            final(self).wf(),
            desc@.len() == 0 ==> r == Err::<Task, TaskError>(TaskError::InvalidInput),
            desc@.len() > 0 && old(self)@.last_id == u32::MAX ==> r == Err::<Task, TaskError>(
                TaskError::IdsExhausted,
            ),
            desc@.len() > 0 && old(self)@.last_id < u32::MAX ==> r is Ok,
            match r {
                Ok(t) => desc@.len() > 0 && old(self)@.last_id < u32::MAX && final(self)@ == old(self)@.added(desc@, now.micros as int) && t@ == final(self)@.tasks.last(),
                Err(_) => final(self)@ == old(self)@,
            },
    {
        if desc.unicode_len() == 0 {
            return Err(TaskError::InvalidInput);
        }
        if self.last_id == u32::MAX {
            return Err(TaskError::IdsExhausted);
        }
        let id = self.last_id + 1;
        let task = Task {
            id,
            status: TaskStatus::Todo,
            description: desc.to_string(),
            created_at: now,
            updated_at: now,
        };
        let ghost v = self@;
        self.tasks.push(task.clone());
        self.last_id = id;
        proof {
            assert(tasks_view(self.tasks@) =~= v.tasks.push(task@));
            assert(self@ == v.added(desc@, now.micros as int));
        }
        Ok(task)
    }

    /// Replaces the description of the task with the given id.
    pub fn update_at(&mut self, id: u32, desc: &str, now: Timestamp) -> (r: Result<
        Task,
        TaskError,
    >)
        requires
            old(self).wf(),
        ensures
            final(self).wf(),
            id == 0 || desc@.len() == 0 ==> r == Err::<Task, TaskError>(TaskError::InvalidInput),
            id > 0 && desc@.len() > 0 && !old(self)@.has_id(id as nat) ==> r == Err::<
                Task,
                TaskError,
            >(TaskError::NotFound),
            id > 0 && desc@.len() > 0 && old(self)@.has_id(id as nat) ==> r is Ok,
            match r {
                Ok(t) => id > 0 && desc@.len() > 0 && old(self)@.has_id(id as nat) && final(self)@ == old(self)@.described(id as nat, desc@, now.micros as int) && t@ == final(self)@.tasks[old(self)@.index_of(id as nat)],
                Err(_) => final(self)@ == old(self)@,
            },
    {
        if id == 0 || desc.unicode_len() == 0 {
            return Err(TaskError::InvalidInput);
        }
        match self.find_index(id) {
            None => Err(TaskError::NotFound),
            Some(i) => {
                let ghost v = self@;
                let task = Task {
                    id: self.tasks[i].id,
                    status: self.tasks[i].status,
                    description: desc.to_string(),
                    created_at: self.tasks[i].created_at,
                    updated_at: later_of(self.tasks[i].updated_at, now),
                };
                self.tasks.set(i, task.clone());
                proof {
                    let w = v.described(id as nat, desc@, now.micros as int);
                    assert forall|k: int| 0 <= k < v.tasks.len() && k != i implies v.tasks[k].id
                        != id as nat by {
                        if k < i {
                            assert(v.tasks[k].id < v.tasks[i as int].id);
                        } else {
                            assert(v.tasks[i as int].id < v.tasks[k].id);
                        }
                    }
                    assert(tasks_view(self.tasks@) =~= w.tasks);
                }
                Ok(task)
            },
        }
    }

    /// Sets the status of the task with the given id.
    pub fn set_status_at(&mut self, id: u32, status: TaskStatus, now: Timestamp) -> (r: Result<
        Task,
        TaskError,
    >)
        requires
            old(self).wf(),
        ensures
            final(self).wf(),
            id == 0 ==> r == Err::<Task, TaskError>(TaskError::InvalidInput),
            id > 0 && !old(self)@.has_id(id as nat) ==> r == Err::<Task, TaskError>(
                TaskError::NotFound,
            ),
            id > 0 && old(self)@.has_id(id as nat) ==> r is Ok,
            match r {
                Ok(t) => id > 0 && old(self)@.has_id(id as nat) && final(self)@ == old(self)@.with_status(id as nat, status, now.micros as int) && t@ == final(self)@.tasks[old(self)@.index_of(id as nat)],
                Err(_) => final(self)@ == old(self)@,
            },
    {
        if id == 0 {
            return Err(TaskError::InvalidInput);
        }
        match self.find_index(id) {
            None => Err(TaskError::NotFound),
            Some(i) => {
                let ghost v = self@;
                let task = Task {
                    id: self.tasks[i].id,
                    status,
                    description: self.tasks[i].description.clone(),
                    created_at: self.tasks[i].created_at,
                    updated_at: later_of(self.tasks[i].updated_at, now),
                };
                self.tasks.set(i, task.clone());
                proof {
                    let w = v.with_status(id as nat, status, now.micros as int);
                    assert forall|k: int| 0 <= k < v.tasks.len() && k != i implies v.tasks[k].id
                        != id as nat by {
                        if k < i {
                            assert(v.tasks[k].id < v.tasks[i as int].id);
                        } else {
                            assert(v.tasks[i as int].id < v.tasks[k].id);
                        }
                    }
                    assert(tasks_view(self.tasks@) =~= w.tasks);
                }
                Ok(task)
            },
        }
    }

    /// Removes the task with the given id.
    pub fn delete_id(&mut self, id: u32) -> (r: Result<(), TaskError>)
        requires
            old(self).wf(),
        ensures
            final(self).wf(),
            id == 0 ==> r == Err::<(), TaskError>(TaskError::InvalidInput),
            id > 0 && !old(self)@.has_id(id as nat) ==> r == Err::<(), TaskError>(
                TaskError::NotFound,
            ),
            id > 0 && old(self)@.has_id(id as nat) ==> r is Ok,
            match r {
                Ok(_) => id > 0 && old(self)@.has_id(id as nat) && final(self)@ == old(self)@.deleted(id as nat),
                Err(_) => final(self)@ == old(self)@,
            },
    {
        if id == 0 {
            return Err(TaskError::InvalidInput);
        }
        match self.find_index(id) {
            None => Err(TaskError::NotFound),
            Some(i) => {
                let ghost v = self@;
                let _ = self.tasks.remove(i);
                proof {
                    assert(tasks_view(self.tasks@) =~= v.tasks.remove(i as int));
                    let w = v.deleted(id as nat);
                    assert forall|a: int, b: int| 0 <= a < b < w.tasks.len() implies #[trigger] w.tasks[a].id
                        < #[trigger] w.tasks[b].id by {
                        let a2 = if a < i { a } else { a + 1 };
                        let b2 = if b < i { b } else { b + 1 };
                        assert(w.tasks[a] == v.tasks[a2]);
                        assert(w.tasks[b] == v.tasks[b2]);
                    }
                    assert forall|a: int| 0 <= a < w.tasks.len() implies task_ok(#[trigger] w.tasks[a]) by {
                        let a2 = if a < i { a } else { a + 1 };
                        assert(w.tasks[a] == v.tasks[a2]);
                    }
                    if w.tasks.len() > 0 {
                        let l = w.tasks.len() - 1;
                        let l2 = if l < i { l } else { l + 1 };
                        assert(w.tasks[l] == v.tasks[l2]);
                        assert(v.tasks[l2].id <= max_id(v.tasks));
                    }
                }
                Ok(())
            },
        }
    }

    /// The store's invariant.
    pub open spec fn wf(&self) -> bool {
        self@.valid()
    }
}

/// Relies on `chrono::Local::now` and `DateTime::timestamp_micros`: the current
/// time. Nothing is known of the value read.
#[verifier::external_body]
fn clock_now() -> (r: Timestamp) {
    Timestamp { micros: chrono::Local::now().timestamp_micros() }
}

impl Task {
    /// Adds a task with the given description, stamped with the current time.
    pub fn add(store: &mut TaskStore, task_name: &str) -> (r: Result<Task, TaskError>)
        requires
            old(store).wf(),
        ensures
            final(store).wf(),
            task_name@.len() == 0 ==> r == Err::<Task, TaskError>(TaskError::InvalidInput),
            task_name@.len() > 0 && old(store)@.last_id == u32::MAX ==> r == Err::<
                Task,
                TaskError,
            >(TaskError::IdsExhausted),
            task_name@.len() > 0 && old(store)@.last_id < u32::MAX ==> r is Ok,
            match r {
                Ok(t) => final(store)@ == old(store)@.added(task_name@, t@.created_at) && t@
                    == final(store)@.tasks.last(),
                Err(_) => final(store)@ == old(store)@,
            },
    {
        let now = clock_now();
        store.add_at(task_name, now)
    }

    /// Replaces the description of the task with the given id.
    pub fn update(store: &mut TaskStore, task_id: u32, task_name: &str) -> (r: Result<
        Task,
        TaskError,
    >)
        requires
            old(store).wf(),
        ensures
            final(store).wf(),
            task_id == 0 || task_name@.len() == 0 ==> r == Err::<Task, TaskError>(
                TaskError::InvalidInput,
            ),
            task_id > 0 && task_name@.len() > 0 && !old(store)@.has_id(task_id as nat) ==> r
                == Err::<Task, TaskError>(TaskError::NotFound),
            task_id > 0 && task_name@.len() > 0 && old(store)@.has_id(task_id as nat) ==> r is Ok,
            match r {
                Ok(t) => exists|now: int| #[trigger]
                    old(store)@.described(task_id as nat, task_name@, now) == final(store)@
                    && t@ == final(store)@.tasks[old(store)@.index_of(task_id as nat)],
                Err(_) => final(store)@ == old(store)@,
            },
    {
        let now = clock_now();
        store.update_at(task_id, task_name, now)
    }

    /// Removes the task with the given id.
    pub fn delete(store: &mut TaskStore, task_id: u32) -> (r: Result<(), TaskError>)
        requires
            old(store).wf(),
        ensures
            final(store).wf(),
            task_id == 0 ==> r == Err::<(), TaskError>(TaskError::InvalidInput),
            task_id > 0 && !old(store)@.has_id(task_id as nat) ==> r == Err::<(), TaskError>(
                TaskError::NotFound,
            ),
            task_id > 0 && old(store)@.has_id(task_id as nat) ==> r is Ok,
            match r {
                Ok(_) => task_id > 0 && old(store)@.has_id(task_id as nat) && final(store)@ == old(
                    store,
                )@.deleted(task_id as nat),
                Err(_) => final(store)@ == old(store)@,
            },
    {
        store.delete_id(task_id)
    }

    /// Marks the task with the given id as done.
    pub fn mark_done(store: &mut TaskStore, task_id: u32) -> (r: Result<Task, TaskError>)
        requires
            old(store).wf(),
        ensures
            final(store).wf(),
            task_id == 0 ==> r == Err::<Task, TaskError>(TaskError::InvalidInput),
            task_id > 0 && !old(store)@.has_id(task_id as nat) ==> r == Err::<Task, TaskError>(
                TaskError::NotFound,
            ),
            task_id > 0 && old(store)@.has_id(task_id as nat) ==> r is Ok,
            match r {
                Ok(t) => exists|now: int| #[trigger]
                    old(store)@.with_status(task_id as nat, TaskStatus::Done, now) == final(store)@
                    && t@ == final(store)@.tasks[old(store)@.index_of(task_id as nat)],
                Err(_) => final(store)@ == old(store)@,
            },
    {
        let now = clock_now();
        store.set_status_at(task_id, TaskStatus::Done, now)
    }

    /// Marks the task with the given id as in progress.
    pub fn mark_in_progress(store: &mut TaskStore, task_id: u32) -> (r: Result<Task, TaskError>)
        requires
            old(store).wf(),
        ensures
            final(store).wf(),
            task_id == 0 ==> r == Err::<Task, TaskError>(TaskError::InvalidInput),
            task_id > 0 && !old(store)@.has_id(task_id as nat) ==> r == Err::<Task, TaskError>(
                TaskError::NotFound,
            ),
            task_id > 0 && old(store)@.has_id(task_id as nat) ==> r is Ok,
            match r {
                Ok(t) => exists|now: int| #[trigger]
                    old(store)@.with_status(task_id as nat, TaskStatus::InProgress, now)
                    == final(store)@ && t@ == final(store)@.tasks[old(store)@.index_of(
                    task_id as nat,
                )],
                Err(_) => final(store)@ == old(store)@,
            },
    {
        let now = clock_now();
        store.set_status_at(task_id, TaskStatus::InProgress, now)
    }

    /// The tasks to show: all of them, or those whose status the given token
    /// names (ignoring case); a token naming no status is rejected.
    pub fn list_tasks(store: &TaskStore, status: Option<String>) -> (r: Result<
        Vec<Task>,
        TaskError,
    >)
        ensures
            match status {
                None => r is Ok && tasks_view(r->Ok_0@) == store@.matching(None),
                Some(s) => match status_of_token(lower_of(s@)) {
                    None => r == Err::<Vec<Task>, TaskError>(TaskError::InvalidInput),
                    Some(st) => r is Ok && tasks_view(r->Ok_0@) == store@.matching(Some(st)),
                },
            },
    {
        match status {
            None => Ok(store.filtered(None)),
            Some(s) => match TaskStatus::from_str(s.as_str()) {
                None => Err(TaskError::InvalidInput),
                Some(st) => Ok(store.filtered(Some(st))),
            },
        }
    }
}

} // verus!
