use vstd::prelude::*;

use crate::status::TaskStatus;
use crate::task::{loaded, max_id, status_is, task_ok, valid_tasks, StoreView, TaskView};

verus! {

/// The empty store that a process starts from when nothing was persisted.
pub open spec fn fresh() -> StoreView {
    StoreView { tasks: Seq::empty(), last_id: 0 }
}

/// The store after adding each description in turn, at the matching instant.
pub open spec fn add_all(v: StoreView, descs: Seq<Seq<char>>, nows: Seq<int>) -> StoreView
    decreases descs.len(),
{
    if descs.len() == 0 || nows.len() == 0 {
        v
    } else {
        add_all(v, descs.drop_last(), nows.drop_last()).added(descs.last(), nows.last())
    }
}

/// Adding keeps a store valid, and the new task's id exceeds every id the
/// store held before.
pub proof fn lemma_add_fresh_id(v: StoreView, desc: Seq<char>, now: int)
    requires
        v.valid(),
        v.last_id < u32::MAX,
    ensures
        v.added(desc, now).valid(),
        v.added(desc, now).tasks.last().id == v.last_id + 1,
        forall|i: int|
            0 <= i < v.tasks.len() ==> #[trigger] v.tasks[i].id < v.added(desc, now).tasks.last().id,
{
    let w = v.added(desc, now);
    assert forall|i: int| 0 <= i < v.tasks.len() implies #[trigger] v.tasks[i].id < w.tasks.last().id by {
        assert(v.tasks[i].id <= max_id(v.tasks));
    }
    assert forall|i: int| 0 <= i < w.tasks.len() implies task_ok(#[trigger] w.tasks[i]) by {
        if i < v.tasks.len() {
            assert(w.tasks[i] == v.tasks[i]);
        }
    }
    assert forall|i: int, j: int| 0 <= i < j < w.tasks.len() implies #[trigger] w.tasks[i].id
        < #[trigger] w.tasks[j].id by {
        assert(w.tasks[i] == v.tasks[i]);
        if j < v.tasks.len() {
            assert(w.tasks[j] == v.tasks[j]);
        }
    }
}

/// On a fresh store, successive additions receive the ids 1, 2, 3, ... in
/// order, without gaps.
pub proof fn lemma_fresh_ids(descs: Seq<Seq<char>>, nows: Seq<int>)
    requires
        descs.len() == nows.len(),
        descs.len() <= u32::MAX,
    ensures
        add_all(fresh(), descs, nows).valid(),
        add_all(fresh(), descs, nows).last_id == descs.len(),
        add_all(fresh(), descs, nows).tasks.len() == descs.len(),
        forall|i: int|
            0 <= i < descs.len() ==> #[trigger] add_all(fresh(), descs, nows).tasks[i].id == i + 1,
    decreases descs.len(),
{
    if descs.len() > 0 {
        let d = descs.drop_last();
        let n = nows.drop_last();
        lemma_fresh_ids(d, n);
        let v = add_all(fresh(), d, n);
        lemma_add_fresh_id(v, descs.last(), nows.last());
        let w = add_all(fresh(), descs, nows);
        assert forall|i: int| 0 <= i < descs.len() implies #[trigger] w.tasks[i].id == i + 1 by {
            if i < d.len() {
                assert(w.tasks[i] == v.tasks[i]);
            }
        }
    }
}

/// After a deletion, the next addition still gets an id above the deleted
/// one and above every id the store ever held: ids are never reused.
pub proof fn lemma_no_reuse_after_delete(v: StoreView, id: nat, desc: Seq<char>, now: int)
    requires
        v.valid(),
        v.has_id(id),
        v.last_id < u32::MAX,
    ensures
        v.deleted(id).added(desc, now).tasks.last().id > id,
        forall|i: int|
            0 <= i < v.tasks.len() ==> #[trigger] v.tasks[i].id < v.deleted(id).added(
                desc,
                now,
            ).tasks.last().id,
{
    lemma_add_fresh_id(v, desc, now);
    let i = v.index_of(id);
    assert(v.tasks[i].id == id);
}

/// Adding one task to a fresh store and loading what it persists gives back
/// exactly that task: id 1, the description, status to-do.
pub proof fn lemma_add_then_load(desc: Seq<char>, now: int)
    ensures
        loaded(fresh().added(desc, now).tasks).tasks.len() == 1,
        loaded(fresh().added(desc, now).tasks).tasks[0] == (TaskView {
            id: 1,
            status: TaskStatus::Todo,
            description: desc,
            created_at: now,
            updated_at: now,
        }),
{
    lemma_add_fresh_id(fresh(), desc, now);
}

/// Persisting a valid store and loading it back gives the same tasks, in
/// the same order, with the same ids, statuses, descriptions and timestamps.
pub proof fn lemma_round_trip(v: StoreView)
    requires
        v.valid(),
    ensures
        loaded(v.tasks).tasks == v.tasks,
        loaded(v.tasks).valid(),
{
}

/// A new description for an id that no task has changes nothing.
pub proof fn lemma_update_absent(v: StoreView, id: nat, desc: Seq<char>, now: int)
    requires
        !v.has_id(id),
    ensures
        v.described(id, desc, now) == v,
{
    let w = v.described(id, desc, now);
    assert forall|i: int| 0 <= i < v.tasks.len() implies w.tasks[i] == v.tasks[i] by {
        assert(v.tasks[i].id != id);
    }
    assert(w.tasks =~= v.tasks);
}

/// Setting a status never moves `updated_at` back, and leaves `created_at`
/// and the description as they were; the other tasks are untouched.
pub proof fn lemma_status_change(v: StoreView, id: nat, st: TaskStatus, now: int)
    requires
        v.has_id(id),
    ensures
        v.with_status(id, st, now).tasks.len() == v.tasks.len(),
        forall|i: int|
            0 <= i < v.tasks.len() ==> {
                let (a, b) = (#[trigger] v.with_status(id, st, now).tasks[i], v.tasks[i]);
                &&& a.updated_at >= b.updated_at
                &&& a.created_at == b.created_at
                &&& a.description == b.description
                &&& a.id == b.id
                &&& (b.id == id ==> a.status == st)
                &&& (b.id != id ==> a == b)
            },
{
}

/// A filtered listing keeps only tasks with that status, all of them, each
/// taken from the full listing, in the same relative order.
pub proof fn lemma_filter_subset(v: StoreView, st: TaskStatus)
    requires
        v.valid(),
    ensures
        forall|i: int|
            0 <= i < v.matching(Some(st)).len() ==> (#[trigger] v.matching(Some(st))[i]).status
                == st && v.matching(None).contains(v.matching(Some(st))[i]),
        forall|i: int|
            0 <= i < v.tasks.len() && v.tasks[i].status == st ==> v.matching(Some(st)).contains(
                #[trigger] v.tasks[i],
            ),
        forall|i: int, j: int|
            0 <= i < j < v.matching(Some(st)).len() ==> (#[trigger] v.matching(Some(st))[i]).id
                < (#[trigger] v.matching(Some(st))[j]).id,
{
    lemma_select_ordered(v.tasks, st);
    assert forall|i: int| 0 <= i < v.tasks.len() && v.tasks[i].status == st implies v.matching(
        Some(st),
    ).contains(#[trigger] v.tasks[i]) by {
        v.tasks.lemma_filter_contains(status_is(st), i);
    }
    assert forall|i: int| 0 <= i < v.matching(Some(st)).len() implies (#[trigger] v.matching(
        Some(st),
    )[i]).status == st by {
        v.tasks.lemma_filter_pred(status_is(st), i);
    }
}

/// Filtering tasks with increasing ids keeps ids increasing, and keeps only
/// tasks that occur in the input.
proof fn lemma_select_ordered(ts: Seq<TaskView>, st: TaskStatus)
    requires
        forall|i: int, j: int| 0 <= i < j < ts.len() ==> #[trigger] ts[i].id < #[trigger] ts[j].id,
    ensures
        forall|i: int| 0 <= i < ts.filter(status_is(st)).len() ==> ts.contains(
            #[trigger] ts.filter(status_is(st))[i],
        ),
        forall|i: int, j: int|
            0 <= i < j < ts.filter(status_is(st)).len() ==> (#[trigger] ts.filter(
                status_is(st),
            )[i]).id < (#[trigger] ts.filter(status_is(st))[j]).id,
    decreases ts.len(),
{
    reveal(Seq::filter);
    if ts.len() > 0 {
        let d = ts.drop_last();
        lemma_select_ordered(d, st);
        let rd = d.filter(status_is(st));
        let r = ts.filter(status_is(st));
        assert forall|i: int| 0 <= i < rd.len() implies ts.contains(rd[i]) && rd[i].id
            < ts.last().id by {
            assert(d.contains(rd[i]));
            let j = choose|j: int| 0 <= j < d.len() && d[j] == rd[i];
            assert(ts[j] == d[j]);
        }
        if status_is(st)(ts.last()) {
            assert(r == rd.push(ts.last()));
            assert forall|i: int| 0 <= i < r.len() implies ts.contains(#[trigger] r[i]) by {
                if i < rd.len() {
                    assert(r[i] == rd[i]);
                } else {
                    assert(ts[ts.len() - 1] == r[i]);
                }
            }
            assert forall|i: int, j: int| 0 <= i < j < r.len() implies (#[trigger] r[i]).id
                < (#[trigger] r[j]).id by {
                assert(r[i] == rd[i]);
                if j < rd.len() {
                    assert(r[j] == rd[j]);
                }
            }
        } else {
            assert(r == rd);
        }
    }
}

} // verus!
