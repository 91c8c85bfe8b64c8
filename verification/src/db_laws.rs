//! What holds of the registry whatever is done to it.
//!
//! The laws are stated over [`DbView`], the value that the contracts of
//! [`crate::db::ModuleDatabase`] speak of, so each of them holds of every
//! registry that the operations can produce.

use vstd::prelude::*;

use crate::db::{DbError, DbView, ModuleId, ModuleView};
use crate::state::ModuleState;

verus! {

/// One mutating operation of the registry.
pub enum DbOp {
    Insert { name: Seq<char>, binary: Seq<u8> },
    Delete { name: Seq<char> },
    SetState { name: Seq<char>, state: ModuleState },
}

/// The registry after one operation.
pub open spec fn apply_op(db: DbView, op: DbOp) -> DbView {
    match op {
        DbOp::Insert { name, binary } => db.inserted(name, binary),
        DbOp::Delete { name } => db.deleted(name),
        DbOp::SetState { name, state } => db.with_state(name, state),
    }
}

/// The registry after a sequence of operations, applied first to last.
pub open spec fn apply_ops(db: DbView, ops: Seq<DbOp>) -> DbView
    decreases ops.len(),
{
    if ops.len() == 0 {
        db
    } else {
        apply_op(apply_ops(db, ops.drop_last()), ops.last())
    }
}

/// Under the invariants a name stands in one row only.
pub proof fn lemma_row_of_name(db: DbView, name: Seq<char>, i: int)
    requires
        db.valid(),
        0 <= i < db.rows.len(),
        db.rows[i].name == name,
    ensures
        db.has_name(name),
        db.row_of_name(name) == i,
{
    let chosen = db.row_of_name(name);
    assert(db.rows[chosen].name == name);
}

/// Under the invariants an id stands in one row only.
pub proof fn lemma_row_of_id(db: DbView, id: ModuleId, i: int)
    requires
        db.valid(),
        0 <= i < db.rows.len(),
        db.rows[i].id == id,
    ensures
        db.has_id(id),
        db.row_of_id(id) == i,
{
    let chosen = db.row_of_id(id);
    assert(db.rows[chosen].id == id);
}

/// Each operation keeps the invariants of the data model.
pub proof fn law_operation_keeps_invariants(db: DbView, op: DbOp)
    requires
        db.valid(),
    ensures
        apply_op(db, op).valid(),
{
    match op {
        DbOp::Insert { name, binary } => {
            let after = db.inserted(name, binary);
            if db.insert_outcome(name) is Ok {
                assert forall|i: int, j: int| 0 <= i < j < after.rows.len() implies (
                #[trigger] after.rows[i]).name != (#[trigger] after.rows[j]).name by {
                    if j == db.rows.len() {
                        assert(db.rows[i].name != name);
                    }
                }
            }
        },
        DbOp::Delete { name } => {
            if db.has_name(name) {
                let k = db.row_of_name(name);
                let after = db.deleted(name);
                assert forall|i: int| 0 <= i < after.rows.len() implies after.rows[i] == db.rows[if i
                    < k {
                    i
                } else {
                    i + 1
                }] by {}
                assert forall|i: int, j: int| 0 <= i < j < after.rows.len() implies (
                #[trigger] after.rows[i]).id < (#[trigger] after.rows[j]).id by {
                    let a = if i < k { i } else { i + 1 };
                    let b = if j < k { j } else { j + 1 };
                    assert(db.rows[a].id < db.rows[b].id);
                }
                assert forall|i: int, j: int| 0 <= i < j < after.rows.len() implies (
                #[trigger] after.rows[i]).name != (#[trigger] after.rows[j]).name by {
                    let a = if i < k { i } else { i + 1 };
                    let b = if j < k { j } else { j + 1 };
                    assert(db.rows[a].name != db.rows[b].name);
                }
                assert forall|i: int| 0 <= i < after.rows.len() implies 1 <= (
                #[trigger] after.rows[i]).id <= after.last_id && after.rows[i].name.len() > 0 by {
                    let a = if i < k { i } else { i + 1 };
                    assert(1 <= db.rows[a].id <= db.last_id);
                }
            }
        },
        DbOp::SetState { name, state } => {
            if db.has_name(name) {
                let k = db.row_of_name(name);
                let after = db.with_state(name, state);
                assert forall|i: int| 0 <= i < after.rows.len() implies (
                #[trigger] after.rows[i]).id == db.rows[i].id && after.rows[i].name
                    == db.rows[i].name by {}
                assert forall|i: int, j: int| 0 <= i < j < after.rows.len() implies (
                #[trigger] after.rows[i]).id < (#[trigger] after.rows[j]).id by {
                    assert(db.rows[i].id < db.rows[j].id);
                }
                assert forall|i: int, j: int| 0 <= i < j < after.rows.len() implies (
                #[trigger] after.rows[i]).name != (#[trigger] after.rows[j]).name by {
                    assert(db.rows[i].name != db.rows[j].name);
                }
            }
        },
    }
}

/// Whatever sequence of operations is applied to an empty registry, ids and
/// names stay unique and every row keeps its one state.
pub proof fn law_invariants_hold_after_any_operations(ops: Seq<DbOp>)
    ensures
        apply_ops(DbView::empty(), ops).valid(),
    decreases ops.len(),
{
    if ops.len() > 0 {
        law_invariants_hold_after_any_operations(ops.drop_last());
        law_operation_keeps_invariants(apply_ops(DbView::empty(), ops.drop_last()), ops.last());
    }
}

/// Ids are handed out in increasing order and never again: no operation
/// lowers the last id, and an insert hands out an id above every id that
/// was handed out before.
pub proof fn law_ids_are_never_reused(db: DbView, op: DbOp)
    requires
        db.valid(),
    ensures
        apply_op(db, op).last_id >= db.last_id,
        op matches DbOp::Insert { name, binary } ==> (db.insert_outcome(name) matches Ok(id) ==> id
            > db.last_id && !db.has_id(id) && apply_op(db, op).last_id == id),
{
    if let DbOp::Insert { name, binary } = op {
        if let Ok(id) = db.insert_outcome(name) {
            if db.has_id(id) {
                assert(db.rows[db.row_of_id(id)].id <= db.last_id);
            }
        }
    }
}

/// The name and the bytecode of a module do not change for as long as the
/// module exists, whatever is done to the registry.
pub proof fn law_module_is_immutable(db: DbView, op: DbOp, id: ModuleId)
    requires
        db.valid(),
        db.has_id(id),
        apply_op(db, op).has_id(id),
    ensures
        ({
            let after = apply_op(db, op);
            &&& after.binary_of(id) == db.binary_of(id)
            &&& after.rows[after.row_of_id(id)].name == db.rows[db.row_of_id(id)].name
        }),
{
    let after = apply_op(db, op);
    let i = db.row_of_id(id);
    law_operation_keeps_invariants(db, op);
    match op {
        DbOp::Insert { name, binary } => {
            assert(after.rows[i] == db.rows[i]);
            lemma_row_of_id(after, id, i);
        },
        DbOp::Delete { name } => {
            if db.has_name(name) {
                let k = db.row_of_name(name);
                law_delete_leaves_nothing_behind(db, name);
                lemma_row_of_id(db, db.rows[k].id, k);
                let j = if i < k { i } else { i - 1 };
                assert(after.rows[j] == db.rows[i]);
                lemma_row_of_id(after, id, j);
            }
        },
        DbOp::SetState { name, state } => {
            if db.has_name(name) {
                assert(after.rows[i].id == id);
                lemma_row_of_id(after, id, i);
            }
        },
    }
}

/// Inserting a second module under a name that was just inserted is refused
/// with `AlreadyExists` and changes nothing.
pub proof fn law_duplicate_name_is_refused(
    db: DbView,
    name: Seq<char>,
    first: Seq<u8>,
    second: Seq<u8>,
)
    requires
        db.valid(),
        db.insert_outcome(name) is Ok,
    ensures
        db.inserted(name, first).insert_outcome(name) == Err::<ModuleId, DbError>(
            DbError::AlreadyExists,
        ),
        db.inserted(name, first).inserted(name, second) == db.inserted(name, first),
{
    let after = db.inserted(name, first);
    assert(after.rows[db.rows.len() as int].name == name);
}

/// An insert is refused with `AlreadyExists` exactly if the name is not
/// empty and a module of that name is registered.
pub proof fn law_insert_refuses_taken_names(db: DbView, name: Seq<char>)
    ensures
        db.insert_outcome(name) == Err::<ModuleId, DbError>(DbError::AlreadyExists) <==> name.len()
            > 0 && db.has_name(name),
{
}

/// Deleting a module leaves neither its row nor its state behind, frees its
/// name, and touches no other module.
pub proof fn law_delete_leaves_nothing_behind(db: DbView, name: Seq<char>)
    requires
        db.valid(),
        db.has_name(name),
    ensures
        ({
            let id = db.id_of(name).unwrap();
            let after = db.deleted(name);
            &&& !after.has_name(name)
            &&& !after.has_id(id)
            &&& after.state_of_id(id).is_none()
            &&& after.binary_of(id).is_none()
            &&& after.rows.len() == db.rows.len() - 1
            &&& forall|other: ModuleId|
                other != id ==> after.state_of_id(other) == db.state_of_id(other)
                    && after.binary_of(other) == db.binary_of(other)
        }),
{
    let k = db.row_of_name(name);
    let id = db.rows[k].id;
    let after = db.deleted(name);
    law_operation_keeps_invariants(db, DbOp::Delete { name });
    assert forall|i: int| 0 <= i < after.rows.len() implies (#[trigger] after.rows[i])
        == db.rows[if i < k {
        i
    } else {
        i + 1
    }] by {}
    if after.has_name(name) {
        let i = after.row_of_name(name);
        let a = if i < k { i } else { i + 1 };
        assert(db.rows[a].name == name);
        lemma_row_of_name(db, name, a);
    }
    if after.has_id(id) {
        let i = after.row_of_id(id);
        let a = if i < k { i } else { i + 1 };
        assert(db.rows[a].id == id);
        lemma_row_of_id(db, id, a);
        lemma_row_of_id(db, id, k);
    }
    assert forall|other: ModuleId| other != id implies after.state_of_id(other) == db.state_of_id(
        other,
    ) && after.binary_of(other) == db.binary_of(other) by {
        if db.has_id(other) {
            let a = db.row_of_id(other);
            let i = if a < k { a } else { a - 1 };
            assert(after.rows[i] == db.rows[a]);
            lemma_row_of_id(after, other, i);
        } else if after.has_id(other) {
            let i = after.row_of_id(other);
            let a = if i < k { i } else { i + 1 };
            assert(db.rows[a].id == other);
        }
    }
}

/// The ids listed for a state are the ids of the rows in that state.
pub proof fn lemma_ids_in_state_contains(rows: Seq<ModuleView>, state: ModuleState, id: ModuleId)
    ensures
        (DbView { rows, last_id: 0 }).ids_in_state(state).contains(id) <==> exists|i: int|
            0 <= i < rows.len() && (#[trigger] rows[i]).id == id && rows[i].state == state,
    decreases rows.len(),
{
    let pred = |row: ModuleView| row.state == state;
    let ident = |row: ModuleView| row.id;
    let ids = rows.filter(pred).map_values(ident);
    if rows.len() == 0 {
        reveal(Seq::filter);
        assert(rows.filter(pred) =~= Seq::empty());
    } else {
        let front = rows.drop_last();
        let last = rows.last();
        let front_ids = front.filter(pred).map_values(ident);
        assert(rows =~= front.push(last));
        front.lemma_filter_push(last, pred);
        lemma_ids_in_state_contains(front, state, id);
        if pred(last) {
            assert(ids =~= front_ids.push(last.id));
        } else {
            assert(ids =~= front_ids);
        }
        if ids.contains(id) {
            let j = choose|j: int| 0 <= j < ids.len() && ids[j] == id;
            if pred(last) && j == ids.len() - 1 {
                assert(rows[rows.len() - 1].id == id);
            } else {
                assert(front_ids[j] == id);
                let i = choose|i: int|
                    0 <= i < front.len() && (#[trigger] front[i]).id == id && front[i].state
                        == state;
                assert(rows[i].id == id && rows[i].state == state);
            }
        }
        if exists|i: int|
            0 <= i < rows.len() && (#[trigger] rows[i]).id == id && rows[i].state == state {
            let i = choose|i: int|
                0 <= i < rows.len() && (#[trigger] rows[i]).id == id && rows[i].state == state;
            if i == rows.len() - 1 {
                assert(ids[ids.len() - 1] == id);
            } else {
                assert(front[i].id == id && front[i].state == state);
                let j = choose|j: int| 0 <= j < front_ids.len() && front_ids[j] == id;
                assert(ids[j] == id);
            }
        }
    }
}

/// A listing by state names exactly the registered modules that are in that
/// state: no other module, and none twice.
pub proof fn law_listing_is_exact(db: DbView, state: ModuleState)
    requires
        db.valid(),
    ensures
        forall|id: ModuleId|
            #[trigger] db.ids_in_state(state).contains(id) <==> db.state_of_id(id) == Some(state),
        db.ids_in_state(state).no_duplicates(),
{
    assert forall|id: ModuleId| #[trigger]
        db.ids_in_state(state).contains(id) <==> db.state_of_id(id) == Some(state) by {
        lemma_ids_in_state_contains(db.rows, state, id);
        if db.ids_in_state(state).contains(id) {
            let i = choose|i: int|
                0 <= i < db.rows.len() && (#[trigger] db.rows[i]).id == id && db.rows[i].state
                    == state;
            lemma_row_of_id(db, id, i);
        }
        if db.state_of_id(id) == Some(state) {
            let i = db.row_of_id(id);
            assert(db.rows[i].id == id && db.rows[i].state == state);
        }
    }
    lemma_ids_increase(db.rows, state);
}

/// Where ids increase along the rows, they increase along a listing.
pub proof fn lemma_ids_increase(rows: Seq<ModuleView>, state: ModuleState)
    requires
        forall|i: int, j: int|
            0 <= i < j < rows.len() ==> (#[trigger] rows[i]).id < (#[trigger] rows[j]).id,
    ensures
        ({
            let ids = (DbView { rows, last_id: 0 }).ids_in_state(state);
            &&& forall|a: int, b: int| 0 <= a < b < ids.len() ==> ids[a] < ids[b]
            &&& ids.no_duplicates()
            &&& forall|a: int|
                0 <= a < ids.len() && rows.len() > 0 ==> #[trigger] ids[a] <= rows.last().id
        }),
    decreases rows.len(),
{
    let pred = |row: ModuleView| row.state == state;
    let ident = |row: ModuleView| row.id;
    let ids = rows.filter(pred).map_values(ident);
    if rows.len() == 0 {
        reveal(Seq::filter);
        assert(rows.filter(pred) =~= Seq::empty());
    } else {
        let front = rows.drop_last();
        let last = rows.last();
        let front_ids = front.filter(pred).map_values(ident);
        assert(rows =~= front.push(last));
        front.lemma_filter_push(last, pred);
        assert forall|i: int, j: int| 0 <= i < j < front.len() implies (#[trigger] front[i]).id < (
        #[trigger] front[j]).id by {
            assert(rows[i].id < rows[j].id);
        }
        lemma_ids_increase(front, state);
        if pred(last) {
            assert(ids =~= front_ids.push(last.id));
        } else {
            assert(ids =~= front_ids);
        }
        assert forall|a: int| 0 <= a < front_ids.len() implies #[trigger] front_ids[a]
            < last.id by {
            assert(front.len() > 0) by {
                front.lemma_filter_len(pred);
            }
            assert(front_ids[a] <= front.last().id);
            assert(rows[front.len() - 1].id < rows[rows.len() - 1].id);
        }
        assert forall|a: int, b: int| 0 <= a < b < ids.len() implies ids[a] < ids[b] by {
            if b < front_ids.len() {
                assert(front_ids[a] < front_ids[b]);
            } else {
                assert(front_ids[a] < last.id);
            }
        }
    }
}

/// After `insert(n, b); set_state(n, s)` the listing for `s` is the former
/// listing followed by the new id, and the listing for any other state is
/// the former one, which does not hold the new id.
pub proof fn law_state_round_trip(
    db: DbView,
    name: Seq<char>,
    binary: Seq<u8>,
    state: ModuleState,
    other: ModuleState,
)
    requires
        db.valid(),
        db.insert_outcome(name) is Ok,
        other != state,
    ensures
        ({
            let id = db.insert_outcome(name).unwrap();
            let after = db.inserted(name, binary).with_state(name, state);
            &&& after.ids_in_state(state) == db.ids_in_state(state).push(id)
            &&& after.ids_in_state(other) == db.ids_in_state(other)
            &&& !after.ids_in_state(other).contains(id)
            &&& after.state_of(name) == Some(state)
        }),
{
    let id = db.insert_outcome(name).unwrap();
    let fresh = db.inserted(name, binary);
    let after = fresh.with_state(name, state);
    let n = db.rows.len() as int;
    law_operation_keeps_invariants(db, DbOp::Insert { name, binary });
    lemma_row_of_name(fresh, name, n);
    let row = ModuleView { id, name, binary, state };
    assert(after.rows =~= db.rows.push(row));
    db.rows.lemma_filter_push(row, |r: ModuleView| r.state == state);
    db.rows.lemma_filter_push(row, |r: ModuleView| r.state == other);
    assert(after.ids_in_state(state) =~= db.ids_in_state(state).push(id));
    assert(after.ids_in_state(other) =~= db.ids_in_state(other));
    lemma_ids_in_state_contains(db.rows, other, id);
    law_operation_keeps_invariants(fresh, DbOp::SetState { name, state });
    lemma_row_of_name(after, name, n);
}

/// Setting a state twice in a row is the same as setting it once, and the
/// second call succeeds like the first.
pub proof fn law_set_state_is_idempotent(db: DbView, name: Seq<char>, state: ModuleState)
    requires
        db.valid(),
        db.has_name(name),
    ensures
        db.with_state(name, state).has_name(name),
        db.with_state(name, state).state_of(name) == Some(state),
        db.with_state(name, state).with_state(name, state) == db.with_state(name, state),
{
    let k = db.row_of_name(name);
    let once = db.with_state(name, state);
    law_operation_keeps_invariants(db, DbOp::SetState { name, state });
    assert(once.rows[k].name == name);
    lemma_row_of_name(once, name, k);
    assert(once.with_state(name, state).rows =~= once.rows);
}

/// Setting the state of one module changes the state of no other module and
/// the bytecode of none.
pub proof fn law_set_state_touches_one_module(
    db: DbView,
    name: Seq<char>,
    state: ModuleState,
    other: Seq<char>,
)
    requires
        db.valid(),
        other != name,
    ensures
        db.with_state(name, state).state_of(other) == db.state_of(other),
        db.with_state(name, state).id_of(other) == db.id_of(other),
        db.with_state(name, state).id_of(name) == db.id_of(name),
{
    let after = db.with_state(name, state);
    law_operation_keeps_invariants(db, DbOp::SetState { name, state });
    if db.has_name(name) {
        let k = db.row_of_name(name);
        assert(after.rows[k].name == name);
        lemma_row_of_name(after, name, k);
        if db.has_name(other) {
            let i = db.row_of_name(other);
            assert(after.rows[i].name == other);
            lemma_row_of_name(after, other, i);
        } else if after.has_name(other) {
            let i = after.row_of_name(other);
            assert(db.rows[i].name == other);
        }
    }
}

} // verus!
