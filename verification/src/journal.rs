//! The registry as it is persisted: two tables, and the row writes that
//! carry each operation over to them.
//!
//! `modules` maps an id to a name and a bytecode; `module_states` maps a
//! module id to a state. An operation on a [`ModuleDatabase`] is persisted
//! by applying its row writes, in their order and in one transaction, to
//! the stored tables: the tables are then those of the registry after the
//! operation.

use vstd::prelude::*;

use crate::db::{DbError, DbView, ModuleDatabase, ModuleId};
use crate::db_laws::{law_delete_leaves_nothing_behind, law_operation_keeps_invariants, lemma_row_of_id, DbOp};
use crate::state::ModuleState;

verus! {

/// One write to the persisted tables.
#[derive(Debug, Clone, Copy, PartialEq, Eq)]
pub enum RowChange<'a> {
    /// A new row of `modules`.
    InsertModule { id: ModuleId, name: &'a str, binary: &'a [u8] },
    /// A new row of `module_states`.
    InsertState { id: ModuleId, state: ModuleState },
    /// A new state in the row of `module_states` of that module.
    UpdateState { id: ModuleId, state: ModuleState },
    /// The row of `module_states` of that module goes.
    DeleteState { id: ModuleId },
    /// The row of `modules` of that id goes.
    DeleteModule { id: ModuleId },
}

/// A row write as a mathematical value.
pub enum RowChangeView {
    InsertModule { id: ModuleId, name: Seq<char>, binary: Seq<u8> },
    InsertState { id: ModuleId, state: ModuleState },
    UpdateState { id: ModuleId, state: ModuleState },
    DeleteState { id: ModuleId },
    DeleteModule { id: ModuleId },
}

impl<'a> View for RowChange<'a> {
    type V = RowChangeView;

    open spec fn view(&self) -> RowChangeView {
        match *self {
            RowChange::InsertModule { id, name, binary } => RowChangeView::InsertModule {
                id,
                name: name@,
                binary: binary@,
            },
            RowChange::InsertState { id, state } => RowChangeView::InsertState { id, state },
            RowChange::UpdateState { id, state } => RowChangeView::UpdateState { id, state },
            RowChange::DeleteState { id } => RowChangeView::DeleteState { id },
            RowChange::DeleteModule { id } => RowChangeView::DeleteModule { id },
        }
    }
}

/// A row of the table `modules`, without its id.
pub struct ModuleRecord {
    pub name: Seq<char>,
    pub binary: Seq<u8>,
}

/// The two persisted tables.
pub struct Tables {
    /// `modules(id, name, binary)`.
    pub modules: Map<ModuleId, ModuleRecord>,
    /// `module_states(module_id, state)`.
    pub states: Map<ModuleId, ModuleState>,
}

impl Tables {
    /// Every module has a state row and every state row a module.
    pub open spec fn consistent(self) -> bool {
        self.modules.dom() == self.states.dom()
    }

    /// The tables after one row write.
    pub open spec fn apply(self, change: RowChangeView) -> Tables {
        match change {
            RowChangeView::InsertModule { id, name, binary } => Tables {
                modules: self.modules.insert(id, ModuleRecord { name, binary }),
                ..self
            },
            RowChangeView::InsertState { id, state } => Tables {
                states: self.states.insert(id, state),
                ..self
            },
            RowChangeView::UpdateState { id, state } => Tables {
                states: if self.states.contains_key(id) {
                    self.states.insert(id, state)
                } else {
                    self.states
                },
                ..self
            },
            RowChangeView::DeleteState { id } => Tables { states: self.states.remove(id), ..self },
            RowChangeView::DeleteModule { id } => Tables {
                modules: self.modules.remove(id),
                ..self
            },
        }
    }

    /// The tables after a sequence of row writes, applied first to last.
    pub open spec fn apply_all(self, changes: Seq<RowChangeView>) -> Tables
        decreases changes.len(),
    {
        if changes.len() == 0 {
            self
        } else {
            self.apply_all(changes.drop_last()).apply(changes.last())
        }
    }
}

/// The tables that hold a registry.
pub open spec fn tables_of(db: DbView) -> Tables {
    Tables {
        modules: Map::new(
            |id: ModuleId| db.has_id(id),
            |id: ModuleId|
                ModuleRecord {
                    name: db.rows[db.row_of_id(id)].name,
                    binary: db.rows[db.row_of_id(id)].binary,
                },
        ),
        states: Map::new(|id: ModuleId| db.has_id(id), |id: ModuleId| db.rows[db.row_of_id(id)].state),
    }
}

/// The views of a sequence of row writes.
pub open spec fn changes_view(changes: Seq<RowChange>) -> Seq<RowChangeView> {
    changes.map_values(|change: RowChange| change@)
}

/// The row writes of an accepted insert: the module row, then its state
/// row in state `NotStarted`.
pub open spec fn insert_changes(id: ModuleId, name: Seq<char>, binary: Seq<u8>) -> Seq<
    RowChangeView,
> {
    seq![
        RowChangeView::InsertModule { id, name, binary },
        RowChangeView::InsertState { id, state: ModuleState::NotStarted },
    ]
}

/// The row writes of a delete: the state row goes first, then the module
/// row.
pub open spec fn delete_changes(id: ModuleId) -> Seq<RowChangeView> {
    seq![RowChangeView::DeleteState { id }, RowChangeView::DeleteModule { id }]
}

/// The row write of a change of state.
pub open spec fn state_changes(id: ModuleId, state: ModuleState) -> Seq<RowChangeView> {
    seq![RowChangeView::UpdateState { id, state }]
}

/// The tables of a registry hold a state row for every module and none
/// beside.
pub proof fn law_tables_are_consistent(db: DbView)
    ensures
        tables_of(db).consistent(),
{
    assert(tables_of(db).modules.dom() =~= tables_of(db).states.dom());
}

/// Applying one sequence of row writes after another is applying the two in
/// a row.
pub proof fn lemma_apply_all_concat(
    tables: Tables,
    first: Seq<RowChangeView>,
    second: Seq<RowChangeView>,
)
    ensures
        tables.apply_all(first + second) == tables.apply_all(first).apply_all(second),
    decreases second.len(),
{
    if second.len() == 0 {
        assert(first + second =~= first);
    } else {
        lemma_apply_all_concat(tables, first, second.drop_last());
        assert((first + second).drop_last() =~= first + second.drop_last());
        assert((first + second).last() == second.last());
    }
}

/// Applying two row writes is applying the first, then the second.
proof fn lemma_apply_two(tables: Tables, first: RowChangeView, second: RowChangeView)
    ensures
        tables.apply_all(seq![first, second]) == tables.apply(first).apply(second),
{
    let both = seq![first, second];
    assert(both.drop_last() =~= seq![first]);
    lemma_apply_one(tables, first);
}

/// Applying one row write.
proof fn lemma_apply_one(tables: Tables, change: RowChangeView)
    ensures
        tables.apply_all(seq![change]) == tables.apply(change),
{
    let none = seq![change].drop_last();
    assert(none =~= Seq::<RowChangeView>::empty());
    assert(tables.apply_all(none) == tables);
}

/// The row writes of an accepted insert carry the tables of the registry
/// over to those of the registry after the insert.
pub proof fn law_insert_is_persisted(db: DbView, name: Seq<char>, binary: Seq<u8>)
    requires
        db.valid(),
        db.insert_outcome(name) is Ok,
    ensures
        tables_of(db).apply_all(insert_changes(db.insert_outcome(name).unwrap(), name, binary))
            == tables_of(db.inserted(name, binary)),
{
    let id = db.insert_outcome(name).unwrap();
    let after = db.inserted(name, binary);
    let n = db.rows.len() as int;
    law_operation_keeps_invariants(db, DbOp::Insert { name, binary });
    lemma_apply_two(
        tables_of(db),
        RowChangeView::InsertModule { id, name, binary },
        RowChangeView::InsertState { id, state: ModuleState::NotStarted },
    );
    let written = tables_of(db).apply_all(insert_changes(id, name, binary));
    lemma_row_of_id(after, id, n);
    assert forall|other: ModuleId| other != id implies (after.has_id(other) <==> db.has_id(other))
        && (db.has_id(other) ==> after.row_of_id(other) == db.row_of_id(other)) by {
        if db.has_id(other) {
            let i = db.row_of_id(other);
            assert(after.rows[i].id == other);
            lemma_row_of_id(after, other, i);
        } else if after.has_id(other) {
            let i = after.row_of_id(other);
            assert(db.rows[i].id == other);
        }
    }
    if db.has_id(id) {
        assert(db.rows[db.row_of_id(id)].id <= db.last_id);
    }
    assert(written.modules =~= tables_of(after).modules);
    assert(written.states =~= tables_of(after).states);
}

/// The row writes of a delete carry the tables of the registry over to
/// those of the registry after the delete.
pub proof fn law_delete_is_persisted(db: DbView, name: Seq<char>)
    requires
        db.valid(),
        db.has_name(name),
    ensures
        tables_of(db).apply_all(delete_changes(db.id_of(name).unwrap())) == tables_of(
            db.deleted(name),
        ),
{
    let id = db.id_of(name).unwrap();
    let after = db.deleted(name);
    law_delete_leaves_nothing_behind(db, name);
    law_operation_keeps_invariants(db, DbOp::Delete { name });
    lemma_apply_two(
        tables_of(db),
        RowChangeView::DeleteState { id },
        RowChangeView::DeleteModule { id },
    );
    let written = tables_of(db).apply_all(delete_changes(id));
    assert forall|other: ModuleId| other != id implies (after.has_id(other) <==> db.has_id(other))
        && (db.has_id(other) ==> after.rows[after.row_of_id(other)] == db.rows[db.row_of_id(
        other,
    )]) by {
        assert(after.state_of_id(other) == db.state_of_id(other));
        if db.has_id(other) {
            let k = db.row_of_name(name);
            let a = db.row_of_id(other);
            let i = if a < k { a } else { a - 1 };
            assert(after.rows[i] == db.rows[a]);
            lemma_row_of_id(after, other, i);
        }
    }
    assert(written.modules =~= tables_of(after).modules);
    assert(written.states =~= tables_of(after).states);
}

/// The row write of a change of state carries the tables of the registry
/// over to those of the registry after the change.
pub proof fn law_set_state_is_persisted(db: DbView, name: Seq<char>, state: ModuleState)
    requires
        db.valid(),
        db.has_name(name),
    ensures
        tables_of(db).apply_all(state_changes(db.id_of(name).unwrap(), state)) == tables_of(
            db.with_state(name, state),
        ),
{
    let k = db.row_of_name(name);
    let id = db.rows[k].id;
    let after = db.with_state(name, state);
    law_operation_keeps_invariants(db, DbOp::SetState { name, state });
    lemma_apply_one(tables_of(db), RowChangeView::UpdateState { id, state });
    let written = tables_of(db).apply_all(state_changes(id, state));
    lemma_row_of_id(db, id, k);
    assert forall|other: ModuleId|
        (after.has_id(other) <==> db.has_id(other)) && (db.has_id(other) ==> after.row_of_id(other)
            == db.row_of_id(other)) by {
        if db.has_id(other) {
            let i = db.row_of_id(other);
            assert(after.rows[i].id == other);
            lemma_row_of_id(after, other, i);
        } else if after.has_id(other) {
            let i = after.row_of_id(other);
            assert(db.rows[i].id == other);
        }
    }
    assert(written.modules =~= tables_of(after).modules);
    assert(written.states =~= tables_of(after).states);
}

/// Inserts a module and answers, with the outcome, the row writes that
/// persist the insert: none if it was refused.
pub fn insert<'a>(db: &mut ModuleDatabase, name: &'a str, binary: &'a [u8]) -> (logged: (
    Result<ModuleId, DbError>,
    Vec<RowChange<'a>>,
))
    requires
        old(db).wf(),
    ensures
        final(db).wf(),
        logged.0 == old(db)@.insert_outcome(name@),
        final(db)@ == old(db)@.inserted(name@, binary@),
        changes_view(logged.1@) == (match logged.0 {
            Ok(id) => insert_changes(id, name@, binary@),
            Err(_) => Seq::empty(),
        }),
        tables_of(old(db)@).apply_all(changes_view(logged.1@)) == tables_of(final(db)@),
{
    let outcome = db.insert(name, binary);
    let mut changes: Vec<RowChange<'a>> = Vec::new();
    match outcome {
        Ok(id) => {
            changes.push(RowChange::InsertModule { id, name, binary });
            changes.push(RowChange::InsertState { id, state: ModuleState::NotStarted });
            proof {
                assert(changes_view(changes@) =~= insert_changes(id, name@, binary@));
                law_insert_is_persisted(old(db)@, name@, binary@);
            }
        },
        Err(_) => {
            proof {
                assert(changes_view(changes@) =~= Seq::empty());
            }
        },
    }
    (outcome, changes)
}

/// Deletes a module and answers, with the outcome, the row writes that
/// persist the delete: none if there was no such module.
pub fn delete(db: &mut ModuleDatabase, name: &str) -> (logged: (
    Result<(), DbError>,
    Vec<RowChange<'static>>,
))
    requires
        old(db).wf(),
    ensures
        final(db).wf(),
        logged.0 == (if old(db)@.has_name(name@) {
            Ok::<(), DbError>(())
        } else {
            Err(DbError::NotFound)
        }),
        final(db)@ == old(db)@.deleted(name@),
        changes_view(logged.1@) == (match old(db)@.id_of(name@) {
            Some(id) => delete_changes(id),
            None => Seq::empty(),
        }),
        tables_of(old(db)@).apply_all(changes_view(logged.1@)) == tables_of(final(db)@),
{
    let mut changes: Vec<RowChange<'static>> = Vec::new();
    let found = db.id_of(name);
    let outcome = db.delete(name);
    match found {
        Some(id) => {
            changes.push(RowChange::DeleteState { id });
            changes.push(RowChange::DeleteModule { id });
            proof {
                assert(changes_view(changes@) =~= delete_changes(id));
                law_delete_is_persisted(old(db)@, name@);
            }
        },
        None => {
            proof {
                assert(changes_view(changes@) =~= Seq::empty());
            }
        },
    }
    (outcome, changes)
}

/// Sets the state of a module and answers, with the outcome, the row write
/// that persists the change: none if there was no such module.
pub fn set_state(db: &mut ModuleDatabase, name: &str, state: ModuleState) -> (logged: (
    Result<(), DbError>,
    Vec<RowChange<'static>>,
))
    requires
        old(db).wf(),
    ensures
        final(db).wf(),
        logged.0 == (if old(db)@.has_name(name@) {
            Ok::<(), DbError>(())
        } else {
            Err(DbError::NotFound)
        }),
        final(db)@ == old(db)@.with_state(name@, state),
        changes_view(logged.1@) == (match old(db)@.id_of(name@) {
            Some(id) => state_changes(id, state),
            None => Seq::empty(),
        }),
        tables_of(old(db)@).apply_all(changes_view(logged.1@)) == tables_of(final(db)@),
{
    let mut changes: Vec<RowChange<'static>> = Vec::new();
    let found = db.id_of(name);
    let outcome = db.set_state(name, state);
    match found {
        Some(id) => {
            changes.push(RowChange::UpdateState { id, state });
            proof {
                assert(changes_view(changes@) =~= state_changes(id, state));
                law_set_state_is_persisted(old(db)@, name@, state);
            }
        },
        None => {
            proof {
                assert(changes_view(changes@) =~= Seq::empty());
            }
        },
    }
    (outcome, changes)
}

} // verus!
