//! The module registry: every deployed module with its bytecode and its
//! lifecycle state.
//!
//! The registry is modelled as the sequence of its rows in the order in which
//! they were inserted. Ids are handed out in increasing order and never
//! reused; names are unique. A row carries its state, so a module has exactly
//! one state for as long as it exists and none afterwards.

use vstd::prelude::*;
use vstd::slice::slice_to_vec;

use crate::state::ModuleState;

verus! {

/// Identifier of a module, assigned by the registry on insert.
pub type ModuleId = i64;

/// Why a registry operation was refused.
#[derive(Debug, Clone, Copy, PartialEq, Eq, Structural)]
pub enum DbError {
    /// A module of that name is already registered.
    AlreadyExists,
    /// No module has that name or id.
    NotFound,
    /// A module name must not be empty.
    EmptyName,
    /// Every id has been handed out.
    IdsExhausted,
}

/// One registered module.
#[derive(Debug)]
pub struct ModuleRow {
    pub id: ModuleId,
    pub name: String,
    pub binary: Vec<u8>,
    pub state: ModuleState,
}

/// A registered module as a mathematical value.
pub struct ModuleView {
    pub id: ModuleId,
    pub name: Seq<char>,
    pub binary: Seq<u8>,
    pub state: ModuleState,
}

impl View for ModuleRow {
    type V = ModuleView;

    open spec fn view(&self) -> ModuleView {
        ModuleView { id: self.id, name: self.name@, binary: self.binary@, state: self.state }
    }
}

/// The registry as a mathematical value: its rows in insertion order and the
/// last id that was handed out (0 before the first insert).
pub struct DbView {
    pub rows: Seq<ModuleView>,
    pub last_id: int,
}

impl DbView {
    /// The registry before anything was inserted.
    pub open spec fn empty() -> DbView {
        DbView { rows: Seq::empty(), last_id: 0 }
    }

    /// The invariants of the data model: ids are positive, were handed out
    /// before, and increase along the rows; names are non-empty and unique.
    pub open spec fn valid(self) -> bool {
        &&& 0 <= self.last_id <= i64::MAX
        &&& forall|i: int|
            0 <= i < self.rows.len() ==> 1 <= (#[trigger] self.rows[i]).id <= self.last_id
        &&& forall|i: int, j: int|
            0 <= i < j < self.rows.len() ==> (#[trigger] self.rows[i]).id < (
            #[trigger] self.rows[j]).id
        &&& forall|i: int, j: int|
            0 <= i < j < self.rows.len() ==> (#[trigger] self.rows[i]).name != (
            #[trigger] self.rows[j]).name
        &&& forall|i: int| 0 <= i < self.rows.len() ==> (#[trigger] self.rows[i]).name.len() > 0
    }

    /// Whether a module of that name is registered.
    pub open spec fn has_name(self, name: Seq<char>) -> bool {
        exists|i: int| 0 <= i < self.rows.len() && (#[trigger] self.rows[i]).name == name
    }

    /// The row of the module of that name (meaningful if there is one).
    pub open spec fn row_of_name(self, name: Seq<char>) -> int {
        choose|i: int| 0 <= i < self.rows.len() && (#[trigger] self.rows[i]).name == name
    }

    /// Whether a module of that id is registered.
    pub open spec fn has_id(self, id: ModuleId) -> bool {
        exists|i: int| 0 <= i < self.rows.len() && (#[trigger] self.rows[i]).id == id
    }

    /// The row of the module of that id (meaningful if there is one).
    pub open spec fn row_of_id(self, id: ModuleId) -> int {
        choose|i: int| 0 <= i < self.rows.len() && (#[trigger] self.rows[i]).id == id
    }

    /// The id of the module of that name, if it is registered.
    pub open spec fn id_of(self, name: Seq<char>) -> Option<ModuleId> {
        if self.has_name(name) {
            Some(self.rows[self.row_of_name(name)].id)
        } else {
            None
        }
    }

    /// The state of the module of that name, if it is registered.
    pub open spec fn state_of(self, name: Seq<char>) -> Option<ModuleState> {
        if self.has_name(name) {
            Some(self.rows[self.row_of_name(name)].state)
        } else {
            None
        }
    }

    /// The state row of the module of that id, if there is one.
    pub open spec fn state_of_id(self, id: ModuleId) -> Option<ModuleState> {
        if self.has_id(id) {
            Some(self.rows[self.row_of_id(id)].state)
        } else {
            None
        }
    }

    /// The bytecode of the module of that id, if it is registered.
    pub open spec fn binary_of(self, id: ModuleId) -> Option<Seq<u8>> {
        if self.has_id(id) {
            Some(self.rows[self.row_of_id(id)].binary)
        } else {
            None
        }
    }

    /// What an insert under that name answers: the new id, or the reason for
    /// which the insert is refused.
    pub open spec fn insert_outcome(self, name: Seq<char>) -> Result<ModuleId, DbError> {
        if name.len() == 0 {
            Err(DbError::EmptyName)
        } else if self.has_name(name) {
            Err(DbError::AlreadyExists)
        } else if self.last_id >= i64::MAX {
            Err(DbError::IdsExhausted)
        } else {
            Ok((self.last_id + 1) as ModuleId)
        }
    }

    /// The registry after an insert: one more row in state `NotStarted` where
    /// the insert is accepted, the same registry where it is refused.
    pub open spec fn inserted(self, name: Seq<char>, binary: Seq<u8>) -> DbView {
        match self.insert_outcome(name) {
            Ok(id) => DbView {
                rows: self.rows.push(
                    ModuleView { id, name, binary, state: ModuleState::NotStarted },
                ),
                last_id: id as int,
            },
            Err(_) => self,
        }
    }

    /// The registry after the module of that name was deleted: its row is
    /// gone, and with it its state. Unchanged if there is no such module.
    pub open spec fn deleted(self, name: Seq<char>) -> DbView {
        if self.has_name(name) {
            DbView { rows: self.rows.remove(self.row_of_name(name)), last_id: self.last_id }
        } else {
            self
        }
    }

    /// The registry after the state of the module of that name was set.
    /// Unchanged if there is no such module.
    pub open spec fn with_state(self, name: Seq<char>, state: ModuleState) -> DbView {
        if self.has_name(name) {
            let i = self.row_of_name(name);
            DbView {
                rows: self.rows.update(i, ModuleView { state, ..self.rows[i] }),
                last_id: self.last_id,
            }
        } else {
            self
        }
    }

    /// The ids of the modules in that state, in insertion order.
    pub open spec fn ids_in_state(self, state: ModuleState) -> Seq<ModuleId> {
        self.rows.filter(|row: ModuleView| row.state == state).map_values(
            |row: ModuleView| row.id,
        )
    }
}

/// The rows of the registry as mathematical values.
pub open spec fn rows_view(rows: Seq<ModuleRow>) -> Seq<ModuleView> {
    rows.map_values(|row: ModuleRow| row@)
}

/// The registry of modules.
pub struct ModuleDatabase {
    rows: Vec<ModuleRow>,
    last_id: ModuleId,
}

impl View for ModuleDatabase {
    type V = DbView;

    closed spec fn view(&self) -> DbView {
        DbView { rows: rows_view(self.rows@), last_id: self.last_id as int }
    }
}

impl ModuleDatabase {
    /// Whether the registry obeys the invariants of the data model. Every
    /// registry that this library hands out does.
    pub open spec fn wf(&self) -> bool {
        self@.valid()
    }

    /// A registry without modules.
    pub fn new() -> (db: ModuleDatabase)
        ensures
            db.wf(),
            db@ == DbView::empty(),
    {
        let db = ModuleDatabase { rows: Vec::new(), last_id: 0 };
        assert(db@.rows =~= Seq::empty());
        db
    }

    /// The registry that held those rows, in that order, and had handed
    /// out `last_id` as its last id. `None` if they break the invariants
    /// of the data model, as the rows of a registry never do.
    pub fn restore(rows: Vec<ModuleRow>, last_id: ModuleId) -> (db: Option<ModuleDatabase>)
        ensures
            match db {
                Some(db) => db.wf() && db@ == (DbView {
                    rows: rows_view(rows@),
                    last_id: last_id as int,
                }),
                None => !(DbView { rows: rows_view(rows@), last_id: last_id as int }).valid(),
            },
    {
        let ghost whole = DbView { rows: rows_view(rows@), last_id: last_id as int };
        if last_id < 0 {
            return None;
        }
        let mut i: usize = 0;
        while i < rows.len()
            invariant
                i <= rows.len(),
                0 <= last_id,
                whole == (DbView { rows: rows_view(rows@), last_id: last_id as int }),
                forall|k: int| 0 <= k < i ==> 1 <= (#[trigger] whole.rows[k]).id <= last_id,
                forall|k: int| 0 <= k < i ==> (#[trigger] whole.rows[k]).name.len() > 0,
                forall|k: int, l: int|
                    0 <= k < l < i ==> (#[trigger] whole.rows[k]).id < (#[trigger] whole.rows[l]).id,
                forall|k: int, l: int|
                    0 <= k < l < i ==> (#[trigger] whole.rows[k]).name != (
                    #[trigger] whole.rows[l]).name,
            decreases rows.len() - i,
        {
            let row = &rows[i];
            if row.id < 1 || row.id > last_id || row.name.as_str().is_empty() {
                proof {
                    assert(whole.rows[i as int] == row@);
                }
                return None;
            }
            if i > 0 && rows[i - 1].id >= row.id {
                proof {
                    assert(whole.rows[i as int] == row@);
                    assert(whole.rows[i - 1].id >= whole.rows[i as int].id);
                }
                return None;
            }
            let mut j: usize = 0;
            while j < i
                invariant
                    j <= i < rows.len(),
                    row == &rows[i as int],
                    whole == (DbView { rows: rows_view(rows@), last_id: last_id as int }),
                    forall|k: int| 0 <= k < j ==> (#[trigger] whole.rows[k]).name != row.name@,
                decreases i - j,
            {
                if rows[j].name == row.name {
                    proof {
                        assert(whole.rows[j as int].name == whole.rows[i as int].name);
                    }
                    return None;
                }
                j += 1;
            }
            proof {
                assert(whole.rows[i as int] == row@);
                assert forall|k: int, l: int| 0 <= k < l < i + 1 implies (
                #[trigger] whole.rows[k]).id < (#[trigger] whole.rows[l]).id by {
                    if l == i && k < i - 1 {
                        assert(whole.rows[k].id < whole.rows[i - 1].id);
                    }
                }
            }
            i += 1;
        }
        Some(ModuleDatabase { rows, last_id })
    }

    /// The rows of the registry, in insertion order.
    pub fn rows(&self) -> (rows: &Vec<ModuleRow>)
        ensures
            rows_view(rows@) == self@.rows,
    {
        &self.rows
    }

    /// The id that was handed out last, 0 if none was.
    pub fn last_id(&self) -> (id: ModuleId)
        ensures
            id == self@.last_id,
    {
        self.last_id
    }

    /// The number of registered modules.
    pub fn len(&self) -> (n: usize)
        ensures
            n == self@.rows.len(),
    {
        self.rows.len()
    }

    fn find_name(&self, name: &str) -> (found: Option<usize>)
        requires
            self.wf(),
        ensures
            match found {
                Some(i) => self@.has_name(name@) && i as int == self@.row_of_name(name@) && i
                    < self.rows.len(),
                None => !self@.has_name(name@),
            },
    {
        let wanted = name.to_owned();
        let mut i: usize = 0;
        while i < self.rows.len()
            invariant
                self.wf(),
                i <= self.rows.len(),
                wanted@ == name@,
                forall|k: int| 0 <= k < i ==> (#[trigger] self@.rows[k]).name != name@,
            decreases self.rows.len() - i,
        {
            if self.rows[i].name == wanted {
                proof {
                    let view = self@;
                    assert(view.rows[i as int].name == name@);
                    let chosen = view.row_of_name(name@);
                    assert(view.rows[chosen].name == name@);
                    assert(chosen == i as int);
                }
                return Some(i);
            }
            i += 1;
        }
        None
    }

    fn find_id(&self, id: ModuleId) -> (found: Option<usize>)
        requires
            self.wf(),
        ensures
            match found {
                Some(i) => self@.has_id(id) && i as int == self@.row_of_id(id) && i
                    < self.rows.len(),
                None => !self@.has_id(id),
            },
    {
        let mut i: usize = 0;
        while i < self.rows.len()
            invariant
                self.wf(),
                i <= self.rows.len(),
                forall|k: int| 0 <= k < i ==> (#[trigger] self@.rows[k]).id != id,
            decreases self.rows.len() - i,
        {
            if self.rows[i].id == id {
                proof {
                    let view = self@;
                    assert(view.rows[i as int].id == id);
                    let chosen = view.row_of_id(id);
                    assert(view.rows[chosen].id == id);
                    assert(chosen == i as int);
                }
                return Some(i);
            }
            i += 1;
        }
        None
    }

    /// Registers a module under a new name, in state `NotStarted`, and
    /// answers its id. The id is one more than the last id handed out.
    /// Refused, with the registry unchanged, if the name is empty or taken
    /// or if no id is left.
    pub fn insert(&mut self, name: &str, binary: &[u8]) -> (outcome: Result<ModuleId, DbError>)
        requires
            old(self).wf(),
        ensures
            final(self).wf(),
            outcome == old(self)@.insert_outcome(name@),
            final(self)@ == old(self)@.inserted(name@, binary@),
    {
        if name.is_empty() {
            return Err(DbError::EmptyName);
        }
        if self.find_name(name).is_some() {
            return Err(DbError::AlreadyExists);
        }
        if self.last_id >= i64::MAX {
            return Err(DbError::IdsExhausted);
        }
        let id: ModuleId = self.last_id + 1;
        let row = ModuleRow {
            id,
            name: name.to_owned(),
            binary: slice_to_vec(binary),
            state: ModuleState::NotStarted,
        };
        self.rows.push(row);
        self.last_id = id;
        proof {
            assert(final(self)@.rows =~= old(self)@.inserted(name@, binary@).rows);
        }
        Ok(id)
    }

    /// The bytecode of the module of that id.
    pub fn get(&self, id: ModuleId) -> (outcome: Result<&[u8], DbError>)
        requires
            self.wf(),
        ensures
            match outcome {
                Ok(binary) => self@.binary_of(id) == Some(binary@),
                Err(e) => e == DbError::NotFound && self@.binary_of(id).is_none(),
            },
    {
        match self.find_id(id) {
            Some(i) => Ok(self.rows[i].binary.as_slice()),
            None => Err(DbError::NotFound),
        }
    }

    /// The id of the module of that name, if it is registered.
    pub fn id_of(&self, name: &str) -> (id: Option<ModuleId>)
        requires
            self.wf(),
        ensures
            id == self@.id_of(name@),
    {
        match self.find_name(name) {
            Some(i) => Some(self.rows[i].id),
            None => None,
        }
    }

    /// The state of the module of that name, if it is registered.
    pub fn state_of(&self, name: &str) -> (state: Option<ModuleState>)
        requires
            self.wf(),
        ensures
            state == self@.state_of(name@),
    {
        match self.find_name(name) {
            Some(i) => Some(self.rows[i].state),
            None => None,
        }
    }

    /// Removes the module of that name together with its state.
    pub fn delete(&mut self, name: &str) -> (outcome: Result<(), DbError>)
        requires
            old(self).wf(),
        ensures
            final(self).wf(),
            outcome == (if old(self)@.has_name(name@) {
                Ok::<(), DbError>(())
            } else {
                Err(DbError::NotFound)
            }),
            final(self)@ == old(self)@.deleted(name@),
    {
        match self.find_name(name) {
            Some(i) => {
                self.rows.remove(i);
                proof {
                    assert(final(self)@.rows =~= old(self)@.rows.remove(i as int));
                }
                Ok(())
            },
            None => Err(DbError::NotFound),
        }
    }

    /// Sets the state of the module of that name.
    pub fn set_state(&mut self, name: &str, state: ModuleState) -> (outcome: Result<(), DbError>)
        requires
            old(self).wf(),
        ensures
            final(self).wf(),
            outcome == (if old(self)@.has_name(name@) {
                Ok::<(), DbError>(())
            } else {
                Err(DbError::NotFound)
            }),
            final(self)@ == old(self)@.with_state(name@, state),
    {
        match self.find_name(name) {
            Some(i) => {
                let mut row = self.rows.remove(i);
                row.state = state;
                self.rows.insert(i, row);
                proof {
                    let before = old(self)@;
                    assert(final(self)@.rows =~= before.rows.update(
                        i as int,
                        ModuleView { state, ..before.rows[i as int] },
                    ));
                }
                Ok(())
            },
            None => Err(DbError::NotFound),
        }
    }

    /// The ids of all modules that are in the given state, in the order in
    /// which the modules were inserted.
    pub fn get_modules_by_state(&self, state: ModuleState) -> (ids: Vec<ModuleId>)
        requires
            self.wf(),
        ensures
            ids@ == self@.ids_in_state(state),
    {
        let mut ids: Vec<ModuleId> = Vec::new();
        let mut i: usize = 0;
        proof {
            assert(self@.rows.take(0) =~= Seq::empty());
        }
        while i < self.rows.len()
            invariant
                i <= self.rows.len(),
                ids@ == (DbView { rows: self@.rows.take(i as int), last_id: 0 }).ids_in_state(state),
            decreases self.rows.len() - i,
        {
            proof {
                let rows = self@.rows;
                let pred = |row: ModuleView| row.state == state;
                assert(rows.take(i + 1) =~= rows.take(i as int).push(rows[i as int]));
                rows.take(i as int).lemma_filter_push(rows[i as int], pred);
            }
            if self.rows[i].state == state {
                ids.push(self.rows[i].id);
            }
            i += 1;
            proof {
                let rows = self@.rows;
                let pred = |row: ModuleView| row.state == state;
                let ident = |row: ModuleView| row.id;
                assert(ids@ =~= rows.take(i as int).filter(pred).map_values(ident));
            }
        }
        proof {
            assert(self@.rows.take(i as int) =~= self@.rows);
        }
        ids
    }
}

} // verus!
