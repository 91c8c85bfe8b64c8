//! The cache of compiled modules, keyed by module id.
//!
//! A module is compiled the first time it is executed and its artifact is
//! kept for later invocations. Deleting a module from the registry drops
//! its artifact. Ids are never reused, so an artifact never outlives its
//! module into another one.

use std::collections::HashMap;
use vstd::prelude::*;

use crate::abi::HostReply;
use crate::db::{DbError, DbView, ModuleDatabase, ModuleId};
use crate::db_laws::{law_delete_leaves_nothing_behind, law_operation_keeps_invariants, lemma_row_of_id, DbOp};
use crate::journal::{changes_view, delete_changes, tables_of, RowChange, RowChangeView};

verus! {

/// Compiled artifacts of type `M`, by module id.
pub struct ModuleCache<M> {
    artifacts: HashMap<ModuleId, M>,
}

/// Where the compiled artifact of a module comes from.
pub enum Fetch<'a, M> {
    /// The artifact is cached.
    Cached(&'a M),
    /// The module is registered and not compiled yet: this is its bytecode.
    Compile(&'a [u8]),
    /// The registry has no module of that id.
    Missing,
}

/// Every cached artifact belongs to a registered module.
pub open spec fn covered<M>(cache: Map<ModuleId, M>, db: DbView) -> bool {
    forall|id: ModuleId| cache.contains_key(id) ==> #[trigger] db.has_id(id)
}

impl<M> View for ModuleCache<M> {
    type V = Map<ModuleId, M>;

    closed spec fn view(&self) -> Map<ModuleId, M> {
        self.artifacts@
    }
}

impl<M> ModuleCache<M> {
    /// An empty cache.
    pub fn new() -> (cache: Self)
        ensures
            cache@ == Map::<ModuleId, M>::empty(),
    {
        ModuleCache { artifacts: HashMap::new() }
    }

    /// The artifact of the module of that id, if it is cached.
    pub fn get(&self, id: ModuleId) -> (artifact: Option<&M>)
        ensures
            match artifact {
                Some(artifact) => self@.contains_key(id) && self@[id] == *artifact,
                None => !self@.contains_key(id),
            },
    {
        broadcast use vstd::std_specs::hash::group_hash_axioms;

        self.artifacts.get(&id)
    }

    /// Keeps the artifact of a module, in place of an earlier one. An
    /// artifact of a module that the registry does not hold is dropped.
    pub fn insert(&mut self, db: &ModuleDatabase, id: ModuleId, artifact: M)
        requires
            db.wf(),
        ensures
            final(self)@ == (if db@.has_id(id) {
                old(self)@.insert(id, artifact)
            } else {
                old(self)@
            }),
            covered(old(self)@, db@) ==> covered(final(self)@, db@),
    {
        broadcast use vstd::std_specs::hash::group_hash_axioms;

        if db.get(id).is_ok() {
            self.artifacts.insert(id, artifact);
        }
    }

    /// Takes what a compilation of the module of that id has made. An
    /// artifact is kept and the host call `Compile` is answered with
    /// `Compiled`; an error of the compiler fails the call and leaves the
    /// cache as it is.
    pub fn accept<E>(&mut self, db: &ModuleDatabase, id: ModuleId, compiled: Result<M, E>) -> (reply:
        HostReply)
        requires
            db.wf(),
        ensures
            covered(old(self)@, db@) ==> covered(final(self)@, db@),
            match compiled {
                Ok(artifact) => reply == HostReply::Compiled && final(self)@ == (if db@.has_id(id) {
                    old(self)@.insert(id, artifact)
                } else {
                    old(self)@
                }),
                Err(_) => reply == HostReply::Failed && final(self)@ == old(self)@,
            },
    {
        match compiled {
            Ok(artifact) => {
                self.insert(db, id, artifact);
                HostReply::Compiled
            },
            Err(_) => HostReply::Failed,
        }
    }

    /// Drops the artifact of the module of that id, if there is one.
    pub fn invalidate(&mut self, id: ModuleId)
        ensures
            final(self)@ == old(self)@.remove(id),
    {
        broadcast use vstd::std_specs::hash::group_hash_axioms;

        self.artifacts.remove(&id);
    }

    /// Compile or fetch: the cached artifact of the module if there is one,
    /// else the bytecode to compile, else the report that the module is
    /// gone.
    pub fn fetch<'a>(&'a self, db: &'a ModuleDatabase, id: ModuleId) -> (fetch: Fetch<'a, M>)
        requires
            db.wf(),
        ensures
            match fetch {
                Fetch::Cached(artifact) => self@.contains_key(id) && self@[id] == *artifact,
                Fetch::Compile(binary) => !self@.contains_key(id) && db@.binary_of(id) == Some(
                    binary@,
                ),
                Fetch::Missing => !self@.contains_key(id) && db@.binary_of(id).is_none(),
            },
    {
        match self.get(id) {
            Some(artifact) => Fetch::Cached(artifact),
            None => match db.get(id) {
                Ok(binary) => Fetch::Compile(binary),
                Err(_) => Fetch::Missing,
            },
        }
    }
}

/// Deletes the module of that name from the registry and drops its
/// compiled artifact. Answers, with the outcome, the row writes that
/// persist the delete.
pub fn delete_module<M>(db: &mut ModuleDatabase, cache: &mut ModuleCache<M>, name: &str) -> (logged: (
    Result<(), DbError>,
    Vec<RowChange<'static>>,
))
    requires
        old(db).wf(),
    ensures
        final(db).wf(),
        final(db)@ == old(db)@.deleted(name@),
        match old(db)@.id_of(name@) {
            Some(id) => logged.0.is_ok() && final(cache)@ == old(cache)@.remove(id)
                && changes_view(logged.1@) == delete_changes(id),
            None => logged.0 == Err::<(), DbError>(DbError::NotFound) && final(cache)@ == old(
                cache,
            )@ && changes_view(logged.1@) == Seq::<RowChangeView>::empty(),
        },
        tables_of(old(db)@).apply_all(changes_view(logged.1@)) == tables_of(final(db)@),
        covered(old(cache)@, old(db)@) ==> covered(final(cache)@, final(db)@),
{
    let found = db.id_of(name);
    let logged = crate::journal::delete(db, name);
    match found {
        Some(id) => {
            cache.invalidate(id);
            proof {
                law_delete_leaves_nothing_behind(old(db)@, name@);
                if covered(old(cache)@, old(db)@) {
                    assert forall|other: ModuleId| cache@.contains_key(other) implies #[trigger] db@.has_id(
                        other,
                    ) by {
                        assert(old(db)@.has_id(other));
                        assert(db@.state_of_id(other) == old(db)@.state_of_id(other));
                    }
                }
            }
        },
        None => {},
    }
    logged
}

/// A module that is deployed again under its old name after it was deleted
/// is compiled anew: its id is a new one, no artifact is cached for it, and
/// what is fetched for it is the new bytecode.
pub proof fn law_redeploy_is_compiled_anew<M>(
    db: DbView,
    cache: Map<ModuleId, M>,
    name: Seq<char>,
    binary: Seq<u8>,
)
    requires
        db.valid(),
        covered(cache, db),
        db.has_name(name),
        db.last_id < i64::MAX,
    ensures
        ({
            let old_id = db.id_of(name).unwrap();
            let gone = db.deleted(name);
            let dropped = cache.remove(old_id);
            let again = gone.inserted(name, binary);
            &&& gone.insert_outcome(name) matches Ok(new_id) && new_id != old_id
                && !dropped.contains_key(new_id) && again.binary_of(new_id) == Some(binary)
            &&& covered(dropped, again)
        }),
{
    let old_id = db.id_of(name).unwrap();
    let gone = db.deleted(name);
    let dropped = cache.remove(old_id);
    let again = gone.inserted(name, binary);
    law_delete_leaves_nothing_behind(db, name);
    law_operation_keeps_invariants(db, DbOp::Delete { name });
    law_operation_keeps_invariants(gone, DbOp::Insert { name, binary });
    let new_id = (db.last_id + 1) as ModuleId;
    assert(db.rows[db.row_of_name(name)].name.len() > 0);
    assert(gone.insert_outcome(name) == Ok::<ModuleId, DbError>(new_id));
    assert(again.rows[gone.rows.len() as int].id == new_id);
    lemma_row_of_id(again, new_id, gone.rows.len() as int);
    assert(db.rows[db.row_of_name(name)].id <= db.last_id);
    if dropped.contains_key(new_id) {
        assert(db.has_id(new_id));
        assert(db.rows[db.row_of_id(new_id)].id <= db.last_id);
    }
    assert forall|id: ModuleId| dropped.contains_key(id) implies #[trigger] again.has_id(id) by {
        assert(db.has_id(id));
        assert(gone.state_of_id(id) == db.state_of_id(id));
        let i = gone.row_of_id(id);
        assert(again.rows[i].id == id);
    }
}

} // verus!
