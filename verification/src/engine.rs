//! Compilation of modules by the WebAssembly engine.
//!
//! The first step of an invocation, compile or fetch, as it is made with
//! `wasmtime`: what the engine compiled is kept in the cache, and what it
//! rejected ends the invocation.

use vstd::prelude::*;

use crate::abi::HostReply;
use crate::cache::{covered, ModuleCache};
use crate::db::{ModuleDatabase, ModuleId};

verus! {

/// The engine of `wasmtime`. Opaque here.
#[verifier::external_type_specification]
#[verifier::external_body]
pub struct ExEngine(wasmtime::Engine);

/// A compiled module of `wasmtime`. Opaque here.
#[verifier::external_type_specification]
#[verifier::external_body]
pub struct ExCompiledModule(wasmtime::Module);

/// The error of `wasmtime`. Opaque here.
#[verifier::external_type_specification]
#[verifier::external_body]
pub struct ExEngineError(wasmtime::Error);

/// `wasmtime::Module::new`: the module that the engine compiled from the
/// bytes, or its error if it rejected them. Nothing is claimed of either.
#[verifier::external_body]
fn compile(engine: &wasmtime::Engine, binary: &[u8]) -> (compiled: Result<
    wasmtime::Module,
    wasmtime::Error,
>) {
    wasmtime::Module::new(engine, binary)
}

/// Answers the host call `Compile` for the module of that id. A cached
/// artifact is fetched and nothing is compiled. Else the bytecode of the
/// module is compiled by the engine; what the engine accepts is cached,
/// what it rejects fails the call. A module that is not registered is
/// reported missing.
pub fn compile_or_fetch(
    cache: &mut ModuleCache<wasmtime::Module>,
    engine: &wasmtime::Engine,
    db: &ModuleDatabase,
    id: ModuleId,
) -> (reply: HostReply)
    requires
        db.wf(),
    ensures
        covered(old(cache)@, db@) ==> covered(final(cache)@, db@),
        if old(cache)@.contains_key(id) {
            reply == HostReply::Compiled && final(cache)@ == old(cache)@
        } else if db@.binary_of(id).is_none() {
            reply == HostReply::ModuleMissing && final(cache)@ == old(cache)@
        } else {
            ||| reply == HostReply::Failed && final(cache)@ == old(cache)@
            ||| reply == HostReply::Compiled && final(cache)@.contains_key(id) && final(cache)@
                == old(cache)@.insert(id, final(cache)@[id])
        },
{
    if cache.get(id).is_some() {
        return HostReply::Compiled;
    }
    match db.get(id) {
        Ok(binary) => {
            let compiled = compile(engine, binary);
            cache.accept(db, id, compiled)
        },
        Err(_) => HostReply::ModuleMissing,
    }
}

} // verus!
