use xxfunc::abi::{ExecError, HostCall, HostReply, Invocation, Step};

fn run(replies: &[HostReply]) -> (Invocation, Vec<HostCall>) {
    let mut invocation = Invocation::new(7, 4);
    let mut calls = vec![invocation.pending()];
    for reply in replies {
        calls.push(invocation.advance(*reply));
    }
    (invocation, calls)
}

#[test]
fn successful_invocation_makes_the_six_calls_in_order() {
    let (invocation, calls) = run(&[
        HostReply::Compiled,
        HostReply::Instantiated,
        HostReply::Bound,
        HostReply::Allocated { ptr: 1024 },
        HostReply::Written,
        HostReply::Processed { result: 4 },
    ]);
    assert_eq!(
        calls,
        vec![
            HostCall::Compile { module_id: 7 },
            HostCall::Instantiate,
            HostCall::Bind,
            HostCall::Alloc { size: 4 },
            HostCall::Write { ptr: 1024 },
            HostCall::Process { ptr: 1024, size: 4 },
            HostCall::Finish { outcome: Ok(4) },
        ]
    );
    assert_eq!(invocation.outcome(), Some(Ok(4)));
    assert_eq!(invocation.step, Step::Done { outcome: Ok(4) });
}

#[test]
fn new_invocation_owes_the_compilation() {
    let invocation = Invocation::new(3, 9);
    assert_eq!(invocation.step, Step::Compiling);
    assert_eq!(invocation.module_id, 3);
    assert_eq!(invocation.size, 9);
    assert_eq!(invocation.pending(), HostCall::Compile { module_id: 3 });
    assert_eq!(invocation.outcome(), None);
}

#[test]
fn missing_module_is_a_registry_error() {
    let (invocation, calls) = run(&[HostReply::ModuleMissing]);
    assert_eq!(calls[1], HostCall::Finish { outcome: Err(ExecError::Registry) });
    assert_eq!(invocation.outcome(), Some(Err(ExecError::Registry)));
}

#[test]
fn rejected_bytecode_is_a_compile_error() {
    let (invocation, _) = run(&[HostReply::Failed]);
    assert_eq!(invocation.outcome(), Some(Err(ExecError::Compile)));
}

#[test]
fn failed_instantiation_is_an_instantiate_error() {
    let (invocation, calls) = run(&[HostReply::Compiled, HostReply::Failed]);
    assert_eq!(invocation.outcome(), Some(Err(ExecError::Instantiate)));
    assert_eq!(calls.len(), 3);
    assert_eq!(calls[2], HostCall::Finish { outcome: Err(ExecError::Instantiate) });
}

#[test]
fn missing_export_is_an_abi_error() {
    let (invocation, _) = run(&[HostReply::Compiled, HostReply::Instantiated, HostReply::Failed]);
    assert_eq!(invocation.outcome(), Some(Err(ExecError::Abi)));
}

#[test]
fn trap_in_alloc_is_a_trap_error() {
    let (invocation, _) = run(&[
        HostReply::Compiled,
        HostReply::Instantiated,
        HostReply::Bound,
        HostReply::Failed,
    ]);
    assert_eq!(invocation.outcome(), Some(Err(ExecError::Trap)));
}

#[test]
fn write_out_of_bounds_is_a_memory_error() {
    let (invocation, calls) = run(&[
        HostReply::Compiled,
        HostReply::Instantiated,
        HostReply::Bound,
        HostReply::Allocated { ptr: u64::MAX },
        HostReply::Failed,
    ]);
    assert_eq!(calls[4], HostCall::Write { ptr: u64::MAX });
    assert_eq!(invocation.outcome(), Some(Err(ExecError::Memory)));
}

#[test]
fn trap_in_process_is_a_trap_error() {
    let (invocation, calls) = run(&[
        HostReply::Compiled,
        HostReply::Instantiated,
        HostReply::Bound,
        HostReply::Allocated { ptr: 8 },
        HostReply::Written,
        HostReply::Failed,
    ]);
    assert_eq!(calls[5], HostCall::Process { ptr: 8, size: 4 });
    assert_eq!(invocation.outcome(), Some(Err(ExecError::Trap)));
}

#[test]
fn no_step_is_attempted_after_a_failure() {
    let (invocation, calls) = run(&[
        HostReply::Compiled,
        HostReply::Failed,
        HostReply::Instantiated,
        HostReply::Bound,
        HostReply::Allocated { ptr: 8 },
        HostReply::Written,
        HostReply::Processed { result: 1 },
    ]);
    for call in &calls[2..] {
        assert_eq!(*call, HostCall::Finish { outcome: Err(ExecError::Instantiate) });
    }
    assert_eq!(invocation.outcome(), Some(Err(ExecError::Instantiate)));
}

#[test]
fn a_reply_to_another_call_fails_the_pending_one() {
    let (invocation, _) = run(&[HostReply::Instantiated]);
    assert_eq!(invocation.outcome(), Some(Err(ExecError::Compile)));
    let (invocation, _) = run(&[HostReply::Compiled, HostReply::Compiled]);
    assert_eq!(invocation.outcome(), Some(Err(ExecError::Instantiate)));
    let (invocation, _) = run(&[HostReply::Compiled, HostReply::ModuleMissing]);
    assert_eq!(invocation.outcome(), Some(Err(ExecError::Instantiate)));
    let (invocation, _) = run(&[
        HostReply::Compiled,
        HostReply::Instantiated,
        HostReply::Bound,
        HostReply::Processed { result: 4 },
    ]);
    assert_eq!(invocation.outcome(), Some(Err(ExecError::Trap)));
}

#[test]
fn finished_invocation_keeps_its_outcome() {
    let (mut invocation, _) = run(&[
        HostReply::Compiled,
        HostReply::Instantiated,
        HostReply::Bound,
        HostReply::Allocated { ptr: 0 },
        HostReply::Written,
        HostReply::Processed { result: 57005 },
    ]);
    for reply in [HostReply::Failed, HostReply::Compiled, HostReply::Processed { result: 1 }] {
        assert_eq!(invocation.advance(reply), HostCall::Finish { outcome: Ok(57005) });
    }
    assert_eq!(invocation.outcome(), Some(Ok(57005)));
}

#[test]
fn process_gets_the_pointer_of_alloc_and_the_size_of_the_input() {
    for (size, ptr) in [(0u64, 0u64), (4, 65536), (u64::MAX, 1)] {
        let mut invocation = Invocation::new(1, size);
        invocation.advance(HostReply::Compiled);
        invocation.advance(HostReply::Instantiated);
        assert_eq!(invocation.advance(HostReply::Bound), HostCall::Alloc { size });
        assert_eq!(invocation.advance(HostReply::Allocated { ptr }), HostCall::Write { ptr });
        assert_eq!(invocation.advance(HostReply::Written), HostCall::Process { ptr, size });
    }
}
