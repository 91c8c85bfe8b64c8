//! The invocation protocol between the host and one sandboxed module.
//!
//! A module exports a linear memory `memory`, `alloc(size) -> ptr` and
//! `process(ptr, size) -> result`. For each task the host compiles or
//! fetches the module, instantiates it in a fresh sandbox, binds the three
//! exports, asks the module to reserve room for the input, writes the input
//! there and calls `process` on it. The first step that fails ends the
//! invocation with the error of that step; no later step is attempted.
//!
//! The sandbox itself is outside this library. An [`Invocation`] decides
//! what the host does next ([`HostCall`]) from what the sandbox answered
//! ([`HostReply`]).

use vstd::prelude::*;

use crate::db::ModuleId;

verus! {

/// Why an invocation failed.
#[derive(Debug, Clone, Copy, PartialEq, Eq, Structural)]
pub enum ExecError {
    /// The registry could not deliver the module.
    Registry,
    /// The engine rejected the bytecode.
    Compile,
    /// The module could not be instantiated against the linker.
    Instantiate,
    /// `memory`, `alloc` or `process` is missing or wrongly typed.
    Abi,
    /// The input did not fit into linear memory at the pointer given.
    Memory,
    /// The module trapped in `alloc` or `process`.
    Trap,
}

/// How an invocation ended: the value that `process` returned, or the error.
pub type Outcome = Result<u64, ExecError>;

/// What the host does next.
#[derive(Debug, Clone, Copy, PartialEq, Eq)]
pub enum HostCall {
    /// Compile the module of that id, or fetch its compiled artifact.
    Compile { module_id: ModuleId },
    /// Build a fresh context and store and instantiate the module.
    Instantiate,
    /// Acquire `memory`, `alloc` and `process` from the instance.
    Bind,
    /// Call `alloc(size)`.
    Alloc { size: u64 },
    /// Write the input into linear memory at `ptr`.
    Write { ptr: u64 },
    /// Call `process(ptr, size)`.
    Process { ptr: u64, size: u64 },
    /// Drop the sandbox and signal the outcome at the task's sink.
    Finish { outcome: Outcome },
}

/// What the sandbox answered to the last call.
#[derive(Debug, Clone, Copy, PartialEq, Eq, Structural)]
pub enum HostReply {
    /// The compiled artifact is there.
    Compiled,
    /// The registry has no module of that id.
    ModuleMissing,
    /// The instance is there.
    Instantiated,
    /// The three exports are there, with the types of the ABI.
    Bound,
    /// `alloc` returned that pointer.
    Allocated { ptr: u64 },
    /// The input was written.
    Written,
    /// `process` returned that value.
    Processed { result: u64 },
    /// The call did not succeed.
    Failed,
}

/// Where an invocation stands: the call that the host has been asked to
/// make and has not yet answered, or the outcome.
#[derive(Debug, Clone, Copy, PartialEq, Eq)]
pub enum Step {
    Compiling,
    Instantiating,
    Binding,
    Allocating,
    Writing { ptr: u64 },
    Processing { ptr: u64 },
    Done { outcome: Outcome },
}

/// The error with which an invocation ends if the call of that step does
/// not succeed.
pub open spec fn error_of(step: Step) -> ExecError {
    match step {
        Step::Compiling => ExecError::Compile,
        Step::Instantiating => ExecError::Instantiate,
        Step::Binding => ExecError::Abi,
        Step::Allocating => ExecError::Trap,
        Step::Writing { .. } => ExecError::Memory,
        Step::Processing { .. } => ExecError::Trap,
        Step::Done { outcome } => ExecError::Trap,
    }
}

/// The step that follows if the call of that step succeeded with that
/// reply, `None` if the reply is no success of that call.
pub open spec fn success_of(step: Step, reply: HostReply) -> Option<Step> {
    match (step, reply) {
        (Step::Compiling, HostReply::Compiled) => Some(Step::Instantiating),
        (Step::Instantiating, HostReply::Instantiated) => Some(Step::Binding),
        (Step::Binding, HostReply::Bound) => Some(Step::Allocating),
        (Step::Allocating, HostReply::Allocated { ptr }) => Some(Step::Writing { ptr }),
        (Step::Writing { ptr }, HostReply::Written) => Some(Step::Processing { ptr }),
        (Step::Processing { ptr }, HostReply::Processed { result }) => Some(
            Step::Done { outcome: Ok(result) },
        ),
        _ => None,
    }
}

/// The step after a reply. A success leads to the next call. Anything else
/// ends the invocation with the error of the step, a missing module with
/// `Registry`. An invocation that is done stays as it is.
pub open spec fn next_step(step: Step, reply: HostReply) -> Step {
    if step is Done {
        step
    } else if let Some(next) = success_of(step, reply) {
        next
    } else if step is Compiling && reply is ModuleMissing {
        Step::Done { outcome: Err(ExecError::Registry) }
    } else {
        Step::Done { outcome: Err(error_of(step)) }
    }
}

/// The call that the host owes in that step, for a module and an input of
/// `size` bytes.
pub open spec fn call_of(step: Step, module_id: ModuleId, size: u64) -> HostCall {
    match step {
        Step::Compiling => HostCall::Compile { module_id },
        Step::Instantiating => HostCall::Instantiate,
        Step::Binding => HostCall::Bind,
        Step::Allocating => HostCall::Alloc { size },
        Step::Writing { ptr } => HostCall::Write { ptr },
        Step::Processing { ptr } => HostCall::Process { ptr, size },
        Step::Done { outcome } => HostCall::Finish { outcome },
    }
}

/// The step after a sequence of replies, the first reply first.
pub open spec fn step_after(step: Step, replies: Seq<HostReply>) -> Step
    decreases replies.len(),
{
    if replies.len() == 0 {
        step
    } else {
        next_step(step_after(step, replies.drop_last()), replies.last())
    }
}

/// The replies that an invocation needs before it is done, at most.
pub open spec fn steps_left(step: Step) -> nat {
    match step {
        Step::Compiling => 6,
        Step::Instantiating => 5,
        Step::Binding => 4,
        Step::Allocating => 3,
        Step::Writing { .. } => 2,
        Step::Processing { .. } => 1,
        Step::Done { .. } => 0,
    }
}

/// One invocation of one module on one input.
#[derive(Debug, Clone, Copy, PartialEq, Eq)]
pub struct Invocation {
    pub module_id: ModuleId,
    pub size: u64,
    pub step: Step,
}

impl Invocation {
    /// The invocation of that module on an input of `size` bytes, before
    /// anything was done: the host owes the compilation.
    pub fn new(module_id: ModuleId, size: u64) -> (invocation: Invocation)
        ensures
            invocation == (Invocation { module_id, size, step: Step::Compiling }),
    {
        Invocation { module_id, size, step: Step::Compiling }
    }

    /// The call that the host owes now.
    pub fn pending(&self) -> (call: HostCall)
        ensures
            call == call_of(self.step, self.module_id, self.size),
    {
        match self.step {
            Step::Compiling => HostCall::Compile { module_id: self.module_id },
            Step::Instantiating => HostCall::Instantiate,
            Step::Binding => HostCall::Bind,
            Step::Allocating => HostCall::Alloc { size: self.size },
            Step::Writing { ptr } => HostCall::Write { ptr },
            Step::Processing { ptr } => HostCall::Process { ptr, size: self.size },
            Step::Done { outcome } => HostCall::Finish { outcome },
        }
    }

    /// Takes the sandbox's reply to the pending call and answers the call
    /// that the host owes next.
    pub fn advance(&mut self, reply: HostReply) -> (call: HostCall)
        ensures
            final(self).module_id == old(self).module_id,
            final(self).size == old(self).size,
            final(self).step == next_step(old(self).step, reply),
            call == call_of(final(self).step, final(self).module_id, final(self).size),
    {
        let next = match (self.step, reply) {
            (Step::Done { outcome }, _) => Step::Done { outcome },
            (Step::Compiling, HostReply::Compiled) => Step::Instantiating,
            (Step::Compiling, HostReply::ModuleMissing) => Step::Done {
                outcome: Err(ExecError::Registry),
            },
            (Step::Compiling, _) => Step::Done { outcome: Err(ExecError::Compile) },
            (Step::Instantiating, HostReply::Instantiated) => Step::Binding,
            (Step::Instantiating, _) => Step::Done { outcome: Err(ExecError::Instantiate) },
            (Step::Binding, HostReply::Bound) => Step::Allocating,
            (Step::Binding, _) => Step::Done { outcome: Err(ExecError::Abi) },
            (Step::Allocating, HostReply::Allocated { ptr }) => Step::Writing { ptr },
            (Step::Allocating, _) => Step::Done { outcome: Err(ExecError::Trap) },
            (Step::Writing { ptr }, HostReply::Written) => Step::Processing { ptr },
            (Step::Writing { .. }, _) => Step::Done { outcome: Err(ExecError::Memory) },
            (Step::Processing { .. }, HostReply::Processed { result }) => Step::Done {
                outcome: Ok(result),
            },
            (Step::Processing { .. }, _) => Step::Done { outcome: Err(ExecError::Trap) },
        };
        self.step = next;
        self.pending()
    }

    /// The outcome, once the invocation is done.
    pub fn outcome(&self) -> (outcome: Option<Outcome>)
        ensures
            outcome == (match self.step {
                Step::Done { outcome } => Some(outcome),
                _ => None,
            }),
    {
        match self.step {
            Step::Done { outcome } => Some(outcome),
            _ => None,
        }
    }
}

/// Every reply brings an invocation that is not done nearer to its end.
pub proof fn law_every_reply_is_progress(step: Step, reply: HostReply)
    requires
        !(step is Done),
    ensures
        steps_left(next_step(step, reply)) < steps_left(step),
{
}

/// An invocation is done after six replies at the latest, whatever they
/// are.
pub proof fn law_invocation_ends(replies: Seq<HostReply>)
    ensures
        steps_left(step_after(Step::Compiling, replies)) <= 6,
        steps_left(step_after(Step::Compiling, replies)) + replies.len() <= 6 || step_after(
            Step::Compiling,
            replies,
        ) is Done,
        replies.len() >= 6 ==> step_after(Step::Compiling, replies) is Done,
    decreases replies.len(),
{
    if replies.len() > 0 {
        law_invocation_ends(replies.drop_last());
    }
}

/// An invocation that is done stays done with the same outcome whatever the
/// sandbox answers: after a failure no further step is attempted.
pub proof fn law_done_is_final(outcome: Outcome, replies: Seq<HostReply>)
    ensures
        step_after(Step::Done { outcome }, replies) == (Step::Done { outcome }),
    decreases replies.len(),
{
    if replies.len() > 0 {
        law_done_is_final(outcome, replies.drop_last());
    }
}

/// A step that does not succeed ends the invocation with the error of that
/// step.
pub proof fn law_failure_has_the_error_of_its_step(step: Step, reply: HostReply)
    requires
        !(step is Done),
        success_of(step, reply).is_none(),
    ensures
        next_step(step, reply) == (Step::Done {
            outcome: Err(
                if step is Compiling && reply is ModuleMissing {
                    ExecError::Registry
                } else {
                    error_of(step)
                },
            ),
        }),
{
}

/// `process` is only ever called right after the input was written at the
/// pointer that `alloc` returned right before that, and with the size that
/// `alloc` was called with.
pub proof fn law_process_follows_alloc(
    module_id: ModuleId,
    size: u64,
    replies: Seq<HostReply>,
    ptr: u64,
    len: u64,
)
    requires
        call_of(step_after(Step::Compiling, replies), module_id, size) == (HostCall::Process {
            ptr,
            size: len,
        }),
    ensures
        len == size,
        replies.len() >= 2,
        replies[replies.len() - 1] == HostReply::Written,
        replies[replies.len() - 2] == (HostReply::Allocated { ptr }),
        call_of(step_after(Step::Compiling, replies.drop_last()), module_id, size) == (
        HostCall::Write { ptr }),
        call_of(step_after(Step::Compiling, replies.drop_last().drop_last()), module_id, size) == (
        HostCall::Alloc { size }),
{
    let last = step_after(Step::Compiling, replies);
    assert(last == Step::Processing { ptr });
    assert(replies.len() > 0);
    let before = replies.drop_last();
    let writing = step_after(Step::Compiling, before);
    assert(last == next_step(writing, replies.last()));
    assert(writing == Step::Writing { ptr });
    assert(before.len() > 0);
    let allocating = step_after(Step::Compiling, before.drop_last());
    assert(writing == next_step(allocating, before.last()));
    assert(allocating == Step::Allocating);
}

/// An invocation succeeds only by way of all six calls, each answered with
/// its success, and its value is what `process` returned.
pub proof fn law_success_takes_every_step(replies: Seq<HostReply>, value: u64)
    requires
        step_after(Step::Compiling, replies) == (Step::Done { outcome: Ok(value) }),
    ensures
        replies.len() >= 6,
        replies[0] == HostReply::Compiled,
        replies[1] == HostReply::Instantiated,
        replies[2] == HostReply::Bound,
        replies[3] is Allocated,
        replies[4] == HostReply::Written,
        replies[5] == (HostReply::Processed { result: value }),
    decreases replies.len(),
{
    let front = replies.drop_last();
    let prev = step_after(Step::Compiling, front);
    if prev is Done {
        law_success_takes_every_step(front, value);
    } else {
        let r5 = front;
        assert(prev is Processing);
        let r4 = r5.drop_last();
        assert(step_after(Step::Compiling, r4) is Writing);
        let r3 = r4.drop_last();
        assert(step_after(Step::Compiling, r3) is Allocating);
        let r2 = r3.drop_last();
        assert(step_after(Step::Compiling, r2) is Binding);
        let r1 = r2.drop_last();
        assert(step_after(Step::Compiling, r1) is Instantiating);
        let r0 = r1.drop_last();
        assert(step_after(Step::Compiling, r0) is Compiling);
        assert(r0.len() == 0);
    }
}

} // verus!
