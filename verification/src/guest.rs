//! The module side of the ABI: what the entry points that wrap a user
//! function do with the pointer and the size that the host passes.
//!
//! [`Guest`] is a module in plain values: a linear memory that grows at its
//! end, the record of the latest allocation, and the user function.
//! `alloc` reserves room and remembers where; `process` insists on being
//! called with exactly the latest allocation, runs the user function on
//! those bytes and answers their number.

use vstd::prelude::*;
use vstd::slice::slice_subrange;

use crate::abi::{steps_left, ExecError, HostCall, HostReply, Invocation, Outcome, Step};
use crate::db::ModuleId;

verus! {

/// The module trapped.
#[derive(Debug, Clone, Copy, PartialEq, Eq, Structural)]
pub struct Trapped;

/// A write that does not fit into linear memory.
#[derive(Debug, Clone, Copy, PartialEq, Eq, Structural)]
pub struct OutOfBounds;

/// Whether a function of that name can be made the entry point of a
/// module: only `main` can.
pub fn is_entry_name(name: &str) -> (accepted: bool)
    ensures
        accepted == (name@ == "main"@),
{
    name.to_owned() == "main".to_owned()
}

/// Whether `value` is what the user function answered on those bytes.
pub open spec fn answered<T, F: Fn(&[u8]) -> T>(body: F, bytes: Seq<u8>, value: T) -> bool {
    exists|data: &[u8]| #[trigger] call_ensures(body, (data,), value) && data@ == bytes
}

/// The plain entry point around a user function: the function is run on the
/// `data_size` bytes of `memory` from `data_ptr` on, and its value is
/// handed back. A range that leaves the memory is a trap: `None`.
pub fn entry<T, F: Fn(&[u8]) -> T>(memory: &[u8], data_ptr: usize, data_size: usize, body: F) -> (value:
    Option<T>)
    requires
        forall|data: &[u8]| call_requires(body, (data,)),
    ensures
        match value {
            Some(value) => data_ptr + data_size <= memory@.len() && answered(
                body,
                memory@.subrange(data_ptr as int, data_ptr + data_size),
                value,
            ),
            None => data_ptr + data_size > memory@.len(),
        },
{
    if data_ptr > memory.len() || data_size > memory.len() - data_ptr {
        return None;
    }
    let data = slice_subrange(memory, data_ptr, data_ptr + data_size);
    let value = body(data);
    proof {
        assert(call_ensures(body, (data,), value));
    }
    Some(value)
}

/// A module in plain values.
pub struct Guest<F> {
    body: F,
    memory: Vec<u8>,
    limit: usize,
    latest_allocation: Option<(u64, u64)>,
}

/// A module as a mathematical value.
pub struct GuestView<F> {
    /// The user function.
    pub body: F,
    /// The linear memory.
    pub memory: Seq<u8>,
    /// The number of bytes beyond which the memory does not grow.
    pub limit: int,
    /// Pointer and size of the latest allocation.
    pub latest_allocation: Option<(u64, u64)>,
}

impl<F> GuestView<F> {
    /// The latest allocation lies within the memory, and the memory within
    /// its limit.
    pub open spec fn valid(self) -> bool {
        &&& self.memory.len() <= self.limit
        &&& self.latest_allocation matches Some((ptr, size)) ==> ptr + size <= self.memory.len()
    }

    /// Whether an allocation of `size` bytes fits under the limit.
    pub open spec fn fits(self, size: int) -> bool {
        self.memory.len() + size <= self.limit
    }

    /// The state after `alloc(size)`: `size` fresh bytes at the end of the
    /// memory, remembered as the latest allocation. Unchanged if they do
    /// not fit.
    pub open spec fn allocated(self, size: u64) -> GuestView<F> {
        if self.fits(size as int) {
            GuestView {
                memory: self.memory + Seq::new(size as nat, |i: int| 0u8),
                latest_allocation: Some((self.memory.len() as u64, size)),
                ..self
            }
        } else {
            self
        }
    }

    /// The state after the host wrote `bytes` at `ptr`. Unchanged if they
    /// do not fit into the memory.
    pub open spec fn written(self, ptr: u64, bytes: Seq<u8>) -> GuestView<F> {
        if ptr + bytes.len() <= self.memory.len() {
            GuestView {
                memory: self.memory.subrange(0, ptr as int) + bytes + self.memory.subrange(
                    ptr + bytes.len(),
                    self.memory.len() as int,
                ),
                ..self
            }
        } else {
            self
        }
    }

    /// What `process(ptr, size)` answers: `size`, or a trap if `ptr` and
    /// `size` are not the latest allocation.
    pub open spec fn processed(self, ptr: u64, size: u64) -> Result<u64, Trapped> {
        if self.latest_allocation == Some((ptr, size)) {
            Ok(size)
        } else {
            Err(Trapped)
        }
    }

    /// How an invocation on `input` ends on a module in this state: with
    /// the length of the input, or with a trap if the input does not fit.
    pub open spec fn invoked(self, input: Seq<u8>) -> Outcome {
        if self.fits(input.len() as int) {
            Ok(input.len() as u64)
        } else {
            Err(ExecError::Trap)
        }
    }
}

impl<F: Fn(&[u8])> Guest<F> {
    /// The module as a mathematical value.
    pub closed spec fn view(&self) -> GuestView<F> {
        GuestView {
            body: self.body,
            memory: self.memory@,
            limit: self.limit as int,
            latest_allocation: self.latest_allocation,
        }
    }

    /// Whether the module obeys its invariants and its user function takes
    /// any bytes.
    pub closed spec fn wf(&self) -> bool {
        &&& self.view().valid()
        &&& forall|data: &[u8]| call_requires(self.body, (data,))
    }

    /// A module that obeys its invariants has a valid state and a user
    /// function that takes any bytes.
    pub proof fn lemma_wf(&self)
        requires
            self.wf(),
        ensures
            self.view().valid(),
            forall|data: &[u8]| call_requires(self.view().body, (data,)),
    {
    }

    /// A module around a user function, with an empty memory that may grow
    /// to `limit` bytes.
    pub fn new(body: F, limit: usize) -> (guest: Self)
        requires
            forall|data: &[u8]| call_requires(body, (data,)),
        ensures
            guest.wf(),
            guest.view() == (GuestView {
                body,
                memory: Seq::empty(),
                limit: limit as int,
                latest_allocation: None,
            }),
    {
        Guest { body, memory: Vec::new(), limit, latest_allocation: None }
    }

    /// The linear memory.
    pub fn memory(&self) -> (memory: &[u8])
        ensures
            memory@ == self.view().memory,
    {
        self.memory.as_slice()
    }

    /// Reserves `size` bytes at the end of the memory and answers the
    /// pointer to them. Traps, changing nothing, if they do not fit.
    pub fn allocate(&mut self, size: u64) -> (outcome: Result<u64, Trapped>)
        requires
            old(self).wf(),
        ensures
            final(self).wf(),
            final(self).view() == old(self).view().allocated(size),
            outcome == (if old(self).view().fits(size as int) {
                Ok::<u64, Trapped>(old(self).view().memory.len() as u64)
            } else {
                Err(Trapped)
            }),
    {
        let used = self.memory.len();
        if size > (self.limit - used) as u64 {
            return Err(Trapped);
        }
        let ptr = used as u64;
        self.memory.resize(used + size as usize, 0u8);
        self.latest_allocation = Some((ptr, size));
        proof {
            assert(self.memory@ =~= old(self).memory@ + Seq::new(size as nat, |i: int| 0u8));
        }
        Ok(ptr)
    }

    /// The host's write into linear memory: `bytes` replace what stands at
    /// `ptr`. Refused, changing nothing, if they do not fit.
    pub fn write(&mut self, ptr: u64, bytes: &[u8]) -> (outcome: Result<(), OutOfBounds>)
        requires
            old(self).wf(),
        ensures
            final(self).wf(),
            final(self).view() == old(self).view().written(ptr, bytes@),
            outcome == (if ptr + bytes@.len() <= old(self).view().memory.len() {
                Ok::<(), OutOfBounds>(())
            } else {
                Err(OutOfBounds)
            }),
    {
        let len = self.memory.len();
        if ptr > len as u64 || bytes.len() > len - ptr as usize {
            return Err(OutOfBounds);
        }
        let start = ptr as usize;
        let mut i: usize = 0;
        while i < bytes.len()
            invariant
                i <= bytes@.len(),
                start + bytes@.len() <= len,
                self.memory@.len() == len,
                self.body == old(self).body,
                self.limit == old(self).limit,
                self.latest_allocation == old(self).latest_allocation,
                forall|k: int| 0 <= k < start ==> self.memory@[k] == old(self).memory@[k],
                forall|k: int| start <= k < start + i ==> self.memory@[k] == bytes@[k - start],
                forall|k: int| start + i <= k < len ==> self.memory@[k] == old(self).memory@[k],
            decreases bytes@.len() - i,
        {
            self.memory.set(start + i, bytes[i]);
            i += 1;
        }
        proof {
            assert(self.memory@ =~= old(self).view().written(ptr, bytes@).memory);
        }
        Ok(())
    }

    /// Runs the user function on the bytes of the latest allocation and
    /// answers `size`. Traps, without running it, if `ptr` and `size` are
    /// not those of the latest allocation.
    pub fn process(&self, ptr: u64, size: u64) -> (outcome: Result<u64, Trapped>)
        requires
            self.wf(),
        ensures
            outcome == self.view().processed(ptr, size),
            outcome.is_ok() ==> answered(
                self.view().body,
                self.view().memory.subrange(ptr as int, ptr + size),
                (),
            ),
    {
        match self.latest_allocation {
            Some((latest_ptr, latest_size)) => {
                if latest_ptr != ptr || latest_size != size {
                    return Err(Trapped);
                }
            },
            None => {
                return Err(Trapped);
            },
        }
        let start = ptr as usize;
        let data = slice_subrange(self.memory.as_slice(), start, start + size as usize);
        (self.body)(data);
        proof {
            assert(call_ensures(self.body, (data,), ()));
        }
        Ok(size)
    }

    /// One whole invocation on this module: the host's calls, as the
    /// protocol owes them, each answered by the module. The input is
    /// written into freshly reserved memory, the user function is run on
    /// it there, and the answer is the length of the input. An input that
    /// does not fit is a trap.
    pub fn invoke(&mut self, module_id: ModuleId, input: &[u8]) -> (outcome: Outcome)
        requires
            old(self).wf(),
        ensures
            final(self).wf(),
            outcome == old(self).view().invoked(input@),
            outcome.is_ok() ==> answered(old(self).view().body, input@, ()),
            final(self).view() == old(self).view().allocated(input@.len() as u64).written(
                old(self).view().memory.len() as u64,
                input@,
            ),
    {
        let size = input.len() as u64;
        let mut invocation = Invocation::new(module_id, size);
        let ghost before = self.view();
        loop
            invariant
                self.wf(),
                size == input@.len(),
                invocation.size == size,
                before == old(self).view(),
                before.valid(),
                match invocation.step {
                    Step::Compiling | Step::Instantiating | Step::Binding | Step::Allocating => {
                        self.view() == before
                    },
                    Step::Writing { ptr } => {
                        &&& before.fits(size as int)
                        &&& ptr == before.memory.len()
                        &&& self.view() == before.allocated(size)
                    },
                    Step::Processing { ptr } => {
                        &&& before.fits(size as int)
                        &&& ptr == before.memory.len()
                        &&& self.view() == before.allocated(size).written(ptr, input@)
                    },
                    Step::Done { outcome } => {
                        &&& outcome == before.invoked(input@)
                        &&& outcome.is_ok() ==> answered(before.body, input@, ())
                        &&& self.view() == before.allocated(size).written(
                            before.memory.len() as u64,
                            input@,
                        )
                    },
                },
            decreases steps_left(invocation.step),
        {
            let reply = match invocation.pending() {
                HostCall::Compile { .. } => HostReply::Compiled,
                HostCall::Instantiate => HostReply::Instantiated,
                HostCall::Bind => HostReply::Bound,
                HostCall::Alloc { size } => match self.allocate(size) {
                    Ok(ptr) => HostReply::Allocated { ptr },
                    Err(_) => HostReply::Failed,
                },
                HostCall::Write { ptr } => match self.write(ptr, input) {
                    Ok(()) => HostReply::Written,
                    Err(_) => HostReply::Failed,
                },
                HostCall::Process { ptr, size } => match self.process(ptr, size) {
                    Ok(result) => HostReply::Processed { result },
                    Err(_) => HostReply::Failed,
                },
                HostCall::Finish { outcome } => {
                    return outcome;
                },
            };
            proof {
                let grown = before.allocated(size);
                if before.fits(size as int) {
                    let ptr = before.memory.len() as u64;
                    assert(grown.written(ptr, input@).memory.subrange(ptr as int, ptr + size)
                        =~= input@);
                } else {
                    assert(grown.written(before.memory.len() as u64, input@) == before);
                }
            }
            invocation.advance(reply);
        }
    }
}

} // verus!
