//! Hooks: what is to be written where, and the guard under which it is.

use crate::address::Address;
use crate::guard::{spec_begin, with_writable_execute, Action, Guard};
use crate::region::MemoryRegion;
use crate::stub::{decode_stub, jump_stub, lemma_stub_round_trip, stub_bytes, stub_target, STUB_LEN};
use vstd::prelude::*;

verus! {

/// One hook: the entry that is redirected, the adapter it is redirected
/// to, where the handler's state lives, and the bytes that do it.
#[derive(Clone, Copy, Debug, PartialEq, Eq)]
pub struct Hook {
    /// The address of the function whose calls are intercepted.
    pub target: Address,
    /// The address of the adapter that receives them.
    pub adapter: Address,
    /// The address of the handler's state, which lives as long as the
    /// process does.
    pub state: Address,
    /// The jump to the adapter, to be written at `target`.
    pub stub: [u8; 14],
}

impl Hook {
    /// The stub of a hook is the jump to its adapter.
    pub open spec fn wf(&self) -> bool {
        self.stub@ == stub_bytes(self.adapter)
    }

    /// The hook that sends the calls of `target` to `adapter`.
    pub fn new(target: Address, adapter: Address, state: Address) -> (hook: Hook)
        ensures
            hook.target == target,
            hook.adapter == adapter,
            hook.state == state,
            hook.stub@ == stub_bytes(adapter),
            hook.wf(),
    {
        Hook { target, adapter, state, stub: jump_stub(adapter) }
    }

    /// Begins the installation: a guard over the fourteen bytes at the
    /// target, whose body is to write the stub there.
    pub fn install(&self) -> (start: (Guard, Action))
        ensures
            start == spec_begin(self.target, STUB_LEN as u64),
    {
        copy_rw(self.stub.as_slice(), self.target, STUB_LEN)
    }
}

/// Begins a copy of the first `count` bytes of `src` to `dst` under a
/// protection guard: the range at `dst` is made writable, the bytes are
/// copied as the guard's body, and the range gets its protection back.
pub fn copy_rw(src: &[u8], dst: Address, count: usize) -> (start: (Guard, Action))
    requires
        count <= src@.len(),
    ensures
        start == spec_begin(dst, count as u64),
{
    with_writable_execute(dst, count as u64)
}

/// Where the code at `entry` sends its callers, as far as `region` shows
/// it: the address that a jump stub at `entry` jumps to.
pub open spec fn spec_redirect(region: MemoryRegion, entry: Address) -> Option<Address> {
    if region.spec_holds(entry, STUB_LEN as int) {
        let k = entry@ - region.spec_base()@;
        stub_target(region@.subrange(k, k + STUB_LEN))
    } else {
        None
    }
}

/// Reads the fourteen bytes at `entry` from `region` and, where they are a
/// jump stub, returns the address they jump to. There is nothing to return
/// where the bytes do not all lie in the region or are no stub.
pub fn redirect(region: &MemoryRegion, entry: Address) -> (r: Option<Address>)
    ensures
        r == spec_redirect(*region, entry),
{
    match region.window(entry, STUB_LEN) {
        Some(code) => decode_stub(code),
        None => None,
    }
}

/// Once the stub of a hook has been written at its target, the code there
/// sends its callers to the hook's adapter, and every byte outside the
/// fourteen is as it was.
pub proof fn lemma_installed_hook_redirects(region: MemoryRegion, hook: Hook)
    requires
        region.wf(),
        hook.wf(),
        region.spec_holds(hook.target, STUB_LEN as int),
    ensures
        ({
            let k = hook.target@ - region.spec_base()@;
            let after = region.spec_written(hook.target, hook.stub@);
            &&& after.len() == region@.len()
            &&& stub_target(after.subrange(k, k + STUB_LEN)) == Some(hook.adapter)
            &&& forall|i: int|
                0 <= i < region@.len() && !(k <= i < k + STUB_LEN) ==> after[i] == region@[i]
        }),
{
    let k = hook.target@ - region.spec_base()@;
    let after = region.spec_written(hook.target, hook.stub@);
    lemma_stub_round_trip(hook.adapter);
    assert(after.subrange(k, k + STUB_LEN) =~= hook.stub@);
}

/// A native function that can be hooked with a handler of type `F`.
///
/// An implementation knows where the function starts, and makes the adapter
/// that fits its argument count and calling convention.
pub trait Hookable<F>: Copy {
    /// Describes the hook that sends this function's calls to `function`:
    /// its target is where `as_u8_ptr` says the function starts, its adapter
    /// and state are what `thunk` made of the handler, and its stub is the
    /// jump to that adapter.
    fn hook(self, function: F) -> (hook: Hook)
        ensures
            hook.wf(),
            call_ensures(Self::as_u8_ptr, (self,), hook.target),
            call_ensures(Self::thunk, (self, function), (hook.adapter, hook.state)),
    {
        let target = self.as_u8_ptr();
        let made = self.thunk(function);
        Hook::new(target, made.0, made.1)
    }

    /// The address of the function's first byte.
    fn as_u8_ptr(self) -> Address;

    /// Moves `function` to where it stays for the rest of the process's
    /// life, and returns the adapter's address and the address of that
    /// state.
    fn thunk(self, function: F) -> (Address, Address);
}

} // verus!
