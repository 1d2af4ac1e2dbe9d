//! The engine's backend, which a process starts once at a time.

use vstd::prelude::*;

use crate::error::LlamaError;

verus! {

/// Whether the process has a live backend.
#[derive(Debug, PartialEq, Eq, Structural)]
pub struct BackendSlot {
    pub live: bool,
}

/// A live backend. It is made by [`LlamaBackend::init`] alone and ends with
/// [`LlamaBackend::release`].
#[derive(Debug)]
pub struct LlamaBackend {
    _private: (),
}

impl BackendSlot {
    pub fn new() -> (slot: BackendSlot)
        ensures
            !slot.live,
    {
        BackendSlot { live: false }
    }
}

impl LlamaBackend {
    /// Takes the slot, where it is free. The engine's backend is to be started
    /// when this succeeds.
    pub fn init(slot: &mut BackendSlot) -> (r: Result<LlamaBackend, LlamaError>)
        ensures
            final(slot).live,
            match r {
                Ok(_) => !old(slot).live,
                Err(e) => old(slot).live && e == LlamaError::BackendAlreadyInitialized,
            },
    {
        if slot.live {
            return Err(LlamaError::BackendAlreadyInitialized);
        }
        slot.live = true;
        Ok(LlamaBackend { _private: () })
    }

    /// Frees the slot. The engine's backend is to be ended before.
    pub fn release(self, slot: &mut BackendSlot)
        ensures
            !final(slot).live,
    {
        slot.live = false;
    }
}

/// At most one backend is live: a second one is refused until the first is released, and
/// can be had after that.
pub proof fn lemma_one_backend_at_a_time(
    slot: &mut BackendSlot,
    r: Result<LlamaBackend, LlamaError>,
    taken: &mut BackendSlot,
    second: Result<LlamaBackend, LlamaError>,
    backend: LlamaBackend,
    freed: &mut BackendSlot,
)
    requires
        call_ensures(LlamaBackend::init, (slot,), r),
        *old(taken) == *final(slot),
        call_ensures(LlamaBackend::init, (taken,), second),
        call_ensures(LlamaBackend::release, (backend, freed), ()),
    ensures
        r is Ok <==> !old(slot).live,
        final(slot).live,
        second is Err,
        second->Err_0 == LlamaError::BackendAlreadyInitialized,
        !final(freed).live,
{
}

} // verus!
