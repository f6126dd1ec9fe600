//! The process-wide hooking context: initialized once, torn down by
//! reverting every hook, and guarding every hook operation in between.
use vstd::prelude::*;
use crate::registry::{
    create_outcome, patch_views, queue_outcome, remove_outcome, switch_all, switch_outcome,
    switch_patches, trampolines, registry_wf, HookView, Patch, Registry, Switch, ALL_HOOKS, ALL_IDENTS,
};
use crate::status::{Error, ThreadFreezeMethod};
use crate::trampoline::{InstructionInfo, Trampoline};

verus! {

/// The hooking engine's state.
pub struct Engine {
    registry: Registry,
    initialized: bool,
    freeze: ThreadFreezeMethod,
}

impl Engine {
    /// The hooks registered.
    pub closed spec fn hooks(&self) -> Seq<HookView> {
        self.registry@
    }

    pub closed spec fn is_initialized(&self) -> bool {
        self.initialized
    }

    /// The thread-freeze method chosen at initialization.
    pub closed spec fn freeze(&self) -> ThreadFreezeMethod {
        self.freeze
    }

    /// The registry is well formed, and empty while not initialized.
    pub closed spec fn wf(&self) -> bool {
        &&& self.registry.wf()
        &&& !self.initialized ==> self.registry@.len() == 0
    }

    /// The registry invariant, for callers that reason about the hooks.
    pub proof fn lemma_wf(&self)
        requires
            self.wf(),
        ensures
            registry_wf(self.hooks()),
    {
        self.registry.lemma_wf();
    }

    /// An engine that is not initialized yet.
    pub fn new() -> (r: Engine)
        ensures
            r.wf(),
            !r.is_initialized(),
            r.hooks() == Seq::<HookView>::empty(),
    {
        Engine { registry: Registry::new(), initialized: false, freeze: ThreadFreezeMethod::OriginalSnapshot }
    }

    /// Initializes the engine with its method of freezing threads.
    pub fn initialize(&mut self, freeze: ThreadFreezeMethod) -> (r: Result<(), Error>)
        requires
            old(self).wf(),
        ensures
            final(self).wf(),
            old(self).is_initialized() ==> r == Err::<(), Error>(Error::AlreadyInitialized)
                && final(self).hooks() == old(self).hooks() && final(self).is_initialized()
                && final(self).freeze() == old(self).freeze(),
            !old(self).is_initialized() ==> r is Ok && final(self).is_initialized() && final(self).freeze()
                == freeze && final(self).hooks() == Seq::<HookView>::empty(),
    {
        if self.initialized {
            return Err(Error::AlreadyInitialized);
        }
        self.initialized = true;
        self.freeze = freeze;
        Ok(())
    }

    /// Uninitializes the engine: every enabled hook is disabled and every
    /// hook dropped. Returns the writes that restore the original bytes, and
    /// every trampoline slot, now free, for the pool to take back.
    pub fn uninitialize(&mut self) -> (r: Result<(Vec<Patch>, Vec<u64>), Error>)
        requires
            old(self).wf(),
        ensures
            final(self).wf(),
            !final(self).is_initialized(),
            final(self).hooks() == Seq::<HookView>::empty(),
            !old(self).is_initialized() ==> r == Err::<(Vec<Patch>, Vec<u64>), Error>(Error::NotInitialized),
            old(self).is_initialized() ==> (r matches Ok(out) && patch_views(out.0@) == switch_patches(
                old(self).hooks(),
                old(self).hooks().len() as int,
                ALL_IDENTS,
                ALL_HOOKS,
                Switch::Disable,
            ) && out.1@ == trampolines(old(self).hooks())),
    {
        if !self.initialized {
            return Err(Error::NotInitialized);
        }
        let out = self.registry.revert_all();
        self.initialized = false;
        Ok(out)
    }

    /// The thread-freeze method chosen at initialization.
    pub fn freeze_method(&self) -> (r: ThreadFreezeMethod)
        ensures
            r == self.freeze(),
    {
        self.freeze
    }

    /// `Registry::create`, once initialized.
    pub fn create(
        &mut self,
        ident: u64,
        target: u64,
        detour: u64,
        executable: bool,
        slot: u64,
        code: &Vec<u8>,
        instrs: &Vec<InstructionInfo>,
    ) -> (r: Result<Trampoline, Error>)
        requires
            old(self).wf(),
        ensures
            final(self).wf(),
            final(self).is_initialized() == old(self).is_initialized(),
            final(self).freeze() == old(self).freeze(),
            !old(self).is_initialized() ==> r == Err::<Trampoline, Error>(Error::NotInitialized)
                && final(self).hooks() == old(self).hooks(),
            old(self).is_initialized() ==> create_outcome(
                old(self).hooks(),
                final(self).hooks(),
                ident,
                target,
                detour,
                executable,
                slot,
                code@,
                instrs@,
                r,
            ),
    {
        if !self.initialized {
            return Err(Error::NotInitialized);
        }
        self.registry.create(ident, target, detour, executable, slot, code, instrs)
    }

    /// `Registry::enable`, once initialized.
    pub fn enable(&mut self, ident: u64, target: u64) -> (r: Result<Vec<Patch>, Error>)
        requires
            old(self).wf(),
        ensures
            final(self).wf(),
            final(self).is_initialized() == old(self).is_initialized(),
            final(self).freeze() == old(self).freeze(),
            !old(self).is_initialized() ==> r == Err::<Vec<Patch>, Error>(Error::NotInitialized)
                && final(self).hooks() == old(self).hooks(),
            old(self).is_initialized() ==> switch_outcome(old(self).hooks(), final(self).hooks(), ident, target, true, r),
    {
        if !self.initialized {
            return Err(Error::NotInitialized);
        }
        self.registry.enable(ident, target)
    }

    /// `Registry::disable`, once initialized.
    pub fn disable(&mut self, ident: u64, target: u64) -> (r: Result<Vec<Patch>, Error>)
        requires
            old(self).wf(),
        ensures
            final(self).wf(),
            final(self).is_initialized() == old(self).is_initialized(),
            final(self).freeze() == old(self).freeze(),
            !old(self).is_initialized() ==> r == Err::<Vec<Patch>, Error>(Error::NotInitialized)
                && final(self).hooks() == old(self).hooks(),
            old(self).is_initialized() ==> switch_outcome(old(self).hooks(), final(self).hooks(), ident, target, false, r),
    {
        if !self.initialized {
            return Err(Error::NotInitialized);
        }
        self.registry.disable(ident, target)
    }

    /// `Registry::remove`, once initialized.
    pub fn remove(&mut self, ident: u64, target: u64) -> (r: Result<Vec<u64>, Error>)
        requires
            old(self).wf(),
        ensures
            final(self).wf(),
            final(self).is_initialized() == old(self).is_initialized(),
            final(self).freeze() == old(self).freeze(),
            !old(self).is_initialized() ==> r == Err::<Vec<u64>, Error>(Error::NotInitialized)
                && final(self).hooks() == old(self).hooks(),
            old(self).is_initialized() ==> remove_outcome(old(self).hooks(), final(self).hooks(), ident, target, r),
    {
        if !self.initialized {
            return Err(Error::NotInitialized);
        }
        self.registry.remove(ident, target)
    }

    /// `Registry::queue_enable`, once initialized.
    pub fn queue_enable(&mut self, ident: u64, target: u64) -> (r: Result<(), Error>)
        requires
            old(self).wf(),
        ensures
            final(self).wf(),
            final(self).is_initialized() == old(self).is_initialized(),
            final(self).freeze() == old(self).freeze(),
            !old(self).is_initialized() ==> r == Err::<(), Error>(Error::NotInitialized)
                && final(self).hooks() == old(self).hooks(),
            old(self).is_initialized() ==> queue_outcome(old(self).hooks(), final(self).hooks(), ident, target, true, r),
    {
        if !self.initialized {
            return Err(Error::NotInitialized);
        }
        self.registry.queue_enable(ident, target)
    }

    /// `Registry::queue_disable`, once initialized.
    pub fn queue_disable(&mut self, ident: u64, target: u64) -> (r: Result<(), Error>)
        requires
            old(self).wf(),
        ensures
            final(self).wf(),
            final(self).is_initialized() == old(self).is_initialized(),
            final(self).freeze() == old(self).freeze(),
            !old(self).is_initialized() ==> r == Err::<(), Error>(Error::NotInitialized)
                && final(self).hooks() == old(self).hooks(),
            old(self).is_initialized() ==> queue_outcome(old(self).hooks(), final(self).hooks(), ident, target, false, r),
    {
        if !self.initialized {
            return Err(Error::NotInitialized);
        }
        self.registry.queue_disable(ident, target)
    }

    /// `Registry::apply_queued`, once initialized.
    pub fn apply_queued(&mut self, ident: u64) -> (r: Result<Vec<Patch>, Error>)
        requires
            old(self).wf(),
        ensures
            final(self).wf(),
            final(self).is_initialized() == old(self).is_initialized(),
            final(self).freeze() == old(self).freeze(),
            !old(self).is_initialized() ==> r == Err::<Vec<Patch>, Error>(Error::NotInitialized)
                && final(self).hooks() == old(self).hooks(),
            old(self).is_initialized() ==> (r matches Ok(ps) && final(self).hooks() == switch_all(
                old(self).hooks(),
                ident,
                ALL_HOOKS,
                Switch::ApplyQueued,
            ) && patch_views(ps@) == switch_patches(
                old(self).hooks(),
                old(self).hooks().len() as int,
                ident,
                ALL_HOOKS,
                Switch::ApplyQueued,
            )),
    {
        if !self.initialized {
            return Err(Error::NotInitialized);
        }
        Ok(self.registry.apply_queued(ident))
    }
}

} // verus!
