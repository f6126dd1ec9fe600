//! The hook registry: one record per (identifier, target), its lifecycle,
//! and the bytes each transition writes over a target.
use vstd::prelude::*;
use crate::status::Error;
use crate::trampoline::{build_trampoline, built, relocation_ok, reach_ok, prefix_len, InstructionInfo, Trampoline};

verus! {

/// Target sentinel that selects every registered hook.
pub const ALL_HOOKS: u64 = 0;

/// Identifier sentinel that selects every identifier.
pub const ALL_IDENTS: u64 = 0;

/// Identifier of hooks created without one.
pub const DEFAULT_IDENT: u64 = 1;

/// One created hook.
pub struct HookRecord {
    pub ident: u64,
    pub target: u64,
    pub detour: u64,
    /// Address of the trampoline slot that calls the original logic.
    pub trampoline: u64,
    pub enabled: bool,
    /// The state that the next `apply_queued` brings the hook to.
    pub queue_enable: bool,
    /// The bytes at `target` that the patch overwrites.
    pub original: Vec<u8>,
    /// The jump stub, padded, written over `target` while enabled.
    pub patch: Vec<u8>,
}

/// A hook record as a mathematical value.
pub struct HookView {
    pub ident: u64,
    pub target: u64,
    pub detour: u64,
    pub trampoline: u64,
    pub enabled: bool,
    pub queue_enable: bool,
    pub original: Seq<u8>,
    pub patch: Seq<u8>,
}

impl View for HookRecord {
    type V = HookView;

    open spec fn view(&self) -> HookView {
        HookView {
            ident: self.ident,
            target: self.target,
            detour: self.detour,
            trampoline: self.trampoline,
            enabled: self.enabled,
            queue_enable: self.queue_enable,
            original: self.original@,
            patch: self.patch@,
        }
    }
}

/// Bytes to write at an address of the process.
pub struct Patch {
    pub address: u64,
    pub bytes: Vec<u8>,
}

/// A patch as a mathematical value.
pub struct PatchView {
    pub address: int,
    pub bytes: Seq<u8>,
}

impl View for Patch {
    type V = PatchView;

    open spec fn view(&self) -> PatchView {
        PatchView { address: self.address as int, bytes: self.bytes@ }
    }
}

/// The views of a list of patches.
pub open spec fn patch_views(ps: Seq<Patch>) -> Seq<PatchView> {
    ps.map_values(|p: Patch| p@)
}

/// What an activation pass does to each selected hook.
#[derive(Clone, Copy, Debug, PartialEq, Eq, Structural)]
pub enum Switch {
    Enable,
    Disable,
    /// Bring each hook to its queued state.
    ApplyQueued,
}

/// Whether operation arguments `(ident, target)` select hook `h`: a single
/// hook by its key, or with `ALL_HOOKS` every hook under `ident`
/// (every hook at all for `ALL_IDENTS`).
pub open spec fn selects(h: HookView, ident: u64, target: u64) -> bool {
    if target == ALL_HOOKS {
        ident == ALL_IDENTS || h.ident == ident
    } else {
        h.ident == ident && h.target == target
    }
}

/// The state a pass brings a hook to, if it changes it.
pub open spec fn change(h: HookView, ident: u64, target: u64, op: Switch) -> Option<bool> {
    if !selects(h, ident, target) {
        None
    } else {
        match op {
            Switch::Enable => if h.enabled { None } else { Some(true) },
            Switch::Disable => if h.enabled { Some(false) } else { None },
            Switch::ApplyQueued => if h.queue_enable != h.enabled { Some(h.queue_enable) } else { None },
        }
    }
}

/// `h` enabled or disabled, with nothing left queued.
pub open spec fn with_state(h: HookView, on: bool) -> HookView {
    HookView { enabled: on, queue_enable: on, ..h }
}

/// `h` after a pass.
pub open spec fn switched(h: HookView, ident: u64, target: u64, op: Switch) -> HookView {
    match change(h, ident, target, op) {
        Some(on) => with_state(h, on),
        None => h,
    }
}

/// The hooks after a pass.
pub open spec fn switch_all(s: Seq<HookView>, ident: u64, target: u64, op: Switch) -> Seq<HookView> {
    s.map_values(|h: HookView| switched(h, ident, target, op))
}

/// The write that brings `h` to state `on`.
pub open spec fn patch_of(h: HookView, on: bool) -> PatchView {
    PatchView { address: h.target as int, bytes: if on { h.patch } else { h.original } }
}

/// The writes of a pass over the first `n` hooks, in registry order.
pub open spec fn switch_patches(s: Seq<HookView>, n: int, ident: u64, target: u64, op: Switch) -> Seq<PatchView>
    decreases n,
{
    if n <= 0 || n > s.len() {
        Seq::empty()
    } else {
        let rest = switch_patches(s, n - 1, ident, target, op);
        match change(s[n - 1], ident, target, op) {
            Some(on) => rest.push(patch_of(s[n - 1], on)),
            None => rest,
        }
    }
}

/// The hooks that a removal keeps, of the first `n`.
pub open spec fn unselected(s: Seq<HookView>, n: int, ident: u64, target: u64) -> Seq<HookView>
    decreases n,
{
    if n <= 0 || n > s.len() {
        Seq::empty()
    } else {
        let rest = unselected(s, n - 1, ident, target);
        if selects(s[n - 1], ident, target) {
            rest
        } else {
            rest.push(s[n - 1])
        }
    }
}

/// Some hook of `s` has key `(ident, target)`.
pub open spec fn has_key(s: Seq<HookView>, ident: u64, target: u64) -> bool {
    exists|i: int| 0 <= i < s.len() && #[trigger] s[i].ident == ident && s[i].target == target
}

/// Some hook that `(ident, target)` selects is in state `on`.
pub open spec fn selected_in_state(s: Seq<HookView>, ident: u64, target: u64, on: bool) -> bool {
    exists|i: int| 0 <= i < s.len() && #[trigger] selects(s[i], ident, target) && s[i].enabled == on
}

/// The hooks after `(ident, target)` are queued to reach state `on`.
pub open spec fn queue_all(s: Seq<HookView>, ident: u64, target: u64, on: bool) -> Seq<HookView> {
    s.map_values(|h: HookView| if selects(h, ident, target) { HookView { queue_enable: on, ..h } } else { h })
}

/// Registry invariant: keys unique, each trampoline slot bound to one
/// record, and each record's patch a jump stub as long as the original
/// bytes it replaces.
pub open spec fn registry_wf(s: Seq<HookView>) -> bool {
    &&& forall|i: int, j: int|
        0 <= i < s.len() && 0 <= j < s.len() && i != j ==> !(#[trigger] s[i].ident == #[trigger] s[j].ident
            && s[i].target == s[j].target)
    &&& forall|i: int, j: int|
        0 <= i < s.len() && 0 <= j < s.len() && i != j ==> #[trigger] s[i].trampoline != #[trigger] s[j].trampoline
    &&& forall|i: int|
        0 <= i < s.len() ==> {
            &&& #[trigger] s[i].target != ALL_HOOKS
            &&& s[i].original.len() == s[i].patch.len()
            &&& s[i].patch.len() >= 5
            &&& s[i].patch[0] == 0xE9
        }
}

/// The record that `create` stores.
pub open spec fn new_record(ident: u64, target: u64, detour: u64, slot: u64, code: Seq<u8>, t: Trampoline) -> HookView {
    HookView {
        ident,
        target,
        detour,
        trampoline: slot,
        enabled: false,
        queue_enable: false,
        original: code.take(t.relocated as int),
        patch: t.patch@,
    }
}

/// Some hook's trampoline is at `slot`.
pub open spec fn slot_taken(s: Seq<HookView>, slot: u64) -> bool {
    exists|i: int| 0 <= i < s.len() && #[trigger] s[i].trampoline == slot
}

/// What `create` owes, from hooks `s` to hooks `t` with result `r`: a null
/// or non-executable target is not executable, a key in use is already
/// created, a slot in use cannot be allocated again, and otherwise
/// the trampoline decides: success exactly when the instructions can be
/// relocated and the detour reached, with the new disabled record added.
pub open spec fn create_outcome(
    s: Seq<HookView>,
    t: Seq<HookView>,
    ident: u64,
    target: u64,
    detour: u64,
    executable: bool,
    slot: u64,
    code: Seq<u8>,
    instrs: Seq<InstructionInfo>,
    r: Result<Trampoline, Error>,
) -> bool {
    let usable = executable && target != ALL_HOOKS;
    &&& !usable ==> r == Err::<Trampoline, Error>(Error::PointerNotExecutable)
    &&& usable && has_key(s, ident, target) ==> r == Err::<Trampoline, Error>(Error::AlreadyCreated)
    &&& usable && !has_key(s, ident, target) && slot_taken(s, slot) ==> r == Err::<Trampoline, Error>(
        Error::AllocationFailure,
    )
    &&& usable && !has_key(s, ident, target) && !slot_taken(s, slot) ==> {
        &&& r is Ok <==> exists|n: int|
            #[trigger] relocation_ok(code, instrs, n, target as int, slot as int) && reach_ok(
                target as int,
                slot as int,
                detour as int,
                prefix_len(instrs, n),
            )
        &&& r == Err::<Trampoline, Error>(Error::UnsupportedFunction) <==> forall|n: int|
            !#[trigger] relocation_ok(code, instrs, n, target as int, slot as int)
        &&& r is Err ==> r == Err::<Trampoline, Error>(Error::UnsupportedFunction) || r == Err::<
            Trampoline,
            Error,
        >(Error::AllocationFailure)
    }
    &&& r is Err ==> t == s
    &&& r matches Ok(tr) ==> built(tr, target, detour, slot, code, instrs) && t == s.push(
        new_record(ident, target, detour, slot, code, tr),
    )
}

/// What enabling (`on`) or disabling owes: a single hook must exist and not
/// already be in that state; with `ALL_HOOKS` it always succeeds. On success
/// the pass is applied and its writes returned; on failure nothing changes.
pub open spec fn switch_outcome(
    s: Seq<HookView>,
    t: Seq<HookView>,
    ident: u64,
    target: u64,
    on: bool,
    r: Result<Vec<Patch>, Error>,
) -> bool {
    let op = if on { Switch::Enable } else { Switch::Disable };
    let already = if on { Error::HookEnabled } else { Error::HookDisabled };
    &&& target != ALL_HOOKS && !has_key(s, ident, target) ==> r == Err::<Vec<Patch>, Error>(Error::NotCreated)
    &&& target != ALL_HOOKS && selected_in_state(s, ident, target, on) ==> r == Err::<Vec<Patch>, Error>(already)
    &&& target == ALL_HOOKS || selected_in_state(s, ident, target, !on) ==> r is Ok
    &&& r is Err ==> t == s
    &&& r matches Ok(ps) ==> t == switch_all(s, ident, target, op) && patch_views(ps@) == switch_patches(
        s,
        s.len() as int,
        ident,
        target,
        op,
    )
}

/// What queueing owes: a single hook must exist; the selected hooks then
/// wait for state `on`.
pub open spec fn queue_outcome(
    s: Seq<HookView>,
    t: Seq<HookView>,
    ident: u64,
    target: u64,
    on: bool,
    r: Result<(), Error>,
) -> bool {
    &&& target != ALL_HOOKS && !has_key(s, ident, target) ==> r == Err::<(), Error>(Error::NotCreated)
    &&& target == ALL_HOOKS || has_key(s, ident, target) ==> r is Ok
    &&& r is Err ==> t == s
    &&& r is Ok ==> t == queue_all(s, ident, target, on)
}

/// What removal owes: a single hook must exist, and no selected hook may be
/// enabled; then every selected hook goes and the others stay in order.
pub open spec fn remove_outcome(
    s: Seq<HookView>,
    t: Seq<HookView>,
    ident: u64,
    target: u64,
    r: Result<Vec<u64>, Error>,
) -> bool {
    &&& target != ALL_HOOKS && !has_key(s, ident, target) ==> r == Err::<Vec<u64>, Error>(Error::NotCreated)
    &&& (target == ALL_HOOKS || has_key(s, ident, target)) && selected_in_state(s, ident, target, true)
        ==> r == Err::<Vec<u64>, Error>(Error::HookEnabled)
    &&& (target == ALL_HOOKS || has_key(s, ident, target)) && !selected_in_state(s, ident, target, true)
        ==> r is Ok
    &&& r is Err ==> t == s
    &&& r matches Ok(freed) ==> t == unselected(s, s.len() as int, ident, target) && freed@
        == selected_slots(s, s.len() as int, ident, target)
}

/// The trampoline slots of the hooks that a removal drops, of the first `n`.
pub open spec fn selected_slots(s: Seq<HookView>, n: int, ident: u64, target: u64) -> Seq<u64>
    decreases n,
{
    if n <= 0 || n > s.len() {
        Seq::empty()
    } else {
        let rest = selected_slots(s, n - 1, ident, target);
        if selects(s[n - 1], ident, target) {
            rest.push(s[n - 1].trampoline)
        } else {
            rest
        }
    }
}

/// The trampoline slots of all hooks, in registry order.
pub open spec fn trampolines(s: Seq<HookView>) -> Seq<u64> {
    s.map_values(|h: HookView| h.trampoline)
}

/// All hooks of the process.
pub struct Registry {
    hooks: Vec<HookRecord>,
}

impl View for Registry {
    type V = Seq<HookView>;

    closed spec fn view(&self) -> Seq<HookView> {
        self.hooks@.map_values(|h: HookRecord| h@)
    }
}

/// A copy of `v`.
fn copy_bytes(v: &Vec<u8>) -> (r: Vec<u8>)
    ensures
        r@ == v@,
{
    let mut r: Vec<u8> = Vec::new();
    let mut i: usize = 0;
    while i < v.len()
        invariant
            i <= v@.len(),
            r@ == v@.take(i as int),
        decreases v@.len() - i,
    {
        r.push(v[i]);
        i = i + 1;
        assert(r@ =~= v@.take(i as int));
    }
    assert(v@.take(v@.len() as int) =~= v@);
    r
}

impl Registry {
    pub closed spec fn wf(&self) -> bool {
        registry_wf(self@)
    }

    /// The registry invariant, for callers that reason about the hooks.
    pub proof fn lemma_wf(&self)
        requires
            self.wf(),
        ensures
            registry_wf(self@),
    {
    }

    /// An empty registry.
    pub fn new() -> (r: Registry)
        ensures
            r@ == Seq::<HookView>::empty(),
            r.wf(),
    {
        let r = Registry { hooks: Vec::new() };
        assert(r@ =~= Seq::<HookView>::empty());
        r
    }

    /// Number of hooks.
    pub fn len(&self) -> (r: usize)
        ensures
            r == self@.len(),
    {
        self.hooks.len()
    }

    /// Position of the hook with key `(ident, target)`.
    pub fn find(&self, ident: u64, target: u64) -> (r: Option<usize>)
        ensures
            match r {
                Some(i) => i < self@.len() && self@[i as int].ident == ident && self@[i as int].target == target,
                None => !has_key(self@, ident, target),
            },
    {
        let mut i: usize = 0;
        while i < self.hooks.len()
            invariant
                i <= self@.len(),
                forall|j: int| 0 <= j < i ==> !(#[trigger] self@[j].ident == ident && self@[j].target == target),
            decreases self@.len() - i,
        {
            if self.hooks[i].ident == ident && self.hooks[i].target == target {
                return Some(i);
            }
            i = i + 1;
        }
        None
    }

    /// Whether the hook with key `(ident, target)` is enabled; `None` when there is none.
    pub fn is_enabled(&self, ident: u64, target: u64) -> (r: Option<bool>)
        ensures
            match r {
                Some(on) => exists|i: int| 0 <= i < self@.len() && #[trigger] self@[i].ident == ident
                    && self@[i].target == target && self@[i].enabled == on,
                None => !has_key(self@, ident, target),
            },
    {
        match self.find(ident, target) {
            Some(i) => Some(self.hooks[i].enabled),
            None => None,
        }
    }


    /// Whether some hook that `(ident, target)` selects is in state `on`.
    fn any_in_state(&self, ident: u64, target: u64, on: bool) -> (r: bool)
        ensures
            r == selected_in_state(self@, ident, target, on),
    {
        let mut i: usize = 0;
        while i < self.hooks.len()
            invariant
                i <= self@.len(),
                forall|j: int| 0 <= j < i ==> !(#[trigger] selects(self@[j], ident, target) && self@[j].enabled == on),
            decreases self@.len() - i,
        {
            let h = &self.hooks[i];
            let sel = if target == ALL_HOOKS {
                ident == ALL_IDENTS || h.ident == ident
            } else {
                h.ident == ident && h.target == target
            };
            if sel && h.enabled == on {
                assert(selects(self@[i as int], ident, target) && self@[i as int].enabled == on);
                return true;
            }
            i = i + 1;
        }
        false
    }

    /// Whether some hook's trampoline is at `slot`.
    fn slot_in_use(&self, slot: u64) -> (r: bool)
        ensures
            r == slot_taken(self@, slot),
    {
        let mut i: usize = 0;
        while i < self.hooks.len()
            invariant
                i <= self@.len(),
                forall|j: int| 0 <= j < i ==> #[trigger] self@[j].trampoline != slot,
            decreases self@.len() - i,
        {
            if self.hooks[i].trampoline == slot {
                assert(self@[i as int].trampoline == slot);
                return true;
            }
            i = i + 1;
        }
        false
    }

    /// Creates a disabled hook of `target` that sends it to `detour`, with its
    /// trampoline placed at `slot`. `executable` tells whether the memory at
    /// `target` is allocated and executable. `code` holds the bytes at `target` and
    /// `instrs` what the disassembler decoded from them, in order. Returns the
    /// trampoline to write at `slot`.
    pub fn create(
        &mut self,
        ident: u64,
        target: u64,
        detour: u64,
        executable: bool,
        slot: u64,
        code: &Vec<u8>,
        instrs: &Vec<InstructionInfo>,
    ) -> (r: Result<Trampoline, Error>)
        requires
            old(self).wf(),
        ensures
            final(self).wf(),
            create_outcome(old(self)@, final(self)@, ident, target, detour, executable, slot, code@, instrs@, r),
    {
        if !executable || target == ALL_HOOKS {
            return Err(Error::PointerNotExecutable);
        }
        if let Some(_) = self.find(ident, target) {
            return Err(Error::AlreadyCreated);
        }
        if self.slot_in_use(slot) {
            return Err(Error::AllocationFailure);
        }
        let t = match build_trampoline(target, detour, slot, code, instrs) {
            Ok(t) => t,
            Err(e) => {
                return Err(e);
            },
        };
        let mut original: Vec<u8> = Vec::new();
        let mut i: usize = 0;
        while i < t.relocated
            invariant
                t.relocated <= code@.len(),
                i <= t.relocated,
                original@ == code@.take(i as int),
            decreases t.relocated - i,
        {
            original.push(code[i]);
            i = i + 1;
            assert(original@ =~= code@.take(i as int));
        }
        let patch = copy_bytes(&t.patch);
        let rec = HookRecord {
            ident,
            target,
            detour,
            trampoline: slot,
            enabled: false,
            queue_enable: false,
            original,
            patch,
        };
        let ghost s = self@;
        self.hooks.push(rec);
        assert(self@ =~= s.push(new_record(ident, target, detour, slot, code@, t)));
        proof {
            let nr = new_record(ident, target, detour, slot, code@, t);
            assert(nr.patch.len() >= 5 && nr.patch[0] == 0xE9);
            assert(nr.original.len() == nr.patch.len());
            assert(self@[s.len() as int] == nr);
            assert forall|a: int| 0 <= a < self@.len() implies {
                &&& #[trigger] self@[a].target != ALL_HOOKS
                &&& self@[a].original.len() == self@[a].patch.len()
                &&& self@[a].patch.len() >= 5
                &&& self@[a].patch[0] == 0xE9
            } by {
                if a < s.len() {
                    assert(self@[a] == s[a]);
                }
            }
            assert forall|a: int, b: int|
                0 <= a < self@.len() && 0 <= b < self@.len() && a != b implies !(#[trigger] self@[a].ident
                    == #[trigger] self@[b].ident && self@[a].target == self@[b].target) by {
                if a == s.len() as int {
                    assert(!(s[b].ident == ident && s[b].target == target));
                } else if b == s.len() as int {
                    assert(!(s[a].ident == ident && s[a].target == target));
                }
            }
            assert forall|a: int, b: int|
                0 <= a < self@.len() && 0 <= b < self@.len() && a != b implies #[trigger] self@[a].trampoline
                    != #[trigger] self@[b].trampoline by {
                if a == s.len() as int {
                    assert(s[b].trampoline != slot);
                } else if b == s.len() as int {
                    assert(s[a].trampoline != slot);
                } else {
                    assert(self@[a] == s[a] && self@[b] == s[b]);
                }
            }
        }
        Ok(t)
    }

    /// Enables the hook with key `(ident, target)`, or with `ALL_HOOKS` every
    /// disabled hook under `ident`. Returns the writes that install the patches.
    pub fn enable(&mut self, ident: u64, target: u64) -> (r: Result<Vec<Patch>, Error>)
        requires
            old(self).wf(),
        ensures
            final(self).wf(),
            switch_outcome(old(self)@, final(self)@, ident, target, true, r),
    {
        if target != ALL_HOOKS {
            match self.find(ident, target) {
                None => {
                    return Err(Error::NotCreated);
                },
                Some(i) => {
                    if self.hooks[i].enabled {
                        assert(selects(self@[i as int], ident, target));
                        return Err(Error::HookEnabled);
                    }
                    assert(selects(self@[i as int], ident, target));
                },
            }
        }
        Ok(self.switch_records(ident, target, Switch::Enable))
    }

    /// Disables the hook with key `(ident, target)`, or with `ALL_HOOKS` every
    /// enabled hook under `ident`. Returns the writes that restore the original bytes.
    pub fn disable(&mut self, ident: u64, target: u64) -> (r: Result<Vec<Patch>, Error>)
        requires
            old(self).wf(),
        ensures
            final(self).wf(),
            switch_outcome(old(self)@, final(self)@, ident, target, false, r),
    {
        if target != ALL_HOOKS {
            match self.find(ident, target) {
                None => {
                    return Err(Error::NotCreated);
                },
                Some(i) => {
                    if !self.hooks[i].enabled {
                        assert(selects(self@[i as int], ident, target));
                        return Err(Error::HookDisabled);
                    }
                    assert(selects(self@[i as int], ident, target));
                },
            }
        }
        Ok(self.switch_records(ident, target, Switch::Disable))
    }

    /// Brings every hook under `ident` (every hook for `ALL_IDENTS`) to its
    /// queued state in one pass. Returns the writes, in registry order.
    pub fn apply_queued(&mut self, ident: u64) -> (r: Vec<Patch>)
        requires
            old(self).wf(),
        ensures
            final(self).wf(),
            final(self)@ == switch_all(old(self)@, ident, ALL_HOOKS, Switch::ApplyQueued),
            patch_views(r@) == switch_patches(
                old(self)@,
                old(self)@.len() as int,
                ident,
                ALL_HOOKS,
                Switch::ApplyQueued,
            ),
    {
        self.switch_records(ident, ALL_HOOKS, Switch::ApplyQueued)
    }

    /// Queues the selected hooks to reach state `on` at the next `apply_queued`.
    fn queue(&mut self, ident: u64, target: u64, on: bool) -> (r: Result<(), Error>)
        requires
            old(self).wf(),
        ensures
            final(self).wf(),
            queue_outcome(old(self)@, final(self)@, ident, target, on, r),
    {
        if target != ALL_HOOKS {
            if self.find(ident, target).is_none() {
                return Err(Error::NotCreated);
            }
        }
        let ghost s = self@;
        let mut i: usize = 0;
        while i < self.hooks.len()
            invariant
                self@.len() == s.len(),
                i <= s.len(),
                registry_wf(s),
                forall|j: int| 0 <= j < i ==> #[trigger] self@[j] == queue_all(s, ident, target, on)[j],
                forall|j: int| i <= j < s.len() ==> #[trigger] self@[j] == s[j],
            decreases s.len() - i,
        {
            let sel = if target == ALL_HOOKS {
                ident == ALL_IDENTS || self.hooks[i].ident == ident
            } else {
                self.hooks[i].ident == ident && self.hooks[i].target == target
            };
            assert(self@[i as int] == s[i as int]);
            if sel {
                let ghost before = self@;
                let mut h = self.hooks.remove(i);
                h.queue_enable = on;
                self.hooks.insert(i, h);
                assert(self@ =~= before.update(i as int, queue_all(s, ident, target, on)[i as int]));
            }
            i = i + 1;
        }
        assert(self@ =~= queue_all(s, ident, target, on));
        proof {
            lemma_wf_same_shape(s, self@);
        }
        Ok(())
    }

    /// Queues the hook with key `(ident, target)`, or with `ALL_HOOKS` every
    /// hook under `ident`, to be enabled at the next `apply_queued`.
    pub fn queue_enable(&mut self, ident: u64, target: u64) -> (r: Result<(), Error>)
        requires
            old(self).wf(),
        ensures
            final(self).wf(),
            queue_outcome(old(self)@, final(self)@, ident, target, true, r),
    {
        self.queue(ident, target, true)
    }

    /// Queues the hook with key `(ident, target)`, or with `ALL_HOOKS` every
    /// hook under `ident`, to be disabled at the next `apply_queued`.
    pub fn queue_disable(&mut self, ident: u64, target: u64) -> (r: Result<(), Error>)
        requires
            old(self).wf(),
        ensures
            final(self).wf(),
            queue_outcome(old(self)@, final(self)@, ident, target, false, r),
    {
        self.queue(ident, target, false)
    }

    /// Removes the disabled hook with key `(ident, target)`, or with
    /// `ALL_HOOKS` every hook under `ident`. Fails, removing nothing, while a
    /// selected hook is enabled. Returns the trampoline slots freed, in
    /// registry order, for the pool to take back.
    pub fn remove(&mut self, ident: u64, target: u64) -> (r: Result<Vec<u64>, Error>)
        requires
            old(self).wf(),
        ensures
            final(self).wf(),
            remove_outcome(old(self)@, final(self)@, ident, target, r),
    {
        if target != ALL_HOOKS {
            if self.find(ident, target).is_none() {
                return Err(Error::NotCreated);
            }
        }
        if self.any_in_state(ident, target, true) {
            return Err(Error::HookEnabled);
        }
        let ghost s = self@;
        let mut freed: Vec<u64> = Vec::new();
        let mut i: usize = 0;
        let ghost mut k: int = 0;
        while i < self.hooks.len()
            invariant
                registry_wf(self@),
                0 <= k <= s.len(),
                freed@ == selected_slots(s, k, ident, target),
                i == unselected(s, k, ident, target).len(),
                self@ == unselected(s, k, ident, target) + s.subrange(k, s.len() as int),
            decreases self@.len() - i,
        {
            let sel = if target == ALL_HOOKS {
                ident == ALL_IDENTS || self.hooks[i].ident == ident
            } else {
                self.hooks[i].ident == ident && self.hooks[i].target == target
            };
            assert(self@[i as int] == s[k]);
            let ghost before = self@;
            if sel {
                freed.push(self.hooks[i].trampoline);
                self.hooks.remove(i);
                proof {
                    lemma_remove_wf(before, i as int);
                }
                assert(self@ =~= before.remove(i as int));
                assert(self@ =~= unselected(s, k + 1, ident, target) + s.subrange(k + 1, s.len() as int));
            } else {
                i = i + 1;
                assert(self@ =~= unselected(s, k + 1, ident, target) + s.subrange(k + 1, s.len() as int));
            }
            proof {
                k = k + 1;
            }
        }
        assert(self@ =~= unselected(s, s.len() as int, ident, target));
        Ok(freed)
    }

    /// Disables every enabled hook and drops every hook, as the engine does
    /// when it is uninitialized. Returns the writes that restore the
    /// original bytes, and the trampoline slots freed, in registry order.
    pub fn revert_all(&mut self) -> (r: (Vec<Patch>, Vec<u64>))
        requires
            old(self).wf(),
        ensures
            final(self).wf(),
            final(self)@ == Seq::<HookView>::empty(),
            r.1@ == trampolines(old(self)@),
            patch_views(r.0@) == switch_patches(
                old(self)@,
                old(self)@.len() as int,
                ALL_IDENTS,
                ALL_HOOKS,
                Switch::Disable,
            ),
    {
        let ghost s = self@;
        let ps = self.switch_records(ALL_IDENTS, ALL_HOOKS, Switch::Disable);
        let mut slots: Vec<u64> = Vec::new();
        let mut i: usize = 0;
        while i < self.hooks.len()
            invariant
                i <= self@.len(),
                self@ == switch_all(s, ALL_IDENTS, ALL_HOOKS, Switch::Disable),
                self@.len() == s.len(),
                slots@ == trampolines(s).take(i as int),
            decreases self@.len() - i,
        {
            assert(self@[i as int] == switched(s[i as int], ALL_IDENTS, ALL_HOOKS, Switch::Disable));
            assert(self@[i as int].trampoline == s[i as int].trampoline);
            slots.push(self.hooks[i].trampoline);
            i = i + 1;
            assert(slots@ =~= trampolines(s).take(i as int));
        }
        assert(slots@ =~= trampolines(s));
        self.hooks = Vec::new();
        assert(self@ =~= Seq::<HookView>::empty());
        (ps, slots)
    }

    /// Brings each hook that `(ident, target)` selects to the state `op` asks
    /// for, and lists the writes, in registry order.
    fn switch_records(&mut self, ident: u64, target: u64, op: Switch) -> (r: Vec<Patch>)
        requires
            old(self).wf(),
        ensures
            final(self).wf(),
            final(self)@ == switch_all(old(self)@, ident, target, op),
            patch_views(r@) == switch_patches(old(self)@, old(self)@.len() as int, ident, target, op),
    {
        let ghost s = self@;
        let mut out: Vec<Patch> = Vec::new();
        let mut i: usize = 0;
        while i < self.hooks.len()
            invariant
                self@.len() == s.len(),
                i <= s.len(),
                registry_wf(s),
                forall|j: int| 0 <= j < i ==> #[trigger] self@[j] == switched(s[j], ident, target, op),
                forall|j: int| i <= j < s.len() ==> #[trigger] self@[j] == s[j],
                patch_views(out@) == switch_patches(s, i as int, ident, target, op),
            decreases s.len() - i,
        {
            let sel = if target == ALL_HOOKS {
                ident == ALL_IDENTS || self.hooks[i].ident == ident
            } else {
                self.hooks[i].ident == ident && self.hooks[i].target == target
            };
            let enabled = self.hooks[i].enabled;
            let want = match op {
                Switch::Enable => true,
                Switch::Disable => false,
                Switch::ApplyQueued => self.hooks[i].queue_enable,
            };
            assert(self@[i as int] == s[i as int]);
            if sel && enabled != want {
                let ghost before = self@;
                let mut h = self.hooks.remove(i);
                let bytes = if want { copy_bytes(&h.patch) } else { copy_bytes(&h.original) };
                h.enabled = want;
                h.queue_enable = want;
                let address = h.target;
                self.hooks.insert(i, h);
                assert(self@ =~= before.update(i as int, switched(s[i as int], ident, target, op)));
                let ghost pv = patch_views(out@);
                out.push(Patch { address, bytes });
                assert(patch_views(out@) =~= pv.push(patch_of(s[i as int], want)));
            } else {
                assert(switched(s[i as int], ident, target, op) == s[i as int]);
            }
            i = i + 1;
        }
        assert(self@ =~= switch_all(s, ident, target, op));
        proof {
            lemma_wf_same_shape(s, self@);
        }
        out
    }
}

/// Changing only the states of hooks keeps the registry well formed.
proof fn lemma_wf_same_shape(s: Seq<HookView>, t: Seq<HookView>)
    requires
        registry_wf(s),
        t.len() == s.len(),
        forall|i: int|
            0 <= i < s.len() ==> (#[trigger] t[i]).ident == s[i].ident && t[i].target == s[i].target
                && t[i].trampoline == s[i].trampoline && t[i].original == s[i].original && t[i].patch == s[i].patch,
    ensures
        registry_wf(t),
{
    assert forall|a: int, b: int|
        0 <= a < t.len() && 0 <= b < t.len() && a != b implies !(#[trigger] t[a].ident == #[trigger] t[b].ident
            && t[a].target == t[b].target) by {
        assert(t[a].ident == s[a].ident && t[b].ident == s[b].ident);
    }
    assert forall|a: int, b: int|
        0 <= a < t.len() && 0 <= b < t.len() && a != b implies #[trigger] t[a].trampoline != #[trigger] t[b].trampoline by {
        assert(t[a].trampoline == s[a].trampoline && t[b].trampoline == s[b].trampoline);
    }
    assert forall|a: int| 0 <= a < t.len() implies {
        &&& #[trigger] t[a].target != ALL_HOOKS
        &&& t[a].original.len() == t[a].patch.len()
        &&& t[a].patch.len() >= 5
        &&& t[a].patch[0] == 0xE9
    } by {
        assert(t[a].target == s[a].target);
    }
}

proof fn lemma_remove_wf(s: Seq<HookView>, i: int)
    requires
        registry_wf(s),
        0 <= i < s.len(),
    ensures
        registry_wf(s.remove(i)),
{
    let t = s.remove(i);
    assert forall|a: int, b: int|
        0 <= a < t.len() && 0 <= b < t.len() && a != b implies !(#[trigger] t[a].ident == #[trigger] t[b].ident
            && t[a].target == t[b].target) by {
        let a0 = if a < i { a } else { a + 1 };
        let b0 = if b < i { b } else { b + 1 };
        assert(t[a] == s[a0] && t[b] == s[b0]);
    }
    assert forall|a: int, b: int|
        0 <= a < t.len() && 0 <= b < t.len() && a != b implies #[trigger] t[a].trampoline != #[trigger] t[b].trampoline by {
        let a0 = if a < i { a } else { a + 1 };
        let b0 = if b < i { b } else { b + 1 };
        assert(t[a] == s[a0] && t[b] == s[b0]);
    }
    assert forall|a: int| 0 <= a < t.len() implies {
        &&& #[trigger] t[a].target != ALL_HOOKS
        &&& t[a].original.len() == t[a].patch.len()
        &&& t[a].patch.len() >= 5
        &&& t[a].patch[0] == 0xE9
    } by {
        let a0 = if a < i { a } else { a + 1 };
        assert(t[a] == s[a0]);
        assert(s[a0].target != ALL_HOOKS);
    }
}

} // verus!
