//! What the registry's writes do to process memory, and the laws of the
//! hook lifecycle stated over it.
use vstd::prelude::*;
use crate::registry::{
    patch_of, registry_wf, selects, switch_all, switch_patches, unselected, change, create_outcome,
    has_key, HookView, PatchView, Switch, ALL_HOOKS,
};
use crate::status::Error;
use crate::trampoline::{InstructionInfo, Trampoline};

verus! {

/// `mem` with `bytes` written from `addr` on.
pub open spec fn write_bytes(mem: Map<int, u8>, addr: int, bytes: Seq<u8>) -> Map<int, u8> {
    Map::new(
        |a: int| mem.dom().contains(a) || (addr <= a < addr + bytes.len()),
        |a: int|
            if addr <= a < addr + bytes.len() {
                bytes[a - addr]
            } else {
                mem[a]
            },
    )
}

/// `mem` after the writes `ps`, in order.
pub open spec fn apply_patches(mem: Map<int, u8>, ps: Seq<PatchView>) -> Map<int, u8>
    decreases ps.len(),
{
    if ps.len() == 0 {
        mem
    } else {
        write_bytes(apply_patches(mem, ps.drop_last()), ps.last().address, ps.last().bytes)
    }
}

/// `m` and `mem` agree outside the `len` bytes from `addr` on.
pub open spec fn same_outside(m: Map<int, u8>, mem: Map<int, u8>, addr: int, len: int) -> bool {
    forall|a: int|
        !(addr <= a < addr + len) ==> (#[trigger] m.dom().contains(a) == mem.dom().contains(a)) && (
        mem.dom().contains(a) ==> m[a] == mem[a])
}

/// `mem` holds `bytes` from `addr` on.
pub open spec fn holds_at(mem: Map<int, u8>, addr: int, bytes: Seq<u8>) -> bool {
    forall|k: int| 0 <= k < bytes.len() ==> mem.dom().contains(addr + k) && #[trigger] mem[addr + k] == bytes[k]
}

/// A pass over a registry where only hook `i` has key `(ident, target)`
/// writes that hook's bytes, or nothing.
proof fn lemma_single_patches(s: Seq<HookView>, i: int, ident: u64, target: u64, op: Switch, n: int)
    requires
        0 <= i < s.len(),
        0 <= n <= s.len(),
        target != ALL_HOOKS,
        s[i].ident == ident && s[i].target == target,
        forall|j: int| 0 <= j < s.len() && j != i ==> !(#[trigger] s[j].ident == ident && s[j].target == target),
    ensures
        n <= i ==> switch_patches(s, n, ident, target, op) == Seq::<PatchView>::empty(),
        n > i ==> switch_patches(s, n, ident, target, op) == match change(s[i], ident, target, op) {
            Some(on) => Seq::<PatchView>::empty().push(patch_of(s[i], on)),
            None => Seq::<PatchView>::empty(),
        },
    decreases n,
{
    if n > 0 {
        lemma_single_patches(s, i, ident, target, op, n - 1);
        if n - 1 != i {
            assert(!(s[n - 1].ident == ident && s[n - 1].target == target));
            assert(change(s[n - 1], ident, target, op) is None);
        }
    }
}

proof fn lemma_apply_one(mem: Map<int, u8>, p: PatchView)
    ensures
        apply_patches(mem, Seq::<PatchView>::empty().push(p)) == write_bytes(mem, p.address, p.bytes),
{
    let ps = Seq::<PatchView>::empty().push(p);
    assert(ps.drop_last() =~= Seq::<PatchView>::empty());
    assert(apply_patches(mem, Seq::<PatchView>::empty()) == mem);
    assert(ps.last() == p);
}

/// Enabling a created hook marks it enabled and writes its patch over the
/// target: afterwards the target's first N bytes are the jump stub and its
/// padding, N being the number of bytes relocated.
pub proof fn lemma_enable_installs_stub(s: Seq<HookView>, mem: Map<int, u8>, i: int, ident: u64, target: u64)
    requires
        registry_wf(s),
        0 <= i < s.len(),
        s[i].ident == ident && s[i].target == target,
        !s[i].enabled,
    ensures
        switch_all(s, ident, target, Switch::Enable)[i].enabled,
        holds_at(
            apply_patches(mem, switch_patches(s, s.len() as int, ident, target, Switch::Enable)),
            target as int,
            s[i].patch,
        ),
        same_outside(
            apply_patches(mem, switch_patches(s, s.len() as int, ident, target, Switch::Enable)),
            mem,
            target as int,
            s[i].patch.len() as int,
        ),
        forall|j: int| 0 <= j < s.len() && j != i ==> #[trigger] switch_all(s, ident, target, Switch::Enable)[j] == s[j],
        s[i].patch.len() == s[i].original.len(),
        s[i].patch[0] == 0xE9,
{
    assert(s[i].target != ALL_HOOKS);
    lemma_single_patches(s, i, ident, target, Switch::Enable, s.len() as int);
    lemma_apply_one(mem, patch_of(s[i], true));
    assert forall|j: int| 0 <= j < s.len() && j != i implies #[trigger] switch_all(s, ident, target, Switch::Enable)[j] == s[j] by {
        assert(!(s[j].ident == ident && s[j].target == target));
    }
}

/// Disabling an enabled hook marks it disabled and writes back the exact
/// original bytes of the target.
pub proof fn lemma_disable_restores(s: Seq<HookView>, mem: Map<int, u8>, i: int, ident: u64, target: u64)
    requires
        registry_wf(s),
        0 <= i < s.len(),
        s[i].ident == ident && s[i].target == target,
        s[i].enabled,
    ensures
        !switch_all(s, ident, target, Switch::Disable)[i].enabled,
        holds_at(
            apply_patches(mem, switch_patches(s, s.len() as int, ident, target, Switch::Disable)),
            target as int,
            s[i].original,
        ),
        same_outside(
            apply_patches(mem, switch_patches(s, s.len() as int, ident, target, Switch::Disable)),
            mem,
            target as int,
            s[i].original.len() as int,
        ),
        forall|j: int| 0 <= j < s.len() && j != i ==> #[trigger] switch_all(s, ident, target, Switch::Disable)[j] == s[j],
{
    assert(s[i].target != ALL_HOOKS);
    lemma_single_patches(s, i, ident, target, Switch::Disable, s.len() as int);
    lemma_apply_one(mem, patch_of(s[i], false));
    assert forall|j: int| 0 <= j < s.len() && j != i implies #[trigger] switch_all(s, ident, target, Switch::Disable)[j] == s[j] by {
        assert(!(s[j].ident == ident && s[j].target == target));
    }
}

/// Creating a hook whose key is already in use fails with `AlreadyCreated`,
/// whatever the detour, and leaves every hook, the first one included, as it was.
pub proof fn lemma_create_twice(
    s: Seq<HookView>,
    t: Seq<HookView>,
    ident: u64,
    target: u64,
    detour: u64,
    slot: u64,
    code: Seq<u8>,
    instrs: Seq<InstructionInfo>,
    r: Result<Trampoline, Error>,
)
    requires
        target != ALL_HOOKS,
        has_key(s, ident, target),
        create_outcome(s, t, ident, target, detour, true, slot, code, instrs, r),
    ensures
        r == Err::<Trampoline, Error>(Error::AlreadyCreated),
        t == s,
{
}

/// Enabling and then disabling a created hook leaves the target's memory as
/// it was when the hook was created, the hook disabled, and every other hook
/// as it was.
pub proof fn lemma_patch_cycle(s: Seq<HookView>, mem: Map<int, u8>, i: int, ident: u64, target: u64)
    requires
        registry_wf(s),
        0 <= i < s.len(),
        s[i].ident == ident && s[i].target == target,
        !s[i].enabled,
        holds_at(mem, target as int, s[i].original),
    ensures
        ({
            let s1 = switch_all(s, ident, target, Switch::Enable);
            let s2 = switch_all(s1, ident, target, Switch::Disable);
            let p1 = switch_patches(s, s.len() as int, ident, target, Switch::Enable);
            let p2 = switch_patches(s1, s1.len() as int, ident, target, Switch::Disable);
            &&& apply_patches(apply_patches(mem, p1), p2) == mem
            &&& !s2[i].enabled
            &&& s2.len() == s.len()
            &&& forall|j: int| 0 <= j < s.len() && j != i ==> #[trigger] s2[j] == s[j]
        }),
{
    assert(s[i].target != ALL_HOOKS);
    let s1 = switch_all(s, ident, target, Switch::Enable);
    let s2 = switch_all(s1, ident, target, Switch::Disable);
    assert forall|j: int| 0 <= j < s.len() && j != i implies !(#[trigger] s[j].ident == ident
        && s[j].target == target) by {}
    assert forall|j: int| 0 <= j < s1.len() && j != i implies !(#[trigger] s1[j].ident == ident
        && s1[j].target == target) by {
        assert(s1[j] == s[j]);
    }
    lemma_single_patches(s, i, ident, target, Switch::Enable, s.len() as int);
    lemma_single_patches(s1, i, ident, target, Switch::Disable, s1.len() as int);
    lemma_apply_one(mem, patch_of(s[i], true));
    let m1 = write_bytes(mem, target as int, s[i].patch);
    lemma_apply_one(m1, patch_of(s1[i], false));
    let m2 = write_bytes(m1, target as int, s[i].original);
    assert forall|a: int| #[trigger] m2.dom().contains(a) <==> mem.dom().contains(a) by {
        if target <= a < target + s[i].original.len() {
            assert(mem[target + (a - target)] == s[i].original[a - target]);
        }
    }
    assert forall|a: int| m2.dom().contains(a) implies #[trigger] m2[a] == mem[a] by {
        if target <= a < target + s[i].original.len() {
            assert(mem[target + (a - target)] == s[i].original[a - target]);
        }
    }
    assert(m2 =~= mem);
    assert forall|j: int| 0 <= j < s.len() && j != i implies #[trigger] s2[j] == s[j] by {
        assert(s1[j] == s[j]);
    }
}

/// With `ALL_HOOKS`, enabling or disabling reaches every hook under `ident`
/// (every hook for `ALL_IDENTS`) and changes no other hook.
pub proof fn lemma_all_hooks_scope(s: Seq<HookView>, ident: u64, on: bool)
    ensures
        ({
            let op = if on { Switch::Enable } else { Switch::Disable };
            let t = switch_all(s, ident, ALL_HOOKS, op);
            &&& t.len() == s.len()
            &&& forall|j: int|
                0 <= j < s.len() && #[trigger] selects(s[j], ident, ALL_HOOKS) ==> t[j].enabled == on
            &&& forall|j: int|
                0 <= j < s.len() && !#[trigger] selects(s[j], ident, ALL_HOOKS) ==> t[j] == s[j]
        }),
{
}

/// Removal keeps exactly the hooks that `(ident, target)` does not select,
/// in their order: no kept hook is selected, and every unselected hook is kept.
pub proof fn lemma_remove_scope(s: Seq<HookView>, ident: u64, target: u64, n: int)
    requires
        0 <= n <= s.len(),
    ensures
        forall|k: int|
            0 <= k < unselected(s, n, ident, target).len() ==> !selects(
                #[trigger] unselected(s, n, ident, target)[k],
                ident,
                target,
            ),
        forall|j: int|
            0 <= j < n && !selects(#[trigger] s[j], ident, target) ==> unselected(s, n, ident, target).contains(s[j]),
    decreases n,
{
    if n > 0 {
        lemma_remove_scope(s, ident, target, n - 1);
        let prev = unselected(s, n - 1, ident, target);
        let cur = unselected(s, n, ident, target);
        assert forall|j: int| 0 <= j < n && !selects(#[trigger] s[j], ident, target) implies cur.contains(s[j]) by {
            if j < n - 1 {
                let k = choose|k: int| 0 <= k < prev.len() && prev[k] == s[j];
                if !selects(s[n - 1], ident, target) {
                    assert(cur[k] == s[j]);
                }
            } else {
                assert(cur[cur.len() - 1] == s[j]);
            }
        }
    }
}

} // verus!
