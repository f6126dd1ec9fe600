//! A pool of fixed-size executable slots for trampolines, handed out only
//! within short-jump reach of the target they serve.
use vstd::prelude::*;
use vstd::arithmetic::div_mod::lemma_fundamental_div_mod;

verus! {

/// Size in bytes of one trampoline slot.
pub const SLOT_SIZE: u64 = 64;

/// Largest distance between a target and the slot that serves it.
pub const MAX_MEMORY_RANGE: u64 = 0x4000_0000;

/// Slot `i` of a pool at `base`.
pub open spec fn slot_addr(base: u64, i: int) -> int {
    base + i * SLOT_SIZE
}

/// A slot at `addr` can serve a target at `near`.
pub open spec fn in_reach(addr: int, near: u64) -> bool {
    near - MAX_MEMORY_RANGE <= addr && addr + SLOT_SIZE <= near + MAX_MEMORY_RANGE
}

/// A page-aligned region divided into slots, each free or in use.
pub struct SlotPool {
    base: u64,
    used: Vec<bool>,
}

impl SlotPool {
    /// Address of the first slot.
    pub closed spec fn base(&self) -> u64 {
        self.base
    }

    /// Which slots are in use.
    pub closed spec fn used(&self) -> Seq<bool> {
        self.used@
    }

    pub open spec fn wf(&self) -> bool {
        self.base() + self.used().len() * SLOT_SIZE <= u64::MAX
    }

    /// A pool of `count` free slots from `base` on.
    pub fn new(base: u64, count: usize) -> (r: SlotPool)
        requires
            base + count * SLOT_SIZE <= u64::MAX,
        ensures
            r.wf(),
            r.base() == base,
            r.used() == Seq::new(count as nat, |i: int| false),
    {
        let mut used: Vec<bool> = Vec::new();
        let mut i: usize = 0;
        while i < count
            invariant
                i <= count,
                used@ == Seq::new(i as nat, |j: int| false),
            decreases count - i,
        {
            used.push(false);
            i = i + 1;
            assert(used@ =~= Seq::new(i as nat, |j: int| false));
        }
        SlotPool { base, used }
    }

    /// Takes the first free slot within reach of `near`, if there is one.
    pub fn allocate(&mut self, near: u64) -> (r: Option<u64>)
        requires
            old(self).wf(),
        ensures
            final(self).wf(),
            final(self).base() == old(self).base(),
            match r {
                Some(a) => exists|i: int|
                    0 <= i < old(self).used().len() && !old(self).used()[i] && a == #[trigger] slot_addr(
                        old(self).base(),
                        i,
                    ) && in_reach(a as int, near) && final(self).used() == old(self).used().update(i, true),
                None => final(self).used() == old(self).used() && forall|i: int|
                    0 <= i < old(self).used().len() && !old(self).used()[i] ==> !in_reach(
                        #[trigger] slot_addr(old(self).base(), i),
                        near,
                    ),
            },
    {
        let mut i: usize = 0;
        while i < self.used.len()
            invariant
                self.wf(),
                i <= self.used@.len(),
                self.used@ == old(self).used@,
                self.base == old(self).base,
                forall|j: int|
                    0 <= j < i && !self.used@[j] ==> !in_reach(#[trigger] slot_addr(self.base, j), near),
            decreases self.used@.len() - i,
        {
            let addr = self.base + i as u64 * SLOT_SIZE;
            let reach = (near < MAX_MEMORY_RANGE || near - MAX_MEMORY_RANGE <= addr) && (addr as u128
                + SLOT_SIZE as u128 <= near as u128 + MAX_MEMORY_RANGE as u128);
            assert(addr == slot_addr(self.base, i as int));
            assert(reach == in_reach(addr as int, near));
            if !self.used[i] && reach {
                self.used.set(i, true);
                assert(self.used@ == old(self).used@.update(i as int, true));
                assert(slot_addr(old(self).base(), i as int) == addr);
                assert(self.used() == old(self).used().update(i as int, true));
                return Some(addr);
            }
            i = i + 1;
        }
        None
    }

    /// Returns the slot at `addr` to the free state; false when `addr` is
    /// not a slot of this pool in use.
    pub fn release(&mut self, addr: u64) -> (r: bool)
        requires
            old(self).wf(),
        ensures
            final(self).wf(),
            final(self).base() == old(self).base(),
            r <==> exists|i: int|
                0 <= i < old(self).used().len() && old(self).used()[i] && #[trigger] slot_addr(
                    old(self).base(),
                    i,
                ) == addr,
            r ==> exists|i: int|
                0 <= i < old(self).used().len() && #[trigger] slot_addr(old(self).base(), i) == addr
                    && final(self).used() == old(self).used().update(i, false),
            !r ==> final(self).used() == old(self).used(),
    {
        if addr < self.base || (addr - self.base) % SLOT_SIZE != 0 {
            assert forall|i: int| 0 <= i < self.used@.len() implies #[trigger] slot_addr(self.base, i) != addr by {
                if slot_addr(self.base, i) == addr {
                    assert((addr - self.base) as int == i * 64);
                    assert((i * 64) % 64 == 0) by (nonlinear_arith);
                }
            }
            return false;
        }
        let q = (addr - self.base) / SLOT_SIZE;
        proof {
            lemma_fundamental_div_mod((addr - self.base) as int, SLOT_SIZE as int);
        }
        assert(slot_addr(self.base, q as int) == addr);
        if q >= self.used.len() as u64 || !self.used[q as usize] {
            let ghost i = q as int;
            assert forall|j: int| 0 <= j < self.used@.len() && self.used@[j] implies #[trigger] slot_addr(self.base, j) != addr by {
                if slot_addr(self.base, j) == addr {
                    assert(j == i);
                }
            }
            return false;
        }
        let i = q as usize;
        self.used.set(i, false);
        true
    }

    /// Whether every slot is free, so that the pool's pages can go back to the system.
    pub fn is_empty(&self) -> (r: bool)
        ensures
            r <==> forall|i: int| 0 <= i < self.used().len() ==> !self.used()[i],
    {
        let mut i: usize = 0;
        while i < self.used.len()
            invariant
                i <= self.used@.len(),
                forall|j: int| 0 <= j < i ==> !self.used@[j],
            decreases self.used@.len() - i,
        {
            if self.used[i] {
                assert(self.used()[i as int]);
                return false;
            }
            i = i + 1;
        }
        true
    }
}

} // verus!
