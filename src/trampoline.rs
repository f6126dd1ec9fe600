//! Trampoline construction: relocating the whole instructions that a jump
//! stub overwrites, and the patch that redirects the target to its detour.
use vstd::prelude::*;
use crate::encode::{
    fits_rel32, jump_dest, push_jump, push_u32_le, read_u32_le, rel32_bits, signed32, u32_le,
    JMP_ABS_LEN, JMP_REL32_LEN, NOP,
};
use crate::status::Error;

verus! {

/// What the length disassembler reports for one instruction.
#[derive(Clone, Copy, Debug, PartialEq, Eq, Structural)]
pub struct InstructionInfo {
    /// Length in bytes; 0 when the bytes do not decode.
    pub length: u8,
    /// Whether the instruction holds an operand relative to its own end.
    pub relative: bool,
    /// Offset of the relative operand inside the instruction.
    pub operand_offset: u8,
    /// Size in bytes of the relative operand.
    pub operand_size: u8,
}

/// A built trampoline: its code, and the bytes to write over the target.
pub struct Trampoline {
    /// Relocated instructions, the jump back, and possibly a relay to the detour.
    pub code: Vec<u8>,
    /// Jump to the detour, padded with `nop` up to the relocated length.
    pub patch: Vec<u8>,
    /// Number of original bytes relocated.
    pub relocated: usize,
}

/// Total length of the first `n` instructions.
pub open spec fn prefix_len(instrs: Seq<InstructionInfo>, n: int) -> int
    decreases n,
{
    if n <= 0 || n > instrs.len() {
        0
    } else {
        prefix_len(instrs, n - 1) + instrs[n - 1].length
    }
}

/// The first `n` instructions are the fewest whole ones that make room for a jump stub.
pub open spec fn is_cut(instrs: Seq<InstructionInfo>, n: int) -> bool {
    &&& 0 < n <= instrs.len()
    &&& prefix_len(instrs, n - 1) < JMP_REL32_LEN
    &&& prefix_len(instrs, n) >= JMP_REL32_LEN
}

/// Every one of the first `n` instructions decoded.
pub open spec fn decoded(instrs: Seq<InstructionInfo>, n: int) -> bool {
    forall|j: int| 0 <= j < n ==> #[trigger] instrs[j].length > 0
}

/// Absolute destination of the relative instruction `j` of code loaded at `target`.
pub open spec fn dest_of(code: Seq<u8>, instrs: Seq<InstructionInfo>, j: int, target: int) -> int {
    target + prefix_len(instrs, j + 1) + signed32(
        u32_le(code, prefix_len(instrs, j) + instrs[j].operand_offset),
    )
}

/// A destination inside the overwritten region moves with its bytes into the trampoline.
pub open spec fn moved_dest(d: int, target: int, slot: int, nb: int) -> int {
    if target <= d < target + nb {
        slot + (d - target)
    } else {
        d
    }
}

/// Instruction `j` can be relocated from `target` to `slot`.
pub open spec fn relocatable_instr(
    code: Seq<u8>,
    instrs: Seq<InstructionInfo>,
    j: int,
    target: int,
    slot: int,
    nb: int,
) -> bool {
    let info = instrs[j];
    !info.relative || (info.operand_size == 4 && info.operand_offset + 4 <= info.length
        && fits_rel32(
        moved_dest(dest_of(code, instrs, j, target), target, slot, nb) - (slot + prefix_len(
            instrs,
            j + 1,
        )),
    ))
}

/// Instruction `j` stands relocated in `out`: same bytes, and a relative
/// operand that reaches the same place from the trampoline.
pub open spec fn relocated_instr(
    out: Seq<u8>,
    code: Seq<u8>,
    instrs: Seq<InstructionInfo>,
    j: int,
    target: int,
    slot: int,
    nb: int,
) -> bool {
    let info = instrs[j];
    let off = prefix_len(instrs, j);
    let op = off + info.operand_offset;
    &&& forall|p: int|
        off <= p < off + info.length && !(info.relative && op <= p < op + 4) ==> out[p] == code[p]
    &&& info.relative ==> slot + prefix_len(instrs, j + 1) + signed32(u32_le(out, op))
        == moved_dest(dest_of(code, instrs, j, target), target, slot, nb)
}

/// The first `n` instructions can be moved from `target` to `slot`.
pub open spec fn relocation_ok(
    code: Seq<u8>,
    instrs: Seq<InstructionInfo>,
    n: int,
    target: int,
    slot: int,
) -> bool {
    &&& is_cut(instrs, n)
    &&& decoded(instrs, n)
    &&& prefix_len(instrs, n) <= code.len()
    &&& target + prefix_len(instrs, n) <= u64::MAX
    &&& forall|j: int|
        0 <= j < n ==> #[trigger] relocatable_instr(
            code,
            instrs,
            j,
            target,
            slot,
            prefix_len(instrs, n),
        )
}

/// Length of the jump back from a trampoline at `slot` to `target + nb`.
pub open spec fn tail_len(target: int, slot: int, nb: int) -> int {
    if fits_rel32(target + nb - (slot + nb + 5)) {
        JMP_REL32_LEN as int
    } else {
        JMP_ABS_LEN as int
    }
}

/// The detour can be reached from the patched target: directly, or through
/// a relay placed after the jump back.
pub open spec fn reach_ok(target: int, slot: int, detour: int, nb: int) -> bool {
    &&& slot + nb + 2 * JMP_ABS_LEN <= u64::MAX
    &&& (fits_rel32(detour - (target + 5)) || fits_rel32(
        slot + nb + tail_len(target, slot, nb) - (target + 5),
    ))
}

pub proof fn lemma_prefix_mono(instrs: Seq<InstructionInfo>, a: int, b: int)
    requires
        0 <= a <= b <= instrs.len(),
    ensures
        prefix_len(instrs, a) <= prefix_len(instrs, b),
    decreases b - a,
{
    if a < b {
        lemma_prefix_mono(instrs, a, b - 1);
    }
}

pub proof fn lemma_cut_unique(instrs: Seq<InstructionInfo>, n: int, m: int)
    requires
        is_cut(instrs, n),
        is_cut(instrs, m),
    ensures
        n == m,
{
    if n < m {
        lemma_prefix_mono(instrs, n, m - 1);
    } else if m < n {
        lemma_prefix_mono(instrs, m, n - 1);
    }
}

/// A cut ends on an instruction boundary and is the first one with room
/// for a jump stub: every shorter run of whole instructions is too short,
/// and every longer one has room too.
pub proof fn lemma_cut_minimal(instrs: Seq<InstructionInfo>, n: int)
    requires
        is_cut(instrs, n),
    ensures
        forall|m: int| 0 <= m < n ==> #[trigger] prefix_len(instrs, m) < JMP_REL32_LEN,
        forall|m: int| n <= m <= instrs.len() ==> #[trigger] prefix_len(instrs, m) >= JMP_REL32_LEN,
{
    assert forall|m: int| 0 <= m < n implies #[trigger] prefix_len(instrs, m) < JMP_REL32_LEN by {
        lemma_prefix_mono(instrs, m, n - 1);
    }
    assert forall|m: int| n <= m <= instrs.len() implies #[trigger] prefix_len(instrs, m) >= JMP_REL32_LEN by {
        lemma_prefix_mono(instrs, n, m);
    }
}

/// Counts the whole instructions, and their bytes, that make room for a jump stub.
pub fn relocation_count(instrs: &Vec<InstructionInfo>) -> (r: Option<(usize, usize)>)
    ensures
        match r {
            Some((n, nb)) => is_cut(instrs@, n as int) && decoded(instrs@, n as int) && nb
                == prefix_len(instrs@, n as int),
            None => forall|n: int| !(#[trigger] is_cut(instrs@, n) && decoded(instrs@, n)),
        },
{
    let mut k: usize = 0;
    let mut total: usize = 0;
    while total < JMP_REL32_LEN
        invariant
            k <= instrs@.len(),
            total == prefix_len(instrs@, k as int),
            decoded(instrs@, k as int),
            k > 0 ==> prefix_len(instrs@, k - 1) < JMP_REL32_LEN,
        decreases instrs@.len() - k,
    {
        if k == instrs.len() {
            proof {
                assert forall|n: int| !(#[trigger] is_cut(instrs@, n) && decoded(instrs@, n)) by {
                    if 0 < n <= instrs@.len() {
                        lemma_prefix_mono(instrs@, n, k as int);
                    }
                }
            }
            return None;
        }
        let l = instrs[k].length;
        if l == 0 {
            proof {
                assert forall|n: int| !(#[trigger] is_cut(instrs@, n) && decoded(instrs@, n)) by {
                    if is_cut(instrs@, n) && decoded(instrs@, n) {
                        if n <= k {
                            lemma_prefix_mono(instrs@, n, k as int);
                        } else {
                            assert(instrs@[k as int].length > 0);
                        }
                    }
                }
            }
            return None;
        }
        total = total + l as usize;
        k = k + 1;
    }
    Some((k, total))
}

/// Appends `code[from..to]`, where `from` is the current length of `out`.
fn copy_range(out: &mut Vec<u8>, code: &Vec<u8>, from: usize, to: usize)
    requires
        old(out)@.len() == from,
        from <= to <= code@.len(),
    ensures
        final(out)@.len() == to,
        forall|p: int| 0 <= p < from ==> final(out)@[p] == old(out)@[p],
        forall|p: int| from <= p < to ==> final(out)@[p] == code@[p],
{
    let mut i = from;
    while i < to
        invariant
            from <= i <= to <= code@.len(),
            out@.len() == i,
            forall|p: int| 0 <= p < from ==> out@[p] == old(out)@[p],
            forall|p: int| from <= p < i ==> out@[p] == code@[p],
        decreases to - i,
    {
        out.push(code[i]);
        i = i + 1;
    }
}

/// Appends `nop` bytes until `out` is `len` bytes long.
fn pad_with_nop(out: &mut Vec<u8>, len: usize)
    requires
        old(out)@.len() <= len,
    ensures
        final(out)@.len() == len,
        forall|p: int| 0 <= p < old(out)@.len() ==> final(out)@[p] == old(out)@[p],
        forall|p: int| old(out)@.len() <= p < len ==> final(out)@[p] == NOP,
{
    while out.len() < len
        invariant
            old(out)@.len() <= out@.len() <= len,
            forall|p: int| 0 <= p < old(out)@.len() ==> out@[p] == old(out)@[p],
            forall|p: int| old(out)@.len() <= p < out@.len() ==> out@[p] == NOP,
        decreases len - out@.len(),
    {
        out.push(NOP);
    }
}

/// `t` is the trampoline for `target`, placed at `slot`, with a patch that
/// reaches `detour`: the fewest whole instructions relocated, the jump back
/// to the first byte not relocated, and a jump stub padded with `nop`.
pub open spec fn built(
    t: Trampoline,
    target: u64,
    detour: u64,
    slot: u64,
    code: Seq<u8>,
    instrs: Seq<InstructionInfo>,
) -> bool {
    exists|n: int|
        {
            let nb = prefix_len(instrs, n);
            &&& #[trigger] is_cut(instrs, n)
            &&& t.relocated == nb
            &&& nb <= code.len()
            &&& t.code@.len() >= nb
            &&& forall|j: int|
                0 <= j < n ==> #[trigger] relocated_instr(
                    t.code@,
                    code,
                    instrs,
                    j,
                    target as int,
                    slot as int,
                    nb,
                )
            &&& jump_dest(t.code@, nb, slot as int) == Some(target + nb)
            &&& t.patch@.len() == nb
            &&& t.patch@[0] == 0xE9
            &&& forall|p: int| JMP_REL32_LEN <= p < nb ==> t.patch@[p] == NOP
            &&& ({
                let to = target + JMP_REL32_LEN + signed32(u32_le(t.patch@, 1));
                to == detour || (slot <= to && jump_dest(t.code@, to - slot, slot as int) == Some(
                    detour as int,
                ))
            })
        }
}

/// Builds the trampoline for `target`, to be placed at `slot`, and the
/// patch that sends `target` to `detour`. `code` holds the bytes at
/// `target` and `instrs` what the disassembler decoded from them, in order.
pub fn build_trampoline(
    target: u64,
    detour: u64,
    slot: u64,
    code: &Vec<u8>,
    instrs: &Vec<InstructionInfo>,
) -> (r: Result<Trampoline, Error>)
    ensures
        r is Ok <==> exists|n: int|
            #[trigger] relocation_ok(code@, instrs@, n, target as int, slot as int) && reach_ok(
                target as int,
                slot as int,
                detour as int,
                prefix_len(instrs@, n),
            ),
        r == Err::<Trampoline, Error>(Error::UnsupportedFunction) <==> forall|n: int|
            !#[trigger] relocation_ok(code@, instrs@, n, target as int, slot as int),
        r is Err ==> r == Err::<Trampoline, Error>(Error::UnsupportedFunction) || r == Err::<
            Trampoline,
            Error,
        >(Error::AllocationFailure),
        r matches Ok(t) ==> built(t, target, detour, slot, code@, instrs@),
{
    let (n, nb) = match relocation_count(instrs) {
        Some(c) => c,
        None => {
            proof {
                assert forall|m: int| !#[trigger] relocation_ok(code@, instrs@, m, target as int, slot as int) by {}
            }
            return Err(Error::UnsupportedFunction);
        },
    };
    proof {
        assert forall|m: int| #[trigger] relocation_ok(code@, instrs@, m, target as int, slot as int) implies m == n by {
            lemma_cut_unique(instrs@, n as int, m);
        }
    }
    if nb > code.len() || target > u64::MAX - nb as u64 {
        return Err(Error::UnsupportedFunction);
    }
    let mut out: Vec<u8> = Vec::new();
    let mut k: usize = 0;
    while k < n
        invariant
            k <= n <= instrs@.len(),
            is_cut(instrs@, n as int),
            decoded(instrs@, n as int),
            nb == prefix_len(instrs@, n as int),
            nb <= code@.len(),
            target + nb <= u64::MAX,
            forall|m: int| #[trigger] relocation_ok(code@, instrs@, m, target as int, slot as int) ==> m == n,
            out@.len() == prefix_len(instrs@, k as int),
            forall|j: int|
                0 <= j < k ==> #[trigger] relocatable_instr(
                    code@,
                    instrs@,
                    j,
                    target as int,
                    slot as int,
                    nb as int,
                ),
            forall|j: int|
                0 <= j < k ==> #[trigger] relocated_instr(
                    out@,
                    code@,
                    instrs@,
                    j,
                    target as int,
                    slot as int,
                    nb as int,
                ),
        decreases n - k,
    {
        let info = instrs[k];
        let off = out.len();
        proof {
            lemma_prefix_mono(instrs@, k as int + 1, n as int);
        }
        let end = off + info.length as usize;
        let ghost before = out@;
        if !info.relative {
            copy_range(&mut out, code, off, end);
            assert forall|p: int| 0 <= p < off implies out@[p] == before[p] by {}
        } else {
            let oo = info.operand_offset as usize;
            if info.operand_size != 4 || oo + 4 > info.length as usize {
                proof {
                    assert(!relocatable_instr(code@, instrs@, k as int, target as int, slot as int, prefix_len(instrs@, n as int)));
                }
                return Err(Error::UnsupportedFunction);
            }
            copy_range(&mut out, code, off, off + oo);
            let disp = read_u32_le(code, off + oo);
            let sd: i128 = if disp < 0x8000_0000 { disp as i128 } else { disp as i128 - 0x1_0000_0000 };
            let d: i128 = target as i128 + end as i128 + sd;
            let md: i128 = if target as i128 <= d && d < target as i128 + nb as i128 {
                slot as i128 + (d - target as i128)
            } else {
                d
            };
            let nd: i128 = md - (slot as i128 + end as i128);
            assert(prefix_len(instrs@, k + 1) == end);
            assert(sd == signed32(u32_le(code@, (off + oo) as int)));
            assert(d == dest_of(code@, instrs@, k as int, target as int));
            assert(md == moved_dest(d as int, target as int, slot as int, nb as int));
            if !(-0x8000_0000 <= nd && nd < 0x8000_0000) {
                proof {
                    assert(!relocatable_instr(code@, instrs@, k as int, target as int, slot as int, prefix_len(instrs@, n as int)));
                }
                return Err(Error::UnsupportedFunction);
            }
            let ghost mid = out@;
            push_u32_le(&mut out, rel32_bits(nd));
            let ghost mid2 = out@;
            copy_range(&mut out, code, off + oo + 4, end);
            assert(u32_le(out@, (off + oo) as int) == u32_le(mid2, (off + oo) as int));
            assert(signed32(u32_le(out@, (off + oo) as int)) == nd);
            assert forall|p: int| 0 <= p < off implies out@[p] == before[p] by {
                assert(mid[p] == before[p]);
                assert(mid2[p] == mid[p]);
            }
            assert(relocatable_instr(code@, instrs@, k as int, target as int, slot as int, nb as int));
            assert forall|p: int| off <= p < end && !(off + oo <= p < off + oo + 4) implies out@[p] == code@[p] by {
                if p < off + oo {
                    assert(mid[p] == code@[p]);
                    assert(mid2[p] == mid[p]);
                }
            }
        }
        assert(relocated_instr(out@, code@, instrs@, k as int, target as int, slot as int, nb as int));
        proof {
            assert forall|j: int|
                0 <= j < k + 1 implies #[trigger] relocated_instr(
                    out@,
                    code@,
                    instrs@,
                    j,
                    target as int,
                    slot as int,
                    nb as int,
                ) by {
                if j < k {
                    lemma_prefix_mono(instrs@, 0, j);
                    lemma_prefix_mono(instrs@, j + 1, k as int);
                    assert(relocated_instr(before, code@, instrs@, j, target as int, slot as int, nb as int));
                    let op = prefix_len(instrs@, j) + instrs@[j].operand_offset;
                    if instrs@[j].relative {
                        assert(relocatable_instr(code@, instrs@, j, target as int, slot as int, nb as int));
                        assert(op + 4 <= prefix_len(instrs@, j + 1));
                        assert(out@[op] == before[op] && out@[op + 1] == before[op + 1]);
                        assert(out@[op + 2] == before[op + 2] && out@[op + 3] == before[op + 3]);
                        assert(u32_le(out@, op) == u32_le(before, op));
                    }
                }
            }
        }
        k = k + 1;
    }
    assert(relocation_ok(code@, instrs@, n as int, target as int, slot as int));
    if slot > u64::MAX - nb as u64 - 2 * JMP_ABS_LEN as u64 {
        return Err(Error::AllocationFailure);
    }
    let ghost body = out@;
    push_jump(&mut out, slot, target + nb as u64);
    let dd: i128 = detour as i128 - (target as i128 + 5);
    let to: u64;
    let mut patch: Vec<u8> = Vec::new();
    if -0x8000_0000 <= dd && dd < 0x8000_0000 {
        to = detour;
        patch.push(0xE9);
        push_u32_le(&mut patch, rel32_bits(dd));
    } else {
        let relay = slot + out.len() as u64;
        let rd: i128 = relay as i128 - (target as i128 + 5);
        if !(-0x8000_0000 <= rd && rd < 0x8000_0000) {
            return Err(Error::AllocationFailure);
        }
        let ghost tail = out@;
        push_jump(&mut out, slot, detour);
        assert(jump_dest(out@, nb as int, slot as int) == jump_dest(tail, nb as int, slot as int));
        to = relay;
        patch.push(0xE9);
        push_u32_le(&mut patch, rel32_bits(rd));
    }
    let ghost stub = patch@;
    pad_with_nop(&mut patch, nb);
    assert(u32_le(patch@, 1) == u32_le(stub, 1));
    assert(jump_dest(out@, nb as int, slot as int) == Some(target + nb));
    assert forall|j: int| 0 <= j < n implies #[trigger] relocated_instr(
        out@,
        code@,
        instrs@,
        j,
        target as int,
        slot as int,
        nb as int,
    ) by {
        lemma_prefix_mono(instrs@, 0, j);
        lemma_prefix_mono(instrs@, j + 1, n as int);
        assert(relocated_instr(body, code@, instrs@, j, target as int, slot as int, nb as int));
        let op = prefix_len(instrs@, j) + instrs@[j].operand_offset;
        if instrs@[j].relative {
            assert(relocatable_instr(code@, instrs@, j, target as int, slot as int, nb as int));
            assert(op + 4 <= prefix_len(instrs@, j + 1));
            assert(out@[op] == body[op] && out@[op + 1] == body[op + 1]);
            assert(out@[op + 2] == body[op + 2] && out@[op + 3] == body[op + 3]);
            assert(u32_le(out@, op) == u32_le(body, op));
        }
    }
    let t = Trampoline { code: out, patch, relocated: nb };
    assert(is_cut(instrs@, n as int));
    Ok(t)
}

} // verus!
