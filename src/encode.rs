//! Little-endian operands and x86 jump encodings.
use vstd::prelude::*;
use vstd::arithmetic::div_mod::lemma_fundamental_div_mod;

verus! {

/// Length of a near relative jump: `E9` and a 32-bit displacement.
pub const JMP_REL32_LEN: usize = 5;

/// Length of an absolute indirect jump: `FF 25 00 00 00 00` and a 64-bit address.
pub const JMP_ABS_LEN: usize = 14;

/// Filler written after the jump stub in a patched prologue (`nop`).
pub const NOP: u8 = 0x90;

/// The unsigned 32-bit value stored little-endian at `i`.
pub open spec fn u32_le(b: Seq<u8>, i: int) -> int {
    b[i] + 256 * b[i + 1] + 65536 * b[i + 2] + 16777216 * b[i + 3]
}

/// The unsigned 64-bit value stored little-endian at `i`.
pub open spec fn u64_le(b: Seq<u8>, i: int) -> int {
    u32_le(b, i) + 0x1_0000_0000 * u32_le(b, i + 4)
}

/// A 32-bit pattern read as a two's-complement displacement.
pub open spec fn signed32(u: int) -> int {
    if u < 0x8000_0000 {
        u
    } else {
        u - 0x1_0000_0000
    }
}

/// A displacement that a 32-bit relative operand can hold.
pub open spec fn fits_rel32(d: int) -> bool {
    -0x8000_0000 <= d < 0x8000_0000
}

/// Where the jump stored at offset `at` of a block loaded at address `base` lands.
pub open spec fn jump_dest(b: Seq<u8>, at: int, base: int) -> Option<int> {
    if 0 <= at && at + 5 <= b.len() && b[at] == 0xE9 {
        Some(base + at + 5 + signed32(u32_le(b, at + 1)))
    } else if 0 <= at && at + 14 <= b.len() && b[at] == 0xFF && b[at + 1] == 0x25 && u32_le(b, at + 2) == 0 {
        Some(u64_le(b, at + 6))
    } else {
        None
    }
}

/// Reads the unsigned 32-bit value stored little-endian at `i`.
pub fn read_u32_le(b: &Vec<u8>, i: usize) -> (r: u32)
    requires
        i + 4 <= b@.len(),
    ensures
        r as int == u32_le(b@, i as int),
{
    let n = b.len();
    assert(i + 3 < n);
    b[i] as u32 + 256 * (b[i + 1] as u32) + 65536 * (b[i + 2] as u32) + 16777216 * (b[i + 3] as u32)
}

/// Appends `x` as four little-endian bytes.
pub fn push_u32_le(out: &mut Vec<u8>, x: u32)
    ensures
        final(out)@.len() == old(out)@.len() + 4,
        forall|p: int| 0 <= p < old(out)@.len() ==> final(out)@[p] == old(out)@[p],
        u32_le(final(out)@, old(out)@.len() as int) == x,
{
    let b0 = x % 256;
    let x1 = x / 256;
    let b1 = x1 % 256;
    let x2 = x1 / 256;
    let b2 = x2 % 256;
    let b3 = x2 / 256;
    proof {
        lemma_fundamental_div_mod(x as int, 256);
        lemma_fundamental_div_mod(x1 as int, 256);
        lemma_fundamental_div_mod(x2 as int, 256);
    }
    let start = out.len();
    out.push(b0 as u8);
    out.push(b1 as u8);
    out.push(b2 as u8);
    out.push(b3 as u8);
    assert(final(out)@[start as int] == b0 && final(out)@[start + 1] == b1);
    assert(final(out)@[start + 2] == b2 && final(out)@[start + 3] == b3);
}

/// Appends `x` as eight little-endian bytes.
pub fn push_u64_le(out: &mut Vec<u8>, x: u64)
    ensures
        final(out)@.len() == old(out)@.len() + 8,
        forall|p: int| 0 <= p < old(out)@.len() ==> final(out)@[p] == old(out)@[p],
        u64_le(final(out)@, old(out)@.len() as int) == x,
{
    let lo = (x % 0x1_0000_0000) as u32;
    let hi = (x / 0x1_0000_0000) as u32;
    proof {
        lemma_fundamental_div_mod(x as int, 0x1_0000_0000);
    }
    let ghost start = out@.len() as int;
    push_u32_le(out, lo);
    let ghost mid = out@;
    push_u32_le(out, hi);
    assert(u32_le(out@, start) == u32_le(mid, start));
}

/// The 32-bit pattern of displacement `d`.
pub fn rel32_bits(d: i128) -> (r: u32)
    requires
        fits_rel32(d as int),
    ensures
        signed32(r as int) == d,
{
    if d >= 0 {
        d as u32
    } else {
        (d + 0x1_0000_0000) as u32
    }
}

/// Appends a jump to `dest`, for a block loaded at `base`: the near relative
/// form where the displacement fits, else the absolute indirect form.
pub fn push_jump(out: &mut Vec<u8>, base: u64, dest: u64)
    ensures
        final(out)@.len() == old(out)@.len() + 5 || final(out)@.len() == old(out)@.len() + 14,
        final(out)@.len() == old(out)@.len() + 5 <==> fits_rel32(
            dest - (base + old(out)@.len() + 5),
        ),
        forall|p: int| 0 <= p < old(out)@.len() ==> final(out)@[p] == old(out)@[p],
        jump_dest(final(out)@, old(out)@.len() as int, base as int) == Some(dest as int),
{
    let at = out.len();
    let d: i128 = dest as i128 - (base as i128 + at as i128 + 5);
    if -0x8000_0000 <= d && d < 0x8000_0000 {
        out.push(0xE9);
        push_u32_le(out, rel32_bits(d));
    } else {
        out.push(0xFF);
        out.push(0x25);
        push_u32_le(out, 0);
        let ghost mid = out@;
        push_u64_le(out, dest);
        assert(u32_le(out@, at + 2) == u32_le(mid, at + 2));
    }
}

} // verus!
