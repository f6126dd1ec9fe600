use minhook_ex::encode::{push_jump, push_u32_le, push_u64_le, read_u32_le, rel32_bits};
use minhook_ex::status::Error;
use minhook_ex::trampoline::{build_trampoline, relocation_count, InstructionInfo};

fn plain(length: u8) -> InstructionInfo {
    InstructionInfo { length, relative: false, operand_offset: 0, operand_size: 0 }
}

fn rel32(length: u8, operand_offset: u8) -> InstructionInfo {
    InstructionInfo { length, relative: true, operand_offset, operand_size: 4 }
}

fn disp_at(b: &[u8], i: usize) -> i64 {
    i32::from_le_bytes([b[i], b[i + 1], b[i + 2], b[i + 3]]) as i64
}

// push ebp; mov ebp, esp; sub esp, 0x10; then more code
fn six_byte_prologue() -> (Vec<u8>, Vec<InstructionInfo>) {
    let code = vec![0x55, 0x8B, 0xEC, 0x83, 0xEC, 0x10, 0x8B, 0x45, 0x08, 0xC3];
    let instrs = vec![plain(1), plain(2), plain(3), plain(3), plain(1)];
    (code, instrs)
}

#[test]
fn le_encoding_values() {
    let mut v = Vec::new();
    push_u32_le(&mut v, 0x1234_5678);
    assert_eq!(v, vec![0x78, 0x56, 0x34, 0x12]);
    assert_eq!(read_u32_le(&v, 0), 0x1234_5678);
    push_u64_le(&mut v, 0x0102_0304_0506_0708);
    assert_eq!(&v[4..], &[8, 7, 6, 5, 4, 3, 2, 1]);
    assert_eq!(rel32_bits(-1), 0xFFFF_FFFF);
    assert_eq!(rel32_bits(5), 5);
}

#[test]
fn jump_near_and_far() {
    let mut v = Vec::new();
    push_jump(&mut v, 0x1000, 0x2000);
    assert_eq!(v.len(), 5);
    assert_eq!(v[0], 0xE9);
    assert_eq!(0x1000 + 5 + disp_at(&v, 1), 0x2000);
    let mut w = Vec::new();
    push_jump(&mut w, 0x1000, 0x7FFF_0000_0000);
    assert_eq!(w.len(), 14);
    assert_eq!(&w[..6], &[0xFF, 0x25, 0, 0, 0, 0]);
    assert_eq!(u64::from_le_bytes(w[6..14].try_into().unwrap()), 0x7FFF_0000_0000);
}

#[test]
fn relocation_count_never_splits_an_instruction() {
    let (_, instrs) = six_byte_prologue();
    assert_eq!(relocation_count(&instrs), Some((3, 6)));
    assert_eq!(relocation_count(&vec![plain(5), plain(1)]), Some((1, 5)));
    assert_eq!(relocation_count(&vec![plain(2), plain(2)]), None);
    assert_eq!(relocation_count(&vec![plain(2), plain(0), plain(4)]), None);
    assert_eq!(relocation_count(&vec![]), None);
}

#[test]
fn six_byte_prologue_relocates_whole_instructions() {
    let (code, instrs) = six_byte_prologue();
    let target: u64 = 0x40_1000;
    let slot: u64 = 0x40_8000;
    let detour: u64 = 0x40_5000;
    let t = build_trampoline(target, detour, slot, &code, &instrs).unwrap();
    assert_eq!(t.relocated, 6);
    assert_eq!(&t.code[..6], &code[..6]);
    assert_eq!(t.code[6], 0xE9);
    assert_eq!(slot as i64 + 6 + 5 + disp_at(&t.code, 7), target as i64 + 6);
    assert_eq!(t.code.len(), 11);
    assert_eq!(t.patch.len(), 6);
    assert_eq!(t.patch[0], 0xE9);
    assert_eq!(target as i64 + 5 + disp_at(&t.patch, 1), detour as i64);
    assert_eq!(t.patch[5], 0x90);
}

#[test]
fn relative_call_is_fixed_up() {
    // call rel32 to target + 0x100; then a 1-byte instruction
    let target: u64 = 0x1000_0000;
    let slot: u64 = 0x1001_0000;
    let mut code = vec![0xE8];
    code.extend_from_slice(&0xFBu32.to_le_bytes());
    code.push(0xC3);
    let instrs = vec![rel32(5, 1), plain(1)];
    let t = build_trampoline(target, 0x1000_5000, slot, &code, &instrs).unwrap();
    assert_eq!(t.relocated, 5);
    assert_eq!(t.code[0], 0xE8);
    assert_eq!(slot as i64 + 5 + disp_at(&t.code, 1), target as i64 + 0x100);
    assert_ne!(&t.code[1..5], &code[1..5]);
}

#[test]
fn relative_jump_into_overwritten_region_moves_into_trampoline() {
    // nop; jmp rel32 back to the nop, which is relocated too
    let target: u64 = 0x2000_0000;
    let slot: u64 = 0x2000_4000;
    let code = vec![0x90, 0xE9, 0xFA, 0xFF, 0xFF, 0xFF, 0x90];
    let instrs = vec![plain(1), rel32(5, 1), plain(1)];
    let t = build_trampoline(target, 0x2000_9000, slot, &code, &instrs).unwrap();
    assert_eq!(t.relocated, 6);
    assert_eq!(slot as i64 + 6 + disp_at(&t.code, 2), slot as i64);
}

#[test]
fn unsupported_functions() {
    let target: u64 = 0x1000;
    let short = vec![0x90, 0xC3];
    assert_eq!(
        build_trampoline(target, 0x2000, 0x3000, &short, &vec![plain(1), plain(1)]).err(),
        Some(Error::UnsupportedFunction)
    );
    let code = vec![0xEB, 0x10, 0x90, 0x90, 0x90, 0x90];
    let rel8 = InstructionInfo { length: 2, relative: true, operand_offset: 1, operand_size: 1 };
    assert_eq!(
        build_trampoline(target, 0x2000, 0x3000, &code, &vec![rel8, plain(1), plain(1), plain(1)]).err(),
        Some(Error::UnsupportedFunction)
    );
    assert_eq!(
        build_trampoline(target, 0x2000, 0x3000, &code, &vec![plain(0)]).err(),
        Some(Error::UnsupportedFunction)
    );
    // decoded length runs past the bytes that were read
    assert_eq!(
        build_trampoline(target, 0x2000, 0x3000, &vec![0x90, 0x90], &vec![plain(6)]).err(),
        Some(Error::UnsupportedFunction)
    );
}

#[test]
fn far_detour_goes_through_relay() {
    let target: u64 = 0x1_0000_0000;
    let slot: u64 = 0x1_0001_0000;
    let detour: u64 = 0x7000_0000_0000;
    let code = vec![0x55, 0x48, 0x89, 0xE5, 0x90, 0x90];
    let instrs = vec![plain(1), plain(3), plain(1), plain(1)];
    let t = build_trampoline(target, detour, slot, &code, &instrs).unwrap();
    assert_eq!(t.relocated, 5);
    let to = (target as i64 + 5 + disp_at(&t.patch, 1)) as u64;
    let relay = (to - slot) as usize;
    assert_eq!(&t.code[relay..relay + 6], &[0xFF, 0x25, 0, 0, 0, 0]);
    assert_eq!(u64::from_le_bytes(t.code[relay + 6..relay + 14].try_into().unwrap()), detour);
}

#[test]
fn slot_out_of_reach_fails_allocation() {
    let code = vec![0x55, 0x48, 0x89, 0xE5, 0x90, 0x90];
    let instrs = vec![plain(1), plain(3), plain(1), plain(1)];
    let r = build_trampoline(0x1000, 0x7000_0000_0000, 0x6000_0000_0000, &code, &instrs);
    assert_eq!(r.err(), Some(Error::AllocationFailure));
}
