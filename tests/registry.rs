use minhook_ex::activation::{relocate_ip, relocate_ips};
use minhook_ex::pool::SlotPool;
use minhook_ex::registry::{Patch, Registry, ALL_HOOKS, ALL_IDENTS, DEFAULT_IDENT};
use minhook_ex::status::Error;
use minhook_ex::trampoline::InstructionInfo;

fn plain(length: u8) -> InstructionInfo {
    InstructionInfo { length, relative: false, operand_offset: 0, operand_size: 0 }
}

const BASE: u64 = 0x40_0000;

// A small process image: three functions of 16 bytes from BASE on.
fn image() -> Vec<u8> {
    let mut m = Vec::new();
    for f in 0..3u8 {
        m.extend_from_slice(&[0x55, 0x8B, 0xEC, 0x83, 0xEC, 0x10 + f, 0x8B, 0x45, 0x08, 0xC9, 0xC3]);
        m.extend_from_slice(&[0xCC; 5]);
    }
    m
}

fn instrs() -> Vec<InstructionInfo> {
    vec![plain(1), plain(2), plain(3), plain(3), plain(1), plain(1)]
}

fn func(i: u64) -> u64 {
    BASE + 16 * i
}

fn code_at(mem: &[u8], addr: u64) -> Vec<u8> {
    let off = (addr - BASE) as usize;
    mem[off..off + 16].to_vec()
}

fn apply(mem: &mut Vec<u8>, patches: &[Patch]) {
    for p in patches {
        let off = (p.address - BASE) as usize;
        mem[off..off + p.bytes.len()].copy_from_slice(&p.bytes);
    }
}

fn create(reg: &mut Registry, mem: &[u8], ident: u64, target: u64, slot: u64) -> Result<(), Error> {
    reg.create(ident, target, BASE + 0x1000, true, slot, &code_at(mem, target), &instrs()).map(|_| ())
}

#[test]
fn patch_cycle_restores_target_bytes() {
    let mut mem = image();
    let mut reg = Registry::new();
    create(&mut reg, &mem, DEFAULT_IDENT, func(0), BASE + 0x2000).unwrap();
    let after_create = mem.clone();
    let ps = reg.enable(DEFAULT_IDENT, func(0)).unwrap();
    apply(&mut mem, &ps);
    assert_ne!(mem, after_create);
    let ps = reg.disable(DEFAULT_IDENT, func(0)).unwrap();
    apply(&mut mem, &ps);
    assert_eq!(reg.remove(DEFAULT_IDENT, func(0)), Ok(vec![BASE + 0x2000]));
    assert_eq!(mem, after_create);
    assert_eq!(reg.len(), 0);
}

#[test]
fn create_twice_is_already_created() {
    let mem = image();
    let mut reg = Registry::new();
    create(&mut reg, &mem, DEFAULT_IDENT, func(1), BASE + 0x2000).unwrap();
    reg.enable(DEFAULT_IDENT, func(1)).unwrap();
    assert_eq!(create(&mut reg, &mem, DEFAULT_IDENT, func(1), BASE + 0x2040), Err(Error::AlreadyCreated));
    assert_eq!(reg.is_enabled(DEFAULT_IDENT, func(1)), Some(true));
    assert_eq!(reg.len(), 1);
    // another identifier may hook the same target
    assert_eq!(create(&mut reg, &mem, 7, func(1), BASE + 0x2040), Ok(()));
    assert_eq!(reg.len(), 2);
}

#[test]
fn create_null_target_is_not_executable() {
    let mem = image();
    let mut reg = Registry::new();
    let r = reg.create(DEFAULT_IDENT, ALL_HOOKS, BASE, true, BASE + 0x2000, &code_at(&mem, func(0)), &instrs());
    assert_eq!(r.err(), Some(Error::PointerNotExecutable));
}

#[test]
fn create_unsupported_leaves_registry_empty() {
    let mut reg = Registry::new();
    let r = reg.create(DEFAULT_IDENT, func(0), BASE, true, BASE + 0x2000, &vec![0xC3], &vec![plain(1)]);
    assert_eq!(r.err(), Some(Error::UnsupportedFunction));
    assert_eq!(reg.len(), 0);
}

#[test]
fn enable_installs_jump_stub_and_disable_restores() {
    let mut mem = image();
    let original = code_at(&mem, func(2));
    let mut reg = Registry::new();
    let t = reg
        .create(DEFAULT_IDENT, func(2), BASE + 0x1000, true, BASE + 0x2000, &original, &instrs())
        .unwrap();
    assert_eq!(t.relocated, 6);
    let ps = reg.enable(DEFAULT_IDENT, func(2)).unwrap();
    assert_eq!(ps.len(), 1);
    assert_eq!(ps[0].address, func(2));
    assert_eq!(ps[0].bytes, t.patch);
    apply(&mut mem, &ps);
    let now = code_at(&mem, func(2));
    assert_eq!(now[0], 0xE9);
    let disp = i32::from_le_bytes([now[1], now[2], now[3], now[4]]) as i64;
    assert_eq!(func(2) as i64 + 5 + disp, (BASE + 0x1000) as i64);
    assert_eq!(now[5], 0x90);
    assert_eq!(&now[6..], &original[6..]);
    assert_eq!(reg.enable(DEFAULT_IDENT, func(2)).err(), Some(Error::HookEnabled));
    let ps = reg.disable(DEFAULT_IDENT, func(2)).unwrap();
    assert_eq!(ps[0].bytes, original[..6].to_vec());
    apply(&mut mem, &ps);
    assert_eq!(code_at(&mem, func(2)), original);
    assert_eq!(reg.disable(DEFAULT_IDENT, func(2)).err(), Some(Error::HookDisabled));
}

#[test]
fn missing_hook_is_not_created() {
    let mut reg = Registry::new();
    assert_eq!(reg.enable(DEFAULT_IDENT, func(0)).err(), Some(Error::NotCreated));
    assert_eq!(reg.disable(DEFAULT_IDENT, func(0)).err(), Some(Error::NotCreated));
    assert_eq!(reg.remove(DEFAULT_IDENT, func(0)), Err(Error::NotCreated));
    assert_eq!(reg.queue_enable(DEFAULT_IDENT, func(0)), Err(Error::NotCreated));
    assert_eq!(reg.is_enabled(DEFAULT_IDENT, func(0)), None);
}

#[test]
fn remove_enabled_hook_fails() {
    let mem = image();
    let mut reg = Registry::new();
    create(&mut reg, &mem, DEFAULT_IDENT, func(0), BASE + 0x2000).unwrap();
    reg.enable(DEFAULT_IDENT, func(0)).unwrap();
    assert_eq!(reg.remove(DEFAULT_IDENT, func(0)), Err(Error::HookEnabled));
    assert_eq!(reg.len(), 1);
}

#[test]
fn all_hooks_stays_within_identifier() {
    let mem = image();
    let mut reg = Registry::new();
    create(&mut reg, &mem, 5, func(0), BASE + 0x2000).unwrap();
    create(&mut reg, &mem, 5, func(1), BASE + 0x2040).unwrap();
    create(&mut reg, &mem, 6, func(2), BASE + 0x2080).unwrap();
    let ps = reg.enable(5, ALL_HOOKS).unwrap();
    assert_eq!(ps.len(), 2);
    assert_eq!(ps[0].address, func(0));
    assert_eq!(ps[1].address, func(1));
    assert_eq!(reg.is_enabled(5, func(0)), Some(true));
    assert_eq!(reg.is_enabled(5, func(1)), Some(true));
    assert_eq!(reg.is_enabled(6, func(2)), Some(false));
    // already enabled hooks are skipped
    let ps = reg.enable(ALL_IDENTS, ALL_HOOKS).unwrap();
    assert_eq!(ps.len(), 1);
    assert_eq!(ps[0].address, func(2));
    let ps = reg.disable(6, ALL_HOOKS).unwrap();
    assert_eq!(ps.len(), 1);
    assert_eq!(reg.is_enabled(5, func(0)), Some(true));
    assert_eq!(reg.remove(ALL_IDENTS, ALL_HOOKS), Err(Error::HookEnabled));
    assert_eq!(reg.remove(6, ALL_HOOKS), Ok(vec![BASE + 0x2080]));
    assert_eq!(reg.len(), 2);
    reg.disable(ALL_IDENTS, ALL_HOOKS).unwrap();
    assert_eq!(reg.remove(ALL_IDENTS, ALL_HOOKS), Ok(vec![BASE + 0x2000, BASE + 0x2040]));
    assert_eq!(reg.len(), 0);
}

#[test]
fn queued_changes_apply_in_one_pass() {
    let mut mem = image();
    let before = mem.clone();
    let mut reg = Registry::new();
    create(&mut reg, &mem, DEFAULT_IDENT, func(0), BASE + 0x2000).unwrap();
    create(&mut reg, &mem, DEFAULT_IDENT, func(1), BASE + 0x2040).unwrap();
    create(&mut reg, &mem, 9, func(2), BASE + 0x2080).unwrap();
    reg.queue_enable(DEFAULT_IDENT, ALL_HOOKS).unwrap();
    reg.queue_enable(9, func(2)).unwrap();
    assert_eq!(reg.is_enabled(DEFAULT_IDENT, func(0)), Some(false));
    let ps = reg.apply_queued(DEFAULT_IDENT);
    assert_eq!(ps.len(), 2);
    apply(&mut mem, &ps);
    assert_eq!(reg.is_enabled(DEFAULT_IDENT, func(1)), Some(true));
    assert_eq!(reg.is_enabled(9, func(2)), Some(false));
    let ps = reg.apply_queued(ALL_IDENTS);
    assert_eq!(ps.len(), 1);
    apply(&mut mem, &ps);
    reg.queue_disable(ALL_IDENTS, ALL_HOOKS).unwrap();
    let ps = reg.apply_queued(ALL_IDENTS);
    assert_eq!(ps.len(), 3);
    apply(&mut mem, &ps);
    assert_eq!(mem, before);
    assert!(reg.apply_queued(ALL_IDENTS).is_empty());
}

#[test]
fn thread_ips_follow_the_patch() {
    let target = 0x1000;
    let tramp = 0x9000;
    assert_eq!(relocate_ip(0x1003, target, tramp, 6, true), 0x9003);
    assert_eq!(relocate_ip(0x1006, target, tramp, 6, true), 0x1006);
    assert_eq!(relocate_ip(0x9005, target, tramp, 6, false), 0x1005);
    assert_eq!(relocate_ip(0x9006, target, tramp, 6, false), 0x9006);
    let mut ips = vec![0x0FFF, 0x1000, 0x1005, 0x2000];
    relocate_ips(&mut ips, target, tramp, 6, true);
    assert_eq!(ips, vec![0x0FFF, 0x9000, 0x9005, 0x2000]);
}

#[test]
fn pool_hands_out_slots_in_reach() {
    let mut pool = SlotPool::new(0x1000_0000, 4);
    assert!(pool.is_empty());
    assert_eq!(pool.allocate(0x1000_0100), Some(0x1000_0000));
    assert_eq!(pool.allocate(0x1000_0100), Some(0x1000_0040));
    // far away from every slot
    assert_eq!(pool.allocate(0x7000_0000_0000), None);
    assert!(!pool.is_empty());
    assert!(pool.release(0x1000_0000));
    assert!(!pool.release(0x1000_0000));
    assert!(!pool.release(0x1000_0041));
    assert_eq!(pool.allocate(0x1000_0100), Some(0x1000_0000));
    assert!(pool.release(0x1000_0000));
    assert!(pool.release(0x1000_0040));
    assert!(pool.is_empty());
}

#[test]
fn revert_all_restores_every_enabled_target() {
    let mut mem = image();
    let before = mem.clone();
    let mut reg = Registry::new();
    create(&mut reg, &mem, DEFAULT_IDENT, func(0), BASE + 0x2000).unwrap();
    create(&mut reg, &mem, 3, func(1), BASE + 0x2040).unwrap();
    create(&mut reg, &mem, 3, func(2), BASE + 0x2080).unwrap();
    let ps = reg.enable(ALL_IDENTS, ALL_HOOKS).unwrap();
    apply(&mut mem, &ps);
    let ps = reg.disable(3, func(2)).unwrap();
    apply(&mut mem, &ps);
    let (ps, slots) = reg.revert_all();
    assert_eq!(ps.len(), 2);
    assert_eq!(slots, vec![BASE + 0x2000, BASE + 0x2040, BASE + 0x2080]);
    apply(&mut mem, &ps);
    assert_eq!(mem, before);
    assert_eq!(reg.len(), 0);
}

#[test]
fn create_non_executable_target_fails() {
    let mem = image();
    let mut reg = Registry::new();
    let r = reg.create(DEFAULT_IDENT, func(0), BASE + 0x1000, false, BASE + 0x2000, &code_at(&mem, func(0)), &instrs());
    assert_eq!(r.err(), Some(Error::PointerNotExecutable));
    assert_eq!(reg.len(), 0);
}

#[test]
fn slot_in_use_is_not_given_twice() {
    let mem = image();
    let mut reg = Registry::new();
    create(&mut reg, &mem, DEFAULT_IDENT, func(0), BASE + 0x2000).unwrap();
    assert_eq!(create(&mut reg, &mem, 2, func(0), BASE + 0x2000), Err(Error::AllocationFailure));
    assert_eq!(reg.len(), 1);
    assert_eq!(create(&mut reg, &mem, 2, func(0), BASE + 0x2040), Ok(()));
}
