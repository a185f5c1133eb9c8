use unreal_reflect::locator::resolve_rel32;
use unreal_reflect::memory::Memory;
use unreal_reflect::scanner::scan;

fn fixed(bytes: &[u8]) -> Vec<Option<u8>> {
    bytes.iter().map(|b| Some(*b)).collect()
}

#[test]
fn scan_finds_pattern_at_offset() {
    let mut mem = Memory::new();
    let base: u64 = 0x1000;
    let mut buf = vec![0u8; 0x100];
    // pattern AA ?? CC at offset 0x40
    buf[0x40] = 0xAA;
    buf[0x41] = 0x17;
    buf[0x42] = 0xCC;
    mem.add_region(base, buf);
    let pat = vec![Some(0xAA), None, Some(0xCC)];
    assert_eq!(scan(&mem, base, 0x100, &pat), Some(base + 0x40));
}

#[test]
fn scan_returns_first_of_multiple() {
    let mut mem = Memory::new();
    let base: u64 = 0x2000;
    let mut buf = vec![0u8; 0x80];
    buf[0x10] = 0x5A;
    buf[0x30] = 0x5A;
    mem.add_region(base, buf);
    let pat = vec![Some(0x5A)];
    assert_eq!(scan(&mem, base, 0x80, &pat), Some(base + 0x10));
}

#[test]
fn scan_none_when_absent() {
    let mut mem = Memory::new();
    let base: u64 = 0x3000;
    mem.add_region(base, vec![0u8; 0x40]);
    let pat = fixed(&[0xDE, 0xAD]);
    assert_eq!(scan(&mem, base, 0x40, &pat), None);
}

#[test]
fn scan_tolerates_unreadable_gap() {
    let mut mem = Memory::new();
    let base: u64 = 0x4000;
    // first run, then a hole of 0x100 unreadable bytes, then a second run
    mem.add_region(base, vec![0u8; 0x100]);
    let mut tail = vec![0u8; 0x100];
    tail[0x20] = 0xBE;
    tail[0x21] = 0xEF;
    mem.add_region(base + 0x200, tail);
    let pat = fixed(&[0xBE, 0xEF]);
    assert_eq!(scan(&mem, base, 0x300, &pat), Some(base + 0x220));
}

#[test]
fn scan_empty_pattern_is_none() {
    let mut mem = Memory::new();
    mem.add_region(0x5000, vec![1, 2, 3]);
    let pat: Vec<Option<u8>> = Vec::new();
    assert_eq!(scan(&mem, 0x5000, 3, &pat), None);
}

#[test]
fn scan_pattern_longer_than_range_is_none() {
    let mut mem = Memory::new();
    mem.add_region(0x6000, vec![0xAB, 0xAB]);
    let pat = fixed(&[0xAB, 0xAB, 0xAB]);
    assert_eq!(scan(&mem, 0x6000, 2, &pat), None);
}

#[test]
fn rel32_recovery_positive_displacement() {
    // displacement field at P + D; target = (P + D) + 4 + disp
    let mut mem = Memory::new();
    let field: u64 = 0x7000;
    mem.add_region(field, 0x50i32.to_le_bytes().to_vec());
    assert_eq!(resolve_rel32(&mem, field, 4), Some(field + 4 + 0x50));
}

#[test]
fn rel32_recovery_negative_displacement() {
    let mut mem = Memory::new();
    let field: u64 = 0x8000;
    mem.add_region(field, (-0x20i32).to_le_bytes().to_vec());
    // 8 trailing bytes between the field and the reference point
    assert_eq!(resolve_rel32(&mem, field, 8), Some(field + 8 - 0x20));
}

#[test]
fn rel32_unreadable_is_none() {
    let mem = Memory::new();
    assert_eq!(resolve_rel32(&mem, 0x9000, 4), None);
}

#[test]
fn memory_little_endian_reads() {
    let mut mem = Memory::new();
    mem.add_region(0x100, vec![0x78, 0x56, 0x34, 0x12, 0xEF, 0xCD, 0xAB, 0x89]);
    assert_eq!(mem.read_u8(0x100), Some(0x78));
    assert_eq!(mem.read_u16(0x100), Some(0x5678));
    assert_eq!(mem.read_u32(0x100), Some(0x12345678));
    assert_eq!(mem.read_u64(0x100), Some(0x89ABCDEF12345678));
    assert_eq!(mem.read_u8(0x0FF), None);
    assert_eq!(mem.read_u32(0x105), None); // runs past the mapped run
}

#[test]
fn pointer_width_four_zero_extends() {
    let mut mem = Memory::new();
    mem.add_region(0x200, vec![0x44, 0x33, 0x22, 0x11, 0xFF, 0xFF, 0xFF, 0xFF]);
    assert_eq!(mem.read_ptr(4, 0x200), Some(0x11223344));
    assert_eq!(mem.read_ptr(8, 0x200), Some(0xFFFFFFFF11223344));
}
