use unreal_reflect::locator::{Module, Offsets};
use unreal_reflect::memory::Memory;
use unreal_reflect::path::{parse_literal, UnrealPointer};

fn module(fname_base: u64) -> Module {
    Module { pointer_bytes: 8, offsets: Offsets::new(), g_engine: 0, fname_base }
}

fn write_ptr(mem: &mut Memory, addr: u64, val: u64) {
    mem.add_region(addr, val.to_le_bytes().to_vec());
}

fn write_u32(mem: &mut Memory, addr: u64, val: u32) {
    mem.add_region(addr, val.to_le_bytes().to_vec());
}

fn write_u16(mem: &mut Memory, addr: u64, val: u16) {
    mem.add_region(addr, val.to_le_bytes().to_vec());
}

fn add_chunk(mem: &mut Memory, fname_base: u64, chunk: u16, chunk_base: u64) {
    write_ptr(mem, fname_base + 8 * (chunk as u64 + 2), chunk_base);
}

fn add_entry(mem: &mut Memory, chunk_base: u64, index: u16, name: &[u8]) {
    let entry = chunk_base + index as u64 * 2;
    let mut bytes = ((name.len() as u16) << 6).to_le_bytes().to_vec();
    bytes.extend_from_slice(name);
    mem.add_region(entry, bytes);
}

fn add_property(mem: &mut Memory, prop: u64, chunk: u16, index: u16, offset: u32, next: u64) {
    write_u16(mem, prop + 0x28, index);
    write_u16(mem, prop + 0x2A, chunk);
    write_u32(mem, prop + 0x4C, offset);
    write_ptr(mem, prop + 0x58, next);
}

fn fields(specs: &[&[u8]]) -> Vec<Vec<u8>> {
    specs.iter().map(|s| s.to_vec()).collect()
}

#[test]
fn literal_hex_specifier_resolves_without_reflection() {
    // no reflective metadata anywhere in this memory
    let mut mem = Memory::new();
    let base: u64 = 0x10000;
    write_ptr(&mut mem, base, 0x20000);
    write_ptr(&mut mem, 0x20000 + 0x570, 0xAAAA);
    let md = module(0x100000);
    let mut p = UnrealPointer::new(base, fields(&[b"0x570"]));
    assert!(p.resolve(&mem, &md));
    assert_eq!(p.offsets, vec![0x570]);
    assert_eq!(p.deref_u64(&mem, &md), Some(0xAAAA));
}

#[test]
fn literal_decimal_specifier_resolves_without_reflection() {
    let mut mem = Memory::new();
    let base: u64 = 0x10000;
    write_ptr(&mut mem, base, 0x20000);
    write_ptr(&mut mem, 0x20000 + 1464, 0x77);
    let md = module(0x100000);
    let mut p = UnrealPointer::new(base, fields(&[b"1464"]));
    assert!(p.resolve(&mem, &md));
    assert_eq!(p.offsets, vec![1464]);
}

#[test]
fn second_resolve_reads_nothing() {
    let mut mem = Memory::new();
    let base: u64 = 0x10000;
    write_ptr(&mut mem, base, 0x20000);
    write_ptr(&mut mem, 0x20000 + 0x10, 0x30000);
    write_ptr(&mut mem, 0x30000 + 0x20, 0x31000);
    let md = module(0x100000);
    let mut p = UnrealPointer::new(base, fields(&[b"0x10", b"0x20"]));
    assert!(p.resolve(&mem, &md));
    let first = p.offsets.clone();
    // a second call succeeds against a memory with nothing mapped at all:
    // a fully resolved path is never re-derived and reads nothing
    let empty = Memory::new();
    assert!(p.resolve(&empty, &md));
    assert_eq!(p.offsets, first);
    assert_eq!(p.offsets, vec![0x10, 0x20]);
}

#[test]
fn failed_field_keeps_earlier_offsets_and_resumes() {
    let mut mem = Memory::new();
    let base: u64 = 0x10000;
    let obj0: u64 = 0x30000;
    let obj1: u64 = 0x40000;
    write_ptr(&mut mem, base, obj0);
    write_ptr(&mut mem, obj0 + 0x10, obj1);
    let md = module(0x100000);
    let mut p = UnrealPointer::new(base, fields(&[b"0x10", b"Experience"]));
    // first attempt: the reflective metadata for field 1 is not yet mapped
    assert!(!p.resolve(&mem, &md));
    assert_eq!(p.offsets, vec![0x10]);
    // the backing data becomes available before the second attempt
    let class: u64 = 0x50000;
    write_ptr(&mut mem, obj1 + 0x10, class);
    write_ptr(&mut mem, class + 0x50, 0x60000);
    add_chunk(&mut mem, 0x100000, 0, 0x110000);
    add_entry(&mut mem, 0x110000, 0, b"Experience");
    add_property(&mut mem, 0x60000, 0, 0, 0xDC0, 0);
    write_ptr(&mut mem, obj1 + 0xDC0, 0x1234);
    assert!(p.resolve(&mem, &md));
    // field 0 was not re-derived: its cached offset is unchanged
    assert_eq!(p.offsets, vec![0x10, 0xDC0]);
}

#[test]
fn deref_end_to_end_two_field_path() {
    let fname_base: u64 = 0x100000;
    let mut mem = Memory::new();
    let base: u64 = 0x70000;
    let obj0: u64 = 0x80000;
    let pawn_class: u64 = 0x90000;
    let obj1: u64 = 0xB0000;
    let exp_class: u64 = 0xC0000;
    write_ptr(&mut mem, base, obj0);
    // class "Pawn" exposes field "Experience" at 0xDC0
    write_ptr(&mut mem, obj0 + 0x10, pawn_class);
    write_ptr(&mut mem, pawn_class + 0x50, 0xA0000);
    add_chunk(&mut mem, fname_base, 0, 0x110000);
    add_entry(&mut mem, 0x110000, 0, b"Experience");
    add_property(&mut mem, 0xA0000, 0, 0, 0xDC0, 0);
    // the object reached through it has "CurrentExperienceAndLevel.Level"
    // in its property list at 0xE0 (no literal resolves that name)
    write_ptr(&mut mem, obj0 + 0xDC0, obj1);
    write_ptr(&mut mem, obj1 + 0x10, exp_class);
    write_ptr(&mut mem, exp_class + 0x50, 0xD0000);
    add_entry(&mut mem, 0x110000, 32, b"CurrentExperienceAndLevel.Level");
    add_property(&mut mem, 0xD0000, 0, 32, 0xE0, 0);
    // the 8-byte value at the final computed address
    write_ptr(&mut mem, obj1 + 0xE0, 0x1122334455667788);
    let md = module(fname_base);
    let mut p = UnrealPointer::new(
        base,
        fields(&[b"Experience", b"CurrentExperienceAndLevel.Level"]),
    );
    assert_eq!(p.deref_u64(&mem, &md), Some(0x1122334455667788));
    assert_eq!(p.offsets, vec![0xDC0, 0xE0]);
}

#[test]
fn deref_u32_reads_little_endian() {
    let mut mem = Memory::new();
    let base: u64 = 0x10000;
    write_ptr(&mut mem, base, 0x20000);
    mem.add_region(0x20000 + 0x570, vec![0x78, 0x56, 0x34, 0x12, 0, 0, 0, 0]);
    let md = module(0x100000);
    let mut p = UnrealPointer::new(base, fields(&[b"0x570"]));
    assert_eq!(p.deref_u32(&mem, &md), Some(0x12345678));
}

#[test]
fn deref_is_all_or_nothing() {
    let mut mem = Memory::new();
    let base: u64 = 0x10000;
    write_ptr(&mut mem, base, 0x20000);
    write_ptr(&mut mem, 0x20000 + 0x8, 0x5555);
    let md = module(0x100000);
    let mut p = UnrealPointer::new(base, fields(&[b"0x8"]));
    // only 8 bytes are mapped at the final address: a 16-byte read fails
    // whole, no partial value comes back
    assert_eq!(p.deref(&mem, &md, 16), None);
    assert_eq!(p.deref(&mem, &md, 8), Some(0x5555u64.to_le_bytes().to_vec()));
}

#[test]
fn deref_of_empty_path_is_none() {
    let mut mem = Memory::new();
    let base: u64 = 0x10000;
    write_ptr(&mut mem, base, 0x20000);
    let md = module(0x100000);
    let mut p = UnrealPointer::new(base, Vec::new());
    assert!(p.resolve(&mem, &md));
    assert_eq!(p.deref(&mem, &md, 8), None);
}

#[test]
fn unreadable_base_pointer_fails_resolve() {
    let mem = Memory::new();
    let md = module(0x100000);
    let mut p = UnrealPointer::new(0x10000, fields(&[b"0x8"]));
    assert!(!p.resolve(&mem, &md));
    assert_eq!(p.offsets, Vec::<u64>::new());
}

#[test]
fn trailing_hop_failure_still_completes_cache() {
    let mut mem = Memory::new();
    let base: u64 = 0x10000;
    write_ptr(&mut mem, base, 0x20000);
    // nothing mapped at 0x20000 + 0x570: the hop after the last field fails
    let md = module(0x100000);
    let mut p = UnrealPointer::new(base, fields(&[b"0x570"]));
    assert!(!p.resolve(&mem, &md));
    assert_eq!(p.offsets, vec![0x570]);
    // every offset being cached, the next pass is the no-op fast path
    assert!(p.resolve(&mem, &md));
}

#[test]
fn parse_literal_exact_values() {
    assert_eq!(parse_literal(b"0x570"), Some(0x570));
    assert_eq!(parse_literal(b"1464"), Some(1464));
    assert_eq!(parse_literal(b"0"), Some(0));
    assert_eq!(parse_literal(b"0xdC0"), Some(0xDC0));
    assert_eq!(parse_literal(b"4294967295"), Some(u32::MAX));
    assert_eq!(parse_literal(b"0xFFFFFFFF"), Some(u32::MAX));
}

#[test]
fn parse_literal_rejects_non_literals() {
    assert_eq!(parse_literal(b""), None);
    assert_eq!(parse_literal(b"0x"), None);
    assert_eq!(parse_literal(b"0xZZ"), None);
    assert_eq!(parse_literal(b"12a"), None);
    assert_eq!(parse_literal(b"+5"), None);
    assert_eq!(parse_literal(b"Experience"), None);
    assert_eq!(parse_literal(b"4294967296"), None);
    assert_eq!(parse_literal(b"0x100000000"), None);
    assert_eq!(parse_literal(b"0X10"), None);
}
