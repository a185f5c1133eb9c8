use unreal_reflect::locator::Module;
use unreal_reflect::memory::Memory;

fn put(buf: &mut Vec<u8>, off: usize, bytes: &[u8]) {
    buf[off..off + bytes.len()].copy_from_slice(bytes);
}

/// A minimal synthetic executable image: header fields, one engine
/// signature and one name-table signature, each with a displacement.
fn synthetic_image(machine: u16) -> Vec<u8> {
    let mut buf = vec![0u8; 0x200];
    // the header sits at 0x80; its location is the 32-bit field at 0x3C
    put(&mut buf, 0x3C, &0x80u32.to_le_bytes());
    put(&mut buf, 0x84, &machine.to_le_bytes());
    // image size, 0x50 bytes into the header
    put(&mut buf, 0xD0, &0x200u32.to_le_bytes());
    // engine signature at 0x100, displacement 0x50 in its wildcard bytes
    put(&mut buf, 0x100, &[0x48, 0x8B, 0x05]);
    put(&mut buf, 0x103, &0x50i32.to_le_bytes());
    put(&mut buf, 0x107, &[0x8B, 0x88, 0, 0, 0, 0, 0x41]);
    // name-table signature at 0x120, displacement -0x20
    put(&mut buf, 0x120, &[0x74, 0x09, 0x48, 0x8D, 0x15]);
    put(&mut buf, 0x125, &(-0x20i32).to_le_bytes());
    put(&mut buf, 0x129, &[0xEB, 0x16]);
    buf
}

#[test]
fn attach_resolves_both_anchors() {
    let base: u64 = 0x140000000;
    let mut mem = Memory::new();
    mem.add_region(base, synthetic_image(0x8664));
    let module = Module::attach(&mem, base).expect("attach");
    assert_eq!(module.pointer_bytes, 8);
    // displacement field at base+0x103, 4 trailing bytes, disp 0x50
    assert_eq!(module.g_engine(), base + 0x103 + 4 + 0x50);
    // displacement field at base+0x125, 4 trailing bytes, disp -0x20
    assert_eq!(module.fname_base, base + 0x125 + 4 - 0x20);
    assert_eq!(module.offsets.uobject_class, 0x10);
    assert_eq!(module.offsets.uproperty_property_link_next, 0x58);
}

#[test]
fn attach_x86_image_gives_four_byte_pointers() {
    let base: u64 = 0x400000;
    let mut mem = Memory::new();
    mem.add_region(base, synthetic_image(0x014C));
    let module = Module::attach(&mem, base).expect("attach");
    assert_eq!(module.pointer_bytes, 4);
}

#[test]
fn attach_unknown_machine_is_none() {
    let base: u64 = 0x400000;
    let mut mem = Memory::new();
    mem.add_region(base, synthetic_image(0x1234));
    assert!(Module::attach(&mem, base).is_none());
}

#[test]
fn attach_without_any_signature_is_none() {
    let base: u64 = 0x400000;
    let mut mem = Memory::new();
    let mut buf = vec![0u8; 0x200];
    put(&mut buf, 0x3C, &0x80u32.to_le_bytes());
    put(&mut buf, 0x84, &0x8664u16.to_le_bytes());
    put(&mut buf, 0xD0, &0x200u32.to_le_bytes());
    mem.add_region(base, buf);
    assert!(Module::attach(&mem, base).is_none());
}

#[test]
fn attach_unreadable_header_is_none() {
    let mem = Memory::new();
    assert!(Module::attach(&mem, 0x400000).is_none());
}
