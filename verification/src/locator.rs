//! Locating the two process-wide anchors of the target: the engine
//! singleton pointer slot and the base of the global interned-name table.
//!
//! Both are found by scanning the main module's image for known code
//! signatures and then decoding a text-relative (RIP-relative) instruction
//! encoding: a 4-byte signed displacement at a fixed offset past the match,
//! added to the address immediately following the displacement field.

use crate::memory::{spec_read_u16, spec_read_u32, Memory};
use crate::scanner::{scan, spec_scan};
use vstd::prelude::*;

verus! {

/// The structural byte offsets of the target's own type-metadata records.
/// They are a build-specific constant of the supported target, not
/// discovered at runtime.
#[derive(Clone, Copy, PartialEq, Eq, Structural)]
pub struct Offsets {
    pub uobject_class: u64,
    pub uclass_super_field: u64,
    pub uclass_property_link: u64,
    pub uproperty_fname: u64,
    pub uproperty_offset_internal: u64,
    pub uproperty_property_link_next: u64,
}

/// The one offset table this library supports.
pub open spec fn spec_offsets() -> Offsets {
    Offsets {
        uobject_class: 0x10,
        uclass_super_field: 0x40,
        uclass_property_link: 0x50,
        uproperty_fname: 0x28,
        uproperty_offset_internal: 0x4C,
        uproperty_property_link_next: 0x58,
    }
}

impl Offsets {
    /// The offset table of the supported target build.
    pub fn new() -> (r: Offsets)
        ensures
            r == spec_offsets(),
    {
        Offsets {
            uobject_class: 0x10,
            uclass_super_field: 0x40,
            uclass_property_link: 0x50,
            uproperty_fname: 0x28,
            uproperty_offset_internal: 0x4C,
            uproperty_property_link_next: 0x58,
        }
    }
}

/// Access to one attached target: pointer width, the offset table, and the
/// two resolved anchor addresses.
#[derive(Clone, Copy, PartialEq, Eq, Structural)]
pub struct Module {
    pub pointer_bytes: u64,
    pub offsets: Offsets,
    pub g_engine: u64,
    pub fname_base: u64,
}

/// The displacement `disp`, sign-extended, added to the end of the
/// displacement field plus `trailing` further instruction bytes; addresses
/// wrap as the hardware's do.
pub open spec fn spec_disp_target(addr: u64, trailing: u64, disp: u32) -> u64 {
    addr.wrapping_add(trailing).wrapping_add(spec_sext32(disp))
}

/// A 32-bit value reinterpreted as signed and wrapped into the 64-bit
/// address space.
pub open spec fn spec_sext32(disp: u32) -> u64 {
    if disp < 0x8000_0000 {
        disp as u64
    } else {
        ((disp as int) + 0xFFFF_FFFF_0000_0000) as u64
    }
}

/// The absolute address recovered from a text-relative encoding whose
/// 4-byte displacement field lies at `addr`, with `trailing` instruction
/// bytes between the field and the point the displacement is relative to.
pub open spec fn spec_rel32(m: Map<u64, u8>, addr: u64, trailing: u64) -> Option<u64> {
    match spec_read_u32(m, addr) {
        Some(disp) => Some(spec_disp_target(addr, trailing, disp)),
        None => None,
    }
}

/// Recovers an absolute address from a text-relative instruction encoding:
/// reads the 4-byte signed displacement at `addr` and adds it to the address
/// just past the displacement field and `trailing - 4` further bytes.
pub fn resolve_rel32(mem: &Memory, addr: u64, trailing: u64) -> (r: Option<u64>)
    ensures
        r == spec_rel32(mem@, addr, trailing),
{
    match mem.read_u32(addr) {
        Some(disp) => {
            let ext: u64 = if disp < 0x8000_0000 {
                disp as u64
            } else {
                disp as u64 + 0xFFFF_FFFF_0000_0000
            };
            Some(addr.wrapping_add(trailing).wrapping_add(ext))
        },
        None => None,
    }
}

/// The pointer width, in bytes, that a machine-type word of the target's
/// executable header implies; `None` for an unsupported machine.
pub open spec fn spec_width_of_machine(machine: u16) -> Option<u64> {
    if machine == 0x8664 || machine == 0xAA64 {
        Some(8u64)
    } else if machine == 0x014C || machine == 0x01C0 || machine == 0x01C4 {
        Some(4u64)
    } else {
        None
    }
}

/// The machine-type word of the executable header at `base`: the header's
/// own location is the 32-bit field at `base + 0x3C`, and the word sits 4
/// bytes into the header.
pub open spec fn spec_machine_type(m: Map<u64, u8>, base: u64) -> Option<u16> {
    match spec_read_u32(m, base.wrapping_add(0x3C)) {
        Some(h) => spec_read_u16(m, base.wrapping_add(h as u64).wrapping_add(4)),
        None => None,
    }
}

/// The image size recorded in the executable header at `base`: the 32-bit
/// field 0x50 bytes into the header.
pub open spec fn spec_image_size(m: Map<u64, u8>, base: u64) -> Option<u32> {
    match spec_read_u32(m, base.wrapping_add(0x3C)) {
        Some(h) => spec_read_u32(m, base.wrapping_add(h as u64).wrapping_add(0x50)),
        None => None,
    }
}

/// First engine-singleton signature, with its displacement 3 bytes in and 4
/// trailing displacement-field bytes.
pub open spec fn spec_sig_engine_a() -> Seq<Option<u8>> {
    seq![
        Some(0x48u8),
        Some(0x8Bu8),
        Some(0x05u8),
        None,
        None,
        None,
        None,
        Some(0x8Bu8),
        Some(0x88u8),
        None,
        None,
        None,
        None,
        Some(0x41u8),
    ]
}

/// Second engine-singleton signature, displacement 7 bytes in, 8 bytes from
/// the field to the end of the instruction.
pub open spec fn spec_sig_engine_b() -> Seq<Option<u8>> {
    seq![Some(0xA8u8), Some(0x01u8), Some(0x75u8), None, Some(0x48u8), Some(0xC7u8), Some(0x05u8)]
}

/// First name-table signature, displacement 5 bytes in.
pub open spec fn spec_sig_names_a() -> Seq<Option<u8>> {
    seq![
        Some(0x74u8),
        Some(0x09u8),
        Some(0x48u8),
        Some(0x8Du8),
        Some(0x15u8),
        None,
        None,
        None,
        None,
        Some(0xEBu8),
        Some(0x16u8),
        None,
        None,
    ]
}

/// Second name-table signature, displacement 13 bytes in.
pub open spec fn spec_sig_names_b() -> Seq<Option<u8>> {
    seq![
        Some(0x89u8),
        Some(0x5Cu8),
        Some(0x24u8),
        None,
        Some(0x89u8),
        Some(0x44u8),
        Some(0x24u8),
        None,
        Some(0x74u8),
        None,
        Some(0x48u8),
        Some(0x8Du8),
        Some(0x15u8),
    ]
}

/// Third name-table signature, displacement 7 bytes in.
pub open spec fn spec_sig_names_c() -> Seq<Option<u8>> {
    seq![
        Some(0x57u8),
        Some(0x0Fu8),
        Some(0xB7u8),
        Some(0xF8u8),
        Some(0x74u8),
        None,
        Some(0xB8u8),
        None,
        None,
        None,
        None,
        Some(0x8Bu8),
        Some(0x44u8),
    ]
}

/// The engine-singleton slot address: the first signature of the fallback
/// list that matches decides which encoding is decoded.
pub open spec fn spec_g_engine(m: Map<u64, u8>, base: u64, len: u64) -> Option<u64> {
    match spec_scan(m, base, len, spec_sig_engine_a()) {
        Some(p) => spec_rel32(m, p.wrapping_add(3), 4),
        None => match spec_scan(m, base, len, spec_sig_engine_b()) {
            Some(p) => spec_rel32(m, p.wrapping_add(7), 8),
            None => None,
        },
    }
}

/// The interned-name table base: the first matching signature of the
/// fallback list gives the displacement field's place.
pub open spec fn spec_fname_base(m: Map<u64, u8>, base: u64, len: u64) -> Option<u64> {
    match spec_scan(m, base, len, spec_sig_names_a()) {
        Some(p) => spec_rel32(m, p.wrapping_add(5), 4),
        None => match spec_scan(m, base, len, spec_sig_names_b()) {
            Some(p) => spec_rel32(m, p.wrapping_add(13), 4),
            None => match spec_scan(m, base, len, spec_sig_names_c()) {
                Some(p) => spec_rel32(m, p.wrapping_add(7), 4),
                None => None,
            },
        },
    }
}

/// Everything `attach` discovers, as a function of the memory snapshot and
/// the main module's base address.
pub open spec fn spec_attach(m: Map<u64, u8>, base: u64) -> Option<Module> {
    match spec_machine_type(m, base) {
        None => None,
        Some(machine) => match spec_width_of_machine(machine) {
            None => None,
            Some(width) => match spec_image_size(m, base) {
                None => None,
                Some(size) => match spec_g_engine(m, base, size as u64) {
                    None => None,
                    Some(ge) => match spec_fname_base(m, base, size as u64) {
                        None => None,
                        Some(fb) => Some(
                            Module {
                                pointer_bytes: width,
                                offsets: spec_offsets(),
                                g_engine: ge,
                                fname_base: fb,
                            },
                        ),
                    },
                },
            },
        },
    }
}

fn sig_engine_a() -> (r: Vec<Option<u8>>)
    ensures
        r@ == spec_sig_engine_a(),
{
    let mut v: Vec<Option<u8>> = Vec::new();
    v.push(Some(0x48));
    v.push(Some(0x8B));
    v.push(Some(0x05));
    v.push(None);
    v.push(None);
    v.push(None);
    v.push(None);
    v.push(Some(0x8B));
    v.push(Some(0x88));
    v.push(None);
    v.push(None);
    v.push(None);
    v.push(None);
    v.push(Some(0x41));
    proof {
        assert(v@ =~= spec_sig_engine_a());
    }
    v
}

fn sig_engine_b() -> (r: Vec<Option<u8>>)
    ensures
        r@ == spec_sig_engine_b(),
{
    let mut v: Vec<Option<u8>> = Vec::new();
    v.push(Some(0xA8));
    v.push(Some(0x01));
    v.push(Some(0x75));
    v.push(None);
    v.push(Some(0x48));
    v.push(Some(0xC7));
    v.push(Some(0x05));
    proof {
        assert(v@ =~= spec_sig_engine_b());
    }
    v
}

fn sig_names_a() -> (r: Vec<Option<u8>>)
    ensures
        r@ == spec_sig_names_a(),
{
    let mut v: Vec<Option<u8>> = Vec::new();
    v.push(Some(0x74));
    v.push(Some(0x09));
    v.push(Some(0x48));
    v.push(Some(0x8D));
    v.push(Some(0x15));
    v.push(None);
    v.push(None);
    v.push(None);
    v.push(None);
    v.push(Some(0xEB));
    v.push(Some(0x16));
    v.push(None);
    v.push(None);
    proof {
        assert(v@ =~= spec_sig_names_a());
    }
    v
}

fn sig_names_b() -> (r: Vec<Option<u8>>)
    ensures
        r@ == spec_sig_names_b(),
{
    let mut v: Vec<Option<u8>> = Vec::new();
    v.push(Some(0x89));
    v.push(Some(0x5C));
    v.push(Some(0x24));
    v.push(None);
    v.push(Some(0x89));
    v.push(Some(0x44));
    v.push(Some(0x24));
    v.push(None);
    v.push(Some(0x74));
    v.push(None);
    v.push(Some(0x48));
    v.push(Some(0x8D));
    v.push(Some(0x15));
    proof {
        assert(v@ =~= spec_sig_names_b());
    }
    v
}

fn sig_names_c() -> (r: Vec<Option<u8>>)
    ensures
        r@ == spec_sig_names_c(),
{
    let mut v: Vec<Option<u8>> = Vec::new();
    v.push(Some(0x57));
    v.push(Some(0x0F));
    v.push(Some(0xB7));
    v.push(Some(0xF8));
    v.push(Some(0x74));
    v.push(None);
    v.push(Some(0xB8));
    v.push(None);
    v.push(None);
    v.push(None);
    v.push(None);
    v.push(Some(0x8B));
    v.push(Some(0x44));
    proof {
        assert(v@ =~= spec_sig_names_c());
    }
    v
}

impl Module {
    /// Tries attaching to a target whose main module is mapped at
    /// `main_module_address` in `mem`. Fails when the pointer width cannot
    /// be determined, the image size cannot be read, or no signature of a
    /// fallback list matches inside the image — the attached binary is then
    /// an unsupported build.
    pub fn attach(mem: &Memory, main_module_address: u64) -> (r: Option<Module>)
        ensures
            r == spec_attach(mem@, main_module_address),
    {
        let machine = match mem.read_u32(main_module_address.wrapping_add(0x3C)) {
            Some(h) => {
                match mem.read_u16(main_module_address.wrapping_add(h as u64).wrapping_add(4)) {
                    Some(machine) => machine,
                    None => {
                        return None;
                    },
                }
            },
            None => {
                return None;
            },
        };
        let pointer_bytes: u64 = if machine == 0x8664 || machine == 0xAA64 {
            8
        } else if machine == 0x014C || machine == 0x01C0 || machine == 0x01C4 {
            4
        } else {
            return None;
        };
        let size = match mem.read_u32(main_module_address.wrapping_add(0x3C)) {
            Some(h) => {
                match mem.read_u32(main_module_address.wrapping_add(h as u64).wrapping_add(0x50)) {
                    Some(size) => size,
                    None => {
                        return None;
                    },
                }
            },
            None => {
                return None;
            },
        };
        let len = size as u64;
        let g_engine = {
            let sig_a = sig_engine_a();
            match scan(mem, main_module_address, len, &sig_a) {
                Some(p) => {
                    match resolve_rel32(mem, p.wrapping_add(3), 4) {
                        Some(a) => a,
                        None => {
                            return None;
                        },
                    }
                },
                None => {
                    let sig_b = sig_engine_b();
                    match scan(mem, main_module_address, len, &sig_b) {
                        Some(p) => {
                            match resolve_rel32(mem, p.wrapping_add(7), 8) {
                                Some(a) => a,
                                None => {
                                    return None;
                                },
                            }
                        },
                        None => {
                            return None;
                        },
                    }
                },
            }
        };
        let fname_base = {
            let sig_a = sig_names_a();
            match scan(mem, main_module_address, len, &sig_a) {
                Some(p) => {
                    match resolve_rel32(mem, p.wrapping_add(5), 4) {
                        Some(a) => a,
                        None => {
                            return None;
                        },
                    }
                },
                None => {
                    let sig_b = sig_names_b();
                    match scan(mem, main_module_address, len, &sig_b) {
                        Some(p) => {
                            match resolve_rel32(mem, p.wrapping_add(13), 4) {
                                Some(a) => a,
                                None => {
                                    return None;
                                },
                            }
                        },
                        None => {
                            let sig_c = sig_names_c();
                            match scan(mem, main_module_address, len, &sig_c) {
                                Some(p) => {
                                    match resolve_rel32(mem, p.wrapping_add(7), 4) {
                                        Some(a) => a,
                                        None => {
                                            return None;
                                        },
                                    }
                                },
                                None => {
                                    return None;
                                },
                            }
                        },
                    }
                },
            }
        };
        Some(
            Module {
                pointer_bytes,
                offsets: Offsets::new(),
                g_engine,
                fname_base,
            },
        )
    }

    /// The resolved address of the engine singleton's pointer slot.
    pub fn g_engine(&self) -> (r: u64)
        ensures
            r == self.g_engine,
    {
        self.g_engine
    }
}

} // verus!
