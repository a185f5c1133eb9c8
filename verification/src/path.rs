//! Pointer-path resolution with a monotonic offset cache.
//!
//! A [`UnrealPointer`] owns a base address and an ordered list of field
//! specifiers, each either a numeric literal (decimal, or hexadecimal with
//! a `0x` prefix) or a symbolic field name looked up through the reflective
//! walker. Offsets once resolved are cached for good: the structural layout
//! of the target is stable for the process's lifetime, even though the
//! objects along the path may be different instances on every poll.

use crate::locator::Module;
use crate::memory::{spec_read_bytes, spec_read_ptr, Memory};
use crate::reflect::{spec_object_field_offset, UObject};
use vstd::bytes::{spec_u32_from_le_bytes, spec_u64_from_le_bytes};
use vstd::bytes::{u32_from_le_bytes, u64_from_le_bytes};
use vstd::prelude::*;

verus! {

/// Whether `b` is an ASCII decimal digit.
pub open spec fn spec_is_digit(b: u8) -> bool {
    0x30 <= b <= 0x39
}

/// Whether `b` is an ASCII hexadecimal digit of either case.
pub open spec fn spec_is_hex_digit(b: u8) -> bool {
    spec_is_digit(b) || (0x41 <= b <= 0x46) || (0x61 <= b <= 0x66)
}

/// The numeric value of a hexadecimal digit.
pub open spec fn spec_hex_digit_value(b: u8) -> int {
    if spec_is_digit(b) {
        b - 0x30
    } else if 0x41 <= b <= 0x46 {
        b - 0x41 + 10
    } else if 0x61 <= b <= 0x66 {
        b - 0x61 + 10
    } else {
        0
    }
}

/// The value of `s` read as a decimal numeral, most significant digit
/// first; meaningful only when every byte is a digit.
pub open spec fn spec_dec_value(s: Seq<u8>) -> int
    decreases s.len(),
{
    if s.len() == 0 {
        0
    } else {
        spec_dec_value(s.drop_last()) * 10 + (s.last() - 0x30)
    }
}

/// The value of `s` read as a hexadecimal numeral.
pub open spec fn spec_hex_value(s: Seq<u8>) -> int
    decreases s.len(),
{
    if s.len() == 0 {
        0
    } else {
        spec_hex_value(s.drop_last()) * 16 + spec_hex_digit_value(s.last())
    }
}

/// A nonempty, all-digit numeral whose value fits a `u32`; anything else
/// is no decimal literal.
pub open spec fn spec_parse_dec(s: Seq<u8>) -> Option<u32> {
    if s.len() >= 1 && (forall|i: int| 0 <= i < s.len() ==> spec_is_digit(#[trigger] s[i]))
        && spec_dec_value(s) <= u32::MAX {
        Some(spec_dec_value(s) as u32)
    } else {
        None
    }
}

/// A nonempty, all-hex-digit numeral whose value fits a `u32`.
pub open spec fn spec_parse_hex(s: Seq<u8>) -> Option<u32> {
    if s.len() >= 1 && (forall|i: int| 0 <= i < s.len() ==> spec_is_hex_digit(#[trigger] s[i]))
        && spec_hex_value(s) <= u32::MAX {
        Some(spec_hex_value(s) as u32)
    } else {
        None
    }
}

/// What a field specifier means as a numeric literal: hexadecimal after a
/// `0x` prefix, decimal otherwise, `None` where it is no literal at all and
/// must be looked up as a field name instead.
pub open spec fn spec_parse_literal(s: Seq<u8>) -> Option<u32> {
    if s.len() >= 2 && s[0] == 0x30 && s[1] == 0x78 {
        spec_parse_hex(s.skip(2))
    } else {
        spec_parse_dec(s)
    }
}

proof fn lemma_dec_value_nonneg(s: Seq<u8>)
    requires
        forall|i: int| 0 <= i < s.len() ==> spec_is_digit(#[trigger] s[i]),
    ensures
        spec_dec_value(s) >= 0,
    decreases s.len(),
{
    if s.len() > 0 {
        lemma_dec_value_nonneg(s.drop_last());
    }
}

proof fn lemma_hex_value_nonneg(s: Seq<u8>)
    requires
        forall|i: int| 0 <= i < s.len() ==> spec_is_hex_digit(#[trigger] s[i]),
    ensures
        spec_hex_value(s) >= 0,
    decreases s.len(),
{
    if s.len() > 0 {
        lemma_hex_value_nonneg(s.drop_last());
    }
}

proof fn lemma_dec_prefix_le(s: Seq<u8>, i: int)
    requires
        0 <= i <= s.len(),
        forall|j: int| 0 <= j < s.len() ==> spec_is_digit(#[trigger] s[j]),
    ensures
        spec_dec_value(s.take(i)) <= spec_dec_value(s),
    decreases s.len() - i,
{
    if i == s.len() {
        assert(s.take(i) =~= s);
    } else {
        assert(s.take(i + 1).drop_last() =~= s.take(i));
        lemma_dec_value_nonneg(s.take(i));
        lemma_dec_prefix_le(s, i + 1);
    }
}

proof fn lemma_hex_prefix_le(s: Seq<u8>, i: int)
    requires
        0 <= i <= s.len(),
        forall|j: int| 0 <= j < s.len() ==> spec_is_hex_digit(#[trigger] s[j]),
    ensures
        spec_hex_value(s.take(i)) <= spec_hex_value(s),
    decreases s.len() - i,
{
    if i == s.len() {
        assert(s.take(i) =~= s);
    } else {
        assert(s.take(i + 1).drop_last() =~= s.take(i));
        lemma_hex_value_nonneg(s.take(i));
        lemma_hex_prefix_le(s, i + 1);
    }
}

fn parse_dec(s: &[u8]) -> (r: Option<u32>)
    ensures
        r == spec_parse_dec(s@),
{
    if s.len() == 0 {
        return None;
    }
    let mut acc: u64 = 0;
    let mut i: usize = 0;
    while i < s.len()
        invariant
            i <= s.len(),
            acc == spec_dec_value(s@.take(i as int)),
            acc <= u32::MAX,
            forall|j: int| 0 <= j < i ==> spec_is_digit(#[trigger] s@[j]),
        decreases s.len() - i,
    {
        let b = s[i];
        if b < 0x30 || b > 0x39 {
            assert(!spec_is_digit(s@[i as int]));
            return None;
        }
        proof {
            assert(s@.take(i + 1 as int).drop_last() =~= s@.take(i as int));
        }
        acc = acc * 10 + (b - 0x30) as u64;
        i += 1;
        if acc > u32::MAX as u64 {
            proof {
                if forall|j: int| 0 <= j < s@.len() ==> spec_is_digit(#[trigger] s@[j]) {
                    lemma_dec_prefix_le(s@, i as int);
                }
            }
            return None;
        }
    }
    proof {
        assert(s@.take(i as int) =~= s@);
    }
    Some(acc as u32)
}

fn parse_hex(s: &[u8]) -> (r: Option<u32>)
    ensures
        r == spec_parse_hex(s@),
{
    if s.len() == 0 {
        return None;
    }
    let mut acc: u64 = 0;
    let mut i: usize = 0;
    while i < s.len()
        invariant
            i <= s.len(),
            acc == spec_hex_value(s@.take(i as int)),
            acc <= u32::MAX,
            forall|j: int| 0 <= j < i ==> spec_is_hex_digit(#[trigger] s@[j]),
        decreases s.len() - i,
    {
        let b = s[i];
        let d: u64 = if b >= 0x30 && b <= 0x39 {
            (b - 0x30) as u64
        } else if b >= 0x41 && b <= 0x46 {
            (b - 0x41) as u64 + 10
        } else if b >= 0x61 && b <= 0x66 {
            (b - 0x61) as u64 + 10
        } else {
            assert(!spec_is_hex_digit(s@[i as int]));
            return None;
        };
        proof {
            assert(s@.take(i + 1 as int).drop_last() =~= s@.take(i as int));
            assert(d == spec_hex_digit_value(s@[i as int]));
        }
        acc = acc * 16 + d;
        i += 1;
        if acc > u32::MAX as u64 {
            proof {
                if forall|j: int| 0 <= j < s@.len() ==> spec_is_hex_digit(#[trigger] s@[j]) {
                    lemma_hex_prefix_le(s@, i as int);
                }
            }
            return None;
        }
    }
    proof {
        assert(s@.take(i as int) =~= s@);
    }
    Some(acc as u32)
}

/// Reads a field specifier as a numeric literal where it is one.
pub fn parse_literal(s: &[u8]) -> (r: Option<u32>)
    ensures
        r == spec_parse_literal(s@),
{
    if s.len() >= 2 && s[0] == 0x30 && s[1] == 0x78 {
        let rest = vstd::slice::slice_subrange(s, 2, s.len());
        proof {
            assert(rest@ =~= s@.skip(2));
        }
        parse_hex(rest)
    } else {
        parse_dec(s)
    }
}

/// The address reached from `addr` by hopping through `offs`: each hop
/// adds the next offset and dereferences one foreign pointer.
pub open spec fn spec_chase(m: Map<u64, u8>, md: Module, addr: u64, offs: Seq<u64>) -> Option<u64>
    decreases offs.len(),
{
    if offs.len() == 0 {
        Some(addr)
    } else {
        match spec_read_ptr(m, md.pointer_bytes, addr.wrapping_add(offs[0])) {
            None => None,
            Some(a) => spec_chase(m, md, a, offs.drop_first()),
        }
    }
}

/// One resolution pass from field `i` on, with the live object for field
/// `i` at `cur` and the offsets cached so far in `acc`: the cache after the
/// pass, and whether every field was resolved and every hop readable. A
/// failed lookup or hop aborts the pass but keeps everything already
/// appended, so a later pass resumes where this one stopped.
pub open spec fn spec_resolve_from(
    m: Map<u64, u8>,
    md: Module,
    fields: Seq<Seq<u8>>,
    i: int,
    cur: u64,
    acc: Seq<u64>,
) -> (Seq<u64>, bool)
    decreases fields.len() - i,
{
    if i < 0 || i >= fields.len() {
        (acc, true)
    } else {
        let found = match spec_parse_literal(fields[i]) {
            Some(o) => Some(o as u64),
            None => match spec_object_field_offset(m, md, cur, fields[i]) {
                Some(o) => Some(o as u64),
                None => None,
            },
        };
        match found {
            None => (acc, false),
            Some(off) => match spec_read_ptr(m, md.pointer_bytes, cur.wrapping_add(off)) {
                None => (acc.push(off), false),
                Some(next) => spec_resolve_from(m, md, fields, i + 1, next, acc.push(off)),
            },
        }
    }
}

/// What one `resolve` call does to a path whose cache is `offsets`: a
/// fully resolved path is left untouched; otherwise the live object is
/// re-chased through the cached offsets and resolution continues from the
/// first unresolved field.
pub open spec fn spec_resolve(
    m: Map<u64, u8>,
    md: Module,
    base: u64,
    fields: Seq<Seq<u8>>,
    offsets: Seq<u64>,
) -> (Seq<u64>, bool) {
    if offsets.len() >= fields.len() {
        (offsets, true)
    } else {
        match spec_read_ptr(m, md.pointer_bytes, base) {
            None => (offsets, false),
            Some(a0) => match spec_chase(m, md, a0, offsets) {
                None => (offsets, false),
                Some(cur) => spec_resolve_from(m, md, fields, offsets.len() as int, cur, offsets),
            },
        }
    }
}

/// What `deref` reads once a path resolved: the base pointer, a hop
/// through every cached offset but the last, and `len` bytes at the final
/// address plus the last offset. A path of no fields reads nothing.
pub open spec fn spec_deref(
    m: Map<u64, u8>,
    md: Module,
    base: u64,
    fields: Seq<Seq<u8>>,
    offsets: Seq<u64>,
    len: nat,
) -> Option<Seq<u8>> {
    let (offs, ok) = spec_resolve(m, md, base, fields, offsets);
    if !ok || offs.len() == 0 {
        None
    } else {
        match spec_read_ptr(m, md.pointer_bytes, base) {
            None => None,
            Some(a0) => match spec_chase(m, md, a0, offs.drop_last()) {
                None => None,
                Some(fin) => spec_read_bytes(m, fin.wrapping_add(offs.last()), len),
            },
        }
    }
}

/// A pointer path: a base address, the field specifiers, and the monotonic
/// cache of offsets resolved so far. `offsets.len()` never exceeds
/// `fields.len()`, and a resolved prefix is never recomputed.
pub struct UnrealPointer {
    /// Address of the pointer slot the path is anchored to.
    pub base_address: u64,
    /// One specifier per hop: a numeric literal or a field name.
    pub fields: Vec<Vec<u8>>,
    /// The offsets resolved so far, in field order.
    pub offsets: Vec<u64>,
}

impl UnrealPointer {
    /// A fresh, wholly unresolved path over the given field specifiers,
    /// anchored at `base_address`.
    pub fn new(base_address: u64, fields: Vec<Vec<u8>>) -> (r: UnrealPointer)
        ensures
            r.base_address == base_address,
            r.fields@ == fields@,
            r.offsets@ == Seq::<u64>::empty(),
    {
        let out = UnrealPointer { base_address, fields, offsets: Vec::new() };
        proof {
            assert(out.offsets@ =~= Seq::<u64>::empty());
        }
        out
    }

    /// Tries to resolve every still-unresolved field of the path,
    /// returning whether the whole path is now resolved and every pointer
    /// hop of this pass was readable. Offsets already cached are never
    /// recomputed — a pass that fails at field `i` keeps fields `0..i`
    /// resolved, and a later pass resumes at `i`.
    pub fn resolve(&mut self, mem: &Memory, module: &Module) -> (r: bool)
        ensures
            final(self).base_address == old(self).base_address,
            final(self).fields@ == old(self).fields@,
            (final(self).offsets@, r) == spec_resolve(
                mem@,
                *module,
                old(self).base_address,
                old(self).fields.deep_view(),
                old(self).offsets@,
            ),
    {
        let ghost fields_view = self.fields.deep_view();
        let depth = self.fields.len();
        if self.offsets.len() >= depth {
            return true;
        }
        let a0 = match mem.read_ptr(module.pointer_bytes, self.base_address) {
            Some(a) => a,
            None => {
                return false;
            },
        };
        let mut cur = a0;
        let mut k: usize = 0;
        let resolved = self.offsets.len();
        proof {
            assert(self.offsets@.subrange(0, resolved as int) =~= self.offsets@);
        }
        while k < resolved
            invariant
                k <= resolved,
                resolved == self.offsets@.len(),
                self.offsets@.len() < self.fields@.len(),
                self == old(self),
                spec_read_ptr(mem@, module.pointer_bytes, old(self).base_address) == Some(a0),
                spec_chase(mem@, *module, a0, self.offsets@) == spec_chase(
                    mem@,
                    *module,
                    cur,
                    self.offsets@.subrange(k as int, resolved as int),
                ),
            decreases resolved - k,
        {
            let ghost rest = self.offsets@.subrange(k as int, resolved as int);
            let next = match mem.read_ptr(
                module.pointer_bytes,
                cur.wrapping_add(self.offsets[k]),
            ) {
                Some(a) => a,
                None => {
                    proof {
                        assert(spec_chase(mem@, *module, cur, rest) is None);
                    }
                    return false;
                },
            };
            proof {
                assert(rest.drop_first() =~= self.offsets@.subrange(k + 1 as int, resolved as int));
                assert(spec_chase(mem@, *module, cur, rest) == spec_chase(
                    mem@,
                    *module,
                    next,
                    rest.drop_first(),
                ));
            }
            cur = next;
            k += 1;
        }
        proof {
            assert(self.offsets@.subrange(resolved as int, resolved as int).len() == 0);
            assert(spec_chase(mem@, *module, a0, self.offsets@) == Some(cur));
        }
        let ghost goal = spec_resolve(
            mem@,
            *module,
            old(self).base_address,
            old(self).fields.deep_view(),
            old(self).offsets@,
        );
        proof {
            assert(goal == spec_resolve_from(
                mem@,
                *module,
                fields_view,
                resolved as int,
                cur,
                self.offsets@,
            ));
        }
        let mut i: usize = resolved;
        while i < depth
            invariant
                resolved <= i <= depth,
                depth == self.fields@.len(),
                fields_view == self.fields.deep_view(),
                self.base_address == old(self).base_address,
                self.fields@ == old(self).fields@,
                i == self.offsets@.len(),
                goal == spec_resolve(
                    mem@,
                    *module,
                    old(self).base_address,
                    old(self).fields.deep_view(),
                    old(self).offsets@,
                ),
                goal == spec_resolve_from(mem@, *module, fields_view, i as int, cur, self.offsets@),
            decreases depth - i,
        {
            let ghost acc0 = self.offsets@;
            let ghost cur0 = cur;
            proof {
                assert(fields_view[i as int] =~= self.fields@[i as int]@);
            }
            let spec_name = &self.fields[i];
            let off: u64 = match parse_literal(spec_name.as_slice()) {
                Some(o) => o as u64,
                None => {
                    let obj = UObject { object: cur };
                    match obj.get_field_offset(mem, module, spec_name.as_slice()) {
                        Some(o) => o as u64,
                        None => {
                            proof {
                                assert(spec_resolve_from(
                                    mem@,
                                    *module,
                                    fields_view,
                                    i as int,
                                    cur0,
                                    acc0,
                                ) == (acc0, false));
                            }
                            return false;
                        },
                    }
                },
            };
            self.offsets.push(off);
            let next = match mem.read_ptr(module.pointer_bytes, cur.wrapping_add(off)) {
                Some(a) => a,
                None => {
                    proof {
                        assert(spec_resolve_from(mem@, *module, fields_view, i as int, cur0, acc0)
                            == (acc0.push(off), false));
                        assert(self.offsets@ == acc0.push(off));
                    }
                    return false;
                },
            };
            proof {
                assert(spec_resolve_from(mem@, *module, fields_view, i as int, cur0, acc0)
                    == spec_resolve_from(
                    mem@,
                    *module,
                    fields_view,
                    i + 1 as int,
                    next,
                    acc0.push(off),
                ));
            }
            cur = next;
            i += 1;
        }
        proof {
            assert(goal == (self.offsets@, true));
        }
        true
    }

    /// Resolves the path where it is not yet resolved, then performs one
    /// chained read from the base address through every cached offset and
    /// returns the `len` bytes at the final address — all or nothing: any
    /// unreadable hop yields `None` and no partial value.
    pub fn deref(&mut self, mem: &Memory, module: &Module, len: usize) -> (r: Option<Vec<u8>>)
        ensures
            final(self).base_address == old(self).base_address,
            final(self).fields@ == old(self).fields@,
            final(self).offsets@ == spec_resolve(
                mem@,
                *module,
                old(self).base_address,
                old(self).fields.deep_view(),
                old(self).offsets@,
            ).0,
            r is Some <==> spec_deref(
                mem@,
                *module,
                old(self).base_address,
                old(self).fields.deep_view(),
                old(self).offsets@,
                len as nat,
            ) is Some,
            r is Some ==> r->0@ == spec_deref(
                mem@,
                *module,
                old(self).base_address,
                old(self).fields.deep_view(),
                old(self).offsets@,
                len as nat,
            )->0,
    {
        let ok = self.resolve(mem, module);
        if !ok {
            return None;
        }
        let n = self.offsets.len();
        if n == 0 {
            return None;
        }
        let a0 = match mem.read_ptr(module.pointer_bytes, self.base_address) {
            Some(a) => a,
            None => {
                return None;
            },
        };
        let ghost offs = self.offsets@;
        proof {
            assert(offs.drop_last() =~= offs.subrange(0, n - 1 as int));
        }
        let mut cur = a0;
        let mut k: usize = 0;
        while k < n - 1
            invariant
                k <= n - 1,
                1 <= n == self.offsets@.len(),
                offs == self.offsets@,
                self.base_address == old(self).base_address,
                self.fields@ == old(self).fields@,
                spec_resolve(
                    mem@,
                    *module,
                    old(self).base_address,
                    old(self).fields.deep_view(),
                    old(self).offsets@,
                ) == (offs, true),
                spec_read_ptr(mem@, module.pointer_bytes, old(self).base_address) == Some(a0),
                spec_chase(mem@, *module, a0, offs.drop_last()) == spec_chase(
                    mem@,
                    *module,
                    cur,
                    offs.subrange(k as int, n - 1 as int),
                ),
            decreases n - 1 - k,
        {
            let ghost rest = offs.subrange(k as int, n - 1 as int);
            let next = match mem.read_ptr(
                module.pointer_bytes,
                cur.wrapping_add(self.offsets[k]),
            ) {
                Some(a) => a,
                None => {
                    proof {
                        assert(spec_chase(mem@, *module, cur, rest) is None);
                    }
                    return None;
                },
            };
            proof {
                assert(rest.drop_first() =~= offs.subrange(k + 1 as int, n - 1 as int));
                assert(spec_chase(mem@, *module, cur, rest) == spec_chase(
                    mem@,
                    *module,
                    next,
                    rest.drop_first(),
                ));
            }
            cur = next;
            k += 1;
        }
        proof {
            assert(offs.subrange(n - 1 as int, n - 1 as int).len() == 0);
            assert(spec_chase(mem@, *module, a0, offs.drop_last()) == Some(cur));
        }
        mem.read_bytes(cur.wrapping_add(self.offsets[n - 1]), len)
    }

    /// Resolves and reads the final value as a little-endian `u32`.
    pub fn deref_u32(&mut self, mem: &Memory, module: &Module) -> (r: Option<u32>)
        ensures
            final(self).base_address == old(self).base_address,
            final(self).fields@ == old(self).fields@,
            final(self).offsets@ == spec_resolve(
                mem@,
                *module,
                old(self).base_address,
                old(self).fields.deep_view(),
                old(self).offsets@,
            ).0,
            r is Some <==> spec_deref(
                mem@,
                *module,
                old(self).base_address,
                old(self).fields.deep_view(),
                old(self).offsets@,
                4,
            ) is Some,
            r is Some ==> r->0 == spec_u32_from_le_bytes(
                spec_deref(
                    mem@,
                    *module,
                    old(self).base_address,
                    old(self).fields.deep_view(),
                    old(self).offsets@,
                    4,
                )->0,
            ),
    {
        match self.deref(mem, module, 4) {
            Some(b) => Some(u32_from_le_bytes(b.as_slice())),
            None => None,
        }
    }

    /// Resolves and reads the final value as a little-endian `u64`.
    pub fn deref_u64(&mut self, mem: &Memory, module: &Module) -> (r: Option<u64>)
        ensures
            final(self).base_address == old(self).base_address,
            final(self).fields@ == old(self).fields@,
            final(self).offsets@ == spec_resolve(
                mem@,
                *module,
                old(self).base_address,
                old(self).fields.deep_view(),
                old(self).offsets@,
            ).0,
            r is Some <==> spec_deref(
                mem@,
                *module,
                old(self).base_address,
                old(self).fields.deep_view(),
                old(self).offsets@,
                8,
            ) is Some,
            r is Some ==> r->0 == spec_u64_from_le_bytes(
                spec_deref(
                    mem@,
                    *module,
                    old(self).base_address,
                    old(self).fields.deep_view(),
                    old(self).offsets@,
                    8,
                )->0,
            ),
    {
        match self.deref(mem, module, 8) {
            Some(b) => Some(u64_from_le_bytes(b.as_slice())),
            None => None,
        }
    }
}

} // verus!
