//! Laws the library's operations obey, proved once and for all inputs.

use crate::locator::Module;
use crate::path::{spec_parse_literal, spec_resolve, spec_resolve_from};
use crate::reflect::{spec_first_property, spec_properties, MAX_HOPS};
use crate::scanner::{spec_match_at, spec_scan, spec_scan_from};
use vstd::prelude::*;

verus! {

proof fn lemma_scan_from_finds(m: Map<u64, u8>, a: u64, count: nat, pat: Seq<Option<u8>>, p: u64)
    requires
        a <= p,
        p < a + count,
        spec_match_at(m, p, pat),
        forall|q: u64| a <= q < p ==> !spec_match_at(m, q, pat),
    ensures
        spec_scan_from(m, a, count, pat) == Some(p),
    decreases p - a,
{
    if a == p {
    } else {
        assert(!spec_match_at(m, a, pat));
        lemma_scan_from_finds(m, (a + 1) as u64, (count - 1) as nat, pat, p);
    }
}

/// A scan returns exactly the position of the first occurrence: where the
/// pattern matches at `p`, inside the scanned range, and at no position of
/// the range before `p`, the scan of that range returns `p` — never a later
/// occurrence and never none.
pub proof fn lemma_scan_finds_first(
    m: Map<u64, u8>,
    base: u64,
    len: u64,
    pat: Seq<Option<u8>>,
    p: u64,
)
    requires
        1 <= pat.len() <= len,
        base <= p,
        p + pat.len() <= base + len,
        spec_match_at(m, p, pat),
        forall|q: u64| base <= q < p ==> !spec_match_at(m, q, pat),
    ensures
        spec_scan(m, base, len, pat) == Some(p),
{
    lemma_scan_from_finds(m, base, (len - pat.len() + 1) as nat, pat, p);
}

proof fn lemma_scan_from_sound(m: Map<u64, u8>, a: u64, count: nat, pat: Seq<Option<u8>>)
    ensures
        match spec_scan_from(m, a, count, pat) {
            Some(p) => a <= p && p < a + count && spec_match_at(m, p, pat) && (forall|q: u64|
                a <= q < p ==> !spec_match_at(m, q, pat)),
            None => forall|q: u64| a <= q < a + count ==> !spec_match_at(m, q, pat),
        },
    decreases count,
{
    if count == 0 {
    } else if spec_match_at(m, a, pat) {
    } else if a == u64::MAX {
    } else {
        lemma_scan_from_sound(m, (a + 1) as u64, (count - 1) as nat, pat);
    }
}

/// The converse: whatever a scan returns is a real occurrence, and the
/// first one — and a scan that returns none saw no occurrence anywhere in
/// the range.
pub proof fn lemma_scan_sound(m: Map<u64, u8>, base: u64, len: u64, pat: Seq<Option<u8>>)
    requires
        1 <= pat.len() <= len,
    ensures
        match spec_scan(m, base, len, pat) {
            Some(p) => base <= p && p + pat.len() <= base + len && spec_match_at(m, p, pat) && (
            forall|q: u64| base <= q < p ==> !spec_match_at(m, q, pat)),
            None => forall|q: u64|
                base <= q && q + pat.len() <= base + len ==> !spec_match_at(m, q, pat),
        },
{
    lemma_scan_from_sound(m, base, (len - pat.len() + 1) as nat, pat);
}

/// Resolving is idempotent: a pass over a fully resolved path leaves the
/// cache untouched, reports success, and — the cache being the whole of
/// what a pass may change — a second pass returns exactly what the first
/// did, whatever the memory now holds: no lookup of any kind is repeated.
pub proof fn lemma_resolve_idempotent(
    m: Map<u64, u8>,
    md: Module,
    base: u64,
    fields: Seq<Seq<u8>>,
    offsets: Seq<u64>,
)
    requires
        offsets.len() == fields.len(),
    ensures
        spec_resolve(m, md, base, fields, offsets) == (offsets, true),
{
}

proof fn lemma_resolve_from_prefix(
    m: Map<u64, u8>,
    md: Module,
    fields: Seq<Seq<u8>>,
    i: int,
    cur: u64,
    acc: Seq<u64>,
)
    ensures
        spec_resolve_from(m, md, fields, i, cur, acc).0.len() >= acc.len(),
        spec_resolve_from(m, md, fields, i, cur, acc).0.take(acc.len() as int) == acc,
    decreases fields.len() - i,
{
    assert(acc.take(acc.len() as int) =~= acc);
    if 0 <= i < fields.len() {
        let found = match spec_parse_literal(fields[i]) {
            Some(o) => Some(o as u64),
            None => match crate::reflect::spec_object_field_offset(m, md, cur, fields[i]) {
                Some(o) => Some(o as u64),
                None => None,
            },
        };
        match found {
            None => {},
            Some(off) => {
                assert(acc.push(off).take(acc.len() as int) =~= acc);
                match crate::memory::spec_read_ptr(m, md.pointer_bytes, cur.wrapping_add(off)) {
                    None => {},
                    Some(next) => {
                        lemma_resolve_from_prefix(m, md, fields, i + 1, next, acc.push(off));
                        let whole = spec_resolve_from(m, md, fields, i + 1, next, acc.push(off)).0;
                        assert(whole.take(acc.len() as int) =~= whole.take(
                            (acc.len() + 1) as int,
                        ).take(acc.len() as int));
                        assert(acc.push(off).take(acc.len() as int) =~= acc);
                    },
                }
            },
        }
    }
}

/// The cache only ever grows, and a pass never rewrites what an earlier
/// pass resolved: after any pass, the offsets cached before it stand
/// unchanged as a prefix of the cache — a lookup that fails at field `i`
/// costs nothing of fields `0..i`, and a later pass resumes at `i`.
pub proof fn lemma_resolve_monotonic(
    m: Map<u64, u8>,
    md: Module,
    base: u64,
    fields: Seq<Seq<u8>>,
    offsets: Seq<u64>,
)
    ensures
        spec_resolve(m, md, base, fields, offsets).0.len() >= offsets.len(),
        spec_resolve(m, md, base, fields, offsets).0.take(offsets.len() as int) == offsets,
{
    assert(offsets.take(offsets.len() as int) =~= offsets);
    if offsets.len() < fields.len() {
        match crate::memory::spec_read_ptr(m, md.pointer_bytes, base) {
            None => {},
            Some(a0) => {
                match crate::path::spec_chase(m, md, a0, offsets) {
                    None => {},
                    Some(cur) => {
                        lemma_resolve_from_prefix(m, md, fields, offsets.len() as int, cur, offsets);
                    },
                }
            },
        }
    }
}

proof fn lemma_resolve_from_count(
    m: Map<u64, u8>,
    md: Module,
    fields: Seq<Seq<u8>>,
    i: int,
    cur: u64,
    acc: Seq<u64>,
)
    requires
        0 <= i <= fields.len(),
        acc.len() == i,
    ensures
        spec_resolve_from(m, md, fields, i, cur, acc).0.len() <= fields.len(),
        spec_resolve_from(m, md, fields, i, cur, acc).1 ==> spec_resolve_from(
            m,
            md,
            fields,
            i,
            cur,
            acc,
        ).0.len() == fields.len(),
    decreases fields.len() - i,
{
    if i < fields.len() {
        let found = match spec_parse_literal(fields[i]) {
            Some(o) => Some(o as u64),
            None => match crate::reflect::spec_object_field_offset(m, md, cur, fields[i]) {
                Some(o) => Some(o as u64),
                None => None,
            },
        };
        match found {
            None => {},
            Some(off) => {
                match crate::memory::spec_read_ptr(m, md.pointer_bytes, cur.wrapping_add(off)) {
                    None => {},
                    Some(next) => {
                        lemma_resolve_from_count(m, md, fields, i + 1, next, acc.push(off));
                    },
                }
            },
        }
    }
}

/// The cache never outgrows the path: however a pass ends, the resolved
/// count stays within the path's depth, and a pass reports success exactly
/// with the whole path resolved.
pub proof fn lemma_cache_within_depth(
    m: Map<u64, u8>,
    md: Module,
    base: u64,
    fields: Seq<Seq<u8>>,
    offsets: Seq<u64>,
)
    requires
        offsets.len() <= fields.len(),
    ensures
        spec_resolve(m, md, base, fields, offsets).0.len() <= fields.len(),
        spec_resolve(m, md, base, fields, offsets).1 ==> spec_resolve(
            m,
            md,
            base,
            fields,
            offsets,
        ).0.len() == fields.len(),
{
    if offsets.len() < fields.len() {
        match crate::memory::spec_read_ptr(m, md.pointer_bytes, base) {
            None => {},
            Some(a0) => {
                match crate::path::spec_chase(m, md, a0, offsets) {
                    None => {},
                    Some(cur) => {
                        lemma_resolve_from_count(m, md, fields, offsets.len() as int, cur, offsets);
                    },
                }
            },
        }
    }
}

/// A literal specifier is taken at its numeric value and nothing else: the
/// offset a pass caches for field `i` is the parsed literal itself,
/// whatever the memory holds — no reflective lookup has any part in it.
pub proof fn lemma_literal_field_uses_no_reflection(
    m: Map<u64, u8>,
    md: Module,
    fields: Seq<Seq<u8>>,
    i: int,
    cur: u64,
    acc: Seq<u64>,
    value: u32,
)
    requires
        0 <= i < fields.len(),
        spec_parse_literal(fields[i]) == Some(value),
    ensures
        spec_resolve_from(m, md, fields, i, cur, acc).0.len() > acc.len(),
        spec_resolve_from(m, md, fields, i, cur, acc).0[acc.len() as int] == value as u64,
{
    let off = value as u64;
    match crate::memory::spec_read_ptr(m, md.pointer_bytes, cur.wrapping_add(off)) {
        None => {},
        Some(next) => {
            lemma_resolve_from_prefix(m, md, fields, i + 1, next, acc.push(off));
            let whole = spec_resolve_from(m, md, fields, i + 1, next, acc.push(off)).0;
            assert(whole.take((acc.len() + 1) as int)[acc.len() as int] == acc.push(off)[acc.len() as int]);
        },
    }
}

/// Walking a class whose first-property pointer is null falls through to
/// its parent: the first property found under the class is the first found
/// under the parent.
pub proof fn lemma_first_property_fallthrough(
    m: Map<u64, u8>,
    md: Module,
    class: u64,
    parent: u64,
    fuel: nat,
)
    requires
        fuel >= 1,
        crate::memory::spec_read_ptr(
            m,
            md.pointer_bytes,
            class.wrapping_add(md.offsets.uclass_property_link),
        ) == Some(0u64),
        crate::memory::spec_read_ptr(
            m,
            md.pointer_bytes,
            class.wrapping_add(md.offsets.uclass_super_field),
        ) == Some(parent),
        parent != 0,
    ensures
        spec_first_property(m, md, class, fuel) == spec_first_property(
            m,
            md,
            parent,
            (fuel - 1) as nat,
        ),
{
}

proof fn lemma_first_property_fuel_mono(m: Map<u64, u8>, md: Module, class: u64, f1: nat, f2: nat)
    requires
        f1 <= f2,
        spec_first_property(m, md, class, f1) is Some,
    ensures
        spec_first_property(m, md, class, f2) == spec_first_property(m, md, class, f1),
    decreases f1,
{
    if f1 > 0 {
        match crate::memory::spec_read_ptr(
            m,
            md.pointer_bytes,
            class.wrapping_add(md.offsets.uclass_property_link),
        ) {
            None => {},
            Some(p) => {
                if p == 0 {
                    match crate::memory::spec_read_ptr(
                        m,
                        md.pointer_bytes,
                        class.wrapping_add(md.offsets.uclass_super_field),
                    ) {
                        None => {},
                        Some(sup) => {
                            if sup != 0 {
                                lemma_first_property_fuel_mono(
                                    m,
                                    md,
                                    sup,
                                    (f1 - 1) as nat,
                                    (f2 - 1) as nat,
                                );
                            }
                        },
                    }
                }
            },
        }
    }
}

/// Property-list fallthrough: a class with a null first-property pointer
/// but a parent whose list is found within the hop bound exposes exactly
/// the parent's properties when walked — never an empty sequence.
pub proof fn lemma_properties_fallthrough(m: Map<u64, u8>, md: Module, class: u64, parent: u64)
    requires
        crate::memory::spec_read_ptr(
            m,
            md.pointer_bytes,
            class.wrapping_add(md.offsets.uclass_property_link),
        ) == Some(0u64),
        crate::memory::spec_read_ptr(
            m,
            md.pointer_bytes,
            class.wrapping_add(md.offsets.uclass_super_field),
        ) == Some(parent),
        parent != 0,
        spec_first_property(m, md, parent, (MAX_HOPS - 1) as nat) is Some,
    ensures
        spec_properties(m, md, class) == spec_properties(m, md, parent),
{
    lemma_first_property_fallthrough(m, md, class, parent, MAX_HOPS as nat);
    lemma_first_property_fuel_mono(m, md, parent, (MAX_HOPS - 1) as nat, MAX_HOPS as nat);
}

} // verus!
