//! The reflective walker and the name resolver.
//!
//! Given any live object address, the walker locates the object's class
//! record, walks the class's (and, where a class adds no fields of its own,
//! its ancestors') singly linked property list, and finds a field by name.
//! Names are interned: a packed handle on each property record is decoded
//! through a two-level name-pool table with a bit-packed length header.
//!
//! Linked-list walks over foreign, possibly corrupted data carry a
//! defensive hop bound, [`MAX_HOPS`]; a chain longer than that is treated
//! as absence rather than walked forever.

use crate::locator::Module;
use crate::memory::{spec_read_bytes, spec_read_ptr, spec_read_u16, spec_read_u32, Memory};
use vstd::prelude::*;

verus! {

/// The most links any walk of foreign chain records follows.
pub const MAX_HOPS: u64 = 1024;

/// The class record a live object points at: the pointer at the object's
/// class slot; null or unreadable means none.
pub open spec fn spec_class_of(m: Map<u64, u8>, md: Module, object: u64) -> Option<u64> {
    match spec_read_ptr(m, md.pointer_bytes, object.wrapping_add(md.offsets.uobject_class)) {
        Some(c) => if c == 0 {
            None
        } else {
            Some(c)
        },
        None => None,
    }
}

/// The first property record reachable from `class`: the class's own first
/// property where it has one, else the nearest ancestor's, walking the
/// parent chain while the first-property pointer is null.
pub open spec fn spec_first_property(m: Map<u64, u8>, md: Module, class: u64, fuel: nat) -> Option<
    u64,
>
    decreases fuel,
{
    if fuel == 0 {
        None
    } else {
        match spec_read_ptr(
            m,
            md.pointer_bytes,
            class.wrapping_add(md.offsets.uclass_property_link),
        ) {
            None => None,
            Some(p) => if p != 0 {
                Some(p)
            } else {
                match spec_read_ptr(
                    m,
                    md.pointer_bytes,
                    class.wrapping_add(md.offsets.uclass_super_field),
                ) {
                    None => None,
                    Some(sup) => if sup == 0 {
                        None
                    } else {
                        spec_first_property(m, md, sup, (fuel - 1) as nat)
                    },
                }
            },
        }
    }
}

/// The property-record addresses linked from `p`, in derived-to-base order.
/// A record is part of the walk only when its next-link is readable; the
/// walk stops at a null link, an unreadable link, or the hop bound.
pub open spec fn spec_prop_list(m: Map<u64, u8>, md: Module, p: u64, fuel: nat) -> Seq<u64>
    decreases fuel,
{
    if fuel == 0 {
        Seq::empty()
    } else {
        match spec_read_ptr(
            m,
            md.pointer_bytes,
            p.wrapping_add(md.offsets.uproperty_property_link_next),
        ) {
            None => Seq::empty(),
            Some(np) => if np == 0 {
                seq![p]
            } else {
                seq![p] + spec_prop_list(m, md, np, (fuel - 1) as nat)
            },
        }
    }
}

/// Every property record `class` exposes, its ancestors' included when the
/// class itself adds none.
pub open spec fn spec_properties(m: Map<u64, u8>, md: Module, class: u64) -> Seq<u64> {
    match spec_first_property(m, md, class, MAX_HOPS as nat) {
        None => Seq::empty(),
        Some(p) => spec_prop_list(m, md, p, MAX_HOPS as nat),
    }
}

/// The interned name of the property record at `prop`: a 16-bit (index,
/// chunk) pair is read at the record's name-handle slot; the chunk-table
/// slot `fname_base + pointer_bytes * (chunk + 2)` holds the chunk's base;
/// the entry at `chunk_base + index * 2` starts with a 16-bit header whose
/// value shifted right by 6 is the length of the name bytes that follow it.
pub open spec fn spec_name_of(m: Map<u64, u8>, md: Module, prop: u64) -> Option<Seq<u8>> {
    let handle = prop.wrapping_add(md.offsets.uproperty_fname);
    match spec_read_u16(m, handle) {
        None => None,
        Some(index) => match spec_read_u16(m, handle.wrapping_add(2)) {
            None => None,
            Some(chunk) => {
                let slot = md.fname_base.wrapping_add(
                    md.pointer_bytes.wrapping_mul((chunk + 2) as u64),
                );
                match spec_read_ptr(m, md.pointer_bytes, slot) {
                    None => None,
                    Some(chunk_base) => {
                        let entry = chunk_base.wrapping_add((index * 2) as u64);
                        match spec_read_u16(m, entry) {
                            None => None,
                            Some(header) => spec_read_bytes(
                                m,
                                entry.wrapping_add(2),
                                (header >> 6) as nat,
                            ),
                        }
                    },
                }
            },
        },
    }
}

/// The byte offset recorded on the property record at `prop`.
pub open spec fn spec_prop_offset(m: Map<u64, u8>, md: Module, prop: u64) -> Option<u32> {
    spec_read_u32(m, prop.wrapping_add(md.offsets.uproperty_offset_internal))
}

/// The first record of `props` whose decoded name is exactly `name`.
pub open spec fn spec_find_prop(
    m: Map<u64, u8>,
    md: Module,
    props: Seq<u64>,
    name: Seq<u8>,
) -> Option<u64>
    decreases props.len(),
{
    if props.len() == 0 {
        None
    } else if spec_name_of(m, md, props[0]) == Some(name) {
        Some(props[0])
    } else {
        spec_find_prop(m, md, props.drop_first(), name)
    }
}

/// The byte offset of field `name` within instances of `class`: the first
/// matching property record of the walk decides, so derived classes shadow
/// their ancestors.
pub open spec fn spec_field_offset(
    m: Map<u64, u8>,
    md: Module,
    class: u64,
    name: Seq<u8>,
) -> Option<u32> {
    match spec_find_prop(m, md, spec_properties(m, md, class), name) {
        None => None,
        Some(p) => spec_prop_offset(m, md, p),
    }
}

/// The byte offset of field `name` within the class of the live object at
/// `object`.
pub open spec fn spec_object_field_offset(
    m: Map<u64, u8>,
    md: Module,
    object: u64,
    name: Seq<u8>,
) -> Option<u32> {
    match spec_class_of(m, md, object) {
        None => None,
        Some(c) => spec_field_offset(m, md, c, name),
    }
}

/// Compares two byte strings.
pub fn bytes_eq(a: &[u8], b: &[u8]) -> (r: bool)
    ensures
        r == (a@ == b@),
{
    if a.len() != b.len() {
        return false;
    }
    let mut i: usize = 0;
    while i < a.len()
        invariant
            i <= a.len(),
            a@.len() == b@.len(),
            forall|j: int| 0 <= j < i ==> a@[j] == b@[j],
        decreases a.len() - i,
    {
        if a[i] != b[i] {
            return false;
        }
        i += 1;
    }
    proof {
        assert(a@ =~= b@);
    }
    true
}

/// A live instance of any class of the target: a bare foreign address.
/// Never cached; everything it exposes is re-read from foreign memory on
/// every call, since the target mutates independently.
#[derive(Clone, Copy)]
pub struct UObject {
    pub object: u64,
}

/// The class record of some object: the target's own description of that
/// object's fields, parent and layout.
#[derive(Clone, Copy)]
pub struct UClass {
    pub class: u64,
}

/// One property record of a class: a named, offset-located member.
#[derive(Clone, Copy)]
pub struct UProperty {
    pub property: u64,
}

fn first_property(mem: &Memory, module: &Module, class: u64, fuel: u64) -> (r: Option<u64>)
    ensures
        r == spec_first_property(mem@, *module, class, fuel as nat),
    decreases fuel,
{
    if fuel == 0 {
        return None;
    }
    match mem.read_ptr(
        module.pointer_bytes,
        class.wrapping_add(module.offsets.uclass_property_link),
    ) {
        None => None,
        Some(p) => {
            if p != 0 {
                Some(p)
            } else {
                match mem.read_ptr(
                    module.pointer_bytes,
                    class.wrapping_add(module.offsets.uclass_super_field),
                ) {
                    None => None,
                    Some(sup) => {
                        if sup == 0 {
                            None
                        } else {
                            first_property(mem, module, sup, fuel - 1)
                        }
                    },
                }
            }
        },
    }
}

fn collect_props(mem: &Memory, module: &Module, p: u64, fuel: u64, out: &mut Vec<u64>)
    ensures
        final(out)@ == old(out)@ + spec_prop_list(mem@, *module, p, fuel as nat),
    decreases fuel,
{
    if fuel == 0 {
        proof {
            assert(final(out)@ =~= old(out)@ + spec_prop_list(mem@, *module, p, fuel as nat));
        }
        return ;
    }
    match mem.read_ptr(
        module.pointer_bytes,
        p.wrapping_add(module.offsets.uproperty_property_link_next),
    ) {
        None => {
            proof {
                assert(final(out)@ =~= old(out)@ + spec_prop_list(mem@, *module, p, fuel as nat));
            }
        },
        Some(np) => {
            out.push(p);
            if np == 0 {
                proof {
                    assert(final(out)@ =~= old(out)@ + spec_prop_list(
                        mem@,
                        *module,
                        p,
                        fuel as nat,
                    ));
                }
            } else {
                collect_props(mem, module, np, fuel - 1, out);
                proof {
                    assert(final(out)@ =~= old(out)@ + spec_prop_list(
                        mem@,
                        *module,
                        p,
                        fuel as nat,
                    ));
                }
            }
        },
    }
}

impl UObject {
    /// The class record of this object; `None` on a null or unreadable
    /// class pointer.
    pub fn get_uclass(&self, mem: &Memory, module: &Module) -> (r: Option<UClass>)
        ensures
            r is Some <==> spec_class_of(mem@, *module, self.object) is Some,
            r is Some ==> r->0.class == spec_class_of(mem@, *module, self.object)->0,
    {
        match mem.read_ptr(
            module.pointer_bytes,
            self.object.wrapping_add(module.offsets.uobject_class),
        ) {
            None => None,
            Some(c) => {
                if c == 0 {
                    None
                } else {
                    Some(UClass { class: c })
                }
            },
        }
    }

    /// Finds a field with the given name in this object's class and returns
    /// the field's byte offset from the start of an instance of the class.
    pub fn get_field_offset(&self, mem: &Memory, module: &Module, field_name: &[u8]) -> (r: Option<
        u32,
    >)
        ensures
            r == spec_object_field_offset(mem@, *module, self.object, field_name@),
    {
        match self.get_uclass(mem, module) {
            None => None,
            Some(c) => c.get_field_offset(mem, module, field_name),
        }
    }
}

impl UClass {
    /// Every property record this class exposes, in derived-to-base order;
    /// a class that adds no fields of its own hands back the nearest
    /// ancestor's list.
    pub fn properties(&self, mem: &Memory, module: &Module) -> (r: Vec<UProperty>)
        ensures
            r@.len() == spec_properties(mem@, *module, self.class).len(),
            forall|i: int|
                0 <= i < r@.len() ==> r@[i].property == spec_properties(
                    mem@,
                    *module,
                    self.class,
                )[i],
    {
        let mut addrs: Vec<u64> = Vec::new();
        match first_property(mem, module, self.class, MAX_HOPS) {
            None => {},
            Some(p) => {
                collect_props(mem, module, p, MAX_HOPS, &mut addrs);
            },
        }
        let mut out: Vec<UProperty> = Vec::new();
        let mut i: usize = 0;
        while i < addrs.len()
            invariant
                i <= addrs.len(),
                out@.len() == i,
                addrs@ == spec_properties(mem@, *module, self.class),
                forall|j: int| 0 <= j < i ==> out@[j].property == addrs@[j],
            decreases addrs.len() - i,
        {
            out.push(UProperty { property: addrs[i] });
            i += 1;
        }
        out
    }

    /// The byte offset of the first property of the walk whose decoded name
    /// is exactly `field_name`, or `None` when the walk is exhausted.
    pub fn get_field_offset(&self, mem: &Memory, module: &Module, field_name: &[u8]) -> (r: Option<
        u32,
    >)
        ensures
            r == spec_field_offset(mem@, *module, self.class, field_name@),
    {
        let props = self.properties(mem, module);
        let ghost pseq = spec_properties(mem@, *module, self.class);
        proof {
            assert(pseq.subrange(0, pseq.len() as int) =~= pseq);
        }
        let mut i: usize = 0;
        while i < props.len()
            invariant
                i <= props.len(),
                pseq == spec_properties(mem@, *module, self.class),
                props@.len() == pseq.len(),
                forall|j: int| 0 <= j < props@.len() ==> props@[j].property == pseq[j],
                spec_find_prop(mem@, *module, pseq, field_name@) == spec_find_prop(
                    mem@,
                    *module,
                    pseq.subrange(i as int, pseq.len() as int),
                    field_name@,
                ),
            decreases props.len() - i,
        {
            let ghost rest = pseq.subrange(i as int, pseq.len() as int);
            let matched = match props[i].get_fname(mem, module) {
                Some(n) => bytes_eq(n.as_slice(), field_name),
                None => false,
            };
            if matched {
                proof {
                    let p = props@[i as int].property;
                    assert(spec_name_of(mem@, *module, p) == Some(field_name@));
                    assert(rest[0] == p);
                    assert(spec_find_prop(mem@, *module, rest, field_name@) == Some(p));
                    assert(spec_find_prop(mem@, *module, pseq, field_name@) == Some(p));
                }
                return props[i].get_offset(mem, module);
            }
            proof {
                assert(rest.drop_first() =~= pseq.subrange(i + 1 as int, pseq.len() as int));
                assert(spec_find_prop(mem@, *module, rest, field_name@) == spec_find_prop(
                    mem@,
                    *module,
                    rest.drop_first(),
                    field_name@,
                ));
            }
            i += 1;
        }
        proof {
            assert(pseq.subrange(i as int, pseq.len() as int).len() == 0);
        }
        None
    }
}

impl UProperty {
    /// Decodes this property's interned name through the name pool;
    /// `None` as soon as any hop of the decoding is unreadable.
    pub fn get_fname(&self, mem: &Memory, module: &Module) -> (r: Option<Vec<u8>>)
        ensures
            r is Some <==> spec_name_of(mem@, *module, self.property) is Some,
            r is Some ==> r->0@ == spec_name_of(mem@, *module, self.property)->0,
    {
        let handle = self.property.wrapping_add(module.offsets.uproperty_fname);
        let index = match mem.read_u16(handle) {
            Some(v) => v,
            None => {
                return None;
            },
        };
        let chunk = match mem.read_u16(handle.wrapping_add(2)) {
            Some(v) => v,
            None => {
                return None;
            },
        };
        let slot = module.fname_base.wrapping_add(
            module.pointer_bytes.wrapping_mul(chunk as u64 + 2),
        );
        let chunk_base = match mem.read_ptr(module.pointer_bytes, slot) {
            Some(v) => v,
            None => {
                return None;
            },
        };
        let entry = chunk_base.wrapping_add(index as u64 * 2);
        let header = match mem.read_u16(entry) {
            Some(v) => v,
            None => {
                return None;
            },
        };
        let len = (header >> 6) as usize;
        mem.read_bytes(entry.wrapping_add(2), len)
    }

    /// The byte offset recorded on this property record.
    pub fn get_offset(&self, mem: &Memory, module: &Module) -> (r: Option<u32>)
        ensures
            r == spec_prop_offset(mem@, *module, self.property),
    {
        mem.read_u32(self.property.wrapping_add(module.offsets.uproperty_offset_internal))
    }
}

} // verus!
