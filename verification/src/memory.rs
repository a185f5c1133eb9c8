//! A sparse model of a foreign address space.
//!
//! A [`Memory`] holds runs of bytes at fixed base addresses. Its view is a
//! partial map from address to byte; reading an address outside every run
//! fails, exactly as reading an unmapped page of a live process does. All
//! multi-byte reads are little-endian, matching the targets this library
//! inspects.

use vstd::bytes::{spec_u16_from_le_bytes, spec_u32_from_le_bytes, spec_u64_from_le_bytes};
use vstd::bytes::{u16_from_le_bytes, u32_from_le_bytes, u64_from_le_bytes};
use vstd::prelude::*;

verus! {

/// One contiguous run of readable bytes.
struct Region {
    base: u64,
    bytes: Vec<u8>,
}

/// The bytes of one run, as a partial map from address to byte. Addresses
/// past `u64::MAX` do not exist, so a run is silently clipped there.
pub open spec fn region_map(base: u64, bytes: Seq<u8>) -> Map<u64, u8> {
    Map::new(|a: u64| base <= a && a - base < bytes.len(), |a: u64| bytes[a - base])
}

spec fn mem_of(regions: Seq<(u64, Seq<u8>)>) -> Map<u64, u8>
    decreases regions.len(),
{
    if regions.len() == 0 {
        Map::empty()
    } else {
        mem_of(regions.drop_first()).union_prefer_right(region_map(regions[0].0, regions[0].1))
    }
}

/// A snapshot of the readable part of a foreign address space.
pub struct Memory {
    regions: Vec<Region>,
}

impl View for Memory {
    type V = Map<u64, u8>;

    closed spec fn view(&self) -> Map<u64, u8> {
        mem_of(self.regions@.map(|i: int, r: Region| (r.base, r.bytes@)))
    }
}

/// The byte at `addr`, or `None` where `addr` is unmapped.
pub open spec fn spec_read8(m: Map<u64, u8>, addr: u64) -> Option<u8> {
    if m.dom().contains(addr) {
        Some(m[addr])
    } else {
        None
    }
}

/// `len` bytes starting at `addr`: `Some` exactly when the whole range lies
/// below the end of the address space and every byte of it is mapped.
pub open spec fn spec_read_bytes(m: Map<u64, u8>, addr: u64, len: nat) -> Option<Seq<u8>> {
    if addr + len <= u64::MAX + 1 && (forall|i: int|
        0 <= i < len ==> #[trigger] m.dom().contains((addr + i) as u64)) {
        Some(Seq::new(len, |i: int| m[(addr + i) as u64]))
    } else {
        None
    }
}

/// A little-endian `u16` at `addr`.
pub open spec fn spec_read_u16(m: Map<u64, u8>, addr: u64) -> Option<u16> {
    match spec_read_bytes(m, addr, 2) {
        Some(b) => Some(spec_u16_from_le_bytes(b)),
        None => None,
    }
}

/// A little-endian `u32` at `addr`.
pub open spec fn spec_read_u32(m: Map<u64, u8>, addr: u64) -> Option<u32> {
    match spec_read_bytes(m, addr, 4) {
        Some(b) => Some(spec_u32_from_le_bytes(b)),
        None => None,
    }
}

/// A little-endian `u64` at `addr`.
pub open spec fn spec_read_u64(m: Map<u64, u8>, addr: u64) -> Option<u64> {
    match spec_read_bytes(m, addr, 8) {
        Some(b) => Some(spec_u64_from_le_bytes(b)),
        None => None,
    }
}

/// A foreign pointer at `addr`: 4 bytes zero-extended when `ptr_bytes` is 4,
/// 8 bytes otherwise.
pub open spec fn spec_read_ptr(m: Map<u64, u8>, ptr_bytes: u64, addr: u64) -> Option<u64> {
    if ptr_bytes == 4 {
        match spec_read_u32(m, addr) {
            Some(v) => Some(v as u64),
            None => None,
        }
    } else {
        spec_read_u64(m, addr)
    }
}

proof fn lemma_mem_of_first_hit(rs: Seq<(u64, Seq<u8>)>, i: int, a: u64)
    requires
        0 <= i < rs.len(),
        region_map(rs[i].0, rs[i].1).dom().contains(a),
        forall|j: int| 0 <= j < i ==> !region_map(rs[j].0, rs[j].1).dom().contains(a),
    ensures
        mem_of(rs).dom().contains(a),
        mem_of(rs)[a] == region_map(rs[i].0, rs[i].1)[a],
    decreases i,
{
    if i == 0 {
    } else {
        assert(!region_map(rs[0].0, rs[0].1).dom().contains(a));
        lemma_mem_of_first_hit(rs.drop_first(), i - 1, a);
    }
}

proof fn lemma_mem_of_miss(rs: Seq<(u64, Seq<u8>)>, a: u64)
    requires
        forall|j: int| 0 <= j < rs.len() ==> !region_map(rs[j].0, rs[j].1).dom().contains(a),
    ensures
        !mem_of(rs).dom().contains(a),
    decreases rs.len(),
{
    if rs.len() == 0 {
    } else {
        assert(!region_map(rs[0].0, rs[0].1).dom().contains(a));
        lemma_mem_of_miss(rs.drop_first(), a);
    }
}

proof fn lemma_mem_of_push(rs: Seq<(u64, Seq<u8>)>, base: u64, bytes: Seq<u8>)
    ensures
        mem_of(rs.push((base, bytes))) == region_map(base, bytes).union_prefer_right(mem_of(rs)),
    decreases rs.len(),
{
    let whole = rs.push((base, bytes));
    if rs.len() == 0 {
        assert(whole.len() == 1);
        assert(whole.drop_first() =~= rs);
        assert(mem_of(rs) == Map::<u64, u8>::empty());
        assert(mem_of(whole) == mem_of(rs).union_prefer_right(region_map(base, bytes)));
        assert(mem_of(whole) =~= region_map(base, bytes).union_prefer_right(mem_of(rs)));
    } else {
        assert(whole.drop_first() =~= rs.drop_first().push((base, bytes)));
        lemma_mem_of_push(rs.drop_first(), base, bytes);
        assert(mem_of(whole) =~= region_map(base, bytes).union_prefer_right(mem_of(rs)));
    }
}

impl Memory {
    /// A memory with nothing mapped.
    pub fn new() -> (r: Memory)
        ensures
            r@ == Map::<u64, u8>::empty(),
    {
        let m = Memory { regions: Vec::new() };
        proof {
            assert(m.regions@.map(|i: int, r: Region| (r.base, r.bytes@))
                =~= Seq::<(u64, Seq<u8>)>::empty());
            assert(m@ =~= Map::<u64, u8>::empty());
        }
        m
    }

    /// Maps `bytes` starting at `base`. Where the new run overlaps bytes
    /// already mapped, the old bytes keep their values.
    pub fn add_region(&mut self, base: u64, bytes: Vec<u8>)
        ensures
            final(self)@ == region_map(base, bytes@).union_prefer_right(old(self)@),
    {
        let ghost old_rs = self.regions@.map(|i: int, r: Region| (r.base, r.bytes@));
        let ghost b = bytes@;
        self.regions.push(Region { base, bytes });
        proof {
            let new_rs = self.regions@.map(|i: int, r: Region| (r.base, r.bytes@));
            assert(new_rs =~= old_rs.push((base, b)));
            lemma_mem_of_push(old_rs, base, b);
        }
    }

    /// Reads the byte at `addr`.
    pub fn read_u8(&self, addr: u64) -> (r: Option<u8>)
        ensures
            r == spec_read8(self@, addr),
    {
        let ghost rs = self.regions@.map(|i: int, r: Region| (r.base, r.bytes@));
        let n = self.regions.len();
        let mut i: usize = 0;
        while i < n
            invariant
                i <= n,
                n == self.regions.len(),
                rs == self.regions@.map(|k: int, r: Region| (r.base, r.bytes@)),
                forall|j: int| 0 <= j < i ==> !region_map(rs[j].0, rs[j].1).dom().contains(addr),
            decreases n - i,
        {
            let base = self.regions[i].base;
            if addr >= base {
                let off = addr - base;
                if off < self.regions[i].bytes.len() as u64 {
                    let b = self.regions[i].bytes[off as usize];
                    proof {
                        assert(region_map(rs[i as int].0, rs[i as int].1).dom().contains(addr));
                        lemma_mem_of_first_hit(rs, i as int, addr);
                    }
                    return Some(b);
                }
            }
            proof {
                assert(!region_map(rs[i as int].0, rs[i as int].1).dom().contains(addr));
            }
            i += 1;
        }
        proof {
            lemma_mem_of_miss(rs, addr);
        }
        None
    }

    /// Reads `len` bytes starting at `addr`; `None` as soon as any byte of
    /// the range is unmapped or past the end of the address space.
    pub fn read_bytes(&self, addr: u64, len: usize) -> (r: Option<Vec<u8>>)
        ensures
            r is Some <==> spec_read_bytes(self@, addr, len as nat) is Some,
            r is Some ==> r->0@ == spec_read_bytes(self@, addr, len as nat)->0,
    {
        if len == 0 {
            let out: Vec<u8> = Vec::new();
            proof {
                assert(out@ =~= spec_read_bytes(self@, addr, 0)->0);
            }
            return Some(out);
        }
        if addr.checked_add((len - 1) as u64).is_none() {
            return None;
        }
        let mut out: Vec<u8> = Vec::new();
        let mut i: usize = 0;
        while i < len
            invariant
                i <= len,
                out@.len() == i,
                addr + len <= u64::MAX + 1,
                forall|j: int| 0 <= j < i ==> #[trigger] self@.dom().contains((addr + j) as u64),
                forall|j: int| 0 <= j < i ==> out@[j] == self@[(addr + j) as u64],
            decreases len - i,
        {
            match self.read_u8(addr + i as u64) {
                Some(b) => {
                    out.push(b);
                },
                None => {
                    return None;
                },
            }
            i += 1;
        }
        proof {
            assert(out@ =~= spec_read_bytes(self@, addr, len as nat)->0);
        }
        Some(out)
    }

    /// Reads a little-endian `u16` at `addr`.
    pub fn read_u16(&self, addr: u64) -> (r: Option<u16>)
        ensures
            r == spec_read_u16(self@, addr),
    {
        match self.read_bytes(addr, 2) {
            Some(b) => Some(u16_from_le_bytes(b.as_slice())),
            None => None,
        }
    }

    /// Reads a little-endian `u32` at `addr`.
    pub fn read_u32(&self, addr: u64) -> (r: Option<u32>)
        ensures
            r == spec_read_u32(self@, addr),
    {
        match self.read_bytes(addr, 4) {
            Some(b) => Some(u32_from_le_bytes(b.as_slice())),
            None => None,
        }
    }

    /// Reads a little-endian `u64` at `addr`.
    pub fn read_u64(&self, addr: u64) -> (r: Option<u64>)
        ensures
            r == spec_read_u64(self@, addr),
    {
        match self.read_bytes(addr, 8) {
            Some(b) => Some(u64_from_le_bytes(b.as_slice())),
            None => None,
        }
    }

    /// Reads a foreign pointer of `ptr_bytes` bytes at `addr`, zero-extended.
    pub fn read_ptr(&self, ptr_bytes: u64, addr: u64) -> (r: Option<u64>)
        ensures
            r == spec_read_ptr(self@, ptr_bytes, addr),
    {
        if ptr_bytes == 4 {
            match self.read_u32(addr) {
                Some(v) => Some(v as u64),
                None => None,
            }
        } else {
            self.read_u64(addr)
        }
    }
}

} // verus!
