//! Signature scanning: finding a byte pattern with wildcard positions inside
//! a bounded range of a foreign address space.
//!
//! A pattern is a sequence of positions, each either a fixed byte
//! (`Some(b)`) or a whole-byte wildcard (`None`). A position of the scanned
//! range matches only when every byte under the pattern is readable there:
//! unreadable stretches never match, and never fail the scan as a whole.

use crate::memory::Memory;
use vstd::prelude::*;

verus! {

/// Whether the pattern `pat` matches at address `a`: the whole window fits
/// below the end of the address space, every byte of it is mapped, and each
/// fixed position agrees.
pub open spec fn spec_match_at(m: Map<u64, u8>, a: u64, pat: Seq<Option<u8>>) -> bool {
    &&& a + pat.len() <= u64::MAX + 1
    &&& forall|i: int| 0 <= i < pat.len() ==> #[trigger] spec_pos_matches(m, a, pat, i)
}

/// Whether position `i` of the pattern agrees with memory at `a + i`.
pub open spec fn spec_pos_matches(m: Map<u64, u8>, a: u64, pat: Seq<Option<u8>>, i: int) -> bool {
    &&& m.dom().contains((a + i) as u64)
    &&& match pat[i] {
        Some(b) => m[(a + i) as u64] == b,
        None => true,
    }
}

/// The first of `count` candidate addresses, counting up from `a`, where the
/// pattern matches; `None` when none matches.
pub open spec fn spec_scan_from(m: Map<u64, u8>, a: u64, count: nat, pat: Seq<Option<u8>>) -> Option<
    u64,
>
    decreases count,
{
    if count == 0 {
        None
    } else if spec_match_at(m, a, pat) {
        Some(a)
    } else if a == u64::MAX {
        None
    } else {
        spec_scan_from(m, (a + 1) as u64, (count - 1) as nat, pat)
    }
}

/// The address of the first occurrence of `pat` inside the range that starts
/// at `base` and is `len` bytes long, or `None`. An empty pattern never
/// matches.
pub open spec fn spec_scan(m: Map<u64, u8>, base: u64, len: u64, pat: Seq<Option<u8>>) -> Option<
    u64,
> {
    if pat.len() == 0 || pat.len() > len {
        None
    } else {
        spec_scan_from(m, base, (len - pat.len() + 1) as nat, pat)
    }
}

/// Checks one candidate address against the whole pattern.
fn match_at(mem: &Memory, a: u64, pat: &Vec<Option<u8>>) -> (r: bool)
    ensures
        r == spec_match_at(mem@, a, pat@),
{
    if pat.len() > 0 {
        let last: u64 = (pat.len() - 1) as u64;
        if a.checked_add(last).is_none() {
            assert(!spec_match_at(mem@, a, pat@));
            return false;
        }
    }
    let mut i: usize = 0;
    while i < pat.len()
        invariant
            i <= pat.len(),
            a + pat@.len() <= u64::MAX + 1,
            forall|j: int| 0 <= j < i ==> #[trigger] spec_pos_matches(mem@, a, pat@, j),
        decreases pat.len() - i,
    {
        match mem.read_u8(a + i as u64) {
            Some(b) => {
                match pat[i] {
                    Some(want) => {
                        if b != want {
                            assert(!spec_pos_matches(mem@, a, pat@, i as int));
                            return false;
                        }
                    },
                    None => {},
                }
            },
            None => {
                assert(!spec_pos_matches(mem@, a, pat@, i as int));
                return false;
            },
        }
        assert(spec_pos_matches(mem@, a, pat@, i as int));
        i += 1;
    }
    true
}

/// Scans the range `[base, base + len)` for the first occurrence of `pat`,
/// returning its address. Unreadable stretches of the range are treated as
/// non-matching, never as a failure of the scan.
pub fn scan(mem: &Memory, base: u64, len: u64, pat: &Vec<Option<u8>>) -> (r: Option<u64>)
    ensures
        r == spec_scan(mem@, base, len, pat@),
{
    if pat.len() == 0 || pat.len() as u64 > len {
        return None;
    }
    let count: u64 = len - pat.len() as u64 + 1;
    proof {
        assert(spec_scan(mem@, base, len, pat@) == spec_scan_from(mem@, base, count as nat, pat@));
    }
    let mut a: u64 = base;
    let mut done: u64 = 0;
    while done < count
        invariant
            done <= count,
            a == base + done,
            1 <= pat@.len() <= len,
            count == len - pat@.len() + 1,
            spec_scan_from(mem@, base, count as nat, pat@) == spec_scan_from(
                mem@,
                a,
                (count - done) as nat,
                pat@,
            ),
        decreases count - done,
    {
        let ghost rest = (count - done) as nat;
        if match_at(mem, a, pat) {
            proof {
                assert(spec_scan_from(mem@, a, rest, pat@) == Some(a));
            }
            return Some(a);
        }
        if a == u64::MAX {
            proof {
                assert(spec_scan_from(mem@, a, rest, pat@) is None);
            }
            return None;
        }
        proof {
            assert(spec_scan_from(mem@, a, rest, pat@) == spec_scan_from(
                mem@,
                (a + 1) as u64,
                (rest - 1) as nat,
                pat@,
            ));
        }
        a = a + 1;
        done = done + 1;
    }
    None
}

} // verus!
