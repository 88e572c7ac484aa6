use vstd::prelude::*;

use crate::region::{
    range_contains, range_len, ranges_intersect, regions_disjoint, AddrRange, ContentRegion,
};
use crate::sanity::length_matches;

verus! {

/// A window of physical memory: `bytes[i]` is the byte at address `base + i`.
pub struct PhysMemory {
    pub base: u64,
    pub bytes: Vec<u8>,
}

/// The destination of `r` lies inside the window.
pub open spec fn within_window(base: u64, len: nat, r: AddrRange) -> bool {
    base <= r.start && r.end <= base + len
}

/// Every region that carries bytes fits the window and is filled exactly by them.
pub open spec fn copyable(base: u64, len: nat, regions: Seq<ContentRegion>) -> bool {
    forall|i: int|
        0 <= i < regions.len() && (#[trigger] regions[i]).content is Some ==> within_window(
            base,
            len,
            regions[i].phys_addr_range,
        ) && length_matches(regions[i])
}

/// The byte at window offset `p` once the first `k` regions have been copied
/// over `old`.
pub open spec fn copied_byte(
    old: Seq<u8>,
    base: int,
    regions: Seq<ContentRegion>,
    k: int,
    p: int,
) -> u8
    decreases k,
{
    if k <= 0 {
        old[p]
    } else {
        let r = regions[k - 1];
        if r.content is Some && range_contains(r.phys_addr_range, base + p) {
            r.content->Some_0@[base + p - r.phys_addr_range.start]
        } else {
            copied_byte(old, base, regions, k - 1, p)
        }
    }
}

/// Whether window offset `p` lies in the destination of a region that carries bytes.
pub open spec fn covered(base: int, regions: Seq<ContentRegion>, p: int) -> bool {
    exists|j: int|
        0 <= j < regions.len() && (#[trigger] regions[j]).content is Some && range_contains(
            regions[j].phys_addr_range,
            base + p,
        )
}

/// Copies the bytes of every region that carries any to its destination.
/// Regions without bytes, and memory outside every destination, are left as
/// they were.
pub fn copy_payload_data(mem: &mut PhysMemory, regions: &Vec<ContentRegion>)
    requires
        copyable(old(mem).base, old(mem).bytes@.len(), regions@),
    ensures
        final(mem).base == old(mem).base,
        final(mem).bytes@.len() == old(mem).bytes@.len(),
        forall|p: int|
            0 <= p < old(mem).bytes@.len() ==> #[trigger] final(mem).bytes@[p] == copied_byte(
                old(mem).bytes@,
                old(mem).base as int,
                regions@,
                regions@.len() as int,
                p,
            ),
{
    let ghost old_bytes = mem.bytes@;
    let n = regions.len();
    let mut i: usize = 0;
    while i < n
        invariant
            n == regions@.len(),
            i <= n,
            mem.base == old(mem).base,
            old_bytes == old(mem).bytes@,
            mem.bytes@.len() == old_bytes.len(),
            copyable(mem.base, old_bytes.len(), regions@),
            forall|p: int|
                0 <= p < old_bytes.len() ==> mem.bytes@[p] == #[trigger] copied_byte(
                    old_bytes,
                    mem.base as int,
                    regions@,
                    i as int,
                    p,
                ),
        decreases n - i,
    {
        let region = &regions[i];
        assert(*region == regions@[i as int]);
        match &region.content {
            Some(bytes) => {
                assert(regions@[i as int].content is Some);
                assert(within_window(mem.base, old_bytes.len(), region.phys_addr_range));
                let m = bytes.len();
                assert(m == range_len(region.phys_addr_range));
                let window_len = mem.bytes.len();
                let off: usize = if m > 0 {
                    assert(region.phys_addr_range.start - mem.base + m <= window_len);
                    (region.phys_addr_range.start - mem.base) as usize
                } else {
                    0
                };
                let mut k: usize = 0;
                while k < m
                    invariant
                        0 <= i < n,
                        n == regions@.len(),
                        m == bytes@.len(),
                        region == regions@[i as int],
                        region.content == Some(*bytes),
                        mem.base == old(mem).base,
                        mem.bytes@.len() == old_bytes.len(),
                        m > 0 ==> off == region.phys_addr_range.start - mem.base,
                        off + m <= old_bytes.len(),
                        window_len == old_bytes.len(),
                        k <= m,
                        forall|p: int|
                            0 <= p < old_bytes.len() ==> mem.bytes@[p] == (if off <= p < off + k {
                                bytes@[p - off]
                            } else {
                                copied_byte(old_bytes, mem.base as int, regions@, i as int, p)
                            }),
                    decreases m - k,
                {
                    mem.bytes.set(off + k, bytes[k]);
                    k += 1;
                }
                assert forall|p: int| 0 <= p < old_bytes.len() implies mem.bytes@[p]
                    == #[trigger] copied_byte(
                    old_bytes,
                    mem.base as int,
                    regions@,
                    i + 1,
                    p,
                ) by {
                    if range_contains(region.phys_addr_range, mem.base + p) {
                        assert(off <= p < off + m);
                    }
                }
            },
            None => {
                assert(regions@[i as int].content is None);
                assert forall|p: int| 0 <= p < old_bytes.len() implies mem.bytes@[p]
                    == #[trigger] copied_byte(
                    old_bytes,
                    mem.base as int,
                    regions@,
                    i + 1,
                    p,
                ) by {
                    assert(copied_byte(old_bytes, mem.base as int, regions@, i + 1, p)
                        == copied_byte(old_bytes, mem.base as int, regions@, i as int, p));
                }
            },
        }
        i += 1;
    }
}

/// Once the first `k` regions are copied, an offset inside the destination of
/// region `j < k` holds that region's byte, provided destinations do not overlap.
pub proof fn lemma_copied_byte_in_region(
    old: Seq<u8>,
    base: int,
    regions: Seq<ContentRegion>,
    k: int,
    j: int,
    p: int,
)
    requires
        regions_disjoint(regions),
        0 <= j < k <= regions.len(),
        regions[j].content is Some,
        range_contains(regions[j].phys_addr_range, base + p),
    ensures
        copied_byte(old, base, regions, k, p) == regions[j].content->Some_0@[base + p
            - regions[j].phys_addr_range.start],
    decreases k,
{
    if k - 1 != j {
        assert(!ranges_intersect(regions[k - 1].phys_addr_range, regions[j].phys_addr_range));
        lemma_copied_byte_in_region(old, base, regions, k - 1, j, p);
    }
}

/// An offset outside every destination that receives bytes keeps its old value.
pub proof fn lemma_copied_byte_outside(
    old: Seq<u8>,
    base: int,
    regions: Seq<ContentRegion>,
    k: int,
    p: int,
)
    requires
        0 <= k <= regions.len(),
        !covered(base, regions, p),
    ensures
        copied_byte(old, base, regions, k, p) == old[p],
    decreases k,
{
    if k > 0 {
        if regions[k - 1].content is Some {
            assert(!range_contains(regions[k - 1].phys_addr_range, base + p));
        }
        lemma_copied_byte_outside(old, base, regions, k - 1, p);
    }
}

/// Copy fidelity: after `copy_payload_data`, every destination that receives
/// bytes holds exactly its region's bytes, and every other byte of the window
/// is unchanged.
pub proof fn lemma_copy_fidelity(old: Seq<u8>, base: u64, regions: Seq<ContentRegion>)
    requires
        regions_disjoint(regions),
        copyable(base, old.len(), regions),
    ensures
        forall|j: int, a: int|
            0 <= j < regions.len() && (#[trigger] regions[j]).content is Some && range_contains(
                regions[j].phys_addr_range,
                a,
            ) ==> #[trigger] copied_byte(old, base as int, regions, regions.len() as int, a - base)
                == regions[j].content->Some_0@[a - regions[j].phys_addr_range.start],
        forall|p: int|
            0 <= p < old.len() && !covered(base as int, regions, p) ==> #[trigger] copied_byte(
                old,
                base as int,
                regions,
                regions.len() as int,
                p,
            ) == old[p],
{
    assert forall|j: int, a: int|
        0 <= j < regions.len() && (#[trigger] regions[j]).content is Some && range_contains(
            regions[j].phys_addr_range,
            a,
        ) implies #[trigger] copied_byte(old, base as int, regions, regions.len() as int, a - base)
        == regions[j].content->Some_0@[a - regions[j].phys_addr_range.start] by {
        lemma_copied_byte_in_region(old, base as int, regions, regions.len() as int, j, a - base);
    }
    assert forall|p: int| 0 <= p < old.len() && !covered(base as int, regions, p) implies #[trigger] copied_byte(
        old,
        base as int,
        regions,
        regions.len() as int,
        p,
    ) == old[p] by {
        lemma_copied_byte_outside(old, base as int, regions, regions.len() as int, p);
    }
}

} // verus!
