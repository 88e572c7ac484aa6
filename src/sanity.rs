use vstd::prelude::*;

use crate::region::{range_len, ranges_intersect, AddrRange, ContentRegion};

verus! {

/// Why a payload is refused before anything is copied.
#[derive(Clone, Copy, Debug, PartialEq, Eq, Structural)]
pub enum SanityError {
    /// The destination of region `index` overlaps the loader's own footprint.
    OverlapsFootprint { index: usize },
    /// Region `index` carries a number of bytes other than its destination's length.
    LengthMismatch { index: usize },
}

/// The destination of `r` stays clear of the footprint.
pub open spec fn clear_of_footprint(footprint: AddrRange, r: ContentRegion) -> bool {
    !ranges_intersect(footprint, r.phys_addr_range)
}

/// Bytes carried by `r`, if any, fill its destination exactly.
pub open spec fn length_matches(r: ContentRegion) -> bool {
    r.content is Some ==> r.content->Some_0@.len() == range_len(r.phys_addr_range)
}

/// A region that may be copied.
pub open spec fn region_sane(footprint: AddrRange, r: ContentRegion) -> bool {
    clear_of_footprint(footprint, r) && length_matches(r)
}

/// Every region of the payload may be copied.
pub open spec fn payload_sane(footprint: AddrRange, regions: Seq<ContentRegion>) -> bool {
    forall|i: int| 0 <= i < regions.len() ==> region_sane(footprint, #[trigger] regions[i])
}

/// The error reported for the first region that is not sane.
pub open spec fn first_fault(footprint: AddrRange, regions: Seq<ContentRegion>, i: int) -> SanityError {
    if !clear_of_footprint(footprint, regions[i]) {
        SanityError::OverlapsFootprint { index: i as usize }
    } else {
        SanityError::LengthMismatch { index: i as usize }
    }
}

/// `e` reports region `i`, the first region of the payload that is not sane.
pub open spec fn is_first_fault(footprint: AddrRange, regions: Seq<ContentRegion>, e: SanityError) -> bool {
    exists|i: int|
        0 <= i < regions.len() && (forall|j: int|
            0 <= j < i ==> region_sane(footprint, #[trigger] regions[j])) && !region_sane(
            footprint,
            regions[i],
        ) && e == first_fault(footprint, regions, i)
}

/// The result of checking regions `from..` in order: the first fault found,
/// or success.
pub open spec fn check_from(footprint: AddrRange, regions: Seq<ContentRegion>, from: int) -> Result<
    (),
    SanityError,
>
    decreases regions.len() - from,
{
    if from < 0 || from >= regions.len() {
        Ok(())
    } else if !clear_of_footprint(footprint, regions[from]) {
        Err(SanityError::OverlapsFootprint { index: from as usize })
    } else if !length_matches(regions[from]) {
        Err(SanityError::LengthMismatch { index: from as usize })
    } else {
        check_from(footprint, regions, from + 1)
    }
}

/// Checking from `from` succeeds exactly when every region from there on is sane.
pub proof fn lemma_check_from_ok(footprint: AddrRange, regions: Seq<ContentRegion>, from: int)
    requires
        0 <= from <= regions.len(),
    ensures
        check_from(footprint, regions, from) is Ok <==> forall|i: int|
            from <= i < regions.len() ==> region_sane(footprint, #[trigger] regions[i]),
    decreases regions.len() - from,
{
    if from < regions.len() {
        lemma_check_from_ok(footprint, regions, from + 1);
    }
}

/// Checks the payload against the loader's own footprint. Regions are examined
/// in order; the first that overlaps the footprint or whose bytes do not fill
/// its destination is reported.
pub fn sanity_check(own_footprint: &AddrRange, regions: &Vec<ContentRegion>) -> (r: Result<
    (),
    SanityError,
>)
    ensures
        r == check_from(*own_footprint, regions@, 0),
        r is Ok <==> payload_sane(*own_footprint, regions@),
        r matches Err(e) ==> is_first_fault(*own_footprint, regions@, e),
{
    let n = regions.len();
    let mut i: usize = 0;
    while i < n
        invariant
            n == regions@.len(),
            i <= n,
            forall|j: int| 0 <= j < i ==> region_sane(*own_footprint, #[trigger] regions@[j]),
            check_from(*own_footprint, regions@, 0) == check_from(*own_footprint, regions@, i as int),
        decreases n - i,
    {
        let region = &regions[i];
        if own_footprint.intersects(&region.phys_addr_range) {
            assert(first_fault(*own_footprint, regions@, i as int)
                == SanityError::OverlapsFootprint { index: i });
            proof {
                lemma_check_from_ok(*own_footprint, regions@, 0);
            }
            return Err(SanityError::OverlapsFootprint { index: i });
        }
        match &region.content {
            Some(bytes) => {
                if bytes.len() as u64 != region.phys_addr_range.len() {
                    assert(first_fault(*own_footprint, regions@, i as int)
                        == SanityError::LengthMismatch { index: i });
                    proof {
                        lemma_check_from_ok(*own_footprint, regions@, 0);
                    }
                    return Err(SanityError::LengthMismatch { index: i });
                }
            },
            None => {},
        }
        i += 1;
    }
    proof {
        lemma_check_from_ok(*own_footprint, regions@, 0);
    }
    Ok(())
}

} // verus!
