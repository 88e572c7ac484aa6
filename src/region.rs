use vstd::prelude::*;

verus! {

/// A half-open physical address range `[start, end)`.
#[derive(Clone, Copy, Debug, PartialEq, Eq, Structural)]
pub struct AddrRange {
    pub start: u64,
    pub end: u64,
}

/// Number of addresses in a half-open range; a range whose end lies below
/// its start is empty.
pub open spec fn range_len(r: AddrRange) -> nat {
    if r.start <= r.end {
        (r.end - r.start) as nat
    } else {
        0
    }
}

/// Whether address `a` lies in the range.
pub open spec fn range_contains(r: AddrRange, a: int) -> bool {
    r.start <= a && a < r.end
}

/// Whether two half-open ranges share at least one address.
pub open spec fn ranges_intersect(a: AddrRange, b: AddrRange) -> bool {
    a.start < a.end && b.start < b.end && a.start < b.end && b.start < a.end
}

impl AddrRange {
    pub fn new(start: u64, end: u64) -> (r: AddrRange)
        ensures
            r.start == start,
            r.end == end,
    {
        AddrRange { start, end }
    }

    /// Number of addresses in the range.
    pub fn len(&self) -> (r: u64)
        ensures
            r as nat == range_len(*self),
    {
        if self.start <= self.end {
            self.end - self.start
        } else {
            0
        }
    }

    /// Whether the range holds address `a`.
    pub fn contains(&self, a: u64) -> (r: bool)
        ensures
            r == range_contains(*self, a as int),
    {
        self.start <= a && a < self.end
    }

    /// Whether this range and `other` share at least one address.
    pub fn intersects(&self, other: &AddrRange) -> (r: bool)
        ensures
            r == ranges_intersect(*self, *other),
    {
        self.start < self.end && other.start < other.end && self.start < other.end
            && other.start < self.end
    }
}

/// One entry of the payload: a physical destination range and, unless the
/// range is only reserved, the bytes to place there.
#[derive(Clone, Debug)]
pub struct ContentRegion {
    pub phys_addr_range: AddrRange,
    pub content: Option<Vec<u8>>,
}

impl ContentRegion {
    /// A region whose destination receives `bytes`.
    pub fn with_content(phys_addr_range: AddrRange, bytes: Vec<u8>) -> (r: ContentRegion)
        ensures
            r.phys_addr_range == phys_addr_range,
            r.content == Some(bytes),
    {
        ContentRegion { phys_addr_range, content: Some(bytes) }
    }

    /// A region that is reserved and receives no bytes.
    pub fn reserved(phys_addr_range: AddrRange) -> (r: ContentRegion)
        ensures
            r.phys_addr_range == phys_addr_range,
            r.content is None,
    {
        ContentRegion { phys_addr_range, content: None }
    }

    /// Whether the region carries bytes to copy.
    pub fn has_content(&self) -> (r: bool)
        ensures
            r == self.content is Some,
    {
        self.content.is_some()
    }
}

/// Two regions' destinations do not overlap.
pub open spec fn regions_disjoint(regions: Seq<ContentRegion>) -> bool {
    forall|i: int, j: int|
        0 <= i < regions.len() && 0 <= j < regions.len() && i != j ==> !ranges_intersect(
            #[trigger] regions[i].phys_addr_range,
            #[trigger] regions[j].phys_addr_range,
        )
}

/// Checks that no two destination ranges overlap.
pub fn regions_pairwise_disjoint(regions: &Vec<ContentRegion>) -> (r: bool)
    ensures
        r == regions_disjoint(regions@),
{
    let n = regions.len();
    let mut i: usize = 0;
    while i < n
        invariant
            n == regions@.len(),
            i <= n,
            forall|a: int, b: int|
                0 <= a < i && 0 <= b < n && a != b ==> !ranges_intersect(
                    #[trigger] regions@[a].phys_addr_range,
                    #[trigger] regions@[b].phys_addr_range,
                ),
        decreases n - i,
    {
        let mut j: usize = 0;
        while j < n
            invariant
                n == regions@.len(),
                i < n,
                j <= n,
                forall|a: int, b: int|
                    0 <= a < i && 0 <= b < n && a != b ==> !ranges_intersect(
                        #[trigger] regions@[a].phys_addr_range,
                        #[trigger] regions@[b].phys_addr_range,
                    ),
                forall|b: int|
                    0 <= b < j && i != b ==> !ranges_intersect(
                        regions@[i as int].phys_addr_range,
                        #[trigger] regions@[b].phys_addr_range,
                    ),
            decreases n - j,
        {
            if i != j && regions[i].phys_addr_range.intersects(&regions[j].phys_addr_range) {
                return false;
            }
            j += 1;
        }
        i += 1;
    }
    true
}

} // verus!
