use vstd::prelude::*;

use crate::boot::BootSystem;
use crate::copy::{copy_payload_data, copied_byte, within_window, PhysMemory};
use crate::region::{regions_disjoint, regions_pairwise_disjoint, AddrRange, ContentRegion};
use crate::sanity::{check_from, payload_sane, sanity_check, SanityError};
use crate::protocol::CoreStage;
use crate::translation::{
    mapping_error, mapping_inputs_valid, tables_for, MappingError, TranslationStructures,
};

verus! {

/// Why the primary core gives up the boot.
#[derive(Clone, Copy, Debug, PartialEq, Eq, Structural)]
pub enum BootError {
    /// The payload failed the sanity check.
    Sanity(SanityError),
    /// Two destination ranges overlap.
    OverlappingRegions,
    /// A region with bytes lies outside the memory the loader can write.
    OutsideMemory,
    /// The translation structures cannot be built.
    Mapping(MappingError),
    /// There must be at least one core.
    NoCores,
}

/// Every region that carries bytes has its destination inside the window.
pub open spec fn fits_window(base: u64, len: nat, regions: Seq<ContentRegion>) -> bool {
    forall|i: int|
        0 <= i < regions.len() && (#[trigger] regions[i]).content is Some ==> within_window(
            base,
            len,
            regions[i].phys_addr_range,
        )
}

/// Checks that every region that carries bytes lies inside the window.
pub fn regions_fit_window(mem: &PhysMemory, regions: &Vec<ContentRegion>) -> (r: bool)
    ensures
        r == fits_window(mem.base, mem.bytes@.len(), regions@),
{
    let len = mem.bytes.len() as u128;
    let n = regions.len();
    let mut i: usize = 0;
    while i < n
        invariant
            n == regions@.len(),
            i <= n,
            len == mem.bytes@.len(),
            len <= usize::MAX,
            forall|j: int|
                0 <= j < i && (#[trigger] regions@[j]).content is Some ==> within_window(
                    mem.base,
                    mem.bytes@.len(),
                    regions@[j].phys_addr_range,
                ),
        decreases n - i,
    {
        let range: AddrRange = regions[i].phys_addr_range;
        if regions[i].content.is_some() {
            if range.start < mem.base || (range.end as u128) > (mem.base as u128) + len {
                return false;
            }
        }
        i += 1;
    }
    true
}

/// The error `prepare_payload` reports: the sanity check's first, then
/// overlapping destinations, then destinations outside the window.
pub open spec fn prepare_error(
    footprint: AddrRange,
    base: u64,
    len: nat,
    regions: Seq<ContentRegion>,
) -> bool {
    !payload_sane(footprint, regions) || !regions_disjoint(regions) || !fits_window(
        base,
        len,
        regions,
    )
}

/// What `prepare_payload` returns: the sanity check's first fault, then
/// overlapping destinations, then destinations outside the window.
pub open spec fn prepare_spec(
    footprint: AddrRange,
    base: u64,
    len: nat,
    regions: Seq<ContentRegion>,
) -> Result<(), BootError> {
    match check_from(footprint, regions, 0) {
        Err(e) => Err(BootError::Sanity(e)),
        Ok(()) => if !regions_disjoint(regions) {
            Err(BootError::OverlappingRegions)
        } else if !fits_window(base, len, regions) {
            Err(BootError::OutsideMemory)
        } else {
            Ok(())
        },
    }
}

/// Checks the payload and, only if every check passes, copies it into memory.
/// On any failure memory is left exactly as it was.
pub fn prepare_payload(
    mem: &mut PhysMemory,
    own_footprint: &AddrRange,
    regions: &Vec<ContentRegion>,
) -> (r: Result<(), BootError>)
    ensures
        r == prepare_spec(*own_footprint, old(mem).base, old(mem).bytes@.len(), regions@),
        r is Ok <==> !prepare_error(*own_footprint, old(mem).base, old(mem).bytes@.len(), regions@),
        r is Err ==> *final(mem) == *old(mem),
        r is Ok ==> final(mem).base == old(mem).base && final(mem).bytes@.len() == old(
            mem,
        ).bytes@.len() && forall|p: int|
            0 <= p < old(mem).bytes@.len() ==> #[trigger] final(mem).bytes@[p] == copied_byte(
                old(mem).bytes@,
                old(mem).base as int,
                regions@,
                regions@.len() as int,
                p,
            ),
{
    match sanity_check(own_footprint, regions) {
        Ok(()) => {},
        Err(e) => {
            return Err(BootError::Sanity(e));
        },
    }
    if !regions_pairwise_disjoint(regions) {
        return Err(BootError::OverlappingRegions);
    }
    if !regions_fit_window(mem, regions) {
        return Err(BootError::OutsideMemory);
    }
    copy_payload_data(mem, regions);
    Ok(())
}

/// The primary core's work before the cores meet: check and copy the payload,
/// build the translation structures for the kernel image, and set up the
/// machine with the primary running and every secondary still offline. Nothing
/// is copied unless the core count and every payload check pass.
pub fn boot_primary(
    mem: &mut PhysMemory,
    own_footprint: &AddrRange,
    regions: &Vec<ContentRegion>,
    kernel_phys_start: u64,
    kernel_virt_start: u64,
    num_nodes: usize,
) -> (r: Result<BootSystem, BootError>)
    ensures
        r is Ok <==> num_nodes >= 1 && !prepare_error(
            *own_footprint,
            old(mem).base,
            old(mem).bytes@.len(),
            regions@,
        ) && mapping_inputs_valid(kernel_phys_start, kernel_virt_start),
        num_nodes == 0 ==> r == Err::<BootSystem, BootError>(BootError::NoCores) && *final(mem)
            == *old(mem),
        num_nodes >= 1 && prepare_error(
            *own_footprint,
            old(mem).base,
            old(mem).bytes@.len(),
            regions@,
        ) ==> *final(mem) == *old(mem) && r == Err::<BootSystem, BootError>(
            prepare_spec(*own_footprint, old(mem).base, old(mem).bytes@.len(), regions@)->Err_0,
        ),
        num_nodes >= 1 && !prepare_error(
            *own_footprint,
            old(mem).base,
            old(mem).bytes@.len(),
            regions@,
        ) ==> final(mem).base == old(mem).base && final(mem).bytes@.len() == old(
            mem,
        ).bytes@.len() && (forall|p: int|
            0 <= p < old(mem).bytes@.len() ==> #[trigger] final(mem).bytes@[p] == copied_byte(
                old(mem).bytes@,
                old(mem).base as int,
                regions@,
                regions@.len() as int,
                p,
            )) && (!mapping_inputs_valid(kernel_phys_start, kernel_virt_start) ==> r == Err::<
            BootSystem,
            BootError,
        >(BootError::Mapping(mapping_error(kernel_phys_start, kernel_virt_start)))),
        r matches Ok(sys) ==> {
            &&& sys.wf()
            &&& sys@.tables == tables_for(kernel_phys_start, kernel_virt_start)
            &&& sys@.barrier.capacity == num_nodes
            &&& sys@.barrier.arrived == Set::<nat>::empty()
            &&& sys@.stages.len() == num_nodes
            &&& sys@.stages[0] == CoreStage::Init
            &&& forall|i: int| 1 <= i < num_nodes ==> #[trigger] sys@.stages[i] == CoreStage::Offline
            &&& sys@.log.len() == 0
            &&& sys@.handoffs.len() == 0
        },
{
    if num_nodes == 0 {
        return Err(BootError::NoCores);
    }
    match prepare_payload(mem, own_footprint, regions) {
        Ok(()) => {},
        Err(e) => {
            return Err(e);
        },
    }
    match TranslationStructures::build(kernel_phys_start, kernel_virt_start) {
        Ok(tables) => Ok(BootSystem::new(num_nodes, tables)),
        Err(e) => Err(BootError::Mapping(e)),
    }
}

} // verus!
