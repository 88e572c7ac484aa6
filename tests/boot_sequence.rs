use loader_core::barrier::{KernelEntryBarrier, WaitOutcome};
use loader_core::boot::{secondary_start_requests, BootSystem, LogKind, LogLine, StartRequest};
use loader_core::copy::{copy_payload_data, PhysMemory};
use loader_core::loader::{boot_primary, prepare_payload, regions_fit_window, BootError};
use loader_core::protocol::{core_step, on_kernel_return, CoreAction, CoreStage};
use loader_core::region::{regions_pairwise_disjoint, AddrRange, ContentRegion};
use loader_core::sanity::{sanity_check, SanityError};
use loader_core::translation::{
    MappingError, TranslationStructures, BLOCK_SIZE, UPPER_HALF_BASE, WINDOW_SIZE,
};

const KERNEL_PHYS: u64 = 0x4000_0000;
const KERNEL_VIRT: u64 = 0xffff_ff80_4000_0000;

fn memory(base: u64, len: usize) -> PhysMemory {
    PhysMemory { base, bytes: vec![0xAA; len] }
}

fn sample_regions() -> Vec<ContentRegion> {
    vec![
        ContentRegion::with_content(AddrRange::new(0x3000, 0x3004), vec![1, 2, 3, 4]),
        ContentRegion::reserved(AddrRange::new(0x3004, 0x3008)),
        ContentRegion::with_content(AddrRange::new(0x3010, 0x3013), vec![7, 8, 9]),
    ]
}

fn footprint() -> AddrRange {
    AddrRange::new(0x1000, 0x2000)
}

fn booted(num_nodes: usize) -> BootSystem {
    let mut mem = memory(0x3000, 0x20);
    boot_primary(&mut mem, &footprint(), &sample_regions(), KERNEL_PHYS, KERNEL_VIRT, num_nodes)
        .unwrap()
}

fn run_until_blocked_or_done(sys: &mut BootSystem, id: usize) {
    for _ in 0..8 {
        sys.advance(id);
    }
}

#[test]
fn range_helpers() {
    let r = AddrRange::new(0x1000, 0x2000);
    assert_eq!(r.len(), 0x1000);
    assert!(r.contains(0x1fff));
    assert!(!r.contains(0x2000));
    assert_eq!(AddrRange::new(5, 3).len(), 0);
    assert!(r.intersects(&AddrRange::new(0x1800, 0x2800)));
    assert!(!r.intersects(&AddrRange::new(0x2000, 0x2800)));
    assert!(!r.intersects(&AddrRange::new(0x1800, 0x1800)));
}

#[test]
fn sanity_accepts_clear_payload() {
    assert_eq!(sanity_check(&footprint(), &sample_regions()), Ok(()));
}

#[test]
fn sanity_rejects_region_overlapping_footprint() {
    let regions = vec![
        ContentRegion::reserved(AddrRange::new(0x3000, 0x4000)),
        ContentRegion::with_content(AddrRange::new(0x1800, 0x2800), vec![0; 0x1000]),
    ];
    assert_eq!(
        sanity_check(&footprint(), &regions),
        Err(SanityError::OverlapsFootprint { index: 1 })
    );
}

#[test]
fn sanity_rejects_length_mismatch() {
    let regions = vec![ContentRegion::with_content(AddrRange::new(0x3000, 0x3004), vec![1, 2, 3])];
    assert_eq!(
        sanity_check(&footprint(), &regions),
        Err(SanityError::LengthMismatch { index: 0 })
    );
}

#[test]
fn sanity_reports_first_fault() {
    let regions = vec![
        ContentRegion::with_content(AddrRange::new(0x3000, 0x3004), vec![1]),
        ContentRegion::reserved(AddrRange::new(0x0, 0x1001)),
    ];
    assert_eq!(
        sanity_check(&footprint(), &regions),
        Err(SanityError::LengthMismatch { index: 0 })
    );
}

#[test]
fn overlapping_region_is_rejected_before_any_copy() {
    let mut mem = memory(0x1000, 0x2000);
    let regions = vec![
        ContentRegion::with_content(AddrRange::new(0x2800, 0x2802), vec![5, 6]),
        ContentRegion::with_content(AddrRange::new(0x1800, 0x2800), vec![1; 0x1000]),
    ];
    let r = boot_primary(&mut mem, &footprint(), &regions, KERNEL_PHYS, KERNEL_VIRT, 1);
    assert_eq!(
        r.err(),
        Some(BootError::Sanity(SanityError::OverlapsFootprint { index: 1 }))
    );
    assert!(mem.bytes.iter().all(|b| *b == 0xAA));
}

#[test]
fn length_mismatch_is_rejected_with_no_writes() {
    let mut mem = memory(0x3000, 0x20);
    let regions = vec![
        ContentRegion::with_content(AddrRange::new(0x3000, 0x3002), vec![5, 6]),
        ContentRegion::with_content(AddrRange::new(0x3004, 0x3008), vec![1, 2, 3]),
    ];
    assert_eq!(
        prepare_payload(&mut mem, &footprint(), &regions),
        Err(BootError::Sanity(SanityError::LengthMismatch { index: 1 }))
    );
    assert!(mem.bytes.iter().all(|b| *b == 0xAA));
}

#[test]
fn copy_places_bytes_verbatim() {
    let mut mem = memory(0x3000, 0x20);
    copy_payload_data(&mut mem, &sample_regions());
    assert_eq!(&mem.bytes[0..4], &[1, 2, 3, 4]);
    assert_eq!(&mem.bytes[4..8], &[0xAA; 4]);
    assert_eq!(&mem.bytes[0x10..0x13], &[7, 8, 9]);
    assert_eq!(mem.bytes[0x13], 0xAA);
    assert_eq!(mem.bytes.len(), 0x20);
}

#[test]
fn prepare_copies_when_checks_pass() {
    let mut mem = memory(0x3000, 0x20);
    assert_eq!(prepare_payload(&mut mem, &footprint(), &sample_regions()), Ok(()));
    assert_eq!(&mem.bytes[0..4], &[1, 2, 3, 4]);
    assert_eq!(&mem.bytes[0x10..0x13], &[7, 8, 9]);
}

#[test]
fn prepare_rejects_overlapping_destinations() {
    let mut mem = memory(0x3000, 0x20);
    let regions = vec![
        ContentRegion::with_content(AddrRange::new(0x3000, 0x3004), vec![1, 2, 3, 4]),
        ContentRegion::with_content(AddrRange::new(0x3002, 0x3004), vec![5, 6]),
    ];
    assert!(!regions_pairwise_disjoint(&regions));
    assert_eq!(
        prepare_payload(&mut mem, &footprint(), &regions),
        Err(BootError::OverlappingRegions)
    );
    assert!(mem.bytes.iter().all(|b| *b == 0xAA));
}

#[test]
fn prepare_rejects_destination_outside_memory() {
    let mut mem = memory(0x3000, 0x20);
    let regions = vec![ContentRegion::with_content(AddrRange::new(0x301e, 0x3022), vec![1, 2, 3, 4])];
    assert!(!regions_fit_window(&mem, &regions));
    assert_eq!(
        prepare_payload(&mut mem, &footprint(), &regions),
        Err(BootError::OutsideMemory)
    );
    assert!(mem.bytes.iter().all(|b| *b == 0xAA));
}

#[test]
fn tables_map_identity_and_kernel() {
    let t = TranslationStructures::build(KERNEL_PHYS, KERNEL_VIRT).unwrap();
    assert_eq!(t.kernel_window(), 511);
    assert_eq!(t.identity_entry(0), Some(0));
    assert_eq!(t.identity_entry(3), Some(3 * BLOCK_SIZE));
    assert_eq!(t.kernel_entry(0), None);
    assert_eq!(t.kernel_entry(1), Some(KERNEL_PHYS));
    assert_eq!(t.kernel_entry(2), Some(KERNEL_PHYS + BLOCK_SIZE));
    assert_eq!(t.translate(0x1234_5678), Some(0x1234_5678));
    assert_eq!(t.translate(KERNEL_VIRT + 0x123), Some(KERNEL_PHYS + 0x123));
    assert_eq!(t.translate(KERNEL_VIRT - 1), None);
    assert_eq!(t.translate(WINDOW_SIZE), None);
    assert_eq!(t.translate(UPPER_HALF_BASE), None);
}

#[test]
fn tables_reject_bad_inputs() {
    assert_eq!(
        TranslationStructures::build(KERNEL_PHYS + 0x1000, KERNEL_VIRT).err(),
        Some(MappingError::Misaligned)
    );
    assert_eq!(
        TranslationStructures::build(KERNEL_PHYS, KERNEL_VIRT + 0x20_0000).err(),
        Some(MappingError::Misaligned)
    );
    assert_eq!(
        TranslationStructures::build(KERNEL_PHYS, 0x4000_0000).err(),
        Some(MappingError::VirtOutOfReach)
    );
    assert_eq!(
        TranslationStructures::build(0x1_0000_0000_0000, KERNEL_VIRT).err(),
        Some(MappingError::PhysOutOfReach)
    );
}

#[test]
fn boot_primary_reports_mapping_error_and_core_count() {
    let mut mem = memory(0x3000, 0x20);
    assert_eq!(
        boot_primary(&mut mem, &footprint(), &sample_regions(), KERNEL_PHYS, 0x4000_0000, 2).err(),
        Some(BootError::Mapping(MappingError::VirtOutOfReach))
    );
    let mut mem = memory(0x3000, 0x20);
    assert_eq!(
        boot_primary(&mut mem, &footprint(), &sample_regions(), KERNEL_PHYS, KERNEL_VIRT, 0).err(),
        Some(BootError::NoCores)
    );
    assert!(mem.bytes.iter().all(|b| *b == 0xAA));
}

#[test]
fn start_requests_name_each_secondary() {
    assert_eq!(
        secondary_start_requests(4, 0x8_0000),
        vec![
            StartRequest { core_id: 1, entry_point: 0x8_0000 },
            StartRequest { core_id: 2, entry_point: 0x8_0000 },
            StartRequest { core_id: 3, entry_point: 0x8_0000 },
        ]
    );
    assert!(secondary_start_requests(1, 0x8_0000).is_empty());
}

#[test]
fn barrier_releases_only_on_last_arrival() {
    let mut b = KernelEntryBarrier::new(4);
    assert_eq!(b.capacity(), 4);
    assert_eq!(b.wait(2), WaitOutcome::Blocked);
    assert_eq!(b.wait(0), WaitOutcome::Blocked);
    assert_eq!(b.wait(3), WaitOutcome::Blocked);
    assert!(!b.is_released());
    assert_eq!(b.arrivals(), 3);
    assert!(!b.has_arrived(1));
    assert_eq!(b.wait(1), WaitOutcome::ReleasedAll);
    assert!(b.is_released());
    assert!(b.has_arrived(1));
}

#[test]
fn single_core_barrier_releases_at_once() {
    let mut b = KernelEntryBarrier::new(1);
    assert_eq!(b.wait(0), WaitOutcome::ReleasedAll);
}

#[test]
fn core_steps_follow_the_sequence() {
    assert_eq!(core_step(CoreStage::Offline), (CoreStage::Offline, CoreAction::Nothing));
    assert_eq!(core_step(CoreStage::Init), (CoreStage::AtBarrier, CoreAction::InitPlatformState));
    assert_eq!(core_step(CoreStage::AtBarrier), (CoreStage::Released, CoreAction::WaitAtBarrier));
    assert_eq!(core_step(CoreStage::Released), (CoreStage::Handoff, CoreAction::LogEntering));
    assert_eq!(core_step(CoreStage::Handoff), (CoreStage::InKernel, CoreAction::EnterKernel));
    assert_eq!(core_step(CoreStage::InKernel), (CoreStage::InKernel, CoreAction::Nothing));
    assert_eq!(on_kernel_return(CoreStage::InKernel), CoreStage::Failed);
    assert_eq!(on_kernel_return(CoreStage::AtBarrier), CoreStage::AtBarrier);
}

#[test]
fn idle_path_writes_once_then_spins() {
    let mut stage = CoreStage::Failed;
    let mut writes = 0;
    for i in 0..100 {
        let (next, action) = core_step(stage);
        if matches!(action, CoreAction::LogEntering | CoreAction::LogFailed) {
            writes += 1;
        }
        if i > 0 {
            assert_eq!(action, CoreAction::WaitForEvent);
        }
        stage = next;
    }
    assert_eq!(writes, 1);
    assert_eq!(stage, CoreStage::Idle);
}

#[test]
fn failed_handoff_logs_and_parks() {
    let mut sys = booted(1);
    run_until_blocked_or_done(&mut sys, 0);
    sys.kernel_returned(0);
    assert_eq!(sys.stage(0), CoreStage::Failed);
    assert_eq!(sys.advance(0), CoreAction::LogFailed);
    for _ in 0..10 {
        assert_eq!(sys.advance(0), CoreAction::WaitForEvent);
    }
    assert_eq!(
        sys.log().clone(),
        vec![
            LogLine { core: 0, kind: LogKind::Entering },
            LogLine { core: 0, kind: LogKind::FailedToEnter },
        ]
    );
    assert_eq!(sys.stage(0), CoreStage::Idle);
}

#[test]
fn single_core_boot_hands_off_core_zero() {
    let mut sys = booted(1);
    assert_eq!(sys.num_nodes(), 1);
    assert_eq!(sys.advance(0), CoreAction::InitPlatformState);
    assert_eq!(sys.advance(0), CoreAction::WaitAtBarrier);
    assert!(sys.is_released());
    assert_eq!(sys.stage(0), CoreStage::Released);
    assert_eq!(sys.advance(0), CoreAction::LogEntering);
    assert_eq!(sys.advance(0), CoreAction::EnterKernel);
    assert_eq!(sys.handoffs().clone(), vec![0]);
    assert_eq!(sys.stage(0), CoreStage::InKernel);
}

#[test]
fn four_cores_all_enter_kernel() {
    let mut sys = booted(4);
    let before: Vec<Option<u64>> = (0..512).map(|i| sys.tables().kernel_entry(i)).collect();
    for req in secondary_start_requests(4, 0x8_0000) {
        sys.core_started(req.core_id);
    }
    for id in 0..4 {
        sys.advance(id);
        sys.advance(id);
    }
    assert!(sys.is_released());
    for id in 0..4 {
        run_until_blocked_or_done(&mut sys, id);
    }
    let entering: Vec<usize> = sys
        .log()
        .iter()
        .filter(|l| l.kind == LogKind::Entering)
        .map(|l| l.core)
        .collect();
    assert_eq!(entering, vec![0, 1, 2, 3]);
    assert!(sys.log().iter().all(|l| l.kind != LogKind::FailedToEnter));
    assert_eq!(sys.handoffs().clone(), vec![0, 1, 2, 3]);
    let after: Vec<Option<u64>> = (0..512).map(|i| sys.tables().kernel_entry(i)).collect();
    assert_eq!(before, after);
    assert_eq!(sys.tables().translate(KERNEL_VIRT + 8), Some(KERNEL_PHYS + 8));
}

#[test]
fn only_last_arrival_releases_the_cores() {
    let mut sys = booted(4);
    for id in 1..4 {
        sys.core_started(id);
    }
    for id in [3, 0, 2] {
        sys.advance(id);
        sys.advance(id);
        assert!(!sys.is_released());
        assert_eq!(sys.stage(id), CoreStage::AtBarrier);
    }
    sys.advance(1);
    sys.advance(1);
    assert!(sys.is_released());
    assert_eq!(sys.stage(1), CoreStage::Released);
    for id in [3, 0, 2] {
        sys.advance(id);
        assert_eq!(sys.stage(id), CoreStage::Released);
    }
}

#[test]
fn missing_core_hangs_everyone_at_barrier() {
    let mut sys = booted(4);
    sys.core_started(1);
    sys.core_started(3);
    for _ in 0..20 {
        for id in 0..4 {
            sys.advance(id);
        }
    }
    assert!(!sys.is_released());
    assert!(sys.log().is_empty());
    assert!(sys.handoffs().is_empty());
    assert_eq!(sys.stage(0), CoreStage::AtBarrier);
    assert_eq!(sys.stage(1), CoreStage::AtBarrier);
    assert_eq!(sys.stage(2), CoreStage::Offline);
    assert_eq!(sys.stage(3), CoreStage::AtBarrier);
}
