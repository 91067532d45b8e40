use std::sync::Arc;

use vfio_dma_mapping::dma_mapping::{
    map_request, map_result, prepare_map, unmap_request, unmap_result, DmaMappingError,
    DmaOperation, DmaRequest, VfioDmaMapping,
};
use vfio_dma_mapping::memory::resolve;
use vm_memory::{GuestAddress, GuestMemoryBackend, GuestMemoryMmap};

#[derive(Debug, Clone, PartialEq, Eq)]
struct FakeContainer {
    id: u32,
}

#[derive(Debug, Clone, PartialEq, Eq)]
enum ContainerError {
    Busy,
    NotMapped(u64),
}

fn memory(ranges: &[(u64, usize)]) -> Arc<GuestMemoryMmap> {
    let ranges: Vec<(GuestAddress, usize)> =
        ranges.iter().map(|&(base, len)| (GuestAddress(base), len)).collect();
    Arc::new(GuestMemoryMmap::<()>::from_ranges(&ranges).unwrap())
}

fn host_of(mem: &GuestMemoryMmap, gpa: u64) -> u64 {
    mem.get_host_address(GuestAddress(gpa)).unwrap() as u64
}

#[test]
fn backed_range_is_forwarded_with_its_host_address() {
    let mem = memory(&[(0x2000, 0x1000)]);
    let host = host_of(&mem, 0x2000);
    let request = prepare_map::<ContainerError>(&mem, 0x1000, 0x2000, 0x1000);
    assert_eq!(
        request,
        Ok(DmaRequest::MapDma { iova: 0x1000, size: 0x1000, host_addr: host })
    );
    assert_eq!(map_result::<ContainerError>(0x1000, 0x2000, 0x1000, Ok(())), Ok(()));
}

#[test]
fn unbacked_address_fails_translation() {
    let mem = memory(&[(0x2000, 0x1000)]);
    let request = prepare_map::<ContainerError>(&mem, 0x1000, 0x9000, 0x1000);
    assert_eq!(
        request,
        Err(DmaMappingError::AddressTranslationFailure { gpa: 0x9000, size: 0x1000 })
    );
}

#[test]
fn range_running_off_the_region_end_fails_translation() {
    let mem = memory(&[(0x2000, 0x1000)]);
    let request = prepare_map::<ContainerError>(&mem, 0x1000, 0x2800, 0x1000);
    assert_eq!(
        request,
        Err(DmaMappingError::AddressTranslationFailure { gpa: 0x2800, size: 0x1000 })
    );
}

#[test]
fn range_inside_a_region_is_offset_from_its_host_base() {
    let mem = memory(&[(0x2000, 0x1000)]);
    let base = host_of(&mem, 0x2000);
    let request = prepare_map::<ContainerError>(&mem, 0x5000, 0x2400, 0x100);
    assert_eq!(
        request,
        Ok(DmaRequest::MapDma { iova: 0x5000, size: 0x100, host_addr: base + 0x400 })
    );
}

#[test]
fn range_spanning_two_adjacent_regions_fails_translation() {
    let mem = memory(&[(0x2000, 0x1000), (0x3000, 0x1000)]);
    let request = prepare_map::<ContainerError>(&mem, 0x1000, 0x2800, 0x1000);
    assert_eq!(
        request,
        Err(DmaMappingError::AddressTranslationFailure { gpa: 0x2800, size: 0x1000 })
    );
    let second = host_of(&mem, 0x3000);
    assert_eq!(
        prepare_map::<ContainerError>(&mem, 0x1000, 0x3000, 0x1000),
        Ok(DmaRequest::MapDma { iova: 0x1000, size: 0x1000, host_addr: second })
    );
}

#[test]
fn whole_region_and_last_byte_are_backed() {
    let mem = memory(&[(0x2000, 0x1000)]);
    let base = host_of(&mem, 0x2000);
    assert_eq!(resolve(&mem, 0x2000, 0x1000), Some(base));
    assert_eq!(resolve(&mem, 0x2fff, 1), Some(base + 0xfff));
    assert_eq!(resolve(&mem, 0x2fff, 2), None);
    assert_eq!(resolve(&mem, 0x1fff, 1), None);
}

#[test]
fn zero_size_is_backed_only_inside_a_region() {
    let mem = memory(&[(0x2000, 0x1000)]);
    let base = host_of(&mem, 0x2000);
    assert_eq!(resolve(&mem, 0x2800, 0), Some(base + 0x800));
    assert_eq!(resolve(&mem, 0x3000, 0), None);
}

#[test]
fn huge_range_at_the_top_of_the_address_space_fails_translation() {
    let mem = memory(&[(0x2000, 0x1000)]);
    assert_eq!(
        prepare_map::<ContainerError>(&mem, 0, u64::MAX, u64::MAX),
        Err(DmaMappingError::AddressTranslationFailure { gpa: u64::MAX, size: u64::MAX })
    );
    assert_eq!(
        prepare_map::<ContainerError>(&mem, 0, 0x2000, u64::MAX),
        Err(DmaMappingError::AddressTranslationFailure { gpa: 0x2000, size: u64::MAX })
    );
}

#[test]
fn map_request_follows_the_translation() {
    assert_eq!(
        map_request::<ContainerError>(0x1000, 0x2000, 0x1000, Some(0x7f0000)),
        Ok(DmaRequest::MapDma { iova: 0x1000, size: 0x1000, host_addr: 0x7f0000 })
    );
    assert_eq!(
        map_request::<ContainerError>(0x1000, 0x9000, 0x1000, None),
        Err(DmaMappingError::AddressTranslationFailure { gpa: 0x9000, size: 0x1000 })
    );
}

#[test]
fn container_map_failure_keeps_its_cause() {
    assert_eq!(
        map_result(0x1000, 0x2000, 0x1000, Err(ContainerError::Busy)),
        Err(DmaMappingError::ContainerOperationFailure {
            operation: DmaOperation::MapDma,
            iova: 0x1000,
            gpa: Some(0x2000),
            size: 0x1000,
            cause: ContainerError::Busy,
        })
    );
}

#[test]
fn unmap_goes_to_the_container_unchanged() {
    assert_eq!(
        unmap_request(0x1000, 0x2000),
        DmaRequest::UnmapDma { iova: 0x1000, size: 0x2000 }
    );
    assert_eq!(unmap_result::<ContainerError>(0x1000, 0x2000, Ok(())), Ok(()));
    assert_eq!(
        unmap_result(0x1000, 0x2000, Err(ContainerError::NotMapped(0x1000))),
        Err(DmaMappingError::ContainerOperationFailure {
            operation: DmaOperation::UnmapDma,
            iova: 0x1000,
            gpa: None,
            size: 0x2000,
            cause: ContainerError::NotMapped(0x1000),
        })
    );
}

#[test]
fn second_unmap_result_is_whatever_the_container_says() {
    let first = unmap_result::<ContainerError>(0x1000, 0x1000, Ok(()));
    let second = unmap_result(0x1000, 0x1000, Err(ContainerError::NotMapped(0x1000)));
    assert_eq!(first, Ok(()));
    assert!(matches!(
        second,
        Err(DmaMappingError::ContainerOperationFailure {
            operation: DmaOperation::UnmapDma,
            cause: ContainerError::NotMapped(0x1000),
            ..
        })
    ));
    let again = unmap_result::<ContainerError>(0x1000, 0x1000, Ok(()));
    assert_eq!(again, Ok(()));
}

#[test]
fn map_follows_memory_added_after_the_adapter_was_made() {
    let before = memory(&[(0x2000, 0x1000)]);
    let after = memory(&[(0x2000, 0x1000), (0x9000, 0x1000)]);
    let provider = Arc::new(Arc::clone(&before));
    let dma = VfioDmaMapping::new(Arc::new(FakeContainer { id: 1 }), provider);
    let current: &GuestMemoryMmap = dma.memory().as_ref();
    assert_eq!(
        prepare_map::<ContainerError>(current, 0x1000, 0x9000, 0x1000),
        Err(DmaMappingError::AddressTranslationFailure { gpa: 0x9000, size: 0x1000 })
    );
    let host = host_of(&after, 0x9000);
    assert_eq!(
        prepare_map::<ContainerError>(&after, 0x1000, 0x9000, 0x1000),
        Ok(DmaRequest::MapDma { iova: 0x1000, size: 0x1000, host_addr: host })
    );
}

#[test]
fn adapter_keeps_its_container_and_memory() {
    let container = Arc::new(FakeContainer { id: 3 });
    let mem = memory(&[(0x0, 0x1000)]);
    let dma = VfioDmaMapping::new(container.clone(), mem.clone());
    assert_eq!(dma.container().id, 3);
    assert!(Arc::ptr_eq(dma.container(), &container));
    assert!(Arc::ptr_eq(dma.memory(), &mem));
}
