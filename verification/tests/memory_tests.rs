use emos::services::memory_service::{
    allocate_memory, deallocate_memory, get_memory_info, list_memory_regions, MemoryError,
    MemoryPermissions, MemoryRegion, MemoryService, REGION_BASE,
};

#[test]
fn memory_regions_get_increasing_ids_and_addresses() {
    let mut service = MemoryService::new();
    assert_eq!(service.allocate_region(1024, MemoryPermissions::ReadWrite), Ok(1));
    assert_eq!(service.allocate_region(4096, MemoryPermissions::ReadOnly), Ok(2));
    assert_eq!(service.allocate_region(16, MemoryPermissions::Execute), Ok(3));
    let first = service.get_region_info(1).unwrap();
    assert_eq!(
        *first,
        MemoryRegion {
            id: 1,
            start_addr: 0x1000_0000 + 1024,
            size: 1024,
            permissions: MemoryPermissions::ReadWrite,
            is_allocated: true,
        }
    );
    assert_eq!(service.get_region_info(2).unwrap().start_addr, 0x1000_0000 + 2 * 4096);
    assert_eq!(service.get_region_info(3).unwrap().start_addr, REGION_BASE + 3 * 16);
    assert!(service.get_region_info(4).is_none());
}

#[test]
fn memory_empty_region_is_refused() {
    let mut service = MemoryService::new();
    assert_eq!(
        service.allocate_region(0, MemoryPermissions::ReadWrite),
        Err(MemoryError::InvalidAddress)
    );
    // The id was not used up.
    assert_eq!(service.allocate_region(8, MemoryPermissions::ReadWrite), Ok(1));
}

#[test]
fn memory_region_start_is_made_canonical() {
    let mut service = MemoryService::new();
    // Region 1 starts at 2^47: bit 47 set, nothing above it.
    let size = 0x8000_0000_0000usize - 0x1000_0000;
    assert_eq!(service.allocate_region(size, MemoryPermissions::ReadWrite), Ok(1));
    assert_eq!(service.get_region_info(1).unwrap().start_addr, 0xFFFF_8000_0000_0000);
    assert!(service.is_address_valid(0xFFFF_8000_0000_0000));
    assert!(service.is_address_valid(0xFFFF_8000_0000_0000 + size as u64 - 1));
    assert!(!service.is_address_valid(0xFFFF_8000_0000_0000 + size as u64));
    assert!(!service.is_address_valid(0x8000_0000_0000));
}

#[test]
fn memory_region_outside_the_address_space_is_refused() {
    let mut service = MemoryService::new();
    // Region 1 would start at 2^48.
    let size = 0x1_0000_0000_0000usize - 0x1000_0000;
    assert_eq!(
        service.allocate_region(size, MemoryPermissions::ReadWrite),
        Err(MemoryError::OutOfMemory)
    );
    assert_eq!(
        service.allocate_region(usize::MAX, MemoryPermissions::ReadWrite),
        Err(MemoryError::OutOfMemory)
    );
    assert!(service.list_regions().is_empty());
    assert_eq!(service.allocate_region(8, MemoryPermissions::ReadWrite), Ok(1));
}

#[test]
fn memory_region_without_an_end_is_allocated() {
    let mut service = MemoryService::new();
    // Region 1 starts at 0xFFFF_8000_0800_0000 and would end behind the last address.
    let size = 0x7FFF_F800_0000usize;
    assert_eq!(service.allocate_region(size, MemoryPermissions::ReadWrite), Ok(1));
    let region = service.get_region_info(1).unwrap();
    assert_eq!(region.start_addr, 0xFFFF_8000_0800_0000);
    assert_eq!(region.size, size);
    // It has no end, so no address counts as lying in it.
    assert!(!service.is_address_valid(0xFFFF_8000_0800_0000));
    assert_eq!(service.get_total_allocated(), size);
}

#[test]
fn memory_region_of_half_the_address_space_is_allocated() {
    let mut service = MemoryService::new();
    let size = 0x8000_0000_0000usize;
    assert_eq!(service.allocate_region(size, MemoryPermissions::ReadWrite), Ok(1));
    assert_eq!(service.get_region_info(1).unwrap().start_addr, 0xFFFF_8000_1000_0000);
    assert_eq!(service.allocate_region(16, MemoryPermissions::ReadOnly), Ok(2));
    assert_eq!(service.list_regions().len(), 2);
}

#[test]
fn memory_region_may_reach_into_the_upper_half() {
    let mut service = MemoryService::new();
    let size = 0x4000_0000_0000usize;
    assert_eq!(service.allocate_region(size, MemoryPermissions::ReadWrite), Ok(1));
    assert_eq!(service.get_region_info(1).unwrap().start_addr, 0x4000_1000_0000);
    assert!(service.is_address_valid(0x4000_1000_0000));
    assert!(service.is_address_valid(0x7FFF_FFFF_FFFF));
    assert!(service.is_address_valid(0xFFFF_8000_0000_0000));
    assert!(service.is_address_valid(0xFFFF_8000_0FFF_FFFF));
    assert!(!service.is_address_valid(0xFFFF_8000_1000_0000));
    assert!(!service.is_address_valid(0x4000_0FFF_FFFF));
}

#[test]
fn memory_deallocate_removes_the_region() {
    let mut service = MemoryService::new();
    let id = service.allocate_region(64, MemoryPermissions::ReadWrite).unwrap();
    assert_eq!(service.deallocate_region(id), Ok(()));
    assert!(service.get_region_info(id).is_none());
    assert_eq!(service.deallocate_region(id), Err(MemoryError::RegionNotFound));
    assert_eq!(service.deallocate_region(99), Err(MemoryError::RegionNotFound));
    // Ids are not reused.
    assert_eq!(service.allocate_region(64, MemoryPermissions::ReadWrite), Ok(2));
}

#[test]
fn memory_map_region_needs_an_existing_region() {
    let mut service = MemoryService::new();
    let id = service.allocate_region(64, MemoryPermissions::ReadWrite).unwrap();
    assert_eq!(service.map_region(id, 0x20_0000), Ok(()));
    assert_eq!(service.map_region(id + 1, 0x20_0000), Err(MemoryError::RegionNotFound));
    assert_eq!(service.get_region_info(id).unwrap().size, 64);
}

#[test]
fn memory_lists_regions_in_id_order() {
    let mut service = MemoryService::new();
    service.allocate_region(10, MemoryPermissions::ReadOnly).unwrap();
    service.allocate_region(20, MemoryPermissions::ReadWrite).unwrap();
    service.allocate_region(30, MemoryPermissions::ReadWriteExecute).unwrap();
    service.deallocate_region(2).unwrap();
    let listing = service.list_regions();
    assert_eq!(listing.len(), 2);
    assert_eq!(listing[0].id, 1);
    assert_eq!(listing[0].size, 10);
    assert_eq!(listing[1].id, 3);
    assert_eq!(listing[1].permissions, MemoryPermissions::ReadWriteExecute);
}

#[test]
fn memory_address_validity() {
    let mut service = MemoryService::new();
    assert!(!service.is_address_valid(0x1000_0000));
    service.allocate_region(0x1000, MemoryPermissions::ReadWrite).unwrap();
    service.allocate_region(0x100, MemoryPermissions::ReadWrite).unwrap();
    // Region 1: [0x1000_1000, 0x1000_2000); region 2: [0x1000_0200, 0x1000_0300).
    assert!(!service.is_address_valid(0x1000_0000));
    assert!(!service.is_address_valid(0x1000_0FFF));
    assert!(service.is_address_valid(0x1000_1000));
    assert!(service.is_address_valid(0x1000_1FFF));
    assert!(!service.is_address_valid(0x1000_2000));
    assert!(service.is_address_valid(0x1000_0200));
    assert!(service.is_address_valid(0x1000_02FF));
    assert!(!service.is_address_valid(0x1000_0300));
    service.deallocate_region(1).unwrap();
    assert!(!service.is_address_valid(0x1000_1000));
    assert!(service.is_address_valid(0x1000_0200));
}

#[test]
fn memory_total_allocated_adds_up_the_sizes() {
    let mut service = MemoryService::new();
    assert_eq!(service.get_total_allocated(), 0);
    service.allocate_region(100, MemoryPermissions::ReadWrite).unwrap();
    service.allocate_region(250, MemoryPermissions::ReadWrite).unwrap();
    service.allocate_region(7, MemoryPermissions::ReadWrite).unwrap();
    assert_eq!(service.get_total_allocated(), 357);
    service.deallocate_region(2).unwrap();
    assert_eq!(service.get_total_allocated(), 107);
}

#[test]
fn memory_functions_work_on_the_given_service() {
    let mut service = MemoryService::new();
    assert_eq!(allocate_memory(&mut service, 1024, MemoryPermissions::ReadWrite), Ok(1));
    assert_eq!(allocate_memory(&mut service, 2048, MemoryPermissions::Execute), Ok(2));
    let info = get_memory_info(&service, 2).unwrap();
    assert_eq!(info.size, 2048);
    assert_eq!(info.permissions, MemoryPermissions::Execute);
    assert_eq!(info.start_addr, 0x1000_0000 + 2 * 2048);
    assert!(info.is_allocated);
    assert!(get_memory_info(&service, 3).is_none());
    let listing = list_memory_regions(&service);
    assert_eq!(listing.len(), 2);
    assert_eq!(listing[0].id, 1);
    assert_eq!(listing[1].id, 2);
    assert_eq!(deallocate_memory(&mut service, 1), Ok(()));
    assert_eq!(deallocate_memory(&mut service, 1), Err(MemoryError::RegionNotFound));
    assert_eq!(list_memory_regions(&service).len(), 1);
}
