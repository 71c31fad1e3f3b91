use std::sync::Arc;

use address_space::AddressSpace;
use address_space::FlagBuilder;
use address_space::MapEntry;
use address_space::MapError;
use address_space::PAGE_SIZE;
use address_space::VADDR_MAX;

#[test]
fn map_entry_new_stores_fields() {
    let src = Arc::new(9u32);
    let e = MapEntry::new(src.clone(), 1, 2, 3 * PAGE_SIZE, FlagBuilder::read());
    assert!(Arc::ptr_eq(&e.source, &src));
    assert_eq!(e.offset, 1);
    assert_eq!(e.span, 2);
    assert_eq!(e.addr, 3 * PAGE_SIZE);
    assert_eq!(e.flags, FlagBuilder::read());
}

#[test]
fn new_space_is_empty_and_named() {
    let a = AddressSpace::<u32>::new("p0");
    assert_eq!(a.name(), "p0");
}

#[test]
fn first_mappings_skip_page_zero_and_guard() {
    // The first usable address is one page past the reserved page 0 plus
    // one leading guard page; the next mapping honours guard separation
    // even for a zero-span mapping.
    let mut a = AddressSpace::<u32>::new("p0");
    let a1 = a.add_mapping(Arc::new(1), 0, 1, FlagBuilder::read()).unwrap();
    assert_eq!(a1, 2 * PAGE_SIZE);
    let a2 = a.add_mapping(Arc::new(2), 0, 0, FlagBuilder::read()).unwrap();
    assert_eq!(a2, 4 * PAGE_SIZE);
    assert!(a2 >= 3 * PAGE_SIZE);
    assert!(a2 > a1);
    let a3 = a.add_mapping(Arc::new(3), 0, 0, FlagBuilder::read()).unwrap();
    assert_eq!(a3, 5 * PAGE_SIZE);
}

#[test]
fn add_then_lookup_returns_source_and_offset() {
    let mut a = AddressSpace::new("p");
    let src = Arc::new(7u32);
    let addr = a.add_mapping(src.clone(), 123, 10, FlagBuilder::read()).unwrap();
    let (got, offset) = a.get_source_for_addr(addr, FlagBuilder::read()).unwrap();
    assert!(Arc::ptr_eq(&got, &src));
    assert_eq!(*got, 7);
    assert_eq!(offset, 123);
}

#[test]
fn lookup_with_granted_subset_succeeds() {
    let mut a = AddressSpace::new("p");
    let src = Arc::new(7u32);
    let flags = FlagBuilder::read().and(FlagBuilder::execute());
    let addr = a.add_mapping(src.clone(), 0, 1, flags).unwrap();
    assert!(a.get_source_for_addr(addr, FlagBuilder::execute()).is_ok());
    assert!(a.get_source_for_addr(addr, FlagBuilder::read()).is_ok());
    assert!(a.get_source_for_addr(addr, flags).is_ok());
}

#[test]
fn lookup_beyond_granted_flags_is_denied() {
    let mut a = AddressSpace::new("p");
    let addr = a.add_mapping(Arc::new(7u32), 0, 1, FlagBuilder::read()).unwrap();
    assert_eq!(
        a.get_source_for_addr(addr, FlagBuilder::write()),
        Err(MapError::PermissionDenied)
    );
    assert_eq!(
        a.get_source_for_addr(addr, FlagBuilder::read().and(FlagBuilder::write())),
        Err(MapError::PermissionDenied)
    );
}

#[test]
fn lookup_unmapped_address_not_found() {
    let mut a = AddressSpace::new("p");
    let addr = a.add_mapping(Arc::new(7u32), 0, 8 * PAGE_SIZE, FlagBuilder::read()).unwrap();
    // Exact start-address match: an address inside the span but past its
    // start is not found.
    assert_eq!(
        a.get_source_for_addr(addr + 1, FlagBuilder::read()),
        Err(MapError::MappingNotFound)
    );
    assert_eq!(
        a.get_source_for_addr(99 * PAGE_SIZE, FlagBuilder::read()),
        Err(MapError::MappingNotFound)
    );
}

#[test]
fn remove_twice_fails_second_time() {
    let mut a = AddressSpace::new("p");
    let src = Arc::new(1u32);
    let addr = a.add_mapping(src.clone(), 0, 1, FlagBuilder::read()).unwrap();
    assert_eq!(a.remove_mapping(src.clone(), addr), Ok(()));
    assert_eq!(a.remove_mapping(src, addr), Err(MapError::MappingNotFound));
}

#[test]
fn remove_from_empty_space_not_found() {
    let mut a = AddressSpace::new("p");
    assert_eq!(
        a.remove_mapping(Arc::new(1u32), 2 * PAGE_SIZE),
        Err(MapError::MappingNotFound)
    );
}

#[test]
fn removal_frees_the_gap_for_reuse() {
    let mut a = AddressSpace::new("p");
    let a1 = a.add_mapping(Arc::new(1u32), 0, 1, FlagBuilder::read()).unwrap();
    let a2 = a.add_mapping(Arc::new(2u32), 0, 0, FlagBuilder::read()).unwrap();
    assert_eq!((a1, a2), (2 * PAGE_SIZE, 4 * PAGE_SIZE));
    assert_eq!(a.remove_mapping(Arc::new(0u32), a1), Ok(()));
    // The walk finds the freed gap before the surviving mapping at a2.
    let a3 = a.add_mapping(Arc::new(3u32), 0, 0, FlagBuilder::read()).unwrap();
    assert_eq!(a3, 2 * PAGE_SIZE);
}

#[test]
fn removing_one_mapping_keeps_shared_source_reachable() {
    let mut a = AddressSpace::new("p");
    let src = Arc::new(5u32);
    let a1 = a.add_mapping(src.clone(), 0, 1, FlagBuilder::read()).unwrap();
    let a2 = a.add_mapping(src.clone(), 64, 1, FlagBuilder::read()).unwrap();
    assert_eq!(a.remove_mapping(src.clone(), a1), Ok(()));
    let (got, offset) = a.get_source_for_addr(a2, FlagBuilder::read()).unwrap();
    assert!(Arc::ptr_eq(&got, &src));
    assert_eq!(offset, 64);
}

#[test]
fn out_of_space_leaves_space_unchanged() {
    let mut a = AddressSpace::new("p");
    assert_eq!(
        a.add_mapping(Arc::new(1u32), 0, VADDR_MAX, FlagBuilder::read()),
        Err(MapError::OutOfSpace)
    );
    // The failed call left the space untouched: the next allocation still
    // gets the first usable address.
    let a1 = a.add_mapping(Arc::new(2u32), 0, 1, FlagBuilder::read()).unwrap();
    assert_eq!(a1, 2 * PAGE_SIZE);
}

#[test]
fn largest_span_that_fits() {
    // Success needs the cursor (one page) plus the span plus two guard
    // pages to stay strictly below the ceiling.
    let mut a = AddressSpace::new("p");
    let too_big = VADDR_MAX - 3 * PAGE_SIZE;
    assert_eq!(
        a.add_mapping(Arc::new(1u32), 0, too_big, FlagBuilder::read()),
        Err(MapError::OutOfSpace)
    );
    let fits = VADDR_MAX - 3 * PAGE_SIZE - 1;
    assert_eq!(a.add_mapping(Arc::new(1u32), 0, fits, FlagBuilder::read()), Ok(2 * PAGE_SIZE));
}

#[test]
fn add_at_fixed_address_then_lookup() {
    let mut a = AddressSpace::new("p");
    let src = Arc::new(3u32);
    assert_eq!(
        a.add_mapping_at(src.clone(), 40, 10, 5 * PAGE_SIZE, FlagBuilder::read()),
        Ok(())
    );
    let (got, offset) = a.get_source_for_addr(5 * PAGE_SIZE, FlagBuilder::read()).unwrap();
    assert!(Arc::ptr_eq(&got, &src));
    assert_eq!(offset, 40);
}

#[test]
fn add_at_rejects_page_zero_and_ceiling() {
    let mut a = AddressSpace::<u32>::new("p");
    assert_eq!(
        a.add_mapping_at(Arc::new(1), 0, 1, 0, FlagBuilder::read()),
        Err(MapError::InsufficientSpaceAt)
    );
    assert_eq!(
        a.add_mapping_at(Arc::new(1), 0, 1, PAGE_SIZE / 2, FlagBuilder::read()),
        Err(MapError::InsufficientSpaceAt)
    );
    assert_eq!(
        a.add_mapping_at(Arc::new(1), 0, 100, VADDR_MAX - 10, FlagBuilder::read()),
        Err(MapError::InsufficientSpaceAt)
    );
}

#[test]
fn add_at_rejects_collision_with_next_mapping() {
    let mut a = AddressSpace::new("p");
    assert_eq!(
        a.add_mapping_at(Arc::new(1u32), 0, 0, 8 * PAGE_SIZE, FlagBuilder::read()),
        Ok(())
    );
    // start + span + two guard pages must end strictly before the next
    // mapping's start.
    assert_eq!(
        a.add_mapping_at(Arc::new(2u32), 0, 0, 6 * PAGE_SIZE, FlagBuilder::read()),
        Err(MapError::InsufficientSpaceAt)
    );
    assert_eq!(
        a.add_mapping_at(Arc::new(2u32), 0, 0, 5 * PAGE_SIZE, FlagBuilder::read()),
        Ok(())
    );
}

#[test]
fn add_at_rejects_crowding_earlier_mapping() {
    let mut a = AddressSpace::new("p");
    // Occupies [2 * PAGE_SIZE, 2 * PAGE_SIZE + 1).
    let a1 = a.add_mapping(Arc::new(1u32), 0, 1, FlagBuilder::read()).unwrap();
    assert_eq!(a1, 2 * PAGE_SIZE);
    // Starting at the previous mapping's start, inside it, or less than a
    // guard page past its end is refused.
    for start in [a1, a1 + 1, 3 * PAGE_SIZE] {
        assert_eq!(
            a.add_mapping_at(Arc::new(2u32), 0, 0, start, FlagBuilder::read()),
            Err(MapError::InsufficientSpaceAt)
        );
    }
    assert_eq!(
        a.add_mapping_at(Arc::new(2u32), 0, 0, 4 * PAGE_SIZE, FlagBuilder::read()),
        Ok(())
    );
}

#[test]
fn allocator_respects_fixed_mapping() {
    let mut a = AddressSpace::new("p");
    // Fixed mapping close to the bottom: the allocator's walk must step
    // past it and keep a guard page on each side.
    assert_eq!(
        a.add_mapping_at(Arc::new(1u32), 0, 0, 2 * PAGE_SIZE, FlagBuilder::read()),
        Ok(())
    );
    let a2 = a.add_mapping(Arc::new(2u32), 0, 0, FlagBuilder::read()).unwrap();
    assert_eq!(a2, 3 * PAGE_SIZE);
}
