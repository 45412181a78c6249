use vmm_mmio::bus::{Bus, BusError};

#[test]
fn overlap_protection() {
    let mut bus: Bus<u32> = Bus::new();
    assert!(bus.insert(1, 0xd000_0000, 0x1000).is_ok());
    assert_eq!(bus.insert(2, 0xd000_0000, 0x1000), Err(BusError::Overlap));
    assert_eq!(bus.insert(3, 0xd000_0fff, 0x10), Err(BusError::Overlap));
    assert_eq!(bus.insert(4, 0xcfff_f001, 0x1000), Err(BusError::Overlap));
    assert_eq!(bus.insert(5, 0xd000_0000, 0), Err(BusError::Overlap));
    assert_eq!(bus.count(), 1);
}

#[test]
fn lookup_by_contained_address() {
    let mut bus: Bus<u32> = Bus::new();
    assert!(bus.insert(7, 0x2000, 0x1000).is_ok());
    assert!(bus.insert(8, 0x1000, 0x400).is_ok());

    assert_eq!(bus.get(0x0fff), None);
    let (offset, idx) = bus.get(0x1003).unwrap();
    assert_eq!(offset, 3);
    assert_eq!(bus.entries[idx].device, 8);
    assert_eq!(bus.get(0x1400), None);
    let (offset, idx) = bus.get(0x2fff).unwrap();
    assert_eq!(offset, 0xfff);
    assert_eq!(bus.entries[idx].device, 7);
    assert_eq!(bus.get(0x3000), None);

    // entries sit sorted by base
    assert_eq!(bus.entries[0].base, 0x1000);
    assert_eq!(bus.entries[1].base, 0x2000);
}
