use kernel::paging::{
    EntryFlags, Frame, Page, PhysicalAddress, VirtualAddress, NO_EXECUTE, PAGE_SIZE, PRESENT,
    WRITABLE,
};

#[test]
fn addresses_keep_their_number() {
    assert_eq!(PhysicalAddress::new(0xE_0000).get(), 0xE_0000);
    assert_eq!(VirtualAddress::new(0xF_FFFF).get(), 0xF_FFFF);
    assert_eq!(PhysicalAddress::new(7), PhysicalAddress { address: 7 });
}

#[test]
fn frame_of_an_address() {
    assert_eq!(PAGE_SIZE, 4096);
    assert_eq!(Frame::containing_address(PhysicalAddress::new(0)).number(), 0);
    assert_eq!(Frame::containing_address(PhysicalAddress::new(4095)).number(), 0);
    assert_eq!(Frame::containing_address(PhysicalAddress::new(4096)).number(), 1);
    assert_eq!(Frame::containing_address(PhysicalAddress::new(0xF_FFFF)).number(), 0xFF);
    let top = Frame::containing_address(PhysicalAddress::new(usize::MAX));
    assert_eq!(top.start_address().get(), usize::MAX - 4095);
}

#[test]
fn page_of_an_address() {
    let page = Page::containing_address(VirtualAddress::new(0xE_1234));
    assert_eq!(page.number(), 0xE1);
    assert_eq!(page.start_address().get(), 0xE_1000);
}

#[test]
fn frames_of_a_range() {
    let start = Frame::containing_address(PhysicalAddress::new(0x3000));
    let end = Frame::containing_address(PhysicalAddress::new(0x5FFF));
    let frames = Frame::range_inclusive(start, end);
    let numbers: Vec<usize> = frames.iter().map(|frame| frame.number()).collect();
    assert_eq!(numbers, vec![3, 4, 5]);
    assert_eq!(Frame::range_inclusive(start, start).len(), 1);
    assert!(Frame::range_inclusive(end, start).is_empty());
}

#[test]
fn flags_join_and_contain() {
    let flags = EntryFlags::from_bits(PRESENT).union(EntryFlags::from_bits(NO_EXECUTE));
    assert_eq!(flags.bits(), 0x8000_0000_0000_0001);
    assert!(flags.contains(EntryFlags::from_bits(PRESENT)));
    assert!(flags.contains(EntryFlags::from_bits(NO_EXECUTE)));
    assert!(!flags.contains(EntryFlags::from_bits(WRITABLE)));
    assert!(flags.contains(EntryFlags::from_bits(0)));
    assert_eq!(flags, EntryFlags { bits: PRESENT | NO_EXECUTE });
}
