use kernel::acpi::rsdp::RSDP;
use kernel::acpi::search::{SEARCH_END, SEARCH_START};
use kernel::paging::{NO_EXECUTE, PRESENT, WRITABLE};

/// The 36 bytes of a root pointer with both checksums made right.
fn image(revision: u8, rsdt_address: u32, xsdt_address: u64) -> Vec<u8> {
    let mut bytes = vec![0u8; 36];
    bytes[..8].copy_from_slice(b"RSD PTR ");
    bytes[9..15].copy_from_slice(b"OEMKRN");
    bytes[15] = revision;
    bytes[16..20].copy_from_slice(&rsdt_address.to_le_bytes());
    bytes[20..24].copy_from_slice(&36u32.to_le_bytes());
    bytes[24..32].copy_from_slice(&xsdt_address.to_le_bytes());
    let first: u32 = bytes[..20].iter().map(|&b| b as u32).sum();
    bytes[8] = ((256 - first % 256) % 256) as u8;
    let all: u32 = bytes.iter().map(|&b| b as u32).sum();
    bytes[32] = ((256 - all % 256) % 256) as u8;
    bytes
}

/// One chunk of a supplied region: the length, then the content.
fn chunk(content: &[u8]) -> Vec<u8> {
    let mut bytes = (content.len() as u32).to_le_bytes().to_vec();
    bytes.extend_from_slice(content);
    bytes
}

/// A chunk whose content is `content` followed by as many zero bytes as
/// make the chunk `total` bytes long, its length included.
fn padded_chunk(content: &[u8], total: usize) -> Vec<u8> {
    let mut padded = content.to_vec();
    padded.resize(total - 4, 0);
    chunk(&padded)
}

fn instance(revision: u8, rsdt_address: u32, xsdt_address: u64) -> RSDP {
    RSDP {
        signature: *b"RSD PTR ",
        checksum: 0,
        oemid: *b"OEMKRN",
        revision,
        rsdt_address,
        length: 36,
        xsdt_address,
        extended_checksum: 0,
        reserved: [0; 3],
    }
}

#[test]
fn sdt_address_of_revision_0_is_the_rsdt() {
    let rsdp = instance(0, 0x7FE1_4000, 0x1_0000_2000);
    assert_eq!(rsdp.sdt_address(), 0x7FE1_4000);
}

#[test]
fn sdt_address_of_revision_1_is_the_rsdt() {
    let rsdp = instance(1, 0x1234, 0x5678);
    assert_eq!(rsdp.sdt_address(), 0x1234);
}

#[test]
fn sdt_address_of_revision_2_is_the_xsdt() {
    let rsdp = instance(2, 0x7FE1_4000, 0x1_0000_2000);
    assert_eq!(rsdp.sdt_address(), 0x1_0000_2000);
}

#[test]
fn sdt_address_of_a_later_revision_is_the_xsdt() {
    let rsdp = instance(3, 0x1234, 0xFFFF_FFFF_0000_0010);
    assert_eq!(rsdp.sdt_address(), 0xFFFF_FFFF_0000_0010);
}

#[test]
fn revisions_are_told_apart() {
    assert!(instance(0, 0, 0).is_acpi_1_0());
    assert!(!instance(0, 0, 0).is_acpi_2_0());
    assert!(instance(2, 0, 0).is_acpi_2_0());
    assert!(!instance(2, 0, 0).is_acpi_1_0());
    assert!(!instance(1, 0, 0).is_acpi_1_0());
    assert!(!instance(1, 0, 0).is_acpi_2_0());
    assert!(!instance(3, 0, 0).is_acpi_2_0());
}

#[test]
fn search_decodes_every_field() {
    let mut window = vec![0u8; 64];
    let mut bytes = image(2, 0x0403_0201, 0x0807_0605_0403_0201);
    bytes[33] = 0xAA;
    bytes[34] = 0xBB;
    bytes[35] = 0xCC;
    let all: u32 = bytes.iter().map(|&b| b as u32).sum::<u32>() - bytes[32] as u32;
    bytes[32] = ((256 - all % 256) % 256) as u8;
    window[16..52].copy_from_slice(&bytes);
    let rsdp = RSDP::get_rsdp_by_searching(&window).unwrap();
    assert_eq!(rsdp.signature, *b"RSD PTR ");
    assert_eq!(rsdp.checksum, bytes[8]);
    assert_eq!(rsdp.oemid, *b"OEMKRN");
    assert_eq!(rsdp.revision, 2);
    assert_eq!(rsdp.rsdt_address, 0x0403_0201);
    assert_eq!(rsdp.length, 36);
    assert_eq!(rsdp.xsdt_address, 0x0807_0605_0403_0201);
    assert_eq!(rsdp.extended_checksum, bytes[32]);
    assert_eq!(rsdp.reserved, [0xAA, 0xBB, 0xCC]);
}

#[test]
fn search_reads_addresses_little_endian() {
    let mut bytes = vec![0u8; 36];
    bytes[..8].copy_from_slice(b"RSD PTR ");
    bytes[16] = 0x78;
    bytes[17] = 0x56;
    bytes[18] = 0x34;
    bytes[19] = 0x12;
    let first: u32 = bytes[..20].iter().map(|&b| b as u32).sum();
    bytes[8] = ((256 - first % 256) % 256) as u8;
    let rsdp = RSDP::get_rsdp_by_searching(&bytes).unwrap();
    assert_eq!(rsdp.revision, 0);
    assert_eq!(rsdp.rsdt_address, 0x1234_5678);
    assert_eq!(rsdp.sdt_address(), 0x1234_5678);
}

#[test]
fn search_of_a_window_without_signature_finds_nothing() {
    let window = vec![0x5Au8; 0x2_0000];
    assert!(RSDP::get_rsdp_by_searching(&window).is_none());
    let mut counting = vec![0u8; 4096];
    for (i, byte) in counting.iter_mut().enumerate() {
        *byte = (i % 251) as u8;
    }
    assert!(RSDP::get_rsdp_by_searching(&counting).is_none());
}

#[test]
fn search_of_an_empty_window_finds_nothing() {
    assert!(RSDP::get_rsdp_by_searching(&[]).is_none());
}

#[test]
fn search_finds_the_structure_at_the_start() {
    let window = image(0, 0xDEAD_BEE0, 0);
    let rsdp = RSDP::get_rsdp_by_searching(&window).unwrap();
    assert_eq!(rsdp.rsdt_address, 0xDEAD_BEE0);
}

#[test]
fn search_finds_the_structure_at_the_end() {
    let mut window = vec![0u8; 16 * 5 + 36];
    window[80..].copy_from_slice(&image(2, 1, 0xABCD_EF01_2345));
    let rsdp = RSDP::get_rsdp_by_searching(&window).unwrap();
    assert_eq!(rsdp.sdt_address(), 0xABCD_EF01_2345);
}

#[test]
fn search_passes_over_a_structure_between_steps() {
    let mut window = vec![0u8; 128];
    window[8..44].copy_from_slice(&image(2, 1, 2));
    assert!(RSDP::get_rsdp_by_searching(&window).is_none());
}

#[test]
fn search_passes_over_a_structure_that_is_cut_off() {
    let mut window = vec![0u8; 16 + 35];
    window[16..].copy_from_slice(&image(0, 7, 0)[..35]);
    assert!(RSDP::get_rsdp_by_searching(&window).is_none());
}

#[test]
fn search_returns_the_first_of_two() {
    let mut window = vec![0u8; 256];
    window[48..84].copy_from_slice(&image(0, 0x1111, 0));
    window[96..132].copy_from_slice(&image(2, 0x2222, 0x3333));
    let rsdp = RSDP::get_rsdp_by_searching(&window).unwrap();
    assert_eq!(rsdp.revision, 0);
    assert_eq!(rsdp.rsdt_address, 0x1111);
}

#[test]
fn search_skips_a_bad_checksum_and_goes_on() {
    let mut window = vec![0u8; 256];
    let mut corrupt = image(0, 0x1111, 0);
    corrupt[8] = corrupt[8].wrapping_add(1);
    window[48..84].copy_from_slice(&corrupt);
    window[96..132].copy_from_slice(&image(0, 0x2222, 0));
    let rsdp = RSDP::get_rsdp_by_searching(&window).unwrap();
    assert_eq!(rsdp.rsdt_address, 0x2222);
}

#[test]
fn search_skips_a_bad_extended_checksum() {
    let mut window = vec![0u8; 64];
    let mut corrupt = image(2, 0x1111, 0x2222);
    corrupt[32] = corrupt[32].wrapping_add(1);
    window[..36].copy_from_slice(&corrupt);
    assert!(RSDP::get_rsdp_by_searching(&window).is_none());
}

#[test]
fn search_ignores_the_extended_checksum_of_revision_0() {
    let mut window = image(0, 0x1111, 0);
    window[32] = window[32].wrapping_add(1);
    let rsdp = RSDP::get_rsdp_by_searching(&window).unwrap();
    assert_eq!(rsdp.rsdt_address, 0x1111);
}

#[test]
fn search_takes_any_revision_that_passes() {
    let window = image(1, 0x1111, 0x2222);
    let rsdp = RSDP::get_rsdp_by_searching(&window).unwrap();
    assert_eq!(rsdp.revision, 1);
    assert_eq!(rsdp.sdt_address(), 0x1111);
}

#[test]
fn supplied_region_prefers_revision_2() {
    let mut area = padded_chunk(&image(0, 0x1000, 0), 40);
    area.extend(padded_chunk(&image(2, 0x2000, 0x3000), 40));
    let rsdp = RSDP::get_already_supplied_rsdps(4, &area).unwrap();
    assert_eq!(rsdp.revision, 2);
    assert_eq!(rsdp.sdt_address(), 0x3000);
}

#[test]
fn supplied_region_prefers_revision_2_when_it_comes_first() {
    let mut area = padded_chunk(&image(2, 0x2000, 0x3000), 40);
    area.extend(padded_chunk(&image(0, 0x1000, 0), 40));
    let rsdp = RSDP::get_already_supplied_rsdps(4, &area).unwrap();
    assert_eq!(rsdp.revision, 2);
    assert_eq!(rsdp.xsdt_address, 0x3000);
}

#[test]
fn supplied_region_falls_back_to_revision_0() {
    let mut area = padded_chunk(&[1, 2, 3], 16);
    area.extend(padded_chunk(&image(0, 0x1000, 0), 40));
    area.extend(padded_chunk(&image(0, 0x2000, 0), 40));
    let rsdp = RSDP::get_already_supplied_rsdps(4, &area).unwrap();
    assert_eq!(rsdp.revision, 0);
    assert_eq!(rsdp.sdt_address(), 0x1000);
}

#[test]
fn supplied_region_returns_the_first_of_a_revision() {
    let mut area = padded_chunk(&image(2, 0, 0xA000), 40);
    area.extend(padded_chunk(&image(2, 0, 0xB000), 40));
    let rsdp = RSDP::get_already_supplied_rsdps(4, &area).unwrap();
    assert_eq!(rsdp.xsdt_address, 0xA000);
}

#[test]
fn supplied_region_never_returns_a_bad_checksum() {
    let mut corrupt = image(2, 0x2000, 0x3000);
    corrupt[8] = corrupt[8].wrapping_add(1);
    corrupt[32] = corrupt[32].wrapping_sub(1);
    let area = padded_chunk(&corrupt, 40);
    assert!(RSDP::get_already_supplied_rsdps(4, &area).is_none());

    let mut with_fallback = padded_chunk(&corrupt, 40);
    with_fallback.extend(padded_chunk(&image(0, 0x1000, 0), 40));
    let rsdp = RSDP::get_already_supplied_rsdps(4, &with_fallback).unwrap();
    assert_eq!(rsdp.revision, 0);
    assert_eq!(rsdp.rsdt_address, 0x1000);
}

#[test]
fn supplied_region_skips_a_corrupt_revision_2_for_a_later_one() {
    let mut corrupt = image(2, 0, 0xA000);
    corrupt[8] = corrupt[8].wrapping_add(3);
    let mut area = padded_chunk(&corrupt, 40);
    area.extend(padded_chunk(&image(2, 0, 0xB000), 40));
    let rsdp = RSDP::get_already_supplied_rsdps(4, &area).unwrap();
    assert_eq!(rsdp.xsdt_address, 0xB000);
}

#[test]
fn supplied_region_wants_the_signature() {
    let mut unsigned = image(2, 0x2000, 0x3000);
    unsigned[0] = b'X';
    unsigned[8] = unsigned[8].wrapping_add(b'R').wrapping_sub(b'X');
    unsigned[32] = unsigned[32];
    let area = padded_chunk(&unsigned, 40);
    assert!(RSDP::get_already_supplied_rsdps(4, &area).is_none());
}

#[test]
fn supplied_region_skips_what_is_not_aligned() {
    let area = padded_chunk(&image(2, 0x2000, 0x3000), 40);
    assert!(RSDP::get_already_supplied_rsdps(0, &area).is_none());
    assert!(RSDP::get_already_supplied_rsdps(5, &area).is_none());
    assert!(RSDP::get_already_supplied_rsdps(4, &area).is_some());
    assert!(RSDP::get_already_supplied_rsdps(0x7_FFFC, &area).is_some());
    assert!(RSDP::get_already_supplied_rsdps(u64::MAX - 3, &area).is_some());
}

#[test]
fn supplied_region_skips_a_chunk_that_is_too_short() {
    let mut area = chunk(&image(2, 0x2000, 0x3000)[..28]);
    assert!(RSDP::get_already_supplied_rsdps(4, &area).is_none());
    area.extend(padded_chunk(&image(0, 0x1000, 0), 40));
    let rsdp = RSDP::get_already_supplied_rsdps(4, &area).unwrap();
    assert_eq!(rsdp.revision, 0);
    let mut short_by_one = chunk(&image(2, 0x2000, 0x3000)[..35]);
    short_by_one.push(0);
    assert!(RSDP::get_already_supplied_rsdps(4, &short_by_one).is_none());
}

#[test]
fn supplied_region_stops_at_a_chunk_that_runs_over() {
    let mut area = padded_chunk(&[0; 4], 8);
    let whole = chunk(&image(2, 0x2000, 0x3000));
    area.extend_from_slice(&whole[..whole.len() - 1]);
    assert!(RSDP::get_already_supplied_rsdps(4, &area).is_none());
    area.push(whole[whole.len() - 1]);
    assert!(RSDP::get_already_supplied_rsdps(4, &area).is_some());
}

#[test]
fn supplied_region_stops_where_no_length_fits() {
    assert!(RSDP::get_already_supplied_rsdps(4, &[]).is_none());
    assert!(RSDP::get_already_supplied_rsdps(4, &[36, 0, 0]).is_none());
    let mut area = padded_chunk(&image(0, 0x1000, 0), 40);
    area.extend_from_slice(&[1, 2, 3]);
    assert!(RSDP::get_already_supplied_rsdps(4, &area).is_some());
}

#[test]
fn supplied_region_reads_lengths_little_endian() {
    let mut area = vec![0x04, 0x01, 0x00, 0x00];
    area.extend(vec![0u8; 0x104]);
    area.extend(chunk(&image(2, 0, 0xC000)));
    let rsdp = RSDP::get_already_supplied_rsdps(4, &area).unwrap();
    assert_eq!(rsdp.xsdt_address, 0xC000);
}

#[test]
fn supplied_region_ignores_other_revisions() {
    let mut area = padded_chunk(&image(1, 0x1000, 0x2000), 40);
    area.extend(padded_chunk(&image(3, 0x1000, 0x2000), 40));
    assert!(RSDP::get_already_supplied_rsdps(4, &area).is_none());
}

#[test]
fn get_rsdp_uses_the_supplied_region_where_there_is_one() {
    let window = image(0, 0x1111, 0);
    let area = padded_chunk(&image(2, 0, 0x2222), 40);
    let rsdp = RSDP::get_rsdp(&window, Some((4, &area))).unwrap();
    assert_eq!(rsdp.sdt_address(), 0x2222);
    let empty: [u8; 0] = [];
    assert!(RSDP::get_rsdp(&window, Some((4, &empty))).is_none());
}

#[test]
fn get_rsdp_searches_where_nothing_was_supplied() {
    let window = image(0, 0x1111, 0);
    let rsdp = RSDP::get_rsdp(&window, None).unwrap();
    assert_eq!(rsdp.sdt_address(), 0x1111);
    assert!(RSDP::get_rsdp(&[0u8; 64], None).is_none());
}

#[test]
fn search_mappings_cover_the_range_page_by_page() {
    let mappings = RSDP::search_mappings();
    assert_eq!(mappings.len(), 32);
    for (i, mapping) in mappings.iter().enumerate() {
        assert_eq!(mapping.frame.number(), 0xE0 + i);
        assert_eq!(mapping.page.number(), 0xE0 + i);
        assert_eq!(mapping.frame.start_address().get(), SEARCH_START + i * 4096);
        assert_eq!(mapping.page.start_address().get(), SEARCH_START + i * 4096);
        assert_eq!(mapping.flags.bits(), PRESENT | NO_EXECUTE);
        assert_eq!(mapping.flags.bits() & WRITABLE, 0);
    }
    let last = mappings[31].frame.start_address().get() + 4095;
    assert_eq!(last, SEARCH_END);
}

#[test]
fn from_bytes_reads_what_may_be_trusted() {
    let mut bytes = vec![0xEEu8; 3];
    bytes.extend(image(2, 0x1000, 0x2000));
    bytes.push(0xEE);
    let rsdp = RSDP::from_bytes(&bytes, 3).unwrap();
    assert_eq!(rsdp.revision, 2);
    assert_eq!(rsdp.rsdt_address, 0x1000);
    assert_eq!(rsdp.xsdt_address, 0x2000);
    assert_eq!(rsdp.length, 36);
    assert!(RSDP::from_bytes(&bytes, 0).is_none());
    assert!(RSDP::from_bytes(&bytes, 4).is_none());
}

#[test]
fn from_bytes_wants_36_bytes() {
    let bytes = image(0, 0x1000, 0);
    assert!(RSDP::from_bytes(&bytes, 0).is_some());
    assert!(RSDP::from_bytes(&bytes[..35], 0).is_none());
    assert!(RSDP::from_bytes(&bytes, 1).is_none());
    assert!(RSDP::from_bytes(&bytes, 36).is_none());
    assert!(RSDP::from_bytes(&bytes, 37).is_none());
    assert!(RSDP::from_bytes(&bytes, usize::MAX).is_none());
    assert!(RSDP::from_bytes(&[], 0).is_none());
}

#[test]
fn from_bytes_checks_the_sum_of_the_first_20_bytes() {
    for at in 0..20 {
        let mut bytes = image(0, 0x1000, 0);
        bytes[at] = bytes[at].wrapping_add(1);
        assert!(RSDP::from_bytes(&bytes, 0).is_none());
    }
    for at in 20..36 {
        let mut bytes = image(0, 0x1000, 0);
        bytes[at] = bytes[at].wrapping_add(1);
        assert!(RSDP::from_bytes(&bytes, 0).is_some());
    }
}

#[test]
fn from_bytes_checks_the_sum_of_all_bytes_from_revision_2_on() {
    for revision in [2u8, 3, 255] {
        for at in 20..36 {
            let mut bytes = image(revision, 0x1000, 0x2000);
            assert!(RSDP::from_bytes(&bytes, 0).is_some());
            bytes[at] = bytes[at].wrapping_add(1);
            assert!(RSDP::from_bytes(&bytes, 0).is_none());
        }
    }
}
