//! Tables, search areas and searches over a buffer that stands for physical memory.

use std::cell::RefCell;
use std::rc::Rc;

use rsdp::areas::{
    find_search_areas, search_areas, EBDA_START_SEGMENT_PTR, RSDP_BIOS_AREA_END,
    RSDP_BIOS_AREA_START,
};
use rsdp::error::RsdpError;
use rsdp::handler::{AcpiHandler, MappedRegion};
use rsdp::search::find_rsdp;
use rsdp::table::{
    Rsdp, RSDP_LENGTH, RSDP_V1_LENGTH, RSDP_V2_EXT_LENGTH, RSDP_XCHECKSUM_LENGTH,
};

/// Build a 36-byte RSDP with both checksums valid.
fn make_rsdp(revision: u8, rsdt_addr: u32, xsdt_addr: u64, length: u32) -> [u8; 36] {
    let mut b = [0u8; 36];
    b[0..8].copy_from_slice(b"RSD PTR ");
    b[9..15].copy_from_slice(b"TEST01");
    b[15] = revision;
    b[16..20].copy_from_slice(&rsdt_addr.to_le_bytes());
    b[20..24].copy_from_slice(&length.to_le_bytes());
    b[24..32].copy_from_slice(&xsdt_addr.to_le_bytes());
    fix_checksums(&mut b);
    b
}

fn fix_checksums(b: &mut [u8; 36]) {
    // Standard 20-byte checksum
    b[8] = 0;
    let s = b[..RSDP_V1_LENGTH].iter().fold(0u8, |s, &x| s.wrapping_add(x));
    b[8] = 0u8.wrapping_sub(s);
    fix_extended_checksum(b);
}

fn fix_extended_checksum(b: &mut [u8; 36]) {
    b[32] = 0;
    let s = b[..RSDP_XCHECKSUM_LENGTH].iter().fold(0u8, |s, &x| s.wrapping_add(x));
    b[32] = 0u8.wrapping_sub(s);
}

/// A handler that treats physical addresses as offsets into a buffer.
#[derive(Clone)]
struct TestHandler {
    mem: &'static [u8],
}

struct TestRegion {
    physical_start: usize,
    bytes: &'static [u8],
}

impl MappedRegion for TestRegion {
    fn physical_start(&self) -> usize {
        self.physical_start
    }

    fn as_bytes(&self) -> &[u8] {
        self.bytes
    }
}

impl AcpiHandler for TestHandler {
    type Region = TestRegion;

    fn map_physical_region(
        &self,
        physical_address: usize,
        size: usize,
        value_size: usize,
    ) -> TestRegion {
        assert!(value_size <= size);
        assert!(physical_address + size <= self.mem.len());
        TestRegion {
            physical_start: physical_address,
            bytes: &self.mem[physical_address..physical_address + size],
        }
    }
}

/// What a search asks of its handler.
#[derive(Clone, Debug, PartialEq)]
enum Event {
    Mapped(usize, usize, usize),
    Invalid(usize, RsdpError),
}

/// A handler that also keeps what it was asked to map, and what it was told.
struct RecordingHandler {
    inner: TestHandler,
    events: Rc<RefCell<Vec<Event>>>,
}

impl AcpiHandler for RecordingHandler {
    type Region = TestRegion;

    fn map_physical_region(
        &self,
        physical_address: usize,
        size: usize,
        value_size: usize,
    ) -> TestRegion {
        self.events.borrow_mut().push(Event::Mapped(value_size, physical_address, size));
        self.inner.map_physical_region(physical_address, size, value_size)
    }

    fn invalid_rsdp(&self, physical_address: usize, error: RsdpError) {
        self.events.borrow_mut().push(Event::Invalid(physical_address, error));
    }
}

fn recording(mem: Vec<u8>) -> (RecordingHandler, Rc<RefCell<Vec<Event>>>) {
    let events = Rc::new(RefCell::new(Vec::new()));
    (RecordingHandler { inner: handler(mem), events: events.clone() }, events)
}

/// What a search of `mem` asks of its handler.
fn events_of_search(mem: Vec<u8>) -> Vec<Event> {
    let (recording, events) = recording(mem);
    let _ = Rsdp::search_for_on_bios(recording);
    let events = events.borrow().clone();
    events
}

/// A handler whose regions end at `end`, which start `shift` bytes above where they were asked for.
struct OddHandler {
    inner: TestHandler,
    end: usize,
    shift: usize,
}

impl AcpiHandler for OddHandler {
    type Region = TestRegion;

    fn map_physical_region(
        &self,
        physical_address: usize,
        size: usize,
        value_size: usize,
    ) -> TestRegion {
        if value_size == 1 && physical_address == RSDP_BIOS_AREA_START {
            let start = physical_address + self.shift;
            TestRegion { physical_start: start, bytes: &self.inner.mem[start..self.end] }
        } else {
            self.inner.map_physical_region(physical_address, size, value_size)
        }
    }
}

fn handler(mem: Vec<u8>) -> TestHandler {
    TestHandler { mem: Box::leak(mem.into_boxed_slice()) }
}

/// Memory that reaches past the end of the BIOS area, with no table in it.
fn empty_memory() -> Vec<u8> {
    vec![0; RSDP_BIOS_AREA_END + 1 + RSDP_V2_EXT_LENGTH]
}

fn ignore(_offset: usize, _error: RsdpError) {}

fn put(mem: &mut [u8], at: usize, bytes: &[u8]) {
    mem[at..at + bytes.len()].copy_from_slice(bytes);
}

// An ACPI 2.0+ RSDP with a bad 20-byte standard checksum that happens to
// sum to zero over the full 36 bytes must still be rejected.
#[test]
fn compensated_checksum_rejected() {
    let mut bytes = make_rsdp(2, 0x1000, 0xDEAD_BEEF, 36);
    // Corrupt a byte inside the first 20 (not the checksum byte at offset 8)
    bytes[10] ^= 1;
    // Fix up the extended checksum so the 36-byte sum becomes 0 again,
    // but leave the 20-byte sum broken.
    bytes[32] = 0;
    let ext_sum = bytes[..RSDP_XCHECKSUM_LENGTH].iter().fold(0u8, |s, &x| s.wrapping_add(x));
    bytes[32] = 0u8.wrapping_sub(ext_sum);

    let rsdp = Rsdp::from_bytes(&bytes);
    // The dual-stage check must reject this: standard checksum fails first.
    assert_eq!(rsdp.validate(), Err(RsdpError::InvalidChecksum));
}

#[test]
fn rev1_ignores_extended_checksum() {
    let mut bytes = make_rsdp(1, 0x1000, 0, 0);
    // Corrupt a byte in the extension area (bytes 20-35): this is
    // undefined for revision 1 and must not affect validation.
    bytes[33] ^= 1;
    let rsdp = Rsdp::from_bytes(&bytes);
    assert_eq!(rsdp.validate(), Ok(()));
}

#[test]
fn rev1_bad_standard_checksum_rejected() {
    let mut bytes = make_rsdp(1, 0x1000, 0, 0);
    // Corrupt a byte in the first 20
    bytes[10] ^= 1;
    let rsdp = Rsdp::from_bytes(&bytes);
    assert_eq!(rsdp.validate(), Err(RsdpError::InvalidChecksum));
}

#[test]
fn last_aligned_rsdp_in_bios_area() {
    // The BIOS search area is 0xE0000..0x100000. The scan maps
    // area.start..area.end+RSDP_V2_EXT_LENGTH, so we need a buffer
    // covering [0, 0x100010).
    let area_start = RSDP_BIOS_AREA_START;
    let area_end = RSDP_BIOS_AREA_END + 1;
    let buf_len = area_end + RSDP_V2_EXT_LENGTH; // 0x100010

    let mut buf: Vec<u8> = vec![0; buf_len];

    // Place a valid RSDP at the last 16-byte-aligned position.
    let window_end = area_end - area_start + RSDP_V2_EXT_LENGTH - RSDP_LENGTH;
    let last_offset = window_end - (window_end % 16);
    let rsdp_phys = area_start + last_offset;

    let rsdp_bytes = make_rsdp(0, 0x1000, 0, 0); // ACPI 1.0 RSDP
    buf[rsdp_phys..rsdp_phys + 36].copy_from_slice(&rsdp_bytes);

    let result = Rsdp::search_for_on_bios(handler(buf));
    assert!(result.is_ok(), "Should find RSDP at last aligned position");
    assert_eq!(result.ok().unwrap().physical_start(), rsdp_phys);
}

#[test]
fn last_aligned_rsdp_in_ebda_area() {
    // Place a valid EBDA segment pointer at 0x40e so find_search_areas
    // uses the specific EBDA range. We point it to 0x90000 (first KiB).
    let ebda_seg: u16 = (0x90000 >> 4) as u16;
    let ebda_start = (ebda_seg as usize) << 4; // 0x90000

    // The buffer must cover the BIOS search area (searched first) through
    // the EBDA area. Use the BIOS area end as a lower bound.
    let buf_len =
        usize::max(RSDP_BIOS_AREA_END + 1 + RSDP_V2_EXT_LENGTH, ebda_start + 1024 + RSDP_V2_EXT_LENGTH);

    let mut buf: Vec<u8> = vec![0; buf_len];
    buf[EBDA_START_SEGMENT_PTR..EBDA_START_SEGMENT_PTR + 2].copy_from_slice(&ebda_seg.to_le_bytes());

    // Place RSDP at the last 16-byte-aligned position in the EBDA KiB
    let window_end = 1024 + RSDP_V2_EXT_LENGTH - RSDP_LENGTH;
    let last_offset = window_end - (window_end % 16);
    let rsdp_phys = ebda_start + last_offset;
    let rsdp_bytes = make_rsdp(0, 0x1000, 0, 0);
    buf[rsdp_phys..rsdp_phys + 36].copy_from_slice(&rsdp_bytes);

    let result = Rsdp::search_for_on_bios(handler(buf));
    assert!(result.is_ok(), "Should find RSDP at last aligned position in EBDA");
    assert_eq!(result.ok().unwrap().physical_start(), rsdp_phys);
}

// Every field is read from its place in memory, least significant byte first.
#[test]
fn fields_of_an_extended_table() {
    let bytes = make_rsdp(2, 0x1234_5678, 0x1122_3344_5566_7788, 36);
    let rsdp = Rsdp::from_bytes(&bytes);
    assert_eq!(rsdp.validate(), Ok(()));
    assert_eq!(rsdp.signature(), *b"RSD PTR ");
    assert_eq!(rsdp.checksum(), bytes[8]);
    assert_eq!(rsdp.oem_id(), "TEST01");
    assert_eq!(rsdp.revision(), 2);
    assert_eq!(rsdp.rsdt_address(), 0x1234_5678);
    assert_eq!(rsdp.length(), 36);
    assert_eq!(rsdp.xsdt_address(), 0x1122_3344_5566_7788);
    assert_eq!(rsdp.ext_checksum(), bytes[32]);
}

#[test]
fn table_gives_its_bytes_back() {
    let mut bytes = [0u8; 36];
    for i in 0..36 {
        bytes[i] = (7 * i + 3) as u8;
    }
    assert_eq!(Rsdp::from_bytes(&bytes).to_bytes(), bytes);
}

// Both parts of a valid extended table sum up to zero.
#[test]
fn parts_of_an_extended_table_sum_up_to_zero() {
    let bytes = make_rsdp(3, 0xfeed_f00d, 0x0123_4567_89ab_cdef, 36);
    assert_eq!(Rsdp::from_bytes(&bytes).validate(), Ok(()));
    assert_eq!(bytes[..20].iter().fold(0u8, |s, &x| s.wrapping_add(x)), 0);
    assert_eq!(bytes[20..].iter().fold(0u8, |s, &x| s.wrapping_add(x)), 0);
}

#[test]
fn checksum_values() {
    // "RSD PTR ", no OEM id and revision 0, all else zero.
    let mut bytes = [0u8; 36];
    bytes[0..8].copy_from_slice(b"RSD PTR ");
    bytes[8] = 0xe1;
    assert_eq!(Rsdp::from_bytes(&bytes).validate(), Ok(()));
    bytes[8] = 0xe0;
    assert_eq!(Rsdp::from_bytes(&bytes).validate(), Err(RsdpError::InvalidChecksum));
    // Revision 2 is where the extended checksum starts to count.
    bytes[15] = 1;
    bytes[33] = 1;
    assert_eq!(Rsdp::from_bytes(&bytes).validate(), Ok(()));
    bytes[8] = 0xdf;
    bytes[15] = 2;
    assert_eq!(Rsdp::from_bytes(&bytes).validate(), Err(RsdpError::InvalidChecksum));
    bytes[32] = 0xff;
    assert_eq!(Rsdp::from_bytes(&bytes).validate(), Ok(()));
}

#[test]
fn oem_id_may_hold_several_byte_characters() {
    let mut bytes = make_rsdp(0, 0, 0, 0);
    bytes[9..15].copy_from_slice("a\u{e9}\u{20ac}".as_bytes());
    fix_checksums(&mut bytes);
    let rsdp = Rsdp::from_bytes(&bytes);
    assert_eq!(rsdp.validate(), Ok(()));
    assert_eq!(rsdp.oem_id(), "a\u{e9}\u{20ac}");
}

#[test]
fn wrong_signature_rejected() {
    let mut bytes = make_rsdp(2, 0x1000, 0, 36);
    // Case matters, and so does the trailing space.
    bytes[1] = b's';
    fix_checksums(&mut bytes);
    assert_eq!(Rsdp::from_bytes(&bytes).validate(), Err(RsdpError::IncorrectSignature));
    let mut bytes = make_rsdp(2, 0x1000, 0, 36);
    bytes[7] = 0;
    fix_checksums(&mut bytes);
    assert_eq!(Rsdp::from_bytes(&bytes).validate(), Err(RsdpError::IncorrectSignature));
}

#[test]
fn oem_id_that_is_no_text_rejected() {
    let mut bytes = make_rsdp(2, 0x1000, 0, 36);
    bytes[9] = 0xff;
    fix_checksums(&mut bytes);
    assert_eq!(Rsdp::from_bytes(&bytes).validate(), Err(RsdpError::InvalidOemId));
    // A surrogate is no character either.
    bytes[9..12].copy_from_slice(&[0xed, 0xa0, 0x80]);
    fix_checksums(&mut bytes);
    assert_eq!(Rsdp::from_bytes(&bytes).validate(), Err(RsdpError::InvalidOemId));
    // The OEM id is looked at before the checksums.
    bytes[8] ^= 1;
    assert_eq!(Rsdp::from_bytes(&bytes).validate(), Err(RsdpError::InvalidOemId));
}

#[test]
fn rev2_bad_extended_checksum_rejected() {
    let mut bytes = make_rsdp(2, 0x1000, 0, 36);
    bytes[33] ^= 1;
    assert_eq!(Rsdp::from_bytes(&bytes).validate(), Err(RsdpError::InvalidChecksum));
}

#[test]
fn every_changed_byte_of_the_standard_part_is_noticed() {
    for revision in [0u8, 1, 2, 3] {
        for i in 0..RSDP_V1_LENGTH {
            let mut bytes = make_rsdp(revision, 0x1000, 0xDEAD_BEEF, 36);
            bytes[i] ^= 0x40;
            fix_extended_checksum(&mut bytes);
            assert!(Rsdp::from_bytes(&bytes).validate().is_err());
        }
    }
}

#[test]
fn search_area_of_a_sensible_segment() {
    assert_eq!(search_areas(0x9fc0), [0xe0000..0x100000, 0x9fc00..0xa0000]);
    assert_eq!(search_areas(0x8000), [0xe0000..0x100000, 0x80000..0x80400]);
    assert_eq!(search_areas(0x9fff), [0xe0000..0x100000, 0x9fff0..0xa03f0]);
}

#[test]
fn search_area_of_an_unusable_segment() {
    for segment in [0u16, 0x40, 0x7fff, 0xa000, 0xffff] {
        assert_eq!(search_areas(segment), [0xe0000..0x100000, 0x80000..0xa0000]);
    }
}

#[test]
fn search_areas_are_aligned_and_disjoint() {
    for segment in 0..=u16::MAX {
        let [bios, ebda] = search_areas(segment);
        assert_eq!(bios.start % 16, 0);
        assert_eq!(ebda.start % 16, 0);
        assert!(ebda.end - ebda.start >= 1024);
        assert!(ebda.end <= bios.start);
        assert_eq!(bios.end, 0x100000);
    }
}

#[test]
fn search_areas_are_read_from_the_bios_data_area() {
    let mut mem = empty_memory();
    put(&mut mem, EBDA_START_SEGMENT_PTR, &[0xc0, 0x9f]);
    assert_eq!(find_search_areas(handler(mem)), [0xe0000..0x100000, 0x9fc00..0xa0000]);
}

#[test]
fn first_of_two_tables_is_found() {
    let mut region = vec![0u8; 256];
    put(&mut region, 64, &make_rsdp(0, 1, 0, 0));
    put(&mut region, 160, &make_rsdp(0, 2, 0, 0));
    assert_eq!(find_rsdp(&region, ignore), Some(64));
    // Break the first one.
    region[64 + 16] ^= 1;
    assert_eq!(find_rsdp(&region, ignore), Some(160));
}

#[test]
fn tables_off_the_boundary_or_cut_off_are_not_found() {
    let mut region = vec![0u8; 256];
    put(&mut region, 72, &make_rsdp(0, 1, 0, 0));
    assert_eq!(find_rsdp(&region, ignore), None);
    let table = make_rsdp(0, 1, 0, 0);
    assert_eq!(find_rsdp(&table, ignore), Some(0));
    assert_eq!(find_rsdp(&table[..35], ignore), None);
    assert_eq!(find_rsdp(&[], ignore), None);
}

#[test]
fn nothing_to_find() {
    let result = Rsdp::search_for_on_bios(handler(empty_memory()));
    assert_eq!(result.err(), Some(RsdpError::NoValidRsdp));
}

#[test]
fn invalid_tables_are_passed_over() {
    let mut mem = empty_memory();
    let mut bad = make_rsdp(2, 0x1000, 0, 36);
    bad[33] ^= 1;
    put(&mut mem, 0xe0000, &bad);
    assert_eq!(Rsdp::search_for_on_bios(handler(mem)).err(), Some(RsdpError::NoValidRsdp));
}

#[test]
fn bios_area_comes_before_the_ebda() {
    let mut mem = empty_memory();
    put(&mut mem, 0x80000, &make_rsdp(0, 0x8000, 0, 0));
    put(&mut mem, 0xf0000, &make_rsdp(2, 0xf000, 0xabcd_0000, 36));
    let mapping = Rsdp::search_for_on_bios(handler(mem)).ok().unwrap();
    assert_eq!(mapping.physical_start(), 0xf0000);
    assert_eq!(mapping.region_length(), 36);
    assert_eq!(mapping.validate(), Ok(()));
    assert_eq!(mapping.rsdt_address(), 0xf000);
    assert_eq!(mapping.xsdt_address(), 0xabcd_0000);
}

#[test]
fn whole_ebda_is_searched_where_its_start_is_unknown() {
    let mut mem = empty_memory();
    put(&mut mem, 0x9ffe0, &make_rsdp(0, 0x8000, 0, 0));
    let mapping = Rsdp::search_for_on_bios(handler(mem)).ok().unwrap();
    assert_eq!(mapping.physical_start(), 0x9ffe0);
    assert_eq!(mapping.oem_id(), "TEST01");
}

#[test]
fn only_the_needed_memory_is_mapped() {
    let mut mem = empty_memory();
    assert_eq!(
        events_of_search(mem.clone()),
        vec![
            Event::Mapped(2, 0x40e, 2),
            Event::Mapped(1, 0xe0000, 0x20010),
            Event::Mapped(1, 0x80000, 0x20010),
        ]
    );
    put(&mut mem, EBDA_START_SEGMENT_PTR, &[0x00, 0x90]);
    put(&mut mem, 0x90020, &make_rsdp(0, 0, 0, 0));
    assert_eq!(
        events_of_search(mem.clone()),
        vec![
            Event::Mapped(2, 0x40e, 2),
            Event::Mapped(1, 0xe0000, 0x20010),
            Event::Mapped(1, 0x90000, 0x410),
            Event::Mapped(36, 0x90020, 36),
        ]
    );
    // The EBDA is left alone once the BIOS area has an RSDP.
    put(&mut mem, 0xe1230, &make_rsdp(0, 0, 0, 0));
    assert_eq!(
        events_of_search(mem),
        vec![
            Event::Mapped(2, 0x40e, 2),
            Event::Mapped(1, 0xe0000, 0x20010),
            Event::Mapped(36, 0xe1230, 36),
        ]
    );
}

/// A handler under which the very end of the address space holds the one table there is.
struct TopHandler {
    table: &'static [u8],
}

impl AcpiHandler for TopHandler {
    type Region = TestRegion;

    fn map_physical_region(
        &self,
        _physical_address: usize,
        _size: usize,
        value_size: usize,
    ) -> TestRegion {
        let bytes: &'static [u8] = if value_size == 2 { &[0, 0] } else { self.table };
        TestRegion { physical_start: usize::MAX - 35, bytes }
    }
}

#[test]
fn region_may_reach_the_end_of_the_address_space() {
    let table = Box::leak(Box::new(make_rsdp(0, 0x1234, 0, 0)));
    let mapping = Rsdp::search_for_on_bios(TopHandler { table }).ok().unwrap();
    assert_eq!(mapping.physical_start(), usize::MAX - 35);
    assert_eq!(mapping.rsdt_address(), 0x1234);
    assert_eq!(mapping.mapped_region().as_bytes(), &table[..]);
}

#[test]
fn finding_the_areas_maps_one_word() {
    let (recording, events) = recording(empty_memory());
    let _ = find_search_areas(recording);
    assert_eq!(*events.borrow(), vec![Event::Mapped(2, 0x40e, 2)]);
}

#[test]
fn handler_is_told_of_invalid_tables() {
    let mut mem = empty_memory();
    let mut bad_sum = make_rsdp(2, 0x1000, 0, 36);
    bad_sum[33] ^= 1;
    let mut bad_id = make_rsdp(0, 0x1000, 0, 0);
    bad_id[9] = 0xff;
    let mut no_signature = make_rsdp(0, 0x1000, 0, 0);
    no_signature[0] = b'r';
    put(&mut mem, 0xe0000, &bad_sum);
    put(&mut mem, 0xe0100, &no_signature);
    put(&mut mem, 0xe0200, &bad_id);
    put(&mut mem, 0xe0300, &make_rsdp(0, 0, 0, 0));
    // What lies behind the first valid table is not looked at any more.
    put(&mut mem, 0xe0400, &bad_sum);
    assert_eq!(
        events_of_search(mem),
        vec![
            Event::Mapped(2, 0x40e, 2),
            Event::Mapped(1, 0xe0000, 0x20010),
            Event::Invalid(0xe0000, RsdpError::InvalidChecksum),
            Event::Invalid(0xe0200, RsdpError::InvalidOemId),
            Event::Mapped(36, 0xe0300, 36),
        ]
    );
}

#[test]
fn invalid_tables_of_a_region_are_reported_by_offset() {
    let mut region = vec![0u8; 256];
    let mut bad = make_rsdp(0, 1, 0, 0);
    bad[16] ^= 1;
    put(&mut region, 64, &bad);
    put(&mut region, 160, &make_rsdp(0, 2, 0, 0));
    let reports = RefCell::new(Vec::new());
    let found = find_rsdp(&region, |offset, error| reports.borrow_mut().push((offset, error)));
    assert_eq!(found, Some(160));
    assert_eq!(*reports.borrow(), vec![(64, RsdpError::InvalidChecksum)]);
}

#[test]
fn what_a_region_shows_is_what_is_searched() {
    let mut mem = empty_memory();
    put(&mut mem, 0xe0000, &make_rsdp(0, 1, 0, 0));
    put(&mut mem, 0xf0008, &make_rsdp(0, 2, 0, 0));
    // A region that is shorter than was asked for.
    let inner = handler(mem.clone());
    let short = OddHandler { inner: inner.clone(), end: 0xe0024, shift: 0 };
    let mapping = Rsdp::search_for_on_bios(short).ok().unwrap();
    assert_eq!(mapping.physical_start(), 0xe0000);
    let shorter = OddHandler { inner: inner.clone(), end: 0xe0023, shift: 0 };
    assert_eq!(Rsdp::search_for_on_bios(shorter).err(), Some(RsdpError::NoValidRsdp));
    // A region that starts elsewhere.
    let shifted = OddHandler { inner, end: 0x100000, shift: 8 };
    let mapping = Rsdp::search_for_on_bios(shifted).ok().unwrap();
    assert_eq!(mapping.physical_start(), 0xf0008);
    assert_eq!(mapping.rsdt_address(), 2);
}
