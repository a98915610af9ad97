//! Where on a BIOS system the RSDP may lie.

use crate::bytes::{le_value, lemma_le_limit_values, read_le};
use crate::handler::{maps, shows, AcpiHandler, MappedRegion};
use core::ops::Range;
use vstd::prelude::*;

verus! {

/// This (usually!) contains the base address of the EBDA (Extended Bios Data Area), shifted right
/// by 4.
pub const EBDA_START_SEGMENT_PTR: usize = 0x40e;

/// The size in bytes of the word at [`EBDA_START_SEGMENT_PTR`].
pub const EBDA_SEGMENT_LENGTH: usize = 2;

/// The earliest (lowest) memory address an EBDA (Extended Bios Data Area) can start.
pub const EBDA_EARLIEST_START: usize = 0x80000;

/// The end of the EBDA (Extended Bios Data Area).
pub const EBDA_END: usize = 0x9ffff;

/// The start of the main BIOS area below 1mb in which to search for the RSDP.
pub const RSDP_BIOS_AREA_START: usize = 0xe0000;

/// The end of the main BIOS area below 1mb in which to search for the RSDP.
pub const RSDP_BIOS_AREA_END: usize = 0xfffff;

/// The main BIOS area below 1MiB.
pub open spec fn bios_area() -> Range<usize> {
    Range { start: RSDP_BIOS_AREA_START, end: (RSDP_BIOS_AREA_END + 1) as usize }
}

/// The first KiB of the EBDA whose segment is `segment`, or, where no EBDA can start there, the
/// largest possible EBDA.
pub open spec fn ebda_area(segment: u16) -> Range<usize> {
    if EBDA_EARLIEST_START <= segment * 16 < EBDA_END {
        Range { start: (segment * 16) as usize, end: (segment * 16 + 1024) as usize }
    } else {
        Range { start: EBDA_EARLIEST_START, end: (EBDA_END + 1) as usize }
    }
}

/// The EBDA segment that the word at the start of a region holds.
pub open spec fn segment_of(contents: Seq<u8>) -> u16 {
    le_value(contents.subrange(0, EBDA_SEGMENT_LENGTH as int)) as u16
}

/// A mapping of the BIOS data area's word can show `contents`.
pub open spec fn shows_word<H: AcpiHandler>(handler: H, contents: Seq<u8>) -> bool {
    exists|start: usize| #[trigger]
        maps(
            handler,
            EBDA_START_SEGMENT_PTR,
            EBDA_SEGMENT_LENGTH,
            EBDA_SEGMENT_LENGTH,
            start,
            contents,
        )
}

/// `areas` are the areas to search, as a mapping of the BIOS data area's word can give them.
pub open spec fn areas_outcome<H: AcpiHandler>(handler: H, areas: Seq<Range<usize>>) -> bool {
    exists|word: Seq<u8>|
        {
            &&& #[trigger] shows_word(handler, word)
            &&& areas == seq![bios_area(), ebda_area(segment_of(word))]
        }
}

/// The areas to search, in this order, where the BIOS data area gives `ebda_segment` as the
/// segment of the EBDA.
pub fn search_areas(ebda_segment: u16) -> (areas: [Range<usize>; 2])
    ensures
        areas@ == seq![bios_area(), ebda_area(ebda_segment)],
        areas[0].start == 0xe_0000,
        areas[0].end == 0x10_0000,
        if 0x8_0000 <= 16 * ebda_segment < 0x9_ffff {
            areas[1].start == 16 * ebda_segment && areas[1].end == 16 * ebda_segment + 1024
        } else {
            areas[1].start == 0x8_0000 && areas[1].end == 0xa_0000
        },
{
    let ebda_start: usize = (ebda_segment as usize) << 4;
    assert((ebda_segment as usize) << 4 == ebda_segment * 16) by (bit_vector);
    let areas = [
        // In practice, the RSDP is more often here than in the EBDA.
        RSDP_BIOS_AREA_START..(RSDP_BIOS_AREA_END + 1),
        // Check if base segment ptr is in valid range for EBDA base
        if (EBDA_EARLIEST_START..EBDA_END).contains(&ebda_start) {
            // First KiB of EBDA
            ebda_start..ebda_start + 1024
        } else {
            // We don't know where the EBDA starts, so just search the largest possible EBDA
            EBDA_EARLIEST_START..(EBDA_END + 1)
        },
    ];
    assert(areas@ =~= seq![bios_area(), ebda_area(ebda_segment)]);
    areas
}

/// Reads the segment of the EBDA from the BIOS data area. Not all BIOSs fill this out, so it need
/// not be sensible.
pub(crate) fn read_ebda_segment<H: AcpiHandler>(handler: &H) -> (segment: u16)
    requires
        handler.mappable(EBDA_START_SEGMENT_PTR, EBDA_SEGMENT_LENGTH),
    ensures
        exists|word: Seq<u8>| #[trigger]
            shows_word(*handler, word) && segment == segment_of(word),
{
    let region = handler.map_physical_region(
        EBDA_START_SEGMENT_PTR,
        EBDA_SEGMENT_LENGTH,
        EBDA_SEGMENT_LENGTH,
    );
    let start: usize = region.physical_start();
    let bytes = region.as_bytes();
    assert(shows(region, start, bytes@));
    assert(maps(
        *handler,
        EBDA_START_SEGMENT_PTR,
        EBDA_SEGMENT_LENGTH,
        EBDA_SEGMENT_LENGTH,
        start,
        bytes@,
    ));
    assert(shows_word(*handler, bytes@));
    let segment: u64 = read_le(bytes, 0, EBDA_SEGMENT_LENGTH);
    proof {
        lemma_le_limit_values();
    }
    segment as u16
}

/// Find the areas we should search for the RSDP in.
///
/// This maps a word of the BIOS data area, and no other memory.
pub fn find_search_areas<H: AcpiHandler>(handler: H) -> (areas: [Range<usize>; 2])
    requires
        handler.mappable(EBDA_START_SEGMENT_PTR, EBDA_SEGMENT_LENGTH),
    ensures
        areas_outcome(handler, areas@),
{
    search_areas(read_ebda_segment(&handler))
}

} // verus!
