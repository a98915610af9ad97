//! Searching physical memory for the RSDP.

use crate::areas::{
    bios_area, ebda_area, read_ebda_segment, search_areas, segment_of, shows_word,
    EBDA_SEGMENT_LENGTH, EBDA_START_SEGMENT_PTR,
};
use crate::error::RsdpError;
use crate::handler::{maps, shows, AcpiHandler, MappedRegion, PhysicalMapping};
use crate::table::{validation, Rsdp, RSDP_LENGTH, RSDP_V2_EXT_LENGTH};
use core::ops::Range;
use vstd::prelude::*;

verus! {

/// The distance in bytes between two places at which an RSDP may lie.
pub const RSDP_ALIGNMENT: usize = 16;

/// A place in `region` at which an RSDP may lie: a 16 byte boundary relative to its base, from
/// which on a whole RSDP fits.
pub open spec fn is_place(region: Seq<u8>, offset: int) -> bool {
    &&& 0 <= offset
    &&& offset % RSDP_ALIGNMENT as int == 0
    &&& offset + RSDP_LENGTH <= region.len()
}

/// A valid RSDP lies `offset` bytes into `region`.
pub open spec fn holds_rsdp(region: Seq<u8>, offset: int) -> bool {
    &&& is_place(region, offset)
    &&& validation(region.subrange(offset, offset + RSDP_LENGTH)) is Ok
}

/// `offset` bytes into `region` lies an RSDP with the right signature that `error` makes invalid.
pub open spec fn holds_invalid_rsdp(region: Seq<u8>, offset: int, error: RsdpError) -> bool {
    &&& is_place(region, offset)
    &&& validation(region.subrange(offset, offset + RSDP_LENGTH)) == Err::<(), _>(error)
    &&& error != RsdpError::IncorrectSignature
}

/// On its way to the first valid RSDP in `region`, or through all of `region` if there is none, a
/// search comes across an RSDP at `offset` that `error` makes invalid.
pub open spec fn meets_invalid_rsdp(region: Seq<u8>, offset: int, error: RsdpError) -> bool {
    &&& holds_invalid_rsdp(region, offset, error)
    &&& forall|earlier: int| earlier < offset ==> !#[trigger] holds_rsdp(region, earlier)
}

/// `found` is the lowest offset in `region` at which a valid RSDP lies, if there is any.
pub open spec fn is_first_rsdp(region: Seq<u8>, found: Option<int>) -> bool {
    match found {
        Some(offset) => {
            &&& holds_rsdp(region, offset)
            &&& forall|earlier: int| earlier < offset ==> !#[trigger] holds_rsdp(region, earlier)
        },
        None => forall|offset: int| !#[trigger] holds_rsdp(region, offset),
    }
}

/// The number of bytes to map in order to search `area`. Past its end `RSDP_V2_EXT_LENGTH` bytes
/// are mapped too, so that an ACPI 1.0 RSDP at the end of the area can be read as an `Rsdp`.
pub open spec fn mapped_length(area: Range<usize>) -> usize {
    (area.end - area.start + RSDP_V2_EXT_LENGTH) as usize
}

/// A mapping that is made in order to search `area` can show `region` from the physical address
/// `start` on.
pub open spec fn shows_area<H: AcpiHandler>(
    handler: H,
    area: Range<usize>,
    start: usize,
    region: Seq<u8>,
) -> bool {
    maps(handler, area.start, mapped_length(area), 1, start, region)
}

/// `handler` was told of every invalid RSDP that a search of `region`, which starts at the address
/// `start`, comes across.
pub open spec fn invalid_reported<H: AcpiHandler>(
    handler: H,
    start: usize,
    region: Seq<u8>,
) -> bool {
    forall|offset: usize, error: RsdpError| #[trigger]
        meets_invalid_rsdp(region, offset as int, error) ==> call_ensures(
            H::invalid_rsdp,
            (&handler, (start + offset) as usize, error),
            (),
        )
}

/// How far behind the address `start` the address `found` lies, if there is one.
pub open spec fn offset_from(start: usize, found: Option<usize>) -> Option<int> {
    match found {
        Some(address) => Some(address - start),
        None => None,
    }
}

/// Searching `area` through `handler` can find the first RSDP at the address `found`, or none,
/// after `handler` was told of the invalid ones before it.
pub open spec fn area_search<H: AcpiHandler>(
    handler: H,
    area: Range<usize>,
    found: Option<usize>,
) -> bool {
    exists|start: usize, region: Seq<u8>|
        {
            &&& #[trigger] shows_area(handler, area, start, region)
            &&& is_first_rsdp(region, offset_from(start, found))
            &&& invalid_reported(handler, start, region)
        }
}

/// A search of the BIOS area, and after it of the EBDA, can find the first RSDP at the address
/// `found`, or none.
pub open spec fn bios_search<H: AcpiHandler>(handler: H, found: Option<usize>) -> bool {
    exists|word: Seq<u8>|
        {
            &&& #[trigger] shows_word(handler, word)
            &&& {
                ||| found is Some && area_search(handler, bios_area(), found)
                ||| area_search(handler, bios_area(), None) && area_search(
                    handler,
                    ebda_area(segment_of(word)),
                    found,
                )
            }
        }
}

/// A search can find the first RSDP at `address`.
pub open spec fn bios_search_finds<H: AcpiHandler>(handler: H, address: usize) -> bool {
    bios_search(handler, Some(address))
}

/// `area` may be mapped, and `handler` may then be told of whatever invalid RSDPs a search of it
/// comes across.
pub open spec fn may_map_and_report<H: AcpiHandler>(handler: H, area: Range<usize>) -> bool {
    &&& handler.mappable(area.start, mapped_length(area))
    &&& forall|start: usize, region: Seq<u8>, offset: usize, error: RsdpError|
        {
            &&& #[trigger] shows_area(handler, area, start, region)
            &&& #[trigger] meets_invalid_rsdp(region, offset as int, error)
        } ==> handler.reportable((start + offset) as usize, error)
}

/// All that a search does with `handler` is allowed, each step once those before it are done:
///    - The word that gives the segment of the EBDA may be mapped.
///    - Once the word was shown, the BIOS area may be mapped.
///    - The EBDA may be mapped, at the segment that the word shows, once the search of the BIOS
///      area ended without an RSDP.
///    - The RSDP may be mapped at an address at which the search found it.
///    - `handler` may be told of the invalid RSDPs that the search comes across in these areas,
///      once they were mapped. The search of an area has not ended before that.
pub open spec fn may_search<H: AcpiHandler>(handler: H) -> bool {
    &&& handler.mappable(EBDA_START_SEGMENT_PTR, EBDA_SEGMENT_LENGTH)
    &&& forall|word: Seq<u8>| #[trigger]
        shows_word(handler, word) ==> {
            let area = ebda_area(segment_of(word));
            &&& may_map_and_report(handler, bios_area())
            &&& area_search(handler, bios_area(), None) ==> may_map_and_report(handler, area)
        }
    &&& forall|address: usize| #[trigger]
        bios_search_finds(handler, address) ==> handler.mappable(address, RSDP_LENGTH)
}

/// `mapping` is the table, and the region, that mapping an RSDP at `address` through `handler` can
/// show.
pub open spec fn maps_rsdp<H: AcpiHandler>(
    handler: H,
    address: usize,
    mapping: PhysicalMapping<H, Rsdp>,
) -> bool {
    &&& call_ensures(
        H::map_physical_region,
        (&handler, address, RSDP_LENGTH, RSDP_LENGTH),
        mapping.region(),
    )
    &&& exists|contents: Seq<u8>|
        {
            &&& #[trigger] shows(mapping.region(), mapping.physical_start(), contents)
            &&& mapping.region_length() == contents.len()
            &&& mapping.value()@ == contents.subrange(0, RSDP_LENGTH as int)
        }
}

/// `result` is what a search through `handler` can end with: a further mapping of the RSDP at the
/// address where the search found it, or that it found none.
pub open spec fn search_outcome<H: AcpiHandler>(
    handler: H,
    result: Result<PhysicalMapping<H, Rsdp>, RsdpError>,
) -> bool {
    match result {
        Ok(mapping) => {
            exists|address: usize| #[trigger]
                bios_search_finds(handler, address) && maps_rsdp(handler, address, mapping)
        },
        Err(error) => error == RsdpError::NoValidRsdp && bios_search(handler, None),
    }
}

/// Finds the first valid RSDP among those windows of `region` that start on a 16 byte boundary
/// relative to its base, and returns its offset. Hands the offset and the defect of each invalid
/// RSDP before it to `report`; a window without the signature is no RSDP at all.
pub fn find_rsdp<F: Fn(usize, RsdpError)>(region: &[u8], report: F) -> (found: Option<usize>)
    requires
        forall|offset: usize, error: RsdpError| #[trigger]
            meets_invalid_rsdp(region@, offset as int, error) ==> call_requires(
                report,
                (offset, error),
            ),
    ensures
        is_first_rsdp(
            region@,
            match found {
                Some(offset) => Some(offset as int),
                None => None,
            },
        ),
        forall|offset: usize, error: RsdpError| #[trigger]
            meets_invalid_rsdp(region@, offset as int, error) ==> call_ensures(
                report,
                (offset, error),
                (),
            ),
{
    let mut offset: usize = 0;
    while region.len() >= RSDP_LENGTH && offset <= region.len() - RSDP_LENGTH
        invariant
            offset % RSDP_ALIGNMENT == 0,
            forall|offset: usize, error: RsdpError| #[trigger]
                meets_invalid_rsdp(region@, offset as int, error) ==> call_requires(
                    report,
                    (offset, error),
                ),
            forall|earlier: int| earlier < offset ==> !#[trigger] holds_rsdp(region@, earlier),
            forall|earlier: usize, error: RsdpError| #[trigger]
                meets_invalid_rsdp(region@, earlier as int, error) && earlier < offset
                    ==> call_ensures(report, (earlier, error), ()),
        decreases region.len() - offset,
    {
        match Rsdp::read(region, offset).validate() {
            Ok(()) => {
                assert(holds_rsdp(region@, offset as int));
                return Some(offset);
            },
            Err(RsdpError::IncorrectSignature) => {},
            Err(error) => {
                assert(meets_invalid_rsdp(region@, offset as int, error));
                report(offset, error);
            },
        }
        assert forall|earlier: int|
            offset < earlier < offset + RSDP_ALIGNMENT implies !#[trigger] is_place(
            region@,
            earlier,
        ) by {
            assert(earlier % 16 != 0);
        }
        offset += RSDP_ALIGNMENT;
    }
    None
}

/// Maps `area` and searches it. Returns the physical address of the first valid RSDP.
fn find_rsdp_in_area<H: AcpiHandler>(handler: &H, area: &Range<usize>) -> (found: Option<usize>)
    requires
        area.start < area.end,
        area.end + RSDP_V2_EXT_LENGTH <= usize::MAX,
        may_map_and_report(*handler, *area),
    ensures
        area_search(*handler, *area, found),
{
    let region = handler.map_physical_region(
        area.start,
        area.end - area.start + RSDP_V2_EXT_LENGTH,
        1,
    );
    let start: usize = region.physical_start();
    let bytes = region.as_bytes();
    assert(shows(region, start, bytes@));
    assert(shows_area(*handler, *area, start, bytes@));
    let report = |offset: usize, error: RsdpError|
        requires
            meets_invalid_rsdp(bytes@, offset as int, error),
        ensures
            call_ensures(H::invalid_rsdp, (handler, (start + offset) as usize, error), ()),
        {
            handler.invalid_rsdp(start + offset, error);
        };
    match find_rsdp(bytes, report) {
        Some(offset) => Some(start + offset),
        None => None,
    }
}

impl Rsdp {
    /// This searches for a RSDP on BIOS systems.
    ///
    /// This function maps memory in three locations, and nowhere else:
    ///    - It reads a word from `40:0e` to locate the EBDA.
    ///    - The BIOS memory area at `0xe0000..=0xfffff`.
    ///    - If the BIOS memory area holds no RSDP, the first 1KiB of the EBDA (Extended BIOS Data
    ///      Area), or the largest possible EBDA where its start is not known.
    /// Of an area to be searched, the 16 bytes behind its end are mapped too.
    ///
    /// The handler is told of each invalid RSDP that the search comes across.
    ///
    /// This should be fine on all BIOS systems. However, UEFI platforms are free to put the RSDP
    /// wherever they please, so this won't always find the RSDP. Further, prodding these memory
    /// locations may have unintended side-effects. On UEFI systems, the RSDP should be found in
    /// the Configuration Table, using two GUIDs:
    ///     - ACPI v1.0 structures use `eb9d2d30-2d88-11d3-9a16-0090273fc14d`.
    ///     - ACPI v2.0 or later structures use `8868e871-e4f1-11d3-bc22-0080c73c8881`.
    /// You should search the entire table for the v2.0 GUID before searching for the v1.0 one.
    ///
    /// The RSDP that was found is mapped once more, and that mapping is returned.
    pub fn search_for_on_bios<H: AcpiHandler>(handler: H) -> (result: Result<
        PhysicalMapping<H, Rsdp>,
        RsdpError,
    >)
        requires
            may_search(handler),
        ensures
            search_outcome(handler, result),
    {
        let segment: u16 = read_ebda_segment(&handler);
        let areas = search_areas(segment);
        let found = match find_rsdp_in_area(&handler, &areas[0]) {
            Some(address) => Some(address),
            None => find_rsdp_in_area(&handler, &areas[1]),
        };
        assert(bios_search(handler, found));
        match found {
            Some(address) => {
                assert(bios_search_finds(handler, address));
                let region = handler.map_physical_region(address, RSDP_LENGTH, RSDP_LENGTH);
                let start: usize = region.physical_start();
                let bytes = region.as_bytes();
                assert(shows(region, start, bytes@));
                let rsdp = Rsdp::read(bytes, 0);
                let length: usize = bytes.len();
                let ghost contents = bytes@;
                let mapping = PhysicalMapping::new(start, length, rsdp, region);
                assert(shows(mapping.region(), mapping.physical_start(), contents));
                assert(maps_rsdp(handler, address, mapping));
                Ok(mapping)
            },
            None => Err(RsdpError::NoValidRsdp),
        }
    }
}

} // verus!
