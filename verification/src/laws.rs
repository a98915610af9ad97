//! What holds of the library as a whole.

use crate::areas::{
    areas_outcome, bios_area, ebda_area, segment_of, shows_word, EBDA_SEGMENT_LENGTH,
    EBDA_START_SEGMENT_PTR,
};
use crate::bytes::{byte_sum, lemma_byte_sum_concat, lemma_byte_sum_update};
use crate::error::RsdpError;
use crate::handler::{maps, memory_bytes, shows, shows_memory, AcpiHandler, PhysicalMapping};
use crate::search::{
    area_search, bios_search, bios_search_finds, holds_rsdp, is_first_rsdp, mapped_length,
    maps_rsdp, may_search, offset_from, search_outcome, shows_area, RSDP_ALIGNMENT,
};
use crate::table::{validation, Rsdp, RSDP_LENGTH, RSDP_SIGNATURE, RSDP_V1_LENGTH};
use core::ops::Range;
use vstd::prelude::*;
use vstd::utf8::valid_utf8;

verus! {

/// Below revision 2 only the ACPI 1.0 part of a table counts: whatever follows it does not affect
/// validation.
pub proof fn law_legacy_table_ignores_extension(a: Seq<u8>, b: Seq<u8>)
    requires
        a.len() == RSDP_LENGTH,
        b.len() == RSDP_LENGTH,
        a.subrange(0, RSDP_V1_LENGTH as int) == b.subrange(0, RSDP_V1_LENGTH as int),
        a[15] < 2,
    ensures
        validation(a) == validation(b),
{
    assert forall|i: int| 0 <= i < RSDP_V1_LENGTH implies a[i] == b[i] by {
        assert(a.subrange(0, RSDP_V1_LENGTH as int)[i] == a[i]);
        assert(b.subrange(0, RSDP_V1_LENGTH as int)[i] == b[i]);
    }
    assert(a.subrange(0, 8) =~= b.subrange(0, 8));
    assert(a.subrange(9, 15) =~= b.subrange(9, 15));
}

/// A table whose standard checksum is wrong is never valid, whatever its revision and its extended
/// checksum. If the signature and the OEM id are right, it is the checksum that is reported.
pub proof fn law_bad_standard_checksum_rejected(table: Seq<u8>)
    requires
        table.len() == RSDP_LENGTH,
        byte_sum(table.subrange(0, RSDP_V1_LENGTH as int)) % 256 != 0,
    ensures
        validation(table) is Err,
        table.subrange(0, 8) == RSDP_SIGNATURE@ && valid_utf8(table.subrange(9, 15))
            ==> validation(table) == Err::<(), _>(RsdpError::InvalidChecksum),
{
}

/// Changing a single byte of the ACPI 1.0 part of a valid table makes it invalid. No change to the
/// bytes that follow that part can make up for it.
pub proof fn law_standard_part_change_rejected(table: Seq<u8>, changed: Seq<u8>, i: int, b: u8)
    requires
        table.len() == RSDP_LENGTH,
        changed.len() == RSDP_LENGTH,
        validation(table) is Ok,
        0 <= i < RSDP_V1_LENGTH,
        b != table[i],
        changed.subrange(0, RSDP_V1_LENGTH as int) == table.subrange(
            0,
            RSDP_V1_LENGTH as int,
        ).update(i, b),
    ensures
        validation(changed) is Err,
{
    let standard = table.subrange(0, RSDP_V1_LENGTH as int);
    lemma_byte_sum_update(standard, i, b);
    assert(byte_sum(standard.update(i, b)) % 256 != 0);
}

/// From revision 2 on, changing a single byte of the extension of a valid table makes it invalid,
/// too.
pub proof fn law_extension_change_rejected(table: Seq<u8>, i: int, b: u8)
    requires
        table.len() == RSDP_LENGTH,
        validation(table) is Ok,
        table[15] >= 2,
        RSDP_V1_LENGTH <= i < RSDP_LENGTH,
        b != table[i],
    ensures
        validation(table.update(i, b)) == Err::<(), _>(RsdpError::InvalidChecksum),
{
    let changed = table.update(i, b);
    assert(changed.subrange(0, 8) =~= table.subrange(0, 8));
    assert(changed.subrange(9, 15) =~= table.subrange(9, 15));
    assert(changed.subrange(0, RSDP_LENGTH as int) =~= changed);
    assert(table.subrange(0, RSDP_LENGTH as int) =~= table);
    lemma_byte_sum_update(table, i, b);
}

/// A valid table from revision 2 on sums up to zero in each of its two parts.
pub proof fn law_valid_extended_table_sums(table: Seq<u8>)
    requires
        table.len() == RSDP_LENGTH,
        validation(table) is Ok,
        table[15] >= 2,
    ensures
        byte_sum(table.subrange(0, RSDP_V1_LENGTH as int)) % 256 == 0,
        byte_sum(table.subrange(RSDP_V1_LENGTH as int, RSDP_LENGTH as int)) % 256 == 0,
{
    let standard = table.subrange(0, RSDP_V1_LENGTH as int);
    let extension = table.subrange(RSDP_V1_LENGTH as int, RSDP_LENGTH as int);
    assert(table.subrange(0, RSDP_LENGTH as int) =~= standard + extension);
    lemma_byte_sum_concat(standard, extension);
}

/// The OEM id of a valid table can be read.
pub proof fn law_valid_table_has_oem_id(table: Seq<u8>)
    requires
        validation(table) is Ok,
    ensures
        valid_utf8(table.subrange(9, 15)),
{
}

/// Whatever the BIOS data area says, both search areas start on a 16 byte boundary, are at least
/// 1 KiB long, end below 1 MiB, and do not overlap.
pub proof fn law_search_areas(segment: u16)
    ensures
        bios_area().start % RSDP_ALIGNMENT == 0,
        ebda_area(segment).start % RSDP_ALIGNMENT == 0,
        ebda_area(segment).start + 1024 <= ebda_area(segment).end <= bios_area().start,
        bios_area().start + 1024 <= bios_area().end == 0x10_0000,
{
}

/// The areas to search depend on the word in the BIOS data area alone: two handlers under which it
/// holds the same find the same areas, however much the rest of memory differs.
pub proof fn law_areas_depend_on_word<H1: AcpiHandler, H2: AcpiHandler>(
    h1: H1,
    memory1: spec_fn(int) -> u8,
    areas1: Seq<Range<usize>>,
    h2: H2,
    memory2: spec_fn(int) -> u8,
    areas2: Seq<Range<usize>>,
)
    requires
        shows_memory(h1, memory1),
        shows_memory(h2, memory2),
        memory_word(memory1) == memory_word(memory2),
        areas_outcome(h1, areas1),
        areas_outcome(h2, areas2),
    ensures
        areas1 == areas2,
{
}

/// The word that gives the segment of the EBDA, as `memory` holds it.
pub open spec fn memory_word(memory: spec_fn(int) -> u8) -> Seq<u8> {
    memory_bytes(memory, EBDA_START_SEGMENT_PTR as int, EBDA_SEGMENT_LENGTH as nat)
}

/// A region has at most one first RSDP.
pub proof fn law_first_rsdp_unique(region: Seq<u8>, a: Option<int>, b: Option<int>)
    requires
        is_first_rsdp(region, a),
        is_first_rsdp(region, b),
    ensures
        a == b,
{
}

/// A place in `area` at which a search looks for an RSDP: a 16 byte boundary from which on the
/// ACPI 1.0 part fits into the area.
pub open spec fn is_searched(area: Range<usize>, address: int) -> bool {
    &&& area.start <= address
    &&& address % RSDP_ALIGNMENT as int == 0
    &&& address + RSDP_V1_LENGTH <= area.end
}

/// Every region that is mapped through `handler` within the address space starts where it was asked
/// for, and is no longer.
pub open spec fn maps_as_asked<H: AcpiHandler>(handler: H) -> bool {
    forall|
        physical_address: usize,
        size: usize,
        value_size: usize,
        start: usize,
        contents: Seq<u8>,
    |
        {
            &&& #[trigger] maps(handler, physical_address, size, value_size, start, contents)
            &&& physical_address + size <= usize::MAX + 1
        } ==> start == physical_address && contents.len() <= size
}

proof fn lemma_area_search_place<H: AcpiHandler>(handler: H, area: Range<usize>, address: usize)
    requires
        maps_as_asked(handler),
        area.start % RSDP_ALIGNMENT == 0,
        area.start + 1024 <= area.end <= 0x10_0000,
        area_search(handler, area, Some(address)),
    ensures
        is_searched(area, address as int),
{
    let (start, region) = choose|start: usize, region: Seq<u8>| #[trigger]
        shows_area(handler, area, start, region) && is_first_rsdp(
            region,
            offset_from(start, Some(address)),
        );
    assert(holds_rsdp(region, address - area.start));
}

proof fn lemma_found_address<H: AcpiHandler>(
    handler: H,
    mapping: PhysicalMapping<H, Rsdp>,
) -> (address: usize)
    requires
        search_outcome(handler, Ok(mapping)),
    ensures
        bios_search(handler, Some(address)),
        exists|contents: Seq<u8>|
            {
                &&& #[trigger] maps(
                    handler,
                    address,
                    RSDP_LENGTH,
                    RSDP_LENGTH,
                    mapping.physical_start(),
                    contents,
                )
                &&& mapping.value()@ == contents.subrange(0, RSDP_LENGTH as int)
            },
{
    let address = choose|address: usize| #[trigger]
        bios_search_finds(handler, address) && maps_rsdp(handler, address, mapping);
    let contents = choose|contents: Seq<u8>| #[trigger]
        shows(mapping.region(), mapping.physical_start(), contents) && mapping.value()@
            == contents.subrange(0, RSDP_LENGTH as int);
    assert(maps(
        handler,
        address,
        RSDP_LENGTH,
        RSDP_LENGTH,
        mapping.physical_start(),
        contents,
    ));
    address
}

proof fn lemma_found_place<H: AcpiHandler>(handler: H, address: usize)
    requires
        maps_as_asked(handler),
        bios_search(handler, Some(address)),
    ensures
        is_searched(bios_area(), address as int) || exists|word: Seq<u8>| #[trigger]
            shows_word(handler, word) && is_searched(
                ebda_area(segment_of(word)),
                address as int,
            ),
{
    let word = choose|word: Seq<u8>|
        {
            &&& #[trigger] shows_word(handler, word)
            &&& {
                ||| area_search(handler, bios_area(), Some(address))
                ||| area_search(handler, bios_area(), None) && area_search(
                    handler,
                    ebda_area(segment_of(word)),
                    Some(address),
                )
            }
        };
    law_search_areas(segment_of(word));
    if area_search(handler, bios_area(), Some(address)) {
        lemma_area_search_place(handler, bios_area(), address);
    } else {
        lemma_area_search_place(handler, ebda_area(segment_of(word)), address);
    }
}

/// Where regions are mapped as they were asked for, an RSDP is only ever found at a searched place
/// of the BIOS area, or of the EBDA that the BIOS data area named. So it lies on a 16 byte
/// boundary, and its ACPI 1.0 part inside that area.
pub proof fn law_found_in_search_area<H: AcpiHandler>(
    handler: H,
    mapping: PhysicalMapping<H, Rsdp>,
)
    requires
        maps_as_asked(handler),
        search_outcome(handler, Ok(mapping)),
    ensures
        is_searched(bios_area(), mapping.physical_start() as int) || exists|word: Seq<u8>|
            {
                &&& #[trigger] shows_word(handler, word)
                &&& is_searched(ebda_area(segment_of(word)), mapping.physical_start() as int)
            },
{
    let address = lemma_found_address(handler, mapping);
    lemma_found_place(handler, address);
}

/// A search touches three locations at most: where regions are mapped as they were asked for, it is
/// enough that the word that locates the EBDA, the BIOS area, the EBDA of any segment, and an RSDP
/// at any searched place of these may be mapped, and that invalid RSDPs may be reported.
pub proof fn law_three_locations<H: AcpiHandler>(handler: H)
    requires
        maps_as_asked(handler),
        handler.mappable(EBDA_START_SEGMENT_PTR, EBDA_SEGMENT_LENGTH),
        handler.mappable(bios_area().start, mapped_length(bios_area())),
        forall|segment: u16|
            handler.mappable(
                (#[trigger] ebda_area(segment)).start,
                mapped_length(ebda_area(segment)),
            ),
        forall|address: usize|
            is_searched(bios_area(), address as int) ==> #[trigger] handler.mappable(
                address,
                RSDP_LENGTH,
            ),
        forall|segment: u16, address: usize|
            is_searched(#[trigger] ebda_area(segment), address as int)
                ==> #[trigger] handler.mappable(address, RSDP_LENGTH),
        forall|address: usize, error: RsdpError| #[trigger] handler.reportable(address, error),
    ensures
        may_search(handler),
{
    assert forall|address: usize| #[trigger] bios_search_finds(handler, address) implies
        handler.mappable(address, RSDP_LENGTH) by {
        lemma_found_place(handler, address);
    }
}

/// A valid RSDP lies at `address` in `memory`.
pub open spec fn memory_holds_rsdp(memory: spec_fn(int) -> u8, address: int) -> bool {
    validation(memory_bytes(memory, address, RSDP_LENGTH as nat)) is Ok
}

/// `memory` holds no valid RSDP at any searched place of `area` below `limit`.
pub open spec fn no_rsdp_below(memory: spec_fn(int) -> u8, area: Range<usize>, limit: int) -> bool {
    forall|address: int|
        is_searched(area, address) && address < limit ==> !#[trigger] memory_holds_rsdp(
            memory,
            address,
        )
}

/// The lowest searched place of `area` at which `memory` holds a valid RSDP is `found`, or there is
/// none.
pub open spec fn is_first_in_area(
    memory: spec_fn(int) -> u8,
    area: Range<usize>,
    found: Option<usize>,
) -> bool {
    match found {
        Some(address) => {
            &&& is_searched(area, address as int)
            &&& memory_holds_rsdp(memory, address as int)
            &&& no_rsdp_below(memory, area, address as int)
        },
        None => no_rsdp_below(memory, area, area.end as int),
    }
}

/// The first searched place of the BIOS area, and after it of the EBDA, at which `memory` holds a
/// valid RSDP is `found`, or there is none.
pub open spec fn is_first_in_memory(memory: spec_fn(int) -> u8, found: Option<usize>) -> bool {
    ||| found is Some && is_first_in_area(memory, bios_area(), found)
    ||| is_first_in_area(memory, bios_area(), None) && is_first_in_area(
        memory,
        ebda_area(segment_of(memory_word(memory))),
        found,
    )
}

/// What a search finds in memory that holds still is fully determined.
pub proof fn law_first_in_memory_unique(
    memory: spec_fn(int) -> u8,
    a: Option<usize>,
    b: Option<usize>,
)
    requires
        is_first_in_memory(memory, a),
        is_first_in_memory(memory, b),
    ensures
        a == b,
{
}

proof fn lemma_area_search_memory<H: AcpiHandler>(
    handler: H,
    memory: spec_fn(int) -> u8,
    area: Range<usize>,
    found: Option<usize>,
)
    requires
        shows_memory(handler, memory),
        area.start % RSDP_ALIGNMENT == 0,
        area.start + 1024 <= area.end <= 0x10_0000,
        area_search(handler, area, found),
    ensures
        is_first_in_area(memory, area, found),
{
    let (start, region) = choose|start: usize, region: Seq<u8>| #[trigger]
        shows_area(handler, area, start, region) && is_first_rsdp(
            region,
            offset_from(start, found),
        );
    assert(region == memory_bytes(memory, area.start as int, mapped_length(area) as nat));
    assert forall|address: int| is_searched(area, address) implies #[trigger] memory_holds_rsdp(
        memory,
        address,
    ) == holds_rsdp(region, address - area.start) by {
        assert(region.subrange(address - area.start, address - area.start + RSDP_LENGTH)
            =~= memory_bytes(memory, address, RSDP_LENGTH as nat));
    }
    if let Some(address) = found {
        lemma_area_search_place(handler, area, address);
        assert(holds_rsdp(region, address - area.start));
    }
}

/// Where memory holds still, a search gives the first valid RSDP: the BIOS area comes before the
/// EBDA, and lower addresses come first. The table that it hands out is the one in memory, and it
/// is valid. The search fails only if memory holds no valid RSDP at any searched place.
pub proof fn law_search_finds_first_rsdp<H: AcpiHandler>(
    handler: H,
    memory: spec_fn(int) -> u8,
    result: Result<PhysicalMapping<H, Rsdp>, RsdpError>,
)
    requires
        shows_memory(handler, memory),
        search_outcome(handler, result),
    ensures
        match result {
            Ok(mapping) => {
                &&& is_first_in_memory(memory, Some(mapping.physical_start()))
                &&& mapping.value()@ == memory_bytes(
                    memory,
                    mapping.physical_start() as int,
                    RSDP_LENGTH as nat,
                )
                &&& validation(mapping.value()@) is Ok
            },
            Err(error) => error == RsdpError::NoValidRsdp && is_first_in_memory(memory, None),
        },
{
    let found = match result {
        Ok(mapping) => Some(lemma_found_address(handler, mapping)),
        Err(_) => None,
    };
    assert(bios_search(handler, found));
    let word = choose|word: Seq<u8>|
        {
            &&& #[trigger] shows_word(handler, word)
            &&& {
                ||| found is Some && area_search(handler, bios_area(), found)
                ||| area_search(handler, bios_area(), None) && area_search(
                    handler,
                    ebda_area(segment_of(word)),
                    found,
                )
            }
        };
    let ebda = ebda_area(segment_of(word));
    law_search_areas(segment_of(word));
    if found is Some && area_search(handler, bios_area(), found) {
        lemma_area_search_memory(handler, memory, bios_area(), found);
    } else {
        lemma_area_search_memory(handler, memory, bios_area(), None);
        lemma_area_search_memory(handler, memory, ebda, found);
    }
    if let Ok(mapping) = result {
        let table = memory_bytes(memory, mapping.physical_start() as int, RSDP_LENGTH as nat);
        assert(table.subrange(0, RSDP_LENGTH as int) =~= table);
    }
}

} // verus!
