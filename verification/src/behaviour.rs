//! What the operations do, stated over bytes, addresses and plain arithmetic.

use crate::areas::{areas_outcome, bios_area, ebda_area, segment_of, shows_word};
use crate::bytes::{byte_sum, le_value, lemma_byte_sum_concat};
use crate::error::RsdpError;
use crate::handler::{
    maps, memory_bytes, shows, shows_memory, AcpiHandler, MappedRegion, PhysicalMapping,
};
use crate::search::{
    area_search, bios_search, bios_search_finds, holds_invalid_rsdp, holds_rsdp, invalid_reported,
    is_first_rsdp, maps_rsdp, may_map_and_report, may_search, meets_invalid_rsdp, offset_from, search_outcome,
    shows_area,
};
use crate::table::{validation, Rsdp, RSDP_SIGNATURE};
use core::ops::Range;
use vstd::prelude::*;
use vstd::utf8::valid_utf8;

verus! {

/// Two bytes hold the number that their positions give: the second counts 256 times.
pub proof fn law_le_value_of_two(s: Seq<u8>)
    requires
        s.len() == 2,
    ensures
        le_value(s) == s[0] + 0x100 * s[1],
{
    reveal_with_fuel(le_value, 3);
}

/// Four bytes hold the number that their positions give.
pub proof fn law_le_value_of_four(s: Seq<u8>)
    requires
        s.len() == 4,
    ensures
        le_value(s) == s[0] + 0x100 * s[1] + 0x1_0000 * s[2] + 0x100_0000 * s[3],
{
    reveal_with_fuel(le_value, 5);
}

/// Eight bytes hold the number that their positions give.
pub proof fn law_le_value_of_eight(s: Seq<u8>)
    requires
        s.len() == 8,
    ensures
        le_value(s) == s[0] + 0x100 * s[1] + 0x1_0000 * s[2] + 0x100_0000 * s[3] + 0x1_0000_0000
            * s[4] + 0x100_0000_0000 * s[5] + 0x1_0000_0000_0000 * s[6] + 0x100_0000_0000_0000
            * s[7],
{
    reveal_with_fuel(le_value, 9);
}

/// The sum of no bytes is zero, that of one byte is the byte, and that of a concatenation is the
/// sum of its two parts.
pub proof fn law_byte_sum(a: Seq<u8>, b: Seq<u8>, byte: u8)
    ensures
        byte_sum(Seq::empty()) == 0,
        byte_sum(seq![byte]) == byte,
        byte_sum(a + b) == byte_sum(a) + byte_sum(b),
{
    reveal_with_fuel(byte_sum, 2);
    lemma_byte_sum_concat(a, b);
}

/// A table is valid just if it starts with `"RSD PTR "`, has an OEM id in UTF-8, and its first 20
/// bytes, and from revision 2 on all of its bytes, sum up to zero modulo 256. Each defect is
/// reported where it is the first one in this order, and nothing else is ever reported.
pub proof fn law_validation(table: Seq<u8>)
    requires
        table.len() == 36,
    ensures
        ({
            let signature = table[0] == 0x52 && table[1] == 0x53 && table[2] == 0x44 && table[3]
                == 0x20 && table[4] == 0x50 && table[5] == 0x54 && table[6] == 0x52 && table[7]
                == 0x20;
            let oem_id = valid_utf8(table.subrange(9, 15));
            let standard = byte_sum(table.subrange(0, 20)) % 256 == 0;
            let extended = table[15] >= 2 ==> byte_sum(table) % 256 == 0;
            &&& validation(table) is Ok <==> signature && oem_id && standard && extended
            &&& validation(table) == Err::<(), _>(RsdpError::IncorrectSignature) <==> !signature
            &&& validation(table) == Err::<(), _>(RsdpError::InvalidOemId) <==> signature
                && !oem_id
            &&& validation(table) == Err::<(), _>(RsdpError::InvalidChecksum) <==> signature
                && oem_id && !(standard && extended)
        }),
{
    let head = table.subrange(0, 8);
    assert(RSDP_SIGNATURE@ =~= seq![0x52u8, 0x53, 0x44, 0x20, 0x50, 0x54, 0x52, 0x20]);
    assert forall|i: int| 0 <= i < 8 implies head[i] == table[i] by {}
    if head[0] == 0x52 && head[1] == 0x53 && head[2] == 0x44 && head[3] == 0x20 && head[4] == 0x50
        && head[5] == 0x54 && head[6] == 0x52 && head[7] == 0x20 {
        assert(head =~= RSDP_SIGNATURE@);
    }
    assert(table.subrange(0, 36) =~= table);
}

/// The segment of the EBDA is the whole word at the start of the region, low byte first.
pub proof fn law_segment(contents: Seq<u8>)
    requires
        contents.len() >= 2,
    ensures
        segment_of(contents) == contents[0] + 256 * contents[1],
{
    law_le_value_of_two(contents.subrange(0, 2));
}

/// The BIOS area is `0xe0000..0x100000`. The EBDA area is the first KiB from 16 times the segment
/// on, where that lies in `0x80000..0x9ffff`, and `0x80000..0xa0000` for any other segment.
pub proof fn law_areas(segment: u16)
    ensures
        bios_area().start == 0xe_0000,
        bios_area().end == 0x10_0000,
        0x8_0000 <= 16 * segment < 0x9_ffff ==> {
            &&& ebda_area(segment).start == 16 * segment
            &&& ebda_area(segment).end == 16 * segment + 1024
        },
        !(0x8_0000 <= 16 * segment < 0x9_ffff) ==> {
            &&& ebda_area(segment).start == 0x8_0000
            &&& ebda_area(segment).end == 0xa_0000
        },
{
}

/// The areas to search are those that the two bytes at `0x40e`, as they were mapped and read, give.
/// Returns the region, the address at which it starts, and its bytes.
pub proof fn law_found_areas<H: AcpiHandler>(handler: H, areas: Seq<Range<usize>>) -> (read: (
    H::Region,
    usize,
    &'static [u8],
))
    requires
        areas_outcome(handler, areas),
    ensures
        call_ensures(H::map_physical_region, (&handler, 0x40e, 2, 2), read.0),
        call_ensures(H::Region::physical_start, (&read.0,), read.1),
        call_ensures(H::Region::as_bytes, (&read.0,), read.2),
        areas.len() == 2,
        areas[0].start == 0xe_0000,
        areas[0].end == 0x10_0000,
        ({
            let ebda = 16 * (read.2@[0] + 256 * read.2@[1]);
            if 0x8_0000 <= ebda < 0x9_ffff {
                areas[1].start == ebda && areas[1].end == ebda + 1024
            } else {
                areas[1].start == 0x8_0000 && areas[1].end == 0xa_0000
            }
        }),
{
    let word = choose|word: Seq<u8>|
        {
            &&& #[trigger] shows_word(handler, word)
            &&& areas == seq![bios_area(), ebda_area(segment_of(word))]
        };
    let read = lemma_read_word(handler, word);
    law_segment(word);
    read
}

proof fn lemma_read_word<H: AcpiHandler>(handler: H, word: Seq<u8>) -> (read: (
    H::Region,
    usize,
    &'static [u8],
))
    requires
        shows_word(handler, word),
    ensures
        call_ensures(H::map_physical_region, (&handler, 0x40e, 2, 2), read.0),
        call_ensures(H::Region::physical_start, (&read.0,), read.1),
        call_ensures(H::Region::as_bytes, (&read.0,), read.2),
        read.2@ == word,
        word.len() >= 2,
{
    let start = choose|start: usize| #[trigger] maps(handler, 0x40e, 2, 2, start, word);
    let region = choose|region: H::Region|
        {
            &&& #[trigger] call_ensures(H::map_physical_region, (&handler, 0x40e, 2, 2), region)
            &&& shows(region, start, word)
        };
    let bytes = choose|bytes: &[u8]|
        {
            &&& #[trigger] call_ensures(H::Region::as_bytes, (&region,), bytes)
            &&& bytes@ == word
        };
    (region, start, bytes)
}

/// What a search of a region finds is a valid table on a 16 byte boundary of the region, and no
/// other one, wherever it lies whole in the region on such a boundary, comes before it.
pub proof fn law_first_rsdp(region: Seq<u8>, found: Option<int>, place: int)
    requires
        is_first_rsdp(region, found),
    ensures
        found matches Some(offset) ==> {
            &&& 0 <= offset <= region.len() - 36
            &&& offset % 16 == 0
            &&& validation(region.subrange(offset, offset + 36)) is Ok
        },
        0 <= place <= region.len() - 36 && place % 16 == 0 && validation(
            region.subrange(place, place + 36),
        ) is Ok ==> found is Some && found->0 <= place,
{
    if 0 <= place <= region.len() - 36 && place % 16 == 0 && validation(
        region.subrange(place, place + 36),
    ) is Ok {
        assert(holds_rsdp(region, place));
    }
}

/// A search of a region comes across an invalid RSDP just where a table on a 16 byte boundary has
/// the right signature, but fails validation, and no valid table on such a boundary lies before it.
pub proof fn law_invalid_rsdp_met(region: Seq<u8>, offset: int, error: RsdpError)
    ensures
        meets_invalid_rsdp(region, offset, error) <==> {
            &&& 0 <= offset <= region.len() - 36
            &&& offset % 16 == 0
            &&& validation(region.subrange(offset, offset + 36)) == Err::<(), _>(error)
            &&& error == RsdpError::InvalidOemId || error == RsdpError::InvalidChecksum
            &&& forall|place: int|
                #![trigger region[place]]
                0 <= place < offset && place % 16 == 0 ==> validation(
                    region.subrange(place, place + 36),
                ) is Err
        },
{
    if meets_invalid_rsdp(region, offset, error) {
        assert forall|place: int|
            #![trigger region[place]]
            0 <= place < offset && place % 16 == 0 implies validation(
            region.subrange(place, place + 36),
        ) is Err by {
            assert(!holds_rsdp(region, place));
        }
    }
    if 0 <= offset <= region.len() - 36 && offset % 16 == 0 && validation(
        region.subrange(offset, offset + 36),
    ) == Err::<(), _>(error) && error != RsdpError::IncorrectSignature && (forall|place: int|
        #![trigger region[place]]
        0 <= place < offset && place % 16 == 0 ==> validation(
            region.subrange(place, place + 36),
        ) is Err) {
        assert forall|earlier: int| earlier < offset implies !#[trigger] holds_rsdp(
            region,
            earlier,
        ) by {
            let first = region[earlier];
        }
    }
}

/// A search of an area maps it, with the 16 bytes behind it, and looks at the region that this
/// shows. It finds the first valid table on a 16 byte boundary of the region, by the address at
/// which the region starts, or none if there is none. The handler was told of each invalid table
/// before it, where it lies and what is wrong with it. Returns the region, the address at which it
/// starts, and its bytes.
pub proof fn law_area_search<H: AcpiHandler>(
    handler: H,
    area: Range<usize>,
    found: Option<usize>,
) -> (seen: (H::Region, usize, &'static [u8]))
    requires
        area_search(handler, area, found),
    ensures
        call_ensures(
            H::map_physical_region,
            (&handler, area.start, (area.end - area.start + 16) as usize, 1),
            seen.0,
        ),
        call_ensures(H::Region::physical_start, (&seen.0,), seen.1),
        call_ensures(H::Region::as_bytes, (&seen.0,), seen.2),
        found matches Some(address) ==> {
            &&& seen.1 <= address <= seen.1 + seen.2@.len() - 36
            &&& (address - seen.1) % 16 == 0
            &&& validation(seen.2@.subrange(address - seen.1, address - seen.1 + 36)) is Ok
        },
        forall|place: int|
            #![trigger seen.2@[place]]
            0 <= place <= seen.2@.len() - 36 && place % 16 == 0 && (found matches Some(address)
                ==> seen.1 + place < address) ==> match validation(
                seen.2@.subrange(place, place + 36),
            ) {
                Ok(()) => false,
                Err(RsdpError::IncorrectSignature) => true,
                Err(error) => call_ensures(
                    H::invalid_rsdp,
                    (&handler, (seen.1 + place) as usize, error),
                    (),
                ),
            },
{
    let (start, contents) = choose|start: usize, contents: Seq<u8>|
        {
            &&& #[trigger] shows_area(handler, area, start, contents)
            &&& is_first_rsdp(contents, offset_from(start, found))
            &&& invalid_reported(handler, start, contents)
        };
    let length = (area.end - area.start + 16) as usize;
    assert(maps(handler, area.start, length, 1, start, contents));
    let region = choose|region: H::Region|
        {
            &&& #[trigger] call_ensures(
                H::map_physical_region,
                (&handler, area.start, length, 1),
                region,
            )
            &&& shows(region, start, contents)
        };
    let bytes = choose|bytes: &[u8]|
        {
            &&& #[trigger] call_ensures(H::Region::as_bytes, (&region,), bytes)
            &&& bytes@ == contents
        };
    assert(start + contents.len() <= usize::MAX + 1);
    assert forall|place: int|
        #![trigger contents[place]]
        0 <= place <= contents.len() - 36 && place % 16 == 0 && (found matches Some(address)
            ==> start + place < address) implies match validation(
        contents.subrange(place, place + 36),
    ) {
        Ok(()) => false,
        Err(RsdpError::IncorrectSignature) => true,
        Err(error) => call_ensures(
            H::invalid_rsdp,
            (&handler, (start + place) as usize, error),
            (),
        ),
    } by {
        assert(!holds_rsdp(contents, place));
        if let Err(error) = validation(contents.subrange(place, place + 36)) {
            if error != RsdpError::IncorrectSignature {
                assert(meets_invalid_rsdp(contents, (place as usize) as int, error));
            }
        }
    }
    (region, start, bytes)
}

/// A search looks at the BIOS area first. Only if it finds nothing there, it looks at the EBDA, as
/// the two bytes at `0x40e` that were mapped and read give it. Returns the region in which they were
/// read, the address at which it starts, and its bytes.
pub proof fn law_bios_search<H: AcpiHandler>(handler: H, found: Option<usize>) -> (read: (
    H::Region,
    usize,
    &'static [u8],
))
    requires
        bios_search(handler, found),
    ensures
        call_ensures(H::map_physical_region, (&handler, 0x40e, 2, 2), read.0),
        call_ensures(H::Region::physical_start, (&read.0,), read.1),
        call_ensures(H::Region::as_bytes, (&read.0,), read.2),
        ({
            let bios = Range { start: 0xe_0000usize, end: 0x10_0000usize };
            let segment = read.2@[0] + 256 * read.2@[1];
            let ebda = if 0x8_0000 <= 16 * segment < 0x9_ffff {
                Range { start: (16 * segment) as usize, end: (16 * segment + 1024) as usize }
            } else {
                Range { start: 0x8_0000usize, end: 0xa_0000usize }
            };
            ||| found is Some && area_search(handler, bios, found)
            ||| area_search(handler, bios, None) && area_search(handler, ebda, found)
        }),
{
    let word = choose|word: Seq<u8>|
        {
            &&& #[trigger] shows_word(handler, word)
            &&& {
                ||| found is Some && area_search(handler, bios_area(), found)
                ||| area_search(handler, bios_area(), None) && area_search(
                    handler,
                    ebda_area(segment_of(word)),
                    found,
                )
            }
        };
    let read = lemma_read_word(handler, word);
    law_segment(word);
    read
}

/// A search that found an RSDP ends with a further mapping of its 36 bytes at the address where it
/// was found: the result holds that mapping, the address at which it starts, its length, and its
/// first 36 bytes as the table. A search that found none ends with [`RsdpError::NoValidRsdp`].
/// Returns the address at which the RSDP was found, and the bytes that the mapping showed.
pub proof fn law_search_result<H: AcpiHandler>(
    handler: H,
    result: Result<PhysicalMapping<H, Rsdp>, RsdpError>,
) -> (seen: (usize, &'static [u8]))
    requires
        search_outcome(handler, result),
    ensures
        match result {
            Ok(mapping) => {
                &&& bios_search(handler, Some(seen.0))
                &&& call_ensures(
                    H::map_physical_region,
                    (&handler, seen.0, 36, 36),
                    mapping.region(),
                )
                &&& call_ensures(
                    H::Region::physical_start,
                    (&mapping.region(),),
                    mapping.physical_start(),
                )
                &&& call_ensures(H::Region::as_bytes, (&mapping.region(),), seen.1)
                &&& mapping.region_length() == seen.1@.len()
                &&& mapping.value()@ == seen.1@.subrange(0, 36)
            },
            Err(error) => error == RsdpError::NoValidRsdp && bios_search(handler, None),
        },
{
    match result {
        Ok(mapping) => {
            let address = choose|address: usize| #[trigger]
                bios_search_finds(handler, address) && maps_rsdp(handler, address, mapping);
            let contents = choose|contents: Seq<u8>|
                {
                    &&& #[trigger] shows(mapping.region(), mapping.physical_start(), contents)
                    &&& mapping.region_length() == contents.len()
                    &&& mapping.value()@ == contents.subrange(0, 36)
                };
            let bytes = choose|bytes: &[u8]|
                {
                    &&& #[trigger] call_ensures(
                        H::Region::as_bytes,
                        (&mapping.region(),),
                        bytes,
                    )
                    &&& bytes@ == contents
                };
            (address, bytes)
        },
        Err(_) => arbitrary(),
    }
}

/// Whatever memory holds and however it changes, a search does nothing with the handler but the
/// following.
///    - It maps the two bytes at `0x40e`.
///    - It maps `0xe0000..0x100000` and the 16 bytes behind it.
///    - It maps 1 KiB on a 16 byte boundary in `0x80000..0x9ffff`, or all of `0x80000..0xa0000`, and
///      the 16 bytes behind it.
///    - It maps 36 bytes at an address where it found an RSDP.
///    - It reports invalid tables that a region showed, by the address at which the region starts.
pub proof fn law_search_allowed<H: AcpiHandler>(handler: H)
    requires
        handler.mappable(0x40e, 2),
        handler.mappable(0xe_0000, 0x2_0010),
        handler.mappable(0x8_0000, 0x2_0010),
        forall|address: usize|
            0x8_0000 <= address < 0x9_ffff && address % 16 == 0 ==> #[trigger] handler.mappable(
                address,
                0x410,
            ),
        forall|address: usize|
            bios_search(handler, Some(address)) ==> #[trigger] handler.mappable(address, 36),
        forall|
            address: usize,
            size: usize,
            region: H::Region,
            start: usize,
            bytes: &[u8],
            offset: usize,
            error: RsdpError,
        |
            #![trigger
                call_ensures(H::map_physical_region, (&handler, address, size, 1), region),
                call_ensures(H::Region::physical_start, (&region,), start),
                call_ensures(H::Region::as_bytes, (&region,), bytes),
                handler.reportable((start + offset) as usize, error)
            ]
            {
                &&& call_ensures(H::map_physical_region, (&handler, address, size, 1), region)
                &&& call_ensures(H::Region::physical_start, (&region,), start)
                &&& call_ensures(H::Region::as_bytes, (&region,), bytes)
                &&& meets_invalid_rsdp(bytes@, offset as int, error)
            } ==> handler.reportable((start + offset) as usize, error),
    ensures
        may_search(handler),
{
    assert forall|
        area: Range<usize>,
        start: usize,
        contents: Seq<u8>,
        offset: usize,
        error: RsdpError,
    |
        {
            &&& #[trigger] shows_area(handler, area, start, contents)
            &&& #[trigger] meets_invalid_rsdp(contents, offset as int, error)
        } implies handler.reportable((start + offset) as usize, error) by {
        let length = (area.end - area.start + 16) as usize;
        assert(maps(handler, area.start, length, 1, start, contents));
        let region = choose|region: H::Region|
            {
                &&& #[trigger] call_ensures(
                    H::map_physical_region,
                    (&handler, area.start, length, 1),
                    region,
                )
                &&& shows(region, start, contents)
            };
        let bytes = choose|bytes: &[u8]|
            {
                &&& #[trigger] call_ensures(H::Region::as_bytes, (&region,), bytes)
                &&& bytes@ == contents
            };
    }
    assert forall|segment: u16| #[trigger]
        may_map_and_report(handler, ebda_area(segment)) by {
        law_areas(segment);
    }
}

proof fn lemma_shows_memory<H: AcpiHandler>(handler: H, memory: spec_fn(int) -> u8)
    requires
        // Every mapping within the address space shows what `memory` holds there.
        forall|
            address: usize,
            size: usize,
            value_size: usize,
            region: H::Region,
            start: usize,
            bytes: &[u8],
        |
            #![trigger
                call_ensures(H::map_physical_region, (&handler, address, size, value_size), region),
                call_ensures(H::Region::physical_start, (&region,), start),
                call_ensures(H::Region::as_bytes, (&region,), bytes)
            ]
            {
                &&& call_ensures(
                    H::map_physical_region,
                    (&handler, address, size, value_size),
                    region,
                )
                &&& call_ensures(H::Region::physical_start, (&region,), start)
                &&& call_ensures(H::Region::as_bytes, (&region,), bytes)
                &&& address + size <= usize::MAX + 1
            } ==> {
                &&& start == address
                &&& bytes@.len() == size
                &&& forall|i: int| 0 <= i < size ==> #[trigger] bytes@[i] == memory(address + i)
            },
    ensures
        shows_memory(handler, memory),
{
    assert forall|
        address: usize,
        size: usize,
        value_size: usize,
        start: usize,
        contents: Seq<u8>,
    |
        {
            &&& #[trigger] maps(handler, address, size, value_size, start, contents)
            &&& address + size <= usize::MAX + 1
        } implies {
        &&& start == address
        &&& contents == memory_bytes(memory, address as int, size as nat)
    } by {
        let region = choose|region: H::Region|
            {
                &&& #[trigger] call_ensures(
                    H::map_physical_region,
                    (&handler, address, size, value_size),
                    region,
                )
                &&& shows(region, start, contents)
            };
        let bytes = choose|bytes: &[u8]|
            {
                &&& #[trigger] call_ensures(H::Region::as_bytes, (&region,), bytes)
                &&& bytes@ == contents
            };
        assert(contents =~= memory_bytes(memory, address as int, size as nat));
    }
}

proof fn lemma_static_area<H: AcpiHandler>(
    handler: H,
    memory: spec_fn(int) -> u8,
    area: Range<usize>,
    found: Option<usize>,
    place: int,
)
    requires
        shows_memory(handler, memory),
        area.start % 16 == 0,
        area.start + 1024 <= area.end <= 0x10_0000,
        area_search(handler, area, found),
    ensures
        found matches Some(address) ==> {
            &&& area.start <= address
            &&& address % 16 == 0
            &&& address + 20 <= area.end
            &&& validation(memory_bytes(memory, address as int, 36)) is Ok
        },
        area.start <= place && place % 16 == 0 && place + 20 <= area.end && (found matches Some(
            address,
        ) ==> place < address) ==> match validation(memory_bytes(memory, place, 36)) {
            Ok(()) => false,
            Err(RsdpError::IncorrectSignature) => true,
            Err(error) => call_ensures(H::invalid_rsdp, (&handler, place as usize, error), ()),
        },
{
    let (start, region) = choose|start: usize, region: Seq<u8>|
        {
            &&& #[trigger] shows_area(handler, area, start, region)
            &&& is_first_rsdp(region, offset_from(start, found))
            &&& invalid_reported(handler, start, region)
        };
    let length = (area.end - area.start + 16) as usize;
    assert(maps(handler, area.start, length, 1, start, region));
    assert(region == memory_bytes(memory, area.start as int, length as nat));
    if let Some(address) = found {
        let offset = address - area.start;
        assert(holds_rsdp(region, offset));
        assert(region.subrange(offset, offset + 36) =~= memory_bytes(memory, address as int, 36));
    }
    if area.start <= place && place % 16 == 0 && place + 20 <= area.end && (found matches Some(
        address,
    ) ==> place < address) {
        let offset = place - area.start;
        let table = memory_bytes(memory, place, 36);
        assert(region.subrange(offset, offset + 36) =~= table);
        assert(!holds_rsdp(region, offset));
        if let Err(error) = validation(table) {
            if error != RsdpError::IncorrectSignature {
                assert(meets_invalid_rsdp(region, (offset as usize) as int, error));
            }
        }
    }
}

/// Where memory holds still, the result of a search is fixed by what memory holds.
///    - What is found lies in the BIOS area `0xe0000..0x100000` or in the EBDA, on a 16 byte
///      boundary and with its first 20 bytes inside the area. It is valid, and its 36 bytes are
///      those in memory.
///    - A valid table at a `place` in the BIOS area makes the search succeed there, no later than at
///      `place`. One in the EBDA makes it succeed in the BIOS area, or no later than at `place`.
///    - So the only failure is [`RsdpError::NoValidRsdp`], and there is no valid table then.
///    - The handler was told of an invalid table at `place` that the search came across.
pub proof fn law_search_of_still_memory<H: AcpiHandler>(
    handler: H,
    memory: spec_fn(int) -> u8,
    table_at: spec_fn(int) -> Seq<u8>,
    ebda_start: int,
    ebda_end: int,
    result: Result<PhysicalMapping<H, Rsdp>, RsdpError>,
    place: int,
)
    requires
        // Every mapping within the address space shows what `memory` holds there.
        forall|
            address: usize,
            size: usize,
            value_size: usize,
            region: H::Region,
            start: usize,
            bytes: &[u8],
        |
            #![trigger
                call_ensures(H::map_physical_region, (&handler, address, size, value_size), region),
                call_ensures(H::Region::physical_start, (&region,), start),
                call_ensures(H::Region::as_bytes, (&region,), bytes)
            ]
            {
                &&& call_ensures(
                    H::map_physical_region,
                    (&handler, address, size, value_size),
                    region,
                )
                &&& call_ensures(H::Region::physical_start, (&region,), start)
                &&& call_ensures(H::Region::as_bytes, (&region,), bytes)
                &&& address + size <= usize::MAX + 1
            } ==> {
                &&& start == address
                &&& bytes@.len() == size
                &&& forall|i: int| 0 <= i < size ==> #[trigger] bytes@[i] == memory(address + i)
            },
        // `table_at` gives the 36 bytes from an address on.
        forall|address: int| (#[trigger] table_at(address)).len() == 36,
        forall|address: int, i: int|
            0 <= i < 36 ==> #[trigger] table_at(address)[i] == memory(address + i),
        // The EBDA lies from `ebda_start` to `ebda_end`.
        ({
            let ebda = 16 * (memory(0x40e) + 256 * memory(0x40f));
            if 0x8_0000 <= ebda < 0x9_ffff {
                ebda_start == ebda && ebda_end == ebda + 1024
            } else {
                ebda_start == 0x8_0000 && ebda_end == 0xa_0000
            }
        }),
        search_outcome(handler, result),
    ensures
        match result {
            Ok(mapping) => {
                let found = mapping.physical_start() as int;
                &&& found % 16 == 0
                &&& 0xe_0000 <= found <= 0x10_0000 - 20 || ebda_start <= found <= ebda_end - 20
                &&& mapping.value()@ == table_at(found)
                &&& mapping.region_length() == 36
                &&& validation(table_at(found)) is Ok
            },
            Err(error) => error == RsdpError::NoValidRsdp,
        },
        place % 16 == 0 && 0xe_0000 <= place <= 0x10_0000 - 20 ==> match validation(
            table_at(place),
        ) {
            Ok(()) => result is Ok && 0xe_0000 <= result->Ok_0.physical_start() <= place,
            Err(RsdpError::IncorrectSignature) => true,
            Err(error) => {
                ||| result is Ok && 0xe_0000 <= result->Ok_0.physical_start() < place
                ||| call_ensures(H::invalid_rsdp, (&handler, place as usize, error), ())
            },
        },
        place % 16 == 0 && ebda_start <= place <= ebda_end - 20 ==> match validation(
            table_at(place),
        ) {
            Ok(()) => {
                &&& result is Ok
                &&& {
                    ||| result->Ok_0.physical_start() >= 0xe_0000
                    ||| result->Ok_0.physical_start() <= place
                }
            },
            Err(RsdpError::IncorrectSignature) => true,
            Err(error) => {
                ||| result is Ok && result->Ok_0.physical_start() >= 0xe_0000
                ||| result is Ok && result->Ok_0.physical_start() < place
                ||| call_ensures(H::invalid_rsdp, (&handler, place as usize, error), ())
            },
        },
{
    lemma_shows_memory(handler, memory);
    let seen = law_search_result(handler, result);
    let found = match result {
        Ok(_) => Some(seen.0),
        Err(_) => None,
    };
    let read = law_bios_search(handler, found);
    lemma_still_word(handler, memory, read);
    assert(table_at(place) =~= memory_bytes(memory, place, 36));
    let bios = Range { start: 0xe_0000usize, end: 0x10_0000usize };
    let ebda = Range { start: ebda_start as usize, end: ebda_end as usize };
    if found is Some && area_search(handler, bios, found) {
        lemma_static_area(handler, memory, bios, found, place);
    } else {
        lemma_static_area(handler, memory, bios, None, place);
        lemma_static_area(handler, memory, ebda, found, place);
    }
    if let Ok(mapping) = result {
        assert(shows(mapping.region(), mapping.physical_start(), seen.1@));
        assert(maps(handler, seen.0, 36, 36, mapping.physical_start(), seen.1@));
        assert(table_at(seen.0 as int) =~= memory_bytes(memory, seen.0 as int, 36));
        assert(seen.1@.subrange(0, 36) =~= seen.1@);
    }
}

proof fn lemma_still_word<H: AcpiHandler>(
    handler: H,
    memory: spec_fn(int) -> u8,
    read: (H::Region, usize, &[u8]),
)
    requires
        shows_memory(handler, memory),
        call_ensures(H::map_physical_region, (&handler, 0x40e, 2, 2), read.0),
        call_ensures(H::Region::physical_start, (&read.0,), read.1),
        call_ensures(H::Region::as_bytes, (&read.0,), read.2),
    ensures
        read.2@[0] == memory(0x40e),
        read.2@[1] == memory(0x40f),
{
    assert(shows(read.0, read.1, read.2@));
    assert(maps(handler, 0x40e, 2, 2, read.1, read.2@));
}

/// Where memory holds still, all that a search does with the handler is fixed by what memory holds,
/// and it is allowed wherever the following is.
///    - Mapping the two bytes at `0x40e`.
///    - Mapping `0xe0000..0x100000` and the 16 bytes behind it.
///    - Mapping the EBDA and the 16 bytes behind it, if no valid table lies in the BIOS area.
///    - Mapping the first valid table, and reporting the invalid ones before it. A place is
///      `reached` if no valid table comes before it.
pub proof fn law_search_of_still_memory_allowed<H: AcpiHandler>(
    handler: H,
    memory: spec_fn(int) -> u8,
    table_at: spec_fn(int) -> Seq<u8>,
    ebda_start: int,
    ebda_end: int,
    reached: spec_fn(int) -> bool,
)
    requires
        // Every mapping within the address space shows what `memory` holds there.
        forall|
            address: usize,
            size: usize,
            value_size: usize,
            region: H::Region,
            start: usize,
            bytes: &[u8],
        |
            #![trigger
                call_ensures(H::map_physical_region, (&handler, address, size, value_size), region),
                call_ensures(H::Region::physical_start, (&region,), start),
                call_ensures(H::Region::as_bytes, (&region,), bytes)
            ]
            {
                &&& call_ensures(
                    H::map_physical_region,
                    (&handler, address, size, value_size),
                    region,
                )
                &&& call_ensures(H::Region::physical_start, (&region,), start)
                &&& call_ensures(H::Region::as_bytes, (&region,), bytes)
                &&& address + size <= usize::MAX + 1
            } ==> {
                &&& start == address
                &&& bytes@.len() == size
                &&& forall|i: int| 0 <= i < size ==> #[trigger] bytes@[i] == memory(address + i)
            },
        // `table_at` gives the 36 bytes from an address on.
        forall|address: int| (#[trigger] table_at(address)).len() == 36,
        forall|address: int, i: int|
            0 <= i < 36 ==> #[trigger] table_at(address)[i] == memory(address + i),
        // The EBDA lies from `ebda_start` to `ebda_end`.
        ({
            let ebda = 16 * (memory(0x40e) + 256 * memory(0x40f));
            if 0x8_0000 <= ebda < 0x9_ffff {
                ebda_start == ebda && ebda_end == ebda + 1024
            } else {
                ebda_start == 0x8_0000 && ebda_end == 0xa_0000
            }
        }),
        forall|place: int| #[trigger]
            reached(place) <==> place % 16 == 0 && {
                ||| 0xe_0000 <= place <= 0x10_0000 - 20 && forall|earlier: int|
                    0xe_0000 <= earlier < place && earlier % 16 == 0 ==> validation(
                        #[trigger] table_at(earlier),
                    ) is Err
                ||| ebda_start <= place <= ebda_end - 20 && forall|earlier: int|
                    earlier % 16 == 0 && (0xe_0000 <= earlier <= 0x10_0000 - 20 || ebda_start
                        <= earlier < place) ==> validation(#[trigger] table_at(earlier)) is Err
            },
        handler.mappable(0x40e, 2),
        handler.mappable(0xe_0000, 0x2_0010),
        reached(ebda_start) ==> handler.mappable(
            ebda_start as usize,
            (ebda_end - ebda_start + 16) as usize,
        ),
        forall|address: usize|
            reached(address as int) && validation(table_at(address as int)) is Ok
                ==> #[trigger] handler.mappable(address, 36),
        forall|address: usize, error: RsdpError|
            reached(address as int) && validation(table_at(address as int)) == Err::<(), _>(error)
                && error != RsdpError::IncorrectSignature ==> #[trigger] handler.reportable(
                address,
                error,
            ),
    ensures
        may_search(handler),
{
    lemma_shows_memory(handler, memory);
    assert forall|address: int| #[trigger] table_at(address) == memory_bytes(
        memory,
        address,
        36,
    ) by {
        assert(table_at(address) =~= memory_bytes(memory, address, 36));
    }
    let bios = Range { start: 0xe_0000usize, end: 0x10_0000usize };
    let ebda = Range { start: ebda_start as usize, end: ebda_end as usize };
    assert(bios == bios_area());
    assert forall|word: Seq<u8>| #[trigger] shows_word(handler, word) implies {
        &&& ebda_area(segment_of(word)) == ebda
        &&& may_map_and_report(handler, bios_area())
        &&& area_search(handler, bios_area(), None) ==> may_map_and_report(handler, ebda)
    } by {
        let read = lemma_read_word(handler, word);
        lemma_still_word(handler, memory, read);
        law_segment(word);
        assert forall|start: usize, region: Seq<u8>, offset: usize, error: RsdpError|
            {
                &&& #[trigger] shows_area(handler, bios, start, region)
                &&& #[trigger] meets_invalid_rsdp(region, offset as int, error)
            } implies handler.reportable((start + offset) as usize, error) by {
            lemma_still_invalid(handler, memory, bios, start, region, offset, error);
            assert(reached(start + offset));
        }
        if area_search(handler, bios_area(), None) {
            assert forall|place: int|
                place % 16 == 0 && 0xe_0000 <= place <= 0x10_0000 - 20 implies validation(
                #[trigger] table_at(place),
            ) is Err by {
                lemma_static_area(handler, memory, bios, None, place);
            }
            assert(reached(ebda_start));
            assert forall|start: usize, region: Seq<u8>, offset: usize, error: RsdpError|
                {
                    &&& #[trigger] shows_area(handler, ebda, start, region)
                    &&& #[trigger] meets_invalid_rsdp(region, offset as int, error)
                } implies handler.reportable((start + offset) as usize, error) by {
                lemma_still_invalid(handler, memory, ebda, start, region, offset, error);
                assert(reached(start + offset));
            }
        }
    }
    assert forall|address: usize| #[trigger] bios_search_finds(handler, address) implies
        handler.mappable(address, 36) by {
        let found = Some(address);
        let read = law_bios_search(handler, found);
        lemma_still_word(handler, memory, read);
        if area_search(handler, bios, found) {
            lemma_static_area(handler, memory, bios, found, 0);
            assert forall|place: int|
                place % 16 == 0 && 0xe_0000 <= place < address implies validation(
                #[trigger] table_at(place),
            ) is Err by {
                lemma_static_area(handler, memory, bios, found, place);
            }
        } else {
            lemma_static_area(handler, memory, ebda, found, 0);
            assert forall|place: int|
                place % 16 == 0 && (0xe_0000 <= place <= 0x10_0000 - 20 || ebda_start <= place
                    < address) implies validation(#[trigger] table_at(place)) is Err by {
                lemma_static_area(handler, memory, bios, None, place);
                lemma_static_area(handler, memory, ebda, found, place);
            }
        }
        assert(reached(address as int));
        assert(validation(table_at(address as int)) is Ok);
    }
}

proof fn lemma_still_invalid<H: AcpiHandler>(
    handler: H,
    memory: spec_fn(int) -> u8,
    area: Range<usize>,
    start: usize,
    region: Seq<u8>,
    offset: usize,
    error: RsdpError,
)
    requires
        shows_memory(handler, memory),
        area.start % 16 == 0,
        area.start + 1024 <= area.end <= 0x10_0000,
        shows_area(handler, area, start, region),
        meets_invalid_rsdp(region, offset as int, error),
    ensures
        start == area.start,
        (start + offset) % 16 == 0,
        start + offset + 20 <= area.end,
        validation(memory_bytes(memory, start + offset, 36)) == Err::<(), _>(error),
        error != RsdpError::IncorrectSignature,
        forall|place: int|
            start <= place < start + offset && place % 16 == 0 ==> validation(
                #[trigger] memory_bytes(memory, place, 36),
            ) is Err,
{
    let length = (area.end - area.start + 16) as usize;
    assert(maps(handler, area.start, length, 1, start, region));
    assert(region.subrange(offset as int, offset + 36) =~= memory_bytes(
        memory,
        start + offset,
        36,
    ));
    assert forall|place: int| start <= place < start + offset && place % 16 == 0 implies validation(
        #[trigger] memory_bytes(memory, place, 36),
    ) is Err by {
        assert(region.subrange(place - start, place - start + 36) =~= memory_bytes(
            memory,
            place,
            36,
        ));
        assert(!holds_rsdp(region, place - start));
    }
}

} // verus!
