//! Access to physical memory, which the user of the library provides.

use crate::error::RsdpError;
use vstd::prelude::*;

verus! {

/// A mapped region of physical memory. Dropping it unmaps the region.
pub trait MappedRegion: Sized {
    /// The physical address of the first byte of the region.
    fn physical_start(&self) -> usize;

    /// The bytes of the region.
    fn as_bytes(&self) -> &[u8];
}

/// Maps regions of physical memory. An implementation of this trait must be provided by the user.
///
/// Nothing is assumed of what memory holds, nor that two mappings of one address agree: every
/// guarantee of a search is stated for whatever the mappings happened to show.
pub trait AcpiHandler: Sized {
    type Region: MappedRegion;

    /// The `size` bytes from `physical_address` on may be mapped. No other memory is ever touched.
    open spec fn mappable(&self, physical_address: usize, size: usize) -> bool {
        true
    }

    /// The handler may be told that an RSDP at `physical_address` is invalid because of `error`.
    open spec fn reportable(&self, physical_address: usize, error: RsdpError) -> bool {
        true
    }

    /// Maps a region of physical memory that starts with a value of `value_size` bytes.
    ///
    /// `size` is the number of bytes that are asked for. An implementation must keep that the
    /// region shows at least all bytes of the value, and that it ends within the address
    /// space. This is all that the library relies on: where a region starts elsewhere than was
    /// asked for, or is shorter or longer, what it shows is what is searched.
    fn map_physical_region(
        &self,
        physical_address: usize,
        size: usize,
        value_size: usize,
    ) -> (region: Self::Region)
        requires
            self.mappable(physical_address, size),
            value_size <= size,
        ensures
            forall|start: usize, contents: Seq<u8>| #[trigger]
                shows(region, start, contents) ==> {
                    &&& value_size <= contents.len()
                    &&& start + contents.len() <= usize::MAX + 1
                },
    ;

    /// Told of each RSDP that has the right signature, but is invalid all the same.
    fn invalid_rsdp(&self, physical_address: usize, error: RsdpError)
        requires
            self.reportable(physical_address, error),
            error == RsdpError::InvalidOemId || error == RsdpError::InvalidChecksum,
    {
    }
}

/// Looking at `region` can show `contents` from the physical address `start` on.
pub open spec fn shows<R: MappedRegion>(region: R, start: usize, contents: Seq<u8>) -> bool {
    &&& call_ensures(R::physical_start, (&region,), start)
    &&& exists|bytes: &[u8]|
        {
            &&& #[trigger] call_ensures(R::as_bytes, (&region,), bytes)
            &&& bytes@ == contents
        }
}

/// Mapping `size` bytes at `physical_address` through `handler`, where a value of `value_size`
/// bytes lies, can show `contents` from the physical address `start` on.
pub open spec fn maps<H: AcpiHandler>(
    handler: H,
    physical_address: usize,
    size: usize,
    value_size: usize,
    start: usize,
    contents: Seq<u8>,
) -> bool {
    exists|region: H::Region|
        {
            &&& #[trigger] call_ensures(
                H::map_physical_region,
                (&handler, physical_address, size, value_size),
                region,
            )
            &&& shows(region, start, contents)
        }
}

/// Every mapping through `handler` that stays within the address space shows just the bytes that
/// were asked for, as `memory` holds them. It gives the byte at each physical address.
pub open spec fn shows_memory<H: AcpiHandler>(handler: H, memory: spec_fn(int) -> u8) -> bool {
    forall|
        physical_address: usize,
        size: usize,
        value_size: usize,
        start: usize,
        contents: Seq<u8>,
    |
        {
            &&& #[trigger] maps(handler, physical_address, size, value_size, start, contents)
            &&& physical_address + size <= usize::MAX + 1
        } ==> {
            &&& start == physical_address
            &&& contents == memory_bytes(memory, physical_address as int, size as nat)
        }
}

/// The `size` bytes that `memory` holds from `physical_address` on.
pub open spec fn memory_bytes(
    memory: spec_fn(int) -> u8,
    physical_address: int,
    size: nat,
) -> Seq<u8> {
    Seq::new(size, |i: int| memory(physical_address + i))
}

/// A `T` in physical memory, as it was read from there. Its region stays mapped as long as this
/// value lives.
pub struct PhysicalMapping<H: AcpiHandler, T> {
    physical_start: usize,
    region_length: usize,
    value: T,
    region: H::Region,
}

impl<H: AcpiHandler, T> PhysicalMapping<H, T> {
    pub(crate) fn new(
        physical_start: usize,
        region_length: usize,
        value: T,
        region: H::Region,
    ) -> (mapping: Self)
        ensures
            mapping.physical_start() == physical_start,
            mapping.region_length() == region_length,
            mapping.value() == value,
            mapping.region() == region,
    {
        PhysicalMapping { physical_start, region_length, value, region }
    }

    pub closed spec fn spec_physical_start(&self) -> usize {
        self.physical_start
    }

    pub closed spec fn spec_region_length(&self) -> usize {
        self.region_length
    }

    /// The `T` that was read.
    pub closed spec fn value(&self) -> T {
        self.value
    }

    /// The region that stays mapped.
    pub closed spec fn region(&self) -> H::Region {
        self.region
    }

    /// The physical address of the mapped `T`.
    #[verifier::when_used_as_spec(spec_physical_start)]
    pub fn physical_start(&self) -> (start: usize)
        ensures
            start == self.physical_start(),
    {
        self.physical_start
    }

    /// The region that stays mapped as long as this value lives.
    pub fn mapped_region(&self) -> (region: &H::Region)
        ensures
            *region == self.region(),
    {
        &self.region
    }

    /// The number of bytes that are mapped.
    #[verifier::when_used_as_spec(spec_region_length)]
    pub fn region_length(&self) -> (length: usize)
        ensures
            length == self.region_length(),
    {
        self.region_length
    }
}

impl<H: AcpiHandler, T> core::ops::Deref for PhysicalMapping<H, T> {
    type Target = T;

    fn deref(&self) -> (value: &T)
        ensures
            *value == self.value(),
    {
        &self.value
    }
}

} // verus!
