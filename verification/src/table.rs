//! The RSDP itself: its layout, its validation and its fields.

use crate::behaviour::{law_le_value_of_eight, law_le_value_of_four};
use crate::bytes::{
    byte_sum, le_bytes, le_value, lemma_le_bytes_len, lemma_le_bytes_of_value,
    lemma_le_limit_values, lemma_le_value_of_bytes, read_array, read_le, same_bytes, wrapping_sum,
    write_array, write_le,
};
use crate::error::RsdpError;
use vstd::prelude::*;
use vstd::utf8::{decode_utf8, valid_utf8};

verus! {

/// The size in bytes of the ACPI 1.0 RSDP.
pub const RSDP_V1_LENGTH: usize = 20;

/// The size in bytes of the whole RSDP, with the fields introduced in ACPI 2.0.
pub const RSDP_LENGTH: usize = 36;

/// The total size in bytes of the RSDP fields introduced in ACPI 2.0.
pub const RSDP_V2_EXT_LENGTH: usize = RSDP_LENGTH - RSDP_V1_LENGTH;

/// The size in bytes covered by the ACPI 2.0+ extended checksum.
pub const RSDP_XCHECKSUM_LENGTH: usize = 36;

/// The RSDP's signature, `"RSD PTR "` (note the trailing space).
pub const RSDP_SIGNATURE: [u8; 8] = [0x52, 0x53, 0x44, 0x20, 0x50, 0x54, 0x52, 0x20];

/// The first structure found in ACPI. It just tells us where the RSDT is.
///
/// On BIOS systems, it is either found in the first 1KB of the Extended Bios Data Area, or between
/// 0x000E0000 and 0x000FFFFF. The signature is always on a 16 byte boundary. On (U)EFI, it may not
/// be located in these locations, and so an address should be found in the EFI configuration table
/// instead.
///
/// The recommended way of locating the RSDP is to let the bootloader do it - Multiboot2 can pass a
/// tag with the physical address of it. If this is not possible, a manual scan can be done.
///
/// If `revision >= 2`, the RSDP contains the extended fields introduced in ACPI 2.0. Revisions
/// below 2 are handled as legacy RSDPs, so these fields are not valid and must not be accessed.
/// For ACPI Version 2.0+, `xsdt_address` should be used when it is non-zero (truncated to `u32` on
/// x86); otherwise, `rsdt_address` should be used.
///
/// In contracts a table is viewed as the bytes that it takes in memory, where integers are stored
/// least significant byte first.
#[derive(Clone, Copy, Debug)]
pub struct Rsdp {
    signature: [u8; 8],
    checksum: u8,
    oem_id: [u8; 6],
    revision: u8,
    rsdt_address: u32,
    // These fields are only valid for ACPI Version 2.0 and greater
    length: u32,
    xsdt_address: u64,
    ext_checksum: u8,
    reserved: [u8; 3],
}

/// What validation says of the table that lies in memory as `table`.
///
/// The checks come in this order: the signature, the OEM id, the standard checksum over the ACPI
/// 1.0 part, and, from revision 2 on, the extended checksum. The first that fails is reported.
pub open spec fn validation(table: Seq<u8>) -> Result<(), RsdpError> {
    if table.subrange(0, 8) != RSDP_SIGNATURE@ {
        Err(RsdpError::IncorrectSignature)
    } else if !valid_utf8(table.subrange(9, 15)) {
        Err(RsdpError::InvalidOemId)
    } else if byte_sum(table.subrange(0, RSDP_V1_LENGTH as int)) % 256 != 0 {
        Err(RsdpError::InvalidChecksum)
    } else if table[15] >= 2 && byte_sum(table.subrange(0, RSDP_XCHECKSUM_LENGTH as int)) % 256
        != 0 {
        Err(RsdpError::InvalidChecksum)
    } else {
        Ok(())
    }
}

impl View for Rsdp {
    type V = Seq<u8>;

    /// The table as it lies in memory.
    closed spec fn view(&self) -> Seq<u8> {
        self.signature@ + seq![self.checksum] + self.oem_id@ + seq![self.revision] + le_bytes(
            self.rsdt_address as nat,
            4,
        ) + le_bytes(self.length as nat, 4) + le_bytes(self.xsdt_address as nat, 8)
            + seq![self.ext_checksum] + self.reserved@
    }
}

impl Rsdp {
    proof fn lemma_layout(&self)
        ensures
            self@.len() == RSDP_LENGTH,
            self@.subrange(0, 8) == self.signature@,
            self@[8] == self.checksum,
            self@.subrange(9, 15) == self.oem_id@,
            self@[15] == self.revision,
            self@.subrange(16, 20) == le_bytes(self.rsdt_address as nat, 4),
            self@.subrange(20, 24) == le_bytes(self.length as nat, 4),
            self@.subrange(24, 32) == le_bytes(self.xsdt_address as nat, 8),
            self@[32] == self.ext_checksum,
            self@.subrange(33, 36) == self.reserved@,
            self.rsdt_address == le_value(self@.subrange(16, 20)),
            self.length == le_value(self@.subrange(20, 24)),
            self.xsdt_address == le_value(self@.subrange(24, 32)),
    {
        lemma_le_limit_values();
        lemma_le_bytes_len(self.rsdt_address as nat, 4);
        lemma_le_bytes_len(self.length as nat, 4);
        lemma_le_bytes_len(self.xsdt_address as nat, 8);
        lemma_le_value_of_bytes(self.rsdt_address as nat, 4);
        lemma_le_value_of_bytes(self.length as nat, 4);
        lemma_le_value_of_bytes(self.xsdt_address as nat, 8);
        assert(self@.subrange(0, 8) =~= self.signature@);
        assert(self@.subrange(9, 15) =~= self.oem_id@);
        assert(self@.subrange(16, 20) =~= le_bytes(self.rsdt_address as nat, 4));
        assert(self@.subrange(20, 24) =~= le_bytes(self.length as nat, 4));
        assert(self@.subrange(24, 32) =~= le_bytes(self.xsdt_address as nat, 8));
        assert(self@.subrange(33, 36) =~= self.reserved@);
    }

    /// Reads the table that lies `at` bytes into `bytes`.
    pub(crate) fn read(bytes: &[u8], at: usize) -> (rsdp: Rsdp)
        requires
            at + RSDP_LENGTH <= bytes@.len(),
        ensures
            rsdp@ == bytes@.subrange(at as int, at + RSDP_LENGTH),
    {
        assert(at + RSDP_LENGTH <= bytes.len());
        proof {
            lemma_le_limit_values();
        }
        let rsdp = Rsdp {
            signature: read_array::<8>(bytes, at),
            checksum: bytes[at + 8],
            oem_id: read_array::<6>(bytes, at + 9),
            revision: bytes[at + 15],
            rsdt_address: read_le(bytes, at + 16, 4) as u32,
            length: read_le(bytes, at + 20, 4) as u32,
            xsdt_address: read_le(bytes, at + 24, 8),
            ext_checksum: bytes[at + 32],
            reserved: read_array::<3>(bytes, at + 33),
        };
        proof {
            let table = bytes@.subrange(at as int, at + RSDP_LENGTH);
            lemma_le_bytes_of_value(bytes@.subrange(at + 16, at + 20));
            lemma_le_bytes_of_value(bytes@.subrange(at + 20, at + 24));
            lemma_le_bytes_of_value(bytes@.subrange(at + 24, at + 32));
            assert(rsdp@ =~= table);
        }
        rsdp
    }

    /// Reads a table as it lies in memory.
    pub fn from_bytes(bytes: &[u8; RSDP_LENGTH]) -> (rsdp: Rsdp)
        ensures
            rsdp@ == bytes@,
    {
        let rsdp = Rsdp::read(bytes, 0);
        assert(bytes@.subrange(0, RSDP_LENGTH as int) =~= bytes@);
        rsdp
    }

    /// The table as it lies in memory.
    pub fn to_bytes(&self) -> (bytes: [u8; RSDP_LENGTH])
        ensures
            bytes@ == self@,
    {
        let mut bytes: [u8; RSDP_LENGTH] = [0; RSDP_LENGTH];
        write_array(&mut bytes, 0, &self.signature);
        bytes[8] = self.checksum;
        write_array(&mut bytes, 9, &self.oem_id);
        bytes[15] = self.revision;
        write_le(&mut bytes, 16, 4, self.rsdt_address as u64);
        write_le(&mut bytes, 20, 4, self.length as u64);
        write_le(&mut bytes, 24, 8, self.xsdt_address);
        bytes[32] = self.ext_checksum;
        write_array(&mut bytes, 33, &self.reserved);
        proof {
            lemma_le_bytes_len(self.rsdt_address as nat, 4);
            lemma_le_bytes_len(self.length as nat, 4);
            lemma_le_bytes_len(self.xsdt_address as nat, 8);
            assert(bytes@ =~= self@);
        }
        bytes
    }

    /// Checks that:
    ///     1) The signature is correct
    ///     2) The OEM id is valid UTF-8, so that [`Rsdp::oem_id`] may be called
    ///     3) The checksum is correct
    ///     4) For Version 2.0+, that the extension checksum is correct
    pub fn validate(&self) -> (result: Result<(), RsdpError>)
        ensures
            result == validation(self@),
    {
        proof {
            self.lemma_layout();
        }
        if !same_bytes(&self.signature, &RSDP_SIGNATURE) {
            return Err(RsdpError::IncorrectSignature);
        }
        if core::str::from_utf8(&self.oem_id).is_err() {
            return Err(RsdpError::InvalidOemId);
        }
        let bytes = self.to_bytes();
        // The standard checksum covers the first 20 bytes, whatever the revision.
        if wrapping_sum(&bytes, RSDP_V1_LENGTH) != 0 {
            return Err(RsdpError::InvalidChecksum);
        }
        // From ACPI 2.0 on, the extended checksum must hold as well.
        if self.revision >= 2 {
            if wrapping_sum(&bytes, RSDP_XCHECKSUM_LENGTH) != 0 {
                return Err(RsdpError::InvalidChecksum);
            }
        }
        Ok(())
    }

    pub fn signature(&self) -> (signature: [u8; 8])
        ensures
            signature@ == self@.subrange(0, 8),
    {
        proof {
            self.lemma_layout();
        }
        self.signature
    }

    pub fn checksum(&self) -> (checksum: u8)
        ensures
            checksum == self@[8],
    {
        proof {
            self.lemma_layout();
        }
        self.checksum
    }

    /// The OEM id, which must be valid UTF-8: [`Rsdp::validate`] checks that.
    pub fn oem_id(&self) -> (oem_id: &str)
        requires
            valid_utf8(self@.subrange(9, 15)),
        ensures
            oem_id@ == decode_utf8(self@.subrange(9, 15)),
    {
        proof {
            self.lemma_layout();
        }
        core::str::from_utf8(&self.oem_id).unwrap()
    }

    pub fn revision(&self) -> (revision: u8)
        ensures
            revision == self@[15],
    {
        proof {
            self.lemma_layout();
        }
        self.revision
    }

    pub fn rsdt_address(&self) -> (rsdt_address: u32)
        ensures
            rsdt_address == le_value(self@.subrange(16, 20)),
            rsdt_address == self@[16] + 0x100 * self@[17] + 0x1_0000 * self@[18] + 0x100_0000
                * self@[19],
    {
        proof {
            self.lemma_layout();
            law_le_value_of_four(self@.subrange(16, 20));
        }
        self.rsdt_address
    }

    /// The length of the table, which only ACPI 2.0+ tables have.
    pub fn length(&self) -> (length: u32)
        requires
            self@[15] >= 2,
        ensures
            length == le_value(self@.subrange(20, 24)),
            length == self@[20] + 0x100 * self@[21] + 0x1_0000 * self@[22] + 0x100_0000
                * self@[23],
    {
        proof {
            self.lemma_layout();
            law_le_value_of_four(self@.subrange(20, 24));
        }
        self.length
    }

    /// The address of the XSDT, which only ACPI 2.0+ tables have.
    pub fn xsdt_address(&self) -> (xsdt_address: u64)
        requires
            self@[15] >= 2,
        ensures
            xsdt_address == le_value(self@.subrange(24, 32)),
            xsdt_address == self@[24] + 0x100 * self@[25] + 0x1_0000 * self@[26] + 0x100_0000
                * self@[27] + 0x1_0000_0000 * self@[28] + 0x100_0000_0000 * self@[29]
                + 0x1_0000_0000_0000 * self@[30] + 0x100_0000_0000_0000 * self@[31],
    {
        proof {
            self.lemma_layout();
            law_le_value_of_eight(self@.subrange(24, 32));
        }
        self.xsdt_address
    }

    /// The extended checksum, which only ACPI 2.0+ tables have.
    pub fn ext_checksum(&self) -> (ext_checksum: u8)
        requires
            self@[15] >= 2,
        ensures
            ext_checksum == self@[32],
    {
        proof {
            self.lemma_layout();
        }
        self.ext_checksum
    }
}

/// A table takes 36 bytes in memory, and two tables that take the same bytes are the same.
pub proof fn law_table_is_its_bytes(a: Rsdp, b: Rsdp)
    ensures
        a@.len() == RSDP_LENGTH,
        a@ == b@ ==> a == b,
{
    a.lemma_layout();
    b.lemma_layout();
    if a@ == b@ {
        assert(a.signature =~= b.signature);
        assert(a.oem_id =~= b.oem_id);
        assert(a.reserved =~= b.reserved);
    }
}

} // verus!
