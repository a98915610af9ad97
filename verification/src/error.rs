//! Why a table is not a usable RSDP.

use vstd::prelude::*;

verus! {

/// What is wrong with a candidate RSDP, or with a whole search for one.
#[derive(Clone, Copy, PartialEq, Eq, Debug, Structural)]
pub enum RsdpError {
    /// No valid RSDP lies in any of the searched areas.
    NoValidRsdp,
    /// The table does not start with `"RSD PTR "`.
    IncorrectSignature,
    /// The OEM id is not valid UTF-8.
    InvalidOemId,
    /// One of the checksums does not add up to zero.
    InvalidChecksum,
}

} // verus!
