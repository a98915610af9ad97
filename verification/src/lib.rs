//! This crate provides types for representing the RSDP (the Root System Descriptor Table; the first ACPI table)
//! and methods for searching for it on BIOS systems. Nothing in it allocates. This is specifically meant to be used
//! from bootloaders for finding the RSDP, so it can be passed to the payload.
//!
//! To use this crate, you will need to provide an implementation of [`handler::AcpiHandler`].
//!
//! - [`table`] has the table itself: its layout in memory, its validation and its fields.
//! - [`areas`] says which areas of memory are searched, and [`search`] searches them.
//! - [`handler`] is the access to physical memory, and [`error`] what can go wrong.
//! - [`behaviour`] states what each of these does, over bytes and addresses, and [`laws`] what holds of all of them
//!   together.
//! - [`bytes`] holds byte sums and little-endian integers, and [`utf8`] what is taken on trust of the standard
//!   library.

pub mod areas;
pub mod behaviour;
pub mod bytes;
pub mod error;
pub mod handler;
pub mod laws;
pub mod search;
pub mod table;
pub mod utf8;

pub use crate::areas::find_search_areas;
pub use crate::error::RsdpError;
pub use crate::table::Rsdp;
