//! A read-only FAT32 volume reader.
//!
//! The crate decodes the on-disk structures of a FAT32 volume (BIOS parameter
//! block, file-allocation-table entries, directory records, long-filename
//! records), derives the volume geometry at mount time, and walks directory
//! cluster chains through a single-sector read buffer backed by an abstract
//! block device.

use vstd::prelude::*;

pub mod block_device;
pub mod bytes;
pub mod cluster_walker;
pub mod dir;
pub mod fs;
pub mod geometry;
pub mod math;
pub mod prim;
pub mod read_buffer;

verus! {

/// Failures surfaced by the volume reader.
///
/// Every fallible operation reports one of these; the reader performs no
/// retries and no repair.
#[derive(Clone, Copy, Debug, PartialEq, Eq, Structural)]
pub enum Error {
    /// The mounted volume is FAT12 or FAT16, which the reader does not serve.
    UnsupportedVariant,
    /// A cluster index below 2 was handed to a walker.
    InvalidCluster,
    /// A file-allocation-table entry resolved to the bad-cluster sentinel,
    /// or to a next pointer below the first valid cluster index.
    CorruptedChain,
    /// The block device returned zero blocks where at least one was required.
    DeviceShortRead,
    /// Sector 0 is too short, or the geometry it encodes is invalid or would
    /// overflow the derived quantities.
    MalformedBpb,
}

} // verus!
