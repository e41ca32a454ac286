//! The abstract block device under the volume, and an in-memory
//! implementation of it.
//!
//! The reader never touches storage directly: every sector comes in through
//! [`BlockDevice::read_blocks`]. The device is modelled by its byte content
//! ([`BlockDevice::spec_data`]): a read delivers exactly the addressed bytes
//! of that content, whole blocks only, clipped at the end of the content.
//! The trait is meant to be implemented by the host as well (a file-backed
//! device, say); the contracts below state everything the verified reader
//! relies on.

use vstd::arithmetic::overflow::CheckedU64;
use vstd::assert_seqs_equal;
use vstd::prelude::*;

use crate::math::u16_is_power_of_two;

verus! {

/// How many blocks a device holding `image_len` bytes serves for a read of
/// `dest_len` bytes starting at block `start_block`: the whole blocks
/// available from there to the end of the content, capped by the blocks
/// that fit the destination; none when the start lies at or past the end.
pub open spec fn spec_blocks_served(
    image_len: int,
    block_size: int,
    start_block: int,
    dest_len: int,
) -> int {
    if start_block * block_size >= image_len {
        0
    } else {
        let available = (image_len - start_block * block_size) / block_size;
        let wanted = dest_len / block_size;
        if available < wanted {
            available
        } else {
            wanted
        }
    }
}

/// The bytes of volume sector `sector_index` within device content `data`.
pub open spec fn spec_sector_content(data: Seq<u8>, sector_size: int, sector_index: int) -> Seq<
    u8,
> {
    data.subrange(sector_index * sector_size, sector_index * sector_size + sector_size)
}

/// A synchronous, block-addressed backing store with a fixed block size.
pub trait BlockDevice: Sized {
    /// The device's block size, as a specification-level value. A verified
    /// implementation overrides the default; the default only spares
    /// unverified host implementations from providing ghost items.
    open spec fn spec_block_size(&self) -> u16 {
        512
    }

    /// The device's byte content. A verified implementation overrides the
    /// default.
    open spec fn spec_data(&self) -> Seq<u8> {
        Seq::empty()
    }

    /// Number of read calls the device has served, as a specification-level
    /// value. It lets callers state that an operation issued no device read,
    /// or exactly a given number of them. A verified implementation
    /// overrides the default.
    open spec fn spec_reads(&self) -> nat {
        0
    }

    /// The device's block size: constant, a power of two, at least 512.
    fn block_size(&self) -> (r: u16)
        ensures
            r == self.spec_block_size(),
            r >= 512,
            u16_is_power_of_two(r),
    ;

    /// Reads consecutive blocks starting at `start_block` into the front of
    /// `destination`: exactly the whole blocks available there, capped by
    /// the destination's capacity ([`spec_blocks_served`]), and returns how
    /// many blocks were read. Returning zero signals that no data exists at
    /// `start_block`. The destination must be a positive multiple of the
    /// block size; its length is never changed, and the device's content is
    /// not. One call counts as exactly one device read.
    fn read_blocks(&mut self, start_block: u64, destination: &mut Vec<u8>) -> (r: u64)
        requires
            old(destination).len() > 0,
            old(destination).len() as int % (old(self).spec_block_size() as int) == 0,
        ensures
            final(destination).len() == old(destination).len(),
            final(self).spec_block_size() == old(self).spec_block_size(),
            final(self).spec_data() == old(self).spec_data(),
            final(self).spec_reads() == old(self).spec_reads() + 1,
            r == spec_blocks_served(
                old(self).spec_data().len() as int,
                old(self).spec_block_size() as int,
                start_block as int,
                old(destination).len() as int,
            ),
            r * old(self).spec_block_size() <= old(destination).len(),
            r > 0 ==> start_block * old(self).spec_block_size() + r * old(self).spec_block_size()
                <= old(self).spec_data().len(),
            r == 0 ==> final(destination)@ == old(destination)@,
            r > 0 ==> final(destination)@.subrange(0, r * old(self).spec_block_size()) == old(
                self,
            ).spec_data().subrange(
                start_block * old(self).spec_block_size(),
                start_block * old(self).spec_block_size() + r * old(self).spec_block_size(),
            ),
    ;
}

/// A block device over an in-memory byte image. Reads copy out of the image;
/// blocks past its end do not exist. The device counts the read calls it has
/// served, which makes caching behaviour observable.
pub struct MemoryBlockDevice {
    data: Vec<u8>,
    block_size: u16,
    read_count: CheckedU64,
}

impl MemoryBlockDevice {
    #[verifier::type_invariant]
    spec fn inv(&self) -> bool {
        self.block_size >= 512 && u16_is_power_of_two(self.block_size)
    }

    /// Builds a device over `data` with the given block size.
    pub fn new(data: Vec<u8>, block_size: u16) -> (r: Self)
        requires
            block_size >= 512,
            u16_is_power_of_two(block_size),
        ensures
            r.spec_block_size() == block_size,
            r.spec_data() == data@,
            r.spec_reads() == 0,
    {
        MemoryBlockDevice { data, block_size, read_count: CheckedU64::new(0) }
    }

    /// How many read calls the device has served.
    pub fn reads(&self) -> (r: u64)
        ensures
            self.spec_reads() <= u64::MAX ==> r == self.spec_reads(),
    {
        match self.read_count.to_option() {
            Some(v) => v,
            None => u64::MAX,
        }
    }
}

impl BlockDevice for MemoryBlockDevice {
    closed spec fn spec_block_size(&self) -> u16 {
        self.block_size
    }

    closed spec fn spec_data(&self) -> Seq<u8> {
        self.data@
    }

    closed spec fn spec_reads(&self) -> nat {
        self.read_count@
    }

    fn block_size(&self) -> (r: u16) {
        proof {
            use_type_invariant(&*self);
        }
        self.block_size
    }

    fn read_blocks(&mut self, start_block: u64, destination: &mut Vec<u8>) -> (r: u64) {
        proof {
            use_type_invariant(&*self);
        }
        self.read_count = self.read_count.add_value(1);
        let block_size = self.block_size as u64;
        let image_len = self.data.len() as u64;

        let offset = match start_block.checked_mul(block_size) {
            Some(o) => o,
            None => {
                return 0;
            },
        };
        if offset >= image_len {
            return 0;
        }

        let available_bytes = image_len - offset;
        let available_blocks = available_bytes / block_size;
        let dest_blocks = destination.len() as u64 / block_size;
        let blocks_read = if available_blocks < dest_blocks {
            available_blocks
        } else {
            dest_blocks
        };
        if blocks_read == 0 {
            return 0;
        }
        proof {
            vstd::arithmetic::div_mod::lemma_remainder_lower(
                available_bytes as int,
                block_size as int,
            );
            vstd::arithmetic::div_mod::lemma_remainder_lower(
                destination.len() as int,
                block_size as int,
            );
            vstd::arithmetic::mul::lemma_mul_inequality(
                blocks_read as int,
                available_blocks as int,
                block_size as int,
            );
            vstd::arithmetic::mul::lemma_mul_inequality(
                blocks_read as int,
                dest_blocks as int,
                block_size as int,
            );
            assert(blocks_read * block_size <= destination.len());
            assert(offset + blocks_read * block_size <= image_len);
        }
        let read_bytes = (blocks_read * block_size) as usize;
        let base = offset as usize;

        let ghost dest_len = destination.len() as int;
        let mut i: usize = 0;
        #[verifier::loop_isolation(false)]
        while i < read_bytes
            invariant
                i <= read_bytes,
                destination.len() == dest_len,
                forall|j: int| 0 <= j < i ==> destination@[j] == self.data@[base + j],
            decreases read_bytes - i,
        {
            let b = self.data[base + i];
            destination.set(i, b);
            i = i + 1;
        }
        proof {
            assert_seqs_equal!(
                destination@.subrange(0, read_bytes as int) == self.data@.subrange(
                    base as int,
                    base as int + read_bytes as int,
                ),
                t => {
                    assert(destination@[t] == self.data@[base + t]);
                }
            );
        }
        blocks_read
    }
}

} // verus!
