//! A sector cache over the block device.
//!
//! All sector reads of the volume walkers go through a [`ReadBuffer`]: a
//! byte buffer holding a block-aligned run of whole sectors, refilled from
//! the device one read at a time. The cache is coherent: every resident
//! sector holds exactly that sector's bytes of the device content. Loading a
//! sector that is already resident touches neither the buffer nor the
//! device, so loads are idempotent and a repeated load issues no second
//! device read.

use vstd::assert_seqs_equal;
use vstd::prelude::*;
use vstd::slice::slice_subrange;

use crate::block_device::{spec_blocks_served, spec_sector_content, BlockDevice};
use crate::Error;

verus! {

/// The first sector of the refill window aimed at `sector_index`: the
/// window starts at the block holding that sector's first byte.
pub open spec fn spec_refill_first_sector(
    block_size: int,
    sector_size: int,
    sector_index: int,
) -> int {
    (((sector_index * sector_size) / block_size) * block_size) / sector_size
}

/// How many whole sectors a refill aimed at `sector_index` obtains from a
/// device holding `image_len` bytes, with a buffer of `buf_len` bytes.
pub open spec fn spec_sectors_served(
    image_len: int,
    block_size: int,
    sector_size: int,
    sector_index: int,
    buf_len: int,
) -> int {
    (spec_blocks_served(image_len, block_size, (sector_index * sector_size) / block_size, buf_len)
        * block_size) / sector_size
}

/// A buffer holding a block-aligned run of whole sectors of the volume.
pub struct ReadBuffer {
    buffer: Vec<u8>,
    sector_size_bytes: u16,
    loaded_first_sector: u64,
    loaded_sector_count: u64,
}

impl ReadBuffer {
    /// The bytes currently held.
    pub closed spec fn buf(&self) -> Seq<u8> {
        self.buffer@
    }

    /// The configured sector size in bytes.
    pub closed spec fn sector_size(&self) -> int {
        self.sector_size_bytes as int
    }

    /// The first resident sector, meaningful when anything is resident.
    pub closed spec fn loaded_first(&self) -> int {
        self.loaded_first_sector as int
    }

    /// How many consecutive sectors are resident; zero when none are.
    pub closed spec fn loaded_count(&self) -> int {
        self.loaded_sector_count as int
    }

    pub open spec fn wf(&self) -> bool {
        &&& self.sector_size() >= 512
        &&& self.loaded_count() * self.sector_size() <= self.buf().len()
        &&& self.loaded_first() + self.loaded_count() <= u64::MAX
    }

    /// True when sector `sector_index` is resident.
    pub open spec fn loaded_contains(&self, sector_index: int) -> bool {
        self.loaded_count() > 0 && self.loaded_first() <= sector_index
            < self.loaded_first() + self.loaded_count()
    }

    /// The resident bytes of sector `sector_index`.
    pub open spec fn loaded_sector_bytes(&self, sector_index: int) -> Seq<u8> {
        self.buf().subrange(
            (sector_index - self.loaded_first()) * self.sector_size(),
            (sector_index - self.loaded_first()) * self.sector_size() + self.sector_size(),
        )
    }

    /// The cache is faithful to a device holding `data`: every resident
    /// sector lies wholly within the device content and holds exactly that
    /// sector's bytes of it.
    pub open spec fn coherent_with(&self, data: Seq<u8>) -> bool {
        forall|j: int|
            #[trigger] self.loaded_contains(j) ==> j * self.sector_size() + self.sector_size()
                <= data.len() && self.loaded_sector_bytes(j) == spec_sector_content(
                data,
                self.sector_size(),
                j,
            )
    }

    /// What this buffer asks of a device's block size: sectors and blocks
    /// subdivide one another, and the buffer is a nonempty whole number of
    /// blocks with room for at least one sector.
    pub open spec fn device_compatible(&self, block_size: int) -> bool {
        &&& block_size >= 1
        &&& (block_size % self.sector_size() == 0 || self.sector_size() % block_size == 0)
        &&& self.buf().len() as int % block_size == 0
        &&& self.buf().len() >= block_size
        &&& self.buf().len() >= self.sector_size()
    }

    /// Wraps `buffer` as an empty sector cache.
    pub fn new(buffer: Vec<u8>, sector_size_bytes: u16) -> (r: Self)
        requires
            sector_size_bytes >= 512,
        ensures
            r.wf(),
            r.buf() == buffer@,
            r.sector_size() == sector_size_bytes,
            forall|i: int| !r.loaded_contains(i),
            forall|data: Seq<u8>| #[trigger] r.coherent_with(data),
    {
        ReadBuffer { buffer, sector_size_bytes, loaded_first_sector: 0, loaded_sector_count: 0 }
    }

    /// Runtime test for [`Self::loaded_contains`].
    fn is_loaded(&self, sector_index: u64) -> (r: bool)
        requires
            self.wf(),
        ensures
            r == self.loaded_contains(sector_index as int),
    {
        self.loaded_sector_count > 0 && sector_index >= self.loaded_first_sector
            && sector_index - self.loaded_first_sector < self.loaded_sector_count
    }

    /// The resident bytes of `sector_index`, or nothing when the sector is
    /// not resident. Never touches the device.
    pub fn get_loaded_sector(&self, sector_index: u64) -> (r: Option<&[u8]>)
        requires
            self.wf(),
        ensures
            r is Some <==> self.loaded_contains(sector_index as int),
            r matches Some(s) ==> s@ == self.loaded_sector_bytes(sector_index as int)
                && s@.len() == self.sector_size(),
    {
        if self.is_loaded(sector_index) {
            let cap: usize = self.buffer.len();
            let rel64 = sector_index - self.loaded_first_sector;
            proof {
                assert((rel64 + 1) * self.sector_size() <= self.loaded_count()
                    * self.sector_size() && rel64 * self.sector_size() + self.sector_size() == (
                rel64 + 1) * self.sector_size() && 0 <= rel64 * self.sector_size() && rel64 <= rel64
                    * self.sector_size()) by (nonlinear_arith)
                    requires
                        0 <= rel64,
                        rel64 < self.loaded_count(),
                        self.sector_size() >= 1,
                ;
            }
            let rel = rel64 as usize;
            let ss = self.sector_size_bytes as usize;
            let start = rel * ss;
            Some(slice_subrange(self.buffer.as_slice(), start, start + ss))
        } else {
            None
        }
    }

    /// Idempotent load: after a successful call the sector is resident.
    /// When the sector is already resident the call changes nothing and
    /// issues no device read; otherwise it issues exactly one, fails
    /// exactly when that read delivers no whole sector, and on success the
    /// cache holds the block-aligned window around the sector, coherent
    /// with the device content.
    pub fn ensure_sector<D: BlockDevice>(&mut self, device: &mut D, sector_index: u64) -> (r:
        Result<(), Error>)
        requires
            old(self).wf(),
            old(self).device_compatible(old(device).spec_block_size() as int),
            sector_index * old(self).sector_size() <= u64::MAX,
        ensures
            final(self).wf(),
            final(self).sector_size() == old(self).sector_size(),
            final(self).buf().len() == old(self).buf().len(),
            final(device).spec_block_size() == old(device).spec_block_size(),
            final(device).spec_data() == old(device).spec_data(),
            final(device).spec_reads() == old(device).spec_reads() + (
            if old(self).loaded_contains(sector_index as int) {
                0int
            } else {
                1int
            }),
            r is Ok ==> final(self).loaded_contains(sector_index as int),
            r matches Err(e) ==> e == Error::DeviceShortRead,
            r is Err && spec_blocks_served(
                old(device).spec_data().len() as int,
                old(device).spec_block_size() as int,
                (sector_index * old(self).sector_size()) / (
                old(device).spec_block_size() as int),
                old(self).buf().len() as int,
            ) == 0 ==> final(self).loaded_first() == old(self).loaded_first() && final(self).loaded_count() == old(self).loaded_count() && final(self).buf() == old(self).buf(),
            r is Err && spec_blocks_served(
                old(device).spec_data().len() as int,
                old(device).spec_block_size() as int,
                (sector_index * old(self).sector_size()) / (
                old(device).spec_block_size() as int),
                old(self).buf().len() as int,
            ) > 0 ==> final(self).loaded_count() == 0,
            old(self).loaded_contains(sector_index as int) ==> r is Ok
                && *final(self) == *old(self) && *final(device) == *old(device),
            old(self).coherent_with(old(device).spec_data()) ==> final(self).coherent_with(
                old(device).spec_data(),
            ),
            !old(self).loaded_contains(sector_index as int) ==> ((r is Err) <==> spec_sectors_served(
                old(device).spec_data().len() as int,
                old(device).spec_block_size() as int,
                old(self).sector_size(),
                sector_index as int,
                old(self).buf().len() as int,
            ) == 0),
            !old(self).loaded_contains(sector_index as int) && r is Ok
                ==> final(self).loaded_first() == spec_refill_first_sector(
                old(device).spec_block_size() as int,
                old(self).sector_size(),
                sector_index as int,
            ) && final(self).loaded_count() == spec_sectors_served(
                old(device).spec_data().len() as int,
                old(device).spec_block_size() as int,
                old(self).sector_size(),
                sector_index as int,
                old(self).buf().len() as int,
            ) && (final(self).loaded_first() * final(self).sector_size()) % (
            old(device).spec_block_size() as int) == 0,
    {
        if self.is_loaded(sector_index) {
            return Ok(());
        }
        self.read_block_for_sector(device, sector_index)
    }

    /// Loads the sector and hands out its bytes; refills from the device
    /// only when the sector is not already resident. Given a cache coherent
    /// with the device, the bytes handed out are the device's bytes for
    /// that sector.
    pub fn get_sector<'a, D: BlockDevice>(&'a mut self, device: &mut D, sector_index: u64) -> (r:
        Result<&'a [u8], Error>)
        requires
            old(self).wf(),
            old(self).device_compatible(old(device).spec_block_size() as int),
            sector_index * old(self).sector_size() <= u64::MAX,
        ensures
            final(self).wf(),
            final(self).sector_size() == old(self).sector_size(),
            final(self).buf().len() == old(self).buf().len(),
            final(device).spec_block_size() == old(device).spec_block_size(),
            final(device).spec_data() == old(device).spec_data(),
            final(device).spec_reads() == old(device).spec_reads() + (
            if old(self).loaded_contains(sector_index as int) {
                0int
            } else {
                1int
            }),
            r matches Ok(s) ==> final(self).loaded_contains(sector_index as int)
                && s@ == final(self).loaded_sector_bytes(sector_index as int)
                && s@.len() == final(self).sector_size(),
            r matches Err(e) ==> e == Error::DeviceShortRead,
            old(self).loaded_contains(sector_index as int) ==> r is Ok && *final(device) == *old(
                device,
            ),
            old(self).coherent_with(old(device).spec_data()) ==> final(self).coherent_with(
                old(device).spec_data(),
            ),
            old(self).coherent_with(old(device).spec_data()) ==> (r matches Ok(s) ==> s@
                == spec_sector_content(
                old(device).spec_data(),
                old(self).sector_size(),
                sector_index as int,
            ) && (sector_index as int) * old(self).sector_size() + old(self).sector_size() <= old(
                device,
            ).spec_data().len()),
            !old(self).loaded_contains(sector_index as int) ==> ((r is Err) <==> spec_sectors_served(
                old(device).spec_data().len() as int,
                old(device).spec_block_size() as int,
                old(self).sector_size(),
                sector_index as int,
                old(self).buf().len() as int,
            ) == 0),
            !old(self).loaded_contains(sector_index as int) && r is Ok
                ==> final(self).loaded_first() == spec_refill_first_sector(
                old(device).spec_block_size() as int,
                old(self).sector_size(),
                sector_index as int,
            ) && final(self).loaded_count() == spec_sectors_served(
                old(device).spec_data().len() as int,
                old(device).spec_block_size() as int,
                old(self).sector_size(),
                sector_index as int,
                old(self).buf().len() as int,
            ) && (final(self).loaded_first() * final(self).sector_size()) % (
            old(device).spec_block_size() as int) == 0,
            r is Err && spec_blocks_served(
                old(device).spec_data().len() as int,
                old(device).spec_block_size() as int,
                (sector_index * old(self).sector_size()) / (
                old(device).spec_block_size() as int),
                old(self).buf().len() as int,
            ) == 0 ==> final(self).loaded_first() == old(self).loaded_first() && final(self).loaded_count() == old(self).loaded_count() && final(self).buf() == old(self).buf(),
            r is Err && spec_blocks_served(
                old(device).spec_data().len() as int,
                old(device).spec_block_size() as int,
                (sector_index * old(self).sector_size()) / (
                old(device).spec_block_size() as int),
                old(self).buf().len() as int,
            ) > 0 ==> final(self).loaded_count() == 0,
    {
        match self.ensure_sector(device, sector_index) {
            Ok(()) => {},
            Err(e) => {
                return Err(e);
            },
        }
        match self.get_loaded_sector(sector_index) {
            Some(s) => Ok(s),
            None => vstd::pervasive::unreached(),
        }
    }

    /// Refills the buffer with the block-aligned run of sectors around
    /// `desired_sector_index`.
    fn read_block_for_sector<D: BlockDevice>(&mut self, device: &mut D, desired_sector_index: u64)
        -> (r: Result<(), Error>)
        requires
            old(self).wf(),
            old(self).device_compatible(old(device).spec_block_size() as int),
            desired_sector_index * old(self).sector_size() <= u64::MAX,
        ensures
            final(self).wf(),
            final(self).sector_size() == old(self).sector_size(),
            final(self).buf().len() == old(self).buf().len(),
            final(device).spec_block_size() == old(device).spec_block_size(),
            final(device).spec_data() == old(device).spec_data(),
            final(device).spec_reads() == old(device).spec_reads() + 1,
            r is Ok ==> final(self).loaded_contains(desired_sector_index as int),
            r matches Err(e) ==> e == Error::DeviceShortRead,
            r is Err && spec_blocks_served(
                old(device).spec_data().len() as int,
                old(device).spec_block_size() as int,
                (desired_sector_index * old(self).sector_size()) / (
                old(device).spec_block_size() as int),
                old(self).buf().len() as int,
            ) == 0 ==> final(self).loaded_first() == old(self).loaded_first() && final(self).loaded_count() == old(self).loaded_count() && final(self).buf() == old(self).buf(),
            r is Err && spec_blocks_served(
                old(device).spec_data().len() as int,
                old(device).spec_block_size() as int,
                (desired_sector_index * old(self).sector_size()) / (
                old(device).spec_block_size() as int),
                old(self).buf().len() as int,
            ) > 0 ==> final(self).loaded_count() == 0,
            r is Ok ==> final(self).coherent_with(old(device).spec_data()),
            old(self).coherent_with(old(device).spec_data()) ==> final(self).coherent_with(
                old(device).spec_data(),
            ),
            (r is Err) <==> spec_sectors_served(
                old(device).spec_data().len() as int,
                old(device).spec_block_size() as int,
                old(self).sector_size(),
                desired_sector_index as int,
                old(self).buf().len() as int,
            ) == 0,
            r is Ok ==> final(self).loaded_first() == spec_refill_first_sector(
                old(device).spec_block_size() as int,
                old(self).sector_size(),
                desired_sector_index as int,
            ) && final(self).loaded_count() == spec_sectors_served(
                old(device).spec_data().len() as int,
                old(device).spec_block_size() as int,
                old(self).sector_size(),
                desired_sector_index as int,
                old(self).buf().len() as int,
            ) && (final(self).loaded_first() * final(self).sector_size()) % (
            old(device).spec_block_size() as int) == 0,
    {
        let ss = self.sector_size_bytes as u64;
        let bs = device.block_size() as u64;
        let ghost image = old(device).spec_data();

        proof {
            vstd::arithmetic::div_mod::lemma_remainder_lower(
                (desired_sector_index * ss) as int,
                bs as int,
            );
        }
        let block_index = (desired_sector_index * ss) / bs;
        let blocks_read = device.read_blocks(block_index, &mut self.buffer);
        if blocks_read == 0 {
            // nothing was written: the previously resident window stays
            proof {
                if old(self).coherent_with(old(device).spec_data()) {
                    assert forall|j: int| #[trigger] self.loaded_contains(j) implies j
                        * self.sector_size() + self.sector_size() <= old(device).spec_data().len()
                        && self.loaded_sector_bytes(j) == spec_sector_content(
                        old(device).spec_data(),
                        self.sector_size(),
                        j,
                    ) by {
                        assert(old(self).loaded_contains(j));
                        assert(self.loaded_sector_bytes(j) =~= old(self).loaded_sector_bytes(j));
                    }
                }
            }
            return Err(Error::DeviceShortRead);
        }
        proof {
            vstd::arithmetic::div_mod::lemma_remainder_lower(
                (blocks_read * bs) as int,
                ss as int,
            );
        }
        let sectors_read = (blocks_read * bs) / ss;
        if sectors_read == 0 {
            // whole blocks arrived but no whole sector: the buffer was
            // overwritten, so nothing is resident any more
            self.loaded_sector_count = 0;
            return Err(Error::DeviceShortRead);
        }

        let first_sector = (block_index * bs) / ss;
        proof {
            lemma_refill_covers(desired_sector_index as int, ss as int, bs as int,
                blocks_read as int);
            lemma_refill_fits(desired_sector_index as int, ss as int, bs as int,
                blocks_read as int, self.buffer@.len() as int);
        }
        self.loaded_first_sector = first_sector;
        self.loaded_sector_count = sectors_read;
        proof {
            let ssi = ss as int;
            let bsi = bs as int;
            let bi = block_index as int;
            let first = first_sector as int;
            let count = sectors_read as int;
            let blocks = blocks_read as int;
            vstd::arithmetic::div_mod::lemma_mod_multiples_basic(bi, bsi);
            assert(blocks > 0) by (nonlinear_arith)
                requires
                    count >= 1,
                    count * ssi <= blocks * bsi,
                    ssi >= 1,
                    bsi >= 1,
                    blocks >= 0,
            ;
            assert forall|j: int| self.loaded_contains(j) implies j * ssi + ssi <= image.len()
                && self.loaded_sector_bytes(j) == spec_sector_content(image, ssi, j) by {
                let rel = j - first;
                assert(0 <= rel * ssi && rel * ssi + ssi <= count * ssi && first * ssi + rel * ssi
                    == j * ssi && count * ssi <= blocks * bsi) by (nonlinear_arith)
                    requires
                        0 <= rel < count,
                        first == j - rel,
                        ssi >= 1,
                        count * ssi <= blocks * bsi,
                ;
                assert(first * ssi == bi * bsi);
                assert(j * ssi + ssi <= image.len());
                assert_seqs_equal!(
                    self.loaded_sector_bytes(j) == spec_sector_content(image, ssi, j),
                    t => {
                        assert(self.buffer@.subrange(0, blocks * bsi)[rel * ssi + t]
                            == image.subrange(bi * bsi, bi * bsi + blocks * bsi)[rel * ssi + t]);
                        assert(self.buffer@.subrange(0, blocks * bsi)[rel * ssi + t]
                            == self.buffer@[rel * ssi + t]);
                        assert(image.subrange(bi * bsi, bi * bsi + blocks * bsi)[rel * ssi + t]
                            == image[bi * bsi + rel * ssi + t]);
                        assert(bi * bsi + rel * ssi + t == j * ssi + t);
                        assert(self.loaded_sector_bytes(j)[t] == self.buffer@[rel * ssi + t]);
                        assert(spec_sector_content(image, ssi, j)[t] == image[j * ssi + t]);
                    }
                );
            }
        }
        Ok(())
    }
}

/// After a block-aligned refill aimed at sector `i`, the loaded run of
/// sectors contains `i`: the run starts at `((i*ss)/bs*bs)/ss` and spans
/// `(blocks_read*bs)/ss` sectors, and its first byte is block-aligned.
/// Holds whenever sectors and blocks subdivide one another and at least one
/// whole sector arrived.
proof fn lemma_refill_covers(i: int, ss: int, bs: int, blocks_read: int)
    requires
        ss >= 1,
        bs >= 1,
        bs % ss == 0 || ss % bs == 0,
        0 <= i,
        0 <= blocks_read,
        (blocks_read * bs) / ss >= 1,
    ensures
        (((i * ss) / bs) * bs) / ss <= i,
        i < (((i * ss) / bs) * bs) / ss + (blocks_read * bs) / ss,
        ((((i * ss) / bs) * bs) / ss) * ss == ((i * ss) / bs) * bs,
{
    let block_index = (i * ss) / bs;
    let sectors_read = (blocks_read * bs) / ss;
    let first = (block_index * bs) / ss;
    vstd::arithmetic::mul::lemma_mul_nonnegative(i, ss);
    vstd::arithmetic::mul::lemma_mul_nonnegative(blocks_read, bs);
    vstd::arithmetic::div_mod::lemma_div_pos_is_pos(i * ss, bs);
    if bs % ss == 0 {
        // Blocks are whole numbers of sectors: bs == ss * q.
        if bs < ss {
            vstd::arithmetic::div_mod::lemma_small_mod(bs as nat, ss as nat);
        }
        let q = bs / ss;
        vstd::arithmetic::div_mod::lemma_fundamental_div_mod(bs, ss);
        assert(bs == ss * q);
        vstd::arithmetic::div_mod::lemma_div_is_ordered(ss, bs, ss);
        vstd::arithmetic::div_mod::lemma_div_by_self(ss);
        assert(q >= 1);
        // block_index == i / q
        vstd::arithmetic::div_mod::lemma_div_multiples_vanish_quotient(ss, i, q);
        assert(ss * i == i * ss && ss * q == bs) by (nonlinear_arith)
            requires
                bs == ss * q,
        ;
        assert(block_index == i / q);
        // first == block_index * q
        assert(block_index * bs == (block_index * q) * ss) by (nonlinear_arith)
            requires
                bs == ss * q,
        ;
        vstd::arithmetic::mul::lemma_mul_nonnegative(block_index, q);
        vstd::arithmetic::div_mod::lemma_div_by_multiple(block_index * q, ss);
        assert(first == block_index * q);
        // so the window's first byte is the block's first byte
        assert(first * ss == block_index * bs) by (nonlinear_arith)
            requires
                first == block_index * q,
                bs == ss * q,
        ;
        // the run around i: i/q*q <= i < i/q*q + q
        vstd::arithmetic::div_mod::lemma_remainder_lower(i, q);
        vstd::arithmetic::div_mod::lemma_remainder_upper(i, q);
        // sectors_read == blocks_read * q >= q
        assert(blocks_read * bs == (blocks_read * q) * ss) by (nonlinear_arith)
            requires
                bs == ss * q,
        ;
        vstd::arithmetic::mul::lemma_mul_nonnegative(blocks_read, q);
        vstd::arithmetic::div_mod::lemma_div_by_multiple(blocks_read * q, ss);
        assert(sectors_read == blocks_read * q);
        assert(blocks_read >= 1) by (nonlinear_arith)
            requires
                sectors_read == blocks_read * q,
                sectors_read >= 1,
                blocks_read >= 0,
                q >= 1,
        ;
        assert(sectors_read >= q) by (nonlinear_arith)
            requires
                sectors_read == blocks_read * q,
                blocks_read >= 1,
                q >= 1,
        ;
    } else {
        // Sectors are whole numbers of blocks: ss == bs * k, and the first
        // loaded sector is i itself.
        let k = ss / bs;
        vstd::arithmetic::div_mod::lemma_fundamental_div_mod(ss, bs);
        assert(ss == bs * k);
        // block_index == i * k
        assert(i * ss == (i * k) * bs) by (nonlinear_arith)
            requires
                ss == bs * k,
        ;
        vstd::arithmetic::mul::lemma_mul_nonnegative(i, k);
        vstd::arithmetic::div_mod::lemma_div_by_multiple(i * k, bs);
        assert(block_index == i * k);
        // first == i
        assert(block_index * bs == i * ss) by (nonlinear_arith)
            requires
                ss == bs * k,
                block_index == i * k,
        ;
        vstd::arithmetic::div_mod::lemma_div_by_multiple(i, ss);
        assert(first == i);
    }
}

/// The refilled run of sectors always fits the buffer, and its bounds stay
/// inside `u64`.
proof fn lemma_refill_fits(i: int, ss: int, bs: int, blocks_read: int, buf_len: int)
    requires
        ss >= 512,
        bs >= 1,
        0 <= i,
        0 <= blocks_read,
        i * ss <= u64::MAX,
        blocks_read * bs <= buf_len,
        buf_len <= usize::MAX,
    ensures
        ((blocks_read * bs) / ss) * ss <= buf_len,
        (((i * ss) / bs) * bs) / ss + (blocks_read * bs) / ss <= u64::MAX,
        ((blocks_read * bs) / ss) * ss <= blocks_read * bs,
{
    let block_index = (i * ss) / bs;
    let sectors_read = (blocks_read * bs) / ss;
    let first = (block_index * bs) / ss;
    vstd::arithmetic::mul::lemma_mul_nonnegative(i, ss);
    vstd::arithmetic::mul::lemma_mul_nonnegative(blocks_read, bs);
    vstd::arithmetic::div_mod::lemma_remainder_lower(blocks_read * bs, ss);
    assert(sectors_read * ss <= buf_len);
    // first <= i, so it is small
    vstd::arithmetic::div_mod::lemma_div_pos_is_pos(i * ss, bs);
    vstd::arithmetic::div_mod::lemma_div_pos_is_pos(blocks_read * bs, ss);
    vstd::arithmetic::div_mod::lemma_remainder_lower(i * ss, bs);
    vstd::arithmetic::div_mod::lemma_div_is_ordered(block_index * bs, i * ss, ss);
    vstd::arithmetic::div_mod::lemma_div_is_ordered(sectors_read * ss, buf_len, ss);
    vstd::arithmetic::mul::lemma_mul_nonnegative(block_index, bs);
    vstd::arithmetic::div_mod::lemma_div_by_multiple(sectors_read, ss);
    // i * ss / ss == i, so first <= i <= u64::MAX / 512
    vstd::arithmetic::div_mod::lemma_div_multiples_vanish(i, ss);
    assert(ss * i == i * ss) by (nonlinear_arith);
    assert(first <= i);
    assert(sectors_read <= buf_len / ss);
    vstd::arithmetic::div_mod::lemma_div_is_ordered_by_denominator(buf_len, 512, ss);
    assert(i <= u64::MAX / 512) by (nonlinear_arith)
        requires
            i * ss <= u64::MAX,
            ss >= 512,
            i >= 0,
    ;
    assert(buf_len / 512 <= usize::MAX / 512) by {
        vstd::arithmetic::div_mod::lemma_div_is_ordered(buf_len, usize::MAX as int, 512);
    }
}

} // verus!
