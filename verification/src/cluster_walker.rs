//! Walking the sectors of a cluster and following the FAT32 chain.
//!
//! A [`ClusterWalker`] is positioned on one sector of one cluster, owns the
//! read buffer that holds that sector, and can advance within the cluster or
//! consume itself to step to the next cluster of the chain. The position
//! invariant is the heart of the module: after every successful operation
//! the walker's buffer holds the sector at
//! `first_data_sector + (cluster - 2) * cluster_size_sectors + sector_in_cluster`,
//! coherent with the device content; and a chain step's outcome is exactly
//! the classification of the cluster's FAT entry within that content.

use vstd::prelude::*;

use crate::block_device::{spec_sector_content, BlockDevice};
use crate::bytes::le32;
use crate::geometry::{lemma_cluster_sector_in_range, lemma_position_mul_fits, FATGeometry};
use crate::prim::{spec_decode_fat32, FileAllocationTable32, FileAllocationTable32Result};
use crate::read_buffer::{spec_sectors_served, ReadBuffer};
use crate::Error;

verus! {

/// The FAT entry of `cluster` as stored in device content `data`: the
/// 32-bit word at byte `cluster * 4` of the FAT region, decoded with its
/// top four bits masked off.
pub open spec fn spec_fat_entry(
    data: Seq<u8>,
    geo: FATGeometry,
    cluster: int,
) -> FileAllocationTable32Result {
    spec_decode_fat32(
        le32(data, geo.first_fat_sector * geo.sector_size_bytes + cluster * 4),
    )
}

/// The absolute sector of the FAT holding the entry of `cluster`.
pub open spec fn spec_fat_sector_index(geo: FATGeometry, cluster: int) -> int {
    geo.first_fat_sector + (cluster * 4) / (geo.sector_size_bytes as int)
}

/// True when a refill aimed at `sector_index` obtains at least one whole
/// sector from a device with content `data` and the given block size, into
/// a buffer of `buf_len` bytes — the condition under which a load of that
/// sector is owed to succeed.
pub open spec fn spec_sector_readable(
    data: Seq<u8>,
    block_size: int,
    sector_size: int,
    sector_index: int,
    buf_len: int,
) -> bool {
    spec_sectors_served(data.len() as int, block_size, sector_size, sector_index, buf_len) > 0
}

/// A walker positioned on one sector of one cluster of a FAT32 chain.
pub struct ClusterWalker {
    buffer: ReadBuffer,
    cluster_index: u32,
    cluster_sector_index: u8,
    geo: FATGeometry,
}

impl ClusterWalker {
    /// The cluster the walker stands in.
    pub closed spec fn spec_cluster(&self) -> int {
        self.cluster_index as int
    }

    /// The sector position within the cluster.
    pub closed spec fn spec_sector_in_cluster(&self) -> int {
        self.cluster_sector_index as int
    }

    /// The geometry the walker was opened with.
    pub closed spec fn spec_geo(&self) -> FATGeometry {
        self.geo
    }

    /// The walker's read buffer.
    pub closed spec fn spec_buffer(&self) -> ReadBuffer {
        self.buffer
    }

    /// The absolute sector index the walker is positioned on.
    pub open spec fn spec_position(&self) -> int {
        self.spec_geo().spec_cluster_sector(self.spec_cluster(), self.spec_sector_in_cluster())
    }

    /// The position invariant: the walker stands on a valid sector of a
    /// valid cluster, and its buffer holds exactly that sector.
    pub open spec fn wf(&self) -> bool {
        &&& self.spec_geo().wf()
        &&& 2 <= self.spec_cluster() <= u32::MAX
        &&& 0 <= self.spec_sector_in_cluster() < self.spec_geo().cluster_size_sectors
        &&& self.spec_buffer().wf()
        &&& self.spec_buffer().sector_size() == self.spec_geo().sector_size_bytes
        &&& self.spec_buffer().loaded_contains(self.spec_position())
    }

    /// Compatibility between the walker's buffer and a device block size.
    pub open spec fn device_compatible(&self, block_size: int) -> bool {
        self.spec_buffer().device_compatible(block_size)
    }

    /// The walker's cache is faithful to a device holding `data`.
    pub open spec fn coherent_with(&self, data: Seq<u8>) -> bool {
        self.spec_buffer().coherent_with(data)
    }

    /// The bytes of the sector the walker is positioned on.
    pub open spec fn spec_current_sector(&self) -> Seq<u8> {
        self.spec_buffer().loaded_sector_bytes(self.spec_position())
    }

    /// Positions a fresh walker on the first sector of `cluster_index`.
    /// A cluster index below 2 is rejected as `InvalidCluster`.
    pub fn open<D: BlockDevice>(
        buffer: ReadBuffer,
        device: &mut D,
        cluster_index: u32,
        geo: FATGeometry,
    ) -> (r: Result<Self, Error>)
        requires
            buffer.wf(),
            geo.wf(),
            buffer.sector_size() == geo.sector_size_bytes,
            buffer.device_compatible(old(device).spec_block_size() as int),
            buffer.coherent_with(old(device).spec_data()),
        ensures
            final(device).spec_block_size() == old(device).spec_block_size(),
            final(device).spec_data() == old(device).spec_data(),
            old(device).spec_reads() <= final(device).spec_reads() <= old(device).spec_reads()
                + 1,
            (r matches Err(e) && e == Error::InvalidCluster) <==> cluster_index < 2,
            r matches Err(e) ==> e == Error::InvalidCluster || e == Error::DeviceShortRead,
            r matches Ok(w) ==> w.wf() && w.spec_cluster() == cluster_index
                && w.spec_sector_in_cluster() == 0 && w.spec_geo() == geo && w.device_compatible(
                old(device).spec_block_size() as int,
            ) && w.coherent_with(old(device).spec_data())
                && w.spec_buffer().buf().len() == buffer.buf().len(),
            cluster_index >= 2 && (spec_sector_readable(
                old(device).spec_data(),
                old(device).spec_block_size() as int,
                geo.sector_size_bytes as int,
                geo.spec_first_sector_of(cluster_index as int),
                buffer.buf().len() as int,
            ) || buffer.loaded_contains(geo.spec_first_sector_of(cluster_index as int))) ==> r
                is Ok,
    {
        if cluster_index < 2 {
            return Err(Error::InvalidCluster);
        }
        let mut result = ClusterWalker { buffer, cluster_index, cluster_sector_index: 0, geo };
        let target = result.absolute_sector_index();
        proof {
            lemma_cluster_sector_in_range(geo, cluster_index as int, 0);
            lemma_position_mul_fits(target as int, geo.sector_size_bytes as int);
        }
        match result.buffer.ensure_sector(device, target) {
            Ok(()) => Ok(result),
            Err(e) => Err(e),
        }
    }

    /// The bytes of the sector the walker is positioned on. Always succeeds:
    /// the walker keeps its current sector resident.
    pub fn current_sector(&self) -> (r: &[u8])
        requires
            self.wf(),
        ensures
            r@ == self.spec_current_sector(),
            r@.len() == self.spec_geo().sector_size_bytes,
    {
        let abs = self.absolute_sector_index();
        match self.buffer.get_loaded_sector(abs) {
            Some(s) => s,
            None => vstd::pervasive::unreached(),
        }
    }

    /// Advances to the next sector within the current cluster. At the last
    /// sector of the cluster the walker returns `Ok(false)` and changes
    /// nothing — this path involves no device work and cannot fail;
    /// otherwise it moves one sector forward and returns `Ok(true)`.
    pub fn next_sector<D: BlockDevice>(&mut self, device: &mut D) -> (r: Result<bool, Error>)
        requires
            old(self).wf(),
            old(self).device_compatible(old(device).spec_block_size() as int),
            old(self).coherent_with(old(device).spec_data()),
        ensures
            final(device).spec_block_size() == old(device).spec_block_size(),
            final(device).spec_data() == old(device).spec_data(),
            old(device).spec_reads() <= final(device).spec_reads() <= old(device).spec_reads()
                + 1,
            old(self).spec_sector_in_cluster() + 1 == old(self).spec_geo().cluster_size_sectors
                ==> r matches Ok(false),
            r matches Ok(false) ==> *final(self) == *old(self) && *final(device) == *old(device)
                && old(self).spec_sector_in_cluster() + 1
                == old(self).spec_geo().cluster_size_sectors,
            r matches Ok(true) ==> final(self).wf()
                && final(self).spec_geo() == old(self).spec_geo()
                && final(self).spec_cluster() == old(self).spec_cluster()
                && final(self).spec_sector_in_cluster() == old(self).spec_sector_in_cluster() + 1
                && final(self).device_compatible(old(device).spec_block_size() as int)
                && final(self).coherent_with(old(device).spec_data())
                && final(self).spec_buffer().buf().len() == old(self).spec_buffer().buf().len(),
            r matches Err(e) ==> e == Error::DeviceShortRead,
            old(self).spec_sector_in_cluster() + 1 < old(self).spec_geo().cluster_size_sectors
                && (spec_sector_readable(
                old(device).spec_data(),
                old(device).spec_block_size() as int,
                old(self).spec_geo().sector_size_bytes as int,
                old(self).spec_position() + 1,
                old(self).spec_buffer().buf().len() as int,
            ) || old(self).spec_buffer().loaded_contains(old(self).spec_position() + 1)) ==> r
                matches Ok(true),
    {
        let next_index = self.cluster_sector_index + 1;
        if next_index == self.geo.cluster_size_sectors {
            return Ok(false);
        }
        let base = self.geo.first_data_sector + ((self.cluster_index - 2) as u64) * (
        self.geo.cluster_size_sectors as u64);
        let target = base + (next_index as u64);
        proof {
            lemma_cluster_sector_in_range(self.geo, self.cluster_index as int, next_index as int);
            lemma_position_mul_fits(target as int, self.geo.sector_size_bytes as int);
        }
        match self.buffer.ensure_sector(device, target) {
            Ok(()) => {
                self.cluster_sector_index = next_index;
                Ok(true)
            },
            Err(e) => Err(e),
        }
    }

    /// Consumes the walker, looks up the current cluster's FAT entry within
    /// the device content, and follows it: a pointer to a valid cluster
    /// yields a walker positioned on that cluster's first sector, the
    /// end-of-chain sentinel yields nothing, and the bad-cluster sentinel or
    /// a pointer below cluster 2 fails with `CorruptedChain`. The outcome is
    /// pinned to the decoded entry [`spec_fat_entry`].
    pub fn next_cluster<D: BlockDevice>(self, device: &mut D) -> (r: Result<
        Option<Self>,
        Error,
    >)
        requires
            self.wf(),
            self.device_compatible(old(device).spec_block_size() as int),
            self.coherent_with(old(device).spec_data()),
        ensures
            final(device).spec_block_size() == old(device).spec_block_size(),
            final(device).spec_data() == old(device).spec_data(),
            old(device).spec_reads() <= final(device).spec_reads() <= old(device).spec_reads()
                + 2,
            r matches Ok(Some(w)) ==> w.wf() && w.spec_geo() == self.spec_geo()
                && w.spec_sector_in_cluster() == 0 && 2 <= w.spec_cluster()
                && w.device_compatible(old(device).spec_block_size() as int)
                && w.coherent_with(old(device).spec_data())
                && w.spec_buffer().buf().len() == self.spec_buffer().buf().len()
                && spec_fat_entry(old(device).spec_data(), self.spec_geo(), self.spec_cluster())
                == FileAllocationTable32Result::NextClusterIndex(w.spec_cluster() as u32),
            r matches Ok(None) ==> spec_fat_entry(
                old(device).spec_data(),
                self.spec_geo(),
                self.spec_cluster(),
            ) is EndOfChain,
            (r matches Err(e) && e == Error::CorruptedChain) ==> (spec_fat_entry(
                old(device).spec_data(),
                self.spec_geo(),
                self.spec_cluster(),
            ) is BadCluster || (spec_fat_entry(
                old(device).spec_data(),
                self.spec_geo(),
                self.spec_cluster(),
            ) matches FileAllocationTable32Result::NextClusterIndex(n) && n < 2)),
            r matches Err(e) ==> e == Error::CorruptedChain || e == Error::DeviceShortRead,
            (spec_sector_readable(
                old(device).spec_data(),
                old(device).spec_block_size() as int,
                self.spec_geo().sector_size_bytes as int,
                spec_fat_sector_index(self.spec_geo(), self.spec_cluster()),
                self.spec_buffer().buf().len() as int,
            ) || self.spec_buffer().loaded_contains(
                spec_fat_sector_index(self.spec_geo(), self.spec_cluster()),
            )) ==> (spec_fat_entry(old(device).spec_data(), self.spec_geo(), self.spec_cluster())
                is EndOfChain ==> r matches Ok(None)) && (spec_fat_entry(
                old(device).spec_data(),
                self.spec_geo(),
                self.spec_cluster(),
            ) is BadCluster ==> (r matches Err(e) && e == Error::CorruptedChain)),
            (spec_sector_readable(
                old(device).spec_data(),
                old(device).spec_block_size() as int,
                self.spec_geo().sector_size_bytes as int,
                spec_fat_sector_index(self.spec_geo(), self.spec_cluster()),
                self.spec_buffer().buf().len() as int,
            ) || self.spec_buffer().loaded_contains(
                spec_fat_sector_index(self.spec_geo(), self.spec_cluster()),
            )) ==> (spec_fat_entry(old(device).spec_data(), self.spec_geo(), self.spec_cluster())
                matches FileAllocationTable32Result::NextClusterIndex(n) && n >= 2
                && spec_sector_readable(
                old(device).spec_data(),
                old(device).spec_block_size() as int,
                self.spec_geo().sector_size_bytes as int,
                self.spec_geo().spec_first_sector_of(n as int),
                self.spec_buffer().buf().len() as int,
            ) ==> r is Ok),
    {
        let mut walker = self;
        let ss = walker.geo.sector_size_bytes;
        let ghost image = old(device).spec_data();
        let ghost geo = walker.geo;
        let ghost cluster = walker.cluster_index as int;
        let fat_byte_offset: u64 = (walker.cluster_index as u64) * 4;
        let fat_sector: u64 = walker.geo.first_fat_sector + fat_byte_offset / (ss as u64);
        let entry_offset: u32 = (fat_byte_offset % (ss as u64)) as u32;
        proof {
            lemma_fat_entry_offset(walker.cluster_index as int, ss as int);
            lemma_position_mul_fits(fat_sector as int, ss as int);
        }
        let fat_sector_data = match walker.buffer.get_sector(device, fat_sector) {
            Ok(s) => s,
            Err(e) => {
                return Err(e);
            },
        };
        let fat = FileAllocationTable32::new(fat_sector_data);
        let entry = fat.get_entry(entry_offset);
        proof {
            let ssi = ss as int;
            let eo = entry_offset as int;
            let fsec = fat_sector as int;
            // the slice handed out is the device's FAT sector, so each of
            // the entry's four bytes is a byte of the device content
            assert(fat@[eo] == image[fsec * ssi + eo]);
            assert(fat@[eo + 1] == image[fsec * ssi + (eo + 1)]);
            assert(fat@[eo + 2] == image[fsec * ssi + (eo + 2)]);
            assert(fat@[eo + 3] == image[fsec * ssi + (eo + 3)]);
            // the entry's absolute byte offset is cluster * 4 into the FAT
            vstd::arithmetic::div_mod::lemma_fundamental_div_mod(cluster * 4, ssi);
            assert(fsec * ssi == geo.first_fat_sector * ssi + ((cluster * 4) / ssi) * ssi
                && ssi * ((cluster * 4) / ssi) == ((cluster * 4) / ssi) * ssi) by (nonlinear_arith)
                requires
                    fsec == geo.first_fat_sector + (cluster * 4) / ssi,
            ;
            assert(fsec * ssi + eo == geo.first_fat_sector * ssi + cluster * 4);
            assert(entry == spec_fat_entry(image, geo, cluster));
        }
        match entry {
            FileAllocationTable32Result::NextClusterIndex(next_cluster_index) => {
                if next_cluster_index < 2 {
                    return Err(Error::CorruptedChain);
                }
                walker.cluster_index = next_cluster_index;
                walker.cluster_sector_index = 0;
                let target = walker.absolute_sector_index();
                proof {
                    lemma_cluster_sector_in_range(walker.geo, next_cluster_index as int, 0);
                    lemma_position_mul_fits(target as int, ss as int);
                }
                match walker.buffer.ensure_sector(device, target) {
                    Ok(()) => Ok(Some(walker)),
                    Err(e) => Err(e),
                }
            },
            FileAllocationTable32Result::EndOfChain => Ok(None),
            FileAllocationTable32Result::BadCluster => Err(Error::CorruptedChain),
        }
    }

    /// The absolute index of the sector the walker is positioned on.
    fn absolute_sector_index(&self) -> (r: u64)
        requires
            self.spec_geo().wf(),
            2 <= self.spec_cluster(),
        ensures
            r == self.spec_position(),
    {
        proof {
            lemma_cluster_sector_in_range(
                self.geo,
                self.cluster_index as int,
                self.cluster_sector_index as int,
            );
        }
        let absolute_start_sector_index = self.geo.first_data_sector + ((self.cluster_index
            - 2) as u64) * (self.geo.cluster_size_sectors as u64);
        absolute_start_sector_index + (self.cluster_sector_index as u64)
    }
}

/// The position law: a well-formed walker — freshly opened on a cluster, or
/// advanced any number of sectors — stands on the absolute sector
/// `first_data_sector + (cluster − 2) * cluster_size_sectors +
/// sector_in_cluster`, and its buffer holds exactly that sector.
pub proof fn lemma_walker_position(w: ClusterWalker)
    requires
        w.wf(),
    ensures
        w.spec_position() == w.spec_geo().first_data_sector + (w.spec_cluster() - 2)
            * w.spec_geo().cluster_size_sectors + w.spec_sector_in_cluster(),
        w.spec_buffer().loaded_contains(w.spec_position()),
        w.spec_current_sector() == w.spec_buffer().loaded_sector_bytes(w.spec_position()),
{
}

/// The content law: a walker coherent with the device stands on the
/// device's bytes for its position — `current_sector` hands out exactly the
/// sector at `spec_position()` of the device content.
pub proof fn lemma_current_sector_from_device(w: ClusterWalker, data: Seq<u8>)
    requires
        w.wf(),
        w.coherent_with(data),
    ensures
        w.spec_current_sector() == spec_sector_content(
            data,
            w.spec_geo().sector_size_bytes as int,
            w.spec_position(),
        ),
        w.spec_position() * w.spec_geo().sector_size_bytes
            + w.spec_geo().sector_size_bytes <= data.len(),
{
    assert(w.spec_buffer().loaded_contains(w.spec_position()));
}

/// The byte offset of a cluster's FAT entry within its FAT sector leaves
/// room for the whole four-byte entry: entries are four bytes, and every
/// admissible sector size is a multiple of four.
proof fn lemma_fat_entry_offset(cluster: int, ss: int)
    requires
        0 <= cluster,
        ss == 512 || ss == 1024 || ss == 2048 || ss == 4096,
    ensures
        0 <= (cluster * 4) % ss,
        (cluster * 4) % ss + 4 <= ss,
{
    let m = ss / 4;
    vstd::arithmetic::div_mod::lemma_truncate_middle(cluster, 4, m);
    assert((4 * cluster) % (4 * m) == 4 * (cluster % m));
    vstd::arithmetic::div_mod::lemma_mod_division_less_than_divisor(cluster, m);
    assert(cluster % m <= m - 1);
    vstd::arithmetic::mul::lemma_mul_inequality(cluster % m, m - 1, 4);
    assert(cluster * 4 == 4 * cluster) by (nonlinear_arith);
    assert((cluster % m) * 4 == 4 * (cluster % m)) by (nonlinear_arith);
    assert((m - 1) * 4 == ss - 4);
}

} // verus!
