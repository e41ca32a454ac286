//! The filesystem facade: mounting a volume from its boot sector and walking
//! its directories.
//!
//! Mounting decodes the BIOS parameter block of sector 0, derives the
//! geometry, and selects the FAT variant from the cluster count; only FAT32
//! volumes are served. The round trip is exact: every geometry field of a
//! mounted filesystem equals the value its boot sector encodes.

use vstd::prelude::*;

use crate::block_device::{spec_blocks_served, spec_sector_content, BlockDevice};
use crate::cluster_walker::{
    lemma_current_sector_from_device, spec_fat_entry, spec_fat_sector_index, spec_sector_readable,
    ClusterWalker,
};
use crate::dir::{has_terminator, occupied_records, DirectoryEntriesIterator, DirectoryEntry};
use crate::geometry::{
    lemma_cluster_sector_in_range, lemma_position_mul_fits, FATGeometry, Variant,
};
use crate::math::u8_is_power_of_two;
use crate::prim::{
    data_region_sector_count, meta_sector_count, root_dir_sector_count, sectors_per_fat,
    spec_bytes_per_sector, spec_fat_count, spec_reserved_sector_count, spec_root_cluster,
    spec_root_entry_count, spec_sectors_per_cluster, spec_sectors_per_fat, spec_total_sectors,
    CommonBiosParameterBlock, ExtendedFat32BiosParameterBlock, FileAllocationTable32Result,
};
use crate::read_buffer::ReadBuffer;
use crate::Error;

verus! {

/// A cluster index.
pub type Cluster = u32;

/// The first cluster of a directory.
pub type DirectoryInitialCluster = Cluster;

/// Which directory to walk: the volume's root directory, or the directory
/// starting at a given cluster.
pub enum DirectorySelector {
    Root,
    Normal(DirectoryInitialCluster),
}

/// The views of a run of directory entries: each entry's 32 record bytes.
pub open spec fn spec_entries_bytes(entries: Seq<DirectoryEntry>) -> Seq<Seq<u8>> {
    entries.map_values(|e: DirectoryEntry| e@)
}

/// The device block holding the first byte of the first sector of `cluster`.
pub open spec fn spec_cluster_block_index(geo: FATGeometry, block_size: int, cluster: int) -> int {
    (geo.spec_first_sector_of(cluster) * geo.sector_size_bytes) / block_size
}

/// The occupied records of the directory walk that starts on sector
/// `sector_in_cluster` of `cluster`, as determined by the device content
/// `data`: sector by sector, within a cluster and then along the FAT chain,
/// cut short by the first terminator record, the end-of-chain sentinel, a
/// corrupt chain entry, or the sector budget `fuel`.
pub open spec fn spec_directory_records(
    data: Seq<u8>,
    geo: FATGeometry,
    cluster: int,
    sector_in_cluster: int,
    fuel: nat,
) -> Seq<Seq<u8>>
    decreases fuel,
{
    if fuel <= 0 {
        Seq::empty()
    } else {
        let sector = spec_sector_content(
            data,
            geo.sector_size_bytes as int,
            geo.spec_cluster_sector(cluster, sector_in_cluster),
        );
        let entries = occupied_records(sector, 0);
        if has_terminator(sector, 0) {
            entries
        } else if sector_in_cluster + 1 < geo.cluster_size_sectors {
            entries + spec_directory_records(
                data,
                geo,
                cluster,
                sector_in_cluster + 1,
                (fuel - 1) as nat,
            )
        } else {
            match spec_fat_entry(data, geo, cluster) {
                FileAllocationTable32Result::NextClusterIndex(n) => if n >= 2 {
                    entries + spec_directory_records(data, geo, n as int, 0, (fuel - 1) as nat)
                } else {
                    entries
                },
                FileAllocationTable32Result::EndOfChain => entries,
                FileAllocationTable32Result::BadCluster => entries,
            }
        }
    }
}

/// True when the walk of [`spec_directory_records`] reaches its natural end
/// — a terminator record or the end-of-chain sentinel — within the sector
/// budget `fuel`.
pub open spec fn spec_directory_walk_completes(
    data: Seq<u8>,
    geo: FATGeometry,
    cluster: int,
    sector_in_cluster: int,
    fuel: nat,
) -> bool
    decreases fuel,
{
    if fuel <= 0 {
        false
    } else {
        let sector = spec_sector_content(
            data,
            geo.sector_size_bytes as int,
            geo.spec_cluster_sector(cluster, sector_in_cluster),
        );
        if has_terminator(sector, 0) {
            true
        } else if sector_in_cluster + 1 < geo.cluster_size_sectors {
            spec_directory_walk_completes(
                data,
                geo,
                cluster,
                sector_in_cluster + 1,
                (fuel - 1) as nat,
            )
        } else {
            match spec_fat_entry(data, geo, cluster) {
                FileAllocationTable32Result::NextClusterIndex(n) => n >= 2
                    && spec_directory_walk_completes(data, geo, n as int, 0, (fuel - 1) as nat),
                FileAllocationTable32Result::EndOfChain => true,
                FileAllocationTable32Result::BadCluster => false,
            }
        }
    }
}

/// True when the directory walk from (`cluster`, `sector_in_cluster`) is
/// owed to finish without a device failure and without a corrupt chain:
/// every sector the walk would have to load is readable from the device
/// content, and the chain never resolves to the bad-cluster sentinel or a
/// reserved pointer, up to the sector budget `fuel`. An exhausted budget
/// ends the walk and is no failure; the walker's current sector is always
/// resident and needs no read.
pub open spec fn spec_directory_walk_serviceable(
    data: Seq<u8>,
    geo: FATGeometry,
    cluster: int,
    sector_in_cluster: int,
    block_size: int,
    buf_len: int,
    fuel: nat,
) -> bool
    decreases fuel,
{
    if fuel <= 0 {
        true
    } else {
        let sector = spec_sector_content(
            data,
            geo.sector_size_bytes as int,
            geo.spec_cluster_sector(cluster, sector_in_cluster),
        );
        if has_terminator(sector, 0) {
            true
        } else if sector_in_cluster + 1 < geo.cluster_size_sectors {
            spec_sector_readable(
                data,
                block_size,
                geo.sector_size_bytes as int,
                geo.spec_cluster_sector(cluster, sector_in_cluster) + 1,
                buf_len,
            ) && spec_directory_walk_serviceable(
                data,
                geo,
                cluster,
                sector_in_cluster + 1,
                block_size,
                buf_len,
                (fuel - 1) as nat,
            )
        } else {
            spec_sector_readable(
                data,
                block_size,
                geo.sector_size_bytes as int,
                spec_fat_sector_index(geo, cluster),
                buf_len,
            ) && match spec_fat_entry(data, geo, cluster) {
                FileAllocationTable32Result::NextClusterIndex(n) => n >= 2
                    && spec_sector_readable(
                    data,
                    block_size,
                    geo.sector_size_bytes as int,
                    geo.spec_first_sector_of(n as int),
                    buf_len,
                ) && spec_directory_walk_serviceable(
                    data,
                    geo,
                    n as int,
                    0,
                    block_size,
                    buf_len,
                    (fuel - 1) as nat,
                ),
                FileAllocationTable32Result::EndOfChain => true,
                FileAllocationTable32Result::BadCluster => false,
            }
        }
    }
}

/// Number of sectors of the fixed root directory that sector 0 encodes;
/// zero on FAT32.
pub open spec fn spec_root_dir_sectors(s: Seq<u8>) -> int {
    (spec_root_entry_count(s) * 32 + spec_bytes_per_sector(s) - 1) / spec_bytes_per_sector(s)
}

/// Number of sectors in front of the data region that sector 0 encodes.
pub open spec fn spec_meta_sectors(s: Seq<u8>) -> int {
    spec_reserved_sector_count(s) + spec_sectors_per_fat(s) * spec_fat_count(s)
        + spec_root_dir_sectors(s)
}

/// The data-region cluster count that sector 0 encodes.
pub open spec fn spec_cluster_count(s: Seq<u8>) -> int {
    (spec_total_sectors(s) - spec_meta_sectors(s)) / spec_sectors_per_cluster(s)
}

/// When mounting accepts sector 0 as a well-formed parameter block for a
/// device with the given block size: the sector is whole, the sector size is
/// one of the four admissible powers of two, the cluster size is a nonzero
/// power of two, sectors and device blocks subdivide one another, and the
/// derived meta-region size neither overflows nor exceeds the volume.
pub open spec fn spec_bpb_valid(s: Seq<u8>, device_block_size: int) -> bool {
    &&& s.len() >= 512
    &&& (spec_bytes_per_sector(s) == 512 || spec_bytes_per_sector(s) == 1024
        || spec_bytes_per_sector(s) == 2048 || spec_bytes_per_sector(s) == 4096)
    &&& u8_is_power_of_two(s[13])
    &&& (device_block_size % spec_bytes_per_sector(s) == 0
        || spec_bytes_per_sector(s) % device_block_size == 0)
    &&& spec_meta_sectors(s) <= u32::MAX
    &&& spec_meta_sectors(s) <= spec_total_sectors(s)
}

/// A mounted FAT32 volume: its geometry, variant, root cluster, and the
/// block size of the device it was mounted from.
#[derive(Clone, Copy, Debug, PartialEq, Eq, Structural)]
pub struct FATFileSystem {
    /// Block size of the backing device.
    pub device_block_size: u16,
    /// The selected FAT variant; mounting succeeds only for FAT32.
    pub variant: Variant,
    /// The derived volume geometry.
    pub geo: FATGeometry,
    /// First cluster of the root directory.
    pub root_cluster: u32,
}

impl FATFileSystem {
    /// What mounting establishes: valid geometry, the FAT32 variant, and a
    /// device whose blocks and the volume's sectors subdivide one another.
    pub open spec fn wf(&self) -> bool {
        &&& self.geo.wf()
        &&& self.variant == Variant::Fat32
        &&& self.device_block_size >= 512
        &&& (self.device_block_size as int % self.geo.sector_size_bytes as int == 0
            || self.geo.sector_size_bytes as int % self.device_block_size as int == 0)
    }

    /// The cluster a selector picks: the root directory's first cluster, or
    /// the given one.
    pub open spec fn spec_selected_cluster(&self, directory: DirectorySelector) -> int {
        match directory {
            DirectorySelector::Root => self.root_cluster as int,
            DirectorySelector::Normal(c) => c as int,
        }
    }

    /// Derives the filesystem from the bytes of sector 0 and the block size
    /// of the device the volume lives on. Every geometry field of the result
    /// equals the value the parameter block encodes; a volume whose cluster
    /// count selects FAT12 or FAT16 is rejected as `UnsupportedVariant`, and
    /// a parameter block that is short, inconsistent, or would overflow the
    /// derived quantities as `MalformedBpb`.
    pub fn mount(sector0: &[u8], device_block_size: u16) -> (r: Result<FATFileSystem, Error>)
        requires
            device_block_size >= 512,
        ensures
            r is Ok <==> spec_bpb_valid(sector0@, device_block_size as int)
                && spec_cluster_count(sector0@) >= 65525,
            r matches Err(e) ==> ((e == Error::MalformedBpb)
                <==> !spec_bpb_valid(sector0@, device_block_size as int)),
            r matches Err(e) ==> e == Error::MalformedBpb || e == Error::UnsupportedVariant,
            r matches Ok(fs) ==> fs.wf() && fs.device_block_size == device_block_size
                && fs.variant == Variant::Fat32
                && fs.geo.sector_size_bytes == spec_bytes_per_sector(sector0@)
                && fs.geo.cluster_size_sectors == spec_sectors_per_cluster(sector0@)
                && fs.geo.first_fat_sector == spec_reserved_sector_count(sector0@)
                && fs.geo.first_data_sector == spec_meta_sectors(sector0@)
                && fs.root_cluster == spec_root_cluster(sector0@),
    {
        let n = sector0.len();
        if n < 512 {
            return Err(Error::MalformedBpb);
        }
        let bpb = CommonBiosParameterBlock::new(sector0);

        let bytes_per_sector = bpb.bytes_per_sector();
        if !(bytes_per_sector == 512 || bytes_per_sector == 1024 || bytes_per_sector == 2048
            || bytes_per_sector == 4096) {
            return Err(Error::MalformedBpb);
        }
        let sectors_per_cluster = bpb.sectors_per_cluster();
        if sectors_per_cluster == 0 || sectors_per_cluster & (sectors_per_cluster - 1) != 0 {
            return Err(Error::MalformedBpb);
        }
        if !(device_block_size % bytes_per_sector == 0 || bytes_per_sector % device_block_size
            == 0) {
            return Err(Error::MalformedBpb);
        }

        let root_dir_sectors = root_dir_sector_count(
            bpb.root_entry_count() as u32,
            bytes_per_sector,
        );
        let fat_sectors = sectors_per_fat(sector0);
        let reserved_sectors = bpb.reserved_sector_count();
        let fat_tables = bpb.fat_count();
        proof {
            vstd::arithmetic::mul::lemma_mul_nonnegative(fat_sectors as int, fat_tables as int);
            vstd::arithmetic::mul::lemma_mul_upper_bound(
                fat_sectors as int,
                0xFFFF_FFFF,
                fat_tables as int,
                255,
            );
        }
        let meta_wide: u64 = reserved_sectors as u64 + (fat_sectors as u64) * (fat_tables as u64)
            + root_dir_sectors as u64;
        if meta_wide > 0xFFFF_FFFF {
            return Err(Error::MalformedBpb);
        }
        let meta_sectors = meta_sector_count(
            reserved_sectors,
            fat_sectors,
            fat_tables,
            root_dir_sectors,
        );

        let total_sectors = bpb.total_sectors();
        if total_sectors < meta_sectors {
            return Err(Error::MalformedBpb);
        }
        let data_sectors = data_region_sector_count(total_sectors, meta_sectors);
        let count_of_clusters = data_sectors / (sectors_per_cluster as u32);

        let variant = Variant::from_cluster_count(count_of_clusters);
        let root_cluster = match variant {
            Variant::Fat12 | Variant::Fat16 => {
                return Err(Error::UnsupportedVariant);
            },
            Variant::Fat32 => ExtendedFat32BiosParameterBlock::new(sector0).root_cluster(),
        };

        let geo = FATGeometry {
            cluster_size_sectors: sectors_per_cluster,
            sector_size_bytes: bytes_per_sector,
            first_fat_sector: reserved_sectors as u64,
            first_data_sector: meta_sectors as u64,
        };
        Ok(FATFileSystem { device_block_size, variant, geo, root_cluster })
    }

    /// Mounts the volume on `device`: reads sector 0 and derives the
    /// filesystem from it. A device that returns no blocks for sector 0 is
    /// reported as `DeviceShortRead`.
    pub fn open<D: BlockDevice>(device: &mut D) -> (r: Result<FATFileSystem, Error>)
        ensures
            final(device).spec_block_size() == old(device).spec_block_size(),
            final(device).spec_data() == old(device).spec_data(),
            final(device).spec_reads() == old(device).spec_reads() + 1,
            r matches Ok(fs) ==> fs.wf()
                && fs.device_block_size == old(device).spec_block_size(),
            r matches Err(e) ==> e == Error::DeviceShortRead || e == Error::MalformedBpb
                || e == Error::UnsupportedVariant,
            (r matches Err(e) && e == Error::DeviceShortRead) <==> spec_blocks_served(
                old(device).spec_data().len() as int,
                old(device).spec_block_size() as int,
                0,
                old(device).spec_block_size() as int,
            ) == 0,
            spec_blocks_served(
                old(device).spec_data().len() as int,
                old(device).spec_block_size() as int,
                0,
                old(device).spec_block_size() as int,
            ) > 0 ==> ((r is Ok) <==> (spec_bpb_valid(
                old(device).spec_data().subrange(0, old(device).spec_block_size() as int),
                old(device).spec_block_size() as int,
            ) && spec_cluster_count(
                old(device).spec_data().subrange(0, old(device).spec_block_size() as int),
            ) >= 65525)),
            spec_blocks_served(
                old(device).spec_data().len() as int,
                old(device).spec_block_size() as int,
                0,
                old(device).spec_block_size() as int,
            ) > 0 ==> (r matches Err(e) ==> ((e == Error::MalformedBpb) <==> !spec_bpb_valid(
                old(device).spec_data().subrange(0, old(device).spec_block_size() as int),
                old(device).spec_block_size() as int,
            ))),
            spec_blocks_served(
                old(device).spec_data().len() as int,
                old(device).spec_block_size() as int,
                0,
                old(device).spec_block_size() as int,
            ) > 0 ==> (r matches Ok(fs) ==> fs.variant == Variant::Fat32
                && fs.geo.sector_size_bytes == spec_bytes_per_sector(
                old(device).spec_data().subrange(0, old(device).spec_block_size() as int),
            ) && fs.geo.cluster_size_sectors == spec_sectors_per_cluster(
                old(device).spec_data().subrange(0, old(device).spec_block_size() as int),
            ) && fs.geo.first_fat_sector == spec_reserved_sector_count(
                old(device).spec_data().subrange(0, old(device).spec_block_size() as int),
            ) && fs.geo.first_data_sector == spec_meta_sectors(
                old(device).spec_data().subrange(0, old(device).spec_block_size() as int),
            ) && fs.root_cluster == spec_root_cluster(
                old(device).spec_data().subrange(0, old(device).spec_block_size() as int),
            )),
    {
        let block_size = device.block_size();
        let mut sector0: Vec<u8> = zero_vec(block_size as usize);
        let blocks_read = device.read_blocks(0, &mut sector0);
        if blocks_read == 0 {
            return Err(Error::DeviceShortRead);
        }
        proof {
            let image_len = old(device).spec_data().len() as int;
            let bsi = block_size as int;
            vstd::arithmetic::div_mod::lemma_div_by_self(bsi);
            vstd::arithmetic::div_mod::lemma_fundamental_div_mod(image_len, bsi);
            vstd::arithmetic::div_mod::lemma_remainder(image_len, bsi);
            vstd::arithmetic::mul::lemma_mul_inequality(1, image_len / bsi, bsi);
            vstd::arithmetic::mul::lemma_mul_is_commutative(image_len / bsi, bsi);
            assert(spec_blocks_served(image_len, bsi, 0, sector0@.len() as int)
                == blocks_read as int);
            assert(0 * bsi < image_len);
            assert(image_len / bsi >= 1);
            assert(1 * bsi == bsi) by (nonlinear_arith);
            assert(image_len >= bsi);
            assert(sector0@ =~= old(device).spec_data().subrange(0, bsi)) by {
                assert(sector0@.subrange(0, bsi) =~= sector0@);
            }
        }
        Self::mount(sector0.as_slice(), block_size)
    }

    /// The byte size a caller-supplied read buffer must have: the larger of
    /// the sector size and the device block size. The result is a whole
    /// number of device blocks with room for at least one sector.
    pub fn required_read_buffer_size(&self) -> (r: usize)
        requires
            self.wf(),
        ensures
            r == if self.geo.sector_size_bytes as int >= self.device_block_size as int {
                self.geo.sector_size_bytes as int
            } else {
                self.device_block_size as int
            },
            r as int % self.device_block_size as int == 0,
            r >= self.geo.sector_size_bytes,
            r >= self.device_block_size,
    {
        let ss = self.geo.sector_size_bytes as usize;
        let bs = self.device_block_size as usize;
        if ss >= bs {
            proof {
                if ss as int % bs as int != 0 {
                    if bs < ss {
                        vstd::arithmetic::div_mod::lemma_small_mod(bs as nat, ss as nat);
                    } else {
                        vstd::arithmetic::div_mod::lemma_mod_self_0(bs as int);
                    }
                }
            }
            ss
        } else {
            proof {
                vstd::arithmetic::div_mod::lemma_mod_self_0(bs as int);
            }
            bs
        }
    }

    /// The byte size of one cluster.
    pub fn cluster_bytes(&self) -> (r: u32)
        requires
            self.wf(),
        ensures
            r == self.geo.sector_size_bytes * self.geo.cluster_size_sectors,
    {
        proof {
            vstd::arithmetic::mul::lemma_mul_nonnegative(
                self.geo.sector_size_bytes as int,
                self.geo.cluster_size_sectors as int,
            );
            vstd::arithmetic::mul::lemma_mul_upper_bound(
                self.geo.sector_size_bytes as int,
                4096,
                self.geo.cluster_size_sectors as int,
                255,
            );
        }
        (self.geo.sector_size_bytes as u32) * (self.geo.cluster_size_sectors as u32)
    }

    /// Opens a directory walk over the selected directory. The caller hands
    /// the walk its read buffer; `required_read_buffer_size` gives the least
    /// admissible length. A selected cluster below 2 is rejected as
    /// `InvalidCluster`.
    pub fn walk_directory<D: BlockDevice>(
        &self,
        device: &mut D,
        buffer: Vec<u8>,
        directory: DirectorySelector,
    ) -> (r: Result<DirectoryWalker, Error>)
        requires
            self.wf(),
            old(device).spec_block_size() == self.device_block_size,
            buffer.len() >= self.geo.sector_size_bytes,
            buffer.len() >= self.device_block_size,
            buffer.len() as int % self.device_block_size as int == 0,
        ensures
            final(device).spec_block_size() == old(device).spec_block_size(),
            final(device).spec_data() == old(device).spec_data(),
            old(device).spec_reads() <= final(device).spec_reads() <= old(device).spec_reads()
                + 1,
            (r matches Err(e) && e == Error::InvalidCluster)
                <==> self.spec_selected_cluster(directory) < 2,
            r matches Err(e) ==> e == Error::InvalidCluster || e == Error::DeviceShortRead,
            r matches Ok(w) ==> w.wf() && w.device_compatible(old(device).spec_block_size() as int)
                && w.coherent_with(old(device).spec_data())
                && w.spec_walker().spec_cluster() == self.spec_selected_cluster(directory)
                && w.spec_walker().spec_sector_in_cluster() == 0
                && w.spec_walker().spec_geo() == self.geo,
            self.spec_selected_cluster(directory) >= 2 && spec_sector_readable(
                old(device).spec_data(),
                old(device).spec_block_size() as int,
                self.geo.sector_size_bytes as int,
                self.geo.spec_first_sector_of(self.spec_selected_cluster(directory)),
                buffer.len() as int,
            ) ==> r is Ok,
    {
        let read_buffer = ReadBuffer::new(buffer, self.geo.sector_size_bytes);
        let cluster_index = match directory {
            DirectorySelector::Normal(first_cluster) => first_cluster,
            DirectorySelector::Root => self.root_cluster,
        };
        match ClusterWalker::open(read_buffer, device, cluster_index, self.geo) {
            Ok(cluster_walker) => Ok(DirectoryWalker { cluster_walker }),
            Err(e) => Err(e),
        }
    }

    /// Reads the blocks holding the first cluster of the file starting at
    /// `file_first_cluster` into `cluster_buffer`. Files spanning several
    /// clusters need one call per cluster, with the chain walked separately.
    pub fn read<D: BlockDevice>(
        &self,
        device: &mut D,
        file_first_cluster: u32,
        cluster_buffer: &mut Vec<u8>,
    ) -> (r: Result<(), Error>)
        requires
            self.wf(),
            old(device).spec_block_size() == self.device_block_size,
            old(cluster_buffer).len() > 0,
            old(cluster_buffer).len() as int % self.device_block_size as int == 0,
        ensures
            final(cluster_buffer).len() == old(cluster_buffer).len(),
            final(device).spec_block_size() == old(device).spec_block_size(),
            final(device).spec_data() == old(device).spec_data(),
            final(device).spec_reads() == old(device).spec_reads() + (
            if file_first_cluster >= 2 {
                1int
            } else {
                0int
            }),
            (r matches Err(e) && e == Error::InvalidCluster) <==> file_first_cluster < 2,
            r matches Err(e) ==> e == Error::InvalidCluster || e == Error::DeviceShortRead,
            file_first_cluster >= 2 ==> ((r is Ok) <==> spec_blocks_served(
                old(device).spec_data().len() as int,
                old(device).spec_block_size() as int,
                spec_cluster_block_index(
                    self.geo,
                    old(device).spec_block_size() as int,
                    file_first_cluster as int,
                ),
                old(cluster_buffer).len() as int,
            ) > 0),
            r is Ok ==> final(cluster_buffer)@.subrange(
                0,
                spec_blocks_served(
                    old(device).spec_data().len() as int,
                    old(device).spec_block_size() as int,
                    spec_cluster_block_index(
                        self.geo,
                        old(device).spec_block_size() as int,
                        file_first_cluster as int,
                    ),
                    old(cluster_buffer).len() as int,
                ) * old(device).spec_block_size(),
            ) == old(device).spec_data().subrange(
                spec_cluster_block_index(
                    self.geo,
                    old(device).spec_block_size() as int,
                    file_first_cluster as int,
                ) * old(device).spec_block_size(),
                spec_cluster_block_index(
                    self.geo,
                    old(device).spec_block_size() as int,
                    file_first_cluster as int,
                ) * old(device).spec_block_size() + spec_blocks_served(
                    old(device).spec_data().len() as int,
                    old(device).spec_block_size() as int,
                    spec_cluster_block_index(
                        self.geo,
                        old(device).spec_block_size() as int,
                        file_first_cluster as int,
                    ),
                    old(cluster_buffer).len() as int,
                ) * old(device).spec_block_size(),
            ),
    {
        if file_first_cluster < 2 {
            return Err(Error::InvalidCluster);
        }
        proof {
            lemma_cluster_sector_in_range(self.geo, file_first_cluster as int, 0);
        }
        let first_sector: u64 = self.geo.first_data_sector + ((file_first_cluster - 2) as u64) * (
        self.geo.cluster_size_sectors as u64);
        proof {
            lemma_position_mul_fits(first_sector as int, self.geo.sector_size_bytes as int);
        }
        let block_index = (first_sector * (self.geo.sector_size_bytes as u64)) / (
        self.device_block_size as u64);
        let blocks_read = device.read_blocks(block_index, cluster_buffer);
        if blocks_read == 0 {
            return Err(Error::DeviceShortRead);
        }
        Ok(())
    }

    /// Reads the first cluster of directory `directory_first_cluster` into
    /// `cluster_buffer` and returns the stream of its occupied records.
    /// Only the first cluster is covered; longer directories are walked
    /// with `walk_directory`.
    pub fn ls<D: BlockDevice>(
        &self,
        device: &mut D,
        directory_first_cluster: u32,
        cluster_buffer: &mut Vec<u8>,
    ) -> (r: Result<DirectoryEntriesIterator, Error>)
        requires
            self.wf(),
            old(device).spec_block_size() == self.device_block_size,
            old(cluster_buffer).len() > 0,
            old(cluster_buffer).len() as int % self.device_block_size as int == 0,
        ensures
            final(cluster_buffer).len() == old(cluster_buffer).len(),
            final(device).spec_block_size() == old(device).spec_block_size(),
            final(device).spec_reads() == old(device).spec_reads() + (
            if directory_first_cluster >= 2 {
                1int
            } else {
                0int
            }),
            final(device).spec_data() == old(device).spec_data(),
            directory_first_cluster >= 2 ==> ((r is Ok) <==> spec_blocks_served(
                old(device).spec_data().len() as int,
                old(device).spec_block_size() as int,
                spec_cluster_block_index(
                    self.geo,
                    old(device).spec_block_size() as int,
                    directory_first_cluster as int,
                ),
                old(cluster_buffer).len() as int,
            ) > 0),
            r is Ok ==> final(cluster_buffer)@.subrange(
                0,
                spec_blocks_served(
                    old(device).spec_data().len() as int,
                    old(device).spec_block_size() as int,
                    spec_cluster_block_index(
                        self.geo,
                        old(device).spec_block_size() as int,
                        directory_first_cluster as int,
                    ),
                    old(cluster_buffer).len() as int,
                ) * old(device).spec_block_size(),
            ) == old(device).spec_data().subrange(
                spec_cluster_block_index(
                    self.geo,
                    old(device).spec_block_size() as int,
                    directory_first_cluster as int,
                ) * old(device).spec_block_size(),
                spec_cluster_block_index(
                    self.geo,
                    old(device).spec_block_size() as int,
                    directory_first_cluster as int,
                ) * old(device).spec_block_size() + spec_blocks_served(
                    old(device).spec_data().len() as int,
                    old(device).spec_block_size() as int,
                    spec_cluster_block_index(
                        self.geo,
                        old(device).spec_block_size() as int,
                        directory_first_cluster as int,
                    ),
                    old(cluster_buffer).len() as int,
                ) * old(device).spec_block_size(),
            ),
            (r matches Err(e) && e == Error::InvalidCluster) <==> directory_first_cluster < 2,
            r matches Err(e) ==> e == Error::InvalidCluster || e == Error::DeviceShortRead,
            r matches Ok(it) ==> it.wf() && !it.is_terminated()
                && it.sector() == final(cluster_buffer)@
                && it.remaining() == occupied_records(final(cluster_buffer)@, 0),
    {
        match self.read(device, directory_first_cluster, cluster_buffer) {
            Ok(()) => Ok(DirectoryEntriesIterator::new(cluster_buffer.as_slice())),
            Err(e) => Err(e),
        }
    }

    /// Reads the first cluster of the root directory into `cluster_buffer`
    /// and returns the stream of its occupied records.
    pub fn ls_root<D: BlockDevice>(&self, device: &mut D, cluster_buffer: &mut Vec<u8>) -> (r:
        Result<DirectoryEntriesIterator, Error>)
        requires
            self.wf(),
            old(device).spec_block_size() == self.device_block_size,
            old(cluster_buffer).len() > 0,
            old(cluster_buffer).len() as int % self.device_block_size as int == 0,
        ensures
            final(cluster_buffer).len() == old(cluster_buffer).len(),
            final(device).spec_block_size() == old(device).spec_block_size(),
            final(device).spec_reads() == old(device).spec_reads() + (
            if self.root_cluster >= 2 {
                1int
            } else {
                0int
            }),
            final(device).spec_data() == old(device).spec_data(),
            self.root_cluster >= 2 ==> ((r is Ok) <==> spec_blocks_served(
                old(device).spec_data().len() as int,
                old(device).spec_block_size() as int,
                spec_cluster_block_index(
                    self.geo,
                    old(device).spec_block_size() as int,
                    self.root_cluster as int,
                ),
                old(cluster_buffer).len() as int,
            ) > 0),
            r is Ok ==> final(cluster_buffer)@.subrange(
                0,
                spec_blocks_served(
                    old(device).spec_data().len() as int,
                    old(device).spec_block_size() as int,
                    spec_cluster_block_index(
                        self.geo,
                        old(device).spec_block_size() as int,
                        self.root_cluster as int,
                    ),
                    old(cluster_buffer).len() as int,
                ) * old(device).spec_block_size(),
            ) == old(device).spec_data().subrange(
                spec_cluster_block_index(
                    self.geo,
                    old(device).spec_block_size() as int,
                    self.root_cluster as int,
                ) * old(device).spec_block_size(),
                spec_cluster_block_index(
                    self.geo,
                    old(device).spec_block_size() as int,
                    self.root_cluster as int,
                ) * old(device).spec_block_size() + spec_blocks_served(
                    old(device).spec_data().len() as int,
                    old(device).spec_block_size() as int,
                    spec_cluster_block_index(
                        self.geo,
                        old(device).spec_block_size() as int,
                        self.root_cluster as int,
                    ),
                    old(cluster_buffer).len() as int,
                ) * old(device).spec_block_size(),
            ),
            (r matches Err(e) && e == Error::InvalidCluster) <==> self.root_cluster < 2,
            r matches Err(e) ==> e == Error::InvalidCluster || e == Error::DeviceShortRead,
            r matches Ok(it) ==> it.wf() && !it.is_terminated()
                && it.sector() == final(cluster_buffer)@
                && it.remaining() == occupied_records(final(cluster_buffer)@, 0),
    {
        let root = self.root_cluster;
        self.ls(device, root, cluster_buffer)
    }
}

/// A directory exposed as a flat, lazy run of occupied records: one sector
/// at a time, following the cluster chain on demand.
pub struct DirectoryWalker {
    cluster_walker: ClusterWalker,
}

impl DirectoryWalker {
    /// The underlying cluster walker.
    pub closed spec fn spec_walker(&self) -> ClusterWalker {
        self.cluster_walker
    }

    pub open spec fn wf(&self) -> bool {
        self.spec_walker().wf()
    }

    /// Compatibility between the walker's buffer and a device block size.
    pub open spec fn device_compatible(&self, block_size: int) -> bool {
        self.spec_walker().device_compatible(block_size)
    }

    /// The walker's cache is faithful to a device holding `data`.
    pub open spec fn coherent_with(&self, data: Seq<u8>) -> bool {
        self.spec_walker().coherent_with(data)
    }

    /// The bytes of the directory sector the walker stands on.
    pub open spec fn spec_current_sector(&self) -> Seq<u8> {
        self.spec_walker().spec_current_sector()
    }

    /// The stream of occupied records of the sector the walker stands on.
    /// The stream covers one sector; `next` moves to the following one.
    pub fn occupied_entries(&self) -> (r: DirectoryEntriesIterator)
        requires
            self.wf(),
        ensures
            r.wf(),
            r.sector() == self.spec_current_sector(),
            r.remaining() == occupied_records(self.spec_current_sector(), 0),
            r.position() == 0,
            !r.is_terminated(),
    {
        DirectoryEntriesIterator::new(self.cluster_walker.current_sector())
    }

    /// Advances to the next sector of the directory: the next sector of the
    /// current cluster when there is one, else the first sector of the next
    /// cluster of the chain as the FAT entry directs. Nothing is returned
    /// exactly at end-of-chain.
    pub fn next<D: BlockDevice>(self, device: &mut D) -> (r: Result<Option<Self>, Error>)
        requires
            self.wf(),
            self.device_compatible(old(device).spec_block_size() as int),
            self.coherent_with(old(device).spec_data()),
        ensures
            final(device).spec_block_size() == old(device).spec_block_size(),
            final(device).spec_data() == old(device).spec_data(),
            old(device).spec_reads() <= final(device).spec_reads() <= old(device).spec_reads()
                + 2,
            r matches Ok(Some(w)) ==> w.wf() && w.device_compatible(
                old(device).spec_block_size() as int,
            ) && w.coherent_with(old(device).spec_data()) && w.spec_walker().spec_geo()
                == self.spec_walker().spec_geo() && w.spec_walker().spec_buffer().buf().len()
                == self.spec_walker().spec_buffer().buf().len(),
            self.spec_walker().spec_sector_in_cluster() + 1
                < self.spec_walker().spec_geo().cluster_size_sectors ==> (r matches Ok(Some(w))
                ==> w.spec_walker().spec_cluster() == self.spec_walker().spec_cluster()
                && w.spec_walker().spec_sector_in_cluster()
                == self.spec_walker().spec_sector_in_cluster() + 1),
            self.spec_walker().spec_sector_in_cluster() + 1
                == self.spec_walker().spec_geo().cluster_size_sectors ==> (r matches Ok(Some(w))
                ==> w.spec_walker().spec_sector_in_cluster() == 0 && spec_fat_entry(
                old(device).spec_data(),
                self.spec_walker().spec_geo(),
                self.spec_walker().spec_cluster(),
            ) == FileAllocationTable32Result::NextClusterIndex(
                w.spec_walker().spec_cluster() as u32,
            )),
            r matches Ok(None) ==> self.spec_walker().spec_sector_in_cluster() + 1
                == self.spec_walker().spec_geo().cluster_size_sectors && spec_fat_entry(
                old(device).spec_data(),
                self.spec_walker().spec_geo(),
                self.spec_walker().spec_cluster(),
            ) is EndOfChain,
            (r matches Err(e) && e == Error::CorruptedChain) ==> (spec_fat_entry(
                old(device).spec_data(),
                self.spec_walker().spec_geo(),
                self.spec_walker().spec_cluster(),
            ) is BadCluster || (spec_fat_entry(
                old(device).spec_data(),
                self.spec_walker().spec_geo(),
                self.spec_walker().spec_cluster(),
            ) matches FileAllocationTable32Result::NextClusterIndex(n) && n < 2)),
            r matches Err(e) ==> e == Error::CorruptedChain || e == Error::DeviceShortRead,
            self.spec_walker().spec_sector_in_cluster() + 1
                < self.spec_walker().spec_geo().cluster_size_sectors && (spec_sector_readable(
                old(device).spec_data(),
                old(device).spec_block_size() as int,
                self.spec_walker().spec_geo().sector_size_bytes as int,
                self.spec_walker().spec_position() + 1,
                self.spec_walker().spec_buffer().buf().len() as int,
            ) || self.spec_walker().spec_buffer().loaded_contains(
                self.spec_walker().spec_position() + 1,
            )) ==> r matches Ok(Some(w)),
            self.spec_walker().spec_sector_in_cluster() + 1
                == self.spec_walker().spec_geo().cluster_size_sectors && (spec_sector_readable(
                old(device).spec_data(),
                old(device).spec_block_size() as int,
                self.spec_walker().spec_geo().sector_size_bytes as int,
                spec_fat_sector_index(
                    self.spec_walker().spec_geo(),
                    self.spec_walker().spec_cluster(),
                ),
                self.spec_walker().spec_buffer().buf().len() as int,
            ) || self.spec_walker().spec_buffer().loaded_contains(
                spec_fat_sector_index(
                    self.spec_walker().spec_geo(),
                    self.spec_walker().spec_cluster(),
                ),
            )) ==> (spec_fat_entry(
                old(device).spec_data(),
                self.spec_walker().spec_geo(),
                self.spec_walker().spec_cluster(),
            ) is EndOfChain ==> r matches Ok(None)) && (spec_fat_entry(
                old(device).spec_data(),
                self.spec_walker().spec_geo(),
                self.spec_walker().spec_cluster(),
            ) is BadCluster ==> (r matches Err(e) && e == Error::CorruptedChain)),
            self.spec_walker().spec_sector_in_cluster() + 1
                == self.spec_walker().spec_geo().cluster_size_sectors && (spec_sector_readable(
                old(device).spec_data(),
                old(device).spec_block_size() as int,
                self.spec_walker().spec_geo().sector_size_bytes as int,
                spec_fat_sector_index(
                    self.spec_walker().spec_geo(),
                    self.spec_walker().spec_cluster(),
                ),
                self.spec_walker().spec_buffer().buf().len() as int,
            ) || self.spec_walker().spec_buffer().loaded_contains(
                spec_fat_sector_index(
                    self.spec_walker().spec_geo(),
                    self.spec_walker().spec_cluster(),
                ),
            )) ==> (spec_fat_entry(
                old(device).spec_data(),
                self.spec_walker().spec_geo(),
                self.spec_walker().spec_cluster(),
            ) matches FileAllocationTable32Result::NextClusterIndex(n) && n >= 2
                && spec_sector_readable(
                old(device).spec_data(),
                old(device).spec_block_size() as int,
                self.spec_walker().spec_geo().sector_size_bytes as int,
                self.spec_walker().spec_geo().spec_first_sector_of(n as int),
                self.spec_walker().spec_buffer().buf().len() as int,
            ) ==> r is Ok),
    {
        let DirectoryWalker { cluster_walker: mut walker } = self;
        match walker.next_sector(device) {
            Ok(true) => {
                return Ok(Some(DirectoryWalker { cluster_walker: walker }));
            },
            Ok(false) => {},
            Err(e) => {
                return Err(e);
            },
        }
        match walker.next_cluster(device) {
            Ok(Some(next_walker)) => Ok(Some(DirectoryWalker { cluster_walker: next_walker })),
            Ok(None) => Ok(None),
            Err(e) => Err(e),
        }
    }

    /// Collects the whole directory's occupied records: sector by sector in
    /// on-disk order, following the cluster chain, stopping for good at the
    /// first terminator record or at end-of-chain. At most `max_sectors`
    /// sectors are visited, so the walk ends even on a corrupt chain that
    /// loops; the returned flag says whether the walk reached the
    /// directory's natural end (true) or ran out of its sector budget
    /// (false). The records returned are exactly those of the walk
    /// [`spec_directory_records`] over the device content.
    pub fn enumerate_occupied_entries<D: BlockDevice>(
        self,
        device: &mut D,
        max_sectors: u64,
    ) -> (r: Result<(Vec<DirectoryEntry>, bool), Error>)
        requires
            self.wf(),
            self.device_compatible(old(device).spec_block_size() as int),
            self.coherent_with(old(device).spec_data()),
        ensures
            final(device).spec_block_size() == old(device).spec_block_size(),
            final(device).spec_data() == old(device).spec_data(),
            r matches Ok(p) ==> spec_entries_bytes(p.0@) == spec_directory_records(
                old(device).spec_data(),
                self.spec_walker().spec_geo(),
                self.spec_walker().spec_cluster(),
                self.spec_walker().spec_sector_in_cluster(),
                max_sectors as nat,
            ) && p.1 == spec_directory_walk_completes(
                old(device).spec_data(),
                self.spec_walker().spec_geo(),
                self.spec_walker().spec_cluster(),
                self.spec_walker().spec_sector_in_cluster(),
                max_sectors as nat,
            ),
            r matches Ok(p) ==> forall|i: int|
                0 <= i < p.0.len() ==> (#[trigger] p.0[i])@.len() == 32 && p.0[i]@[0] != 0x00
                    && p.0[i]@[0] != 0xE5,
            r matches Err(e) ==> e == Error::CorruptedChain || e == Error::DeviceShortRead,
            spec_directory_walk_serviceable(
                old(device).spec_data(),
                self.spec_walker().spec_geo(),
                self.spec_walker().spec_cluster(),
                self.spec_walker().spec_sector_in_cluster(),
                old(device).spec_block_size() as int,
                self.spec_walker().spec_buffer().buf().len() as int,
                max_sectors as nat,
            ) ==> r is Ok,
    {
        let ghost image = old(device).spec_data();
        let ghost geo = self.spec_walker().spec_geo();
        let ghost buf_len0 = self.spec_walker().spec_buffer().buf().len() as int;
        let ghost serviceable0 = spec_directory_walk_serviceable(
            image,
            geo,
            self.spec_walker().spec_cluster(),
            self.spec_walker().spec_sector_in_cluster(),
            old(device).spec_block_size() as int,
            buf_len0,
            max_sectors as nat,
        );
        let ghost total = spec_directory_records(
            image,
            geo,
            self.spec_walker().spec_cluster(),
            self.spec_walker().spec_sector_in_cluster(),
            max_sectors as nat,
        );
        let ghost total_done = spec_directory_walk_completes(
            image,
            geo,
            self.spec_walker().spec_cluster(),
            self.spec_walker().spec_sector_in_cluster(),
            max_sectors as nat,
        );
        let mut entries: Vec<DirectoryEntry> = Vec::new();
        let mut current = Some(self);
        let mut sectors_left = max_sectors;
        proof {
            assert(spec_entries_bytes(entries@) =~= Seq::<Seq<u8>>::empty());
            assert(spec_entries_bytes(entries@) + total =~= total);
        }
        #[verifier::loop_isolation(false)]
        loop
            invariant
                current matches Some(w) ==> w.wf() && w.device_compatible(
                    old(device).spec_block_size() as int,
                ) && w.coherent_with(image) && w.spec_walker().spec_geo() == geo
                    && w.spec_walker().spec_buffer().buf().len() == buf_len0,
                serviceable0 ==> (current matches Some(w) ==> spec_directory_walk_serviceable(
                    image,
                    geo,
                    w.spec_walker().spec_cluster(),
                    w.spec_walker().spec_sector_in_cluster(),
                    old(device).spec_block_size() as int,
                    buf_len0,
                    sectors_left as nat,
                )),
                device.spec_block_size() == old(device).spec_block_size(),
                device.spec_data() == image,
                current matches Some(w) ==> spec_entries_bytes(entries@) + spec_directory_records(
                    image,
                    geo,
                    w.spec_walker().spec_cluster(),
                    w.spec_walker().spec_sector_in_cluster(),
                    sectors_left as nat,
                ) == total && spec_directory_walk_completes(
                    image,
                    geo,
                    w.spec_walker().spec_cluster(),
                    w.spec_walker().spec_sector_in_cluster(),
                    sectors_left as nat,
                ) == total_done,
                current is None ==> spec_entries_bytes(entries@) == total && total_done,
                forall|i: int|
                    0 <= i < entries.len() ==> (#[trigger] entries[i])@.len() == 32
                        && entries[i]@[0] != 0x00 && entries[i]@[0] != 0xE5,
            decreases sectors_left,
        {
            let walker = match current {
                Some(w) => w,
                None => {
                    return Ok((entries, true));
                },
            };
            let ghost cluster = walker.spec_walker().spec_cluster();
            let ghost sector_in_cluster = walker.spec_walker().spec_sector_in_cluster();
            if sectors_left == 0 {
                proof {
                    assert(spec_directory_records(image, geo, cluster, sector_in_cluster, 0)
                        =~= Seq::<Seq<u8>>::empty());
                    assert(spec_entries_bytes(entries@) + Seq::<Seq<u8>>::empty()
                        =~= spec_entries_bytes(entries@));
                }
                return Ok((entries, false));
            }
            sectors_left = sectors_left - 1;

            let ghost sec = walker.spec_current_sector();
            proof {
                lemma_current_sector_from_device(walker.spec_walker(), image);
            }
            let ghost entries_before = spec_entries_bytes(entries@);
            let mut sector_entries = walker.occupied_entries();
            loop
                invariant_except_break
                    !sector_entries.is_terminated(),
                    has_terminator(sec, sector_entries.position()) == has_terminator(sec, 0),
                invariant
                    sector_entries.wf(),
                    sector_entries.sector() == sec,
                    entries_before + occupied_records(sec, 0) == spec_entries_bytes(entries@)
                        + sector_entries.remaining(),
                    forall|i: int|
                        0 <= i < entries.len() ==> (#[trigger] entries[i])@.len() == 32
                            && entries[i]@[0] != 0x00 && entries[i]@[0] != 0xE5,
                ensures
                    sector_entries.wf(),
                    sector_entries.sector() == sec,
                    sector_entries.remaining() =~= Seq::<Seq<u8>>::empty(),
                    sector_entries.is_terminated() == has_terminator(sec, 0),
                    spec_entries_bytes(entries@) == entries_before + occupied_records(sec, 0),
                    forall|i: int|
                        0 <= i < entries.len() ==> (#[trigger] entries[i])@.len() == 32
                            && entries[i]@[0] != 0x00 && entries[i]@[0] != 0xE5,
                decreases sector_entries.remaining().len(),
            {
                let ghost before = spec_entries_bytes(entries@);
                let ghost remaining_before = sector_entries.remaining();
                match sector_entries.next() {
                    Some(entry) => {
                        entries.push(entry);
                        proof {
                            assert(spec_entries_bytes(entries@) =~= before + seq![entry@]);
                            assert(remaining_before =~= seq![entry@]
                                + sector_entries.remaining());
                            assert(entries_before + occupied_records(sec, 0) =~= (before + seq![
                                entry@,
                            ]) + sector_entries.remaining());
                        }
                    },
                    None => {
                        break;
                    },
                }
            }
            if sector_entries.reached_terminator() {
                proof {
                    assert(spec_directory_records(
                        image,
                        geo,
                        cluster,
                        sector_in_cluster,
                        (sectors_left + 1) as nat,
                    ) == occupied_records(sec, 0));
                    assert(spec_entries_bytes(entries@) =~= total);
                }
                return Ok((entries, true));
            }

            current = match walker.next(device) {
                Ok(next_walker) => next_walker,
                Err(e) => {
                    return Err(e);
                },
            };
        }
    }
}

/// A zeroed byte vector of the given length.
fn zero_vec(n: usize) -> (r: Vec<u8>)
    ensures
        r@.len() == n,
{
    let mut v: Vec<u8> = Vec::new();
    let mut i: usize = 0;
    while i < n
        invariant
            v@.len() == i,
            i <= n,
        decreases n - i,
    {
        v.push(0);
        i = i + 1;
    }
    v
}

} // verus!
