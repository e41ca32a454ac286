//! The volume geometry fixed at mount time, and the FAT variant selection.

use vstd::prelude::*;

use crate::math::u8_is_power_of_two;

verus! {

/// The FAT family of a volume. Selection is a legal requirement of the
/// on-disk format and depends only on the data-region cluster count.
#[derive(Clone, Copy, Debug, PartialEq, Eq, Structural)]
pub enum Variant {
    Fat12,
    Fat16,
    Fat32,
}

impl Variant {
    /// Selects the variant from the cluster count: below 4085 clusters the
    /// volume is FAT12, below 65525 FAT16, otherwise FAT32.
    pub fn from_cluster_count(cluster_count: u32) -> (r: Self)
        ensures
            r == Variant::Fat12 <==> cluster_count < 4085,
            r == Variant::Fat16 <==> (4085 <= cluster_count && cluster_count < 65525),
            r == Variant::Fat32 <==> cluster_count >= 65525,
    {
        if cluster_count < 4085 {
            Variant::Fat12
        } else if cluster_count < 65525 {
            Variant::Fat16
        } else {
            Variant::Fat32
        }
    }
}

/// The immutable layout of a mounted volume: how big sectors and clusters
/// are, and where the first file-allocation table and the data region start.
#[derive(Clone, Copy, Debug, PartialEq, Eq, Structural)]
pub struct FATGeometry {
    /// Sectors per cluster; a nonzero power of two.
    pub cluster_size_sectors: u8,
    /// Bytes per sector; one of 512, 1024, 2048, 4096.
    pub sector_size_bytes: u16,
    /// Absolute sector index of the first file-allocation table.
    pub first_fat_sector: u64,
    /// Absolute sector index of the first data-region sector.
    pub first_data_sector: u64,
}

impl FATGeometry {
    /// The geometry invariant established at mount time. The bound on
    /// `first_data_sector` holds of anything a parameter block can encode
    /// (it is below `2^41`) and keeps all sector arithmetic inside `u64`.
    pub open spec fn wf(&self) -> bool {
        &&& (self.sector_size_bytes == 512 || self.sector_size_bytes == 1024
            || self.sector_size_bytes == 2048 || self.sector_size_bytes == 4096)
        &&& u8_is_power_of_two(self.cluster_size_sectors)
        &&& self.cluster_size_sectors >= 1
        &&& self.first_fat_sector <= self.first_data_sector
        &&& self.first_data_sector <= 0x200_0000_0000
    }

    /// The absolute index of the first sector of cluster `c`: the data
    /// region starts at cluster 2, each cluster spanning
    /// `cluster_size_sectors` sectors.
    pub open spec fn spec_first_sector_of(&self, c: int) -> int {
        self.first_data_sector + (c - 2) * self.cluster_size_sectors
    }

    /// The absolute index of sector-in-cluster `s` of cluster `c`.
    pub open spec fn spec_cluster_sector(&self, c: int, s: int) -> int {
        self.spec_first_sector_of(c) + s
    }
}

/// Every sector position of every addressable cluster has an absolute index
/// far inside `u64`.
pub proof fn lemma_cluster_sector_in_range(geo: FATGeometry, c: int, s: int)
    requires
        geo.wf(),
        2 <= c <= u32::MAX,
        0 <= s <= 255,
    ensures
        0 <= geo.spec_cluster_sector(c, s) < 0x400_0000_0000,
{
    vstd::arithmetic::mul::lemma_mul_nonnegative(c - 2, geo.cluster_size_sectors as int);
    vstd::arithmetic::mul::lemma_mul_upper_bound(
        c - 2,
        0xFFFF_FFFF,
        geo.cluster_size_sectors as int,
        255,
    );
}

/// A sector index produced by the geometry, times the sector size, stays
/// inside `u64`: positions are below `2^42` and sectors hold at most 4096
/// bytes.
pub proof fn lemma_position_mul_fits(position: int, ss: int)
    requires
        0 <= position < 0x400_0000_0000,
        0 < ss <= 4096,
    ensures
        position * ss <= u64::MAX,
{
    vstd::arithmetic::mul::lemma_mul_upper_bound(position, 0x400_0000_0000 - 1, ss, 4096);
}

} // verus!
