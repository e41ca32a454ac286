//! Zero-copy style views over the on-disk primitive structures: the common
//! BIOS parameter block, the FAT32 extension of it, and the file-allocation
//! table, together with the free functions that derive the volume geometry.
//!
//! Each view owns a copy of the bytes it was built from; the spec functions
//! define, field by field, what those bytes encode, and every accessor is
//! proved to return exactly the encoded value.

use vstd::prelude::*;
use vstd::slice::{slice_subrange, slice_to_vec};

use crate::bytes::{le16, le32, read_u16_le, read_u32_le, read_u8};
use crate::math::DivCeiling;

verus! {

/// Size in bytes of the boot sector holding the BIOS parameter block.
pub const BIOS_PARAMETER_BLOCK_SIZE: usize = 512;

/// The sector size encoded at bytes 11..13.
pub open spec fn spec_bytes_per_sector(s: Seq<u8>) -> int {
    le16(s, 11)
}

/// The cluster size in sectors encoded at byte 13.
pub open spec fn spec_sectors_per_cluster(s: Seq<u8>) -> int {
    s[13] as int
}

/// The reserved-region size in sectors encoded at bytes 14..16.
pub open spec fn spec_reserved_sector_count(s: Seq<u8>) -> int {
    le16(s, 14)
}

/// The number of file-allocation tables encoded at byte 16.
pub open spec fn spec_fat_count(s: Seq<u8>) -> int {
    s[16] as int
}

/// The fixed root-directory entry count encoded at bytes 17..19; zero on FAT32.
pub open spec fn spec_root_entry_count(s: Seq<u8>) -> int {
    le16(s, 17)
}

/// The 16-bit total sector count encoded at bytes 19..21.
pub open spec fn spec_total_sectors_16(s: Seq<u8>) -> int {
    le16(s, 19)
}

/// The 16-bit table size in sectors encoded at bytes 22..24; zero on FAT32.
pub open spec fn spec_sectors_per_fat_16(s: Seq<u8>) -> int {
    le16(s, 22)
}

/// The 32-bit total sector count encoded at bytes 32..36.
pub open spec fn spec_total_sectors_32(s: Seq<u8>) -> int {
    le32(s, 32)
}

/// The volume's total sector count: the 16-bit field when nonzero, else the
/// 32-bit field.
pub open spec fn spec_total_sectors(s: Seq<u8>) -> int {
    if spec_total_sectors_16(s) != 0 {
        spec_total_sectors_16(s)
    } else {
        spec_total_sectors_32(s)
    }
}

/// The 32-bit table size in sectors encoded at bytes 36..40 of the FAT32
/// extension.
pub open spec fn spec_sectors_per_fat_32(s: Seq<u8>) -> int {
    le32(s, 36)
}

/// The table size in sectors: the 16-bit field when nonzero, else the 32-bit
/// field of the FAT32 extension.
pub open spec fn spec_sectors_per_fat(s: Seq<u8>) -> int {
    if spec_sectors_per_fat_16(s) != 0 {
        spec_sectors_per_fat_16(s)
    } else {
        spec_sectors_per_fat_32(s)
    }
}

/// The root directory's first cluster encoded at bytes 44..48 of the FAT32
/// extension.
pub open spec fn spec_root_cluster(s: Seq<u8>) -> int {
    le32(s, 44)
}

/// View over the common BIOS parameter block, bytes 0..36 of sector 0.
pub struct CommonBiosParameterBlock {
    data: Vec<u8>,
}

impl View for CommonBiosParameterBlock {
    type V = Seq<u8>;

    closed spec fn view(&self) -> Seq<u8> {
        self.data@
    }
}

impl CommonBiosParameterBlock {
    /// Number of bytes the common parameter block occupies.
    pub const SIZE: usize = 36;

    /// The view is usable when it covers the full common parameter block.
    pub open spec fn wf(&self) -> bool {
        self@.len() >= 36
    }

    /// Builds the view from the leading bytes of sector 0.
    pub fn new(data: &[u8]) -> (r: Self)
        requires
            data@.len() >= 36,
        ensures
            r@ == data@,
            r.wf(),
    {
        CommonBiosParameterBlock { data: slice_to_vec(data) }
    }

    /// The OEM identifier, bytes 3..11.
    pub fn oem(&self) -> (r: &[u8])
        requires
            self.wf(),
        ensures
            r@ == self@.subrange(3, 11),
    {
        slice_subrange(self.data.as_slice(), 3, 11)
    }

    pub fn bytes_per_sector(&self) -> (r: u16)
        requires
            self.wf(),
        ensures
            r == spec_bytes_per_sector(self@),
    {
        read_u16_le(self.data.as_slice(), 11)
    }

    pub fn sectors_per_cluster(&self) -> (r: u8)
        requires
            self.wf(),
        ensures
            r == spec_sectors_per_cluster(self@),
    {
        read_u8(self.data.as_slice(), 13)
    }

    pub fn reserved_sector_count(&self) -> (r: u16)
        requires
            self.wf(),
        ensures
            r == spec_reserved_sector_count(self@),
    {
        read_u16_le(self.data.as_slice(), 14)
    }

    pub fn fat_count(&self) -> (r: u8)
        requires
            self.wf(),
        ensures
            r == spec_fat_count(self@),
    {
        read_u8(self.data.as_slice(), 16)
    }

    pub fn root_entry_count(&self) -> (r: u16)
        requires
            self.wf(),
        ensures
            r == spec_root_entry_count(self@),
    {
        read_u16_le(self.data.as_slice(), 17)
    }

    pub fn total_sectors_16(&self) -> (r: u16)
        requires
            self.wf(),
        ensures
            r == spec_total_sectors_16(self@),
    {
        read_u16_le(self.data.as_slice(), 19)
    }

    pub fn sectors_per_fat_16(&self) -> (r: u16)
        requires
            self.wf(),
        ensures
            r == spec_sectors_per_fat_16(self@),
    {
        read_u16_le(self.data.as_slice(), 22)
    }

    pub fn total_sectors_32(&self) -> (r: u32)
        requires
            self.wf(),
        ensures
            r == spec_total_sectors_32(self@),
    {
        read_u32_le(self.data.as_slice(), 32)
    }

    /// The total sector count: the 16-bit field when nonzero, else the
    /// 32-bit one.
    pub fn total_sectors(&self) -> (r: u32)
        requires
            self.wf(),
        ensures
            r == spec_total_sectors(self@),
    {
        match self.total_sectors_16() {
            0 => self.total_sectors_32(),
            n => n as u32,
        }
    }
}

/// Marker for the FAT12/FAT16 extended BIOS parameter block, bytes 36..512 of
/// sector 0. None of its fields feed the FAT32 reader.
pub struct ExtendedBiosParameterBlock;

/// View over the FAT32 extended BIOS parameter block, bytes 36..512 of
/// sector 0. Only the table size and root cluster fields are consumed.
pub struct ExtendedFat32BiosParameterBlock {
    data: Vec<u8>,
}

impl View for ExtendedFat32BiosParameterBlock {
    type V = Seq<u8>;

    closed spec fn view(&self) -> Seq<u8> {
        self.data@
    }
}

impl ExtendedFat32BiosParameterBlock {
    /// The view is usable when it covers the consumed fields.
    pub open spec fn wf(&self) -> bool {
        self@.len() >= 48
    }

    /// Builds the view from the leading bytes of sector 0.
    pub fn new(data: &[u8]) -> (r: Self)
        requires
            data@.len() >= 48,
        ensures
            r@ == data@,
            r.wf(),
    {
        ExtendedFat32BiosParameterBlock { data: slice_to_vec(data) }
    }

    pub fn sectors_per_fat_32(&self) -> (r: u32)
        requires
            self.wf(),
        ensures
            r == spec_sectors_per_fat_32(self@),
    {
        read_u32_le(self.data.as_slice(), 36)
    }

    pub fn root_cluster(&self) -> (r: u32)
        requires
            self.wf(),
        ensures
            r == spec_root_cluster(self@),
    {
        read_u32_le(self.data.as_slice(), 44)
    }
}

/// Number of sectors occupied by the fixed root directory; zero on FAT32,
/// where the root directory lives in the data region.
pub fn root_dir_sector_count(root_entry_count: u32, bytes_per_sector: u16) -> (r: u32)
    requires
        bytes_per_sector > 0,
        root_entry_count * 32 + bytes_per_sector - 1 <= u32::MAX,
    ensures
        r == (root_entry_count * 32 + bytes_per_sector - 1) / (bytes_per_sector as int),
{
    let root_entry_bytes: u32 = root_entry_count * 32;
    root_entry_bytes.div_ceiling(bytes_per_sector as u32)
}

/// The table size in sectors, decoded from sector 0: the 16-bit field when
/// nonzero, else the 32-bit field of the FAT32 extension.
pub fn sectors_per_fat(data: &[u8]) -> (r: u32)
    requires
        data@.len() >= 40,
    ensures
        r == spec_sectors_per_fat(data@),
{
    match read_u16_le(data, 22) {
        0 => read_u32_le(data, 36),
        n => n as u32,
    }
}

/// Number of sectors in front of the data region: the reserved region, the
/// file-allocation tables, and the fixed root directory.
pub fn meta_sector_count(
    reserved_sector_count: u16,
    sectors_per_fat: u32,
    fat_count: u8,
    root_dir_sectors: u32,
) -> (r: u32)
    requires
        reserved_sector_count + sectors_per_fat * fat_count + root_dir_sectors <= u32::MAX,
    ensures
        r == reserved_sector_count + sectors_per_fat * fat_count + root_dir_sectors,
{
    let reserved: u32 = reserved_sector_count as u32;
    let fats: u32 = fat_count as u32;
    reserved + (sectors_per_fat * fats) + root_dir_sectors
}

/// Number of sectors in the data region.
pub fn data_region_sector_count(total_sectors: u32, meta_sector_count: u32) -> (r: u32)
    requires
        meta_sector_count <= total_sectors,
    ensures
        r == total_sectors - meta_sector_count,
{
    total_sectors - meta_sector_count
}

/// The absolute index of the first sector of cluster `cluster`. Valid data
/// clusters start at index 2, directly after the meta region.
pub fn first_sector_of_cluster(
    cluster: u32,
    sectors_per_cluster: u8,
    first_data_sector: u32,
) -> (r: u32)
    requires
        cluster >= 2,
        (cluster - 2) * sectors_per_cluster + first_data_sector <= u32::MAX,
    ensures
        r == (cluster - 2) * sectors_per_cluster + first_data_sector,
{
    ((cluster - 2) * u32::from(sectors_per_cluster)) + first_data_sector
}

/// Outcome of decoding one file-allocation-table entry.
#[derive(Clone, Copy, Debug, PartialEq, Eq, Structural)]
pub enum FileAllocationTable32Result {
    /// The chain continues at this cluster index.
    NextClusterIndex(u32),
    /// The masked entry equals the bad-cluster sentinel `0x0FFFFFF7`.
    BadCluster,
    /// The masked entry is at least `0x0FFFFFF8`: the chain ends here.
    EndOfChain,
}

/// Classification of an already-masked 28-bit table entry.
pub open spec fn spec_classify_fat32(masked: int) -> FileAllocationTable32Result {
    if masked >= 0x0FFFFFF8 {
        FileAllocationTable32Result::EndOfChain
    } else if masked == 0x0FFFFFF7 {
        FileAllocationTable32Result::BadCluster
    } else {
        FileAllocationTable32Result::NextClusterIndex(masked as u32)
    }
}

/// Decoding of a raw 32-bit table entry: only the low 28 bits carry meaning,
/// so the top four bits are discarded before classification.
pub open spec fn spec_decode_fat32(raw: int) -> FileAllocationTable32Result {
    spec_classify_fat32(raw % 0x10000000)
}

/// The low-28-bit mask equals reduction modulo `2^28`.
pub proof fn lemma_u32_low28_mask(raw: u32)
    ensures
        raw & 0x0FFFFFFF == raw % 0x10000000,
{
    assert(raw & 0x0FFFFFFF == raw % 0x10000000) by (bit_vector);
}

/// Decoding ignores the top four bits of a raw entry: masking them off first
/// changes nothing.
pub proof fn lemma_fat32_decode_ignores_high_bits(raw: u32)
    ensures
        spec_decode_fat32(raw as int) == spec_decode_fat32((raw & 0x0FFFFFFF) as int),
{
    lemma_u32_low28_mask(raw);
    vstd::arithmetic::div_mod::lemma_small_mod((raw % 0x10000000) as nat, 0x10000000nat);
}

impl FileAllocationTable32Result {
    /// Classifies a table entry whose top four bits were already discarded.
    pub fn from_raw(masked: u32) -> (r: Self)
        ensures
            r == spec_classify_fat32(masked as int),
    {
        if masked >= 0x0FFFFFF8 {
            FileAllocationTable32Result::EndOfChain
        } else if masked == 0x0FFFFFF7 {
            FileAllocationTable32Result::BadCluster
        } else {
            FileAllocationTable32Result::NextClusterIndex(masked)
        }
    }
}

/// View over one sector of the FAT32 file-allocation table.
pub struct FileAllocationTable32 {
    data: Vec<u8>,
}

impl View for FileAllocationTable32 {
    type V = Seq<u8>;

    closed spec fn view(&self) -> Seq<u8> {
        self.data@
    }
}

impl FileAllocationTable32 {
    /// Builds the view from the bytes of a table sector.
    pub fn new(data: &[u8]) -> (r: Self)
        ensures
            r@ == data@,
    {
        FileAllocationTable32 { data: slice_to_vec(data) }
    }

    /// Decodes the table entry at the given byte offset within this sector.
    /// The top four bits of the stored word are reserved and are masked off
    /// before classification.
    pub fn get_entry(&self, entry_byte_offset: u32) -> (r: FileAllocationTable32Result)
        requires
            entry_byte_offset + 4 <= self@.len(),
        ensures
            r == spec_decode_fat32(le32(self@, entry_byte_offset as int)),
    {
        let raw = read_u32_le(self.data.as_slice(), entry_byte_offset as usize);
        let masked = raw & 0x0FFFFFFF;
        proof {
            lemma_u32_low28_mask(raw);
        }
        FileAllocationTable32Result::from_raw(masked)
    }
}

} // verus!
