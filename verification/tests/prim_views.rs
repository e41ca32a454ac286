use osc_fat::bytes::{read_u16_le, read_u32_le, read_u8};
use osc_fat::math::DivCeiling;
use osc_fat::prim::{
    data_region_sector_count, first_sector_of_cluster, meta_sector_count, root_dir_sector_count,
    sectors_per_fat, CommonBiosParameterBlock, ExtendedFat32BiosParameterBlock,
    FileAllocationTable32, FileAllocationTable32Result,
};
use osc_fat::geometry::Variant;

fn sample_boot_sector() -> Vec<u8> {
    let mut s = vec![0u8; 512];
    s[3..11].copy_from_slice(b"MSWIN4.1");
    s[11..13].copy_from_slice(&512u16.to_le_bytes()); // bytes per sector
    s[13] = 8; // sectors per cluster
    s[14..16].copy_from_slice(&32u16.to_le_bytes()); // reserved sectors
    s[16] = 2; // fat count
    s[17..19].copy_from_slice(&0u16.to_le_bytes()); // root entries (FAT32)
    s[19..21].copy_from_slice(&0u16.to_le_bytes()); // total sectors 16
    s[22..24].copy_from_slice(&0u16.to_le_bytes()); // sectors per fat 16
    s[32..36].copy_from_slice(&1_048_576u32.to_le_bytes()); // total sectors 32
    s[36..40].copy_from_slice(&1024u32.to_le_bytes()); // sectors per fat 32
    s[44..48].copy_from_slice(&2u32.to_le_bytes()); // root cluster
    s
}

#[test]
fn little_endian_readers() {
    let data = [0x34u8, 0x12, 0x78, 0x56, 0xEF, 0xCD];
    assert_eq!(read_u8(&data, 0), 0x34);
    assert_eq!(read_u16_le(&data, 0), 0x1234);
    assert_eq!(read_u16_le(&data, 2), 0x5678);
    assert_eq!(read_u32_le(&data, 0), 0x5678_1234);
    assert_eq!(read_u32_le(&data, 2), 0xCDEF_5678);
}

#[test]
fn bpb_field_accessors() {
    let s = sample_boot_sector();
    let bpb = CommonBiosParameterBlock::new(&s);
    assert_eq!(bpb.oem(), b"MSWIN4.1");
    assert_eq!(bpb.bytes_per_sector(), 512);
    assert_eq!(bpb.sectors_per_cluster(), 8);
    assert_eq!(bpb.reserved_sector_count(), 32);
    assert_eq!(bpb.fat_count(), 2);
    assert_eq!(bpb.root_entry_count(), 0);
    assert_eq!(bpb.total_sectors_16(), 0);
    assert_eq!(bpb.sectors_per_fat_16(), 0);
    assert_eq!(bpb.total_sectors_32(), 1_048_576);
    assert_eq!(bpb.total_sectors(), 1_048_576);

    let ext = ExtendedFat32BiosParameterBlock::new(&s);
    assert_eq!(ext.sectors_per_fat_32(), 1024);
    assert_eq!(ext.root_cluster(), 2);

    assert_eq!(sectors_per_fat(&s), 1024);
}

#[test]
fn total_sectors_prefers_16bit() {
    let mut s = sample_boot_sector();
    s[19..21].copy_from_slice(&40_000u16.to_le_bytes());
    let bpb = CommonBiosParameterBlock::new(&s);
    assert_eq!(bpb.total_sectors(), 40_000);
}

#[test]
fn sectors_per_fat_prefers_16bit() {
    let mut s = sample_boot_sector();
    s[22..24].copy_from_slice(&123u16.to_le_bytes());
    assert_eq!(sectors_per_fat(&s), 123);
}

#[test]
fn geometry_helpers_exact_values() {
    // 512 root entries of 32 bytes each fill exactly 32 sectors of 512 bytes
    assert_eq!(root_dir_sector_count(512, 512), 32);
    // one extra byte of entries needs one more sector
    assert_eq!(root_dir_sector_count(513, 512), 33);
    assert_eq!(root_dir_sector_count(0, 512), 0);

    assert_eq!(meta_sector_count(32, 1024, 2, 0), 32 + 2048);
    assert_eq!(data_region_sector_count(1_048_576, 2080), 1_046_496);

    assert_eq!(first_sector_of_cluster(2, 1, 96), 96);
    assert_eq!(first_sector_of_cluster(5, 4, 100), 112);
}

#[test]
fn div_ceiling_rounds_up() {
    assert_eq!(10u32.div_ceiling(4), 3);
    assert_eq!(12u32.div_ceiling(4), 3);
    assert_eq!(0u32.div_ceiling(4), 0);
    assert_eq!(1u32.div_ceiling(512), 1);
}

#[test]
fn variant_thresholds() {
    assert!(matches!(Variant::from_cluster_count(0), Variant::Fat12));
    assert!(matches!(Variant::from_cluster_count(4084), Variant::Fat12));
    assert!(matches!(Variant::from_cluster_count(4085), Variant::Fat16));
    assert!(matches!(Variant::from_cluster_count(65524), Variant::Fat16));
    assert!(matches!(Variant::from_cluster_count(65525), Variant::Fat32));
    assert!(matches!(Variant::from_cluster_count(u32::MAX), Variant::Fat32));
}

fn fat_sector_with(raw_entries: &[u32]) -> Vec<u8> {
    let mut s = vec![0u8; 512];
    for (k, raw) in raw_entries.iter().enumerate() {
        s[4 * k..4 * k + 4].copy_from_slice(&raw.to_le_bytes());
    }
    s
}

#[test]
fn fat_decode_sentinels() {
    let s = fat_sector_with(&[0x0FFF_FFF7, 0x0FFF_FFF8, 0xFFFF_FFFF, 0x0FFF_FFF6]);
    let fat = FileAllocationTable32::new(&s);
    assert!(matches!(fat.get_entry(0), FileAllocationTable32Result::BadCluster));
    assert!(matches!(fat.get_entry(4), FileAllocationTable32Result::EndOfChain));
    assert!(matches!(fat.get_entry(8), FileAllocationTable32Result::EndOfChain));
    assert!(matches!(
        fat.get_entry(12),
        FileAllocationTable32Result::NextClusterIndex(0x0FFF_FFF6)
    ));
}

#[test]
fn fat_decode_masks_high_bits() {
    // entry 0xF0000003: the reserved top four bits must be ignored on read
    let s = fat_sector_with(&[0xF000_0003]);
    let fat = FileAllocationTable32::new(&s);
    assert!(matches!(fat.get_entry(0), FileAllocationTable32Result::NextClusterIndex(3)));

    assert!(matches!(
        FileAllocationTable32Result::from_raw(0x0FFF_FFF7),
        FileAllocationTable32Result::BadCluster
    ));
    assert!(matches!(
        FileAllocationTable32Result::from_raw(7),
        FileAllocationTable32Result::NextClusterIndex(7)
    ));
}

#[test]
fn fat_entry_at_offset() {
    let s = fat_sector_with(&[0, 0, 0x0000_0005]);
    let fat = FileAllocationTable32::new(&s);
    assert!(matches!(fat.get_entry(8), FileAllocationTable32Result::NextClusterIndex(5)));
}
