use osc_fat::block_device::MemoryBlockDevice;
use osc_fat::cluster_walker::ClusterWalker;
use osc_fat::dir::DirectoryEntry;
use osc_fat::fs::{DirectorySelector, FATFileSystem};
use osc_fat::geometry::{FATGeometry, Variant};
use osc_fat::read_buffer::ReadBuffer;
use osc_fat::Error;

fn boot_sector(
    bytes_per_sector: u16,
    sectors_per_cluster: u8,
    reserved: u16,
    fat_count: u8,
    sectors_per_fat_32: u32,
    root_cluster: u32,
    total_sectors_32: u32,
) -> Vec<u8> {
    let mut s = vec![0u8; 512];
    s[3..11].copy_from_slice(b"OSCFAT  ");
    s[11..13].copy_from_slice(&bytes_per_sector.to_le_bytes());
    s[13] = sectors_per_cluster;
    s[14..16].copy_from_slice(&reserved.to_le_bytes());
    s[16] = fat_count;
    s[32..36].copy_from_slice(&total_sectors_32.to_le_bytes());
    s[36..40].copy_from_slice(&sectors_per_fat_32.to_le_bytes());
    s[44..48].copy_from_slice(&root_cluster.to_le_bytes());
    s
}

fn standard_record(name: &[u8; 8], ext: &[u8; 3], attr: u8, first_cluster: u32, size: u32) -> [u8; 32] {
    let mut r = [0u8; 32];
    r[0..8].copy_from_slice(name);
    r[8..11].copy_from_slice(ext);
    r[11] = attr;
    r[20..22].copy_from_slice(&((first_cluster >> 16) as u16).to_le_bytes());
    r[26..28].copy_from_slice(&((first_cluster & 0xFFFF) as u16).to_le_bytes());
    r[28..32].copy_from_slice(&size.to_le_bytes());
    r
}

/// A minimal FAT32 image: 512-byte sectors, 1 sector per cluster, 32
/// reserved sectors, 2 tables of 32 sectors, root directory at cluster 2
/// (sector 96), one file `HELLO   .TXT` of 11 bytes at cluster 3 (sector 97).
fn minimal_image() -> Vec<u8> {
    let mut image = vec![0u8; 98 * 512];
    let boot = boot_sector(512, 1, 32, 2, 32, 2, 96 + 65525);
    image[0..512].copy_from_slice(&boot);

    // both FAT copies: clusters 0 and 1 reserved, 2 and 3 end-of-chain
    for fat_start in [32 * 512, 64 * 512] {
        image[fat_start..fat_start + 4].copy_from_slice(&0x0FFF_FFF8u32.to_le_bytes());
        image[fat_start + 4..fat_start + 8].copy_from_slice(&0xFFFF_FFFFu32.to_le_bytes());
        image[fat_start + 8..fat_start + 12].copy_from_slice(&0x0FFF_FFFFu32.to_le_bytes());
        image[fat_start + 12..fat_start + 16].copy_from_slice(&0x0FFF_FFFFu32.to_le_bytes());
    }

    let root = 96 * 512;
    let entry = standard_record(b"HELLO   ", b"TXT", 0x20, 3, 11);
    image[root..root + 32].copy_from_slice(&entry);

    let file = 97 * 512;
    image[file..file + 11].copy_from_slice(b"hello world");
    image
}

#[test]
fn mount_round_trip() {
    let boot = boot_sector(1024, 8, 16, 2, 1024, 7, 16 + 2 * 1024 + 8 * 65525);
    let fs = FATFileSystem::mount(&boot, 512).expect("well-formed FAT32 boot sector");
    assert_eq!(fs.geo.sector_size_bytes, 1024);
    assert_eq!(fs.geo.cluster_size_sectors, 8);
    assert_eq!(fs.geo.first_fat_sector, 16);
    assert_eq!(fs.geo.first_data_sector, 16 + 2 * 1024);
    assert_eq!(fs.root_cluster, 7);
    assert!(matches!(fs.variant, Variant::Fat32));
    assert_eq!(fs.device_block_size, 512);
}

#[test]
fn mount_rejects_short_sector() {
    let short = vec![0u8; 100];
    assert_eq!(FATFileSystem::mount(&short, 512), Err(Error::MalformedBpb));
}

#[test]
fn mount_rejects_bad_sector_size() {
    let boot = boot_sector(500, 1, 32, 2, 32, 2, 96 + 65525);
    assert_eq!(FATFileSystem::mount(&boot, 512), Err(Error::MalformedBpb));
}

#[test]
fn mount_rejects_bad_cluster_size() {
    let boot = boot_sector(512, 3, 32, 2, 32, 2, 96 + 65525);
    assert_eq!(FATFileSystem::mount(&boot, 512), Err(Error::MalformedBpb));
    let boot = boot_sector(512, 0, 32, 2, 32, 2, 96 + 65525);
    assert_eq!(FATFileSystem::mount(&boot, 512), Err(Error::MalformedBpb));
}

#[test]
fn mount_rejects_meta_overflow() {
    // 255 tables of 0xFFFFFFFF sectors each overflow the meta-region count
    let boot = boot_sector(512, 1, 32, 255, 0xFFFF_FFFF, 2, 0xFFFF_FFFF);
    assert_eq!(FATFileSystem::mount(&boot, 512), Err(Error::MalformedBpb));
}

#[test]
fn mount_rejects_truncated_volume() {
    // the volume claims fewer sectors than its own meta region
    let boot = boot_sector(512, 1, 32, 2, 32, 2, 50);
    assert_eq!(FATFileSystem::mount(&boot, 512), Err(Error::MalformedBpb));
}

#[test]
fn mount_rejects_small_cluster_count() {
    // 1000 data clusters select FAT12, which the reader does not serve
    let boot = boot_sector(512, 1, 32, 2, 32, 2, 96 + 1000);
    assert_eq!(FATFileSystem::mount(&boot, 512), Err(Error::UnsupportedVariant));
}

#[test]
fn open_reports_empty_device() {
    let mut device = MemoryBlockDevice::new(Vec::new(), 512);
    assert_eq!(FATFileSystem::open(&mut device), Err(Error::DeviceShortRead));
}

#[test]
fn minimal_image_walk() {
    let mut device = MemoryBlockDevice::new(minimal_image(), 512);
    let fs = FATFileSystem::open(&mut device).expect("image mounts");
    assert_eq!(fs.required_read_buffer_size(), 512);
    // mounting reads exactly once: sector 0
    assert_eq!(device.reads(), 1);

    let buffer = vec![0u8; fs.required_read_buffer_size()];
    let walker = fs
        .walk_directory(&mut device, buffer, DirectorySelector::Root)
        .expect("root directory opens");
    let (entries, complete) = walker
        .enumerate_occupied_entries(&mut device, 1024)
        .expect("enumeration succeeds");
    assert!(complete);
    assert_eq!(entries.len(), 1);
    match &entries[0] {
        DirectoryEntry::Standard(e) => {
            assert_eq!(e.name(), b"HELLO   ");
            assert_eq!(e.ext(), b"TXT");
            assert_eq!(e.size(), 11);
            assert_eq!(e.first_cluster(), 3);
            assert!(!e.is_directory());
        },
        DirectoryEntry::LongFileName(_) => panic!("expected a standard entry"),
    }
}

#[test]
fn chain_walk_two_clusters() {
    // root directory spanning clusters 2 -> 5 -> end-of-chain
    let mut image = minimal_image();
    let needed = 100 * 512;
    image.resize(needed, 0);
    for fat_start in [32 * 512, 64 * 512] {
        // cluster 2 continues at cluster 5; cluster 5 ends the chain
        image[fat_start + 8..fat_start + 12].copy_from_slice(&5u32.to_le_bytes());
        image[fat_start + 20..fat_start + 24].copy_from_slice(&0x0FFF_FFFFu32.to_le_bytes());
    }
    // fill all 16 records of cluster 2 (sector 96) so the walk crosses over
    let root = 96 * 512;
    for k in 0..16 {
        let r = standard_record(b"FILLER  ", b"BIN", 0x20, 3, 0);
        image[root + 32 * k..root + 32 * k + 32].copy_from_slice(&r);
    }
    // cluster 5 is sector 96 + 3 = 99: one more entry, then the terminator
    let tail = 99 * 512;
    let last = standard_record(b"LASTONE ", b"BIN", 0x20, 3, 0);
    image[tail..tail + 32].copy_from_slice(&last);

    let mut device = MemoryBlockDevice::new(image, 512);
    let fs = FATFileSystem::open(&mut device).expect("image mounts");
    let buffer = vec![0u8; fs.required_read_buffer_size()];
    let walker = fs
        .walk_directory(&mut device, buffer, DirectorySelector::Root)
        .expect("root directory opens");
    let (entries, complete) = walker
        .enumerate_occupied_entries(&mut device, 1024)
        .expect("enumeration succeeds");
    assert!(complete);
    assert_eq!(entries.len(), 17);
    match &entries[16] {
        DirectoryEntry::Standard(e) => assert_eq!(e.name(), b"LASTONE "),
        DirectoryEntry::LongFileName(_) => panic!("expected a standard entry"),
    }
}

/// An image whose data sectors are tagged with their own sector index, over
/// a geometry of two sectors per cluster.
fn tagged_image_two_sector_clusters() -> Vec<u8> {
    let mut image = vec![0u8; 104 * 512];
    let boot = boot_sector(512, 2, 32, 2, 32, 2, 96 + 2 * 65525);
    image[0..512].copy_from_slice(&boot);
    for fat_start in [32 * 512, 64 * 512] {
        image[fat_start..fat_start + 4].copy_from_slice(&0x0FFF_FFF8u32.to_le_bytes());
        image[fat_start + 4..fat_start + 8].copy_from_slice(&0xFFFF_FFFFu32.to_le_bytes());
        // cluster 2 continues at cluster 3, which ends the chain
        image[fat_start + 8..fat_start + 12].copy_from_slice(&3u32.to_le_bytes());
        image[fat_start + 12..fat_start + 16].copy_from_slice(&0x0FFF_FFFFu32.to_le_bytes());
    }
    for sector in 96..104 {
        for b in image[sector * 512..(sector + 1) * 512].iter_mut() {
            *b = sector as u8;
        }
    }
    image
}

#[test]
fn walker_sector_positions() {
    // cluster c >= 2 starts at first_data_sector + (c - 2) * cluster size,
    // and s steps of next_sector land on that sector plus s
    let mut device = MemoryBlockDevice::new(tagged_image_two_sector_clusters(), 512);
    let geo = FATGeometry {
        cluster_size_sectors: 2,
        sector_size_bytes: 512,
        first_fat_sector: 32,
        first_data_sector: 96,
    };
    let buffer = ReadBuffer::new(vec![0u8; 512], 512);
    let mut walker = ClusterWalker::open(buffer, &mut device, 2, geo).expect("cluster 2 opens");
    assert!(walker.current_sector().iter().all(|&b| b == 96));

    assert_eq!(walker.next_sector(&mut device), Ok(true));
    assert!(walker.current_sector().iter().all(|&b| b == 97));

    // the cluster has only two sectors: the walker stays put
    assert_eq!(walker.next_sector(&mut device), Ok(false));
    assert!(walker.current_sector().iter().all(|&b| b == 97));

    // the chain continues at cluster 3, whose first sector is 98
    let next = walker
        .next_cluster(&mut device)
        .expect("chain step succeeds")
        .expect("cluster 3 follows");
    assert!(next.current_sector().iter().all(|&b| b == 98));

    // cluster 3 ends the chain
    let walker = next;
    let done = walker.next_cluster(&mut device).expect("chain step succeeds");
    assert!(done.is_none());
}

#[test]
fn terminator_stops_whole_walk() {
    // the root sector holds one entry and then the terminator, yet its FAT
    // entry points on to cluster 5, which holds further records: once the
    // terminator is seen, nothing from later sectors may be returned
    let mut image = minimal_image();
    image.resize(100 * 512, 0);
    for fat_start in [32 * 512, 64 * 512] {
        image[fat_start + 8..fat_start + 12].copy_from_slice(&5u32.to_le_bytes());
        image[fat_start + 20..fat_start + 24].copy_from_slice(&0x0FFF_FFFFu32.to_le_bytes());
    }
    let tail = 99 * 512;
    let unseen_record = standard_record(b"UNSEEN  ", b"BIN", 0x20, 3, 0);
    image[tail..tail + 32].copy_from_slice(&unseen_record);

    let mut device = MemoryBlockDevice::new(image, 512);
    let fs = FATFileSystem::open(&mut device).expect("image mounts");
    let buffer = vec![0u8; fs.required_read_buffer_size()];
    let walker = fs
        .walk_directory(&mut device, buffer, DirectorySelector::Root)
        .expect("root directory opens");
    let (entries, complete) = walker
        .enumerate_occupied_entries(&mut device, 1024)
        .expect("enumeration succeeds");
    assert!(complete);
    assert_eq!(entries.len(), 1);
}

#[test]
fn invalid_cluster_rejected() {
    let mut device = MemoryBlockDevice::new(minimal_image(), 512);
    let fs = FATFileSystem::open(&mut device).expect("image mounts");

    let buffer = vec![0u8; fs.required_read_buffer_size()];
    let walk = fs.walk_directory(&mut device, buffer, DirectorySelector::Normal(1));
    assert!(matches!(walk, Err(Error::InvalidCluster)));

    let mut file_buffer = vec![0u8; 512];
    assert_eq!(fs.read(&mut device, 0, &mut file_buffer), Err(Error::InvalidCluster));
}

#[test]
fn corrupted_chain_reported() {
    let mut image = minimal_image();
    for fat_start in [32 * 512, 64 * 512] {
        // cluster 2 resolves to the bad-cluster sentinel
        image[fat_start + 8..fat_start + 12].copy_from_slice(&0x0FFF_FFF7u32.to_le_bytes());
    }
    // no terminator in the root sector, so the walk tries the chain
    let root = 96 * 512;
    for k in 0..16 {
        let r = standard_record(b"FILLER  ", b"BIN", 0x20, 3, 0);
        image[root + 32 * k..root + 32 * k + 32].copy_from_slice(&r);
    }
    let mut device = MemoryBlockDevice::new(image, 512);
    let fs = FATFileSystem::open(&mut device).expect("image mounts");
    let buffer = vec![0u8; fs.required_read_buffer_size()];
    let walker = fs
        .walk_directory(&mut device, buffer, DirectorySelector::Root)
        .expect("root directory opens");
    let outcome = walker.enumerate_occupied_entries(&mut device, 1024);
    assert!(matches!(outcome, Err(Error::CorruptedChain)));
}

#[test]
fn chain_pointer_below_two_reported() {
    let mut image = minimal_image();
    for fat_start in [32 * 512, 64 * 512] {
        // cluster 2 points at reserved cluster 1
        image[fat_start + 8..fat_start + 12].copy_from_slice(&1u32.to_le_bytes());
    }
    let mut device = MemoryBlockDevice::new(image, 512);
    let geo = FATGeometry {
        cluster_size_sectors: 1,
        sector_size_bytes: 512,
        first_fat_sector: 32,
        first_data_sector: 96,
    };
    let buffer = ReadBuffer::new(vec![0u8; 512], 512);
    let walker = ClusterWalker::open(buffer, &mut device, 2, geo).expect("cluster 2 opens");
    assert!(matches!(walker.next_cluster(&mut device), Err(Error::CorruptedChain)));
}

#[test]
fn device_short_read_on_missing_sector() {
    // the boot sector promises a root cluster whose sector lies beyond the
    // end of the image
    let mut image = minimal_image();
    image.truncate(40 * 512);
    let mut device = MemoryBlockDevice::new(image, 512);
    let fs = FATFileSystem::open(&mut device).expect("boot sector mounts");
    let buffer = vec![0u8; fs.required_read_buffer_size()];
    let walk = fs.walk_directory(&mut device, buffer, DirectorySelector::Root);
    assert!(matches!(walk, Err(Error::DeviceShortRead)));
}

#[test]
fn file_read_first_cluster() {
    let mut device = MemoryBlockDevice::new(minimal_image(), 512);
    let fs = FATFileSystem::open(&mut device).expect("image mounts");

    let mut file_buffer = vec![0u8; 512];
    fs.read(&mut device, 3, &mut file_buffer).expect("file cluster reads");
    assert_eq!(&file_buffer[..11], b"hello world");
}

#[test]
fn ls_lists_first_cluster() {
    let mut device = MemoryBlockDevice::new(minimal_image(), 512);
    let fs = FATFileSystem::open(&mut device).expect("image mounts");

    let mut cluster_buffer = vec![0u8; 512];
    let mut it = fs.ls_root(&mut device, &mut cluster_buffer).expect("root lists");
    let first = it.next().expect("one entry");
    match first {
        DirectoryEntry::Standard(e) => assert_eq!(e.name(), b"HELLO   "),
        DirectoryEntry::LongFileName(_) => panic!("expected a standard entry"),
    }
    assert!(it.next().is_none());
    assert!(it.reached_terminator());

    let mut it = fs.ls(&mut device, 2, &mut cluster_buffer).expect("cluster 2 lists");
    assert!(it.next().is_some());
}

#[test]
fn required_buffer_and_cluster_bytes() {
    let boot = boot_sector(512, 4, 32, 2, 32, 2, 96 + 4 * 65525);
    let fs = FATFileSystem::mount(&boot, 4096).expect("boot sector mounts");
    assert_eq!(fs.required_read_buffer_size(), 4096);
    assert_eq!(fs.cluster_bytes(), 2048);

    let fs = FATFileSystem::mount(&boot, 512).expect("boot sector mounts");
    assert_eq!(fs.required_read_buffer_size(), 512);
}

#[test]
fn walk_reports_exhausted_sector_budget() {
    // the chain 2 -> 5 -> end-of-chain spans two sectors, but the walk is
    // given a budget of one: it must say the listing is incomplete
    let mut image = minimal_image();
    image.resize(100 * 512, 0);
    for fat_start in [32 * 512, 64 * 512] {
        image[fat_start + 8..fat_start + 12].copy_from_slice(&5u32.to_le_bytes());
        image[fat_start + 20..fat_start + 24].copy_from_slice(&0x0FFF_FFFFu32.to_le_bytes());
    }
    let root = 96 * 512;
    for k in 0..16 {
        let r = standard_record(b"FILLER  ", b"BIN", 0x20, 3, 0);
        image[root + 32 * k..root + 32 * k + 32].copy_from_slice(&r);
    }

    let mut device = MemoryBlockDevice::new(image, 512);
    let fs = FATFileSystem::open(&mut device).expect("image mounts");
    let buffer = vec![0u8; fs.required_read_buffer_size()];
    let walker = fs
        .walk_directory(&mut device, buffer, DirectorySelector::Root)
        .expect("root directory opens");
    let (entries, complete) = walker
        .enumerate_occupied_entries(&mut device, 1)
        .expect("enumeration succeeds");
    assert!(!complete);
    assert_eq!(entries.len(), 16);
}
