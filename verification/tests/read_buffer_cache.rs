use osc_fat::block_device::{BlockDevice, MemoryBlockDevice};
use osc_fat::read_buffer::ReadBuffer;
use osc_fat::Error;

/// An image of `blocks` blocks where byte `i` of the image is `(i / 512) as u8`,
/// so every 512-byte sector is filled with its own sector index.
fn sector_tagged_image(block_size: usize, blocks: usize) -> Vec<u8> {
    let mut image = vec![0u8; block_size * blocks];
    for (i, b) in image.iter_mut().enumerate() {
        *b = (i / 512) as u8;
    }
    image
}

#[test]
fn block_to_sector_mapping() {
    // block size 4096, sector size 512: reading sector 9 must trigger a
    // single device read of block 1 (sectors 8..16), and the neighbouring
    // sectors must then be served without further device traffic
    let mut device = MemoryBlockDevice::new(sector_tagged_image(4096, 4), 4096);
    let mut buffer = ReadBuffer::new(vec![0u8; 4096], 512);

    assert_eq!(buffer.ensure_sector(&mut device, 9), Ok(()));
    assert_eq!(device.reads(), 1);

    for sector in 8..16 {
        let bytes = buffer
            .get_sector(&mut device, sector)
            .expect("sector resident after the block read");
        assert_eq!(bytes.len(), 512);
        assert!(bytes.iter().all(|&b| b == sector as u8));
    }
    assert_eq!(device.reads(), 1);

    // sector 16 lives in block 2: one more device read
    assert_eq!(buffer.ensure_sector(&mut device, 16), Ok(()));
    assert_eq!(device.reads(), 2);
}

#[test]
fn repeated_ensure_single_read() {
    let mut device = MemoryBlockDevice::new(sector_tagged_image(512, 8), 512);
    let mut buffer = ReadBuffer::new(vec![0u8; 512], 512);

    assert_eq!(buffer.ensure_sector(&mut device, 5), Ok(()));
    assert_eq!(buffer.ensure_sector(&mut device, 5), Ok(()));
    assert_eq!(buffer.ensure_sector(&mut device, 5), Ok(()));
    assert_eq!(device.reads(), 1);
}

#[test]
fn loaded_sector_queries() {
    let mut device = MemoryBlockDevice::new(sector_tagged_image(512, 8), 512);
    let mut buffer = ReadBuffer::new(vec![0u8; 1024], 512);

    assert!(buffer.get_loaded_sector(3).is_none());
    assert_eq!(buffer.ensure_sector(&mut device, 3), Ok(()));

    // the refill starts at the block holding sector 3, and the 1024-byte
    // buffer holds two 512-byte sectors: 3 and 4 become resident
    let resident = buffer.get_loaded_sector(3).expect("sector 3 resident");
    assert!(resident.iter().all(|&b| b == 3));
    assert!(buffer.get_loaded_sector(4).is_some());
    assert!(buffer.get_loaded_sector(2).is_none());
    assert!(buffer.get_loaded_sector(5).is_none());
}

#[test]
fn sector_sized_buffer_on_big_sectors() {
    // sector size 4096, block size 512: one sector needs eight blocks
    let mut device = MemoryBlockDevice::new(sector_tagged_image(512, 16), 512);
    let mut buffer = ReadBuffer::new(vec![0u8; 4096], 4096);

    assert_eq!(buffer.ensure_sector(&mut device, 1), Ok(()));
    assert_eq!(device.reads(), 1);
    let bytes = buffer.get_loaded_sector(1).expect("sector resident");
    assert_eq!(bytes.len(), 4096);
    // sector 1 of 4096 bytes covers 512-byte-tagged regions 8..16
    assert_eq!(bytes[0], 8);
    assert_eq!(bytes[4095], 15);
}

#[test]
fn short_read_reported() {
    // the image holds 2 blocks; sector 100 does not exist on the device
    let mut device = MemoryBlockDevice::new(sector_tagged_image(512, 2), 512);
    let mut buffer = ReadBuffer::new(vec![0u8; 512], 512);

    assert_eq!(buffer.ensure_sector(&mut device, 100), Err(Error::DeviceShortRead));
    assert!(buffer.get_loaded_sector(100).is_none());
}

#[test]
fn failed_refill_keeps_resident_window() {
    // when the device has no data at all for the requested block, nothing
    // is written into the buffer and the resident window survives the error
    let mut device = MemoryBlockDevice::new(sector_tagged_image(512, 2), 512);
    let mut buffer = ReadBuffer::new(vec![0u8; 512], 512);

    assert_eq!(buffer.ensure_sector(&mut device, 1), Ok(()));
    assert_eq!(buffer.ensure_sector(&mut device, 100), Err(Error::DeviceShortRead));
    let kept = buffer.get_loaded_sector(1).expect("sector 1 still resident");
    assert!(kept.iter().all(|&b| b == 1));
    // serving it again costs no further device read
    assert_eq!(device.reads(), 2);
    assert_eq!(buffer.ensure_sector(&mut device, 1), Ok(()));
    assert_eq!(device.reads(), 2);
}

#[test]
fn memory_device_counts_and_clips() {
    let mut device = MemoryBlockDevice::new(sector_tagged_image(512, 4), 512);
    assert_eq!(device.block_size(), 512);
    assert_eq!(device.reads(), 0);

    let mut dest = vec![0u8; 1024];
    // only one block remains starting at block 3
    assert_eq!(device.read_blocks(3, &mut dest), 1);
    assert!(dest[..512].iter().all(|&b| b == 3));

    // nothing exists past the end of the image
    assert_eq!(device.read_blocks(10, &mut dest), 0);
    assert_eq!(device.reads(), 2);
}
