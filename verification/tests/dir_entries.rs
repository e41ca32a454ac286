use osc_fat::dir::{
    DirectoryEntriesCluster, DirectoryEntriesIterator, DirectoryEntry, LongFileNameEntry,
    StandardDirectoryEntry,
};

fn standard_record(name: &[u8; 8], ext: &[u8; 3], attr: u8, first_cluster: u32, size: u32) -> [u8; 32] {
    let mut r = [0u8; 32];
    r[0..8].copy_from_slice(name);
    r[8..11].copy_from_slice(ext);
    r[11] = attr;
    r[20..22].copy_from_slice(&((first_cluster >> 16) as u16).to_le_bytes());
    r[26..28].copy_from_slice(&((first_cluster & 0xFFFF) as u16).to_le_bytes());
    r[28..32].copy_from_slice(&size.to_le_bytes());
    r
}

fn lfn_record(units: &[u16]) -> [u8; 32] {
    assert!(units.len() == 13);
    let mut r = [0u8; 32];
    r[0] = 0x01; // order byte
    r[11] = 0x0F; // long-filename attribute marker
    for (k, u) in units.iter().enumerate() {
        let off = if k < 5 {
            1 + 2 * k
        } else if k < 11 {
            14 + 2 * (k - 5)
        } else {
            28 + 2 * (k - 11)
        };
        r[off..off + 2].copy_from_slice(&u.to_le_bytes());
    }
    r
}

fn collect_entries(mut it: DirectoryEntriesIterator) -> (Vec<DirectoryEntry>, bool) {
    let mut entries = Vec::new();
    while let Some(e) = it.next() {
        entries.push(e);
    }
    (entries, it.reached_terminator())
}

#[test]
fn occupied_stream_skips_deleted_and_stops() {
    // [occupied A, deleted, occupied B, terminator, occupied C]:
    // the stream must yield [A, B] and C must never be observed
    let mut sector = vec![0u8; 512];
    let a = standard_record(b"AFILE   ", b"TXT", 0x20, 3, 1);
    let mut deleted = standard_record(b"GONE    ", b"TXT", 0x20, 4, 1);
    deleted[0] = 0xE5;
    let b = standard_record(b"BFILE   ", b"TXT", 0x20, 5, 2);
    let terminator = [0u8; 32];
    let c = standard_record(b"CFILE   ", b"TXT", 0x20, 6, 3);
    sector[0..32].copy_from_slice(&a);
    sector[32..64].copy_from_slice(&deleted);
    sector[64..96].copy_from_slice(&b);
    sector[96..128].copy_from_slice(&terminator);
    sector[128..160].copy_from_slice(&c);

    let (entries, hit_terminator) = collect_entries(DirectoryEntriesIterator::new(&sector));
    assert!(hit_terminator);
    assert_eq!(entries.len(), 2);
    match &entries[0] {
        DirectoryEntry::Standard(e) => assert_eq!(e.name(), b"AFILE   "),
        DirectoryEntry::LongFileName(_) => panic!("expected a standard entry"),
    }
    match &entries[1] {
        DirectoryEntry::Standard(e) => assert_eq!(e.name(), b"BFILE   "),
        DirectoryEntry::LongFileName(_) => panic!("expected a standard entry"),
    }
}

#[test]
fn deleted_slots_never_yielded() {
    let mut sector = vec![0u8; 512];
    for k in 0..4 {
        let mut r = standard_record(b"SOMENAME", b"BIN", 0x20, 3 + k as u32, 1);
        r[0] = 0xE5;
        sector[32 * k..32 * k + 32].copy_from_slice(&r);
    }
    let (entries, hit_terminator) = collect_entries(DirectoryEntriesIterator::new(&sector));
    assert!(hit_terminator); // record 4 is all zeroes: a terminator
    assert!(entries.is_empty());
}

#[test]
fn stream_exhausts_without_terminator() {
    let mut sector = vec![0u8; 64];
    sector[0..32].copy_from_slice(&standard_record(b"ONE     ", b"   ", 0x20, 3, 0));
    sector[32..64].copy_from_slice(&standard_record(b"TWO     ", b"   ", 0x20, 4, 0));
    let (entries, hit_terminator) = collect_entries(DirectoryEntriesIterator::new(&sector));
    assert!(!hit_terminator);
    assert_eq!(entries.len(), 2);
}

#[test]
fn cluster_view_streams_entries() {
    let mut data = vec![0u8; 128];
    data[0..32].copy_from_slice(&standard_record(b"ROOTFILE", b"LOG", 0x20, 9, 77));
    let cluster = DirectoryEntriesCluster::new(&data);
    let (entries, _) = collect_entries(cluster.occupied_entries());
    assert_eq!(entries.len(), 1);
}

#[test]
fn standard_entry_fields() {
    let r = standard_record(b"HELLO   ", b"TXT", 0x31, 0x0002_0005, 4096);
    let e = StandardDirectoryEntry::new(&r);
    assert_eq!(e.name(), b"HELLO   ");
    assert_eq!(e.ext(), b"TXT");
    assert_eq!(e.size(), 4096);
    assert_eq!(e.first_cluster_high(), 0x0002);
    assert_eq!(e.first_cluster_low(), 0x0005);
    assert_eq!(e.first_cluster(), 0x0002_0005);
    assert!(e.is_read_only());
    assert!(!e.is_hidden());
    assert!(!e.is_system());
    assert!(!e.is_volume_id());
    assert!(e.is_directory());
    assert!(e.is_archive());
}

#[test]
fn entry_classification_lfn_marker() {
    let standard = standard_record(b"PLAIN   ", b"   ", 0x20, 3, 0);
    assert!(matches!(DirectoryEntry::new(&standard), DirectoryEntry::Standard(_)));

    let lfn = lfn_record(&[0x41; 13]);
    assert!(matches!(DirectoryEntry::new(&lfn), DirectoryEntry::LongFileName(_)));
}

fn collect_chars(entry: &LongFileNameEntry) -> Vec<u16> {
    let mut it = entry.chars();
    let mut units = Vec::new();
    while let Some(u) = it.next() {
        units.push(u);
    }
    units
}

#[test]
fn lfn_two_chars_then_zero() {
    // portion 1 holds "Hi" then a zero unit; the zero halts the sequence
    let units = [0x0048, 0x0069, 0x0000, 0xFFFF, 0xFFFF, 0xFFFF, 0xFFFF, 0xFFFF, 0xFFFF, 0xFFFF,
        0xFFFF, 0xFFFF, 0xFFFF];
    let record = lfn_record(&units);
    let entry = LongFileNameEntry::new(&record);
    assert_eq!(collect_chars(&entry), vec![0x0048, 0x0069]);
}

#[test]
fn lfn_full_record_no_zero() {
    let units = [0x61; 13];
    let record = lfn_record(&units);
    let entry = LongFileNameEntry::new(&record);
    assert_eq!(collect_chars(&entry), vec![0x61; 13]);
}

#[test]
fn lfn_zero_mid_second_portion() {
    // units 0..7 spell "ARCHIVE", unit 7 is zero: nothing after it appears
    let units = [0x41, 0x52, 0x43, 0x48, 0x49, 0x56, 0x45, 0x0000, 0x58, 0x58, 0x58, 0x58, 0x58];
    let record = lfn_record(&units);
    let entry = LongFileNameEntry::new(&record);
    assert_eq!(collect_chars(&entry), vec![0x41, 0x52, 0x43, 0x48, 0x49, 0x56, 0x45]);
}

#[test]
fn lfn_iterator_stays_halted() {
    let units = [0x0048, 0x0000, 0x0069, 0xFFFF, 0xFFFF, 0xFFFF, 0xFFFF, 0xFFFF, 0xFFFF, 0xFFFF,
        0xFFFF, 0xFFFF, 0xFFFF];
    let record = lfn_record(&units);
    let entry = LongFileNameEntry::new(&record);
    let mut it = entry.chars();
    assert_eq!(it.next(), Some(0x0048));
    assert_eq!(it.next(), None);
    // once halted on the zero unit, no later unit is ever yielded
    assert_eq!(it.next(), None);
    assert_eq!(it.next(), None);
}
