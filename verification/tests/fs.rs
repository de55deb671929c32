use rstiny_core::fs::blockdev::{probe_kind, BlockDevice, Fetch, FsKind, SeekTarget};
use rstiny_core::fs::clients::{share_slot_of, share_va_of, Clients, MAX_CLIENTS, MAX_FILES};
use rstiny_core::fs::proto::{
    dir_page, name_from_words, names_match, pack_name, read_length_ok, DirItem, MAX_NAME_LEN,
};

#[test]
fn names_round_trip_through_the_message_words() {
    for name in [&b"hello"[..], b"HELLO.ELF", b"a", &[b'z'; 255][..], b"exactly8"] {
        let words = pack_name(name).unwrap();
        assert_eq!(words[0], name.len() as u64);
        assert_eq!(words.len(), 1 + (name.len() + 7) / 8);
        assert_eq!(name_from_words(&words).unwrap(), name.to_vec());
    }
}

#[test]
fn pack_name_packs_little_endian() {
    let words = pack_name(b"APPS.CFG1").unwrap();
    assert_eq!(words, vec![9, u64::from_le_bytes(*b"APPS.CFG"), b'1' as u64]);
}

#[test]
fn unsendable_names_are_refused() {
    assert!(pack_name(b"").is_none());
    assert!(pack_name(&[b'a'; MAX_NAME_LEN + 1]).is_none());
}

#[test]
fn name_from_words_bounds_and_missing_words() {
    assert!(name_from_words(&[]).is_none());
    assert!(name_from_words(&[0]).is_none());
    assert!(name_from_words(&[257]).is_none());
    assert!(name_from_words(&[256]).is_none());
    assert_eq!(name_from_words(&[255]).unwrap().len(), 255);
    assert_eq!(name_from_words(&[3, 0x63_6261]).unwrap(), b"abc".to_vec());
    assert_eq!(name_from_words(&[10, u64::from_le_bytes(*b"abcdefgh")]).unwrap(), b"abcdefgh\0\0".to_vec());
}

#[test]
fn fat_names_ignore_ascii_case() {
    assert!(names_match(b"HELLO", b"hello"));
    assert!(names_match(b"Apps.Cfg", b"APPS.CFG"));
    assert!(!names_match(b"HELLO", b"hell"));
    assert!(!names_match(b"HELLO1", b"hello2"));
    assert!(!names_match(b"[", b"{"));
}

fn item(name: &str, size: u64, is_dir: bool) -> DirItem {
    DirItem { name: name.as_bytes().to_vec(), size, is_dir }
}

#[test]
fn directory_pages_skip_hidden_entries_and_paginate() {
    let entries = vec![
        item(".", 0, true),
        item("HELLO", 4096, false),
        item("..", 0, true),
        item("A-NAME-TOO-LONG", 1, false),
        item("APPS.CFG", 12, false),
        item("BIN", 0, true),
        item("", 3, false),
        item("BIG", 0x1_0000_0005, false),
    ];
    let (records, next) = dir_page(&entries, 0, 2);
    assert_eq!(records.len(), 2);
    assert_eq!(&records[0].name[..5], b"HELLO");
    assert_eq!(records[0].name[5..], [0u8; 7]);
    assert_eq!(records[0].size, 4096);
    assert_eq!(records[0].is_dir, 0);
    assert_eq!(&records[1].name[..8], b"APPS.CFG");
    assert_eq!(next, 2);
    let (records, next) = dir_page(&entries, 2, 2);
    assert_eq!(records.len(), 2);
    assert_eq!(&records[0].name[..3], b"BIN");
    assert_eq!(records[0].is_dir, 1);
    assert_eq!(records[1].size, 5);
    assert_eq!(next, 0);
    let (records, next) = dir_page(&entries, 9, 2);
    assert!(records.is_empty());
    assert_eq!(next, 0);
}

#[test]
fn read_lengths() {
    assert!(!read_length_ok(0));
    assert!(read_length_ok(1));
    assert!(read_length_ok(4096));
    assert!(!read_length_ok(4097));
}

#[test]
fn block_reads_are_planned_in_sector_windows() {
    let mut d = BlockDevice::new(7, 20);
    assert_eq!(d.disk_bytes, 20 * 512);
    assert_eq!(d.next_fetch(0, 100), Some(Fetch { lba: 0, count: 8, offset: 0, take: 100 }));
    d.advance(100);
    assert_eq!(d.next_fetch(0, 5000), Some(Fetch { lba: 0, count: 8, offset: 100, take: 4096 - 100 }));
    assert_eq!(d.seek(SeekTarget::Start(18 * 512 + 10)), Ok(18 * 512 + 10));
    assert_eq!(d.next_fetch(0, 5000), Some(Fetch { lba: 18, count: 2, offset: 10, take: 1014 }));
    assert_eq!(d.next_fetch(5000, 5000), None);
    assert_eq!(d.seek(SeekTarget::End(0)), Ok(20 * 512));
    assert_eq!(d.next_fetch(0, 1), None);
}

#[test]
fn seeks_refuse_negative_positions() {
    let mut d = BlockDevice::new(7, 4);
    assert_eq!(d.seek(SeekTarget::Start(100)), Ok(100));
    assert_eq!(d.seek(SeekTarget::Current(-50)), Ok(50));
    assert_eq!(d.seek(SeekTarget::Current(-51)), Err(()));
    assert_eq!(d.position, 50);
    assert_eq!(d.seek(SeekTarget::End(-48)), Ok(2000));
    assert_eq!(d.seek(SeekTarget::End(-2049)), Err(()));
    assert_eq!(d.seek(SeekTarget::Current(i64::MAX)), Err(()));
}

#[test]
fn block_counts_for_sector_reads() {
    let d = BlockDevice::new(7, 20);
    assert_eq!(d.num_blocks(), 20);
    assert_eq!(d.block_count(0, 0, 4096), 8);
    assert_eq!(d.block_count(0, 0, 10 * 512), 8);
    assert_eq!(d.block_count(0, 8 * 512, 10 * 512), 2);
    assert_eq!(d.block_count(16, 0, 10 * 512), 4);
    assert_eq!(d.block_count(20, 0, 512), 0);
}

#[test]
fn superblock_probe() {
    let mut sectors = vec![0u8; 2048];
    assert_eq!(probe_kind(&sectors), None);
    sectors[0x438] = 0x53;
    sectors[0x439] = 0xEF;
    assert_eq!(probe_kind(&sectors), Some(FsKind::Ext4));
    sectors[82..90].copy_from_slice(b"FAT32   ");
    assert_eq!(probe_kind(&sectors), Some(FsKind::Fat32));
}

#[test]
fn binding_rules() {
    let mut t: Clients<u32> = Clients::new();
    assert_eq!(t.bind_slot(0, 5), Err(()));
    assert_eq!(t.bind_slot(3, 5), Err(()));
    assert_eq!(t.bind_slot(1, 0), Ok(0));
    t.bind(0, 0);
    assert_eq!(t.bind_slot(2, 0), Err(()));
    assert_eq!(t.bind_slot(2, 1), Ok(1));
    t.bind(1, 1);
    t.bind(2, 2);
    t.bind(3, 3);
    assert_eq!(t.bind_slot(2, 9), Err(()));
    assert_eq!(t.find(2), Some(2));
    assert_eq!(t.find(0), Some(0));
    assert_eq!(t.find(9), None);
    assert_eq!(share_slot_of(3), 64);
    assert_eq!(share_va_of(1), 0x0400_2000);
    assert_eq!(MAX_CLIENTS, 4);
}

#[test]
fn file_tables_are_per_client() {
    let mut t: Clients<u32> = Clients::new();
    t.bind(0, 1);
    t.bind(1, 2);
    assert_eq!(t.open(0, 100), Some(0));
    assert_eq!(t.open(0, 101), Some(1));
    assert_eq!(t.open(1, 200), Some(0));
    assert_eq!(t.take_file(1, 1), None);
    assert_eq!(t.take_file(0, 1), Some(101));
    assert_eq!(t.take_file(0, 1), None);
    t.give_back(0, 1, 101);
    assert_eq!(t.take_file(0, 1), Some(101));
    t.give_back(0, 1, 101);
    t.close(0, 0);
    assert_eq!(t.take_file(0, 0), None);
    assert_eq!(t.open(0, 102), Some(0));
    t.close(0, 99);
    assert_eq!(t.take_file(0, 99), None);
    for k in 2..MAX_FILES as u32 {
        assert!(t.open(0, 300 + k).is_some());
    }
    assert_eq!(t.open(0, 999), None);
}

#[test]
fn read_copies_fetched_windows_and_stops_at_the_end() {
    let mut d = BlockDevice::new(7, 2);
    d.seek(SeekTarget::Start(1000)).unwrap();
    let disk: Vec<u8> = (0..1024u32).map(|i| (i % 251) as u8).collect();
    let mut buf = vec![0xAAu8; 100];
    let mut filled = 0;
    while let Some(plan) = d.next_fetch(filled, buf.len()) {
        let start = (plan.lba * 512) as usize;
        let window = disk[start..start + (plan.count * 512) as usize].to_vec();
        filled = d.copy_fetched(plan, &window, &mut buf, filled).unwrap();
    }
    assert_eq!(filled, 24);
    assert_eq!(&buf[..24], &disk[1000..1024]);
    assert!(buf[24..].iter().all(|b| *b == 0xAA));
    assert_eq!(d.position, 1024);
}

#[test]
fn short_window_is_refused() {
    let mut d = BlockDevice::new(7, 2);
    let mut buf = vec![0u8; 10];
    let plan = d.next_fetch(0, 10).unwrap();
    assert_eq!(d.copy_fetched(plan, &[1, 2, 3], &mut buf, 0), None);
    assert_eq!(d.position, 0);
    assert_eq!(buf, vec![0u8; 10]);
}
