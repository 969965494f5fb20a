use rspfdisk::mbr::{
    mbr_sector_readable, parse_mbr, parse_mbr_sector, protective_mbr_sector, validate_partitions,
    MbrEntry, MbrError,
};
use rspfdisk::model::{
    BootMode, PartitionEntry, PartitionTableKind, PartitionType, SectorSize,
};

#[test]
fn empty_mbr() {
    let sector = vec![0u8; 512];
    let table = parse_mbr(&sector, SectorSize::S512.bytes()).unwrap();
    assert!(table.partitions.is_empty());
    assert_eq!(table.kind, PartitionTableKind::Unknown);
    assert_eq!(table.boot_mode, BootMode::Unknown);
}

#[test]
fn protective_mbr_write_and_read() {
    let sector = protective_mbr_sector(1000, 512);
    let mbr = parse_mbr_sector(&sector).unwrap();
    assert!(mbr.is_protective);
    assert!(mbr.valid_signature);
}

#[test]
fn protective_mbr_entry_covers_disk_after_lba_0() {
    let sector = protective_mbr_sector(1000, 512);
    assert_eq!(sector.len(), 512);
    assert_eq!(sector[510], 0x55);
    assert_eq!(sector[511], 0xAA);
    let mbr = parse_mbr_sector(&sector).unwrap();
    assert_eq!(
        mbr.entries[0],
        Some(MbrEntry { bootable: false, partition_type: 0xEE, start_lba: 1, sector_count: 999 })
    );
    assert_eq!(mbr.entries[1], None);
    assert_eq!(mbr.entries[2], None);
    assert_eq!(mbr.entries[3], None);
    let table = parse_mbr(&sector, 512).unwrap();
    assert_eq!(table.kind, PartitionTableKind::Gpt);
    assert_eq!(table.boot_mode, BootMode::Uefi);
    assert_eq!(table.partitions.len(), 1);
    assert_eq!(table.partitions[0].partition_type, PartitionType::ProtectiveMbr);
    assert_eq!(table.partitions[0].end_lba, 999);
}

#[test]
fn protective_mbr_caps_count_at_32_bits() {
    let sector = protective_mbr_sector(0x1_0000_0005, 4096);
    assert_eq!(sector.len(), 4096);
    let mbr = parse_mbr_sector(&sector).unwrap();
    assert_eq!(mbr.entries[0].unwrap().sector_count, u32::MAX);
    let exact = protective_mbr_sector(u32::MAX as u64, 512);
    let mbr = parse_mbr_sector(&exact).unwrap();
    assert_eq!(mbr.entries[0].unwrap().sector_count, u32::MAX - 1);
}

#[test]
fn mbr_parse_rejects_short_buffers() {
    for len in [0usize, 1, 100, 511] {
        let buf = vec![0u8; len];
        assert!(matches!(parse_mbr_sector(&buf), Err(MbrError::InvalidEntry)));
    }
}

#[test]
fn entry_roundtrip() {
    let e = MbrEntry { bootable: true, partition_type: 0x83, start_lba: 2048, sector_count: 0x0102_0304 };
    let raw = e.to_bytes();
    assert_eq!(raw[0], 0x80);
    assert_eq!(raw[4], 0x83);
    assert_eq!(&raw[8..12], &[0x00, 0x08, 0x00, 0x00]);
    assert_eq!(&raw[12..16], &[0x04, 0x03, 0x02, 0x01]);
    assert_eq!(MbrEntry::parse(&raw), Some(e));
    let clear = MbrEntry { bootable: false, partition_type: 0, start_lba: 5, sector_count: 6 };
    assert_eq!(MbrEntry::parse(&clear.to_bytes()), None);
    assert_eq!(MbrEntry::parse(&raw[..15]), None);
}

#[test]
fn entry_status_other_than_0x80_is_not_bootable() {
    let mut raw = [0u8; 16];
    raw[0] = 0x01;
    let e = MbrEntry::parse(&raw).unwrap();
    assert!(!e.bootable);
    assert_eq!(e.partition_type, 0);
}

#[test]
fn mbr_partition_entry_fields() {
    let mut sector = vec![0u8; 512];
    let e = MbrEntry { bootable: true, partition_type: 0x07, start_lba: 63, sector_count: 100 };
    sector[462..478].copy_from_slice(&e.to_bytes());
    sector[510] = 0x55;
    sector[511] = 0xAA;
    let table = parse_mbr(&sector, 512).unwrap();
    assert_eq!(table.kind, PartitionTableKind::Mbr);
    assert_eq!(table.boot_mode, BootMode::Bios);
    assert_eq!(table.partitions.len(), 1);
    let p = &table.partitions[0];
    assert_eq!(p.index, 1);
    assert_eq!(p.name, "MBR Partition 2");
    assert_eq!(p.start_lba, 63);
    assert_eq!(p.end_lba, 162);
    assert_eq!(p.size_bytes, 51200);
    assert_eq!(p.partition_type, PartitionType::Unknown);
    assert!(p.bootable && p.active);
}

#[test]
fn mbr_entries_without_signature_are_refused() {
    let mut sector = vec![0u8; 512];
    let e = MbrEntry { bootable: false, partition_type: 0x83, start_lba: 1, sector_count: 10 };
    sector[446..462].copy_from_slice(&e.to_bytes());
    assert!(matches!(parse_mbr(&sector, 512), Err(MbrError::InvalidSignature)));
    assert!(matches!(parse_mbr(&sector[..100], 512), Err(MbrError::InvalidEntry)));
}

fn entry(index: u32, start: u64, end: u64) -> PartitionEntry {
    PartitionEntry {
        index,
        name: format!("p{index}"),
        start_lba: start,
        end_lba: end,
        size_bytes: (end - start + 1) * 512,
        partition_type: PartitionType::Unknown,
        type_guid: None,
        partition_guid: None,
        filesystem: None,
        mount_point: None,
        bootable: false,
        active: false,
    }
}

#[test]
fn overlapping_partitions_are_refused() {
    let ok = vec![entry(0, 2048, 4095), entry(1, 4096, 8191)];
    assert!(validate_partitions(&ok).is_ok());
    let touching = vec![entry(0, 2048, 4096), entry(1, 4096, 8191)];
    assert!(matches!(validate_partitions(&touching), Err(MbrError::PartitionOverlap)));
    let inside = vec![entry(0, 100, 200), entry(1, 300, 400), entry(2, 150, 160)];
    assert!(validate_partitions(&inside).is_err());
    assert!(validate_partitions(&[]).is_ok());
}

#[test]
fn unsigned_sector_with_endless_entry_is_refused_by_signature() {
    let mut sector = vec![0u8; 512];
    // type 0x83 with start 0 and count 0: a slot that has no last sector
    sector[446 + 4] = 0x83;
    assert!(mbr_sector_readable(&sector));
    assert!(matches!(parse_mbr(&sector, 512), Err(MbrError::InvalidSignature)));
    sector[510] = 0x55;
    sector[511] = 0xAA;
    assert!(!mbr_sector_readable(&sector));
}
