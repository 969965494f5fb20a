use rspfdisk::gpt::{entry_array_extent, gpt_crc32, parse_gpt_from_disk_sectors, GptError};

fn load_fixture() -> (Vec<u8>, Vec<u8>) {
    let data = synthesize_minimal_gpt();
    let header = data[..512].to_vec();
    let entries = data[512..].to_vec();
    (header, entries)
}

fn synthesize_minimal_gpt() -> Vec<u8> {
    let mut header = vec![0u8; 512];
    header[0..8].copy_from_slice(b"EFI PART");
    header[8..12].copy_from_slice(&0x0001_0000u32.to_le_bytes());
    header[12..16].copy_from_slice(&92u32.to_le_bytes());
    header[80..88].copy_from_slice(&2u64.to_le_bytes());
    header[88..92].copy_from_slice(&1u32.to_le_bytes());
    header[92..96].copy_from_slice(&128u32.to_le_bytes());

    let mut entry = vec![0u8; 128];
    entry[0] = 0x28;
    entry[32..40].copy_from_slice(&2048u64.to_le_bytes());
    entry[40..48].copy_from_slice(&4096u64.to_le_bytes());
    let name_utf16: Vec<u8> = "EFI".encode_utf16().flat_map(|c| c.to_le_bytes()).collect();
    entry[56..56 + name_utf16.len()].copy_from_slice(&name_utf16);

    let entries_crc = gpt_crc32(&entry);
    header[96..100].copy_from_slice(&entries_crc.to_le_bytes());

    let mut crc_buf = header.clone();
    crc_buf[16..20].copy_from_slice(&0u32.to_le_bytes());
    let hdr_crc = gpt_crc32(&crc_buf[..92]);
    header[16..20].copy_from_slice(&hdr_crc.to_le_bytes());

    let mut out = header;
    out.extend(entry);
    out
}

#[test]
fn parse_minimal_gpt() {
    let (header, entries) = load_fixture();
    let table = parse_gpt_from_disk_sectors(&header, &entries).expect("parse gpt");
    assert_eq!(table.partitions.len(), 1);
    assert_eq!(table.partitions[0].start_lba, 2048);
}

#[test]
fn reject_bad_signature() {
    let (mut header, entries) = load_fixture();
    header[0] = b'X';
    assert!(parse_gpt_from_disk_sectors(&header, &entries).is_err());
}

#[test]
fn crc32_check_value() {
    assert_eq!(gpt_crc32(b"123456789"), 0xCBF4_3926);
    assert_eq!(gpt_crc32(b""), 0);
}

#[test]
fn minimal_gpt_fields() {
    let (header, entries) = load_fixture();
    let table = parse_gpt_from_disk_sectors(&header, &entries).unwrap();
    let p = &table.partitions[0];
    assert_eq!(p.index, 1);
    assert_eq!(p.name, "EFI");
    assert_eq!(p.end_lba, 4096);
    assert_eq!(p.type_guid[0], 0x28);
    assert_eq!(table.disk_guid, [0u8; 16]);
    assert_eq!(p.describe(), "[1] EFI  LBA 2048-4096  type=2800...");
}

#[test]
fn gpt_errors_in_check_order() {
    let (header, entries) = load_fixture();
    assert_eq!(parse_gpt_from_disk_sectors(&header[..511], &entries).unwrap_err(), GptError::BufferTooSmall);
    let mut bad_crc = header.clone();
    bad_crc[16] ^= 1;
    assert_eq!(parse_gpt_from_disk_sectors(&bad_crc, &entries).unwrap_err(), GptError::InvalidHeaderCrc);
    let mut bad_entries = entries.clone();
    bad_entries[1] = 1;
    assert_eq!(
        parse_gpt_from_disk_sectors(&header, &bad_entries).unwrap_err(),
        GptError::InvalidEntriesCrc
    );
    let mut big = header.clone();
    big[12..16].copy_from_slice(&600u32.to_le_bytes());
    assert_eq!(parse_gpt_from_disk_sectors(&big, &entries).unwrap_err(), GptError::BufferTooSmall);
}

#[test]
fn unused_entries_give_no_partitions() {
    let (mut header, _) = load_fixture();
    let entries = vec![0u8; 128];
    let crc = gpt_crc32(&entries);
    header[96..100].copy_from_slice(&crc.to_le_bytes());
    header[16..20].copy_from_slice(&0u32.to_le_bytes());
    let hdr_crc = gpt_crc32(&header[..92]);
    header[16..20].copy_from_slice(&hdr_crc.to_le_bytes());
    assert_eq!(parse_gpt_from_disk_sectors(&header, &entries).unwrap_err(), GptError::NoPartitions);
}

#[test]
fn unnamed_and_surrogate_names() {
    let (mut header, _) = load_fixture();
    let mut entries = vec![0u8; 256];
    entries[0] = 1;
    entries[32] = 5;
    entries[128] = 2;
    entries[128 + 40] = 9;
    entries[128 + 56..128 + 58].copy_from_slice(&0xD800u16.to_le_bytes());
    entries[128 + 58..128 + 60].copy_from_slice(&(b'A' as u16).to_le_bytes());
    header[88..92].copy_from_slice(&3u32.to_le_bytes());
    let crc = gpt_crc32(&entries);
    header[96..100].copy_from_slice(&crc.to_le_bytes());
    header[16..20].copy_from_slice(&0u32.to_le_bytes());
    let hdr_crc = gpt_crc32(&header[..92]);
    header[16..20].copy_from_slice(&hdr_crc.to_le_bytes());
    let table = parse_gpt_from_disk_sectors(&header, &entries).unwrap();
    assert_eq!(table.partitions.len(), 2);
    assert_eq!(table.partitions[0].name, "(unnamed)");
    assert_eq!(table.partitions[1].name, "A");
    assert_eq!(table.partitions[1].index, 2);
}

#[test]
fn entry_array_extent_rounds_up_to_blocks() {
    let (header, _) = load_fixture();
    assert_eq!(entry_array_extent(&header, 512), (2, 128, 1));
    let mut h = header.clone();
    h[88..92].copy_from_slice(&128u32.to_le_bytes());
    assert_eq!(entry_array_extent(&h, 512), (2, 16384, 32));
    assert_eq!(entry_array_extent(&h, 4096), (2, 16384, 4));
    h[88..92].copy_from_slice(&0u32.to_le_bytes());
    assert_eq!(entry_array_extent(&h, 512), (2, 0, 0));
}

#[test]
fn crc32_of_buffer_and_its_crc_is_the_residue() {
    for data in [&b""[..], &b"123456789"[..], &b"EFI PART"[..], &[0xFFu8; 37][..]] {
        let mut buf = data.to_vec();
        buf.extend_from_slice(&gpt_crc32(data).to_le_bytes());
        assert_eq!(gpt_crc32(&buf), 0x2144_DF1C);
    }
}

#[test]
fn crc32_is_affine_over_xor() {
    let a = b"partition".to_vec();
    let b = b"GUID_tabl".to_vec();
    let c = vec![0x5Au8; 9];
    let x: Vec<u8> = (0..9).map(|i| a[i] ^ b[i] ^ c[i]).collect();
    assert_eq!(gpt_crc32(&x), gpt_crc32(&a) ^ gpt_crc32(&b) ^ gpt_crc32(&c));
}
