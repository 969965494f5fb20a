//! The MBR sector: its partition entries, its parse into a partition
//! table, the overlap check, and the protective MBR that precedes a GPT.

use vstd::prelude::*;
use vstd::slice::slice_subrange;

use crate::bytes::{
    le_bytes, le_uint, lemma_le_bytes_len, lemma_le_bytes_of_uint, lemma_le_uint_bound, lemma_le_uint_of_bytes,
    lemma_pow256_values, read_le_u32,
};
use crate::model::{BootMode, PartitionEntry, PartitionEntryView, PartitionTable, PartitionTableKind, PartitionType};
use crate::text::{concat, decimal_chars, decimal_string};

verus! {

pub const MBR_SIGNATURE_LOW: u8 = 0x55;
pub const MBR_SIGNATURE_HIGH: u8 = 0xAA;
pub const MBR_BOOTCODE_SIZE: usize = 446;
pub const MBR_ENTRY_COUNT: usize = 4;
pub const MBR_ENTRY_SIZE: usize = 16;
pub const PARTITION_TYPE_GPT_PROTECTIVE: u8 = 0xEE;
pub const PARTITION_TYPE_EXTENDED: u8 = 0x05;
pub const PARTITION_TYPE_EXTENDED_LBA: u8 = 0x0F;

/// Why an MBR could not be read or accepted.
#[derive(Debug)]
pub enum MbrError {
    /// The device could not be read; the text says why.
    Disk(String),
    InvalidSignature,
    PartitionOverlap,
    InvalidEntry,
}

/// One of the four primary partition entries of an MBR.
#[derive(Clone, Copy, Debug, PartialEq, Eq, Structural)]
pub struct MbrEntry {
    pub bootable: bool,
    pub partition_type: u8,
    pub start_lba: u32,
    pub sector_count: u32,
}

/// The entry that 16 raw bytes describe, or `None` for a short buffer or an
/// unused slot (status byte and type byte both zero).
pub open spec fn spec_parse_entry(raw: Seq<u8>) -> Option<MbrEntry> {
    if raw.len() < 16 {
        None
    } else if raw[0] == 0 && raw[4] == 0 {
        None
    } else {
        Some(
            MbrEntry {
                bootable: raw[0] == 0x80,
                partition_type: raw[4],
                start_lba: le_uint(raw.subrange(8, 12)) as u32,
                sector_count: le_uint(raw.subrange(12, 16)) as u32,
            },
        )
    }
}

/// The 16 bytes that encode an entry: status, zeros, type, zeros, then the
/// start LBA and the sector count in little-endian order.
pub open spec fn spec_entry_bytes(e: MbrEntry) -> Seq<u8> {
    seq![if e.bootable { 0x80u8 } else { 0u8 }, 0u8, 0u8, 0u8, e.partition_type, 0u8, 0u8, 0u8]
        + le_bytes(e.start_lba as nat, 4) + le_bytes(e.sector_count as nat, 4)
}

fn le4(v: u32) -> (b: [u8; 4])
    ensures
        b@ == le_bytes(v as nat, 4),
{
    let b = [
        (v % 256) as u8,
        ((v / 256) % 256) as u8,
        ((v / 65536) % 256) as u8,
        (v / 16777216) as u8,
    ];
    proof {
        let n = v as nat;
        reveal_with_fuel(le_bytes, 5);
        assert(n / 256 / 256 == n / 65536) by {
            vstd::arithmetic::div_mod::lemma_div_denominator(n as int, 256, 256);
        }
        assert(n / 65536 / 256 == n / 16777216) by {
            vstd::arithmetic::div_mod::lemma_div_denominator(n as int, 65536, 256);
        }
        assert(n / 16777216 < 256);
        assert(b@ =~= le_bytes(n, 4));
    }
    b
}

impl MbrEntry {
    /// Reads an entry from its 16 raw bytes.
    pub fn parse(raw: &[u8]) -> (r: Option<Self>)
        ensures
            r == spec_parse_entry(raw@),
    {
        if raw.len() < 16 {
            return None;
        }
        if raw[0] == 0 && raw[4] == 0 {
            return None;
        }
        let start_lba = read_le_u32(raw, 8);
        let sector_count = read_le_u32(raw, 12);
        Some(
            Self {
                bootable: raw[0] == 0x80,
                partition_type: raw[4],
                start_lba,
                sector_count,
            },
        )
    }

    /// The 16 raw bytes of the entry.
    pub fn to_bytes(&self) -> (raw: [u8; 16])
        ensures
            raw@ == spec_entry_bytes(*self),
    {
        let s = le4(self.start_lba);
        let c = le4(self.sector_count);
        let raw = [
            if self.bootable {
                0x80u8
            } else {
                0u8
            },
            0u8,
            0u8,
            0u8,
            self.partition_type,
            0u8,
            0u8,
            0u8,
            s[0],
            s[1],
            s[2],
            s[3],
            c[0],
            c[1],
            c[2],
            c[3],
        ];
        proof {
            assert(raw@ =~= spec_entry_bytes(*self));
        }
        raw
    }

    /// The partition-table entry for the `index`-th slot (counted from 0),
    /// on a disk with `sector_size`-byte sectors.
    pub fn to_partition_entry(&self, index: u32, sector_size: u32) -> (p: PartitionEntry)
        requires
            index < u32::MAX,
            self.start_lba + self.sector_count >= 1,
        ensures
            p@ == spec_partition_entry(*self, index, sector_size),
    {
        proof {
            let a = self.sector_count as int;
            let b = sector_size as int;
            assert(a * b <= 0xFFFF_FFFF * 0xFFFF_FFFF) by (nonlinear_arith)
                requires
                    0 <= a <= 0xFFFF_FFFF,
                    0 <= b <= 0xFFFF_FFFF,
            ;
        }
        let size_bytes = self.sector_count as u64 * sector_size as u64;
        let end_lba = self.start_lba as u64 + self.sector_count as u64 - 1;
        let partition_type = if self.partition_type == PARTITION_TYPE_GPT_PROTECTIVE {
            PartitionType::ProtectiveMbr
        } else {
            PartitionType::Unknown
        };
        let number = decimal_string((index + 1) as u64);
        PartitionEntry {
            index,
            name: concat("MBR Partition ", number.as_str()),
            start_lba: self.start_lba as u64,
            end_lba,
            size_bytes,
            partition_type,
            type_guid: None,
            partition_guid: None,
            filesystem: None,
            mount_point: None,
            bootable: self.bootable,
            active: self.bootable,
        }
    }
}

/// The partition-table view of an MBR entry in slot `index`.
pub open spec fn spec_partition_entry(e: MbrEntry, index: u32, sector_size: u32) -> PartitionEntryView {
    PartitionEntryView {
        index,
        name: "MBR Partition "@ + decimal_chars((index + 1) as nat),
        start_lba: e.start_lba as u64,
        end_lba: (e.start_lba + e.sector_count - 1) as u64,
        size_bytes: (e.sector_count * sector_size) as u64,
        partition_type: if e.partition_type == 0xEE {
            PartitionType::ProtectiveMbr
        } else {
            PartitionType::Unknown
        },
        type_guid: None,
        partition_guid: None,
        filesystem: None,
        mount_point: None,
        bootable: e.bootable,
        active: e.bootable,
    }
}

/// Writing an entry and reading it back gives the entry, unless it is the
/// all-clear entry (not bootable, type 0), which reads as an unused slot.
pub proof fn lemma_entry_roundtrip(e: MbrEntry)
    ensures
        spec_parse_entry(spec_entry_bytes(e)) == (if e.bootable || e.partition_type != 0 {
            Some(e)
        } else {
            None
        }),
{
    let b = spec_entry_bytes(e);
    lemma_pow256_values();
    lemma_le_uint_of_bytes(e.start_lba as nat, 4);
    lemma_le_uint_of_bytes(e.sector_count as nat, 4);
    assert(b.subrange(8, 12) =~= le_bytes(e.start_lba as nat, 4));
    assert(b.subrange(12, 16) =~= le_bytes(e.sector_count as nat, 4));
}

/// Reading an entry and writing it again keeps the type byte and the eight
/// address bytes; the status byte becomes 0x80 or 0, and the other bytes 0.
pub proof fn lemma_entry_reencode(raw: Seq<u8>)
    requires
        spec_parse_entry(raw) is Some,
    ensures
        ({
            let b = spec_entry_bytes(spec_parse_entry(raw)->0);
            &&& b.len() == 16
            &&& b[0] == (if raw[0] == 0x80 { 0x80u8 } else { 0u8 })
            &&& b[4] == raw[4]
            &&& b.subrange(8, 16) == raw.subrange(8, 16)
            &&& b[1] == 0 && b[2] == 0 && b[3] == 0 && b[5] == 0 && b[6] == 0 && b[7] == 0
        }),
{
    let e = spec_parse_entry(raw)->0;
    let s = raw.subrange(8, 12);
    let c = raw.subrange(12, 16);
    lemma_le_uint_bound(s);
    lemma_le_uint_bound(c);
    lemma_pow256_values();
    lemma_le_bytes_of_uint(s);
    lemma_le_bytes_of_uint(c);
    let b = spec_entry_bytes(e);
    assert(b.subrange(8, 16) =~= s + c);
    assert(raw.subrange(8, 16) =~= s + c);
}

/// The decoded primary partition table of an MBR sector.
#[derive(Clone, Debug)]
pub struct MbrTable {
    pub entries: [Option<MbrEntry>; 4],
    pub valid_signature: bool,
    pub is_empty: bool,
    pub is_protective: bool,
}

/// The 16 bytes of the `i`-th partition entry of a sector.
pub open spec fn mbr_slot(data: Seq<u8>, i: int) -> Seq<u8> {
    data.subrange(446 + 16 * i, 446 + 16 * i + 16)
}

/// The four entries of a sector of at least 512 bytes.
pub open spec fn mbr_entries(data: Seq<u8>) -> Seq<Option<MbrEntry>> {
    seq![
        spec_parse_entry(mbr_slot(data, 0)),
        spec_parse_entry(mbr_slot(data, 1)),
        spec_parse_entry(mbr_slot(data, 2)),
        spec_parse_entry(mbr_slot(data, 3)),
    ]
}

/// Bytes 510 and 511 hold the 0x55 0xAA boot signature.
pub open spec fn mbr_valid_signature(data: Seq<u8>) -> bool {
    data[510] == 0x55 && data[511] == 0xAA
}

/// No slot holds an entry.
pub open spec fn mbr_is_empty(data: Seq<u8>) -> bool {
    forall|i: int| 0 <= i < 4 ==> (#[trigger] mbr_entries(data)[i]) is None
}

/// Some slot holds an entry of the GPT-protective type 0xEE.
pub open spec fn mbr_is_protective(data: Seq<u8>) -> bool {
    exists|i: int|
        0 <= i < 4 && ((#[trigger] mbr_entries(data)[i]) matches Some(e) && e.partition_type == 0xEE)
}

fn slot_entry(data: &[u8], i: usize) -> (r: Option<MbrEntry>)
    requires
        data@.len() >= 512,
        i < 4,
    ensures
        r == spec_parse_entry(mbr_slot(data@, i as int)),
{
    let start = MBR_BOOTCODE_SIZE + i * MBR_ENTRY_SIZE;
    let end = start + MBR_ENTRY_SIZE;
    MbrEntry::parse(slice_subrange(data, start, end))
}

fn is_gpt_protective(e: Option<MbrEntry>) -> (r: bool)
    ensures
        r == (e matches Some(x) && x.partition_type == 0xEE),
{
    match e {
        Some(x) => x.partition_type == PARTITION_TYPE_GPT_PROTECTIVE,
        None => false,
    }
}

/// Decodes the partition entries and the signature of an MBR sector.
/// Fails with `InvalidEntry` when the buffer is shorter than 512 bytes.
pub fn parse_mbr_sector(data: &[u8]) -> (r: Result<MbrTable, MbrError>)
    ensures
        r is Err <==> data@.len() < 512,
        r matches Err(e) ==> e is InvalidEntry,
        r matches Ok(t) ==> {
            &&& t.entries@ == mbr_entries(data@)
            &&& t.valid_signature == mbr_valid_signature(data@)
            &&& t.is_empty == mbr_is_empty(data@)
            &&& t.is_protective == mbr_is_protective(data@)
        },
{
    if data.len() < 512 {
        return Err(MbrError::InvalidEntry);
    }
    let valid_signature = data[510] == MBR_SIGNATURE_LOW && data[511] == MBR_SIGNATURE_HIGH;
    let e0 = slot_entry(data, 0);
    let e1 = slot_entry(data, 1);
    let e2 = slot_entry(data, 2);
    let e3 = slot_entry(data, 3);
    let has_any = e0.is_some() || e1.is_some() || e2.is_some() || e3.is_some();
    let p0 = is_gpt_protective(e0);
    let p1 = is_gpt_protective(e1);
    let p2 = is_gpt_protective(e2);
    let p3 = is_gpt_protective(e3);
    let is_protective = p0 || p1 || p2 || p3;
    let entries = [e0, e1, e2, e3];
    proof {
        let es = mbr_entries(data@);
        assert(entries@ =~= es);
        if has_any {
            if e0.is_some() {
                assert(es[0] is Some);
            } else if e1.is_some() {
                assert(es[1] is Some);
            } else if e2.is_some() {
                assert(es[2] is Some);
            } else {
                assert(es[3] is Some);
            }
        }
        if is_protective {
            if p0 {
                assert(es[0] matches Some(x) && x.partition_type == 0xEE);
            } else if p1 {
                assert(es[1] matches Some(x) && x.partition_type == 0xEE);
            } else if p2 {
                assert(es[2] matches Some(x) && x.partition_type == 0xEE);
            } else {
                assert(es[3] matches Some(x) && x.partition_type == 0xEE);
            }
        }
    }
    Ok(MbrTable { entries, valid_signature, is_empty: !has_any, is_protective })
}

/// The partitions that the slots `0 .. entries.len()` describe, in slot order.
pub open spec fn mbr_partitions(entries: Seq<Option<MbrEntry>>, sector_size: u32) -> Seq<
    PartitionEntryView,
>
    decreases entries.len(),
{
    if entries.len() == 0 {
        Seq::empty()
    } else {
        let rest = mbr_partitions(entries.drop_last(), sector_size);
        match entries.last() {
            Some(e) => rest.push(spec_partition_entry(e, (entries.len() - 1) as u32, sector_size)),
            None => rest,
        }
    }
}

proof fn lemma_partitions_from_slots(entries: Seq<Option<MbrEntry>>, sector_size: u32)
    requires
        entries.len() <= 4,
        forall|i: int|
            0 <= i < entries.len() ==> ((#[trigger] entries[i]) matches Some(e) ==> e.start_lba
                + e.sector_count >= 1),
    ensures
        forall|k: int|
            0 <= k < mbr_partitions(entries, sector_size).len() ==> {
                let p = #[trigger] mbr_partitions(entries, sector_size)[k];
                &&& p.index < entries.len()
                &&& entries[p.index as int] matches Some(e) && {
                    &&& p.start_lba == e.start_lba
                    &&& p.end_lba == e.start_lba + e.sector_count - 1
                    &&& p.size_bytes == e.sector_count * sector_size
                }
            },
        forall|k1: int, k2: int|
            0 <= k1 < k2 < mbr_partitions(entries, sector_size).len() ==> (#[trigger] mbr_partitions(
                entries,
                sector_size,
            )[k1]).index < (#[trigger] mbr_partitions(entries, sector_size)[k2]).index,
        forall|i: int|
            0 <= i < entries.len() && (#[trigger] entries[i]) is Some ==> exists|k: int|
                0 <= k < mbr_partitions(entries, sector_size).len() && (#[trigger] mbr_partitions(
                    entries,
                    sector_size,
                )[k]).index == i,
    decreases entries.len(),
{
    if entries.len() > 0 {
        let rest = entries.drop_last();
        lemma_partitions_from_slots(rest, sector_size);
        assert forall|i: int| 0 <= i < rest.len() implies rest[i] == entries[i] by {}
        let rp = mbr_partitions(rest, sector_size);
        let all = mbr_partitions(entries, sector_size);
        assert forall|k: int| 0 <= k < rp.len() implies all[k] == rp[k] by {}
        assert forall|i: int| 0 <= i < entries.len() && (#[trigger] entries[i]) is Some implies exists|
            k: int,
        | 0 <= k < all.len() && (#[trigger] all[k]).index == i by {
            if i < rest.len() {
                assert(rest[i] is Some);
                let k = choose|k: int| 0 <= k < rp.len() && (#[trigger] rp[k]).index == i;
                assert(all[k] == rp[k]);
            } else {
                assert(all[all.len() - 1].index == i);
            }
        }
        match entries.last() {
            Some(e) => {
                let a = e.sector_count as int;
                let b = sector_size as int;
                assert(a * b <= 0xFFFF_FFFF * 0xFFFF_FFFF) by (nonlinear_arith)
                    requires
                        0 <= a <= 0xFFFF_FFFF,
                        0 <= b <= 0xFFFF_FFFF,
                ;
                assert(entries[entries.len() - 1] == Some(e));
            },
            None => {},
        }
    }
}

/// The partitions that an MBR sector yields are its slots that hold an
/// entry (a non-zero boot flag or type byte), each once, in slot order;
/// each carries the slot's number, starts at the slot's start
/// field, ends one sector before start plus count, and has count times
/// `sector_size` bytes, the fields read little-endian from the slot's raw
/// bytes.
pub proof fn lemma_mbr_partition_geometry(sector: Seq<u8>, sector_size: u32)
    requires
        sector.len() >= 512,
        mbr_entries_have_end(sector),
    ensures
        forall|k: int|
            0 <= k < mbr_partitions(mbr_entries(sector), sector_size).len() ==> {
                let p = #[trigger] mbr_partitions(mbr_entries(sector), sector_size)[k];
                let i = p.index as int;
                let raw = sector.subrange(446 + 16 * i, 446 + 16 * i + 16);
                let start = le_uint(raw.subrange(8, 12));
                let count = le_uint(raw.subrange(12, 16));
                &&& 0 <= i < 4
                &&& !(raw[0] == 0 && raw[4] == 0)
                &&& p.start_lba == start
                &&& p.end_lba == start + count - 1
                &&& p.size_bytes == count * sector_size
            },
        forall|k1: int, k2: int|
            0 <= k1 < k2 < mbr_partitions(mbr_entries(sector), sector_size).len() ==> (
            #[trigger] mbr_partitions(mbr_entries(sector), sector_size)[k1]).index < (
            #[trigger] mbr_partitions(mbr_entries(sector), sector_size)[k2]).index,
        forall|i: int|
            0 <= i < 4 && !(#[trigger] sector[446 + 16 * i] == 0 && sector[446 + 16 * i + 4] == 0)
                ==> exists|k: int|
                0 <= k < mbr_partitions(mbr_entries(sector), sector_size).len() && (
                #[trigger] mbr_partitions(mbr_entries(sector), sector_size)[k]).index == i,
{
    let entries = mbr_entries(sector);
    assert forall|i: int|
        0 <= i < 4 && !(#[trigger] sector[446 + 16 * i] == 0 && sector[446 + 16 * i + 4] == 0)
            implies entries[i] is Some by {
        assert(mbr_slot(sector, i)[0] == sector[446 + 16 * i]);
        assert(mbr_slot(sector, i)[4] == sector[446 + 16 * i + 4]);
    }
    lemma_partitions_from_slots(entries, sector_size);
    lemma_pow256_values();
    assert forall|k: int| 0 <= k < mbr_partitions(entries, sector_size).len() implies {
        let p = #[trigger] mbr_partitions(entries, sector_size)[k];
        let i = p.index as int;
        let raw = sector.subrange(446 + 16 * i, 446 + 16 * i + 16);
        let start = le_uint(raw.subrange(8, 12));
        let count = le_uint(raw.subrange(12, 16));
        &&& 0 <= i < 4
        &&& !(raw[0] == 0 && raw[4] == 0)
        &&& p.start_lba == start
        &&& p.end_lba == start + count - 1
        &&& p.size_bytes == count * sector_size
    } by {
        let p = mbr_partitions(entries, sector_size)[k];
        let i = p.index as int;
        let raw = sector.subrange(446 + 16 * i, 446 + 16 * i + 16);
        assert(raw == mbr_slot(sector, i));
        lemma_le_uint_bound(raw.subrange(8, 12));
        lemma_le_uint_bound(raw.subrange(12, 16));
        assert(entries[i] == spec_parse_entry(mbr_slot(sector, i)));
    }
}

/// Every entry of the sector has a last sector (start + count >= 1).
pub open spec fn mbr_entries_have_end(data: Seq<u8>) -> bool {
    forall|i: int|
        0 <= i < 4 ==> ((#[trigger] mbr_entries(data)[i]) matches Some(e) ==> e.start_lba
            + e.sector_count >= 1)
}

/// The table kind an MBR sector announces.
pub open spec fn mbr_table_kind(data: Seq<u8>) -> PartitionTableKind {
    if mbr_is_protective(data) {
        PartitionTableKind::Gpt
    } else if mbr_is_empty(data) {
        PartitionTableKind::Unknown
    } else {
        PartitionTableKind::Mbr
    }
}

/// The boot mode an MBR sector implies.
pub open spec fn mbr_boot_mode(data: Seq<u8>) -> BootMode {
    if mbr_is_protective(data) {
        BootMode::Uefi
    } else if mbr_is_empty(data) {
        BootMode::Unknown
    } else {
        BootMode::Bios
    }
}

/// Reads the partition table of sector 0 of a disk whose sectors have
/// `sector_size` bytes. A sector with entries but without the boot
/// signature is refused.
pub fn parse_mbr(sector: &[u8], sector_size: u32) -> (r: Result<PartitionTable, MbrError>)
    requires
        sector@.len() >= 512 && mbr_valid_signature(sector@) ==> mbr_entries_have_end(sector@),
    ensures
        sector@.len() < 512 ==> (r matches Err(e) && e is InvalidEntry),
        sector@.len() >= 512 && !mbr_valid_signature(sector@) && !mbr_is_empty(sector@) ==> (r matches Err(
            e,
        ) && e is InvalidSignature),
        r is Ok <==> sector@.len() >= 512 && (mbr_valid_signature(sector@) || mbr_is_empty(
            sector@,
        )),
        r matches Ok(t) ==> {
            &&& t.kind == mbr_table_kind(sector@)
            &&& t.boot_mode == mbr_boot_mode(sector@)
            &&& t.partitions@.map_values(|p: PartitionEntry| p@) == mbr_partitions(
                mbr_entries(sector@),
                sector_size,
            )
            &&& t.disk_guid is None
            &&& t.warnings@.len() == 0
        },
{
    let mbr = parse_mbr_sector(sector)?;
    if !mbr.valid_signature && !mbr.is_empty {
        return Err(MbrError::InvalidSignature);
    }
    proof {
        if !mbr.valid_signature {
            assert forall|i: int| 0 <= i < 4 implies (#[trigger] mbr_entries(sector@)[i]) is None by {
                if mbr_entries(sector@)[i] is Some {
                    assert(mbr.entries@[i] is Some);
                }
            }
        }
    }
    let mut partitions: Vec<PartitionEntry> = Vec::new();
    let mut i: usize = 0;
    while i < 4
        invariant
            sector@.len() >= 512,
            mbr_entries_have_end(sector@),
            mbr.entries@ == mbr_entries(sector@),
            i <= 4,
            partitions@.map_values(|p: PartitionEntry| p@) == mbr_partitions(
                mbr.entries@.subrange(0, i as int),
                sector_size,
            ),
        decreases 4 - i,
    {
        let ghost pre = partitions@;
        let entry = mbr.entries[i];
        proof {
            let sub = mbr.entries@.subrange(0, i + 1);
            assert(sub.drop_last() =~= mbr.entries@.subrange(0, i as int));
            assert(sub.last() == mbr_entries(sector@)[i as int]);
        }
        match entry {
            Some(e) => {
                let p = e.to_partition_entry(i as u32, sector_size);
                partitions.push(p);
                proof {
                    assert(partitions@.map_values(|p: PartitionEntry| p@) =~= pre.map_values(
                        |p: PartitionEntry| p@,
                    ).push(p@));
                }
            },
            None => {},
        }
        i = i + 1;
    }
    proof {
        assert(mbr.entries@.subrange(0, 4) =~= mbr.entries@);
    }
    let kind = if mbr.is_protective {
        PartitionTableKind::Gpt
    } else if mbr.is_empty {
        PartitionTableKind::Unknown
    } else {
        PartitionTableKind::Mbr
    };
    let boot_mode = if mbr.is_protective {
        BootMode::Uefi
    } else if mbr.is_empty {
        BootMode::Unknown
    } else {
        BootMode::Bios
    };
    Ok(PartitionTable { kind, boot_mode, partitions, disk_guid: None, warnings: Vec::new() })
}

/// The closed ranges `[a_start, a_end]` and `[b_start, b_end]` meet.
pub open spec fn spec_ranges_overlap(a_start: u64, a_end: u64, b_start: u64, b_end: u64) -> bool {
    a_start <= b_end && b_start <= a_end
}

fn ranges_overlap(a_start: u64, a_end: u64, b_start: u64, b_end: u64) -> (r: bool)
    ensures
        r == spec_ranges_overlap(a_start, a_end, b_start, b_end),
{
    a_start <= b_end && b_start <= a_end
}

/// Two distinct partitions of the list share a sector.
pub open spec fn has_overlap(parts: Seq<PartitionEntry>) -> bool {
    exists|i: int, j: int|
        0 <= i < j < parts.len() && spec_ranges_overlap(
            #[trigger] parts[i].start_lba,
            parts[i].end_lba,
            #[trigger] parts[j].start_lba,
            parts[j].end_lba,
        )
}

/// Sector `x` lies in the partition.
pub open spec fn holds_sector(p: PartitionEntry, x: int) -> bool {
    p.start_lba <= x <= p.end_lba
}

/// Overlap does not depend on the order of the list: a list has an overlap
/// exactly when two distinct partitions, in either order, each start no
/// later than the other ends; and where every partition starts no later
/// than it ends, exactly when two distinct partitions share a sector.
pub proof fn lemma_overlap_is_order_free(parts: Seq<PartitionEntry>)
    ensures
        has_overlap(parts) <==> exists|i: int, j: int|
            #![trigger parts[i], parts[j]]
            0 <= i < parts.len() && 0 <= j < parts.len() && i != j && parts[i].start_lba
                <= parts[j].end_lba && parts[j].start_lba <= parts[i].end_lba,
        (forall|i: int| 0 <= i < parts.len() ==> #[trigger] parts[i].start_lba <= parts[i].end_lba)
            ==> (has_overlap(parts) <==> exists|i: int, j: int, x: int|
            0 <= i < parts.len() && 0 <= j < parts.len() && i != j && #[trigger] holds_sector(
                parts[i],
                x,
            ) && #[trigger] holds_sector(parts[j], x)),
{
    if has_overlap(parts) {
        let (i, j) = choose|i: int, j: int|
            0 <= i < j < parts.len() && spec_ranges_overlap(
                #[trigger] parts[i].start_lba,
                parts[i].end_lba,
                #[trigger] parts[j].start_lba,
                parts[j].end_lba,
            );
        assert(parts[i] == parts[i] && parts[j] == parts[j]);
        let x: int = if parts[i].start_lba <= parts[j].start_lba {
            parts[j].start_lba as int
        } else {
            parts[i].start_lba as int
        };
        if forall|k: int| 0 <= k < parts.len() ==> #[trigger] parts[k].start_lba <= parts[k].end_lba {
            assert(parts[i].start_lba <= parts[i].end_lba);
            assert(parts[j].start_lba <= parts[j].end_lba);
            assert(holds_sector(parts[i], x) && holds_sector(parts[j], x));
        }
    }
    if exists|i: int, j: int|
        #![trigger parts[i], parts[j]]
        0 <= i < parts.len() && 0 <= j < parts.len() && i != j && parts[i].start_lba
            <= parts[j].end_lba && parts[j].start_lba <= parts[i].end_lba {
        let (i, j) = choose|i: int, j: int|
            #![trigger parts[i], parts[j]]
            0 <= i < parts.len() && 0 <= j < parts.len() && i != j && parts[i].start_lba
                <= parts[j].end_lba && parts[j].start_lba <= parts[i].end_lba;
        if i < j {
            assert(spec_ranges_overlap(parts[i].start_lba, parts[i].end_lba, parts[j].start_lba, parts[j].end_lba));
        } else {
            assert(spec_ranges_overlap(parts[j].start_lba, parts[j].end_lba, parts[i].start_lba, parts[i].end_lba));
        }
    }
    if exists|i: int, j: int, x: int|
            0 <= i < parts.len() && 0 <= j < parts.len() && i != j && #[trigger] holds_sector(
                parts[i],
                x,
            ) && #[trigger] holds_sector(parts[j], x) {
        let (i, j, x) = choose|i: int, j: int, x: int|
            0 <= i < parts.len() && 0 <= j < parts.len() && i != j && #[trigger] holds_sector(
                parts[i],
                x,
            ) && #[trigger] holds_sector(parts[j], x);
        if i < j {
            assert(spec_ranges_overlap(parts[i].start_lba, parts[i].end_lba, parts[j].start_lba, parts[j].end_lba));
        } else {
            assert(spec_ranges_overlap(parts[j].start_lba, parts[j].end_lba, parts[i].start_lba, parts[i].end_lba));
        }
    }
}

/// Refuses a partition list in which two partitions share a sector.
pub fn validate_partitions(partitions: &[PartitionEntry]) -> (r: Result<(), MbrError>)
    ensures
        r is Err <==> has_overlap(partitions@),
        r matches Err(e) ==> e is PartitionOverlap,
{
    let n = partitions.len();
    let mut i: usize = 0;
    while i < n
        invariant
            n == partitions@.len(),
            i <= n,
            forall|a: int, b: int|
                0 <= a < i && a < b < n ==> !spec_ranges_overlap(
                    #[trigger] partitions@[a].start_lba,
                    partitions@[a].end_lba,
                    #[trigger] partitions@[b].start_lba,
                    partitions@[b].end_lba,
                ),
        decreases n - i,
    {
        let mut j: usize = i + 1;
        while j < n
            invariant
                n == partitions@.len(),
                i < n,
                i + 1 <= j <= n,
                forall|a: int, b: int|
                    0 <= a < i && a < b < n ==> !spec_ranges_overlap(
                        #[trigger] partitions@[a].start_lba,
                        partitions@[a].end_lba,
                        #[trigger] partitions@[b].start_lba,
                        partitions@[b].end_lba,
                    ),
                forall|b: int|
                    i < b < j ==> !spec_ranges_overlap(
                        partitions@[i as int].start_lba,
                        partitions@[i as int].end_lba,
                        #[trigger] partitions@[b].start_lba,
                        partitions@[b].end_lba,
                    ),
            decreases n - j,
        {
            let a = &partitions[i];
            let b = &partitions[j];
            if ranges_overlap(a.start_lba, a.end_lba, b.start_lba, b.end_lba) {
                proof {
                    assert(spec_ranges_overlap(
                        partitions@[i as int].start_lba,
                        partitions@[i as int].end_lba,
                        partitions@[j as int].start_lba,
                        partitions@[j as int].end_lba,
                    ));
                }
                return Err(MbrError::PartitionOverlap);
            }
            j = j + 1;
        }
        i = i + 1;
    }
    Ok(())
}

/// The entry of a protective MBR for a disk of `sector_count` sectors: type
/// 0xEE from LBA 1, covering the disk or as much of it as 32 bits count.
pub open spec fn protective_entry(sector_count: u64) -> MbrEntry {
    MbrEntry {
        bootable: false,
        partition_type: 0xEE,
        start_lba: 1,
        sector_count: if sector_count > u32::MAX {
            u32::MAX
        } else {
            (sector_count - 1) as u32
        },
    }
}

/// The sector 0 that marks a GPT disk: zeros, the protective entry in the
/// first slot, and the boot signature.
pub open spec fn protective_mbr_bytes(sector_count: u64, sector_size: nat) -> Seq<u8> {
    let e = spec_entry_bytes(protective_entry(sector_count));
    Seq::new(
        sector_size,
        |k: int|
            if 446 <= k < 462 {
                e[k - 446]
            } else if k == 510 {
                0x55u8
            } else if k == 511 {
                0xAAu8
            } else {
                0u8
            },
    )
}

/// Builds the protective MBR sector for a GPT disk of `sector_count`
/// sectors with `sector_size`-byte sectors.
pub fn protective_mbr_sector(sector_count: u64, sector_size: usize) -> (sector: Vec<u8>)
    requires
        sector_count >= 1,
        sector_size >= 512,
    ensures
        sector@ == protective_mbr_bytes(sector_count, sector_size as nat),
{
    let count: u32 = if sector_count > u32::MAX as u64 {
        u32::MAX
    } else {
        (sector_count - 1) as u32
    };
    let entry = MbrEntry {
        bootable: false,
        partition_type: PARTITION_TYPE_GPT_PROTECTIVE,
        start_lba: 1,
        sector_count: count,
    };
    let raw = entry.to_bytes();
    let mut data: Vec<u8> = Vec::new();
    let mut k: usize = 0;
    while k < sector_size
        invariant
            k <= sector_size,
            sector_size >= 512,
            entry == protective_entry(sector_count),
            raw@ == spec_entry_bytes(entry),
            data@ == protective_mbr_bytes(sector_count, sector_size as nat).subrange(0, k as int),
        decreases sector_size - k,
    {
        let b: u8 = if 446 <= k && k < 462 {
            raw[k - 446]
        } else if k == 510 {
            MBR_SIGNATURE_LOW
        } else if k == 511 {
            MBR_SIGNATURE_HIGH
        } else {
            0u8
        };
        data.push(b);
        proof {
            assert(data@ =~= protective_mbr_bytes(sector_count, sector_size as nat).subrange(
                0,
                k + 1,
            ));
        }
        k = k + 1;
    }
    data
}

/// A protective MBR reads back as a valid, protective table whose first
/// slot holds the protective entry and whose other slots are unused.
pub proof fn lemma_protective_mbr_reads_back(sector_count: u64, sector_size: nat)
    requires
        sector_count >= 1,
        sector_size >= 512,
    ensures
        ({
            let d = protective_mbr_bytes(sector_count, sector_size);
            &&& mbr_valid_signature(d)
            &&& mbr_is_protective(d)
            &&& !mbr_is_empty(d)
            &&& mbr_entries(d) == seq![
                Some(protective_entry(sector_count)),
                None::<MbrEntry>,
                None::<MbrEntry>,
                None::<MbrEntry>,
            ]
        }),
{
    let d = protective_mbr_bytes(sector_count, sector_size);
    let e = protective_entry(sector_count);
    lemma_entry_roundtrip(e);
    lemma_le_bytes_len(e.start_lba as nat, 4);
    lemma_le_bytes_len(e.sector_count as nat, 4);
    assert(spec_entry_bytes(e).len() == 16);
    assert(mbr_slot(d, 0) =~= spec_entry_bytes(e));
    assert(mbr_slot(d, 1)[0] == 0 && mbr_slot(d, 1)[4] == 0);
    assert(mbr_slot(d, 2)[0] == 0 && mbr_slot(d, 2)[4] == 0);
    assert(mbr_slot(d, 3)[0] == 0 && mbr_slot(d, 3)[4] == 0);
    assert(mbr_entries(d)[0] matches Some(x) && x.partition_type == 0xEE);
    assert(mbr_entries(d) =~= seq![Some(e), None::<MbrEntry>, None::<MbrEntry>, None::<MbrEntry>]);
}

/// Whether `parse_mbr` can read the sector: it is short or lacks the boot
/// signature (and is refused or empty), or every entry in it has a last
/// sector.
pub fn mbr_sector_readable(sector: &[u8]) -> (r: bool)
    ensures
        r == (sector@.len() >= 512 && mbr_valid_signature(sector@) ==> mbr_entries_have_end(
            sector@,
        )),
{
    if sector.len() < 512 {
        return true;
    }
    if !(sector[510] == MBR_SIGNATURE_LOW && sector[511] == MBR_SIGNATURE_HIGH) {
        return true;
    }
    let mut i: usize = 0;
    while i < 4
        invariant
            sector@.len() >= 512,
            mbr_valid_signature(sector@),
            i <= 4,
            forall|k: int|
                0 <= k < i ==> ((#[trigger] mbr_entries(sector@)[k]) matches Some(e) ==> e.start_lba
                    + e.sector_count >= 1),
        decreases 4 - i,
    {
        match slot_entry(sector, i) {
            Some(e) => {
                if e.start_lba == 0 && e.sector_count == 0 {
                    proof {
                        assert(mbr_entries(sector@)[i as int] == Some(e));
                    }
                    return false;
                }
            },
            None => {},
        }
        proof {
            assert(mbr_entries(sector@)[i as int] == spec_parse_entry(mbr_slot(sector@, i as int)));
        }
        i = i + 1;
    }
    true
}

} // verus!
