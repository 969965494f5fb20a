//! The GPT reader of the firmware viewer: header and entry-array checks
//! (signature, CRC32), the partition entries, and their UTF-16 names.

use vstd::prelude::*;
use vstd::slice::slice_subrange;

use crate::bytes::{le_bytes, le_uint, read_le_u16, read_le_u32, read_le_u64};
use crate::text::{concat3, decimal_chars, decimal_string, hex_chars, hex_lower, push_char, string_of};

verus! {

pub const GPT_ENTRY_SIZE: usize = 128;
pub const GPT_NAME_BYTES: usize = 72;

/// Why a GPT could not be read.
#[derive(Debug, Clone, Copy, PartialEq, Eq, Structural)]
pub enum GptError {
    InvalidSignature,
    InvalidHeaderCrc,
    InvalidEntriesCrc,
    BufferTooSmall,
    NoPartitions,
}

/// One used entry of the GPT partition array.
#[derive(Debug, Clone)]
pub struct GptPartition {
    pub index: usize,
    pub name: String,
    pub start_lba: u64,
    pub end_lba: u64,
    pub type_guid: [u8; 16],
}

/// The view of a [`GptPartition`].
pub struct GptPartitionView {
    pub index: usize,
    pub name: Seq<char>,
    pub start_lba: u64,
    pub end_lba: u64,
    pub type_guid: Seq<u8>,
}

impl View for GptPartition {
    type V = GptPartitionView;

    open spec fn view(&self) -> GptPartitionView {
        GptPartitionView {
            index: self.index,
            name: self.name@,
            start_lba: self.start_lba,
            end_lba: self.end_lba,
            type_guid: self.type_guid@,
        }
    }
}

/// A GPT: the disk GUID and the used partition entries.
#[derive(Debug, Clone)]
pub struct GptTable {
    pub disk_guid: [u8; 16],
    pub partitions: Vec<GptPartition>,
}

/// One shift of the reflected CRC-32 register (polynomial 0xEDB88320).
pub open spec fn crc_shift(c: u32) -> u32 {
    if c & 1 != 0 {
        (c >> 1) ^ 0xEDB8_8320u32
    } else {
        c >> 1
    }
}

/// `k` shifts of the register.
pub open spec fn crc_shifts(c: u32, k: nat) -> u32
    decreases k,
{
    if k == 0 {
        c
    } else {
        crc_shift(crc_shifts(c, (k - 1) as nat))
    }
}

/// The register after all bytes of `data`, from the initial value `init`.
pub open spec fn crc_register(init: u32, data: Seq<u8>) -> u32
    decreases data.len(),
{
    if data.len() == 0 {
        init
    } else {
        crc_shifts(crc_register(init, data.drop_last()) ^ (data.last() as u32), 8)
    }
}

/// The CRC-32 (IEEE 802.3, as GPT uses it) of `data`.
pub open spec fn spec_crc32(data: Seq<u8>) -> u32 {
    !crc_register(0xFFFF_FFFFu32, data)
}

/// Computes the CRC-32 that GPT headers and entry arrays carry.
pub fn gpt_crc32(data: &[u8]) -> (crc: u32)
    ensures
        crc == spec_crc32(data@),
{
    let mut crc: u32 = 0xFFFF_FFFF;
    let mut i: usize = 0;
    while i < data.len()
        invariant
            i <= data@.len(),
            crc == crc_register(0xFFFF_FFFFu32, data@.subrange(0, i as int)),
        decreases data@.len() - i,
    {
        let ghost before = crc;
        crc = crc ^ (data[i] as u32);
        let ghost start = crc;
        let mut k: usize = 0;
        while k < 8
            invariant
                k <= 8,
                crc == crc_shifts(start, k as nat),
            decreases 8 - k,
        {
            if crc & 1 != 0 {
                crc = (crc >> 1) ^ 0xEDB8_8320;
            } else {
                crc = crc >> 1;
            }
            k = k + 1;
        }
        proof {
            let pre = data@.subrange(0, i + 1);
            assert(pre.drop_last() =~= data@.subrange(0, i as int));
        }
        i = i + 1;
    }
    proof {
        assert(data@.subrange(0, data@.len() as int) =~= data@);
    }
    !crc
}

/// The 16-bit code unit at `2 * k` of little-endian UTF-16 text.
pub open spec fn utf16_unit(data: Seq<u8>) -> nat {
    data[0] as nat + 256 * (data[1] as nat)
}

/// A code unit that `char::from_u32` accepts (not a surrogate).
pub open spec fn is_scalar_unit(u: nat) -> bool {
    u < 0xD800 || (0xE000 <= u && u <= 0x10FFFF)
}

/// The characters of UTF-16LE text up to the first NUL unit; surrogate
/// units are dropped, as a lone unit does not make a character.
pub open spec fn utf16_chars(data: Seq<u8>) -> Seq<char>
    decreases data.len(),
{
    if data.len() < 2 {
        Seq::empty()
    } else {
        let u = utf16_unit(data);
        if u == 0 {
            Seq::empty()
        } else {
            let rest = utf16_chars(data.subrange(2, data.len() as int));
            if is_scalar_unit(u) {
                seq![u as char] + rest
            } else {
                rest
            }
        }
    }
}

/// The displayed name of an entry: its UTF-16 name, or "(unnamed)".
pub open spec fn gpt_name(data: Seq<u8>) -> Seq<char> {
    if utf16_chars(data).len() == 0 {
        "(unnamed)"@
    } else {
        utf16_chars(data)
    }
}

/// The character with code `u`, if there is one (`char::from_u32`).
#[verifier::external_body]
fn char_from_u32(u: u32) -> (r: Option<char>)
    ensures
        is_scalar_unit(u as nat) ==> r == Some(u as char),
        !is_scalar_unit(u as nat) ==> r is None,
{
    char::from_u32(u)
}

fn decode_utf16_name(data: &[u8]) -> (name: String)
    ensures
        name@ == gpt_name(data@),
{
    let mut out = String::new();
    let mut i: usize = 0;
    let mut done = false;
    let n = data.len();
    proof {
        assert(data@.subrange(0, n as int) =~= data@);
        assert(Seq::<char>::empty() + utf16_chars(data@) =~= utf16_chars(data@));
    }
    while !done && i < n && n - i >= 2
        invariant
            n == data@.len(),
            i <= n,
            done ==> out@ == utf16_chars(data@),
            !done ==> out@ + utf16_chars(data@.subrange(i as int, n as int)) == utf16_chars(
                data@,
            ),
        decreases n - i + (if done { 0int } else { 1int }),
    {
        let ghost rest = data@.subrange(i as int, n as int);
        let unit = read_le_u16(data, i);
        proof {
            assert(data@.subrange(i as int, i + 2) =~= seq![rest[0], rest[1]]);
            reveal_with_fuel(crate::bytes::le_uint, 3);
            assert(unit == utf16_unit(rest));
            assert(rest.subrange(2, rest.len() as int) =~= data@.subrange(i + 2, n as int));
        }
        if unit == 0 {
            done = true;
            proof {
                assert(out@ + Seq::<char>::empty() =~= out@);
            }
        } else {
            let ghost pre = out@;
            match char_from_u32(unit as u32) {
                Some(ch) => {
                    push_char(&mut out, ch);
                    proof {
                        assert(out@ + utf16_chars(data@.subrange(i + 2, n as int)) =~= pre + (
                        seq![ch] + utf16_chars(data@.subrange(i + 2, n as int))));
                    }
                },
                None => {},
            }
            i = i + 2;
        }
    }
    proof {
        if !done {
            assert(utf16_chars(data@.subrange(i as int, n as int)) =~= Seq::<char>::empty());
            assert(out@ + Seq::<char>::empty() =~= out@);
        }
    }
    if out.as_str().unicode_len() == 0 {
        string_of("(unnamed)")
    } else {
        out
    }
}

fn guid_at(data: &[u8], at: usize) -> (g: [u8; 16])
    requires
        at + 16 <= data@.len(),
    ensures
        g@ == data@.subrange(at as int, at + 16),
{
    let g = [
        data[at],
        data[at + 1],
        data[at + 2],
        data[at + 3],
        data[at + 4],
        data[at + 5],
        data[at + 6],
        data[at + 7],
        data[at + 8],
        data[at + 9],
        data[at + 10],
        data[at + 11],
        data[at + 12],
        data[at + 13],
        data[at + 14],
        data[at + 15],
    ];
    proof {
        assert(g@ =~= data@.subrange(at as int, at + 16));
    }
    g
}

/// All bytes of `s` are zero.
pub open spec fn all_zero(s: Seq<u8>) -> bool {
    forall|i: int| 0 <= i < s.len() ==> s[i] == 0
}

/// The partition an entry of the array describes (numbered `index`), or
/// `None` for a short entry, an unused type GUID, or a zero extent.
pub open spec fn spec_gpt_entry(raw: Seq<u8>, index: usize) -> Option<GptPartitionView> {
    if raw.len() < 128 {
        None
    } else if all_zero(raw.subrange(0, 16)) {
        None
    } else {
        let start = le_uint(raw.subrange(32, 40));
        let end = le_uint(raw.subrange(40, 48));
        if start == 0 && end == 0 {
            None
        } else {
            Some(
                GptPartitionView {
                    index,
                    name: gpt_name(raw.subrange(56, 128)),
                    start_lba: start as u64,
                    end_lba: end as u64,
                    type_guid: raw.subrange(0, 16),
                },
            )
        }
    }
}

fn parse_entry(raw: &[u8], index: usize) -> (r: Option<GptPartition>)
    ensures
        r matches Some(p) ==> spec_gpt_entry(raw@, index) == Some(p@),
        r is None ==> spec_gpt_entry(raw@, index) is None,
{
    if raw.len() < GPT_ENTRY_SIZE {
        return None;
    }
    let type_guid = guid_at(raw, 0);
    let mut k: usize = 0;
    let mut zero = true;
    while k < 16
        invariant
            k <= 16,
            type_guid@.len() == 16,
            zero == (forall|j: int| 0 <= j < k ==> type_guid@[j] == 0),
        decreases 16 - k,
    {
        if type_guid[k] != 0 {
            zero = false;
        }
        k = k + 1;
    }
    if zero {
        return None;
    }
    let start_lba = read_le_u64(raw, 32);
    let end_lba = read_le_u64(raw, 40);
    if start_lba == 0 && end_lba == 0 {
        return None;
    }
    let name = decode_utf16_name(slice_subrange(raw, 56, 56 + GPT_NAME_BYTES));
    let p = GptPartition { index, name, start_lba, end_lba, type_guid };
    proof {
        assert(p@.type_guid == raw@.subrange(0, 16));
    }
    Some(p)
}

/// The "EFI PART" signature bytes.
pub open spec fn gpt_signature() -> Seq<u8> {
    seq![0x45u8, 0x46u8, 0x49u8, 0x20u8, 0x50u8, 0x41u8, 0x52u8, 0x54u8]
}

/// The header size field.
pub open spec fn gpt_header_size(h: Seq<u8>) -> nat {
    le_uint(h.subrange(12, 16))
}

/// The bytes over which the header CRC is computed: the first
/// `header_size` bytes with the CRC field (bytes 16..20) zeroed.
pub open spec fn header_crc_input(h: Seq<u8>) -> Seq<u8> {
    h.subrange(0, 16) + seq![0u8, 0u8, 0u8, 0u8] + h.subrange(20, gpt_header_size(h) as int)
}

/// The used entries among the first `n` slots of the entry array, in slot
/// order; a slot that does not fit in the array ends the list.
pub open spec fn gpt_partitions(entries: Seq<u8>, entry_size: nat, n: nat) -> Seq<GptPartitionView>
    decreases n,
{
    if n == 0 {
        Seq::empty()
    } else {
        let prev = gpt_partitions(entries, entry_size, (n - 1) as nat);
        let start = (n - 1) * entry_size;
        let end = start + entry_size;
        if end > entries.len() {
            prev
        } else {
            match spec_gpt_entry(entries.subrange(start as int, end as int), n as usize) {
                Some(p) => prev.push(p),
                None => prev,
            }
        }
    }
}

/// The outcome of reading a GPT from its header sector and entry array:
/// the disk GUID and the used partitions, or the first check that fails.
pub open spec fn spec_parse_gpt(h: Seq<u8>, entries: Seq<u8>) -> Result<
    (Seq<u8>, Seq<GptPartitionView>),
    GptError,
> {
    if h.len() < 512 {
        Err(GptError::BufferTooSmall)
    } else if h.subrange(0, 8) != gpt_signature() {
        Err(GptError::InvalidSignature)
    } else if h.len() < gpt_header_size(h) {
        Err(GptError::BufferTooSmall)
    } else if spec_crc32(header_crc_input(h)) != le_uint(h.subrange(16, 20)) {
        Err(GptError::InvalidHeaderCrc)
    } else if spec_crc32(entries) != le_uint(h.subrange(96, 100)) {
        Err(GptError::InvalidEntriesCrc)
    } else {
        let parts = gpt_partitions(
            entries,
            le_uint(h.subrange(92, 96)),
            le_uint(h.subrange(88, 92)),
        );
        if parts.len() == 0 {
            Err(GptError::NoPartitions)
        } else {
            Ok((h.subrange(64, 80), parts))
        }
    }
}

/// The header would be read with a header size below the 20 bytes that
/// reach past its CRC field (the only header the reader cannot handle).
pub open spec fn header_size_too_small(h: Seq<u8>) -> bool {
    h.len() >= 512 && h.subrange(0, 8) == gpt_signature() && gpt_header_size(h) <= h.len()
        && gpt_header_size(h) < 20
}

proof fn lemma_partitions_stop(entries: Seq<u8>, size: nat, n: nat, m: nat)
    requires
        n <= m,
        n * size + size > entries.len(),
    ensures
        gpt_partitions(entries, size, m) == gpt_partitions(entries, size, n),
    decreases m,
{
    if m > n {
        lemma_partitions_stop(entries, size, n, (m - 1) as nat);
        let k = (m - 1) as nat;
        assert(k * size >= n * size) by (nonlinear_arith)
            requires
                k >= n,
        ;
    }
}

/// Reads a GPT from its header sector and its entry array, checking the
/// signature and both CRCs.
pub fn parse_gpt_from_disk_sectors(header_lba: &[u8], entries_bytes: &[u8]) -> (r: Result<
    GptTable,
    GptError,
>)
    requires
        !header_size_too_small(header_lba@),
    ensures
        match r {
            Ok(t) => spec_parse_gpt(header_lba@, entries_bytes@) == Ok::<
                (Seq<u8>, Seq<GptPartitionView>),
                GptError,
            >((t.disk_guid@, t.partitions@.map_values(|p: GptPartition| p@))),
            Err(e) => spec_parse_gpt(header_lba@, entries_bytes@) == Err::<
                (Seq<u8>, Seq<GptPartitionView>),
                GptError,
            >(e),
        },
{
    let h = header_lba;
    if h.len() < 512 {
        return Err(GptError::BufferTooSmall);
    }
    if !(h[0] == 0x45 && h[1] == 0x46 && h[2] == 0x49 && h[3] == 0x20 && h[4] == 0x50 && h[5]
        == 0x41 && h[6] == 0x52 && h[7] == 0x54) {
        proof {
            if h@.subrange(0, 8) == gpt_signature() {
                assert(h@.subrange(0, 8)[0] == h@[0]);
                assert(h@.subrange(0, 8)[1] == h@[1]);
                assert(h@.subrange(0, 8)[2] == h@[2]);
                assert(h@.subrange(0, 8)[3] == h@[3]);
                assert(h@.subrange(0, 8)[4] == h@[4]);
                assert(h@.subrange(0, 8)[5] == h@[5]);
                assert(h@.subrange(0, 8)[6] == h@[6]);
                assert(h@.subrange(0, 8)[7] == h@[7]);
            }
        }
        return Err(GptError::InvalidSignature);
    }
    proof {
        assert(h@.subrange(0, 8) =~= gpt_signature());
    }
    let header_size = read_le_u32(h, 12) as usize;
    if h.len() < header_size {
        return Err(GptError::BufferTooSmall);
    }
    let stored_crc = read_le_u32(h, 16);
    let mut crc_buf: Vec<u8> = Vec::new();
    let mut k: usize = 0;
    while k < header_size
        invariant
            header_size == gpt_header_size(h@),
            20 <= header_size <= h@.len(),
            k <= header_size,
            crc_buf@ == header_crc_input(h@).subrange(0, k as int),
        decreases header_size - k,
    {
        let b = if 16 <= k && k < 20 {
            0u8
        } else {
            h[k]
        };
        crc_buf.push(b);
        proof {
            assert(crc_buf@ =~= header_crc_input(h@).subrange(0, k + 1));
        }
        k = k + 1;
    }
    proof {
        assert(header_crc_input(h@).len() == header_size);
        assert(crc_buf@ =~= header_crc_input(h@));
    }
    if gpt_crc32(crc_buf.as_slice()) != stored_crc {
        return Err(GptError::InvalidHeaderCrc);
    }
    let entry_count = read_le_u32(h, 88);
    let entry_size = read_le_u32(h, 92);
    let entries_crc = read_le_u32(h, 96);
    if gpt_crc32(entries_bytes) != entries_crc {
        return Err(GptError::InvalidEntriesCrc);
    }
    let disk_guid = guid_at(h, 64);
    let mut partitions: Vec<GptPartition> = Vec::new();
    let n = entries_bytes.len();
    let mut i: u32 = 0;
    let mut stopped = false;
    while i < entry_count && !stopped
        invariant
            n == entries_bytes@.len(),
            i <= entry_count,
            stopped ==> i as nat * entry_size as nat + entry_size as nat > n,
            partitions@.map_values(|p: GptPartition| p@) == gpt_partitions(
                entries_bytes@,
                entry_size as nat,
                i as nat,
            ),
        decreases entry_count - i + (if stopped { 0int } else { 1int }),
    {
        proof {
            assert((i as int) * (entry_size as int) <= 0xFFFF_FFFFint * 0xFFFF_FFFFint)
                by (nonlinear_arith)
                requires
                    0 <= i <= 0xFFFF_FFFFint,
                    0 <= entry_size <= 0xFFFF_FFFFint,
            ;
        }
        let start: u64 = i as u64 * entry_size as u64;
        let end: u64 = start + entry_size as u64;
        if end > n as u64 {
            stopped = true;
        } else {
            let ghost pre = partitions@;
            let raw = slice_subrange(entries_bytes, start as usize, end as usize);
            match parse_entry(raw, (i + 1) as usize) {
                Some(part) => {
                    partitions.push(part);
                    proof {
                        assert(partitions@.map_values(|p: GptPartition| p@) =~= pre.map_values(
                            |p: GptPartition| p@,
                        ).push(part@));
                    }
                },
                None => {},
            }
            i = i + 1;
        }
    }
    proof {
        if stopped {
            lemma_partitions_stop(entries_bytes@, entry_size as nat, i as nat, entry_count as nat);
        }
    }
    if partitions.len() == 0 {
        return Err(GptError::NoPartitions);
    }
    Ok(GptTable { disk_guid, partitions })
}

impl GptPartition {
    /// The one-line description the viewer prints:
    /// `[index] name  LBA start-end  type=xxyy...` with the first two type
    /// GUID bytes in hex.
    pub fn describe(&self) -> (r: String)
        ensures
            r@ == "["@ + decimal_chars(self.index as nat) + "] "@ + self.name@ + "  LBA "@
                + decimal_chars(self.start_lba as nat) + "-"@ + decimal_chars(self.end_lba as nat)
                + "  type="@ + hex_chars(self.type_guid@.subrange(0, 2)) + "..."@,
    {
        let mut r = concat3("[", decimal_string(self.index as u64).as_str(), "] ");
        r.append(self.name.as_str());
        r.append("  LBA ");
        r.append(decimal_string(self.start_lba).as_str());
        r.append("-");
        r.append(decimal_string(self.end_lba).as_str());
        r.append("  type=");
        let head = slice_subrange(self.type_guid.as_slice(), 0, 2);
        r.append(hex_lower(head).as_str());
        r.append("...");
        r
    }
}

/// Where the entry array of a GPT lies, from its header: the first LBA,
/// the byte length (count times entry size) and the number of whole
/// blocks of `block_size` bytes that hold it.
pub fn entry_array_extent(header: &[u8], block_size: u64) -> (r: (u64, u64, u64))
    requires
        header@.len() >= 96,
        block_size > 0,
    ensures
        r.0 == le_uint(header@.subrange(80, 88)),
        r.1 == le_uint(header@.subrange(88, 92)) * le_uint(header@.subrange(92, 96)),
        r.2 == (r.1 + block_size - 1) / (block_size as int),
{
    let entry_lba = read_le_u64(header, 80);
    let count = read_le_u32(header, 88);
    let size = read_le_u32(header, 92);
    proof {
        assert((count as int) * (size as int) <= 0xFFFF_FFFFint * 0xFFFF_FFFFint) by (nonlinear_arith)
            requires
                0 <= count <= 0xFFFF_FFFFint,
                0 <= size <= 0xFFFF_FFFFint,
        ;
    }
    let total: u64 = count as u64 * size as u64;
    let blocks: u64 = total / block_size + if total % block_size != 0 {
        1u64
    } else {
        0u64
    };
    proof {
        let t = total as int;
        let b = block_size as int;
        vstd::arithmetic::div_mod::lemma_fundamental_div_mod(t, b);
        let q = t / b;
        let m = t % b;
        if m == 0 {
            assert(t + b - 1 == q * b + (b - 1)) by (nonlinear_arith)
                requires
                    t == b * q + m,
                    m == 0,
            ;
            vstd::arithmetic::div_mod::lemma_fundamental_div_mod_converse(t + b - 1, b, q, b - 1);
        } else {
            assert(t + b - 1 == (q + 1) * b + (m - 1)) by (nonlinear_arith)
                requires
                    t == b * q + m,
            ;
            vstd::arithmetic::div_mod::lemma_fundamental_div_mod_converse(t + b - 1, b, q + 1, m - 1);
        }
    }
    (entry_lba, total, blocks)
}

/// Whether `parse_gpt_from_disk_sectors` can read the header: false only
/// for a signed header whose size field is below 20 bytes.
pub fn gpt_header_readable(header: &[u8]) -> (r: bool)
    ensures
        r == !header_size_too_small(header@),
{
    if header.len() < 512 {
        return true;
    }
    if !(header[0] == 0x45 && header[1] == 0x46 && header[2] == 0x49 && header[3] == 0x20
        && header[4] == 0x50 && header[5] == 0x41 && header[6] == 0x52 && header[7] == 0x54) {
        proof {
            if header@.subrange(0, 8) == gpt_signature() {
                assert(header@.subrange(0, 8)[0] == header@[0]);
                assert(header@.subrange(0, 8)[1] == header@[1]);
                assert(header@.subrange(0, 8)[2] == header@[2]);
                assert(header@.subrange(0, 8)[3] == header@[3]);
                assert(header@.subrange(0, 8)[4] == header@[4]);
                assert(header@.subrange(0, 8)[5] == header@[5]);
                assert(header@.subrange(0, 8)[6] == header@[6]);
                assert(header@.subrange(0, 8)[7] == header@[7]);
            }
        }
        return true;
    }
    proof {
        assert(header@.subrange(0, 8) =~= gpt_signature());
    }
    let size = read_le_u32(header, 12) as usize;
    !(size <= header.len() && size < 20)
}

/// Eight shifts of the register, written out.
pub open spec fn crc_shift8(c: u32) -> u32 {
    crc_shift(crc_shift(crc_shift(crc_shift(crc_shift(crc_shift(crc_shift(crc_shift(c))))))))
}

proof fn lemma_shifts8(c: u32)
    ensures
        crc_shifts(c, 8) == crc_shift8(c),
{
    reveal_with_fuel(crc_shifts, 9);
}

proof fn lemma_shift_xor3(a: u32, b: u32, c: u32)
    ensures
        crc_shift(a ^ b ^ c) == crc_shift(a) ^ crc_shift(b) ^ crc_shift(c),
{
    assert(crc_shift(a ^ b ^ c) == crc_shift(a) ^ crc_shift(b) ^ crc_shift(c)) by (bit_vector);
}

proof fn lemma_shifts_xor3(a: u32, b: u32, c: u32, k: nat)
    ensures
        crc_shifts(a ^ b ^ c, k) == crc_shifts(a, k) ^ crc_shifts(b, k) ^ crc_shifts(c, k),
    decreases k,
{
    if k > 0 {
        lemma_shifts_xor3(a, b, c, (k - 1) as nat);
        lemma_shift_xor3(
            crc_shifts(a, (k - 1) as nat),
            crc_shifts(b, (k - 1) as nat),
            crc_shifts(c, (k - 1) as nat),
        );
    }
}

/// The bytewise exclusive or of three buffers of the length of `a`.
pub open spec fn xor3(a: Seq<u8>, b: Seq<u8>, c: Seq<u8>) -> Seq<u8> {
    Seq::new(a.len(), |i: int| a[i] ^ b[i] ^ c[i])
}

proof fn lemma_register_xor3(r1: u32, r2: u32, r3: u32, a: Seq<u8>, b: Seq<u8>, c: Seq<u8>)
    requires
        a.len() == b.len(),
        b.len() == c.len(),
    ensures
        crc_register(r1 ^ r2 ^ r3, xor3(a, b, c)) == crc_register(r1, a) ^ crc_register(r2, b)
            ^ crc_register(r3, c),
    decreases a.len(),
{
    if a.len() > 0 {
        let x = xor3(a, b, c);
        assert(x.drop_last() =~= xor3(a.drop_last(), b.drop_last(), c.drop_last()));
        lemma_register_xor3(r1, r2, r3, a.drop_last(), b.drop_last(), c.drop_last());
        let x1 = crc_register(r1, a.drop_last());
        let x2 = crc_register(r2, b.drop_last());
        let x3 = crc_register(r3, c.drop_last());
        let al = a.last();
        let bl = b.last();
        let cl = c.last();
        assert(x.last() == al ^ bl ^ cl);
        assert((x1 ^ x2 ^ x3) ^ ((al ^ bl ^ cl) as u32) == (x1 ^ (al as u32)) ^ (x2 ^ (bl as u32)) ^ (x3
            ^ (cl as u32))) by (bit_vector);
        lemma_shifts_xor3(x1 ^ (al as u32), x2 ^ (bl as u32), x3 ^ (cl as u32), 8);
    }
}

/// CRC-32 is affine: over buffers of one length, the CRC of the bytewise
/// exclusive or of three buffers is the exclusive or of their CRCs.
pub proof fn lemma_crc32_affine(a: Seq<u8>, b: Seq<u8>, c: Seq<u8>)
    requires
        a.len() == b.len(),
        b.len() == c.len(),
    ensures
        spec_crc32(xor3(a, b, c)) == spec_crc32(a) ^ spec_crc32(b) ^ spec_crc32(c),
{
    let i: u32 = 0xFFFF_FFFF;
    assert(i ^ i ^ i == i) by (bit_vector);
    lemma_register_xor3(i, i, i, a, b, c);
    let r1 = crc_register(i, a);
    let r2 = crc_register(i, b);
    let r3 = crc_register(i, c);
    assert(!(r1 ^ r2 ^ r3) == !r1 ^ !r2 ^ !r3) by (bit_vector);
}

proof fn lemma_register_concat(init: u32, a: Seq<u8>, b: Seq<u8>)
    ensures
        crc_register(init, a + b) == crc_register(crc_register(init, a), b),
    decreases b.len(),
{
    if b.len() == 0 {
        assert(a + b =~= a);
    } else {
        lemma_register_concat(init, a, b.drop_last());
        assert((a + b).drop_last() =~= a + b.drop_last());
        assert((a + b).last() == b.last());
    }
}

/// A shift moves the bits of `h` above the low byte down by one, past
/// the feedback.
proof fn lemma_shift_high(a: u32, h: u32, j: u32)
    by (bit_vector)
    requires
        j < 8,
        h & 0xff == 0,
    ensures
        crc_shift(a ^ (h >> j)) == crc_shift(a) ^ (h >> (j + 1) as u32),
{
}

/// Bits above the low byte pass through up to eight shifts unchanged.
proof fn lemma_shifts_high(x: u32, h: u32, k: nat)
    requires
        k <= 8,
        h & 0xff == 0,
    ensures
        crc_shifts(x ^ h, k) == crc_shifts(x, k) ^ (h >> (k as u32)),
    decreases k,
{
    if k == 0 {
        assert(h >> 0u32 == h) by (bit_vector);
    } else {
        lemma_shifts_high(x, h, (k - 1) as nat);
        lemma_shift_high(crc_shifts(x, (k - 1) as nat), h, (k - 1) as u32);
        assert(((k - 1) as u32 + 1) as u32 == k as u32);
    }
}

/// Feeding the low byte of `t` to a register `r` with `r ^ t == q` leaves
/// a register that differs from `q` shifted eight times by `t >> 8`.
proof fn lemma_byte_step(r: u32, q: u32, t: u32)
    requires
        r ^ t == q,
    ensures
        crc_shifts(r ^ ((t & 0xff) as u8 as u32), 8) ^ (t >> 8) == crc_shifts(q, 8),
{
    let h = t & 0xFFFF_FF00u32;
    assert(r ^ ((t & 0xff) as u8 as u32) == q ^ h && h & 0xff == 0 && h >> 8u32 == t >> 8) by (
    bit_vector)
        requires
            r ^ t == q,
            h == t & 0xFFFF_FF00u32,
    ;
    lemma_shifts_high(q, h, 8);
    let s = crc_shifts(q, 8);
    assert((s ^ (t >> 8)) ^ (t >> 8) == s) by (bit_vector);
}

/// A buffer followed by its own CRC in little-endian order has the CRC
/// 0x2144DF1C, the CRC-32 residue.
pub proof fn lemma_crc32_residue(data: Seq<u8>)
    ensures
        spec_crc32(data + le_bytes(spec_crc32(data) as nat, 4)) == 0x2144_DF1Cu32,
{
    let r = crc_register(0xFFFF_FFFFu32, data);
    let c = !r;
    assert(spec_crc32(data) == c);
    let t1 = c >> 8;
    let t2 = c >> 16;
    let t3 = c >> 24;
    assert(t1 >> 8 == t2 && t2 >> 8 == t3 && t3 >> 8 == 0 && r ^ c == 0xFFFF_FFFFu32) by (
    bit_vector)
        requires
            c == !r,
            t1 == c >> 8,
            t2 == c >> 16,
            t3 == c >> 24,
    ;
    let b0 = (c & 0xff) as u8;
    let b1 = (t1 & 0xff) as u8;
    let b2 = (t2 & 0xff) as u8;
    let b3 = (t3 & 0xff) as u8;
    assert(c % 256 == (c & 0xff) && (c / 256) % 256 == ((c >> 8) & 0xff) && (c / 65536) % 256 == ((
    c >> 16) & 0xff) && (c / 16777216) % 256 == ((c >> 24) & 0xff)) by (bit_vector);
    let n = c as nat;
    assert(n / 256 / 256 == n / 65536) by {
        vstd::arithmetic::div_mod::lemma_div_denominator(n as int, 256, 256);
    }
    assert(n / 65536 / 256 == n / 16777216) by {
        vstd::arithmetic::div_mod::lemma_div_denominator(n as int, 65536, 256);
    }
    let tail = le_bytes(n, 4);
    assert(tail =~= seq![b0, b1, b2, b3]) by {
        reveal_with_fuel(le_bytes, 5);
    }
    lemma_register_concat(0xFFFF_FFFFu32, data, tail);
    let s1 = seq![b0];
    let s2 = seq![b0, b1];
    let s3 = seq![b0, b1, b2];
    assert(s1.drop_last() =~= Seq::<u8>::empty());
    assert(s2.drop_last() =~= s1);
    assert(s3.drop_last() =~= s2);
    assert(tail.drop_last() =~= s3);
    let q0 = 0xFFFF_FFFFu32;
    let q1 = crc_shifts(q0, 8);
    let q2 = crc_shifts(q1, 8);
    let q3 = crc_shifts(q2, 8);
    let q4 = crc_shifts(q3, 8);
    let r1 = crc_register(r, s1);
    let r2 = crc_register(r, s2);
    let r3 = crc_register(r, s3);
    let r4 = crc_register(r, tail);
    assert(crc_register(r, Seq::<u8>::empty()) == r);
    lemma_byte_step(r, q0, c);
    assert(r1 == crc_shifts(r ^ (b0 as u32), 8));
    lemma_byte_step(r1, q1, t1);
    assert(r2 == crc_shifts(r1 ^ (b1 as u32), 8));
    lemma_byte_step(r2, q2, t2);
    assert(r3 == crc_shifts(r2 ^ (b2 as u32), 8));
    lemma_byte_step(r3, q3, t3);
    assert(r4 == crc_shifts(r3 ^ (b3 as u32), 8));
    assert(r4 ^ 0u32 == r4) by (bit_vector);
    assert(r4 == q4);
    lemma_residue_constant();
    assert(!0xDEBB_20E3u32 == 0x2144_DF1Cu32) by (bit_vector);
}

/// Thirty-two shifts of the all-ones register.
proof fn lemma_residue_constant()
    ensures
        crc_shifts(crc_shifts(crc_shifts(crc_shifts(0xFFFF_FFFFu32, 8), 8), 8), 8) == 0xDEBB_20E3u32,
{
    lemma_shifts8(0xFFFF_FFFFu32);
    assert(crc_shift8(0xFFFF_FFFFu32) == 0x2DFD_1072u32) by (bit_vector);
    lemma_shifts8(0x2DFD_1072u32);
    assert(crc_shift8(0x2DFD_1072u32) == 0xBE26_ED00u32) by (bit_vector);
    lemma_shifts8(0xBE26_ED00u32);
    assert(crc_shift8(0xBE26_ED00u32) == 0x00BE_26EDu32) by (bit_vector);
    lemma_shifts8(0x00BE_26EDu32);
    assert(crc_shift8(0x00BE_26EDu32) == 0xDEBB_20E3u32) by (bit_vector);
}

} // verus!
