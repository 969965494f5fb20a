//! Shared disk and partition types: what a partition table, a disk and a
//! layout draft hold, with their mathematical views.

use vstd::prelude::*;

verus! {

/// The logical or physical sector size of a disk.
#[derive(Clone, Copy, Debug, PartialEq, Eq, Structural)]
pub enum SectorSize {
    S512,
    S4096,
}

impl SectorSize {
    pub open spec fn spec_bytes(self) -> u32 {
        match self {
            SectorSize::S512 => 512,
            SectorSize::S4096 => 4096,
        }
    }

    /// The size in bytes.
    #[verifier::when_used_as_spec(spec_bytes)]
    pub fn bytes(self) -> (r: u32)
        ensures
            r == self.spec_bytes(),
    {
        match self {
            SectorSize::S512 => 512,
            SectorSize::S4096 => 4096,
        }
    }
}

/// The kind of partition table found on (or planned for) a disk.
#[derive(Clone, Copy, Debug, PartialEq, Eq, Structural)]
pub enum PartitionTableKind {
    Mbr,
    Gpt,
    Unknown,
}

/// The firmware boot mode a table implies.
#[derive(Clone, Copy, Debug, PartialEq, Eq, Structural)]
pub enum BootMode {
    Bios,
    Uefi,
    Unknown,
}

/// The role of a partition.
#[derive(Clone, Copy, Debug, PartialEq, Eq, Structural)]
pub enum PartitionType {
    ProtectiveMbr,
    Esp,
    MicrosoftBasicData,
    LinuxFilesystem,
    LinuxSwap,
    Unknown,
}

/// The characters of an optional string.
pub open spec fn opt_str(o: Option<String>) -> Option<Seq<char>> {
    match o {
        Some(s) => Some(s@),
        None => None,
    }
}

/// Copies an optional string.
pub fn copy_opt_string(o: &Option<String>) -> (r: Option<String>)
    ensures
        opt_str(r) == opt_str(*o),
{
    match o {
        Some(s) => Some(s.clone()),
        None => None,
    }
}

/// One partition of a table read from a disk.
#[derive(Clone, Debug)]
pub struct PartitionEntry {
    pub index: u32,
    pub name: String,
    pub start_lba: u64,
    pub end_lba: u64,
    pub size_bytes: u64,
    pub partition_type: PartitionType,
    pub type_guid: Option<[u8; 16]>,
    pub partition_guid: Option<[u8; 16]>,
    pub filesystem: Option<String>,
    pub mount_point: Option<String>,
    pub bootable: bool,
    pub active: bool,
}

/// The view of a [`PartitionEntry`].
pub struct PartitionEntryView {
    pub index: u32,
    pub name: Seq<char>,
    pub start_lba: u64,
    pub end_lba: u64,
    pub size_bytes: u64,
    pub partition_type: PartitionType,
    pub type_guid: Option<[u8; 16]>,
    pub partition_guid: Option<[u8; 16]>,
    pub filesystem: Option<Seq<char>>,
    pub mount_point: Option<Seq<char>>,
    pub bootable: bool,
    pub active: bool,
}

impl View for PartitionEntry {
    type V = PartitionEntryView;

    open spec fn view(&self) -> PartitionEntryView {
        PartitionEntryView {
            index: self.index,
            name: self.name@,
            start_lba: self.start_lba,
            end_lba: self.end_lba,
            size_bytes: self.size_bytes,
            partition_type: self.partition_type,
            type_guid: self.type_guid,
            partition_guid: self.partition_guid,
            filesystem: opt_str(self.filesystem),
            mount_point: opt_str(self.mount_point),
            bootable: self.bootable,
            active: self.active,
        }
    }
}

/// The partition table of a disk.
#[derive(Clone, Debug)]
pub struct PartitionTable {
    pub kind: PartitionTableKind,
    pub boot_mode: BootMode,
    pub partitions: Vec<PartitionEntry>,
    pub disk_guid: Option<[u8; 16]>,
    pub warnings: Vec<String>,
}

/// What is known of a disk or image.
#[derive(Clone, Debug)]
pub struct DiskInfo {
    pub path: String,
    pub size_bytes: u64,
    pub logical_sector_size: SectorSize,
    pub physical_sector_size: Option<SectorSize>,
    pub model: Option<String>,
    pub serial: Option<String>,
    pub removable: bool,
    pub read_only: bool,
}

/// The view of a [`DiskInfo`].
pub struct DiskInfoView {
    pub path: Seq<char>,
    pub size_bytes: u64,
    pub logical_sector_size: SectorSize,
    pub physical_sector_size: Option<SectorSize>,
    pub model: Option<Seq<char>>,
    pub serial: Option<Seq<char>>,
    pub removable: bool,
    pub read_only: bool,
}

impl View for DiskInfo {
    type V = DiskInfoView;

    open spec fn view(&self) -> DiskInfoView {
        DiskInfoView {
            path: self.path@,
            size_bytes: self.size_bytes,
            logical_sector_size: self.logical_sector_size,
            physical_sector_size: self.physical_sector_size,
            model: opt_str(self.model),
            serial: opt_str(self.serial),
            removable: self.removable,
            read_only: self.read_only,
        }
    }
}

impl DiskInfo {
    /// A copy with the same view.
    pub fn duplicate(&self) -> (r: DiskInfo)
        ensures
            r@ == self@,
    {
        DiskInfo {
            path: self.path.clone(),
            size_bytes: self.size_bytes,
            logical_sector_size: self.logical_sector_size,
            physical_sector_size: self.physical_sector_size,
            model: copy_opt_string(&self.model),
            serial: copy_opt_string(&self.serial),
            removable: self.removable,
            read_only: self.read_only,
        }
    }
}

/// One partition of a planned layout.
#[derive(Clone, Debug)]
pub struct PartitionDraft {
    pub name: String,
    pub start_lba: u64,
    pub size_bytes: u64,
    pub partition_type: PartitionType,
    pub filesystem: Option<String>,
    pub mount_point: Option<String>,
    pub note: Option<String>,
    pub flags: Vec<String>,
}

/// The view of a [`PartitionDraft`].
pub struct PartitionDraftView {
    pub name: Seq<char>,
    pub start_lba: u64,
    pub size_bytes: u64,
    pub partition_type: PartitionType,
    pub filesystem: Option<Seq<char>>,
    pub mount_point: Option<Seq<char>>,
    pub note: Option<Seq<char>>,
    pub flags: Seq<Seq<char>>,
}

impl View for PartitionDraft {
    type V = PartitionDraftView;

    open spec fn view(&self) -> PartitionDraftView {
        PartitionDraftView {
            name: self.name@,
            start_lba: self.start_lba,
            size_bytes: self.size_bytes,
            partition_type: self.partition_type,
            filesystem: opt_str(self.filesystem),
            mount_point: opt_str(self.mount_point),
            note: opt_str(self.note),
            flags: self.flags@.map_values(|s: String| s@),
        }
    }
}

/// A planned partition layout for a disk.
#[derive(Clone, Debug)]
pub struct LayoutDraft {
    pub template_name: String,
    pub display_name: String,
    pub table: PartitionTableKind,
    pub boot_mode: BootMode,
    pub partitions: Vec<PartitionDraft>,
}

/// The view of a [`LayoutDraft`].
pub struct LayoutDraftView {
    pub template_name: Seq<char>,
    pub display_name: Seq<char>,
    pub table: PartitionTableKind,
    pub boot_mode: BootMode,
    pub partitions: Seq<PartitionDraftView>,
}

impl View for LayoutDraft {
    type V = LayoutDraftView;

    open spec fn view(&self) -> LayoutDraftView {
        LayoutDraftView {
            template_name: self.template_name@,
            display_name: self.display_name@,
            table: self.table,
            boot_mode: self.boot_mode,
            partitions: self.partitions@.map_values(|p: PartitionDraft| p@),
        }
    }
}

/// The disk a write goes to, with what is planned for it.
#[derive(Clone, Debug)]
pub struct ChangePlan {
    pub disk_path: String,
    pub layout: LayoutDraft,
    pub backup_path: Option<String>,
    pub dry_run: bool,
}

} // verus!
