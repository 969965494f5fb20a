use rspfdisk::model::{BootMode, ChangePlan, DiskInfo, LayoutDraft, PartitionTableKind, SectorSize};
use rspfdisk::safety::{
    confirm_write, disk_confirmation_phrase, is_image_path, name_extension, path_extension, ConfirmationOptions, DevicePathKind,
    DeviceProbe, SafetyError,
};
use rspfdisk::token::{hash_str, WriteToken};

fn sample_info(path: &str) -> DiskInfo {
    DiskInfo {
        path: path.to_string(),
        size_bytes: 8 * 1024 * 1024 * 1024,
        logical_sector_size: SectorSize::S512,
        physical_sector_size: Some(SectorSize::S512),
        model: None,
        serial: None,
        removable: true,
        read_only: false,
    }
}

fn sample_plan(path: &str) -> ChangePlan {
    ChangePlan {
        disk_path: path.to_string(),
        layout: LayoutDraft {
            template_name: "test".to_string(),
            display_name: "Test".to_string(),
            table: PartitionTableKind::Gpt,
            boot_mode: BootMode::Uefi,
            partitions: vec![],
        },
        backup_path: None,
        dry_run: false,
    }
}

fn probe_for(path: &str) -> DeviceProbe {
    if path.ends_with(".img") {
        DeviceProbe { kind: DevicePathKind::ImageFile, whole_disk: false, root_device: None }
    } else {
        DeviceProbe { kind: DevicePathKind::LinuxBlockDevice, whole_disk: true, root_device: None }
    }
}

const PLAN_JSON: &str = "{\"disk_path\":\"test\"}";

#[test]
fn no_write_flag_denied() {
    let plan = sample_plan("test.img");
    let opts = ConfirmationOptions {
        write: false,
        dry_run: true,
        image_confirmed: false,
        confirmation_phrase: None,
        backup_path: None,
        accept_system_disk_risk: false,
    };
    assert!(confirm_write(&plan, &opts, &sample_info("test.img"), &probe_for("test.img"), PLAN_JSON).is_err());
}

#[test]
fn image_write_requires_confirmation_flag() {
    let plan = sample_plan("test.img");
    let opts = ConfirmationOptions {
        write: true,
        dry_run: false,
        image_confirmed: false,
        confirmation_phrase: None,
        backup_path: None,
        accept_system_disk_risk: false,
    };
    assert!(confirm_write(&plan, &opts, &sample_info("test.img"), &probe_for("test.img"), PLAN_JSON).is_err());
}

#[test]
fn image_write_with_flags_succeeds() {
    let plan = sample_plan("test.img");
    let opts = ConfirmationOptions {
        write: true,
        dry_run: false,
        image_confirmed: true,
        confirmation_phrase: None,
        backup_path: Some("backup.rspbak".to_string()),
        accept_system_disk_risk: false,
    };
    assert!(confirm_write(&plan, &opts, &sample_info("test.img"), &probe_for("test.img"), PLAN_JSON).is_ok());
}

#[test]
fn real_disk_requires_confirm_phrase() {
    let plan = sample_plan("/dev/sdb");
    let info = sample_info("/dev/sdb");
    let opts = ConfirmationOptions {
        write: true,
        dry_run: false,
        image_confirmed: false,
        confirmation_phrase: None,
        backup_path: Some("backup.rspbak".to_string()),
        accept_system_disk_risk: false,
    };
    assert!(confirm_write(&plan, &opts, &info, &probe_for("/dev/sdb"), PLAN_JSON).is_err());
}

#[test]
fn real_disk_with_phrase_succeeds() {
    let plan = sample_plan("/dev/sdb");
    let info = sample_info("/dev/sdb");
    let opts = ConfirmationOptions {
        write: true,
        dry_run: false,
        image_confirmed: false,
        confirmation_phrase: Some("sdb".to_string()),
        backup_path: Some("backup.rspbak".to_string()),
        accept_system_disk_risk: false,
    };
    assert!(confirm_write(&plan, &opts, &info, &probe_for("/dev/sdb"), PLAN_JSON).is_ok());
}

#[test]
fn wrong_phrase_denied() {
    let plan = sample_plan("/dev/sda");
    let info = sample_info("/dev/sda");
    let opts = ConfirmationOptions {
        write: true,
        dry_run: false,
        image_confirmed: false,
        confirmation_phrase: Some("wrong".to_string()),
        backup_path: Some("backup.rspbak".to_string()),
        accept_system_disk_risk: true,
    };
    assert!(confirm_write(&plan, &opts, &info, &probe_for("/dev/sda"), PLAN_JSON).is_err());
}

#[test]
fn disk_phrase_from_path() {
    assert_eq!(disk_confirmation_phrase("/dev/nvme0n1"), "nvme0n1");
}

fn opts(phrase: Option<&str>, image_confirmed: bool, backup: bool) -> ConfirmationOptions {
    ConfirmationOptions {
        write: true,
        dry_run: false,
        image_confirmed,
        confirmation_phrase: phrase.map(|p| p.to_string()),
        backup_path: if backup { Some("b.rspbak".to_string()) } else { None },
        accept_system_disk_risk: false,
    }
}

#[test]
fn each_refusal_names_its_reason() {
    let img = sample_plan("disk.IMG");
    let info = sample_info("disk.IMG");
    let p = probe_for("disk.img");
    let dry = ConfirmationOptions { dry_run: true, ..opts(None, true, true) };
    assert!(matches!(confirm_write(&img, &dry, &info, &p, PLAN_JSON), Err(SafetyError::WriteFlagRequired)));
    assert!(matches!(
        confirm_write(&img, &opts(None, false, true), &info, &p, PLAN_JSON),
        Err(SafetyError::ImageConfirmationRequired)
    ));
    assert!(matches!(
        confirm_write(&img, &opts(None, true, false), &info, &p, PLAN_JSON),
        Err(SafetyError::BackupRequired)
    ));
    assert!(matches!(
        confirm_write(&img, &opts(Some("disk.img"), true, true), &info, &p, PLAN_JSON),
        Err(SafetyError::PhraseMismatch)
    ));
    assert!(confirm_write(&img, &opts(Some("disk.IMG"), true, true), &info, &p, PLAN_JSON).is_ok());
    let real = sample_plan("/dev/sdb");
    let rinfo = sample_info("/dev/sdb");
    assert!(matches!(
        confirm_write(&real, &opts(None, false, true), &rinfo, &probe_for("/dev/sdb"), PLAN_JSON),
        Err(SafetyError::RealDiskConfirmRequired)
    ));
    let part = DeviceProbe { kind: DevicePathKind::LinuxBlockDevice, whole_disk: false, root_device: None };
    assert!(matches!(
        confirm_write(&sample_plan("/dev/sdb1"), &opts(Some("sdb1"), false, true), &rinfo, &part, PLAN_JSON),
        Err(SafetyError::WriteNotAllowed(_))
    ));
}

#[test]
fn token_carries_hashes() {
    let plan = sample_plan("/dev/sdb");
    let info = sample_info("/dev/sdb");
    let t = confirm_write(&plan, &opts(Some("sdb"), false, true), &info, &probe_for("/dev/sdb"), PLAN_JSON)
        .unwrap();
    assert_eq!(t.disk_id, "/dev/sdb");
    assert_eq!(t.backup_id.as_deref(), Some("b.rspbak"));
    assert_eq!(t.confirmation_hash, hash_str("sdb"));
    assert_eq!(t.change_plan_hash, hash_str(PLAN_JSON));
    let image = confirm_write(
        &sample_plan("a.img"),
        &opts(None, true, true),
        &sample_info("a.img"),
        &probe_for("a.img"),
        PLAN_JSON,
    )
    .unwrap();
    assert_eq!(image.confirmation_hash, hash_str("image"));
}

#[test]
fn sha256_hex_of_known_text() {
    assert_eq!(hash_str("abc"), "ba7816bf8f01cfea414140de5dae2223b00361a396177a9cb410ff61f20015ad");
    assert_eq!(hash_str(""), "e3b0c44298fc1c149afbf4c8996fb92427ae41e4649b934ca495991b7852b855");
    let t = WriteToken::new("d".to_string(), None, "abc", "");
    assert_eq!(t.confirmation_hash.len(), 64);
    assert!(t.timestamp.is_some_and(|ts| ts.secs > 0 && ts.nanos < 1_000_000_000));
}

#[test]
fn image_paths_by_extension() {
    assert!(is_image_path("test.img"));
    assert!(is_image_path("/tmp/Disk.ImG"));
    assert!(!is_image_path("/dev/sda"));
    assert!(!is_image_path(".img"));
    assert!(!is_image_path("img"));
    assert!(!is_image_path("a.img.bak"));
    assert_eq!(disk_confirmation_phrase("/"), "/");
    assert_eq!(disk_confirmation_phrase("/tmp/x.img/"), "x.img");
}

#[test]
fn extensions_of_names() {
    assert_eq!(name_extension("a.tar.gz").as_deref(), Some("gz"));
    assert_eq!(name_extension(".bashrc"), None);
    assert_eq!(name_extension("noext"), None);
    assert_eq!(name_extension("trailing.").as_deref(), Some(""));
    assert_eq!(path_extension("/images/disk.img").as_deref(), Some("img"));
    assert_eq!(path_extension("/"), None);
}

#[test]
fn phrase_of_a_phrase_is_itself() {
    for path in ["/dev/nvme0n1", "/dev/sda", "images/disk.img", "disk.img", "/tmp/x.img/", "/"] {
        let phrase = disk_confirmation_phrase(path);
        assert_eq!(disk_confirmation_phrase(&phrase), phrase);
    }
}

#[test]
fn plain_names_after_the_last_slash() {
    assert_eq!(disk_confirmation_phrase("/dev/mmcblk0p1"), "mmcblk0p1");
    assert_eq!(disk_confirmation_phrase("relative/dir/target.IMG"), "target.IMG");
    assert_eq!(path_extension("a/b.c/d.img").as_deref(), Some("img"));
    assert!(is_image_path("/tmp/Disk.Img"));
}

#[test]
fn write_token_time_stamp_is_well_formed() {
    let t = WriteToken::new("d".to_string(), None, "p", "{}");
    if let Some(ts) = t.timestamp {
        assert!(ts.nanos < 1_000_000_000);
        assert!(ts.secs > 0);
    }
}
