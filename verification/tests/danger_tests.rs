use rspfdisk::model::{DiskInfo, SectorSize};
use rspfdisk::safety::{
    assess_disk, block_device_key, device_key, root_device_from_mounts, validate_write_risk, DevicePathKind,
    DeviceProbe, RiskLevel, SafetyError,
};

fn sample_info(removable: bool) -> DiskInfo {
    DiskInfo {
        path: "/dev/sdb".to_string(),
        size_bytes: 64 * 1024 * 1024 * 1024,
        logical_sector_size: SectorSize::S512,
        physical_sector_size: Some(SectorSize::S512),
        model: Some("USB Disk".to_string()),
        serial: Some("ABC".to_string()),
        removable,
        read_only: false,
    }
}

fn image_probe() -> DeviceProbe {
    DeviceProbe { kind: DevicePathKind::ImageFile, whole_disk: false, root_device: None }
}

fn block_probe(whole_disk: bool) -> DeviceProbe {
    DeviceProbe {
        kind: DevicePathKind::LinuxBlockDevice,
        whole_disk,
        root_device: Some("/dev/nvme0n1p2".to_string()),
    }
}

#[test]
fn image_is_low_risk() {
    let info = DiskInfo { path: "test.img".to_string(), ..sample_info(true) };
    let risk = assess_disk("test.img", &info, &image_probe());
    assert!(risk.is_image);
    assert_eq!(risk.level, RiskLevel::Low);
    assert!(risk.write_allowed);
}

#[test]
fn fixed_disk_is_high_risk() {
    let info = sample_info(false);
    let risk = assess_disk("/dev/sda", &info, &block_probe(true));
    assert_eq!(risk.level, RiskLevel::High);
    assert!(!risk.is_image);
}

#[test]
fn partition_write_blocked() {
    let info = sample_info(true);
    let risk = assess_disk("/dev/sdb1", &info, &block_probe(false));
    assert_eq!(risk.level, RiskLevel::Critical);
    assert!(!risk.write_allowed);
    assert!(validate_write_risk("/dev/sdb1", &info, &block_probe(false), false).is_err());
}

#[test]
fn removable_whole_disk_write_allowed() {
    let info = sample_info(true);
    let risk = validate_write_risk("/dev/sdb", &info, &block_probe(true), false).unwrap();
    assert!(risk.write_allowed);
    assert!(risk.is_removable);
}

#[test]
fn warnings_follow_the_checks() {
    let info = sample_info(true);
    let risk = assess_disk("/dev/sdb1", &info, &block_probe(false));
    assert_eq!(risk.warnings, vec!["可卸除媒體".to_string(), "路徑不是整顆磁碟節點，寫入已封鎖".to_string()]);
    match validate_write_risk("/dev/sdb1", &info, &block_probe(false), false) {
        Err(SafetyError::WriteNotAllowed(text)) => {
            assert_eq!(text, "可卸除媒體; 路徑不是整顆磁碟節點，寫入已封鎖")
        }
        other => panic!("unexpected {other:?}"),
    }
    let fixed = assess_disk("/dev/sda", &sample_info(false), &block_probe(true));
    assert_eq!(fixed.warnings, vec!["固定式磁碟：寫入可能影響系統資料".to_string()]);
}

#[test]
fn read_only_device_is_critical() {
    let info = DiskInfo { read_only: true, ..sample_info(true) };
    let risk = assess_disk("/dev/sdb", &info, &block_probe(true));
    assert_eq!(risk.level, RiskLevel::Critical);
    assert!(!risk.write_allowed);
    assert!(risk.warnings.contains(&"裝置目前為唯讀".to_string()));
}

#[test]
fn system_disk_needs_accepted_risk() {
    let info = sample_info(false);
    let probe = DeviceProbe {
        kind: DevicePathKind::LinuxBlockDevice,
        whole_disk: true,
        root_device: Some("/dev/nvme0n1p2".to_string()),
    };
    let risk = assess_disk("/dev/nvme0n1", &info, &probe);
    assert!(risk.is_system_disk);
    assert_eq!(risk.level, RiskLevel::Critical);
    assert!(matches!(
        validate_write_risk("/dev/nvme0n1", &info, &probe, false),
        Err(SafetyError::SystemDiskBlocked)
    ));
    assert!(validate_write_risk("/dev/nvme0n1", &info, &probe, true).is_ok());
}

#[test]
fn block_device_keys() {
    assert_eq!(block_device_key("/dev/nvme0n1p2"), "nvme0n1");
    assert_eq!(block_device_key("/dev/nvme0n1"), "nvme0n1");
    assert_eq!(block_device_key("/dev/mmcblk0p1"), "mmcblk0");
    assert_eq!(block_device_key("/dev/sda1"), "sda1");
    assert_eq!(block_device_key("/dev/sdp"), "sd");
    assert_eq!(block_device_key("/dev/loop0"), "loop0");
    assert_eq!(block_device_key("/"), "/");
}

#[test]
fn root_device_from_mount_table() {
    let mounts = "proc /proc proc rw 0 0\n/dev/nvme0n1p2 / ext4 rw,relatime 0 0\ntmpfs /tmp tmpfs rw 0 0\n";
    assert_eq!(root_device_from_mounts(mounts), "/dev/nvme0n1p2");
    assert_eq!(root_device_from_mounts("proc /proc proc rw 0 0"), "");
    assert_eq!(root_device_from_mounts(""), "");
    assert_eq!(root_device_from_mounts("  /dev/sda1\t/  ext4\r\n"), "/dev/sda1");
}

#[test]
fn device_keys_of_names() {
    assert_eq!(device_key("nvme1n1p3"), "nvme1n1");
    assert_eq!(device_key("vdb2"), "vdb2");
    assert_eq!(device_key("vdp1"), "vd");
    assert_eq!(device_key("mmcblk1"), "mmcblk1");
    assert_eq!(device_key(""), "");
}

#[test]
fn partition_and_whole_disk_share_key() {
    for (a, b, k) in [("0", "1", "2"), ("12", "3", "10"), ("7", "42", "1")] {
        let disk = format!("nvme{a}n{b}");
        assert_eq!(device_key(&format!("{disk}p{k}")), disk);
        assert_eq!(device_key(&disk), disk);
        let mmc = format!("mmcblk{a}");
        assert_eq!(device_key(&format!("{mmc}p{k}")), mmc);
        assert_eq!(device_key(&mmc), mmc);
    }
}
