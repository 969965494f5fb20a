use rspfdisk::model::{
    BootMode, DiskInfo, LayoutDraft, PartitionDraft, PartitionEntry, PartitionTableKind,
    PartitionType, SectorSize,
};
use rspfdisk::safety::disk_confirmation_phrase;
use rspfdisk::tui::{
    backup_checked, backup_finished, disks_scanned, handle_backup_confirm, handle_disk_list,
    handle_guided_scenario, handle_key, handle_main, handle_part_table, handle_preview,
    handle_quick_layout, handle_size_editor, handle_write_confirm, image_path_checked,
    next_screen_after_target_selection, quit_requested, size_parsed, target_inspected,
    verify_written_layout, write_finished, write_target_checked, BackupOutcome, InspectOutcome,
};
use rspfdisk::tui_state::{
    AppState, BackupCheckFrom, Effect, GuidedScenario, InspectPurpose, Key, ScanPurpose, Screen,
};

fn test_state() -> AppState {
    AppState {
        screen: Screen::Main,
        disks: vec![],
        disk_index: 0,
        selected_disk: Some("/dev/test".into()),
        selected_disk_info: None,
        partitions_text: String::new(),
        templates: vec![
            "windows_uefi_standard".into(),
            "windows_uefi_dual_boot".into(),
            "linux_ext4_standard".into(),
        ],
        guided_index: 0,
        selected_template: String::new(),
        template_index: 0,
        draft: None,
        preview_text: String::new(),
        confirm_input: String::new(),
        confirm_phrase: String::new(),
        confirm_error: None,
        message: String::new(),
        image_path_input: String::new(),
        editing_image_path: false,
        log_lines: Vec::new(),
        editor_selected: 0,
        editor_input: String::new(),
        editor_error: None,
        backup_status: String::new(),
        backup_path: None,
    }
}

fn test_disk(path: &str) -> DiskInfo {
    DiskInfo {
        path: path.into(),
        size_bytes: 64 * 1024 * 1024,
        logical_sector_size: SectorSize::S512,
        physical_sector_size: Some(SectorSize::S512),
        model: None,
        serial: None,
        removable: true,
        read_only: false,
    }
}

fn part(name: &str, start_lba: u64, size_bytes: u64, partition_type: PartitionType, fs: &str) -> PartitionDraft {
    PartitionDraft {
        name: name.into(),
        start_lba,
        size_bytes,
        partition_type,
        filesystem: Some(fs.into()),
        mount_point: None,
        note: None,
        flags: vec![],
    }
}

fn test_draft() -> LayoutDraft {
    LayoutDraft {
        template_name: "test".into(),
        display_name: "Test".into(),
        table: PartitionTableKind::Gpt,
        boot_mode: BootMode::Uefi,
        partitions: vec![
            part("EFI System", 2048, 512 * 1024 * 1024, PartitionType::Esp, "fat32"),
            part("Linux Root", 2064, 80 * 1024 * 1024 * 1024, PartitionType::LinuxFilesystem, "ext4"),
            part(
                "Linux Swap",
                2064 + (80 * 1024 * 1024 * 1024 / 512),
                8 * 1024 * 1024 * 1024,
                PartitionType::LinuxSwap,
                "swap",
            ),
        ],
    }
}

fn type_text(state: &mut AppState, text: &str, handler: fn(&mut AppState, Key) -> Effect) {
    for c in text.chars() {
        handler(state, Key::Char(c));
    }
}

#[test]
fn new_app_starts_in_guided_scenario() {
    let state = AppState::new(vec![]);

    assert_eq!(state.screen, Screen::GuidedScenario);
    assert_eq!(state.guided_index, 0);
    assert!(state.templates.iter().any(|name| name == "multiboot_windows_linux"));
}

#[test]
fn disk_list_cursor_selects_the_highlighted_disk() {
    let mut state = test_state();
    state.screen = Screen::DiskList;
    state.selected_disk = None;
    state.disks = vec![test_disk("first.img"), test_disk("second.img")];

    handle_disk_list(&mut state, Key::Down);
    assert_eq!(state.disk_index, 1);

    handle_disk_list(&mut state, Key::Enter);
    assert_eq!(state.selected_disk.as_deref(), Some("second.img"));
}

#[test]
fn disk_list_cursor_stays_within_bounds() {
    let mut state = test_state();
    state.screen = Screen::DiskList;
    state.disks = vec![test_disk("only.img")];

    handle_disk_list(&mut state, Key::Up);
    handle_disk_list(&mut state, Key::Down);

    assert_eq!(state.disk_index, 0);
}

#[test]
fn disk_list_blocks_guided_flow_when_inspection_fails() {
    let image_path = "/tmp/rspfdisk-malformed.img".to_string();
    let mut state = test_state();
    state.screen = Screen::DiskList;
    state.selected_disk = None;
    state.selected_template = "windows_uefi_standard".into();
    state.editing_image_path = true;
    state.image_path_input = image_path.clone();

    let effect = handle_disk_list(&mut state, Key::Enter);
    assert!(matches!(effect, Effect::CheckImagePath(ref p) if *p == image_path));
    let effect = image_path_checked(&mut state, true);
    assert!(matches!(effect, Effect::InspectTarget(_, InspectPurpose::ImageChosen)));
    target_inspected(
        &mut state,
        InspectOutcome::ParseFailed(test_disk(&image_path), "GPT 簽章錯誤".to_string()),
        InspectPurpose::ImageChosen,
    );

    assert_eq!(state.screen, Screen::DiskList);
    assert!(state.message.contains("無法解析分割表"));
}

#[test]
fn guided_scenarios_map_to_stable_template_names() {
    assert_eq!(GuidedScenario::Windows.template_name(), "windows_uefi_standard");
    assert_eq!(GuidedScenario::Linux.template_name(), "linux_ext4_standard");
    assert_eq!(GuidedScenario::Macos.template_name(), "macos_apfs_target");
    assert_eq!(GuidedScenario::Multiboot.template_name(), "multiboot_windows_linux");
}

#[test]
fn guided_scenario_down_and_enter_select_multiboot_template() {
    let mut state = test_state();
    state.screen = Screen::GuidedScenario;

    for _ in 0..3 {
        handle_guided_scenario(&mut state, Key::Down);
    }
    assert_eq!(state.guided_index, 3);

    handle_guided_scenario(&mut state, Key::Enter);

    assert_eq!(state.screen, Screen::QuickLayout);
    assert_eq!(state.selected_template, "multiboot_windows_linux");
    assert_eq!(state.templates[state.template_index], "multiboot_windows_linux");
}

#[test]
fn guided_scenario_number_selects_windows_template() {
    let mut state = test_state();
    state.screen = Screen::GuidedScenario;

    handle_guided_scenario(&mut state, Key::Char('1'));

    assert_eq!(state.screen, Screen::QuickLayout);
    assert_eq!(state.selected_template, "windows_uefi_standard");
    assert_eq!(state.template_index, 0);
}

#[test]
fn guided_scenario_requires_target_before_layout() {
    let mut state = test_state();
    state.screen = Screen::GuidedScenario;
    state.selected_disk = None;

    let effect = handle_guided_scenario(&mut state, Key::Char('1'));
    assert!(matches!(effect, Effect::ScanDisks(ScanPurpose::Open)));
    disks_scanned(&mut state, vec![], ScanPurpose::Open);

    assert_eq!(state.screen, Screen::DiskList);
    assert_eq!(state.selected_template, "windows_uefi_standard");
    assert!(state.message.contains("請先選擇"));
}

#[test]
fn guided_target_selection_continues_to_selected_layout() {
    let mut state = test_state();
    state.selected_template = "linux_ext4_standard".into();

    assert_eq!(next_screen_after_target_selection(&state), Screen::QuickLayout);

    state.selected_template.clear();
    assert_eq!(next_screen_after_target_selection(&state), Screen::PartTable);
}

#[test]
fn guided_scenario_a_opens_advanced_template_list() {
    let mut state = test_state();
    state.screen = Screen::GuidedScenario;
    state.guided_index = 2;

    handle_guided_scenario(&mut state, Key::Char('a'));

    assert_eq!(state.screen, Screen::QuickLayout);
    assert_eq!(state.template_index, 0);
    assert!(state.selected_template.is_empty());
}

#[test]
fn main_screen_f_key_goes_to_quick_layout() {
    let mut state = test_state();
    handle_main(&mut state, Key::Char('f'));
    assert_eq!(state.screen, Screen::QuickLayout);
    assert_eq!(state.template_index, 0);
}

#[test]
fn main_screen_upper_f_goes_to_quick_layout() {
    let mut state = test_state();
    handle_main(&mut state, Key::Char('F'));
    assert_eq!(state.screen, Screen::QuickLayout);
}

#[test]
fn main_screen_q_does_not_change_screen() {
    let mut state = test_state();
    state.screen = Screen::Main;
    handle_main(&mut state, Key::Char('q'));
    assert_eq!(state.screen, Screen::Main);
}

#[test]
fn main_screen_2_without_selection_shows_message() {
    let mut state = test_state();
    state.selected_disk = None;
    handle_main(&mut state, Key::Char('2'));
    assert_eq!(state.screen, Screen::Main);
    assert!(!state.message.is_empty());
}

#[test]
fn quick_layout_down_selects_next_template() {
    let mut state = test_state();
    state.screen = Screen::QuickLayout;
    assert_eq!(state.template_index, 0);
    handle_quick_layout(&mut state, Key::Down);
    assert_eq!(state.template_index, 1);
    handle_quick_layout(&mut state, Key::Down);
    assert_eq!(state.template_index, 2);
}

#[test]
fn quick_layout_up_does_not_go_below_zero() {
    let mut state = test_state();
    state.screen = Screen::QuickLayout;
    handle_quick_layout(&mut state, Key::Up);
    assert_eq!(state.template_index, 0);
}

#[test]
fn quick_layout_down_stays_within_bounds() {
    let mut state = test_state();
    state.screen = Screen::QuickLayout;
    state.template_index = state.templates.len() - 1;
    handle_quick_layout(&mut state, Key::Down);
    assert_eq!(state.template_index, state.templates.len() - 1);
}

#[test]
fn quick_layout_jk_keys_navigate() {
    let mut state = test_state();
    state.screen = Screen::QuickLayout;
    handle_quick_layout(&mut state, Key::Char('j'));
    assert_eq!(state.template_index, 1);
    handle_quick_layout(&mut state, Key::Char('k'));
    assert_eq!(state.template_index, 0);
}

#[test]
fn quick_layout_esc_returns_to_main() {
    let mut state = test_state();
    state.screen = Screen::QuickLayout;
    handle_quick_layout(&mut state, Key::Esc);
    assert_eq!(state.screen, Screen::Main);
}

#[test]
fn preview_e_key_goes_to_size_editor() {
    let mut state = test_state();
    state.screen = Screen::Preview;
    state.draft = Some(test_draft());
    handle_preview(&mut state, Key::Char('e'));
    assert_eq!(state.screen, Screen::SizeEditor);
    assert_eq!(state.editor_selected, 0);
}

#[test]
fn preview_e_key_no_draft_stays() {
    let mut state = test_state();
    state.screen = Screen::Preview;
    state.draft = None;
    handle_preview(&mut state, Key::Char('e'));
    assert_eq!(state.screen, Screen::Preview);
}

#[test]
fn preview_b_key_goes_to_backup_confirm() {
    let mut state = test_state();
    state.screen = Screen::Preview;
    handle_preview(&mut state, Key::Char('b'));
    assert_eq!(state.screen, Screen::BackupConfirm);
    assert_eq!(state.backup_status, "尚未備份");
}

#[test]
fn preview_w_key_requires_backup_first() {
    let mut state = test_state();
    state.screen = Screen::Preview;
    handle_preview(&mut state, Key::Char('w'));
    assert_eq!(state.screen, Screen::BackupConfirm);
    assert!(state.backup_status.contains("必須先建立備份"));
}

#[test]
fn preview_esc_returns_to_quick_layout() {
    let mut state = test_state();
    state.screen = Screen::Preview;
    handle_preview(&mut state, Key::Esc);
    assert_eq!(state.screen, Screen::QuickLayout);
}

#[test]
fn size_editor_up_down_selects_partition() {
    let mut state = test_state();
    state.screen = Screen::SizeEditor;
    state.draft = Some(test_draft());
    assert_eq!(state.editor_selected, 0);
    handle_size_editor(&mut state, Key::Down);
    assert_eq!(state.editor_selected, 1);
    handle_size_editor(&mut state, Key::Down);
    assert_eq!(state.editor_selected, 2);
    handle_size_editor(&mut state, Key::Up);
    assert_eq!(state.editor_selected, 1);
}

#[test]
fn size_editor_up_stays_within_bounds() {
    let mut state = test_state();
    state.screen = Screen::SizeEditor;
    state.draft = Some(test_draft());
    handle_size_editor(&mut state, Key::Up);
    assert_eq!(state.editor_selected, 0);
}

#[test]
fn size_editor_down_stays_within_bounds() {
    let mut state = test_state();
    state.screen = Screen::SizeEditor;
    state.draft = Some(test_draft());
    state.editor_selected = 2;
    handle_size_editor(&mut state, Key::Down);
    assert_eq!(state.editor_selected, 2);
}

#[test]
fn size_editor_esc_returns_to_preview() {
    let mut state = test_state();
    state.screen = Screen::SizeEditor;
    state.draft = Some(test_draft());
    handle_size_editor(&mut state, Key::Esc);
    assert_eq!(state.screen, Screen::Preview);
}

#[test]
fn size_editor_applies_new_size() {
    let mut state = test_state();
    state.screen = Screen::SizeEditor;
    state.draft = Some(test_draft());
    type_text(&mut state, "100GiB", handle_size_editor);
    assert_eq!(state.editor_input, "100GiB");
    let effect = handle_size_editor(&mut state, Key::Enter);
    assert!(matches!(effect, Effect::ParseSize(ref s) if s == "100GiB"));
    let effect = size_parsed(&mut state, Ok(100 * 1024 * 1024 * 1024));
    assert!(matches!(effect, Effect::RenderPreview));
    assert!(state.editor_input.is_empty());
    assert!(state.draft.is_some());
    if let Some(draft) = &state.draft {
        assert_eq!(draft.partitions[0].size_bytes, 100 * 1024 * 1024 * 1024);
    }
}

#[test]
fn size_editor_invalid_size_shows_error() {
    let mut state = test_state();
    state.screen = Screen::SizeEditor;
    state.draft = Some(test_draft());
    type_text(&mut state, "abc", handle_size_editor);
    let effect = handle_size_editor(&mut state, Key::Enter);
    assert!(matches!(effect, Effect::ParseSize(_)));
    size_parsed(&mut state, Err("invalid size: abc".to_string()));
    assert!(state.editor_error.is_some());
}

#[test]
fn write_confirm_correct_phrase_without_image_is_rejected() {
    let mut state = test_state();
    state.screen = Screen::WriteConfirm;
    state.confirm_phrase = "test-phrase".into();
    type_text(&mut state, "test-phrase", handle_write_confirm);
    let effect = handle_write_confirm(&mut state, Key::Enter);
    assert!(matches!(effect, Effect::CheckWriteTarget(ref d, None) if d == "/dev/test"));
    write_target_checked(&mut state, false, false);
    assert_eq!(state.screen, Screen::WriteConfirm);
    assert!(state
        .confirm_error
        .as_deref()
        .is_some_and(|error| error.contains("僅允許寫入一般 image")));
}

#[test]
fn write_confirm_writes_and_verifies_image() {
    let image = "/tmp/rspfdisk-tui.img".to_string();
    let mut state = test_state();
    state.screen = Screen::WriteConfirm;
    state.selected_disk = Some(image.clone());
    let draft = LayoutDraft {
        template_name: "tui-write-test".into(),
        display_name: "TUI write test".into(),
        table: PartitionTableKind::Gpt,
        boot_mode: BootMode::Uefi,
        partitions: vec![PartitionDraft {
            name: "Data".into(),
            start_lba: 2048,
            size_bytes: 8 * 1024 * 1024,
            partition_type: PartitionType::MicrosoftBasicData,
            filesystem: None,
            mount_point: None,
            note: None,
            flags: vec![],
        }],
    };
    state.draft = Some(draft.clone());
    state.backup_path = Some("/tmp/rspfdisk-tui.rspbak".to_string());
    state.confirm_phrase = disk_confirmation_phrase(&image);
    let phrase = state.confirm_phrase.clone();
    type_text(&mut state, &phrase, handle_write_confirm);

    let effect = handle_write_confirm(&mut state, Key::Enter);
    assert!(matches!(effect, Effect::CheckWriteTarget(_, Some(_))));
    let effect = write_target_checked(&mut state, true, true);
    assert!(matches!(effect, Effect::WriteImage(ref d, ref b) if *d == image && b == "/tmp/rspfdisk-tui.rspbak"));
    let read_back = vec![PartitionEntry {
        index: 0,
        name: "Data".into(),
        start_lba: 2048,
        end_lba: 2048 + 16384 - 1,
        size_bytes: 8 * 1024 * 1024,
        partition_type: PartitionType::MicrosoftBasicData,
        type_guid: None,
        partition_guid: None,
        filesystem: None,
        mount_point: None,
        bootable: false,
        active: false,
    }];
    write_finished(&mut state, verify_written_layout(&draft, &read_back));

    assert_eq!(state.screen, Screen::Main);
    assert!(state.confirm_error.is_none());
    assert!(state.message.contains("寫入完成並驗證 1 個分區"));
}

#[test]
fn write_confirm_wrong_phrase_shows_error() {
    let mut state = test_state();
    state.screen = Screen::WriteConfirm;
    state.confirm_phrase = "correct-phrase".into();
    type_text(&mut state, "wrong", handle_write_confirm);
    handle_write_confirm(&mut state, Key::Enter);
    assert_eq!(state.screen, Screen::WriteConfirm);
    assert!(state.confirm_error.is_some());
}

#[test]
fn write_confirm_empty_phrase_fails() {
    let mut state = test_state();
    state.screen = Screen::WriteConfirm;
    state.confirm_phrase = "required-phrase".into();
    handle_write_confirm(&mut state, Key::Enter);
    assert_eq!(state.screen, Screen::WriteConfirm);
    assert!(state.confirm_error.is_some());
}

#[test]
fn write_confirm_backspace_works() {
    let mut state = test_state();
    state.screen = Screen::WriteConfirm;
    state.confirm_phrase = "ab".into();
    type_text(&mut state, "abc", handle_write_confirm);
    handle_write_confirm(&mut state, Key::Backspace);
    handle_write_confirm(&mut state, Key::Backspace);
    assert_eq!(state.confirm_input, "a");
}

#[test]
fn write_confirm_esc_returns_to_preview() {
    let mut state = test_state();
    state.screen = Screen::WriteConfirm;
    handle_write_confirm(&mut state, Key::Esc);
    assert_eq!(state.screen, Screen::Preview);
    assert!(state.confirm_input.is_empty());
}

#[test]
fn backup_confirm_b_without_selection_shows_error() {
    let mut state = test_state();
    state.screen = Screen::BackupConfirm;
    state.selected_disk = None;
    handle_backup_confirm(&mut state, Key::Char('b'));
    assert!(!state.backup_status.is_empty());
}

#[test]
fn backup_confirm_w_without_backup_stays_on_screen() {
    let mut state = test_state();
    state.screen = Screen::BackupConfirm;
    handle_backup_confirm(&mut state, Key::Char('w'));
    assert_eq!(state.screen, Screen::BackupConfirm);
    assert!(state.backup_status.contains("有效備份"));
}

#[test]
fn part_table_f_goes_to_quick_layout() {
    let mut state = test_state();
    state.screen = Screen::PartTable;
    handle_part_table(&mut state, Key::Char('f'));
    assert_eq!(state.screen, Screen::QuickLayout);
}

#[test]
fn part_table_esc_returns_to_main() {
    let mut state = test_state();
    state.screen = Screen::PartTable;
    handle_part_table(&mut state, Key::Esc);
    assert_eq!(state.screen, Screen::Main);
}

#[test]
fn handle_key_dispatches_to_current_screen() {
    let mut state = test_state();
    state.screen = Screen::QuickLayout;
    handle_key(&mut state, Key::Esc);
    assert_eq!(state.screen, Screen::Main);

    handle_key(&mut state, Key::Char('f'));
    assert_eq!(state.screen, Screen::QuickLayout);
}

#[test]
fn resize_lays_partitions_back_to_back() {
    let mut state = test_state();
    state.screen = Screen::SizeEditor;
    state.draft = Some(test_draft());
    state.editor_selected = 1;
    size_parsed(&mut state, Ok(1000));
    let d = state.draft.as_ref().unwrap();
    assert_eq!(d.partitions[0].start_lba, 2048);
    assert_eq!(d.partitions[1].start_lba, 2048 + 1024 * 1024);
    assert_eq!(d.partitions[1].size_bytes, 1000);
    assert_eq!(d.partitions[2].start_lba, 2048 + 1024 * 1024 + 2);
    assert_eq!(state.log_lines.last().map(String::as_str), Some("分區 2 大小已更新"));
    size_parsed(&mut state, Ok(0));
    assert_eq!(state.editor_error.as_deref(), Some("大小必須大於 0"));
}

#[test]
fn backup_then_write_confirmation() {
    let mut state = test_state();
    state.screen = Screen::BackupConfirm;
    let effect = handle_backup_confirm(&mut state, Key::Char('b'));
    assert!(matches!(effect, Effect::CreateBackup(ref d, ref b) if d == "/dev/test" && b == "/dev/test.rspbak"));
    assert_eq!(state.backup_status, "備份中...");
    backup_finished(&mut state, BackupOutcome::Created("Gpt，12:00:00".to_string()));
    assert_eq!(state.backup_path.as_deref(), Some("/dev/test.rspbak"));
    assert_eq!(state.backup_status, "✅ 備份完成（Gpt，12:00:00）");
    let effect = handle_backup_confirm(&mut state, Key::Char('W'));
    assert!(matches!(effect, Effect::CheckBackupFile(ref p, BackupCheckFrom::BackupConfirm) if p == "/dev/test.rspbak"));
    backup_checked(&mut state, true, BackupCheckFrom::BackupConfirm);
    assert_eq!(state.screen, Screen::WriteConfirm);
    assert_eq!(state.confirm_phrase, "test");
}

#[test]
fn log_keeps_last_hundred_lines() {
    let mut state = test_state();
    for i in 0..105 {
        state.log(format!("line {i}"));
    }
    assert_eq!(state.log_lines.len(), 100);
    assert_eq!(state.log_lines[0], "line 5");
    assert_eq!(state.log_lines[99], "line 104");
}

#[test]
fn main_two_inspects_and_shows_table() {
    let mut state = test_state();
    let effect = handle_main(&mut state, Key::Char('2'));
    assert!(matches!(effect, Effect::InspectTarget(ref p, InspectPurpose::ShowTable) if p == "/dev/test"));
    target_inspected(
        &mut state,
        InspectOutcome::Inspected(test_disk("/dev/test"), "分割表類型: Gpt\n".to_string()),
        InspectPurpose::ShowTable,
    );
    assert_eq!(state.screen, Screen::PartTable);
    assert_eq!(state.partitions_text, "磁碟: /dev/test\n分割表類型: Gpt\n");
    assert!(state.message.is_empty());
    let mut other = test_state();
    handle_main(&mut other, Key::Char('2'));
    target_inspected(&mut other, InspectOutcome::OpenFailed("No such file".to_string()), InspectPurpose::ShowTable);
    assert_eq!(other.screen, Screen::Main);
    assert_eq!(other.message, "請先選取磁碟或 image！");
    assert_eq!(other.partitions_text, "無法開啟 /dev/test: No such file");
}

#[test]
fn quit_only_from_main() {
    let mut state = test_state();
    assert!(quit_requested(&state, Key::Char('q')));
    state.screen = Screen::Preview;
    assert!(!quit_requested(&state, Key::Char('q')));
}

#[test]
fn disk_scan_clamps_cursor() {
    let mut state = test_state();
    state.disk_index = 5;
    disks_scanned(&mut state, vec![test_disk("a.img"), test_disk("b.img")], ScanPurpose::Rescan);
    assert_eq!(state.disk_index, 1);
    assert_eq!(state.screen, Screen::Main);
    assert_eq!(state.log_lines.last().map(String::as_str), Some("重新掃描: 2 個裝置"));
}

#[test]
fn written_layout_mismatch_is_reported() {
    let draft = test_draft();
    assert_eq!(
        verify_written_layout(&draft, &vec![]),
        Err("讀回分區數量不符: 預期 3，實際 0".to_string())
    );
}

#[test]
fn keys_leave_draft_and_backup_alone() {
    let mut state = test_state();
    state.draft = Some(test_draft());
    state.backup_path = Some("/dev/test.rspbak".into());
    for screen in [Screen::Preview, Screen::SizeEditor, Screen::QuickLayout, Screen::WriteConfirm] {
        for key in [Key::Char('e'), Key::Char('x'), Key::Up, Key::Esc, Key::Backspace] {
            state.screen = screen;
            let effect = handle_key(&mut state, key);
            assert!(!matches!(effect, Effect::WriteImage(_, _)));
            assert_eq!(state.draft.as_ref().unwrap().partitions[1].size_bytes, 80 * 1024 * 1024 * 1024);
            assert_eq!(state.backup_path.as_deref(), Some("/dev/test.rspbak"));
        }
    }
}

#[test]
fn start_selects_the_image_and_logs() {
    let state = AppState::start(vec!["a".to_string(), "b".to_string()], Some("disk.img".to_string()));
    assert_eq!(state.selected_disk.as_deref(), Some("disk.img"));
    let n = state.templates.len();
    assert_eq!(state.log_lines, vec!["已指定 image: disk.img".to_string(), format!("已載入 {n} 個模板")]);

    let plain = AppState::start(vec![], None);
    assert_eq!(plain.selected_disk, None);
    assert_eq!(plain.log_lines, vec![format!("已載入 {} 個模板", plain.templates.len())]);
}
