//! The state of the terminal UI, its view, the keys it reads, and the
//! outside work it asks for.

use vstd::prelude::*;

use crate::model::{
    opt_str, DiskInfo, DiskInfoView, LayoutDraft, LayoutDraftView,
};
use crate::text::{concat, concat3, decimal_chars, decimal_string, string_of};

verus! {

/// The screens of the terminal UI.
#[derive(Debug, Clone, Copy, PartialEq, Eq, Structural)]
pub enum Screen {
    GuidedScenario,
    Main,
    DiskList,
    PartTable,
    QuickLayout,
    Preview,
    SizeEditor,
    BackupConfirm,
    WriteConfirm,
}

/// The operating systems the guided mode prepares a disk for.
#[derive(Debug, Clone, Copy, PartialEq, Eq, Structural)]
pub enum GuidedScenario {
    Windows,
    Linux,
    Macos,
    Multiboot,
}

/// The scenarios in menu order.
pub open spec fn spec_scenario_at(index: int) -> Option<GuidedScenario> {
    if index == 0 {
        Some(GuidedScenario::Windows)
    } else if index == 1 {
        Some(GuidedScenario::Linux)
    } else if index == 2 {
        Some(GuidedScenario::Macos)
    } else if index == 3 {
        Some(GuidedScenario::Multiboot)
    } else {
        None
    }
}

/// The number of guided scenarios.
pub const GUIDED_SCENARIO_COUNT: usize = 4;

/// The scenario at a menu position.
pub fn scenario_at(index: usize) -> (r: Option<GuidedScenario>)
    ensures
        r == spec_scenario_at(index as int),
{
    if index == 0 {
        Some(GuidedScenario::Windows)
    } else if index == 1 {
        Some(GuidedScenario::Linux)
    } else if index == 2 {
        Some(GuidedScenario::Macos)
    } else if index == 3 {
        Some(GuidedScenario::Multiboot)
    } else {
        None
    }
}

impl GuidedScenario {
    pub open spec fn spec_label(self) -> Seq<char> {
        match self {
            GuidedScenario::Windows => "Windows"@,
            GuidedScenario::Linux => "Linux"@,
            GuidedScenario::Macos => "macOS"@,
            GuidedScenario::Multiboot => "多重開機"@,
        }
    }

    pub open spec fn spec_description(self) -> Seq<char> {
        match self {
            GuidedScenario::Windows => "Windows 10/11 UEFI 標準分區"@,
            GuidedScenario::Linux => "Linux UEFI ext4 單系統"@,
            GuidedScenario::Macos => "macOS GPT/APFS 目標分區（不格式化 APFS）"@,
            GuidedScenario::Multiboot => "Windows + Linux GPT/UEFI 分區"@,
        }
    }

    /// The layout template each scenario uses.
    pub open spec fn spec_template_name(self) -> Seq<char> {
        match self {
            GuidedScenario::Windows => "windows_uefi_standard"@,
            GuidedScenario::Linux => "linux_ext4_standard"@,
            GuidedScenario::Macos => "macos_apfs_target"@,
            GuidedScenario::Multiboot => "multiboot_windows_linux"@,
        }
    }

    /// The name shown in the menu.
    pub fn label(self) -> (r: &'static str)
        ensures
            r@ == self.spec_label(),
    {
        match self {
            GuidedScenario::Windows => "Windows",
            GuidedScenario::Linux => "Linux",
            GuidedScenario::Macos => "macOS",
            GuidedScenario::Multiboot => "多重開機",
        }
    }

    /// The one-line description shown in the menu.
    pub fn description(self) -> (r: &'static str)
        ensures
            r@ == self.spec_description(),
    {
        match self {
            GuidedScenario::Windows => "Windows 10/11 UEFI 標準分區",
            GuidedScenario::Linux => "Linux UEFI ext4 單系統",
            GuidedScenario::Macos => "macOS GPT/APFS 目標分區（不格式化 APFS）",
            GuidedScenario::Multiboot => "Windows + Linux GPT/UEFI 分區",
        }
    }

    /// The template the scenario selects.
    pub fn template_name(self) -> (r: &'static str)
        ensures
            r@ == self.spec_template_name(),
    {
        match self {
            GuidedScenario::Windows => "windows_uefi_standard",
            GuidedScenario::Linux => "linux_ext4_standard",
            GuidedScenario::Macos => "macos_apfs_target",
            GuidedScenario::Multiboot => "multiboot_windows_linux",
        }
    }
}

/// A key press, as far as the UI reads it.
#[derive(Debug, Clone, Copy, PartialEq, Eq, Structural)]
pub enum Key {
    Up,
    Down,
    Enter,
    Esc,
    Backspace,
    Char(char),
    Other,
}

/// Why the disk list is being scanned.
#[derive(Debug, Clone, Copy, PartialEq, Eq, Structural)]
pub enum ScanPurpose {
    /// The disk list screen is being opened.
    Open,
    /// The user asked for a rescan on the disk list screen.
    Rescan,
}

/// What waits on the inspection of the selected target.
#[derive(Debug, Clone, Copy, PartialEq, Eq, Structural)]
pub enum InspectPurpose {
    /// The main menu's "show partition table".
    ShowTable,
    /// An image path was entered on the disk list.
    ImageChosen,
    /// A disk was picked from the disk list.
    DiskChosen,
}

/// Where a check of the backup file was asked from.
#[derive(Debug, Clone, Copy, PartialEq, Eq, Structural)]
pub enum BackupCheckFrom {
    Preview,
    BackupConfirm,
}

/// Outside work the UI asks for after a key press. The caller performs it
/// and reports the result through the matching method of [`AppState`].
#[derive(Debug)]
pub enum Effect {
    /// Nothing to do.
    Nothing,
    /// List the block devices, then `disks_scanned`.
    ScanDisks(ScanPurpose),
    /// Test whether the path exists, then `image_path_checked`.
    CheckImagePath(String),
    /// Open and inspect the target, then `target_inspected`.
    InspectTarget(String, InspectPurpose),
    /// Build the draft of the template for the target, then `draft_generated`.
    GenerateDraft(String, String),
    /// Parse a size expression, then `size_parsed`.
    ParseSize(String),
    /// Build the preview text of the current draft, then `preview_rendered`.
    RenderPreview,
    /// Back up the disk to the file, then `backup_finished`.
    CreateBackup(String, String),
    /// Test whether the backup file is a regular file, then `backup_checked`.
    CheckBackupFile(String, BackupCheckFrom),
    /// Test whether the target is an image file and the backup a regular
    /// file, then `write_target_checked`.
    CheckWriteTarget(String, Option<String>),
    /// Write the draft to the image and read it back, then `write_finished`.
    WriteImage(String, String),
}

/// The view of an [`Effect`].
pub enum EffectView {
    Nothing,
    ScanDisks(ScanPurpose),
    CheckImagePath(Seq<char>),
    InspectTarget(Seq<char>, InspectPurpose),
    GenerateDraft(Seq<char>, Seq<char>),
    ParseSize(Seq<char>),
    RenderPreview,
    CreateBackup(Seq<char>, Seq<char>),
    CheckBackupFile(Seq<char>, BackupCheckFrom),
    CheckWriteTarget(Seq<char>, Option<Seq<char>>),
    WriteImage(Seq<char>, Seq<char>),
}

impl View for Effect {
    type V = EffectView;

    open spec fn view(&self) -> EffectView {
        match self {
            Effect::Nothing => EffectView::Nothing,
            Effect::ScanDisks(p) => EffectView::ScanDisks(*p),
            Effect::CheckImagePath(p) => EffectView::CheckImagePath(p@),
            Effect::InspectTarget(p, w) => EffectView::InspectTarget(p@, *w),
            Effect::GenerateDraft(t, d) => EffectView::GenerateDraft(t@, d@),
            Effect::ParseSize(s) => EffectView::ParseSize(s@),
            Effect::RenderPreview => EffectView::RenderPreview,
            Effect::CreateBackup(d, b) => EffectView::CreateBackup(d@, b@),
            Effect::CheckBackupFile(p, f) => EffectView::CheckBackupFile(p@, *f),
            Effect::CheckWriteTarget(d, b) => EffectView::CheckWriteTarget(d@, opt_str(*b)),
            Effect::WriteImage(d, b) => EffectView::WriteImage(d@, b@),
        }
    }
}

/// The state of the terminal UI.
pub struct AppState {
    pub screen: Screen,
    pub disks: Vec<DiskInfo>,
    pub disk_index: usize,
    pub selected_disk: Option<String>,
    pub selected_disk_info: Option<DiskInfo>,
    pub partitions_text: String,
    pub templates: Vec<String>,
    pub guided_index: usize,
    pub selected_template: String,
    pub template_index: usize,
    pub draft: Option<LayoutDraft>,
    pub preview_text: String,
    pub confirm_input: String,
    pub confirm_phrase: String,
    pub confirm_error: Option<String>,
    pub message: String,
    pub image_path_input: String,
    pub editing_image_path: bool,
    pub log_lines: Vec<String>,
    pub editor_selected: usize,
    pub editor_input: String,
    pub editor_error: Option<String>,
    pub backup_status: String,
    pub backup_path: Option<String>,
}

/// The view of an [`AppState`].
#[verifier::ext_equal]
pub struct AppStateView {
    pub screen: Screen,
    pub disks: Seq<DiskInfoView>,
    pub disk_index: usize,
    pub selected_disk: Option<Seq<char>>,
    pub selected_disk_info: Option<DiskInfoView>,
    pub partitions_text: Seq<char>,
    pub templates: Seq<Seq<char>>,
    pub guided_index: usize,
    pub selected_template: Seq<char>,
    pub template_index: usize,
    pub draft: Option<LayoutDraftView>,
    pub preview_text: Seq<char>,
    pub confirm_input: Seq<char>,
    pub confirm_phrase: Seq<char>,
    pub confirm_error: Option<Seq<char>>,
    pub message: Seq<char>,
    pub image_path_input: Seq<char>,
    pub editing_image_path: bool,
    pub log_lines: Seq<Seq<char>>,
    pub editor_selected: usize,
    pub editor_input: Seq<char>,
    pub editor_error: Option<Seq<char>>,
    pub backup_status: Seq<char>,
    pub backup_path: Option<Seq<char>>,
}

/// The view of an optional disk.
pub open spec fn opt_disk(o: Option<DiskInfo>) -> Option<DiskInfoView> {
    match o {
        Some(d) => Some(d@),
        None => None,
    }
}

/// The view of an optional draft.
pub open spec fn opt_draft(o: Option<LayoutDraft>) -> Option<LayoutDraftView> {
    match o {
        Some(d) => Some(d@),
        None => None,
    }
}

/// The characters of each string.
pub open spec fn strs(v: Seq<String>) -> Seq<Seq<char>> {
    v.map_values(|s: String| s@)
}

impl View for AppState {
    type V = AppStateView;

    open spec fn view(&self) -> AppStateView {
        AppStateView {
            screen: self.screen,
            disks: self.disks@.map_values(|d: DiskInfo| d@),
            disk_index: self.disk_index,
            selected_disk: opt_str(self.selected_disk),
            selected_disk_info: opt_disk(self.selected_disk_info),
            partitions_text: self.partitions_text@,
            templates: strs(self.templates@),
            guided_index: self.guided_index,
            selected_template: self.selected_template@,
            template_index: self.template_index,
            draft: opt_draft(self.draft),
            preview_text: self.preview_text@,
            confirm_input: self.confirm_input@,
            confirm_phrase: self.confirm_phrase@,
            confirm_error: opt_str(self.confirm_error),
            message: self.message@,
            image_path_input: self.image_path_input@,
            editing_image_path: self.editing_image_path,
            log_lines: strs(self.log_lines@),
            editor_selected: self.editor_selected,
            editor_input: self.editor_input@,
            editor_error: opt_str(self.editor_error),
            backup_status: self.backup_status@,
            backup_path: opt_str(self.backup_path),
        }
    }
}

/// The log keeps its last 100 lines.
pub const LOG_CAPACITY: usize = 100;

/// The log after `msg` is appended and, past 100 lines, the oldest dropped.
pub open spec fn spec_log(lines: Seq<Seq<char>>, msg: Seq<char>) -> Seq<Seq<char>> {
    let l = lines.push(msg);
    if l.len() > 100 {
        l.drop_first()
    } else {
        l
    }
}

/// The built-in template list used when no template files are found.
pub open spec fn default_templates() -> Seq<Seq<char>> {
    seq![
        "windows_uefi_standard"@,
        "windows_uefi_with_data"@,
        "windows_uefi_dual_boot"@,
        "macos_apfs_target"@,
        "macos_apfs_shared_exfat"@,
        "macos_apfs_reserve_windows"@,
        "linux_ext4_standard"@,
        "linux_ext4_home"@,
        "linux_btrfs_standard"@,
        "linux_bios_gpt_biosboot"@,
        "windows_legacy_mbr"@,
    ]
}

/// `list` with `name` appended unless it is already there.
pub open spec fn with_template(list: Seq<Seq<char>>, name: Seq<char>) -> Seq<Seq<char>> {
    if list.contains(name) {
        list
    } else {
        list.push(name)
    }
}

/// `list` with the template of each guided scenario added where missing,
/// in scenario order.
pub open spec fn with_guided_templates(list: Seq<Seq<char>>) -> Seq<Seq<char>> {
    with_template(
        with_template(
            with_template(
                with_template(list, GuidedScenario::Windows.spec_template_name()),
                GuidedScenario::Linux.spec_template_name(),
            ),
            GuidedScenario::Macos.spec_template_name(),
        ),
        GuidedScenario::Multiboot.spec_template_name(),
    )
}

/// The templates offered: those found, or the built-in list when none were
/// found, and in either case every guided scenario's template.
pub open spec fn spec_initial_templates(found: Seq<Seq<char>>) -> Seq<Seq<char>> {
    with_guided_templates(if found.len() == 0 { default_templates() } else { found })
}

/// The state the UI starts in, given the template names found.
pub open spec fn spec_initial_state(found: Seq<Seq<char>>) -> AppStateView {
    AppStateView {
        screen: Screen::GuidedScenario,
        disks: Seq::empty(),
        disk_index: 0,
        selected_disk: None,
        selected_disk_info: None,
        partitions_text: Seq::empty(),
        templates: spec_initial_templates(found),
        guided_index: 0,
        selected_template: Seq::empty(),
        template_index: 0,
        draft: None,
        preview_text: Seq::empty(),
        confirm_input: Seq::empty(),
        confirm_phrase: Seq::empty(),
        confirm_error: None,
        message: Seq::empty(),
        image_path_input: Seq::empty(),
        editing_image_path: false,
        log_lines: Seq::empty(),
        editor_selected: 0,
        editor_input: Seq::empty(),
        editor_error: None,
        backup_status: "尚未備份"@,
        backup_path: None,
    }
}

/// Tests whether `list` holds `name`.
pub fn contains_text(list: &Vec<String>, name: &str) -> (r: bool)
    ensures
        r == strs(list@).contains(name@),
{
    match position_of(list, name) {
        Some(_) => true,
        None => false,
    }
}

/// The first position of `name` in `list`.
pub open spec fn spec_position(list: Seq<Seq<char>>, name: Seq<char>) -> Option<int>
    decreases list.len(),
{
    if list.len() == 0 {
        None
    } else if list[0] == name {
        Some(0)
    } else {
        match spec_position(list.drop_first(), name) {
            Some(i) => Some(i + 1),
            None => None,
        }
    }
}

/// A list holds a name exactly when the name has a first position in it.
pub proof fn lemma_position_contains(list: Seq<Seq<char>>, name: Seq<char>)
    ensures
        list.contains(name) <==> spec_position(list, name) is Some,
        spec_position(list, name) matches Some(i) ==> 0 <= i < list.len() && list[i] == name,
    decreases list.len(),
{
    if list.len() > 0 {
        lemma_position_contains(list.drop_first(), name);
        if list[0] != name {
            if list.contains(name) {
                let k = choose|k: int| 0 <= k < list.len() && list[k] == name;
                assert(list.drop_first()[k - 1] == name);
            }
            if list.drop_first().contains(name) {
                let k = choose|k: int| 0 <= k < list.len() - 1 && list.drop_first()[k] == name;
                assert(list[k + 1] == name);
            }
        } else {
            assert(list[0] == name);
        }
    }
}

/// Finds the first position of `name` in `list`.
pub fn position_of(list: &Vec<String>, name: &str) -> (r: Option<usize>)
    ensures
        r matches Some(i) ==> spec_position(strs(list@), name@) == Some(i as int),
        r is None ==> spec_position(strs(list@), name@) is None,
        r == (if strs(list@).contains(name@) {
            Some(spec_position(strs(list@), name@)->0 as usize)
        } else {
            None::<usize>
        }),
{
    let n = list.len();
    let mut i: usize = 0;
    let ghost all = strs(list@);
    proof {
        assert(all.subrange(0, n as int) =~= all);
        lemma_position_contains(all, name@);
    }
    while i < n
        invariant
            n == list@.len(),
            all == strs(list@),
            i <= n,
            spec_position(all, name@) == (match spec_position(all.subrange(i as int, n as int), name@) {
                Some(k) => Some(k + i),
                None => None::<int>,
            }),
        decreases n - i,
    {
        proof {
            let t = all.subrange(i as int, n as int);
            assert(t.drop_first() =~= all.subrange(i + 1, n as int));
            assert(t[0] == list@[i as int]@);
        }
        if crate::text::same_text(list[i].as_str(), name) {
            return Some(i);
        }
        i = i + 1;
    }
    proof {
        assert(all.subrange(i as int, n as int).len() == 0);
    }
    None
}

/// Appends `name` to `list` unless it is already there.
pub fn add_template(list: &mut Vec<String>, name: &str)
    ensures
        strs(final(list)@) == with_template(strs(old(list)@), name@),
{
    if !contains_text(list, name) {
        list.push(string_of(name));
        proof {
            assert(strs(final(list)@) =~= strs(old(list)@).push(name@));
        }
    }
}

/// The state after start-up: `found` gives the templates, and `image` is the
/// disk image named on the command line.
pub open spec fn spec_startup_state(found: Seq<Seq<char>>, image: Option<Seq<char>>) -> AppStateView {
    let s0 = spec_initial_state(found);
    let s1 = match image {
        Some(img) => AppStateView {
            selected_disk: Some(img),
            log_lines: spec_log(s0.log_lines, "已指定 image: "@ + img),
            ..s0
        },
        None => s0,
    };
    AppStateView {
        log_lines: spec_log(s1.log_lines, "已載入 "@ + decimal_chars(s1.templates.len()) + " 個模板"@),
        ..s1
    }
}

impl AppState {
    /// The state the UI starts in. `found` holds the names of the template
    /// files that were found.
    pub fn new(found: Vec<String>) -> (s: AppState)
        ensures
            s@ == spec_initial_state(strs(found@)),
    {
        let mut templates = if found.len() == 0 {
            let mut t: Vec<String> = Vec::new();
            t.push(string_of("windows_uefi_standard"));
            t.push(string_of("windows_uefi_with_data"));
            t.push(string_of("windows_uefi_dual_boot"));
            t.push(string_of("macos_apfs_target"));
            t.push(string_of("macos_apfs_shared_exfat"));
            t.push(string_of("macos_apfs_reserve_windows"));
            t.push(string_of("linux_ext4_standard"));
            t.push(string_of("linux_ext4_home"));
            t.push(string_of("linux_btrfs_standard"));
            t.push(string_of("linux_bios_gpt_biosboot"));
            t.push(string_of("windows_legacy_mbr"));
            proof {
                assert(strs(t@) =~= default_templates());
            }
            t
        } else {
            found
        };
        add_template(&mut templates, GuidedScenario::Windows.template_name());
        add_template(&mut templates, GuidedScenario::Linux.template_name());
        add_template(&mut templates, GuidedScenario::Macos.template_name());
        add_template(&mut templates, GuidedScenario::Multiboot.template_name());
        let s = AppState {
            screen: Screen::GuidedScenario,
            disks: Vec::new(),
            disk_index: 0,
            selected_disk: None,
            selected_disk_info: None,
            partitions_text: String::new(),
            templates,
            guided_index: 0,
            selected_template: String::new(),
            template_index: 0,
            draft: None,
            preview_text: String::new(),
            confirm_input: String::new(),
            confirm_phrase: String::new(),
            confirm_error: None,
            message: String::new(),
            image_path_input: String::new(),
            editing_image_path: false,
            log_lines: Vec::new(),
            editor_selected: 0,
            editor_input: String::new(),
            editor_error: None,
            backup_status: string_of("尚未備份"),
            backup_path: None,
        };
        proof {
            assert(s@.disks =~= Seq::<DiskInfoView>::empty());
            assert(s@.log_lines =~= Seq::<Seq<char>>::empty());
            assert(s@ =~= spec_initial_state(strs(found@)));
        }
        s
    }

    /// The state the UI starts in when it is run: that of [`AppState::new`],
    /// with the disk image named on the command line (if any) selected and
    /// logged, and then the number of templates logged.
    pub fn start(found: Vec<String>, image_path: Option<String>) -> (s: AppState)
        ensures
            s@ == spec_startup_state(strs(found@), opt_str(image_path)),
    {
        let mut state = AppState::new(found);
        proof {
            reveal_strlit("已指定 image: ");
            reveal_strlit("已載入 ");
            reveal_strlit(" 個模板");
        }
        match image_path {
            Some(img) => {
                let line = concat("已指定 image: ", img.as_str());
                state.selected_disk = Some(img);
                state.log(line);
            },
            None => {},
        }
        let count = decimal_string(state.templates.len() as u64);
        let line = concat3("已載入 ", count.as_str(), " 個模板");
        state.log(line);
        state
    }

    /// Appends a line to the log, keeping the last 100.
    pub fn log(&mut self, msg: String)
        ensures
            final(self)@ == (AppStateView { log_lines: spec_log(old(self)@.log_lines, msg@), ..old(self)@ }),
    {
        let ghost pre = strs(self.log_lines@);
        self.log_lines.push(msg);
        proof {
            assert(strs(self.log_lines@) =~= pre.push(msg@));
        }
        if self.log_lines.len() > LOG_CAPACITY {
            let ghost mid = strs(self.log_lines@);
            self.log_lines.remove(0);
            proof {
                assert(strs(self.log_lines@) =~= mid.drop_first());
            }
        }
        proof {
            assert(self@ =~= AppStateView { log_lines: spec_log(old(self)@.log_lines, msg@), ..old(self)@ });
        }
    }
}

} // verus!
