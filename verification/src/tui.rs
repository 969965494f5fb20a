//! Key handling of the terminal UI: for each screen, what a key does to the
//! state and which outside work it asks for; and what each result of that
//! work does to the state.

use vstd::prelude::*;

use crate::model::{
    DiskInfo, DiskInfoView, LayoutDraft, LayoutDraftView, PartitionDraft, PartitionDraftView,
    PartitionEntry, PartitionEntryView,
};
use crate::safety::{disk_confirmation_phrase, spec_confirmation_phrase};
use crate::text::{
    concat, concat3, decimal_chars, decimal_string, is_control_char, pop_char, push_char,
    same_text, string_of, trim, trim_spec,
};
use crate::tui_state::{
    add_template, position_of, scenario_at, spec_log, spec_position, spec_scenario_at,
    with_template, AppState, AppStateView, BackupCheckFrom, Effect, EffectView, InspectPurpose,
    Key, ScanPurpose, Screen, GUIDED_SCENARIO_COUNT,
};

verus! {

/// The disk list screen with the image path field active and empty.
pub open spec fn spec_begin_image_input(s: AppStateView) -> AppStateView {
    AppStateView { editing_image_path: true, image_path_input: Seq::empty(), screen: Screen::DiskList, ..s }
}

/// Starts entering an image path on the disk list screen.
pub fn begin_image_input(state: &mut AppState)
    ensures
        final(state)@ == spec_begin_image_input(old(state)@),
{
    state.editing_image_path = true;
    state.image_path_input = String::new();
    state.screen = Screen::DiskList;
    proof {
        assert(state@ =~= spec_begin_image_input(old(state)@));
    }
}

/// Opening the disk list asks for a scan of the block devices.
pub fn open_disk_list(state: &AppState) -> (e: Effect)
    ensures
        e@ == EffectView::ScanDisks(ScanPurpose::Open),
{
    Effect::ScanDisks(ScanPurpose::Open)
}

/// The index, clamped to the last position of a list of `len` items (0
/// for an empty list).
pub open spec fn clamp_index(index: usize, len: nat) -> usize {
    if len == 0 {
        0
    } else if index < len - 1 {
        index
    } else {
        (len - 1) as usize
    }
}

/// The state after a scan found `disks`.
pub open spec fn spec_disks_scanned(s: AppStateView, disks: Seq<DiskInfoView>, purpose: ScanPurpose) -> AppStateView {
    let count = decimal_chars(disks.len());
    match purpose {
        ScanPurpose::Open => AppStateView {
            disks,
            disk_index: clamp_index(s.disk_index, disks.len()),
            log_lines: spec_log(s.log_lines, "掃描到 "@ + count + " 個裝置"@),
            screen: Screen::DiskList,
            ..s
        },
        ScanPurpose::Rescan => AppStateView {
            disks,
            disk_index: clamp_index(s.disk_index, disks.len()),
            log_lines: spec_log(s.log_lines, "重新掃描: "@ + count + " 個裝置"@),
            ..s
        },
    }
}

fn clamp(index: usize, len: usize) -> (r: usize)
    ensures
        r == clamp_index(index, len as nat),
{
    let last = if len == 0 {
        0
    } else {
        len - 1
    };
    if index < last {
        index
    } else {
        last
    }
}

/// Takes the result of a device scan.
pub fn disks_scanned(state: &mut AppState, disks: Vec<DiskInfo>, purpose: ScanPurpose)
    ensures
        final(state)@ == spec_disks_scanned(old(state)@, disks@.map_values(|d: DiskInfo| d@), purpose),
{
    let count = disks.len();
    state.disks = disks;
    state.disk_index = clamp(state.disk_index, count);
    let number = decimal_string(count as u64);
    let msg = match purpose {
        ScanPurpose::Open => concat3("掃描到 ", number.as_str(), " 個裝置"),
        ScanPurpose::Rescan => concat3("重新掃描: ", number.as_str(), " 個裝置"),
    };
    state.log(msg);
    match purpose {
        ScanPurpose::Open => {
            state.screen = Screen::DiskList;
        },
        ScanPurpose::Rescan => {},
    }
    proof {
        assert(state@ =~= spec_disks_scanned(old(state)@, disks@.map_values(|d: DiskInfo| d@), purpose));
    }
}

/// The message shown when a guided scenario is picked before a target.
pub open spec fn pick_target_first_message() -> Seq<char> {
    "請先選擇並檢查目標磁碟或 image，再套用配置。"@
}

/// Picking the scenario at `index`: its template is added if missing and
/// selected; with a target the quick layout opens, without one the disk
/// list opens with a reminder. An index past the scenarios changes nothing.
pub open spec fn spec_select_guided(s: AppStateView, index: usize) -> (AppStateView, EffectView) {
    match spec_scenario_at(index as int) {
        None => (s, EffectView::Nothing),
        Some(sc) => {
            let name = sc.spec_template_name();
            let t = with_template(s.templates, name);
            let s1 = AppStateView {
                templates: t,
                guided_index: index,
                template_index: spec_position(t, name)->0 as usize,
                selected_template: name,
                ..s
            };
            if s.selected_disk is Some {
                (AppStateView { message: Seq::empty(), screen: Screen::QuickLayout, ..s1 }, EffectView::Nothing)
            } else {
                (AppStateView { message: pick_target_first_message(), ..s1 }, EffectView::ScanDisks(ScanPurpose::Open))
            }
        },
    }
}

/// Picks the guided scenario at `index`.
pub fn select_guided_scenario(state: &mut AppState, index: usize) -> (e: Effect)
    ensures
        (final(state)@, e@) == spec_select_guided(old(state)@, index),
{
    let scenario = match scenario_at(index) {
        Some(sc) => sc,
        None => {
            return Effect::Nothing;
        },
    };
    let name = scenario.template_name();
    add_template(&mut state.templates, name);
    state.guided_index = index;
    let pos = position_of(&state.templates, name);
    proof {
        crate::tui_state::lemma_position_contains(state@.templates, name@);
        assert(state@.templates.contains(name@)) by {
            let t = state@.templates;
            let old_t = old(state)@.templates;
            if old_t.contains(name@) {
                assert(t == old_t);
            } else {
                assert(t[t.len() - 1] == name@);
            }
        }
    }
    state.template_index = match pos {
        Some(i) => i,
        None => 0,
    };
    state.selected_template = string_of(name);
    if state.selected_disk.is_some() {
        state.message = String::new();
        state.screen = Screen::QuickLayout;
        proof {
            assert(state@ =~= spec_select_guided(old(state)@, index).0);
        }
        Effect::Nothing
    } else {
        state.message = string_of("請先選擇並檢查目標磁碟或 image，再套用配置。");
        proof {
            assert(state@ =~= spec_select_guided(old(state)@, index).0);
        }
        open_disk_list(state)
    }
}

/// A key on the guided scenario screen.
pub open spec fn spec_guided_key(s: AppStateView, key: Key) -> (AppStateView, EffectView) {
    match key {
        Key::Up | Key::Char('k') => (
            AppStateView { guided_index: if s.guided_index > 0 { (s.guided_index - 1) as usize } else { 0 }, ..s },
            EffectView::Nothing,
        ),
        Key::Down | Key::Char('j') => (
            AppStateView { guided_index: if s.guided_index + 1 < 3 { (s.guided_index + 1) as usize } else { 3 }, ..s },
            EffectView::Nothing,
        ),
        Key::Enter => spec_select_guided(s, s.guided_index),
        Key::Char(c) => {
            if '1' <= c && c <= '4' {
                spec_select_guided(s, (c as u32 - 49) as usize)
            } else if c == 'a' || c == 'A' {
                (
                    AppStateView { selected_template: Seq::empty(), template_index: 0, screen: Screen::QuickLayout, ..s },
                    EffectView::Nothing,
                )
            } else if c == 'd' || c == 'D' {
                (s, EffectView::ScanDisks(ScanPurpose::Open))
            } else if c == 'i' || c == 'I' {
                (spec_begin_image_input(s), EffectView::Nothing)
            } else {
                (s, EffectView::Nothing)
            }
        },
        Key::Esc => (AppStateView { screen: Screen::Main, ..s }, EffectView::Nothing),
        _ => (s, EffectView::Nothing),
    }
}

/// Handles a key on the guided scenario screen.
pub fn handle_guided_scenario(state: &mut AppState, key: Key) -> (e: Effect)
    requires
        (key == Key::Down || key == Key::Char('j')) ==> old(state).guided_index < usize::MAX,
    ensures
        (final(state)@, e@) == spec_guided_key(old(state)@, key),
{
    match key {
        Key::Up | Key::Char('k') => {
            state.guided_index = if state.guided_index > 0 {
                state.guided_index - 1
            } else {
                0
            };
            proof {
                assert(state@ =~= spec_guided_key(old(state)@, key).0);
            }
            Effect::Nothing
        },
        Key::Down | Key::Char('j') => {
            let next = state.guided_index + 1;
            state.guided_index = if next < GUIDED_SCENARIO_COUNT - 1 {
                next
            } else {
                GUIDED_SCENARIO_COUNT - 1
            };
            proof {
                assert(state@ =~= spec_guided_key(old(state)@, key).0);
            }
            Effect::Nothing
        },
        Key::Enter => {
            let index = state.guided_index;
            select_guided_scenario(state, index)
        },
        Key::Char(c) => {
            if '1' <= c && c <= '4' {
                select_guided_scenario(state, (c as u32 - 49) as usize)
            } else if c == 'a' || c == 'A' {
                state.selected_template = String::new();
                state.template_index = 0;
                state.screen = Screen::QuickLayout;
                proof {
                    assert(state@ =~= spec_guided_key(old(state)@, key).0);
                }
                Effect::Nothing
            } else if c == 'd' || c == 'D' {
                open_disk_list(state)
            } else if c == 'i' || c == 'I' {
                begin_image_input(state);
                Effect::Nothing
            } else {
                Effect::Nothing
            }
        },
        Key::Esc => {
            state.screen = Screen::Main;
            proof {
                assert(state@ =~= spec_guided_key(old(state)@, key).0);
            }
            Effect::Nothing
        },
        _ => Effect::Nothing,
    }
}

/// The screen that follows the choice of a target: the quick layout when a
/// template is already chosen, else the partition table.
pub open spec fn spec_next_screen(s: AppStateView) -> Screen {
    if s.selected_template.len() == 0 {
        Screen::PartTable
    } else {
        Screen::QuickLayout
    }
}

/// The screen that follows the choice of a target.
pub fn next_screen_after_target_selection(state: &AppState) -> (r: Screen)
    ensures
        r == spec_next_screen(state@),
{
    if state.selected_template.as_str().unicode_len() == 0 {
        Screen::PartTable
    } else {
        Screen::QuickLayout
    }
}

/// What opening and reading the partition table of the target gave.
#[derive(Debug)]
pub enum InspectOutcome {
    /// The target could not be opened; the text says why.
    OpenFailed(String),
    /// The target was opened but no GPT or MBR could be read; the text says why.
    ParseFailed(DiskInfo, String),
    /// The target and its table, with the body of the report to show below
    /// the line that names the disk.
    Inspected(DiskInfo, String),
}

/// The view of an [`InspectOutcome`].
pub enum InspectOutcomeView {
    OpenFailed(Seq<char>),
    ParseFailed(DiskInfoView, Seq<char>),
    Inspected(DiskInfoView, Seq<char>),
}

impl View for InspectOutcome {
    type V = InspectOutcomeView;

    open spec fn view(&self) -> InspectOutcomeView {
        match self {
            InspectOutcome::OpenFailed(e) => InspectOutcomeView::OpenFailed(e@),
            InspectOutcome::ParseFailed(d, e) => InspectOutcomeView::ParseFailed(d@, e@),
            InspectOutcome::Inspected(d, t) => InspectOutcomeView::Inspected(d@, t@),
        }
    }
}

/// The message shown when the partition table cannot be shown.
pub open spec fn select_first_message() -> Seq<char> {
    "請先選取磁碟或 image！"@
}

/// The state once the inspection of the target `path` gave `outcome`, and
/// whether it succeeded. A report starts with the line `磁碟: {path}`.
pub open spec fn spec_refresh(s: AppStateView, path: Seq<char>, outcome: InspectOutcomeView) -> (AppStateView, bool) {
    match outcome {
        InspectOutcomeView::OpenFailed(e) => {
            let text = "無法開啟 "@ + path + ": "@ + e;
            (AppStateView { partitions_text: text, message: text, ..s }, false)
        },
        InspectOutcomeView::ParseFailed(info, e) => {
            let text = "無法解析分割表: "@ + e;
            (AppStateView { selected_disk_info: Some(info), partitions_text: text, message: text, ..s }, false)
        },
        InspectOutcomeView::Inspected(info, body) => (
            AppStateView {
                selected_disk_info: Some(info),
                partitions_text: "磁碟: "@ + path + "\n"@ + body,
                message: Seq::empty(),
                ..s
            },
            true,
        ),
    }
}

/// What follows an inspection, by what waited on it.
pub open spec fn spec_after_refresh(s: AppStateView, ok: bool, purpose: InspectPurpose) -> AppStateView {
    match purpose {
        InspectPurpose::ShowTable => if ok {
            AppStateView { screen: Screen::PartTable, ..s }
        } else {
            AppStateView { message: select_first_message(), ..s }
        },
        InspectPurpose::ImageChosen => if ok {
            AppStateView { editing_image_path: false, screen: spec_next_screen(s), ..s }
        } else {
            s
        },
        InspectPurpose::DiskChosen => if ok {
            AppStateView { screen: spec_next_screen(s), ..s }
        } else {
            s
        },
    }
}

fn after_refresh(state: &mut AppState, ok: bool, purpose: InspectPurpose)
    ensures
        final(state)@ == spec_after_refresh(old(state)@, ok, purpose),
{
    match purpose {
        InspectPurpose::ShowTable => {
            if ok {
                state.screen = Screen::PartTable;
            } else {
                state.message = string_of("請先選取磁碟或 image！");
            }
        },
        InspectPurpose::ImageChosen => {
            if ok {
                state.editing_image_path = false;
                state.screen = next_screen_after_target_selection(state);
            }
        },
        InspectPurpose::DiskChosen => {
            if ok {
                state.screen = next_screen_after_target_selection(state);
            }
        },
    }
    proof {
        assert(state@ =~= spec_after_refresh(old(state)@, ok, purpose));
    }
}

/// Inspecting the selected target: without one, the table text and the
/// message say so and the inspection counts as failed.
pub open spec fn spec_begin_inspect(s: AppStateView, purpose: InspectPurpose) -> (AppStateView, EffectView) {
    match s.selected_disk {
        Some(p) => (s, EffectView::InspectTarget(p, purpose)),
        None => (
            spec_after_refresh(
                AppStateView { partitions_text: "未選取磁碟"@, message: "未選取磁碟"@, ..s },
                false,
                purpose,
            ),
            EffectView::Nothing,
        ),
    }
}

fn begin_inspect(state: &mut AppState, purpose: InspectPurpose) -> (e: Effect)
    ensures
        (final(state)@, e@) == spec_begin_inspect(old(state)@, purpose),
{
    match &state.selected_disk {
        Some(p) => Effect::InspectTarget(p.clone(), purpose),
        None => {
            state.partitions_text = string_of("未選取磁碟");
            state.message = string_of("未選取磁碟");
            proof {
                assert(state@ =~= AppStateView { partitions_text: "未選取磁碟"@, message: "未選取磁碟"@, ..old(state)@ });
            }
            after_refresh(state, false, purpose);
            Effect::Nothing
        },
    }
}

/// Takes the result of inspecting the selected target.
pub fn target_inspected(state: &mut AppState, outcome: InspectOutcome, purpose: InspectPurpose)
    requires
        old(state).selected_disk is Some,
    ensures
        final(state)@ == ({
            let r = spec_refresh(old(state)@, old(state)@.selected_disk->0, outcome@);
            spec_after_refresh(r.0, r.1, purpose)
        }),
{
    let path = match &state.selected_disk {
        Some(p) => p.clone(),
        None => String::new(),
    };
    let ok = match outcome {
        InspectOutcome::OpenFailed(e) => {
            let mut text = concat3("無法開啟 ", path.as_str(), ": ");
            text.append(e.as_str());
            state.partitions_text = text.clone();
            state.message = text;
            false
        },
        InspectOutcome::ParseFailed(info, e) => {
            let text = concat("無法解析分割表: ", e.as_str());
            state.selected_disk_info = Some(info);
            state.partitions_text = text.clone();
            state.message = text;
            false
        },
        InspectOutcome::Inspected(info, body) => {
            let mut text = concat3("磁碟: ", path.as_str(), "\n");
            text.append(body.as_str());
            state.selected_disk_info = Some(info);
            state.partitions_text = text;
            state.message = String::new();
            true
        },
    };
    proof {
        let r = spec_refresh(old(state)@, old(state)@.selected_disk->0, outcome@);
        assert(state@ =~= r.0);
    }
    after_refresh(state, ok, purpose);
}

/// A key on the main menu.
pub open spec fn spec_main_key(s: AppStateView, key: Key) -> (AppStateView, EffectView) {
    match key {
        Key::Char(c) => if c == '1' {
            (s, EffectView::ScanDisks(ScanPurpose::Open))
        } else if c == '2' {
            if s.selected_disk is Some {
                spec_begin_inspect(s, InspectPurpose::ShowTable)
            } else {
                (AppStateView { message: select_first_message(), ..s }, EffectView::Nothing)
            }
        } else if c == 'f' || c == 'F' {
            (AppStateView { template_index: 0, screen: Screen::QuickLayout, ..s }, EffectView::Nothing)
        } else if c == 'g' || c == 'G' {
            (AppStateView { screen: Screen::GuidedScenario, ..s }, EffectView::Nothing)
        } else if c == 'i' || c == 'I' {
            (spec_begin_image_input(s), EffectView::Nothing)
        } else {
            (s, EffectView::Nothing)
        },
        _ => (s, EffectView::Nothing),
    }
}

/// Handles a key on the main menu.
pub fn handle_main(state: &mut AppState, key: Key) -> (e: Effect)
    ensures
        (final(state)@, e@) == spec_main_key(old(state)@, key),
{
    match key {
        Key::Char(c) => {
            if c == '1' {
                open_disk_list(state)
            } else if c == '2' {
                if state.selected_disk.is_some() {
                    begin_inspect(state, InspectPurpose::ShowTable)
                } else {
                    state.message = string_of("請先選取磁碟或 image！");
                    proof {
                        assert(state@ =~= spec_main_key(old(state)@, key).0);
                    }
                    Effect::Nothing
                }
            } else if c == 'f' || c == 'F' {
                state.template_index = 0;
                state.screen = Screen::QuickLayout;
                proof {
                    assert(state@ =~= spec_main_key(old(state)@, key).0);
                }
                Effect::Nothing
            } else if c == 'g' || c == 'G' {
                state.screen = Screen::GuidedScenario;
                proof {
                    assert(state@ =~= spec_main_key(old(state)@, key).0);
                }
                Effect::Nothing
            } else if c == 'i' || c == 'I' {
                begin_image_input(state);
                Effect::Nothing
            } else {
                Effect::Nothing
            }
        },
        _ => Effect::Nothing,
    }
}

/// The index one place further down, stopping at the last item.
pub open spec fn step_down(index: usize, len: nat) -> usize {
    let last = if len == 0 { 0 } else { len - 1 };
    if index + 1 < last {
        (index + 1) as usize
    } else {
        last as usize
    }
}

/// The index one place up, stopping at 0.
pub open spec fn step_up(index: usize) -> usize {
    if index > 0 {
        (index - 1) as usize
    } else {
        0
    }
}

/// The conditions under which a key on the disk list is handled.
pub open spec fn disk_list_key_ok(s: AppStateView, key: Key) -> bool {
    &&& (key == Key::Down || key == Key::Char('j')) && !s.editing_image_path ==> s.disk_index < usize::MAX
    &&& key == Key::Enter && !(s.editing_image_path && s.image_path_input.len() > 0) && s.disks.len() > 0
        ==> s.disk_index < s.disks.len()
}

/// A key on the disk list.
pub open spec fn spec_disk_list_key(s: AppStateView, key: Key) -> (AppStateView, EffectView) {
    let editing = s.editing_image_path;
    if (key == Key::Up || key == Key::Char('k')) && !editing {
        (AppStateView { disk_index: step_up(s.disk_index), ..s }, EffectView::Nothing)
    } else if (key == Key::Down || key == Key::Char('j')) && !editing {
        (AppStateView { disk_index: step_down(s.disk_index, s.disks.len()), ..s }, EffectView::Nothing)
    } else if key == Key::Char('i') || key == Key::Char('I') {
        (AppStateView { editing_image_path: true, image_path_input: Seq::empty(), ..s }, EffectView::Nothing)
    } else if key == Key::Char('r') || key == Key::Char('R') {
        (s, EffectView::ScanDisks(ScanPurpose::Rescan))
    } else if key == Key::Enter {
        if editing && s.image_path_input.len() > 0 {
            (s, EffectView::CheckImagePath(s.image_path_input))
        } else if s.disks.len() > 0 {
            let disk = s.disks[s.disk_index as int];
            let s1 = AppStateView {
                selected_disk: Some(disk.path),
                selected_disk_info: Some(disk),
                log_lines: spec_log(s.log_lines, "選取磁碟: "@ + disk.path),
                ..s
            };
            (s1, EffectView::InspectTarget(disk.path, InspectPurpose::DiskChosen))
        } else {
            (s, EffectView::Nothing)
        }
    } else if key == Key::Esc {
        (AppStateView { editing_image_path: false, screen: Screen::Main, ..s }, EffectView::Nothing)
    } else if editing && key is Char {
        let c = key->Char_0;
        if c == '\n' || c == '\r' {
            (s, EffectView::Nothing)
        } else {
            (AppStateView { image_path_input: s.image_path_input.push(c), ..s }, EffectView::Nothing)
        }
    } else if editing && key == Key::Backspace {
        (AppStateView {
            image_path_input: if s.image_path_input.len() > 0 {
                s.image_path_input.drop_last()
            } else {
                s.image_path_input
            },
            ..s
        }, EffectView::Nothing)
    } else {
        (s, EffectView::Nothing)
    }
}

/// Handles a key on the disk list.
pub fn handle_disk_list(state: &mut AppState, key: Key) -> (e: Effect)
    requires
        disk_list_key_ok(old(state)@, key),
    ensures
        (final(state)@, e@) == spec_disk_list_key(old(state)@, key),
{
    let editing = state.editing_image_path;
    if (key == Key::Up || key == Key::Char('k')) && !editing {
        state.disk_index = if state.disk_index > 0 {
            state.disk_index - 1
        } else {
            0
        };
        proof {
            assert(state@ =~= spec_disk_list_key(old(state)@, key).0);
        }
        Effect::Nothing
    } else if (key == Key::Down || key == Key::Char('j')) && !editing {
        let len = state.disks.len();
        let last = if len == 0 {
            0
        } else {
            len - 1
        };
        let next = state.disk_index + 1;
        state.disk_index = if next < last {
            next
        } else {
            last
        };
        proof {
            assert(state@ =~= spec_disk_list_key(old(state)@, key).0);
        }
        Effect::Nothing
    } else if key == Key::Char('i') || key == Key::Char('I') {
        state.editing_image_path = true;
        state.image_path_input = String::new();
        proof {
            assert(state@ =~= spec_disk_list_key(old(state)@, key).0);
        }
        Effect::Nothing
    } else if key == Key::Char('r') || key == Key::Char('R') {
        Effect::ScanDisks(ScanPurpose::Rescan)
    } else if key == Key::Enter {
        if editing && state.image_path_input.as_str().unicode_len() > 0 {
            Effect::CheckImagePath(state.image_path_input.clone())
        } else if state.disks.len() > 0 {
            let disk = state.disks[state.disk_index].duplicate();
            let path = disk.path.clone();
            state.selected_disk = Some(disk.path.clone());
            state.selected_disk_info = Some(disk);
            state.log(concat("選取磁碟: ", path.as_str()));
            proof {
                assert(state@ =~= spec_disk_list_key(old(state)@, key).0);
            }
            Effect::InspectTarget(path, InspectPurpose::DiskChosen)
        } else {
            Effect::Nothing
        }
    } else if key == Key::Esc {
        state.editing_image_path = false;
        state.screen = Screen::Main;
        proof {
            assert(state@ =~= spec_disk_list_key(old(state)@, key).0);
        }
        Effect::Nothing
    } else if editing {
        match key {
            Key::Char(c) => {
                if !(c == '\n' || c == '\r') {
                    push_char(&mut state.image_path_input, c);
                    proof {
                        assert(state@ =~= spec_disk_list_key(old(state)@, key).0);
                    }
                }
                Effect::Nothing
            },
            Key::Backspace => {
                pop_char(&mut state.image_path_input);
                proof {
                    assert(state@ =~= spec_disk_list_key(old(state)@, key).0);
                }
                Effect::Nothing
            },
            _ => Effect::Nothing,
        }
    } else {
        Effect::Nothing
    }
}

/// The state once the entered image path was found to exist or not.
pub open spec fn spec_image_path_checked(s: AppStateView, exists: bool) -> (AppStateView, EffectView) {
    let p = s.image_path_input;
    if exists {
        (
            AppStateView { selected_disk: Some(p), log_lines: spec_log(s.log_lines, "選取 image: "@ + p), ..s },
            EffectView::InspectTarget(p, InspectPurpose::ImageChosen),
        )
    } else {
        (AppStateView { log_lines: spec_log(s.log_lines, "檔案不存在: "@ + p), ..s }, EffectView::Nothing)
    }
}

/// Takes whether the entered image path exists.
pub fn image_path_checked(state: &mut AppState, exists: bool) -> (e: Effect)
    ensures
        (final(state)@, e@) == spec_image_path_checked(old(state)@, exists),
{
    let p = state.image_path_input.clone();
    if exists {
        state.selected_disk = Some(p.clone());
        state.log(concat("選取 image: ", p.as_str()));
        proof {
            assert(state@ =~= spec_image_path_checked(old(state)@, exists).0);
        }
        Effect::InspectTarget(p, InspectPurpose::ImageChosen)
    } else {
        state.log(concat("檔案不存在: ", p.as_str()));
        proof {
            assert(state@ =~= spec_image_path_checked(old(state)@, exists).0);
        }
        Effect::Nothing
    }
}

/// A key on the partition table screen.
pub open spec fn spec_part_table_key(s: AppStateView, key: Key) -> AppStateView {
    if key == Key::Char('f') || key == Key::Char('F') {
        AppStateView { template_index: 0, screen: Screen::QuickLayout, ..s }
    } else if key == Key::Esc {
        AppStateView { screen: Screen::Main, ..s }
    } else {
        s
    }
}

/// Handles a key on the partition table screen.
pub fn handle_part_table(state: &mut AppState, key: Key) -> (e: Effect)
    ensures
        final(state)@ == spec_part_table_key(old(state)@, key),
        e@ == EffectView::Nothing,
{
    if key == Key::Char('f') || key == Key::Char('F') {
        state.template_index = 0;
        state.screen = Screen::QuickLayout;
    } else if key == Key::Esc {
        state.screen = Screen::Main;
    }
    proof {
        assert(state@ =~= spec_part_table_key(old(state)@, key));
    }
    Effect::Nothing
}

/// The conditions under which a key on the quick layout is handled.
pub open spec fn quick_layout_key_ok(s: AppStateView, key: Key) -> bool {
    (key == Key::Down || key == Key::Char('j')) ==> s.templates.len() > 0 && s.template_index
        < usize::MAX
}

/// The message of a failed draft.
pub open spec fn draft_failed_text(e: Seq<char>) -> Seq<char> {
    "❌ 產生草稿失敗: "@ + e
}

/// A key on the quick layout screen.
pub open spec fn spec_quick_layout_key(s: AppStateView, key: Key) -> (AppStateView, EffectView) {
    if key == Key::Up || key == Key::Char('k') {
        (AppStateView { template_index: step_up(s.template_index), ..s }, EffectView::Nothing)
    } else if key == Key::Down || key == Key::Char('j') {
        (AppStateView { template_index: step_down(s.template_index, s.templates.len()), ..s }, EffectView::Nothing)
    } else if key == Key::Enter {
        if s.template_index < s.templates.len() {
            let name = s.templates[s.template_index as int];
            let s1 = AppStateView { selected_template: name, ..s };
            match s.selected_disk {
                Some(p) => (s1, EffectView::GenerateDraft(name, p)),
                None => (
                    AppStateView {
                        preview_text: draft_failed_text("請先選擇目標磁碟或 image"@),
                        screen: Screen::Preview,
                        ..s1
                    },
                    EffectView::Nothing,
                ),
            }
        } else {
            (s, EffectView::Nothing)
        }
    } else if key == Key::Esc {
        (AppStateView { screen: Screen::Main, ..s }, EffectView::Nothing)
    } else {
        (s, EffectView::Nothing)
    }
}

/// Handles a key on the quick layout screen.
pub fn handle_quick_layout(state: &mut AppState, key: Key) -> (e: Effect)
    requires
        quick_layout_key_ok(old(state)@, key),
    ensures
        (final(state)@, e@) == spec_quick_layout_key(old(state)@, key),
{
    if key == Key::Up || key == Key::Char('k') {
        state.template_index = if state.template_index > 0 {
            state.template_index - 1
        } else {
            0
        };
        proof {
            assert(state@ =~= spec_quick_layout_key(old(state)@, key).0);
        }
        Effect::Nothing
    } else if key == Key::Down || key == Key::Char('j') {
        let last = state.templates.len() - 1;
        let next = state.template_index + 1;
        state.template_index = if next < last {
            next
        } else {
            last
        };
        proof {
            assert(state@ =~= spec_quick_layout_key(old(state)@, key).0);
        }
        Effect::Nothing
    } else if key == Key::Enter {
        if state.template_index < state.templates.len() {
            let name = state.templates[state.template_index].clone();
            state.selected_template = name.clone();
            match &state.selected_disk {
                Some(p) => {
                    let path = p.clone();
                    proof {
                        assert(state@ =~= spec_quick_layout_key(old(state)@, key).0);
                    }
                    Effect::GenerateDraft(name, path)
                },
                None => {
                    state.preview_text = concat("❌ 產生草稿失敗: ", "請先選擇目標磁碟或 image");
                    state.screen = Screen::Preview;
                    proof {
                        assert(state@ =~= spec_quick_layout_key(old(state)@, key).0);
                    }
                    Effect::Nothing
                },
            }
        } else {
            Effect::Nothing
        }
    } else if key == Key::Esc {
        state.screen = Screen::Main;
        proof {
            assert(state@ =~= spec_quick_layout_key(old(state)@, key).0);
        }
        Effect::Nothing
    } else {
        Effect::Nothing
    }
}

/// Takes the draft built for the chosen template, with its preview text, or
/// the reason it could not be built.
pub fn draft_generated(state: &mut AppState, result: Result<(LayoutDraft, String), String>)
    ensures
        final(state)@ == (match result {
            Ok((d, text)) => AppStateView {
                draft: Some(d@),
                preview_text: text@,
                screen: Screen::Preview,
                ..old(state)@
            },
            Err(e) => AppStateView { preview_text: draft_failed_text(e@), screen: Screen::Preview, ..old(state)@ },
        }),
{
    match result {
        Ok((d, text)) => {
            state.draft = Some(d);
            state.preview_text = text;
        },
        Err(e) => {
            state.preview_text = concat("❌ 產生草稿失敗: ", e.as_str());
        },
    }
    state.screen = Screen::Preview;
    proof {
        assert(state@ =~= (match result {
            Ok((d, text)) => AppStateView {
                draft: Some(d@),
                preview_text: text@,
                screen: Screen::Preview,
                ..old(state)@
            },
            Err(e) => AppStateView { preview_text: draft_failed_text(e@), screen: Screen::Preview, ..old(state)@ },
        }));
    }
}

/// The write confirmation screen, asking for the target's phrase.
pub open spec fn spec_prepare_write(s: AppStateView) -> AppStateView {
    AppStateView {
        confirm_phrase: match s.selected_disk {
            Some(p) => spec_confirmation_phrase(p),
            None => Seq::empty(),
        },
        confirm_input: Seq::empty(),
        confirm_error: None,
        screen: Screen::WriteConfirm,
        ..s
    }
}

/// Opens the write confirmation for the selected target.
pub fn prepare_write_confirmation(state: &mut AppState)
    ensures
        final(state)@ == spec_prepare_write(old(state)@),
{
    state.confirm_phrase = match &state.selected_disk {
        Some(p) => disk_confirmation_phrase(p.as_str()),
        None => String::new(),
    };
    state.confirm_input = String::new();
    state.confirm_error = None;
    state.screen = Screen::WriteConfirm;
    proof {
        assert(state@ =~= spec_prepare_write(old(state)@));
    }
}

/// The state once the backup file was found to be a file or not.
pub open spec fn spec_backup_checked(s: AppStateView, is_file: bool, from: BackupCheckFrom) -> AppStateView {
    if is_file {
        spec_prepare_write(s)
    } else {
        match from {
            BackupCheckFrom::Preview => AppStateView {
                backup_status: "寫入前必須先建立備份"@,
                screen: Screen::BackupConfirm,
                ..s
            },
            BackupCheckFrom::BackupConfirm => AppStateView { backup_status: "寫入前必須先建立有效備份"@, ..s },
        }
    }
}

/// Takes whether the backup file is a regular file: writing may only be
/// confirmed after a backup.
pub fn backup_checked(state: &mut AppState, is_file: bool, from: BackupCheckFrom)
    ensures
        final(state)@ == spec_backup_checked(old(state)@, is_file, from),
{
    if is_file {
        prepare_write_confirmation(state);
    } else {
        match from {
            BackupCheckFrom::Preview => {
                state.backup_status = string_of("寫入前必須先建立備份");
                state.screen = Screen::BackupConfirm;
            },
            BackupCheckFrom::BackupConfirm => {
                state.backup_status = string_of("寫入前必須先建立有效備份");
            },
        }
        proof {
            assert(state@ =~= spec_backup_checked(old(state)@, is_file, from));
        }
    }
}

/// Asking to write: with a backup path, its file is checked; without one,
/// the write is refused at once.
pub open spec fn spec_request_write(s: AppStateView, from: BackupCheckFrom) -> (AppStateView, EffectView) {
    match s.backup_path {
        Some(bp) => (s, EffectView::CheckBackupFile(bp, from)),
        None => (spec_backup_checked(s, false, from), EffectView::Nothing),
    }
}

fn request_write(state: &mut AppState, from: BackupCheckFrom) -> (e: Effect)
    ensures
        (final(state)@, e@) == spec_request_write(old(state)@, from),
{
    match &state.backup_path {
        Some(bp) => Effect::CheckBackupFile(bp.clone(), from),
        None => {
            backup_checked(state, false, from);
            Effect::Nothing
        },
    }
}

/// A key on the preview screen.
pub open spec fn spec_preview_key(s: AppStateView, key: Key) -> (AppStateView, EffectView) {
    if key == Key::Char('e') || key == Key::Char('E') {
        if s.draft is Some {
            (
                AppStateView {
                    editor_selected: 0,
                    editor_input: Seq::empty(),
                    editor_error: None,
                    screen: Screen::SizeEditor,
                    ..s
                },
                EffectView::Nothing,
            )
        } else {
            (s, EffectView::Nothing)
        }
    } else if key == Key::Char('b') || key == Key::Char('B') {
        (
            AppStateView { backup_status: "尚未備份"@, backup_path: None, screen: Screen::BackupConfirm, ..s },
            EffectView::Nothing,
        )
    } else if key == Key::Char('w') || key == Key::Char('W') {
        spec_request_write(s, BackupCheckFrom::Preview)
    } else if key == Key::Esc {
        (AppStateView { screen: Screen::QuickLayout, ..s }, EffectView::Nothing)
    } else {
        (s, EffectView::Nothing)
    }
}

/// Handles a key on the preview screen.
pub fn handle_preview(state: &mut AppState, key: Key) -> (e: Effect)
    ensures
        (final(state)@, e@) == spec_preview_key(old(state)@, key),
{
    if key == Key::Char('e') || key == Key::Char('E') {
        if state.draft.is_some() {
            state.editor_selected = 0;
            state.editor_input = String::new();
            state.editor_error = None;
            state.screen = Screen::SizeEditor;
            proof {
                assert(state@ =~= spec_preview_key(old(state)@, key).0);
            }
        }
        Effect::Nothing
    } else if key == Key::Char('b') || key == Key::Char('B') {
        state.backup_status = string_of("尚未備份");
        state.backup_path = None;
        state.screen = Screen::BackupConfirm;
        proof {
            assert(state@ =~= spec_preview_key(old(state)@, key).0);
        }
        Effect::Nothing
    } else if key == Key::Char('w') || key == Key::Char('W') {
        request_write(state, BackupCheckFrom::Preview)
    } else if key == Key::Esc {
        state.screen = Screen::QuickLayout;
        proof {
            assert(state@ =~= spec_preview_key(old(state)@, key).0);
        }
        Effect::Nothing
    } else {
        Effect::Nothing
    }
}

/// The message that reports a finished write.
pub open spec fn write_done_text(count: nat, s: AppStateView) -> Seq<char> {
    "寫入完成並驗證 "@ + decimal_chars(count) + " 個分區 — "@ + match s.selected_disk {
        Some(p) => p,
        None => "?"@,
    }
}

/// The state once the write ended: back to the main menu with a report,
/// or the error shown on the confirmation screen. Both are logged.
pub open spec fn spec_write_finished(s: AppStateView, result: Result<usize, Seq<char>>) -> AppStateView {
    match result {
        Ok(n) => {
            let m = write_done_text(n as nat, s);
            AppStateView {
                confirm_error: None,
                screen: Screen::Main,
                message: m,
                log_lines: spec_log(s.log_lines, m),
                ..s
            }
        },
        Err(e) => {
            let m = "寫入失敗: "@ + e;
            AppStateView { confirm_error: Some(m), log_lines: spec_log(s.log_lines, m), ..s }
        },
    }
}

/// The view of a write result.
pub open spec fn write_result_view(r: Result<usize, String>) -> Result<usize, Seq<char>> {
    match r {
        Ok(n) => Ok(n),
        Err(e) => Err(e@),
    }
}

/// Takes the result of the write: the number of partitions read back, or
/// why the write failed.
pub fn write_finished(state: &mut AppState, result: Result<usize, String>)
    ensures
        final(state)@ == spec_write_finished(old(state)@, write_result_view(result)),
{
    match result {
        Ok(n) => {
            let number = decimal_string(n as u64);
            let mut m = concat3("寫入完成並驗證 ", number.as_str(), " 個分區 — ");
            match &state.selected_disk {
                Some(p) => m.append(p.as_str()),
                None => m.append("?"),
            }
            state.confirm_error = None;
            state.screen = Screen::Main;
            state.message = m.clone();
            state.log(m);
        },
        Err(e) => {
            let m = concat("寫入失敗: ", e.as_str());
            state.confirm_error = Some(m.clone());
            state.log(m);
        },
    }
    proof {
        assert(state@ =~= spec_write_finished(old(state)@, write_result_view(result)));
    }
}

/// Starting the write: the target must be selected.
pub open spec fn spec_begin_write(s: AppStateView) -> (AppStateView, EffectView) {
    match s.selected_disk {
        Some(p) => (s, EffectView::CheckWriteTarget(p, s.backup_path)),
        None => (spec_write_finished(s, Err("未選取目標 image"@)), EffectView::Nothing),
    }
}

fn begin_write(state: &mut AppState) -> (e: Effect)
    ensures
        (final(state)@, e@) == spec_begin_write(old(state)@),
{
    match &state.selected_disk {
        Some(p) => Effect::CheckWriteTarget(p.clone(), crate::model::copy_opt_string(&state.backup_path)),
        None => {
            write_finished(state, Err(string_of("未選取目標 image")));
            Effect::Nothing
        },
    }
}

/// The checks before the write: the target must be an image file, a backup
/// must exist as a file, and there must be a draft.
pub open spec fn spec_write_target_checked(s: AppStateView, target_is_image_file: bool, backup_is_file: bool) -> (
    AppStateView,
    EffectView,
) {
    if !target_is_image_file {
        (spec_write_finished(s, Err("TUI 僅允許寫入一般 image 檔案，不支援實體磁碟"@)), EffectView::Nothing)
    } else {
        match s.backup_path {
            None => (spec_write_finished(s, Err("尚未建立備份"@)), EffectView::Nothing),
            Some(bp) => if !backup_is_file {
                (spec_write_finished(s, Err("備份檔不存在: "@ + bp)), EffectView::Nothing)
            } else if s.draft is None {
                (spec_write_finished(s, Err("沒有可寫入的分割區草稿"@)), EffectView::Nothing)
            } else {
                (s, EffectView::WriteImage(s.selected_disk->0, bp))
            },
        }
    }
}

/// Takes whether the target is a regular image file and whether the backup
/// is a regular file.
pub fn write_target_checked(state: &mut AppState, target_is_image_file: bool, backup_is_file: bool) -> (e: Effect)
    requires
        old(state).selected_disk is Some,
    ensures
        (final(state)@, e@) == spec_write_target_checked(old(state)@, target_is_image_file, backup_is_file),
{
    if !target_is_image_file {
        write_finished(state, Err(string_of("TUI 僅允許寫入一般 image 檔案，不支援實體磁碟")));
        return Effect::Nothing;
    }
    let bp = match &state.backup_path {
        None => {
            write_finished(state, Err(string_of("尚未建立備份")));
            return Effect::Nothing;
        },
        Some(bp) => bp.clone(),
    };
    if !backup_is_file {
        write_finished(state, Err(concat("備份檔不存在: ", bp.as_str())));
        return Effect::Nothing;
    }
    if state.draft.is_none() {
        write_finished(state, Err(string_of("沒有可寫入的分割區草稿")));
        return Effect::Nothing;
    }
    let disk = match &state.selected_disk {
        Some(p) => p.clone(),
        None => String::new(),
    };
    Effect::WriteImage(disk, bp)
}

/// The error shown when the typed phrase is wrong.
pub open spec fn wrong_phrase_text(typed: Seq<char>, expected: Seq<char>) -> Seq<char> {
    "輸入「"@ + typed + "」不正確，應為「"@ + expected + "」"@
}

/// A key on the write confirmation screen.
pub open spec fn spec_write_confirm_key(s: AppStateView, key: Key) -> (AppStateView, EffectView) {
    match key {
        Key::Char(c) => if !crate::text::spec_is_control(c) {
            (AppStateView { confirm_input: s.confirm_input.push(c), ..s }, EffectView::Nothing)
        } else {
            (s, EffectView::Nothing)
        },
        Key::Backspace => (
            AppStateView {
                confirm_input: if s.confirm_input.len() > 0 {
                    s.confirm_input.drop_last()
                } else {
                    s.confirm_input
                },
                ..s
            },
            EffectView::Nothing,
        ),
        Key::Enter => {
            let typed = trim_spec(s.confirm_input);
            if typed == s.confirm_phrase {
                spec_begin_write(
                    AppStateView { log_lines: spec_log(s.log_lines, "確認文字正確，開始寫入 image..."@), ..s },
                )
            } else {
                (
                    AppStateView { confirm_error: Some(wrong_phrase_text(typed, s.confirm_phrase)), ..s },
                    EffectView::Nothing,
                )
            }
        },
        Key::Esc => (
            AppStateView { confirm_input: Seq::empty(), confirm_error: None, screen: Screen::Preview, ..s },
            EffectView::Nothing,
        ),
        _ => (s, EffectView::Nothing),
    }
}

/// Handles a key on the write confirmation screen.
pub fn handle_write_confirm(state: &mut AppState, key: Key) -> (e: Effect)
    ensures
        (final(state)@, e@) == spec_write_confirm_key(old(state)@, key),
{
    match key {
        Key::Char(c) => {
            if !is_control_char(c) {
                push_char(&mut state.confirm_input, c);
                proof {
                    assert(state@ =~= spec_write_confirm_key(old(state)@, key).0);
                }
            }
            Effect::Nothing
        },
        Key::Backspace => {
            pop_char(&mut state.confirm_input);
            proof {
                assert(state@ =~= spec_write_confirm_key(old(state)@, key).0);
            }
            Effect::Nothing
        },
        Key::Enter => {
            let typed = trim(state.confirm_input.as_str());
            if same_text(typed.as_str(), state.confirm_phrase.as_str()) {
                state.log(string_of("確認文字正確，開始寫入 image..."));
                begin_write(state)
            } else {
                let mut m = concat3("輸入「", typed.as_str(), "」不正確，應為「");
                m.append(state.confirm_phrase.as_str());
                m.append("」");
                state.confirm_error = Some(m);
                proof {
                    assert(state@ =~= spec_write_confirm_key(old(state)@, key).0);
                }
                Effect::Nothing
            }
        },
        Key::Esc => {
            state.confirm_input = String::new();
            state.confirm_error = None;
            state.screen = Screen::Preview;
            proof {
                assert(state@ =~= spec_write_confirm_key(old(state)@, key).0);
            }
            Effect::Nothing
        },
        _ => Effect::Nothing,
    }
}

/// The draft partitions with the `selected` one resized to `size` (no
/// change when there is no such partition).
pub open spec fn spec_resized(parts: Seq<PartitionDraftView>, selected: usize, size: u64) -> Seq<PartitionDraftView> {
    if selected < parts.len() {
        parts.update(selected as int, PartitionDraftView { size_bytes: size, ..parts[selected as int] })
    } else {
        parts
    }
}

/// The number of 512-byte sectors that hold `bytes` bytes.
pub open spec fn sectors_for(bytes: u64) -> nat {
    (bytes as nat + 511) / 512
}

/// The partitions laid out back to back from `lba`: each starts where the
/// previous one's sectors end (a start that would pass `u64::MAX` repeats
/// the previous start).
pub open spec fn spec_relaid(parts: Seq<PartitionDraftView>, lba: u64) -> Seq<PartitionDraftView>
    decreases parts.len(),
{
    if parts.len() == 0 {
        Seq::empty()
    } else {
        let p = parts[0];
        let end = lba as nat + sectors_for(p.size_bytes);
        let next: u64 = if end <= u64::MAX { end as u64 } else { lba };
        seq![PartitionDraftView { start_lba: lba, ..p }] + spec_relaid(parts.drop_first(), next)
    }
}

/// The first sector of a relaid draft: 2048, the 1 MiB boundary.
pub const FIRST_PARTITION_LBA: u64 = 2048;

/// The draft with the selected partition resized and every partition moved
/// to follow the previous one from sector 2048.
pub open spec fn spec_apply_size(d: LayoutDraftView, selected: usize, size: u64) -> LayoutDraftView {
    LayoutDraftView { partitions: spec_relaid(spec_resized(d.partitions, selected, size), 2048), ..d }
}

fn div_ceil_512(bytes: u64) -> (r: u64)
    ensures
        r as nat == sectors_for(bytes),
{
    bytes / 512 + if bytes % 512 != 0 {
        1u64
    } else {
        0u64
    }
}

/// Resizes the `selected` partition of a draft and lays the partitions out
/// again from sector 2048.
pub fn apply_partition_size(draft: LayoutDraft, selected: usize, size: u64) -> (r: LayoutDraft)
    ensures
        r@ == spec_apply_size(draft@, selected, size),
{
    let LayoutDraft { template_name, display_name, table, boot_mode, partitions } = draft;
    let ghost target = spec_resized(partitions@.map_values(|p: PartitionDraft| p@), selected, size);
    let ghost whole = spec_relaid(target, 2048);
    let mut rest = partitions;
    let mut out: Vec<PartitionDraft> = Vec::new();
    let mut lba: u64 = FIRST_PARTITION_LBA;
    let mut k: usize = 0;
    let n = rest.len();
    proof {
        assert(target.subrange(0, n as int) =~= target);
        assert(rest@ =~= partitions@.subrange(0, n as int));
        assert(rest@.map_values(|p: PartitionDraft| p@) =~= partitions@.map_values(|p: PartitionDraft| p@));
    }
    while rest.len() > 0
        invariant
            n == partitions@.len(),
            target.len() == n,
            k + rest@.len() == n,
            rest@ == partitions@.subrange(k as int, n as int),
            target == spec_resized(partitions@.map_values(|p: PartitionDraft| p@), selected, size),
            out@.map_values(|p: PartitionDraft| p@) + spec_relaid(target.subrange(k as int, n as int), lba) == whole,
        decreases rest@.len(),
    {
        let ghost rest_view = target.subrange(k as int, n as int);
        let mut p = rest.remove(0);
        proof {
            assert(rest@ =~= partitions@.subrange(k + 1, n as int));
        }
        if k == selected {
            p.size_bytes = size;
        }
        proof {
            assert(p@ == target[k as int]);
            assert(rest_view[0] == target[k as int]);
            assert(rest_view.drop_first() =~= target.subrange(k + 1, n as int));
        }
        let start = lba;
        p.start_lba = start;
        let sectors = div_ceil_512(p.size_bytes);
        lba = match lba.checked_add(sectors) {
            Some(v) => v,
            None => lba,
        };
        let ghost pre = out@.map_values(|q: PartitionDraft| q@);
        out.push(p);
        proof {
            assert(out@.map_values(|q: PartitionDraft| q@) =~= pre.push(p@));
            assert(seq![p@] + spec_relaid(target.subrange(k + 1, n as int), lba) == spec_relaid(rest_view, start));
            assert(pre.push(p@) + spec_relaid(target.subrange(k + 1, n as int), lba) =~= pre + (seq![p@]
                + spec_relaid(target.subrange(k + 1, n as int), lba)));
        }
        k = k + 1;
    }
    proof {
        assert(target.subrange(n as int, n as int) =~= Seq::<PartitionDraftView>::empty());
        assert(out@.map_values(|p: PartitionDraft| p@) + Seq::<PartitionDraftView>::empty() =~= out@.map_values(
            |p: PartitionDraft| p@,
        ));
    }
    let r = LayoutDraft { template_name, display_name, table, boot_mode, partitions: out };
    proof {
        assert(r@ =~= spec_apply_size(draft@, selected, size));
    }
    r
}

/// The conditions under which a key on the size editor is handled.
pub open spec fn size_editor_key_ok(s: AppStateView, key: Key) -> bool {
    (key == Key::Down || key == Key::Char('j')) && s.draft is Some && s.editor_input.len() == 0
        ==> s.editor_selected < usize::MAX
}

/// A key on the size editor (which does nothing without a draft).
pub open spec fn spec_size_editor_key(s: AppStateView, key: Key) -> (AppStateView, EffectView) {
    if s.draft is None {
        (s, EffectView::Nothing)
    } else if key == Key::Up || key == Key::Char('k') {
        if s.editor_input.len() == 0 {
            (AppStateView { editor_selected: step_up(s.editor_selected), ..s }, EffectView::Nothing)
        } else {
            (s, EffectView::Nothing)
        }
    } else if key == Key::Down || key == Key::Char('j') {
        if s.editor_input.len() == 0 {
            (
                AppStateView {
                    editor_selected: step_down(s.editor_selected, s.draft->0.partitions.len()),
                    ..s
                },
                EffectView::Nothing,
            )
        } else {
            (s, EffectView::Nothing)
        }
    } else if key == Key::Enter {
        if s.editor_input.len() > 0 {
            (s, EffectView::ParseSize(s.editor_input))
        } else {
            (s, EffectView::Nothing)
        }
    } else if key == Key::Esc {
        (
            AppStateView { editor_input: Seq::empty(), editor_error: None, screen: Screen::Preview, ..s },
            EffectView::Nothing,
        )
    } else if key is Char {
        (
            AppStateView { editor_input: s.editor_input.push(key->Char_0), editor_error: None, ..s },
            EffectView::Nothing,
        )
    } else if key == Key::Backspace {
        (
            AppStateView {
                editor_input: if s.editor_input.len() > 0 {
                    s.editor_input.drop_last()
                } else {
                    s.editor_input
                },
                ..s
            },
            EffectView::Nothing,
        )
    } else {
        (s, EffectView::Nothing)
    }
}

/// Handles a key on the size editor.
pub fn handle_size_editor(state: &mut AppState, key: Key) -> (e: Effect)
    requires
        size_editor_key_ok(old(state)@, key),
    ensures
        (final(state)@, e@) == spec_size_editor_key(old(state)@, key),
{
    let count = match &state.draft {
        Some(d) => d.partitions.len(),
        None => {
            return Effect::Nothing;
        },
    };
    let empty_input = state.editor_input.as_str().unicode_len() == 0;
    if key == Key::Up || key == Key::Char('k') {
        if empty_input {
            state.editor_selected = if state.editor_selected > 0 {
                state.editor_selected - 1
            } else {
                0
            };
            proof {
                assert(state@ =~= spec_size_editor_key(old(state)@, key).0);
            }
        }
        Effect::Nothing
    } else if key == Key::Down || key == Key::Char('j') {
        if empty_input {
            let last = if count == 0 {
                0
            } else {
                count - 1
            };
            let next = state.editor_selected + 1;
            state.editor_selected = if next < last {
                next
            } else {
                last
            };
            proof {
                assert(state@ =~= spec_size_editor_key(old(state)@, key).0);
            }
        }
        Effect::Nothing
    } else if key == Key::Enter {
        if !empty_input {
            Effect::ParseSize(state.editor_input.clone())
        } else {
            Effect::Nothing
        }
    } else if key == Key::Esc {
        state.editor_input = String::new();
        state.editor_error = None;
        state.screen = Screen::Preview;
        proof {
            assert(state@ =~= spec_size_editor_key(old(state)@, key).0);
        }
        Effect::Nothing
    } else {
        match key {
            Key::Char(c) => {
                push_char(&mut state.editor_input, c);
                state.editor_error = None;
                proof {
                    assert(state@ =~= spec_size_editor_key(old(state)@, key).0);
                }
                Effect::Nothing
            },
            Key::Backspace => {
                pop_char(&mut state.editor_input);
                proof {
                    assert(state@ =~= spec_size_editor_key(old(state)@, key).0);
                }
                Effect::Nothing
            },
            _ => Effect::Nothing,
        }
    }
}

/// The state once the typed size was parsed: a positive size resizes the
/// selected partition and lays the draft out again; zero and parse errors
/// are shown under the field.
pub open spec fn spec_size_parsed(s: AppStateView, result: Result<u64, Seq<char>>) -> (AppStateView, EffectView) {
    if s.draft is None {
        (s, EffectView::Nothing)
    } else {
        match result {
            Ok(bytes) => if bytes > 0 {
                (
                    AppStateView {
                        draft: Some(spec_apply_size(s.draft->0, s.editor_selected, bytes)),
                        editor_input: Seq::empty(),
                        editor_error: None,
                        log_lines: spec_log(
                            s.log_lines,
                            "分區 "@ + decimal_chars((s.editor_selected + 1) as nat) + " 大小已更新"@,
                        ),
                        ..s
                    },
                    EffectView::RenderPreview,
                )
            } else {
                (AppStateView { editor_error: Some("大小必須大於 0"@), ..s }, EffectView::Nothing)
            },
            Err(e) => (AppStateView { editor_error: Some("大小格式錯誤: "@ + e), ..s }, EffectView::Nothing),
        }
    }
}

/// The view of a size parse result.
pub open spec fn size_result_view(r: Result<u64, String>) -> Result<u64, Seq<char>> {
    match r {
        Ok(n) => Ok(n),
        Err(e) => Err(e@),
    }
}

/// Takes the parse of the typed size: bytes, or why it is not a size.
pub fn size_parsed(state: &mut AppState, result: Result<u64, String>) -> (e: Effect)
    requires
        (result matches Ok(bytes) && bytes > 0 && old(state).draft is Some) ==> old(
            state,
        ).editor_selected < usize::MAX,
    ensures
        (final(state)@, e@) == spec_size_parsed(old(state)@, size_result_view(result)),
{
    if state.draft.is_none() {
        return Effect::Nothing;
    }
    match result {
        Ok(bytes) => {
            if bytes > 0 {
                let d = match state.draft.take() {
                    Some(d) => d,
                    None => {
                        return Effect::Nothing;
                    },
                };
                state.draft = Some(apply_partition_size(d, state.editor_selected, bytes));
                state.editor_input = String::new();
                state.editor_error = None;
                let number = decimal_string((state.editor_selected + 1) as u64);
                state.log(concat3("分區 ", number.as_str(), " 大小已更新"));
                proof {
                    assert(state@ =~= spec_size_parsed(old(state)@, size_result_view(result)).0);
                }
                Effect::RenderPreview
            } else {
                state.editor_error = Some(string_of("大小必須大於 0"));
                proof {
                    assert(state@ =~= spec_size_parsed(old(state)@, size_result_view(result)).0);
                }
                Effect::Nothing
            }
        },
        Err(e) => {
            state.editor_error = Some(concat("大小格式錯誤: ", e.as_str()));
            proof {
                assert(state@ =~= spec_size_parsed(old(state)@, size_result_view(result)).0);
            }
            Effect::Nothing
        },
    }
}

/// Takes the preview text of the current draft.
pub fn preview_rendered(state: &mut AppState, text: String)
    ensures
        final(state)@ == (AppStateView { preview_text: text@, ..old(state)@ }),
{
    state.preview_text = text;
    proof {
        assert(state@ =~= AppStateView { preview_text: text@, ..old(state)@ });
    }
}

/// What making a backup of the target gave.
#[derive(Debug)]
pub enum BackupOutcome {
    /// The disk could not be opened; the text says why.
    OpenFailed(String),
    /// The backup was written; the text names its table and time.
    Created(String),
    /// The backup failed; the text says why.
    Failed(String),
}

/// The view of a [`BackupOutcome`].
pub enum BackupOutcomeView {
    OpenFailed(Seq<char>),
    Created(Seq<char>),
    Failed(Seq<char>),
}

impl View for BackupOutcome {
    type V = BackupOutcomeView;

    open spec fn view(&self) -> BackupOutcomeView {
        match self {
            BackupOutcome::OpenFailed(e) => BackupOutcomeView::OpenFailed(e@),
            BackupOutcome::Created(t) => BackupOutcomeView::Created(t@),
            BackupOutcome::Failed(e) => BackupOutcomeView::Failed(e@),
        }
    }
}

/// The backup file of a target: its path with `.rspbak` appended.
pub open spec fn backup_file_of(path: Seq<char>) -> Seq<char> {
    path + ".rspbak"@
}

/// A key on the backup confirmation screen.
pub open spec fn spec_backup_confirm_key(s: AppStateView, key: Key) -> (AppStateView, EffectView) {
    if key == Key::Char('b') || key == Key::Char('B') {
        match s.selected_disk {
            None => (AppStateView { backup_status: "錯誤: 未選取磁碟"@, ..s }, EffectView::Nothing),
            Some(p) => (
                AppStateView {
                    backup_status: "備份中..."@,
                    log_lines: spec_log(s.log_lines, "正在建立備份..."@),
                    ..s
                },
                EffectView::CreateBackup(p, backup_file_of(p)),
            ),
        }
    } else if key == Key::Char('w') || key == Key::Char('W') {
        spec_request_write(s, BackupCheckFrom::BackupConfirm)
    } else if key == Key::Esc {
        (AppStateView { screen: Screen::Preview, ..s }, EffectView::Nothing)
    } else {
        (s, EffectView::Nothing)
    }
}

/// Handles a key on the backup confirmation screen.
pub fn handle_backup_confirm(state: &mut AppState, key: Key) -> (e: Effect)
    ensures
        (final(state)@, e@) == spec_backup_confirm_key(old(state)@, key),
{
    if key == Key::Char('b') || key == Key::Char('B') {
        let path = match &state.selected_disk {
            Some(p) => p.clone(),
            None => {
                state.backup_status = string_of("錯誤: 未選取磁碟");
                proof {
                    assert(state@ =~= spec_backup_confirm_key(old(state)@, key).0);
                }
                return Effect::Nothing;
            },
        };
        let backup_path = concat(path.as_str(), ".rspbak");
        state.backup_status = string_of("備份中...");
        state.log(string_of("正在建立備份..."));
        proof {
            assert(state@ =~= spec_backup_confirm_key(old(state)@, key).0);
        }
        Effect::CreateBackup(path, backup_path)
    } else if key == Key::Char('w') || key == Key::Char('W') {
        request_write(state, BackupCheckFrom::BackupConfirm)
    } else if key == Key::Esc {
        state.screen = Screen::Preview;
        proof {
            assert(state@ =~= spec_backup_confirm_key(old(state)@, key).0);
        }
        Effect::Nothing
    } else {
        Effect::Nothing
    }
}

/// The state once the backup of the target ended.
pub open spec fn spec_backup_finished(s: AppStateView, outcome: BackupOutcomeView) -> AppStateView {
    match outcome {
        BackupOutcomeView::OpenFailed(e) => {
            let m = "❌ 開啟磁碟失敗: "@ + e;
            AppStateView { backup_status: m, log_lines: spec_log(s.log_lines, m), ..s }
        },
        BackupOutcomeView::Created(t) => {
            let m = "✅ 備份完成（"@ + t + "）"@;
            AppStateView {
                backup_path: Some(backup_file_of(s.selected_disk->0)),
                backup_status: m,
                log_lines: spec_log(s.log_lines, m),
                ..s
            }
        },
        BackupOutcomeView::Failed(e) => {
            let m = "❌ 備份失敗: "@ + e;
            AppStateView { backup_status: m, log_lines: spec_log(s.log_lines, m), ..s }
        },
    }
}

/// Takes the result of the backup of the selected target.
pub fn backup_finished(state: &mut AppState, outcome: BackupOutcome)
    requires
        old(state).selected_disk is Some,
    ensures
        final(state)@ == spec_backup_finished(old(state)@, outcome@),
{
    match outcome {
        BackupOutcome::OpenFailed(e) => {
            let m = concat("❌ 開啟磁碟失敗: ", e.as_str());
            state.backup_status = m.clone();
            state.log(m);
        },
        BackupOutcome::Created(t) => {
            let bp = match &state.selected_disk {
                Some(p) => concat(p.as_str(), ".rspbak"),
                None => String::new(),
            };
            let m = concat3("✅ 備份完成（", t.as_str(), "）");
            state.backup_path = Some(bp);
            state.backup_status = m.clone();
            state.log(m);
        },
        BackupOutcome::Failed(e) => {
            let m = concat("❌ 備份失敗: ", e.as_str());
            state.backup_status = m.clone();
            state.log(m);
        },
    }
    proof {
        assert(state@ =~= spec_backup_finished(old(state)@, outcome@));
    }
}

/// The keys the current screen can take: left out are only those that
/// would move a cursor past `usize::MAX` or select past the end of the disk
/// list, where the handlers would overflow or index out of bounds.
pub open spec fn key_ok(s: AppStateView, key: Key) -> bool {
    match s.screen {
        Screen::GuidedScenario => (key == Key::Down || key == Key::Char('j')) ==> s.guided_index < usize::MAX,
        Screen::DiskList => disk_list_key_ok(s, key),
        Screen::QuickLayout => quick_layout_key_ok(s, key),
        Screen::SizeEditor => size_editor_key_ok(s, key),
        _ => true,
    }
}

/// A key, handled by the current screen.
pub open spec fn spec_key(s: AppStateView, key: Key) -> (AppStateView, EffectView) {
    match s.screen {
        Screen::GuidedScenario => spec_guided_key(s, key),
        Screen::Main => spec_main_key(s, key),
        Screen::DiskList => spec_disk_list_key(s, key),
        Screen::PartTable => (spec_part_table_key(s, key), EffectView::Nothing),
        Screen::QuickLayout => spec_quick_layout_key(s, key),
        Screen::Preview => spec_preview_key(s, key),
        Screen::SizeEditor => spec_size_editor_key(s, key),
        Screen::BackupConfirm => spec_backup_confirm_key(s, key),
        Screen::WriteConfirm => spec_write_confirm_key(s, key),
    }
}

/// Handles a key on the current screen, as [`spec_key`] says. The laws of
/// the terminal UI are stated over `spec_key` for every state and key.
pub fn handle_key(state: &mut AppState, key: Key) -> (e: Effect)
    requires
        key_ok(old(state)@, key),
    ensures
        (final(state)@, e@) == spec_key(old(state)@, key),
{
    match state.screen {
        Screen::GuidedScenario => handle_guided_scenario(state, key),
        Screen::Main => handle_main(state, key),
        Screen::DiskList => handle_disk_list(state, key),
        Screen::PartTable => handle_part_table(state, key),
        Screen::QuickLayout => handle_quick_layout(state, key),
        Screen::Preview => handle_preview(state, key),
        Screen::SizeEditor => handle_size_editor(state, key),
        Screen::BackupConfirm => handle_backup_confirm(state, key),
        Screen::WriteConfirm => handle_write_confirm(state, key),
    }
}

/// The UI closes when `q` is pressed on the main menu (after the key was
/// handled).
pub fn quit_requested(state: &AppState, key: Key) -> (r: bool)
    ensures
        r == (state.screen == Screen::Main && key == Key::Char('q')),
{
    state.screen == Screen::Main && key == Key::Char('q')
}

/// The first partition whose read-back start or size differs from the
/// draft, among the first `n`.
pub open spec fn first_mismatch(d: Seq<PartitionDraftView>, w: Seq<PartitionEntryView>, n: nat) -> Option<int>
    decreases n,
{
    if n == 0 {
        None
    } else {
        match first_mismatch(d, w, (n - 1) as nat) {
            Some(i) => Some(i),
            None => {
                let k = n - 1;
                if w[k].start_lba != d[k].start_lba || w[k].size_bytes != d[k].size_bytes {
                    Some(k)
                } else {
                    None
                }
            },
        }
    }
}

/// What reading the written table back shows: the partition count, or the
/// first difference from the draft.
pub open spec fn spec_verify_written(d: Seq<PartitionDraftView>, w: Seq<PartitionEntryView>) -> Result<usize, Seq<char>> {
    if w.len() != d.len() {
        Err("讀回分區數量不符: 預期 "@ + decimal_chars(d.len()) + "，實際 "@ + decimal_chars(w.len()))
    } else {
        match first_mismatch(d, w, d.len()) {
            Some(i) => Err("讀回分區「"@ + d[i].name + "」的位置或大小不符"@),
            None => Ok(w.len() as usize),
        }
    }
}

/// Compares the partitions read back after a write with the draft: same
/// count, and each at the same start with the same size.
pub fn verify_written_layout(draft: &LayoutDraft, written: &Vec<PartitionEntry>) -> (r: Result<usize, String>)
    ensures
        write_result_view(r) == spec_verify_written(draft@.partitions, written@.map_values(|p: PartitionEntry| p@)),
{
    let expected = draft.partitions.len();
    let actual = written.len();
    if actual != expected {
        let mut m = concat3("讀回分區數量不符: 預期 ", decimal_string(expected as u64).as_str(), "，實際 ");
        m.append(decimal_string(actual as u64).as_str());
        return Err(m);
    }
    let ghost d = draft@.partitions;
    let ghost w = written@.map_values(|p: PartitionEntry| p@);
    let mut i: usize = 0;
    while i < expected
        invariant
            expected == draft.partitions@.len(),
            expected == written@.len(),
            d == draft@.partitions,
            w == written@.map_values(|p: PartitionEntry| p@),
            i <= expected,
            first_mismatch(d, w, i as nat) is None,
        decreases expected - i,
    {
        let a = &written[i];
        let e = &draft.partitions[i];
        if a.start_lba != e.start_lba || a.size_bytes != e.size_bytes {
            proof {
                assert(first_mismatch(d, w, (i + 1) as nat) == Some(i as int));
                lemma_first_mismatch_stays(d, w, (i + 1) as nat, expected as nat);
            }
            return Err(concat3("讀回分區「", e.name.as_str(), "」的位置或大小不符"));
        }
        i = i + 1;
    }
    Ok(actual)
}

proof fn lemma_first_mismatch_stays(d: Seq<PartitionDraftView>, w: Seq<PartitionEntryView>, n: nat, m: nat)
    requires
        n <= m,
        first_mismatch(d, w, n) is Some,
    ensures
        first_mismatch(d, w, m) == first_mismatch(d, w, n),
    decreases m,
{
    if m > n {
        lemma_first_mismatch_stays(d, w, n, (m - 1) as nat);
    }
}

/// Whether `handle_key` can take the key in this state (a cursor that
/// cannot move past the largest index, an empty template list, or a disk
/// cursor past the disk list cannot).
pub fn key_accepted(state: &AppState, key: Key) -> (r: bool)
    ensures
        r == key_ok(state@, key),
{
    let down = key == Key::Down || key == Key::Char('j');
    match state.screen {
        Screen::GuidedScenario => !down || state.guided_index < usize::MAX,
        Screen::DiskList => {
            let editing = state.editing_image_path;
            let typed = editing && state.image_path_input.as_str().unicode_len() > 0;
            (!(down && !editing) || state.disk_index < usize::MAX) && (!(key == Key::Enter && !typed
                && state.disks.len() > 0) || state.disk_index < state.disks.len())
        },
        Screen::QuickLayout => !down || (state.templates.len() > 0 && state.template_index < usize::MAX),
        Screen::SizeEditor => {
            let empty = state.editor_input.as_str().unicode_len() == 0;
            !(down && state.draft.is_some() && empty) || state.editor_selected < usize::MAX
        },
        _ => true,
    }
}

} // verus!
