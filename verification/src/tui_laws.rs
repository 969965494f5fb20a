//! What holds of the terminal UI across all states and keys: the guarded
//! path to a write, cursors that stay on their lists, the template list,
//! the bounded log and the back-to-back layout of a resized draft.

use vstd::prelude::*;

use crate::model::{LayoutDraftView, PartitionDraftView, PartitionEntryView};
use crate::text::trim_spec;
use crate::tui::{
    first_mismatch, sectors_for, spec_apply_size, spec_verify_written, spec_backup_checked, spec_key, spec_prepare_write, spec_relaid,
    spec_resized, spec_select_guided, spec_write_target_checked,
};
use crate::tui_state::{
    lemma_position_contains, spec_initial_templates, spec_log, spec_scenario_at, with_template,
    AppStateView, BackupCheckFrom, EffectView, GuidedScenario, Key, Screen,
};

verus! {

proof fn lemma_with_template_keeps(list: Seq<Seq<char>>, name: Seq<char>, other: Seq<char>)
    ensures
        list.contains(other) ==> with_template(list, name).contains(other),
        with_template(list, name).contains(name),
{
    let t = with_template(list, name);
    if list.contains(other) && !list.contains(name) {
        let k = choose|k: int| 0 <= k < list.len() && list[k] == other;
        assert(t[k] == other);
    }
    if !list.contains(name) {
        assert(t[t.len() - 1] == name);
    }
}

/// The template list always offers the template of every guided scenario.
pub proof fn lemma_initial_templates_offer_scenarios(found: Seq<Seq<char>>, index: int)
    requires
        0 <= index < 4,
    ensures
        spec_initial_templates(found).contains(spec_scenario_at(index)->0.spec_template_name()),
{
    let base = if found.len() == 0 { crate::tui_state::default_templates() } else { found };
    let w = GuidedScenario::Windows.spec_template_name();
    let l = GuidedScenario::Linux.spec_template_name();
    let m = GuidedScenario::Macos.spec_template_name();
    let b = GuidedScenario::Multiboot.spec_template_name();
    let t1 = with_template(base, w);
    let t2 = with_template(t1, l);
    let t3 = with_template(t2, m);
    lemma_with_template_keeps(base, w, w);
    lemma_with_template_keeps(t1, l, w);
    lemma_with_template_keeps(t2, m, w);
    lemma_with_template_keeps(t3, b, w);
    lemma_with_template_keeps(t1, l, l);
    lemma_with_template_keeps(t2, m, l);
    lemma_with_template_keeps(t3, b, l);
    lemma_with_template_keeps(t2, m, m);
    lemma_with_template_keeps(t3, b, m);
    lemma_with_template_keeps(t3, b, b);
}

/// Picking a guided scenario selects its template and points the template
/// cursor at that template in the list.
pub proof fn lemma_select_guided_points_at_template(s: AppStateView, index: usize)
    requires
        index < 4,
        s.templates.len() < usize::MAX,
    ensures
        ({
            let r = spec_select_guided(s, index).0;
            let name = spec_scenario_at(index as int)->0.spec_template_name();
            &&& r.selected_template == name
            &&& r.guided_index == index
            &&& r.template_index < r.templates.len()
            &&& r.templates[r.template_index as int] == name
        }),
{
    let name = spec_scenario_at(index as int)->0.spec_template_name();
    let t = with_template(s.templates, name);
    lemma_with_template_keeps(s.templates, name, name);
    lemma_position_contains(t, name);
}

/// No key opens the write confirmation: only a backup file that was found
/// to exist does (see [`lemma_write_confirm_needs_backup_file`]).
pub proof fn lemma_keys_never_open_write_confirm(s: AppStateView, key: Key)
    requires
        s.screen != Screen::WriteConfirm,
    ensures
        spec_key(s, key).0.screen != Screen::WriteConfirm,
{
    let _ = spec_key(s, key);
}

/// The write confirmation opens only when the backup file exists.
pub proof fn lemma_write_confirm_needs_backup_file(s: AppStateView, is_file: bool, from: BackupCheckFrom)
    requires
        s.screen != Screen::WriteConfirm,
        spec_backup_checked(s, is_file, from).screen == Screen::WriteConfirm,
    ensures
        is_file,
        spec_backup_checked(s, is_file, from).confirm_input.len() == 0,
{
}

/// Keys ask to check the backup file only for a backup path the state
/// holds, that is, only after a backup was made.
pub proof fn lemma_backup_check_uses_recorded_backup(s: AppStateView, key: Key)
    ensures
        spec_key(s, key).1 matches EffectView::CheckBackupFile(p, _) ==> s.backup_path == Some(p),
{
}

/// A write is asked for only from the write confirmation, on Enter, when
/// the typed text (trimmed) is the confirmation phrase.
pub proof fn lemma_write_needs_typed_phrase(s: AppStateView, key: Key)
    ensures
        spec_key(s, key).1 is CheckWriteTarget ==> {
            &&& s.screen == Screen::WriteConfirm
            &&& key == Key::Enter
            &&& trim_spec(s.confirm_input) == s.confirm_phrase
            &&& s.selected_disk is Some
        },
{
}

/// The image is written only when the target is a regular image file, the
/// backup exists as a file, and there is a draft.
pub proof fn lemma_write_needs_image_and_backup(s: AppStateView, target_is_image_file: bool, backup_is_file: bool)
    requires
        s.selected_disk is Some,
    ensures
        spec_write_target_checked(s, target_is_image_file, backup_is_file).1 matches EffectView::WriteImage(d, b)
            ==> {
            &&& target_is_image_file
            &&& backup_is_file
            &&& s.backup_path == Some(b)
            &&& s.selected_disk == Some(d)
            &&& s.draft is Some
        },
{
}

/// The confirmation phrase asked for is the file name of the selected target.
pub proof fn lemma_phrase_is_target_name(s: AppStateView)
    requires
        s.selected_disk is Some,
    ensures
        spec_prepare_write(s).confirm_phrase == crate::safety::spec_confirmation_phrase(s.selected_disk->0),
{
}

/// Up and down keep the template cursor on the template list.
pub proof fn lemma_template_cursor_in_bounds(s: AppStateView, key: Key)
    requires
        s.screen == Screen::QuickLayout,
        s.template_index < s.templates.len(),
        key == Key::Up || key == Key::Down || key == Key::Char('k') || key == Key::Char('j'),
    ensures
        spec_key(s, key).0.template_index < s.templates.len(),
{
}

/// Up and down keep the disk cursor on a non-empty disk list.
pub proof fn lemma_disk_cursor_in_bounds(s: AppStateView, key: Key)
    requires
        s.screen == Screen::DiskList,
        s.disk_index < s.disks.len(),
        key == Key::Up || key == Key::Down,
    ensures
        spec_key(s, key).0.disk_index < s.disks.len(),
{
}

/// Up and down keep the partition cursor of the size editor on the draft.
pub proof fn lemma_editor_cursor_in_bounds(s: AppStateView, key: Key)
    requires
        s.screen == Screen::SizeEditor,
        s.draft matches Some(d) && s.editor_selected < d.partitions.len(),
        key == Key::Up || key == Key::Down,
    ensures
        spec_key(s, key).0.editor_selected < s.draft->0.partitions.len(),
{
}

/// The log never grows past 100 lines.
pub proof fn lemma_log_bounded(lines: Seq<Seq<char>>, msg: Seq<char>)
    requires
        lines.len() <= 100,
    ensures
        spec_log(lines, msg).len() <= 100,
        spec_log(lines, msg).last() == msg,
{
}

proof fn lemma_relaid_len(parts: Seq<PartitionDraftView>, lba: u64)
    ensures
        spec_relaid(parts, lba).len() == parts.len(),
    decreases parts.len(),
{
    if parts.len() > 0 {
        let p = parts[0];
        let end = lba as nat + sectors_for(p.size_bytes);
        let next: u64 = if end <= u64::MAX { end as u64 } else { lba };
        lemma_relaid_len(parts.drop_first(), next);
    }
}

/// A relaid draft keeps each partition but its start; the first starts at
/// `lba`, and each next one starts where the sectors of the one before end
/// (while that stays within 64 bits).
pub proof fn lemma_relaid_back_to_back(parts: Seq<PartitionDraftView>, lba: u64, i: int)
    requires
        0 <= i < parts.len(),
    ensures
        spec_relaid(parts, lba).len() == parts.len(),
        spec_relaid(parts, lba)[i] == (PartitionDraftView { start_lba: spec_relaid(parts, lba)[i].start_lba, ..parts[i] }),
        i == 0 ==> spec_relaid(parts, lba)[0].start_lba == lba,
        i + 1 < parts.len() && spec_relaid(parts, lba)[i].start_lba + sectors_for(parts[i].size_bytes) <= u64::MAX
            ==> spec_relaid(parts, lba)[i + 1].start_lba == spec_relaid(parts, lba)[i].start_lba
            + sectors_for(parts[i].size_bytes),
    decreases parts.len(),
{
    lemma_relaid_len(parts, lba);
    let p = parts[0];
    let end = lba as nat + sectors_for(p.size_bytes);
    let next: u64 = if end <= u64::MAX { end as u64 } else { lba };
    let rest = parts.drop_first();
    lemma_relaid_len(rest, next);
    if i > 0 {
        lemma_relaid_back_to_back(rest, next, i - 1);
        assert(spec_relaid(parts, lba)[i] == spec_relaid(rest, next)[i - 1]);
        if i + 1 < parts.len() {
            assert(spec_relaid(parts, lba)[i + 1] == spec_relaid(rest, next)[i]);
        }
    } else {
        if parts.len() > 1 {
            lemma_relaid_back_to_back(rest, next, 0);
            assert(spec_relaid(parts, lba)[1] == spec_relaid(rest, next)[0]);
        }
    }
}

/// Resizing sets the size of the chosen partition only, keeps the others,
/// and lays the draft out from sector 2048.
pub proof fn lemma_resize_sets_size(d: LayoutDraftView, selected: usize, size: u64, i: int)
    requires
        0 <= i < d.partitions.len(),
    ensures
        spec_apply_size(d, selected, size).partitions.len() == d.partitions.len(),
        spec_apply_size(d, selected, size).partitions[i].size_bytes == (if i == selected {
            size
        } else {
            d.partitions[i].size_bytes
        }),
        spec_apply_size(d, selected, size).partitions[i].name == d.partitions[i].name,
        i == 0 ==> spec_apply_size(d, selected, size).partitions[0].start_lba == 2048,
{
    let r = spec_resized(d.partitions, selected, size);
    lemma_relaid_back_to_back(r, 2048, i);
}

/// Keys never change the draft: only a parsed size does, through the size
/// editor's `size_parsed`.
pub proof fn lemma_keys_keep_draft(s: AppStateView, key: Key)
    ensures
        spec_key(s, key).0.draft == s.draft,
{
}

/// Keys never write: the image write is asked for only after the write
/// target and the backup file were checked.
pub proof fn lemma_keys_never_write(s: AppStateView, key: Key)
    ensures
        !(spec_key(s, key).1 is WriteImage),
{
}

/// Keys never record a backup: a backup path appears only when a backup
/// was made (`backup_finished`); a key can only keep it or clear it.
pub proof fn lemma_keys_never_record_backup(s: AppStateView, key: Key)
    ensures
        spec_key(s, key).0.backup_path is Some ==> spec_key(s, key).0.backup_path == s.backup_path,
{
}


/// The partition at `k` was read back where the draft puts it, with the
/// draft's size.
pub open spec fn read_back_matches(d: Seq<PartitionDraftView>, w: Seq<PartitionEntryView>, k: int) -> bool {
    w[k].start_lba == d[k].start_lba && w[k].size_bytes == d[k].size_bytes
}

proof fn lemma_first_mismatch_is_first(d: Seq<PartitionDraftView>, w: Seq<PartitionEntryView>, n: nat)
    ensures
        first_mismatch(d, w, n) is None <==> forall|k: int| 0 <= k < n ==> #[trigger] read_back_matches(d, w, k),
        first_mismatch(d, w, n) matches Some(i) ==> {
            &&& 0 <= i < n
            &&& !read_back_matches(d, w, i)
            &&& forall|k: int| 0 <= k < i ==> #[trigger] read_back_matches(d, w, k)
        },
    decreases n,
{
    if n > 0 {
        lemma_first_mismatch_is_first(d, w, (n - 1) as nat);
        if forall|k: int| 0 <= k < n ==> #[trigger] read_back_matches(d, w, k) {
            assert(read_back_matches(d, w, n - 1));
            assert forall|k: int| 0 <= k < n - 1 implies #[trigger] read_back_matches(d, w, k) by {
                assert(read_back_matches(d, w, k));
            }
        }
        if first_mismatch(d, w, n) is None {
            assert forall|k: int| 0 <= k < n implies #[trigger] read_back_matches(d, w, k) by {
                if k < n - 1 {
                    assert(read_back_matches(d, w, k));
                }
            }
        }
    }
}

/// The written layout checks out exactly when as many partitions were read
/// back as the draft has, each starting where the draft puts it and with
/// the draft's size; it then gives that count. Otherwise, with the counts
/// equal, the error names the first partition that differs.
pub proof fn lemma_verify_written_checks_every_partition(d: Seq<PartitionDraftView>, w: Seq<PartitionEntryView>)
    requires
        w.len() <= usize::MAX,
    ensures
        spec_verify_written(d, w) is Ok <==> (w.len() == d.len() && forall|k: int|
            0 <= k < d.len() ==> w[k].start_lba == d[k].start_lba && w[k].size_bytes == d[k].size_bytes),
        spec_verify_written(d, w) matches Ok(n) ==> n == d.len(),
        forall|i: int|
            0 <= i < d.len() && w.len() == d.len() && !(w[i].start_lba == d[i].start_lba
                && w[i].size_bytes == d[i].size_bytes) && (forall|k: int|
                0 <= k < i ==> w[k].start_lba == d[k].start_lba && w[k].size_bytes == d[k].size_bytes)
                ==> #[trigger] spec_verify_written(d, w) == Err::<usize, Seq<char>>(
                "讀回分區「"@ + d[i].name + "」的位置或大小不符"@,
            ),
{
    lemma_first_mismatch_is_first(d, w, d.len());
    if w.len() == d.len() {
        if forall|k: int| 0 <= k < d.len() ==> w[k].start_lba == d[k].start_lba && w[k].size_bytes
            == d[k].size_bytes {
            assert forall|k: int| 0 <= k < d.len() implies #[trigger] read_back_matches(d, w, k) by {}
        }
        if first_mismatch(d, w, d.len()) is None {
            assert forall|k: int| 0 <= k < d.len() implies w[k].start_lba == d[k].start_lba
                && w[k].size_bytes == d[k].size_bytes by {
                assert(read_back_matches(d, w, k));
            }
        }
        assert forall|i: int|
            0 <= i < d.len() && w.len() == d.len() && !(w[i].start_lba == d[i].start_lba
                && w[i].size_bytes == d[i].size_bytes) && (forall|k: int|
                0 <= k < i ==> w[k].start_lba == d[k].start_lba && w[k].size_bytes == d[k].size_bytes)
            implies #[trigger] spec_verify_written(d, w) == Err::<usize, Seq<char>>(
                "讀回分區「"@ + d[i].name + "」的位置或大小不符"@,
            ) by {
            assert(!read_back_matches(d, w, i));
            let j = first_mismatch(d, w, d.len())->0;
            assert(!read_back_matches(d, w, j));
            if j < i {
                assert(w[j].start_lba == d[j].start_lba && w[j].size_bytes == d[j].size_bytes);
            } else if i < j {
                assert(read_back_matches(d, w, i));
            }
        }
    }
}

/// On the quick layout, Enter with a target selected asks for a draft of
/// the template under the cursor and records it as the selected template;
/// so Down then Enter asks for the template just below the one that was
/// highlighted.
pub proof fn lemma_quick_layout_uses_highlighted_template(s: AppStateView, p: Seq<char>)
    requires
        s.screen == Screen::QuickLayout,
        s.selected_disk == Some(p),
        s.template_index < s.templates.len(),
    ensures
        spec_key(s, Key::Enter).1 == EffectView::GenerateDraft(s.templates[s.template_index as int], p),
        spec_key(s, Key::Enter).0.selected_template == s.templates[s.template_index as int],
        s.template_index + 1 < s.templates.len() <= usize::MAX ==> spec_key(spec_key(s, Key::Down).0, Key::Enter).1
            == EffectView::GenerateDraft(s.templates[s.template_index + 1], p),
{
    if s.template_index + 1 < s.templates.len() <= usize::MAX {
        let s2 = spec_key(s, Key::Down).0;
        assert(s2 == crate::tui::spec_quick_layout_key(s, Key::Down).0);
        assert(s2.template_index == s.template_index + 1);
        assert(s2.screen == Screen::QuickLayout);
        assert(s2.templates == s.templates);
        assert(s2.selected_disk == Some(p));
    }
}

} // verus!
