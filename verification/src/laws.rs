use vstd::prelude::*;

use crate::app::{
    category_fully_selected, category_partially_selected, cleanable_in, cleanable_in_sub,
    deselected, has_cleanable, items_after_clean, matching_indices, may_clean, same_but_selection,
    stays_after_clean, summary_of, survivors, with_selection,
};
use crate::cleaner::{
    answers, after_report, clean_wf, error_path_of, file_target, next_deletable, next_stop, registry_target,
    stage_rank, CleanEvent, CleanStage, CleanState,
};
use crate::cleaner::DeleteOutcome;
use crate::models::{
    category_at, category_index, cleanable, registry_item, BrowserSubKind, CleanError, CleanResult,
    JunkCategory, JunkItem, CATEGORY_COUNT, MAX_ITEMS_PER_CATEGORY,
};
use crate::order::{item_order, path_key, stable_sort_of};
use crate::scanner::appdata::{
    appdata_scan_wf, dir_collected, dir_path, dirs_collected, excluded, heuristic_dir, in_some_dir, items_in_dirs,
    known_dir, lies_in, settings_name, AppDataScanState, OpenedDir,
};
use crate::scanner::browser::{
    normalized, browser_kind, browser_scan_wf, classified_below, items_classified, kind_below, BrowserScanState,
};
use crate::text::has_infix;
use crate::scanner::registry::{command_program, icon_path_value, path_value, registry_scan_wf, uninstall_paths};
use crate::app::{failed_paths, item_matches, unicode_lower};
use crate::scanner::temp::{extension_counts, file_scan_wf, FileScanState};
use crate::order::{extension_of, file_name_of};
use crate::tally::{count_of, selected_cleanable, selected_cleanable_in, size_modulus, size_of, wrapped_size_of};

verus! {

// ---------------------------------------------------------------------------
// Selection
// ---------------------------------------------------------------------------

/// Clicking a category's check box flips it: when some item of the category may be
/// cleaned, setting all such items to the opposite of "all selected" makes "all
/// selected" the opposite, and the category is then not partially selected.
pub proof fn law_category_check_flips(items: Seq<JunkItem>, c: JunkCategory, is_admin: bool)
    requires
        has_cleanable(items, c, is_admin),
    ensures
        ({
            let b = category_fully_selected(items, c, is_admin);
            let after = with_selection(items, cleanable_in(c, is_admin), !b);
            &&& category_fully_selected(after, c, is_admin) == !b
            &&& !category_partially_selected(after, c, is_admin)
        }),
{
    let b = category_fully_selected(items, c, is_admin);
    let after = with_selection(items, cleanable_in(c, is_admin), !b);
    let k0 = choose|k: int| 0 <= k < items.len() && items[k].category == c && cleanable(items[k], is_admin);
    assert(after[k0].category == c && cleanable(after[k0], is_admin) && after[k0].selected == !b);
    assert forall|k: int| 0 <= k < after.len() && after[k].category == c && cleanable(after[k], is_admin)
        implies after[k].selected == !b by {
        assert(items[k].category == c && cleanable(items[k], is_admin));
    }
}

/// Checking a browser sub-kind changes only the items of that category and sub-kind.
pub proof fn law_sub_selection_is_local(
    items: Seq<JunkItem>,
    c: JunkCategory,
    sub: BrowserSubKind,
    selected: bool,
    is_admin: bool,
    k: int,
)
    requires
        0 <= k < items.len(),
        !(items[k].category == c && items[k].browser_sub == Some(sub)),
    ensures
        with_selection(items, cleanable_in_sub(c, sub, is_admin), selected)[k] == items[k],
{
}

/// Selecting or deselecting items changes neither the overview of a category (its
/// count and total size) nor which rows the file list shows for any filter.
pub proof fn law_selection_keeps_overview_and_filters(a: Seq<JunkItem>, b: Seq<JunkItem>)
    requires
        same_but_selection(a, b),
    ensures
        forall|c: JunkCategory| #[trigger] summary_of(a, c) == summary_of(b, c),
        forall|cat: Option<JunkCategory>, searching: bool, needle: Seq<char>|
            #[trigger] matching_indices(a, cat, searching, needle) == matching_indices(
                b,
                cat,
                searching,
                needle,
            ),
{
    crate::app::lemma_selection_irrelevant(a, b);
}

proof fn lemma_with_selection_drop_last(items: Seq<JunkItem>, p: spec_fn(JunkItem) -> bool, selected: bool)
    requires
        items.len() > 0,
    ensures
        with_selection(items, p, selected).drop_last() == with_selection(items.drop_last(), p, selected),
        with_selection(items, p, selected).last() == (if p(items.last()) {
            JunkItem { selected, ..items.last() }
        } else {
            items.last()
        }),
{
    assert(with_selection(items, p, selected).drop_last() =~= with_selection(items.drop_last(), p, selected));
}

/// After "select all that may be cleaned", every such item is selected, every category
/// with such an item is fully selected, and the selection counts exactly the items that
/// may be cleaned.
pub proof fn law_select_all(items: Seq<JunkItem>, is_admin: bool)
    ensures
        ({
            let after = with_selection(items, may_clean(is_admin), true);
            &&& forall|k: int| 0 <= k < after.len() && cleanable(after[k], is_admin) ==> #[trigger] after[k].selected
            &&& forall|c: JunkCategory| has_cleanable(items, c, is_admin) ==> #[trigger] category_fully_selected(
                after,
                c,
                is_admin,
            )
            &&& count_of(after, selected_cleanable(is_admin)) == count_of(items, may_clean(is_admin))
        }),
    decreases items.len(),
{
    let after = with_selection(items, may_clean(is_admin), true);
    assert forall|c: JunkCategory| has_cleanable(items, c, is_admin) implies #[trigger] category_fully_selected(
        after,
        c,
        is_admin,
    ) by {
        let k0 = choose|k: int| 0 <= k < items.len() && items[k].category == c && cleanable(items[k], is_admin);
        assert(after[k0].category == c && cleanable(after[k0], is_admin));
    }
    if items.len() > 0 {
        law_select_all(items.drop_last(), is_admin);
        lemma_with_selection_drop_last(items, may_clean(is_admin), true);
    }
}

/// After "deselect all", nothing is selected: the selection counts no item and no byte.
pub proof fn law_deselect_all(items: Seq<JunkItem>, is_admin: bool)
    ensures
        count_of(items.map_values(|i: JunkItem| deselected(i)), selected_cleanable(is_admin)) == 0,
        wrapped_size_of(items.map_values(|i: JunkItem| deselected(i)), selected_cleanable(is_admin)) == 0,
    decreases items.len(),
{
    let after = items.map_values(|i: JunkItem| deselected(i));
    if items.len() > 0 {
        law_deselect_all(items.drop_last(), is_admin);
        assert(after.drop_last() =~= items.drop_last().map_values(|i: JunkItem| deselected(i)));
        assert(size_of(after, selected_cleanable(is_admin)) == size_of(after.drop_last(), selected_cleanable(is_admin)));
        assert(size_of(items.drop_last().map_values(|i: JunkItem| deselected(i)), selected_cleanable(is_admin)) == 0) by {
            lemma_deselected_size(items.drop_last(), is_admin);
        }
    }
}

proof fn lemma_deselected_size(items: Seq<JunkItem>, is_admin: bool)
    ensures
        size_of(items.map_values(|i: JunkItem| deselected(i)), selected_cleanable(is_admin)) == 0,
    decreases items.len(),
{
    let after = items.map_values(|i: JunkItem| deselected(i));
    if items.len() > 0 {
        lemma_deselected_size(items.drop_last(), is_admin);
        assert(after.drop_last() =~= items.drop_last().map_values(|i: JunkItem| deselected(i)));
    }
}

// ---------------------------------------------------------------------------
// After a clean
// ---------------------------------------------------------------------------

/// After a clean, the list holds the items that stay, in their order, none of them
/// selected.
pub proof fn law_after_clean_keeps_order(
    items: Seq<JunkItem>,
    is_admin: bool,
    had_recycle: bool,
    recycle_failed: bool,
    backup_failed: bool,
    failed: Set<Seq<Seq<char>>>,
)
    ensures
        survivors(items, is_admin, had_recycle, recycle_failed, backup_failed, failed) == items.filter(
            |i: JunkItem| stays_after_clean(i, is_admin, had_recycle, recycle_failed, backup_failed, failed),
        ).map_values(|i: JunkItem| deselected(i)),
    decreases items.len(),
{
    reveal_with_fuel(Seq::filter, 1);
    let p = |i: JunkItem| stays_after_clean(i, is_admin, had_recycle, recycle_failed, backup_failed, failed);
    if items.len() > 0 {
        law_after_clean_keeps_order(items.drop_last(), is_admin, had_recycle, recycle_failed, backup_failed, failed);
        let prev = items.drop_last().filter(p);
        if p(items.last()) {
            assert(items.filter(p) == prev.push(items.last()));
            assert(prev.push(items.last()).map_values(|i: JunkItem| deselected(i)) =~= prev.map_values(
                |i: JunkItem| deselected(i),
            ).push(deselected(items.last())));
        } else {
            assert(items.filter(p) == prev);
        }
    } else {
        assert(items.filter(p) =~= Seq::<JunkItem>::empty());
    }
}

/// After a clean, no item of the list is selected.
pub proof fn law_clean_leaves_nothing_selected(items: Seq<JunkItem>, is_admin: bool, result: CleanResult)
    ensures
        forall|k: int|
            0 <= k < items_after_clean(items, is_admin, result).len() ==> !(#[trigger] items_after_clean(
                items,
                is_admin,
                result,
            )[k]).selected,
{
    let errors = result.errors@;
    let hr = exists|k: int| 0 <= k < items.len() && items[k].is_recycle_bin && items[k].selected;
    let rf = exists|k: int| 0 <= k < errors.len() && errors[k].path@ == crate::app::recycle_bin_path();
    let bf = exists|k: int| 0 <= k < errors.len() && errors[k].path@ == crate::app::registry_backup_path();
    let failed = crate::app::failed_paths(errors);
    law_after_clean_keeps_order(items, is_admin, hr, rf, bf, failed);
}

/// A selected file that may be cleaned leaves the list exactly when its path is not
/// among the failures of the clean; an item that was not selected always stays, unless
/// it is the recycle bin that was emptied.
pub proof fn law_failed_files_stay(
    item: JunkItem,
    is_admin: bool,
    had_recycle: bool,
    recycle_failed: bool,
    backup_failed: bool,
    failed: Set<Seq<Seq<char>>>,
)
    ensures
        item.selected && cleanable(item, is_admin) && !registry_item(item) && !item.is_recycle_bin
            ==> (stays_after_clean(item, is_admin, had_recycle, recycle_failed, backup_failed, failed)
            <==> failed.contains(path_key(item.path@))),
        !item.selected && !item.is_recycle_bin ==> stays_after_clean(
            item,
            is_admin,
            had_recycle,
            recycle_failed,
            backup_failed,
            failed,
        ),
        item.selected && cleanable(item, is_admin) && registry_item(item) && !item.is_recycle_bin
            && backup_failed ==> stays_after_clean(
            item,
            is_admin,
            had_recycle,
            recycle_failed,
            backup_failed,
            failed,
        ),
{
}

/// The selected items that may be cleaned, counted category by category over the
/// first `n` categories of the overview.
pub open spec fn count_by_category(items: Seq<JunkItem>, is_admin: bool, n: nat) -> nat
    decreases n,
{
    if n == 0 {
        0
    } else {
        count_by_category(items, is_admin, (n - 1) as nat) + count_of(
            items,
            selected_cleanable_in(category_at((n - 1) as nat), is_admin),
        )
    }
}

/// Their total size, summed category by category over the first `n` categories.
pub open spec fn size_by_category(items: Seq<JunkItem>, is_admin: bool, n: nat) -> nat
    decreases n,
{
    if n == 0 {
        0
    } else {
        size_by_category(items, is_admin, (n - 1) as nat) + size_of(
            items,
            selected_cleanable_in(category_at((n - 1) as nat), is_admin),
        )
    }
}

proof fn lemma_by_category_step(items: Seq<JunkItem>, is_admin: bool, n: nat)
    requires
        items.len() > 0,
        n <= CATEGORY_COUNT,
    ensures
        ({
            let last = items.last();
            let counts = selected_cleanable(is_admin)(last) && category_index(last.category) < n;
            &&& count_by_category(items, is_admin, n) == count_by_category(items.drop_last(), is_admin, n) + if counts {
                1nat
            } else {
                0nat
            }
            &&& size_by_category(items, is_admin, n) == size_by_category(items.drop_last(), is_admin, n) + if counts {
                last.size as nat
            } else {
                0nat
            }
        }),
    decreases n,
{
    if n > 0 {
        lemma_by_category_step(items, is_admin, (n - 1) as nat);
        let c = category_at((n - 1) as nat);
        assert(category_index(c) == n - 1);
        assert(items.last().category == c <==> category_index(items.last().category) == n - 1);
    }
}

/// The overall selection totals are the sums of the per-category ones: the number of
/// selected items that may be cleaned, and their total size, are the sums over the
/// twelve categories of the overview of what `category_selected_count` gives; the
/// wrapping `u64` total that `selected_stats` gives is that sum modulo 2^64.
pub proof fn law_selection_totals_sum_the_categories(items: Seq<JunkItem>, is_admin: bool)
    ensures
        count_of(items, selected_cleanable(is_admin)) == count_by_category(items, is_admin, CATEGORY_COUNT as nat),
        size_of(items, selected_cleanable(is_admin)) == size_by_category(items, is_admin, CATEGORY_COUNT as nat),
        wrapped_size_of(items, selected_cleanable(is_admin)) == (size_by_category(
            items,
            is_admin,
            CATEGORY_COUNT as nat,
        ) % size_modulus()) as u64,
    decreases items.len(),
{
    if items.len() == 0 {
        assert(count_by_category(items, is_admin, CATEGORY_COUNT as nat) == 0) by {
            reveal_with_fuel(count_by_category, 13);
        }
        assert(size_by_category(items, is_admin, CATEGORY_COUNT as nat) == 0) by {
            reveal_with_fuel(size_by_category, 13);
        }
    } else {
        law_selection_totals_sum_the_categories(items.drop_last(), is_admin);
        lemma_by_category_step(items, is_admin, CATEGORY_COUNT as nat);
        assert(category_index(items.last().category) < CATEGORY_COUNT);
    }
}

// ---------------------------------------------------------------------------
// The clean
// ---------------------------------------------------------------------------

/// A clean deletes only what the user selected and may clean: each of its registry
/// items and files is such an item of the list, and they are exactly those, in order.
pub proof fn law_clean_targets_are_selected(items: Seq<JunkItem>, is_admin: bool)
    ensures
        forall|k: int| 0 <= k < items.filter(registry_target(is_admin)).len() ==> {
            let i = #[trigger] items.filter(registry_target(is_admin))[k];
            i.selected && cleanable(i, is_admin) && registry_item(i) && items.contains(i)
        },
        forall|k: int| 0 <= k < items.filter(file_target(is_admin)).len() ==> {
            let i = #[trigger] items.filter(file_target(is_admin))[k];
            i.selected && cleanable(i, is_admin) && !registry_item(i) && !i.is_recycle_bin && items.contains(i)
        },
{
    assert forall|k: int| 0 <= k < items.filter(registry_target(is_admin)).len() implies {
        let i = #[trigger] items.filter(registry_target(is_admin))[k];
        i.selected && cleanable(i, is_admin) && registry_item(i) && items.contains(i)
    } by {
        let f = items.filter(registry_target(is_admin));
        items.lemma_filter_pred(registry_target(is_admin), k);
        assert(f.contains(f[k]));
        items.lemma_filter_contains_rev(registry_target(is_admin), f[k]);
    }
    assert forall|k: int| 0 <= k < items.filter(file_target(is_admin)).len() implies {
        let i = #[trigger] items.filter(file_target(is_admin))[k];
        i.selected && cleanable(i, is_admin) && !registry_item(i) && !i.is_recycle_bin && items.contains(i)
    } by {
        let f = items.filter(file_target(is_admin));
        items.lemma_filter_pred(file_target(is_admin), k);
        assert(f.contains(f[k]));
        items.lemma_filter_contains_rev(file_target(is_admin), f[k]);
    }
}

/// No failure stops a clean: once it is finished, every one of its targets (each
/// registry item, each file, and the recycle bin when asked for) has been counted
/// once, as deleted or as failed.
pub proof fn law_clean_counts_every_target(s: CleanState)
    requires
        clean_wf(s),
        s.stage == CleanStage::Finished,
    ensures
        s.result.success_count + s.result.fail_count == s.registry.len() + s.files.len() + if s.recycle_requested {
            1nat
        } else {
            0nat
        },
{
}

/// Registry entries are deleted only after their backup was written: a clean reaches
/// its registry stage only with a backup, and the one report that gives it a backup is
/// a backup that succeeded.
pub proof fn law_backup_before_registry_deletion(s: CleanState, t: CleanState, e: CleanEvent)
    requires
        clean_wf(s),
        answers(s, e),
        after_report(s, t, e),
    ensures
        t.stage == CleanStage::Registry ==> t.backup_ok,
        !s.backup_ok && t.backup_ok ==> (e matches CleanEvent::BackupDone(Ok(_))),
{
}

/// A clean only moves forward through its stages (backup, registry, files, recycle
/// bin, finished): no report takes it back. With `next_action`, which never moves back
/// either and hands out a registry deletion only at the registry stage, this means
/// that once a clean is past its registry stage it deletes no registry entry.
pub proof fn law_clean_moves_forward(s: CleanState, t: CleanState, e: CleanEvent)
    requires
        clean_wf(s),
        answers(s, e),
        after_report(s, t, e),
    ensures
        stage_rank(t.stage) >= stage_rank(s.stage),
{
}

/// A failed backup stops the registry part of a clean: every registry item counts as
/// failed, none is deleted, and the clean goes on with the files.
pub proof fn law_failed_backup_skips_registry(s: CleanState, t: CleanState, message: String)
    requires
        clean_wf(s),
        answers(s, CleanEvent::BackupDone(Err(message))),
        after_report(s, t, CleanEvent::BackupDone(Err(message))),
    ensures
        t.stage == CleanStage::Files,
        t.pos == 0,
        !t.backup_ok,
        t.result.fail_count == s.result.fail_count + s.registry.len(),
        t.result.success_count == s.result.success_count,
{
}

/// The backup comes first: a clean that has registry items and has not begun hands
/// out the backup before anything else.
pub proof fn law_backup_comes_first(s: CleanState)
    requires
        clean_wf(s),
        s.stage == CleanStage::Backup,
        !s.awaiting,
        s.registry.len() > 0,
    ensures
        next_stop(s) == (CleanStage::Backup, 0int),
{
}

/// After a failed backup the clean goes on with the files: the next step is the first
/// file when there is one, and never the backup or a registry deletion.
pub proof fn law_failed_backup_goes_on_with_files(s: CleanState, t: CleanState, message: String)
    requires
        clean_wf(s),
        answers(s, CleanEvent::BackupDone(Err(message))),
        after_report(s, t, CleanEvent::BackupDone(Err(message))),
    ensures
        next_stop(t).0 != CleanStage::Backup,
        next_stop(t).0 != CleanStage::Registry,
        t.files.len() > 0 ==> next_stop(t) == (CleanStage::Files, 0int),
{
}

/// Each file is handed out once, in order: after the report on the file at position
/// `p`, the clean's next step is the file at `p + 1`, or a later stage when that was the
/// last file.
pub proof fn law_files_taken_in_turn(s: CleanState, t: CleanState, outcome: DeleteOutcome)
    requires
        clean_wf(s),
        answers(s, CleanEvent::PathDone(outcome)),
        after_report(s, t, CleanEvent::PathDone(outcome)),
    ensures
        t.pos == s.pos + 1,
        t.pos < t.files.len() ==> next_stop(t) == (CleanStage::Files, t.pos as int),
        t.pos >= t.files.len() ==> stage_rank(next_stop(t).0) >= 3,
{
}

/// Each registry item is dealt with once, in order: the next deletion handed out is for
/// an item at or after the clean's position.
pub proof fn law_registry_taken_in_turn(s: CleanState)
    requires
        clean_wf(s),
        s.stage == CleanStage::Registry,
        !s.awaiting,
    ensures
        next_stop(s).0 == CleanStage::Registry ==> s.pos <= next_stop(s).1 < s.registry.len()
            && next_stop(s).1 == next_deletable(s.registry, s.pos as int),
{
    lemma_next_deletable_bounds(s.registry, s.pos as int);
}

proof fn lemma_next_deletable_bounds(reg: Seq<JunkItem>, from: int)
    requires
        0 <= from,
    ensures
        from <= reg.len() ==> from <= next_deletable(reg, from) <= reg.len(),
    decreases reg.len() - from,
{
    if from < reg.len() {
        lemma_next_deletable_bounds(reg, from + 1);
    }
}

/// A clean records errors only under its own paths: those of its registry items, those
/// its file deletions remove, the registry backup and the recycle bin.
pub proof fn law_errors_name_own_targets(s: CleanState)
    requires
        clean_wf(s),
    ensures
        forall|j: int|
            0 <= j < s.result.errors@.len() ==> error_path_of(
                s.registry,
                s.files,
                (#[trigger] s.result.errors@[j]).path@,
            ),
{
}

// ---------------------------------------------------------------------------
// Scans
// ---------------------------------------------------------------------------

/// Scans propose and never select: every item of a consistent scan is unselected.
pub proof fn law_scanned_items_unselected(
    files: FileScanState,
    browser: BrowserScanState,
    appdata: AppDataScanState,
    registry: Seq<JunkItem>,
)
    requires
        file_scan_wf(files),
        browser_scan_wf(browser),
        appdata_scan_wf(appdata),
        registry_scan_wf(registry),
    ensures
        forall|k: int| 0 <= k < files.items.len() ==> !(#[trigger] files.items[k]).selected,
        forall|k: int| 0 <= k < browser.items.len() ==> !(#[trigger] browser.items[k]).selected,
        forall|k: int| 0 <= k < appdata.items.len() ==> !(#[trigger] appdata.items[k]).selected,
        forall|k: int| 0 <= k < registry.len() ==> !(#[trigger] registry[k]).selected,
{
    assert forall|k: int| 0 <= k < browser.items.len() implies !(#[trigger] browser.items[k]).selected by {
        assert(browser.items[k].category == browser.category);
    }
}

/// A category's scan never reports more than the item limit.
pub proof fn law_scans_within_limit(files: FileScanState, browser: BrowserScanState, appdata: AppDataScanState)
    requires
        file_scan_wf(files),
        browser_scan_wf(browser),
        appdata_scan_wf(appdata),
    ensures
        files.items.len() <= MAX_ITEMS_PER_CATEGORY,
        browser.items.len() <= MAX_ITEMS_PER_CATEGORY,
        appdata.items.len() <= MAX_ITEMS_PER_CATEGORY,
{
}

/// A file scan that names extensions holds only files with one of them, compared in
/// ASCII lower case (Prefetch: `.pf`; the system logs: `.log` and `.etl`).
pub proof fn law_file_scans_keep_to_extensions(s: FileScanState)
    requires
        file_scan_wf(s),
    ensures
        forall|k: int|
            0 <= k < s.items.len() ==> extension_counts(s.extensions, extension_of((#[trigger] s.items[k]).path@)),
{
}

/// Application logs never include a settings file, and an application scan holds no
/// path twice.
pub proof fn law_app_logs_hold_no_settings(s: AppDataScanState)
    requires
        appdata_scan_wf(s),
    ensures
        s.category == JunkCategory::AppConfigs ==> forall|k: int|
            0 <= k < s.items.len() ==> !settings_name(file_name_of((#[trigger] s.items[k]).path@)),
        forall|a: int, b: int|
            0 <= a < b < s.items.len() ==> (#[trigger] s.items[a]).path@ != (#[trigger] s.items[b]).path@,
{
}

/// Whether a path lies below one of the opened directories that no other category
/// covers and that is either a known application directory of the scan's kind or,
/// found by name, one whose name marks that kind.
pub open spec fn from_collected_dir(path: Seq<char>, dirs: Seq<OpenedDir>, want_cache: bool) -> bool {
    exists|j: int|
        0 <= j < dirs.len() && lies_in(path, #[trigger] dirs[j]) && !excluded(dirs[j].rel) && if dirs[j].by_name {
            heuristic_dir(file_name_of(dir_path(dirs[j])), want_cache)
        } else {
            known_dir(dirs[j].rel, want_cache)
        }
}

/// Application files come only from the directories they belong in: every item lies
/// below an opened directory that no other category covers (Edge's and Chrome's data,
/// Explorer's caches, `Temp`) and that is either a known application directory of the
/// scan's kind (for logs: `Code\logs`, `Cursor\logs`, `discord\logs`,
/// `JetBrains\*\log`) or, found by name, one whose name marks that kind (for logs:
/// `logs`, `Log`, `CrashDumps`).
pub proof fn law_app_files_come_from_their_directories(s: AppDataScanState)
    requires
        appdata_scan_wf(s),
    ensures
        forall|k: int|
            0 <= k < s.items.len() ==> from_collected_dir((#[trigger] s.items[k]).path@, s.dirs, s.want_cache),
{
    reveal(items_in_dirs);
    reveal(dirs_collected);
    reveal(dir_collected);
    assert forall|k: int| 0 <= k < s.items.len() implies from_collected_dir(
        (#[trigger] s.items[k]).path@,
        s.dirs,
        s.want_cache,
    ) by {
        assert(in_some_dir(s.items[k].path@, s.dirs));
        let j = choose|j: int| 0 <= j < s.dirs.len() && lies_in(s.items[k].path@, #[trigger] s.dirs[j]);
        assert(dir_collected(s.dirs[j], s.want_cache));
    }
}

/// Every browser item has the kind that its path below one of the scanned profiles
/// gives it.
pub proof fn law_browser_items_classified_by_profile(s: BrowserScanState)
    requires
        browser_scan_wf(s),
    ensures
        forall|k: int| 0 <= k < s.items.len() ==> classified_below(#[trigger] s.items[k], s.profiles),
{
    reveal(items_classified);
}

/// Storage data is storage data wherever it lies: a file whose path below the profile
/// starts with a `Local Storage`, `Session Storage` or `IndexedDB` folder (in any ASCII
/// case, with `\\` or `/`) is classified as local storage.
pub proof fn law_storage_folders_are_local_storage(rel: Seq<char>)
    ensures
        ("local storage\\"@.is_prefix_of(normalized(rel)) || "session storage\\"@.is_prefix_of(normalized(rel))
            || "indexeddb\\"@.is_prefix_of(normalized(rel))) ==> browser_kind(normalized(rel)) == Some(
            BrowserSubKind::LocalStorage,
        ),
{
    let l = normalized(rel);
    reveal_strlit("local storage\\");
    reveal_strlit("session storage\\");
    reveal_strlit("indexeddb\\");
    reveal_strlit("cookies");
    reveal_strlit("network\\cookies");
    reveal_strlit("network\\cookies-journal");
    reveal_strlit("network\\");
    if "local storage\\"@.is_prefix_of(l) {
        let p = "local storage\\"@;
        assert(p[0] == 'l' && p[13] == '\\');
        assert(l.subrange(0, p.len() as int) =~= p);
        assert(l.subrange(0, p.len() as int)[0] == l[0]);
        assert(l.subrange(0, p.len() as int)[13] == l[13]);
        assert(l.contains('\\'));
    }
    if "session storage\\"@.is_prefix_of(l) {
        let p = "session storage\\"@;
        assert(p[0] == 's' && p[15] == '\\');
        assert(l.subrange(0, p.len() as int) =~= p);
        assert(l.subrange(0, p.len() as int)[0] == l[0]);
        assert(l.subrange(0, p.len() as int)[15] == l[15]);
        assert(l.contains('\\'));
    }
    if "indexeddb\\"@.is_prefix_of(l) {
        let p = "indexeddb\\"@;
        assert(p[0] == 'i' && p[9] == '\\');
        assert(l.subrange(0, p.len() as int) =~= p);
        assert(l.subrange(0, p.len() as int)[0] == l[0]);
        assert(l.subrange(0, p.len() as int)[9] == l[9]);
        assert(l.contains('\\'));
    }
}

/// HTTP cache never takes in another cache: a path that holds `code cache`, `media
/// cache` or `gpucache` anywhere is never classified as HTTP cache, and a path below a
/// `Code Cache` directory is code cache unless it is cookie or storage data.
pub proof fn law_http_cache_excludes_other_caches(l: Seq<char>)
    ensures
        browser_kind(l) == Some(BrowserSubKind::HttpCache) ==> !has_infix(l, "code cache"@) && !has_infix(
            l,
            "media cache"@,
        ) && !has_infix(l, "gpucache"@),
        "code cache\\"@.is_prefix_of(l) ==> browser_kind(l) == Some(BrowserSubKind::CodeCache) || browser_kind(l)
            == Some(BrowserSubKind::Cookies) || browser_kind(l) == Some(BrowserSubKind::LocalStorage),
{
}

/// The scan results come ordered: each item is not after the next one in the order by
/// category label and path.
pub proof fn law_results_ordered(r: Seq<JunkItem>, items: Seq<JunkItem>)
    requires
        stable_sort_of(r, items),
    ensures
        r.len() == items.len(),
        forall|k: int| 0 <= k < r.len() - 1 ==> item_order(#[trigger] r[k], r[k + 1]) <= 0,
{
    let p = choose|p: Seq<usize>| {
        &&& p.to_multiset() == crate::order::span(0, items.len() as usize).to_multiset()
        &&& p.len() == items.len()
        &&& crate::order::sorted_positions(items, p)
        &&& forall|k: int| 0 <= k < p.len() ==> #[trigger] r[k] == items[p[k] as int]
        &&& r.len() == p.len()
    };
    assert forall|k: int| 0 <= k < r.len() - 1 implies item_order(#[trigger] r[k], r[k + 1]) <= 0 by {
        assert(crate::order::before(items, p[k], p[k + 1]));
        assert(r[k + 1] == items[p[k + 1] as int]);
    }
}

proof fn lemma_same_multiset_map(p: Seq<usize>, q: Seq<usize>, items: Seq<JunkItem>)
    requires
        p.to_multiset() == q.to_multiset(),
    ensures
        p.map_values(|i: usize| items[i as int]).to_multiset() == q.map_values(
            |i: usize| items[i as int],
        ).to_multiset(),
    decreases p.len(),
{
    broadcast use vstd::seq_lib::group_to_multiset_ensures;
    broadcast use vstd::multiset::group_multiset_axioms;

    let f = |i: usize| items[i as int];
    if p.len() == 0 {
        vstd::seq_lib::to_multiset_len(p);
        vstd::seq_lib::to_multiset_len(q);
        assert(p.map_values(f) =~= Seq::<JunkItem>::empty());
        assert(q.map_values(f) =~= Seq::<JunkItem>::empty());
    } else {
        let x = p.last();
        let p0 = p.drop_last();
        assert(p0.push(x) == p);
        vstd::seq_lib::to_multiset_build(p0, x);
        vstd::seq_lib::to_multiset_contains(q, x);
        assert(p.to_multiset().count(x) > 0);
        let j = choose|j: int| 0 <= j < q.len() && q[j] == x;
        let q0 = q.remove(j);
        vstd::seq_lib::to_multiset_remove(q, j);
        assert(p0.to_multiset() =~= q0.to_multiset());
        lemma_same_multiset_map(p0, q0, items);
        let pm = p.map_values(f);
        let qm = q.map_values(f);
        assert(pm =~= p0.map_values(f).push(f(x)));
        vstd::seq_lib::to_multiset_build(p0.map_values(f), f(x));
        assert(q0.map_values(f) =~= qm.remove(j));
        vstd::seq_lib::to_multiset_remove(qm, j);
        assert(qm[j] == f(x));
        vstd::seq_lib::to_multiset_contains(qm, f(x));
        assert(qm.contains(f(x)));
        assert(qm.to_multiset() =~= q0.map_values(f).to_multiset().insert(f(x)));
    }
}

/// The scan results hold every item that was found, each as often as it was found.
pub proof fn law_results_keep_every_item(r: Seq<JunkItem>, items: Seq<JunkItem>)
    requires
        stable_sort_of(r, items),
    ensures
        r.to_multiset() == items.to_multiset(),
{
    let p = choose|p: Seq<usize>| {
        &&& p.to_multiset() == crate::order::span(0, items.len() as usize).to_multiset()
        &&& p.len() == items.len()
        &&& crate::order::sorted_positions(items, p)
        &&& forall|k: int| 0 <= k < p.len() ==> #[trigger] r[k] == items[p[k] as int]
        &&& r.len() == p.len()
    };
    let f = |i: usize| items[i as int];
    let sp = crate::order::span(0, items.len() as usize);
    vstd::seq_lib::to_multiset_len(p);
    vstd::seq_lib::to_multiset_len(sp);
    assert(sp.len() == items.len());
    assert(r =~= p.map_values(f));
    assert(items =~= sp.map_values(f));
    lemma_same_multiset_map(p, sp, items);
}

// ---------------------------------------------------------------------------
// Categories
// ---------------------------------------------------------------------------

/// `JunkCategory::all()` lists every category exactly once: each category sits at its
/// own position, and each position holds the category whose position it is.
pub proof fn law_every_category_listed_once(c: JunkCategory, i: nat)
    ensures
        category_index(c) < CATEGORY_COUNT,
        category_at(category_index(c)) == c,
        i < CATEGORY_COUNT ==> category_index(category_at(i)) == i,
{
}

// ---------------------------------------------------------------------------
// What the operations are for
// ---------------------------------------------------------------------------

/// An uninstall entry's icon is only a fallback: when its install location or its
/// uninstall command gives a path, the icon changes nothing and the entry points to
/// exactly those paths (the install location's, then the uninstall program's); only
/// when neither gives one does the entry point to its icon's file, and then to nothing
/// else. The install location names a path as a registry path value does, the
/// uninstall command by its program, the icon by its file (without the icon index). So
/// an entry whose uninstaller is gone is an orphan even if its icon remains.
pub proof fn law_uninstall_icon_only_as_fallback(
    install_location: Option<Seq<char>>,
    display_icon: Option<Seq<char>>,
    uninstall_string: Option<Seq<char>>,
    env: Seq<(Seq<char>, Seq<char>)>,
)
    ensures
        uninstall_paths(install_location, None, uninstall_string, env) == uninstall_paths(
            install_location,
            None,
            None,
            env,
        ) + uninstall_paths(None, None, uninstall_string, env),
        uninstall_paths(install_location, None, None, env).len() <= 1,
        uninstall_paths(None, None, uninstall_string, env).len() <= 1,
        uninstall_paths(install_location, None, uninstall_string, env).len() > 0 ==> uninstall_paths(
            install_location,
            display_icon,
            uninstall_string,
            env,
        ) == uninstall_paths(install_location, None, uninstall_string, env),
        uninstall_paths(install_location, None, uninstall_string, env).len() == 0 ==> uninstall_paths(
            install_location,
            display_icon,
            uninstall_string,
            env,
        ) == uninstall_paths(None, display_icon, None, env),
        uninstall_paths(None, display_icon, None, env).len() <= 1,
        display_icon matches Some(x) ==> uninstall_paths(None, display_icon, None, env) == match icon_path_value(
            x,
            env,
        ) {
            Some(p) => seq![p],
            None => Seq::<Seq<char>>::empty(),
        },
        install_location matches Some(x) ==> uninstall_paths(install_location, None, None, env) == match path_value(
            x,
            env,
        ) {
            Some(p) => seq![p],
            None => Seq::<Seq<char>>::empty(),
        },
        uninstall_string matches Some(x) ==> uninstall_paths(None, None, uninstall_string, env) == match command_program(
            x,
            env,
        ) {
            Some(p) => seq![p],
            None => Seq::<Seq<char>>::empty(),
        },
{
    assert(Seq::<Seq<char>>::empty() + Seq::<Seq<char>>::empty() =~= Seq::<Seq<char>>::empty());
    let a = uninstall_paths(install_location, None, None, env);
    let b = uninstall_paths(None, None, uninstall_string, env);
    assert(a + Seq::<Seq<char>>::empty() =~= a);
    assert(Seq::<Seq<char>>::empty() + b =~= b);
}

/// A GPU cache folder anywhere below the profile holds GPU cache: a path that is or
/// starts with a `gpucache` folder, or has one further down (after turning `/` into `\` and lower-casing ASCII letters)
/// that is not cookie, storage or code-cache data is GPU cache, however deep the folder
/// lies (extensions keep their own).
pub proof fn law_nested_gpu_cache_is_gpu_cache(prefix: Seq<char>, rest: Seq<char>)
    ensures
        ({
            let l = prefix + "\\gpucache\\"@ + rest;
            let k = browser_kind(l);
            k != Some(BrowserSubKind::Cookies) && k != Some(BrowserSubKind::LocalStorage) && k != Some(
                BrowserSubKind::CodeCache,
            ) ==> k == Some(BrowserSubKind::GpuCache)
        }),
        forall|l: Seq<char>|
            ("gpucache\\"@.is_prefix_of(l) || has_infix(l, "\\gpucache\\"@) || l == "gpucache"@)
                && #[trigger] browser_kind(l) != Some(BrowserSubKind::Cookies)
                && browser_kind(l) != Some(BrowserSubKind::LocalStorage) && browser_kind(l) != Some(
                BrowserSubKind::CodeCache,
            ) ==> browser_kind(l) == Some(BrowserSubKind::GpuCache),
{
    let l = prefix + "\\gpucache\\"@ + rest;
    let g = "\\gpucache\\"@;
    assert(l.subrange(prefix.len() as int, (prefix.len() + g.len()) as int) =~= g);
    assert(crate::text::occurs_at(l, g, prefix.len() as int));
}

/// The cache folders collected by name are exactly `Cache`, `Caches`, `cache`, `Code
/// Cache`, `GPUCache`, `Temp` and `tmp`, and the log folders exactly `logs`, `Log` and
/// `CrashDumps`: a folder found by name with one of these names, in a place no other
/// category covers, is collected.
pub proof fn law_folder_names_collected(d: OpenedDir)
    ensures
        heuristic_dir("Cache"@, true),
        heuristic_dir("Caches"@, true),
        heuristic_dir("cache"@, true),
        heuristic_dir("Code Cache"@, true),
        heuristic_dir("GPUCache"@, true),
        heuristic_dir("Temp"@, true),
        heuristic_dir("tmp"@, true),
        heuristic_dir("logs"@, false),
        heuristic_dir("Log"@, false),
        heuristic_dir("CrashDumps"@, false),
        forall|name: Seq<char>|
            #[trigger] heuristic_dir(name, true) ==> name == "Cache"@ || name == "Caches"@ || name == "cache"@
                || name == "Code Cache"@ || name == "GPUCache"@ || name == "Temp"@ || name == "tmp"@,
        forall|name: Seq<char>|
            #[trigger] heuristic_dir(name, false) ==> name == "logs"@ || name == "Log"@ || name
                == "CrashDumps"@,
        d.by_name && !excluded(d.rel) && file_name_of(dir_path(d)) == "Code Cache"@ ==> dir_collected(d, true),
        d.by_name && !excluded(d.rel) && file_name_of(dir_path(d)) == "Cache"@ ==> dir_collected(d, true),
        d.by_name && !excluded(d.rel) && file_name_of(dir_path(d)) == "CrashDumps"@ ==> dir_collected(d, false),
{
    reveal(dir_collected);
}

/// A failure keeps its item: a selected item that may be cleaned, other than the
/// recycle bin, stays in the list after a clean whenever its path (compared as a path)
/// is among the failures, registry entries as much as files, whether or not the
/// backup failed.
pub proof fn law_failed_items_stay(
    item: JunkItem,
    is_admin: bool,
    had_recycle: bool,
    recycle_failed: bool,
    backup_failed: bool,
    failed: Set<Seq<Seq<char>>>,
)
    ensures
        item.selected && cleanable(item, is_admin) && !item.is_recycle_bin && failed.contains(
            path_key(item.path@),
        ) ==> stays_after_clean(item, is_admin, had_recycle, recycle_failed, backup_failed, failed),
{
}

/// After a clean, an item whose path is among the failures is still in the list,
/// deselected.
pub proof fn law_failed_items_stay_in_list(items: Seq<JunkItem>, is_admin: bool, result: CleanResult, k: int, m: int)
    requires
        0 <= k < items.len(),
        items[k].selected,
        cleanable(items[k], is_admin),
        !items[k].is_recycle_bin,
        0 <= m < result.errors@.len(),
        path_key(result.errors@[m].path@) == path_key(items[k].path@),
    ensures
        items_after_clean(items, is_admin, result).contains(deselected(items[k])),
{
    let errors = result.errors@;
    let hr = exists|j: int| 0 <= j < items.len() && items[j].is_recycle_bin && items[j].selected;
    let rf = exists|j: int| 0 <= j < errors.len() && errors[j].path@ == crate::app::recycle_bin_path();
    let bf = exists|j: int| 0 <= j < errors.len() && errors[j].path@ == crate::app::registry_backup_path();
    let failed = failed_paths(errors);
    assert(failed.contains(path_key(items[k].path@)));
    law_after_clean_keeps_order(items, is_admin, hr, rf, bf, failed);
    let p = |i: JunkItem| stays_after_clean(i, is_admin, hr, rf, bf, failed);
    assert(p(items[k]));
    items.lemma_filter_contains(p, k);
    let f = items.filter(p);
    let j = choose|j: int| 0 <= j < f.len() && f[j] == items[k];
    assert(f.map_values(|i: JunkItem| deselected(i))[j] == deselected(items[k]));
}

/// The list shows only what both filters let through: every position it shows is that
/// of an item of the chosen category, when one is chosen, whatever the search text; and
/// of an item whose lower-cased path contains the lower-cased search text, when there is
/// one; every position lies within the list (a list of at most `usize::MAX` items,
/// as any list is); and every item that passes both filters is shown.
pub proof fn law_list_filters_both_apply(
    items: Seq<JunkItem>,
    category: Option<JunkCategory>,
    searching: bool,
    needle: Seq<char>,
)
    requires
        items.len() <= usize::MAX,
    ensures
        forall|k: int|
            0 <= k < matching_indices(items, category, searching, needle).len() ==> {
                let i = #[trigger] matching_indices(items, category, searching, needle)[k];
                &&& i < items.len()
                &&& (category matches Some(c) ==> items[i as int].category == c)
                &&& (searching ==> has_infix(unicode_lower(items[i as int].path@), needle))
            },
        forall|i: int|
            0 <= i < items.len() && (category matches Some(c) ==> items[i].category == c) && (searching
                ==> has_infix(unicode_lower(items[i].path@), needle)) ==> #[trigger] matching_indices(
                items,
                category,
                searching,
                needle,
            ).contains(i as usize),
    decreases items.len(),
{
    if items.len() > 0 {
        let prev = items.drop_last();
        law_list_filters_both_apply(prev, category, searching, needle);
        let r0 = matching_indices(items, category, searching, needle);
        let rp0 = matching_indices(prev, category, searching, needle);
        assert forall|i: int|
            0 <= i < items.len() && (category matches Some(c) ==> items[i].category == c) && (searching
                ==> has_infix(unicode_lower(items[i].path@), needle)) implies #[trigger] r0.contains(i as usize) by {
            if i < items.len() - 1 {
                assert(prev[i] == items[i]);
                assert(rp0.contains(i as usize));
                let k = choose|k: int| 0 <= k < rp0.len() && rp0[k] == i as usize;
                if item_matches(items.last(), category, searching, needle) {
                    assert(r0[k] == rp0[k]);
                } else {
                    assert(r0 == rp0);
                }
            } else {
                assert(items[i] == items.last());
                assert(item_matches(items.last(), category, searching, needle));
                assert(r0[r0.len() - 1] == (items.len() - 1) as usize);
            }
        }
        let r = matching_indices(items, category, searching, needle);
        let rp = matching_indices(prev, category, searching, needle);
        assert forall|k: int| 0 <= k < r.len() implies {
            let i = #[trigger] r[k];
            &&& i < items.len()
            &&& (category matches Some(c) ==> items[i as int].category == c)
            &&& (searching ==> has_infix(unicode_lower(items[i as int].path@), needle))
        } by {
            if k < rp.len() {
                assert(r[k] == rp[k]);
                assert(prev[rp[k] as int] == items[rp[k] as int]);
            } else {
                assert(item_matches(items.last(), category, searching, needle));
                assert(r[k] == (items.len() - 1) as usize);
                assert(r[k] as int == items.len() - 1);
                assert(items[r[k] as int] == items.last());
            }
        }
    }
}

} // verus!
