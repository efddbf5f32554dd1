use bgxiong_clear_helper::app::ClearHelperApp;
use bgxiong_clear_helper::models::{
    AppPhase, BrowserSubKind, CleanError, CleanResult, ItemStatus, JunkCategory, JunkItem, JunkTarget,
};

fn file(c: JunkCategory, path: &str, size: u64) -> JunkItem {
    JunkItem::file(c, path.to_string(), size, ItemStatus::Normal)
}

fn browser(c: JunkCategory, path: &str, sub: BrowserSubKind, status: ItemStatus) -> JunkItem {
    let mut i = JunkItem::file(c, path.to_string(), 10, status);
    i.browser_sub = Some(sub);
    i
}

fn reg(path: &str) -> JunkItem {
    let mut i = JunkItem::file(JunkCategory::RegistryOrphans, path.to_string(), 0, ItemStatus::Normal);
    i.target = JunkTarget::RegistryKey { key: path.to_string(), value_name: None };
    i
}

fn recycle() -> JunkItem {
    let mut i = file(JunkCategory::RecycleBin, "", 500);
    i.is_recycle_bin = true;
    i
}

fn scanned(is_admin: bool, items: Vec<JunkItem>) -> ClearHelperApp {
    let mut app = ClearHelperApp::new(is_admin);
    app.start_scan();
    assert!(!app.poll_scan(vec!["正在扫描: 回收站".to_string()], None));
    assert_eq!(app.scan_progress(), "正在扫描: 回收站");
    assert!(app.poll_scan(Vec::new(), Some(items)));
    app
}

fn sample() -> Vec<JunkItem> {
    let mut admin = file(JunkCategory::SystemTemp, "C:\\Windows\\Temp", 0);
    admin.status = ItemStatus::NeedsAdmin;
    vec![
        file(JunkCategory::UserTemp, "C:\\t\\A.tmp", 100),
        file(JunkCategory::UserTemp, "C:\\t\\b.tmp", 200),
        admin,
        browser(JunkCategory::EdgeCache, "C:\\e\\Default\\Cookies", BrowserSubKind::Cookies, ItemStatus::Normal),
        browser(JunkCategory::EdgeCache, "C:\\e\\Default\\Cache\\x", BrowserSubKind::HttpCache, ItemStatus::Normal),
        browser(JunkCategory::EdgeCache, "C:\\e\\Default\\Cache\\y", BrowserSubKind::HttpCache, ItemStatus::Skipped),
        recycle(),
        reg("HKCU\\S\\U\\Gone"),
    ]
}

#[test]
fn a_new_state_is_idle_and_empty() {
    let app = ClearHelperApp::new(false);
    assert_eq!(app.phase(), AppPhase::Idle);
    assert!(!app.is_admin());
    assert!(app.items().is_empty());
    assert_eq!(app.scan_progress(), "");
    assert!(app.filter_category().is_none());
    assert!(!app.show_confirm_dialog());
    assert!(!app.show_result_dialog());
    assert!(app.last_clean_result().is_none());
    assert!(app.elevate_error().is_none());
    assert!(app.can_start_scan());
    assert!(!app.can_change_selection());
}

#[test]
fn scanning_then_results() {
    let mut app = ClearHelperApp::new(true);
    app.start_scan();
    assert_eq!(app.phase(), AppPhase::Scanning);
    assert_eq!(app.scan_progress(), "正在启动扫描...");
    assert!(!app.can_start_scan());
    assert!(!app.poll_scan(vec!["a".to_string(), "b".to_string()], None));
    assert_eq!(app.scan_progress(), "b");
    assert!(app.poll_scan(vec!["c".to_string()], Some(sample())));
    assert_eq!(app.phase(), AppPhase::Results);
    assert_eq!(app.scan_progress(), "扫描完成，共 8 项");
    assert_eq!(app.items().len(), 8);
    assert!(app.can_start_scan());
    assert!(app.can_change_selection());
}

#[test]
fn summaries_per_category() {
    let mut app = scanned(false, sample());
    let s = app.category_summaries();
    assert_eq!(s.len(), 12);
    assert_eq!((s[0].count, s[0].total_size), (2, 300));
    assert_eq!((s[1].count, s[1].total_size), (1, 0));
    assert_eq!((s[2].count, s[2].total_size), (1, 500));
    assert_eq!((s[5].count, s[5].total_size), (3, 30));
    assert_eq!(s[4].count, 0);
    let again = app.category_summary(JunkCategory::EdgeCache);
    assert_eq!((again.count, again.total_size), (3, 30));
}

#[test]
fn category_selection_respects_rights() {
    let mut app = scanned(false, sample());
    assert_eq!(app.category_check(JunkCategory::SystemTemp), None);
    assert_eq!(app.category_check(JunkCategory::UserTemp), Some(false));
    app.set_category_selection(JunkCategory::SystemTemp, true);
    assert_eq!(app.selected_stats(), (0, 0));
    app.set_category_selection(JunkCategory::EdgeCache, true);
    assert_eq!(app.category_selected_count(JunkCategory::EdgeCache), (2, 20));
    assert!(app.is_category_fully_selected(JunkCategory::EdgeCache));
    assert!(!app.is_category_partially_selected(JunkCategory::EdgeCache));
    // The skipped browser file stays unselected.
    assert!(!app.items()[5].selected);
    assert_eq!(app.category_check(JunkCategory::EdgeCache), Some(true));
}

#[test]
fn clicking_a_category_box_flips_it() {
    let mut app = scanned(false, sample());
    app.set_item_selected(0, true);
    assert!(app.is_category_partially_selected(JunkCategory::UserTemp));
    assert_eq!(app.category_check(JunkCategory::UserTemp), Some(false));
    app.set_category_selection(JunkCategory::UserTemp, true);
    assert_eq!(app.category_check(JunkCategory::UserTemp), Some(true));
    app.set_category_selection(JunkCategory::UserTemp, false);
    assert_eq!(app.category_check(JunkCategory::UserTemp), Some(false));
    assert!(!app.is_category_partially_selected(JunkCategory::UserTemp));
}

#[test]
fn browser_sub_selection_is_local() {
    let mut app = scanned(false, sample());
    assert_eq!(app.browser_sub_count(JunkCategory::EdgeCache, BrowserSubKind::HttpCache), 2);
    assert_eq!(app.browser_sub_count(JunkCategory::EdgeCache, BrowserSubKind::Cookies), 1);
    assert_eq!(app.browser_sub_count(JunkCategory::ChromeCache, BrowserSubKind::Cookies), 0);
    app.set_browser_sub_selection(JunkCategory::EdgeCache, BrowserSubKind::Cookies, true);
    assert!(app.is_browser_sub_fully_selected(JunkCategory::EdgeCache, BrowserSubKind::Cookies));
    assert!(!app.is_browser_sub_fully_selected(JunkCategory::EdgeCache, BrowserSubKind::HttpCache));
    let selected: Vec<bool> = app.items().iter().map(|i| i.selected).collect();
    assert_eq!(selected, vec![false, false, false, true, false, false, false, false]);
    assert!(app.is_category_partially_selected(JunkCategory::EdgeCache));
}

#[test]
fn select_all_and_deselect_all() {
    let mut app = scanned(false, sample());
    app.select_all_cleanable();
    // Everything but the admin-only item and the skipped browser file.
    assert_eq!(app.selected_stats(), (6, 820));
    assert!(app.selected_has_registry());
    assert!(app.can_clean_selected());
    for c in [JunkCategory::UserTemp, JunkCategory::EdgeCache, JunkCategory::RecycleBin, JunkCategory::RegistryOrphans] {
        assert!(app.is_category_fully_selected(c));
    }
    app.deselect_all();
    assert_eq!(app.selected_stats(), (0, 0));
    assert!(!app.selected_has_registry());
    assert!(!app.can_clean_selected());
    assert!(app.items().iter().all(|i| !i.selected));
}

#[test]
fn admin_can_select_admin_items() {
    let mut app = scanned(true, sample());
    app.select_all_cleanable();
    assert_eq!(app.selected_stats(), (7, 820));
    assert_eq!(app.category_check(JunkCategory::SystemTemp), Some(true));
}

#[test]
fn filtering_by_category_and_search_text() {
    let mut app = scanned(false, sample());
    assert_eq!(app.filtered_indices(), (0..8).collect::<Vec<usize>>());
    app.set_filter_category(Some(JunkCategory::EdgeCache));
    assert_eq!(app.filtered_indices(), vec![3, 4, 5]);
    app.set_search_filter("cache".to_string());
    assert_eq!(app.filtered_indices(), vec![4, 5]);
    app.set_filter_category(None);
    app.set_search_filter("A.TMP".to_string());
    assert_eq!(app.filtered_indices(), vec![0]);
    // Selection does not change which rows show.
    app.select_all_cleanable();
    assert_eq!(app.filtered_indices(), vec![0]);
    app.set_search_filter(String::new());
    assert_eq!(app.filtered_indices().len(), 8);
}

#[test]
fn starting_a_clean_hands_out_the_selection() {
    let mut app = scanned(false, sample());
    app.set_category_selection(JunkCategory::UserTemp, true);
    app.set_item_selected(2, true);
    app.request_clean();
    assert!(app.show_confirm_dialog());
    let to_clean = app.confirm_clean().unwrap();
    assert_eq!(app.phase(), AppPhase::Cleaning);
    assert!(!app.show_confirm_dialog());
    assert!(!app.can_clean_selected());
    assert!(!app.can_start_scan());
    let paths: Vec<&str> = to_clean.iter().map(|i| i.path.as_str()).collect();
    assert_eq!(paths, vec!["C:\\t\\A.tmp", "C:\\t\\b.tmp"]);
}

#[test]
fn finishing_a_clean_keeps_failures_and_drops_successes() {
    let mut app = scanned(false, sample());
    app.select_all_cleanable();
    app.request_clean();
    let _ = app.confirm_clean().unwrap();
    let result = CleanResult {
        success_count: 5,
        fail_count: 1,
        freed_bytes: 730,
        errors: vec![CleanError { path: "C:\\t\\b.tmp".to_string(), reason: "busy".to_string() }],
    };
    app.finish_clean(result);
    assert_eq!(app.phase(), AppPhase::Results);
    assert!(app.show_result_dialog());
    assert_eq!(app.last_clean_result().as_ref().unwrap().success_count, 5);
    let left: Vec<&str> = app.items().iter().map(|i| i.path.as_str()).collect();
    assert_eq!(
        left,
        vec!["C:\\t\\b.tmp", "C:\\Windows\\Temp", "C:\\e\\Default\\Cache\\y"]
    );
    assert!(app.items().iter().all(|i| !i.selected));
    let s = app.category_summaries();
    assert_eq!(s[0].count, 1);
}

#[test]
fn failed_backup_keeps_registry_items_and_failed_recycle_bin_stays() {
    let mut app = scanned(false, sample());
    app.select_all_cleanable();
    app.request_clean();
    let _ = app.confirm_clean().unwrap();
    let result = CleanResult {
        success_count: 4,
        fail_count: 2,
        freed_bytes: 330,
        errors: vec![
            CleanError { path: "注册表备份".to_string(), reason: "备份失败，已中止注册表清理: x".to_string() },
            CleanError { path: "回收站".to_string(), reason: "清空回收站失败: y".to_string() },
        ],
    };
    app.finish_clean(result);
    let left: Vec<&str> = app.items().iter().map(|i| i.path.as_str()).collect();
    assert_eq!(
        left,
        vec!["C:\\Windows\\Temp", "C:\\e\\Default\\Cache\\y", "", "HKCU\\S\\U\\Gone"]
    );
}

#[test]
fn unselected_recycle_bin_stays() {
    let mut app = scanned(false, sample());
    app.set_category_selection(JunkCategory::UserTemp, true);
    app.request_clean();
    let _ = app.confirm_clean().unwrap();
    app.finish_clean(CleanResult { success_count: 2, fail_count: 0, freed_bytes: 300, errors: Vec::new() });
    assert_eq!(app.items().len(), 6);
    assert!(app.items().iter().any(|i| i.is_recycle_bin));
}

#[test]
fn dialogs_and_errors() {
    let mut app = ClearHelperApp::new(false);
    app.set_show_confirm_dialog(true);
    assert!(app.show_confirm_dialog());
    app.set_show_result_dialog(true);
    assert!(app.show_result_dialog());
    app.set_elevate_error("无法以管理员身份启动 (code: 5)".to_string());
    assert_eq!(app.elevate_error().as_deref(), Some("无法以管理员身份启动 (code: 5)"));
    app.set_item_selected(99, true);
    assert!(app.items().is_empty());
}

#[test]
fn no_clean_starts_without_confirmation() {
    let mut app = scanned(false, sample());
    app.select_all_cleanable();
    assert!(app.confirm_clean().is_none());
    assert_eq!(app.phase(), AppPhase::Results);
    app.request_clean();
    assert!(app.show_confirm_dialog());
    app.set_show_confirm_dialog(false);
    assert!(app.confirm_clean().is_none());
    assert_eq!(app.phase(), AppPhase::Results);
}

#[test]
fn nothing_to_clean_opens_no_dialog() {
    let mut app = scanned(false, sample());
    app.request_clean();
    assert!(!app.show_confirm_dialog());
    assert!(app.confirm_clean().is_none());
}

#[test]
fn failures_match_the_same_path_written_otherwise() {
    let mut app = scanned(false, sample());
    app.set_category_selection(JunkCategory::UserTemp, true);
    app.request_clean();
    let _ = app.confirm_clean().unwrap();
    let result = CleanResult {
        success_count: 1,
        fail_count: 1,
        freed_bytes: 100,
        errors: vec![CleanError { path: "c:/t/b.tmp/".to_string(), reason: "busy".to_string() }],
    };
    app.finish_clean(result);
    let left: Vec<&str> = app.items().iter().map(|i| i.path.as_str()).collect();
    assert!(left.contains(&"C:\\t\\b.tmp"));
    assert!(!left.contains(&"C:\\t\\A.tmp"));
}

#[test]
fn selection_totals_are_the_sum_of_the_categories() {
    let mut app = scanned(true, sample());
    app.select_all_cleanable();
    let mut count = 0;
    let mut size = 0;
    for c in JunkCategory::all() {
        let (n, s) = app.category_selected_count(*c);
        count += n;
        size += s;
    }
    assert_eq!(app.selected_stats(), (count, size));
    assert!(count > 0);
}
