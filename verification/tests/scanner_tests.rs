use bgxiong_clear_helper::models::{BrowserSubKind, ItemStatus, JunkCategory, JunkItem, JunkTarget, MAX_ITEMS_PER_CATEGORY};
use bgxiong_clear_helper::scanner::appdata::{
    glob_parts, is_excluded, is_settings_file, matches_heuristic_dir, named_targets, scan_app_caches,
    scan_app_configs,
};
use bgxiong_clear_helper::cleaner::RegistryHive;
use bgxiong_clear_helper::scanner::browser::{
    classify_browser_path, discover_profiles, is_profile_dir_name, scan_chrome_cache, scan_edge_cache,
};
use bgxiong_clear_helper::scanner::recycle_bin::scan_recycle_bin;
use bgxiong_clear_helper::scanner::registry::{
    app_path_candidate, decode_reg_string, extract_exe_from_command, hives_to_scan, is_blacklisted, normalize_icon_path,
    normalize_path_value, query_string_value, run_value_candidate, run_value_display, scan_registry_orphans,
    uninstall_candidates,
};
use bgxiong_clear_helper::scanner::system::{
    scan_prefetch, scan_prefetch_needs_admin, scan_windows_logs, scan_windows_logs_needs_admin,
    scan_windows_update, scan_windows_update_needs_admin,
};
use bgxiong_clear_helper::scanner::temp::{
    placeholder_admin, scan_system_temp, scan_system_temp_needs_admin, scan_user_temp,
};
use bgxiong_clear_helper::scanner::thumbnail::is_thumbnail_cache_name;
use bgxiong_clear_helper::scanner::{gather_results, scan_category, scan_finished, scan_started, ScanPlan};
use bgxiong_clear_helper::util::EnvVars;

fn env() -> EnvVars {
    let mut e = EnvVars::new();
    e.push("ProgramFiles".to_string(), "C:\\Program Files".to_string());
    e
}

// --- browser -----------------------------------------------------------------

#[test]
fn browser_paths_by_kind() {
    assert_eq!(classify_browser_path("Cookies"), Some(BrowserSubKind::Cookies));
    assert_eq!(classify_browser_path("Network/Cookies"), Some(BrowserSubKind::Cookies));
    assert_eq!(classify_browser_path("Network\\Cookies-journal"), Some(BrowserSubKind::Cookies));
    assert_eq!(classify_browser_path("Local Storage\\leveldb\\000003.log"), Some(BrowserSubKind::LocalStorage));
    assert_eq!(classify_browser_path("IndexedDB\\x.blob"), Some(BrowserSubKind::LocalStorage));
    assert_eq!(classify_browser_path("Session Storage\\LOG"), Some(BrowserSubKind::LocalStorage));
    assert_eq!(classify_browser_path("Code Cache\\js\\index"), Some(BrowserSubKind::CodeCache));
    assert_eq!(classify_browser_path("GPUCache\\data_0"), Some(BrowserSubKind::GpuCache));
    assert_eq!(classify_browser_path("Media Cache\\f_0001"), Some(BrowserSubKind::MediaCache));
    assert_eq!(
        classify_browser_path("Service Worker\\CacheStorage\\abc\\0"),
        Some(BrowserSubKind::MediaCache)
    );
    assert_eq!(classify_browser_path("Cache\\Cache_Data\\f_000001"), Some(BrowserSubKind::HttpCache));
    assert_eq!(classify_browser_path("Preferences"), None);
    assert_eq!(classify_browser_path("History"), None);
}

#[test]
fn browser_cookies_inside_cache_are_http_cache() {
    assert_eq!(classify_browser_path("Cache\\Cookies"), Some(BrowserSubKind::HttpCache));
    assert_eq!(classify_browser_path("Extension State\\Cookies"), None);
}

#[test]
fn browser_http_cache_excludes_other_caches() {
    assert_eq!(classify_browser_path("Cache\\Code Cache\\x"), Some(BrowserSubKind::CodeCache));
    assert_eq!(classify_browser_path("Code Cache\\Cache\\x"), Some(BrowserSubKind::CodeCache));
    assert_eq!(classify_browser_path("Cache\\Cache_Data\\x"), Some(BrowserSubKind::HttpCache));
}

#[test]
fn browser_profile_names() {
    assert!(is_profile_dir_name("Profile 1"));
    assert!(is_profile_dir_name("Guest Profile"));
    assert!(!is_profile_dir_name("Default"));
    assert!(!is_profile_dir_name("System Profile"));
    assert!(!is_profile_dir_name("Profile"));
}

#[test]
fn browser_profiles_found_in_order() {
    let dirs = vec![
        ("C:\\u\\Profile 2".to_string(), "Profile 2".to_string()),
        ("C:\\u\\System Profile".to_string(), "System Profile".to_string()),
        ("C:\\u\\Guest Profile".to_string(), "Guest Profile".to_string()),
        ("C:\\u\\Profile 1".to_string(), "Profile 1".to_string()),
        ("C:\\u\\Profile 1".to_string(), "Profile 1".to_string()),
    ];
    assert_eq!(
        discover_profiles(Some("C:\\u\\Default".to_string()), &dirs),
        vec!["C:\\u\\Default", "C:\\u\\Guest Profile", "C:\\u\\Profile 1", "C:\\u\\Profile 2"]
    );
    assert_eq!(discover_profiles(None, &Vec::new()), Vec::<String>::new());
    assert_eq!(scan_edge_cache().walk_depth(), 8);
}

#[test]
fn browser_scan_collects_items_of_a_kind() {
    let mut s = scan_edge_cache();
    assert_eq!(s.category(), JunkCategory::EdgeCache);
    assert_eq!(s.user_data(), "Microsoft\\Edge\\User Data");
    // No profile is open yet.
    assert_eq!(s.kind_of("C:\\u\\Default\\Cookies"), None);
    s.add_file("C:\\u\\Default\\Cookies".to_string(), true, 10);
    s.open_profile("C:\\u\\Default");
    assert_eq!(s.kind_of("C:\\u\\Default\\Network\\Cookies"), Some(BrowserSubKind::Cookies));
    let step = s.add_file("C:\\u\\Default\\Cookies".to_string(), true, 10);
    assert!(!step.stop);
    assert!(step.progress.is_none());
    s.add_file("C:\\u\\Default\\Cache\\a".to_string(), false, 20);
    // A file of no kind is passed over, locked or not, and so is one outside the profile.
    let step = s.add_file("C:\\u\\Default\\Preferences".to_string(), true, 30);
    assert!(!step.stop);
    s.add_file("C:\\u\\Profile 1\\Cache\\b".to_string(), false, 30);
    let (items, notice) = s.finish();
    assert!(notice.is_none());
    assert_eq!(items.len(), 2);
    assert_eq!(items[0].status, ItemStatus::Skipped);
    assert_eq!(items[0].skip_reason.as_deref(), Some("文件被占用，浏览器可能正在运行"));
    assert_eq!(items[0].browser_sub, Some(BrowserSubKind::Cookies));
    assert!(items[1].skip_reason.is_none());
    assert!(items.iter().all(|i| !i.selected));
    assert_eq!(scan_chrome_cache().user_data(), "Google\\Chrome\\User Data");
}

#[test]
fn browser_scan_reports_every_200_and_stops_at_limit() {
    let mut s = scan_chrome_cache();
    s.open_profile("C:\\p");
    let mut reports = 0;
    let mut stopped_at = 0;
    for k in 0..MAX_ITEMS_PER_CATEGORY + 5 {
        let step = s.add_file(format!("C:\\p\\Cache\\{k}"), false, 1);
        if let Some(p) = step.progress {
            reports += 1;
            if p.files_found == 200 {
                assert_eq!(p.message, "Chrome 缓存: 已找到 200 项");
            }
        }
        if step.stop {
            stopped_at = k + 1;
            break;
        }
    }
    assert_eq!(stopped_at, MAX_ITEMS_PER_CATEGORY);
    assert_eq!(reports, MAX_ITEMS_PER_CATEGORY / 200);
    assert!(s.is_full());
    let (items, notice) = s.finish();
    assert_eq!(items.len(), MAX_ITEMS_PER_CATEGORY);
    assert_eq!(notice.unwrap().message, "Chrome 缓存: 已达展示上限");
}

// --- temporary files and system directories -----------------------------------

#[test]
fn user_temp_roots_ordered_without_repeats() {
    let s = scan_user_temp(vec![
        "C:\\Users\\me\\AppData\\Local\\Temp".to_string(),
        "C:\\Users\\me\\AppData\\Local\\Temp\\".to_string(),
        "C:\\A\\Temp".to_string(),
    ]);
    assert_eq!(s.category(), JunkCategory::UserTemp);
    assert_eq!(
        s.roots(),
        &vec!["C:\\A\\Temp".to_string(), "C:\\Users\\me\\AppData\\Local\\Temp".to_string()]
    );
    assert_eq!(s.max_depth(), None);
}

#[test]
fn user_temp_orders_by_components() {
    // As paths, `C:\a\b` comes before `C:\a b`, though `\` sorts after a space as text.
    let s = scan_user_temp(vec!["C:\\a b".to_string(), "C:\\a\\b".to_string()]);
    assert_eq!(s.roots(), &vec!["C:\\a\\b".to_string(), "C:\\a b".to_string()]);
}

#[test]
fn file_scan_reports_and_stops_at_limit() {
    let mut s = scan_system_temp();
    assert_eq!(s.roots(), &vec!["C:\\Windows\\Temp".to_string()]);
    let mut last = None;
    for k in 0..MAX_ITEMS_PER_CATEGORY {
        let step = s.add_file(format!("C:\\Windows\\Temp\\{k}.tmp"), 3);
        if let Some(p) = step.progress {
            last = Some(p);
        }
        if k + 1 < MAX_ITEMS_PER_CATEGORY {
            assert!(!step.stop);
        } else {
            assert!(step.stop);
        }
    }
    let p = last.unwrap();
    assert_eq!(p.files_found, MAX_ITEMS_PER_CATEGORY);
    assert_eq!(p.message, "系统临时文件: 已找到 50000 项");
    let more = s.add_file("C:\\Windows\\Temp\\late.tmp".to_string(), 3);
    assert!(more.stop);
    let (items, notice) = s.finish();
    assert_eq!(items.len(), MAX_ITEMS_PER_CATEGORY);
    assert_eq!(
        notice.unwrap().message,
        "系统临时文件: 已达上限 50000 项，其余可通过汇总大小查看"
    );
}

#[test]
fn prefetch_keeps_only_pf_files() {
    let mut s = scan_prefetch();
    assert!(s.wants_file("C:\\Windows\\Prefetch\\APP.EXE-1234.PF"));
    assert!(!s.wants_file("C:\\Windows\\Prefetch\\Layout.ini"));
    s.add_file("C:\\Windows\\Prefetch\\APP.EXE-1234.pf".to_string(), 7);
    s.add_file("C:\\Windows\\Prefetch\\Layout.ini".to_string(), 9);
    s.add_file("C:\\Windows\\Prefetch\\.pf".to_string(), 9);
    let (items, notice) = s.finish();
    assert!(notice.is_none());
    assert_eq!(items.len(), 1);
    assert_eq!(items[0].path, "C:\\Windows\\Prefetch\\APP.EXE-1234.pf");
    assert_eq!(items[0].category, JunkCategory::Prefetch);
}

#[test]
fn windows_logs_keep_log_and_etl() {
    let mut s = scan_windows_logs();
    assert_eq!(s.max_depth(), Some(8));
    s.add_file("C:\\Windows\\Logs\\CBS\\CBS.log".to_string(), 1);
    s.add_file("C:\\Windows\\Logs\\a.ETL".to_string(), 1);
    s.add_file("C:\\Windows\\Logs\\a.txt".to_string(), 1);
    s.add_file("C:\\Windows\\Logs\\log".to_string(), 1);
    let (items, _) = s.finish();
    assert_eq!(items.len(), 2);
    let upd = scan_windows_update();
    assert_eq!(upd.roots(), &vec!["C:\\Windows\\SoftwareDistribution\\Download".to_string()]);
    assert!(upd.wants_file("C:\\x\\anything.bin"));
}

#[test]
fn windows_logs_report_every_200() {
    let mut s = scan_windows_logs();
    let mut first = None;
    for k in 0..400 {
        let step = s.add_file(format!("C:\\Windows\\Logs\\{k}.log"), 1);
        if first.is_none() {
            first = step.progress.map(|p| p.files_found);
        }
    }
    assert_eq!(first, Some(200));
}

#[test]
fn placeholders_need_admin() {
    let p = placeholder_admin(JunkCategory::Prefetch, "C:\\Windows\\Prefetch");
    assert_eq!(p.status, ItemStatus::NeedsAdmin);
    assert_eq!(p.skip_reason.as_deref(), Some("需要管理员权限才能扫描和清理"));
    assert_eq!(p.size, 0);
    assert!(!p.can_clean(false));
    for (v, path) in [
        (scan_system_temp_needs_admin(), "C:\\Windows\\Temp"),
        (scan_prefetch_needs_admin(), "C:\\Windows\\Prefetch"),
        (scan_windows_update_needs_admin(), "C:\\Windows\\SoftwareDistribution\\Download"),
        (scan_windows_logs_needs_admin(), "C:\\Windows\\Logs"),
    ] {
        assert_eq!(v.len(), 1);
        assert_eq!(v[0].path, path);
        assert_eq!(v[0].status, ItemStatus::NeedsAdmin);
    }
}

#[test]
fn scan_plans_follow_rights() {
    assert!(matches!(scan_category(JunkCategory::UserTemp, false), ScanPlan::UserTemp));
    assert!(matches!(scan_category(JunkCategory::SystemTemp, true), ScanPlan::Files(_)));
    assert!(matches!(scan_category(JunkCategory::SystemTemp, false), ScanPlan::Placeholder(_)));
    assert!(matches!(scan_category(JunkCategory::RecycleBin, false), ScanPlan::RecycleBin));
    assert!(matches!(scan_category(JunkCategory::ThumbnailCache, false), ScanPlan::Thumbnails));
    assert!(matches!(scan_category(JunkCategory::EdgeCache, false), ScanPlan::Browser(_)));
    assert!(matches!(scan_category(JunkCategory::AppConfigs, false), ScanPlan::AppData(_)));
    assert!(matches!(scan_category(JunkCategory::RegistryOrphans, false), ScanPlan::Registry(_)));
    assert!(matches!(scan_category(JunkCategory::WindowsLogs, false), ScanPlan::Placeholder(_)));
}

#[test]
fn scan_progress_messages() {
    let p = scan_started(JunkCategory::Prefetch);
    assert_eq!((p.files_found, p.message.as_str()), (0, "正在扫描: Prefetch"));
    let p = scan_finished(JunkCategory::RecycleBin, 3);
    assert_eq!((p.files_found, p.message.as_str()), (3, "完成: 回收站 (3 项)"));
}

// --- recycle bin and thumbnails ------------------------------------------------

#[test]
fn appdata_walk_opens_only_directories_it_collects() {
    let mut s = scan_app_caches();
    assert_eq!(s.open_dir("C:\\a", "discord\\Cache").as_deref(), Some("C:\\a\\discord\\Cache"));
    assert_eq!(
        s.open_dir("C:\\a", "JetBrains\\IdeaIC2024.1\\caches").as_deref(),
        Some("C:\\a\\JetBrains\\IdeaIC2024.1\\caches")
    );
    // Before the walk by name only known directories are opened.
    assert!(s.open_dir("C:\\a", "Vendor\\App\\Cache").is_none());
    assert!(s.open_dir("C:\\a", "JetBrains\\caches").is_none());
    assert!(s.open_dir("C:\\a", "Code\\logs").is_none());
    s.begin_heuristic();
    assert_eq!(s.open_dir("C:\\a", "Vendor\\App\\Cache").as_deref(), Some("C:\\a\\Vendor\\App\\Cache"));
    assert!(s.open_dir("C:\\a", "Vendor\\App\\Data").is_none());
    assert!(s.open_dir("C:\\a", "Google\\Chrome\\User Data\\Cache").is_none());
    assert!(s.open_dir("C:\\a", "microsoft\\edge\\user data\\Default\\Cache").is_none());
    assert!(s.open_dir("C:\\a", "Temp").is_none());
    assert_eq!(s.walk_depth(), 4);
    let mut logs = scan_app_configs();
    assert!(logs.open_dir("C:\\r", "Cursor\\logs").is_some());
    assert!(logs.open_dir("C:\\r", "JetBrains\\PyCharm\\log").is_some());
    assert!(logs.open_dir("C:\\r", "discord\\Cache").is_none());
    logs.begin_heuristic();
    assert!(logs.open_dir("C:\\r", "Vendor\\CrashDumps").is_some());
    assert!(logs.open_dir("C:\\r", "Vendor\\Cache").is_none());
}

#[test]
fn appdata_takes_files_only_from_the_open_directory() {
    let mut s = scan_app_caches();
    // Nothing is open yet.
    s.add_file("C:\\a\\discord\\Cache\\f".to_string(), 1);
    s.open_dir("C:\\a", "discord\\Cache");
    s.add_file("C:\\a\\discord\\Cache\\f".to_string(), 1);
    s.add_file("C:\\a\\discord\\Cache2\\g".to_string(), 1);
    s.add_file("C:\\a\\Temp\\h".to_string(), 1);
    // A refused directory closes the open one.
    assert!(s.open_dir("C:\\a", "Temp").is_none());
    s.add_file("C:\\a\\discord\\Cache\\i".to_string(), 1);
    let (items, _) = s.finish();
    let paths: Vec<&str> = items.iter().map(|i| i.path.as_str()).collect();
    assert_eq!(paths, vec!["C:\\a\\discord\\Cache\\f"]);
    assert_eq!(items[0].app_name.as_deref(), Some("Discord"));
}

#[test]
fn appdata_credits_found_directories_to_their_folder() {
    let mut s = scan_app_caches();
    s.begin_heuristic();
    assert!(s.open_dir("C:\\Users\\u\\AppData\\Local", "Vendor\\Cache").is_some());
    s.add_file("C:\\Users\\u\\AppData\\Local\\Vendor\\Cache\\f".to_string(), 3);
    assert!(s.open_dir("C:\\Users\\u\\AppData\\Local", "Cache").is_some());
    s.add_file("C:\\Users\\u\\AppData\\Local\\Cache\\g".to_string(), 4);
    let (items, _) = s.finish();
    assert_eq!(items[0].app_name.as_deref(), Some("Vendor"));
    assert_eq!(items[1].app_name.as_deref(), Some("Local"));
}

#[test]
fn recycle_bin_item() {
    assert!(scan_recycle_bin(0, 0).is_empty());
    let v = scan_recycle_bin(4, 4096);
    assert_eq!(v.len(), 1);
    assert!(v[0].is_recycle_bin);
    assert_eq!(v[0].path, "");
    assert_eq!(v[0].size, 4096);
    assert_eq!(v[0].category, JunkCategory::RecycleBin);
}

#[test]
fn thumbnail_names() {
    assert!(is_thumbnail_cache_name("thumbcache_256.db"));
    assert!(is_thumbnail_cache_name("thumbcache_idx.db"));
    assert!(!is_thumbnail_cache_name("iconcache_256.db"));
    assert!(!is_thumbnail_cache_name("thumbcache_256.db-wal"));
}

// --- application data ------------------------------------------------------------

#[test]
fn named_targets_table() {
    let t = named_targets();
    assert_eq!(t.len(), 28);
    assert_eq!((t[0].app_name, t[0].relative, t[0].is_cache, t[0].glob_one), ("Discord", "discord\\Cache", true, false));
    assert_eq!(t.iter().filter(|x| !x.is_cache).count(), 4);
    assert_eq!(t.iter().filter(|x| x.glob_one).count(), 4);
}

#[test]
fn glob_segments() {
    let (before, after) = glob_parts("Mozilla\\Firefox\\Profiles\\*\\cache2").unwrap();
    assert_eq!(before, vec!["Mozilla".to_string(), "Firefox".to_string(), "Profiles".to_string()]);
    assert_eq!(after, vec!["cache2".to_string()]);
    let (before, after) = glob_parts("JetBrains\\*").unwrap();
    assert_eq!(before, vec!["JetBrains".to_string()]);
    assert!(after.is_empty());
    assert!(glob_parts("npm-cache").is_none());
}

#[test]
fn excluded_prefixes() {
    assert!(is_excluded("Microsoft\\Edge\\User Data"));
    assert!(is_excluded("microsoft/edge/user data/Default/Cache"));
    assert!(is_excluded("Temp"));
    assert!(is_excluded("TEMP\\x"));
    assert!(!is_excluded("Temporary"));
    assert!(!is_excluded("Google\\Chrome"));
    assert!(is_excluded("Microsoft\\Windows\\Explorer\\thumbcache"));
}

#[test]
fn heuristic_directory_names() {
    assert!(matches_heuristic_dir("Cache", true));
    assert!(matches_heuristic_dir("GPUCache", true));
    assert!(!matches_heuristic_dir("CACHE", true));
    assert!(!matches_heuristic_dir("logs", true));
    assert!(matches_heuristic_dir("logs", false));
    assert!(matches_heuristic_dir("CrashDumps", false));
    assert!(!matches_heuristic_dir("Cache", false));
}

#[test]
fn settings_files() {
    assert!(is_settings_file("settings.json"));
    assert!(is_settings_file("Preferences"));
    assert!(is_settings_file("Secure Preferences"));
    assert!(is_settings_file("UserSettings.JSON"));
    assert!(!is_settings_file("main.log"));
    assert!(!is_settings_file("settings.txt"));
}

#[test]
fn app_configs_skip_settings_and_repeats() {
    let mut s = scan_app_configs();
    assert!(!s.want_cache());
    assert!(s.open_dir("C:\\a", "Code\\logs").is_some());
    s.add_file("C:\\a\\Code\\logs\\main.log".to_string(), 5);
    s.add_file("C:\\a\\Code\\logs\\settings.json".to_string(), 5);
    s.add_file("C:\\a\\Code\\logs\\main.log".to_string(), 5);
    assert!(!s.accepts("C:\\a\\Code\\logs\\main.log"));
    assert!(!s.accepts("C:\\a\\Code\\logs\\Preferences"));
    assert!(s.accepts("C:\\a\\Code\\logs\\other.log"));
    let (items, notice) = s.finish();
    assert!(notice.is_none());
    assert_eq!(items.len(), 1);
    assert_eq!(items[0].app_name.as_deref(), Some("VS Code"));
    assert_eq!(items[0].category, JunkCategory::AppConfigs);
}

#[test]
fn app_caches_keep_settings_files() {
    let mut s = scan_app_caches();
    assert!(s.want_cache());
    assert!(s.open_dir("C:\\a", "Code\\Cache").is_some());
    s.add_file("C:\\a\\Code\\Cache\\settings.json".to_string(), 5);
    let (items, _) = s.finish();
    assert_eq!(items.len(), 1);
    assert_eq!(items[0].app_name.as_deref(), Some("VS Code"));
}

#[test]
fn app_heuristic_limit_notice() {
    let mut s = scan_app_caches();
    s.begin_heuristic();
    assert!(s.open_dir("C:\\c", "App\\Cache").is_some());
    for k in 0..MAX_ITEMS_PER_CATEGORY {
        s.add_file(format!("C:\\c\\App\\Cache\\{k}"), 1);
    }
    assert!(s.is_full());
    let step = s.add_file("C:\\c\\App\\Cache\\more".to_string(), 1);
    assert!(step.stop);
    let (items, notice) = s.finish();
    assert_eq!(items.len(), MAX_ITEMS_PER_CATEGORY);
    assert_eq!(notice.unwrap().message, "软件缓存: 已达展示上限");
}

// --- registry --------------------------------------------------------------------

#[test]
fn blacklisted_keys() {
    assert!(is_blacklisted("HKLM\\SOFTWARE\\Microsoft\\Windows NT\\CurrentVersion\\ProfileList\\S-1"));
    assert!(is_blacklisted("hklm\\system\\currentcontrolset\\services\\x"));
    assert!(!is_blacklisted("HKCU\\SOFTWARE\\Microsoft\\Windows\\CurrentVersion\\Run"));
}

#[test]
fn path_values() {
    let e = env();
    assert_eq!(normalize_path_value("  \"C:\\App\\a.exe\" ", &e).as_deref(), Some("C:\\App\\a.exe"));
    assert_eq!(normalize_path_value("%ProgramFiles%\\x", &e).as_deref(), Some("C:\\Program Files\\x"));
    assert_eq!(normalize_path_value("  ", &e), None);
    assert_eq!(normalize_path_value("\"\"", &e), None);
    assert_eq!(normalize_path_value("%UNSET%", &e), None);
}

#[test]
fn icon_paths() {
    let e = env();
    assert_eq!(normalize_icon_path("C:\\App\\a.exe,0", &e).as_deref(), Some("C:\\App\\a.exe"));
    assert_eq!(normalize_icon_path("\"C:\\App\\a.exe\",-101", &e).as_deref(), Some("C:\\App\\a.exe"));
    assert_eq!(normalize_icon_path("C:\\App\\a,b.ico", &e).as_deref(), Some("C:\\App\\a,b.ico"));
}

#[test]
fn command_programs() {
    let e = env();
    assert_eq!(
        extract_exe_from_command("\"C:\\Program Files\\App\\uninst.exe\" /S", &e).as_deref(),
        Some("C:\\Program Files\\App\\uninst.exe")
    );
    assert_eq!(extract_exe_from_command("C:\\App\\run.exe --flag", &e).as_deref(), Some("C:\\App\\run.exe"));
    assert_eq!(extract_exe_from_command("\"C:\\unclosed", &e), None);
    assert_eq!(extract_exe_from_command("   ", &e), None);
    assert_eq!(
        extract_exe_from_command("%ProgramFiles%\\A\\a.exe x", &e).as_deref(),
        Some("C:\\Program Files\\A\\a.exe")
    );
}

#[test]
fn uninstall_entry_paths() {
    let e = env();
    let v = uninstall_candidates(
        &Some("C:\\App".to_string()),
        &Some("C:\\App\\a.exe,0".to_string()),
        &Some("\"C:\\App\\unins000.exe\"".to_string()),
        &e,
    );
    assert_eq!(v, vec!["C:\\App".to_string(), "C:\\App\\unins000.exe".to_string()]);
    let v = uninstall_candidates(&None, &Some("C:\\App\\a.exe,0".to_string()), &None, &e);
    assert_eq!(v, vec!["C:\\App\\a.exe".to_string()]);
    assert!(uninstall_candidates(&None, &None, &None, &e).is_empty());
}

#[test]
fn app_paths_and_run_values() {
    let e = env();
    assert_eq!(
        app_path_candidate(&Some("C:\\Tool\\t.exe".to_string()), &Some("C:\\Other".to_string()), &e).as_deref(),
        Some("C:\\Tool\\t.exe")
    );
    assert_eq!(app_path_candidate(&None, &Some("C:\\Other".to_string()), &e).as_deref(), Some("C:\\Other"));
    assert_eq!(app_path_candidate(&None, &None, &e), None);
    assert_eq!(run_value_candidate("", "C:\\x.exe", &e), None);
    assert_eq!(run_value_candidate("Updater", "\"C:\\u\\up.exe\" -bg", &e).as_deref(), Some("C:\\u\\up.exe"));
    assert_eq!(
        run_value_display("HKCU\\SOFTWARE\\Microsoft\\Windows\\CurrentVersion\\Run", "Updater"),
        "HKCU\\SOFTWARE\\Microsoft\\Windows\\CurrentVersion\\Run [Updater]"
    );
}

fn utf16z(s: &str) -> Vec<u8> {
    let mut v = Vec::new();
    for u in s.encode_utf16().chain(std::iter::once(0)) {
        v.extend_from_slice(&u.to_le_bytes());
    }
    v
}

#[test]
fn registry_strings() {
    assert_eq!(decode_reg_string(1, &utf16z("C:\\软件\\a.exe")).as_deref(), Some("C:\\软件\\a.exe"));
    assert_eq!(decode_reg_string(2, &utf16z("%SystemRoot%")).as_deref(), Some("%SystemRoot%"));
    assert_eq!(decode_reg_string(4, &utf16z("x")), None);
    assert_eq!(decode_reg_string(1, &utf16z("🎉")).as_deref(), Some("🎉"));
    // A lone surrogate becomes U+FFFD.
    assert_eq!(decode_reg_string(1, &vec![0x00, 0xD8, 0x41, 0x00, 0, 0]).as_deref(), Some("\u{FFFD}A"));
    assert_eq!(query_string_value(1, &utf16z("")), None);
    assert_eq!(query_string_value(1, &Vec::new()), None);
    assert_eq!(query_string_value(1, &utf16z("v")).as_deref(), Some("v"));
}

fn present(v: &[(&str, bool)]) -> Vec<(String, bool)> {
    v.iter().map(|(p, e)| (p.to_string(), *e)).collect()
}

#[test]
fn registry_scan_items() {
    let mut s = scan_registry_orphans();
    let p = s.record_orphan(
        "HKCU\\SOFTWARE\\Microsoft\\Windows\\CurrentVersion\\Uninstall\\App".to_string(),
        "HKCU\\SOFTWARE\\Microsoft\\Windows\\CurrentVersion\\Uninstall\\App".to_string(),
        None,
        &present(&[("C:\\App", false), ("C:\\App\\app.exe", false)]),
    );
    assert!(p.is_none());
    // A protected key is never recorded.
    s.record_orphan(
        "HKLM\\SYSTEM\\CurrentControlSet\\Services\\X".to_string(),
        "HKLM\\SYSTEM\\CurrentControlSet\\Services\\X".to_string(),
        None,
        &present(&[("C:\\X", false)]),
    );
    // An entry with one target still present is no orphan.
    s.record_orphan(
        "HKCU\\K\\Live".to_string(),
        "HKCU\\K\\Live".to_string(),
        None,
        &present(&[("C:\\Gone", false), ("C:\\Here", true)]),
    );
    // Nor is one without targets.
    s.record_orphan("HKCU\\K\\None".to_string(), "HKCU\\K\\None".to_string(), None, &Vec::new());
    let items = s.finish(true);
    assert_eq!(items.len(), 1);
    assert_eq!(items[0].skip_reason.as_deref(), Some("指向的文件已不存在: C:\\App"));
    assert_eq!(items[0].status, ItemStatus::Normal);
    assert!(matches!(&items[0].target, JunkTarget::RegistryKey { value_name: None, .. }));
}

#[test]
fn registry_push_always_appends() {
    let mut s = scan_registry_orphans();
    s.push_registry_item(
        "HKLM\\SYSTEM\\CurrentControlSet\\Services\\X".to_string(),
        "HKLM\\SYSTEM\\CurrentControlSet\\Services\\X".to_string(),
        None,
        "C:\\X",
        true,
    );
    let items = s.finish(true);
    assert_eq!(items.len(), 1);
    assert_eq!(items[0].status, ItemStatus::NeedsAdmin);
    assert_eq!(items[0].skip_reason.as_deref(), Some("指向的文件已不存在: C:\\X"));
}

#[test]
fn registry_scan_without_admin_adds_hklm_placeholder() {
    let mut s = scan_registry_orphans();
    s.record_orphan(
        "HKCU\\Run [a]".to_string(),
        "HKCU\\Run".to_string(),
        Some("a".to_string()),
        &present(&[("C:\\a.exe", false)]),
    );
    let items = s.finish(false);
    assert_eq!(items.len(), 2);
    assert!(matches!(&items[0].target, JunkTarget::RegistryKey { value_name: Some(v), .. } if v == "a"));
    assert_eq!(items[0].path, "HKCU\\Run [a]");
    let last = &items[1];
    assert_eq!(last.path, "HKLM\\SOFTWARE\\Microsoft\\Windows\\CurrentVersion\\Uninstall");
    assert_eq!(last.status, ItemStatus::NeedsAdmin);
    assert_eq!(last.skip_reason.as_deref(), Some("需要管理员权限才能扫描/清理 HKLM 注册表项"));
}

#[test]
fn registry_scan_reports_every_50() {
    let mut s = scan_registry_orphans();
    let mut reports = Vec::new();
    for k in 0..100 {
        if let Some(p) = s.record_orphan(format!("HKCU\\K\\{k}"), format!("HKCU\\K\\{k}"), None, &present(&[("C:\\gone", false)])) {
            reports.push(p.files_found);
        }
    }
    assert_eq!(reports, vec![50, 100]);
}

#[test]
fn registry_hives_follow_admin_rights() {
    let user = hives_to_scan(false);
    assert_eq!(user.len(), 1);
    assert_eq!(user[0].0, RegistryHive::CurrentUser);
    assert_eq!(user[0].1, "HKCU");
    let admin = hives_to_scan(true);
    assert_eq!(admin.len(), 2);
    assert_eq!(admin[1].0, RegistryHive::LocalMachine);
    assert_eq!(admin[1].1, "HKLM");
}

// --- the combined result ------------------------------------------------------------

fn item(c: JunkCategory, path: &str) -> JunkItem {
    JunkItem::file(c, path.to_string(), 1, ItemStatus::Normal)
}

#[test]
fn results_ordered_by_label_then_path() {
    let r = gather_results(vec![
        vec![item(JunkCategory::UserTemp, "C:\\t\\b"), item(JunkCategory::UserTemp, "C:\\t\\a")],
        vec![item(JunkCategory::RecycleBin, "回收站")],
        vec![item(JunkCategory::Prefetch, "C:\\Windows\\Prefetch\\A.pf")],
    ]);
    let got: Vec<(JunkCategory, String)> = r.iter().map(|i| (i.category, i.path.clone())).collect();
    // "Prefetch" < "回收站" < "用户临时文件" by code point.
    assert_eq!(
        got,
        vec![
            (JunkCategory::Prefetch, "C:\\Windows\\Prefetch\\A.pf".to_string()),
            (JunkCategory::RecycleBin, "回收站".to_string()),
            (JunkCategory::UserTemp, "C:\\t\\a".to_string()),
            (JunkCategory::UserTemp, "C:\\t\\b".to_string()),
        ]
    );
}

#[test]
fn results_keep_equal_items_in_order() {
    let mut a = item(JunkCategory::UserTemp, "C:\\t\\x");
    a.size = 1;
    let mut b = item(JunkCategory::UserTemp, "C:\\t\\x\\");
    b.size = 2;
    let r = gather_results(vec![vec![a, b]]);
    assert_eq!(r.iter().map(|i| i.size).collect::<Vec<_>>(), vec![1, 2]);
    assert!(gather_results(Vec::new()).is_empty());
}

#[test]
fn orphan_needs_every_path_missing() {
    let c = |v: &[(&str, bool)]| v.iter().map(|(p, e)| (p.to_string(), *e)).collect::<Vec<_>>();
    assert_eq!(bgxiong_clear_helper::scanner::registry::missing_target(&c(&[("C:\\A", false), ("C:\\B", false)])).as_deref(), Some("C:\\A"));
    assert_eq!(bgxiong_clear_helper::scanner::registry::missing_target(&c(&[("C:\\A", false), ("C:\\B", true)])), None);
    assert_eq!(bgxiong_clear_helper::scanner::registry::missing_target(&c(&[])), None);
}

#[test]
fn registry_scan_takes_no_more_than_the_limit() {
    let mut s = scan_registry_orphans();
    for k in 0..MAX_ITEMS_PER_CATEGORY + 3 {
        s.record_orphan(format!("HKCU\\K\\{k}"), format!("HKCU\\K\\{k}"), None, &present(&[("C:\\gone", false)]));
    }
    assert!(s.is_full());
    assert_eq!(s.finish(true).len(), MAX_ITEMS_PER_CATEGORY);
}

#[test]
fn storage_folders_are_local_storage() {
    assert_eq!(classify_browser_path("Local Storage\\leveldb\\000003.log"), Some(BrowserSubKind::LocalStorage));
    assert_eq!(classify_browser_path("session storage/x"), Some(BrowserSubKind::LocalStorage));
    assert_eq!(classify_browser_path("IndexedDB\\https_x\\Cookies"), Some(BrowserSubKind::LocalStorage));
}
