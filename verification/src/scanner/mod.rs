pub mod appdata;
pub mod browser;
pub mod recycle_bin;
pub mod registry;
pub mod system;
pub mod temp;
pub mod thumbnail;

use vstd::prelude::*;

use crate::models::{category_label, JunkCategory, JunkItem, ScanProgress};
use crate::order::{sort_items, stable_sort_of};
use crate::text::{chars_of, decimal, decimal_chars, extend_chars, extend_str, string_of};
use crate::scanner::appdata::{AppDataScan, AppDataScanState};
use crate::scanner::browser::{browser_scan_wf, BrowserScan};
use crate::scanner::registry::{registry_scan_wf, RegistryScan};
use crate::scanner::system::{prefetch_scan, windows_logs_scan, windows_update_scan};
use crate::scanner::temp::{file_scan_wf, placeholder_ok, system_temp_scan, FileScan};

verus! {

/// How one category is scanned.
pub enum ScanPlan {
    /// The user's temporary directories, once found, are scanned with `temp::scan_user_temp`.
    UserTemp,
    /// These directories are walked for files.
    Files(FileScan),
    /// The category needs administrator rights; these items say so.
    Placeholder(Vec<JunkItem>),
    /// The recycle bin is counted and summed (`recycle_bin::scan_recycle_bin`).
    RecycleBin,
    /// Explorer's cache directory is listed for `thumbcache_*.db`.
    Thumbnails,
    /// A browser's profiles are walked.
    Browser(BrowserScan),
    /// Application directories are walked.
    AppData(AppDataScan),
    /// The registry is searched for orphaned entries.
    Registry(RegistryScan),
}

/// How to scan a category, given whether the process runs as administrator: system
/// locations are scanned only by an administrator, and show as placeholders otherwise.
pub fn scan_category(category: JunkCategory, is_admin: bool) -> (r: ScanPlan)
    ensures
        match category {
            JunkCategory::UserTemp => r is UserTemp,
            JunkCategory::SystemTemp => if is_admin {
                r matches ScanPlan::Files(s) && file_scan_wf(s@) && s@ == system_temp_scan()
            } else {
                r matches ScanPlan::Placeholder(v) && v@.len() == 1 && placeholder_ok(
                    v@[0],
                    JunkCategory::SystemTemp,
                    "C:\\Windows\\Temp"@,
                )
            },
            JunkCategory::RecycleBin => r is RecycleBin,
            JunkCategory::ThumbnailCache => r is Thumbnails,
            JunkCategory::Prefetch => if is_admin {
                r matches ScanPlan::Files(s) && file_scan_wf(s@) && s@ == prefetch_scan()
            } else {
                r matches ScanPlan::Placeholder(v) && v@.len() == 1 && placeholder_ok(
                    v@[0],
                    JunkCategory::Prefetch,
                    "C:\\Windows\\Prefetch"@,
                )
            },
            JunkCategory::EdgeCache => r matches ScanPlan::Browser(s) && browser_scan_wf(s@)
                && s@.category == JunkCategory::EdgeCache && s@.user_data == "Microsoft\\Edge\\User Data"@
                && s@.items.len() == 0,
            JunkCategory::ChromeCache => r matches ScanPlan::Browser(s) && browser_scan_wf(s@)
                && s@.category == JunkCategory::ChromeCache && s@.user_data == "Google\\Chrome\\User Data"@
                && s@.items.len() == 0,
            JunkCategory::WindowsUpdate => if is_admin {
                r matches ScanPlan::Files(s) && file_scan_wf(s@) && s@ == windows_update_scan()
            } else {
                r matches ScanPlan::Placeholder(v) && v@.len() == 1 && placeholder_ok(
                    v@[0],
                    JunkCategory::WindowsUpdate,
                    "C:\\Windows\\SoftwareDistribution\\Download"@,
                )
            },
            JunkCategory::WindowsLogs => if is_admin {
                r matches ScanPlan::Files(s) && file_scan_wf(s@) && s@ == windows_logs_scan()
            } else {
                r matches ScanPlan::Placeholder(v) && v@.len() == 1 && placeholder_ok(
                    v@[0],
                    JunkCategory::WindowsLogs,
                    "C:\\Windows\\Logs"@,
                )
            },
            JunkCategory::AppCaches => r matches ScanPlan::AppData(s) && s.wf() && s@ == (AppDataScanState {
                category: JunkCategory::AppCaches,
                want_cache: true,
                items: Seq::empty(),
                heuristic: false,
                dirs: Seq::empty(),
                open: false,
                app: None,
            }),
            JunkCategory::AppConfigs => r matches ScanPlan::AppData(s) && s.wf() && s@ == (AppDataScanState {
                category: JunkCategory::AppConfigs,
                want_cache: false,
                items: Seq::empty(),
                heuristic: false,
                dirs: Seq::empty(),
                open: false,
                app: None,
            }),
            JunkCategory::RegistryOrphans => r matches ScanPlan::Registry(s) && registry_scan_wf(s@) && s@.len() == 0,
        },
{
    match category {
        JunkCategory::UserTemp => ScanPlan::UserTemp,
        JunkCategory::SystemTemp => if is_admin {
            ScanPlan::Files(temp::scan_system_temp())
        } else {
            ScanPlan::Placeholder(temp::scan_system_temp_needs_admin())
        },
        JunkCategory::RecycleBin => ScanPlan::RecycleBin,
        JunkCategory::ThumbnailCache => ScanPlan::Thumbnails,
        JunkCategory::Prefetch => if is_admin {
            ScanPlan::Files(system::scan_prefetch())
        } else {
            ScanPlan::Placeholder(system::scan_prefetch_needs_admin())
        },
        JunkCategory::EdgeCache => ScanPlan::Browser(browser::scan_edge_cache()),
        JunkCategory::ChromeCache => ScanPlan::Browser(browser::scan_chrome_cache()),
        JunkCategory::WindowsUpdate => if is_admin {
            ScanPlan::Files(system::scan_windows_update())
        } else {
            ScanPlan::Placeholder(system::scan_windows_update_needs_admin())
        },
        JunkCategory::WindowsLogs => if is_admin {
            ScanPlan::Files(system::scan_windows_logs())
        } else {
            ScanPlan::Placeholder(system::scan_windows_logs_needs_admin())
        },
        JunkCategory::AppCaches => ScanPlan::AppData(appdata::scan_app_caches()),
        JunkCategory::AppConfigs => ScanPlan::AppData(appdata::scan_app_configs()),
        JunkCategory::RegistryOrphans => ScanPlan::Registry(registry::scan_registry_orphans()),
    }
}

/// `正在扫描: label`, the report sent as a category's scan begins.
pub open spec fn started_message(c: JunkCategory) -> Seq<char> {
    "正在扫描: "@ + category_label(c)
}

/// `完成: label (n 项)`, the report sent as a category's scan ends with `n` items.
pub open spec fn finished_message(c: JunkCategory, n: nat) -> Seq<char> {
    "完成: "@ + category_label(c) + " ("@ + decimal(n) + " 项)"@
}

/// The report sent as the scan of `category` begins.
pub fn scan_started(category: JunkCategory) -> (r: ScanProgress)
    ensures
        r.category == category,
        r.files_found == 0,
        r.message@ == started_message(category),
{
    let mut m = chars_of("正在扫描: ");
    extend_str(&mut m, category.label());
    ScanProgress { category, files_found: 0, message: string_of(&m) }
}

/// The report sent as the scan of `category` ends with `found` items.
pub fn scan_finished(category: JunkCategory, found: usize) -> (r: ScanProgress)
    ensures
        r.category == category,
        r.files_found == found,
        r.message@ == finished_message(category, found as nat),
{
    let mut m = chars_of("完成: ");
    extend_str(&mut m, category.label());
    extend_str(&mut m, " (");
    extend_chars(&mut m, &decimal_chars(found as u64));
    extend_str(&mut m, " 项)");
    ScanProgress { category, files_found: found, message: string_of(&m) }
}

/// The items of all categories, one list per category, as a single list.
pub open spec fn all_found(results: Seq<Vec<JunkItem>>) -> Seq<JunkItem> {
    results.map_values(|v: Vec<JunkItem>| v@).flatten()
}

/// The scan result: the lists of all categories joined, then ordered by category label
/// and path, items that are equal in this order keeping the order in which they came.
pub fn gather_results(results: Vec<Vec<JunkItem>>) -> (r: Vec<JunkItem>)
    ensures
        stable_sort_of(r@, all_found(results@)),
{
    let mut all: Vec<JunkItem> = Vec::new();
    let ghost lists = results@.map_values(|v: Vec<JunkItem>| v@);
    for i in 0..results.len()
        invariant
            lists == results@.map_values(|v: Vec<JunkItem>| v@),
            all@ == lists.take(i as int).flatten(),
    {
        let list = &results[i];
        let ghost before = all@;
        for j in 0..list.len()
            invariant
                all@ == before + list@.take(j as int),
        {
            all.push(list[j].clone());
            assert(list@.take(j + 1) == list@.take(j as int).push(list@[j as int]));
        }
        proof {
            assert(list@.take(list.len() as int) == list@);
            assert(lists.take(i + 1) == lists.take(i as int).push(lists[i as int]));
            lists.take(i as int).lemma_flatten_push(lists[i as int]);
        }
    }
    proof {
        assert(lists.take(results.len() as int) == lists);
    }
    sort_items(all)
}

} // verus!
