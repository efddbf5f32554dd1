use vstd::prelude::*;

use crate::models::{ItemStatus, JunkCategory, JunkItem};
use crate::scanner::temp::{
    file_scan_wf, fresh_scan, new_file_scan, placeholder_admin, placeholder_ok, single_root_scan, FileScan,
    FileScanState,
};

verus! {

/// The scan of the prefetch directory.
pub open spec fn prefetch_scan() -> FileScanState {
    fresh_scan(
        JunkCategory::Prefetch,
        seq!["C:\\Windows\\Prefetch"@],
        ItemStatus::Normal,
        Some(seq!["pf"@]),
        None,
        500,
        false,
    )
}

/// The scan of the update download cache.
pub open spec fn windows_update_scan() -> FileScanState {
    fresh_scan(
        JunkCategory::WindowsUpdate,
        seq!["C:\\Windows\\SoftwareDistribution\\Download"@],
        ItemStatus::Normal,
        None,
        None,
        500,
        false,
    )
}

/// The scan of the system logs.
pub open spec fn windows_logs_scan() -> FileScanState {
    fresh_scan(
        JunkCategory::WindowsLogs,
        seq!["C:\\Windows\\Logs"@],
        ItemStatus::Normal,
        Some(seq!["log"@, "etl"@]),
        Some(8usize),
        200,
        true,
    )
}

/// Prefetch files (`*.pf`) in `C:\Windows\Prefetch`.
pub fn scan_prefetch() -> (r: FileScan)
    ensures
        file_scan_wf(r@),
        r@ == prefetch_scan(),
{
    let mut roots: Vec<String> = Vec::new();
    roots.push(String::from_str("C:\\Windows\\Prefetch"));
    let mut exts: Vec<String> = Vec::new();
    exts.push(String::from_str("pf"));
    let r = new_file_scan(JunkCategory::Prefetch, roots, ItemStatus::Normal, Some(exts), None, 500, false);
    assert(r@.roots =~= seq!["C:\\Windows\\Prefetch"@]);
    assert(r@.extensions =~= Some(seq!["pf"@]));
    assert(r@ =~= prefetch_scan());
    r
}

/// Without administrator rights, the prefetch directory shows as one item that needs them.
pub fn scan_prefetch_needs_admin() -> (r: Vec<JunkItem>)
    ensures
        r@.len() == 1,
        placeholder_ok(r@[0], JunkCategory::Prefetch, "C:\\Windows\\Prefetch"@),
{
    let mut v: Vec<JunkItem> = Vec::new();
    v.push(placeholder_admin(JunkCategory::Prefetch, "C:\\Windows\\Prefetch"));
    v
}

/// Downloaded updates in `C:\Windows\SoftwareDistribution\Download`, any file.
pub fn scan_windows_update() -> (r: FileScan)
    ensures
        file_scan_wf(r@),
        r@ == windows_update_scan(),
{
    single_root_scan(JunkCategory::WindowsUpdate, "C:\\Windows\\SoftwareDistribution\\Download")
}

/// Without administrator rights, the update cache shows as one item that needs them.
pub fn scan_windows_update_needs_admin() -> (r: Vec<JunkItem>)
    ensures
        r@.len() == 1,
        placeholder_ok(r@[0], JunkCategory::WindowsUpdate, "C:\\Windows\\SoftwareDistribution\\Download"@),
{
    let mut v: Vec<JunkItem> = Vec::new();
    v.push(placeholder_admin(JunkCategory::WindowsUpdate, "C:\\Windows\\SoftwareDistribution\\Download"));
    v
}

/// Log and trace files (`*.log`, `*.etl`) up to eight levels below `C:\Windows\Logs`,
/// with a progress report every 200 items.
pub fn scan_windows_logs() -> (r: FileScan)
    ensures
        file_scan_wf(r@),
        r@ == windows_logs_scan(),
{
    let mut roots: Vec<String> = Vec::new();
    roots.push(String::from_str("C:\\Windows\\Logs"));
    let mut exts: Vec<String> = Vec::new();
    exts.push(String::from_str("log"));
    exts.push(String::from_str("etl"));
    let r = new_file_scan(JunkCategory::WindowsLogs, roots, ItemStatus::Normal, Some(exts), Some(8), 200, true);
    assert(r@.roots =~= seq!["C:\\Windows\\Logs"@]);
    assert(r@.extensions =~= Some(seq!["log"@, "etl"@]));
    assert(r@ =~= windows_logs_scan());
    r
}

/// Without administrator rights, the log directory shows as one item that needs them.
pub fn scan_windows_logs_needs_admin() -> (r: Vec<JunkItem>)
    ensures
        r@.len() == 1,
        placeholder_ok(r@[0], JunkCategory::WindowsLogs, "C:\\Windows\\Logs"@),
{
    let mut v: Vec<JunkItem> = Vec::new();
    v.push(placeholder_admin(JunkCategory::WindowsLogs, "C:\\Windows\\Logs"));
    v
}

} // verus!
