use vstd::prelude::*;

use crate::models::{
    category_label, file_item, ItemStatus, JunkCategory, JunkItem, ScanProgress,
    MAX_ITEMS_PER_CATEGORY,
};
use crate::order::{extension, extension_of, ordered_unique, ordered_unique_paths};
use crate::text::{chars_of, decimal, decimal_chars, extend_chars, extend_str, lower, string_of};

verus! {

/// `label: 已找到 n 项`, the message sent as a scan finds more items.
pub open spec fn found_message(c: JunkCategory, n: nat) -> Seq<char> {
    category_label(c) + ": 已找到 "@ + decimal(n) + " 项"@
}

/// The message sent when a file scan stops at the item limit.
pub open spec fn limit_message(c: JunkCategory, short: bool) -> Seq<char> {
    if short {
        category_label(c) + ": 已达展示上限"@
    } else {
        category_label(c) + ": 已达上限 "@ + decimal(MAX_ITEMS_PER_CATEGORY as nat)
            + " 项，其余可通过汇总大小查看"@
    }
}

/// A progress report with this category, count and message.
pub open spec fn progress_is(p: ScanProgress, c: JunkCategory, n: nat, m: Seq<char>) -> bool {
    p.category == c && p.files_found == n && p.message@ == m
}

/// The `found_message` report.
pub fn found_progress(category: JunkCategory, n: usize) -> (r: ScanProgress)
    ensures
        progress_is(r, category, n as nat, found_message(category, n as nat)),
{
    let mut m = chars_of(category.label());
    extend_str(&mut m, ": 已找到 ");
    extend_chars(&mut m, &decimal_chars(n as u64));
    extend_str(&mut m, " 项");
    ScanProgress { category, files_found: n, message: string_of(&m) }
}

/// The `limit_message` report.
pub fn limit_progress(category: JunkCategory, n: usize, short: bool) -> (r: ScanProgress)
    ensures
        progress_is(r, category, n as nat, limit_message(category, short)),
{
    let mut m = chars_of(category.label());
    if short {
        extend_str(&mut m, ": 已达展示上限");
    } else {
        extend_str(&mut m, ": 已达上限 ");
        extend_chars(&mut m, &decimal_chars(MAX_ITEMS_PER_CATEGORY as u64));
        extend_str(&mut m, " 项，其余可通过汇总大小查看");
    }
    ScanProgress { category, files_found: n, message: string_of(&m) }
}

/// The skip reason of an item that needs administrator rights.
pub open spec fn admin_reason() -> Seq<char> {
    "需要管理员权限才能扫描和清理"@
}

/// An item that stands for a location the user may only scan as administrator.
pub fn placeholder_admin(category: JunkCategory, path: &str) -> (r: JunkItem)
    ensures
        placeholder_ok(r, category, path@),
{
    let mut item = JunkItem::file(category, String::from_str(path), 0, ItemStatus::NeedsAdmin);
    item.skip_reason = Some(String::from_str("需要管理员权限才能扫描和清理"));
    item
}

/// A scan of the files below some directories, with the rules of one category: which
/// status the items get, which extensions count, how deep to look, how often progress
/// is reported and how the item limit is announced.
pub struct FileScan {
    category: JunkCategory,
    roots: Vec<String>,
    status: ItemStatus,
    extensions: Option<Vec<String>>,
    max_depth: Option<usize>,
    every: usize,
    short_notice: bool,
    items: Vec<JunkItem>,
    truncated: bool,
}

/// The rules and items of a file scan, as its users see them.
#[verifier::ext_equal]
pub struct FileScanState {
    pub category: JunkCategory,
    pub roots: Seq<Seq<char>>,
    pub status: ItemStatus,
    pub extensions: Option<Seq<Seq<char>>>,
    pub max_depth: Option<usize>,
    pub every: nat,
    pub short_notice: bool,
    pub items: Seq<JunkItem>,
    pub truncated: bool,
}

/// The consistency of a file scan: below the limit until it is reached, and every
/// item a file item of the scan's category and status.
pub open spec fn file_scan_wf(s: FileScanState) -> bool {
    &&& s.every > 0
    &&& s.items.len() <= MAX_ITEMS_PER_CATEGORY
    &&& s.truncated <==> s.items.len() == MAX_ITEMS_PER_CATEGORY
    &&& forall|k: int|
        0 <= k < s.items.len() ==> (#[trigger] s.items[k]) == file_item(
            s.category,
            s.items[k].path,
            s.items[k].size,
            s.status,
        ) && extension_counts(s.extensions, extension_of(s.items[k].path@))
}

impl View for FileScan {
    type V = FileScanState;

    closed spec fn view(&self) -> FileScanState {
        FileScanState {
            category: self.category,
            roots: self.roots@.map_values(|r: String| r@),
            status: self.status,
            extensions: match self.extensions {
                Some(e) => Some(e@.map_values(|x: String| x@)),
                None => None,
            },
            max_depth: self.max_depth,
            every: self.every as nat,
            short_notice: self.short_notice,
            items: self.items@,
            truncated: self.truncated,
        }
    }
}

/// The state of a scan that has found nothing yet.
pub open spec fn fresh_scan(
    category: JunkCategory,
    roots: Seq<Seq<char>>,
    status: ItemStatus,
    extensions: Option<Seq<Seq<char>>>,
    max_depth: Option<usize>,
    every: nat,
    short_notice: bool,
) -> FileScanState {
    FileScanState {
        category,
        roots,
        status,
        extensions,
        max_depth,
        every,
        short_notice,
        items: Seq::empty(),
        truncated: false,
    }
}

/// The scan of the system's temporary directory.
pub open spec fn system_temp_scan() -> FileScanState {
    fresh_scan(JunkCategory::SystemTemp, seq!["C:\\Windows\\Temp"@], ItemStatus::Normal, None, None, 500, false)
}

/// Whether `item` is the placeholder for `path` in category `c`.
pub open spec fn placeholder_ok(item: JunkItem, c: JunkCategory, path: Seq<char>) -> bool {
    &&& item.category == c
    &&& item.path@ == path
    &&& item.size == 0
    &&& item.status == ItemStatus::NeedsAdmin
    &&& !item.selected
    &&& item.skip_reason matches Some(s) && s@ == admin_reason()
    &&& !item.is_recycle_bin
    &&& item.browser_sub is None
    &&& item.app_name is None
    &&& item.target matches crate::models::JunkTarget::File(p) && p@ == path
}

/// A fresh scan of `roots`.
pub fn new_file_scan(
    category: JunkCategory,
    roots: Vec<String>,
    status: ItemStatus,
    extensions: Option<Vec<String>>,
    max_depth: Option<usize>,
    every: usize,
    short_notice: bool,
) -> (r: FileScan)
    requires
        every > 0,
    ensures
        file_scan_wf(r@),
        r@.category == category,
        r@.roots == roots@.map_values(|x: String| x@),
        r@.status == status,
        r@.extensions == match extensions {
            Some(e) => Some(e@.map_values(|x: String| x@)),
            None => None,
        },
        r@.max_depth == max_depth,
        r@.every == every,
        r@.short_notice == short_notice,
        r@.items.len() == 0,
        !r@.truncated,
{
    FileScan {
        category,
        roots,
        status,
        extensions,
        max_depth,
        every,
        short_notice,
        items: Vec::new(),
        truncated: false,
    }
}

/// Whether a file with extension `ext` counts: any extension when the scan names
/// none, else one whose ASCII lower-case form is among them.
pub open spec fn extension_counts(exts: Option<Seq<Seq<char>>>, ext: Seq<char>) -> bool {
    match exts {
        None => true,
        Some(e) => e.contains(lower(ext)),
    }
}

/// What adding a file gave: the progress to report, if any, and whether to stop.
pub struct ScanStep {
    pub progress: Option<ScanProgress>,
    pub stop: bool,
}

impl FileScan {
    /// The directories to walk.
    pub fn roots(&self) -> (r: &Vec<String>)
        ensures
            r@.map_values(|x: String| x@) == self@.roots,
    {
        &self.roots
    }

    /// How deep below a root to look; `None` for no limit.
    pub fn max_depth(&self) -> (r: Option<usize>)
        ensures
            r == self@.max_depth,
    {
        self.max_depth
    }

    pub fn category(&self) -> (r: JunkCategory)
        ensures
            r == self@.category,
    {
        self.category
    }

    /// Whether the scan has reached the item limit.
    pub fn is_full(&self) -> (r: bool)
        ensures
            r == self@.truncated,
    {
        self.truncated
    }

    /// Whether a file counts, by its extension: any file when the scan names no
    /// extensions, else one whose extension, in ASCII lower case, is among them.
    pub fn wants_file(&self, path: &str) -> (r: bool)
        ensures
            r == extension_counts(self@.extensions, extension_of(path@)),
    {
        match &self.extensions {
            None => true,
            Some(exts) => {
                let want = crate::text::lower_ascii(&extension(path));
                let ghost ev = exts@.map_values(|x: String| x@);
                let ghost ext = extension_of(path@);
                assert(self@.extensions == Some(ev));
                for k in 0..exts.len()
                    invariant
                        self@.extensions == Some(ev),
                        ev == exts@.map_values(|x: String| x@),
                        ext == extension_of(path@),
                        want@ == lower(ext),
                        forall|m: int| 0 <= m < k ==> ev[m] != lower(ext),
                {
                    let e = chars_of(exts[k].as_str());
                    assert(ev[k as int] == exts@[k as int]@);
                    if crate::text::chars_eq(&e, &want) {
                        assert(ev[k as int] == lower(ext));
                        assert(ev.contains(lower(ext)));
                        return true;
                    }
                }
                false
            },
        }
    }

    /// Adds a file found by the walk. A file whose extension does not count is passed
    /// over; otherwise it becomes an unselected item of the scan's category and status,
    /// every `every` items a progress report is due, and the walk stops at the item
    /// limit. A full scan takes no more files.
    pub fn add_file(&mut self, path: String, size: u64) -> (step: ScanStep)
        requires
            file_scan_wf(old(self)@),
        ensures
            file_scan_wf(final(self)@),
            final(self)@ == (FileScanState { items: final(self)@.items, truncated: final(self)@.truncated, ..old(self)@ }),
            old(self)@.truncated ==> final(self)@ == old(self)@ && step.stop && step.progress is None,
            !old(self)@.truncated && !extension_counts(old(self)@.extensions, extension_of(path@))
                ==> final(self)@ == old(self)@ && !step.stop && step.progress is None,
            !old(self)@.truncated && extension_counts(old(self)@.extensions, extension_of(path@)) ==> {
                &&& final(self)@.items == old(self)@.items.push(
                    file_item(old(self)@.category, path, size, old(self)@.status),
                )
                &&& step.stop == final(self)@.truncated
                &&& match step.progress {
                    Some(p) => final(self)@.items.len() % old(self)@.every == 0 && progress_is(
                        p,
                        old(self)@.category,
                        final(self)@.items.len(),
                        found_message(old(self)@.category, final(self)@.items.len()),
                    ),
                    None => final(self)@.items.len() % old(self)@.every != 0,
                }
            },
    {
        if self.truncated {
            return ScanStep { progress: None, stop: true };
        }
        if !self.wants_file(path.as_str()) {
            return ScanStep { progress: None, stop: false };
        }
        let ghost old_items = self.items@;
        let item = JunkItem::file(self.category, path, size, self.status);
        self.items.push(item);
        proof {
            assert forall|k: int| 0 <= k < self.items@.len() implies (#[trigger] self.items@[k]) == file_item(
                self@.category,
                self.items@[k].path,
                self.items@[k].size,
                self@.status,
            ) && extension_counts(self@.extensions, extension_of(self.items@[k].path@)) by {
                if k < old_items.len() {
                    assert(self.items@[k] == old_items[k]);
                }
            }
        }
        let n = self.items.len();
        let progress = if n % self.every == 0 {
            Some(found_progress(self.category, n))
        } else {
            None
        };
        if n >= MAX_ITEMS_PER_CATEGORY {
            self.truncated = true;
        }
        ScanStep { progress, stop: self.truncated }
    }

    /// Ends the scan: its items, and the limit notice when the limit was reached.
    pub fn finish(self) -> (r: (Vec<JunkItem>, Option<ScanProgress>))
        requires
            file_scan_wf(self@),
        ensures
            r.0@ == self@.items,
            match r.1 {
                Some(p) => self@.truncated && progress_is(
                    p,
                    self@.category,
                    self@.items.len(),
                    limit_message(self@.category, self@.short_notice),
                ),
                None => !self@.truncated,
            },
    {
        let notice = if self.truncated {
            Some(limit_progress(self.category, self.items.len(), self.short_notice))
        } else {
            None
        };
        (self.items, notice)
    }
}

/// The user's temporary directories (`%TEMP%`, `%TMP%`, `%LOCALAPPDATA%\Temp`, those
/// that exist), ordered as paths and each path once, scanned for any file.
pub fn scan_user_temp(dirs: Vec<String>) -> (r: FileScan)
    ensures
        file_scan_wf(r@),
        r@.category == JunkCategory::UserTemp,
        ordered_unique_paths(r@.roots, dirs@.map_values(|x: String| x@)),
        r@.status == ItemStatus::Normal,
        r@.extensions is None,
        r@.max_depth is None,
        r@.every == 500,
        !r@.short_notice,
        r@.items.len() == 0,
        !r@.truncated,
{
    let roots = ordered_unique(&dirs);
    new_file_scan(JunkCategory::UserTemp, roots, ItemStatus::Normal, None, None, 500, false)
}

/// The scan of one directory, for any file, in the way temporary files are scanned.
pub fn single_root_scan(category: JunkCategory, root: &str) -> (r: FileScan)
    ensures
        file_scan_wf(r@),
        r@ == fresh_scan(category, seq![root@], ItemStatus::Normal, None, None, 500, false),
{
    let mut roots: Vec<String> = Vec::new();
    roots.push(String::from_str(root));
    let r = new_file_scan(category, roots, ItemStatus::Normal, None, None, 500, false);
    assert(r@.roots =~= seq![root@]);
    assert(r@ =~= fresh_scan(category, seq![root@], ItemStatus::Normal, None, None, 500, false));
    r
}

/// The system's temporary directory, `C:\Windows\Temp`, scanned for any file.
pub fn scan_system_temp() -> (r: FileScan)
    ensures
        file_scan_wf(r@),
        r@ == system_temp_scan(),
{
    single_root_scan(JunkCategory::SystemTemp, "C:\\Windows\\Temp")
}

/// Without administrator rights, the system's temporary directory shows as one item
/// that needs them.
pub fn scan_system_temp_needs_admin() -> (r: Vec<JunkItem>)
    ensures
        r@.len() == 1,
        placeholder_ok(r@[0], JunkCategory::SystemTemp, "C:\\Windows\\Temp"@),
{
    let mut v: Vec<JunkItem> = Vec::new();
    v.push(placeholder_admin(JunkCategory::SystemTemp, "C:\\Windows\\Temp"));
    v
}

} // verus!
