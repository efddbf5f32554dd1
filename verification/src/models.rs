use vstd::prelude::*;

verus! {

/// The most items that one category's scan reports.
pub const MAX_ITEMS_PER_CATEGORY: usize = 50000;

/// The kinds of junk that the cleaner scans for.
#[derive(Debug, Clone, Copy, PartialEq, Eq, Hash, Structural)]
pub enum JunkCategory {
    UserTemp,
    SystemTemp,
    RecycleBin,
    ThumbnailCache,
    Prefetch,
    EdgeCache,
    ChromeCache,
    WindowsUpdate,
    WindowsLogs,
    AppCaches,
    AppConfigs,
    RegistryOrphans,
}

/// The number of categories.
pub const CATEGORY_COUNT: usize = 12;

/// The position of a category in `JunkCategory::all()`.
pub open spec fn category_index(c: JunkCategory) -> nat {
    match c {
        JunkCategory::UserTemp => 0,
        JunkCategory::SystemTemp => 1,
        JunkCategory::RecycleBin => 2,
        JunkCategory::ThumbnailCache => 3,
        JunkCategory::Prefetch => 4,
        JunkCategory::EdgeCache => 5,
        JunkCategory::ChromeCache => 6,
        JunkCategory::WindowsUpdate => 7,
        JunkCategory::WindowsLogs => 8,
        JunkCategory::AppCaches => 9,
        JunkCategory::AppConfigs => 10,
        JunkCategory::RegistryOrphans => 11,
    }
}

/// The category at a position of `JunkCategory::all()`.
pub open spec fn category_at(i: nat) -> JunkCategory {
    if i == 0 {
        JunkCategory::UserTemp
    } else if i == 1 {
        JunkCategory::SystemTemp
    } else if i == 2 {
        JunkCategory::RecycleBin
    } else if i == 3 {
        JunkCategory::ThumbnailCache
    } else if i == 4 {
        JunkCategory::Prefetch
    } else if i == 5 {
        JunkCategory::EdgeCache
    } else if i == 6 {
        JunkCategory::ChromeCache
    } else if i == 7 {
        JunkCategory::WindowsUpdate
    } else if i == 8 {
        JunkCategory::WindowsLogs
    } else if i == 9 {
        JunkCategory::AppCaches
    } else if i == 10 {
        JunkCategory::AppConfigs
    } else {
        JunkCategory::RegistryOrphans
    }
}

/// The display name of a category.
pub open spec fn category_label(c: JunkCategory) -> Seq<char> {
    match c {
        JunkCategory::UserTemp => "用户临时文件"@,
        JunkCategory::SystemTemp => "系统临时文件"@,
        JunkCategory::RecycleBin => "回收站"@,
        JunkCategory::ThumbnailCache => "缩略图缓存"@,
        JunkCategory::Prefetch => "Prefetch"@,
        JunkCategory::EdgeCache => "Edge 缓存"@,
        JunkCategory::ChromeCache => "Chrome 缓存"@,
        JunkCategory::WindowsUpdate => "Windows 更新缓存"@,
        JunkCategory::WindowsLogs => "系统日志"@,
        JunkCategory::AppCaches => "软件缓存"@,
        JunkCategory::AppConfigs => "软件日志/崩溃"@,
        JunkCategory::RegistryOrphans => "失效注册表"@,
    }
}

/// The categories whose scan and clean need administrator rights.
pub open spec fn category_requires_admin(c: JunkCategory) -> bool {
    match c {
        JunkCategory::SystemTemp | JunkCategory::Prefetch | JunkCategory::WindowsUpdate
        | JunkCategory::WindowsLogs | JunkCategory::RegistryOrphans => true,
        _ => false,
    }
}

/// The caution shown for a category, if any.
pub open spec fn category_warning(c: JunkCategory) -> Option<Seq<char>> {
    match c {
        JunkCategory::WindowsUpdate => Some(
            "清理 Windows 更新缓存可能影响待安装更新，请确认无挂起更新后再清理。"@,
        ),
        JunkCategory::EdgeCache | JunkCategory::ChromeCache => Some(
            "建议关闭浏览器后再清理。清理 Cookie/本地存储将退出网站登录。"@,
        ),
        JunkCategory::AppCaches => Some("建议关闭对应应用后再清理缓存。"@),
        JunkCategory::AppConfigs => Some("仅包含日志与崩溃转储等产物，不包含软件设置文件。"@),
        JunkCategory::RegistryOrphans => Some(
            "误删可能导致卸载项或启动快捷方式异常；清理前将自动备份为 .reg 文件。"@,
        ),
        _ => None,
    }
}

/// Whether the category holds a browser's data.
pub open spec fn category_is_browser(c: JunkCategory) -> bool {
    c == JunkCategory::EdgeCache || c == JunkCategory::ChromeCache
}

impl JunkCategory {
    /// Every category, in display order.
    pub fn all() -> (r: &'static [JunkCategory])
        ensures
            r@.len() == CATEGORY_COUNT,
            forall|i: int| 0 <= i < CATEGORY_COUNT ==> r@[i] == category_at(i as nat),
    {
        &[
            JunkCategory::UserTemp,
            JunkCategory::SystemTemp,
            JunkCategory::RecycleBin,
            JunkCategory::ThumbnailCache,
            JunkCategory::Prefetch,
            JunkCategory::EdgeCache,
            JunkCategory::ChromeCache,
            JunkCategory::WindowsUpdate,
            JunkCategory::WindowsLogs,
            JunkCategory::AppCaches,
            JunkCategory::AppConfigs,
            JunkCategory::RegistryOrphans,
        ]
    }

    /// The position of this category in `all()`.
    pub fn index(self) -> (r: usize)
        ensures
            r == category_index(self),
            r < CATEGORY_COUNT,
    {
        match self {
            JunkCategory::UserTemp => 0,
            JunkCategory::SystemTemp => 1,
            JunkCategory::RecycleBin => 2,
            JunkCategory::ThumbnailCache => 3,
            JunkCategory::Prefetch => 4,
            JunkCategory::EdgeCache => 5,
            JunkCategory::ChromeCache => 6,
            JunkCategory::WindowsUpdate => 7,
            JunkCategory::WindowsLogs => 8,
            JunkCategory::AppCaches => 9,
            JunkCategory::AppConfigs => 10,
            JunkCategory::RegistryOrphans => 11,
        }
    }

    pub fn label(self) -> (r: &'static str)
        ensures
            r@ == category_label(self),
    {
        match self {
            JunkCategory::UserTemp => "用户临时文件",
            JunkCategory::SystemTemp => "系统临时文件",
            JunkCategory::RecycleBin => "回收站",
            JunkCategory::ThumbnailCache => "缩略图缓存",
            JunkCategory::Prefetch => "Prefetch",
            JunkCategory::EdgeCache => "Edge 缓存",
            JunkCategory::ChromeCache => "Chrome 缓存",
            JunkCategory::WindowsUpdate => "Windows 更新缓存",
            JunkCategory::WindowsLogs => "系统日志",
            JunkCategory::AppCaches => "软件缓存",
            JunkCategory::AppConfigs => "软件日志/崩溃",
            JunkCategory::RegistryOrphans => "失效注册表",
        }
    }

    pub fn requires_admin(self) -> (r: bool)
        ensures
            r == category_requires_admin(self),
    {
        match self {
            JunkCategory::SystemTemp | JunkCategory::Prefetch | JunkCategory::WindowsUpdate
            | JunkCategory::WindowsLogs | JunkCategory::RegistryOrphans => true,
            _ => false,
        }
    }

    pub fn warning(self) -> (r: Option<&'static str>)
        ensures
            match r {
                Some(w) => category_warning(self) == Some(w@),
                None => category_warning(self) is None,
            },
    {
        match self {
            JunkCategory::WindowsUpdate => Some(
                "清理 Windows 更新缓存可能影响待安装更新，请确认无挂起更新后再清理。",
            ),
            JunkCategory::EdgeCache | JunkCategory::ChromeCache => Some(
                "建议关闭浏览器后再清理。清理 Cookie/本地存储将退出网站登录。",
            ),
            JunkCategory::AppCaches => Some("建议关闭对应应用后再清理缓存。"),
            JunkCategory::AppConfigs => Some("仅包含日志与崩溃转储等产物，不包含软件设置文件。"),
            JunkCategory::RegistryOrphans => Some(
                "误删可能导致卸载项或启动快捷方式异常；清理前将自动备份为 .reg 文件。",
            ),
            _ => None,
        }
    }

    pub fn is_browser(self) -> (r: bool)
        ensures
            r == category_is_browser(self),
    {
        match self {
            JunkCategory::EdgeCache | JunkCategory::ChromeCache => true,
            _ => false,
        }
    }
}

/// The kinds of browser data inside the Edge and Chrome categories.
#[derive(Debug, Clone, Copy, PartialEq, Eq, Hash, Structural)]
pub enum BrowserSubKind {
    HttpCache,
    GpuCache,
    CodeCache,
    MediaCache,
    Cookies,
    LocalStorage,
}

/// The number of browser sub-kinds.
pub const BROWSER_SUB_COUNT: usize = 6;

/// The browser sub-kind at a position of `BrowserSubKind::all()`.
pub open spec fn browser_sub_at(i: nat) -> BrowserSubKind {
    if i == 0 {
        BrowserSubKind::HttpCache
    } else if i == 1 {
        BrowserSubKind::GpuCache
    } else if i == 2 {
        BrowserSubKind::CodeCache
    } else if i == 3 {
        BrowserSubKind::MediaCache
    } else if i == 4 {
        BrowserSubKind::Cookies
    } else {
        BrowserSubKind::LocalStorage
    }
}

pub open spec fn browser_sub_label(s: BrowserSubKind) -> Seq<char> {
    match s {
        BrowserSubKind::HttpCache => "HTTP 缓存"@,
        BrowserSubKind::GpuCache => "GPU 缓存"@,
        BrowserSubKind::CodeCache => "代码缓存"@,
        BrowserSubKind::MediaCache => "媒体缓存"@,
        BrowserSubKind::Cookies => "Cookie"@,
        BrowserSubKind::LocalStorage => "本地存储"@,
    }
}

pub open spec fn browser_sub_short_label(s: BrowserSubKind) -> Seq<char> {
    match s {
        BrowserSubKind::HttpCache => "HTTP"@,
        BrowserSubKind::GpuCache => "GPU"@,
        BrowserSubKind::CodeCache => "Code"@,
        BrowserSubKind::MediaCache => "Media"@,
        BrowserSubKind::Cookies => "Cookie"@,
        BrowserSubKind::LocalStorage => "Storage"@,
    }
}

impl BrowserSubKind {
    /// Every browser sub-kind, in display order.
    pub fn all() -> (r: &'static [BrowserSubKind])
        ensures
            r@.len() == BROWSER_SUB_COUNT,
            forall|i: int| 0 <= i < BROWSER_SUB_COUNT ==> r@[i] == browser_sub_at(i as nat),
    {
        &[
            BrowserSubKind::HttpCache,
            BrowserSubKind::GpuCache,
            BrowserSubKind::CodeCache,
            BrowserSubKind::MediaCache,
            BrowserSubKind::Cookies,
            BrowserSubKind::LocalStorage,
        ]
    }

    pub fn label(self) -> (r: &'static str)
        ensures
            r@ == browser_sub_label(self),
    {
        match self {
            BrowserSubKind::HttpCache => "HTTP 缓存",
            BrowserSubKind::GpuCache => "GPU 缓存",
            BrowserSubKind::CodeCache => "代码缓存",
            BrowserSubKind::MediaCache => "媒体缓存",
            BrowserSubKind::Cookies => "Cookie",
            BrowserSubKind::LocalStorage => "本地存储",
        }
    }

    pub fn short_label(self) -> (r: &'static str)
        ensures
            r@ == browser_sub_short_label(self),
    {
        match self {
            BrowserSubKind::HttpCache => "HTTP",
            BrowserSubKind::GpuCache => "GPU",
            BrowserSubKind::CodeCache => "Code",
            BrowserSubKind::MediaCache => "Media",
            BrowserSubKind::Cookies => "Cookie",
            BrowserSubKind::LocalStorage => "Storage",
        }
    }
}

/// What an item stands for: a file or directory, or a registry key or value.
#[derive(Debug)]
pub enum JunkTarget {
    File(String),
    RegistryKey { key: String, value_name: Option<String> },
}

/// A copy of an optional string.
pub fn clone_opt_string(o: &Option<String>) -> (r: Option<String>)
    ensures
        r == *o,
{
    match o {
        Some(s) => Some(s.clone()),
        None => None,
    }
}

impl Clone for JunkTarget {
    fn clone(&self) -> (r: Self)
        ensures
            r == *self,
    {
        match self {
            JunkTarget::File(p) => JunkTarget::File(p.clone()),
            JunkTarget::RegistryKey { key, value_name } => JunkTarget::RegistryKey {
                key: key.clone(),
                value_name: clone_opt_string(value_name),
            },
        }
    }
}

/// Whether an item can be cleaned by the current user.
#[derive(Debug, Clone, Copy, PartialEq, Eq, Structural)]
pub enum ItemStatus {
    Normal,
    NeedsAdmin,
    Skipped,
}

pub open spec fn item_status_label(s: ItemStatus) -> Seq<char> {
    match s {
        ItemStatus::Normal => "正常"@,
        ItemStatus::NeedsAdmin => "需管理员"@,
        ItemStatus::Skipped => "跳过"@,
    }
}

impl ItemStatus {
    pub fn label(self) -> (r: &'static str)
        ensures
            r@ == item_status_label(self),
    {
        match self {
            ItemStatus::Normal => "正常",
            ItemStatus::NeedsAdmin => "需管理员",
            ItemStatus::Skipped => "跳过",
        }
    }
}

/// One scanned item.
#[derive(Debug)]
pub struct JunkItem {
    pub category: JunkCategory,
    /// Display path (file path or registry key path).
    pub path: String,
    pub size: u64,
    pub status: ItemStatus,
    pub selected: bool,
    pub skip_reason: Option<String>,
    /// Recycle bin aggregate item (empty path, use category-level clean).
    pub is_recycle_bin: bool,
    pub browser_sub: Option<BrowserSubKind>,
    pub app_name: Option<String>,
    pub target: JunkTarget,
}

impl Clone for JunkItem {
    fn clone(&self) -> (r: Self)
        ensures
            r == *self,
    {
        JunkItem {
            category: self.category,
            path: self.path.clone(),
            size: self.size,
            status: self.status,
            selected: self.selected,
            skip_reason: clone_opt_string(&self.skip_reason),
            is_recycle_bin: self.is_recycle_bin,
            browser_sub: self.browser_sub,
            app_name: clone_opt_string(&self.app_name),
            target: self.target.clone(),
        }
    }
}

/// The item that `JunkItem::file` builds.
pub open spec fn file_item(
    category: JunkCategory,
    path: String,
    size: u64,
    status: ItemStatus,
) -> JunkItem {
    JunkItem {
        category,
        path,
        size,
        status,
        selected: false,
        skip_reason: None,
        is_recycle_bin: false,
        browser_sub: None,
        app_name: None,
        target: JunkTarget::File(path),
    }
}

/// Whether an item may be cleaned, given whether the process runs as administrator.
pub open spec fn cleanable(item: JunkItem, is_admin: bool) -> bool {
    match item.status {
        ItemStatus::Skipped => false,
        ItemStatus::NeedsAdmin => is_admin,
        ItemStatus::Normal => true,
    }
}

/// Whether an item stands for a registry key or value.
pub open spec fn registry_item(item: JunkItem) -> bool {
    item.target is RegistryKey
}

impl JunkItem {
    /// An unselected file item whose display path and target are both `path`.
    pub fn file(category: JunkCategory, path: String, size: u64, status: ItemStatus) -> (r: Self)
        ensures
            r == file_item(category, path, size, status),
    {
        JunkItem {
            category,
            path: path.clone(),
            size,
            status,
            selected: false,
            skip_reason: None,
            is_recycle_bin: false,
            browser_sub: None,
            app_name: None,
            target: JunkTarget::File(path),
        }
    }

    pub fn can_clean(&self, is_admin: bool) -> (r: bool)
        ensures
            r == cleanable(*self, is_admin),
    {
        match self.status {
            ItemStatus::Skipped => false,
            ItemStatus::NeedsAdmin => is_admin,
            ItemStatus::Normal => true,
        }
    }

    pub fn is_registry(&self) -> (r: bool)
        ensures
            r == registry_item(*self),
    {
        match self.target {
            JunkTarget::RegistryKey { .. } => true,
            JunkTarget::File(_) => false,
        }
    }
}

/// A progress report sent while a category is scanned.
#[derive(Debug, Clone)]
pub struct ScanProgress {
    pub category: JunkCategory,
    pub files_found: usize,
    pub message: String,
}

/// The phases of the application.
#[derive(Debug, Clone, Copy, PartialEq, Eq, Structural)]
pub enum AppPhase {
    Idle,
    Scanning,
    Results,
    Confirming,
    Cleaning,
}

/// The number and total size of one category's items.
#[derive(Debug, Clone, Copy, PartialEq, Eq, Structural)]
pub struct CategorySummary {
    pub count: usize,
    pub total_size: u64,
    pub truncated: bool,
}

impl Default for CategorySummary {
    fn default() -> (r: Self)
        ensures
            r == (CategorySummary { count: 0, total_size: 0, truncated: false }),
    {
        CategorySummary { count: 0, total_size: 0, truncated: false }
    }
}

/// The outcome of a clean.
#[derive(Debug)]
pub struct CleanResult {
    pub success_count: usize,
    pub fail_count: usize,
    pub freed_bytes: u64,
    pub errors: Vec<CleanError>,
}

impl Default for CleanResult {
    fn default() -> (r: Self)
        ensures
            r.success_count == 0,
            r.fail_count == 0,
            r.freed_bytes == 0,
            r.errors@.len() == 0,
    {
        CleanResult { success_count: 0, fail_count: 0, freed_bytes: 0, errors: Vec::new() }
    }
}

/// One failure of a clean.
#[derive(Debug)]
pub struct CleanError {
    pub path: String,
    pub reason: String,
}

impl Clone for CleanError {
    fn clone(&self) -> (r: Self)
        ensures
            r == *self,
    {
        CleanError { path: self.path.clone(), reason: self.reason.clone() }
    }
}

} // verus!
