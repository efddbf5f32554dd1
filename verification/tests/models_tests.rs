use bgxiong_clear_helper::models::{
    BrowserSubKind, CategorySummary, CleanResult, ItemStatus, JunkCategory, JunkItem, JunkTarget,
    CATEGORY_COUNT, MAX_ITEMS_PER_CATEGORY,
};

#[test]
fn all_categories_in_display_order_each_once() {
    let all = JunkCategory::all();
    assert_eq!(all.len(), CATEGORY_COUNT);
    assert_eq!(all[0], JunkCategory::UserTemp);
    assert_eq!(all[11], JunkCategory::RegistryOrphans);
    for (i, c) in all.iter().enumerate() {
        assert_eq!(c.index(), i);
        for (j, d) in all.iter().enumerate() {
            assert_eq!(i == j, c == d);
        }
    }
}

#[test]
fn category_labels() {
    let labels: Vec<&str> = JunkCategory::all().iter().map(|c| c.label()).collect();
    assert_eq!(
        labels,
        vec![
            "用户临时文件",
            "系统临时文件",
            "回收站",
            "缩略图缓存",
            "Prefetch",
            "Edge 缓存",
            "Chrome 缓存",
            "Windows 更新缓存",
            "系统日志",
            "软件缓存",
            "软件日志/崩溃",
            "失效注册表",
        ]
    );
}

#[test]
fn admin_categories() {
    let admin: Vec<JunkCategory> =
        JunkCategory::all().iter().copied().filter(|c| c.requires_admin()).collect();
    assert_eq!(
        admin,
        vec![
            JunkCategory::SystemTemp,
            JunkCategory::Prefetch,
            JunkCategory::WindowsUpdate,
            JunkCategory::WindowsLogs,
            JunkCategory::RegistryOrphans,
        ]
    );
}

#[test]
fn category_warnings() {
    assert_eq!(JunkCategory::UserTemp.warning(), None);
    assert_eq!(JunkCategory::RecycleBin.warning(), None);
    assert_eq!(
        JunkCategory::WindowsUpdate.warning(),
        Some("清理 Windows 更新缓存可能影响待安装更新，请确认无挂起更新后再清理。")
    );
    assert_eq!(
        JunkCategory::EdgeCache.warning(),
        Some("建议关闭浏览器后再清理。清理 Cookie/本地存储将退出网站登录。")
    );
    assert_eq!(JunkCategory::ChromeCache.warning(), JunkCategory::EdgeCache.warning());
    assert_eq!(JunkCategory::AppCaches.warning(), Some("建议关闭对应应用后再清理缓存。"));
    assert_eq!(
        JunkCategory::AppConfigs.warning(),
        Some("仅包含日志与崩溃转储等产物，不包含软件设置文件。")
    );
    assert_eq!(
        JunkCategory::RegistryOrphans.warning(),
        Some("误删可能导致卸载项或启动快捷方式异常；清理前将自动备份为 .reg 文件。")
    );
}

#[test]
fn browser_categories() {
    let browsers: Vec<JunkCategory> =
        JunkCategory::all().iter().copied().filter(|c| c.is_browser()).collect();
    assert_eq!(browsers, vec![JunkCategory::EdgeCache, JunkCategory::ChromeCache]);
}

#[test]
fn browser_sub_kinds_and_labels() {
    let all = BrowserSubKind::all();
    assert_eq!(all.len(), 6);
    let labels: Vec<(&str, &str)> = all.iter().map(|s| (s.label(), s.short_label())).collect();
    assert_eq!(
        labels,
        vec![
            ("HTTP 缓存", "HTTP"),
            ("GPU 缓存", "GPU"),
            ("代码缓存", "Code"),
            ("媒体缓存", "Media"),
            ("Cookie", "Cookie"),
            ("本地存储", "Storage"),
        ]
    );
}

#[test]
fn item_status_labels() {
    assert_eq!(ItemStatus::Normal.label(), "正常");
    assert_eq!(ItemStatus::NeedsAdmin.label(), "需管理员");
    assert_eq!(ItemStatus::Skipped.label(), "跳过");
}

#[test]
fn file_item_is_unselected_file_target() {
    let item = JunkItem::file(JunkCategory::UserTemp, "C:\\t\\a.tmp".to_string(), 12, ItemStatus::Normal);
    assert_eq!(item.category, JunkCategory::UserTemp);
    assert_eq!(item.path, "C:\\t\\a.tmp");
    assert_eq!(item.size, 12);
    assert!(!item.selected);
    assert!(item.skip_reason.is_none());
    assert!(!item.is_recycle_bin);
    assert!(item.browser_sub.is_none());
    assert!(item.app_name.is_none());
    assert!(matches!(&item.target, JunkTarget::File(p) if p == "C:\\t\\a.tmp"));
    assert!(!item.is_registry());
}

#[test]
fn can_clean_by_status_and_rights() {
    let mk = |s| JunkItem::file(JunkCategory::UserTemp, "x".to_string(), 0, s);
    assert!(mk(ItemStatus::Normal).can_clean(false));
    assert!(mk(ItemStatus::Normal).can_clean(true));
    assert!(!mk(ItemStatus::NeedsAdmin).can_clean(false));
    assert!(mk(ItemStatus::NeedsAdmin).can_clean(true));
    assert!(!mk(ItemStatus::Skipped).can_clean(false));
    assert!(!mk(ItemStatus::Skipped).can_clean(true));
}

#[test]
fn registry_target_is_registry() {
    let mut item = JunkItem::file(JunkCategory::RegistryOrphans, "HKCU\\A".to_string(), 0, ItemStatus::Normal);
    item.target = JunkTarget::RegistryKey { key: "HKCU\\A".to_string(), value_name: None };
    assert!(item.is_registry());
    let copy = item.clone();
    assert!(copy.is_registry());
    assert_eq!(copy.path, item.path);
}

#[test]
fn defaults_are_zero() {
    let s = CategorySummary::default();
    assert_eq!((s.count, s.total_size, s.truncated), (0, 0, false));
    let r = CleanResult::default();
    assert_eq!((r.success_count, r.fail_count, r.freed_bytes, r.errors.len()), (0, 0, 0, 0));
    assert_eq!(MAX_ITEMS_PER_CATEGORY, 50000);
}
