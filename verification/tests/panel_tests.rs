use bgxiong_clear_helper::models::{
    BrowserSubKind, CategorySummary, CleanError, ItemStatus, JunkCategory, JunkItem, JunkTarget,
};
use bgxiong_clear_helper::panel::{
    admin_mode_label, browser_sub_check_label, category_nav_label, confirm_heading, confirm_size,
    current_category, error_line, fail_line, freed_line, list_total, overview_count_text,
    overview_size_text, row_display, row_hover, row_size, row_status, selection_note,
    selection_summary, success_line, warning_note,
};

fn summary(count: usize, total_size: u64) -> CategorySummary {
    CategorySummary { count, total_size, truncated: false }
}

#[test]
fn overview_cells() {
    assert_eq!(overview_count_text(summary(0, 0)), "0");
    assert_eq!(overview_size_text(summary(0, 0)), "0 B");
    assert_eq!(overview_count_text(summary(1234, 2048)), "1234");
    assert_eq!(overview_size_text(summary(1234, 2048)), "2.00 KB");
}

#[test]
fn side_panel_labels() {
    assert_eq!(category_nav_label(JunkCategory::RecycleBin, summary(0, 0)), "回收站");
    assert_eq!(category_nav_label(JunkCategory::RecycleBin, summary(3, 1536)), "回收站 (3 / 1.50 KB)");
    assert_eq!(selection_note(0, 0), None);
    assert_eq!(selection_note(2, 100).as_deref(), Some("  已选 2 / 100 B"));
    assert_eq!(warning_note(JunkCategory::UserTemp), None);
    assert_eq!(warning_note(JunkCategory::AppCaches).as_deref(), Some("  建议关闭对应应用后再清理缓存。"));
}

#[test]
fn browser_sub_box_label() {
    assert_eq!(browser_sub_check_label(BrowserSubKind::Cookies, 12), "Cookie (12)");
    assert_eq!(browser_sub_check_label(BrowserSubKind::HttpCache, 1), "HTTP 缓存 (1)");
}

#[test]
fn file_rows() {
    let mut item = JunkItem::file(JunkCategory::EdgeCache, "C:\\e\\Cookies".to_string(), 2048, ItemStatus::Normal);
    item.browser_sub = Some(BrowserSubKind::Cookies);
    assert_eq!(row_display(&item), "[Cookie] C:\\e\\Cookies");
    assert_eq!(row_hover(&item), "C:\\e\\Cookies");
    assert_eq!(row_status(&item), "正常");
    assert_eq!(row_size(&item), "2.00 KB");

    let mut app = JunkItem::file(JunkCategory::AppCaches, "C:\\a\\x".to_string(), 5, ItemStatus::Skipped);
    app.app_name = Some("Discord".to_string());
    assert_eq!(row_display(&app), "[Discord] C:\\a\\x");
    assert_eq!(row_status(&app), "跳过");
    app.skip_reason = Some("文件被占用".to_string());
    assert_eq!(row_status(&app), "文件被占用");
    assert_eq!(row_hover(&app), "文件被占用");

    let mut reg = JunkItem::file(JunkCategory::RegistryOrphans, "HKCU\\A".to_string(), 0, ItemStatus::NeedsAdmin);
    reg.target = JunkTarget::RegistryKey { key: "HKCU\\A".to_string(), value_name: None };
    assert_eq!(row_size(&reg), "—");
    assert_eq!(row_status(&reg), "需管理员");
    let mut normal_with_reason = reg.clone();
    normal_with_reason.status = ItemStatus::Normal;
    normal_with_reason.skip_reason = Some("指向的文件已不存在: C:\\x".to_string());
    assert_eq!(row_status(&normal_with_reason), "正常");
}

#[test]
fn bars_and_dialogs() {
    assert_eq!(selection_summary(0, 0), "已选 0 项，合计 0 B");
    assert_eq!(selection_summary(3, 1048576), "已选 3 项，合计 1.00 MB");
    assert_eq!(confirm_heading(3), "将删除 3 个项目");
    assert_eq!(confirm_size(1073741824), "释放空间约: 1.00 GB");
    assert_eq!(success_line(5), "成功删除: 5 项");
    assert_eq!(fail_line(0), "失败: 0 项");
    assert_eq!(freed_line(10), "释放空间: 10 B");
    let e = CleanError { path: "C:\\t\\b".to_string(), reason: "busy".to_string() };
    assert_eq!(error_line(&e), "C:\\t\\b: busy");
    assert_eq!(list_total(7), "共 7 项（虚拟滚动，仅渲染可见行）");
    assert_eq!(current_category(JunkCategory::WindowsLogs), "当前: 系统日志");
    assert_eq!(admin_mode_label(true), "管理员模式");
    assert_eq!(admin_mode_label(false), "普通用户模式");
}
