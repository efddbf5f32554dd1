use vstd::prelude::*;

use crate::models::{
    browser_sub_label, browser_sub_short_label, category_label, category_warning,
    item_status_label, registry_item, BrowserSubKind, CategorySummary, CleanError,
    ItemStatus, JunkCategory, JunkItem,
};
use crate::text::{chars_of, decimal, decimal_chars, extend_chars, extend_str, string_of};
use crate::util::{format_size, size_text};

verus! {

// ---------------------------------------------------------------------------
// The texts that the window shows. Each is a function of the values it is
// about, so that what the user reads is fixed here and not in the drawing code.
// ---------------------------------------------------------------------------

/// The dash shown in place of a value that does not apply.
pub open spec fn dash() -> Seq<char> {
    "—"@
}

/// The file count of a category in the overview: its number of items, or `0`.
pub open spec fn count_cell(s: CategorySummary) -> Seq<char> {
    if s.count > 0 {
        decimal(s.count as nat)
    } else {
        "0"@
    }
}

/// The size of a category in the overview: its total size, or `0 B`.
pub open spec fn size_cell(s: CategorySummary) -> Seq<char> {
    if s.count > 0 {
        size_text(s.total_size)
    } else {
        "0 B"@
    }
}

/// The file count shown for a category in the overview.
pub fn overview_count_text(summary: CategorySummary) -> (r: String)
    ensures
        r@ == count_cell(summary),
{
    if summary.count > 0 {
        string_of(&decimal_chars(summary.count as u64))
    } else {
        String::from_str("0")
    }
}

/// The size shown for a category in the overview.
pub fn overview_size_text(summary: CategorySummary) -> (r: String)
    ensures
        r@ == size_cell(summary),
{
    if summary.count > 0 {
        format_size(summary.total_size)
    } else {
        String::from_str("0 B")
    }
}

/// A category's entry in the side panel: `label (count / size)` when it has items,
/// its label alone otherwise.
pub open spec fn nav_text(c: JunkCategory, s: CategorySummary) -> Seq<char> {
    if s.count > 0 {
        category_label(c) + " ("@ + decimal(s.count as nat) + " / "@ + size_text(s.total_size)
            + ")"@
    } else {
        category_label(c)
    }
}

/// The entry of a category in the side panel.
pub fn category_nav_label(category: JunkCategory, summary: CategorySummary) -> (r: String)
    ensures
        r@ == nav_text(category, summary),
{
    let mut m = chars_of(category.label());
    if summary.count > 0 {
        extend_str(&mut m, " (");
        extend_chars(&mut m, &decimal_chars(summary.count as u64));
        extend_str(&mut m, " / ");
        let size = format_size(summary.total_size);
        extend_str(&mut m, size.as_str());
        extend_str(&mut m, ")");
    }
    string_of(&m)
}

/// The note under the chosen category: `  已选 count / size`, when something of it is
/// selected.
pub open spec fn selection_note_text(count: nat, size: u64) -> Seq<char> {
    "  已选 "@ + decimal(count) + " / "@ + size_text(size)
}

/// The note under the chosen category about what of it is selected; none when nothing is.
pub fn selection_note(count: usize, size: u64) -> (r: Option<String>)
    ensures
        count == 0 ==> r is None,
        count > 0 ==> (r matches Some(t) && t@ == selection_note_text(count as nat, size)),
{
    if count == 0 {
        return None;
    }
    let mut m = chars_of("  已选 ");
    extend_chars(&mut m, &decimal_chars(count as u64));
    extend_str(&mut m, " / ");
    let s = format_size(size);
    extend_str(&mut m, s.as_str());
    Some(string_of(&m))
}

/// The warning under the chosen category, indented by two spaces; none for a category
/// without a warning.
pub fn warning_note(category: JunkCategory) -> (r: Option<String>)
    ensures
        match category_warning(category) {
            Some(w) => r matches Some(t) && t@ == "  "@ + w,
            None => r is None,
        },
{
    match category.warning() {
        Some(w) => {
            let mut m = chars_of("  ");
            extend_str(&mut m, w);
            Some(string_of(&m))
        },
        None => None,
    }
}

/// The check box of a browser sub-kind: `label (count)`.
pub open spec fn sub_text(sub: BrowserSubKind, count: nat) -> Seq<char> {
    browser_sub_label(sub) + " ("@ + decimal(count) + ")"@
}

/// The label of a browser sub-kind's check box.
pub fn browser_sub_check_label(sub: BrowserSubKind, count: usize) -> (r: String)
    ensures
        r@ == sub_text(sub, count as nat),
{
    let mut m = chars_of(sub.label());
    extend_str(&mut m, " (");
    extend_chars(&mut m, &decimal_chars(count as u64));
    extend_str(&mut m, ")");
    string_of(&m)
}

// ---------------------------------------------------------------------------
// A row of the file list
// ---------------------------------------------------------------------------

/// The tag of an optional value: `[value] `, or nothing.
pub open spec fn tag(v: Option<Seq<char>>) -> Seq<char> {
    match v {
        Some(t) => "["@ + t + "] "@,
        None => Seq::empty(),
    }
}

/// What a row shows: the browser sub-kind's short tag, the application's tag, then the path.
pub open spec fn row_text(item: JunkItem) -> Seq<char> {
    let sub = match item.browser_sub {
        Some(s) => Some(browser_sub_short_label(s)),
        None => None,
    };
    let app = match item.app_name {
        Some(a) => Some(a@),
        None => None,
    };
    tag(sub) + tag(app) + item.path@
}

/// The text of a row.
pub fn row_display(item: &JunkItem) -> (r: String)
    ensures
        r@ == row_text(*item),
{
    let mut m: Vec<char> = Vec::new();
    match item.browser_sub {
        Some(s) => {
            extend_str(&mut m, "[");
            extend_str(&mut m, s.short_label());
            extend_str(&mut m, "] ");
        },
        None => {},
    }
    match &item.app_name {
        Some(a) => {
            extend_str(&mut m, "[");
            extend_str(&mut m, a.as_str());
            extend_str(&mut m, "] ");
        },
        None => {},
    }
    extend_str(&mut m, item.path.as_str());
    assert(m@ =~= row_text(*item));
    string_of(&m)
}

/// The text shown when the pointer rests on a row: why the item is skipped, or its path.
pub fn row_hover(item: &JunkItem) -> (r: String)
    ensures
        r@ == match item.skip_reason {
            Some(s) => s@,
            None => item.path@,
        },
{
    match &item.skip_reason {
        Some(s) => s.clone(),
        None => item.path.clone(),
    }
}

/// A row's status: the label of a normal item; for another item, why it is skipped, or
/// the label of its status when no reason is given.
pub open spec fn status_text(item: JunkItem) -> Seq<char> {
    match item.status {
        ItemStatus::Normal => item_status_label(ItemStatus::Normal),
        _ => match item.skip_reason {
            Some(s) => s@,
            None => item_status_label(item.status),
        },
    }
}

/// The status column of a row.
pub fn row_status(item: &JunkItem) -> (r: String)
    ensures
        r@ == status_text(*item),
{
    match item.status {
        ItemStatus::Normal => String::from_str(item.status.label()),
        _ => match &item.skip_reason {
            Some(s) => s.clone(),
            None => String::from_str(item.status.label()),
        },
    }
}

/// The size column of a row: a dash for a registry item, its size otherwise.
pub fn row_size(item: &JunkItem) -> (r: String)
    ensures
        r@ == if registry_item(*item) {
            dash()
        } else {
            size_text(item.size)
        },
{
    if item.is_registry() {
        String::from_str("—")
    } else {
        format_size(item.size)
    }
}

// ---------------------------------------------------------------------------
// Bars and dialogs
// ---------------------------------------------------------------------------

/// `已选 count 项，合计 size`, the bottom bar's summary of the selection.
pub open spec fn selection_text(count: nat, size: u64) -> Seq<char> {
    "已选 "@ + decimal(count) + " 项，合计 "@ + size_text(size)
}

/// The bottom bar's summary of the selection.
pub fn selection_summary(count: usize, size: u64) -> (r: String)
    ensures
        r@ == selection_text(count as nat, size),
{
    let mut m = chars_of("已选 ");
    extend_chars(&mut m, &decimal_chars(count as u64));
    extend_str(&mut m, " 项，合计 ");
    let s = format_size(size);
    extend_str(&mut m, s.as_str());
    string_of(&m)
}

/// The heading of the confirmation dialog: `将删除 count 个项目`.
pub fn confirm_heading(count: usize) -> (r: String)
    ensures
        r@ == "将删除 "@ + decimal(count as nat) + " 个项目"@,
{
    let mut m = chars_of("将删除 ");
    extend_chars(&mut m, &decimal_chars(count as u64));
    extend_str(&mut m, " 个项目");
    string_of(&m)
}

/// The line of the confirmation dialog with the space to be freed: `释放空间约: size`.
pub fn confirm_size(size: u64) -> (r: String)
    ensures
        r@ == "释放空间约: "@ + size_text(size),
{
    let mut m = chars_of("释放空间约: ");
    let s = format_size(size);
    extend_str(&mut m, s.as_str());
    string_of(&m)
}

/// The result dialog's count of deleted items: `成功删除: n 项`.
pub fn success_line(n: usize) -> (r: String)
    ensures
        r@ == "成功删除: "@ + decimal(n as nat) + " 项"@,
{
    let mut m = chars_of("成功删除: ");
    extend_chars(&mut m, &decimal_chars(n as u64));
    extend_str(&mut m, " 项");
    string_of(&m)
}

/// The result dialog's count of failures: `失败: n 项`.
pub fn fail_line(n: usize) -> (r: String)
    ensures
        r@ == "失败: "@ + decimal(n as nat) + " 项"@,
{
    let mut m = chars_of("失败: ");
    extend_chars(&mut m, &decimal_chars(n as u64));
    extend_str(&mut m, " 项");
    string_of(&m)
}

/// The result dialog's freed space: `释放空间: size`.
pub fn freed_line(bytes: u64) -> (r: String)
    ensures
        r@ == "释放空间: "@ + size_text(bytes),
{
    let mut m = chars_of("释放空间: ");
    let s = format_size(bytes);
    extend_str(&mut m, s.as_str());
    string_of(&m)
}

/// One failure in the result dialog: `path: reason`.
pub fn error_line(err: &CleanError) -> (r: String)
    ensures
        r@ == err.path@ + ": "@ + err.reason@,
{
    let mut m = chars_of(err.path.as_str());
    extend_str(&mut m, ": ");
    extend_str(&mut m, err.reason.as_str());
    string_of(&m)
}

/// The count above the file list: `共 n 项（虚拟滚动，仅渲染可见行）`.
pub fn list_total(n: usize) -> (r: String)
    ensures
        r@ == "共 "@ + decimal(n as nat) + " 项（虚拟滚动，仅渲染可见行）"@,
{
    let mut m = chars_of("共 ");
    extend_chars(&mut m, &decimal_chars(n as u64));
    extend_str(&mut m, " 项（虚拟滚动，仅渲染可见行）");
    string_of(&m)
}

/// The name of the category whose files are listed: `当前: label`.
pub fn current_category(category: JunkCategory) -> (r: String)
    ensures
        r@ == "当前: "@ + category_label(category),
{
    let mut m = chars_of("当前: ");
    extend_str(&mut m, category.label());
    string_of(&m)
}

/// The mode shown in the top bar.
pub fn admin_mode_label(is_admin: bool) -> (r: &'static str)
    ensures
        r@ == if is_admin {
            "管理员模式"@
        } else {
            "普通用户模式"@
        },
{
    if is_admin {
        "管理员模式"
    } else {
        "普通用户模式"
    }
}

} // verus!
