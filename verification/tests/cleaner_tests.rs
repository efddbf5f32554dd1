use bgxiong_clear_helper::cleaner::{
    backup_dir, backup_file_name, backup_manifest, clean_selected, export_file_name,
    registry_deletion, registry_outcome_error, split_hive, utf16le_with_bom, CleanAction,
    CleanEvent, DeleteOutcome, RegistryDeletion, RegistryHive, RegistryOutcome,
};
use bgxiong_clear_helper::models::{CleanResult, ItemStatus, JunkCategory, JunkItem, JunkTarget};

fn file(path: &str, size: u64, selected: bool) -> JunkItem {
    let mut i = JunkItem::file(JunkCategory::UserTemp, path.to_string(), size, ItemStatus::Normal);
    i.selected = selected;
    i
}

fn reg(key: &str, value: Option<&str>, selected: bool) -> JunkItem {
    let mut i = JunkItem::file(JunkCategory::RegistryOrphans, key.to_string(), 0, ItemStatus::Normal);
    i.target = JunkTarget::RegistryKey { key: key.to_string(), value_name: value.map(|v| v.to_string()) };
    i.skip_reason = Some("指向的文件已不存在: C:\\gone".to_string());
    i.selected = selected;
    i
}

fn recycle(selected: bool) -> JunkItem {
    let mut i = JunkItem::file(JunkCategory::RecycleBin, "回收站".to_string(), 100, ItemStatus::Normal);
    i.is_recycle_bin = true;
    i.selected = selected;
    i
}

#[test]
fn hives_are_recognised() {
    assert_eq!(split_hive("HKCU\\Software\\A"), Ok((RegistryHive::CurrentUser, "Software\\A".to_string())));
    assert_eq!(split_hive("HKLM\\SOFTWARE"), Ok((RegistryHive::LocalMachine, "SOFTWARE".to_string())));
    assert_eq!(split_hive("HKEY_CURRENT_USER\\X"), Ok((RegistryHive::CurrentUser, "X".to_string())));
    assert_eq!(split_hive("HKEY_LOCAL_MACHINE\\Y"), Ok((RegistryHive::LocalMachine, "Y".to_string())));
    assert_eq!(split_hive("HKCR\\Z"), Err("无法识别的注册表根: HKCR\\Z".to_string()));
}

#[test]
fn deletions_name_the_entry_only() {
    match registry_deletion("HKCU\\Software\\Run", &Some("Tool".to_string())).unwrap() {
        RegistryDeletion::Value { hive, subkey, value } => {
            assert_eq!((hive, subkey.as_str(), value.as_str()), (RegistryHive::CurrentUser, "Software\\Run", "Tool"));
        }
        other => panic!("unexpected {other:?}"),
    }
    match registry_deletion("HKLM\\SOFTWARE\\Uninstall\\App", &None).unwrap() {
        RegistryDeletion::Key { hive, parent, child } => {
            assert_eq!((hive, parent.as_str(), child.as_str()), (RegistryHive::LocalMachine, "SOFTWARE\\Uninstall", "App"));
        }
        other => panic!("unexpected {other:?}"),
    }
    assert_eq!(registry_deletion("HKLM\\SOFTWARE", &None).unwrap_err(), "拒绝删除顶级注册表键");
    assert_eq!(registry_deletion("XX\\A\\B", &None).unwrap_err(), "无法识别的注册表根: XX\\A\\B");
}

#[test]
fn registry_outcome_texts() {
    assert_eq!(registry_outcome_error(RegistryOutcome::Deleted), None);
    assert_eq!(registry_outcome_error(RegistryOutcome::OpenFailed(5)).as_deref(), Some("打开注册表键失败 (错误码 5)"));
    assert_eq!(registry_outcome_error(RegistryOutcome::ValueFailed(2)).as_deref(), Some("删除注册表值失败 (错误码 2)"));
    assert_eq!(
        registry_outcome_error(RegistryOutcome::KeyFailed(5, 1018)).as_deref(),
        Some("删除注册表键失败 (错误码 5 / 1018)")
    );
}

fn run(items: &Vec<JunkItem>, is_admin: bool, mut answer: impl FnMut(&CleanAction) -> CleanEvent) -> (Vec<String>, CleanResult) {
    let mut session = clean_selected(items, is_admin);
    let mut trace = Vec::new();
    loop {
        let action = session.next_action();
        let name = match &action {
            CleanAction::BackupRegistry => "backup".to_string(),
            CleanAction::DeleteRegistry(RegistryDeletion::Value { value, .. }) => format!("value {value}"),
            CleanAction::DeleteRegistry(RegistryDeletion::Key { child, .. }) => format!("key {child}"),
            CleanAction::DeletePath(p) => format!("path {p}"),
            CleanAction::EmptyRecycleBin => "recycle".to_string(),
            CleanAction::Done => break,
        };
        trace.push(name);
        let event = answer(&action);
        assert!(session.report(event));
    }
    (trace, session.into_result())
}

#[test]
fn clean_runs_backup_registry_files_then_recycle_bin() {
    let items = vec![
        file("C:\\t\\a", 10, true),
        reg("HKCU\\S\\Uninstall\\App", None, true),
        recycle(true),
        file("C:\\t\\b", 20, false),
        file("C:\\t\\c", 30, true),
        reg("HKCU\\S\\Run", Some("Tool"), true),
    ];
    let (trace, result) = run(&items, false, |a| match a {
        CleanAction::BackupRegistry => CleanEvent::BackupDone(Ok("C:\\T\\bgxiong-reg-backup\\backup-1.reg".to_string())),
        CleanAction::DeleteRegistry(_) => CleanEvent::RegistryDone(RegistryOutcome::Deleted),
        CleanAction::DeletePath(_) => CleanEvent::PathDone(DeleteOutcome::Removed),
        CleanAction::EmptyRecycleBin => CleanEvent::RecycleDone(Ok(100)),
        CleanAction::Done => unreachable!(),
    });
    assert_eq!(trace, vec!["backup", "key App", "value Tool", "path C:\\t\\a", "path C:\\t\\c", "recycle"]);
    assert_eq!(result.success_count, 5);
    assert_eq!(result.fail_count, 0);
    assert_eq!(result.freed_bytes, 140);
    assert!(result.errors.is_empty());
}

#[test]
fn failed_backup_skips_registry_and_goes_on() {
    let items = vec![reg("HKCU\\S\\U\\A", None, true), reg("HKCU\\S\\U\\B", None, true), file("C:\\t\\a", 10, true)];
    let (trace, result) = run(&items, true, |a| match a {
        CleanAction::BackupRegistry => CleanEvent::BackupDone(Err("写入备份失败: denied".to_string())),
        CleanAction::DeletePath(_) => CleanEvent::PathDone(DeleteOutcome::Removed),
        _ => panic!("no registry deletion after a failed backup"),
    });
    assert_eq!(trace, vec!["backup", "path C:\\t\\a"]);
    assert_eq!(result.success_count, 1);
    assert_eq!(result.fail_count, 2);
    assert_eq!(result.errors.len(), 1);
    assert_eq!(result.errors[0].path, "注册表备份");
    assert_eq!(result.errors[0].reason, "备份失败，已中止注册表清理: 写入备份失败: denied");
}

#[test]
fn failures_are_recorded_and_do_not_stop_the_clean() {
    let items = vec![
        reg("HKLM\\TOP", None, true),
        reg("HKCU\\S\\U\\A", None, true),
        file("C:\\t\\locked", 10, true),
        file("C:\\t\\dir", 10, true),
        file("C:\\t\\ok", 7, true),
        recycle(true),
    ];
    let (_, result) = run(&items, true, |a| match a {
        CleanAction::BackupRegistry => CleanEvent::BackupDone(Ok("b.reg".to_string())),
        CleanAction::DeleteRegistry(_) => CleanEvent::RegistryDone(RegistryOutcome::KeyFailed(5, 5)),
        CleanAction::DeletePath(p) if p.ends_with("locked") => CleanEvent::PathDone(DeleteOutcome::FileFailed {
            error: "busy".to_string(),
            locked: true,
        }),
        CleanAction::DeletePath(p) if p.ends_with("dir") => CleanEvent::PathDone(DeleteOutcome::DirectoryFailed {
            file_error: "is a directory".to_string(),
            dir_error: "denied".to_string(),
        }),
        CleanAction::DeletePath(_) => CleanEvent::PathDone(DeleteOutcome::Removed),
        CleanAction::EmptyRecycleBin => CleanEvent::RecycleDone(Err("清空回收站失败: x".to_string())),
        CleanAction::Done => unreachable!(),
    });
    assert_eq!(result.success_count, 1);
    assert_eq!(result.fail_count, 5);
    assert_eq!(result.freed_bytes, 7);
    let errs: Vec<(String, String)> = result.errors.iter().map(|e| (e.path.clone(), e.reason.clone())).collect();
    assert_eq!(
        errs,
        vec![
            ("HKLM\\TOP".to_string(), "拒绝删除顶级注册表键".to_string()),
            ("HKCU\\S\\U\\A".to_string(), "删除注册表键失败 (错误码 5 / 5)".to_string()),
            ("C:\\t\\locked".to_string(), "busy（文件可能被占用）".to_string()),
            ("C:\\t\\dir".to_string(), "is a directory; 目录删除: denied".to_string()),
            ("回收站".to_string(), "清空回收站失败: x".to_string()),
        ]
    );
}

#[test]
fn only_selected_cleanable_items_are_cleaned() {
    let mut admin_only = file("C:\\Windows\\Temp\\x", 5, true);
    admin_only.status = ItemStatus::NeedsAdmin;
    let mut skipped = file("C:\\busy", 5, true);
    skipped.status = ItemStatus::Skipped;
    let items = vec![admin_only, skipped, file("C:\\t\\no", 5, false), recycle(false)];
    let (trace, result) = run(&items, false, |_| panic!("nothing to do"));
    assert!(trace.is_empty());
    assert_eq!((result.success_count, result.fail_count), (0, 0));
    let session = clean_selected(&items, true);
    assert!(session.registry_items().is_empty());
}

#[test]
fn reports_that_answer_nothing_are_ignored() {
    let items = vec![file("C:\\t\\a", 10, true)];
    let mut session = clean_selected(&items, false);
    assert!(!session.report(CleanEvent::PathDone(DeleteOutcome::Removed)));
    match session.next_action() {
        CleanAction::DeletePath(p) => assert_eq!(p, "C:\\t\\a"),
        _ => panic!(),
    }
    assert!(!session.report(CleanEvent::RecycleDone(Ok(1))));
    // The same action is handed out again while it awaits its report.
    assert!(matches!(session.next_action(), CleanAction::DeletePath(_)));
    assert!(session.report(CleanEvent::PathDone(DeleteOutcome::Removed)));
    assert!(matches!(session.next_action(), CleanAction::Done));
    assert_eq!(session.result().success_count, 1);
}

#[test]
fn backup_manifest_text() {
    let items = vec![reg("HKCU\\S\\U\\A", None, true), reg("HKCU\\S\\Run", Some("Tool"), true)];
    let text = backup_manifest(&items);
    let expected = "Windows Registry Editor Version 5.00\r\n\r\n\
; BGXiong Clear Helper — registry deletion manifest\r\n\
; This file lists keys/values that were removed. Per-key exports\r\n\
; (if successful) are saved alongside as export-N.reg for restore.\r\n\r\n\
; [0] KEY: HKCU\\S\\U\\A\r\n\
;     指向的文件已不存在: C:\\gone\r\n\
\r\n\
; [1] KEY: HKCU\\S\\Run\r\n\
;     VALUE: Tool\r\n\
;     指向的文件已不存在: C:\\gone\r\n\
\r\n";
    assert_eq!(text, expected);
}

#[test]
fn utf16_with_byte_order_mark() {
    assert_eq!(utf16le_with_bom("A"), vec![0xFF, 0xFE, 0x41, 0x00]);
    assert_eq!(utf16le_with_bom("注"), vec![0xFF, 0xFE, 0xE8, 0x6C]);
    let mut expected = vec![0xFF, 0xFE];
    for u in "a😀b".encode_utf16() {
        expected.extend_from_slice(&u.to_le_bytes());
    }
    assert_eq!(utf16le_with_bom("a😀b"), expected);
    assert_eq!(utf16le_with_bom(""), vec![0xFF, 0xFE]);
}

#[test]
fn backup_names_and_directory() {
    assert_eq!(backup_file_name(1700000000), "1700000000.reg");
    assert_eq!(export_file_name(3), "export-3.reg");
    assert_eq!(backup_dir(Some("C:\\Users\\me\\Temp".to_string()), Some("D:\\x".to_string())), "C:\\Users\\me\\Temp\\bgxiong-reg-backup");
    assert_eq!(backup_dir(None, Some("D:\\tmp\\".to_string())), "D:\\tmp\\bgxiong-reg-backup");
    assert_eq!(backup_dir(None, None), "C:\\Windows\\Temp\\bgxiong-reg-backup");
}

#[test]
fn refused_registry_entries_fail_in_turn() {
    let items = vec![reg("HKCU\\S\\U\\A", None, true), reg("HKLM\\TOP", None, true), reg("HKCU\\S\\U\\B", None, true)];
    let (trace, result) = run(&items, true, |a| match a {
        CleanAction::BackupRegistry => CleanEvent::BackupDone(Ok("b.reg".to_string())),
        CleanAction::DeleteRegistry(_) => CleanEvent::RegistryDone(RegistryOutcome::Deleted),
        _ => panic!("only registry work here"),
    });
    assert_eq!(trace, vec!["backup", "key A", "key B"]);
    assert_eq!(result.success_count, 2);
    assert_eq!(result.fail_count, 1);
    assert_eq!(result.errors.len(), 1);
    assert_eq!(result.errors[0].path, "HKLM\\TOP");
    assert_eq!(result.errors[0].reason, "拒绝删除顶级注册表键");
}

#[test]
fn an_awaited_action_is_handed_out_again() {
    let items = vec![file("C:\\t\\a", 10, true)];
    let mut session = clean_selected(&items, false);
    assert!(matches!(session.next_action(), CleanAction::DeletePath(p) if p == "C:\\t\\a"));
    assert!(matches!(session.next_action(), CleanAction::DeletePath(p) if p == "C:\\t\\a"));
    assert!(session.report(CleanEvent::PathDone(DeleteOutcome::Removed)));
    assert!(matches!(session.next_action(), CleanAction::Done));
    assert_eq!(session.result().success_count, 1);
    assert_eq!(session.result().freed_bytes, 10);
}

#[test]
fn items_that_may_not_be_cleaned_leave_nothing_to_do() {
    let mut p = JunkItem::file(
        JunkCategory::Prefetch,
        "C:\\Windows\\Prefetch\\A.pf".to_string(),
        4096,
        ItemStatus::NeedsAdmin,
    );
    p.selected = true;
    let (trace, result) = run(&vec![p], false, |_| panic!("nothing may be cleaned"));
    assert!(trace.is_empty());
    assert_eq!(result.success_count, 0);
    assert_eq!(result.fail_count, 0);
    assert_eq!(result.freed_bytes, 0);
    assert!(result.errors.is_empty());
}
