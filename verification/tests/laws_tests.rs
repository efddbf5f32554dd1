use bgxiong_clear_helper::cleaner::{clean_selected, CleanAction, CleanEvent, DeleteOutcome, RegistryOutcome};
use bgxiong_clear_helper::models::{ItemStatus, JunkCategory, JunkItem, JunkTarget};
use bgxiong_clear_helper::order::compare_items;
use bgxiong_clear_helper::scanner::gather_results;

fn item(c: JunkCategory, path: &str, size: u64) -> JunkItem {
    JunkItem::file(c, path.to_string(), size, ItemStatus::Normal)
}

#[test]
fn gathered_results_hold_every_item_in_order() {
    let lists = vec![
        vec![item(JunkCategory::WindowsLogs, "C:\\l\\b.log", 1), item(JunkCategory::WindowsLogs, "C:\\l\\a.log", 2)],
        vec![],
        vec![item(JunkCategory::Prefetch, "C:\\p\\X.pf", 3), item(JunkCategory::Prefetch, "C:\\p\\X.pf", 4)],
        vec![item(JunkCategory::AppCaches, "C:\\c\\1", 5)],
    ];
    let mut before: Vec<(String, u64)> = lists.iter().flatten().map(|i| (i.path.clone(), i.size)).collect();
    let r = gather_results(lists);
    let mut after: Vec<(String, u64)> = r.iter().map(|i| (i.path.clone(), i.size)).collect();
    for w in r.windows(2) {
        assert!(compare_items(&w[0], &w[1]) <= 0);
    }
    before.sort();
    after.sort();
    assert_eq!(before, after);
}

#[test]
fn every_target_of_a_clean_is_counted_once() {
    let mut items = Vec::new();
    for k in 0..7 {
        let mut f = item(JunkCategory::UserTemp, &format!("C:\\t\\{k}"), k);
        f.selected = k % 2 == 0;
        items.push(f);
    }
    let mut r = item(JunkCategory::RegistryOrphans, "HKCU\\S\\U\\A", 0);
    r.target = JunkTarget::RegistryKey { key: "HKCU\\S\\U\\A".to_string(), value_name: None };
    r.selected = true;
    items.push(r);
    let mut bin = item(JunkCategory::RecycleBin, "回收站", 9);
    bin.is_recycle_bin = true;
    bin.selected = true;
    items.push(bin);

    let mut session = clean_selected(&items, false);
    let mut n = 0;
    loop {
        let event = match session.next_action() {
            CleanAction::BackupRegistry => CleanEvent::BackupDone(Ok("b.reg".to_string())),
            CleanAction::DeleteRegistry(_) => CleanEvent::RegistryDone(RegistryOutcome::OpenFailed(5)),
            CleanAction::DeletePath(_) => {
                n += 1;
                if n % 2 == 0 {
                    CleanEvent::PathDone(DeleteOutcome::Removed)
                } else {
                    CleanEvent::PathDone(DeleteOutcome::FileFailed { error: "e".to_string(), locked: false })
                }
            }
            CleanAction::EmptyRecycleBin => CleanEvent::RecycleDone(Ok(9)),
            CleanAction::Done => break,
        };
        assert!(session.report(event));
    }
    let result = session.into_result();
    // Four selected files, one registry entry and the recycle bin.
    assert_eq!(result.success_count + result.fail_count, 6);
    assert_eq!(result.fail_count, result.errors.len());
}

#[test]
fn a_refused_registry_deletion_counts_as_a_failure() {
    let mut r = item(JunkCategory::RegistryOrphans, "HKLM\\ROOTONLY", 0);
    r.target = JunkTarget::RegistryKey { key: "HKLM\\ROOTONLY".to_string(), value_name: None };
    r.selected = true;
    let items = vec![r];
    let mut session = clean_selected(&items, true);
    assert!(matches!(session.next_action(), CleanAction::BackupRegistry));
    assert!(session.report(CleanEvent::BackupDone(Ok("b.reg".to_string()))));
    assert!(matches!(session.next_action(), CleanAction::Done));
    let result = session.into_result();
    assert_eq!((result.success_count, result.fail_count), (0, 1));
    assert_eq!(result.errors[0].reason, "拒绝删除顶级注册表键");
}
