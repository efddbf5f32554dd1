use bgxiong_clear_helper::models::{ItemStatus, JunkCategory, JunkItem};
use bgxiong_clear_helper::order::{
    compare_chars, compare_components, compare_items, components_of, extension, file_name, join_path,
    ordered_unique, path_key_of, sort_items,
};

fn chars(s: &str) -> Vec<char> {
    s.chars().collect()
}

fn comps(s: &str) -> Vec<String> {
    components_of(&chars(s)).iter().map(|c| c.iter().collect()).collect()
}

#[test]
fn path_components_drop_empty_and_dot() {
    assert_eq!(comps("C:\\Users\\me\\"), vec!["C:", "Users", "me"]);
    assert_eq!(comps("a/./b//c"), vec!["a", "b", "c"]);
    assert_eq!(comps("..\\x"), vec!["..", "x"]);
    assert!(comps("").is_empty());
}

#[test]
fn text_comparison_by_code_point() {
    assert_eq!(compare_chars(&chars("a"), &chars("b")), -1);
    assert_eq!(compare_chars(&chars("b"), &chars("a")), 1);
    assert_eq!(compare_chars(&chars("ab"), &chars("ab")), 0);
    assert_eq!(compare_chars(&chars("a"), &chars("ab")), -1);
    assert_eq!(compare_chars(&chars("Z"), &chars("a")), -1);
}

#[test]
fn component_comparison() {
    let a = components_of(&chars("C:\\a\\b"));
    let b = components_of(&chars("C:\\a b"));
    assert_eq!(compare_components(&a, &b), -1);
    assert_eq!(compare_components(&b, &a), 1);
    assert_eq!(compare_components(&a, &components_of(&chars("C:/a/b/"))), 0);
}

#[test]
fn item_comparison_and_sort() {
    let mk = |c, p: &str| JunkItem::file(c, p.to_string(), 0, ItemStatus::Normal);
    let a = mk(JunkCategory::WindowsLogs, "C:\\x");
    let b = mk(JunkCategory::Prefetch, "C:\\y");
    assert_eq!(compare_items(&b, &a), -1);
    assert_eq!(compare_items(&a, &b), 1);
    let sorted = sort_items(vec![a.clone(), b.clone(), mk(JunkCategory::Prefetch, "C:\\a")]);
    let paths: Vec<&str> = sorted.iter().map(|i| i.path.as_str()).collect();
    assert_eq!(paths, vec!["C:\\a", "C:\\y", "C:\\x"]);
}

#[test]
fn sort_agrees_with_path_ordering_on_many_items() {
    let labels = [JunkCategory::UserTemp, JunkCategory::Prefetch, JunkCategory::AppCaches];
    let mut items = Vec::new();
    let mut x: u32 = 12345;
    for k in 0..300u32 {
        x = x.wrapping_mul(1103515245).wrapping_add(12345);
        let c = labels[(x % 3) as usize];
        let segs = ["a", "a b", "ab", "b", "a-", "a.b", "."];
        let p = format!(
            "C:/{}/{}//{}",
            segs[((x >> 8) % 7) as usize],
            segs[((x >> 12) % 7) as usize],
            segs[((x >> 16) % 7) as usize]
        );
        let mut it = JunkItem::file(c, p, k as u64, ItemStatus::Normal);
        it.size = k as u64;
        items.push(it);
    }
    let mut expected = items.clone();
    expected.sort_by(|a, b| {
        a.category
            .label()
            .cmp(b.category.label())
            .then_with(|| std::path::Path::new(&a.path).cmp(std::path::Path::new(&b.path)))
    });
    let got = sort_items(items);
    let g: Vec<(String, u64)> = got.iter().map(|i| (i.path.clone(), i.size)).collect();
    let e: Vec<(String, u64)> = expected.iter().map(|i| (i.path.clone(), i.size)).collect();
    assert_eq!(g, e);
}

#[test]
fn file_names_and_extensions() {
    assert_eq!(file_name("C:\\a\\b.txt").iter().collect::<String>(), "b.txt");
    assert_eq!(file_name("C:\\a\\dir\\").iter().collect::<String>(), "dir");
    assert_eq!(file_name("C:\\a\\..").iter().collect::<String>(), "");
    assert_eq!(extension("C:\\a\\b.tar.gz").iter().collect::<String>(), "gz");
    assert_eq!(extension("C:\\a\\.bashrc").iter().collect::<String>(), "");
    assert_eq!(extension("C:\\a\\.x.y").iter().collect::<String>(), "y");
    assert_eq!(extension("C:\\a\\noext").iter().collect::<String>(), "");
    assert_eq!(extension("C:\\a\\trail.").iter().collect::<String>(), "");
}

#[test]
fn joining_paths() {
    assert_eq!(join_path("C:\\T", "x"), "C:\\T\\x");
    assert_eq!(join_path("C:\\T\\", "x"), "C:\\T\\x");
    assert_eq!(join_path("C:", "x"), "C:x");
    assert_eq!(join_path("", "x"), "x");
}

#[test]
fn unique_ordered_paths() {
    let v = ordered_unique(&vec![
        "C:\\b".to_string(),
        "C:\\a".to_string(),
        "C:\\b\\".to_string(),
        "C:/a".to_string(),
    ]);
    assert_eq!(v, vec!["C:\\a".to_string(), "C:\\b".to_string()]);
    assert!(ordered_unique(&Vec::new()).is_empty());
}

#[test]
fn drive_letters_compare_without_case() {
    let mk = |p: &str| JunkItem::file(JunkCategory::UserTemp, p.to_string(), 0, ItemStatus::Normal);
    assert_eq!(compare_items(&mk("c:\\x"), &mk("C:\\x")), 0);
    assert_eq!(compare_items(&mk("c:\\b"), &mk("C:\\a")), 1);
    // Only the drive letter is compared without case.
    assert_eq!(compare_items(&mk("C:\\A"), &mk("C:\\a")), -1);
    assert_eq!(path_key_of("d:/Temp/"), vec![chars("D:"), chars("Temp")]);
    assert_eq!(path_key_of("x\\y"), vec![chars("x"), chars("y")]);
    let v = ordered_unique(&vec!["c:\\Temp".to_string(), "C:\\Temp".to_string(), "C:\\A".to_string()]);
    assert_eq!(v, vec!["C:\\A".to_string(), "c:\\Temp".to_string()]);
}
