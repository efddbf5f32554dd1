use bgxiong_clear_helper::util::{
    elevation_outcome, expand_env_path, format_size, is_locked_code, is_locked_error, EnvVars,
};

fn reference_size(bytes: u64) -> String {
    const KB: u64 = 1024;
    const MB: u64 = KB * 1024;
    const GB: u64 = MB * 1024;
    if bytes >= GB {
        format!("{:.2} GB", bytes as f64 / GB as f64)
    } else if bytes >= MB {
        format!("{:.2} MB", bytes as f64 / MB as f64)
    } else if bytes >= KB {
        format!("{:.2} KB", bytes as f64 / KB as f64)
    } else {
        format!("{bytes} B")
    }
}

fn chars(s: &str) -> Vec<char> {
    s.chars().collect()
}

fn text(v: &[char]) -> String {
    v.iter().collect()
}

#[test]
fn format_size_bytes_below_one_kib() {
    assert_eq!(format_size(0), "0 B");
    assert_eq!(format_size(1), "1 B");
    assert_eq!(format_size(1023), "1023 B");
}

#[test]
fn format_size_unit_boundaries() {
    assert_eq!(format_size(1024), "1.00 KB");
    assert_eq!(format_size(1536), "1.50 KB");
    assert_eq!(format_size(1048575), "1024.00 KB");
    assert_eq!(format_size(1048576), "1.00 MB");
    assert_eq!(format_size(1073741823), "1024.00 MB");
    assert_eq!(format_size(1073741824), "1.00 GB");
    assert_eq!(format_size(5 * 1073741824 + 536870912), "5.50 GB");
}

#[test]
fn format_size_rounds_ties_to_even() {
    // 1.125 KB and 1.375 KB are exact binary fractions halfway between two cents.
    assert_eq!(format_size(1152), "1.12 KB");
    assert_eq!(format_size(1408), "1.38 KB");
    assert_eq!(format_size(1152), reference_size(1152));
    assert_eq!(format_size(1408), reference_size(1408));
}

#[test]
fn format_size_largest_values() {
    assert_eq!(format_size(u64::MAX), "17179869184.00 GB");
    assert_eq!(format_size(u64::MAX), reference_size(u64::MAX));
    let beyond_exact: u64 = (1u64 << 53) + 1;
    assert_eq!(format_size(beyond_exact), reference_size(beyond_exact));
}

#[test]
fn format_size_agrees_with_floating_point_formatting() {
    let mut x: u64 = 0x9E37_79B9_7F4A_7C15;
    for k in 0..20000u64 {
        x = x.wrapping_mul(6364136223846793005).wrapping_add(1442695040888963407);
        let shift = (k % 64) as u32;
        let v = x >> shift;
        assert_eq!(format_size(v), reference_size(v), "value {v}");
    }
    for v in 1000..5000u64 {
        assert_eq!(format_size(v), reference_size(v), "value {v}");
    }
}

#[test]
fn locked_codes_are_sharing_lock_and_access() {
    assert!(is_locked_code(Some(32)));
    assert!(is_locked_code(Some(33)));
    assert!(is_locked_code(Some(5)));
    assert!(!is_locked_code(Some(2)));
    assert!(!is_locked_code(None));
}

#[test]
fn locked_error_reads_the_os_code() {
    assert!(is_locked_error(&std::io::Error::from_raw_os_error(32)));
    assert!(is_locked_error(&std::io::Error::from_raw_os_error(5)));
    assert!(!is_locked_error(&std::io::Error::from_raw_os_error(2)));
    assert!(!is_locked_error(&std::io::Error::new(std::io::ErrorKind::Other, "no code")));
}

fn env() -> EnvVars {
    let mut e = EnvVars::new();
    e.push("SystemRoot".to_string(), "C:\\Windows".to_string());
    e.push("LOCALAPPDATA".to_string(), "C:\\Users\\me\\AppData\\Local".to_string());
    e
}

#[test]
fn env_lookup_ignores_ascii_case_and_returns_empty_when_unset() {
    let e = env();
    assert_eq!(text(&e.lookup(&chars("systemroot"))), "C:\\Windows");
    assert_eq!(text(&e.lookup(&chars("LocalAppData"))), "C:\\Users\\me\\AppData\\Local");
    assert_eq!(text(&e.lookup(&chars("MISSING"))), "");
}

#[test]
fn expand_env_path_replaces_variables() {
    let e = env();
    assert_eq!(text(&expand_env_path(&chars("%SystemRoot%\\system32\\x.exe"), &e)), "C:\\Windows\\system32\\x.exe");
    assert_eq!(text(&expand_env_path(&chars("C:\\plain\\path"), &e)), "C:\\plain\\path");
    assert_eq!(text(&expand_env_path(&chars("%MISSING%\\a"), &e)), "\\a");
    assert_eq!(text(&expand_env_path(&chars("%LOCALAPPDATA%\\x%SystemRoot%"), &e)), "C:\\Users\\me\\AppData\\Local\\xC:\\Windows");
}

#[test]
fn expand_env_path_unclosed_percent_takes_rest_as_name() {
    let e = env();
    assert_eq!(text(&expand_env_path(&chars("a%SystemRoot"), &e)), "aC:\\Windows");
    assert_eq!(text(&expand_env_path(&chars("a%%b"), &e)), "ab");
}

#[test]
fn elevation_outcome_fails_at_or_below_32() {
    assert_eq!(elevation_outcome(42), Ok(()));
    assert_eq!(elevation_outcome(33), Ok(()));
    assert_eq!(elevation_outcome(32), Err("无法以管理员身份启动 (code: 32)".to_string()));
    assert_eq!(elevation_outcome(5), Err("无法以管理员身份启动 (code: 5)".to_string()));
    assert_eq!(elevation_outcome(-1), Err("无法以管理员身份启动 (code: -1)".to_string()));
}
