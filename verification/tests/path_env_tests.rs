use claude_code_launch::path_env::{merge_windows_path, registry_path_entries, split_on_char};

#[test]
fn registry_entries_are_split_and_trimmed() {
    let out = "\r\nHKEY_CURRENT_USER\\Environment\r\n    Path    REG_EXPAND_SZ    C:\\A; C:\\B ;;\r\n";
    assert_eq!(registry_path_entries(out), vec!["C:\\A".to_string(), "C:\\B".to_string()]);
    assert!(registry_path_entries("    Path    REG_SZ    \r\n").is_empty());
    assert!(registry_path_entries("").is_empty());
}

#[test]
fn merging_adds_only_missing_entries() {
    let candidates = vec!["c:\\a".to_string(), "C:\\New".to_string(), "C:\\New".to_string()];
    assert_eq!(
        merge_windows_path("C:\\A;C:\\B", &candidates).as_deref(),
        Some("C:\\A;C:\\B;C:\\New;C:\\New")
    );
    assert_eq!(merge_windows_path("C:\\A", &vec!["c:\\A".to_string()]), None);
    assert_eq!(merge_windows_path("", &vec![]), None);
}

#[test]
fn splitting_keeps_empty_pieces() {
    let v: Vec<char> = "a;;b;".chars().collect();
    assert_eq!(split_on_char(&v, ';'), vec!["a".to_string(), "".to_string(), "b".to_string(), "".to_string()]);
}

#[test]
fn refreshing_twice_adds_nothing_more() {
    let out = "    Path    REG_EXPAND_SZ    C:\\Tools;c:\\a ; D:\\Node\r\n";
    let candidates = registry_path_entries(out);
    let once = merge_windows_path("C:\\A;C:\\B", &candidates).expect("missing entries are added");
    assert_eq!(once, "C:\\A;C:\\B;C:\\Tools;D:\\Node");
    assert_eq!(merge_windows_path(&once, &candidates), None);
}
