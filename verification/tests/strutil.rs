use program_manager::strutil::{
    contains_ignore_ascii_case, eq_ignore_ascii_case, find_sub, str_eq, str_starts_with,
    target_stem,
};

#[test]
fn test_target_stem_of_windows_path() {
    assert_eq!(target_stem("C:\\Program Files\\App\\tool.exe"), "tool");
    assert_eq!(target_stem("C:\\a\\b\\archive.tar.gz"), "archive.tar");
    assert_eq!(target_stem("notepad.exe"), "notepad");
    assert_eq!(target_stem("noext"), "noext");
}

#[test]
fn test_target_stem_edge_cases() {
    assert_eq!(target_stem("/usr/bin/tool"), "tool");
    assert_eq!(target_stem("C:\\dir\\"), "");
    assert_eq!(target_stem(".bashrc"), ".bashrc");
    assert_eq!(target_stem("a\\.hidden"), ".hidden");
    assert_eq!(target_stem(""), "");
}

#[test]
fn test_find_sub_first_occurrence() {
    assert_eq!(find_sub("data:image/png;base64,AAA", "base64,"), Some(15));
    assert_eq!(find_sub("abcabc", "abc"), Some(0));
    assert_eq!(find_sub("abcabc", "cab"), Some(2));
    assert_eq!(find_sub("abc", "xyz"), None);
    assert_eq!(find_sub("abc", ""), Some(0));
}

#[test]
fn test_prefix_and_equality() {
    assert!(str_starts_with("data:image/png", "data:image"));
    assert!(!str_starts_with("data", "data:image"));
    assert!(str_eq("same", "same"));
    assert!(!str_eq("same", "sam"));
}

#[test]
fn test_ascii_case_folding() {
    assert!(eq_ignore_ascii_case("C:\\App.EXE", "c:\\app.exe"));
    assert!(!eq_ignore_ascii_case("abc", "abd"));
    assert!(contains_ignore_ascii_case("Mozilla Firefox 128", "firefox"));
    assert!(!contains_ignore_ascii_case("Mozilla Firefox", "chrome"));
    assert!(contains_ignore_ascii_case("anything", ""));
}
