use program_manager::path_validator::{detect_path_type, file_fingerprint, validate_app_path, PathProbe};

#[test]
fn test_detect_network_path() {
    assert_eq!(detect_path_type("\\\\server\\share\\file.exe"), "network");
    assert_eq!(detect_path_type("C:\\Program Files\\app.exe"), "local");
}

#[test]
fn test_validate_nonexistent_path() {
    let (valid, reason, _) = validate_app_path("C:\\NonExistent\\app.exe", &PathProbe::Missing);
    assert_eq!(valid, false);
    assert!(reason.is_some());
}

#[test]
fn test_validate_missing_has_classification() {
    let (valid, reason, path_type) =
        validate_app_path("C:\\NonExistent\\app.exe", &PathProbe::Missing);
    assert!(!valid);
    assert_eq!(reason.as_deref(), Some("missing"));
    assert_eq!(path_type.as_deref(), Some("local"));
}

#[test]
fn test_validate_inaccessible_carries_os_error() {
    let probe = PathProbe::Inaccessible(String::from("permission denied"));
    let (valid, reason, path_type) = validate_app_path("\\\\srv\\share\\x.exe", &probe);
    assert!(!valid);
    assert_eq!(reason.as_deref(), Some("inaccessible: permission denied"));
    assert_eq!(path_type.as_deref(), Some("network"));
}

#[test]
fn test_validate_readable_is_valid() {
    let probe = PathProbe::Readable { size: 1234, modified: 99 };
    let (valid, reason, path_type) = validate_app_path("C:\\ok.exe", &probe);
    assert!(valid);
    assert!(reason.is_none());
    assert_eq!(path_type.as_deref(), Some("local"));
}

#[test]
fn test_file_fingerprint_of_probe() {
    assert_eq!(
        file_fingerprint(&PathProbe::Readable { size: 10, modified: 20 }),
        Some((10, 20))
    );
    assert_eq!(file_fingerprint(&PathProbe::Missing), None);
    assert_eq!(
        file_fingerprint(&PathProbe::Inaccessible(String::from("x"))),
        None
    );
}

#[test]
fn test_classify_unc_edge_cases() {
    assert_eq!(detect_path_type("\\\\"), "network");
    assert_eq!(detect_path_type("\\x"), "local");
    assert_eq!(detect_path_type(""), "local");
    assert_eq!(detect_path_type("D:\\tools\\a.exe"), "local");
}
