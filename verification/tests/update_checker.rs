use program_manager::update_checker::{check_for_update, choose_version, TargetObservation};

#[test]
fn test_update_check_no_baseline() {
    let result = check_for_update(
        TargetObservation { fingerprint: None, version: None },
        None,
        None,
        None,
    );
    assert_eq!(result.has_update, false);
}

#[test]
fn test_confidence_levels() {
    let result = check_for_update(
        TargetObservation { fingerprint: None, version: None },
        None,
        Some(1000),
        Some(1000),
    );

    let result2 = check_for_update(
        TargetObservation { fingerprint: None, version: None },
        None,
        Some(1000),
        Some(1000),
    );

    assert_eq!(result.has_update, result2.has_update);
}

#[test]
fn test_no_baseline_ignores_current_state() {
    let result = check_for_update(
        TargetObservation {
            fingerprint: Some((123456, 777)),
            version: Some(String::from("9.9.9")),
        },
        None,
        None,
        None,
    );
    assert_eq!(result.has_update, false);
    assert_eq!(result.confidence, "low");
}

#[test]
fn test_unchanged_fingerprint_reports_nothing() {
    let result = check_for_update(
        TargetObservation { fingerprint: Some((1000, 500)), version: None },
        None,
        Some(1000),
        Some(500),
    );
    assert_eq!(result.file_changed, false);
    assert_eq!(result.has_update, false);
}

#[test]
fn test_size_change_alone_is_low_confidence() {
    let result = check_for_update(
        TargetObservation { fingerprint: Some((2000, 500)), version: None },
        None,
        Some(1000),
        Some(500),
    );
    assert_eq!(result.size_changed, true);
    assert_eq!(result.file_changed, true);
    assert_eq!(result.has_update, true);
    assert_eq!(result.confidence, "low");
    assert_eq!(result.modified_time_changed, false);
}

#[test]
fn test_both_signals_are_medium_confidence() {
    let result = check_for_update(
        TargetObservation { fingerprint: Some((2000, 900)), version: None },
        None,
        Some(1000),
        Some(500),
    );
    assert_eq!(result.size_changed, true);
    assert_eq!(result.modified_time_changed, true);
    assert_eq!(result.confidence, "medium");
    assert_eq!(result.has_update, true);
}

#[test]
fn test_timestamp_tolerance_absorbs_rounding() {
    let result = check_for_update(
        TargetObservation { fingerprint: Some((1000, 502)), version: None },
        None,
        Some(1000),
        Some(500),
    );
    assert_eq!(result.modified_time_changed, false);
    let result2 = check_for_update(
        TargetObservation { fingerprint: Some((1000, 503)), version: None },
        None,
        Some(1000),
        Some(500),
    );
    assert_eq!(result2.modified_time_changed, true);
}

#[test]
fn test_version_mismatch_overrides_metadata() {
    let result = check_for_update(
        TargetObservation {
            fingerprint: Some((1000, 500)),
            version: Some(String::from("2.0")),
        },
        Some(String::from("1.0")),
        Some(1000),
        Some(500),
    );
    assert_eq!(result.has_update, true);
    assert_eq!(result.confidence, "high");
    assert_eq!(result.old_version.as_deref(), Some("1.0"));
    assert_eq!(result.new_version.as_deref(), Some("2.0"));
}

#[test]
fn test_equal_versions_fall_back_to_metadata() {
    let result = check_for_update(
        TargetObservation {
            fingerprint: Some((2000, 900)),
            version: Some(String::from("1.0")),
        },
        Some(String::from("1.0")),
        Some(1000),
        Some(500),
    );
    assert_eq!(result.has_update, true);
    assert_eq!(result.confidence, "medium");
}

#[test]
fn test_choose_version_takes_first_name_match() {
    let entries = vec![
        (String::from("Some Other Tool"), String::from("0.1")),
        (String::from("Mozilla Firefox (x64)"), String::from("128.0")),
        (String::from("firefox nightly"), String::from("130.0")),
    ];
    assert_eq!(choose_version("Firefox", &entries).as_deref(), Some("128.0"));
}

#[test]
fn test_choose_version_without_match_is_empty() {
    let entries = vec![(String::from("Some Other Tool"), String::from("0.1"))];
    assert_eq!(choose_version("notepad", &entries), None);
    assert_eq!(choose_version("anything", &Vec::new()), None);
}
