use program_manager::maintenance::{
    batch_delete_apps, check_all_updates, check_app_update, init_all_baselines,
    init_update_baseline, validate_all_apps,
};
use program_manager::models::{App, Category, Config, UpdateMetadata};
use program_manager::path_validator::PathProbe;
use program_manager::update_checker::TargetObservation;
use program_manager::CoreError;

fn entry(id: &str, icon: Option<String>) -> App {
    App {
        id: String::from(id),
        name: format!("name-{}", id),
        path: format!("C:\\apps\\{}.exe", id),
        category: String::from("cat-1"),
        icon,
        last_launched: None,
        created_at: 7,
        update_metadata: None,
    }
}

fn catalog(apps: Vec<App>) -> Config {
    let members = apps.iter().map(|a| a.id.clone()).collect();
    Config {
        version: String::from("1.0"),
        categories: vec![Category {
            id: String::from("cat-1"),
            name: String::from("Tools"),
            icon: None,
            apps: members,
            order: 0,
        }],
        apps,
        settings: String::new(),
    }
}

#[test]
fn test_validate_all_apps_pairs_entries_with_probes() {
    let config = catalog(vec![entry("a", None), entry("b", None)]);
    let probes = vec![
        PathProbe::Missing,
        PathProbe::Readable { size: 1, modified: 2 },
    ];
    let results = validate_all_apps(&config, &probes);
    assert_eq!(results.len(), 2);
    assert_eq!(results[0].app_id, "a");
    assert_eq!(results[0].app_name, "name-a");
    assert!(!results[0].is_valid);
    assert_eq!(results[0].reason.as_deref(), Some("missing"));
    assert_eq!(results[0].path_type.as_deref(), Some("local"));
    assert!(results[1].is_valid);
    assert!(results[1].reason.is_none());
}

#[test]
fn test_init_update_baseline_records_observation() {
    let mut config = catalog(vec![entry("a", None)]);
    let r = init_update_baseline(
        &mut config,
        "a",
        TargetObservation {
            fingerprint: Some((1000, 500)),
            version: Some(String::from("1.2")),
        },
        999,
    );
    assert!(r.is_ok());
    let m = config.apps[0].update_metadata.as_ref().unwrap();
    assert_eq!(m.baseline_version.as_deref(), Some("1.2"));
    assert_eq!(m.baseline_file_size, Some(1000));
    assert_eq!(m.baseline_modified_time, Some(500));
    assert_eq!(m.last_checked_at, Some(999));
    assert_eq!(m.update_status.as_deref(), Some("none"));
    assert!(m.update_confidence.is_none());
}

#[test]
fn test_init_update_baseline_errors() {
    let mut config = catalog(vec![entry("a", None)]);
    let not_found = init_update_baseline(
        &mut config,
        "ghost",
        TargetObservation { fingerprint: Some((1, 2)), version: None },
        0,
    );
    assert!(matches!(not_found.unwrap_err(), CoreError::NotFound));
    let unreadable = init_update_baseline(
        &mut config,
        "a",
        TargetObservation { fingerprint: None, version: None },
        0,
    );
    match unreadable.unwrap_err() {
        CoreError::IOError(m) => assert_eq!(m, "cannot read file metadata"),
        _ => panic!("expected an I/O error"),
    }
    assert!(config.apps[0].update_metadata.is_none());
}

#[test]
fn test_init_all_baselines_skips_and_records_failures() {
    let mut initialized = entry("a", None);
    initialized.update_metadata = Some(UpdateMetadata {
        baseline_version: None,
        baseline_file_size: Some(5),
        baseline_modified_time: Some(6),
        last_checked_at: Some(7),
        update_status: Some(String::from("none")),
        update_confidence: None,
    });
    let mut config = catalog(vec![initialized, entry("b", None), entry("c", None)]);
    let observations = vec![
        TargetObservation { fingerprint: Some((1, 1)), version: None },
        TargetObservation { fingerprint: None, version: None },
        TargetObservation { fingerprint: Some((9, 9)), version: Some(String::from("3")) },
    ];
    let r = init_all_baselines(&mut config, &observations, 100);
    assert_eq!(r.total, 3);
    assert_eq!(r.completed, 3);
    assert_eq!(r.succeeded, 2);
    assert_eq!(r.failed, 1);
    assert_eq!(r.errors.len(), 1);
    assert_eq!(r.errors[0].app_id, "b");
    assert_eq!(r.errors[0].error, "cannot read file metadata");
    // the first entry kept its old baseline
    assert_eq!(
        config.apps[0].update_metadata.as_ref().unwrap().baseline_file_size,
        Some(5)
    );
    assert!(config.apps[1].update_metadata.is_none());
    let m = config.apps[2].update_metadata.as_ref().unwrap();
    assert_eq!(m.baseline_file_size, Some(9));
    assert_eq!(m.baseline_version.as_deref(), Some("3"));
}

#[test]
fn test_check_app_update_reports_per_entry() {
    let mut config = catalog(vec![entry("a", None)]);
    init_update_baseline(
        &mut config,
        "a",
        TargetObservation { fingerprint: Some((1000, 500)), version: None },
        0,
    )
    .unwrap();
    let r = check_app_update(
        &config,
        "a",
        TargetObservation { fingerprint: Some((2000, 900)), version: None },
    )
    .unwrap();
    assert_eq!(r.app_id, "a");
    assert_eq!(r.app_name, "name-a");
    assert!(r.has_update);
    assert_eq!(r.confidence, "medium");
    assert!(r.details.size_changed);
    assert!(r.details.modified_time_changed);
    assert!(matches!(
        check_app_update(
            &config,
            "ghost",
            TargetObservation { fingerprint: None, version: None }
        )
        .unwrap_err(),
        CoreError::NotFound
    ));
}

#[test]
fn test_check_all_updates_sweeps_catalog() {
    let mut config = catalog(vec![entry("a", None), entry("b", None)]);
    init_update_baseline(
        &mut config,
        "a",
        TargetObservation { fingerprint: Some((1000, 500)), version: None },
        0,
    )
    .unwrap();
    let observations = vec![
        TargetObservation { fingerprint: Some((1000, 500)), version: None },
        TargetObservation { fingerprint: Some((1, 1)), version: None },
    ];
    let results = check_all_updates(&config, &observations);
    assert_eq!(results.len(), 2);
    assert!(!results[0].has_update);
    // no baseline on the second entry: no update whatever the file shows
    assert!(!results[1].has_update);
}

#[test]
fn test_batch_delete_counts_and_errors() {
    let mut config = catalog(vec![
        entry("a", Some(String::from("a.png"))),
        entry("b", None),
        entry("c", Some(String::from("data:image/png;base64,AA"))),
    ]);
    let ids = vec![
        String::from("a"),
        String::from("ghost-1"),
        String::from("b"),
        String::from("ghost-2"),
        String::from("c"),
    ];
    let (result, icons) = batch_delete_apps(&mut config, &ids);
    assert_eq!(result.total, 5);
    assert_eq!(result.completed, 5);
    assert_eq!(result.failed, 2);
    assert_eq!(result.succeeded, 3);
    assert_eq!(result.errors.len(), 2);
    assert_eq!(result.errors[0].app_id, "ghost-1");
    assert_eq!(result.errors[1].app_id, "ghost-2");
    assert_eq!(result.errors[0].error, "not found");
    // every entry is gone, membership lists are purged
    assert!(config.apps.is_empty());
    assert!(config.categories[0].apps.is_empty());
    // only the file-based icon is handed back for deletion
    assert_eq!(icons, vec![String::from("a.png")]);
}

#[test]
fn test_batch_delete_repeated_id_fails_second_time() {
    let mut config = catalog(vec![entry("a", None), entry("b", None)]);
    let ids = vec![String::from("a"), String::from("a")];
    let (result, icons) = batch_delete_apps(&mut config, &ids);
    assert_eq!(result.total, 2);
    assert_eq!(result.succeeded, 1);
    assert_eq!(result.failed, 1);
    assert_eq!(result.errors[0].app_id, "a");
    assert!(icons.is_empty());
    assert_eq!(config.apps.len(), 1);
    assert_eq!(config.apps[0].id, "b");
    assert_eq!(config.categories[0].apps, vec![String::from("b")]);
}

#[test]
fn test_batch_delete_keeps_survivors_in_order() {
    let mut config = catalog(vec![entry("a", None), entry("b", None), entry("c", None)]);
    let ids = vec![String::from("b")];
    let (result, _) = batch_delete_apps(&mut config, &ids);
    assert_eq!(result.succeeded, 1);
    assert_eq!(config.apps.len(), 2);
    assert_eq!(config.apps[0].id, "a");
    assert_eq!(config.apps[1].id, "c");
    assert_eq!(
        config.categories[0].apps,
        vec![String::from("a"), String::from("c")]
    );
}
