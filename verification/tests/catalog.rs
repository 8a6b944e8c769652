use program_manager::catalog::{add_app, add_category, check_app_exists, delete_app, get_app_path};
use program_manager::models::{App, Category, Config};
use program_manager::CoreError;

fn seeded_config() -> Config {
    let mut config = Config::default();
    config.categories.push(Category {
        id: String::from("cat-1"),
        name: String::from("Tools"),
        icon: None,
        apps: Vec::new(),
        order: 0,
    });
    config
}

#[test]
fn test_add_category_assigns_fresh_id_and_order() {
    let mut config = Config::default();
    let first = add_category(&mut config, String::from("Games"));
    assert_eq!(first.name, "Games");
    assert_eq!(first.order, 0);
    assert_eq!(first.id.len(), 36);
    assert!(first.apps.is_empty());
    assert!(first.icon.is_none());
    let second = add_category(&mut config, String::from("Work"));
    assert_eq!(second.order, 1);
    assert_ne!(first.id, second.id);
    assert_eq!(config.categories.len(), 2);
    assert_eq!(config.categories[0].id, first.id);
    assert_eq!(config.categories[1].id, second.id);
}

#[test]
fn test_add_app_inserts_and_joins_category() {
    let mut config = seeded_config();
    let app = add_app(
        &mut config,
        String::from("app-1"),
        String::from("Editor"),
        String::from("C:\\tools\\edit.exe"),
        String::from("cat-1"),
        Some(String::from("app-1.png")),
        42,
    );
    assert_eq!(app.id, "app-1");
    assert_eq!(app.name, "Editor");
    assert_eq!(app.created_at, 42);
    assert!(app.last_launched.is_none());
    assert!(app.update_metadata.is_none());
    assert_eq!(config.apps.len(), 1);
    assert_eq!(config.apps[0].id, "app-1");
    assert_eq!(config.categories[0].apps, vec![String::from("app-1")]);
}

#[test]
fn test_add_app_to_unknown_category_leaves_memberships() {
    let mut config = seeded_config();
    add_app(
        &mut config,
        String::from("app-1"),
        String::from("Editor"),
        String::from("C:\\e.exe"),
        String::from("no-such-cat"),
        None,
        1,
    );
    assert_eq!(config.apps.len(), 1);
    assert!(config.categories[0].apps.is_empty());
}

#[test]
fn test_delete_app_removes_entry_and_membership() {
    let mut config = seeded_config();
    add_app(
        &mut config,
        String::from("app-1"),
        String::from("Editor"),
        String::from("C:\\e.exe"),
        String::from("cat-1"),
        Some(String::from("app-1.png")),
        1,
    );
    add_app(
        &mut config,
        String::from("app-2"),
        String::from("Player"),
        String::from("C:\\p.exe"),
        String::from("cat-1"),
        None,
        2,
    );
    let icon = delete_app(&mut config, "app-1").unwrap();
    assert_eq!(icon.as_deref(), Some("app-1.png"));
    assert_eq!(config.apps.len(), 1);
    assert_eq!(config.apps[0].id, "app-2");
    assert_eq!(config.categories[0].apps, vec![String::from("app-2")]);
}

#[test]
fn test_delete_app_with_inline_icon_returns_no_file() {
    let mut config = seeded_config();
    add_app(
        &mut config,
        String::from("app-1"),
        String::from("Editor"),
        String::from("C:\\e.exe"),
        String::from("cat-1"),
        Some(String::from("data:image/png;base64,AAAA")),
        1,
    );
    let icon = delete_app(&mut config, "app-1").unwrap();
    assert!(icon.is_none());
    assert!(config.apps.is_empty());
}

#[test]
fn test_delete_unknown_app_is_not_found() {
    let mut config = seeded_config();
    add_app(
        &mut config,
        String::from("app-1"),
        String::from("Editor"),
        String::from("C:\\e.exe"),
        String::from("cat-1"),
        None,
        1,
    );
    let err = delete_app(&mut config, "ghost").unwrap_err();
    assert!(matches!(err, CoreError::NotFound));
    assert_eq!(config.apps.len(), 1);
    assert_eq!(config.categories[0].apps.len(), 1);
}

#[test]
fn test_check_app_exists_ignores_case() {
    let mut config = seeded_config();
    add_app(
        &mut config,
        String::from("app-1"),
        String::from("Editor"),
        String::from("C:\\Tools\\Edit.EXE"),
        String::from("cat-1"),
        None,
        1,
    );
    assert!(check_app_exists(&config, "c:\\tools\\edit.exe"));
    assert!(check_app_exists(&config, "C:\\TOOLS\\EDIT.EXE"));
    assert!(!check_app_exists(&config, "C:\\Tools\\Other.exe"));
}

#[test]
fn test_get_app_path() {
    let mut config = seeded_config();
    add_app(
        &mut config,
        String::from("app-1"),
        String::from("Editor"),
        String::from("C:\\e.exe"),
        String::from("cat-1"),
        None,
        1,
    );
    assert_eq!(get_app_path(&config, "app-1").unwrap(), "C:\\e.exe");
    assert!(matches!(
        get_app_path(&config, "ghost").unwrap_err(),
        CoreError::NotFound
    ));
}

#[test]
fn test_entry_fields_round_trip() {
    let app = App {
        id: String::from("i"),
        name: String::from("n"),
        path: String::from("p"),
        category: String::from("c"),
        icon: None,
        last_launched: Some(5),
        created_at: 6,
        update_metadata: None,
    };
    assert_eq!(app.last_launched, Some(5));
    assert_eq!(app.created_at, 6);
}

#[test]
fn test_error_messages() {
    assert_eq!(CoreError::NotFound.message(), "not found");
    assert_eq!(
        CoreError::IOError(String::from("disk full")).message(),
        "I/O failure: disk full"
    );
    assert_eq!(
        CoreError::ExtractionError(String::from("no raster")).message(),
        "icon extraction failed: no raster"
    );
    assert_eq!(
        CoreError::PlatformUnsupported.message(),
        "this operation is available on one platform only"
    );
}
