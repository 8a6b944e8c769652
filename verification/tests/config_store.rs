use base64::Engine;
use program_manager::config_store::{apply_inline_migration, get_config_path, get_icon_path, icon_asset_filename, migrate_icons};
use program_manager::models::{App, Config};

fn entry(id: &str, icon: Option<String>) -> App {
    App {
        id: String::from(id),
        name: format!("name-{}", id),
        path: format!("C:\\apps\\{}.exe", id),
        category: String::from("cat"),
        icon,
        last_launched: None,
        created_at: 7,
        update_metadata: None,
    }
}

#[test]
fn test_config_and_icon_paths() {
    assert_eq!(get_config_path("/home/u/.config/pm"), "/home/u/.config/pm/config.json");
    assert_eq!(get_icon_path("/home/u/.config/pm/icons", "a.png"), "/home/u/.config/pm/icons/a.png");
    assert_eq!(icon_asset_filename("abc"), "abc.png");
}

#[test]
fn test_migration_rewrites_inline_icon() {
    let embedded: Vec<u8> = vec![1, 2, 3, 4, 5, 250];
    let payload = base64::engine::general_purpose::STANDARD.encode(&embedded);
    let uri = format!("data:image/png;base64,{}", payload);
    let mut config = Config {
        version: String::from("1.0"),
        categories: Vec::new(),
        apps: vec![entry("a1", Some(uri))],
        settings: String::new(),
    };
    let writes = migrate_icons(&mut config);
    assert_eq!(config.apps[0].icon.as_deref(), Some("a1.png"));
    assert_eq!(writes.len(), 1);
    assert_eq!(writes[0].filename, "a1.png");
    // the bytes headed for the asset file equal the embedded bytes
    assert_eq!(writes[0].bytes, embedded);
}

#[test]
fn test_migration_leaves_file_icons_alone() {
    let mut config = Config {
        version: String::from("1.0"),
        categories: Vec::new(),
        apps: vec![entry("a1", Some(String::from("a1.png"))), entry("a2", None)],
        settings: String::new(),
    };
    let writes = migrate_icons(&mut config);
    assert!(writes.is_empty());
    assert_eq!(config.apps[0].icon.as_deref(), Some("a1.png"));
    assert_eq!(config.apps[1].icon, None);
}

#[test]
fn test_migration_skips_undecodable_payload() {
    let uri = String::from("data:image/png;base64,!!!not-base64!!!");
    let mut config = Config {
        version: String::from("1.0"),
        categories: Vec::new(),
        apps: vec![entry("a1", Some(uri.clone()))],
        settings: String::new(),
    };
    let writes = migrate_icons(&mut config);
    assert!(writes.is_empty());
    assert_eq!(config.apps[0].icon.as_deref(), Some(uri.as_str()));
}

#[test]
fn test_migration_handles_several_entries() {
    let b1: Vec<u8> = vec![9, 9, 9];
    let b2: Vec<u8> = vec![1];
    let u1 = format!(
        "data:image/png;base64,{}",
        base64::engine::general_purpose::STANDARD.encode(&b1)
    );
    let u2 = format!(
        "data:image/jpeg;base64,{}",
        base64::engine::general_purpose::STANDARD.encode(&b2)
    );
    let mut config = Config {
        version: String::from("1.0"),
        categories: Vec::new(),
        apps: vec![
            entry("x", Some(u1)),
            entry("y", Some(String::from("y.png"))),
            entry("z", Some(u2)),
        ],
        settings: String::new(),
    };
    let writes = migrate_icons(&mut config);
    assert_eq!(config.apps[0].icon.as_deref(), Some("x.png"));
    assert_eq!(config.apps[1].icon.as_deref(), Some("y.png"));
    assert_eq!(config.apps[2].icon.as_deref(), Some("z.png"));
    assert_eq!(writes.len(), 2);
    assert_eq!(writes[0].filename, "x.png");
    assert_eq!(writes[0].bytes, b1);
    assert_eq!(writes[1].filename, "z.png");
    assert_eq!(writes[1].bytes, b2);
}

#[test]
fn test_default_config_is_empty() {
    let config = Config::default();
    assert_eq!(config.version, "1.0");
    assert!(config.categories.is_empty());
    assert!(config.apps.is_empty());
    assert_eq!(config.settings, "");
}

#[test]
fn test_apply_inline_migration_pins_both_outcomes() {
    let app = entry("e9", Some(String::from("data:image/png;base64,AQID")));
    let (kept, write) = apply_inline_migration(app, None);
    assert_eq!(kept.icon.as_deref(), Some("data:image/png;base64,AQID"));
    assert!(write.is_none());
    let (rewritten, write) = apply_inline_migration(kept, Some(vec![1, 2, 3]));
    assert_eq!(rewritten.icon.as_deref(), Some("e9.png"));
    let w = write.unwrap();
    assert_eq!(w.filename, "e9.png");
    assert_eq!(w.bytes, vec![1, 2, 3]);
}

#[test]
fn test_migration_runs_at_most_once() {
    let embedded: Vec<u8> = vec![4, 5, 6];
    let uri = format!(
        "data:image/png;base64,{}",
        base64::engine::general_purpose::STANDARD.encode(&embedded)
    );
    let mut config = Config {
        version: String::from("1.0"),
        categories: Vec::new(),
        apps: vec![entry("a1", Some(uri))],
        settings: String::new(),
    };
    let first = migrate_icons(&mut config);
    assert_eq!(first.len(), 1);
    let second = migrate_icons(&mut config);
    assert!(second.is_empty());
    assert_eq!(config.apps[0].icon.as_deref(), Some("a1.png"));
}
