use gestor_proyectos::codec::{parse_config, render_config};
use gestor_proyectos::config::{
    AppConfig, ConfigManager, OsKind, PathChecks, ProgramMode, ShortcutBinding, ThemeMode,
    default_shortcuts, get_os_defaults,
};
use gestor_proyectos::AppError;

fn ok_checks() -> PathChecks {
    PathChecks { terminal_path_exists: true, backup_path_available: true }
}

fn custom_config() -> AppConfig {
    let mut c = get_os_defaults(OsKind::Linux, "/home/somebody".to_string());
    c.platform.terminal.mode = ProgramMode::Custom;
    c.platform.terminal.custom_path = Some("/usr/bin/kitty".to_string());
    c.platform.terminal.custom_args = vec!["--directory".to_string(), "{path}".to_string()];
    c.platform.browser.mode = ProgramMode::Script;
    c.platform.browser.custom_script = Some("firefox {url} &".to_string());
    c.platform.environment.push(("EDITOR".to_string(), "vim".to_string()));
    c.backup.default_path = Some("/backups".to_string());
    c.backup.auto_backup_enabled = true;
    c.backup.auto_backup_interval = 14;
    c.backup.retention_days = 90;
    c.ui.theme = ThemeMode::Dark;
    c.ui.language = "en".to_string();
    c.ui.confirm_delete = false;
    c.advanced.enable_analytics = false;
    c.advanced.database_path = Some("/data/projects.db".to_string());
    if let Some(sc) = &mut c.shortcuts {
        sc.shortcuts[0].1.enabled = false;
        sc.shortcuts[1].1.description = None;
        sc.shortcuts.push((
            "export".to_string(),
            ShortcutBinding {
                key: "Ctrl+E".to_string(),
                enabled: true,
                description: Some("Export the project list".to_string()),
            },
        ));
    }
    c
}

#[test]
fn configuration_round_trip_preserves_every_field() {
    let x = custom_config();
    let defaults = get_os_defaults(OsKind::Linux, "/home/other".to_string());
    let mut manager = ConfigManager::new(None, defaults).unwrap();
    manager.update_config(custom_config(), &ok_checks()).unwrap();
    let document = manager.document();
    // a fresh manager loading the same document sees the same configuration
    let fresh_defaults = get_os_defaults(OsKind::Linux, "/home/elsewhere".to_string());
    let fresh = ConfigManager::new(Some(document.as_str()), fresh_defaults).unwrap();
    assert_eq!(*fresh.get_config(), x);
}

#[test]
fn codec_round_trip_on_defaults() {
    let c = get_os_defaults(OsKind::Windows, "C:/Users/someone".to_string());
    let doc = render_config(&c);
    let parsed = parse_config(doc.as_str()).unwrap();
    assert_eq!(parsed, c);
    // numbers render in plain decimal
    assert!(doc.contains("\"auto_backup_interval\":7"));
    assert!(doc.contains("\"retention_days\":30"));
    assert!(doc.contains("\"version\":\"0.3.0\""));
    assert!(doc.contains("\"USERPROFILE\":\"C:/Users/someone\""));
    // the shortcut table travels with the document
    assert!(doc.contains("\"shortcuts\":{\"enabled\":true"));
    assert!(doc.contains("\"new_project\":{\"key\":\"Ctrl+N\",\"enabled\":true"));
    // an absent table is encoded too
    let mut bare = get_os_defaults(OsKind::Windows, "C:/Users/someone".to_string());
    bare.shortcuts = None;
    let bare_doc = render_config(&bare);
    assert!(bare_doc.contains("\"shortcuts\":null"));
    assert_eq!(parse_config(bare_doc.as_str()).unwrap(), bare);
}

#[test]
fn malformed_documents_are_rejected() {
    let defaults = get_os_defaults(OsKind::Linux, "/home/u".to_string());
    assert_eq!(
        ConfigManager::new(Some("not a document"), defaults).unwrap_err(),
        AppError::ConfigError
    );
}

#[test]
fn first_run_takes_the_defaults() {
    let defaults = get_os_defaults(OsKind::Linux, "/home/u".to_string());
    let manager = ConfigManager::new(None, get_os_defaults(OsKind::Linux, "/home/u".to_string()))
        .unwrap();
    assert_eq!(*manager.get_config(), defaults);
    assert_eq!(manager.get_config().version, "0.3.0");
    assert!(manager.migrate_if_needed());
    assert_eq!(manager.get_config().platform.environment[0].0, "HOME");
    assert_eq!(manager.get_config().ui.language, "es");
}

#[test]
fn rejected_updates_leave_the_previous_state() {
    let defaults = get_os_defaults(OsKind::Linux, "/home/u".to_string());
    let mut manager = ConfigManager::new(None, defaults).unwrap();
    let before = manager.get_config().version.clone();
    // a configured custom terminal that is missing on disk is rejected
    let mut bad = custom_config();
    bad.version = "9.9.9".to_string();
    let checks = PathChecks { terminal_path_exists: false, backup_path_available: true };
    assert_eq!(manager.update_config(bad, &checks).unwrap_err(), AppError::ConfigError);
    assert_eq!(manager.get_config().version, before);
    // an unavailable backup path is rejected
    let mut bad2 = custom_config();
    bad2.platform.terminal.mode = ProgramMode::Auto;
    let checks2 = PathChecks { terminal_path_exists: true, backup_path_available: false };
    assert_eq!(manager.update_config(bad2, &checks2).unwrap_err(), AppError::ConfigError);
}

#[test]
fn reset_routes_through_validation() {
    let defaults = get_os_defaults(OsKind::Linux, "/home/u".to_string());
    let mut manager = ConfigManager::new(None, defaults).unwrap();
    manager.update_config(custom_config(), &ok_checks()).unwrap();
    assert_eq!(manager.get_config().ui.language, "en");
    let fresh = get_os_defaults(OsKind::Linux, "/home/u".to_string());
    manager.reset_config(fresh, &ok_checks()).unwrap();
    assert_eq!(manager.get_config().ui.language, "es");
    assert_eq!(manager.get_config().platform.terminal.mode, ProgramMode::Auto);
}

#[test]
fn codec_round_trip_at_the_number_boundary() {
    let mut c = get_os_defaults(OsKind::Linux, "/home/u".to_string());
    c.backup.auto_backup_interval = u32::MAX;
    c.backup.retention_days = 0;
    let doc = render_config(&c);
    assert!(doc.contains("\"auto_backup_interval\":4294967295"));
    assert!(doc.contains("\"retention_days\":0"));
    assert_eq!(parse_config(doc.as_str()).unwrap(), c);
}

#[test]
fn journal_entries_round_trip_through_the_store() {
    let mut s = gestor_proyectos::store::Store::new();
    let p = s
        .create_project(
            gestor_proyectos::models::CreateProjectDTO {
                name: "n".to_string(),
                description: "d".to_string(),
                local_path: "/p".to_string(),
                documentation_url: None,
                ai_documentation_url: None,
                drive_link: None,
                notes: None,
                image_data: None,
            },
            1,
        )
        .unwrap();
    let e = s
        .create_journal_entry(
            gestor_proyectos::models::CreateJournalEntryDTO {
                project_id: p.id,
                content: "first".to_string(),
                tags: Some("a,b".to_string()),
            },
            2,
        )
        .unwrap();
    assert_eq!(e.created_at, 2);
    assert_eq!(e.updated_at, 2);
    let updated = s
        .update_journal_entry(
            e.id,
            gestor_proyectos::models::UpdateJournalEntryDTO {
                content: Some("second".to_string()),
                tags: None,
            },
            5,
        )
        .unwrap();
    assert_eq!(updated.content, "second");
    assert_eq!(updated.tags, Some("a,b".to_string()));
    assert_eq!(updated.updated_at, 5);
    assert_eq!(updated.created_at, 2);
}

#[test]
fn default_shortcut_table() {
    let sc = default_shortcuts();
    assert!(sc.enabled);
    assert_eq!(sc.shortcuts.len(), 6);
    assert_eq!(sc.shortcuts[0].0, "new_project");
    assert_eq!(sc.shortcuts[0].1.key, "Ctrl+N");
    assert_eq!(sc.shortcuts[5].0, "close_modal");
    assert_eq!(sc.shortcuts[5].1.key, "Escape");
    assert!(sc.shortcuts.iter().all(|(_, b)| b.enabled));
}

#[test]
fn quotes_and_backslashes_are_escaped_and_round_trip() {
    // an ordinary Windows home and executable path survive the document
    let mut c = get_os_defaults(OsKind::Windows, "C:\\Users\\someone".to_string());
    c.platform.terminal.mode = ProgramMode::Custom;
    c.platform.terminal.custom_path = Some("C:\\Program Files\\wt.exe".to_string());
    c.platform.terminal.custom_args = vec!["-d".to_string(), "{path}".to_string()];
    c.ui.language = "a\"b\\c".to_string();
    let doc = render_config(&c);
    // the document carries the escaped forms
    assert!(doc.contains("C:\\\\Program Files\\\\wt.exe"));
    assert!(doc.contains("a\\\"b\\\\c"));
    assert_eq!(parse_config(doc.as_str()).unwrap(), c);
    // and the manager accepts, persists and reloads them unchanged
    let defaults = get_os_defaults(OsKind::Linux, "/home/u".to_string());
    let mut manager = ConfigManager::new(None, defaults).unwrap();
    manager.update_config(c, &ok_checks()).unwrap();
    let document = manager.document();
    let fresh_defaults = get_os_defaults(OsKind::Linux, "/home/u".to_string());
    let fresh = ConfigManager::new(Some(document.as_str()), fresh_defaults).unwrap();
    assert_eq!(
        fresh.get_config().platform.terminal.custom_path,
        Some("C:\\Program Files\\wt.exe".to_string())
    );
    assert_eq!(fresh.get_config().ui.language, "a\"b\\c");
    assert_eq!(
        fresh.get_config().platform.environment[0].1,
        "C:\\Users\\someone"
    );
}
