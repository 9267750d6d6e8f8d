use atomic_core::manager::{DatabaseInfo, DatabaseManager, Registry};

#[test]
fn test_new_manager() {
    let manager = DatabaseManager::new("data", None).unwrap();

    let (databases, active_id) = manager.list_databases().unwrap();
    assert_eq!(databases.len(), 1);
    assert_eq!(active_id, "default");
}

#[test]
fn test_get_active_core() {
    let mut manager = DatabaseManager::new("data", None).unwrap();

    let core = manager.active_core().unwrap();
    assert_eq!(core.database_id, "default");
    assert_eq!(manager.optimize_all(), vec!["default".to_string()]);
}

#[test]
fn test_create_and_switch_database() {
    let mut manager = DatabaseManager::new("data", None).unwrap();

    let info = manager.create_database("Work").unwrap();
    assert_eq!(info.name, "Work");

    manager.set_active(&info.id).unwrap();
    let active = manager.active_id().unwrap();
    assert_eq!(active, info.id);
}

#[test]
fn test_delete_database() {
    let mut manager = DatabaseManager::new("data", None).unwrap();

    let info = manager.create_database("Temp").unwrap();
    manager.delete_database(&info.id).unwrap();

    let (databases, _) = manager.list_databases().unwrap();
    assert_eq!(databases.len(), 1); // only default
}

#[test]
fn test_delete_active_switches_to_default() {
    let mut manager = DatabaseManager::new("data", None).unwrap();

    let info = manager.create_database("Temp").unwrap();
    manager.set_active(&info.id).unwrap();
    manager.delete_database(&info.id).unwrap();

    let active = manager.active_id().unwrap();
    assert_eq!(active, "default");
}

#[test]
fn test_cannot_delete_default() {
    let mut manager = DatabaseManager::new("data", None).unwrap();

    let result = manager.delete_database("default");
    assert!(result.is_err());
}

#[test]
fn deferred_manager_refuses_until_initialized() {
    let mut manager = DatabaseManager::new_deferred("data");
    assert!(!manager.is_initialized());
    assert!(manager.list_databases().is_err());
    assert!(manager.active_core().is_err());
    manager.initialize(Some("pw".to_string()), None).unwrap();
    assert!(manager.is_initialized());
    let again = manager.initialize(None, None).unwrap_err();
    assert_eq!(again.message_text(), "Manager already initialized");
    assert!(manager.is_initialized());
    let (dbs, active) = manager.list_databases().unwrap();
    assert_eq!(dbs.len(), 1);
    assert_eq!(active, "default");
}

#[test]
fn get_core_resolves_names_case_insensitively() {
    let mut manager = DatabaseManager::new("data", None).unwrap();
    let info = manager.create_database("Research").unwrap();
    let handle = manager.get_core("research").unwrap();
    assert_eq!(handle.database_id, info.id);
    let again = manager.get_core("RESEARCH").unwrap();
    assert_eq!(again.database_id, info.id);
}

#[test]
fn set_active_unknown_id_is_not_found() {
    let mut manager = DatabaseManager::new("data", None).unwrap();
    let err = manager.set_active("missing").unwrap_err();
    assert_eq!(err.message_text(), "Database 'missing'");
    assert_eq!(manager.active_id().unwrap(), "default");
}

#[test]
fn rename_and_set_default() {
    let mut manager = DatabaseManager::new("data", None).unwrap();
    let info = manager.create_database("Old").unwrap();
    manager.rename_database(&info.id, "New").unwrap();
    manager.set_default_database(&info.id).unwrap();
    let (dbs, _) = manager.list_databases().unwrap();
    let renamed = dbs.iter().find(|d| d.id == info.id).unwrap();
    assert_eq!(renamed.name, "New");
    assert!(renamed.is_default);
    let old_default = dbs.iter().find(|d| d.id == "default").unwrap();
    assert!(!old_default.is_default);
    assert!(manager.rename_database("missing", "x").is_err());
    // The former default can now be deleted; the new default cannot.
    assert!(manager.delete_database(&info.id).is_err());
    manager.delete_database("default").unwrap();
}

#[test]
fn registry_from_rows_needs_one_default() {
    let row = |id: &str, default: bool| DatabaseInfo {
        id: id.to_string(),
        name: id.to_string(),
        is_default: default,
        created_at: "t".to_string(),
        last_opened_at: None,
    };
    assert!(Registry::from_databases(vec![row("a", true), row("b", false)]).is_ok());
    assert!(Registry::from_databases(vec![row("a", false), row("b", false)]).is_err());
    assert!(Registry::from_databases(vec![row("a", true), row("b", true)]).is_err());
    assert!(Registry::from_databases(vec![row("a", true), row("a", false)]).is_err());
}

fn stored_row(id: &str, name: &str, default: bool) -> DatabaseInfo {
    DatabaseInfo {
        id: id.to_string(),
        name: name.to_string(),
        is_default: default,
        created_at: "2024-01-01T00:00:00Z".to_string(),
        last_opened_at: None,
    }
}

#[test]
fn manager_opens_the_stored_registry_and_activates_its_default() {
    let rows = vec![stored_row("default", "Default", false), stored_row("work", "Work", true)];
    let manager = DatabaseManager::new("data", Some(rows)).unwrap();
    let (dbs, active) = manager.list_databases().unwrap();
    assert_eq!(dbs.len(), 2);
    assert_eq!(active, "work");
    assert_eq!(dbs[1].created_at, "2024-01-01T00:00:00Z");
}

#[test]
fn initialize_opens_the_stored_registry() {
    let mut manager = DatabaseManager::new_deferred("data");
    let bad = vec![stored_row("a", "A", false)];
    let err = manager.initialize(None, Some(bad)).unwrap_err();
    assert_eq!(err.kind(), atomic_core::error::ErrorKind::Validation);
    assert!(!manager.is_initialized());
    let rows = vec![stored_row("a", "A", false), stored_row("b", "B", true)];
    manager.initialize(Some("pw".to_string()), Some(rows)).unwrap();
    assert_eq!(manager.active_id().unwrap(), "b");
    assert_eq!(manager.list_databases().unwrap().0.len(), 2);
}

#[test]
fn get_core_by_name_opens_the_named_database() {
    let mut manager = DatabaseManager::new("data", None).unwrap();
    let info = manager.create_database("Work").unwrap();
    assert_eq!(info.id.chars().count(), 36);
    let handle = manager.get_core("work").unwrap();
    assert_eq!(handle.database_id, info.id);
    assert_eq!(manager.list_databases().unwrap().0.len(), 2);
}
