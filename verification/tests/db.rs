use relic::db::{
    core_migration_plan, module_migration_plan, module_version_after, module_version_key,
    parse_i64_exec, stored_module_version, SchemaTooNew,
};

#[test]
fn migrates_fresh_db_to_latest() {
    assert_eq!(core_migration_plan(0, 3).unwrap(), vec![0, 1, 2]);
    assert_eq!(core_migration_plan(3, 3).unwrap(), Vec::<usize>::new());
}

#[test]
fn newer_schema_is_refused() {
    assert_eq!(
        core_migration_plan(4, 1),
        Err(SchemaTooNew { found: 4, supported: 1 })
    );
}

#[test]
fn applies_migrations_in_order_and_is_idempotent() {
    let plan = module_migration_plan(0, 2);
    assert_eq!(plan, vec![0, 1]);
    assert_eq!(module_version_after(0, 2), 2);
    assert!(module_migration_plan(2, 2).is_empty());
    assert_eq!(module_version_after(2, 2), 2);
}

#[test]
fn appends_new_migrations_without_touching_settled_ones() {
    assert_eq!(module_migration_plan(2, 3), vec![2]);
    assert_eq!(module_version_after(2, 3), 3);
    assert!(module_migration_plan(5, 3).is_empty());
    assert_eq!(module_version_after(5, 3), 3);
}

#[test]
fn different_modules_track_versions_independently() {
    assert_eq!(module_version_key("scraper"), "module.scraper.schema_version");
    assert_eq!(module_version_key("ra"), "module.ra.schema_version");
}

#[test]
fn stored_versions_parse_like_i64() {
    assert_eq!(stored_module_version(Some("7")), 7);
    assert_eq!(stored_module_version(Some("+3")), 3);
    assert_eq!(stored_module_version(Some("x")), 0);
    assert_eq!(stored_module_version(None), 0);
    let p = |s: &str| parse_i64_exec(&s.chars().collect::<Vec<_>>());
    assert_eq!(p("-9223372036854775808"), Some(i64::MIN));
    assert_eq!(p("9223372036854775807"), Some(i64::MAX));
    assert_eq!(p("9223372036854775808"), None);
    assert_eq!(p("-"), None);
    assert_eq!(p(" 1"), None);
}
