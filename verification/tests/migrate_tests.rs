use shortlink::migrate::{migration_steps, version_after_migrations, SCHEMA_VERSION};

#[test]
fn a_bare_store_gets_the_links_table() {
    let steps = migration_steps(0);
    assert_eq!(steps.len(), 1);
    assert_eq!(steps[0].to_version, SCHEMA_VERSION);
    assert_eq!(
        steps[0].sql,
        "CREATE TABLE links (short_url TEXT PRIMARY KEY, target_url TEXT, comment TEXT DEFAULT '', active BOOLEAN DEFAULT 1)"
    );
}

#[test]
fn a_current_store_needs_no_steps() {
    assert!(migration_steps(1).is_empty());
    assert!(migration_steps(7).is_empty());
}

#[test]
fn the_recorded_version_is_stable_under_reruns() {
    assert_eq!(version_after_migrations(0), 1);
    assert_eq!(version_after_migrations(version_after_migrations(0)), 1);
    assert_eq!(version_after_migrations(1), 1);
    assert_eq!(version_after_migrations(5), 5);
}
