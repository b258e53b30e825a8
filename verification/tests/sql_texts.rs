use pg_migrate::ident::check_table_name;
use pg_migrate::sql::present_from_count;
use pg_migrate::Migration;

#[test]
fn create_table_text_is_exact() {
    let m = Migration::new("migrations".to_string());
    assert_eq!(
        m.create_table_sql(),
        "CREATE TABLE IF NOT EXISTS migrations ( name TEXT NOT NULL PRIMARY KEY, executed_at TIMESTAMP NOT NULL DEFAULT NOW() )"
    );
}

#[test]
fn insert_text_is_exact() {
    let m = Migration::new("migrations".to_string());
    assert_eq!(m.insert_sql(), "INSERT INTO migrations (name) VALUES ($1)");
}

#[test]
fn delete_text_is_exact() {
    let m = Migration::new("schema_log".to_string());
    assert_eq!(m.delete_sql(), "DELETE FROM schema_log WHERE name = $1");
}

#[test]
fn exists_text_is_exact() {
    let m = Migration::new("migrations".to_string());
    assert_eq!(m.exists_sql(), "SELECT COUNT(*) FROM migrations WHERE name = $1");
}

#[test]
fn table_str_returns_the_configured_name() {
    let m = Migration::new("table_name".to_string());
    assert_eq!(m.table_str(), "table_name");
}

#[test]
fn table_names_are_held_to_identifier_shape() {
    assert!(check_table_name("migrations"));
    assert!(check_table_name("table_name"));
    assert!(check_table_name("_m2"));
    assert!(check_table_name("M2_x"));
    assert!(!check_table_name(""));
    assert!(!check_table_name("2fast"));
    assert!(!check_table_name("bad-name"));
    assert!(!check_table_name("bad name"));
    assert!(!check_table_name("m;DROP TABLE users"));
    assert!(!check_table_name("caf\u{e9}"));
}

#[test]
fn presence_means_positive_count() {
    assert!(!present_from_count(0));
    assert!(present_from_count(1));
    assert!(present_from_count(5));
    assert!(!present_from_count(-3));
}
