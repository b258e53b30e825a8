use pg_migrate::run::{Action, Event, Run};
use pg_migrate::sql::present_from_count;
use pg_migrate::Migration;

/// An in-memory stand-in for the database: a ledger of applied names, a
/// log of executed script texts, and optionally one script text that fails.
struct FakeDb {
    ledger: Vec<String>,
    executed: Vec<String>,
    table_created: bool,
    fail_on_script: Option<String>,
}

impl FakeDb {
    fn new() -> FakeDb {
        FakeDb { ledger: Vec::new(), executed: Vec::new(), table_created: false, fail_on_script: None }
    }
}

/// Performs each action the run asks for and reports the outcome, exactly
/// as a caller over a real connection would. Returns true when the run
/// finished, false when it stopped on an error.
fn drive(m: &Migration, run: &mut Run, scripts: &Vec<(String, String)>, db: &mut FakeDb) -> bool {
    loop {
        match run.action(m, scripts) {
            Action::Finished => return true,
            Action::Stopped => return false,
            Action::Batch(sql) => {
                if sql.starts_with("CREATE TABLE IF NOT EXISTS ") {
                    db.table_created = true;
                    run.advance(Event::Completed);
                } else if db.fail_on_script.as_deref() == Some(sql.as_str()) {
                    run.advance(Event::DbError);
                } else {
                    db.executed.push(sql);
                    run.advance(Event::Completed);
                }
            }
            Action::Execute(sql, name) => {
                if sql.starts_with("INSERT INTO ") {
                    if db.ledger.contains(&name) {
                        // primary-key violation
                        run.advance(Event::DbError);
                    } else {
                        db.ledger.push(name);
                        run.advance(Event::Completed);
                    }
                } else {
                    // DELETE: removing an absent name is a no-op
                    db.ledger.retain(|x| x != &name);
                    run.advance(Event::Completed);
                }
            }
            Action::QueryOne(_sql, name) => {
                let count = db.ledger.iter().filter(|x| **x == name).count() as i64;
                run.advance(Event::Found(present_from_count(count)));
            }
        }
    }
}

fn two_scripts() -> Vec<(String, String)> {
    vec![
        ("0001-users".to_string(), "CREATE TABLE users ( id INT )".to_string()),
        ("0002-pets".to_string(), "CREATE TABLE pets ( id INT )".to_string()),
    ]
}

fn two_drop_scripts() -> Vec<(String, String)> {
    vec![
        ("0002-pets".to_string(), "DROP TABLE pets".to_string()),
        ("0001-users".to_string(), "DROP TABLE users".to_string()),
    ]
}

#[test]
fn up_applies_fresh_sequence() {
    let m = Migration::new("migrations".to_string());
    let scripts = two_scripts();
    let mut db = FakeDb::new();
    let mut run = m.up(&scripts);
    assert!(drive(&m, &mut run, &scripts, &mut db));
    assert!(run.is_finished());
    assert!(db.table_created);
    assert_eq!(db.ledger, vec!["0001-users".to_string(), "0002-pets".to_string()]);
    assert_eq!(
        db.executed,
        vec!["CREATE TABLE users ( id INT )".to_string(), "CREATE TABLE pets ( id INT )".to_string()]
    );
}

#[test]
fn round_trip_up_then_down_reversed() {
    let m = Migration::new("migrations".to_string());
    let ups = two_scripts();
    let downs = two_drop_scripts();
    let mut db = FakeDb::new();
    let mut up_run = m.up(&ups);
    assert!(drive(&m, &mut up_run, &ups, &mut db));
    assert_eq!(db.ledger.len(), 2);
    let mut down_run = m.down(&downs);
    assert!(drive(&m, &mut down_run, &downs, &mut db));
    assert!(down_run.is_finished());
    assert!(db.ledger.is_empty());
    assert_eq!(
        db.executed,
        vec![
            "CREATE TABLE users ( id INT )".to_string(),
            "CREATE TABLE pets ( id INT )".to_string(),
            "DROP TABLE pets".to_string(),
            "DROP TABLE users".to_string(),
        ]
    );
}

#[test]
fn up_twice_runs_nothing_the_second_time() {
    let m = Migration::new("migrations".to_string());
    let scripts = two_scripts();
    let mut db = FakeDb::new();
    let mut first = m.up(&scripts);
    assert!(drive(&m, &mut first, &scripts, &mut db));
    let ledger_after_first = db.ledger.clone();
    let executed_after_first = db.executed.clone();
    let mut second = m.up(&scripts);
    assert!(drive(&m, &mut second, &scripts, &mut db));
    assert_eq!(db.ledger, ledger_after_first);
    assert_eq!(db.executed, executed_after_first);
}

#[test]
fn down_twice_runs_nothing_the_second_time() {
    let m = Migration::new("migrations".to_string());
    let ups = two_scripts();
    let downs = two_drop_scripts();
    let mut db = FakeDb::new();
    let mut up_run = m.up(&ups);
    assert!(drive(&m, &mut up_run, &ups, &mut db));
    let mut first = m.down(&downs);
    assert!(drive(&m, &mut first, &downs, &mut db));
    let executed_after_first = db.executed.clone();
    let mut second = m.down(&downs);
    assert!(drive(&m, &mut second, &downs, &mut db));
    assert!(db.ledger.is_empty());
    assert_eq!(db.executed, executed_after_first);
}

#[test]
fn scripts_execute_in_list_order() {
    let m = Migration::new("migrations".to_string());
    let scripts = vec![
        ("a".to_string(), "first".to_string()),
        ("b".to_string(), "second".to_string()),
        ("c".to_string(), "third".to_string()),
    ];
    let mut db = FakeDb::new();
    let mut run = m.up(&scripts);
    assert!(drive(&m, &mut run, &scripts, &mut db));
    assert_eq!(
        db.executed,
        vec!["first".to_string(), "second".to_string(), "third".to_string()]
    );
}

#[test]
fn partial_failure_leaves_prefix_and_resumes() {
    let m = Migration::new("migrations".to_string());
    let scripts = vec![
        ("a".to_string(), "first".to_string()),
        ("b".to_string(), "second".to_string()),
        ("c".to_string(), "third".to_string()),
    ];
    let mut db = FakeDb::new();
    db.fail_on_script = Some("second".to_string());
    let mut run = m.up(&scripts);
    assert!(!drive(&m, &mut run, &scripts, &mut db));
    assert!(run.is_stopped());
    // entries before the failing one are recorded, the failing one is not
    assert_eq!(db.ledger, vec!["a".to_string()]);
    assert_eq!(db.executed, vec!["first".to_string()]);
    // the fault clears; a re-run resumes at the failed entry
    db.fail_on_script = None;
    let mut rerun = m.up(&scripts);
    assert!(drive(&m, &mut rerun, &scripts, &mut db));
    assert_eq!(db.ledger, vec!["a".to_string(), "b".to_string(), "c".to_string()]);
    assert_eq!(
        db.executed,
        vec!["first".to_string(), "second".to_string(), "third".to_string()]
    );
}

#[test]
fn up_skips_entries_already_present() {
    let m = Migration::new("migrations".to_string());
    let scripts = two_scripts();
    let mut db = FakeDb::new();
    db.ledger.push("0001-users".to_string());
    let mut run = m.up(&scripts);
    // the fake database reports an error on a duplicate insert, so
    // finishing shows no insert was attempted for the present entry
    assert!(drive(&m, &mut run, &scripts, &mut db));
    assert_eq!(db.executed, vec!["CREATE TABLE pets ( id INT )".to_string()]);
    assert_eq!(db.ledger, vec!["0001-users".to_string(), "0002-pets".to_string()]);
}

#[test]
fn down_skips_entries_already_absent() {
    let m = Migration::new("migrations".to_string());
    let downs = two_drop_scripts();
    let mut db = FakeDb::new();
    let mut run = m.down(&downs);
    assert!(drive(&m, &mut run, &downs, &mut db));
    assert!(db.executed.is_empty());
    assert!(db.ledger.is_empty());
}

#[test]
fn duplicate_names_apply_once() {
    let m = Migration::new("migrations".to_string());
    let scripts = vec![
        ("same".to_string(), "once".to_string()),
        ("same".to_string(), "twice".to_string()),
    ];
    let mut db = FakeDb::new();
    let mut run = m.up(&scripts);
    assert!(drive(&m, &mut run, &scripts, &mut db));
    assert_eq!(db.executed, vec!["once".to_string()]);
    assert_eq!(db.ledger, vec!["same".to_string()]);
}

#[test]
fn empty_sequence_only_ensures_table() {
    let m = Migration::new("migrations".to_string());
    let scripts: Vec<(String, String)> = Vec::new();
    let mut db = FakeDb::new();
    let mut run = m.up(&scripts);
    assert!(drive(&m, &mut run, &scripts, &mut db));
    assert!(db.table_created);
    assert!(db.executed.is_empty());
    assert!(db.ledger.is_empty());
}

#[test]
fn table_creation_failure_stops_before_any_entry() {
    let m = Migration::new("migrations".to_string());
    let scripts = two_scripts();
    let mut db = FakeDb::new();
    let mut run = m.up(&scripts);
    // answer the very first action (the table creation) with an error
    match run.action(&m, &scripts) {
        Action::Batch(sql) => {
            assert!(sql.starts_with("CREATE TABLE IF NOT EXISTS "));
            run.advance(Event::DbError);
        }
        _ => panic!("the first action must ensure the ledger table"),
    }
    assert!(run.is_stopped());
    assert!(matches!(run.action(&m, &scripts), Action::Stopped));
    assert!(db.ledger.is_empty());
    assert!(db.executed.is_empty());
}
