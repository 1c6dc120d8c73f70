use package_manager::migration::{
    all_migrations, last_version, pending_migrations, sql_statements, version_from_row, Migrations,
};

#[test]
fn migrations_are_listed_in_order() {
    let defs = all_migrations();
    let versions: Vec<u32> = defs.iter().map(|m| m.version).collect();
    assert_eq!(versions, vec![1, 2, 3, 4, 5, 6, 7]);
    assert_eq!(defs[0].name, "init");
    assert_eq!(defs[6].name, "package_name");
    assert_eq!(last_version(&defs), 7);
    assert_eq!(last_version(&Vec::new()), 0);
}

#[test]
fn pending_migrations_are_those_above_the_current_version() {
    let defs = all_migrations();
    let from_start: Vec<u32> = pending_migrations(&defs, 0).iter().map(|m| m.version).collect();
    assert_eq!(from_start, vec![1, 2, 3, 4, 5, 6, 7]);
    let from_five: Vec<u32> = pending_migrations(&defs, 5).iter().map(|m| m.version).collect();
    assert_eq!(from_five, vec![6, 7]);
    assert!(pending_migrations(&defs, 7).is_empty());
    assert!(pending_migrations(&defs, 100).is_empty());
}

#[test]
fn migration_state_reports_the_total() {
    let fresh = Migrations::at_version(0);
    assert_eq!(fresh.current, 0);
    assert_eq!(fresh.total, 7);
    let done = Migrations::at_version(version_from_row(Some(7)));
    assert_eq!(done.current, done.total);
}

#[test]
fn version_from_row_conversions() {
    assert_eq!(version_from_row(None), 0);
    assert_eq!(version_from_row(Some(3)), 3);
    assert_eq!(version_from_row(Some(-1)), u32::MAX);
}

#[test]
fn sql_statements_split_trim_and_drop_empty() {
    let sql = "CREATE TABLE a (x INT);\n  INSERT INTO a VALUES (1) ;\n\n; \t;SELECT 1";
    assert_eq!(
        sql_statements(sql),
        vec!["CREATE TABLE a (x INT)", "INSERT INTO a VALUES (1)", "SELECT 1"]
    );
    assert!(sql_statements("").is_empty());
    assert!(sql_statements(" ; ;\n").is_empty());
    assert_eq!(sql_statements("SELECT 1"), vec!["SELECT 1"]);
}

#[test]
fn sql_statements_agree_with_std_split_and_trim() {
    let samples = [
        "a;b;c",
        "  a ; b\u{a0};\u{3000}c\u{2028}",
        ";;;",
        "x\n\r\t;\u{85}y",
        "caf\u{e9} ; na\u{ef}ve",
    ];
    for sql in samples {
        let expected: Vec<&str> = sql.split(';').map(|s| s.trim()).filter(|s| !s.is_empty()).collect();
        assert_eq!(sql_statements(sql), expected);
    }
}
