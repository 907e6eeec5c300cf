use adbtools::sqlite::{
    build_select_sql, clamp_limit, columns_sql, db_local_name, invalid_table_error,
    is_valid_ident, row_cell_to_string, safe_key, search_term, sqlite_cache_key, CellValue,
};

#[test]
fn table_names() {
    assert!(is_valid_ident("users"));
    assert!(is_valid_ident("user_2"));
    assert!(is_valid_ident("表"));
    assert!(!is_valid_ident(""));
    assert!(!is_valid_ident("user-table"));
    assert!(!is_valid_ident("a\"; DROP TABLE x; --"));
    assert_eq!(invalid_table_error("a b"), "非法表名: a b");
}

#[test]
fn limits_are_clamped() {
    assert_eq!(clamp_limit(0), 1);
    assert_eq!(clamp_limit(1), 1);
    assert_eq!(clamp_limit(50), 50);
    assert_eq!(clamp_limit(1000), 1000);
    assert_eq!(clamp_limit(5000), 1000);
}

#[test]
fn search_terms() {
    assert_eq!(search_term(Some("  key ".to_string())).as_deref(), Some("key"));
    assert_eq!(search_term(Some("   ".to_string())), None);
    assert_eq!(search_term(None), None);
}

#[test]
fn statements() {
    assert_eq!(columns_sql("users"), "SELECT * FROM \"users\" LIMIT 0");
    let (sql, pattern) = build_select_sql("users", &Some("bob".to_string()), &Some("id".to_string()), 50, 100);
    assert_eq!(sql, "SELECT * FROM \"users\" WHERE CAST(\"id\" AS TEXT) LIKE ?1 LIMIT 50 OFFSET 100");
    assert_eq!(pattern.as_deref(), Some("%bob%"));
    let (sql, pattern) = build_select_sql("users", &None, &Some("id".to_string()), 1, 0);
    assert_eq!(sql, "SELECT * FROM \"users\" LIMIT 1 OFFSET 0");
    assert_eq!(pattern, None);
    let (sql, _) = build_select_sql("t", &Some("q".to_string()), &None, 10, 5);
    assert_eq!(sql, "SELECT * FROM \"t\" LIMIT 10 OFFSET 5");
}

#[test]
fn cells() {
    assert_eq!(row_cell_to_string(&CellValue::Null), "");
    assert_eq!(row_cell_to_string(&CellValue::Integer(-42)), "-42");
    assert_eq!(row_cell_to_string(&CellValue::Real((1.5f64).to_string())), "1.5");
    assert_eq!(row_cell_to_string(&CellValue::Text(b"hi \xff".to_vec())), "hi \u{fffd}");
    assert_eq!(row_cell_to_string(&CellValue::Blob(16)), "<blob 16 bytes>");
}

#[test]
fn local_copy_names() {
    let key = sqlite_cache_key("query", "emulator-5554", "com.x", "databases/app.db");
    assert_eq!(key, "query-emulator-5554-com.x-databases/app.db");
    assert_eq!(safe_key(&key), "query_emulator_5554_com_x_databases_app_db");
    assert_eq!(db_local_name(&key, "databases/app.db", ""), "query_emulator_5554_com_x_databases_app_db_app.db");
    assert_eq!(db_local_name("k", "databases/app.db", "-wal"), "k_app.db-wal");
    assert_eq!(db_local_name("k", "..", "-shm"), "k_db-shm");
}

#[test]
fn search_text_is_bound_not_spliced() {
    let col = Some("name".to_string());
    let (a, pa) = build_select_sql("users", &Some("x\" OR 1=1 --".to_string()), &col, 10, 0);
    let (b, pb) = build_select_sql("users", &Some("bob".to_string()), &col, 10, 0);
    assert_eq!(a, b);
    assert_eq!(pa.as_deref(), Some("%x\" OR 1=1 --%"));
    assert_eq!(pb.as_deref(), Some("%bob%"));
}
