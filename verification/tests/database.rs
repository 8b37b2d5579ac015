use xamppify::database::{
    connection_target, export_database, is_row_query, quote_identifier, select_result,
    show_create_query, show_tables_query, statement_result, user_databases,
};

#[test]
fn quotes_mysql_identifiers() {
    assert_eq!(quote_identifier("client`data"), "`client``data`");
}

#[test]
fn builds_statements() {
    assert_eq!(show_tables_query("shop"), "SHOW TABLES FROM `shop`");
    assert_eq!(show_create_query("a`b", "t"), "SHOW CREATE TABLE `a``b`.`t`");
}

#[test]
fn hides_system_schemas() {
    let names = vec!["mysql", "sys", "shop", "information_schema", "performance_schema"]
        .into_iter()
        .map(String::from)
        .collect();
    assert_eq!(user_databases(names), ["mysql", "shop"]);
}

#[test]
fn recognises_row_queries() {
    assert!(is_row_query("  select * from t"));
    assert!(is_row_query("SHOW TABLES"));
    assert!(is_row_query("describe t"));
    assert!(is_row_query("explain select 1"));
    assert!(!is_row_query("update t set a = 1"));
}

#[test]
fn shapes_results() {
    let rows = vec![vec![Some("1".to_string()), None], vec![Some("2".to_string())]];
    let r = select_result(vec!["id".to_string(), "name".to_string()], &rows);
    assert_eq!(r.columns, ["id", "name"]);
    assert_eq!(r.rows[0], [("id".to_string(), "1".to_string()), ("name".to_string(), String::new())]);
    assert_eq!(r.rows[1][1], ("name".to_string(), String::new()));
    let none = select_result(vec!["id".to_string()], &Vec::new());
    assert!(none.columns.is_empty());
    assert_eq!(statement_result(3).affected_rows, 3);
    assert_eq!(connection_target(None, None), ("127.0.0.1".to_string(), 3306));
}

#[test]
fn exports_create_statements() {
    let s = export_database("shop", &vec![Some("CREATE TABLE a ()".to_string()), None]);
    assert_eq!(s, "-- Export of database: shop\n\nCREATE TABLE a ();\n\n");
}
