use service::schema::{down, up, Column, ColumnType, ReferentialAction, Table, FOREIGN_KEY_NAME};

#[test]
fn up_creates_three_tables_in_order() {
    let tables = up();
    let names: Vec<&str> = tables.iter().map(|t| t.table.name()).collect();
    assert_eq!(names, vec!["users", "sessions", "password_auth"]);
    let users = &tables[0];
    let cols: Vec<&str> = users.columns.iter().map(|c| c.column.name()).collect();
    assert_eq!(cols, vec!["id", "username", "display_name", "created"]);
    assert!(users.columns[0].primary_key && users.columns[0].auto_increment);
    assert!(users.columns[1].unique_key);
    assert_eq!(users.columns[3].column_type, ColumnType::TimestampWithTimeZone);
    assert!(users.foreign_keys.is_empty());
    let auth = &tables[2];
    assert_eq!(auth.columns[0].column, Column::UserId);
    assert!(auth.columns[0].primary_key && !auth.columns[0].auto_increment);
    assert_eq!(auth.columns[2].column_type, ColumnType::Boolean);
    assert_eq!(auth.foreign_keys.len(), 1);
    assert_eq!(auth.foreign_keys[0].to_table, Table::Users);
    assert_eq!(auth.foreign_keys[0].name, "fk_user");
    assert_eq!(auth.foreign_keys[0].on_update, ReferentialAction::Cascade);
    assert_eq!(auth.foreign_keys[0].on_delete, ReferentialAction::Cascade);
    let sessions = &tables[1];
    assert_eq!(sessions.foreign_keys.len(), 1);
    assert_eq!(sessions.foreign_keys[0].from_column, Column::UserId);
    assert_eq!(sessions.foreign_keys[0].to_column, Column::Id);
    assert_eq!(sessions.foreign_keys[0].on_delete, ReferentialAction::Cascade);
    assert!(tables.iter().all(|t| t.if_not_exists));
    assert_eq!(FOREIGN_KEY_NAME, "fk_user");
}

#[test]
fn down_drops_in_reverse_order() {
    assert_eq!(down(), vec![Table::PasswordAuth, Table::Sessions, Table::Users]);
}
