use tables::column::{Column, ColumnKind, NullableColumn, Storage, Value};
use tables::sqlite::{build_table_from_sqlite, sqlite_types_readable, value_fits, decl_type_kind, SqliteColumn};

fn s(x: &str) -> String {
    x.to_string()
}

#[test]
fn sqlite_column_types() {
    assert!(matches!(SqliteColumn::new("integer"), Ok(SqliteColumn::I64(_))));
    assert!(matches!(SqliteColumn::new("real"), Ok(SqliteColumn::F64(_))));
    assert!(matches!(SqliteColumn::new("text"), Ok(SqliteColumn::Str(_))));
    assert!(matches!(SqliteColumn::new("blob"), Ok(SqliteColumn::Bytes(_))));
    assert_eq!(SqliteColumn::new("varchar").unwrap_err(), "Invalid column type");
}

#[test]
fn try_append_keeps_to_the_kind() {
    let mut c = SqliteColumn::new("integer").unwrap();
    assert!(c.try_append(Value::Integer(3)).is_ok());
    assert!(c.try_append(Value::Null).is_ok());
    assert_eq!(c.try_append(Value::Text(s("3"))).unwrap_err(), "Invalid type");
    assert!(matches!(c, SqliteColumn::I64(ref v) if *v == vec![Some(3), None]));
    let n = NullableColumn::from(c);
    assert!(matches!(n, NullableColumn::I64(ref v) if *v == vec![Some(3), None]));
}

#[test]
fn build_table_from_rows() {
    let t = build_table_from_sqlite(
        vec![s("id"), s("name")],
        vec![Some(s("integer")), Some(s("text"))],
        vec![
            vec![Value::Integer(1), Value::Text(s("ann"))],
            vec![Value::Integer(2), Value::Null],
        ],
    )
    .unwrap();
    assert_eq!(t.shape(), (2, 2));
    assert!(matches!(t.get_column(0).unwrap(), Column::I64(v) if *v == vec![1, 2]));
    assert!(matches!(t.get_column(1).unwrap(), Column::Nullable(NullableColumn::Str(_))));
    assert_eq!(t.get_column(1).unwrap().kind(), ColumnKind::Text);
    assert_eq!(t.to_string(), "id,name\n1,ann\n2,NULL\n");
}

#[test]
fn build_table_errors() {
    assert_eq!(
        build_table_from_sqlite(vec![], vec![], vec![]).unwrap_err(),
        "No columns available"
    );
    assert_eq!(
        build_table_from_sqlite(vec![s("a"), s("b")], vec![None, Some(s("date"))], vec![])
            .unwrap_err(),
        "Invalid column type"
    );
    assert_eq!(
        build_table_from_sqlite(
            vec![s("a")],
            vec![Some(s("real"))],
            vec![vec![Value::Real(s("1.5"))], vec![Value::Integer(1)]],
        )
        .unwrap_err(),
        "Invalid type"
    );
}

#[test]
fn build_table_without_rows() {
    let t = build_table_from_sqlite(vec![s("b")], vec![Some(s("blob"))], vec![]).unwrap();
    assert_eq!(t.shape(), (0, 1));
    assert_eq!(t.sql_types(), vec![s("blob")]);
}

#[test]
fn missing_type_with_misfit_first_row() {
    let types = vec![Some(s("integer")), None];
    let rows = vec![vec![Value::Text(s("x")), Value::Integer(1)]];
    assert!(sqlite_types_readable(&types, &rows));
    assert_eq!(
        build_table_from_sqlite(vec![s("a"), s("b")], types, rows).unwrap_err(),
        "Invalid type"
    );
}

#[test]
fn missing_type_readability() {
    let types = vec![Some(s("integer")), None];
    assert!(!sqlite_types_readable(&types, &vec![vec![Value::Integer(1), Value::Text(s("y"))]]));
    assert!(!sqlite_types_readable(&types, &vec![]));
    assert!(sqlite_types_readable(&vec![None, Some(s("date"))], &vec![]));
    assert!(sqlite_types_readable(&vec![Some(s("text"))], &vec![]));
}

#[test]
fn kinds_and_fits() {
    assert_eq!(decl_type_kind("real"), Some(ColumnKind::Real));
    assert_eq!(decl_type_kind("INTEGER"), None);
    assert!(value_fits(ColumnKind::Blob, &Value::Null));
    assert!(!value_fits(ColumnKind::Blob, &Value::Integer(1)));
}

#[test]
fn sqlite_columns_keep_full_width_storage() {
    let t = build_table_from_sqlite(
        vec![s("n"), s("x"), s("t"), s("b")],
        vec![Some(s("integer")), Some(s("real")), Some(s("text")), Some(s("blob"))],
        vec![vec![Value::Integer(5), Value::Real(s("2.5")), Value::Null, Value::Blob(vec![1])]],
    )
    .unwrap();
    assert_eq!(t.get_column(0).unwrap().storage(), Storage::I64);
    assert!(matches!(t.get_column(1).unwrap(), Column::F64(v) if *v == vec![s("2.5")]));
    assert_eq!(t.get_column(1).unwrap().storage(), Storage::F64);
    assert_eq!(t.get_column(2).unwrap().storage(), Storage::Text);
    assert_eq!(t.get_column(3).unwrap().storage(), Storage::Bytes);
}
