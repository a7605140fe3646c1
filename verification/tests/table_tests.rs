use tables::column::{Column, ColumnKind, NullableColumn, Value};
use tables::table::Table;

fn s(x: &str) -> String {
    x.to_string()
}

fn sample() -> Table {
    Table::new(
        vec![s("id"), s("full name"), s("score")],
        vec![
            Column::I64(vec![1, -20]),
            Column::Str(vec![s("ann"), s("bob")]),
            Column::F64(vec![s("1.5"), s("2")]),
        ],
    )
    .unwrap()
}

#[test]
fn new_rejects_differing_names_and_columns() {
    let r = Table::new(vec![s("a"), s("b")], vec![Column::I64(vec![1])]);
    assert_eq!(r.unwrap_err(), "Differing number of names and columns");
}

#[test]
fn new_rejects_no_columns() {
    let r = Table::new(vec![], vec![]);
    assert_eq!(r.unwrap_err(), "No column zero");
}

#[test]
fn new_rejects_row_mismatch() {
    let r = Table::new(
        vec![s("a"), s("b")],
        vec![Column::I64(vec![1, 2]), Column::I64(vec![3])],
    );
    assert_eq!(r.unwrap_err(), "Number of rows mismatch at table creation");
}

#[test]
fn shape_names_and_columns() {
    let t = sample();
    assert_eq!(t.shape(), (2, 3));
    assert_eq!(t.names(), vec![s("id"), s("full name"), s("score")]);
    assert!(t.get_column(3).is_none());
    assert_eq!(t.get_column(1).unwrap().kind(), ColumnKind::Text);
    assert_eq!(t.get_column(0).unwrap().len(), 2);
}

#[test]
fn text_rows_header_then_rows() {
    let t = sample();
    assert_eq!(
        t.text_rows(),
        vec![
            vec![s("id"), s("full name"), s("score")],
            vec![s("1"), s("ann"), s("1.5")],
            vec![s("-20"), s("bob"), s("2")],
        ]
    );
}

#[test]
fn to_string_writes_csv() {
    let t = sample();
    assert_eq!(t.to_string(), "id,full name,score\n1,ann,1.5\n-20,bob,2\n");
}

#[test]
fn sql_types_of_columns() {
    let t = Table::new(
        vec![s("a"), s("b"), s("c"), s("d")],
        vec![
            Column::I64(vec![]),
            Column::F64(vec![]),
            Column::Str(vec![]),
            Column::Bytes(vec![]),
        ],
    )
    .unwrap();
    assert_eq!(t.sql_types(), vec![s("integer"), s("real"), s("text"), s("blob")]);
}

#[test]
fn sql_table_creation_quotes_names_with_spaces() {
    let t = sample();
    assert_eq!(
        t.sql_table_creation("people").unwrap(),
        "create table people (id integer,\"full name\" text,score real);\n"
    );
}

#[test]
fn sql_table_insertion_quotes_text() {
    let t = sample();
    assert_eq!(
        t.sql_table_insertion("people"),
        "insert into people values (1,'ann',1.5);\ninsert into people values (-20,'bob',2);\n"
    );
}

#[test]
fn sql_table_insertion_single_column() {
    let t = Table::new(vec![s("a")], vec![Column::I64(vec![1, 2])]).unwrap();
    assert_eq!(
        t.sql_table_insertion("t"),
        "insert into t values (1);\ninsert into t values (2);\n"
    );
}

#[test]
fn sql_table_insertion_no_rows_is_empty() {
    let t = Table::new(
        vec![s("a"), s("b")],
        vec![Column::I64(vec![]), Column::Str(vec![])],
    )
    .unwrap();
    assert_eq!(t.sql_table_insertion("t"), "");
}

#[test]
fn binary_columns_hold_null() {
    let t = Table::new(
        vec![s("k"), s("data")],
        vec![Column::I64(vec![7]), Column::Bytes(vec![vec![1, 2, 3]])],
    )
    .unwrap();
    assert_eq!(
        t.sql_string("blobs").unwrap(),
        "create table blobs (k integer,data blob);\ninsert into blobs values (7,NULL);\n"
    );
}

#[test]
fn sql_string_fails_without_name() {
    let t = sample();
    assert!(t.sql_string("").is_none());
}

#[test]
fn sql_string_is_creation_then_insertion() {
    let t = sample();
    let mut expected = t.sql_table_creation("p").unwrap();
    expected.push_str(&t.sql_table_insertion("p"));
    assert_eq!(t.sql_string("p").unwrap(), expected);
}

#[test]
fn flatten_gives_rows_of_values() {
    let t = Table::new(
        vec![s("a"), s("b")],
        vec![
            Column::I64(vec![1, 2]),
            Column::Nullable(NullableColumn::Str(vec![Some(s("x")), None])),
        ],
    )
    .unwrap();
    let rows = t.flatten().unwrap();
    assert_eq!(rows.len(), 2);
    assert!(matches!(rows[0][0], Value::Integer(1)));
    assert!(matches!(&rows[0][1], Value::Text(x) if x == "x"));
    assert!(matches!(rows[1][0], Value::Integer(2)));
    assert!(matches!(rows[1][1], Value::Null));
}

#[test]
fn nullable_shows_null() {
    let t = Table::new(
        vec![s("a")],
        vec![Column::Nullable(NullableColumn::I64(vec![Some(3), None]))],
    )
    .unwrap();
    assert_eq!(t.to_string(), "a\n3\nNULL\n");
}

#[test]
fn to_column_without_nulls_is_plain() {
    let c = NullableColumn::I64(vec![Some(1), Some(2)]).to_column();
    assert!(matches!(c, Column::I64(ref v) if *v == vec![1, 2]));
    let c = NullableColumn::Str(vec![Some(s("a")), None]).to_column();
    assert!(matches!(c, Column::Nullable(_)));
}

#[test]
fn display_content_of_columns() {
    assert_eq!(Column::I64(vec![0, 12, -7]).display_content(), vec![s("0"), s("12"), s("-7")]);
    assert_eq!(Column::Bytes(vec![vec![9]]).display_content(), vec![s("NULL")]);
    assert_eq!(Column::I64(vec![i64::MIN]).display_content(), vec![s("-9223372036854775808")]);
}

#[test]
fn clone_keeps_contents() {
    let t = Table::new(
        vec![s("a"), s("b"), s("c")],
        vec![
            Column::Bytes(vec![vec![1]]),
            Column::Nullable(NullableColumn::F64(vec![None])),
            Column::F64(vec![s("2.5")]),
        ],
    )
    .unwrap();
    let c = t.clone();
    assert_eq!(c.text_rows(), t.text_rows());
    assert_eq!(c.sql_types(), t.sql_types());
}
