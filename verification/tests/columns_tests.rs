use tables::column::{Column, ColumnKind, DecimalValue};
use tables::columns::Columns;
use tables::table::Table;

fn s(x: &str) -> String {
    x.to_string()
}

#[test]
fn push_extend_and_get() {
    let a = Column::I64(vec![1, 2]);
    let b = Column::Str(vec![s("x")]);
    let c = Column::Bytes(vec![]);
    let first = Columns::new().take_and_push("a", &a).take_and_push("b", &b);
    let second = Columns::new().take_and_push("c", &c);
    let all = first.take_and_extend(second);
    assert_eq!(all.names(), &["a", "b", "c"]);
    assert_eq!(all.get(0).unwrap().len(), 2);
    assert_eq!(all.get(1).unwrap().len(), 1);
    assert!(all.get(3).is_none());
}

#[test]
fn try_access_by_type() {
    let a = Column::I64(vec![1, 2]);
    let b = Column::Str(vec![s("x")]);
    let cols = Columns::new().take_and_push("a", &a).take_and_push("b", &b);
    assert_eq!(cols.try_access::<i64>(0), Some(vec![1, 2]));
    assert_eq!(cols.try_access::<String>(0), None);
    assert_eq!(cols.try_access::<String>(1), Some(vec![s("x")]));
    assert_eq!(cols.try_access::<i64>(5), None);
    assert_eq!(cols.try_access::<Vec<u8>>(1), None);
}

#[test]
fn get_columns_passes_over_missing_indices() {
    let t = Table::new(
        vec![s("a"), s("b"), s("c")],
        vec![Column::I64(vec![1]), Column::I64(vec![2]), Column::I64(vec![3])],
    )
    .unwrap();
    let cols = t.get_columns(&[2, 7, 0, 2]);
    assert_eq!(cols.names(), &["c", "a", "c"]);
    assert_eq!(cols.try_access::<i64>(1), Some(vec![1]));
}

#[test]
fn integer_widths_read_as_their_own_type() {
    let a = Column::I16(vec![-3, 7]);
    let b = Column::I32(vec![100000]);
    let c = Column::U32(vec![4000000000]);
    let cols = Columns::new().take_and_push("a", &a).take_and_push("b", &b).take_and_push("c", &c);
    assert_eq!(cols.try_access::<i16>(0), Some(vec![-3i16, 7]));
    assert_eq!(cols.try_access::<i64>(0), None);
    assert_eq!(cols.try_access::<i32>(0), None);
    assert_eq!(cols.try_access::<i32>(1), Some(vec![100000i32]));
    assert_eq!(cols.try_access::<u32>(2), Some(vec![4000000000u32]));
    assert_eq!(cols.try_access::<i16>(2), None);
}

#[test]
fn integer_widths_show_as_integers() {
    let a = Column::I16(vec![-3, 7]);
    assert_eq!(a.display_content(), vec![s("-3"), s("7")]);
    assert_eq!(a.kind(), ColumnKind::Integer);
    assert_eq!(a.sqlite3_type(), "integer");
    let c = Column::U32(vec![4000000000]);
    assert_eq!(c.cell_text(0), s("4000000000"));
    let f = Column::F32(vec![s("1.5")]);
    assert_eq!(f.kind(), ColumnKind::Real);
    assert_eq!(f.display_content(), vec![s("1.5")]);
}

#[test]
fn decimal_values() {
    let pi = DecimalValue::new(3141, 3).unwrap();
    assert_eq!(pi.to_text(), s("3.141"));
    assert_eq!(pi.mantissa(), 3141);
    assert_eq!(pi.scale(), 3);
    assert_eq!(DecimalValue::new(-50, 2).unwrap().to_text(), s("-0.50"));
    for (m, sc, t) in [(0i128, 0u32, "0"), (0, 2, "0.00"), (5, 3, "0.005"), (-12345, 2, "-123.45"), (100, 0, "100"), (-7, 1, "-0.7")] {
        assert_eq!(DecimalValue::new(m, sc).unwrap().to_text(), t);
    }
    assert!(DecimalValue::new(1, 29).is_none());
    let max: i128 = (1i128 << 96) - 1;
    assert!(DecimalValue::new(max, 28).is_some());
    assert!(DecimalValue::new(max + 1, 0).is_none());
    assert!(DecimalValue::new(-max - 1, 0).is_none());
}

#[test]
fn decimal_column_shows_its_numbers() {
    let c = Column::Numeric(vec![DecimalValue::new(3141, 3).unwrap(), DecimalValue::new(7, 0).unwrap()]);
    assert_eq!(c.kind(), ColumnKind::Real);
    assert_eq!(c.sqlite3_type(), "real");
    assert_eq!(c.display_content(), vec![s("3.141"), s("7")]);
    assert_eq!(c.len(), 2);
}
