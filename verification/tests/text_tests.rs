use tables::column::{Column, ColumnKind};
use tables::csv::{classify_column, parse_csv_as_text_cols};
use tables::numeric::{is_real_text, parse_i64, usize_text, i64_text};
use tables::table::Table;
use tables::text::{chars_of, contains_char, split_chars};

fn s(x: &str) -> String {
    x.to_string()
}

#[test]
fn new_from_text_reads_kinds() {
    let t = Table::new_from_text(s("a,b,c\n1,2.5,x\n-3,1e3,y\n")).unwrap();
    assert_eq!(t.shape(), (2, 3));
    assert_eq!(t.names(), vec![s("a"), s("b"), s("c")]);
    assert_eq!(t.get_column(0).unwrap().kind(), ColumnKind::Integer);
    assert_eq!(t.get_column(1).unwrap().kind(), ColumnKind::Real);
    assert_eq!(t.get_column(2).unwrap().kind(), ColumnKind::Text);
    assert!(matches!(t.get_column(0).unwrap(), Column::I64(v) if *v == vec![1, -3]));
}

#[test]
fn new_from_text_without_final_newline() {
    let t = Table::new_from_text(s("n\n5")).unwrap();
    assert_eq!(t.shape(), (1, 1));
    assert!(matches!(t.get_column(0).unwrap(), Column::I64(v) if *v == vec![5]));
}

#[test]
fn new_from_text_rejects_empty_text() {
    assert_eq!(Table::new_from_text(s("")).unwrap_err(), "Could not parse CSV content");
}

#[test]
fn new_from_text_rejects_ragged_lines() {
    assert_eq!(
        Table::new_from_text(s("a,b\n1\n")).unwrap_err(),
        "Could not parse CSV content"
    );
}

#[test]
fn new_from_text_header_only() {
    let t = Table::new_from_text(s("a,b\n")).unwrap();
    assert_eq!(t.shape(), (0, 2));
    assert_eq!(t.text_rows(), vec![vec![s("a"), s("b")]]);
}

#[test]
fn text_roundtrip_keeps_shown_text() {
    let t = Table::new(
        vec![s("id"), s("name"), s("score")],
        vec![
            Column::I64(vec![10, -2]),
            Column::Str(vec![s("ann"), s("12")]),
            Column::F64(vec![s("0.25"), s("inf")]),
        ],
    )
    .unwrap();
    let back = Table::new_from_text(t.to_string()).unwrap();
    assert_eq!(back.text_rows(), t.text_rows());
    assert_eq!(back.to_string(), t.to_string());
}

#[test]
fn parse_csv_errors() {
    assert_eq!(parse_csv_as_text_cols("").unwrap_err(), "No header line");
    assert_eq!(
        parse_csv_as_text_cols("a\n1,2\n").unwrap_err(),
        "Lines with differing number of fields"
    );
    let cols = parse_csv_as_text_cols("x,y\n1,2\n3,4\n").unwrap();
    assert_eq!(cols, vec![(s("x"), vec![s("1"), s("3")]), (s("y"), vec![s("2"), s("4")])]);
}

#[test]
fn classify_prefers_integers_then_reals() {
    assert!(matches!(classify_column(vec![s("+4"), s("007")]), Column::I64(v) if v == vec![4, 7]));
    assert!(matches!(classify_column(vec![s("4"), s(".5")]), Column::F64(_)));
    assert!(matches!(classify_column(vec![s("4"), s("NaN"), s("-Infinity")]), Column::F64(_)));
    assert!(matches!(classify_column(vec![s("4"), s("four")]), Column::Str(_)));
    assert!(matches!(classify_column(vec![]), Column::I64(_)));
}

#[test]
fn integer_text() {
    assert_eq!(parse_i64("42"), Some(42));
    assert_eq!(parse_i64("-42"), Some(-42));
    assert_eq!(parse_i64("+42"), Some(42));
    assert_eq!(parse_i64(""), None);
    assert_eq!(parse_i64("-"), None);
    assert_eq!(parse_i64("4 2"), None);
    assert_eq!(parse_i64("9223372036854775808"), None);
    assert_eq!(i64_text(-305), "-305");
    assert_eq!(usize_text(0), "0");
    assert_eq!(usize_text(1234), "1234");
}

#[test]
fn real_literals() {
    for ok in ["1", "1.", ".5", "1.5e10", "1E-3", "-2.5", "+inf", "infinity", "NAN", "0e0"] {
        assert!(is_real_text(ok), "{}", ok);
        assert!(ok.parse::<f64>().is_ok(), "{}", ok);
    }
    for bad in ["", ".", "e5", "1e", "1.2.3", "1e+", "--1", " 1", "abc", "1,5", "infin"] {
        assert!(!is_real_text(bad), "{}", bad);
        assert!(bad.parse::<f64>().is_err(), "{}", bad);
    }
}

#[test]
fn real_literals_agree_with_std() {
    let cases = [
        "+nan", "-inf", "1e+5", "1.e5", ".e5", "e", "+", "-", "1e5.5", "1.5E+07", "INF", "Inf",
        "nan1", "00.00", "9", "+.5", "-.", "1..", "1e05", "1ee5", "١", "1 ", "InFiNiTy",
    ];
    for c in cases {
        assert_eq!(is_real_text(c), c.parse::<f64>().is_ok(), "{}", c);
    }
}

#[test]
fn integers_agree_with_std() {
    let cases = ["0", "-0", "+0", "00012", "-9223372036854775808", "9223372036854775807", "1a", "++1", "-+1", "٣"];
    for c in cases {
        assert_eq!(parse_i64(c), c.parse::<i64>().ok(), "{}", c);
    }
}

#[test]
fn splitting_and_chars() {
    assert_eq!(chars_of("héllo"), vec!['h', 'é', 'l', 'l', 'o']);
    assert_eq!(split_chars(&chars_of("a,,b"), ','), vec![s("a"), s(""), s("b")]);
    assert_eq!(split_chars(&chars_of(""), ','), vec![s("")]);
    assert!(contains_char("a b", ' '));
    assert!(!contains_char("ab", ' '));
}

#[test]
fn integer_text_agrees_with_std() {
    let texts = [
        "0", "-0", "+0", "007", "-9223372036854775808", "9223372036854775807",
        "-9223372036854775809", "9223372036854775808", "99999999999999999999999", "+", "-+1",
        "+-1", " 1", "1 ", "1a", "٣", "12345678901234567890123456789012345678901234567890",
    ];
    for t in texts {
        assert_eq!(parse_i64(t), t.parse::<i64>().ok(), "{}", t);
    }
    for v in [i64::MIN, i64::MIN + 1, -1, 0, 7, 10, 99, 100, i64::MAX] {
        assert_eq!(i64_text(v), v.to_string());
        assert_eq!(parse_i64(&i64_text(v)), Some(v));
    }
    for n in [0usize, 9, 10, 101, usize::MAX] {
        assert_eq!(usize_text(n), n.to_string());
    }
}
