use tables::layout::{
    mapping_at_page, mapping_box, mapping_button_types, new_mapping_name, pages_to_clear,
    remove_enabled, tab_image_path, toolbar_slot,
};
use tables::queries::{
    poll_step, save_kind, select_action, shape_label_text, statement_action, table_pages,
    NotebookPage, PollStep, SaveKind, Status,
};

fn s(x: &str) -> String {
    x.to_string()
}

#[test]
fn pages_for_results() {
    let none: Vec<Vec<Vec<String>>> = vec![];
    let pages = table_pages(&none);
    assert_eq!(pages.len(), 1);
    assert!(matches!(pages[0], NotebookPage::NoQueries));

    let tables = vec![
        vec![vec![s("a"), s("b")], vec![s("1"), s("2")], vec![s("3"), s("4")]],
        vec![],
        vec![vec![s("c")]],
    ];
    let pages = table_pages(&tables);
    assert_eq!(pages.len(), 2);
    assert!(matches!(&pages[0], NotebookPage::Table { label, index: 0 } if label == "(2 x 2)"));
    assert!(matches!(&pages[1], NotebookPage::Table { label, index: 2 } if label == "(0 x 1)"));
    assert_eq!(shape_label_text(10, 3), "(10 x 3)");
}

#[test]
fn poll_steps() {
    assert_eq!(poll_step(true, true, Some("select")), PollStep::Idle);
    assert_eq!(poll_step(false, false, Some("select")), PollStep::Idle);
    assert_eq!(poll_step(false, true, None), PollStep::NoCommand);
    assert_eq!(poll_step(false, true, Some("select")), PollStep::AwaitSelect);
    assert_eq!(poll_step(false, true, Some("insert")), PollStep::AwaitStatement);
}

#[test]
fn poll_actions() {
    let a = select_action(Some(Ok(())));
    assert!(a.refresh_tables && a.make_sensitive && matches!(a.status, Some(Status::Succeeded)));
    let a = select_action(Some(Err(s("bad"))));
    assert!(!a.refresh_tables && matches!(a.status, Some(Status::SqlErr(ref e)) if e == "bad"));
    assert!(a.make_sensitive);
    let a = select_action(None);
    assert!(!a.make_sensitive && !a.refresh_tables && a.status.is_none());
    let a = statement_action(Some(Ok(s("3 rows"))));
    assert!(matches!(a.status, Some(Status::StatementExecuted(ref m)) if m == "3 rows"));
    let a = statement_action(Some(Err(s("no table"))));
    assert!(matches!(a.status, Some(Status::SqlErr(ref m)) if m == "no table"));
    assert!(a.make_sensitive);
    let a = statement_action(None);
    assert!(!a.make_sensitive && a.status.is_none());
}

#[test]
fn save_kinds() {
    assert_eq!(save_kind("db"), SaveKind::Backup);
    assert_eq!(save_kind("sqlite"), SaveKind::Backup);
    assert_eq!(save_kind("sqlite3"), SaveKind::Backup);
    assert_eq!(save_kind("csv"), SaveKind::Text);
    assert_eq!(save_kind(""), SaveKind::Text);
}

#[test]
fn mapping_types_and_names() {
    assert_eq!(mapping_box("scatter").unwrap(), "scatter_box");
    assert_eq!(
        mapping_box("pie").unwrap_err(),
        "Invalid mapping type. Must be line|scatter|bar|area|text|surface"
    );
    assert_eq!(tab_image_path("line"), "assets/icons/line.svg");
    assert_eq!(new_mapping_name(4), "4");
    assert_eq!(
        mapping_button_types(),
        vec!["line", "scatter", "bar", "text", "area", "surface"]
    );
    assert_eq!(toolbar_slot(4), (1, 1));
    assert_eq!(toolbar_slot(2), (0, 2));
}

#[test]
fn mapping_pages() {
    assert!(!remove_enabled(2));
    assert!(remove_enabled(3));
    assert_eq!(mapping_at_page(5), (2, s("2")));
    assert_eq!(pages_to_clear(6), vec![3, 4, 5]);
    assert_eq!(pages_to_clear(2), Vec::<usize>::new());
}
