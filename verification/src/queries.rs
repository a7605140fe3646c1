//! The decisions of the query window: which notebook pages show the query
//! results, what to do when a query has been answered, and how a table is
//! saved.
use vstd::prelude::*;
use crate::numeric::{decimal_text, usize_text};
use crate::text::{push_char, str_eq};

verus! {

/// A page of the results notebook.
#[derive(Debug)]
pub enum NotebookPage {
    /// The page shown when there are no results.
    NoQueries,
    /// The page of the result at `index`, labelled with its shape.
    Table { label: String, index: usize },
}

pub enum NotebookPageView {
    NoQueries,
    Table { label: Seq<char>, index: int },
}

impl View for NotebookPage {
    type V = NotebookPageView;

    open spec fn view(&self) -> NotebookPageView {
        match self {
            NotebookPage::NoQueries => NotebookPageView::NoQueries,
            NotebookPage::Table { label, index } => NotebookPageView::Table {
                label: label@,
                index: *index as int,
            },
        }
    }
}

/// `(r x c)`: the number of data rows (rows after the header) and of columns.
pub open spec fn shape_label(rows: nat, cols: nat) -> Seq<char> {
    seq!['('] + decimal_text(rows) + seq![' ', 'x', ' '] + decimal_text(cols) + seq![')']
}

/// The page of result `i` of `tables` (each result given by its text rows,
/// the header first), for the results that have rows, in order.
pub open spec fn result_pages(tables: Seq<Seq<Seq<Seq<char>>>>, n: int) -> Seq<NotebookPageView>
    decreases n,
{
    if n <= 0 {
        Seq::empty()
    } else {
        let rest = result_pages(tables, n - 1);
        let t = tables[n - 1];
        if t.len() > 0 {
            rest.push(
                NotebookPageView::Table {
                    label: shape_label((t.len() - 1) as nat, t[0].len()),
                    index: n - 1,
                },
            )
        } else {
            rest
        }
    }
}

/// The pages that show the results `tables`: a single "no queries" page when
/// there are none, else one page per result that has rows.
pub open spec fn notebook_pages(tables: Seq<Seq<Seq<Seq<char>>>>) -> Seq<NotebookPageView> {
    if tables.len() == 0 {
        seq![NotebookPageView::NoQueries]
    } else {
        result_pages(tables, tables.len() as int)
    }
}

pub open spec fn tables_views(t: Seq<Vec<Vec<String>>>) -> Seq<Seq<Seq<Seq<char>>>> {
    t.map_values(|rows: Vec<Vec<String>>| rows@.map_values(|r: Vec<String>| r@.map_values(|s: String| s@)))
}

pub open spec fn page_views(p: Seq<NotebookPage>) -> Seq<NotebookPageView> {
    p.map_values(|x: NotebookPage| x@)
}

/// The label `(rows x cols)`.
pub fn shape_label_text(rows: usize, cols: usize) -> (s: String)
    ensures
        s@ == shape_label(rows as nat, cols as nat),
{
    let mut s = String::new();
    push_char(&mut s, '(');
    s.append(usize_text(rows).as_str());
    push_char(&mut s, ' ');
    push_char(&mut s, 'x');
    push_char(&mut s, ' ');
    s.append(usize_text(cols).as_str());
    push_char(&mut s, ')');
    assert(s@ =~= shape_label(rows as nat, cols as nat));
    s
}

/// The notebook pages that show the results `all_tbls`.
pub fn table_pages(all_tbls: &Vec<Vec<Vec<String>>>) -> (pages: Vec<NotebookPage>)
    ensures
        page_views(pages@) == notebook_pages(tables_views(all_tbls@)),
{
    let ghost tv = tables_views(all_tbls@);
    let mut pages: Vec<NotebookPage> = Vec::new();
    if all_tbls.len() == 0 {
        pages.push(NotebookPage::NoQueries);
        assert(page_views(pages@) =~= seq![NotebookPageView::NoQueries]);
        return pages;
    }
    let mut i: usize = 0;
    while i < all_tbls.len()
        invariant
            i <= all_tbls.len(),
            tv == tables_views(all_tbls@),
            page_views(pages@) == result_pages(tv, i as int),
        decreases all_tbls.len() - i,
    {
        let t_rows = &all_tbls[i];
        let nrows = t_rows.len();
        assert(tv[i as int].len() == nrows);
        if nrows > 0 {
            let ncols = t_rows[0].len();
            assert(tv[i as int][0].len() == ncols);
            let label = shape_label_text(nrows - 1, ncols);
            let ghost before = pages@;
            let page = NotebookPage::Table { label, index: i };
            let ghost pv = page@;
            pages.push(page);
            assert(page_views(pages@) =~= page_views(before).push(pv));
            assert(page_views(pages@) =~= result_pages(tv, i + 1));
        }
        i = i + 1;
    }
    pages
}

/// What the periodic poll of the query window does next.
#[derive(PartialEq, Eq, Structural, Debug)]
pub enum PollStep {
    /// Nothing: no query is pending, or the environment is in use.
    Idle,
    /// No command was sent: report it and look again later.
    NoCommand,
    /// The last command was a `select`: look for its results.
    AwaitSelect,
    /// The last command was a statement: look for its outcome.
    AwaitStatement,
}

/// The status shown to the user.
#[derive(Debug)]
pub enum Status {
    Succeeded,
    SqlErr(String),
    StatementExecuted(String),
}

/// What to do once the answer to a pending command has been looked at.
#[derive(Debug)]
pub struct PollAction {
    /// Show the tables of the environment again.
    pub refresh_tables: bool,
    /// The new status, if any.
    pub status: Option<Status>,
    /// Let the user edit and run queries again.
    pub make_sensitive: bool,
}

pub open spec fn select_word() -> Seq<char> {
    "select"@
}

/// The next step of the periodic poll: a query is pending while the editor
/// is not editable; the environment must be free; the last command decides.
pub fn poll_step(view_sensitive: bool, env_available: bool, last_command: Option<&str>) -> (s:
    PollStep)
    ensures
        view_sensitive || !env_available ==> s == PollStep::Idle,
        !view_sensitive && env_available && last_command is None ==> s == PollStep::NoCommand,
        !view_sensitive && env_available && (last_command matches Some(c) && c@ == select_word())
            ==> s == PollStep::AwaitSelect,
        !view_sensitive && env_available && (last_command matches Some(c) && c@ != select_word())
            ==> s == PollStep::AwaitStatement,
{
    if view_sensitive || !env_available {
        return PollStep::Idle;
    }
    match last_command {
        None => PollStep::NoCommand,
        Some(c) => {
            if str_eq(c, "select") {
                PollStep::AwaitSelect
            } else {
                PollStep::AwaitStatement
            }
        },
    }
}

/// What to do with the outcome of a `select`: on success show the tables and
/// an Ok status; on failure show the error; with no outcome yet, no status.
/// The editor becomes editable again once an answer has been handled, and
/// stays as it is while none has come.
pub fn select_action(outcome: Option<Result<(), String>>) -> (a: PollAction)
    ensures
        a.make_sensitive <==> outcome is Some,
        outcome matches Some(Ok(())) ==> a.refresh_tables && a.status matches Some(Status::Succeeded),
        outcome matches Some(Err(e)) ==> !a.refresh_tables && (a.status matches Some(
            Status::SqlErr(m),
        ) && m@ == e@),
        outcome is None ==> !a.refresh_tables && a.status is None,
{
    match outcome {
        Some(Ok(())) => PollAction { refresh_tables: true, status: Some(Status::Succeeded), make_sensitive: true },
        Some(Err(e)) => PollAction {
            refresh_tables: false,
            status: Some(Status::SqlErr(e)),
            make_sensitive: true,
        },
        None => PollAction { refresh_tables: false, status: None, make_sensitive: false },
    }
}

/// What to do with the outcome of a statement: show its answer or its error;
/// with no outcome yet, no status. The editor becomes editable again once an
/// answer has been handled, and stays as it is while none has come.
pub fn statement_action(outcome: Option<Result<String, String>>) -> (a: PollAction)
    ensures
        a.make_sensitive <==> outcome is Some,
        !a.refresh_tables,
        outcome matches Some(Ok(ans)) ==> (a.status matches Some(Status::StatementExecuted(m))
            && m@ == ans@),
        outcome matches Some(Err(e)) ==> (a.status matches Some(Status::SqlErr(m)) && m@ == e@),
        outcome is None ==> a.status is None,
{
    match outcome {
        Some(Ok(ans)) => PollAction {
            refresh_tables: false,
            status: Some(Status::StatementExecuted(ans)),
            make_sensitive: true,
        },
        Some(Err(e)) => PollAction {
            refresh_tables: false,
            status: Some(Status::SqlErr(e)),
            make_sensitive: true,
        },
        None => PollAction { refresh_tables: false, status: None, make_sensitive: false },
    }
}

/// How the table at hand is saved to a file.
#[derive(PartialEq, Eq, Structural, Debug)]
pub enum SaveKind {
    /// A copy of the SQLite database.
    Backup,
    /// The shown table as text.
    Text,
}

/// Files ending in `db`, `sqlite` or `sqlite3` get a copy of the database;
/// any other file gets the table as text.
pub fn save_kind(ext: &str) -> (k: SaveKind)
    ensures
        (ext@ == "db"@ || ext@ == "sqlite"@ || ext@ == "sqlite3"@) <==> k == SaveKind::Backup,
{
    if str_eq(ext, "db") || str_eq(ext, "sqlite") || str_eq(ext, "sqlite3") {
        SaveKind::Backup
    } else {
        SaveKind::Text
    }
}

} // verus!
