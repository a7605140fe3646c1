//! A table: named columns that all hold the same number of entries.
use vstd::prelude::*;
use crate::column::{Column, ColumnKind, ColumnView, Value, ValueView, display_text, null_text, sql_type_name};
use crate::text::{contains_char, free_of, join, push_char, string_views};

verus! {

/// Data-owning structure of named columns; all its columns have the same
/// number of entries, and it has at least one column.
#[derive(Debug)]
pub struct Table {
    names: Vec<String>,
    cols: Vec<Column>,
    nrows: usize,
}

/// What a table holds: its column names, its columns and its number of rows.
pub struct TableView {
    pub names: Seq<Seq<char>>,
    pub cols: Seq<ColumnView>,
    pub nrows: nat,
}

pub open spec fn column_views(cols: Seq<Column>) -> Seq<ColumnView> {
    cols.map_values(|c: Column| c@)
}

/// All columns have as many entries as the first one.
pub open spec fn same_lengths(cols: Seq<ColumnView>) -> bool {
    forall|j: int| 0 <= j < cols.len() ==> (#[trigger] cols[j]).len() == cols[0].len()
}

pub open spec fn value_views(v: Seq<Value>) -> Seq<ValueView> {
    v.map_values(|x: Value| x@)
}

pub open spec fn rows_views(rows: Seq<Vec<String>>) -> Seq<Seq<Seq<char>>> {
    rows.map_values(|r: Vec<String>| string_views(r@))
}

pub open spec fn msg_names_cols() -> Seq<char> {
    "Differing number of names and columns"@
}

pub open spec fn msg_no_column() -> Seq<char> {
    "No column zero"@
}

pub open spec fn msg_rows_mismatch() -> Seq<char> {
    "Number of rows mismatch at table creation"@
}

impl TableView {
    /// As many names as columns, at least one column, and every column with
    /// `nrows` entries.
    pub open spec fn wf(self) -> bool {
        &&& self.names.len() == self.cols.len()
        &&& self.cols.len() >= 1
        &&& forall|j: int| 0 <= j < self.cols.len() ==> (#[trigger] self.cols[j]).len() == self.nrows
        &&& forall|j: int| 0 <= j < self.cols.len() ==> (#[trigger] self.cols[j]).consistent()
    }

    /// The kinds of the columns, in order.
    pub open spec fn kinds(self) -> Seq<ColumnKind> {
        self.cols.map_values(|c: ColumnView| c.kind())
    }

    /// Row `i` of the shown text: one entry per column.
    pub open spec fn data_row(self, i: int) -> Seq<Seq<char>> {
        Seq::new(self.cols.len(), |j: int| self.cols[j].display()[i])
    }

    /// The header (the column names), then the shown text of each row.
    pub open spec fn text_rows(self) -> Seq<Seq<Seq<char>>> {
        Seq::new(
            self.nrows + 1,
            |i: int|
                if i == 0 {
                    self.names
                } else {
                    self.data_row(i - 1)
                },
        )
    }

    /// The values of each row, one per column.
    pub open spec fn value_rows(self) -> Seq<Seq<ValueView>> {
        Seq::new(self.nrows, |i: int| Seq::new(self.cols.len(), |j: int| self.cols[j].cells[i]))
    }
}

/// Each row written as its entries joined by `,` and ended by a newline.
pub open spec fn csv_text(rows: Seq<Seq<Seq<char>>>) -> Seq<char>
    decreases rows.len(),
{
    if rows.len() == 0 {
        Seq::empty()
    } else {
        csv_text(rows.drop_last()) + join(rows.last(), ',').push('\n')
    }
}

/// A column name, in double quotes when it holds a space.
pub open spec fn quoted_name(n: Seq<char>) -> Seq<char> {
    if free_of(n, ' ') {
        n
    } else {
        seq!['"'] + n + seq!['"']
    }
}

pub open spec fn column_def(n: Seq<char>, k: ColumnKind) -> Seq<char> {
    quoted_name(n) + seq![' '] + sql_type_name(k)
}

/// `create table <name> (<col> <type>,...);` followed by a newline.
pub open spec fn create_sql(tname: Seq<char>, t: TableView) -> Seq<char> {
    "create table "@ + tname + " ("@ + join(
        Seq::new(t.cols.len(), |j: int| column_def(t.names[j], t.cols[j].kind())),
        ',',
    ) + ");\n"@
}

/// A value as written in an `insert`: text in single quotes, the rest as shown.
pub open spec fn insert_value(f: Seq<char>, k: ColumnKind) -> Seq<char> {
    if k == ColumnKind::Text {
        seq!['\''] + f + seq!['\'']
    } else {
        f
    }
}

pub open spec fn insert_row(tname: Seq<char>, row: Seq<Seq<char>>, kinds: Seq<ColumnKind>) -> Seq<
    char,
> {
    "insert into "@ + tname + " values ("@ + join(
        Seq::new(row.len(), |j: int| insert_value(row[j], kinds[j])),
        ',',
    ) + ");\n"@
}

/// One `insert` statement for each of the first `n` rows.
pub open spec fn insert_rows(tname: Seq<char>, t: TableView, n: nat) -> Seq<char>
    decreases n,
{
    if n == 0 {
        Seq::empty()
    } else {
        insert_rows(tname, t, (n - 1) as nat) + insert_row(tname, t.data_row(n - 1), t.kinds())
    }
}

/// The `insert` statements of a table: one for each row.
pub open spec fn insert_sql(tname: Seq<char>, t: TableView) -> Seq<char> {
    insert_rows(tname, t, t.nrows)
}

/// The shown text has a header and one line per row, each with one entry per
/// column; the header holds the column names.
pub proof fn lemma_text_rows_shape(t: TableView)
    requires
        t.wf(),
    ensures
        t.text_rows().len() == t.nrows + 1,
        t.text_rows()[0] == t.names,
        forall|i: int| 0 <= i < t.text_rows().len() ==> (#[trigger] t.text_rows()[i]).len() == t.cols.len(),
{
    assert forall|i: int| 0 <= i < t.text_rows().len() implies (#[trigger] t.text_rows()[i]).len()
        == t.cols.len() by {
        if i > 0 {
            assert(t.text_rows()[i] == t.data_row(i - 1));
        }
    }
}

/// The values of a row (`flatten`) are shown as the entries of that row of
/// the shown text (`text_rows`).
pub proof fn lemma_values_shown(t: TableView)
    requires
        t.wf(),
    ensures
        forall|i: int, j: int|
            0 <= i < t.nrows && 0 <= j < t.cols.len() ==> display_text(
                #[trigger] t.value_rows()[i][j],
            ) == t.text_rows()[i + 1][j],
{
    assert forall|i: int, j: int| 0 <= i < t.nrows && 0 <= j < t.cols.len() implies display_text(
        #[trigger] t.value_rows()[i][j],
    ) == t.text_rows()[i + 1][j] by {
        assert(t.text_rows()[i + 1] == t.data_row(i));
        assert(t.cols[j].len() == t.nrows);
    }
}

/// The `insert` statements are empty exactly when the columns hold no data.
pub proof fn lemma_inserts_empty_iff_no_rows(name: Seq<char>, t: TableView)
    ensures
        (insert_sql(name, t) == Seq::<char>::empty()) <==> t.nrows == 0,
{
    if t.nrows > 0 {
        reveal_strlit("insert into ");
        let n = t.nrows;
        let last = insert_row(name, t.data_row(n - 1), t.kinds());
        assert(last.len() > 0);
        assert(insert_sql(name, t).len() >= last.len());
    }
}

/// Binary columns are created but hold NULL: in every `insert` statement the
/// value given to a binary column is `NULL`, unquoted.
pub proof fn lemma_blob_inserts_null(t: TableView, i: int, j: int)
    requires
        t.wf(),
        0 <= i < t.nrows,
        0 <= j < t.cols.len(),
        t.cols[j].kind() == ColumnKind::Blob,
    ensures
        insert_value(t.data_row(i)[j], t.kinds()[j]) == null_text(),
{
    assert(t.cols[j].len() == t.nrows);
    let v = t.cols[j].cells[i];
    assert(t.data_row(i)[j] == display_text(v));
    assert(t.cols[j].cells.len() == t.nrows);
}

impl View for Table {
    type V = TableView;

    closed spec fn view(&self) -> TableView {
        TableView {
            names: string_views(self.names@),
            cols: column_views(self.cols@),
            nrows: self.nrows as nat,
        }
    }
}

/// Appends `s` to `q`.
fn append_str(q: &mut String, s: &str)
    ensures
        final(q)@ == old(q)@ + s@,
{
    q.append(s);
}

/// Writes `parts` joined by `sep` at the end of `q`.
fn append_joined(q: &mut String, parts: &Vec<String>, sep: char)
    requires
        parts.len() >= 1,
    ensures
        final(q)@ == old(q)@ + join(string_views(parts@), sep),
{
    let ghost start = q@;
    let ghost ps = string_views(parts@);
    let mut i: usize = 0;
    while i < parts.len()
        invariant
            i <= parts.len(),
            ps == string_views(parts@),
            parts.len() >= 1,
            i == 0 ==> q@ == start,
            i > 0 ==> q@ == start + join(ps.take(i as int), sep),
        decreases parts.len() - i,
    {
        if i > 0 {
            push_char(q, sep);
        }
        append_str(q, parts[i].as_str());
        proof {
            let t = ps.take(i + 1);
            if i == 0 {
                assert(t.len() == 1);
                assert(join(t, sep) == t[0]);
            } else {
                assert(t.drop_last() =~= ps.take(i as int));
            }
            assert(t.last() == parts@[i as int]@);
        }
        i = i + 1;
    }
    assert(ps.take(i as int) =~= ps);
}

impl Table {
    #[verifier::type_invariant]
    spec fn inv(self) -> bool {
        &&& self.names.len() == self.cols.len()
        &&& self.cols.len() >= 1
        &&& forall|j: int| 0 <= j < self.cols.len() ==> (#[trigger] self.cols@[j])@.len() == self.nrows
    }

    proof fn lemma_view_wf(&self)
        requires
            self.inv(),
        ensures
            self@.wf(),
            self@.names.len() == self.names.len(),
            self@.cols.len() == self.cols.len(),
            forall|j: int| 0 <= j < self.cols.len() ==> self@.cols[j] == (#[trigger] self.cols@[j])@,
    {
        assert forall|j: int| 0 <= j < self@.cols.len() implies (#[trigger] self@.cols[j]).len()
            == self@.nrows && self@.cols[j].consistent() by {
            assert(self@.cols[j] == self.cols@[j]@);
            crate::column::lemma_column_consistent(self.cols@[j]);
        }
    }

    /// A table of the given names and columns: there must be as many names as
    /// columns, at least one column, and all columns of the same length.
    pub fn new(names: Vec<String>, cols: Vec<Column>) -> (r: Result<Table, &'static str>)
        ensures
            names.len() != cols.len() ==> (r matches Err(e) && e@ == msg_names_cols()),
            names.len() == cols.len() && cols.len() == 0 ==> (r matches Err(e) && e@
                == msg_no_column()),
            names.len() == cols.len() && cols.len() > 0 && !same_lengths(column_views(cols@))
                ==> (r matches Err(e) && e@ == msg_rows_mismatch()),
            names.len() == cols.len() && cols.len() > 0 && same_lengths(column_views(cols@))
                ==> (r matches Ok(t) && t@ == (TableView {
                names: string_views(names@),
                cols: column_views(cols@),
                nrows: cols@[0]@.len(),
            }) && t@.wf()),
    {
        if names.len() != cols.len() {
            return Err("Differing number of names and columns");
        }
        if cols.len() == 0 {
            return Err("No column zero");
        }
        let nrows = cols[0].len();
        let mut j: usize = 1;
        while j < cols.len()
            invariant
                1 <= j <= cols.len(),
                names.len() == cols.len(),
                nrows == cols@[0]@.len(),
                forall|k: int| 0 <= k < j ==> (#[trigger] cols@[k])@.len() == nrows,
            decreases cols.len() - j,
        {
            if cols[j].len() != nrows {
                assert(column_views(cols@)[j as int] == cols@[j as int]@);
                assert(column_views(cols@)[0] == cols@[0]@);
                return Err("Number of rows mismatch at table creation");
            }
            j = j + 1;
        }
        proof {
            assert forall|k: int| 0 <= k < cols.len() implies (#[trigger] column_views(
                cols@,
            )[k]).len() == column_views(cols@)[0].len() by {
                assert(column_views(cols@)[k] == cols@[k]@);
            }
        }
        let t = Table { names, cols, nrows };
        proof {
            t.lemma_view_wf();
        }
        Ok(t)
    }

    /// The number of rows and of columns.
    pub fn shape(&self) -> (s: (usize, usize))
        ensures
            s.0 == self@.nrows,
            s.1 == self@.cols.len(),
            self@.wf(),
    {
        proof {
            use_type_invariant(self);
            self.lemma_view_wf();
        }
        (self.nrows, self.cols.len())
    }

    /// The column at `ix`, when there is one.
    pub fn get_column<'a>(&'a self, ix: usize) -> (r: Option<&'a Column>)
        ensures
            r is Some <==> ix < self@.cols.len(),
            r matches Some(c) ==> c@ == self@.cols[ix as int],
    {
        proof {
            use_type_invariant(self);
            self.lemma_view_wf();
        }
        if ix < self.cols.len() {
            Some(&self.cols[ix])
        } else {
            None
        }
    }

    /// The name of column `ix`.
    pub(crate) fn name_ref<'a>(&'a self, ix: usize) -> (r: &'a str)
        requires
            ix < self@.cols.len(),
        ensures
            r@ == self@.names[ix as int],
    {
        proof {
            use_type_invariant(self);
            self.lemma_view_wf();
        }
        self.names[ix].as_str()
    }

    /// The column names.
    pub fn names(&self) -> (r: Vec<String>)
        ensures
            string_views(r@) == self@.names,
    {
        let r = self.names.clone();
        proof {
            assert forall|i: int| 0 <= i < r.len() implies r@[i] == self.names@[i] by {
                assert(cloned::<String>(self.names[i], r[i]));
            }
            assert(string_views(r@) =~= self@.names);
        }
        r
    }

    /// The shown text of every column, in order.
    fn text_columns(&self) -> (out: Vec<Vec<String>>)
        ensures
            out.len() == self@.cols.len(),
            forall|j: int| 0 <= j < out.len() ==> string_views(#[trigger] out@[j]@) == self@.cols[j].display(),
    {
        proof {
            use_type_invariant(self);
            self.lemma_view_wf();
        }
        let mut out: Vec<Vec<String>> = Vec::new();
        let mut j: usize = 0;
        while j < self.cols.len()
            invariant
                j <= self.cols.len(),
                out.len() == j,
                forall|k: int| 0 <= k < self.cols.len() ==> self@.cols[k] == (#[trigger] self.cols@[k])@,
                forall|k: int| 0 <= k < j ==> string_views(#[trigger] out@[k]@) == self@.cols[k].display(),
            decreases self.cols.len() - j,
        {
            let d = self.cols[j].display_content();
            out.push(d);
            j = j + 1;
        }
        out
    }

    /// The header row of column names, followed by the shown text of each row.
    pub fn text_rows(&self) -> (rows: Vec<Vec<String>>)
        ensures
            rows_views(rows@) == self@.text_rows(),
    {
        proof {
            use_type_invariant(self);
            self.lemma_view_wf();
        }
        let txt_cols = self.text_columns();
        let mut rows: Vec<Vec<String>> = Vec::new();
        let header = self.names();
        rows.push(header);
        let n = self.nrows;
        let mut i: usize = 0;
        while i < n
            invariant
                i <= n == self@.nrows,
                self@.wf(),
                txt_cols.len() == self@.cols.len(),
                forall|j: int| 0 <= j < txt_cols.len() ==> string_views(#[trigger] txt_cols@[j]@) == self@.cols[j].display(),
                rows.len() == i + 1,
                forall|k: int| 0 <= k <= i ==> string_views(#[trigger] rows@[k]@) == self@.text_rows()[k],
            decreases n - i,
        {
            let mut row: Vec<String> = Vec::new();
            let mut j: usize = 0;
            while j < txt_cols.len()
                invariant
                    i < n == self@.nrows,
                    self@.wf(),
                    j <= txt_cols.len() == self@.cols.len(),
                    forall|jj: int| 0 <= jj < txt_cols.len() ==> string_views(#[trigger] txt_cols@[jj]@) == self@.cols[jj].display(),
                    row.len() == j,
                    forall|k: int| 0 <= k < j ==> (#[trigger] row@[k])@ == self@.cols[k].display()[i as int],
                decreases txt_cols.len() - j,
            {
                assert(self@.cols[j as int].len() == n);
                assert(txt_cols@[j as int]@.len() == self@.cols[j as int].display().len());
                assert(string_views(txt_cols@[j as int]@)[i as int] == txt_cols@[j as int]@[i as int]@);
                let s = txt_cols[j][i].clone();
                row.push(s);
                j = j + 1;
            }
            assert(string_views(row@) =~= self@.text_rows()[i + 1]);
            rows.push(row);
            i = i + 1;
        }
        assert(rows_views(rows@) =~= self@.text_rows());
        rows
    }

    /// The table as text: each row (the header first) with its entries joined
    /// by `,` and ended by a newline.
    pub fn to_string(&self) -> (s: String)
        ensures
            s@ == csv_text(self@.text_rows()),
    {
        let rows = self.text_rows();
        let mut content = String::new();
        let mut i: usize = 0;
        while i < rows.len()
            invariant
                i <= rows.len(),
                rows_views(rows@) == self@.text_rows(),
                content@ == csv_text(rows_views(rows@).take(i as int)),
            decreases rows.len() - i,
        {
            proof {
                use_type_invariant(self);
                self.lemma_view_wf();
                assert(rows_views(rows@)[i as int] == string_views(rows@[i as int]@));
            }
            let ghost before = content@;
            if rows[i].len() >= 1 {
                append_joined(&mut content, &rows[i], ',');
            }
            push_char(&mut content, '\n');
            proof {
                let rv = rows_views(rows@);
                assert(rv.take(i + 1).drop_last() =~= rv.take(i as int));
                if rows@[i as int].len() == 0 {
                    assert(string_views(rows@[i as int]@) =~= Seq::<Seq<char>>::empty());
                }
            }
            i = i + 1;
        }
        assert(rows_views(rows@).take(i as int) =~= rows_views(rows@));
        content
    }

    /// The SQLite type name of each column, in order.
    pub fn sql_types(&self) -> (r: Vec<String>)
        ensures
            r.len() == self@.cols.len(),
            forall|j: int| 0 <= j < r.len() ==> (#[trigger] r@[j])@ == sql_type_name(self@.cols[j].kind()),
    {
        proof {
            use_type_invariant(self);
            self.lemma_view_wf();
        }
        let mut r: Vec<String> = Vec::new();
        let mut j: usize = 0;
        while j < self.cols.len()
            invariant
                j <= self.cols.len(),
                r.len() == j,
                forall|k: int| 0 <= k < self.cols.len() ==> self@.cols[k] == (#[trigger] self.cols@[k])@,
                forall|k: int| 0 <= k < j ==> (#[trigger] r@[k])@ == sql_type_name(self@.cols[k].kind()),
            decreases self.cols.len() - j,
        {
            r.push(String::from_str(self.cols[j].sqlite3_type()));
            j = j + 1;
        }
        r
    }

    /// `name` written as a column name in SQL: in double quotes when it holds a space.
    fn quoted_column_name(n: &String) -> (q: String)
        ensures
            q@ == quoted_name(n@),
    {
        if contains_char(n.as_str(), ' ') {
            let mut q = String::new();
            push_char(&mut q, '"');
            append_str(&mut q, n.as_str());
            push_char(&mut q, '"');
            assert(q@ =~= seq!['"'] + n@ + seq!['"']);
            q
        } else {
            n.clone()
        }
    }

    /// The SQL that creates a table `name` with these columns and their
    /// SQLite types: `create table name (col type,...);`.
    pub fn sql_table_creation(&self, name: &str) -> (r: Option<String>)
        ensures
            r matches Some(q) && q@ == create_sql(name@, self@),
    {
        proof {
            use_type_invariant(self);
            self.lemma_view_wf();
        }
        let ghost defs = Seq::new(
            self@.cols.len(),
            |j: int| column_def(self@.names[j], self@.cols[j].kind()),
        );
        let mut items: Vec<String> = Vec::new();
        let mut j: usize = 0;
        while j < self.cols.len()
            invariant
                j <= self.cols.len() == self.names.len(),
                self@.wf(),
                self@.names.len() == self.names.len(),
                forall|k: int| 0 <= k < self.cols.len() ==> self@.cols[k] == (#[trigger] self.cols@[k])@,
                defs == Seq::new(self@.cols.len(), |k: int| column_def(self@.names[k], self@.cols[k].kind())),
                items.len() == j,
                forall|k: int| 0 <= k < j ==> (#[trigger] items@[k])@ == defs[k],
            decreases self.cols.len() - j,
        {
            let mut item = Self::quoted_column_name(&self.names[j]);
            push_char(&mut item, ' ');
            append_str(&mut item, self.cols[j].sqlite3_type());
            assert(self@.names[j as int] == self.names@[j as int]@);
            assert(item@ =~= defs[j as int]);
            items.push(item);
            j = j + 1;
        }
        assert(string_views(items@) =~= defs);
        let mut query = String::from_str("create table ");
        append_str(&mut query, name);
        append_str(&mut query, " (");
        append_joined(&mut query, &items, ',');
        append_str(&mut query, ");\n");
        Some(query)
    }

    /// One `insert into name values (...);` statement per row, text values in
    /// single quotes; nothing when the columns hold no data.
    pub fn sql_table_insertion(&self, name: &str) -> (q: String)
        ensures
            q@ == insert_sql(name@, self@),
    {
        proof {
            use_type_invariant(self);
            self.lemma_view_wf();
        }
        let mut q = String::new();
        let content = self.text_rows();
        assert(rows_views(content@).len() == content@.len());
        let mut i: usize = 1;
        while i < content.len()
            invariant
                1 <= i <= content.len() == self@.nrows + 1,
                self@.wf(),
                rows_views(content@) == self@.text_rows(),
                forall|k: int| 0 <= k < self.cols.len() ==> self@.cols[k] == (#[trigger] self.cols@[k])@,
                self@.cols.len() == self.cols.len(),
                q@ == insert_rows(name@, self@, (i - 1) as nat),
            decreases content.len() - i,
        {
            let line = &content[i];
            let ghost row = self@.data_row(i - 1);
            assert(string_views(line@) == row) by {
                assert(rows_views(content@)[i as int] == string_views(content@[i as int]@));
            }
            let ghost vals = Seq::new(row.len(), |j: int| insert_value(row[j], self@.kinds()[j]));
            let mut items: Vec<String> = Vec::new();
            let mut j: usize = 0;
            while j < line.len()
                invariant
                    j <= line.len() == self.cols.len(),
                    string_views(line@) == row,
                    row.len() == self@.cols.len(),
                    forall|k: int| 0 <= k < self.cols.len() ==> self@.cols[k] == (#[trigger] self.cols@[k])@,
                    vals == Seq::new(row.len(), |k: int| insert_value(row[k], self@.kinds()[k])),
                    items.len() == j,
                    forall|k: int| 0 <= k < j ==> (#[trigger] items@[k])@ == vals[k],
                decreases line.len() - j,
            {
                assert(line@[j as int]@ == row[j as int]);
                let item = if self.cols[j].kind() == ColumnKind::Text {
                    let mut item = String::new();
                    push_char(&mut item, '\'');
                    append_str(&mut item, line[j].as_str());
                    push_char(&mut item, '\'');
                    assert(item@ =~= seq!['\''] + row[j as int] + seq!['\'']);
                    item
                } else {
                    line[j].clone()
                };
                assert(item@ == vals[j as int]);
                items.push(item);
                j = j + 1;
            }
            assert(string_views(items@) =~= vals);
            append_str(&mut q, "insert into ");
            append_str(&mut q, name);
            append_str(&mut q, " values (");
            append_joined(&mut q, &items, ',');
            append_str(&mut q, ");\n");
            assert(q@ =~= insert_rows(name@, self@, i as nat));
            i = i + 1;
        }
        q
    }

    /// The SQL that creates the table `name` and inserts its rows; `None` when
    /// the table is not named (`name` is empty).
    pub fn sql_string(&self, name: &str) -> (r: Option<String>)
        ensures
            name@.len() == 0 ==> r is None,
            name@.len() > 0 ==> (r matches Some(q) && q@ == create_sql(name@, self@) + insert_sql(
                name@,
                self@,
            )),
    {
        if name.is_empty() {
            return None;
        }
        match self.sql_table_creation(name) {
            Some(mut creation) => {
                let ins = self.sql_table_insertion(name);
                append_str(&mut creation, ins.as_str());
                Some(creation)
            },
            None => None,
        }
    }

    /// The values of each row, one per column.
    pub fn flatten(&self) -> (r: Result<Vec<Vec<Value>>, &'static str>)
        ensures
            r matches Ok(rows) && rows@.len() == self@.nrows && forall|i: int|
                0 <= i < rows@.len() ==> value_views((#[trigger] rows@[i])@) == self@.value_rows()[i],
    {
        proof {
            use_type_invariant(self);
            self.lemma_view_wf();
        }
        if self.cols.len() == 0 {
            return Err("Query result is empty");
        }
        let n = self.cols[0].len();
        let mut rows: Vec<Vec<Value>> = Vec::new();
        let mut i: usize = 0;
        while i < n
            invariant
                i <= n == self@.nrows,
                self@.wf(),
                self@.cols.len() == self.cols.len(),
                forall|k: int| 0 <= k < self.cols.len() ==> self@.cols[k] == (#[trigger] self.cols@[k])@,
                rows@.len() == i,
                forall|k: int| 0 <= k < i ==> value_views((#[trigger] rows@[k])@) == self@.value_rows()[k],
            decreases n - i,
        {
            let mut row: Vec<Value> = Vec::new();
            let mut j: usize = 0;
            while j < self.cols.len()
                invariant
                    i < n == self@.nrows,
                    self@.wf(),
                    j <= self.cols.len() == self@.cols.len(),
                    forall|k: int| 0 <= k < self.cols.len() ==> self@.cols[k] == (#[trigger] self.cols@[k])@,
                    row@.len() == j,
                    forall|k: int| 0 <= k < j ==> (#[trigger] row@[k])@ == self@.cols[k].cells[i as int],
                decreases self.cols.len() - j,
            {
                assert(self@.cols[j as int].len() == n);
                let v = self.cols[j].cell(i);
                row.push(v);
                j = j + 1;
            }
            assert(value_views(row@) =~= self@.value_rows()[i as int]);
            rows.push(row);
            i = i + 1;
        }
        Ok(rows)
    }
}

impl Clone for Table {
    fn clone(&self) -> (r: Self)
        ensures
            r@ == self@,
    {
        proof {
            use_type_invariant(self);
        }
        let names = self.names();
        let mut cols: Vec<Column> = Vec::new();
        let mut j: usize = 0;
        while j < self.cols.len()
            invariant
                j <= self.cols.len(),
                cols.len() == j,
                forall|k: int| 0 <= k < j ==> (#[trigger] cols@[k])@ == self.cols@[k]@,
            decreases self.cols.len() - j,
        {
            cols.push(self.cols[j].clone());
            j = j + 1;
        }
        proof {
            self.lemma_view_wf();
            assert(string_views(names@).len() == names@.len());
            assert forall|k: int| 0 <= k < cols.len() implies (#[trigger] cols@[k])@.len() == self.nrows by {
                assert(self.cols@[k]@.len() == self.nrows);
            }
        }
        let r = Table { names, cols, nrows: self.nrows };
        assert(column_views(r.cols@) =~= column_views(self.cols@));
        r
    }
}

} // verus!
