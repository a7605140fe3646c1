//! Reading a table from comma-separated text, the form in which
//! `Table::to_string` writes one.
use vstd::prelude::*;
use crate::column::{Column, ColumnKind, ColumnView, Storage, ValueView, display_text, int_cells, real_cells, text_cells};
use crate::numeric::{
    is_canonical_int,
    is_real_literal,
    is_real_text,
    lemma_parse_int_text,
    parse_i64,
    parse_i64_spec,
};
use crate::table::{Table, TableView, column_views, csv_text, same_lengths};
use crate::text::{chars_of, free_of, join, lemma_join_free, lemma_split_join, lemma_split_on_len, split_chars, split_on, string_views};

verus! {

/// The lines of a text: the pieces between newlines, leaving out the empty
/// piece after a final newline.
pub open spec fn csv_lines(s: Seq<char>) -> Seq<Seq<char>> {
    let p = split_on(s, '\n');
    if p.len() > 0 && p.last().len() == 0 {
        p.drop_last()
    } else {
        p
    }
}

/// The fields of each line: the pieces between commas.
pub open spec fn csv_rows(s: Seq<char>) -> Seq<Seq<Seq<char>>> {
    csv_lines(s).map_values(|l: Seq<char>| split_on(l, ','))
}

/// The text has a first line, and every line has as many fields as it.
pub open spec fn csv_ok(s: Seq<char>) -> bool {
    let rows = csv_rows(s);
    &&& rows.len() >= 1
    &&& forall|i: int| 0 <= i < rows.len() ==> (#[trigger] rows[i]).len() == rows[0].len()
}

/// The entries of field `j` below the first line.
pub open spec fn csv_field_values(rows: Seq<Seq<Seq<char>>>, j: int) -> Seq<Seq<char>> {
    Seq::new((rows.len() - 1) as nat, |i: int| rows[i + 1][j])
}

/// Every entry reads as an `i64`.
pub open spec fn all_ints(vals: Seq<Seq<char>>) -> bool {
    forall|i: int| 0 <= i < vals.len() ==> (#[trigger] parse_i64_spec(vals[i])) is Some
}

/// Every entry is a real-number literal.
pub open spec fn all_reals(vals: Seq<Seq<char>>) -> bool {
    forall|i: int| 0 <= i < vals.len() ==> #[trigger] is_real_literal(vals[i])
}

/// The column that the text entries `vals` make: integers when all read as
/// integers, else reals when all are real literals, else text.
pub open spec fn classify(vals: Seq<Seq<char>>) -> ColumnView {
    if all_ints(vals) {
        ColumnView {
            storage: Storage::I64,
            nullable: false,
            cells: vals.map_values(|v: Seq<char>| ValueView::Integer(parse_i64_spec(v).unwrap())),
        }
    } else if all_reals(vals) {
        ColumnView {
            storage: Storage::F64,
            nullable: false,
            cells: vals.map_values(|v: Seq<char>| ValueView::Real(v)),
        }
    } else {
        ColumnView {
            storage: Storage::Text,
            nullable: false,
            cells: vals.map_values(|v: Seq<char>| ValueView::Text(v)),
        }
    }
}

/// What a column read from text is: integers exactly when every entry reads
/// as an `i64`, each entry's value in order; reals only when every entry is a
/// real-number literal, each entry kept as written; text exactly when some
/// entry does not read as an `i64` and some entry is no real-number literal,
/// each entry kept as written.
pub proof fn lemma_classify_by_entries(vals: Seq<Seq<char>>)
    ensures
        classify(vals).len() == vals.len(),
        !classify(vals).nullable,
        classify(vals).storage == Storage::I64 <==> forall|i: int|
            0 <= i < vals.len() ==> (#[trigger] parse_i64_spec(vals[i])) is Some,
        classify(vals).storage == Storage::I64 ==> forall|i: int|
            0 <= i < vals.len() ==> #[trigger] classify(vals).cells[i] == ValueView::Integer(
                parse_i64_spec(vals[i]).unwrap(),
            ),
        classify(vals).storage == Storage::F64 ==> forall|i: int|
            0 <= i < vals.len() ==> #[trigger] is_real_literal(vals[i]),
        classify(vals).storage == Storage::F64 ==> forall|i: int|
            0 <= i < vals.len() ==> #[trigger] classify(vals).cells[i] == ValueView::Real(vals[i]),
        classify(vals).storage == Storage::Text <==> (exists|j: int|
            0 <= j < vals.len() && (#[trigger] parse_i64_spec(vals[j])) is None) && (exists|i: int|
            0 <= i < vals.len() && !#[trigger] is_real_literal(vals[i])),
        classify(vals).storage == Storage::Text ==> forall|i: int|
            0 <= i < vals.len() ==> #[trigger] classify(vals).cells[i] == ValueView::Text(vals[i]),
{
}

/// The table that a well-formed text describes: the first line names the
/// columns, and each further line is a row.
pub open spec fn table_of_text(s: Seq<char>) -> TableView {
    let rows = csv_rows(s);
    TableView {
        names: rows[0],
        cols: Seq::new(rows[0].len(), |j: int| classify(csv_field_values(rows, j))),
        nrows: (rows.len() - 1) as nat,
    }
}

pub open spec fn msg_csv() -> Seq<char> {
    "Could not parse CSV content"@
}

pub open spec fn msg_csv_empty() -> Seq<char> {
    "No header line"@
}

pub open spec fn msg_csv_fields() -> Seq<char> {
    "Lines with differing number of fields"@
}

/// The fields of each line of `source`.
fn csv_split(source: &str) -> (rows: Vec<Vec<String>>)
    ensures
        rows@.len() == csv_rows(source@).len(),
        forall|i: int| 0 <= i < rows@.len() ==> string_views((#[trigger] rows@[i])@) == csv_rows(source@)[i],
{
    let v = chars_of(source);
    let mut lines = split_chars(&v, '\n');
    let ghost p = split_on(source@, '\n');
    proof {
        lemma_split_on_len(source@, '\n');
    }
    assert(string_views(lines@) == p);
    let k = lines.len();
    if lines[k - 1].as_str().is_empty() {
        assert(p.last().len() == 0) by {
            assert(string_views(lines@)[k - 1] == lines@[k - 1]@);
        }
        lines.pop();
        assert(string_views(lines@) =~= p.drop_last());
    } else {
        assert(string_views(lines@)[k - 1] == lines@[k - 1]@);
    }
    let ghost ls = csv_lines(source@);
    assert(string_views(lines@) == ls);
    let mut rows: Vec<Vec<String>> = Vec::new();
    let mut i: usize = 0;
    while i < lines.len()
        invariant
            i <= lines.len(),
            string_views(lines@) == ls,
            ls == csv_lines(source@),
            rows@.len() == i,
            forall|k: int| 0 <= k < i ==> string_views((#[trigger] rows@[k])@) == csv_rows(source@)[k],
        decreases lines.len() - i,
    {
        let cs = chars_of(lines[i].as_str());
        assert(lines@[i as int]@ == ls[i as int]);
        let fields = split_chars(&cs, ',');
        rows.push(fields);
        i = i + 1;
    }
    rows
}

/// The named text columns of `source`: the first line names the columns, and
/// each further line gives one entry to each column.
pub fn parse_csv_as_text_cols(source: &str) -> (r: Result<Vec<(String, Vec<String>)>, &'static str>)
    ensures
        !csv_ok(source@) ==> r is Err,
        csv_rows(source@).len() == 0 ==> (r matches Err(e) && e@ == msg_csv_empty()),
        csv_rows(source@).len() > 0 && !csv_ok(source@) ==> (r matches Err(e) && e@ == msg_csv_fields()),
        csv_ok(source@) ==> (r matches Ok(cols) && cols@.len() == csv_rows(source@)[0].len()
            && forall|j: int|
            0 <= j < cols@.len() ==> (#[trigger] cols@[j]).0@ == csv_rows(source@)[0][j]
                && string_views(cols@[j].1@) == csv_field_values(csv_rows(source@), j)),
{
    let rows = csv_split(source);
    let ghost rs = csv_rows(source@);
    if rows.len() == 0 {
        return Err("No header line");
    }
    let ncols = rows[0].len();
    let mut i: usize = 1;
    while i < rows.len()
        invariant
            1 <= i <= rows.len(),
            rs == csv_rows(source@),
            rows@.len() == rs.len(),
            forall|k: int| 0 <= k < rows@.len() ==> string_views((#[trigger] rows@[k])@) == rs[k],
            ncols == rows@[0].len(),
            forall|k: int| 0 <= k < i ==> (#[trigger] rs[k]).len() == rs[0].len(),
        decreases rows.len() - i,
    {
        assert(string_views(rows@[i as int]@) == rs[i as int]);
        assert(string_views(rows@[0]@) == rs[0]);
        if rows[i].len() != ncols {
            return Err("Lines with differing number of fields");
        }
        i = i + 1;
    }
    assert(string_views(rows@[0]@) == rs[0]);
    let mut cols: Vec<(String, Vec<String>)> = Vec::new();
    let mut j: usize = 0;
    while j < ncols
        invariant
            j <= ncols == rows@[0].len() == rs[0].len(),
            rs == csv_rows(source@),
            rows@.len() == rs.len() >= 1,
            forall|k: int| 0 <= k < rows@.len() ==> string_views((#[trigger] rows@[k])@) == rs[k],
            forall|k: int| 0 <= k < rs.len() ==> (#[trigger] rs[k]).len() == rs[0].len(),
            cols@.len() == j,
            forall|jj: int|
                0 <= jj < j ==> (#[trigger] cols@[jj]).0@ == rs[0][jj] && string_views(cols@[jj].1@)
                    == csv_field_values(rs, jj),
        decreases ncols - j,
    {
        let name = rows[0][j].clone();
        assert(string_views(rows@[0]@)[j as int] == rows@[0]@[j as int]@);
        let mut values: Vec<String> = Vec::new();
        let mut i: usize = 1;
        while i < rows.len()
            invariant
                1 <= i <= rows.len() == rs.len(),
                j < ncols == rs[0].len(),
                forall|k: int| 0 <= k < rows@.len() ==> string_views((#[trigger] rows@[k])@) == rs[k],
                forall|k: int| 0 <= k < rs.len() ==> (#[trigger] rs[k]).len() == rs[0].len(),
                values@.len() == i - 1,
                forall|k: int| 0 <= k < i - 1 ==> (#[trigger] values@[k])@ == rs[k + 1][j as int],
            decreases rows.len() - i,
        {
            assert(rs[i as int].len() == ncols);
            assert(string_views(rows@[i as int]@)[j as int] == rows@[i as int]@[j as int]@);
            values.push(rows[i][j].clone());
            i = i + 1;
        }
        assert(string_views(values@) =~= csv_field_values(rs, j as int));
        cols.push((name, values));
        j = j + 1;
    }
    Ok(cols)
}

/// The column made of the text entries `values`, read as integers when they
/// all are, else as reals when they all are, else as text.
pub fn classify_column(values: Vec<String>) -> (c: Column)
    ensures
        c@ == classify(string_views(values@)),
        c@.len() == values.len(),
        c@.storage == Storage::I64 || c@.storage == Storage::F64 || c@.storage == Storage::Text,
        c@.storage == Storage::I64 <==> forall|i: int|
            0 <= i < values.len() ==> parse_i64_spec(#[trigger] values@[i]@) is Some,
        c@.storage == Storage::F64 ==> forall|i: int|
            0 <= i < values.len() ==> is_real_literal(#[trigger] values@[i]@),
        (exists|i: int| 0 <= i < values.len() && !is_real_literal(#[trigger] values@[i]@)) && (exists|
            j: int,
        | 0 <= j < values.len() && parse_i64_spec(#[trigger] values@[j]@) is None) ==> c@.storage
            == Storage::Text,
{
    let ghost vs = string_views(values@);
    let c = classify_entries(values);
    proof {
        lemma_classify_by_entries(vs);
        assert forall|i: int| 0 <= i < vs.len() implies #[trigger] vs[i] == values@[i]@ by {}
        if forall|i: int| 0 <= i < values.len() ==> parse_i64_spec(#[trigger] values@[i]@) is Some {
            assert forall|i: int| 0 <= i < vs.len() implies (#[trigger] parse_i64_spec(vs[i])) is Some by {
                assert(vs[i] == values@[i]@);
            }
        }
        if c@.storage == Storage::I64 {
            assert forall|i: int| 0 <= i < values.len() implies parse_i64_spec(#[trigger] values@[i]@) is Some by {
                assert(vs[i] == values@[i]@);
            }
        }
        if c@.storage == Storage::F64 {
            assert forall|i: int| 0 <= i < values.len() implies is_real_literal(#[trigger] values@[i]@) by {
                assert(vs[i] == values@[i]@);
            }
        }
    }
    c
}

/// The column that the text entries `values` make.
fn classify_entries(values: Vec<String>) -> (c: Column)
    ensures
        c@ == classify(string_views(values@)),
{
    let ghost vs = string_views(values@);
    let mut ints: Vec<i64> = Vec::new();
    let mut all_int = true;
    let mut i: usize = 0;
    while i < values.len()
        invariant
            i <= values.len(),
            vs == string_views(values@),
            all_int ==> ints@.len() == i,
            all_int ==> forall|k: int| 0 <= k < i ==> parse_i64_spec(#[trigger] vs[k]) == Some(ints@[k]),
            !all_int ==> !all_ints(vs),
        decreases values.len() - i,
    {
        assert(vs[i as int] == values@[i as int]@);
        match parse_i64(values[i].as_str()) {
            Some(x) => {
                if all_int {
                    ints.push(x);
                }
            },
            None => {
                all_int = false;
            },
        }
        i = i + 1;
    }
    if all_int {
        let c = Column::I64(ints);
        assert(int_cells(ints@) =~= classify(vs).cells);
        return c;
    }
    let mut all_real = true;
    let mut i: usize = 0;
    while i < values.len()
        invariant
            i <= values.len(),
            vs == string_views(values@),
            all_real == forall|k: int| 0 <= k < i ==> #[trigger] is_real_literal(vs[k]),
        decreases values.len() - i,
    {
        assert(vs[i as int] == values@[i as int]@);
        if !is_real_text(values[i].as_str()) {
            all_real = false;
        }
        i = i + 1;
    }
    if all_real {
        assert(real_cells(values@) =~= classify(vs).cells);
        Column::F64(values)
    } else {
        assert(text_cells(values@) =~= classify(vs).cells);
        Column::Str(values)
    }
}

/// The names and shown entries of `t` hold no comma or newline, and every
/// entry that reads as an integer is written as that integer is.
pub open spec fn csv_safe(t: TableView) -> bool {
    &&& forall|j: int|
        0 <= j < t.names.len() ==> free_of(#[trigger] t.names[j], ',') && free_of(t.names[j], '\n')
    &&& forall|j: int, i: int|
        0 <= j < t.cols.len() && 0 <= i < t.nrows ==> free_of(
            #[trigger] t.cols[j].display()[i],
            ',',
        ) && free_of(t.cols[j].display()[i], '\n') && is_canonical_int(t.cols[j].display()[i])
}

/// The shown text of an integer is written as that integer is.
pub proof fn lemma_int_display_canonical(v: i64)
    ensures
        is_canonical_int(display_text(ValueView::Integer(v))),
{
    lemma_parse_int_text(v);
}

/// Text entries that are each written as the integer they read as (if any)
/// are shown unchanged by the column they make.
pub proof fn lemma_classify_display(vals: Seq<Seq<char>>)
    requires
        forall|i: int| 0 <= i < vals.len() ==> is_canonical_int(#[trigger] vals[i]),
    ensures
        classify(vals).display() == vals,
{
    let c = classify(vals);
    assert forall|i: int| 0 <= i < vals.len() implies #[trigger] c.display()[i] == vals[i] by {
        if all_ints(vals) {
            assert(parse_i64_spec(vals[i]) is Some);
            assert(is_canonical_int(vals[i]));
            assert(display_text(c.cells[i]) == vals[i]);
        } else if all_reals(vals) {
            assert(display_text(c.cells[i]) == vals[i]);
        } else {
            assert(display_text(c.cells[i]) == vals[i]);
        }
    }
    assert(c.display() =~= vals);
}

/// Each row joined by commas.
pub open spec fn joined_lines(rows: Seq<Seq<Seq<char>>>) -> Seq<Seq<char>> {
    rows.map_values(|r: Seq<Seq<char>>| join(r, ','))
}

pub proof fn lemma_csv_text_lines(rows: Seq<Seq<Seq<char>>>)
    requires
        rows.len() >= 1,
    ensures
        csv_text(rows) == join(joined_lines(rows), '\n').push('\n'),
    decreases rows.len(),
{
    if rows.len() == 1 {
        assert(csv_text(rows.drop_last()) == Seq::<char>::empty());
        assert(joined_lines(rows) =~= seq![join(rows[0], ',')]);
        assert(csv_text(rows) =~= join(joined_lines(rows), '\n').push('\n'));
    } else {
        let init = rows.drop_last();
        lemma_csv_text_lines(init);
        assert(joined_lines(rows).drop_last() =~= joined_lines(init));
        assert(joined_lines(rows).last() == join(rows.last(), ','));
        assert(csv_text(rows) =~= join(joined_lines(rows), '\n').push('\n'));
    }
}

/// Writing a table as comma-separated text (`Table::to_string`) and reading
/// the text back (`Table::new_from_text`) succeeds, and gives a table with the
/// same column names, number of rows and shown text, when no name or entry
/// holds a comma or newline and each entry that reads as an integer is
/// written as that integer.
pub proof fn lemma_text_roundtrip(t: TableView)
    requires
        t.wf(),
        csv_safe(t),
    ensures
        csv_ok(csv_text(t.text_rows())),
        table_of_text(csv_text(t.text_rows())).wf(),
        table_of_text(csv_text(t.text_rows())).names == t.names,
        table_of_text(csv_text(t.text_rows())).nrows == t.nrows,
        table_of_text(csv_text(t.text_rows())).text_rows() == t.text_rows(),
{
    let rows = t.text_rows();
    let n = t.cols.len();
    assert forall|r: int| 0 <= r < rows.len() implies (#[trigger] rows[r]).len() == n by {
        if r > 0 {
            assert(rows[r] == t.data_row(r - 1));
        }
    }
    assert forall|r: int, k: int| 0 <= r < rows.len() && 0 <= k < rows[r].len() implies free_of(
        #[trigger] rows[r][k],
        ',',
    ) && free_of(rows[r][k], '\n') by {
        if r > 0 {
            assert(rows[r][k] == t.cols[k].display()[r - 1]);
        }
    }
    let lines = joined_lines(rows);
    assert forall|r: int| 0 <= r < lines.len() implies free_of(#[trigger] lines[r], '\n') by {
        assert forall|k: int| 0 <= k < rows[r].len() implies free_of(#[trigger] rows[r][k], '\n') by {
        }
        lemma_join_free(rows[r], ',', '\n');
    }
    lemma_csv_text_lines(rows);
    let s = csv_text(rows);
    lemma_split_join(lines, '\n');
    assert(s.drop_last() == join(lines, '\n'));
    assert(split_on(s, '\n') == lines.push(Seq::empty()));
    assert(csv_lines(s) =~= lines);
    assert forall|r: int| 0 <= r < rows.len() implies #[trigger] csv_rows(s)[r] == rows[r] by {
        assert forall|k: int| 0 <= k < rows[r].len() implies free_of(#[trigger] rows[r][k], ',') by {
        }
        lemma_split_join(rows[r], ',');
    }
    assert(csv_rows(s) =~= rows);
    let tv = table_of_text(s);
    assert forall|j: int| 0 <= j < n implies #[trigger] csv_field_values(rows, j) == t.cols[j].display() by {
        assert(csv_field_values(rows, j) =~= t.cols[j].display());
    }
    assert forall|j: int| 0 <= j < n implies (#[trigger] tv.cols[j]).display() == t.cols[j].display() by {
        let d = t.cols[j].display();
        assert(tv.cols[j] == classify(csv_field_values(rows, j)));
        assert forall|i: int| 0 <= i < d.len() implies is_canonical_int(#[trigger] d[i]) by {
        }
        lemma_classify_display(d);
    }
    assert forall|j: int| 0 <= j < tv.cols.len() implies (#[trigger] tv.cols[j]).len() == tv.nrows by {
        assert(tv.cols[j].display().len() == tv.cols[j].len());
    }
    assert forall|i: int| 0 <= i < tv.text_rows().len() implies #[trigger] tv.text_rows()[i] == rows[i] by {
        if i > 0 {
            assert(tv.data_row(i - 1) =~= t.data_row(i - 1));
        }
    }
    assert(tv.text_rows() =~= rows);
}

impl Table {
    /// Reads a table from comma-separated text: the first line names the
    /// columns, each further line is a row, and each column holds integers,
    /// reals or text as its entries allow.
    pub fn new_from_text(source: String) -> (r: Result<Table, &'static str>)
        ensures
            !csv_ok(source@) ==> (r matches Err(e) && e@ == msg_csv()),
            csv_ok(source@) ==> (r matches Ok(t) && t@ == table_of_text(source@) && t@.wf()),
    {
        match parse_csv_as_text_cols(source.as_str()) {
            Ok(cols) => {
                let ghost rs = csv_rows(source@);
                let ghost tv = table_of_text(source@);
                let mut cols = cols;
                let mut parsed_cols: Vec<Column> = Vec::new();
                let mut names: Vec<String> = Vec::new();
                let n = cols.len();
                let mut j: usize = 0;
                while cols.len() > 0
                    invariant
                        j + cols@.len() == n == rs[0].len(),
                        n <= usize::MAX,
                        rs == csv_rows(source@),
                        rs.len() >= 1,
                        csv_ok(source@),
                        tv == table_of_text(source@),
                        names@.len() == j,
                        parsed_cols@.len() == j,
                        forall|k: int| 0 <= k < j ==> (#[trigger] names@[k])@ == rs[0][k],
                        forall|k: int| 0 <= k < j ==> (#[trigger] parsed_cols@[k])@ == tv.cols[k],
                        forall|k: int|
                            0 <= k < cols@.len() ==> (#[trigger] cols@[k]).0@ == rs[0][j + k]
                                && string_views(cols@[k].1@) == csv_field_values(rs, j + k),
                    decreases cols@.len(),
                {
                    let ghost old_cols = cols@;
                    let (name, values) = cols.remove(0);
                    let c = classify_column(values);
                    names.push(name);
                    parsed_cols.push(c);
                    j = j + 1;
                    assert forall|k: int| 0 <= k < cols@.len() implies (#[trigger] cols@[k]).0@
                        == rs[0][j + k] && string_views(cols@[k].1@) == csv_field_values(rs, j + k) by {
                        assert(cols@[k] == old_cols[k + 1]);
                    }
                }
                proof {
                    assert(string_views(names@) =~= rs[0]);
                    assert(column_views(parsed_cols@) =~= tv.cols);
                    assert forall|k: int| 0 <= k < tv.cols.len() implies (#[trigger] tv.cols[k]).len()
                        == tv.nrows by {
                        assert(tv.cols[k].len() == csv_field_values(rs, k).len());
                    }
                    assert(same_lengths(column_views(parsed_cols@)));
                    lemma_split_on_len(csv_lines(source@)[0], ',');
                    assert(rs[0] == split_on(csv_lines(source@)[0], ','));
                    assert(parsed_cols@.len() >= 1);
                    assert(column_views(parsed_cols@)[0] == parsed_cols@[0]@);
                    assert(parsed_cols@[0]@.len() == tv.nrows);
                }
                match Table::new(names, parsed_cols) {
                    Ok(t) => Ok(t),
                    Err(e) => Err(e),
                }
            },
            Err(_) => Err("Could not parse CSV content"),
        }
    }
}

} // verus!
