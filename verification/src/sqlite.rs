//! Building a table from the rows of a SQLite query: each column is filled
//! according to the type its declaration names.
use vstd::prelude::*;
use crate::column::{
    Column,
    ColumnKind,
    ColumnView,
    NullableColumn,
    Value,
    Storage,
    ValueView,
    copy_value,
    fits,
    opt_blob_cells,
    opt_int_cells,
    opt_real_cells,
    opt_text_cells,
};
use crate::table::{Table, column_views};
use crate::text::{str_eq, string_views};

verus! {

/// A column being filled from the rows of a query.
#[derive(Debug)]
pub enum SqliteColumn {
    I64(Vec<Option<i64>>),
    F64(Vec<Option<String>>),
    Str(Vec<Option<String>>),
    Bytes(Vec<Option<Vec<u8>>>),
}

impl View for SqliteColumn {
    type V = ColumnView;

    open spec fn view(&self) -> ColumnView {
        match self {
            SqliteColumn::I64(v) => ColumnView {
                storage: Storage::I64,
                nullable: true,
                cells: opt_int_cells(v@),
            },
            SqliteColumn::F64(v) => ColumnView {
                storage: Storage::F64,
                nullable: true,
                cells: opt_real_cells(v@),
            },
            SqliteColumn::Str(v) => ColumnView {
                storage: Storage::Text,
                nullable: true,
                cells: opt_text_cells(v@),
            },
            SqliteColumn::Bytes(v) => ColumnView {
                storage: Storage::Bytes,
                nullable: true,
                cells: opt_blob_cells(v@),
            },
        }
    }
}

/// How a column read from SQLite stores values of kind `k`: 64-bit integers,
/// double-precision reals, text or bytes.
pub open spec fn kind_storage(k: ColumnKind) -> Storage {
    match k {
        ColumnKind::Integer => Storage::I64,
        ColumnKind::Real => Storage::F64,
        ColumnKind::Text => Storage::Text,
        ColumnKind::Blob => Storage::Bytes,
    }
}

/// The kind that a declared SQLite type names, if it is one of `integer`,
/// `real`, `text` and `blob`.
pub open spec fn decl_kind(t: Seq<char>) -> Option<ColumnKind> {
    if t == "integer"@ {
        Some(ColumnKind::Integer)
    } else if t == "real"@ {
        Some(ColumnKind::Real)
    } else if t == "text"@ {
        Some(ColumnKind::Text)
    } else if t == "blob"@ {
        Some(ColumnKind::Blob)
    } else {
        None
    }
}

pub open spec fn msg_invalid_column_type() -> Seq<char> {
    "Invalid column type"@
}

pub open spec fn msg_invalid_type() -> Seq<char> {
    "Invalid type"@
}

pub open spec fn msg_no_columns() -> Seq<char> {
    "No columns available"@
}

pub open spec fn opt_string_views(v: Seq<Option<String>>) -> Seq<Option<Seq<char>>> {
    v.map_values(
        |o: Option<String>|
            match o {
                Some(s) => Some(s@),
                None => None,
            },
    )
}

pub open spec fn row_views(rows: Seq<Vec<Value>>) -> Seq<Seq<ValueView>> {
    rows.map_values(|r: Vec<Value>| r@.map_values(|v: Value| v@))
}

/// Some declared type is given and names no kind.
pub open spec fn some_invalid_type(types: Seq<Option<Seq<char>>>) -> bool {
    exists|i: int| 0 <= i < types.len() && (#[trigger] types[i] matches Some(t) && decl_kind(t) is None)
}

/// Some column has no declared type.
pub open spec fn some_missing_type(types: Seq<Option<Seq<char>>>) -> bool {
    exists|i: int| 0 <= i < types.len() && #[trigger] types[i] is None
}

/// The kind each declared type names (when every type is given and valid).
pub open spec fn decl_kinds(types: Seq<Option<Seq<char>>>) -> Seq<ColumnKind> {
    types.map_values(|o: Option<Seq<char>>| decl_kind(o.unwrap()).unwrap())
}

/// Every value fits the kind of its column.
pub open spec fn all_fit(kinds: Seq<ColumnKind>, rows: Seq<Seq<ValueView>>) -> bool {
    forall|r: int, j: int|
        0 <= r < rows.len() && 0 <= j < kinds.len() ==> fits(kinds[j], #[trigger] rows[r][j])
}

/// The kinds of the columns that have a declared type, in order.
pub open spec fn typed_kinds(types: Seq<Option<Seq<char>>>) -> Seq<ColumnKind>
    decreases types.len(),
{
    if types.len() == 0 {
        Seq::empty()
    } else {
        let rest = typed_kinds(types.drop_last());
        match types.last() {
            Some(t) => rest.push(decl_kind(t).unwrap()),
            None => rest,
        }
    }
}

/// There is a first row, and one of its first values does not fit the kind of
/// the column with a declared type at the same place among such columns.
pub open spec fn first_row_misfits(types: Seq<Option<Seq<char>>>, rows: Seq<Seq<ValueView>>) -> bool {
    &&& rows.len() > 0
    &&& exists|i: int|
        0 <= i < typed_kinds(types).len() && !fits(typed_kinds(types)[i], #[trigger] rows[0][i])
}

/// A query whose columns lack a declared type, with no invalid one, can only
/// be read when a value of its first row fails to fit (the values go to the
/// columns with a declared type, in order).
pub open spec fn readable_types(types: Seq<Option<Seq<char>>>, rows: Seq<Seq<ValueView>>) -> bool {
    some_missing_type(types) && !some_invalid_type(types) ==> first_row_misfits(types, rows)
}

/// The entries of column `j`, one per row.
pub open spec fn column_cells(rows: Seq<Seq<ValueView>>, j: int) -> Seq<ValueView> {
    Seq::new(rows.len(), |r: int| rows[r][j])
}

impl SqliteColumn {
    /// An empty column for the declared SQLite type `decl_type`.
    pub fn new(decl_type: &str) -> (r: Result<Self, &'static str>)
        ensures
            decl_kind(decl_type@) is None ==> (r matches Err(e) && e@ == msg_invalid_column_type()),
            decl_kind(decl_type@) matches Some(k) ==> (r matches Ok(c) && c@.storage == kind_storage(k)
                && c@.cells == Seq::<ValueView>::empty()),
    {
        if str_eq(decl_type, "integer") {
            let c = SqliteColumn::I64(Vec::new());
            assert(c@.cells =~= Seq::<ValueView>::empty());
            Ok(c)
        } else if str_eq(decl_type, "real") {
            let c = SqliteColumn::F64(Vec::new());
            assert(c@.cells =~= Seq::<ValueView>::empty());
            Ok(c)
        } else if str_eq(decl_type, "text") {
            let c = SqliteColumn::Str(Vec::new());
            assert(c@.cells =~= Seq::<ValueView>::empty());
            Ok(c)
        } else if str_eq(decl_type, "blob") {
            let c = SqliteColumn::Bytes(Vec::new());
            assert(c@.cells =~= Seq::<ValueView>::empty());
            Ok(c)
        } else {
            Err("Invalid column type")
        }
    }

    /// Appends `value` when it fits the column; leaves the column as it was
    /// and fails otherwise.
    pub fn try_append(&mut self, value: Value) -> (r: Result<(), &'static str>)
        ensures
            final(self)@.storage == old(self)@.storage,
            fits(old(self)@.kind(), value@) ==> r is Ok && final(self)@.cells == old(self)@.cells.push(
                value@,
            ),
            !fits(old(self)@.kind(), value@) ==> (r matches Err(e) && e@ == msg_invalid_type())
                && final(self)@.cells == old(self)@.cells,
    {
        let ghost vv = value@;
        match self {
            SqliteColumn::I64(v) => {
                let ghost before = v@;
                match value {
                    Value::Integer(i) => v.push(Some(i)),
                    Value::Null => v.push(None),
                    _ => {
                        return Err("Invalid type");
                    },
                }
                assert(opt_int_cells(v@) =~= opt_int_cells(before).push(vv));
            },
            SqliteColumn::F64(v) => {
                let ghost before = v@;
                match value {
                    Value::Real(x) => v.push(Some(x)),
                    Value::Null => v.push(None),
                    _ => {
                        return Err("Invalid type");
                    },
                }
                assert(opt_real_cells(v@) =~= opt_real_cells(before).push(vv));
            },
            SqliteColumn::Str(v) => {
                let ghost before = v@;
                match value {
                    Value::Text(x) => v.push(Some(x)),
                    Value::Null => v.push(None),
                    _ => {
                        return Err("Invalid type");
                    },
                }
                assert(opt_text_cells(v@) =~= opt_text_cells(before).push(vv));
            },
            SqliteColumn::Bytes(v) => {
                let ghost before = v@;
                match value {
                    Value::Blob(x) => v.push(Some(x)),
                    Value::Null => v.push(None),
                    _ => {
                        return Err("Invalid type");
                    },
                }
                assert(opt_blob_cells(v@) =~= opt_blob_cells(before).push(vv));
            },
        }
        Ok(())
    }
}

impl vstd::std_specs::convert::FromSpecImpl<SqliteColumn> for NullableColumn {
    open spec fn obeys_from_spec() -> bool {
        true
    }

    open spec fn from_spec(col: SqliteColumn) -> NullableColumn {
        match col {
            SqliteColumn::I64(v) => NullableColumn::I64(v),
            SqliteColumn::F64(v) => NullableColumn::F64(v),
            SqliteColumn::Str(v) => NullableColumn::Str(v),
            SqliteColumn::Bytes(v) => NullableColumn::Bytes(v),
        }
    }
}

impl From<SqliteColumn> for NullableColumn {
    fn from(col: SqliteColumn) -> (r: NullableColumn) {
        match col {
            SqliteColumn::I64(v) => NullableColumn::I64(v),
            SqliteColumn::F64(v) => NullableColumn::F64(v),
            SqliteColumn::Str(v) => NullableColumn::Str(v),
            SqliteColumn::Bytes(v) => NullableColumn::Bytes(v),
        }
    }
}

/// The kind a declared SQLite type names, if any.
pub fn decl_type_kind(t: &str) -> (k: Option<ColumnKind>)
    ensures
        k == decl_kind(t@),
{
    if str_eq(t, "integer") {
        Some(ColumnKind::Integer)
    } else if str_eq(t, "real") {
        Some(ColumnKind::Real)
    } else if str_eq(t, "text") {
        Some(ColumnKind::Text)
    } else if str_eq(t, "blob") {
        Some(ColumnKind::Blob)
    } else {
        None
    }
}

/// Whether `v` can stand in a column of kind `k`.
pub fn value_fits(k: ColumnKind, v: &Value) -> (r: bool)
    ensures
        r == fits(k, v@),
{
    match v {
        Value::Null => true,
        Value::Integer(_) => k == ColumnKind::Integer,
        Value::Real(_) => k == ColumnKind::Real,
        Value::Text(_) => k == ColumnKind::Text,
        Value::Blob(_) => k == ColumnKind::Blob,
    }
}

/// Whether `build_table_from_sqlite` can read a query with these declared
/// types and rows (the query cannot be read, and stops the program, when a
/// column lacks a declared type, none is invalid, and the values of the first
/// row all fit the columns they go to).
pub fn sqlite_types_readable(decl_types: &Vec<Option<String>>, rows: &Vec<Vec<Value>>) -> (r: bool)
    requires
        forall|i: int| 0 <= i < rows.len() ==> (#[trigger] rows@[i]).len() == decl_types.len(),
    ensures
        r == readable_types(opt_string_views(decl_types@), row_views(rows@)),
{
    let ghost types = opt_string_views(decl_types@);
    let ghost rv = row_views(rows@);
    let mut kinds: Vec<ColumnKind> = Vec::new();
    let mut missing = false;
    let mut invalid = false;
    let mut i: usize = 0;
    while i < decl_types.len()
        invariant
            i <= decl_types.len(),
            types == opt_string_views(decl_types@),
            !invalid ==> kinds@ == typed_kinds(types.take(i as int)),
            kinds@.len() <= i,
            missing == some_missing_type(types.take(i as int)),
            invalid == some_invalid_type(types.take(i as int)),
        decreases decl_types.len() - i,
    {
        proof {
            assert(types.take(i + 1).drop_last() =~= types.take(i as int));
            assert(types.take(i + 1).last() == types[i as int]);
        }
        match &decl_types[i] {
            Some(t) => {
                assert(types[i as int] == Some(t@));
                match decl_type_kind(t.as_str()) {
                    Some(k) => {
                        kinds.push(k);
                        assert(typed_kinds(types.take(i + 1)) == typed_kinds(types.take(i as int)).push(k));
                    },
                    None => {
                        invalid = true;
                    },
                }
            },
            None => {
                missing = true;
                assert(typed_kinds(types.take(i + 1)) == typed_kinds(types.take(i as int)));
            },
        }
        proof {
            let t1 = types.take(i + 1);
            let t0 = types.take(i as int);
            if some_missing_type(t1) {
                let w = choose|k: int| 0 <= k < t1.len() && #[trigger] t1[k] is None;
                if w < i {
                    assert(t0[w] is None);
                }
            }
            if some_invalid_type(t1) {
                let w = choose|k: int| 0 <= k < t1.len() && (#[trigger] t1[k] matches Some(t) && decl_kind(t) is None);
                if w < i {
                    assert(t0[w] == t1[w]);
                }
            }
            if missing && i < i + 1 && some_missing_type(t0) {
                let w = choose|k: int| 0 <= k < t0.len() && #[trigger] t0[k] is None;
                assert(t1[w] is None);
            }
            if invalid && some_invalid_type(t0) {
                let w = choose|k: int| 0 <= k < t0.len() && (#[trigger] t0[k] matches Some(t) && decl_kind(t) is None);
                assert(t1[w] == t0[w]);
            }
            if types[i as int] is None {
                assert(t1[i as int] is None);
            }
            if types[i as int] matches Some(t) && decl_kind(t) is None {
                assert(t1[i as int] == types[i as int]);
            }
        }
        i = i + 1;
    }
    assert(types.take(i as int) =~= types);
    if !missing || invalid {
        return true;
    }
    if rows.len() == 0 {
        return false;
    }
    let mut k: usize = 0;
    while k < kinds.len()
        invariant
            k <= kinds.len() <= decl_types.len() == rows@[0].len(),
            rows.len() > 0,
            kinds@ == typed_kinds(types),
            types == opt_string_views(decl_types@),
            some_missing_type(types),
            !some_invalid_type(types),
            rv == row_views(rows@),
            forall|q: int| 0 <= q < k ==> fits(typed_kinds(types)[q], #[trigger] rv[0][q]),
        decreases kinds.len() - k,
    {
        assert(rv[0][k as int] == rows@[0]@[k as int]@);
        if !value_fits(kinds[k], &rows[0][k]) {
            assert(!fits(typed_kinds(types)[k as int], rv[0][k as int]));
            assert(first_row_misfits(types, rv));
            return true;
        }
        k = k + 1;
    }
    false
}

/// The table a query gave: `names` and `decl_types` describe its columns and
/// each of `rows` holds one value per column. Every declared type must name
/// `integer`, `real`, `text` or `blob`, and every value must fit its column.
/// When some column has no declared type, the values of the first row go to
/// the columns that have one, in order, and one of them fails to fit.
pub fn build_table_from_sqlite(
    names: Vec<String>,
    decl_types: Vec<Option<String>>,
    rows: Vec<Vec<Value>>,
) -> (r: Result<Table, &'static str>)
    requires
        names.len() == decl_types.len(),
        forall|i: int| 0 <= i < rows.len() ==> (#[trigger] rows@[i]).len() == names.len(),
        readable_types(opt_string_views(decl_types@), row_views(rows@)),
    ensures
        names.len() == 0 ==> (r matches Err(e) && e@ == msg_no_columns()),
        names.len() > 0 && some_invalid_type(opt_string_views(decl_types@)) ==> (r matches Err(e)
            && e@ == msg_invalid_column_type()),
        names.len() > 0 && !some_invalid_type(opt_string_views(decl_types@)) && some_missing_type(
            opt_string_views(decl_types@),
        ) ==> (r matches Err(e) && e@ == msg_invalid_type()),
        names.len() > 0 && !some_invalid_type(opt_string_views(decl_types@)) && !some_missing_type(
            opt_string_views(decl_types@),
        ) && !all_fit(
            decl_kinds(opt_string_views(decl_types@)),
            row_views(rows@),
        ) ==> (r matches Err(e) && e@ == msg_invalid_type()),
        names.len() > 0 && !some_invalid_type(opt_string_views(decl_types@)) && !some_missing_type(
            opt_string_views(decl_types@),
        ) && all_fit(
            decl_kinds(opt_string_views(decl_types@)),
            row_views(rows@),
        ) ==> (r matches Ok(t) && t@.wf() && t@.names == string_views(names@) && t@.nrows
            == rows.len() && t@.cols.len() == names.len() && forall|j: int|
            0 <= j < names.len() ==> (#[trigger] t@.cols[j]).storage == kind_storage(decl_kinds(
                opt_string_views(decl_types@),
            )[j]) && t@.cols[j].cells == column_cells(row_views(rows@), j) && t@.cols[j].nullable
                == exists|r: int| 0 <= r < rows.len() && #[trigger] column_cells(row_views(rows@), j)[r] is Null),
{
    let ghost types = opt_string_views(decl_types@);
    let ghost rv = row_views(rows@);
    if names.len() == 0 {
        return Err("No columns available");
    }
    let n = names.len();
    // an empty column for each declared type
    let mut sqlite_cols: Vec<SqliteColumn> = Vec::new();
    let mut missing = false;
    let mut i: usize = 0;
    while i < decl_types.len()
        invariant
            i <= decl_types.len() == n == names.len(),
            n > 0,
            types == opt_string_views(decl_types@),
            forall|k: int| 0 <= k < i ==> (#[trigger] types[k] matches Some(t) ==> decl_kind(t) is Some),
            missing ==> some_missing_type(types),
            !missing ==> sqlite_cols.len() == i,
            !missing ==> forall|k: int| 0 <= k < i ==> (#[trigger] types[k]) is Some,
            !missing ==> forall|k: int|
                0 <= k < i ==> (#[trigger] sqlite_cols@[k])@.storage == kind_storage(decl_kind(types[k].unwrap()).unwrap())
                    && sqlite_cols@[k]@.cells == Seq::<ValueView>::empty(),
        decreases decl_types.len() - i,
    {
        match &decl_types[i] {
            Some(t) => {
                assert(types[i as int] == Some(t@));
                match SqliteColumn::new(t.as_str()) {
                    Ok(c) => {
                        sqlite_cols.push(c);
                    },
                    Err(e) => {
                        return Err(e);
                    },
                }
            },
            None => {
                assert(types[i as int] is None);
                missing = true;
            },
        }
        i = i + 1;
    }
    if missing {
        // the first row holds a value that does not fit the column it goes to
        return Err("Invalid type");
    }
    proof {
        assert(!some_invalid_type(types));
        assert(!some_missing_type(types));
    }
    let ghost kinds = decl_kinds(types);
    // fill each column from the rows
    let mut nulls: Vec<NullableColumn> = Vec::new();
    let mut j: usize = 0;
    while j < n
        invariant
            j <= n == names.len() == decl_types.len(),
            n > 0,
            kinds.len() == n,
            !some_invalid_type(types),
            types == opt_string_views(decl_types@),
            rv == row_views(rows@),
            kinds == decl_kinds(types),
            forall|k: int| 0 <= k < n ==> (#[trigger] types[k]) is Some,
            forall|k: int| 0 <= k < rows.len() ==> (#[trigger] rows@[k]).len() == n,
            sqlite_cols.len() == n - j,
            forall|k: int|
                0 <= k < n - j ==> (#[trigger] sqlite_cols@[k])@.storage == kind_storage(kinds[k + j])
                    && sqlite_cols@[k]@.cells == Seq::<ValueView>::empty(),
            nulls.len() == j,
            forall|k: int|
                0 <= k < j ==> (#[trigger] nulls@[k])@.storage == kind_storage(kinds[k]) && nulls@[k]@.cells
                    == column_cells(rv, k),
            forall|r: int, k: int| 0 <= r < rows.len() && 0 <= k < j ==> fits(kinds[k], #[trigger] rv[r][k]),
        decreases n - j,
    {
        let ghost old_cols = sqlite_cols@;
        let mut col = sqlite_cols.remove(0);
        assert(col == old_cols[0]);
        assert forall|k: int| 0 <= k < n - j - 1 implies (#[trigger] sqlite_cols@[k])@.storage == kind_storage(kinds[k + j + 1])
            && sqlite_cols@[k]@.cells == Seq::<ValueView>::empty() by {
            assert(sqlite_cols@[k] == old_cols[k + 1]);
        }
        let mut r: usize = 0;
        while r < rows.len()
            invariant
                r <= rows.len(),
                j < n == names.len(),
                kinds.len() == n,
                types == opt_string_views(decl_types@),
                !some_invalid_type(types),
                kinds == decl_kinds(types),
                rv == row_views(rows@),
                forall|k: int| 0 <= k < rows.len() ==> (#[trigger] rows@[k]).len() == n,
                col@.storage == kind_storage(kinds[j as int]),
                col@.cells == Seq::new(r as nat, |q: int| rv[q][j as int]),
                forall|q: int| 0 <= q < r ==> fits(kinds[j as int], #[trigger] rv[q][j as int]),
            decreases rows.len() - r,
        {
            assert(rv[r as int] == rows@[r as int]@.map_values(|v: Value| v@));
            assert(rv[r as int][j as int] == rows@[r as int]@[j as int]@);
            let v = copy_value(&rows[r][j]);
            match col.try_append(v) {
                Ok(()) => {},
                Err(e) => {
                    proof {
                        assert(!all_fit(kinds, rv)) by {
                            assert(!fits(kinds[j as int], rv[r as int][j as int]));
                        }
                    }
                    return Err(e);
                },
            }
            r = r + 1;
            assert(col@.cells =~= Seq::new(r as nat, |q: int| rv[q][j as int]));
        }
        let nc = NullableColumn::from(col);
        assert(nc@.cells =~= column_cells(rv, j as int));
        nulls.push(nc);
        j = j + 1;
    }
    proof {
        assert forall|q: int, k: int| 0 <= q < rv.len() && 0 <= k < kinds.len() implies fits(
            kinds[k],
            #[trigger] rv[q][k],
        ) by {
        }
    }
    let mut cols: Vec<Column> = Vec::new();
    let mut k: usize = 0;
    let mut nulls = nulls;
    while nulls.len() > 0
        invariant
            k + nulls.len() == n,
            n > 0,
            rv.len() == rows.len(),
            kinds.len() == n,
            cols.len() == k,
            forall|q: int|
                0 <= q < k ==> (#[trigger] cols@[q])@.storage == kind_storage(kinds[q]) && cols@[q]@.cells
                    == column_cells(rv, q) && cols@[q]@.nullable == exists|r: int|
                    0 <= r < rv.len() && #[trigger] column_cells(rv, q)[r] is Null,
            forall|q: int|
                0 <= q < nulls.len() ==> (#[trigger] nulls@[q])@.storage == kind_storage(kinds[q + k]) && nulls@[q]@.cells
                    == column_cells(rv, q + k),
        decreases nulls.len(),
    {
        let ghost old_nulls = nulls@;
        let c = nulls.remove(0);
        assert(c == old_nulls[0]);
        assert forall|q: int| 0 <= q < nulls.len() implies (#[trigger] nulls@[q])@.storage == kind_storage(kinds[q + k + 1])
            && nulls@[q]@.cells == column_cells(rv, q + k + 1) by {
            assert(nulls@[q] == old_nulls[q + 1]);
        }
        cols.push(c.to_column());
        k = k + 1;
    }
    proof {
        assert forall|q: int| 0 <= q < cols.len() implies (#[trigger] column_views(cols@)[q]).len()
            == column_views(cols@)[0].len() by {
            assert(column_views(cols@)[q] == cols@[q]@);
            assert(column_views(cols@)[0] == cols@[0]@);
        }
    }
    match Table::new(names, cols) {
        Ok(t) => {
            proof {
                assert forall|q: int| 0 <= q < n implies (#[trigger] t@.cols[q]).storage == kind_storage(kinds[q])
                    && t@.cols[q].cells == column_cells(rv, q) && t@.cols[q].nullable == exists|r: int|
                    0 <= r < rv.len() && #[trigger] column_cells(rv, q)[r] is Null by {
                    assert(t@.cols[q] == cols@[q]@);
                }
            }
            Ok(t)
        },
        Err(e) => Err(e),
    }
}

} // verus!
