//! Columns of values of one kind: integers of several widths, reals (held by
//! their decimal text), decimal numbers, text and binary data, each possibly
//! with missing (null) entries.
use vstd::prelude::*;
use crate::numeric::{decimal_text, i64_text, int_text};
use crate::text::string_views;

verus! {

/// The kind of the values a column holds; each kind has its SQLite type name.
#[derive(PartialEq, Eq, Structural, Clone, Copy, Debug)]
pub enum ColumnKind {
    Integer,
    Real,
    Text,
    Blob,
}

/// One value of a table, or a missing one.
#[derive(Debug)]
pub enum Value {
    Null,
    Integer(i64),
    /// A real number, held by its decimal text.
    Real(String),
    Text(String),
    Blob(Vec<u8>),
}

pub enum ValueView {
    Null,
    Integer(i64),
    Real(Seq<char>),
    Text(Seq<char>),
    Blob(Seq<u8>),
}

impl View for Value {
    type V = ValueView;

    open spec fn view(&self) -> ValueView {
        match self {
            Value::Null => ValueView::Null,
            Value::Integer(i) => ValueView::Integer(*i),
            Value::Real(s) => ValueView::Real(s@),
            Value::Text(s) => ValueView::Text(s@),
            Value::Blob(b) => ValueView::Blob(b@),
        }
    }
}

/// A column with no missing values.
#[derive(Debug)]
pub enum Column {
    I64(Vec<i64>),
    /// Real numbers, each held by its decimal text.
    F64(Vec<String>),
    Str(Vec<String>),
    Bytes(Vec<Vec<u8>>),
    Nullable(NullableColumn),
    I16(Vec<i16>),
    I32(Vec<i32>),
    U32(Vec<u32>),
    /// Single-precision reals, each held by its decimal text.
    F32(Vec<String>),
    /// Decimal numbers.
    Numeric(Vec<DecimalValue>),
}

/// A decimal number: `mantissa / 10^scale`, with a mantissa of at most 96
/// bits and a scale of at most 28.
#[derive(Debug, Clone, Copy)]
pub struct DecimalValue {
    mantissa: i128,
    scale: u32,
}

/// The largest mantissa a decimal number can have.
pub open spec fn max_mantissa() -> int {
    0xFFFF_FFFF_FFFF_FFFF_FFFF_FFFF
}

/// A mantissa and scale that make a decimal number.
pub open spec fn valid_decimal(mantissa: i128, scale: u32) -> bool {
    -max_mantissa() <= mantissa <= max_mantissa() && scale <= 28
}

/// How the decimal number `mantissa / 10^scale` is written: a `-` when the
/// mantissa is negative, then the digits of its magnitude (none for zero),
/// padded with leading zeros to at least `scale` digits, with a `.` before the
/// last `scale` of them when `scale` is positive; a `0` stands for an empty
/// whole part, and for an empty writing.
pub open spec fn decimal_display(mantissa: i128, scale: u32) -> Seq<char> {
    let mag: nat = if mantissa < 0 { (-mantissa) as nat } else { mantissa as nat };
    let digits = if mag == 0 { Seq::<char>::empty() } else { decimal_text(mag) };
    let padded = if digits.len() < scale {
        Seq::new((scale - digits.len()) as nat, |i: int| '0') + digits
    } else {
        digits
    };
    let whole = padded.take(padded.len() - scale);
    let frac = padded.skip(padded.len() - scale);
    let body = if scale == 0 {
        if padded.len() == 0 { seq!['0'] } else { padded }
    } else {
        (if whole.len() == 0 { seq!['0'] } else { whole }) + seq!['.'] + frac
    };
    if mantissa < 0 { seq!['-'] + body } else { body }
}

/// The writing of the decimal `mantissa / 10^scale`: `to_string` of the
/// `rust_decimal::Decimal` that `Decimal::from_i128_with_scale` makes. That
/// constructor panics outside the range that `requires` states; the text is
/// the one `decimal_display` describes (sign, digits padded to the scale, the
/// point before the last `scale` digits).
#[verifier::external_body]
fn format_decimal(mantissa: i128, scale: u32) -> (s: String)
    requires
        valid_decimal(mantissa, scale),
    ensures
        s@ == decimal_display(mantissa, scale),
{
    rust_decimal::Decimal::from_i128_with_scale(mantissa, scale).to_string()
}

impl View for DecimalValue {
    type V = (i128, u32);

    closed spec fn view(&self) -> (i128, u32) {
        (self.mantissa, self.scale)
    }
}

impl DecimalValue {
    #[verifier::type_invariant]
    spec fn inv(self) -> bool {
        valid_decimal(self.mantissa, self.scale)
    }

    /// The decimal `mantissa / 10^scale`, when the mantissa has at most 96
    /// bits and the scale is at most 28.
    pub fn new(mantissa: i128, scale: u32) -> (r: Option<DecimalValue>)
        ensures
            valid_decimal(mantissa, scale) ==> (r matches Some(d) && d@ == (mantissa, scale)),
            !valid_decimal(mantissa, scale) ==> r is None,
    {
        if scale <= 28 && -0xFFFF_FFFF_FFFF_FFFF_FFFF_FFFFi128 <= mantissa
            && mantissa <= 0xFFFF_FFFF_FFFF_FFFF_FFFF_FFFFi128 {
            Some(DecimalValue { mantissa, scale })
        } else {
            None
        }
    }

    pub fn mantissa(&self) -> (m: i128)
        ensures
            m == self@.0,
    {
        self.mantissa
    }

    pub fn scale(&self) -> (s: u32)
        ensures
            s == self@.1,
            valid_decimal(self@.0, self@.1),
    {
        proof {
            use_type_invariant(self);
        }
        self.scale
    }

    /// How the number is written.
    pub fn to_text(&self) -> (s: String)
        ensures
            s@ == decimal_display(self@.0, self@.1),
    {
        proof {
            use_type_invariant(self);
        }
        format_decimal(self.mantissa, self.scale)
    }
}

/// How a column stores its values.
#[derive(PartialEq, Eq, Structural, Clone, Copy, Debug)]
pub enum Storage {
    I16,
    I32,
    U32,
    I64,
    F32,
    F64,
    Decimal,
    Text,
    Bytes,
}

/// The kind of the values a storage holds.
pub open spec fn storage_kind(s: Storage) -> ColumnKind {
    match s {
        Storage::I16 | Storage::I32 | Storage::U32 | Storage::I64 => ColumnKind::Integer,
        Storage::F32 | Storage::F64 | Storage::Decimal => ColumnKind::Real,
        Storage::Text => ColumnKind::Text,
        Storage::Bytes => ColumnKind::Blob,
    }
}

/// A column whose entries may be missing.
#[derive(Debug)]
pub enum NullableColumn {
    I64(Vec<Option<i64>>),
    F64(Vec<Option<String>>),
    Str(Vec<Option<String>>),
    Bytes(Vec<Option<Vec<u8>>>),
}

/// What a column holds: how it stores its values, whether it may hold
/// missing entries, and its entries in order.
pub struct ColumnView {
    pub storage: Storage,
    pub nullable: bool,
    pub cells: Seq<ValueView>,
}

pub open spec fn opt_int(o: Option<i64>) -> ValueView {
    match o {
        Some(i) => ValueView::Integer(i),
        None => ValueView::Null,
    }
}

pub open spec fn opt_real(o: Option<String>) -> ValueView {
    match o {
        Some(s) => ValueView::Real(s@),
        None => ValueView::Null,
    }
}

pub open spec fn opt_text(o: Option<String>) -> ValueView {
    match o {
        Some(s) => ValueView::Text(s@),
        None => ValueView::Null,
    }
}

pub open spec fn opt_blob(o: Option<Vec<u8>>) -> ValueView {
    match o {
        Some(b) => ValueView::Blob(b@),
        None => ValueView::Null,
    }
}

pub open spec fn int_cells(v: Seq<i64>) -> Seq<ValueView> {
    v.map_values(|x: i64| ValueView::Integer(x))
}

pub open spec fn real_cells(v: Seq<String>) -> Seq<ValueView> {
    v.map_values(|s: String| ValueView::Real(s@))
}

pub open spec fn text_cells(v: Seq<String>) -> Seq<ValueView> {
    v.map_values(|s: String| ValueView::Text(s@))
}

pub open spec fn blob_cells(v: Seq<Vec<u8>>) -> Seq<ValueView> {
    v.map_values(|b: Vec<u8>| ValueView::Blob(b@))
}

pub open spec fn opt_int_cells(v: Seq<Option<i64>>) -> Seq<ValueView> {
    v.map_values(|o: Option<i64>| opt_int(o))
}

pub open spec fn opt_real_cells(v: Seq<Option<String>>) -> Seq<ValueView> {
    v.map_values(|o: Option<String>| opt_real(o))
}

pub open spec fn opt_text_cells(v: Seq<Option<String>>) -> Seq<ValueView> {
    v.map_values(|o: Option<String>| opt_text(o))
}

pub open spec fn opt_blob_cells(v: Seq<Option<Vec<u8>>>) -> Seq<ValueView> {
    v.map_values(|o: Option<Vec<u8>>| opt_blob(o))
}

impl View for NullableColumn {
    type V = ColumnView;

    open spec fn view(&self) -> ColumnView {
        match self {
            NullableColumn::I64(v) => ColumnView {
                storage: Storage::I64,
                nullable: true,
                cells: opt_int_cells(v@),
            },
            NullableColumn::F64(v) => ColumnView {
                storage: Storage::F64,
                nullable: true,
                cells: opt_real_cells(v@),
            },
            NullableColumn::Str(v) => ColumnView {
                storage: Storage::Text,
                nullable: true,
                cells: opt_text_cells(v@),
            },
            NullableColumn::Bytes(v) => ColumnView {
                storage: Storage::Bytes,
                nullable: true,
                cells: opt_blob_cells(v@),
            },
        }
    }
}

impl View for Column {
    type V = ColumnView;

    open spec fn view(&self) -> ColumnView {
        match self {
            Column::I64(v) => ColumnView {
                storage: Storage::I64,
                nullable: false,
                cells: int_cells(v@),
            },
            Column::F64(v) => ColumnView {
                storage: Storage::F64,
                nullable: false,
                cells: real_cells(v@),
            },
            Column::Str(v) => ColumnView {
                storage: Storage::Text,
                nullable: false,
                cells: text_cells(v@),
            },
            Column::Bytes(v) => ColumnView {
                storage: Storage::Bytes,
                nullable: false,
                cells: blob_cells(v@),
            },
            Column::Nullable(n) => n@,
            Column::I16(v) => ColumnView {
                storage: Storage::I16,
                nullable: false,
                cells: v@.map_values(|x: i16| ValueView::Integer(x as i64)),
            },
            Column::I32(v) => ColumnView {
                storage: Storage::I32,
                nullable: false,
                cells: v@.map_values(|x: i32| ValueView::Integer(x as i64)),
            },
            Column::U32(v) => ColumnView {
                storage: Storage::U32,
                nullable: false,
                cells: v@.map_values(|x: u32| ValueView::Integer(x as i64)),
            },
            Column::F32(v) => ColumnView {
                storage: Storage::F32,
                nullable: false,
                cells: real_cells(v@),
            },
            Column::Numeric(v) => ColumnView {
                storage: Storage::Decimal,
                nullable: false,
                cells: v@.map_values(|d: DecimalValue| ValueView::Real(decimal_display(d@.0, d@.1))),
            },
        }
    }
}

/// The text that stands for a missing value, and for binary data.
pub open spec fn null_text() -> Seq<char> {
    seq!['N', 'U', 'L', 'L']
}

/// How a value is shown: integers in decimal, reals and text as they are,
/// missing values and binary data as `NULL`.
pub open spec fn display_text(v: ValueView) -> Seq<char> {
    match v {
        ValueView::Null => null_text(),
        ValueView::Integer(i) => int_text(i as int),
        ValueView::Real(t) => t,
        ValueView::Text(t) => t,
        ValueView::Blob(_) => null_text(),
    }
}

/// The SQLite type name of a kind.
pub open spec fn sql_type_name(k: ColumnKind) -> Seq<char> {
    match k {
        ColumnKind::Integer => seq!['i', 'n', 't', 'e', 'g', 'e', 'r'],
        ColumnKind::Real => seq!['r', 'e', 'a', 'l'],
        ColumnKind::Text => seq!['t', 'e', 'x', 't'],
        ColumnKind::Blob => seq!['b', 'l', 'o', 'b'],
    }
}

/// A value can stand in a column of kind `k`: it is missing, or of that kind.
pub open spec fn fits(k: ColumnKind, v: ValueView) -> bool {
    match v {
        ValueView::Null => true,
        ValueView::Integer(_) => k == ColumnKind::Integer,
        ValueView::Real(_) => k == ColumnKind::Real,
        ValueView::Text(_) => k == ColumnKind::Text,
        ValueView::Blob(_) => k == ColumnKind::Blob,
    }
}

impl ColumnView {
    /// The kind of the column's values.
    pub open spec fn kind(self) -> ColumnKind {
        storage_kind(self.storage)
    }

    pub open spec fn len(self) -> nat {
        self.cells.len()
    }

    /// Every entry is of the column's kind, and entries are missing only in a
    /// column that may hold missing entries.
    pub open spec fn consistent(self) -> bool {
        forall|i: int|
            0 <= i < self.cells.len() ==> fits(self.kind(), #[trigger] self.cells[i]) && (
            self.cells[i] is Null ==> self.nullable)
    }

    /// The shown text of each entry.
    pub open spec fn display(self) -> Seq<Seq<char>> {
        self.cells.map_values(|v: ValueView| display_text(v))
    }
}

/// The entries of a column are of its kind, and missing only where it may
/// hold missing entries.
pub proof fn lemma_column_consistent(c: Column)
    ensures
        c@.consistent(),
{
}

/// The text `NULL`.
pub fn null_string() -> (s: String)
    ensures
        s@ == null_text(),
{
    proof {
        reveal_strlit("NULL");
    }
    String::from_str("NULL")
}

/// The shown text of a value.
pub fn value_text(v: &Value) -> (s: String)
    ensures
        s@ == display_text(v@),
{
    match v {
        Value::Null => null_string(),
        Value::Integer(i) => i64_text(*i),
        Value::Real(t) => t.clone(),
        Value::Text(t) => t.clone(),
        Value::Blob(_) => null_string(),
    }
}

/// A copy of a value.
pub fn copy_value(v: &Value) -> (r: Value)
    ensures
        r@ == v@,
{
    match v {
        Value::Null => Value::Null,
        Value::Integer(i) => Value::Integer(*i),
        Value::Real(t) => Value::Real(t.clone()),
        Value::Text(t) => Value::Text(t.clone()),
        Value::Blob(b) => {
            let c = b.clone();
            assert(c@ =~= b@);
            Value::Blob(c)
        },
    }
}

/// The SQLite type name of a kind.
pub fn kind_sql_type(k: ColumnKind) -> (s: &'static str)
    ensures
        s@ == sql_type_name(k),
{
    proof {
        reveal_strlit("integer");
        reveal_strlit("real");
        reveal_strlit("text");
        reveal_strlit("blob");
    }
    match k {
        ColumnKind::Integer => "integer",
        ColumnKind::Real => "real",
        ColumnKind::Text => "text",
        ColumnKind::Blob => "blob",
    }
}

impl NullableColumn {
    pub fn len(&self) -> (n: usize)
        ensures
            n == self@.len(),
    {
        match self {
            NullableColumn::I64(v) => v.len(),
            NullableColumn::F64(v) => v.len(),
            NullableColumn::Str(v) => v.len(),
            NullableColumn::Bytes(v) => v.len(),
        }
    }

    /// The entry at `i`.
    pub fn cell(&self, i: usize) -> (r: Value)
        requires
            i < self@.len(),
        ensures
            r@ == self@.cells[i as int],
    {
        match self {
            NullableColumn::I64(v) => match v[i] {
                Some(x) => Value::Integer(x),
                None => Value::Null,
            },
            NullableColumn::F64(v) => match &v[i] {
                Some(x) => Value::Real(x.clone()),
                None => Value::Null,
            },
            NullableColumn::Str(v) => match &v[i] {
                Some(x) => Value::Text(x.clone()),
                None => Value::Null,
            },
            NullableColumn::Bytes(v) => match &v[i] {
                Some(x) => {
                    let c = x.clone();
                    assert(c@ =~= x@);
                    Value::Blob(c)
                },
                None => Value::Null,
            },
        }
    }

    /// Whether some entry is missing.
    pub fn has_null(&self) -> (r: bool)
        ensures
            r == exists|i: int| 0 <= i < self@.len() && #[trigger] self@.cells[i] is Null,
    {
        let n = self.len();
        let mut i: usize = 0;
        while i < n
            invariant
                i <= n == self@.len(),
                forall|k: int| 0 <= k < i ==> !(#[trigger] self@.cells[k] is Null),
            decreases n - i,
        {
            let c = self.cell(i);
            if let Value::Null = c {
                return true;
            }
            i = i + 1;
        }
        false
    }

    /// The column as one without missing entries when it has none, and as
    /// itself otherwise.
    pub fn to_column(self) -> (c: Column)
        ensures
            c@.storage == self@.storage,
            c@.cells == self@.cells,
            c@.nullable == exists|i: int|
                0 <= i < self@.len() && #[trigger] self@.cells[i] is Null,
    {
        if self.has_null() {
            return Column::Nullable(self);
        }
        let ghost sv = self@;
        assert(forall|k: int| 0 <= k < sv.len() ==> !(#[trigger] sv.cells[k] is Null));
        match self {
            NullableColumn::I64(v) => {
                assert forall|k: int| 0 <= k < v.len() implies (#[trigger] v@[k] is Some) by {
                    assert(!(sv.cells[k] is Null));
                }
                let r = unwrap_all(v);
                assert(int_cells(r@) =~= sv.cells);
                Column::I64(r)
            },
            NullableColumn::F64(v) => {
                assert forall|k: int| 0 <= k < v.len() implies (#[trigger] v@[k] is Some) by {
                    assert(!(sv.cells[k] is Null));
                }
                let r = unwrap_all(v);
                assert(real_cells(r@) =~= sv.cells);
                Column::F64(r)
            },
            NullableColumn::Str(v) => {
                assert forall|k: int| 0 <= k < v.len() implies (#[trigger] v@[k] is Some) by {
                    assert(!(sv.cells[k] is Null));
                }
                let r = unwrap_all(v);
                assert(text_cells(r@) =~= sv.cells);
                Column::Str(r)
            },
            NullableColumn::Bytes(v) => {
                assert forall|k: int| 0 <= k < v.len() implies (#[trigger] v@[k] is Some) by {
                    assert(!(sv.cells[k] is Null));
                }
                let r = unwrap_all(v);
                assert(blob_cells(r@) =~= sv.cells);
                Column::Bytes(r)
            },
        }
    }
}

/// The values inside entries that are all present, in order.
fn unwrap_all<T>(v: Vec<Option<T>>) -> (r: Vec<T>)
    requires
        forall|k: int| 0 <= k < v.len() ==> #[trigger] v@[k] is Some,
    ensures
        r.len() == v.len(),
        forall|k: int| 0 <= k < v.len() ==> v@[k] == Some(#[trigger] r@[k]),
{
    let ghost orig = v@;
    let n = v.len();
    let mut v = v;
    let mut rev: Vec<T> = Vec::new();
    while v.len() > 0
        invariant
            v.len() + rev.len() == n == orig.len(),
            forall|k: int| 0 <= k < v.len() ==> #[trigger] v@[k] == orig[k],
            forall|k: int| 0 <= k < orig.len() ==> #[trigger] orig[k] is Some,
            forall|j: int| 0 <= j < rev.len() ==> orig[n - 1 - j] == Some(#[trigger] rev@[j]),
        decreases v.len(),
    {
        let o = v.pop().unwrap();
        assert(o == orig[v.len() as int]);
        match o {
            Some(x) => rev.push(x),
            None => {},
        }
    }
    let mut out: Vec<T> = Vec::new();
    while rev.len() > 0
        invariant
            out.len() + rev.len() == n == orig.len(),
            forall|j: int| 0 <= j < rev.len() ==> orig[n - 1 - j] == Some(#[trigger] rev@[j]),
            forall|k: int| 0 <= k < out.len() ==> orig[k] == Some(#[trigger] out@[k]),
        decreases rev.len(),
    {
        let x = rev.pop().unwrap();
        assert(orig[out.len() as int] == Some(x));
        out.push(x);
    }
    out
}

impl Column {
    /// The number of entries.
    pub fn len(&self) -> (n: usize)
        ensures
            n == self@.len(),
    {
        match self {
            Column::I64(v) => v.len(),
            Column::F64(v) => v.len(),
            Column::Str(v) => v.len(),
            Column::Bytes(v) => v.len(),
            Column::Nullable(n) => n.len(),
            Column::I16(v) => v.len(),
            Column::I32(v) => v.len(),
            Column::U32(v) => v.len(),
            Column::F32(v) => v.len(),
            Column::Numeric(v) => v.len(),
        }
    }

    /// How the column stores its values.
    pub fn storage(&self) -> (s: Storage)
        ensures
            s == self@.storage,
    {
        match self {
            Column::I64(_) => Storage::I64,
            Column::F64(_) => Storage::F64,
            Column::Str(_) => Storage::Text,
            Column::Bytes(_) => Storage::Bytes,
            Column::Nullable(NullableColumn::I64(_)) => Storage::I64,
            Column::Nullable(NullableColumn::F64(_)) => Storage::F64,
            Column::Nullable(NullableColumn::Str(_)) => Storage::Text,
            Column::Nullable(NullableColumn::Bytes(_)) => Storage::Bytes,
            Column::I16(_) => Storage::I16,
            Column::I32(_) => Storage::I32,
            Column::U32(_) => Storage::U32,
            Column::F32(_) => Storage::F32,
            Column::Numeric(_) => Storage::Decimal,
        }
    }

    /// The kind of values the column holds.
    pub fn kind(&self) -> (k: ColumnKind)
        ensures
            k == self@.kind(),
    {
        match self.storage() {
            Storage::I16 | Storage::I32 | Storage::U32 | Storage::I64 => ColumnKind::Integer,
            Storage::F32 | Storage::F64 | Storage::Decimal => ColumnKind::Real,
            Storage::Text => ColumnKind::Text,
            Storage::Bytes => ColumnKind::Blob,
        }
    }

    /// The SQLite type name of the column's values.
    pub fn sqlite3_type(&self) -> (s: &'static str)
        ensures
            s@ == sql_type_name(self@.kind()),
    {
        kind_sql_type(self.kind())
    }

    /// The entry at `i`.
    pub fn cell(&self, i: usize) -> (r: Value)
        requires
            i < self@.len(),
        ensures
            r@ == self@.cells[i as int],
    {
        match self {
            Column::I64(v) => Value::Integer(v[i]),
            Column::F64(v) => Value::Real(v[i].clone()),
            Column::Str(v) => Value::Text(v[i].clone()),
            Column::Bytes(v) => {
                let c = v[i].clone();
                assert(c@ =~= v@[i as int]@);
                Value::Blob(c)
            },
            Column::Nullable(n) => n.cell(i),
            Column::I16(v) => Value::Integer(v[i] as i64),
            Column::I32(v) => Value::Integer(v[i] as i64),
            Column::U32(v) => Value::Integer(v[i] as i64),
            Column::F32(v) => Value::Real(v[i].clone()),
            Column::Numeric(v) => Value::Real(v[i].to_text()),
        }
    }

    /// The shown text of the entry at `i`.
    pub fn cell_text(&self, i: usize) -> (s: String)
        requires
            i < self@.len(),
        ensures
            s@ == self@.display()[i as int],
    {
        match self {
            Column::I64(v) => i64_text(v[i]),
            Column::F64(v) => v[i].clone(),
            Column::Str(v) => v[i].clone(),
            _ => {
                let c = self.cell(i);
                value_text(&c)
            },
        }
    }

    /// The shown text of every entry, in order.
    pub fn display_content(&self) -> (out: Vec<String>)
        ensures
            string_views(out@) == self@.display(),
    {
        let n = self.len();
        let mut out: Vec<String> = Vec::new();
        let mut i: usize = 0;
        while i < n
            invariant
                i <= n == self@.len(),
                string_views(out@) == self@.display().take(i as int),
            decreases n - i,
        {
            let s = self.cell_text(i);
            let ghost before = out@;
            out.push(s);
            assert(out@ == before.push(s));
            assert(string_views(out@) =~= string_views(before).push(s@));
            assert(string_views(out@) =~= self@.display().take(i + 1));
            i = i + 1;
        }
        assert(self@.display().take(n as int) =~= self@.display());
        out
    }
}

/// A copy of a vector of strings.
fn copy_strings(v: &Vec<String>) -> (r: Vec<String>)
    ensures
        r@ == v@,
{
    let r = v.clone();
    assert forall|i: int| 0 <= i < r.len() implies r@[i] == v@[i] by {
        assert(cloned::<String>(v[i], r[i]));
    }
    assert(r@ =~= v@);
    r
}

/// A copy of a vector of decimal numbers.
fn copy_decimals(v: &Vec<DecimalValue>) -> (r: Vec<DecimalValue>)
    ensures
        r@ == v@,
{
    let mut r: Vec<DecimalValue> = Vec::new();
    let mut i: usize = 0;
    while i < v.len()
        invariant
            i <= v.len(),
            r@ == v@.take(i as int),
        decreases v.len() - i,
    {
        let d = v[i];
        r.push(d);
        i = i + 1;
        assert(r@ =~= v@.take(i as int));
    }
    assert(v@.take(i as int) =~= v@);
    r
}

/// A copy of a vector of optional strings.
fn copy_opt_strings(v: &Vec<Option<String>>) -> (r: Vec<Option<String>>)
    ensures
        r@ == v@,
{
    let mut r: Vec<Option<String>> = Vec::new();
    let mut i: usize = 0;
    while i < v.len()
        invariant
            i <= v.len(),
            r@ == v@.take(i as int),
        decreases v.len() - i,
    {
        let x = match &v[i] {
            Some(t) => Some(t.clone()),
            None => None,
        };
        r.push(x);
        i = i + 1;
        assert(r@ =~= v@.take(i as int));
    }
    assert(v@.take(i as int) =~= v@);
    r
}

/// A copy of a vector of byte strings, kept by content.
fn copy_blobs(v: &Vec<Vec<u8>>) -> (r: Vec<Vec<u8>>)
    ensures
        blob_cells(r@) == blob_cells(v@),
{
    let mut r: Vec<Vec<u8>> = Vec::new();
    let mut i: usize = 0;
    while i < v.len()
        invariant
            i <= v.len(),
            blob_cells(r@) == blob_cells(v@.take(i as int)),
        decreases v.len() - i,
    {
        let b = v[i].clone();
        assert(b@ =~= v@[i as int]@);
        let ghost before = r@;
        r.push(b);
        assert(blob_cells(r@) =~= blob_cells(before).push(ValueView::Blob(b@)));
        assert(v@.take(i + 1) =~= v@.take(i as int).push(v@[i as int]));
        assert(blob_cells(v@.take(i + 1)) =~= blob_cells(v@.take(i as int)).push(ValueView::Blob(b@)));
        i = i + 1;
    }
    assert(v@.take(i as int) =~= v@);
    r
}

/// A copy of a vector of optional byte strings, kept by content.
fn copy_opt_blobs(v: &Vec<Option<Vec<u8>>>) -> (r: Vec<Option<Vec<u8>>>)
    ensures
        opt_blob_cells(r@) == opt_blob_cells(v@),
{
    let mut r: Vec<Option<Vec<u8>>> = Vec::new();
    let mut i: usize = 0;
    while i < v.len()
        invariant
            i <= v.len(),
            opt_blob_cells(r@) == opt_blob_cells(v@.take(i as int)),
        decreases v.len() - i,
    {
        let x = match &v[i] {
            Some(b) => {
                let c = b.clone();
                assert(c@ =~= b@);
                Some(c)
            },
            None => None,
        };
        let ghost before = r@;
        let ghost xv = opt_blob(x);
        assert(xv == opt_blob(v@[i as int]));
        r.push(x);
        assert(opt_blob_cells(r@) =~= opt_blob_cells(before).push(xv));
        assert(v@.take(i + 1) =~= v@.take(i as int).push(v@[i as int]));
        assert(opt_blob_cells(v@.take(i + 1)) =~= opt_blob_cells(v@.take(i as int)).push(xv));
        i = i + 1;
    }
    assert(v@.take(i as int) =~= v@);
    r
}

impl Clone for NullableColumn {
    fn clone(&self) -> (r: Self)
        ensures
            r@ == self@,
    {
        match self {
            NullableColumn::I64(v) => {
                let c = v.clone();
                assert(c@ =~= v@);
                NullableColumn::I64(c)
            },
            NullableColumn::F64(v) => NullableColumn::F64(copy_opt_strings(v)),
            NullableColumn::Str(v) => NullableColumn::Str(copy_opt_strings(v)),
            NullableColumn::Bytes(v) => NullableColumn::Bytes(copy_opt_blobs(v)),
        }
    }
}

impl Clone for Column {
    fn clone(&self) -> (r: Self)
        ensures
            r@ == self@,
    {
        match self {
            Column::I64(v) => {
                let c = v.clone();
                assert(c@ =~= v@);
                Column::I64(c)
            },
            Column::F64(v) => Column::F64(copy_strings(v)),
            Column::Str(v) => Column::Str(copy_strings(v)),
            Column::Bytes(v) => Column::Bytes(copy_blobs(v)),
            Column::Nullable(n) => Column::Nullable(n.clone()),
            Column::I16(v) => {
                let c = v.clone();
                assert(c@ =~= v@);
                Column::I16(c)
            },
            Column::I32(v) => {
                let c = v.clone();
                assert(c@ =~= v@);
                Column::I32(c)
            },
            Column::U32(v) => {
                let c = v.clone();
                assert(c@ =~= v@);
                Column::U32(c)
            },
            Column::F32(v) => Column::F32(copy_strings(v)),
            Column::Numeric(v) => Column::Numeric(copy_decimals(v)),
        }
    }
}

} // verus!
