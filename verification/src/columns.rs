//! Named references to columns that may come from different tables, and so
//! need not have the same number of entries.
use vstd::prelude::*;
use crate::column::{Column, ColumnKind, ColumnView, Storage, ValueView};
use crate::table::Table;

verus! {

/// Named references to columns.
#[derive(Debug)]
pub struct Columns<'a> {
    names: Vec<&'a str>,
    cols: Vec<&'a Column>,
}

/// The names and the columns referred to, in order.
pub struct ColumnsView {
    pub names: Seq<Seq<char>>,
    pub cols: Seq<ColumnView>,
}

pub open spec fn str_views(v: Seq<&str>) -> Seq<Seq<char>> {
    v.map_values(|s: &str| s@)
}

pub open spec fn column_ref_views(v: Seq<&Column>) -> Seq<ColumnView> {
    v.map_values(|c: &Column| c@)
}

/// The entries of `ixs` that are below `n`, in order.
pub open spec fn indices_below(ixs: Seq<usize>, n: nat) -> Seq<int>
    decreases ixs.len(),
{
    if ixs.len() == 0 {
        Seq::empty()
    } else {
        let rest = indices_below(ixs.drop_last(), n);
        if ixs.last() < n {
            rest.push(ixs.last() as int)
        } else {
            rest
        }
    }
}

/// The indices kept are the entries of `ixs` that are below `n`, in the order
/// in which `ixs` gives them, repeats included.
pub proof fn lemma_indices_below_filter(ixs: Seq<usize>, n: nat)
    ensures
        indices_below(ixs, n) == ixs.filter(|x: usize| x < n).map_values(|x: usize| x as int),
    decreases ixs.len(),
{
    reveal(Seq::filter);
    if ixs.len() > 0 {
        lemma_indices_below_filter(ixs.drop_last(), n);
        let f = ixs.drop_last().filter(|x: usize| x < n);
        assert(ixs.filter(|x: usize| x < n) == (if ixs.last() < n { f.push(ixs.last()) } else { f }));
        if ixs.last() < n {
            assert(f.push(ixs.last()).map_values(|x: usize| x as int) =~= f.map_values(
                |x: usize| x as int,
            ).push(ixs.last() as int));
        }
    } else {
        assert(ixs.filter(|x: usize| x < n) =~= ixs);
        assert(ixs.filter(|x: usize| x < n).map_values(|x: usize| x as int) =~= Seq::<int>::empty());
    }
}

/// A type of value that a column can be read out as.
pub trait ColumnContent: Sized + View {
    /// What reading `c` gives: its entries, when it holds values of this type
    /// and no missing ones.
    spec fn content_of(c: ColumnView) -> Option<Seq<Self::V>>;

    /// A copy of the entries of `c`, when it holds values of this type and no
    /// missing ones.
    fn content(c: &Column) -> (r: Option<Vec<Self>>)
        ensures
            r is Some <==> Self::content_of(c@) is Some,
            r matches Some(v) ==> v@.map_values(|x: Self| x@) == Self::content_of(c@).unwrap(),
    ;
}

impl ColumnContent for i64 {
    open spec fn content_of(c: ColumnView) -> Option<Seq<i64>> {
        if c.storage == Storage::I64 && !c.nullable {
            Some(c.cells.map_values(|v: ValueView| v->Integer_0))
        } else {
            None
        }
    }

    fn content(c: &Column) -> (r: Option<Vec<i64>>) {
        match c {
            Column::I64(v) => {
                let r = v.clone();
                assert(r@ =~= v@);
                assert(r@.map_values(|x: i64| x@) =~= c@.cells.map_values(|v: ValueView| v->Integer_0));
                Some(r)
            },
            _ => None,
        }
    }
}

impl ColumnContent for i16 {
    open spec fn content_of(c: ColumnView) -> Option<Seq<i16>> {
        if c.storage == Storage::I16 && !c.nullable {
            Some(c.cells.map_values(|v: ValueView| v->Integer_0 as i16))
        } else {
            None
        }
    }

    fn content(c: &Column) -> (r: Option<Vec<i16>>) {
        match c {
            Column::I16(v) => {
                let r = v.clone();
                assert(r@ =~= v@);
                assert(r@.map_values(|x: i16| x@) =~= c@.cells.map_values(|v: ValueView| v->Integer_0 as i16));
                Some(r)
            },
            _ => None,
        }
    }
}

impl ColumnContent for i32 {
    open spec fn content_of(c: ColumnView) -> Option<Seq<i32>> {
        if c.storage == Storage::I32 && !c.nullable {
            Some(c.cells.map_values(|v: ValueView| v->Integer_0 as i32))
        } else {
            None
        }
    }

    fn content(c: &Column) -> (r: Option<Vec<i32>>) {
        match c {
            Column::I32(v) => {
                let r = v.clone();
                assert(r@ =~= v@);
                assert(r@.map_values(|x: i32| x@) =~= c@.cells.map_values(|v: ValueView| v->Integer_0 as i32));
                Some(r)
            },
            _ => None,
        }
    }
}

impl ColumnContent for u32 {
    open spec fn content_of(c: ColumnView) -> Option<Seq<u32>> {
        if c.storage == Storage::U32 && !c.nullable {
            Some(c.cells.map_values(|v: ValueView| v->Integer_0 as u32))
        } else {
            None
        }
    }

    fn content(c: &Column) -> (r: Option<Vec<u32>>) {
        match c {
            Column::U32(v) => {
                let r = v.clone();
                assert(r@ =~= v@);
                assert(r@.map_values(|x: u32| x@) =~= c@.cells.map_values(|v: ValueView| v->Integer_0 as u32));
                Some(r)
            },
            _ => None,
        }
    }
}

impl ColumnContent for String {
    open spec fn content_of(c: ColumnView) -> Option<Seq<Seq<char>>> {
        if c.storage == Storage::Text && !c.nullable {
            Some(c.cells.map_values(|v: ValueView| v->Text_0))
        } else {
            None
        }
    }

    fn content(c: &Column) -> (r: Option<Vec<String>>) {
        match c {
            Column::Str(v) => {
                let r = v.clone();
                assert forall|i: int| 0 <= i < r.len() implies r@[i] == v@[i] by {
                    assert(cloned::<String>(v[i], r[i]));
                }
                assert(r@.map_values(|x: String| x@) =~= c@.cells.map_values(|v: ValueView| v->Text_0));
                Some(r)
            },
            _ => None,
        }
    }
}

impl ColumnContent for Vec<u8> {
    open spec fn content_of(c: ColumnView) -> Option<Seq<Seq<u8>>> {
        if c.storage == Storage::Bytes && !c.nullable {
            Some(c.cells.map_values(|v: ValueView| v->Blob_0))
        } else {
            None
        }
    }

    fn content(c: &Column) -> (r: Option<Vec<Vec<u8>>>) {
        match c {
            Column::Bytes(v) => {
                let mut r: Vec<Vec<u8>> = Vec::new();
                let mut i: usize = 0;
                while i < v.len()
                    invariant
                        i <= v.len(),
                        r@.len() == i,
                        forall|k: int| 0 <= k < i ==> (#[trigger] r@[k])@ == v@[k]@,
                    decreases v.len() - i,
                {
                    let b = v[i].clone();
                    assert(b@ =~= v@[i as int]@);
                    r.push(b);
                    i = i + 1;
                }
                assert(r@.map_values(|x: Vec<u8>| x@) =~= c@.cells.map_values(|v: ValueView| v->Blob_0));
                Some(r)
            },
            _ => None,
        }
    }
}

/// Reading a column as its own value type gives its entries, in order, and
/// succeeds exactly when the column stores values of that type and holds no
/// missing ones: 64-, 32- and 16-bit signed and 32-bit unsigned integers,
/// text and binary data.
pub proof fn lemma_content_in_order(col: Column)
    ensures
        <i64 as ColumnContent>::content_of(col@) is Some <==> (col@.storage == Storage::I64 && !col@.nullable),
        <i64 as ColumnContent>::content_of(col@) matches Some(v) ==> v.len() == col@.cells.len() && forall|i: int|
            0 <= i < v.len() ==> #[trigger] v[i] as int == col@.cells[i]->Integer_0,
        <i32 as ColumnContent>::content_of(col@) is Some <==> (col@.storage == Storage::I32 && !col@.nullable),
        <i32 as ColumnContent>::content_of(col@) matches Some(v) ==> v.len() == col@.cells.len() && forall|i: int|
            0 <= i < v.len() ==> #[trigger] v[i] as int == col@.cells[i]->Integer_0,
        <i16 as ColumnContent>::content_of(col@) is Some <==> (col@.storage == Storage::I16 && !col@.nullable),
        <i16 as ColumnContent>::content_of(col@) matches Some(v) ==> v.len() == col@.cells.len() && forall|i: int|
            0 <= i < v.len() ==> #[trigger] v[i] as int == col@.cells[i]->Integer_0,
        <u32 as ColumnContent>::content_of(col@) is Some <==> (col@.storage == Storage::U32 && !col@.nullable),
        <u32 as ColumnContent>::content_of(col@) matches Some(v) ==> v.len() == col@.cells.len() && forall|i: int|
            0 <= i < v.len() ==> #[trigger] v[i] as int == col@.cells[i]->Integer_0,
        <String as ColumnContent>::content_of(col@) is Some <==> (col@.storage == Storage::Text && !col@.nullable),
        <String as ColumnContent>::content_of(col@) matches Some(v) ==> v.len() == col@.cells.len() && forall|i: int|
            0 <= i < v.len() ==> #[trigger] v[i] == col@.cells[i]->Text_0,
        <Vec<u8> as ColumnContent>::content_of(col@) is Some <==> (col@.storage == Storage::Bytes && !col@.nullable),
        <Vec<u8> as ColumnContent>::content_of(col@) matches Some(v) ==> v.len() == col@.cells.len() && forall|i: int|
            0 <= i < v.len() ==> #[trigger] v[i] == col@.cells[i]->Blob_0,
{
    let c = col@;
    match col {
        Column::I32(v) => {
            assert forall|i: int| 0 <= i < c.cells.len() implies (c.cells[i]->Integer_0 as i32) as int
                == c.cells[i]->Integer_0 by {
                assert(c.cells[i] == ValueView::Integer(v@[i] as i64));
            }
        },
        Column::I16(v) => {
            assert forall|i: int| 0 <= i < c.cells.len() implies (c.cells[i]->Integer_0 as i16) as int
                == c.cells[i]->Integer_0 by {
                assert(c.cells[i] == ValueView::Integer(v@[i] as i64));
            }
        },
        Column::U32(v) => {
            assert forall|i: int| 0 <= i < c.cells.len() implies (c.cells[i]->Integer_0 as u32) as int
                == c.cells[i]->Integer_0 by {
                assert(c.cells[i] == ValueView::Integer(v@[i] as i64));
            }
        },
        _ => {},
    }
}

impl<'a> View for Columns<'a> {
    type V = ColumnsView;

    closed spec fn view(&self) -> ColumnsView {
        ColumnsView { names: str_views(self.names@), cols: column_ref_views(self.cols@) }
    }
}

impl<'a> Columns<'a> {
    #[verifier::type_invariant]
    spec fn inv(self) -> bool {
        self.names.len() == self.cols.len()
    }

    /// No columns.
    pub fn new() -> (r: Self)
        ensures
            r@.names == Seq::<Seq<char>>::empty(),
            r@.cols == Seq::<ColumnView>::empty(),
            r@.names.len() == r@.cols.len(),
    {
        let r = Columns { names: Vec::new(), cols: Vec::new() };
        assert(r@.names =~= Seq::<Seq<char>>::empty());
        assert(r@.cols =~= Seq::<ColumnView>::empty());
        r
    }

    /// These columns with `col`, named `name`, after them.
    pub fn take_and_push(self, name: &'a str, col: &'a Column) -> (r: Self)
        ensures
            r@.names == self@.names.push(name@),
            r@.cols == self@.cols.push(col@),
            r@.names.len() == r@.cols.len(),
    {
        proof {
            use_type_invariant(&self);
        }
        let Columns { mut names, mut cols } = self;
        let ghost n0 = names@;
        let ghost c0 = cols@;
        names.push(name);
        cols.push(col);
        let r = Columns { names, cols };
        assert(str_views(names@) =~= str_views(n0).push(name@));
        assert(column_ref_views(cols@) =~= column_ref_views(c0).push(col@));
        r
    }

    /// These columns followed by those of `cols`.
    pub fn take_and_extend(self, cols: Columns<'a>) -> (r: Self)
        ensures
            r@.names == self@.names + cols@.names,
            r@.cols == self@.cols + cols@.cols,
            r@.names.len() == r@.cols.len(),
    {
        proof {
            use_type_invariant(&self);
            use_type_invariant(&cols);
        }
        let Columns { mut names, cols: mut own } = self;
        let Columns { names: mut other_names, cols: mut other_cols } = cols;
        let ghost n0 = names@;
        let ghost c0 = own@;
        let ghost n1 = other_names@;
        let ghost c1 = other_cols@;
        names.append(&mut other_names);
        own.append(&mut other_cols);
        let r = Columns { names, cols: own };
        assert(str_views(names@) =~= str_views(n0) + str_views(n1));
        assert(column_ref_views(own@) =~= column_ref_views(c0) + column_ref_views(c1));
        r
    }

    /// The column names, in order.
    pub fn names(&'a self) -> (r: &'a [&'a str])
        ensures
            str_views(r@) == self@.names,
            self@.names.len() == self@.cols.len(),
    {
        proof {
            use_type_invariant(self);
        }
        self.names.as_slice()
    }

    /// The column at `ix`, when there is one.
    pub fn get(&'a self, ix: usize) -> (r: Option<&'a Column>)
        ensures
            r is Some <==> ix < self@.cols.len(),
            r matches Some(c) ==> c@ == self@.cols[ix as int],
            self@.names.len() == self@.cols.len(),
    {
        proof {
            use_type_invariant(self);
        }
        if ix < self.cols.len() {
            Some(self.cols[ix])
        } else {
            None
        }
    }

    /// A copy of the entries of the column at `ix`, read as values of type
    /// `T`; `None` when there is no such column or it holds other values.
    pub fn try_access<T: ColumnContent>(&'a self, ix: usize) -> (r: Option<Vec<T>>)
        ensures
            ix >= self@.cols.len() ==> r is None,
            ix < self@.cols.len() ==> (r is Some <==> T::content_of(self@.cols[ix as int]) is Some),
            r matches Some(v) ==> v@.map_values(|x: T| x@) == T::content_of(
                self@.cols[ix as int],
            ).unwrap(),
    {
        match self.get(ix) {
            Some(c) => T::content(c),
            None => None,
        }
    }
}

impl Table {
    /// References to the columns at the indices `ixs`, in that order; indices
    /// past the last column are passed over.
    pub fn get_columns<'a>(&'a self, ixs: &[usize]) -> (r: Columns<'a>)
        ensures
            r@.names == indices_below(ixs@, self@.cols.len()).map_values(|k: int| self@.names[k]),
            r@.cols == indices_below(ixs@, self@.cols.len()).map_values(|k: int| self@.cols[k]),
    {
        let ghost tv = self@;
        let (_, ncols) = self.shape();
        let mut cols = Columns::new();
        let mut i: usize = 0;
        while i < ixs.len()
            invariant
                i <= ixs.len(),
                tv == self@,
                tv.wf(),
                ncols == tv.cols.len(),
                cols@.names == indices_below(ixs@.take(i as int), ncols as nat).map_values(
                    |k: int| tv.names[k],
                ),
                cols@.cols == indices_below(ixs@.take(i as int), ncols as nat).map_values(
                    |k: int| tv.cols[k],
                ),
            decreases ixs.len() - i,
        {
            let ix = ixs[i];
            let ghost before = indices_below(ixs@.take(i as int), ncols as nat);
            proof {
                assert(ixs@.take(i + 1).drop_last() =~= ixs@.take(i as int));
                assert(ixs@.take(i + 1).last() == ix);
            }
            if ix < ncols {
                let c = self.get_column(ix).unwrap();
                cols = cols.take_and_push(self.name_ref(ix), c);
                assert(cols@.names =~= before.push(ix as int).map_values(|k: int| tv.names[k]));
                assert(cols@.cols =~= before.push(ix as int).map_values(|k: int| tv.cols[k]));
            }
            i = i + 1;
        }
        assert(ixs@.take(i as int) =~= ixs@);
        cols
    }
}

impl<'a> Clone for Columns<'a> {
    fn clone(&self) -> (r: Self)
        ensures
            r@ == self@,
    {
        proof {
            use_type_invariant(self);
        }
        let names = self.names.clone();
        let cols = self.cols.clone();
        assert(names@ =~= self.names@);
        assert(cols@ =~= self.cols@);
        Columns { names, cols }
    }
}

} // verus!
