//! Column batches and the selection kernel that filters them.
use vstd::prelude::*;
use crate::error::ExecError;
use crate::value::{copy_vec, Array, ColumnData, ColumnarValue, DataType, FieldData, Schema, ScalarValue, ValueData};

verus! {

/// The elements of `s` whose entry in `m` is true, in order.
pub open spec fn select<T>(s: Seq<T>, m: Seq<bool>) -> Seq<T>
    decreases s.len(),
{
    if s.len() == 0 || m.len() == 0 {
        Seq::empty()
    } else {
        let rest = select(s.drop_last(), m.drop_last());
        if m.last() {
            rest.push(s.last())
        } else {
            rest
        }
    }
}

/// How many entries of `m` are true.
pub open spec fn count_true(m: Seq<bool>) -> nat
    decreases m.len(),
{
    if m.len() == 0 {
        0
    } else {
        count_true(m.drop_last()) + if m.last() { 1nat } else { 0nat }
    }
}

/// The positions of the true entries of `m`, in increasing order.
pub open spec fn selected_positions(m: Seq<bool>) -> Seq<int>
    decreases m.len(),
{
    if m.len() == 0 {
        Seq::empty()
    } else {
        let rest = selected_positions(m.drop_last());
        if m.last() {
            rest.push(m.len() - 1)
        } else {
            rest
        }
    }
}

/// A column with only the rows that `m` selects.
pub open spec fn filter_column(c: ColumnData, m: Seq<bool>) -> ColumnData {
    match c {
        ColumnData::Int64(v) => ColumnData::Int64(select(v, m)),
        ColumnData::Boolean(v) => ColumnData::Boolean(select(v, m)),
    }
}

/// The selection mask that a predicate's value gives over `n` rows: a boolean
/// array of `n` entries, or a boolean scalar repeated; anything else has none.
pub open spec fn mask_of(v: ValueData, n: nat) -> Option<Seq<bool>> {
    match v {
        ValueData::Columnar(ColumnData::Boolean(m)) => if m.len() == n {
            Some(m)
        } else {
            None
        },
        ValueData::Scalar(ScalarValue::Boolean(x)) => Some(Seq::new(n, |i: int| x)),
        _ => None,
    }
}

/// The abstract value of a batch: its schema, its row count, and each column
/// materialized over those rows.
pub struct BatchData {
    pub schema: Seq<FieldData>,
    pub num_rows: nat,
    pub columns: Seq<ColumnData>,
}

impl BatchData {
    /// The columns match the schema in number and type, and have one entry per row.
    pub open spec fn wf(self) -> bool {
        &&& self.columns.len() == self.schema.len()
        &&& forall|i: int|
            0 <= i < self.columns.len() ==> {
                &&& #[trigger] self.columns[i].len() == self.num_rows
                &&& self.columns[i].data_type() == self.schema[i].data_type
            }
    }
}

/// The batch with only the rows that `m` selects, in every column alike.
pub open spec fn filter_batch(b: BatchData, m: Seq<bool>) -> BatchData {
    BatchData {
        schema: b.schema,
        num_rows: count_true(m),
        columns: b.columns.map_values(|c: ColumnData| filter_column(c, m)),
    }
}

/// The abstract values of a sequence of columns.
pub open spec fn value_views(cs: Seq<ColumnarValue>) -> Seq<ValueData> {
    cs.map_values(|c: ColumnarValue| c@)
}

/// Columns that match `schema` in number and type, each of which fits `n` rows.
pub open spec fn columns_fit(schema: Seq<FieldData>, columns: Seq<ValueData>, n: nat) -> bool {
    &&& columns.len() == schema.len()
    &&& forall|i: int|
        0 <= i < columns.len() ==> {
            &&& (#[trigger] columns[i]).fits(n)
            &&& columns[i].data_type() == schema[i].data_type
        }
}

/// A batch of columns that share a schema and a row count.
#[derive(Debug)]
pub struct ColumnarBatch {
    pub schema: Schema,
    pub columns: Vec<ColumnarValue>,
    pub num_rows: usize,
}

impl View for ColumnarBatch {
    type V = BatchData;

    open spec fn view(&self) -> BatchData {
        BatchData {
            schema: self.schema@,
            num_rows: self.num_rows as nat,
            columns: self.columns@.map_values(
                |c: ColumnarValue| c@.materialize(self.num_rows as nat),
            ),
        }
    }
}

impl ColumnarBatch {
    /// The columns match the schema in number and type, and each array has
    /// one entry per row.
    pub open spec fn wf(&self) -> bool {
        columns_fit(self.schema@, value_views(self.columns@), self.num_rows as nat)
    }

    /// A batch of `num_rows` rows, or a shape error where the columns do not
    /// match the schema in number or type, or an array's length is not `num_rows`.
    pub fn try_new(schema: Schema, columns: Vec<ColumnarValue>, num_rows: usize) -> (r: Result<
        ColumnarBatch,
        ExecError,
    >)
        ensures
            match r {
                Ok(b) => b.wf() && b.schema@ == schema@ && b.columns@ == columns@ && b.num_rows
                    == num_rows,
                Err(e) => e == ExecError::ShapeError && !columns_fit(
                    schema@,
                    value_views(columns@),
                    num_rows as nat,
                ),
            },
    {
        if columns.len() != schema.fields.len() {
            return Err(ExecError::ShapeError);
        }
        let mut i: usize = 0;
        while i < columns.len()
            invariant
                columns@.len() == schema@.len(),
                schema@.len() == schema.fields@.len(),
                i <= columns@.len(),
                forall|j: int|
                    0 <= j < i ==> {
                        &&& (#[trigger] value_views(columns@)[j]).fits(num_rows as nat)
                        &&& value_views(columns@)[j].data_type() == schema@[j].data_type
                    },
            decreases columns@.len() - i,
        {
            let c = &columns[i];
            assert(schema@[i as int] == schema.fields@[i as int]@);
            assert(value_views(columns@)[i as int] == c@);
            let fits = match c {
                ColumnarValue::Columnar(a) => a.len() == num_rows,
                ColumnarValue::Scalar(_) => true,
            };
            if !fits || c.data_type() != schema.fields[i].data_type {
                return Err(ExecError::ShapeError);
            }
            i = i + 1;
        }
        Ok(ColumnarBatch { schema, columns, num_rows })
    }

    /// A copy of this batch.
    pub fn duplicate(&self) -> (r: ColumnarBatch)
        ensures
            r.schema@ == self.schema@,
            value_views(r.columns@) == value_views(self.columns@),
            r.num_rows == self.num_rows,
            r@ == self@,
            self.wf() ==> r.wf(),
    {
        let mut out: Vec<ColumnarValue> = Vec::with_capacity(self.columns.len());
        let mut i: usize = 0;
        while i < self.columns.len()
            invariant
                i <= self.columns@.len(),
                out@.len() == i,
                forall|j: int| 0 <= j < i ==> (#[trigger] out@[j])@ == self.columns@[j]@,
            decreases self.columns@.len() - i,
        {
            out.push(self.columns[i].duplicate());
            i = i + 1;
        }
        let r = ColumnarBatch { schema: self.schema.duplicate(), columns: out, num_rows: self.num_rows };
        assert(value_views(r.columns@) =~= value_views(self.columns@));
        assert(r@.columns =~= self@.columns);
        r
    }

    pub fn num_columns(&self) -> (r: usize)
        ensures
            r == self.columns@.len(),
    {
        self.columns.len()
    }

    pub fn num_rows(&self) -> (r: usize)
        ensures
            r == self.num_rows,
    {
        self.num_rows
    }

    pub fn column(&self, i: usize) -> (r: &ColumnarValue)
        requires
            i < self.columns@.len(),
        ensures
            *r == self.columns@[i as int],
    {
        &self.columns[i]
    }
}

/// Selecting by a mask of the column's length keeps as many rows as the mask
/// has true entries.
pub proof fn lemma_select_len<T>(s: Seq<T>, m: Seq<bool>)
    requires
        s.len() == m.len(),
    ensures
        select(s, m).len() == count_true(m),
    decreases s.len(),
{
    if s.len() > 0 {
        lemma_select_len(s.drop_last(), m.drop_last());
    }
}

/// A mask never has more true entries than entries.
pub proof fn lemma_count_true_bound(m: Seq<bool>)
    ensures
        count_true(m) <= m.len(),
    decreases m.len(),
{
    if m.len() > 0 {
        lemma_count_true_bound(m.drop_last());
    }
}

/// A mask of all true entries keeps every element.
pub proof fn lemma_select_all<T>(s: Seq<T>, m: Seq<bool>)
    requires
        s.len() == m.len(),
        forall|i: int| 0 <= i < m.len() ==> m[i],
    ensures
        select(s, m) == s,
        count_true(m) == m.len(),
    decreases s.len(),
{
    if s.len() > 0 {
        lemma_select_all(s.drop_last(), m.drop_last());
        assert(s.drop_last().push(s.last()) =~= s);
    }
}

/// A mask of all false entries keeps nothing.
pub proof fn lemma_select_none<T>(s: Seq<T>, m: Seq<bool>)
    requires
        forall|i: int| 0 <= i < m.len() ==> !m[i],
    ensures
        select(s, m) == Seq::<T>::empty(),
        count_true(m) == 0,
    decreases s.len() + m.len(),
{
    if s.len() > 0 && m.len() > 0 {
        lemma_select_none(s.drop_last(), m.drop_last());
    } else if m.len() > 0 {
        lemma_select_none(s, m.drop_last());
    }
}

/// The k-th selected element is the element at the k-th true position of the
/// mask: the positions depend on the mask alone.
pub proof fn lemma_select_positions<T>(s: Seq<T>, m: Seq<bool>)
    requires
        s.len() == m.len(),
    ensures
        selected_positions(m).len() == select(s, m).len(),
        forall|k: int|
            0 <= k < select(s, m).len() ==> {
                &&& 0 <= #[trigger] selected_positions(m)[k] < m.len()
                &&& m[selected_positions(m)[k]]
                &&& select(s, m)[k] == s[selected_positions(m)[k]]
            },
    decreases s.len(),
{
    if s.len() > 0 {
        let (s0, m0) = (s.drop_last(), m.drop_last());
        lemma_select_positions(s0, m0);
        assert forall|k: int| 0 <= k < select(s, m).len() implies {
            &&& 0 <= #[trigger] selected_positions(m)[k] < m.len()
            &&& m[selected_positions(m)[k]]
            &&& select(s, m)[k] == s[selected_positions(m)[k]]
        } by {
            if k < select(s0, m0).len() {
                assert(selected_positions(m)[k] == selected_positions(m0)[k]);
                assert(m0[selected_positions(m0)[k]] == m[selected_positions(m0)[k]]);
                assert(s0[selected_positions(m0)[k]] == s[selected_positions(m0)[k]]);
            }
        }
    }
}

proof fn lemma_select_step<T>(s: Seq<T>, m: Seq<bool>, i: int)
    requires
        s.len() == m.len(),
        0 <= i < s.len(),
    ensures
        select(s.subrange(0, i + 1), m.subrange(0, i + 1)) == if m[i] {
            select(s.subrange(0, i), m.subrange(0, i)).push(s[i])
        } else {
            select(s.subrange(0, i), m.subrange(0, i))
        },
{
    assert(s.subrange(0, i + 1).drop_last() =~= s.subrange(0, i));
    assert(m.subrange(0, i + 1).drop_last() =~= m.subrange(0, i));
}

fn select_vec<T: Copy>(v: &Vec<T>, mask: &Vec<bool>) -> (r: Vec<T>)
    requires
        v@.len() == mask@.len(),
    ensures
        r@ == select(v@, mask@),
{
    let mut out: Vec<T> = Vec::new();
    let mut i: usize = 0;
    while i < v.len()
        invariant
            v@.len() == mask@.len(),
            i <= v@.len(),
            out@ == select(v@.subrange(0, i as int), mask@.subrange(0, i as int)),
        decreases v@.len() - i,
    {
        proof {
            lemma_select_step(v@, mask@, i as int);
        }
        if mask[i] {
            out.push(v[i]);
        }
        i = i + 1;
    }
    assert(v@.subrange(0, i as int) =~= v@);
    assert(mask@.subrange(0, i as int) =~= mask@);
    out
}

/// The rows of `array` that `mask` selects, in their order.
pub fn filter_array(array: &Array, mask: &Vec<bool>) -> (r: Array)
    requires
        array@.len() == mask@.len(),
    ensures
        r@ == filter_column(array@, mask@),
{
    match array {
        Array::Int64(v) => Array::Int64(select_vec(v, mask)),
        Array::Boolean(v) => Array::Boolean(select_vec(v, mask)),
    }
}

/// The selection mask that `value` gives over `n` rows, if it is one.
pub fn to_mask(value: &ColumnarValue, n: usize) -> (r: Option<Vec<bool>>)
    ensures
        match r {
            Some(m) => mask_of(value@, n as nat) == Some(m@),
            None => mask_of(value@, n as nat) is None,
        },
{
    match value {
        ColumnarValue::Columnar(Array::Boolean(m)) => {
            if m.len() == n {
                Some(copy_vec(m))
            } else {
                None
            }
        },
        ColumnarValue::Scalar(ScalarValue::Boolean(x)) => {
            match Array::from_scalar(ScalarValue::Boolean(*x), n) {
                Array::Boolean(m) => Some(m),
                Array::Int64(_) => None,
            }
        },
        _ => None,
    }
}

} // verus!
