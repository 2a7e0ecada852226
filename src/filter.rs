//! The filter operator: keeps the rows of each batch on which a predicate holds.
use vstd::prelude::*;
use crate::batch::{
    count_true, filter_array, filter_batch, filter_column, lemma_count_true_bound,
    lemma_select_all, lemma_select_len, lemma_select_none, lemma_select_positions, mask_of,
    selected_positions, to_mask, value_views, BatchData, ColumnarBatch,
};
use crate::error::ExecError;
use crate::expr::{binds, compile_expression, eval, type_of, Expr, Expression};
use crate::plan::{
    pull_result, run_stages, some_result, BatchStream, ExecutionContext, Partitioning,
    PhysicalPlan,
};
use crate::value::{ColumnData, ColumnarValue, DataType, ScalarValue, ValueData};

verus! {

/// What filtering batch `b` by the compiled predicate `c` gives: the error of
/// evaluating it, a shape error where its value is not a selection mask of one
/// entry per row, or the batch with the rows that the mask selects.
pub open spec fn filter_result(c: Expression, b: BatchData) -> Result<BatchData, ExecError> {
    match eval(c, b) {
        Err(e) => Err(e),
        Ok(v) => match mask_of(v, b.num_rows) {
            None => Err(ExecError::ShapeError),
            Some(m) => Ok(filter_batch(b, m)),
        },
    }
}

/// The selection mask that the compiled predicate `c` gives on batch `b`, if
/// its evaluation succeeds with one.
pub open spec fn predicate_mask(c: Expression, b: BatchData) -> Option<Seq<bool>> {
    match eval(c, b) {
        Ok(v) => mask_of(v, b.num_rows),
        Err(_) => None,
    }
}

/// The value in row `i` of column `c`.
pub open spec fn cell(c: ColumnData, i: int) -> ScalarValue {
    match c {
        ColumnData::Int64(v) => ScalarValue::Int64(v[i]),
        ColumnData::Boolean(v) => ScalarValue::Boolean(v[i]),
    }
}

proof fn lemma_filter_column_len(c: ColumnData, m: Seq<bool>)
    requires
        c.len() == m.len(),
    ensures
        filter_column(c, m).len() == count_true(m),
        filter_column(c, m).data_type() == c.data_type(),
{
    match c {
        ColumnData::Int64(v) => lemma_select_len(v, m),
        ColumnData::Boolean(v) => lemma_select_len(v, m),
    }
}

/// Filtering never adds rows: a filtered batch has at most as many rows as
/// its input.
pub proof fn lemma_filter_row_count(c: Expression, b: BatchData)
    requires
        b.wf(),
    ensures
        filter_result(c, b) matches Ok(o) ==> o.num_rows <= b.num_rows,
{
    if let Some(m) = predicate_mask(c, b) {
        lemma_count_true_bound(m);
    }
}

/// Filtering keeps the schema, and the result is a well-formed batch.
pub proof fn lemma_filter_keeps_schema(c: Expression, b: BatchData)
    requires
        b.wf(),
    ensures
        filter_result(c, b) matches Ok(o) ==> o.schema == b.schema && o.wf(),
{
    if let Ok(o) = filter_result(c, b) {
        let m = predicate_mask(c, b)->Some_0;
        assert forall|i: int| 0 <= i < o.columns.len() implies {
            &&& #[trigger] o.columns[i].len() == o.num_rows
            &&& o.columns[i].data_type() == o.schema[i].data_type
        } by {
            assert(b.columns[i].len() == b.num_rows);
            lemma_filter_column_len(b.columns[i], m);
        }
        assert(o.columns.len() == b.columns.len());
        assert(o.columns.len() == o.schema.len());
        assert(o.wf());
    }
}

/// Every column of a filtered batch keeps the same rows: row `k` of each
/// output column is the input row at the `k`-th position that the one mask
/// selects.
pub proof fn lemma_filter_column_alignment(c: Expression, b: BatchData)
    requires
        b.wf(),
    ensures
        filter_result(c, b) matches Ok(o) ==> (predicate_mask(c, b) matches Some(m) && {
            &&& selected_positions(m).len() == o.num_rows
            &&& forall|j: int, k: int|
                0 <= j < o.columns.len() && 0 <= k < o.num_rows ==> {
                    &&& 0 <= #[trigger] selected_positions(m)[k] < b.num_rows
                    &&& #[trigger] cell(o.columns[j], k) == cell(
                        b.columns[j],
                        selected_positions(m)[k],
                    )
                }
        }),
{
    if let Ok(o) = filter_result(c, b) {
        let m = predicate_mask(c, b)->Some_0;
        let probe = Seq::new(m.len(), |i: int| i);
        lemma_select_positions(probe, m);
        lemma_select_len(probe, m);
        assert forall|j: int, k: int|
            0 <= j < o.columns.len() && 0 <= k < o.num_rows implies {
                &&& 0 <= #[trigger] selected_positions(m)[k] < b.num_rows
                &&& #[trigger] cell(o.columns[j], k) == cell(
                    b.columns[j],
                    selected_positions(m)[k],
                )
            } by {
            assert(b.columns[j].len() == b.num_rows);
            match b.columns[j] {
                ColumnData::Int64(v) => lemma_select_positions(v, m),
                ColumnData::Boolean(v) => lemma_select_positions(v, m),
            }
        }
    }
}

/// A predicate that holds on every row gives back the input batch.
pub proof fn lemma_filter_all_true(c: Expression, b: BatchData)
    requires
        b.wf(),
        predicate_mask(c, b) matches Some(m) && forall|i: int| 0 <= i < m.len() ==> m[i],
    ensures
        filter_result(c, b) == Ok::<BatchData, ExecError>(b),
{
    let m = predicate_mask(c, b)->Some_0;
    let o = filter_batch(b, m);
    assert forall|j: int| 0 <= j < b.columns.len() implies o.columns[j] == b.columns[j] by {
        assert(b.columns[j].len() == b.num_rows);
        match b.columns[j] {
            ColumnData::Int64(v) => lemma_select_all(v, m),
            ColumnData::Boolean(v) => lemma_select_all(v, m),
        }
    }
    lemma_select_all(m, m);
    assert(o.columns =~= b.columns);
}

/// A predicate that holds on no row gives a batch of no rows, with the input's
/// schema and columns.
pub proof fn lemma_filter_all_false(c: Expression, b: BatchData)
    requires
        b.wf(),
        predicate_mask(c, b) matches Some(m) && forall|i: int| 0 <= i < m.len() ==> !m[i],
    ensures
        filter_result(c, b) matches Ok(o) && o.num_rows == 0 && o.schema == b.schema
            && o.columns.len() == b.columns.len() && forall|j: int|
            0 <= j < o.columns.len() ==> (#[trigger] o.columns[j]).len() == 0,
{
    let m = predicate_mask(c, b)->Some_0;
    lemma_select_none(m, m);
    assert forall|j: int| 0 <= j < b.columns.len() implies (#[trigger] filter_batch(
        b,
        m,
    ).columns[j]).len() == 0 by {
        match b.columns[j] {
            ColumnData::Int64(v) => lemma_select_none(v, m),
            ColumnData::Boolean(v) => lemma_select_none(v, m),
        }
    }
}

/// A predicate whose value is not boolean fails with a shape error on the
/// batch, and yields no part of it.
pub proof fn lemma_filter_non_boolean(c: Expression, b: BatchData)
    requires
        eval(c, b) matches Ok(v) && v.data_type() != DataType::Boolean,
    ensures
        filter_result(c, b) == Err::<BatchData, ExecError>(ExecError::ShapeError),
{
}

/// Filters `batch` by the selection mask `bitmask`: every column is filtered by
/// the same mask, and the schema is kept. A value that is not a boolean mask
/// of one entry per row gives a shape error.
pub fn apply_filter(batch: &ColumnarBatch, bitmask: &ColumnarValue) -> (r: Result<
    ColumnarBatch,
    ExecError,
>)
    requires
        batch.wf(),
    ensures
        match mask_of(bitmask@, batch.num_rows as nat) {
            None => r == Err::<ColumnarBatch, ExecError>(ExecError::ShapeError),
            Some(m) => r matches Ok(out) && out.wf() && out@ == filter_batch(batch@, m),
        },
{
    let n = batch.num_rows;
    let mask = match to_mask(bitmask, n) {
        Some(m) => m,
        None => {
            return Err(ExecError::ShapeError);
        },
    };
    let ghost m = mask@;
    let mut count: usize = 0;
    let mut i: usize = 0;
    while i < n
        invariant
            mask@.len() == n,
            i <= n,
            count == count_true(mask@.subrange(0, i as int)),
        decreases n - i,
    {
        proof {
            assert(mask@.subrange(0, i + 1).drop_last() =~= mask@.subrange(0, i as int));
            lemma_count_true_bound(mask@.subrange(0, i as int));
        }
        if mask[i] {
            count = count + 1;
        }
        i = i + 1;
    }
    assert(mask@.subrange(0, n as int) =~= mask@);
    let mut filtered_arrays: Vec<ColumnarValue> = Vec::with_capacity(batch.num_columns());
    let mut j: usize = 0;
    while j < batch.num_columns()
        invariant
            batch.wf(),
            mask@.len() == n,
            n == batch.num_rows,
            count == count_true(m),
            m == mask@,
            j <= batch.columns@.len(),
            filtered_arrays@.len() == j,
            forall|k: int|
                0 <= k < j ==> (#[trigger] filtered_arrays@[k])@ == ValueData::Columnar(
                    filter_column(batch@.columns[k], m),
                ),
        decreases batch.columns@.len() - j,
    {
        assert(value_views(batch.columns@)[j as int] == batch.columns@[j as int]@);
        let array = batch.column(j).to_array(n);
        let filtered_array = filter_array(&array, &mask);
        filtered_arrays.push(ColumnarValue::Columnar(filtered_array));
        j = j + 1;
    }
    let out = ColumnarBatch {
        schema: batch.schema.duplicate(),
        columns: filtered_arrays,
        num_rows: count,
    };
    assert forall|k: int| 0 <= k < out.columns@.len() implies {
        &&& (#[trigger] value_views(out.columns@)[k]).fits(count as nat)
        &&& value_views(out.columns@)[k].data_type() == out.schema@[k].data_type
        &&& out@.columns[k] == filter_batch(batch@, m).columns[k]
    } by {
        assert(value_views(batch.columns@)[k] == batch.columns@[k]@);
        let c = batch@.columns[k];
        match c {
            crate::value::ColumnData::Int64(v) => lemma_select_len(v, m),
            crate::value::ColumnData::Boolean(v) => lemma_select_len(v, m),
        }
    }
    assert(out@.columns =~= filter_batch(batch@, m).columns);
    Ok(out)
}

/// An operator that keeps the rows of its child's batches on which a
/// boolean predicate holds.
#[derive(Debug)]
pub struct FilterExec {
    pub child: Box<PhysicalPlan>,
    pub filter_expr: Expr,
}

impl FilterExec {
    pub fn new(child: PhysicalPlan, filter_expr: Expr) -> (r: Self)
        ensures
            *r.child == child,
            r.filter_expr == filter_expr,
    {
        FilterExec { child: Box::new(child), filter_expr }
    }

    /// A filter with the same predicate over the one plan in `new_children`.
    pub fn with_new_children(&self, new_children: Vec<PhysicalPlan>) -> (r: FilterExec)
        requires
            new_children@.len() == 1,
        ensures
            *r.child == new_children@[0],
            r.filter_expr == self.filter_expr,
    {
        let mut new_children = new_children;
        let child = new_children.remove(0);
        FilterExec { filter_expr: self.filter_expr.duplicate(), child: Box::new(child) }
    }

    /// The child's schema: filtering keeps the schema.
    pub fn schema(&self) -> (r: crate::value::Schema)
        ensures
            r@ == self.child.spec_schema(),
        decreases self,
    {
        self.child.schema()
    }

    pub fn output_partitioning(&self) -> (r: Partitioning)
        ensures
            r == Partitioning::UnknownPartitioning(self.child.partition_count() as usize),
        decreases self,
    {
        self.child.output_partitioning()
    }

    pub fn children(&self) -> (r: Vec<&PhysicalPlan>)
        ensures
            r@ == seq![&*self.child],
    {
        vec![&*self.child]
    }

    /// Compiles the predicate against the schema, then starts the child's
    /// partition, and wraps the child's stream.
    pub fn execute(&self, ctx: &ExecutionContext, partition_index: usize) -> (r: Result<
        BatchStream,
        ExecError,
    >)
        requires
            self.child.wf(),
        ensures
            ({
                let plan = PhysicalPlan::Filter(*self);
                &&& !plan.compiles() ==> r == Err::<BatchStream, ExecError>(
                    ExecError::CompileError,
                )
                &&& plan.compiles() && partition_index >= plan.partition_count() ==> r == Err::<
                    BatchStream,
                    ExecError,
                >(ExecError::PartitionOutOfRange)
                &&& plan.compiles() && partition_index < plan.partition_count() ==> (r matches Ok(
                    s,
                ) && {
                    &&& s.wf()
                    &&& s.spec_schema() == plan.spec_schema()
                    &&& s.pending() == plan.source(partition_index as int)
                    &&& s.stages().len() == plan.filter_exprs().len()
                    &&& forall|k: int|
                        0 <= k < s.stages().len() ==> binds(
                            #[trigger] plan.filter_exprs()[k],
                            plan.spec_schema(),
                            s.stages()[k],
                        )
                })
            }),
        decreases self,
    {
        let ghost plan = PhysicalPlan::Filter(*self);
        let ghost inner = self.child.filter_exprs();
        assert(plan.filter_exprs() == inner.push(self.filter_expr));
        assert forall|k: int| 0 <= k < inner.len() implies plan.filter_exprs()[k] == inner[k] by {}
        let schema = self.schema();
        let expr = match compile_expression(&self.filter_expr, &schema) {
            Ok(e) => e,
            Err(e) => {
                assert(type_of(plan.filter_exprs()[inner.len() as int], plan.spec_schema()) is None);
                return Err(e);
            },
        };
        let input = match self.child.execute(ctx, partition_index) {
            Ok(s) => s,
            Err(e) => {
                proof {
                    if !self.child.compiles() {
                        let k = choose|k: int| 0 <= k < inner.len() && !(#[trigger] type_of(
                            inner[k],
                            self.child.spec_schema(),
                        ) is Some);
                        assert(type_of(plan.filter_exprs()[k], plan.spec_schema()) is None);
                    }
                }
                return Err(e);
            },
        };
        let s = BatchStream::Filter(Box::new(FilterIter { input, filter_expr: expr }));
        assert(s.stages() == input.stages().push(expr));
        Ok(s)
    }
}

/// The stream of a filter: pulls from its input and filters each batch.
#[derive(Debug)]
pub struct FilterIter {
    pub input: BatchStream,
    pub filter_expr: Expression,
}

impl FilterIter {
    pub fn schema(&self) -> (r: crate::value::Schema)
        ensures
            r@ == self.input.spec_schema(),
        decreases self,
    {
        self.input.schema()
    }

    /// Pulls the next batch from the input and filters it by the predicate;
    /// end of stream and errors of the input are passed on as they are.
    pub fn next(&mut self) -> (r: Result<Option<ColumnarBatch>, ExecError>)
        requires
            old(self).input.wf(),
        ensures
            final(self).input.wf(),
            final(self).filter_expr == old(self).filter_expr,
            final(self).input.stages() == old(self).input.stages(),
            final(self).input.spec_schema() == old(self).input.spec_schema(),
            old(self).input.pending().len() == 0 ==> (r matches Ok(None)
                && final(self).input.pending() == old(self).input.pending()),
            old(self).input.pending().len() > 0 ==> final(self).input.pending()
                == old(self).input.pending().drop_first() && pull_result(r) == some_result(
                run_stages(
                    old(self).input.stages().push(old(self).filter_expr),
                    old(self).input.pending()[0],
                ),
            ),
            r matches Ok(Some(b)) ==> b.wf(),
        decreases 2 * old(self).input.depth() + 1,
    {
        let ghost st = self.input.stages();
        assert(st.push(self.filter_expr).drop_last() == st);
        match self.input.next()? {
            Some(input) => {
                let bools = self.filter_expr.evaluate(&input)?;
                let batch = apply_filter(&input, &bools)?;
                Ok(Some(batch))
            },
            None => Ok(None),
        }
    }
}

} // verus!
