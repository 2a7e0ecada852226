//! Physical plans and the batch streams that executing one partition yields.
use vstd::prelude::*;
use crate::batch::{BatchData, ColumnarBatch};
use crate::error::ExecError;
use crate::expr::{binds, type_of, Expr, Expression};
use crate::filter::{filter_result, FilterExec, FilterIter};
use crate::value::{FieldData, Schema};

verus! {

/// How an operator's output rows are spread over partitions.
#[derive(Debug, Clone, Copy, PartialEq, Eq, Structural)]
pub enum Partitioning {
    /// A known number of partitions, with no known rule for which row goes where.
    UnknownPartitioning(usize),
}

/// The runtime handle passed to every execution; operators hand it on to
/// their children.
#[derive(Debug)]
pub struct ExecutionContext {}

impl ExecutionContext {
    pub fn new() -> (r: ExecutionContext) {
        ExecutionContext {  }
    }
}

/// The abstract values of a sequence of batches.
pub open spec fn batch_views(bs: Seq<ColumnarBatch>) -> Seq<BatchData> {
    bs.map_values(|b: ColumnarBatch| b@)
}

/// A leaf that holds its batches in memory, one list per partition.
#[derive(Debug)]
pub struct MemoryExec {
    pub schema: Schema,
    pub partitions: Vec<Vec<ColumnarBatch>>,
}

impl MemoryExec {
    /// Every batch is well formed and has the leaf's schema.
    pub open spec fn wf(&self) -> bool {
        forall|p: int, k: int|
            0 <= p < self.partitions@.len() && 0 <= k < self.partitions@[p]@.len() ==> {
                &&& (#[trigger] self.partitions@[p]@[k]).wf()
                &&& self.partitions@[p]@[k].schema@ == self.schema@
            }
    }

    pub fn new(schema: Schema, partitions: Vec<Vec<ColumnarBatch>>) -> (r: MemoryExec)
        ensures
            r.schema@ == schema@,
            r.partitions@ == partitions@,
    {
        MemoryExec { schema, partitions }
    }
}

/// A tree of operators.
#[derive(Debug)]
pub enum PhysicalPlan {
    Memory(MemoryExec),
    Filter(FilterExec),
}

/// The outcome of pulling the source batches through compiled filter
/// predicates, innermost first.
pub open spec fn run_stages(stages: Seq<Expression>, b: BatchData) -> Result<BatchData, ExecError>
    decreases stages.len(),
{
    if stages.len() == 0 {
        Ok(b)
    } else {
        match run_stages(stages.drop_last(), b) {
            Err(e) => Err(e),
            Ok(x) => filter_result(stages.last(), x),
        }
    }
}

impl PhysicalPlan {
    pub open spec fn spec_schema(&self) -> Seq<FieldData>
        decreases self,
    {
        match self {
            PhysicalPlan::Memory(m) => m.schema@,
            PhysicalPlan::Filter(f) => f.child.spec_schema(),
        }
    }

    pub open spec fn partition_count(&self) -> nat
        decreases self,
    {
        match self {
            PhysicalPlan::Memory(m) => m.partitions@.len(),
            PhysicalPlan::Filter(f) => f.child.partition_count(),
        }
    }

    /// The predicates of the filters on the way down to the leaf, innermost first.
    pub open spec fn filter_exprs(&self) -> Seq<Expr>
        decreases self,
    {
        match self {
            PhysicalPlan::Memory(_) => Seq::empty(),
            PhysicalPlan::Filter(f) => f.child.filter_exprs().push(f.filter_expr),
        }
    }

    /// The batches that the leaf holds for partition `p`.
    pub open spec fn source(&self, p: int) -> Seq<BatchData>
        decreases self,
    {
        match self {
            PhysicalPlan::Memory(m) => batch_views(m.partitions@[p]@),
            PhysicalPlan::Filter(f) => f.child.source(p),
        }
    }

    /// Each predicate compiles against the plan's schema.
    pub open spec fn compiles(&self) -> bool {
        forall|k: int|
            0 <= k < self.filter_exprs().len() ==> (#[trigger] type_of(
                self.filter_exprs()[k],
                self.spec_schema(),
            )) is Some
    }

    pub open spec fn wf(&self) -> bool
        decreases self,
    {
        match self {
            PhysicalPlan::Memory(m) => m.wf(),
            PhysicalPlan::Filter(f) => f.child.wf(),
        }
    }

    /// The output schema: a leaf's own, or, through a filter, the child's.
    pub fn schema(&self) -> (r: Schema)
        ensures
            r@ == self.spec_schema(),
        decreases self,
    {
        match self {
            PhysicalPlan::Memory(m) => m.schema.duplicate(),
            PhysicalPlan::Filter(f) => f.schema(),
        }
    }

    /// How the output rows are spread: a leaf has one partition per list of
    /// batches; a filter keeps its child's partitioning.
    pub fn output_partitioning(&self) -> (r: Partitioning)
        ensures
            r == Partitioning::UnknownPartitioning(self.partition_count() as usize),
        decreases self,
    {
        match self {
            PhysicalPlan::Memory(m) => Partitioning::UnknownPartitioning(m.partitions.len()),
            PhysicalPlan::Filter(f) => f.output_partitioning(),
        }
    }

    /// The inputs of this operator: none for a leaf, the child for a filter.
    pub fn children(&self) -> (r: Vec<&PhysicalPlan>)
        ensures
            match self {
                PhysicalPlan::Memory(_) => r@.len() == 0,
                PhysicalPlan::Filter(f) => r@ == seq![&*f.child],
            },
    {
        match self {
            PhysicalPlan::Memory(_) => Vec::new(),
            PhysicalPlan::Filter(f) => f.children(),
        }
    }

    /// Starts partition `partition_index` of this plan. Every predicate is
    /// compiled before any child is started, so a predicate that does not
    /// compile gives a compile error whatever the partition index; else an
    /// index past the partition count gives `PartitionOutOfRange`; else the
    /// stream yields the partition's source batches, each passed through the
    /// compiled predicates.
    pub fn execute(&self, ctx: &ExecutionContext, partition_index: usize) -> (r: Result<
        BatchStream,
        ExecError,
    >)
        requires
            self.wf(),
        ensures
            !self.compiles() ==> r == Err::<BatchStream, ExecError>(ExecError::CompileError),
            self.compiles() && partition_index >= self.partition_count() ==> r == Err::<
                BatchStream,
                ExecError,
            >(ExecError::PartitionOutOfRange),
            self.compiles() && partition_index < self.partition_count() ==> (r matches Ok(s) && {
                &&& s.wf()
                &&& s.spec_schema() == self.spec_schema()
                &&& s.pending() == self.source(partition_index as int)
                &&& s.stages().len() == self.filter_exprs().len()
                &&& forall|k: int|
                    0 <= k < s.stages().len() ==> binds(
                        #[trigger] self.filter_exprs()[k],
                        self.spec_schema(),
                        s.stages()[k],
                    )
            }),
        decreases self,
    {
        match self {
            PhysicalPlan::Memory(m) => {
                if partition_index >= m.partitions.len() {
                    return Err(ExecError::PartitionOutOfRange);
                }
                let src = &m.partitions[partition_index];
                let mut batches: Vec<ColumnarBatch> = Vec::with_capacity(src.len());
                let mut i: usize = 0;
                while i < src.len()
                    invariant
                        m.wf(),
                        partition_index < m.partitions@.len(),
                        *src == m.partitions@[partition_index as int],
                        i <= src@.len(),
                        batches@.len() == i,
                        forall|k: int|
                            0 <= k < i ==> (#[trigger] batches@[k])@ == src@[k]@ && batches@[k].wf(),
                    decreases src@.len() - i,
                {
                    assert(src@[i as int] == m.partitions@[partition_index as int]@[i as int]);
                    batches.push(src[i].duplicate());
                    i = i + 1;
                }
                let s = MemoryStream { schema: m.schema.duplicate(), batches, pos: 0 };
                assert(batch_views(s.batches@).subrange(0, 0 + s.batches@.len() as int)
                    =~= batch_views(src@));
                Ok(BatchStream::Memory(s))
            },
            PhysicalPlan::Filter(f) => f.execute(ctx, partition_index),
        }
    }
}

/// A leaf's stream: its batches, and how many it has handed out.
#[derive(Debug)]
pub struct MemoryStream {
    pub schema: Schema,
    pub batches: Vec<ColumnarBatch>,
    pub pos: usize,
}

/// A lazy, pull-based sequence of batches.
#[derive(Debug)]
pub enum BatchStream {
    Memory(MemoryStream),
    Filter(Box<FilterIter>),
}

/// The abstract value of a pull's outcome.
pub open spec fn pull_result(r: Result<Option<ColumnarBatch>, ExecError>) -> Result<
    Option<BatchData>,
    ExecError,
> {
    match r {
        Ok(Some(b)) => Ok(Some(b@)),
        Ok(None) => Ok(None),
        Err(e) => Err(e),
    }
}

/// The abstract value of a batch outcome that may be a batch.
pub open spec fn some_result(r: Result<BatchData, ExecError>) -> Result<Option<BatchData>, ExecError> {
    match r {
        Ok(b) => Ok(Some(b)),
        Err(e) => Err(e),
    }
}

impl BatchStream {
    pub open spec fn spec_schema(&self) -> Seq<FieldData>
        decreases self,
    {
        match self {
            BatchStream::Memory(m) => m.schema@,
            BatchStream::Filter(f) => f.input.spec_schema(),
        }
    }

    /// The schema of the batches: a filter's stream has its input's.
    pub fn schema(&self) -> (r: Schema)
        ensures
            r@ == self.spec_schema(),
        decreases self,
    {
        match self {
            BatchStream::Memory(m) => m.schema.duplicate(),
            BatchStream::Filter(f) => f.schema(),
        }
    }

    /// How many filters wrap the leaf's stream.
    pub open spec fn depth(&self) -> nat
        decreases self,
    {
        match self {
            BatchStream::Memory(_) => 0,
            BatchStream::Filter(f) => f.input.depth() + 1,
        }
    }

    /// The source batches that have not been pulled yet.
    pub open spec fn pending(&self) -> Seq<BatchData>
        decreases self,
    {
        match self {
            BatchStream::Memory(m) => batch_views(m.batches@).subrange(
                m.pos as int,
                m.batches@.len() as int,
            ),
            BatchStream::Filter(f) => f.input.pending(),
        }
    }

    /// The compiled predicates that each source batch passes through,
    /// innermost first.
    pub open spec fn stages(&self) -> Seq<Expression>
        decreases self,
    {
        match self {
            BatchStream::Memory(_) => Seq::empty(),
            BatchStream::Filter(f) => f.input.stages().push(f.filter_expr),
        }
    }

    pub open spec fn wf(&self) -> bool
        decreases self,
    {
        match self {
            BatchStream::Memory(m) => m.pos <= m.batches@.len() && forall|k: int|
                0 <= k < m.batches@.len() ==> (#[trigger] m.batches@[k]).wf(),
            BatchStream::Filter(f) => f.input.wf(),
        }
    }

    /// Pulls the next batch: end of stream once the source is exhausted, and
    /// again on every later pull; else the next source batch passed through
    /// the stream's predicates, or the first error that this met.
    pub fn next(&mut self) -> (r: Result<Option<ColumnarBatch>, ExecError>)
        requires
            old(self).wf(),
        ensures
            final(self).wf(),
            final(self).stages() == old(self).stages(),
            final(self).spec_schema() == old(self).spec_schema(),
            old(self).pending().len() == 0 ==> (r matches Ok(None) && final(self).pending()
                == old(self).pending()),
            old(self).pending().len() > 0 ==> final(self).pending() == old(self).pending().drop_first()
                && pull_result(r) == some_result(
                run_stages(old(self).stages(), old(self).pending()[0]),
            ),
            r matches Ok(Some(b)) ==> b.wf(),
        decreases 2 * old(self).depth(),
    {
        match self {
            BatchStream::Memory(m) => {
                if m.pos >= m.batches.len() {
                    return Ok(None);
                }
                let b = m.batches[m.pos].duplicate();
                m.pos = m.pos + 1;
                proof {
                    let old_views = batch_views(old(self)->Memory_0.batches@);
                    assert(batch_views(m.batches@).subrange(m.pos as int, m.batches@.len() as int)
                        =~= old_views.subrange(m.pos - 1, m.batches@.len() as int).drop_first());
                }
                Ok(Some(b))
            },
            BatchStream::Filter(f) => f.next(),
        }
    }
}

} // verus!
