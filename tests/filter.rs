use ballista::batch::ColumnarBatch;
use ballista::error::ExecError;
use ballista::expr::{compile_expression, Expr, Operator};
use ballista::filter::{apply_filter, FilterExec};
use ballista::plan::{BatchStream, ExecutionContext, MemoryExec, Partitioning, PhysicalPlan};
use ballista::value::{Array, ColumnarValue, DataType, Field, ScalarValue, Schema};

fn id_flag_schema() -> Schema {
    Schema::new(vec![Field::new("id", DataType::Int64), Field::new("flag", DataType::Boolean)])
}

fn id_schema() -> Schema {
    Schema::new(vec![Field::new("id", DataType::Int64)])
}

fn ints(v: &[i64]) -> ColumnarValue {
    ColumnarValue::Columnar(Array::Int64(v.to_vec()))
}

fn bools(v: &[bool]) -> ColumnarValue {
    ColumnarValue::Columnar(Array::Boolean(v.to_vec()))
}

fn id_flag_batch() -> ColumnarBatch {
    ColumnarBatch::try_new(
        id_flag_schema(),
        vec![ints(&[1, 2, 3, 4]), bools(&[true, false, true, false])],
        4,
    )
    .unwrap()
}

fn id_batch(v: &[i64]) -> ColumnarBatch {
    ColumnarBatch::try_new(id_schema(), vec![ints(v)], v.len()).unwrap()
}

fn col(name: &str) -> Expr {
    Expr::Column(name.to_string())
}

fn lit_i(v: i64) -> Expr {
    Expr::Literal(ScalarValue::Int64(v))
}

fn lit_b(v: bool) -> Expr {
    Expr::Literal(ScalarValue::Boolean(v))
}

fn binary(l: Expr, op: Operator, r: Expr) -> Expr {
    Expr::BinaryExpr(Box::new(l), op, Box::new(r))
}

fn memory(schema: Schema, partitions: Vec<Vec<ColumnarBatch>>) -> PhysicalPlan {
    PhysicalPlan::Memory(MemoryExec::new(schema, partitions))
}

fn filter(child: PhysicalPlan, e: Expr) -> PhysicalPlan {
    PhysicalPlan::Filter(FilterExec::new(child, e))
}

fn int_column(b: &ColumnarBatch, i: usize) -> Vec<i64> {
    match b.column(i) {
        ColumnarValue::Columnar(Array::Int64(v)) => v.clone(),
        other => panic!("not an integer array: {:?}", other),
    }
}

fn bool_column(b: &ColumnarBatch, i: usize) -> Vec<bool> {
    match b.column(i) {
        ColumnarValue::Columnar(Array::Boolean(v)) => v.clone(),
        other => panic!("not a boolean array: {:?}", other),
    }
}

fn drain(s: &mut BatchStream) -> Vec<Result<ColumnarBatch, ExecError>> {
    let mut out = Vec::new();
    loop {
        match s.next() {
            Ok(Some(b)) => out.push(Ok(b)),
            Ok(None) => return out,
            Err(e) => {
                out.push(Err(e));
                return out;
            }
        }
    }
}

#[test]
fn filter_on_flag_column_keeps_matching_rows() {
    let plan = filter(
        memory(id_flag_schema(), vec![vec![id_flag_batch()]]),
        binary(col("flag"), Operator::Eq, lit_b(true)),
    );
    let ctx = ExecutionContext::new();
    let mut s = plan.execute(&ctx, 0).unwrap();
    let b = s.next().unwrap().unwrap();
    assert_eq!(b.num_rows(), 2);
    assert_eq!(b.num_columns(), 2);
    assert_eq!(int_column(&b, 0), vec![1, 3]);
    assert_eq!(bool_column(&b, 1), vec![true, true]);
    assert!(matches!(s.next(), Ok(None)));
}

#[test]
fn filter_two_batches_keeps_order_and_empty_batch() {
    let plan = filter(
        memory(id_schema(), vec![vec![id_batch(&[1, 2]), id_batch(&[3, 4])]]),
        binary(col("id"), Operator::Gt, lit_i(2)),
    );
    let ctx = ExecutionContext::new();
    let mut s = plan.execute(&ctx, 0).unwrap();
    let first = s.next().unwrap().unwrap();
    assert_eq!(first.num_rows(), 0);
    assert_eq!(int_column(&first, 0), Vec::<i64>::new());
    let second = s.next().unwrap().unwrap();
    assert_eq!(int_column(&second, 0), vec![3, 4]);
    assert!(matches!(s.next(), Ok(None)));
    assert!(matches!(s.next(), Ok(None)));
}

#[test]
fn all_true_predicate_returns_input_rows() {
    let plan = filter(memory(id_flag_schema(), vec![vec![id_flag_batch()]]), lit_b(true));
    let mut s = plan.execute(&ExecutionContext::new(), 0).unwrap();
    let b = s.next().unwrap().unwrap();
    assert_eq!(b.num_rows(), 4);
    assert_eq!(int_column(&b, 0), vec![1, 2, 3, 4]);
    assert_eq!(bool_column(&b, 1), vec![true, false, true, false]);
    assert_eq!(b.schema.fields.len(), 2);
    assert_eq!(b.schema.fields[0].name, "id");
    assert_eq!(b.schema.fields[1].data_type, DataType::Boolean);
}

#[test]
fn all_false_predicate_returns_empty_batch_with_schema() {
    let plan = filter(
        memory(id_flag_schema(), vec![vec![id_flag_batch()]]),
        binary(col("id"), Operator::Lt, lit_i(0)),
    );
    let mut s = plan.execute(&ExecutionContext::new(), 0).unwrap();
    let b = s.next().unwrap().unwrap();
    assert_eq!(b.num_rows(), 0);
    assert_eq!(b.num_columns(), 2);
    assert_eq!(b.schema.fields[0].name, "id");
    assert_eq!(b.schema.fields[1].name, "flag");
    assert_eq!(int_column(&b, 0), Vec::<i64>::new());
    assert_eq!(bool_column(&b, 1), Vec::<bool>::new());
}

#[test]
fn empty_input_gives_empty_output() {
    let plan = filter(memory(id_schema(), vec![vec![]]), binary(col("id"), Operator::Gt, lit_i(2)));
    let mut s = plan.execute(&ExecutionContext::new(), 0).unwrap();
    assert!(matches!(s.next(), Ok(None)));
    assert!(matches!(s.next(), Ok(None)));
}

#[test]
fn unknown_column_fails_at_execute() {
    let plan = filter(
        memory(id_schema(), vec![vec![id_batch(&[1])]]),
        binary(col("missing"), Operator::Eq, lit_i(1)),
    );
    assert!(matches!(plan.execute(&ExecutionContext::new(), 0), Err(ExecError::CompileError)));
    // compilation comes before the child is started, so the index does not matter
    assert!(matches!(plan.execute(&ExecutionContext::new(), 7), Err(ExecError::CompileError)));
}

#[test]
fn type_mismatch_fails_at_execute() {
    let plan = filter(
        memory(id_flag_schema(), vec![vec![id_flag_batch()]]),
        binary(col("id"), Operator::And, col("flag")),
    );
    assert!(matches!(plan.execute(&ExecutionContext::new(), 0), Err(ExecError::CompileError)));
}

#[test]
fn inner_filter_compile_error_is_reported() {
    let inner = filter(memory(id_schema(), vec![vec![]]), col("nope"));
    let plan = filter(inner, lit_b(true));
    assert!(matches!(plan.execute(&ExecutionContext::new(), 3), Err(ExecError::CompileError)));
}

#[test]
fn non_boolean_predicate_is_a_shape_error() {
    let plan = filter(memory(id_schema(), vec![vec![id_batch(&[1, 2])]]), col("id"));
    let mut s = plan.execute(&ExecutionContext::new(), 0).unwrap();
    assert!(matches!(s.next(), Err(ExecError::ShapeError)));
}

#[test]
fn partition_out_of_range() {
    let plan = filter(memory(id_schema(), vec![vec![], vec![]]), lit_b(true));
    assert!(matches!(
        plan.execute(&ExecutionContext::new(), 2),
        Err(ExecError::PartitionOutOfRange)
    ));
    assert!(plan.execute(&ExecutionContext::new(), 1).is_ok());
}

#[test]
fn partitions_are_independent() {
    let plan = filter(
        memory(id_schema(), vec![vec![id_batch(&[1, 5])], vec![id_batch(&[6, 0])]]),
        binary(col("id"), Operator::GtEq, lit_i(5)),
    );
    let mut s1 = plan.execute(&ExecutionContext::new(), 1).unwrap();
    let mut s0 = plan.execute(&ExecutionContext::new(), 0).unwrap();
    assert_eq!(int_column(&s1.next().unwrap().unwrap(), 0), vec![6]);
    assert_eq!(int_column(&s0.next().unwrap().unwrap(), 0), vec![5]);
}

#[test]
fn stacked_filters_apply_in_turn() {
    let inner = filter(
        memory(id_flag_schema(), vec![vec![id_flag_batch()]]),
        binary(col("id"), Operator::NotEq, lit_i(3)),
    );
    let plan = filter(inner, binary(col("flag"), Operator::Or, binary(col("id"), Operator::LtEq, lit_i(2))));
    let mut s = plan.execute(&ExecutionContext::new(), 0).unwrap();
    let b = s.next().unwrap().unwrap();
    assert_eq!(int_column(&b, 0), vec![1, 2]);
    assert_eq!(bool_column(&b, 1), vec![true, false]);
}

#[test]
fn not_predicate_inverts_mask() {
    let plan = filter(
        memory(id_flag_schema(), vec![vec![id_flag_batch()]]),
        Expr::Not(Box::new(col("flag"))),
    );
    let mut s = plan.execute(&ExecutionContext::new(), 0).unwrap();
    let b = s.next().unwrap().unwrap();
    assert_eq!(int_column(&b, 0), vec![2, 4]);
    assert_eq!(bool_column(&b, 1), vec![false, false]);
}

#[test]
fn all_outputs_drained() {
    let plan = filter(
        memory(id_schema(), vec![vec![id_batch(&[1, 2]), id_batch(&[3]), id_batch(&[4, 5, 6])]]),
        binary(col("id"), Operator::Gt, lit_i(1)),
    );
    let mut s = plan.execute(&ExecutionContext::new(), 0).unwrap();
    let out = drain(&mut s);
    let rows: Vec<Vec<i64>> = out.iter().map(|r| int_column(r.as_ref().unwrap(), 0)).collect();
    assert_eq!(rows, vec![vec![2], vec![3], vec![4, 5, 6]]);
}

#[test]
fn evaluation_error_on_batch_of_other_schema() {
    let e = compile_expression(&binary(col("id"), Operator::Gt, lit_i(1)), &id_schema()).unwrap();
    let other = ColumnarBatch::try_new(
        Schema::new(vec![Field::new("b", DataType::Boolean)]),
        vec![bools(&[true])],
        1,
    )
    .unwrap();
    assert!(matches!(e.evaluate(&other), Err(ExecError::EvaluationError)));
}

#[test]
fn apply_filter_with_scalar_and_bad_masks() {
    let b = id_flag_batch();
    let all = apply_filter(&b, &ColumnarValue::Scalar(ScalarValue::Boolean(true))).unwrap();
    assert_eq!(int_column(&all, 0), vec![1, 2, 3, 4]);
    let none = apply_filter(&b, &ColumnarValue::Scalar(ScalarValue::Boolean(false))).unwrap();
    assert_eq!(none.num_rows(), 0);
    let m = apply_filter(&b, &bools(&[false, true, true, false])).unwrap();
    assert_eq!(int_column(&m, 0), vec![2, 3]);
    assert_eq!(bool_column(&m, 1), vec![false, true]);
    assert!(matches!(apply_filter(&b, &bools(&[true])), Err(ExecError::ShapeError)));
    assert!(matches!(apply_filter(&b, &ints(&[1, 2, 3, 4])), Err(ExecError::ShapeError)));
    assert!(matches!(
        apply_filter(&b, &ColumnarValue::Scalar(ScalarValue::Int64(1))),
        Err(ExecError::ShapeError)
    ));
}

#[test]
fn scalar_column_is_materialized_by_filter() {
    let b = ColumnarBatch::try_new(
        id_schema(),
        vec![ColumnarValue::Scalar(ScalarValue::Int64(9))],
        3,
    )
    .unwrap();
    let out = apply_filter(&b, &bools(&[true, false, true])).unwrap();
    assert_eq!(int_column(&out, 0), vec![9, 9]);
}

#[test]
fn batch_shape_is_checked() {
    assert!(matches!(
        ColumnarBatch::try_new(id_schema(), vec![ints(&[1, 2])], 3),
        Err(ExecError::ShapeError)
    ));
    assert!(matches!(
        ColumnarBatch::try_new(id_schema(), vec![bools(&[true])], 1),
        Err(ExecError::ShapeError)
    ));
    assert!(matches!(ColumnarBatch::try_new(id_schema(), vec![], 0), Err(ExecError::ShapeError)));
}

#[test]
fn duplicate_column_names_bind_first() {
    let schema = Schema::new(vec![Field::new("x", DataType::Int64), Field::new("x", DataType::Boolean)]);
    let b = ColumnarBatch::try_new(schema, vec![ints(&[1, 2]), bools(&[true, true])], 2).unwrap();
    let plan = filter(
        PhysicalPlan::Memory(MemoryExec::new(
            Schema::new(vec![Field::new("x", DataType::Int64), Field::new("x", DataType::Boolean)]),
            vec![vec![b]],
        )),
        binary(col("x"), Operator::Eq, lit_i(2)),
    );
    let mut s = plan.execute(&ExecutionContext::new(), 0).unwrap();
    assert_eq!(int_column(&s.next().unwrap().unwrap(), 0), vec![2]);
}

#[test]
fn schema_partitioning_and_children_pass_through() {
    let plan = filter(memory(id_flag_schema(), vec![vec![], vec![], vec![]]), lit_b(true));
    let schema = plan.schema();
    assert_eq!(schema.fields.len(), 2);
    assert_eq!(schema.fields[1].name, "flag");
    assert_eq!(plan.output_partitioning(), Partitioning::UnknownPartitioning(3));
    assert_eq!(plan.children().len(), 1);
    let s = plan.execute(&ExecutionContext::new(), 2).unwrap();
    assert_eq!(s.schema().fields[0].name, "id");
}

#[test]
fn with_new_children_replaces_child_keeps_predicate() {
    let f = FilterExec::new(
        memory(id_schema(), vec![vec![id_batch(&[1, 2, 3])]]),
        binary(col("id"), Operator::Gt, lit_i(1)),
    );
    let replaced = f.with_new_children(vec![memory(id_schema(), vec![vec![id_batch(&[0, 5])], vec![]])]);
    assert_eq!(replaced.output_partitioning(), Partitioning::UnknownPartitioning(2));
    let plan = PhysicalPlan::Filter(replaced);
    let mut s = plan.execute(&ExecutionContext::new(), 0).unwrap();
    assert_eq!(int_column(&s.next().unwrap().unwrap(), 0), vec![5]);
}
