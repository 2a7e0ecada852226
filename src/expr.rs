//! Predicate expressions: the uncompiled tree, its compilation against a
//! schema, and evaluation of the compiled form against a batch.
use vstd::prelude::*;
use crate::batch::{value_views, BatchData, ColumnarBatch};
use crate::error::ExecError;
use crate::value::{
    Array, ColumnData, ColumnarValue, DataType, FieldData, Schema, ScalarValue, ValueData,
};

verus! {

/// A binary operator. Every operator yields a boolean.
#[derive(Debug, Clone, Copy, PartialEq, Eq, Structural)]
pub enum Operator {
    Eq,
    NotEq,
    Lt,
    LtEq,
    Gt,
    GtEq,
    And,
    Or,
}

/// An uncompiled expression, whose columns are named.
#[derive(Debug)]
pub enum Expr {
    Column(String),
    Literal(ScalarValue),
    BinaryExpr(Box<Expr>, Operator, Box<Expr>),
    Not(Box<Expr>),
}

/// A compiled expression, whose columns are positions in the schema it was
/// compiled against.
#[derive(Debug)]
pub enum Expression {
    Column(usize),
    Literal(ScalarValue),
    Binary(Box<Expression>, Operator, Box<Expression>),
    Not(Box<Expression>),
}

/// `op` takes two operands of type `t`: equality takes any type, ordering
/// takes integers, conjunction and disjunction take booleans.
pub open spec fn op_accepts(op: Operator, t: DataType) -> bool {
    match op {
        Operator::Eq | Operator::NotEq => true,
        Operator::Lt | Operator::LtEq | Operator::Gt | Operator::GtEq => t == DataType::Int64,
        Operator::And | Operator::Or => t == DataType::Boolean,
    }
}

pub open spec fn int_op(op: Operator, x: i64, y: i64) -> bool {
    match op {
        Operator::Eq => x == y,
        Operator::NotEq => x != y,
        Operator::Lt => x < y,
        Operator::LtEq => x <= y,
        Operator::Gt => x > y,
        Operator::GtEq => x >= y,
        _ => false,
    }
}

pub open spec fn bool_op(op: Operator, x: bool, y: bool) -> bool {
    match op {
        Operator::Eq => x == y,
        Operator::NotEq => x != y,
        Operator::And => x && y,
        Operator::Or => x || y,
        _ => false,
    }
}

pub open spec fn scalar_op(op: Operator, x: ScalarValue, y: ScalarValue) -> bool {
    match (x, y) {
        (ScalarValue::Int64(a), ScalarValue::Int64(b)) => int_op(op, a, b),
        (ScalarValue::Boolean(a), ScalarValue::Boolean(b)) => bool_op(op, a, b),
        _ => false,
    }
}

/// `op` applied to row `i` of two columns of one type.
pub open spec fn cell_op(op: Operator, x: ColumnData, y: ColumnData, i: int) -> bool {
    match (x, y) {
        (ColumnData::Int64(a), ColumnData::Int64(b)) => int_op(op, a[i], b[i]),
        (ColumnData::Boolean(a), ColumnData::Boolean(b)) => bool_op(op, a[i], b[i]),
        _ => false,
    }
}

/// Position `i` is the first field of `fields` named `name`.
pub open spec fn first_named(fields: Seq<FieldData>, name: Seq<char>, i: int) -> bool {
    &&& 0 <= i < fields.len()
    &&& fields[i].name == name
    &&& forall|j: int| 0 <= j < i ==> (#[trigger] fields[j]).name != name
}

/// The position of the first field named `name`, if any.
pub open spec fn field_index(fields: Seq<FieldData>, name: Seq<char>) -> Option<int> {
    if exists|i: int| first_named(fields, name, i) {
        Some(choose|i: int| first_named(fields, name, i))
    } else {
        None
    }
}

/// The type of `e` over `fields`, or none where `e` names a missing column or
/// applies an operator to operands it does not take.
pub open spec fn type_of(e: Expr, fields: Seq<FieldData>) -> Option<DataType>
    decreases e,
{
    match e {
        Expr::Column(name) => match field_index(fields, name@) {
            Some(i) => Some(fields[i].data_type),
            None => None,
        },
        Expr::Literal(v) => Some(v.spec_data_type()),
        Expr::BinaryExpr(l, op, r) => match (type_of(*l, fields), type_of(*r, fields)) {
            (Some(lt), Some(rt)) => if lt == rt && op_accepts(op, lt) {
                Some(DataType::Boolean)
            } else {
                None
            },
            _ => None,
        },
        Expr::Not(x) => match type_of(*x, fields) {
            Some(DataType::Boolean) => Some(DataType::Boolean),
            _ => None,
        },
    }
}

/// `c` is `e` with each column name replaced by the position of the first
/// field of that name.
pub open spec fn binds(e: Expr, fields: Seq<FieldData>, c: Expression) -> bool
    decreases e,
{
    match (e, c) {
        (Expr::Column(name), Expression::Column(i)) => field_index(fields, name@) == Some(
            i as int,
        ),
        (Expr::Literal(v), Expression::Literal(w)) => v == w,
        (Expr::BinaryExpr(l, op, r), Expression::Binary(cl, cop, cr)) => op == cop && binds(
            *l,
            fields,
            *cl,
        ) && binds(*r, fields, *cr),
        (Expr::Not(x), Expression::Not(cx)) => binds(*x, fields, *cx),
        _ => false,
    }
}

/// The value of `c` on batch `b`. Evaluation fails where a column position is
/// past the batch's columns or an operator meets operands it does not take.
pub open spec fn eval(c: Expression, b: BatchData) -> Result<ValueData, ExecError>
    decreases c,
{
    match c {
        Expression::Column(i) => if i < b.columns.len() {
            Ok(ValueData::Columnar(b.columns[i as int]))
        } else {
            Err(ExecError::EvaluationError)
        },
        Expression::Literal(v) => Ok(ValueData::Scalar(v)),
        Expression::Binary(l, op, r) => match eval(*l, b) {
            Err(e) => Err(e),
            Ok(lv) => match eval(*r, b) {
                Err(e) => Err(e),
                Ok(rv) => if lv.data_type() != rv.data_type() || !op_accepts(
                    op,
                    lv.data_type(),
                ) {
                    Err(ExecError::EvaluationError)
                } else {
                    match (lv, rv) {
                        (ValueData::Scalar(x), ValueData::Scalar(y)) => Ok(
                            ValueData::Scalar(ScalarValue::Boolean(scalar_op(op, x, y))),
                        ),
                        _ => Ok(
                            ValueData::Columnar(
                                ColumnData::Boolean(
                                    Seq::new(
                                        b.num_rows,
                                        |i: int|
                                            cell_op(
                                                op,
                                                lv.materialize(b.num_rows),
                                                rv.materialize(b.num_rows),
                                                i,
                                            ),
                                    ),
                                ),
                            ),
                        ),
                    }
                },
            },
        },
        Expression::Not(x) => match eval(*x, b) {
            Err(e) => Err(e),
            Ok(ValueData::Scalar(ScalarValue::Boolean(v))) => Ok(
                ValueData::Scalar(ScalarValue::Boolean(!v)),
            ),
            Ok(ValueData::Columnar(ColumnData::Boolean(v))) => Ok(
                ValueData::Columnar(ColumnData::Boolean(Seq::new(v.len(), |i: int| !v[i]))),
            ),
            Ok(_) => Err(ExecError::EvaluationError),
        },
    }
}

/// The abstract value of an evaluation's outcome.
pub open spec fn value_result(r: Result<ColumnarValue, ExecError>) -> Result<ValueData, ExecError> {
    match r {
        Ok(v) => Ok(v@),
        Err(e) => Err(e),
    }
}

impl Expr {
    /// A copy of this expression.
    pub fn duplicate(&self) -> (r: Expr)
        ensures
            r == *self,
        decreases self,
    {
        match self {
            Expr::Column(name) => Expr::Column(name.clone()),
            Expr::Literal(v) => Expr::Literal(*v),
            Expr::BinaryExpr(l, op, r) => Expr::BinaryExpr(
                Box::new(l.duplicate()),
                *op,
                Box::new(r.duplicate()),
            ),
            Expr::Not(x) => Expr::Not(Box::new(x.duplicate())),
        }
    }
}

/// The position of the first field of `schema` named `name`, if any.
pub fn find_field(schema: &Schema, name: &String) -> (r: Option<usize>)
    ensures
        match r {
            Some(i) => field_index(schema@, name@) == Some(i as int),
            None => field_index(schema@, name@) is None,
        },
{
    let mut i: usize = 0;
    while i < schema.fields.len()
        invariant
            i <= schema.fields@.len(),
            schema@.len() == schema.fields@.len(),
            forall|j: int| 0 <= j < i ==> (#[trigger] schema@[j]).name != name@,
        decreases schema.fields@.len() - i,
    {
        assert(schema@[i as int] == schema.fields@[i as int]@);
        if schema.fields[i].name == *name {
            assert(first_named(schema@, name@, i as int));
            assert forall|k: int| #[trigger] first_named(schema@, name@, k) implies k == i by {
                if k < i {
                    assert(schema@[k].name != name@);
                } else if k > i {
                    assert(schema@[i as int].name != name@);
                }
            }
            return Some(i);
        }
        i = i + 1;
    }
    None
}

/// Compiles `ast` against `schema`, returning the compiled form and its type.
fn compile_typed(ast: &Expr, schema: &Schema) -> (r: Result<(Expression, DataType), ExecError>)
    ensures
        match type_of(*ast, schema@) {
            Some(t) => r matches Ok((c, rt)) && rt == t && binds(*ast, schema@, c),
            None => r == Err::<(Expression, DataType), ExecError>(ExecError::CompileError),
        },
    decreases ast,
{
    match ast {
        Expr::Column(name) => match find_field(schema, name) {
            Some(i) => {
                assert(schema@[i as int] == schema.fields@[i as int]@);
                Ok((Expression::Column(i), schema.fields[i].data_type))
            },
            None => Err(ExecError::CompileError),
        },
        Expr::Literal(v) => Ok((Expression::Literal(*v), v.data_type())),
        Expr::BinaryExpr(l, op, r) => {
            let (cl, lt) = compile_typed(l, schema)?;
            let (cr, rt) = compile_typed(r, schema)?;
            let accepted = match op {
                Operator::Eq | Operator::NotEq => true,
                Operator::Lt | Operator::LtEq | Operator::Gt | Operator::GtEq => lt
                    == DataType::Int64,
                Operator::And | Operator::Or => lt == DataType::Boolean,
            };
            if lt != rt || !accepted {
                return Err(ExecError::CompileError);
            }
            Ok((Expression::Binary(Box::new(cl), *op, Box::new(cr)), DataType::Boolean))
        },
        Expr::Not(x) => {
            let (cx, t) = compile_typed(x, schema)?;
            if t != DataType::Boolean {
                return Err(ExecError::CompileError);
            }
            Ok((Expression::Not(Box::new(cx)), DataType::Boolean))
        },
    }
}

/// Binds `ast` to `schema`: each column name becomes the position of the first
/// field of that name. Fails with a compile error exactly where `ast` names a
/// column that `schema` lacks or applies an operator to operands it does not take.
pub fn compile_expression(ast: &Expr, schema: &Schema) -> (r: Result<Expression, ExecError>)
    ensures
        match type_of(*ast, schema@) {
            Some(t) => r matches Ok(c) && binds(*ast, schema@, c),
            None => r == Err::<Expression, ExecError>(ExecError::CompileError),
        },
{
    match compile_typed(ast, schema) {
        Ok((c, _)) => Ok(c),
        Err(e) => Err(e),
    }
}

fn int_op_exec(op: Operator, x: i64, y: i64) -> (r: bool)
    ensures
        r == int_op(op, x, y),
{
    match op {
        Operator::Eq => x == y,
        Operator::NotEq => x != y,
        Operator::Lt => x < y,
        Operator::LtEq => x <= y,
        Operator::Gt => x > y,
        Operator::GtEq => x >= y,
        _ => false,
    }
}

fn bool_op_exec(op: Operator, x: bool, y: bool) -> (r: bool)
    ensures
        r == bool_op(op, x, y),
{
    match op {
        Operator::Eq => x == y,
        Operator::NotEq => x != y,
        Operator::And => x && y,
        Operator::Or => x || y,
        _ => false,
    }
}

fn op_accepts_exec(op: Operator, t: DataType) -> (r: bool)
    ensures
        r == op_accepts(op, t),
{
    match op {
        Operator::Eq | Operator::NotEq => true,
        Operator::Lt | Operator::LtEq | Operator::Gt | Operator::GtEq => t == DataType::Int64,
        Operator::And | Operator::Or => t == DataType::Boolean,
    }
}

/// `op` applied row by row to two arrays of one length.
fn array_op(op: Operator, x: &Array, y: &Array) -> (r: Vec<bool>)
    requires
        x@.len() == y@.len(),
    ensures
        r@ == Seq::new(x@.len(), |i: int| cell_op(op, x@, y@, i)),
{
    let n = x.len();
    let mut out: Vec<bool> = Vec::with_capacity(n);
    let mut i: usize = 0;
    while i < n
        invariant
            n == x@.len(),
            x@.len() == y@.len(),
            i <= n,
            out@ == Seq::new(i as nat, |k: int| cell_op(op, x@, y@, k)),
        decreases n - i,
    {
        let v = match (x, y) {
            (Array::Int64(a), Array::Int64(b)) => int_op_exec(op, a[i], b[i]),
            (Array::Boolean(a), Array::Boolean(b)) => bool_op_exec(op, a[i], b[i]),
            _ => false,
        };
        out.push(v);
        i = i + 1;
        assert(out@ =~= Seq::new(i as nat, |k: int| cell_op(op, x@, y@, k)));
    }
    out
}

impl Expression {
    /// Evaluates this expression against `batch`. A column yields its array, a
    /// literal a scalar; an operator on two scalars yields a scalar, and on any
    /// other operands an array of one result per row.
    pub fn evaluate(&self, batch: &ColumnarBatch) -> (r: Result<ColumnarValue, ExecError>)
        requires
            batch.wf(),
        ensures
            value_result(r) == eval(*self, batch@),
            r matches Ok(v) ==> v@.fits(batch.num_rows as nat),
        decreases self,
    {
        let n = batch.num_rows;
        match self {
            Expression::Column(i) => {
                if *i < batch.columns.len() {
                    assert(value_views(batch.columns@)[*i as int] == batch.columns@[*i as int]@);
                    let c = batch.columns[*i].to_array(n);
                    assert(batch@.columns[*i as int] == batch.columns@[*i as int]@.materialize(
                        n as nat,
                    ));
                    Ok(ColumnarValue::Columnar(c))
                } else {
                    Err(ExecError::EvaluationError)
                }
            },
            Expression::Literal(v) => Ok(ColumnarValue::Scalar(*v)),
            Expression::Binary(l, op, r) => {
                let lv = l.evaluate(batch)?;
                let rv = r.evaluate(batch)?;
                let t = lv.data_type();
                if t != rv.data_type() || !op_accepts_exec(*op, t) {
                    return Err(ExecError::EvaluationError);
                }
                match (&lv, &rv) {
                    (ColumnarValue::Scalar(x), ColumnarValue::Scalar(y)) => {
                        let b = match (x, y) {
                            (ScalarValue::Int64(a), ScalarValue::Int64(b)) => int_op_exec(
                                *op,
                                *a,
                                *b,
                            ),
                            (ScalarValue::Boolean(a), ScalarValue::Boolean(b)) => bool_op_exec(
                                *op,
                                *a,
                                *b,
                            ),
                            _ => false,
                        };
                        Ok(ColumnarValue::Scalar(ScalarValue::Boolean(b)))
                    },
                    _ => {
                        let la = lv.to_array(n);
                        let ra = rv.to_array(n);
                        let out = array_op(*op, &la, &ra);
                        Ok(ColumnarValue::Columnar(Array::Boolean(out)))
                    },
                }
            },
            Expression::Not(x) => {
                let v = x.evaluate(batch)?;
                match v {
                    ColumnarValue::Scalar(ScalarValue::Boolean(b)) => Ok(
                        ColumnarValue::Scalar(ScalarValue::Boolean(!b)),
                    ),
                    ColumnarValue::Columnar(Array::Boolean(a)) => {
                        let mut out: Vec<bool> = Vec::with_capacity(a.len());
                        let mut i: usize = 0;
                        while i < a.len()
                            invariant
                                i <= a@.len(),
                                out@ == Seq::new(i as nat, |k: int| !a@[k]),
                            decreases a@.len() - i,
                        {
                            out.push(!a[i]);
                            i = i + 1;
                            assert(out@ =~= Seq::new(i as nat, |k: int| !a@[k]));
                        }
                        Ok(ColumnarValue::Columnar(Array::Boolean(out)))
                    },
                    _ => Err(ExecError::EvaluationError),
                }
            },
        }
    }
}

} // verus!
