//! Columnar value model: data types, schemas, arrays, scalars and batches.
use vstd::prelude::*;

verus! {

/// The logical type of a column or scalar.
#[derive(Debug, Clone, Copy, PartialEq, Eq, Structural)]
pub enum DataType {
    Int64,
    Boolean,
}

/// A single typed value.
#[derive(Debug, Clone, Copy, PartialEq, Eq, Structural)]
pub enum ScalarValue {
    Int64(i64),
    Boolean(bool),
}

impl ScalarValue {
    pub open spec fn spec_data_type(self) -> DataType {
        match self {
            ScalarValue::Int64(_) => DataType::Int64,
            ScalarValue::Boolean(_) => DataType::Boolean,
        }
    }

    pub fn data_type(&self) -> (r: DataType)
        ensures
            r == self.spec_data_type(),
    {
        match self {
            ScalarValue::Int64(_) => DataType::Int64,
            ScalarValue::Boolean(_) => DataType::Boolean,
        }
    }
}

/// The contents of a materialized column.
pub enum ColumnData {
    Int64(Seq<i64>),
    Boolean(Seq<bool>),
}

impl ColumnData {
    pub open spec fn len(self) -> nat {
        match self {
            ColumnData::Int64(v) => v.len(),
            ColumnData::Boolean(v) => v.len(),
        }
    }

    pub open spec fn data_type(self) -> DataType {
        match self {
            ColumnData::Int64(_) => DataType::Int64,
            ColumnData::Boolean(_) => DataType::Boolean,
        }
    }
}

/// A scalar repeated `n` times, as a materialized column.
pub open spec fn broadcast(v: ScalarValue, n: nat) -> ColumnData {
    match v {
        ScalarValue::Int64(x) => ColumnData::Int64(Seq::new(n, |i: int| x)),
        ScalarValue::Boolean(x) => ColumnData::Boolean(Seq::new(n, |i: int| x)),
    }
}

/// A materialized array of values, one per row.
#[derive(Debug)]
pub enum Array {
    Int64(Vec<i64>),
    Boolean(Vec<bool>),
}

impl View for Array {
    type V = ColumnData;

    open spec fn view(&self) -> ColumnData {
        match self {
            Array::Int64(v) => ColumnData::Int64(v@),
            Array::Boolean(v) => ColumnData::Boolean(v@),
        }
    }
}

impl Array {
    pub fn len(&self) -> (r: usize)
        ensures
            r == self@.len(),
    {
        match self {
            Array::Int64(v) => v.len(),
            Array::Boolean(v) => v.len(),
        }
    }

    pub fn data_type(&self) -> (r: DataType)
        ensures
            r == self@.data_type(),
    {
        match self {
            Array::Int64(_) => DataType::Int64,
            Array::Boolean(_) => DataType::Boolean,
        }
    }

    /// An array holding `v` in each of `n` rows.
    pub fn from_scalar(v: ScalarValue, n: usize) -> (r: Array)
        ensures
            r@ == broadcast(v, n as nat),
    {
        match v {
            ScalarValue::Int64(x) => {
                let mut out: Vec<i64> = Vec::with_capacity(n);
                let mut i: usize = 0;
                while i < n
                    invariant
                        i <= n,
                        out@ == Seq::new(i as nat, |k: int| x),
                    decreases n - i,
                {
                    out.push(x);
                    i = i + 1;
                    assert(out@ =~= Seq::new(i as nat, |k: int| x));
                }
                assert(out@ =~= Seq::new(n as nat, |k: int| x));
                Array::Int64(out)
            },
            ScalarValue::Boolean(x) => {
                let mut out: Vec<bool> = Vec::with_capacity(n);
                let mut i: usize = 0;
                while i < n
                    invariant
                        i <= n,
                        out@ == Seq::new(i as nat, |k: int| x),
                    decreases n - i,
                {
                    out.push(x);
                    i = i + 1;
                    assert(out@ =~= Seq::new(i as nat, |k: int| x));
                }
                assert(out@ =~= Seq::new(n as nat, |k: int| x));
                Array::Boolean(out)
            },
        }
    }

    /// A copy of this array.
    pub fn duplicate(&self) -> (r: Array)
        ensures
            r@ == self@,
    {
        match self {
            Array::Int64(v) => Array::Int64(copy_vec(v)),
            Array::Boolean(v) => Array::Boolean(copy_vec(v)),
        }
    }
}

/// An element-by-element copy of `v`.
pub fn copy_vec<T: Copy>(v: &Vec<T>) -> (r: Vec<T>)
    ensures
        r@ == v@,
{
    let mut out: Vec<T> = Vec::with_capacity(v.len());
    let mut i: usize = 0;
    while i < v.len()
        invariant
            i <= v@.len(),
            out@ == v@.subrange(0, i as int),
        decreases v@.len() - i,
    {
        out.push(v[i]);
        i = i + 1;
        assert(out@ =~= v@.subrange(0, i as int));
    }
    assert(out@ =~= v@);
    out
}

/// The abstract value of a column: materialized, or one value for all rows.
pub enum ValueData {
    Columnar(ColumnData),
    Scalar(ScalarValue),
}

impl ValueData {
    /// The column that this value stands for over `n` rows.
    pub open spec fn materialize(self, n: nat) -> ColumnData {
        match self {
            ValueData::Columnar(c) => c,
            ValueData::Scalar(s) => broadcast(s, n),
        }
    }

    pub open spec fn data_type(self) -> DataType {
        match self {
            ValueData::Columnar(c) => c.data_type(),
            ValueData::Scalar(s) => s.spec_data_type(),
        }
    }

    /// A columnar value has `n` rows; a scalar fits any row count.
    pub open spec fn fits(self, n: nat) -> bool {
        match self {
            ValueData::Columnar(c) => c.len() == n,
            ValueData::Scalar(_) => true,
        }
    }
}

/// A column of a batch, or the result of evaluating an expression.
#[derive(Debug)]
pub enum ColumnarValue {
    Columnar(Array),
    Scalar(ScalarValue),
}

impl View for ColumnarValue {
    type V = ValueData;

    open spec fn view(&self) -> ValueData {
        match self {
            ColumnarValue::Columnar(a) => ValueData::Columnar(a@),
            ColumnarValue::Scalar(s) => ValueData::Scalar(*s),
        }
    }
}

impl ColumnarValue {
    pub fn data_type(&self) -> (r: DataType)
        ensures
            r == self@.data_type(),
    {
        match self {
            ColumnarValue::Columnar(a) => a.data_type(),
            ColumnarValue::Scalar(s) => s.data_type(),
        }
    }

    /// A copy of this value.
    pub fn duplicate(&self) -> (r: ColumnarValue)
        ensures
            r@ == self@,
    {
        match self {
            ColumnarValue::Columnar(a) => ColumnarValue::Columnar(a.duplicate()),
            ColumnarValue::Scalar(s) => ColumnarValue::Scalar(*s),
        }
    }

    /// This value as an array of `n` rows: a scalar is repeated, an array copied.
    pub fn to_array(&self, n: usize) -> (r: Array)
        requires
            self@.fits(n as nat),
        ensures
            r@ == self@.materialize(n as nat),
    {
        match self {
            ColumnarValue::Columnar(a) => a.duplicate(),
            ColumnarValue::Scalar(s) => Array::from_scalar(*s, n),
        }
    }
}

/// The abstract value of a field: its name and type.
pub struct FieldData {
    pub name: Seq<char>,
    pub data_type: DataType,
}

/// A named, typed column of a schema.
#[derive(Debug)]
pub struct Field {
    pub name: String,
    pub data_type: DataType,
}

impl View for Field {
    type V = FieldData;

    open spec fn view(&self) -> FieldData {
        FieldData { name: self.name@, data_type: self.data_type }
    }
}

impl Field {
    pub fn new(name: &str, data_type: DataType) -> (r: Field)
        ensures
            r@ == (FieldData { name: name@, data_type }),
    {
        Field { name: name.to_string(), data_type }
    }

    pub fn duplicate(&self) -> (r: Field)
        ensures
            r@ == self@,
    {
        Field { name: self.name.clone(), data_type: self.data_type }
    }
}

/// The abstract values of a sequence of fields.
pub open spec fn field_views(fs: Seq<Field>) -> Seq<FieldData> {
    fs.map_values(|f: Field| f@)
}

/// An ordered sequence of fields.
#[derive(Debug)]
pub struct Schema {
    pub fields: Vec<Field>,
}

impl View for Schema {
    type V = Seq<FieldData>;

    open spec fn view(&self) -> Seq<FieldData> {
        field_views(self.fields@)
    }
}

impl Schema {
    pub fn new(fields: Vec<Field>) -> (r: Schema)
        ensures
            r@ == field_views(fields@),
    {
        Schema { fields }
    }

    pub fn duplicate(&self) -> (r: Schema)
        ensures
            r@ == self@,
    {
        let mut out: Vec<Field> = Vec::with_capacity(self.fields.len());
        let mut i: usize = 0;
        while i < self.fields.len()
            invariant
                i <= self.fields@.len(),
                field_views(out@) == self@.subrange(0, i as int),
            decreases self.fields@.len() - i,
        {
            let ghost prev = out@;
            assert(field_views(prev).len() == prev.len());
            let f = self.fields[i].duplicate();
            out.push(f);
            assert forall|j: int| 0 <= j <= i implies #[trigger] field_views(out@)[j]
                == self@[j] by {
                if j < i {
                    assert(out@[j] == prev[j]);
                    assert(field_views(prev)[j] == self@.subrange(0, i as int)[j]);
                }
            }
            i = i + 1;
            assert(field_views(out@) =~= self@.subrange(0, i as int));
        }
        assert(self@.subrange(0, i as int) =~= self@);
        Schema { fields: out }
    }
}

} // verus!
