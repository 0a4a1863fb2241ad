//! Scalar types, scalar values and batch schemas.
//!
//! The engine works over a closed catalog of scalar types. A value either
//! fits one of those types or is the null value; a schema names the
//! columns of a batch together with their types and nullability.

use vstd::prelude::*;

verus! {

/// The closed catalog of scalar column types.
#[derive(Clone, Copy, Debug, PartialEq, Eq, Structural)]
pub enum DataType {
    Boolean,
    Int32,
    Int64,
}

/// One scalar value: either a typed payload or the null value.
#[derive(Clone, Copy, Debug, PartialEq, Eq, Structural)]
pub enum DataValue {
    Boolean(bool),
    Int32(i32),
    Int64(i64),
    Null,
}

/// Whether `v` may appear in a column of type `t`. Null fits every type.
pub open spec fn value_fits(v: DataValue, t: DataType) -> bool {
    match v {
        DataValue::Boolean(_) => t == DataType::Boolean,
        DataValue::Int32(_) => t == DataType::Int32,
        DataValue::Int64(_) => t == DataType::Int64,
        DataValue::Null => true,
    }
}

/// Whether arithmetic is defined over values of type `t`.
pub open spec fn is_numeric(t: DataType) -> bool {
    t != DataType::Boolean
}

/// The mathematical value carried by a numeric `DataValue`.
pub open spec fn numeric_value(v: DataValue) -> int {
    match v {
        DataValue::Int32(x) => x as int,
        DataValue::Int64(x) => x as int,
        _ => 0,
    }
}

/// Whether the mathematical value `x` is representable in type `t`.
pub open spec fn in_range(t: DataType, x: int) -> bool {
    match t {
        DataType::Boolean => false,
        DataType::Int32 => i32::MIN <= x <= i32::MAX,
        DataType::Int64 => i64::MIN <= x <= i64::MAX,
    }
}

/// The value of type `t` carrying the representable mathematical value `x`.
pub open spec fn value_of_int(t: DataType, x: int) -> DataValue {
    match t {
        DataType::Boolean => DataValue::Null,
        DataType::Int32 => DataValue::Int32(x as i32),
        DataType::Int64 => DataValue::Int64(x as i64),
    }
}

/// The result type of a binary arithmetic operation over operand types
/// `a` and `b`.
///
/// The single promotion rule of the engine: equal numeric operand types
/// keep their type; any mixed pair of numeric types widens to `Int64`.
pub open spec fn promote(a: DataType, b: DataType) -> DataType {
    if a == b {
        a
    } else {
        DataType::Int64
    }
}

impl DataValue {
    /// Exec mirror of `value_fits`.
    pub fn fits(&self, t: DataType) -> (r: bool)
        ensures
            r == value_fits(*self, t),
    {
        match self {
            DataValue::Boolean(_) => t == DataType::Boolean,
            DataValue::Int32(_) => t == DataType::Int32,
            DataValue::Int64(_) => t == DataType::Int64,
            DataValue::Null => true,
        }
    }

    /// Whether this value is the null value.
    pub fn is_null(&self) -> (r: bool)
        ensures
            r == (*self == DataValue::Null),
    {
        match self {
            DataValue::Null => true,
            _ => false,
        }
    }
}

/// One named, typed column of a schema.
#[derive(Debug)]
pub struct DataField {
    pub name: String,
    pub data_type: DataType,
    pub nullable: bool,
}

impl DataField {
    /// Builds a field from its parts.
    pub fn create(name: &str, data_type: DataType, nullable: bool) -> (r: DataField)
        ensures
            r.name@ == name@,
            r.data_type == data_type,
            r.nullable == nullable,
    {
        DataField { name: name.to_string(), data_type, nullable }
    }
}

/// The schema of a batch: the ordered list of its columns' fields.
///
/// Column references resolve to the first field carrying the referenced
/// name, so lookup is deterministic even if a name repeats.
#[derive(Debug)]
pub struct DataSchema {
    pub fields: Vec<DataField>,
}

/// The index of the first field named `name` in `fields`, or -1 if no
/// field carries that name.
pub open spec fn field_index(fields: Seq<DataField>, name: Seq<char>) -> int
    decreases fields.len(),
{
    if fields.len() == 0 {
        -1
    } else if fields[0].name@ == name {
        0
    } else {
        let rest = field_index(fields.drop_first(), name);
        if rest == -1 {
            -1
        } else {
            rest + 1
        }
    }
}

/// `field_index` returns -1 or a valid index whose field carries the name.
pub proof fn lemma_field_index_bounds(fields: Seq<DataField>, name: Seq<char>)
    ensures
        field_index(fields, name) == -1 ==> forall|i: int|
            0 <= i < fields.len() ==> fields[i].name@ != name,
        field_index(fields, name) != -1 ==> {
            &&& 0 <= field_index(fields, name) < fields.len()
            &&& fields[field_index(fields, name)].name@ == name
        },
    decreases fields.len(),
{
    if fields.len() > 0 && fields[0].name@ != name {
        lemma_field_index_bounds(fields.drop_first(), name);
        assert(forall|i: int|
            1 <= i < fields.len() ==> fields[i] == fields.drop_first()[i - 1]);
    }
}

impl DataSchema {
    /// Builds a schema from its fields.
    pub fn create(fields: Vec<DataField>) -> (r: DataSchema)
        ensures
            r.fields@ == fields@,
    {
        DataSchema { fields }
    }

    /// Resolves a column name to the index of the first field carrying it.
    pub fn find_field(&self, name: &str) -> (r: Option<usize>)
        ensures
            match r {
                Some(i) => i == field_index(self.fields@, name@) && i < self.fields@.len(),
                None => field_index(self.fields@, name@) == -1,
            },
    {
        let key: String = name.to_string();
        let ghost fields = self.fields@;
        let n = self.fields.len();
        for i in 0..n
            invariant
                key@ == name@,
                n == fields.len(),
                fields == self.fields@,
                forall|j: int| 0 <= j < i ==> fields[j].name@ != name@,
        {
            if self.fields[i].name == key {
                proof {
                    lemma_field_index_skip(fields, name@, i as int);
                }
                return Some(i);
            }
        }
        proof {
            lemma_field_index_bounds(fields, name@);
            if field_index(fields, name@) != -1 {
                assert(fields[field_index(fields, name@)].name@ == name@);
            }
        }
        None
    }
}

/// Whether two schemas describe the same columns: same length, and
/// fields agreeing pairwise on name, type and nullability.
pub open spec fn schemas_agree(a: DataSchema, b: DataSchema) -> bool {
    &&& a.fields@.len() == b.fields@.len()
    &&& forall|i: int|
        0 <= i < a.fields@.len() ==> {
            &&& (#[trigger] a.fields@[i]).name@ == b.fields@[i].name@
            &&& a.fields@[i].data_type == b.fields@[i].data_type
            &&& a.fields@[i].nullable == b.fields@[i].nullable
        }
}

/// Field lookup agrees across field lists whose names agree pairwise.
pub proof fn lemma_field_index_agree(f1: Seq<DataField>, f2: Seq<DataField>, name: Seq<char>)
    requires
        f1.len() == f2.len(),
        forall|i: int| 0 <= i < f1.len() ==> (#[trigger] f1[i]).name@ == f2[i].name@,
    ensures
        field_index(f1, name) == field_index(f2, name),
    decreases f1.len(),
{
    if f1.len() > 0 {
        assert(f1[0].name@ == f2[0].name@);
        if f1[0].name@ != name {
            assert(forall|i: int|
                0 <= i < f1.drop_first().len() ==> (#[trigger] f1.drop_first()[i]).name@
                    == f2.drop_first()[i].name@) by {
                assert(forall|i: int|
                    0 <= i < f1.drop_first().len() ==> #[trigger] f1.drop_first()[i] == f1[i + 1]
                        && f2.drop_first()[i] == f2[i + 1]);
            }
            lemma_field_index_agree(f1.drop_first(), f2.drop_first(), name);
        }
    }
}

/// If every field before `k` misses `name` and field `k` carries it, then
/// `k` is the first index carrying `name`.
proof fn lemma_field_index_skip(fields: Seq<DataField>, name: Seq<char>, k: int)
    requires
        0 <= k < fields.len(),
        forall|j: int| 0 <= j < k ==> fields[j].name@ != name,
        fields[k].name@ == name,
    ensures
        field_index(fields, name) == k,
    decreases k,
{
    if k == 0 {
    } else {
        assert(forall|j: int|
            0 <= j < k - 1 ==> fields.drop_first()[j] == fields[j + 1]);
        assert(fields.drop_first()[k - 1] == fields[k]);
        lemma_field_index_skip(fields.drop_first(), name, k - 1);
    }
}

} // verus!
