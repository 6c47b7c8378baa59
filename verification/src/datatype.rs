//! The date-of-days column type: a value is the number of days since the
//! Unix epoch, stored as a 32-bit integer column, and its serializer
//! renders values as decimal text.

use crate::decimal::{i64_dec, i64_to_string};
use crate::errors::ErrorCode;
use std::sync::Arc;
use vstd::prelude::*;

verus! {

/// The physical type a logical type is stored as.
#[derive(Clone, Copy, Debug, PartialEq, Eq, Structural)]
pub enum TypeID {
    Int32,
    Int64,
}

/// A single constant value, as planners and defaults carry it.
#[derive(Clone, Copy, Debug, PartialEq, Eq, Structural)]
pub enum DataValue {
    Null,
    Boolean(bool),
    Int64(i64),
}

impl DataValue {
    /// The value as a signed integer; only an integer value converts.
    pub fn as_i64(&self) -> (r: Result<i64, ErrorCode>)
        ensures
            self is Int64 <==> r is Ok,
            self is Int64 ==> r == Ok::<i64, ErrorCode>(self->Int64_0),
            r is Err ==> r == Err::<i64, ErrorCode>(ErrorCode::BadDataValueType),
    {
        match self {
            DataValue::Int64(v) => Ok(*v),
            _ => Err(ErrorCode::BadDataValueType),
        }
    }
}

/// A materialized column, as the constant-column builder produces it: a
/// run of 32-bit values, or a run of nulls of a known length.
pub enum ColumnRef {
    Int32(Int32Column),
    NullInt32(usize),
}

/// A column of 32-bit values.
pub struct Int32Column {
    values: Vec<i32>,
}

impl Int32Column {
    /// The column's values.
    pub closed spec fn spec_values(&self) -> Seq<i32> {
        self.values@
    }

    /// A column repeating `value` `size` times.
    pub fn full(value: i32, size: usize) -> (r: Int32Column)
        ensures
            r.spec_values() == Seq::new(size as nat, |i: int| value),
    {
        let mut values: Vec<i32> = Vec::new();
        let mut k: usize = 0;
        while k < size
            invariant
                k <= size,
                values@ == Seq::new(k as nat, |i: int| value),
            decreases size - k,
        {
            values.push(value);
            proof {
                assert(values@ =~= Seq::new(k as nat + 1, |i: int| value));
            }
            k = k + 1;
        }
        Int32Column { values }
    }

    /// A run of `size` nulls.
    pub fn full_null(size: usize) -> (r: ColumnRef)
        ensures
            r == ColumnRef::NullInt32(size),
    {
        ColumnRef::NullInt32(size)
    }

    /// The column as a column handle.
    pub fn into_column(self) -> (r: ColumnRef)
        ensures
            r == ColumnRef::Int32(self),
    {
        ColumnRef::Int32(self)
    }

    /// The number of values.
    pub fn len(&self) -> (r: usize)
        ensures
            r == self.spec_values().len(),
    {
        self.values.len()
    }

    /// The value at `i`.
    pub fn value_at(&self, i: usize) -> (r: i32)
        requires
            i < self.spec_values().len(),
        ensures
            r == self.spec_values()[i as int],
    {
        self.values[i]
    }
}

/// A serializer of one column type into text.
pub trait TypeSerializer {
    /// Renders one constant value.
    fn serialize_value(&self, value: &DataValue) -> Result<String, ErrorCode>;

    /// Renders every value of a column.
    fn serialize_column(&self, column: &ColumnRef) -> Result<Vec<String>, ErrorCode>;
}

/// The date column type: days since the Unix epoch in 32 bits.
#[derive(Clone, Copy, Debug, Default, PartialEq, Eq, Structural)]
pub struct DataTypeDate32 {}

impl DataTypeDate32 {
    /// A shared handle to the type.
    pub fn arc() -> (r: Arc<DataTypeDate32>)
        ensures
            r == (DataTypeDate32 {  }),
    {
        Arc::new(DataTypeDate32 {  })
    }

    /// Dates are stored as 32-bit integers.
    pub fn data_type_id(&self) -> (r: TypeID)
        ensures
            r == TypeID::Int32,
    {
        TypeID::Int32
    }

    /// The default date: the epoch itself.
    pub fn default_value(&self) -> (r: DataValue)
        ensures
            r == DataValue::Int64(0),
    {
        DataValue::Int64(0)
    }

    /// A column repeating one constant date `size` times: the value's day
    /// count truncated to 32 bits, or a run of nulls when the value is not
    /// an integer.
    pub fn create_constant_column(&self, data: &DataValue, size: usize) -> (r: Result<
        ColumnRef,
        ErrorCode,
    >)
        ensures
            r is Ok,
            data is Int64 ==> {
                &&& r->Ok_0 is Int32
                &&& r->Ok_0->Int32_0.spec_values() == Seq::new(
                    size as nat,
                    |i: int| data->Int64_0 as i32,
                )
            },
            !(data is Int64) ==> r->Ok_0 == ColumnRef::NullInt32(size),
    {
        let value = data.as_i64();
        match value {
            Ok(value) => Ok(Int32Column::full(#[verifier::truncate] (value as i32), size).into_column()),
            _ => Ok(Int32Column::full_null(size)),
        }
    }

    /// The serializer for date columns.
    pub fn create_serializer(&self) -> (r: DateSerializer)
        ensures
            r == (DateSerializer {  }),
    {
        DateSerializer {  }
    }
}

/// Renders dates as the decimal day count since the epoch.
pub struct DateSerializer {}

impl DateSerializer {
    /// Renders one date value: its day count in decimal. Only an integer
    /// value is a date.
    pub fn serialize_date_value(&self, value: &DataValue) -> (r: Result<String, ErrorCode>)
        ensures
            value is Int64 <==> r is Ok,
            value is Int64 ==> r is Ok && r->Ok_0@ == i64_dec(value->Int64_0 as int),
            r is Err ==> r == Err::<String, ErrorCode>(ErrorCode::BadDataValueType),
    {
        match value {
            DataValue::Int64(v) => Ok(i64_to_string(*v)),
            _ => Err(ErrorCode::BadDataValueType),
        }
    }

    /// Renders a whole column: one decimal day count per value, or the
    /// null marker for every row of a null run.
    pub fn serialize_date_column(&self, column: &ColumnRef) -> (r: Result<Vec<String>, ErrorCode>)
        ensures
            r is Ok,
            column is Int32 ==> {
                let vals = column->Int32_0.spec_values();
                &&& r->Ok_0@.len() == vals.len()
                &&& forall|i: int|
                    0 <= i < vals.len() ==> (#[trigger] r->Ok_0@[i])@ == i64_dec(vals[i] as int)
            },
            column is NullInt32 ==> {
                &&& r->Ok_0@.len() == column->NullInt32_0
                &&& forall|i: int|
                    0 <= i < r->Ok_0@.len() ==> (#[trigger] r->Ok_0@[i])@ == "NULL"@
            },
    {
        match column {
            ColumnRef::Int32(col) => {
                let n = col.len();
                let mut out: Vec<String> = Vec::new();
                let mut k: usize = 0;
                while k < n
                    invariant
                        k <= n,
                        n == col.spec_values().len(),
                        out@.len() == k,
                        forall|i: int|
                            0 <= i < k ==> (#[trigger] out@[i])@ == i64_dec(
                                col.spec_values()[i] as int,
                            ),
                    decreases n - k,
                {
                    let v = col.value_at(k);
                    out.push(i64_to_string(v as i64));
                    k = k + 1;
                }
                Ok(out)
            },
            ColumnRef::NullInt32(size) => {
                let n = *size;
                let mut out: Vec<String> = Vec::new();
                let mut k: usize = 0;
                while k < n
                    invariant
                        k <= n,
                        out@.len() == k,
                        forall|i: int| 0 <= i < k ==> (#[trigger] out@[i])@ == "NULL"@,
                    decreases n - k,
                {
                    out.push("NULL".to_owned());
                    k = k + 1;
                }
                Ok(out)
            },
        }
    }
}

impl TypeSerializer for DateSerializer {
    fn serialize_value(&self, value: &DataValue) -> Result<String, ErrorCode> {
        self.serialize_date_value(value)
    }

    fn serialize_column(&self, column: &ColumnRef) -> Result<Vec<String>, ErrorCode> {
        self.serialize_date_column(column)
    }
}

} // verus!
