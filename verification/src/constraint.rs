//! Column default constraints: validation and default-value
//! materialization.
//!
//! A column's default is either a literal value or a function invocation;
//! the only supported function is `current_timestamp()`. Validation checks
//! the default against the column's data type and nullability;
//! materialization builds a column of `num_rows` default values. The
//! current time is injected by the caller as milliseconds, so the
//! functions are deterministic in their arguments.

use vstd::prelude::*;

verus! {

/// A column value. `Timestamp` carries milliseconds since the epoch.
#[derive(Debug, Clone, Copy, PartialEq, Eq, Structural)]
pub enum Value {
    Null,
    Boolean(bool),
    Int32(i32),
    Int64(i64),
    UInt32(u32),
    Timestamp(i64),
}

/// The logical type of a value or of a column data type.
#[derive(Debug, Clone, Copy, PartialEq, Eq, Structural)]
pub enum LogicalTypeId {
    Null,
    Boolean,
    Int32,
    Int64,
    UInt32,
    Timestamp,
}

impl Value {
    /// The logical type of this value.
    pub open spec fn spec_logical_type_id(self) -> LogicalTypeId {
        match self {
            Value::Null => LogicalTypeId::Null,
            Value::Boolean(_) => LogicalTypeId::Boolean,
            Value::Int32(_) => LogicalTypeId::Int32,
            Value::Int64(_) => LogicalTypeId::Int64,
            Value::UInt32(_) => LogicalTypeId::UInt32,
            Value::Timestamp(_) => LogicalTypeId::Timestamp,
        }
    }

    /// Whether this value is the null value.
    pub fn is_null(&self) -> (r: bool)
        ensures
            r == (self is Null),
    {
        matches!(self, Value::Null)
    }

    /// The logical type of this value.
    pub fn logical_type_id(&self) -> (r: LogicalTypeId)
        ensures
            r == self.spec_logical_type_id(),
    {
        match self {
            Value::Null => LogicalTypeId::Null,
            Value::Boolean(_) => LogicalTypeId::Boolean,
            Value::Int32(_) => LogicalTypeId::Int32,
            Value::Int64(_) => LogicalTypeId::Int64,
            Value::UInt32(_) => LogicalTypeId::UInt32,
            Value::Timestamp(_) => LogicalTypeId::Timestamp,
        }
    }
}

/// A column's concrete data type. `Timestamp` is millisecond-resolved.
#[derive(Debug, Clone, Copy, PartialEq, Eq, Structural)]
pub enum ConcreteDataType {
    Boolean,
    Int32,
    Int64,
    UInt32,
    Timestamp,
}

impl ConcreteDataType {
    /// The boolean data type.
    pub fn boolean_datatype() -> (r: ConcreteDataType)
        ensures
            r == ConcreteDataType::Boolean,
    {
        ConcreteDataType::Boolean
    }

    /// The 32-bit signed integer data type.
    pub fn int32_datatype() -> (r: ConcreteDataType)
        ensures
            r == ConcreteDataType::Int32,
    {
        ConcreteDataType::Int32
    }

    /// The 64-bit signed integer data type.
    pub fn int64_datatype() -> (r: ConcreteDataType)
        ensures
            r == ConcreteDataType::Int64,
    {
        ConcreteDataType::Int64
    }

    /// The 32-bit unsigned integer data type.
    pub fn uint32_datatype() -> (r: ConcreteDataType)
        ensures
            r == ConcreteDataType::UInt32,
    {
        ConcreteDataType::UInt32
    }

    /// The millisecond timestamp data type.
    pub fn timestamp_millisecond_datatype() -> (r: ConcreteDataType)
        ensures
            r == ConcreteDataType::Timestamp,
    {
        ConcreteDataType::Timestamp
    }

    /// The logical type of this data type.
    pub open spec fn spec_logical_type_id(self) -> LogicalTypeId {
        match self {
            ConcreteDataType::Boolean => LogicalTypeId::Boolean,
            ConcreteDataType::Int32 => LogicalTypeId::Int32,
            ConcreteDataType::Int64 => LogicalTypeId::Int64,
            ConcreteDataType::UInt32 => LogicalTypeId::UInt32,
            ConcreteDataType::Timestamp => LogicalTypeId::Timestamp,
        }
    }

    /// The logical type of this data type.
    pub fn logical_type_id(&self) -> (r: LogicalTypeId)
        ensures
            r == self.spec_logical_type_id(),
    {
        match self {
            ConcreteDataType::Boolean => LogicalTypeId::Boolean,
            ConcreteDataType::Int32 => LogicalTypeId::Int32,
            ConcreteDataType::Int64 => LogicalTypeId::Int64,
            ConcreteDataType::UInt32 => LogicalTypeId::UInt32,
            ConcreteDataType::Timestamp => LogicalTypeId::Timestamp,
        }
    }

    /// Whether a current-timestamp default can be stored in this type:
    /// the timestamp type itself, or a 64-bit integer holding milliseconds.
    pub fn is_timestamp_compatible(&self) -> (r: bool)
        ensures
            r == (self is Timestamp || self is Int64),
    {
        matches!(self, ConcreteDataType::Timestamp | ConcreteDataType::Int64)
    }
}

/// Spec-level mirror of [`Error`], used in contracts.
pub enum ErrorV {
    /// A null default on a column that does not accept nulls.
    NullDefault,
    /// A default function other than `current_timestamp()`.
    UnsupportedDefaultExpr { expr: Seq<char> },
    /// A default whose type does not fit the column's data type.
    DefaultValueType { actual: LogicalTypeId },
}

/// Errors of default-constraint validation and materialization.
#[derive(Debug)]
pub enum Error {
    NullDefault,
    UnsupportedDefaultExpr { expr: String },
    DefaultValueType { actual: LogicalTypeId },
}

impl View for Error {
    type V = ErrorV;

    open spec fn view(&self) -> ErrorV {
        match self {
            Error::NullDefault => ErrorV::NullDefault,
            Error::UnsupportedDefaultExpr { expr } => ErrorV::UnsupportedDefaultExpr {
                expr: expr@,
            },
            Error::DefaultValueType { actual } => ErrorV::DefaultValueType { actual: *actual },
        }
    }
}

/// The one supported default function expression.
pub open spec fn current_timestamp_expr() -> Seq<char> {
    "current_timestamp()"@
}

/// Spec-level view of a column default constraint.
pub enum ColumnDefaultConstraintV {
    Function(Seq<char>),
    Value(Value),
}

/// A column's default constraint: a function invocation or a literal value.
#[derive(Debug, Clone)]
pub enum ColumnDefaultConstraint {
    Function(String),
    Value(Value),
}

impl View for ColumnDefaultConstraint {
    type V = ColumnDefaultConstraintV;

    open spec fn view(&self) -> ColumnDefaultConstraintV {
        match self {
            ColumnDefaultConstraint::Function(expr) => ColumnDefaultConstraintV::Function(expr@),
            ColumnDefaultConstraint::Value(v) => ColumnDefaultConstraintV::Value(*v),
        }
    }
}

/// Whether a constraint might produce a null value.
pub open spec fn spec_maybe_null(c: ColumnDefaultConstraintV) -> bool {
    c matches ColumnDefaultConstraintV::Value(Value::Null)
}

/// What validation returns for a constraint against a column's data type
/// and nullability.
pub open spec fn spec_validate(
    c: ColumnDefaultConstraintV,
    data_type: ConcreteDataType,
    is_nullable: bool,
) -> Result<(), ErrorV> {
    if !is_nullable && spec_maybe_null(c) {
        Err(ErrorV::NullDefault)
    } else {
        match c {
            ColumnDefaultConstraintV::Function(expr) => if expr != current_timestamp_expr() {
                Err(ErrorV::UnsupportedDefaultExpr { expr })
            } else if !(data_type is Timestamp || data_type is Int64) {
                Err(ErrorV::DefaultValueType { actual: data_type.spec_logical_type_id() })
            } else {
                Ok(())
            },
            ColumnDefaultConstraintV::Value(v) => if !(v is Null)
                && data_type.spec_logical_type_id() != v.spec_logical_type_id() {
                Err(ErrorV::DefaultValueType { actual: v.spec_logical_type_id() })
            } else {
                Ok(())
            },
        }
    }
}

/// What a column of current-timestamp defaults holds: `num_rows` timestamp
/// (or 64-bit integer) values of the injected milliseconds, or a type error
/// for any other column type.
pub open spec fn spec_current_timestamp_vector(
    data_type: ConcreteDataType,
    num_rows: nat,
    now_millis: i64,
) -> Result<Seq<Value>, ErrorV> {
    match data_type {
        ConcreteDataType::Timestamp => Ok(
            Seq::new(num_rows, |i: int| Value::Timestamp(now_millis)),
        ),
        ConcreteDataType::Int64 => Ok(Seq::new(num_rows, |i: int| Value::Int64(now_millis))),
        _ => Err(ErrorV::DefaultValueType { actual: data_type.spec_logical_type_id() }),
    }
}

/// What materializing a default column returns: `num_rows` copies of the
/// literal value, a current-timestamp column for the supported function,
/// or the error naming what went wrong.
pub open spec fn spec_create_default_vector(
    c: ColumnDefaultConstraintV,
    data_type: ConcreteDataType,
    is_nullable: bool,
    num_rows: nat,
    now_millis: i64,
) -> Result<Seq<Value>, ErrorV> {
    match c {
        ColumnDefaultConstraintV::Function(expr) => if expr != current_timestamp_expr() {
            Err(ErrorV::UnsupportedDefaultExpr { expr })
        } else {
            spec_current_timestamp_vector(data_type, num_rows, now_millis)
        },
        ColumnDefaultConstraintV::Value(v) => if !is_nullable && v is Null {
            Err(ErrorV::NullDefault)
        } else {
            Ok(Seq::new(num_rows, |i: int| v))
        },
    }
}

/// The view of a validation result.
pub open spec fn view_validate_result(r: Result<(), Error>) -> Result<(), ErrorV> {
    match r {
        Ok(u) => Ok(u),
        Err(e) => Err(e@),
    }
}

/// The view of a materialization result.
pub open spec fn view_vector_result(r: Result<Vec<Value>, Error>) -> Result<Seq<Value>, ErrorV> {
    match r {
        Ok(v) => Ok(v@),
        Err(e) => Err(e@),
    }
}

/// Builds a column of `n` copies of one value.
fn repeat_value(v: Value, n: usize) -> (r: Vec<Value>)
    ensures
        r@ == Seq::new(n as nat, |i: int| v),
{
    let mut out: Vec<Value> = Vec::new();
    let mut i: usize = 0;
    while i < n
        invariant
            0 <= i <= n,
            out@ == Seq::new(i as nat, |j: int| v),
        decreases n - i,
    {
        out.push(v);
        proof {
            assert(out@ =~= Seq::new((i + 1) as nat, |j: int| v));
        }
        i = i + 1;
    }
    out
}

/// Whether an expression is exactly `current_timestamp()`.
fn is_current_timestamp_expr(expr: &String) -> (r: bool)
    ensures
        r == (expr@ == current_timestamp_expr()),
{
    let lit: String = "current_timestamp()".to_owned();
    *expr == lit
}

/// Builds a column of `num_rows` current-timestamp defaults for a
/// timestamp-compatible data type.
fn create_current_timestamp_vector(
    data_type: &ConcreteDataType,
    num_rows: usize,
    now_millis: i64,
) -> (r: Result<Vec<Value>, Error>)
    ensures
        view_vector_result(r) == spec_current_timestamp_vector(
            *data_type,
            num_rows as nat,
            now_millis,
        ),
{
    match data_type {
        ConcreteDataType::Timestamp => Ok(repeat_value(Value::Timestamp(now_millis), num_rows)),
        ConcreteDataType::Int64 => Ok(repeat_value(Value::Int64(now_millis), num_rows)),
        _ => Err(Error::DefaultValueType { actual: data_type.logical_type_id() }),
    }
}

impl ColumnDefaultConstraint {
    /// A default null constraint.
    pub fn null_value() -> (r: ColumnDefaultConstraint)
        ensures
            r@ == ColumnDefaultConstraintV::Value(Value::Null),
            spec_maybe_null(r@),
    {
        ColumnDefaultConstraint::Value(Value::Null)
    }

    /// Whether this constraint might produce a null value.
    pub fn maybe_null(&self) -> (r: bool)
        ensures
            r == spec_maybe_null(self@),
    {
        matches!(self, ColumnDefaultConstraint::Value(Value::Null))
    }

    /// Checks whether the constraint is valid for a column with the given
    /// data type and nullability: a null default needs a nullable column, a
    /// function default must be `current_timestamp()` on a
    /// timestamp-compatible column, and a non-null literal must match the
    /// column's logical type.
    pub fn validate(&self, data_type: &ConcreteDataType, is_nullable: bool) -> (r: Result<
        (),
        Error,
    >)
        ensures
            view_validate_result(r) == spec_validate(self@, *data_type, is_nullable),
    {
        if !is_nullable && self.maybe_null() {
            return Err(Error::NullDefault);
        }
        match self {
            ColumnDefaultConstraint::Function(expr) => {
                if !is_current_timestamp_expr(expr) {
                    Err(
                        Error::UnsupportedDefaultExpr {
                            expr: expr.clone(),
                        },
                    )
                } else if !data_type.is_timestamp_compatible() {
                    Err(Error::DefaultValueType { actual: data_type.logical_type_id() })
                } else {
                    Ok(())
                }
            },
            ColumnDefaultConstraint::Value(v) => {
                if !v.is_null() && !logical_type_ids_eq(
                    data_type.logical_type_id(),
                    v.logical_type_id(),
                ) {
                    Err(Error::DefaultValueType { actual: v.logical_type_id() })
                } else {
                    Ok(())
                }
            },
        }
    }

    /// Builds a column of `num_rows` default values for the given data
    /// type. A null default needs a nullable column; a function default
    /// must be `current_timestamp()`, materialized from the injected
    /// milliseconds.
    pub fn create_default_vector(
        &self,
        data_type: &ConcreteDataType,
        is_nullable: bool,
        num_rows: usize,
        now_millis: i64,
    ) -> (r: Result<Vec<Value>, Error>)
        requires
            num_rows > 0,
        ensures
            view_vector_result(r) == spec_create_default_vector(
                self@,
                *data_type,
                is_nullable,
                num_rows as nat,
                now_millis,
            ),
    {
        match self {
            ColumnDefaultConstraint::Function(expr) => {
                if !is_current_timestamp_expr(expr) {
                    Err(
                        Error::UnsupportedDefaultExpr {
                            expr: expr.clone(),
                        },
                    )
                } else {
                    create_current_timestamp_vector(data_type, num_rows, now_millis)
                }
            },
            ColumnDefaultConstraint::Value(v) => {
                if !is_nullable && v.is_null() {
                    Err(Error::NullDefault)
                } else {
                    Ok(repeat_value(*v, num_rows))
                }
            },
        }
    }
}

/// Whether two logical type ids are equal.
fn logical_type_ids_eq(a: LogicalTypeId, b: LogicalTypeId) -> (r: bool)
    ensures
        r == (a == b),
{
    a == b
}

/// Law: a constraint that validates against a non-nullable column never
/// materializes a null value, whatever the row count and clock say.
pub proof fn lemma_validated_default_not_null(
    c: ColumnDefaultConstraintV,
    data_type: ConcreteDataType,
    num_rows: nat,
    now_millis: i64,
)
    requires
        spec_validate(c, data_type, false) is Ok,
    ensures
        spec_create_default_vector(c, data_type, false, num_rows, now_millis) matches Ok(s)
            ==> forall|i: int| 0 <= i < s.len() ==> !((#[trigger] s[i]) is Null),
{
}

} // verus!
