//! Value-level semantics of the four binary arithmetic operators.
//!
//! One documented rule governs every operator: operands are combined as
//! mathematical integers; a null operand, a zero divisor, or a result
//! outside the promoted type's range yields the null value. Division
//! truncates toward zero.

use vstd::arithmetic::div_mod::lemma_div_nonincreasing;
use vstd::prelude::*;

use crate::datavalues::{in_range, is_numeric, numeric_value, value_fits, value_of_int, DataType, DataValue};

verus! {

/// The four binary arithmetic operators.
#[derive(Clone, Copy, Debug, PartialEq, Eq, Structural)]
pub enum ArithOp {
    Add,
    Sub,
    Mul,
    Div,
}

/// The absolute value of `x`.
pub open spec fn abs_int(x: int) -> int {
    if x >= 0 {
        x
    } else {
        -x
    }
}

/// Division truncating toward zero, defined for `y != 0`.
pub open spec fn trunc_div(x: int, y: int) -> int {
    let q = abs_int(x) / abs_int(y);
    if (x < 0) != (y < 0) {
        -q
    } else {
        q
    }
}

/// The mathematical result of `op` over `x` and `y` (`y != 0` for `Div`).
pub open spec fn op_value(op: ArithOp, x: int, y: int) -> int {
    match op {
        ArithOp::Add => x + y,
        ArithOp::Sub => x - y,
        ArithOp::Mul => x * y,
        ArithOp::Div => trunc_div(x, y),
    }
}

/// The value of `op` over scalar operands at result type `t`: null if an
/// operand is null, the divisor is zero, or the result leaves `t`'s range.
pub open spec fn apply_op(op: ArithOp, t: DataType, a: DataValue, b: DataValue) -> DataValue {
    if a == DataValue::Null || b == DataValue::Null {
        DataValue::Null
    } else {
        let x = numeric_value(a);
        let y = numeric_value(b);
        if op == ArithOp::Div && y == 0 {
            DataValue::Null
        } else {
            let z = op_value(op, x, y);
            if in_range(t, z) {
                value_of_int(t, z)
            } else {
                DataValue::Null
            }
        }
    }
}

/// Whatever `apply_op` yields fits the numeric result type.
pub proof fn lemma_apply_op_fits(op: ArithOp, t: DataType, a: DataValue, b: DataValue)
    requires
        is_numeric(t),
    ensures
        value_fits(apply_op(op, t, a, b), t),
{
}

/// Whether `v` is a numeric payload or null, so arithmetic is defined on it.
pub open spec fn arith_operand(v: DataValue) -> bool {
    v matches DataValue::Int32(_) || v matches DataValue::Int64(_) || v == DataValue::Null
}

/// The `i64` payload of a numeric value.
fn numeric_payload(v: DataValue) -> (r: i64)
    requires
        v matches DataValue::Int32(_) || v matches DataValue::Int64(_),
    ensures
        r == numeric_value(v),
{
    match v {
        DataValue::Int32(x) => x as i64,
        DataValue::Int64(x) => x,
        _ => 0,
    }
}

/// The magnitude of `x` as a `u64`.
fn magnitude(x: i64) -> (r: u64)
    ensures
        r == abs_int(x as int),
{
    if x == i64::MIN {
        0x8000_0000_0000_0000u64
    } else if x < 0 {
        (-x) as u64
    } else {
        x as u64
    }
}

/// Narrows the mathematical result `z` into type `t`: the typed value if
/// `z` is representable, null otherwise.
fn narrow(t: DataType, z: i64) -> (r: DataValue)
    requires
        is_numeric(t),
    ensures
        r == (if in_range(t, z as int) {
            value_of_int(t, z as int)
        } else {
            DataValue::Null
        }),
{
    match t {
        DataType::Int32 => {
            if i32::MIN as i64 <= z && z <= i32::MAX as i64 {
                DataValue::Int32(z as i32)
            } else {
                DataValue::Null
            }
        },
        DataType::Int64 => DataValue::Int64(z),
        DataType::Boolean => DataValue::Null,
    }
}

/// Evaluates one operator over two scalar operands at result type `t`,
/// following `apply_op` exactly.
pub fn eval_op(op: ArithOp, t: DataType, a: DataValue, b: DataValue) -> (r: DataValue)
    requires
        is_numeric(t),
        arith_operand(a),
        arith_operand(b),
    ensures
        r == apply_op(op, t, a, b),
{
    if a.is_null() || b.is_null() {
        return DataValue::Null;
    }
    let x = numeric_payload(a);
    let y = numeric_payload(b);
    match op {
        ArithOp::Add => {
            match x.checked_add(y) {
                Some(z) => narrow(t, z),
                None => DataValue::Null,
            }
        },
        ArithOp::Sub => {
            match x.checked_sub(y) {
                Some(z) => narrow(t, z),
                None => DataValue::Null,
            }
        },
        ArithOp::Mul => {
            match x.checked_mul(y) {
                Some(z) => narrow(t, z),
                None => DataValue::Null,
            }
        },
        ArithOp::Div => {
            if y == 0 {
                return DataValue::Null;
            }
            let xa = magnitude(x);
            let ya = magnitude(y);
            let q = xa / ya;
            proof {
                lemma_div_nonincreasing(xa as int, ya as int);
            }
            let neg = (x < 0) != (y < 0);
            if neg {
                if q == 0x8000_0000_0000_0000u64 {
                    narrow(t, i64::MIN)
                } else {
                    narrow(t, -(q as i64))
                }
            } else {
                if q >= 0x8000_0000_0000_0000u64 {
                    // the quotient is 2^63, one past the largest `i64`
                    assert(!in_range(t, trunc_div(x as int, y as int)));
                    DataValue::Null
                } else {
                    narrow(t, q as i64)
                }
            }
        },
    }
}

} // verus!

