use vstd::prelude::*;

verus! {

/// Mathematical model of a runtime value, used in contracts.
///
/// A string is modelled by its character sequence.  A function is modelled
/// by its name and arity alone: function values compare by object identity
/// and are never serialised, so nothing in this crate needs to look inside
/// the chunk a function carries.
pub enum ValueModel {
    Nil,
    Bool(bool),
    Num(u64),
    Str(Seq<char>),
    Func(Seq<char>, u8),
}

/// A runtime value of the virtual machine.
///
/// `Number` carries an IEEE-754 double by its 64-bit pattern; hosts that
/// compute with such values convert with `f64::to_bits` / `f64::from_bits`.
/// Holding the raw bits keeps the value exact and makes the binary
/// serialisation of a number literally its eight little-endian bytes.
#[derive(Debug, Clone, PartialEq)]
pub enum Value {
    Nil,
    Boolean(bool),
    Number(u64),
    Object(ObjectValue),
}

/// A heap value: an immutable string or a compiled function.
#[derive(Debug, Clone, PartialEq)]
pub enum ObjectValue {
    String(String),
    Function(FunctionObj),
}

/// A function constant: its name and arity.
///
/// The compiled body of a function is a [`crate::chunk::Chunk`] of its
/// own, held wherever the execution engine keeps functions; the
/// constant-pool entry that this crate stores, renders and (deliberately)
/// refuses to serialise identifies the function by name and arity.
#[derive(Debug, Clone, PartialEq)]
pub struct FunctionObj {
    pub name: String,
    pub arity: u8,
}

impl View for FunctionObj {
    type V = ValueModel;

    open spec fn view(&self) -> ValueModel {
        ValueModel::Func(self.name@, self.arity)
    }
}

impl View for ObjectValue {
    type V = ValueModel;

    open spec fn view(&self) -> ValueModel {
        match self {
            ObjectValue::String(s) => ValueModel::Str(s@),
            ObjectValue::Function(f) => f@,
        }
    }
}

impl View for Value {
    type V = ValueModel;

    open spec fn view(&self) -> ValueModel {
        match self {
            Value::Nil => ValueModel::Nil,
            Value::Boolean(b) => ValueModel::Bool(*b),
            Value::Number(bits) => ValueModel::Num(*bits),
            Value::Object(o) => o@,
        }
    }
}

/// `Nil` and `Boolean(false)` are falsey; every other value is truthy.
pub open spec fn falsey(v: ValueModel) -> bool {
    v == ValueModel::Nil || v == ValueModel::Bool(false)
}

/// IEEE-754 equality of two doubles, read off their bit patterns: a NaN
/// equals nothing, the two zeroes equal each other, and any other pair is
/// equal exactly when the patterns are.
pub open spec fn spec_num_eq(a: u64, b: u64) -> bool {
    if is_nan_bits(a) || is_nan_bits(b) {
        false
    } else if a & 0x7fffffffffffffff == 0 && b & 0x7fffffffffffffff == 0 {
        true
    } else {
        a == b
    }
}

/// Whether a bit pattern is an IEEE-754 NaN: exponent all ones, fraction
/// not zero.
pub open spec fn is_nan_bits(bits: u64) -> bool {
    (bits >> 52) & 0x7ff == 0x7ff && bits & 0xfffffffffffff != 0
}

/// Equality of two values: values of different kind are unequal, booleans
/// compare as booleans, numbers by IEEE-754 equality, strings by content.
/// Function values compare by object identity, which this model does not
/// carry; they are outside this relation.
pub open spec fn val_eq(a: ValueModel, b: ValueModel) -> bool {
    match (a, b) {
        (ValueModel::Nil, ValueModel::Nil) => true,
        (ValueModel::Bool(x), ValueModel::Bool(y)) => x == y,
        (ValueModel::Num(x), ValueModel::Num(y)) => spec_num_eq(x, y),
        (ValueModel::Str(x), ValueModel::Str(y)) => x == y,
        _ => false,
    }
}

impl Value {
    /// Whether a conditional jump on this value takes the false branch.
    pub fn is_falsey(&self) -> (r: bool)
        ensures
            r == falsey(self@),
    {
        match self {
            Value::Nil => true,
            Value::Boolean(b) => !*b,
            _ => false,
        }
    }

    /// Equality as the language defines it, for the values this
    /// representation can decide it on.  Function values compare by
    /// object identity and are left to the execution engine.
    pub fn equals(&self, other: &Value) -> (r: bool)
        requires
            !(self@ is Func),
            !(other@ is Func),
        ensures
            r == val_eq(self@, other@),
    {
        match self {
            Value::Nil => match other {
                Value::Nil => true,
                _ => false,
            },
            Value::Boolean(x) => match other {
                Value::Boolean(y) => *x == *y,
                _ => false,
            },
            Value::Number(x) => match other {
                Value::Number(y) => {
                    let a = *x;
                    let b = *y;
                    let a_nan = (a >> 52u64) & 0x7ff == 0x7ff && a & 0xfffffffffffff != 0;
                    let b_nan = (b >> 52u64) & 0x7ff == 0x7ff && b & 0xfffffffffffff != 0;
                    if a_nan || b_nan {
                        false
                    } else if a & 0x7fffffffffffffff == 0 && b & 0x7fffffffffffffff == 0 {
                        true
                    } else {
                        a == b
                    }
                },
                _ => false,
            },
            Value::Object(ObjectValue::String(x)) => match other {
                Value::Object(ObjectValue::String(y)) => *x == *y,
                _ => false,
            },
            Value::Object(ObjectValue::Function(_)) => false,
        }
    }
}

} // verus!
