//! Runtime values and compile-time types.

use crate::number;
use crate::number::{float_truthy, truncate_float};
use crate::text;
use crate::text::{concat3, format_i64};
use vstd::prelude::*;

verus! {

/// A value of a script variable. The parameter is the type of texts; a
/// floating-point value is held as its bit pattern.
#[derive(Debug, PartialEq, Eq)]
pub enum Value<S = String> {
    Int(i64),
    Float(u64),
    Str(S),
    Bool(bool),
    Null,
}

impl View for Value<String> {
    type V = Value<Seq<char>>;

    open spec fn view(&self) -> Value<Seq<char>> {
        match *self {
            Value::Int(n) => Value::Int(n),
            Value::Float(b) => Value::Float(b),
            Value::Str(s) => Value::Str(s@),
            Value::Bool(b) => Value::Bool(b),
            Value::Null => Value::Null,
        }
    }
}

impl Clone for Value<String> {
    fn clone(&self) -> (r: Self)
        ensures
            r@ == self@,
    {
        match self {
            Value::Int(n) => Value::Int(*n),
            Value::Float(b) => Value::Float(*b),
            Value::Str(s) => Value::Str(s.clone()),
            Value::Bool(b) => Value::Bool(*b),
            Value::Null => Value::Null,
        }
    }
}

/// A number that takes part in floating-point arithmetic: an integer, which is
/// converted first, or a double.
#[derive(Debug, Clone, Copy, PartialEq, Eq, Structural)]
pub enum Operand {
    Int(i64),
    Float(u64),
}

impl Value<Seq<char>> {
    pub open spec fn kind_name(self) -> Seq<char> {
        match self {
            Value::Int(_) => "int"@,
            Value::Float(_) => "float"@,
            Value::Str(_) => "string"@,
            Value::Bool(_) => "bool"@,
            Value::Null => "null"@,
        }
    }

    /// Whether a condition with this value holds.
    pub open spec fn truthy(self) -> bool {
        match self {
            Value::Int(n) => n != 0,
            Value::Float(bits) => number::magnitude(bits) != 0,
            Value::Str(s) => s.len() > 0,
            Value::Bool(b) => b,
            Value::Null => false,
        }
    }
}

impl Value<String> {
    pub fn type_label(&self) -> (r: &'static str)
        ensures
            r@ == self@.kind_name(),
    {
        match self {
            Value::Int(_) => "int",
            Value::Float(_) => "float",
            Value::Str(_) => "string",
            Value::Bool(_) => "bool",
            Value::Null => "null",
        }
    }

    pub fn is_truthy(&self) -> (r: bool)
        ensures
            r == self@.truthy(),
    {
        match self {
            Value::Int(n) => *n != 0,
            Value::Float(bits) => float_truthy(*bits),
            Value::Str(s) => !s.as_str().is_empty(),
            Value::Bool(b) => *b,
            Value::Null => false,
        }
    }

    /// The value as an integer; a double loses its fraction.
    pub fn as_int(&self) -> (r: Result<i64, String>)
        ensures
            match self@ {
                Value::Int(n) => r == Ok::<i64, String>(n),
                Value::Float(bits) => r == Ok::<i64, String>(number::float_to_int(bits)),
                Value::Bool(b) => r == Ok::<i64, String>(
                    if b {
                        1i64
                    } else {
                        0i64
                    },
                ),
                _ => r matches Err(m) && m@ == "cannot convert "@ + self@.kind_name()
                    + " to int"@,
            },
    {
        match self {
            Value::Int(n) => Ok(*n),
            Value::Float(bits) => Ok(truncate_float(*bits)),
            Value::Bool(b) => Ok(
                if *b {
                    1
                } else {
                    0
                },
            ),
            _ => Err(concat3("cannot convert ", self.type_label(), " to int")),
        }
    }

    /// The value as a number of floating-point arithmetic.
    pub fn as_float(&self) -> (r: Result<Operand, String>)
        ensures
            match self@ {
                Value::Int(n) => r == Ok::<Operand, String>(Operand::Int(n)),
                Value::Float(bits) => r == Ok::<Operand, String>(Operand::Float(bits)),
                _ => r matches Err(m) && m@ == "cannot convert "@ + self@.kind_name()
                    + " to float"@,
            },
    {
        match self {
            Value::Int(n) => Ok(Operand::Int(*n)),
            Value::Float(bits) => Ok(Operand::Float(*bits)),
            _ => Err(concat3("cannot convert ", self.type_label(), " to float")),
        }
    }

    /// How the value reads. Where it is a double, `rounded` is its decimal
    /// form with one digit behind the point.
    pub fn text(&self, rounded: &str) -> (r: String)
        ensures
            r@ == (match self@ {
                Value::Int(n) => text::int_text(n as int),
                Value::Float(_) => rounded@,
                Value::Str(s) => s,
                Value::Bool(b) => if b {
                    "true"@
                } else {
                    "false"@
                },
                Value::Null => "null"@,
            }),
    {
        match self {
            Value::Int(n) => format_i64(*n),
            Value::Float(_) => rounded.to_owned(),
            Value::Str(s) => s.clone(),
            Value::Bool(b) => if *b {
                "true".to_owned()
            } else {
                "false".to_owned()
            },
            Value::Null => "null".to_owned(),
        }
    }
}

/// Compile-time types.
#[derive(Debug, Clone, Copy, PartialEq, Eq, Structural)]
pub enum Type {
    Int,
    Float,
    Str,
    Bool,
    Unknown,
}

impl Type {
    pub open spec fn type_text(self) -> Seq<char> {
        match self {
            Type::Int => "int"@,
            Type::Float => "float"@,
            Type::Str => "string"@,
            Type::Bool => "bool"@,
            Type::Unknown => "unknown"@,
        }
    }

    pub fn name(&self) -> (r: &'static str)
        ensures
            r@ == self.type_text(),
    {
        match self {
            Type::Int => "int",
            Type::Float => "float",
            Type::Str => "string",
            Type::Bool => "bool",
            Type::Unknown => "unknown",
        }
    }

    pub open spec fn is_numeric(self) -> bool {
        self is Int || self is Float
    }

    /// Whether two types may meet: numbers with numbers, an unknown type with
    /// every type, and every type with itself.
    pub open spec fn fits(self, other: Type) -> bool {
        ||| self is Unknown
        ||| other is Unknown
        ||| self.is_numeric() && other.is_numeric()
        ||| self == other
    }

    pub fn compatible(&self, other: &Type) -> (r: bool)
        ensures
            r == self.fits(*other),
    {
        if *self == Type::Unknown || *other == Type::Unknown {
            return true;
        }
        if (*self == Type::Int && *other == Type::Float) || (*self == Type::Float && *other
            == Type::Int) {
            return true;
        }
        *self == *other
    }
}

/// Whether two types may meet does not depend on their order, and every type
/// meets itself.
pub proof fn law_compatible_symmetric(a: Type, b: Type)
    ensures
        a.fits(b) == b.fits(a),
        a.fits(a),
{
}

} // verus!
