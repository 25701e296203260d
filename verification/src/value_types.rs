//! The value types that style properties and variables can produce.

use vstd::prelude::*;

verus! {

/// A text value.
#[derive(Clone, Default)]
pub struct Text(pub String);

/// A yes/no value.
#[derive(Clone, Default)]
pub struct Boolean(pub bool);

/// The type of a value that a variable produces or a property expects.
#[derive(Clone, Copy, Debug, PartialEq, Eq, Structural)]
pub enum ValueType {
    Number,
    Text,
    Tint,
    Boolean,
    Texture,
}

/// A value of type `from` may stand where a value of type `to` is expected:
/// every type stands for itself, and numbers and booleans can be shown as text.
pub open spec fn value_cast_allowed(from: ValueType, to: ValueType) -> bool {
    ||| from == to
    ||| (from == ValueType::Number && to == ValueType::Text)
    ||| (from == ValueType::Boolean && to == ValueType::Text)
}

/// The name under which a value type is shown to the user.
pub open spec fn value_type_name(t: ValueType) -> Seq<char> {
    match t {
        ValueType::Number => "Number"@,
        ValueType::Text => "Text"@,
        ValueType::Tint => "Color"@,
        ValueType::Boolean => "Boolean"@,
        ValueType::Texture => "Image"@,
    }
}

impl ValueType {
    pub fn can_cast_to(&self, target: &ValueType) -> (r: bool)
        ensures
            r == value_cast_allowed(*self, *target),
    {
        match (self, target) {
            (a, b) if *a == *b => true,
            (ValueType::Number, ValueType::Text) => true,
            (ValueType::Boolean, ValueType::Text) => true,
            _ => false,
        }
    }

    pub fn name(&self) -> (r: &'static str)
        ensures
            r@ == value_type_name(*self),
    {
        match self {
            ValueType::Number => "Number",
            ValueType::Text => "Text",
            ValueType::Tint => "Color",
            ValueType::Boolean => "Boolean",
            ValueType::Texture => "Image",
        }
    }
}

impl Default for ValueType {
    /// A new variable or property produces a number.
    fn default() -> (r: ValueType)
        ensures
            r == ValueType::Number,
    {
        ValueType::Number
    }
}

/// The value type that stands for the value representation `T`.
pub trait ValueTypeOf<T>: Sized {
    /// The value type that `get` gives for `T`.
    spec fn value_type_of() -> Self;

    fn get() -> (r: Self)
        ensures
            r == Self::value_type_of(),
    ;
}

impl ValueTypeOf<Text> for ValueType {
    open spec fn value_type_of() -> ValueType {
        ValueType::Text
    }

    fn get() -> (r: ValueType) {
        ValueType::Text
    }
}

impl ValueTypeOf<Boolean> for ValueType {
    open spec fn value_type_of() -> ValueType {
        ValueType::Boolean
    }

    fn get() -> (r: ValueType) {
        ValueType::Boolean
    }
}

/// Every value type stands for itself, and the only other casts are of
/// numbers and booleans to text.
pub proof fn law_value_casts(from: ValueType, to: ValueType)
    ensures
        value_cast_allowed(from, from),
        from != to ==> (value_cast_allowed(from, to) <==> (to == ValueType::Text
            && (from == ValueType::Number || from == ValueType::Boolean))),
{
}

} // verus!
