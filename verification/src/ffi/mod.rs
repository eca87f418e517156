//! The boundary with native code: the value that crosses it, a tag and 64
//! bits of data, and the registry of native functions.
use vstd::prelude::*;

pub mod native;

verus! {

/// A value as it crosses the C boundary: its type's code and its data.
#[derive(Clone, Copy)]
pub struct TailsValue {
    pub tag: u32,
    pub data: u64,
}

/// The types a value may have at the C boundary.
pub enum TailsValueType {
    Undefined,
    Null,
    Boolean,
    Number,
    String,
    Object,
    Array,
    Function,
    Promise,
    Proxy,
    NativeFunction,
}

/// The code of each type at the C boundary: 0 to 10 in the order declared.
pub open spec fn type_code(t: TailsValueType) -> u32 {
    match t {
        TailsValueType::Undefined => 0,
        TailsValueType::Null => 1,
        TailsValueType::Boolean => 2,
        TailsValueType::Number => 3,
        TailsValueType::String => 4,
        TailsValueType::Object => 5,
        TailsValueType::Array => 6,
        TailsValueType::Function => 7,
        TailsValueType::Promise => 8,
        TailsValueType::Proxy => 9,
        TailsValueType::NativeFunction => 10,
    }
}

impl TailsValueType {
    /// The type's code at the C boundary.
    pub fn code(&self) -> (r: u32)
        ensures
            r == type_code(*self),
    {
        match self {
            TailsValueType::Undefined => 0,
            TailsValueType::Null => 1,
            TailsValueType::Boolean => 2,
            TailsValueType::Number => 3,
            TailsValueType::String => 4,
            TailsValueType::Object => 5,
            TailsValueType::Array => 6,
            TailsValueType::Function => 7,
            TailsValueType::Promise => 8,
            TailsValueType::Proxy => 9,
            TailsValueType::NativeFunction => 10,
        }
    }
}

/// The type code of a value.
pub fn tails_value_get_tag(value: TailsValue) -> (r: u32)
    ensures
        r == value.tag,
{
    value.tag
}

/// Whether a value is `undefined`.
pub fn tails_is_undefined(value: TailsValue) -> (r: bool)
    ensures
        r == (value.tag == type_code(TailsValueType::Undefined)),
{
    value.tag == TailsValueType::Undefined.code()
}

/// Whether a value is `null`.
pub fn tails_is_null(value: TailsValue) -> (r: bool)
    ensures
        r == (value.tag == type_code(TailsValueType::Null)),
{
    value.tag == TailsValueType::Null.code()
}

/// Whether a value is a boolean.
pub fn tails_is_boolean(value: TailsValue) -> (r: bool)
    ensures
        r == (value.tag == type_code(TailsValueType::Boolean)),
{
    value.tag == TailsValueType::Boolean.code()
}

/// Whether a value is a number.
pub fn tails_is_number(value: TailsValue) -> (r: bool)
    ensures
        r == (value.tag == type_code(TailsValueType::Number)),
{
    value.tag == TailsValueType::Number.code()
}

/// Whether a value is a string.
pub fn tails_is_string(value: TailsValue) -> (r: bool)
    ensures
        r == (value.tag == type_code(TailsValueType::String)),
{
    value.tag == TailsValueType::String.code()
}

/// Whether a value is an object.
pub fn tails_is_object(value: TailsValue) -> (r: bool)
    ensures
        r == (value.tag == type_code(TailsValueType::Object)),
{
    value.tag == TailsValueType::Object.code()
}

/// Whether a value is an array.
pub fn tails_is_array(value: TailsValue) -> (r: bool)
    ensures
        r == (value.tag == type_code(TailsValueType::Array)),
{
    value.tag == TailsValueType::Array.code()
}

/// Whether a value is a function, a script's or a native one.
pub fn tails_is_function(value: TailsValue) -> (r: bool)
    ensures
        r == (value.tag == type_code(TailsValueType::Function) || value.tag == type_code(
            TailsValueType::NativeFunction,
        )),
{
    value.tag == TailsValueType::Function.code() || value.tag == TailsValueType::NativeFunction.code()
}

/// The boolean a value holds: whether its data is not zero.
pub fn tails_get_boolean(value: TailsValue) -> (r: bool)
    ensures
        r == (value.data != 0),
{
    value.data != 0
}

/// A boolean value: data 1 for true, 0 for false.
pub fn tails_boolean_new(value: bool) -> (r: TailsValue)
    ensures
        r.tag == type_code(TailsValueType::Boolean),
        r.data == (if value { 1u64 } else { 0u64 }),
{
    TailsValue { tag: TailsValueType::Boolean.code(), data: if value { 1 } else { 0 } }
}

/// The `null` value.
pub fn tails_null() -> (r: TailsValue)
    ensures
        r.tag == type_code(TailsValueType::Null),
        r.data == 0,
{
    TailsValue { tag: TailsValueType::Null.code(), data: 0 }
}

/// The `undefined` value.
pub fn tails_undefined() -> (r: TailsValue)
    ensures
        r.tag == type_code(TailsValueType::Undefined),
        r.data == 0,
{
    TailsValue { tag: TailsValueType::Undefined.code(), data: 0 }
}

/// A boolean made at the boundary reads back as the same boolean, and is
/// seen as a boolean and as nothing else.
pub proof fn law_boolean_round_trip(b: bool)
    ensures
        ({
            let v = TailsValue { tag: type_code(TailsValueType::Boolean), data: if b { 1u64 } else { 0u64 } };
            &&& (v.data != 0) == b
            &&& v.tag != type_code(TailsValueType::Undefined)
            &&& v.tag != type_code(TailsValueType::Null)
            &&& v.tag != type_code(TailsValueType::Number)
        }),
{
}

} // verus!
