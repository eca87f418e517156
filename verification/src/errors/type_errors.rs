//! Constructors for the type errors that the type checker raises.
use vstd::prelude::*;
use vstd::string::*;
use crate::errors::Error;

verus! {

/// A type error with the given message.
pub fn type_error(message: &str) -> (e: Error)
    ensures
        e.kind is TypeError,
        e.kind.msg() == message@,
        e.span is None,
        e.file is None,
{
    let mut m = String::from_str(message);
    Error::TypeError(m)
}

/// A value of another type than the one expected.
pub fn type_error_expected(expected: &str, actual: &str) -> (e: Error)
    ensures
        e.kind is TypeError,
        e.kind.msg() == "Expected "@ + expected@ + ", got "@ + actual@,
        e.span is None,
        e.file is None,
{
    let mut m = String::from_str("Expected ");
    m.append(expected);
    m.append(", got ");
    m.append(actual);
    Error::TypeError(m)
}

/// Assigning a value of one type to a binding of another.
pub fn type_error_not_assignable(from: &str, to: &str) -> (e: Error)
    ensures
        e.kind is TypeError,
        e.kind.msg() == "Type '"@ + from@ + "' is not assignable to type '"@ + to@ + "'"@,
        e.span is None,
        e.file is None,
{
    let mut m = String::from_str("Type '");
    m.append(from);
    m.append("' is not assignable to type '");
    m.append(to);
    m.append("'");
    Error::TypeError(m)
}

/// A `const` declared without a value.
pub fn type_error_missing_initializer(name: &str) -> (e: Error)
    ensures
        e.kind is TypeError,
        e.kind.msg() == "Missing initializer in const declaration '"@ + name@ + "'"@,
        e.span is None,
        e.file is None,
{
    let mut m = String::from_str("Missing initializer in const declaration '");
    m.append(name);
    m.append("'");
    Error::TypeError(m)
}

/// Calling a value whose type is not callable.
pub fn type_error_cannot_invoke(value: &str) -> (e: Error)
    ensures
        e.kind is TypeError,
        e.kind.msg() == "'"@ + value@ + "' is not a function"@,
        e.span is None,
        e.file is None,
{
    let mut m = String::from_str("'");
    m.append(value);
    m.append("' is not a function");
    Error::TypeError(m)
}

/// Using `new` on a value that is not a constructor.
pub fn type_error_cannot_new(value: &str) -> (e: Error)
    ensures
        e.kind is TypeError,
        e.kind.msg() == "'"@ + value@ + "' is not a constructor"@,
        e.span is None,
        e.file is None,
{
    let mut m = String::from_str("'");
    m.append(value);
    m.append("' is not a constructor");
    Error::TypeError(m)
}

/// Reading a property of a type that has none.
pub fn type_error_cannot_read_property(obj: &str, prop: &str) -> (e: Error)
    ensures
        e.kind is TypeError,
        e.kind.msg() == "Cannot read properties of "@ + obj@ + " (reading '"@ + prop@ + "')"@,
        e.span is None,
        e.file is None,
{
    let mut m = String::from_str("Cannot read properties of ");
    m.append(obj);
    m.append(" (reading '");
    m.append(prop);
    m.append("')");
    Error::TypeError(m)
}

/// Setting a property of a type that has none.
pub fn type_error_cannot_set_property(obj: &str, prop: &str) -> (e: Error)
    ensures
        e.kind is TypeError,
        e.kind.msg() == "Cannot set properties of "@ + obj@ + " (setting '"@ + prop@ + "')"@,
        e.span is None,
        e.file is None,
{
    let mut m = String::from_str("Cannot set properties of ");
    m.append(obj);
    m.append(" (setting '");
    m.append(prop);
    m.append("')");
    Error::TypeError(m)
}

/// An operator applied to operands of types it does not accept.
pub fn type_error_operator(op: &str, left: &str, right: &str) -> (e: Error)
    ensures
        e.kind is TypeError,
        e.kind.msg() == "Operator '"@ + op@ + "' cannot be applied to types '"@ + left@ + "' and '"@ + right@ + "'"@,
        e.span is None,
        e.file is None,
{
    let mut m = String::from_str("Operator '");
    m.append(op);
    m.append("' cannot be applied to types '");
    m.append(left);
    m.append("' and '");
    m.append(right);
    m.append("'");
    Error::TypeError(m)
}

/// A name that is not declared.
pub fn type_error_undefined(name: &str) -> (e: Error)
    ensures
        e.kind is TypeError,
        e.kind.msg() == "'"@ + name@ + "' is undefined"@,
        e.span is None,
        e.file is None,
{
    let mut m = String::from_str("'");
    m.append(name);
    m.append("' is undefined");
    Error::TypeError(m)
}

} // verus!
