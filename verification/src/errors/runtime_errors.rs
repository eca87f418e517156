//! Constructors for the runtime errors that the virtual machine raises.
use vstd::prelude::*;
use vstd::string::*;
use crate::errors::Error;
use crate::text::{decimal, decimal_string, push_decimal};

verus! {

/// A runtime error with the given message.
pub fn runtime_error(message: &str) -> (e: Error)
    ensures
        e.kind is RuntimeError,
        e.kind.msg() == message@,
        e.span is None,
        e.file is None,
{
    let mut m = String::from_str(message);
    Error::RuntimeError(m)
}

/// Reading a property of a value that has none.
pub fn runtime_error_cannot_read_property(obj: &str, prop: &str) -> (e: Error)
    ensures
        e.kind is RuntimeError,
        e.kind.msg() == "Cannot read properties of "@ + obj@ + " (reading '"@ + prop@ + "')"@,
        e.span is None,
        e.file is None,
{
    let mut m = String::from_str("Cannot read properties of ");
    m.append(obj);
    m.append(" (reading '");
    m.append(prop);
    m.append("')");
    Error::RuntimeError(m)
}

/// Setting a property of a value that has none.
pub fn runtime_error_cannot_set_property(obj: &str, prop: &str) -> (e: Error)
    ensures
        e.kind is RuntimeError,
        e.kind.msg() == "Cannot set properties of "@ + obj@ + " (setting '"@ + prop@ + "')"@,
        e.span is None,
        e.file is None,
{
    let mut m = String::from_str("Cannot set properties of ");
    m.append(obj);
    m.append(" (setting '");
    m.append(prop);
    m.append("')");
    Error::RuntimeError(m)
}

/// A value that cannot be converted to the target type.
pub fn runtime_error_cannot_convert_to(value: &str, target: &str) -> (e: Error)
    ensures
        e.kind is RuntimeError,
        e.kind.msg() == "Cannot convert "@ + value@ + " to "@ + target@,
        e.span is None,
        e.file is None,
{
    let mut m = String::from_str("Cannot convert ");
    m.append(value);
    m.append(" to ");
    m.append(target);
    Error::RuntimeError(m)
}

/// The call stack grew past its limit.
pub fn runtime_error_stack_overflow() -> (e: Error)
    ensures
        e.kind is RuntimeError,
        e.kind.msg() == "Maximum call stack size exceeded"@,
        e.span is None,
        e.file is None,
{
    let mut m = String::from_str("Maximum call stack size exceeded");
    Error::RuntimeError(m)
}

/// The heap is exhausted.
pub fn runtime_error_out_of_memory() -> (e: Error)
    ensures
        e.kind is RuntimeError,
        e.kind.msg() == "JavaScript heap out of memory"@,
        e.span is None,
        e.file is None,
{
    let mut m = String::from_str("JavaScript heap out of memory");
    Error::RuntimeError(m)
}

/// A conversion between two types that is not possible.
pub fn runtime_error_invalid_conversion(from: &str, to: &str) -> (e: Error)
    ensures
        e.kind is RuntimeError,
        e.kind.msg() == "Cannot convert "@ + from@ + " to "@ + to@,
        e.span is None,
        e.file is None,
{
    let mut m = String::from_str("Cannot convert ");
    m.append(from);
    m.append(" to ");
    m.append(to);
    Error::RuntimeError(m)
}

/// Calling a value that is not a function.
pub fn runtime_error_not_callable(value: &str) -> (e: Error)
    ensures
        e.kind is RuntimeError,
        e.kind.msg() == value@ + " is not a function"@,
        e.span is None,
        e.file is None,
{
    let mut m = String::from_str(value);
    m.append(" is not a function");
    Error::RuntimeError(m)
}

/// Using a value as an object that cannot be one.
pub fn runtime_error_not_object(value: &str) -> (e: Error)
    ensures
        e.kind is RuntimeError,
        e.kind.msg() == "Cannot convert "@ + value@ + " to object"@,
        e.span is None,
        e.file is None,
{
    let mut m = String::from_str("Cannot convert ");
    m.append(value);
    m.append(" to object");
    Error::RuntimeError(m)
}

/// Defining a property that cannot be defined.
pub fn runtime_error_cannot_define_property(obj: &str, prop: &str) -> (e: Error)
    ensures
        e.kind is RuntimeError,
        e.kind.msg() == "Cannot define property '"@ + prop@ + "' of "@ + obj@,
        e.span is None,
        e.file is None,
{
    let mut m = String::from_str("Cannot define property '");
    m.append(prop);
    m.append("' of ");
    m.append(obj);
    Error::RuntimeError(m)
}

/// Deleting a property that cannot be deleted.
pub fn runtime_error_cannot_delete_property(obj: &str, prop: &str) -> (e: Error)
    ensures
        e.kind is RuntimeError,
        e.kind.msg() == "Cannot delete property '"@ + prop@ + "' of "@ + obj@,
        e.span is None,
        e.file is None,
{
    let mut m = String::from_str("Cannot delete property '");
    m.append(prop);
    m.append("' of ");
    m.append(obj);
    Error::RuntimeError(m)
}

/// Freezing a value that cannot be frozen.
pub fn runtime_error_cannot_freeze(obj: &str) -> (e: Error)
    ensures
        e.kind is RuntimeError,
        e.kind.msg() == "Cannot freeze "@ + obj@,
        e.span is None,
        e.file is None,
{
    let mut m = String::from_str("Cannot freeze ");
    m.append(obj);
    Error::RuntimeError(m)
}

/// Sealing a value that cannot be sealed.
pub fn runtime_error_cannot_seal(obj: &str) -> (e: Error)
    ensures
        e.kind is RuntimeError,
        e.kind.msg() == "Cannot seal "@ + obj@,
        e.span is None,
        e.file is None,
{
    let mut m = String::from_str("Cannot seal ");
    m.append(obj);
    Error::RuntimeError(m)
}

/// Preventing extensions of a value that does not allow it.
pub fn runtime_error_cannot_prevent_extensions(obj: &str) -> (e: Error)
    ensures
        e.kind is RuntimeError,
        e.kind.msg() == "Cannot prevent extensions of "@ + obj@,
        e.span is None,
        e.file is None,
{
    let mut m = String::from_str("Cannot prevent extensions of ");
    m.append(obj);
    Error::RuntimeError(m)
}

/// Reading a binding before its declaration ran.
pub fn runtime_error_cannot_access_before_initialization(name: &str) -> (e: Error)
    ensures
        e.kind is RuntimeError,
        e.kind.msg() == "Cannot access '"@ + name@ + "' before initialization"@,
        e.span is None,
        e.file is None,
{
    let mut m = String::from_str("Cannot access '");
    m.append(name);
    m.append("' before initialization");
    Error::RuntimeError(m)
}

/// Declaring the same name twice.
pub fn runtime_error_duplicate_variable(name: &str) -> (e: Error)
    ensures
        e.kind is RuntimeError,
        e.kind.msg() == "Duplicate variable declaration '"@ + name@ + "'"@,
        e.span is None,
        e.file is None,
{
    let mut m = String::from_str("Duplicate variable declaration '");
    m.append(name);
    m.append("'");
    Error::RuntimeError(m)
}

/// A function that must return a value did not.
pub fn runtime_error_missing_return() -> (e: Error)
    ensures
        e.kind is RuntimeError,
        e.kind.msg() == "Function does not return a value"@,
        e.span is None,
        e.file is None,
{
    let mut m = String::from_str("Function does not return a value");
    Error::RuntimeError(m)
}

/// A call with more arguments than `max`.
pub fn runtime_error_too_many_arguments(max: usize) -> (e: Error)
    ensures
        e.kind is RuntimeError,
        e.kind.msg() == "Maximum arguments limit ("@ + decimal(max as nat) + ") exceeded"@,
        e.span is None,
        e.file is None,
{
    let mut m = String::from_str("Maximum arguments limit (");
    push_decimal(&mut m, max as u64);
    m.append(") exceeded");
    Error::RuntimeError(m)
}

/// A regular expression that does not compile.
pub fn runtime_error_invalid_regular_expression(pattern: &str) -> (e: Error)
    ensures
        e.kind is RuntimeError,
        e.kind.msg() == "Invalid regular expression: "@ + pattern@,
        e.span is None,
        e.file is None,
{
    let mut m = String::from_str("Invalid regular expression: ");
    m.append(pattern);
    Error::RuntimeError(m)
}

/// An integer division by zero.
pub fn runtime_error_division_by_zero() -> (e: Error)
    ensures
        e.kind is RuntimeError,
        e.kind.msg() == "Division by zero"@,
        e.span is None,
        e.file is None,
{
    let mut m = String::from_str("Division by zero");
    Error::RuntimeError(m)
}

/// An index past the end of a sequence.
pub fn runtime_error_index_out_of_bounds(index: usize, length: usize) -> (e: Error)
    ensures
        e.kind is RuntimeError,
        e.kind.msg() == "Index "@ + decimal(index as nat) + " out of bounds for length "@ + decimal(length as nat),
        e.span is None,
        e.file is None,
{
    let mut m = String::from_str("Index ");
    push_decimal(&mut m, index as u64);
    m.append(" out of bounds for length ");
    push_decimal(&mut m, length as u64);
    Error::RuntimeError(m)
}

} // verus!
