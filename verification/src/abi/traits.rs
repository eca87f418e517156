//! Conversions between Rust values and `NativeValue`.
use vstd::prelude::*;
use std::collections::HashMap;
use crate::abi::{
    array_new, boolean, get_boolean, get_integer, integer, integer_data, null, object_new,
    truncated_double, undefined, NativeValue, TAG_ARRAY, TAG_BOOLEAN, TAG_NULL, TAG_NUMBER,
    TAG_OBJECT, TAG_UNDEFINED,
};

verus! {

/// Converts a Rust value into a `NativeValue`.
pub trait ToNativeValue {
    /// The native value that this value becomes.
    spec fn native(&self) -> NativeValue;

    fn to_native_value(&self) -> (r: Result<NativeValue, String>)
        ensures
            r == Ok::<NativeValue, String>(self.native()),
    ;
}

/// Converts a `NativeValue` into a Rust value.
pub trait FromNativeValue: Sized {
    /// Whether `v` is what `val` becomes.
    spec fn decodes(val: NativeValue, v: Self) -> bool;

    fn from_native_value(val: NativeValue) -> (r: Result<Self, String>)
        ensures
            r matches Ok(v) && Self::decodes(val, v),
    ;
}

impl ToNativeValue for NativeValue {
    open spec fn native(&self) -> NativeValue {
        *self
    }

    fn to_native_value(&self) -> (r: Result<NativeValue, String>) {
        Ok(*self)
    }
}

impl FromNativeValue for NativeValue {
    open spec fn decodes(val: NativeValue, v: NativeValue) -> bool {
        v == val
    }

    fn from_native_value(val: NativeValue) -> (r: Result<NativeValue, String>) {
        Ok(val)
    }
}

impl ToNativeValue for i64 {
    open spec fn native(&self) -> NativeValue {
        NativeValue { tag: TAG_NUMBER, data: integer_data(*self) as u64 }
    }

    fn to_native_value(&self) -> (r: Result<NativeValue, String>) {
        Ok(integer(*self))
    }
}

impl FromNativeValue for i64 {
    open spec fn decodes(val: NativeValue, v: i64) -> bool {
        v == truncated_double(val.data) as i64
    }

    fn from_native_value(val: NativeValue) -> (r: Result<i64, String>) {
        Ok(get_integer(val) as i64)
    }
}

impl ToNativeValue for i32 {
    open spec fn native(&self) -> NativeValue {
        NativeValue { tag: TAG_NUMBER, data: integer_data(*self as i64) as u64 }
    }

    fn to_native_value(&self) -> (r: Result<NativeValue, String>) {
        Ok(integer(*self as i64))
    }
}

impl FromNativeValue for i32 {
    open spec fn decodes(val: NativeValue, v: i32) -> bool {
        v == truncated_double(val.data) as i32
    }

    fn from_native_value(val: NativeValue) -> (r: Result<i32, String>) {
        Ok(get_integer(val) as i32)
    }
}

impl ToNativeValue for u64 {
    open spec fn native(&self) -> NativeValue {
        NativeValue { tag: TAG_NUMBER, data: integer_data(*self as i64) as u64 }
    }

    fn to_native_value(&self) -> (r: Result<NativeValue, String>) {
        Ok(integer(*self as i64))
    }
}

impl FromNativeValue for u64 {
    open spec fn decodes(val: NativeValue, v: u64) -> bool {
        v == truncated_double(val.data) as u64
    }

    fn from_native_value(val: NativeValue) -> (r: Result<u64, String>) {
        Ok(get_integer(val) as u64)
    }
}

impl ToNativeValue for u32 {
    open spec fn native(&self) -> NativeValue {
        NativeValue { tag: TAG_NUMBER, data: integer_data(*self as i64) as u64 }
    }

    fn to_native_value(&self) -> (r: Result<NativeValue, String>) {
        Ok(integer(*self as i64))
    }
}

impl FromNativeValue for u32 {
    open spec fn decodes(val: NativeValue, v: u32) -> bool {
        v == truncated_double(val.data) as u32
    }

    fn from_native_value(val: NativeValue) -> (r: Result<u32, String>) {
        Ok(get_integer(val) as u32)
    }
}

impl ToNativeValue for i16 {
    open spec fn native(&self) -> NativeValue {
        NativeValue { tag: TAG_NUMBER, data: integer_data(*self as i64) as u64 }
    }

    fn to_native_value(&self) -> (r: Result<NativeValue, String>) {
        Ok(integer(*self as i64))
    }
}

impl FromNativeValue for i16 {
    open spec fn decodes(val: NativeValue, v: i16) -> bool {
        v == truncated_double(val.data) as i16
    }

    fn from_native_value(val: NativeValue) -> (r: Result<i16, String>) {
        Ok(get_integer(val) as i16)
    }
}

impl ToNativeValue for u16 {
    open spec fn native(&self) -> NativeValue {
        NativeValue { tag: TAG_NUMBER, data: integer_data(*self as i64) as u64 }
    }

    fn to_native_value(&self) -> (r: Result<NativeValue, String>) {
        Ok(integer(*self as i64))
    }
}

impl FromNativeValue for u16 {
    open spec fn decodes(val: NativeValue, v: u16) -> bool {
        v == truncated_double(val.data) as u16
    }

    fn from_native_value(val: NativeValue) -> (r: Result<u16, String>) {
        Ok(get_integer(val) as u16)
    }
}

impl ToNativeValue for i8 {
    open spec fn native(&self) -> NativeValue {
        NativeValue { tag: TAG_NUMBER, data: integer_data(*self as i64) as u64 }
    }

    fn to_native_value(&self) -> (r: Result<NativeValue, String>) {
        Ok(integer(*self as i64))
    }
}

impl FromNativeValue for i8 {
    open spec fn decodes(val: NativeValue, v: i8) -> bool {
        v == truncated_double(val.data) as i8
    }

    fn from_native_value(val: NativeValue) -> (r: Result<i8, String>) {
        Ok(get_integer(val) as i8)
    }
}

impl ToNativeValue for u8 {
    open spec fn native(&self) -> NativeValue {
        NativeValue { tag: TAG_NUMBER, data: integer_data(*self as i64) as u64 }
    }

    fn to_native_value(&self) -> (r: Result<NativeValue, String>) {
        Ok(integer(*self as i64))
    }
}

impl FromNativeValue for u8 {
    open spec fn decodes(val: NativeValue, v: u8) -> bool {
        v == truncated_double(val.data) as u8
    }

    fn from_native_value(val: NativeValue) -> (r: Result<u8, String>) {
        Ok(get_integer(val) as u8)
    }
}

impl ToNativeValue for bool {
    open spec fn native(&self) -> NativeValue {
        NativeValue { tag: TAG_BOOLEAN, data: if *self { 1 } else { 0 } }
    }

    fn to_native_value(&self) -> (r: Result<NativeValue, String>) {
        Ok(boolean(*self))
    }
}

impl FromNativeValue for bool {
    open spec fn decodes(val: NativeValue, v: bool) -> bool {
        v == (val.data != 0)
    }

    fn from_native_value(val: NativeValue) -> (r: Result<bool, String>) {
        Ok(get_boolean(val))
    }
}

impl<T: ToNativeValue> ToNativeValue for Option<T> {
    open spec fn native(&self) -> NativeValue {
        match self {
            Some(v) => v.native(),
            None => NativeValue { tag: TAG_NULL, data: 0 },
        }
    }

    fn to_native_value(&self) -> (r: Result<NativeValue, String>) {
        match self {
            Some(v) => v.to_native_value(),
            None => Ok(null()),
        }
    }
}

impl<T: FromNativeValue> FromNativeValue for Option<T> {
    open spec fn decodes(val: NativeValue, v: Option<T>) -> bool {
        match v {
            None => val.tag == TAG_NULL || val.tag == TAG_UNDEFINED,
            Some(x) => !(val.tag == TAG_NULL || val.tag == TAG_UNDEFINED) && T::decodes(val, x),
        }
    }

    fn from_native_value(val: NativeValue) -> (r: Result<Option<T>, String>) {
        if val.tag == TAG_NULL || val.tag == TAG_UNDEFINED {
            Ok(None)
        } else {
            match T::from_native_value(val) {
                Ok(v) => Ok(Some(v)),
                Err(e) => Err(e),
            }
        }
    }
}

impl<T: ToNativeValue> ToNativeValue for Vec<T> {
    open spec fn native(&self) -> NativeValue {
        NativeValue { tag: TAG_ARRAY, data: 0 }
    }

    fn to_native_value(&self) -> (r: Result<NativeValue, String>) {
        Ok(array_new())
    }
}

impl<T: FromNativeValue> FromNativeValue for Vec<T> {
    open spec fn decodes(val: NativeValue, v: Vec<T>) -> bool {
        v@.len() == 0
    }

    fn from_native_value(val: NativeValue) -> (r: Result<Vec<T>, String>) {
        Ok(Vec::new())
    }
}

impl ToNativeValue for () {
    open spec fn native(&self) -> NativeValue {
        NativeValue { tag: TAG_UNDEFINED, data: 0 }
    }

    fn to_native_value(&self) -> (r: Result<NativeValue, String>) {
        Ok(undefined())
    }
}

impl FromNativeValue for () {
    open spec fn decodes(val: NativeValue, v: ()) -> bool {
        v == ()
    }

    fn from_native_value(val: NativeValue) -> (r: Result<(), String>) {
        Ok(())
    }
}

} // verus!
