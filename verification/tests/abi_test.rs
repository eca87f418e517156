use tails::abi::loader::{extract_module_name, find_library_in_dir, library_paths};
use tails::abi::traits::{FromNativeValue, ToNativeValue};
use tails::abi::{
    array_new, boolean, get_boolean, get_integer, integer, null, object_new, undefined,
    HandleRegistry, NativeValue, TAG_ARRAY, TAG_BOOLEAN, TAG_NULL, TAG_NUMBER, TAG_OBJECT,
    TAG_UNDEFINED,
};

fn num(x: f64) -> NativeValue {
    NativeValue { tag: TAG_NUMBER, data: x.to_bits() }
}

#[test]
fn simple_constructors() {
    assert_eq!(undefined(), NativeValue { tag: TAG_UNDEFINED, data: 0 });
    assert_eq!(null(), NativeValue { tag: TAG_NULL, data: 0 });
    assert_eq!(boolean(true), NativeValue { tag: TAG_BOOLEAN, data: 1 });
    assert_eq!(boolean(false), NativeValue { tag: TAG_BOOLEAN, data: 0 });
    assert_eq!(object_new(), NativeValue { tag: TAG_OBJECT, data: 0 });
    assert_eq!(array_new(), NativeValue { tag: TAG_ARRAY, data: 0 });
    assert!(get_boolean(boolean(true)));
    assert!(!get_boolean(boolean(false)));
    assert!(get_boolean(NativeValue { tag: TAG_NUMBER, data: 7 }));
}

#[test]
fn integer_stores_the_rounded_value() {
    assert_eq!(integer(5), NativeValue { tag: TAG_NUMBER, data: 5 });
    assert_eq!(integer(0).data, 0);
    assert_eq!(integer(-5).data, 0);
    assert_eq!(integer(i64::MAX).data, 9223372036854775808);
    assert_eq!(integer((1i64 << 53) + 1).data, 1u64 << 53);
    assert_eq!(integer((1i64 << 53) + 3).data, (1u64 << 53) + 4);
    assert_eq!(integer(5).data, 5i64 as f64 as u64);
}

#[test]
fn get_integer_truncates_the_double() {
    assert_eq!(get_integer(num(1.5)), 1);
    assert_eq!(get_integer(num(-2.7)), -2);
    assert_eq!(get_integer(num(0.0)), 0);
    assert_eq!(get_integer(num(-0.0)), 0);
    assert_eq!(get_integer(num(42.0)), 42);
    assert_eq!(get_integer(num(f64::NAN)), 0);
    assert_eq!(get_integer(num(f64::INFINITY)), i64::MAX);
    assert_eq!(get_integer(num(f64::NEG_INFINITY)), i64::MIN);
    assert_eq!(get_integer(num(1e300)), i64::MAX);
    assert_eq!(get_integer(num(-1e300)), i64::MIN);
    assert_eq!(get_integer(num(1e-300)), 0);
    assert_eq!(get_integer(num(9007199254740993.0)), 9007199254740992);
}

#[test]
fn integer_data_is_not_double_bits() {
    // The integer constructor stores the value itself, not its bit pattern,
    // so reading it back as a double gives a tiny number.
    assert_eq!(get_integer(integer(5)), 0);
}

#[test]
fn handle_registry_store_get_take() {
    let mut reg: HandleRegistry<String> = HandleRegistry::new();
    let a = reg.store_handle("a".to_string());
    let b = reg.store_handle("b".to_string());
    assert_eq!(a, NativeValue { tag: TAG_OBJECT, data: 1 });
    assert_eq!(b.data, 2);
    assert_eq!(reg.get_handle(1).map(|s| s.as_str()), Some("a"));
    assert!(reg.peek_handle(2));
    assert!(!reg.peek_handle(3));
    assert_eq!(reg.take_handle(2), Some("b".to_string()));
    assert!(!reg.peek_handle(2));
    assert_eq!(reg.take_handle(2), None);
    reg.free_handle(1);
    assert!(reg.get_handle(1).is_none());
    let c = reg.store_handle("c".to_string());
    assert_eq!(c.data, 3);
}

#[test]
fn native_value_conversions() {
    assert_eq!(7i64.to_native_value(), Ok(integer(7)));
    assert_eq!(7u8.to_native_value(), Ok(integer(7)));
    assert_eq!(true.to_native_value(), Ok(boolean(true)));
    assert_eq!(None::<i32>.to_native_value(), Ok(null()));
    assert_eq!(Some(3i32).to_native_value(), Ok(integer(3)));
    assert_eq!(().to_native_value(), Ok(undefined()));
    assert_eq!(vec![1i64, 2].to_native_value(), Ok(array_new()));
    assert_eq!(i64::from_native_value(num(12.9)), Ok(12));
    assert_eq!(bool::from_native_value(boolean(true)), Ok(true));
    assert_eq!(Option::<i64>::from_native_value(null()), Ok(None));
    assert_eq!(Option::<i64>::from_native_value(undefined()), Ok(None));
    assert_eq!(Option::<i64>::from_native_value(num(3.0)), Ok(Some(3)));
    assert_eq!(NativeValue::from_native_value(null()), Ok(null()));
}

#[test]
fn extract_module_name_cases() {
    assert_eq!(extract_module_name("./dist/foo.native"), "foo");
    assert_eq!(extract_module_name("bar"), "bar");
    assert_eq!(extract_module_name("a/b/c.so"), "c");
}

#[test]
fn library_candidates_by_os() {
    assert_eq!(library_paths("/d", "m", "linux"), vec!["/d/m.so".to_string(), "/d/libm.so".to_string()]);
    assert_eq!(library_paths("/d", "m", "macos"), vec!["/d/m.dylib".to_string(), "/d/libm.dylib".to_string()]);
    assert_eq!(library_paths("/d", "m", "windows"), vec!["/d/m.dll".to_string()]);
}

#[test]
fn find_library_in_dir_without_files() {
    assert_eq!(find_library_in_dir("/no-such-dir-xyz", "zz", "linux"), None);
}

#[test]
fn first_existing_candidate_is_chosen() {
    use_first_existing();
}

fn use_first_existing() {
    let c = vec!["a.so".to_string(), "liba.so".to_string()];
    assert_eq!(tails::abi::loader::first_existing(&c, &vec![false, true]), Some("liba.so".to_string()));
    assert_eq!(tails::abi::loader::first_existing(&c, &vec![true, true]), Some("a.so".to_string()));
    assert_eq!(tails::abi::loader::first_existing(&c, &vec![false, false]), None);
}

#[test]
fn native_value_default_is_undefined() {
    let v = tails::abi::NativeValue::default();
    assert_eq!(v, tails::abi::undefined());
}
