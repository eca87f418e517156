use tails::errors::runtime_errors::{
    runtime_error_cannot_read_property, runtime_error_division_by_zero,
    runtime_error_index_out_of_bounds, runtime_error_not_callable, runtime_error_stack_overflow,
    runtime_error_too_many_arguments,
};
use tails::errors::type_errors::{
    type_error_expected, type_error_not_assignable, type_error_operator, type_error_undefined,
};
use tails::errors::{parse_error, reference_error, runtime_error, type_error, Error, ErrorKind, Span};

#[test]
fn span_constructors() {
    let s = Span::new(3, 7, 42);
    assert_eq!((s.line, s.col, s.offset), (3, 7, 42));
    let u = Span::unknown();
    assert_eq!((u.line, u.col, u.offset), (0, 0, 0));
}

#[test]
fn constructors_set_kind_and_message() {
    let cases = vec![
        (Error::ParseError("a".to_string()), "ParseError"),
        (Error::TypeError("a".to_string()), "TypeError"),
        (Error::ReferenceError("a".to_string()), "ReferenceError"),
        (Error::SyntaxError("a".to_string()), "SyntaxError"),
        (Error::RuntimeError("a".to_string()), "RuntimeError"),
        (Error::InternalError("a".to_string()), "InternalError"),
    ];
    for (e, name) in cases {
        assert_eq!(e.kind_name(), name);
        assert_eq!(e.message(), "a");
        assert!(e.span.is_none());
        assert!(e.file.is_none());
    }
}

#[test]
fn helper_constructors() {
    assert_eq!(parse_error("p").kind_name(), "ParseError");
    assert_eq!(type_error("t").kind_name(), "TypeError");
    assert_eq!(reference_error("r").kind_name(), "ReferenceError");
    assert_eq!(runtime_error("x").kind_name(), "RuntimeError");
    assert!(matches!(parse_error("p").kind, ErrorKind::ParseError(_)));
}

#[test]
fn with_span_and_file() {
    let e = parse_error("bad").with_span(Span::new(2, 5, 9)).with_file("main.ts");
    let sp = e.span.unwrap();
    assert_eq!((sp.line, sp.col, sp.offset), (2, 5, 9));
    assert_eq!(e.file.as_deref(), Some("main.ts"));
    assert_eq!(e.message(), "bad");
}

#[test]
fn to_string_is_kind_and_message() {
    assert_eq!(type_error("oops").to_string(), "TypeError: oops");
}

#[test]
fn display_without_span() {
    let e = runtime_error("boom");
    assert_eq!(e.display(None), "\x1B[31mRuntimeError: boom\x1B[0m\n");
}

#[test]
fn display_with_span_and_source() {
    let e = parse_error("Unexpected token").with_span(Span::new(2, 3, 0));
    let out = e.display(Some("let a = 1;\nfoo bar\n"));
    let expected = "\x1B[31mParseError: Unexpected token\x1B[0m\n  --> <input>:2:3\n     |\n2 | foo bar\n     |   ^\n";
    assert_eq!(out, expected);
}

#[test]
fn display_with_file_and_line_out_of_range() {
    let e = parse_error("x").with_span(Span::new(5, 1, 0)).with_file("a.ts");
    let out = e.display(Some("one line"));
    assert_eq!(out, "\x1B[31mParseError: x\x1B[0m\n  --> a.ts:5:1\n");
}

#[test]
fn display_marker_is_capped_by_line_length() {
    let e = parse_error("x").with_span(Span::new(1, 50, 0));
    let out = e.display(Some("ab"));
    assert_eq!(out, "\x1B[31mParseError: x\x1B[0m\n  --> <input>:1:50\n     |\n1 | ab\n     |   ^\n");
}

#[test]
fn display_line_zero_has_no_location() {
    let e = parse_error("x").with_span(Span::new(0, 4, 0));
    assert_eq!(e.display(Some("abc")), "\x1B[31mParseError: x\x1B[0m\n");
}

#[test]
fn runtime_error_messages() {
    assert_eq!(
        runtime_error_cannot_read_property("undefined", "x").message(),
        "Cannot read properties of undefined (reading 'x')"
    );
    assert_eq!(runtime_error_stack_overflow().message(), "Maximum call stack size exceeded");
    assert_eq!(runtime_error_not_callable("foo").message(), "foo is not a function");
    assert_eq!(runtime_error_division_by_zero().kind_name(), "RuntimeError");
    assert_eq!(
        runtime_error_index_out_of_bounds(7, 3).message(),
        "Index 7 out of bounds for length 3"
    );
    assert_eq!(
        runtime_error_too_many_arguments(255).message(),
        "Maximum arguments limit (255) exceeded"
    );
}

#[test]
fn type_error_messages() {
    assert_eq!(type_error_expected("number", "string").message(), "Expected number, got string");
    assert_eq!(
        type_error_not_assignable("string", "number").message(),
        "Type 'string' is not assignable to type 'number'"
    );
    assert_eq!(
        type_error_operator("+", "boolean", "object").message(),
        "Operator '+' cannot be applied to types 'boolean' and 'object'"
    );
    assert_eq!(type_error_undefined("x").message(), "'x' is undefined");
}
