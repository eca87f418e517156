use tails::compiler::lexer::tokenize;
use tails::compiler::parser::{parse, AstNode, BinaryOperator, Expression};
use tails::compiler::type_checker::{type_debug_text, ObjectProperty, Type, TypeChecker};

fn ast(src: &str) -> AstNode {
    parse(&tokenize(src).expect("tokenize")).expect("parse")
}

fn check(src: &str) -> Result<(), (String, String)> {
    TypeChecker::check(&ast(src)).map_err(|e| (e.kind_name().to_string(), e.message().to_string()))
}

fn err(kind: &str, msg: &str) -> Result<(), (String, String)> {
    Err((kind.to_string(), msg.to_string()))
}

#[test]
fn well_typed_programs() {
    assert_eq!(check("let x = 1; let y = x + 2; let s = 'a' + 'b'; x < y;"), Ok(()));
    assert_eq!(check("let b = true && false; if (b) { let z = !b; } while (b) b = false;"), Ok(()));
    assert_eq!(check("function f(a) { return a; } f(1);"), Ok(()));
    assert_eq!(check(""), Ok(()));
}

#[test]
fn operator_errors() {
    assert_eq!(
        check("let s = 'a' - 1;"),
        err("TypeError", "Operator 'Sub' cannot be applied to types 'String' and 'Number'")
    );
    assert_eq!(check("-'a';"), err("TypeError", "Operator '-' cannot be applied to type 'String'"));
    assert_eq!(
        check("function f(a) { return a + 1; }"),
        err("TypeError", "Operator 'Add' cannot be applied to types 'Any' and 'Number'")
    );
}

#[test]
fn reference_and_declaration_errors() {
    assert_eq!(check("y;"), err("ReferenceError", "'y' is not defined"));
    assert_eq!(check("g(1);"), err("ReferenceError", "'g' is not defined"));
    assert_eq!(check("{ let z = 1; } z;"), err("ReferenceError", "'z' is not defined"));
    assert_eq!(check("const c;"), err("TypeError", "Missing initializer in const declaration"));
    assert_eq!(check("let v;"), Ok(()));
}

#[test]
fn assignability_errors() {
    assert_eq!(check("let x = 1; x = 'a';"), err("TypeError", "Type 'String' is not assignable to type 'Number'"));
    assert_eq!(check("let x = 1; let x = 'a';"), Ok(()));
    assert_eq!(check("let x = 1; let x = 2;"), Ok(()));
}

#[test]
fn non_program_root_is_internal_error() {
    let e = TypeChecker::check(&AstNode::Expression(Expression::NullLiteral)).unwrap_err();
    assert_eq!(e.kind_name(), "InternalError");
    assert_eq!(e.message(), "Invalid root node");
}

#[test]
fn compatibility_rules() {
    let tc = TypeChecker::new();
    let ns = Type::Union(vec![Type::Number, Type::String]);
    assert!(tc.is_compatible(&Type::Number, &Type::Number));
    assert!(tc.is_compatible(&Type::Any, &Type::Boolean));
    assert!(tc.is_compatible(&Type::Null, &Type::Any));
    assert!(tc.is_compatible(&ns, &Type::String));
    assert!(tc.is_compatible(&Type::Number, &ns));
    assert!(!tc.is_compatible(&Type::Boolean, &ns));
    assert!(!tc.is_compatible(&ns, &Type::Boolean));
    assert!(!tc.is_compatible(&Type::Number, &Type::String));
    assert!(tc.is_compatible(&ns, &Type::Union(vec![Type::Number, Type::String])));
}

#[test]
fn operator_typing() {
    let tc = TypeChecker::new();
    let t = tc.check_binary_op(&BinaryOperator::Less, &Type::String, &Type::Number).unwrap();
    assert!(matches!(t, Type::Boolean));
    let t = tc.check_binary_op(&BinaryOperator::Or, &Type::Boolean, &Type::Number).unwrap();
    assert!(matches!(t, Type::Any));
    let t = tc.check_binary_op(&BinaryOperator::BitAnd, &Type::String, &Type::Null).unwrap();
    assert!(matches!(t, Type::Number));
}

#[test]
fn scopes_and_shadowing() {
    let mut tc = TypeChecker::new();
    tc.define_variable("x", Type::Number);
    tc.define_variable("x", Type::String);
    assert!(matches!(tc.get_variable_type("x"), Some(Type::Number)));
    tc.enter_scope();
    tc.define_variable("x", Type::Boolean);
    assert!(matches!(tc.get_variable_type("x"), Some(Type::Boolean)));
    tc.exit_scope();
    assert!(matches!(tc.get_variable_type("x"), Some(Type::Number)));
    assert!(tc.get_variable_type("nope").is_none());
    tc.exit_scope();
    tc.exit_scope();
    tc.define_variable("y", Type::Null);
    assert!(tc.get_variable_type("y").is_none());
}

#[test]
fn debug_text_of_types() {
    let t = Type::Union(vec![Type::Number, Type::Intersection(vec![Type::String, Type::Null])]);
    assert_eq!(type_debug_text(&t), format!("{:?}", t));
    assert_eq!(type_debug_text(&Type::Union(vec![])), "Union([])");
}

#[test]
fn globals_are_known_to_the_check() {
    let globals = vec![("console".to_string(), Type::Any), ("n".to_string(), Type::Number)];
    assert!(TypeChecker::check_with_globals(&ast("console; n + 1;"), &globals).is_ok());
    let r = TypeChecker::check_with_globals(&ast("n - 'a';"), &globals)
        .map_err(|e| (e.kind_name().to_string(), e.message().to_string()));
    assert_eq!(r, err("TypeError", "Operator 'Sub' cannot be applied to types 'Number' and 'String'"));
    assert!(TypeChecker::check_with_globals(&ast("other;"), &globals).is_err());
}

#[test]
fn declared_types_are_checked() {
    assert_eq!(check("let x: number = 1; let y: string | number = 'a'; let z: any = true;"), Ok(()));
    assert_eq!(
        check("let x: number = 'a';"),
        err("TypeError", "Type 'String' is not assignable to type 'Number'")
    );
    assert_eq!(check("let x: 'a' = 'a'; let n: 3 = 3;"), Ok(()));
    assert_eq!(
        check("let x: boolean | null = 1;"),
        err("TypeError", "Type 'Number' is not assignable to type 'Union([Boolean, Null])'")
    );
    assert_eq!(
        check("let x: number; x = 'a';"),
        err("TypeError", "Type 'String' is not assignable to type 'Number'")
    );
    assert_eq!(check("let x: string = 'a'; let y = x + 'b';"), Ok(()));
}

#[test]
fn literal_and_array_compatibility() {
    let tc = TypeChecker::new();
    let ns = Type::Union(vec![Type::Number, Type::String]);
    assert!(tc.is_compatible(&ns, &Type::StringLiteral("a".to_string())));
    assert!(tc.is_compatible(&Type::NumberLiteral("1".to_string()), &Type::Number));
    assert!(!tc.is_compatible(&Type::NumberLiteral("1".to_string()), &Type::String));
    assert!(tc.is_compatible(&Type::Array(Box::new(ns)), &Type::Array(Box::new(Type::String))));
    assert!(!tc.is_compatible(&Type::Array(Box::new(Type::Number)), &Type::Array(Box::new(Type::String))));
    assert!(!tc.is_compatible(&Type::Named("A".to_string()), &Type::Named("B".to_string())));
    assert_eq!(type_debug_text(&Type::NumberLiteral("1".to_string())), "NumberLiteral(1.0)");
    assert_eq!(type_debug_text(&Type::StringLiteral("a".to_string())), "StringLiteral(\"a\")");
    let g = Type::Generic { name: "Map".to_string(), args: vec![Type::Array(Box::new(Type::Number)), Type::Tuple(vec![])] };
    assert_eq!(type_debug_text(&g), format!("{:?}", g));
}

#[test]
fn all_statement_kinds_are_checked() {
    assert_eq!(check("do { y; } while (true);"), err("ReferenceError", "'y' is not defined"));
    assert_eq!(check("throw q;"), err("ReferenceError", "'q' is not defined"));
    assert_eq!(check("for (let i = 0; i < 3; i++) { i; } i;"), err("ReferenceError", "'i' is not defined"));
    assert_eq!(check("switch (1) { case 2: z; }"), err("ReferenceError", "'z' is not defined"));
    assert_eq!(check("try { a; } catch (e) { e; }"), err("ReferenceError", "'a' is not defined"));
    assert_eq!(check("try { } catch (e) { e; } e;"), err("ReferenceError", "'e' is not defined"));
    assert_eq!(check("class C { m(p) { return p; } } C;"), Ok(()));
    assert_eq!(check("function f(n) { return f(n); }"), Ok(()));
    assert_eq!(check("let a: number = 1; let a = 'x';"), Ok(()));
}

#[test]
fn unknown_never_and_tuples() {
    let tc = TypeChecker::new();
    let tup = Type::Tuple(vec![Type::Number, Type::String]);
    assert!(tc.is_compatible(&Type::Unknown, &Type::Number));
    assert!(tc.is_compatible(&Type::Boolean, &Type::Unknown));
    assert!(tc.is_compatible(&Type::Never, &Type::String));
    assert!(tc.is_compatible(&tup, &Type::Tuple(vec![Type::Number, Type::StringLiteral("a".to_string())])));
    assert!(!tc.is_compatible(&tup, &Type::Tuple(vec![Type::Number])));
    assert!(tc.is_compatible(&Type::Tuple(vec![Type::Any, Type::Number]), &Type::Array(Box::new(Type::Number))));
    assert!(!tc.is_compatible(&Type::Array(Box::new(Type::Number)), &tup));
    assert!(tc.is_compatible(&Type::Array(Box::new(Type::Union(vec![Type::Number, Type::String]))), &tup));
}

#[test]
fn object_types() {
    let tc = TypeChecker::new();
    let prop = |n: &str, t: Type, o: bool| ObjectProperty { name: n.to_string(), ty: t, optional: o };
    let want = Type::Object(vec![prop("x", Type::Number, false), prop("y", Type::String, true)]);
    let has_x = Type::Object(vec![prop("x", Type::NumberLiteral("1".to_string()), false)]);
    let wrong_x = Type::Object(vec![prop("x", Type::String, false), prop("y", Type::String, false)]);
    let no_x = Type::Object(vec![prop("y", Type::String, false)]);
    assert!(tc.is_compatible(&want, &has_x));
    assert!(!tc.is_compatible(&want, &wrong_x));
    assert!(!tc.is_compatible(&want, &no_x));
    assert!(tc.is_compatible(&Type::Object(vec![]), &no_x));
    assert_eq!(type_debug_text(&want), format!("{:?}", want));
    assert_eq!(check("let p: { x: number; readonly y?: string } = 1;"), err("TypeError", "Type 'Number' is not assignable to type 'Object([ObjectProperty { name: \"x\", ty: Number, optional: false }, ObjectProperty { name: \"y\", ty: String, optional: true }])'"));
}

#[test]
fn type_assertions() {
    assert_eq!(check("let x = 'a'; let n: number = x as number;"), Ok(()));
    assert_eq!(check("let x = 1; let s: string = x as any;"), Ok(()));
    assert_eq!(check("let x = 1; let s: string = x as number;"), err("TypeError", "Type 'Number' is not assignable to type 'String'"));
    assert_eq!(check("let s = y as string;"), err("ReferenceError", "'y' is not defined"));
}

#[test]
fn yield_values_are_checked() {
    assert_eq!(check("let x = 1; yield x;"), Ok(()));
    assert_eq!(check("yield y;"), err("ReferenceError", "'y' is not defined"));
}
