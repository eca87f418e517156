use tails::compiler::lexer::tokenize;
use tails::compiler::parser::{parse, AstNode, Expression, Statement};

fn program(src: &str) -> Vec<Statement> {
    let tokens = tokenize(src).expect("tokenize");
    match parse(&tokens).expect("parse") {
        AstNode::Program(stmts) => stmts,
        other => panic!("not a program: {:?}", other),
    }
}

fn parse_err(src: &str) -> String {
    let tokens = tokenize(src).expect("tokenize");
    match parse(&tokens) {
        Ok(ast) => panic!("expected an error, got {:?}", ast),
        Err(e) => {
            assert_eq!(e.kind_name(), "ParseError");
            e.message().to_string()
        }
    }
}

fn dbg<T: std::fmt::Debug>(v: &T) -> String {
    format!("{:?}", v)
}

#[test]
fn empty_programs() {
    assert!(program("").is_empty());
    assert!(program("// nothing\n").is_empty());
    match parse(&[]) {
        Ok(AstNode::Program(s)) => assert!(s.is_empty()),
        _ => panic!("expected an empty program"),
    }
}

#[test]
fn precedence_of_binary_operators() {
    let s = program("1 + 2 * 3;");
    assert_eq!(s.len(), 1);
    assert_eq!(
        dbg(&s[0]),
        "Expression(BinaryOp { op: Add, left: NumberLiteral(\"1\"), right: BinaryOp { op: Mul, left: NumberLiteral(\"2\"), right: NumberLiteral(\"3\") } })"
    );
    let t = program("a || b && c");
    assert_eq!(
        dbg(&t[0]),
        "Expression(BinaryOp { op: Or, left: Identifier(\"a\"), right: BinaryOp { op: And, left: Identifier(\"b\"), right: Identifier(\"c\") } })"
    );
}

#[test]
fn left_associative_and_assignment_right_associative() {
    let s = program("a - b - c; x = y = 1;");
    assert_eq!(
        dbg(&s[0]),
        "Expression(BinaryOp { op: Sub, left: BinaryOp { op: Sub, left: Identifier(\"a\"), right: Identifier(\"b\") }, right: Identifier(\"c\") })"
    );
    assert_eq!(
        dbg(&s[1]),
        "Expression(Assignment { target: Identifier(\"x\"), value: Assignment { target: Identifier(\"y\"), value: NumberLiteral(\"1\"), op: None }, op: None })"
    );
}

#[test]
fn declarations_and_literals() {
    let s = program("const a = true, b; let s = 'x';");
    assert_eq!(
        dbg(&s[0]),
        "VariableDeclaration { kind: Const, declarations: [VariableDeclarator { id: \"a\", type_annotation: None, init: Some(BooleanLiteral(true)) }, VariableDeclarator { id: \"b\", type_annotation: None, init: None }] }"
    );
    assert!(matches!(&s[1], Statement::VariableDeclaration { .. }));
}

#[test]
fn functions_and_control_flow() {
    let s = program("function f(a, b) { if (a) { return b; } else return; } while (x) x--;");
    match &s[0] {
        Statement::FunctionDeclaration { name, params, body, is_async } => {
            assert_eq!(name, "f");
            assert_eq!(params, &vec!["a".to_string(), "b".to_string()]);
            assert_eq!(body.len(), 1);
            assert!(!is_async);
            assert!(matches!(&body[0], Statement::IfStatement { alternate: Some(_), .. }));
        }
        other => panic!("{:?}", other),
    }
    assert!(matches!(&s[1], Statement::WhileStatement { .. }));
}

#[test]
fn arrow_functions_and_calls() {
    let s = program("const f = (a, b) => a + b; g(1, 2).h[0];");
    assert!(dbg(&s[0]).contains("ArrowFunction { params: [\"a\", \"b\"], body: Expression(BinaryOp"));
    assert_eq!(
        dbg(&s[1]),
        "Expression(Member { object: Member { object: Call { callee: Identifier(\"g\"), args: [NumberLiteral(\"1\"), NumberLiteral(\"2\")] }, property: Identifier(\"h\"), computed: false }, property: NumberLiteral(\"0\"), computed: true })"
    );
    let t = program("x => x * 2;");
    assert!(dbg(&t[0]).starts_with("Expression(ArrowFunction { params: [\"x\"]"));
    let u = program("(a) + 1;");
    assert!(dbg(&u[0]).starts_with("Expression(BinaryOp { op: Add, left: Identifier(\"a\")"));
}

#[test]
fn objects_arrays_templates() {
    let s = program("let o = { a: 1, 'b': [2, 3,], if: x }; `x${y}z`;");
    assert!(dbg(&s[0]).contains("ObjectLiteral { properties: [(\"a\", NumberLiteral(\"1\")), (\"b\", ArrayLiteral { elements: [NumberLiteral(\"2\"), NumberLiteral(\"3\")] }), (\"if\", Identifier(\"x\"))] }"));
    assert_eq!(
        dbg(&s[1]),
        "Expression(TemplateLiteral { quasis: [\"x\", \"z\"], expressions: [Identifier(\"y\")] })"
    );
}

#[test]
fn template_expressions_end_at_their_last_token() {
    assert_eq!(parse_err("`${a +}`"), "Unexpected token Eof");
    assert_eq!(parse_err("`${-}`"), "Unexpected token Eof");
    assert_eq!(parse_err("`${}`"), "Unexpected token Eof");
}

#[test]
fn classes_imports_exports() {
    let s = program("class A extends B { constructor(x) { this.x = x; } static get y() { return 1; } m() {} z; }");
    match &s[0] {
        Statement::ClassDeclaration { name, superclass, body } => {
            assert_eq!(name, "A");
            assert!(superclass.is_some());
            assert_eq!(body.len(), 4);
        }
        other => panic!("{:?}", other),
    }
    let i = program("import { a as b, c } from './m'; import * as ns from \"x\"; import d from 'y'; import './side';");
    assert_eq!(
        dbg(&i[0]),
        "ImportDeclaration { specifiers: [ImportSpecifier { local: \"b\", imported: Some(\"a\") }, ImportSpecifier { local: \"c\", imported: Some(\"c\") }], source: \"./m\" }"
    );
    assert!(dbg(&i[1]).contains("local: \"ns\", imported: None"));
    assert!(dbg(&i[3]).contains("specifiers: [], source: \"./side\""));
    let e = program("export default 1; export { a, b } from 'm'; export const c = 2;");
    assert!(matches!(&e[0], Statement::ExportDefaultDeclaration { .. }));
    assert!(dbg(&e[1]).contains("Expression(UndefinedLiteral)"));
    assert!(matches!(&e[2], Statement::ExportDeclaration { .. }));
}

#[test]
fn loops_switch_try() {
    let s = program("for (let i = 0; i < 3; i++) {} for (k in o) {} for (const v of a) {} for (;;) break; do x(); while (y);");
    assert!(matches!(&s[0], Statement::ForStatement { init: Some(_), condition: Some(_), update: Some(_), .. }));
    assert!(matches!(&s[1], Statement::ForInStatement { .. }));
    assert!(matches!(&s[2], Statement::ForOfStatement { .. }));
    assert!(matches!(&s[3], Statement::ForStatement { init: None, condition: None, update: None, .. }));
    assert!(matches!(&s[4], Statement::DoWhileStatement { .. }));
    let t = program("switch (x) { case 1: a(); break; default: b(); } try { f(); } catch (e) { g(); } finally { h(); } throw err;");
    match &t[0] {
        Statement::SwitchStatement { cases, .. } => {
            assert_eq!(cases.len(), 2);
            assert_eq!(cases[0].consequent.len(), 2);
            assert!(cases[1].test.is_none());
        }
        other => panic!("{:?}", other),
    }
    assert!(matches!(&t[1], Statement::TryStatement { handler: Some(_), finalizer: Some(_), .. }));
    assert!(matches!(&t[2], Statement::ThrowStatement(_)));
}

#[test]
fn unary_update_new_super() {
    let s = program("-a; !b; typeof c; ++d; e--; new F(1); new A.B; await p;");
    assert!(dbg(&s[0]).contains("UnaryOp { op: Negate"));
    assert!(dbg(&s[3]).contains("prefix: true"));
    assert!(dbg(&s[4]).contains("prefix: false"));
    assert!(dbg(&s[5]).starts_with("Expression(NewExpression { callee: Identifier(\"F\"), args: [NumberLiteral(\"1\")] })"));
    assert!(dbg(&s[6]).contains("NewExpression { callee: Member { object: Identifier(\"A\"), property: Identifier(\"B\"), computed: false }, args: [] }"));
    assert!(matches!(&s[7], Statement::Expression(Expression::AwaitExpression { .. })));
}

#[test]
fn parse_errors() {
    assert_eq!(parse_err("let = 1;"), "Expected identifier, got Assign");
    assert_eq!(parse_err("let x = 1"), "Expected Semicolon, got Eof");
    assert_eq!(parse_err(")"), "Unexpected token RightParen");
    assert_eq!(parse_err("()"), "Unexpected )");
    assert_eq!(parse_err("break"), "Expected Semicolon, got Eof");
    assert_eq!(parse_err("super;"), "Expected '.' or '(' after 'super'");
    assert_eq!(parse_err("(a + b) => 1"), "Invalid arrow function parameter");
    assert_eq!(parse_err("async (a) 1"), "Expected '=>' after async parameters");
    assert_eq!(parse_err("new 1"), "Expected identifier after 'new', got Number(1.0)");
    assert_eq!(parse_err("({ +: 1 })"), "Expected property key, got Plus");
    assert_eq!(parse_err("export { a"), "Expected RightBrace, got Eof");
    assert_eq!(parse_err("new F(1).g"), "Unexpected token Dot");
}

#[test]
fn token_texts_in_errors() {
    assert_eq!(parse_err("new set"), "Expected identifier after 'new', got Set");
    assert_eq!(parse_err("new 1.5"), "Expected identifier after 'new', got Number(1.5)");
    assert_eq!(parse_err("new \"a\\\"b\""), "Expected identifier after 'new', got String(\"a\\\"b\")");
}

#[test]
fn type_annotations_in_declarations() {
    let s = program("let a: number = 1; let b: string | Foo[] = 'x'; let c: Map<string, [number, 'k']>; let d: (boolean) & void;");
    assert_eq!(
        dbg(&s[0]),
        "VariableDeclaration { kind: Let, declarations: [VariableDeclarator { id: \"a\", type_annotation: Some(Number), init: Some(NumberLiteral(\"1\")) }] }"
    );
    assert_eq!(
        dbg(&s[1]),
        "VariableDeclaration { kind: Let, declarations: [VariableDeclarator { id: \"b\", type_annotation: Some(Union([String, Array(Named(\"Foo\"))])), init: Some(StringLiteral(\"x\")) }] }"
    );
    assert_eq!(
        dbg(&s[2]),
        "VariableDeclaration { kind: Let, declarations: [VariableDeclarator { id: \"c\", type_annotation: Some(Generic { name: \"Map\", args: [String, Tuple([Number, Literal(String(\"k\"))])] }), init: None }] }"
    );
    assert_eq!(
        dbg(&s[3]),
        "VariableDeclaration { kind: Let, declarations: [VariableDeclarator { id: \"d\", type_annotation: Some(Intersection([Boolean, Void])), init: None }] }"
    );
}

#[test]
fn empty_brackets_and_unknown_type_starts() {
    let s = program("let a: [] = 1; let b: 42 = 42;");
    assert!(dbg(&s[0]).contains("type_annotation: Some(Array(Any))"));
    assert!(dbg(&s[1]).contains("type_annotation: Some(Literal(Number(\"42\")))"));
    assert_eq!(parse_err("let a: number[ = 1;"), "Expected RightBracket, got Assign");
}

#[test]
fn number_lines_and_simple_forms() {
    let s = program("1; 22; 7;");
    assert_eq!(s.len(), 3);
    assert_eq!(dbg(&s[1]), "Expression(NumberLiteral(\"22\"))");
    assert_eq!(dbg(&s[2]), "Expression(NumberLiteral(\"7\"))");
    let s = program("import 'm'; import a from 'b'; import * as ns from 'c'; for (;;) break; this; [];");
    assert_eq!(dbg(&s[0]), "ImportDeclaration { specifiers: [], source: \"m\" }");
    assert_eq!(
        dbg(&s[1]),
        "ImportDeclaration { specifiers: [ImportSpecifier { local: \"a\", imported: Some(\"a\") }], source: \"b\" }"
    );
    assert_eq!(
        dbg(&s[2]),
        "ImportDeclaration { specifiers: [ImportSpecifier { local: \"ns\", imported: None }], source: \"c\" }"
    );
    assert!(dbg(&s[3]).starts_with("ForStatement { init: None, condition: None, update: None, body: BreakStatement"));
    assert_eq!(dbg(&s[4]), "Expression(Identifier(\"this\"))");
    assert_eq!(dbg(&s[5]), "Expression(ArrayLiteral { elements: [] })");
    assert_eq!(parse_err("for x"), "Expected LeftParen, got Identifier(\"x\")");
    assert_eq!(parse_err("* 1;"), "Unexpected token Star");
}

#[test]
fn class_member_flags_and_import_lists() {
    let s = program("class A { static m() {} async n() {} static async o() {} p; }");
    let d = dbg(&s[0]);
    assert!(d.contains("Method { name: \"m\", params: [], body: [], is_static: true, is_async: false }"));
    assert!(d.contains("Method { name: \"n\", params: [], body: [], is_static: false, is_async: true }"));
    assert!(d.contains("Method { name: \"o\", params: [], body: [], is_static: true, is_async: true }"));
    assert!(d.contains("Property { name: \"p\", is_static: false }"));
    let s = program("import { a as b, c } from 'm';");
    assert_eq!(
        dbg(&s[0]),
        "ImportDeclaration { specifiers: [ImportSpecifier { local: \"b\", imported: Some(\"a\") }, ImportSpecifier { local: \"c\", imported: Some(\"c\") }], source: \"m\" }"
    );
    let s = program("for (;;) break; do continue; while (x);");
    assert!(dbg(&s[0]).starts_with("ForStatement { init: None, condition: None, update: None, body: BreakStatement"));
}

#[test]
fn object_type_annotations() {
    let s = program("let a: { x: number, y?: string[] }; let b: {};");
    assert!(dbg(&s[0]).contains("type_annotation: Some(Object([(\"x\", Number, false), (\"y\", Array(String), true)]))"));
    assert!(dbg(&s[1]).contains("type_annotation: Some(Object([]))"));
}

#[test]
fn type_assertions_and_postfix_chains() {
    let stmts = program("x as number;");
    match &stmts[0] {
        Statement::Expression(Expression::TypeAssertion { expression, type_annotation }) => {
            assert_eq!(dbg(expression.as_ref()), "Identifier(\"x\")");
            assert_eq!(dbg(type_annotation), "Number");
        }
        other => panic!("unexpected {:?}", other),
    }
    let stmts = program("i++ as any;");
    match &stmts[0] {
        Statement::Expression(Expression::TypeAssertion { expression, .. }) => {
            assert!(matches!(expression.as_ref(), Expression::UpdateExpression { prefix: false, .. }));
        }
        other => panic!("unexpected {:?}", other),
    }
    assert_eq!(
        dbg(&program("1 - 2;")[0]),
        "Expression(BinaryOp { op: Sub, left: NumberLiteral(\"1\"), right: NumberLiteral(\"2\") })"
    );
}

#[test]
fn spread_in_array_literals() {
    assert_eq!(
        dbg(&program("[1, ...a];")[0]),
        "Expression(ArrayLiteral { elements: [NumberLiteral(\"1\"), SpreadElement { argument: Identifier(\"a\") }] })"
    );
}

#[test]
fn yield_statements() {
    assert_eq!(dbg(&program("yield 1;")[0]), "YieldStatement(Some(NumberLiteral(\"1\")))");
    assert_eq!(dbg(&program("yield;")[0]), "YieldStatement(None)");
    assert_eq!(parse_err("yield 1"), parse_err("return 1"));
}

#[test]
fn optional_chaining() {
    assert_eq!(
        dbg(&program("a?.b;")[0]),
        "Expression(OptionalMember { object: Identifier(\"a\"), property: Identifier(\"b\"), computed: false })"
    );
    assert_eq!(
        dbg(&program("a?.[0];")[0]),
        "Expression(OptionalMember { object: Identifier(\"a\"), property: NumberLiteral(\"0\"), computed: true })"
    );
    assert_eq!(
        dbg(&program("f?.(1);")[0]),
        "Expression(OptionalCall { callee: Identifier(\"f\"), args: [NumberLiteral(\"1\")] })"
    );
}
