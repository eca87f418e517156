use tails::compiler::bytecode::generate::{generate, Constant};
use tails::compiler::lexer::tokenize;
use tails::compiler::parser::{parse, AstNode, BinaryOperator, Expression, Statement};

fn compile(src: &str) -> (String, Vec<Constant>) {
    let ast = parse(&tokenize(src).expect("tokenize")).expect("parse");
    let m = generate(&ast).expect("generate");
    (format!("{:?}", m.instructions), m.constants)
}

fn compile_err(src: &str) -> (String, String) {
    let ast = parse(&tokenize(src).expect("tokenize")).expect("parse");
    match generate(&ast) {
        Ok(m) => panic!("expected an error, got {:?}", m.instructions),
        Err(e) => (e.kind_name().to_string(), e.message().to_string()),
    }
}

fn num(s: &str) -> Constant {
    Constant::Number(s.to_string())
}

#[test]
fn empty_program_loads_undefined() {
    assert_eq!(compile("").0, "[LoadUndefined]");
}

#[test]
fn arithmetic_and_constants() {
    let (code, consts) = compile("1 + 2 * 3;");
    assert_eq!(code, "[LoadConst(0), LoadConst(1), LoadConst(2), Mul, Add]");
    assert_eq!(consts, vec![num("1"), num("2"), num("3")]);
}

#[test]
fn globals_and_statement_values() {
    let (code, _) = compile("let x = 1; x;");
    assert_eq!(code, "[LoadConst(0), StoreGlobal(\"x\"), LoadGlobal(\"x\")]");
    let (code2, _) = compile("x; y;");
    assert_eq!(code2, "[LoadGlobal(\"x\"), Pop, LoadGlobal(\"y\")]");
    let (code3, _) = compile("let v;");
    assert_eq!(code3, "[LoadUndefined, StoreGlobal(\"v\")]");
}

#[test]
fn block_locals_are_popped() {
    let (code, _) = compile("{ let a = 1; a; }");
    assert_eq!(code, "[LoadConst(0), StoreLocal(0), LoadLocal(0), Pop, Pop]");
}

#[test]
fn if_else_jumps() {
    let (code, _) = compile("if (x) 1; else 2;");
    assert_eq!(code, "[LoadGlobal(\"x\"), JumpIfNot(5), LoadConst(0), Pop, Jump(7), LoadConst(1), Pop]");
    let (code2, _) = compile("if (x) 1;");
    assert_eq!(code2, "[LoadGlobal(\"x\"), JumpIfNot(4), LoadConst(0), Pop]");
}

#[test]
fn while_loop_jumps_back() {
    let (code, _) = compile("while (x) x = 0;");
    assert_eq!(code, "[LoadGlobal(\"x\"), JumpIfNot(7), LoadConst(0), Dup, StoreGlobal(\"x\"), Pop, Jump(0)]");
}

#[test]
fn function_declaration() {
    let ast = parse(&tokenize("function f(a) { return a; }").unwrap()).unwrap();
    let m = generate(&ast).unwrap();
    assert_eq!(
        format!("{:?}", m.instructions),
        "[Jump(5), LoadLocal(0), Return, LoadUndefined, Return, MakeFunction(0), StoreGlobal(\"f\")]"
    );
    assert_eq!(m.functions.len(), 1);
    assert_eq!(m.functions[0].name.as_deref(), Some("f"));
    assert_eq!(m.functions[0].bytecode_index, 1);
    assert_eq!(m.functions[0].param_count, 1);
    assert_eq!(m.source_lines.len(), m.instructions.len());
}

#[test]
fn calls_members_unary() {
    let (code, consts) = compile("f(1, 2); o.p; o[k]; -x; !y; typeof z;");
    assert_eq!(
        code,
        "[LoadConst(0), LoadConst(1), LoadGlobal(\"f\"), Call(2), Pop, LoadGlobal(\"o\"), LoadConst(2), GetProperty, Pop, LoadGlobal(\"o\"), LoadGlobal(\"k\"), GetProperty, Pop, LoadGlobal(\"x\"), Negate, Pop, LoadGlobal(\"y\"), Not, Pop, TypeOfGlobal(\"z\")]"
    );
    assert_eq!(consts[2], Constant::String("p".to_string()));
}

#[test]
fn function_expression_and_locals() {
    let (code, _) = compile("let g = function (a, b) { let c = a; return c; };");
    assert_eq!(
        code,
        "[Jump(7), LoadLocal(0), StoreLocal(2), LoadLocal(2), Return, LoadUndefined, Return, MakeFunction(0), StoreGlobal(\"g\")]"
    );
}

#[test]
fn unsupported_constructs() {
    assert_eq!(compile_err("class A {}"), ("InternalError".to_string(), "Unsupported statement".to_string()));
    assert_eq!(compile_err("let c = class A {};"), ("InternalError".to_string(), "Unsupported expression".to_string()));
    assert_eq!(compile_err("1 = 2;"), ("RuntimeError".to_string(), "Invalid assignment target".to_string()));
    let e = generate(&AstNode::Expression(Expression::NullLiteral)).unwrap_err();
    assert_eq!(e.message(), "Invalid AST node");
}

#[test]
fn short_circuit_operators() {
    let (code, _) = compile("false && true;");
    assert_eq!(code, "[LoadFalse, Dup, JumpIfNot(6), Pop, LoadTrue, Jump(6)]");
    let (code, _) = compile("a || b;");
    assert_eq!(code, "[LoadGlobal(\"a\"), Dup, JumpIf(6), Pop, LoadGlobal(\"b\"), Jump(6)]");
    let e = Expression::BinaryOp {
        op: BinaryOperator::NullishCoalescing,
        left: Box::new(Expression::Identifier("a".to_string())),
        right: Box::new(Expression::Identifier("b".to_string())),
    };
    let m = generate(&AstNode::Program(vec![Statement::Expression(e)])).unwrap();
    assert_eq!(
        format!("{:?}", m.instructions),
        "[LoadGlobal(\"a\"), JumpIfNotUndefined(5), Pop, LoadGlobal(\"b\"), Jump(5)]"
    );
}

#[test]
fn assignments_leave_their_value() {
    let (code, _) = compile("x = 1;");
    assert_eq!(code, "[LoadConst(0), Dup, StoreGlobal(\"x\")]");
    let (code, _) = compile("x += 2;");
    assert_eq!(code, "[LoadGlobal(\"x\"), LoadConst(0), Add, Dup, StoreGlobal(\"x\")]");
    let (code, _) = compile("o.p = 1;");
    assert_eq!(code, "[LoadGlobal(\"o\"), LoadConst(0), LoadConst(1), SetProperty]");
    let (code, _) = compile("o.p -= 1;");
    assert_eq!(
        code,
        "[LoadGlobal(\"o\"), LoadConst(0), GetProperty, LoadConst(1), Sub, Dup, LoadGlobal(\"o\"), LoadConst(2), Rot3Right, SetProperty, Pop]"
    );
}

#[test]
fn update_expressions() {
    let (code, consts) = compile("++x;");
    assert_eq!(code, "[LoadGlobal(\"x\"), LoadConst(0), Add, Dup, StoreGlobal(\"x\")]");
    assert_eq!(consts[0], num("1"));
    let (code, _) = compile("x--;");
    assert_eq!(code, "[LoadGlobal(\"x\"), LoadGlobal(\"x\"), LoadConst(0), Sub, StoreGlobal(\"x\")]");
    let (code, _) = compile("o.n++;");
    assert_eq!(
        code,
        "[LoadGlobal(\"o\"), LoadConst(0), GetProperty, Dup, LoadConst(1), Add, LoadGlobal(\"o\"), LoadConst(2), Rot3Right, SetProperty, Pop]"
    );
}

#[test]
fn delete_void_and_bitnot() {
    let (code, _) = compile("delete o.p; delete x; void 0; ~x;");
    assert_eq!(
        code,
        "[LoadGlobal(\"o\"), LoadConst(0), Delete, Pop, LoadGlobal(\"x\"), Pop, LoadTrue, Pop, LoadConst(1), Void, Pop, LoadGlobal(\"x\"), BitNot]"
    );
}

#[test]
fn loops_with_break_and_continue() {
    let (code, _) = compile("while (x) break;");
    assert_eq!(code, "[LoadGlobal(\"x\"), JumpIfNot(4), Jump(4), Jump(0)]");
    let (code, _) = compile("do { x; } while (y);");
    assert_eq!(code, "[LoadGlobal(\"x\"), Pop, LoadGlobal(\"y\"), JumpIfNot(5), Jump(0)]");
    let (code, _) = compile("for (let i = 0; i < 3; i++) { continue; }");
    assert_eq!(
        code,
        "[LoadConst(0), StoreLocal(0), Jump(10), Jump(4), LoadLocal(0), LoadLocal(0), LoadConst(1), Add, StoreLocal(0), Pop, LoadLocal(0), LoadConst(2), Less, JumpIfNot(15), Jump(3), Pop]"
    );
    let (code, _) = compile("break;");
    assert_eq!(code, "[LoadUndefined, Return]");
}

#[test]
fn switch_cases_and_throw() {
    let (code, consts) = compile("switch (k) { case 1: a; break; default: b; }");
    assert_eq!(
        code,
        "[LoadGlobal(\"k\"), StoreLocal(0), LoadLocal(0), LoadConst(0), StrictEq, JumpIf(8), Jump(11), Jump(13), LoadGlobal(\"a\"), Pop, Jump(13), LoadGlobal(\"b\"), Pop, Pop]"
    );
    assert_eq!(consts, vec![num("1")]);
    let (code, _) = compile("switch (k) { }");
    assert_eq!(code, "[LoadGlobal(\"k\"), StoreLocal(0), Jump(3), Pop]");
    let (code, _) = compile("throw e;");
    assert_eq!(code, "[LoadGlobal(\"e\"), Throw]");
}

#[test]
fn try_catch_finally() {
    let (code, _) = compile("try { a; } catch (e) { b; } finally { c; }");
    assert_eq!(
        code,
        "[TryJump(5, 9), LoadGlobal(\"a\"), Pop, PopTryHandler, Jump(9), LoadException, StoreLocal(0), LoadGlobal(\"b\"), Pop, LoadGlobal(\"c\"), Pop, Pop]"
    );
    let (code, _) = compile("try { a; } finally { c; }");
    assert_eq!(code, "[TryJump(0, 4), LoadGlobal(\"a\"), Pop, PopTryHandler, LoadGlobal(\"c\"), Pop, ReThrowIfPending]");
    let (code, _) = compile("try { } catch (e) { e; }");
    assert_eq!(code, "[TryJump(3, 6), PopTryHandler, Jump(6), LoadException, StoreLocal(0), LoadLocal(0), Pop]");
}

#[test]
fn conditional_new_array_and_object() {
    let (code, _) = compile("c ? 1 : 2;");
    assert_eq!(code, "[LoadGlobal(\"c\"), JumpIfNot(4), LoadConst(0), Jump(5), LoadConst(1)]");
    let (code, _) = compile("new F(1, 2);");
    assert_eq!(code, "[LoadGlobal(\"F\"), LoadConst(0), LoadConst(1), Construct(2)]");
    let (code, consts) = compile("[1, 2];");
    assert_eq!(code, "[LoadConst(0), LoadConst(1), NewArray(2)]");
    assert_eq!(consts, vec![num("2"), num("1")]);
    let (code, consts) = compile("x = {a: 1};");
    assert_eq!(code, "[NewObject, LoadConst(0), LoadConst(1), SetProperty, Dup, StoreGlobal(\"x\")]");
    assert_eq!(consts, vec![Constant::String("a".to_string()), num("1")]);
}

#[test]
fn method_calls_keep_their_receiver() {
    let (code, consts) = compile("o.m(1);");
    assert_eq!(code, "[LoadGlobal(\"o\"), LoadConst(0), LoadConst(1), CallMethod(1)]");
    assert_eq!(consts, vec![Constant::String("m".to_string()), num("1")]);
    let (code, _) = compile("f(1);");
    assert_eq!(code, "[LoadConst(0), LoadGlobal(\"f\"), Call(1)]");
    let (code, _) = compile("this;");
    assert_eq!(code, "[LoadThis]");
}

#[test]
fn for_in_and_for_of_loops() {
    let (code, consts) = compile("for (k in o) k;");
    assert_eq!(
        code,
        "[LoadGlobal(\"o\"), GetKeys, StoreLocal(1), LoadConst(0), StoreLocal(2), LoadLocal(1), LoadConst(1), GetProperty, StoreLocal(3), LoadLocal(2), LoadLocal(3), Less, JumpIfNot(24), LoadLocal(1), LoadLocal(2), GetProperty, StoreLocal(0), LoadLocal(0), Pop, LoadLocal(2), LoadConst(2), Add, StoreLocal(2), Jump(9), Pop]"
    );
    assert_eq!(consts, vec![num("0"), Constant::String("length".to_string()), num("1")]);
    let (code, _) = compile("for (v of a) v;");
    assert_eq!(
        code,
        "[LoadUndefined, LoadGlobal(\"a\"), GetIterator, StoreLocal(1), LoadLocal(1), IteratorNext(10), StoreLocal(0), LoadLocal(0), Pop, Jump(4), Pop]"
    );
}

#[test]
fn template_literals() {
    let (code, consts) = compile("`a${x}b${y}`;");
    assert_eq!(
        code,
        "[LoadConst(0), LoadGlobal(\"x\"), ToString, Add, LoadConst(1), Add, LoadGlobal(\"y\"), ToString, Add]"
    );
    assert_eq!(consts, vec![Constant::String("a".to_string()), Constant::String("b".to_string())]);
    let (code, _) = compile("`${x}`;");
    assert_eq!(code, "[LoadGlobal(\"x\"), ToString]");
    let (code, consts) = compile("`hi`;");
    assert_eq!(code, "[LoadConst(0)]");
    assert_eq!(consts, vec![Constant::String("hi".to_string())]);
}

#[test]
fn await_and_super() {
    assert_eq!(compile("await p;").0, "[LoadGlobal(\"p\"), Await]");
    let (code, consts) = compile("super(1);");
    assert_eq!(code, "[LoadThis, LoadConst(0), SuperConstruct(1)]");
    assert_eq!(consts, vec![num("1")]);
    let (code, consts) = compile("super.m;");
    assert_eq!(code, "[LoadThis, LoadConst(0), SuperGet]");
    assert_eq!(consts, vec![Constant::String("m".to_string())]);
}

#[test]
fn arrow_functions() {
    let ast = parse(&tokenize("let f = (x) => x + 1;").unwrap()).unwrap();
    let m = generate(&ast).unwrap();
    assert_eq!(
        format!("{:?}", m.instructions),
        "[Jump(5), LoadLocal(0), LoadConst(0), Add, Return, MakeFunction(0), StoreGlobal(\"f\")]"
    );
    assert_eq!(m.functions.len(), 1);
    assert_eq!(m.functions[0].name, None);
    assert_eq!(m.functions[0].bytecode_index, 1);
    assert_eq!(m.functions[0].param_count, 1);
    let (code, _) = compile("let h = (a, b) => { return b; };");
    assert_eq!(code, "[Jump(5), LoadLocal(1), Return, LoadUndefined, Return, MakeFunction(0), StoreGlobal(\"h\")]");
}

#[test]
fn type_assertions_leave_the_value() {
    assert_eq!(compile("x as number;").0, "[LoadGlobal(\"x\")]");
}

#[test]
fn arrays_with_spread_are_built_in_order() {
    let (code, consts) = compile("[1, ...a];");
    assert_eq!(code, "[NewArray(0), Dup, LoadConst(0), ArrayPush, Dup, LoadGlobal(\"a\"), SpreadArray]");
    assert_eq!(consts, vec![num("1")]);
    assert_eq!(compile("[1, 2];").0, "[LoadConst(0), LoadConst(1), NewArray(2)]");
}

#[test]
fn yield_hands_out_a_value() {
    let (code, consts) = compile("yield 1;");
    assert_eq!(code, "[LoadConst(0), Yield]");
    assert_eq!(consts, vec![num("1")]);
    assert_eq!(compile("yield;").0, "[LoadUndefined, Yield]");
}

#[test]
fn optional_member_skips_undefined() {
    let (code, consts) = compile("a?.b;");
    assert_eq!(
        code,
        "[LoadGlobal(\"a\"), Dup, JumpIfUndefined(6), LoadConst(0), GetProperty, Jump(8), Pop, LoadUndefined]"
    );
    assert_eq!(consts, vec![Constant::String("b".to_string())]);
}
