use tails::compiler::bytecode::CodeGenerator;
use tails::compiler::parser::BinaryOperator;
use tails::compiler::Instruction;
use tails::errors::Span;
use tails::ffi::native::NativeRegistry;

fn dbg<T: std::fmt::Debug>(v: &T) -> String {
    format!("{:?}", v)
}

#[test]
fn new_generator_is_empty() {
    let g: CodeGenerator<i64> = CodeGenerator::new();
    assert!(g.instructions.is_empty());
    assert!(g.constants.is_empty());
    assert_eq!(g.scope_depth, 0);
    assert_eq!(g.current_source_line, None);
}

#[test]
fn emit_records_source_positions() {
    let mut g: CodeGenerator<i64> = CodeGenerator::new();
    g.emit(Instruction::LoadNull);
    g.record_line_from_span(&Some(Span::new(3, 4, 10)));
    g.emit(Instruction::LoadTrue);
    g.record_line_from_span(&Some(Span::new(5, 0, 0)));
    g.emit(Instruction::LoadFalse);
    g.record_line_from_span(&Some(Span::new(0, 7, 0)));
    g.emit(Instruction::Pop);
    g.record_line_from_span(&None);
    assert_eq!(g.source_lines, vec![None, Some(3), Some(5), None]);
    assert_eq!(g.source_cols, vec![None, Some(4), None, None]);
    assert_eq!(dbg(&g.instructions), "[LoadNull, LoadTrue, LoadFalse, Pop]");
}

#[test]
fn constants_get_consecutive_indices() {
    let mut g: CodeGenerator<String> = CodeGenerator::new();
    assert_eq!(g.add_constant("a".to_string()), 0);
    assert_eq!(g.add_constant("b".to_string()), 1);
    assert_eq!(g.constants, vec!["a".to_string(), "b".to_string()]);
}

#[test]
fn local_slots_and_resolution() {
    let mut g: CodeGenerator<i64> = CodeGenerator::new();
    g.captured_var_names = vec!["cap".to_string()];
    g.locals = vec!["outer".to_string(), "x".to_string(), "y".to_string(), "x".to_string()];
    g.local_start_idx = 1;
    assert_eq!(g.current_local_slot(), 4);
    assert_eq!(g.last_local_slot(), 3);
    assert_eq!(g.resolve_local("cap"), Some(0));
    assert_eq!(g.resolve_local("x"), Some(1));
    assert_eq!(g.resolve_local("y"), Some(2));
    assert_eq!(g.resolve_local("outer"), None);
    assert_eq!(g.resolve_local("nope"), None);
}

#[test]
fn patch_jump_changes_only_jumps() {
    let mut g: CodeGenerator<i64> = CodeGenerator::new();
    g.emit(Instruction::JumpIfNot(0));
    g.emit(Instruction::Add);
    g.emit(Instruction::Jump(0));
    g.patch_jump(0, 7);
    g.patch_jump(1, 9);
    g.patch_jump(2, 3);
    g.patch_jump(99, 1);
    assert_eq!(dbg(&g.instructions), "[JumpIfNot(7), Add, Jump(3)]");
}

#[test]
fn binary_operators_compile_to_instructions() {
    let mut g: CodeGenerator<i64> = CodeGenerator::new();
    for op in [BinaryOperator::Add, BinaryOperator::Instanceof, BinaryOperator::Comma, BinaryOperator::NullishCoalescing] {
        assert!(g.generate_binary_op(&op).is_ok());
    }
    assert_eq!(dbg(&g.instructions), "[Add, InstanceOf, Pop, NullishCoalescing]");
    assert_eq!(g.source_lines.len(), 4);
}

fn double(args: &[i64]) -> Result<i64, String> {
    args.first().map(|x| x * 2).ok_or_else(|| "no args".to_string())
}

fn sum(args: &[i64]) -> Result<i64, String> {
    Ok(args.iter().sum())
}

#[test]
fn native_registry_ids_and_calls() {
    let mut reg: NativeRegistry<fn(&[i64]) -> Result<i64, String>> = NativeRegistry::new();
    assert_eq!(reg.register(double), 0);
    assert_eq!(reg.register(sum), 1);
    assert!(reg.get(1).is_some());
    assert!(reg.get(2).is_none());
    assert_eq!(reg.call(0, &[21]), Ok(42));
    assert_eq!(reg.call(0, &[]), Err("no args".to_string()));
    assert_eq!(reg.call(1, &[1, 2, 3]), Ok(6));
    assert_eq!(reg.call(5, &[1]), Err("Function not found".to_string()));
}

#[test]
fn native_registry_default_is_empty() {
    let r: tails::ffi::native::NativeRegistry<fn(&[i32]) -> Result<i32, String>> = Default::default();
    assert!(r.get(0).is_none());
    assert_eq!(r.call(0, &[]), Err("Function not found".to_string()));
}
