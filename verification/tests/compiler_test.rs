use tails::compiler::type_checker::Type;
use tails::compiler::Compiler;

fn code(c: &Compiler, src: &str) -> Result<String, (String, String)> {
    c.compile(src)
        .map(|m| format!("{:?}", m.instructions))
        .map_err(|e| (e.kind_name().to_string(), e.message().to_string()))
}

#[test]
fn empty_source_compiles_to_undefined() {
    assert_eq!(code(&Compiler::new(true), ""), Ok("[LoadUndefined]".to_string()));
    assert_eq!(code(&Compiler::new(false), "  // nothing\n"), Ok("[LoadUndefined]".to_string()));
}

#[test]
fn type_check_only_when_on() {
    let checked = Compiler::new(true);
    let unchecked = Compiler::new(false);
    assert_eq!(code(&checked, "y;").unwrap_err().0, "ReferenceError");
    assert!(code(&unchecked, "y;").is_ok());
}

#[test]
fn known_globals_are_defined() {
    let mut c = Compiler::with_globals(true, vec![("console".to_string(), Type::Any)]);
    assert!(code(&c, "console;").is_ok());
    assert_eq!(code(&c, "print;").unwrap_err().0, "ReferenceError");
    c.add_global("print".to_string(), Type::Any);
    assert!(code(&c, "print; console;").is_ok());
    c.set_known_globals(Vec::new());
    assert_eq!(code(&c, "console;").unwrap_err().0, "ReferenceError");
}

#[test]
fn lexer_and_parser_errors_pass_through() {
    let c = Compiler::new(true);
    assert_eq!(code(&c, "let = ;").unwrap_err().0, "ParseError");
    assert_eq!(code(&c, "\"open").unwrap_err().0, "ParseError");
}

#[test]
fn number_statements_compile() {
    let c = Compiler::new(true);
    assert_eq!(code(&c, "1; 2.5; 3;"), Ok("[LoadConst(0), Pop, LoadConst(1), Pop, LoadConst(2)]".to_string()));
    assert_eq!(code(&c, "let x: number = 'a';").unwrap_err().0, "TypeError");
    assert_eq!(code(&Compiler::new(false), "let x: number = 'a';").is_ok(), true);
}
