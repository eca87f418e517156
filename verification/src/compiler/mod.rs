//! The compiler: lexer, bytecode generator and the compiled forms they produce.
use vstd::prelude::*;

pub mod bytecode;
pub mod lexer;
pub mod parser;
pub mod type_checker;

use vstd::string::*;
use crate::compiler::bytecode::generate::{
    compiled_as, gen_expr, gen_program, gen_stmt, gen_top, generate, GenState, initial_state, is_codegen_error, lemma_program_faults, Constant,
};
use crate::compiler::lexer::{is_lex_error, lemma_tokens_view_len, token_view, tokenize, tokenize_spec, tokens_view, SpannedToken, Tok};
use crate::errors::Span;
use crate::compiler::parser::{
    is_number_line, is_parse_failure, number_lines, number_statements, parse, tok_in, AstNode, Expression, Statement,
};
use crate::compiler::type_checker::{
    check_expr, check_stmt, check_stmts, clone_type, fault_of, scope_view, type_view, Fault, Scopes, Ty, Type, TypeChecker,
};
use crate::errors::Error;
use crate::text::{str_eq, utf8_len};

verus! {

/// The token at position `i` of a token list, the end of input past the last one.
pub open spec fn tok_of(ts: Seq<(Tok, Span)>, i: int) -> Tok {
    if 0 <= i < ts.len() {
        ts[i].0
    } else {
        Tok::Eof
    }
}

/// Line `j` of `ts` is a number and a semicolon.
pub open spec fn number_line_at(ts: Seq<(Tok, Span)>, j: int) -> bool {
    tok_of(ts, 2 * j) is Number && tok_of(ts, 2 * j + 1) is Semicolon
}

/// `ts` holds `k` lines of a number and a semicolon, and then ends.
pub open spec fn is_number_program(ts: Seq<(Tok, Span)>, k: int) -> bool {
    &&& 0 <= k
    &&& forall|j: int| 0 <= j < k ==> #[trigger] number_line_at(ts, j)
    &&& tok_of(ts, 2 * k) is Eof
}

/// `ss` holds one expression statement for each line of `ts`: the literal
/// of its number.
pub open spec fn number_program_statements(ss: Seq<Statement>, ts: Seq<(Tok, Span)>, k: int) -> bool {
    &&& ss.len() == k
    &&& forall|j: int| 0 <= j < k ==> (#[trigger] ss[j] matches Statement::Expression(Expression::NumberLiteral(x))
        && x@ == tok_of(ts, 2 * j)->Number_0)
}

proof fn lemma_tokens_view_index(ts: Seq<SpannedToken>)
    ensures
        forall|i: int| #[trigger] tok_in(ts, i) == tok_of(tokens_view(ts), i),
    decreases ts.len(),
{
    lemma_tokens_view_len(ts);
    if ts.len() > 0 {
        lemma_tokens_view_index(ts.drop_last());
        assert forall|i: int| #[trigger] tok_in(ts, i) == tok_of(tokens_view(ts), i) by {
            if 0 <= i < ts.len() - 1 {
                assert(tok_in(ts.drop_last(), i) == tok_of(tokens_view(ts.drop_last()), i));
                assert(ts.drop_last()[i] == ts[i]);
            }
        }
    }
}

/// Every statement of `ss` is an expression statement of a number literal.
pub open spec fn all_number_statements(ss: Seq<Statement>) -> bool {
    forall|j: int| 0 <= j < ss.len() ==> (#[trigger] ss[j] matches Statement::Expression(e) && e is NumberLiteral)
}

/// Statements that are number literals type-check and leave the scopes as
/// they were.
proof fn lemma_numbers_check(sc: Scopes, ss: Seq<Statement>, i: int)
    requires
        all_number_statements(ss),
    ensures
        check_stmts(sc, ss, i) == Ok::<Scopes, Fault>(sc),
    decreases ss.len() - i,
{
    if 0 <= i < ss.len() {
        assert(ss[i] matches Statement::Expression(e) && e is NumberLiteral);
        let e = ss[i]->Expression_0;
        assert(check_expr(sc, e) == Ok::<(Scopes, Ty), Fault>((sc, Ty::Number)));
        assert(check_stmt(sc, ss[i]) == Ok::<Scopes, Fault>(sc));
        lemma_numbers_check(sc, ss, i + 1);
    }
}

/// Statements that are number literals always generate.
proof fn lemma_numbers_generate(g: GenState, ss: Seq<Statement>, i: int)
    requires
        all_number_statements(ss),
    ensures
        gen_top(g, ss, i) is Ok,
    decreases ss.len() - i,
{
    if 0 <= i < ss.len() {
        assert(ss[i] matches Statement::Expression(e) && e is NumberLiteral);
        let e = ss[i]->Expression_0;
        assert(gen_expr(g, e) is Ok);
        assert(gen_stmt(g, ss[i], i + 1 == ss.len()) is Ok);
        let g1 = gen_top_step(g, ss, i);
        lemma_numbers_generate(g1, ss, i + 1);
    }
}

/// The state after generating statement `i` of `ss` at the top level.
spec fn gen_top_step(g: GenState, ss: Seq<Statement>, i: int) -> GenState {
    match gen_stmt(g, ss[i], i + 1 == ss.len()) {
        Ok(g1) => g1,
        Err(_) => g,
    }
}

/// Number programs read the same over the tokens and over their views.
proof fn lemma_number_program_view(tokens: Seq<SpannedToken>, k: int)
    ensures
        number_lines(tokens, 0, k) == is_number_program(tokens_view(tokens), k),
        forall|ss: Seq<Statement>| #[trigger] number_statements(ss, tokens, 0, k)
            == number_program_statements(ss, tokens_view(tokens), k),
{
    lemma_tokens_view_index(tokens);
    let tv = tokens_view(tokens);
    assert forall|j: int| #![trigger is_number_line(tokens, 0, j)] #![trigger number_line_at(tv, j)]
        is_number_line(tokens, 0, j) == number_line_at(tv, j) by {
        assert(tok_in(tokens, 0 + 2 * j) == tok_of(tv, 2 * j));
        assert(tok_in(tokens, 0 + 2 * j + 1) == tok_of(tv, 2 * j + 1));
    }
    assert(tok_in(tokens, 0 + 2 * k) == tok_of(tv, 2 * k));
    assert forall|ss: Seq<Statement>| #[trigger] number_statements(ss, tokens, 0, k)
        == number_program_statements(ss, tv, k) by {
    }
}

/// The globals after `name: t` is made known: an entry with that name takes
/// the new type in place, else the entry is added at the end.
pub open spec fn with_global(g: Seq<(Seq<char>, Ty)>, name: Seq<char>, t: Ty) -> Seq<(Seq<char>, Ty)> {
    if exists|i: int| 0 <= i < g.len() && (#[trigger] g[i]).0 == name {
        let i = choose|i: int| 0 <= i < g.len() && (#[trigger] g[i]).0 == name;
        g.update(i, (name, t))
    } else {
        g.push((name, t))
    }
}

/// The globals after each of `entries` is made known in turn.
pub open spec fn with_globals_all(g: Seq<(Seq<char>, Ty)>, entries: Seq<(Seq<char>, Ty)>) -> Seq<(Seq<char>, Ty)>
    decreases entries.len(),
{
    if entries.len() == 0 {
        g
    } else {
        with_global(with_globals_all(g, entries.drop_last()), entries.last().0, entries.last().1)
    }
}

/// No two globals share a name.
pub open spec fn distinct_names(g: Seq<(Seq<char>, Ty)>) -> bool {
    forall|i: int, j: int| 0 <= i < j < g.len() ==> (#[trigger] g[i]).0 != (#[trigger] g[j]).0
}

/// The compiler: source text to bytecode, with an optional type check in
/// which the known globals are declared.
pub struct Compiler {
    type_checking: bool,
    known_globals: Vec<(String, Type)>,
}

impl Compiler {
    /// Whether programs are type-checked before code is generated.
    pub closed spec fn checks_types(&self) -> bool {
        self.type_checking
    }

    /// The globals known to the type check, each name once.
    pub closed spec fn globals(&self) -> Seq<(Seq<char>, Ty)> {
        scope_view(self.known_globals@)
    }

    /// Each global's name occurs once.
    pub closed spec fn wf(&self) -> bool {
        distinct_names(self.globals())
    }

    /// A compiler with no known globals.
    pub fn new(type_checking: bool) -> (r: Self)
        ensures
            r.wf(),
            r.checks_types() == type_checking,
            r.globals() == Seq::<(Seq<char>, Ty)>::empty(),
    {
        let r = Compiler { type_checking, known_globals: Vec::new() };
        assert(r.globals() =~= Seq::<(Seq<char>, Ty)>::empty());
        r
    }

    /// A compiler that knows `known_globals` (a later entry for a name wins).
    pub fn with_globals(type_checking: bool, known_globals: Vec<(String, Type)>) -> (r: Self)
        ensures
            r.wf(),
            r.checks_types() == type_checking,
            r.globals() == with_globals_all(Seq::empty(), scope_view(known_globals@)),
    {
        let mut r = Compiler::new(type_checking);
        r.set_known_globals(known_globals);
        r
    }

    /// Makes `name: ty` known, in place of an earlier type for `name`.
    pub fn add_global(&mut self, name: String, ty: Type)
        requires
            old(self).wf(),
        ensures
            final(self).wf(),
            final(self).checks_types() == old(self).checks_types(),
            final(self).globals() == with_global(old(self).globals(), name@, type_view(ty)),
    {
        let ghost g = self.globals();
        let ghost t = type_view(ty);
        let mut i: usize = 0;
        while i < self.known_globals.len()
            invariant
                i <= self.known_globals@.len(),
                self.known_globals@ == old(self).known_globals@,
                self.type_checking == old(self).type_checking,
                g == scope_view(self.known_globals@),
                distinct_names(g),
                t == type_view(ty),
                forall|j: int| 0 <= j < i ==> (#[trigger] g[j]).0 != name@,
            decreases self.known_globals@.len() - i,
        {
            if str_eq(self.known_globals[i].0.as_str(), name.as_str()) {
                assert(g[i as int].0 == name@);
                assert forall|j: int| 0 <= j < g.len() && (#[trigger] g[j]).0 == name@ implies j == i by {
                    if j != i {
                        assert(distinct_names(g));
                    }
                }
                let ghost before = self.known_globals@;
                self.known_globals.set(i, (name, ty));
                assert(self.known_globals@ == before.update(i as int, (name, ty)));
                assert(self.globals() =~= g.update(i as int, (name@, t)));
                assert(self.wf()) by {
                    let h = self.globals();
                    assert forall|a: int, b: int| 0 <= a < b < h.len() implies (#[trigger] h[a]).0
                        != (#[trigger] h[b]).0 by {
                        assert(g[a].0 != g[b].0);
                    }
                }
                return;
            }
            i += 1;
        }
        self.known_globals.push((name, ty));
        assert(self.globals() =~= g.push((name@, t)));
        assert(self.wf()) by {
            let h = self.globals();
            assert forall|a: int, b: int| 0 <= a < b < h.len() implies (#[trigger] h[a]).0 != (
            #[trigger] h[b]).0 by {
                if b < g.len() {
                    assert(g[a].0 != g[b].0);
                }
            }
        }
    }

    /// Replaces the known globals by `globals` (a later entry for a name wins).
    pub fn set_known_globals(&mut self, globals: Vec<(String, Type)>)
        ensures
            final(self).wf(),
            final(self).checks_types() == old(self).checks_types(),
            final(self).globals() == with_globals_all(Seq::empty(), scope_view(globals@)),
    {
        self.known_globals = Vec::new();
        assert(self.globals() =~= Seq::<(Seq<char>, Ty)>::empty());
        let mut i: usize = 0;
        while i < globals.len()
            invariant
                i <= globals@.len(),
                self.wf(),
                self.checks_types() == old(self).checks_types(),
                self.globals() == with_globals_all(Seq::empty(), scope_view(globals@).take(i as int)),
            decreases globals@.len() - i,
        {
            let name = globals[i].0.clone();
            let ty = clone_type(&globals[i].1);
            assert(scope_view(globals@).take(i + 1).drop_last() == scope_view(globals@).take(i as int));
            self.add_global(name, ty);
            i += 1;
        }
        assert(scope_view(globals@).take(globals@.len() as int) == scope_view(globals@));
    }

    /// What compiling the tree `ast` gives: the type check's first fault
    /// where type checking is on and it fails, else the generated module or
    /// the generator's fault; a root that is not a program is an internal error.
    pub open spec fn compiled_from(self, ast: AstNode, r: Result<CompiledModule<Constant>, Error>) -> bool {
        match ast {
            AstNode::Program(ss) => if self.checks_types() && check_stmts(seq![self.globals()], ss@, 0) is Err {
                r matches Err(e) && Err::<Scopes, Fault>(fault_of(e)) == check_stmts(seq![self.globals()], ss@, 0)
            } else {
                match gen_program(initial_state(), ss@) {
                    Ok(g) => r matches Ok(m) && compiled_as(m, g),
                    Err(f) => r matches Err(e) && fault_of(e) == f,
                }
            },
            _ => r matches Err(e) && e.kind is InternalError && e.kind.msg() == (if self.checks_types() {
                "Invalid root node"@
            } else {
                "Invalid AST node"@
            }),
        }
    }

    /// Type-checks `ast` if type checking is on, then generates its bytecode.
    pub fn compile_ast(&self, ast: &AstNode) -> (r: Result<CompiledModule<Constant>, Error>)
        ensures
            self.compiled_from(*ast, r),
    {
        if self.type_checking {
            match TypeChecker::check_with_globals(ast, &self.known_globals) {
                Ok(()) => {},
                Err(e) => {
                    return Err(e);
                },
            }
        }
        generate(ast)
    }

    /// Compiles `source`: tokenize, parse, type-check if on, generate.
    pub fn compile(&self, source: &str) -> (r: Result<CompiledModule<Constant>, Error>)
        requires
            utf8_len(source@) + 4 < usize::MAX,
        ensures
            tokenize_spec(source@) matches Err(m) ==> (r matches Err(e) && is_lex_error(e, m)),
            tokenize_spec(source@) matches Ok(ts) ==> (r matches Err(e) ==> (is_parse_failure(e)
                || is_codegen_error(e) || self.checks_types())),
            tokenize_spec(source@) matches Ok(ts) && ts.len() == 1 ==> (r matches Ok(m)
                && m.instructions@ == seq![Instruction::LoadUndefined]),
            tokenize_spec(source@) is Ok ==> ((r matches Err(e) && is_parse_failure(e)) || exists|ast: AstNode|
                #![trigger self.compiled_from(ast, r)]
                ast is Program && self.compiled_from(ast, r)),
            tokenize_spec(source@) matches Ok(ts) ==> forall|k: int| #[trigger] is_number_program(ts, k) ==>
                r is Ok,
            tokenize_spec(source@) matches Ok(ts) ==> forall|k: int| #[trigger] is_number_program(ts, k) ==>
                exists|ast: AstNode| #![trigger self.compiled_from(ast, r)]
                    (ast matches AstNode::Program(ss) && number_program_statements(ss@, ts, k))
                    && self.compiled_from(ast, r),
    {
        let tokens = match tokenize(source) {
            Ok(ts) => ts,
            Err(e) => {
                return Err(e);
            },
        };
        proof {
            lemma_tokens_view_len(tokens@);
            if tokens@.len() == 1 {
                assert(tokens@.drop_last().len() == 0);
                assert(tokens_view(tokens@).last().0 == token_view(tokens@[0].token));
            }
        }
        let ghost tv = tokens_view(tokens@);
        let ast = match parse(tokens.as_slice()) {
            Ok(a) => a,
            Err(e) => {
                proof {
                    assert forall|k: int| #[trigger] is_number_program(tv, k) implies false by {
                        lemma_number_program_view(tokens@, k);
                    }
                }
                return Err(e);
            },
        };
        proof {
            if ast is Program {
                lemma_program_faults(initial_state(), ast->Program_0@, 0);
            }
        }
        let r = self.compile_ast(&ast);
        proof {
            assert forall|k: int| #[trigger] is_number_program(tv, k) implies exists|a: AstNode|
                #![trigger self.compiled_from(a, r)]
                (a matches AstNode::Program(ss) && number_program_statements(ss@, tv, k))
                && self.compiled_from(a, r) by {
                lemma_number_program_view(tokens@, k);
                assert(self.compiled_from(ast, r));
            }
            assert forall|k: int| #[trigger] is_number_program(tv, k) implies r is Ok by {
                lemma_number_program_view(tokens@, k);
                let ss = ast->Program_0@;
                assert(all_number_statements(ss));
                lemma_numbers_check(seq![self.globals()], ss, 0);
                lemma_numbers_generate(initial_state(), ss, 0);
            }
        }
        r
    }
}

/// A compiled module: the top-level bytecode, its constant pool (of constants
/// of type `V`), its functions and classes, and the source position of each
/// instruction.
#[derive(Debug, Clone)]
pub struct CompiledModule<V> {
    pub instructions: Vec<Instruction>,
    pub constants: Vec<V>,
    pub functions: Vec<CompiledFunction>,
    pub class_infos: Vec<ClassInfo>,
    pub source_lines: Vec<Option<usize>>,
    pub source_cols: Vec<Option<usize>>,
}

#[derive(Debug, Clone)]
pub struct ClassInfo {
    pub name: String,
    pub constructor_func_idx: Option<u32>,
    pub methods: Vec<ClassMethodInfo>,
    pub superclass: Option<String>,
}

#[derive(Debug, Clone)]
pub struct ClassMethodInfo {
    pub name: String,
    pub func_idx: u32,
    pub is_static: bool,
    pub kind: ClassMethodKind,
}

#[derive(Debug, Clone)]
pub enum ClassMethodKind {
    Method,
    Getter,
    Setter,
}

#[derive(Debug, Clone)]
pub struct CompiledFunction {
    pub name: Option<String>,
    pub params: Vec<String>,
    pub bytecode_index: usize,
    pub param_count: usize,
    pub closure_var_count: usize,
    pub is_generator: bool,
    pub source_line: Option<usize>,
}

#[derive(Debug, Clone)]
pub enum Instruction {
    LoadConst(u32),
    LoadNull,
    LoadUndefined,
    LoadTrue,
    LoadFalse,
    StoreGlobal(String),
    LoadGlobal(String),
    StoreLocal(u16),
    LoadLocal(u16),
    Add,
    Sub,
    Mul,
    Div,
    Mod,
    Power,
    Negate,
    Not,
    BitNot,
    UnaryPlus,
    Eq,
    StrictEq,
    NotEqual,
    StrictNotEqual,
    Less,
    Greater,
    LessEqual,
    GreaterEqual,
    And,
    Or,
    BitAnd,
    BitOr,
    BitXor,
    ShiftLeft,
    ShiftRight,
    Jump(u32),
    JumpIf(u32),
    JumpIfNot(u32),
    JumpIfUndefined(u32),
    JumpIfNotUndefined(u32),
    Call(u16),
    CallMethod(u16),
    Construct(u16),
    LoadThis,
    Dup,
    Rot3Right,
    Return,
    Pop,
    MakeFunction(u32),
    MakeClosure(u32, Vec<u16>),
    NewObject,
    SetProperty,
    GetProperty,
    OptionalGetProperty,
    OptionalCall(u16),
    NullishCoalescing,
    NewArray(u32),
    ArrayPush,
    SpreadArray,
    SpreadObject,
    GetKeys,
    TypeOf,
    InstanceOf,
    In,
    Delete,
    Void,
    Throw,
    MakeClass(u32),
    SuperConstruct(u16),
    SuperGet,
    ToString,
    TryJump(u32, u32),
    PopTryHandler,
    LoadException,
    ReThrowIfPending,
    NotImplementedError(String),
    ImportModule(String),
    ImportNamed(String, String, String),
    ImportDefault(String, String),
    ImportAll(String, String),
    NativeImport(String, String),
    ExportNamed(Vec<String>),
    ExportDefault,
    StoreModuleExport(String),
    PopModuleExports,
    Await,
    DynamicImport,
    Yield,
    BlockEnter,
    BlockExit,
    LoadGlobalOrUndefined(String),
    TypeOfGlobal(String),
    GetIterator,
    GetAsyncIterator,
    IteratorNext(u32),
    AsyncIteratorNext(u32),
    IteratorClose,
}

} // verus!
