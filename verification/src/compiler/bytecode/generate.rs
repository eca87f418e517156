//! Code generation: statements and expressions of the syntax tree to bytecode.
use vstd::prelude::*;
use vstd::string::*;
use crate::compiler::bytecode::{binary_instruction, is_jump, names, with_target, CodeGenerator};
use crate::compiler::parser::{
    ArrowFunctionBody, AstNode, BinaryOperator, CompoundAssignmentOp, Expression, ForInLeft, ForInit, Statement, SwitchCase, UnaryOperator,
    UpdateOperator, VariableDeclarator,
};
use crate::compiler::type_checker::{fault_of, Fault};
use crate::errors::ErrorClass;
use crate::compiler::{CompiledFunction, CompiledModule, Instruction};
use crate::errors::Error;
use crate::path::{join_strings, join_with, views};

verus! {

/// A constant of the pool: a number (the text it was written as) or a string.
#[derive(Debug, Clone, PartialEq, Eq)]
pub enum Constant {
    Number(String),
    String(String),
}

/// The last position of `x` in `s`, or -1.
pub open spec fn last_index(s: Seq<Seq<char>>, x: Seq<char>) -> int
    decreases s.len(),
{
    if s.len() == 0 {
        -1
    } else if s.last() == x {
        s.len() - 1
    } else {
        last_index(s.drop_last(), x)
    }
}

/// Whether an error comes from code generation: an invalid assignment target
/// (a runtime error) or a construct the generator does not handle (internal).
pub open spec fn is_codegen_error(e: Error) -> bool {
    e.kind is RuntimeError || e.kind is InternalError
}

/// An optional name as a plain value.
pub open spec fn name_view(name: Option<String>) -> Option<Seq<char>> {
    match name {
        Some(n) => Some(n@),
        None => None,
    }
}

/// A compiled function's entry as plain values: its name, its parameters,
/// where its code starts, its parameter count, its captured variable count,
/// whether it is a generator, and its source line.
pub open spec fn entry_view(f: CompiledFunction) -> (Option<Seq<char>>, Seq<Seq<char>>, usize, usize, usize, bool, Option<usize>) {
    (
        name_view(f.name),
        names(f.params@),
        f.bytecode_index,
        f.param_count,
        f.closure_var_count,
        f.is_generator,
        f.source_line,
    )
}

/// The entries of a function table.
pub open spec fn entries_view(fs: Seq<CompiledFunction>) -> Seq<(Option<Seq<char>>, Seq<Seq<char>>, usize, usize, usize, bool, Option<usize>)> {
    fs.map_values(|f: CompiledFunction| entry_view(f))
}

/// What code generation has produced so far and where it stands: the code,
/// the constant pool, the function table, the locals in scope (innermost
/// last) and the block depth.
#[verifier::ext_equal]
pub struct GenState {
    pub code: Seq<Instruction>,
    pub consts: Seq<ConstView>,
    pub funcs: Seq<(Option<Seq<char>>, Seq<Seq<char>>, usize, usize, usize, bool, Option<usize>)>,
    pub locals: Seq<Seq<char>>,
    pub depth: usize,
    pub breaks: Seq<usize>,
    pub conts: Seq<usize>,
    pub cont_patches: Seq<usize>,
}

/// A constant as a plain value.
pub enum ConstView {
    Number(Seq<char>),
    String(Seq<char>),
}

/// The plain value of a constant.
pub open spec fn const_view(c: Constant) -> ConstView {
    match c {
        Constant::Number(n) => ConstView::Number(n@),
        Constant::String(s) => ConstView::String(s@),
    }
}

/// The plain values of a constant pool.
pub open spec fn consts_view(cs: Seq<Constant>) -> Seq<ConstView> {
    cs.map_values(|c: Constant| const_view(c))
}

/// A generator's state as plain values.
pub open spec fn gen_view(g: CodeGenerator<Constant>) -> GenState {
    GenState {
        code: g.instructions@,
        consts: consts_view(g.constants@),
        funcs: entries_view(g.functions@),
        locals: names(g.locals@),
        depth: g.scope_depth,
        breaks: g.break_targets@,
        conts: g.continue_targets@,
        cont_patches: g.continue_patches@,
    }
}

/// The state before anything is generated, at the top level.
pub open spec fn initial_state() -> GenState {
    GenState {
        code: Seq::empty(),
        consts: Seq::empty(),
        funcs: Seq::empty(),
        locals: Seq::empty(),
        depth: 0,
        breaks: Seq::empty(),
        conts: Seq::empty(),
        cont_patches: Seq::empty(),
    }
}

/// `g` with `i` appended to the code.
pub open spec fn emitted(g: GenState, i: Instruction) -> GenState {
    GenState { code: g.code.push(i), ..g }
}

/// `g` with `c` added to the constant pool.
pub open spec fn with_const(g: GenState, c: ConstView) -> GenState {
    GenState { consts: g.consts.push(c), ..g }
}

/// `g` with the jump at `at` aimed at `target`; anything else is left alone.
pub open spec fn patched(g: GenState, at: usize, target: usize) -> GenState {
    GenState {
        code: if at < g.code.len() && is_jump(g.code[at as int]) {
            g.code.update(at as int, with_target(g.code[at as int], target as u32))
        } else {
            g.code
        },
        ..g
    }
}

/// `g` at block depth `d`.
pub open spec fn at_depth(g: GenState, d: usize) -> GenState {
    GenState { depth: d, ..g }
}

/// One block deeper, staying at the largest depth.
pub open spec fn deeper(d: usize) -> usize {
    if d < usize::MAX { (d + 1) as usize } else { d }
}

/// The instruction that reads the variable `name`: the innermost local of
/// that name, else the global.
pub open spec fn load_of(g: GenState, name: String) -> Instruction {
    let li = last_index(g.locals, name@);
    if li >= 0 { Instruction::LoadLocal(li as u16) } else { Instruction::LoadGlobal(name) }
}

/// The instruction that writes the variable `name`: the innermost local of
/// that name, else the global.
pub open spec fn store_of(g: GenState, name: String) -> Instruction {
    let li = last_index(g.locals, name@);
    if li >= 0 { Instruction::StoreLocal(li as u16) } else { Instruction::StoreGlobal(name) }
}

/// `g` after the value on the stack is stored into a declared `name`: a
/// global at the top level, else a new local.
pub open spec fn declared(g: GenState, name: String) -> GenState {
    if g.depth == 0 {
        emitted(g, Instruction::StoreGlobal(name))
    } else {
        let l = g.locals.push(name@);
        emitted(GenState { locals: l, ..g }, Instruction::StoreLocal((l.len() - 1) as u16))
    }
}

/// `g` at the start of a function's body: a jump (patched later) over the
/// body, the function's entry added, one block deeper, the parameters as
/// locals.
pub open spec fn entered(g: GenState, name: Option<Seq<char>>, params: Seq<Seq<char>>) -> GenState {
    let g1 = emitted(g, Instruction::Jump(0));
    GenState {
        funcs: g1.funcs.push((name, params, g1.code.len() as usize, params.len() as usize, 0usize, false, None::<usize>)),
        locals: g1.locals + params,
        depth: deeper(g.depth),
        ..g1
    }
}

/// The state after a function whose body left `inner`: `undefined` returned
/// at its end, then as `closed_fn` says.
pub open spec fn left_fn(g: GenState, inner: GenState) -> GenState {
    closed_fn(g, emitted(emitted(inner, Instruction::LoadUndefined), Instruction::Return))
}

/// The state after a function whose finished body left `g3`: the depth and
/// locals of `g` back, the jump over the body aimed after it, and
/// `MakeFunction` for the entry that `g` was to add.
pub open spec fn closed_fn(g: GenState, g3: GenState) -> GenState {
    let n = g.locals.len();
    let g4 = GenState {
        locals: if n <= g3.locals.len() { g3.locals.subrange(0, n as int) } else { g3.locals },
        depth: g.depth,
        ..g3
    };
    let g5 = patched(g4, g.code.len() as usize, g4.code.len() as usize);
    emitted(g5, Instruction::MakeFunction(g.funcs.len() as u32))
}

/// `g` with locals dropped, innermost first, down to `n`, a `Pop` for each.
pub open spec fn popped_to(g: GenState, n: nat) -> GenState
    decreases g.locals.len(),
{
    if g.locals.len() > n {
        popped_to(
            GenState { code: g.code.push(Instruction::Pop), locals: g.locals.drop_last(), ..g },
            n,
        )
    } else {
        g
    }
}

/// The instruction that a compound assignment applies.
pub open spec fn compound_instruction(op: CompoundAssignmentOp) -> Instruction {
    match op {
        CompoundAssignmentOp::AddAssign => Instruction::Add,
        CompoundAssignmentOp::SubAssign => Instruction::Sub,
        CompoundAssignmentOp::MulAssign => Instruction::Mul,
        CompoundAssignmentOp::DivAssign => Instruction::Div,
        CompoundAssignmentOp::ModAssign => Instruction::Mod,
        CompoundAssignmentOp::AndAssign => Instruction::And,
        CompoundAssignmentOp::OrAssign => Instruction::Or,
    }
}

/// The instruction that `++` or `--` applies.
pub open spec fn update_instruction(op: UpdateOperator) -> Instruction {
    match op {
        UpdateOperator::Increment => Instruction::Add,
        UpdateOperator::Decrement => Instruction::Sub,
    }
}

/// `g` with the number one loaded as a new constant.
pub open spec fn with_one(g: GenState) -> GenState {
    emitted(with_const(g, ConstView::Number("1"@)), Instruction::LoadConst(g.consts.len() as u32))
}

/// After the left operand of `&&`, `||` (with `Dup` and a conditional jump)
/// or `??` (a jump that leaves the value): the jump, then `Pop`.
pub open spec fn branch_opened(g1: GenState, dup: bool, jump: Instruction) -> GenState {
    let g2 = if dup { emitted(g1, Instruction::Dup) } else { g1 };
    emitted(emitted(g2, jump), Instruction::Pop)
}

/// Where the skip jump of a short-circuit operator opened in `g1` stands.
pub open spec fn skip_at(g1: GenState, dup: bool) -> usize {
    if dup { (g1.code.len() + 1) as usize } else { g1.code.len() as usize }
}

/// After the right operand: a jump to the end, then the skip jump and that
/// jump both aimed at the end.
pub open spec fn branch_closed(g5: GenState, skip: usize) -> GenState {
    let done = g5.code.len() as usize;
    let g6 = emitted(g5, Instruction::Jump(0));
    let g7 = patched(g6, skip, g6.code.len() as usize);
    patched(g7, done, g7.code.len() as usize)
}

/// `g` with the break jumps recorded above the first `n` aimed at `target`,
/// innermost first, and dropped.
pub open spec fn breaks_patched(g: GenState, n: nat, target: usize) -> GenState
    decreases g.breaks.len(),
{
    if g.breaks.len() > n {
        breaks_patched(patched(GenState { breaks: g.breaks.drop_last(), ..g }, g.breaks.last(), target), n, target)
    } else {
        g
    }
}

/// `g` with the continue jumps recorded above the first `n` aimed at
/// `target`, innermost first, and dropped.
pub open spec fn conts_patched(g: GenState, n: nat, target: usize) -> GenState
    decreases g.cont_patches.len(),
{
    if g.cont_patches.len() > n {
        conts_patched(
            patched(GenState { cont_patches: g.cont_patches.drop_last(), ..g }, g.cont_patches.last(), target),
            n,
            target,
        )
    } else {
        g
    }
}

/// `g` without its innermost continue target (where it has one).
pub open spec fn conts_popped(g: GenState) -> GenState {
    GenState { conts: if g.conts.len() > 0 { g.conts.drop_last() } else { g.conts }, ..g }
}

/// `g` with a loop's break placeholder (a target that no jump has) pushed.
pub open spec fn break_scope(g: GenState) -> GenState {
    GenState { breaks: g.breaks.push(usize::MAX), ..g }
}

/// The code of `break`: a jump recorded for the innermost loop to aim at its
/// end, or, outside any loop, a return of `undefined`.
pub open spec fn break_code(g: GenState) -> GenState {
    if g.breaks.len() > 0 {
        let g1 = emitted(g, Instruction::Jump(0));
        GenState { breaks: g1.breaks.push((g1.code.len() - 1) as usize), ..g1 }
    } else {
        emitted(emitted(g, Instruction::LoadUndefined), Instruction::Return)
    }
}

/// The code of `continue`: a jump to the innermost loop's continue target,
/// or one recorded for it where that target is not known yet; outside any
/// loop, a return of `undefined`.
pub open spec fn continue_code(g: GenState) -> GenState {
    if g.conts.len() > 0 {
        if g.conts.last() == usize::MAX {
            let g1 = emitted(g, Instruction::Jump(0));
            GenState { cont_patches: g1.cont_patches.push((g1.code.len() - 1) as usize), ..g1 }
        } else {
            emitted(g, Instruction::Jump(g.conts.last() as u32))
        }
    } else {
        emitted(emitted(g, Instruction::LoadUndefined), Instruction::Return)
    }
}

/// The code of a `for` loop's first clause in state `g`.
pub open spec fn gen_for_init(g: GenState, init: Option<Box<ForInit>>) -> Result<GenState, Fault>
    decreases init, 2nat,
{
    match init {
        None => Ok(g),
        Some(b) => match *b {
            ForInit::Variable(st) => gen_stmt(g, st, false),
            ForInit::Expression(e) => match gen_expr(g, e) {
                Err(f) => Err(f),
                Ok(g1) => Ok(emitted(g1, Instruction::Pop)),
            },
        },
    }
}

/// The code of an optional expression whose value is dropped.
pub open spec fn gen_dropped(g: GenState, e: Option<Expression>) -> Result<GenState, Fault>
    decreases e, 2nat,
{
    match e {
        None => Ok(g),
        Some(x) => match gen_expr(g, x) {
            Err(f) => Err(f),
            Ok(g1) => Ok(emitted(g1, Instruction::Pop)),
        },
    }
}

/// The end of a `for` loop after its update, in `gu`: the check jump aimed
/// here, the condition (if any) and the jump back to the body start, then
/// the loop's break jumps aimed at its end.
pub open spec fn gen_for_check(gu: GenState, condition: Option<Expression>, jc: usize, body_start: u32, bs: nat) -> Result<GenState, Fault>
    decreases condition, 2nat,
{
    let gp = patched(gu, jc, gu.code.len() as usize);
    match condition {
        Some(c) => match gen_expr(gp, c) {
            Err(f) => Err(f),
            Ok(gq) => {
                let j = gq.code.len() as usize;
                let gr = emitted(emitted(gq, Instruction::JumpIfNot(0)), Instruction::Jump(body_start));
                let end = gr.code.len() as usize;
                Ok(breaks_patched(patched(gr, j, end), bs, end))
            },
        },
        None => {
            let gr = emitted(gp, Instruction::Jump(body_start));
            let end = gr.code.len() as usize;
            Ok(breaks_patched(gr, bs, end))
        },
    }
}

/// The rest of a `for` loop `s` after its first clause, from `gi`: a jump
/// to the check, the body (its continue jumps aimed after it), the update,
/// the check, then the loop's locals dropped down to `prev` and the depth
/// back to `depth`.
pub open spec fn gen_for_from(gi: GenState, s: Statement, prev: nat, depth: usize) -> Result<GenState, Fault>
    decreases s, 0nat,
{
    match s {
        Statement::ForStatement { init: _, condition, update, body } => {
            let jc = gi.code.len() as usize;
            let gj = emitted(gi, Instruction::Jump(0));
            let body_start = gj.code.len() as u32;
            let gk = GenState { conts: gj.conts.push(usize::MAX), breaks: gj.breaks.push(usize::MAX), ..gj };
            match gen_stmt(gk, *body, false) {
                Err(f) => Err(f),
                Ok(gb) => match gen_dropped(conts_popped(conts_patched(gb, gj.cont_patches.len(), gb.code.len() as usize)), update) {
                    Err(f) => Err(f),
                    Ok(gu) => match gen_for_check(gu, condition, jc, body_start, gj.breaks.len()) {
                        Err(f) => Err(f),
                        Ok(gs) => Ok(at_depth(popped_to(gs, prev), depth)),
                    },
                },
            }
        },
        _ => Ok(gi),
    }
}

/// The code that pushes a property key: the key's value where `computed`,
/// else a name's string constant (or the key's value for anything else).
pub open spec fn gen_key(g: GenState, computed: bool, p: Expression) -> Result<GenState, Fault>
    decreases p, 1nat,
{
    if computed {
        gen_expr(g, p)
    } else {
        match p {
            Expression::Identifier(name) => Ok(emitted(with_const(g, ConstView::String(name@)), Instruction::LoadConst(g.consts.len() as u32))),
            _ => gen_expr(g, p),
        }
    }
}

/// The code that pushes the object and the key of a member expression `m`
/// (nothing else is a member expression: a fault).
pub open spec fn gen_ref(g: GenState, m: Expression) -> Result<GenState, Fault>
    decreases m, 1nat,
{
    match m {
        Expression::Member { object, property, computed } => match gen_expr(g, *object) {
            Err(f) => Err(f),
            Ok(g1) => gen_key(g1, computed, *property),
        },
        _ => Err((ErrorClass::Runtime, "Invalid assignment target"@)),
    }
}

/// The code of `e` (which leaves its value on the stack) generated in state
/// `g`: the state after it, or the fault that stops generation.
pub open spec fn gen_expr(g: GenState, e: Expression) -> Result<GenState, Fault>
    decreases e, 0nat,
{
    match e {
        Expression::NumberLiteral(n) => Ok(emitted(with_const(g, ConstView::Number(n@)), Instruction::LoadConst(g.consts.len() as u32))),
        Expression::StringLiteral(s) => Ok(emitted(with_const(g, ConstView::String(s@)), Instruction::LoadConst(g.consts.len() as u32))),
        Expression::BooleanLiteral(b) => Ok(emitted(g, if b { Instruction::LoadTrue } else { Instruction::LoadFalse })),
        Expression::NullLiteral => Ok(emitted(g, Instruction::LoadNull)),
        Expression::UndefinedLiteral => Ok(emitted(g, Instruction::LoadUndefined)),
        Expression::Identifier(name) => Ok(emitted(g, if name@ == "this"@ { Instruction::LoadThis } else { load_of(g, name) })),
        Expression::BinaryOp { op, left, right } => match gen_expr(g, *left) {
            Err(f) => Err(f),
            Ok(g1) => if op is And || op is Or || op is NullishCoalescing {
                let dup = !(op is NullishCoalescing);
                let jump = if op is And {
                    Instruction::JumpIfNot(0)
                } else if op is Or {
                    Instruction::JumpIf(0)
                } else {
                    Instruction::JumpIfNotUndefined(0)
                };
                match gen_expr(branch_opened(g1, dup, jump), *right) {
                    Err(f) => Err(f),
                    Ok(g5) => Ok(branch_closed(g5, skip_at(g1, dup))),
                }
            } else {
                match gen_expr(g1, *right) {
                    Err(f) => Err(f),
                    Ok(g2) => Ok(emitted(g2, binary_instruction(op))),
                }
            },
        },
        Expression::UnaryOp { op, operand } => if op is Delete && (*operand) is Member {
            match gen_ref(g, *operand) {
                Err(f) => Err(f),
                Ok(g2) => Ok(emitted(g2, Instruction::Delete)),
            }
        } else if op is Typeof && (*operand) is Identifier {
            let name = (*operand)->Identifier_0;
            let li = last_index(g.locals, name@);
            if li >= 0 {
                Ok(emitted(emitted(g, Instruction::LoadLocal(li as u16)), Instruction::TypeOf))
            } else {
                Ok(emitted(g, Instruction::TypeOfGlobal(name)))
            }
        } else {
            match gen_expr(g, *operand) {
                Err(f) => Err(f),
                Ok(g1) => Ok(match op {
                    UnaryOperator::Negate => emitted(g1, Instruction::Negate),
                    UnaryOperator::Not => emitted(g1, Instruction::Not),
                    UnaryOperator::Typeof => emitted(g1, Instruction::TypeOf),
                    UnaryOperator::BitNot => emitted(g1, Instruction::BitNot),
                    UnaryOperator::Delete => emitted(emitted(g1, Instruction::Pop), Instruction::LoadTrue),
                    UnaryOperator::Void => if (*operand) is Assignment {
                        emitted(emitted(g1, Instruction::Pop), Instruction::LoadUndefined)
                    } else {
                        emitted(g1, Instruction::Void)
                    },
                }),
            }
        },
        Expression::Assignment { target, value, op } => match op {
            Some(cop) => match gen_expr(g, *target) {
                Err(f) => Err(f),
                Ok(g1) => match gen_expr(g1, *value) {
                    Err(f) => Err(f),
                    Ok(g2) => {
                        let g3 = emitted(g2, compound_instruction(cop));
                        match *target {
                            Expression::Identifier(name) => Ok(emitted(emitted(g3, Instruction::Dup), store_of(g3, name))),
                            Expression::Member { .. } => match gen_ref(emitted(g3, Instruction::Dup), *target) {
                                Err(f) => Err(f),
                                Ok(g6) => Ok(emitted(emitted(emitted(g6, Instruction::Rot3Right), Instruction::SetProperty), Instruction::Pop)),
                            },
                            _ => Err((ErrorClass::Runtime, "Invalid assignment target"@)),
                        }
                    },
                },
            },
            None => match *target {
                Expression::Member { .. } => match gen_ref(g, *target) {
                    Err(f) => Err(f),
                    Ok(g2) => match gen_expr(g2, *value) {
                        Err(f) => Err(f),
                        Ok(g3) => Ok(emitted(g3, Instruction::SetProperty)),
                    },
                },
                Expression::Identifier(name) => match gen_expr(g, *value) {
                    Err(f) => Err(f),
                    Ok(g1) => Ok(emitted(emitted(g1, Instruction::Dup), store_of(g1, name))),
                },
                _ => Err((ErrorClass::Runtime, "Invalid assignment target"@)),
            },
        },
        Expression::UpdateExpression { op, operand, prefix } => match *operand {
            Expression::Identifier(name) => {
                let g1 = emitted(g, load_of(g, name));
                let g2 = if prefix { g1 } else { emitted(g1, load_of(g1, name)) };
                let g3 = emitted(with_one(g2), update_instruction(op));
                let g4 = if prefix { emitted(g3, Instruction::Dup) } else { g3 };
                Ok(emitted(g4, store_of(g4, name)))
            },
            Expression::Member { .. } => match gen_ref(g, *operand) {
                Err(f) => Err(f),
                Ok(g1) => {
                    let g2 = emitted(g1, Instruction::GetProperty);
                    let g3 = if prefix {
                        emitted(emitted(with_one(g2), update_instruction(op)), Instruction::Dup)
                    } else {
                        emitted(with_one(emitted(g2, Instruction::Dup)), update_instruction(op))
                    };
                    match gen_ref(g3, *operand) {
                        Err(f) => Err(f),
                        Ok(g4) => Ok(emitted(emitted(emitted(g4, Instruction::Rot3Right), Instruction::SetProperty), Instruction::Pop)),
                    }
                },
            },
            _ => gen_expr(g, *operand),
        },
        Expression::AwaitExpression { argument } => match gen_expr(g, *argument) {
            Err(f) => Err(f),
            Ok(g1) => Ok(emitted(g1, Instruction::Await)),
        },
        Expression::SuperCall { args } => match gen_exprs(emitted(g, Instruction::LoadThis), args@, 0) {
            Err(f) => Err(f),
            Ok(g1) => Ok(emitted(g1, Instruction::SuperConstruct(args@.len() as u16))),
        },
        Expression::SuperMember { property, computed } => match gen_key(emitted(g, Instruction::LoadThis), computed, *property) {
            Err(f) => Err(f),
            Ok(g1) => Ok(emitted(g1, Instruction::SuperGet)),
        },
        Expression::TemplateLiteral { quasis, expressions } => if expressions@.len() == 0 {
            Ok(loaded(g, ConstView::String(join_with(views(quasis@), ""@))))
        } else {
            let first_empty = quasis@.len() == 0 || quasis@[0]@.len() == 0;
            let g1 = if first_empty { g } else { loaded(g, ConstView::String(quasis@[0]@)) };
            gen_template(g1, quasis@, expressions@, 0, first_empty)
        },
        Expression::OptionalMember { object, property, computed } => match gen_expr(g, *object) {
            Err(f) => Err(f),
            Ok(g1) => {
                let j = (g1.code.len() + 1) as usize;
                match gen_key(emitted(emitted(g1, Instruction::Dup), Instruction::JumpIfUndefined(0)), computed, *property) {
                    Err(f) => Err(f),
                    Ok(g2) => {
                        let g3 = emitted(g2, Instruction::GetProperty);
                        let jend = g3.code.len() as usize;
                        let g4 = emitted(g3, Instruction::Jump(0));
                        let g5 = emitted(emitted(patched(g4, j, g4.code.len() as usize), Instruction::Pop), Instruction::LoadUndefined);
                        Ok(patched(g5, jend, g5.code.len() as usize))
                    },
                }
            },
        },
        Expression::ConditionalExpression { test, consequent, alternate } => match gen_expr(g, *test) {
            Err(f) => Err(f),
            Ok(g1) => {
                let j = g1.code.len() as usize;
                match gen_expr(emitted(g1, Instruction::JumpIfNot(0)), *consequent) {
                    Err(f) => Err(f),
                    Ok(g2) => {
                        let jend = g2.code.len() as usize;
                        let g3 = emitted(g2, Instruction::Jump(0));
                        match gen_expr(patched(g3, j, g3.code.len() as usize), *alternate) {
                            Err(f) => Err(f),
                            Ok(g4) => Ok(patched(g4, jend, g4.code.len() as usize)),
                        }
                    },
                }
            },
        },
        Expression::NewExpression { callee, args } => match gen_expr(g, *callee) {
            Err(f) => Err(f),
            Ok(g1) => match gen_exprs(g1, args@, 0) {
                Err(f) => Err(f),
                Ok(g2) => Ok(emitted(g2, Instruction::Construct(args@.len() as u16))),
            },
        },
        Expression::ArrayLiteral { elements } => if spread_from(elements@, 0) {
            gen_spread_elems(emitted(g, Instruction::NewArray(0)), elements@, 0)
        } else {
            match gen_exprs_rev(g, elements@, elements@.len() as int) {
                Err(f) => Err(f),
                Ok(g1) => Ok(emitted(g1, Instruction::NewArray(elements@.len() as u32))),
            }
        },
        Expression::ObjectLiteral { properties } => gen_props(emitted(g, Instruction::NewObject), properties@, 0),
        Expression::Call { callee, args } => match *callee {
            Expression::Member { object, property, computed } => match gen_expr(g, *object) {
                Err(f) => Err(f),
                Ok(g1) => match gen_key(g1, computed, *property) {
                    Err(f) => Err(f),
                    Ok(g2) => match gen_exprs(g2, args@, 0) {
                        Err(f) => Err(f),
                        Ok(g3) => Ok(emitted(g3, Instruction::CallMethod(args@.len() as u16))),
                    },
                },
            },
            _ => match gen_exprs(g, args@, 0) {
                Err(f) => Err(f),
                Ok(g1) => match gen_expr(g1, *callee) {
                    Err(f) => Err(f),
                    Ok(g2) => Ok(emitted(g2, Instruction::Call(args@.len() as u16))),
                },
            },
        },
        Expression::Member { object, property, computed } => match gen_expr(g, *object) {
            Err(f) => Err(f),
            Ok(g1) => match gen_key(g1, computed, *property) {
                Err(f) => Err(f),
                Ok(g2) => Ok(emitted(g2, Instruction::GetProperty)),
            },
        },
        Expression::FunctionExpression { name: _, params, body, is_async: _ } => match gen_stmts(entered(g, None, names(params@)), body@, 0) {
            Err(f) => Err(f),
            Ok(g2) => Ok(left_fn(g, g2)),
        },
        Expression::TypeAssertion { expression, type_annotation: _ } => gen_expr(g, *expression),
        Expression::ArrowFunction { params, body, is_async: _ } => match *body {
            ArrowFunctionBody::Block(stmts) => match gen_stmts(entered(g, None, names(params@)), stmts@, 0) {
                Err(f) => Err(f),
                Ok(g2) => Ok(left_fn(g, g2)),
            },
            ArrowFunctionBody::Expression(e) => match gen_expr(entered(g, None, names(params@)), e) {
                Err(f) => Err(f),
                Ok(g2) => Ok(closed_fn(g, emitted(g2, Instruction::Return))),
            },
        },
        _ => Err((ErrorClass::Internal, "Unsupported expression"@)),
    }
}

/// The code of the expressions `es[i..]` in order.
/// The rest of a template literal from its `i`-th embedded expression on:
/// each expression made a string and joined on (unless it starts the text),
/// then the text after it, where there is any, joined on.
pub open spec fn gen_template(g: GenState, qs: Seq<String>, es: Seq<Expression>, i: int, first_empty: bool) -> Result<GenState, Fault>
    decreases es, es.len() - i,
{
    if i < 0 || i >= es.len() {
        Ok(g)
    } else {
        match gen_expr(g, es[i]) {
            Err(f) => Err(f),
            Ok(g2) => {
                let g3 = emitted(g2, Instruction::ToString);
                let g4 = if first_empty && i == 0 { g3 } else { emitted(g3, Instruction::Add) };
                let g5 = if i + 1 < qs.len() && qs[i + 1]@.len() > 0 {
                    emitted(loaded(g4, ConstView::String(qs[i + 1]@)), Instruction::Add)
                } else {
                    g4
                };
                gen_template(g5, qs, es, i + 1, first_empty)
            },
        }
    }
}

/// The expressions `es[..n]`, last to first.
pub open spec fn gen_exprs_rev(g: GenState, es: Seq<Expression>, n: int) -> Result<GenState, Fault>
    decreases es, n,
{
    if n <= 0 || n > es.len() {
        Ok(g)
    } else {
        match gen_expr(g, es[n - 1]) {
            Err(f) => Err(f),
            Ok(g1) => gen_exprs_rev(g1, es, n - 1),
        }
    }
}

/// Whether one of `es[i..]` is a spread element.
pub open spec fn spread_from(es: Seq<Expression>, i: int) -> bool
    decreases es.len() - i,
{
    if i < 0 || i >= es.len() {
        false
    } else {
        es[i] is SpreadElement || spread_from(es, i + 1)
    }
}

/// Whether one of `es` is a spread element.
fn has_spread(es: &Vec<Expression>) -> (r: bool)
    ensures
        r == spread_from(es@, 0),
{
    let mut i: usize = 0;
    let mut found = false;
    while i < es.len() && !found
        invariant
            i <= es@.len(),
            spread_from(es@, 0) == (found || spread_from(es@, i as int)),
        decreases es@.len() - i,
    {
        if let Expression::SpreadElement { argument: _ } = &es[i] {
            found = true;
        }
        i += 1;
    }
    found
}

/// One element of an array literal that holds a spread, added to the array
/// below it: `Dup`, then the spread value and `SpreadArray`, or the value and
/// `ArrayPush`.
pub open spec fn gen_spread_elem(g: GenState, e: Expression) -> Result<GenState, Fault>
    decreases e, 1nat,
{
    match e {
        Expression::SpreadElement { argument } => match gen_expr(emitted(g, Instruction::Dup), *argument) {
            Err(f) => Err(f),
            Ok(g1) => Ok(emitted(g1, Instruction::SpreadArray)),
        },
        _ => match gen_expr(emitted(g, Instruction::Dup), e) {
            Err(f) => Err(f),
            Ok(g1) => Ok(emitted(g1, Instruction::ArrayPush)),
        },
    }
}

/// The elements `es[i..]` of an array literal that holds a spread, in order.
pub open spec fn gen_spread_elems(g: GenState, es: Seq<Expression>, i: int) -> Result<GenState, Fault>
    decreases es, es.len() - i,
{
    if i < 0 || i >= es.len() {
        Ok(g)
    } else {
        match gen_spread_elem(g, es[i]) {
            Err(f) => Err(f),
            Ok(g1) => gen_spread_elems(g1, es, i + 1),
        }
    }
}

/// The properties `ps[i..]` of an object literal, in order: the key as a
/// string constant, the value, and a property store each.
pub open spec fn gen_props(g: GenState, ps: Seq<(String, Expression)>, i: int) -> Result<GenState, Fault>
    decreases ps, ps.len() - i,
{
    if i < 0 || i >= ps.len() {
        Ok(g)
    } else {
        let g1 = emitted(with_const(g, ConstView::String(ps[i].0@)), Instruction::LoadConst(g.consts.len() as u32));
        match gen_expr(g1, ps[i].1) {
            Err(f) => Err(f),
            Ok(g2) => gen_props(emitted(g2, Instruction::SetProperty), ps, i + 1),
        }
    }
}

pub open spec fn gen_exprs(g: GenState, es: Seq<Expression>, i: int) -> Result<GenState, Fault>
    decreases es, es.len() - i,
{
    if i < 0 || i >= es.len() {
        Ok(g)
    } else {
        match gen_expr(g, es[i]) {
            Err(f) => Err(f),
            Ok(g1) => gen_exprs(g1, es, i + 1),
        }
    }
}

/// The code of `s` generated in state `g`; an expression statement's value is
/// popped unless `is_last`.
pub open spec fn gen_stmt(g: GenState, s: Statement, is_last: bool) -> Result<GenState, Fault>
    decreases s, 1nat,
{
    match s {
        Statement::Expression(e) => match gen_expr(g, e) {
            Err(f) => Err(f),
            Ok(g1) => Ok(if is_last { g1 } else { emitted(g1, Instruction::Pop) }),
        },
        Statement::VariableDeclaration { kind: _, declarations } => gen_decls(g, declarations@, 0),
        Statement::ThrowStatement(e) => match gen_expr(g, e) {
            Err(f) => Err(f),
            Ok(g1) => Ok(emitted(g1, Instruction::Throw)),
        },
        Statement::TryStatement { block, handler, finalizer } => {
            let g0 = at_depth(g, deeper(g.depth));
            let at = g0.code.len() as usize;
            match gen_stmts(emitted(g0, Instruction::TryJump(0, 0)), block@, 0) {
                Err(f) => Err(f),
                Ok(g2) => {
                    let g3 = emitted(g2, Instruction::PopTryHandler);
                    let jump_past = g3.code.len() as usize;
                    let g4 = if handler is Some { emitted(g3, Instruction::Jump(0)) } else { g3 };
                    let catch_pc: u32 = if handler is Some { g4.code.len() as u32 } else { 0 };
                    let rc = match handler {
                        Some(c) => gen_catch(g4, c.param@, c.body@, finalizer is None),
                        None => Ok(g4),
                    };
                    match rc {
                        Err(f) => Err(f),
                        Ok(g6) => {
                            let finally_pc = g6.code.len() as u32;
                            let g7 = if handler is Some { patched(g6, jump_past, finally_pc as usize) } else { g6 };
                            let g8 = try_targets(g7, at, catch_pc, finally_pc);
                            let rf = match finalizer {
                                Some(fs) => match gen_stmts(g8, fs@, 0) {
                                    Err(f) => Err(f),
                                    Ok(g9) => Ok(if handler is None { emitted(g9, Instruction::ReThrowIfPending) } else { g9 }),
                                },
                                None => Ok(g8),
                            };
                            match rf {
                                Err(f) => Err(f),
                                Ok(g10) => Ok(at_depth(popped_to(g10, g.locals.len()), g.depth)),
                            }
                        },
                    }
                },
            }
        },
        Statement::ForInStatement { left, right, body } => {
            let g0 = with_local(at_depth(g, deeper(g.depth)), loop_var(left));
            let var_slot = (g0.locals.len() - 1) as u16;
            match gen_expr(g0, right) {
                Err(f) => Err(f),
                Ok(g1) => {
                    let k = g1.locals.len();
                    let g8 = for_in_setup(g1);
                    let start = g8.code.len() as u32;
                    let g9 = emitted(emitted(emitted(g8, Instruction::LoadLocal((k + 1) as u16)), Instruction::LoadLocal((k + 2) as u16)), Instruction::Less);
                    let j = g9.code.len() as usize;
                    let g11 = emitted(
                        emitted(emitted(emitted(emitted(g9, Instruction::JumpIfNot(0)), Instruction::LoadLocal(k as u16)), Instruction::LoadLocal((k + 1) as u16)), Instruction::GetProperty),
                        Instruction::StoreLocal(var_slot),
                    );
                    match gen_stmt(g11, *body, false) {
                        Err(f) => Err(f),
                        Ok(g12) => {
                            let g13 = emitted(
                                emitted(emitted(loaded(emitted(g12, Instruction::LoadLocal((k + 1) as u16)), ConstView::Number("1"@)), Instruction::Add), Instruction::StoreLocal((k + 1) as u16)),
                                Instruction::Jump(start),
                            );
                            let g14 = patched(g13, j, g13.code.len() as usize);
                            let g15 = GenState { locals: locals_popped(locals_popped(locals_popped(g14.locals))), ..g14 };
                            Ok(at_depth(popped_to(g15, g.locals.len()), g.depth))
                        },
                    }
                },
            }
        },
        Statement::ForOfStatement { left, right, body, is_async } => {
            let g0 = with_local(emitted(at_depth(g, deeper(g.depth)), Instruction::LoadUndefined), loop_var(left));
            let var_slot = (g0.locals.len() - 1) as u16;
            match gen_expr(g0, right) {
                Err(f) => Err(f),
                Ok(g1) => {
                    let g2 = emitted(g1, if is_async { Instruction::GetAsyncIterator } else { Instruction::GetIterator });
                    let k = g2.locals.len();
                    let g3 = emitted(with_local(g2, "__iter"@), Instruction::StoreLocal(k as u16));
                    let start = g3.code.len() as u32;
                    let g4 = emitted(g3, Instruction::LoadLocal(k as u16));
                    let p = g4.code.len() as usize;
                    let g5 = emitted(
                        emitted(g4, if is_async { Instruction::AsyncIteratorNext(0) } else { Instruction::IteratorNext(0) }),
                        Instruction::StoreLocal(var_slot),
                    );
                    match gen_stmt(g5, *body, false) {
                        Err(f) => Err(f),
                        Ok(g6) => {
                            let g7 = emitted(g6, Instruction::Jump(start));
                            let g8 = next_patched(g7, p, g7.code.len() as u32);
                            let g9 = GenState { locals: locals_popped(g8.locals), ..g8 };
                            Ok(at_depth(popped_to(g9, g.locals.len()), g.depth))
                        },
                    }
                },
            }
        },
        Statement::SwitchStatement { discriminant, cases } => match gen_expr(g, discriminant) {
            Err(f) => Err(f),
            Ok(g1) => {
                let l = g1.locals.push("__switch_val"@);
                let slot = (l.len() - 1) as u16;
                let g2 = emitted(GenState { locals: l, ..g1 }, Instruction::StoreLocal(slot));
                match gen_case_tests(g2, cases@, 0, slot, Seq::empty(), None) {
                    Err(f) => Err(f),
                    Ok((g3, jumps, default)) => {
                        let end_jump = g3.code.len() as usize;
                        let g4 = break_scope(emitted(g3, Instruction::Jump(0)));
                        match gen_case_bodies(g4, cases@, 0, jumps, default) {
                            Err(f) => Err(f),
                            Ok(g5) => {
                                let end = g5.code.len() as usize;
                                let g6 = patched(breaks_patched(g5, g3.breaks.len(), end), end_jump, end);
                                Ok(emitted(GenState { locals: locals_popped(g6.locals), ..g6 }, Instruction::Pop))
                            },
                        }
                    },
                }
            },
        },
        Statement::ReturnStatement(v) => {
            let value = match v {
                Some(e) => gen_expr(g, e),
                None => Ok(emitted(g, Instruction::LoadUndefined)),
            };
            match value {
                Err(f) => Err(f),
                Ok(g1) => Ok(emitted(g1, Instruction::Return)),
            }
        },
        Statement::YieldStatement(v) => {
            let value = match v {
                Some(e) => gen_expr(g, e),
                None => Ok(emitted(g, Instruction::LoadUndefined)),
            };
            match value {
                Err(f) => Err(f),
                Ok(g1) => Ok(emitted(g1, Instruction::Yield)),
            }
        },
        Statement::IfStatement { condition, consequent, alternate } => match gen_expr(g, condition) {
            Err(f) => Err(f),
            Ok(g1) => {
                let j = g1.code.len() as usize;
                match gen_stmt(emitted(g1, Instruction::JumpIfNot(0)), *consequent, false) {
                    Err(f) => Err(f),
                    Ok(g3) => match alternate {
                        Some(a) => {
                            let jend = g3.code.len() as usize;
                            let g4 = emitted(g3, Instruction::Jump(0));
                            match gen_stmt(patched(g4, j, g4.code.len() as usize), *a, false) {
                                Err(f) => Err(f),
                                Ok(g6) => Ok(patched(g6, jend, g6.code.len() as usize)),
                            }
                        },
                        None => Ok(patched(g3, j, g3.code.len() as usize)),
                    },
                }
            },
        },
        Statement::WhileStatement { condition, body } => match gen_expr(break_scope(g), condition) {
            Err(f) => Err(f),
            Ok(g1) => {
                let j = g1.code.len() as usize;
                let g2 = emitted(g1, Instruction::JumpIfNot(0));
                match gen_stmt(GenState { conts: g2.conts.push(g.code.len() as u32 as usize), ..g2 }, *body, false) {
                    Err(f) => Err(f),
                    Ok(g3) => {
                        let g4 = emitted(g3, Instruction::Jump(g.code.len() as u32));
                        let end = g4.code.len() as usize;
                        Ok(conts_popped(breaks_patched(patched(g4, j, end), g.breaks.len(), end)))
                    },
                }
            },
        },
        Statement::DoWhileStatement { condition, body } => match gen_stmt(break_scope(g), *body, false) {
            Err(f) => Err(f),
            Ok(g1) => match gen_expr(g1, condition) {
                Err(f) => Err(f),
                Ok(g2) => {
                    let j = g2.code.len() as usize;
                    let g4 = emitted(emitted(g2, Instruction::JumpIfNot(0)), Instruction::Jump(g.code.len() as u32));
                    let end = g4.code.len() as usize;
                    Ok(breaks_patched(patched(g4, j, end), g.breaks.len(), end))
                },
            },
        },
        Statement::ForStatement { init, condition: _, update: _, body: _ } => match gen_for_init(at_depth(g, deeper(g.depth)), init) {
            Err(f) => Err(f),
            Ok(gi) => gen_for_from(gi, s, g.locals.len(), g.depth),
        },
        Statement::BreakStatement => Ok(break_code(g)),
        Statement::ContinueStatement => Ok(continue_code(g)),
        Statement::BlockStatement(ss) => match gen_stmts(at_depth(g, deeper(g.depth)), ss@, 0) {
            Err(f) => Err(f),
            Ok(g2) => Ok(at_depth(popped_to(g2, g.locals.len()), g.depth)),
        },
        Statement::FunctionDeclaration { name, params, body, is_async: _ } => match gen_stmts(entered(g, Some(name@), names(params@)), body@, 0) {
            Err(f) => Err(f),
            Ok(g2) => Ok(declared(left_fn(g, g2), name)),
        },
        _ => Err((ErrorClass::Internal, "Unsupported statement"@)),
    }
}

/// The code of the statements `ss[i..]` in order, each value popped.
pub open spec fn gen_stmts(g: GenState, ss: Seq<Statement>, i: int) -> Result<GenState, Fault>
    decreases ss, ss.len() - i,
{
    if i < 0 || i >= ss.len() {
        Ok(g)
    } else {
        match gen_stmt(g, ss[i], false) {
            Err(f) => Err(f),
            Ok(g1) => gen_stmts(g1, ss, i + 1),
        }
    }
}

/// The tests of a switch's cases `cs[i..]`, in order: for a case with a
/// test, the value of local `slot`, the test, a strict comparison and a
/// jump taken on a match, recorded in `jumps`; for the default case, a jump,
/// recorded as `default`.
pub open spec fn gen_case_tests(g: GenState, cs: Seq<SwitchCase>, i: int, slot: u16, jumps: Seq<usize>, default: Option<usize>)
    -> Result<(GenState, Seq<usize>, Option<usize>), Fault>
    decreases cs, cs.len() - i,
{
    if i < 0 || i >= cs.len() {
        Ok((g, jumps, default))
    } else {
        match cs[i].test {
            Some(t) => match gen_expr(emitted(g, Instruction::LoadLocal(slot)), t) {
                Err(f) => Err(f),
                Ok(g1) => {
                    let g2 = emitted(g1, Instruction::StrictEq);
                    gen_case_tests(emitted(g2, Instruction::JumpIf(0)), cs, i + 1, slot, jumps.push(g2.code.len() as usize), default)
                },
            },
            None => gen_case_tests(emitted(g, Instruction::Jump(0)), cs, i + 1, slot, jumps, Some(g.code.len() as usize)),
        }
    }
}

/// `locals` without its last entry, where it has one.
/// The name that a `for … in` or `for … of` loop binds.
pub open spec fn loop_var(left: ForInLeft) -> Seq<char> {
    match left {
        ForInLeft::Identifier(n) => n@,
        ForInLeft::VariableDeclaration { kind: _, id } => id@,
    }
}

/// `g` with a new local named `name`.
pub open spec fn with_local(g: GenState, name: Seq<char>) -> GenState {
    GenState { locals: g.locals.push(name), ..g }
}

/// `g` after the constant `c` is added and loaded.
pub open spec fn loaded(g: GenState, c: ConstView) -> GenState {
    emitted(with_const(g, c), Instruction::LoadConst(g.consts.len() as u32))
}

/// The start of a `for … in` loop once the object is on the stack: its keys,
/// a counter from 0 and the number of keys, each stored into a new local
/// (slots `k`, `k + 1`, `k + 2`, where `k` is the number of locals before).
pub open spec fn for_in_setup(g1: GenState) -> GenState {
    let k = g1.locals.len();
    let g3 = emitted(with_local(emitted(g1, Instruction::GetKeys), "__keys"@), Instruction::StoreLocal(k as u16));
    let g5 = emitted(loaded(with_local(g3, "__idx"@), ConstView::Number("0"@)), Instruction::StoreLocal((k + 1) as u16));
    let g7 = emitted(
        loaded(emitted(with_local(g5, "__len"@), Instruction::LoadLocal(k as u16)), ConstView::String("length"@)),
        Instruction::GetProperty,
    );
    emitted(g7, Instruction::StoreLocal((k + 2) as u16))
}

/// `g` with the iterator step at `at` aimed at `target` once the iterator
/// is done; anything else is left alone.
pub open spec fn next_patched(g: GenState, at: usize, target: u32) -> GenState {
    GenState {
        code: if at < g.code.len() && g.code[at as int] is IteratorNext {
            g.code.update(at as int, Instruction::IteratorNext(target))
        } else if at < g.code.len() && g.code[at as int] is AsyncIteratorNext {
            g.code.update(at as int, Instruction::AsyncIteratorNext(target))
        } else {
            g.code
        },
        ..g
    }
}

/// `locals` without its last entry, where it has one.
pub open spec fn locals_popped(locals: Seq<Seq<char>>) -> Seq<Seq<char>> {
    if locals.len() > 0 { locals.drop_last() } else { locals }
}

/// `g` with the handler set up at `at` aimed at `catch_pc` and `finally_pc`.
pub open spec fn try_targets(g: GenState, at: usize, catch_pc: u32, finally_pc: u32) -> GenState {
    GenState {
        code: if at < g.code.len() && g.code[at as int] is TryJump {
            g.code.update(at as int, Instruction::TryJump(catch_pc, finally_pc))
        } else {
            g.code
        },
        ..g
    }
}

/// The code of a `catch` clause: the exception stored into a new local named
/// `param`, then the body, whose last statement keeps its value where
/// `keep` holds.
pub open spec fn gen_catch(g: GenState, param: Seq<char>, body: Seq<Statement>, keep: bool) -> Result<GenState, Fault>
    decreases body, body.len() + 1,
{
    let l = g.locals.push(param);
    let g1 = emitted(emitted(GenState { locals: l, ..g }, Instruction::LoadException), Instruction::StoreLocal((l.len() - 1) as u16));
    if keep { gen_top(g1, body, 0) } else { gen_stmts(g1, body, 0) }
}

/// Entering the body of case `c`: the first jump left in `jumps` (for a case
/// with a test) or the default's jump (for the default) is aimed here and
/// used up.
pub open spec fn case_entered(g: GenState, c: SwitchCase, jumps: Seq<usize>, default: Option<usize>)
    -> (GenState, Seq<usize>, Option<usize>)
{
    if c.test is Some {
        if jumps.len() > 0 {
            (patched(g, jumps[0], g.code.len() as usize), jumps.subrange(1, jumps.len() as int), default)
        } else {
            (g, jumps, default)
        }
    } else {
        match default {
            Some(j) => (patched(g, j, g.code.len() as usize), jumps, None),
            None => (g, jumps, default),
        }
    }
}

/// The bodies of a switch's cases `cs[i..]`, in order, each entered as
/// `case_entered` says.
pub open spec fn gen_case_bodies(g: GenState, cs: Seq<SwitchCase>, i: int, jumps: Seq<usize>, default: Option<usize>)
    -> Result<GenState, Fault>
    decreases cs, cs.len() - i,
{
    if i < 0 || i >= cs.len() {
        Ok(g)
    } else {
        let (g1, j1, d1) = case_entered(g, cs[i], jumps, default);
        match gen_stmts(g1, cs[i].consequent@, 0) {
            Err(f) => Err(f),
            Ok(g2) => gen_case_bodies(g2, cs, i + 1, j1, d1),
        }
    }
}

/// The code of the declarators `ds[i..]`: each initializer (or `undefined`),
/// then the store into the declared name.
pub open spec fn gen_decls(g: GenState, ds: Seq<VariableDeclarator>, i: int) -> Result<GenState, Fault>
    decreases ds, ds.len() - i,
{
    if i < 0 || i >= ds.len() {
        Ok(g)
    } else {
        let value = match ds[i].init {
            Some(e) => gen_expr(g, e),
            None => Ok(emitted(g, Instruction::LoadUndefined)),
        };
        match value {
            Err(f) => Err(f),
            Ok(g1) => gen_decls(declared(g1, ds[i].id), ds, i + 1),
        }
    }
}

/// The code of a program's statements `ss[i..]`: the value of the last one
/// stays on the stack.
pub open spec fn gen_top(g: GenState, ss: Seq<Statement>, i: int) -> Result<GenState, Fault>
    decreases ss, ss.len() - i,
{
    if i < 0 || i >= ss.len() {
        Ok(g)
    } else {
        match gen_stmt(g, ss[i], i + 1 == ss.len()) {
            Err(f) => Err(f),
            Ok(g1) => gen_top(g1, ss, i + 1),
        }
    }
}

/// The code of a program: its statements, or `undefined` where it has none.
pub open spec fn gen_program(g: GenState, ss: Seq<Statement>) -> Result<GenState, Fault> {
    if ss.len() == 0 {
        Ok(emitted(g, Instruction::LoadUndefined))
    } else {
        gen_top(g, ss, 0)
    }
}

/// Generation fails only with a runtime error (an invalid assignment target)
/// or an internal error (a construct it does not handle).
pub open spec fn codegen_fault(r: Result<GenState, Fault>) -> bool {
    r matches Err(f) ==> (f.0 is Runtime || f.0 is Internal)
}

/// The faults of generating a property key are code generation faults.
pub proof fn lemma_key_faults(g: GenState, computed: bool, p: Expression)
    ensures
        codegen_fault(gen_key(g, computed, p)),
    decreases p, 1nat,
{
    lemma_expr_faults(g, p);
}

/// The faults of generating a member reference are code generation faults.
pub proof fn lemma_ref_faults(g: GenState, m: Expression)
    ensures
        codegen_fault(gen_ref(g, m)),
    decreases m, 1nat,
{
    if let Expression::Member { object, property, computed } = m {
        lemma_expr_faults(g, *object);
        if let Ok(g1) = gen_expr(g, *object) {
            lemma_key_faults(g1, computed, *property);
        }
    }
}

/// The faults of generating an expression are code generation faults.
pub proof fn lemma_expr_faults(g: GenState, e: Expression)
    ensures
        codegen_fault(gen_expr(g, e)),
    decreases e, 0nat,
{
    match e {
        Expression::BinaryOp { op, left, right } => {
            lemma_expr_faults(g, *left);
            if let Ok(g1) = gen_expr(g, *left) {
                lemma_expr_faults(g1, *right);
                let dup = !(op is NullishCoalescing);
                let jump = if op is And {
                    Instruction::JumpIfNot(0)
                } else if op is Or {
                    Instruction::JumpIf(0)
                } else {
                    Instruction::JumpIfNotUndefined(0)
                };
                lemma_expr_faults(branch_opened(g1, dup, jump), *right);
            }
        },
        Expression::UnaryOp { op, operand } => {
            lemma_expr_faults(g, *operand);
            lemma_ref_faults(g, *operand);
        },
        Expression::Assignment { target, value, op } => {
            lemma_expr_faults(g, *value);
            lemma_expr_faults(g, *target);
            lemma_ref_faults(g, *target);
            if let Ok(g1) = gen_expr(g, *target) {
                lemma_expr_faults(g1, *value);
                if let Ok(g2) = gen_expr(g1, *value) {
                    if let Some(cop) = op {
                        let g3 = emitted(g2, compound_instruction(cop));
                        lemma_ref_faults(emitted(g3, Instruction::Dup), *target);
                    }
                }
            }
            if let Ok(g2) = gen_ref(g, *target) {
                lemma_expr_faults(g2, *value);
            }
        },
        Expression::UpdateExpression { op, operand, prefix } => {
            lemma_expr_faults(g, *operand);
            lemma_ref_faults(g, *operand);
            if let Ok(g1) = gen_ref(g, *operand) {
                let g2 = emitted(g1, Instruction::GetProperty);
                let g3 = if prefix {
                    emitted(emitted(with_one(g2), update_instruction(op)), Instruction::Dup)
                } else {
                    emitted(with_one(emitted(g2, Instruction::Dup)), update_instruction(op))
                };
                lemma_ref_faults(g3, *operand);
            }
        },
        Expression::AwaitExpression { argument } => {
            lemma_expr_faults(g, *argument);
        },
        Expression::SuperCall { args } => {
            lemma_exprs_faults(emitted(g, Instruction::LoadThis), args@, 0);
        },
        Expression::SuperMember { property, computed } => {
            lemma_key_faults(emitted(g, Instruction::LoadThis), computed, *property);
        },
        Expression::TemplateLiteral { quasis, expressions } => {
            if expressions@.len() > 0 {
                let first_empty = quasis@.len() == 0 || quasis@[0]@.len() == 0;
                let g1 = if first_empty { g } else { loaded(g, ConstView::String(quasis@[0]@)) };
                lemma_template_faults(g1, quasis@, expressions@, 0, first_empty);
            }
        },
        Expression::OptionalMember { object, property, computed } => {
            lemma_expr_faults(g, *object);
            if let Ok(g1) = gen_expr(g, *object) {
                lemma_key_faults(emitted(emitted(g1, Instruction::Dup), Instruction::JumpIfUndefined(0)), computed, *property);
            }
        },
        Expression::ConditionalExpression { test, consequent, alternate } => {
            lemma_expr_faults(g, *test);
            if let Ok(g1) = gen_expr(g, *test) {
                lemma_expr_faults(emitted(g1, Instruction::JumpIfNot(0)), *consequent);
                if let Ok(g2) = gen_expr(emitted(g1, Instruction::JumpIfNot(0)), *consequent) {
                    let g3 = emitted(g2, Instruction::Jump(0));
                    lemma_expr_faults(patched(g3, g1.code.len() as usize, g3.code.len() as usize), *alternate);
                }
            }
        },
        Expression::NewExpression { callee, args } => {
            lemma_expr_faults(g, *callee);
            if let Ok(g1) = gen_expr(g, *callee) {
                lemma_exprs_faults(g1, args@, 0);
            }
        },
        Expression::ArrayLiteral { elements } => {
            lemma_exprs_rev_faults(g, elements@, elements@.len() as int);
            lemma_spread_faults(emitted(g, Instruction::NewArray(0)), elements@, 0);
        },
        Expression::ObjectLiteral { properties } => {
            lemma_props_faults(emitted(g, Instruction::NewObject), properties@, 0);
        },
        Expression::Call { callee, args } => {
            match *callee {
                Expression::Member { object, property, computed } => {
                    lemma_expr_faults(g, *object);
                    if let Ok(g1) = gen_expr(g, *object) {
                        lemma_key_faults(g1, computed, *property);
                        if let Ok(g2) = gen_key(g1, computed, *property) {
                            lemma_exprs_faults(g2, args@, 0);
                        }
                    }
                },
                _ => {
                    lemma_exprs_faults(g, args@, 0);
                    if let Ok(g1) = gen_exprs(g, args@, 0) {
                        lemma_expr_faults(g1, *callee);
                    }
                },
            }
        },
        Expression::Member { object, property, computed } => {
            lemma_expr_faults(g, *object);
            if let Ok(g1) = gen_expr(g, *object) {
                lemma_key_faults(g1, computed, *property);
            }
        },
        Expression::FunctionExpression { name: _, params, body, is_async: _ } => {
            lemma_stmts_faults(entered(g, None, names(params@)), body@, 0);
        },
        Expression::TypeAssertion { expression, type_annotation: _ } => {
            lemma_expr_faults(g, *expression);
        },
        Expression::ArrowFunction { params, body, is_async: _ } => match *body {
            ArrowFunctionBody::Block(stmts) => {
                lemma_stmts_faults(entered(g, None, names(params@)), stmts@, 0);
            },
            ArrowFunctionBody::Expression(e) => {
                lemma_expr_faults(entered(g, None, names(params@)), e);
            },
        },
        _ => {},
    }
}

/// The faults of generating expressions in turn are code generation faults.
pub proof fn lemma_exprs_faults(g: GenState, es: Seq<Expression>, i: int)
    ensures
        codegen_fault(gen_exprs(g, es, i)),
    decreases es, es.len() - i,
{
    if 0 <= i < es.len() {
        lemma_expr_faults(g, es[i]);
        if let Ok(g1) = gen_expr(g, es[i]) {
            lemma_exprs_faults(g1, es, i + 1);
        }
    }
}

/// The faults of generating the rest of a template literal are code
/// generation faults.
pub proof fn lemma_template_faults(g: GenState, qs: Seq<String>, es: Seq<Expression>, i: int, first_empty: bool)
    ensures
        codegen_fault(gen_template(g, qs, es, i, first_empty)),
    decreases es, es.len() - i,
{
    if 0 <= i < es.len() {
        lemma_expr_faults(g, es[i]);
        if let Ok(g2) = gen_expr(g, es[i]) {
            let g3 = emitted(g2, Instruction::ToString);
            let g4 = if first_empty && i == 0 { g3 } else { emitted(g3, Instruction::Add) };
            let g5 = if i + 1 < qs.len() && qs[i + 1]@.len() > 0 {
                emitted(loaded(g4, ConstView::String(qs[i + 1]@)), Instruction::Add)
            } else {
                g4
            };
            lemma_template_faults(g5, qs, es, i + 1, first_empty);
        }
    }
}

/// The faults of generating expressions last to first are code generation faults.
pub proof fn lemma_exprs_rev_faults(g: GenState, es: Seq<Expression>, n: int)
    ensures
        codegen_fault(gen_exprs_rev(g, es, n)),
    decreases es, n,
{
    if 0 < n <= es.len() {
        lemma_expr_faults(g, es[n - 1]);
        if let Ok(g1) = gen_expr(g, es[n - 1]) {
            lemma_exprs_rev_faults(g1, es, n - 1);
        }
    }
}

/// The faults of generating one element of an array with a spread are code
/// generation faults.
pub proof fn lemma_spread_elem_faults(g: GenState, e: Expression)
    ensures
        codegen_fault(gen_spread_elem(g, e)),
    decreases e, 1nat,
{
    match e {
        Expression::SpreadElement { argument } => {
            lemma_expr_faults(emitted(g, Instruction::Dup), *argument);
        },
        _ => {
            lemma_expr_faults(emitted(g, Instruction::Dup), e);
        },
    }
}

/// The faults of generating the elements of an array with a spread are code
/// generation faults.
pub proof fn lemma_spread_faults(g: GenState, es: Seq<Expression>, i: int)
    ensures
        codegen_fault(gen_spread_elems(g, es, i)),
    decreases es, es.len() - i,
{
    if 0 <= i < es.len() {
        lemma_spread_elem_faults(g, es[i]);
        if let Ok(g1) = gen_spread_elem(g, es[i]) {
            lemma_spread_faults(g1, es, i + 1);
        }
    }
}

/// The faults of generating an object's properties are code generation faults.
pub proof fn lemma_props_faults(g: GenState, ps: Seq<(String, Expression)>, i: int)
    ensures
        codegen_fault(gen_props(g, ps, i)),
    decreases ps, ps.len() - i,
{
    if 0 <= i < ps.len() {
        let g1 = emitted(with_const(g, ConstView::String(ps[i].0@)), Instruction::LoadConst(g.consts.len() as u32));
        lemma_expr_faults(g1, ps[i].1);
        if let Ok(g2) = gen_expr(g1, ps[i].1) {
            lemma_props_faults(emitted(g2, Instruction::SetProperty), ps, i + 1);
        }
    }
}

/// The faults of generating a statement are code generation faults.
pub proof fn lemma_stmt_faults(g: GenState, s: Statement, is_last: bool)
    ensures
        codegen_fault(gen_stmt(g, s, is_last)),
    decreases s, 1nat,
{
    match s {
        Statement::Expression(e) => {
            lemma_expr_faults(g, e);
        },
        Statement::VariableDeclaration { kind: _, declarations } => {
            lemma_decls_faults(g, declarations@, 0);
        },
        Statement::ThrowStatement(e) => {
            lemma_expr_faults(g, e);
        },
        Statement::TryStatement { block, handler, finalizer } => {
            let g0 = at_depth(g, deeper(g.depth));
            lemma_stmts_faults(emitted(g0, Instruction::TryJump(0, 0)), block@, 0);
            if let Ok(g2) = gen_stmts(emitted(g0, Instruction::TryJump(0, 0)), block@, 0) {
                let g3 = emitted(g2, Instruction::PopTryHandler);
                let jump_past = g3.code.len() as usize;
                let g4 = if handler is Some { emitted(g3, Instruction::Jump(0)) } else { g3 };
                let catch_pc: u32 = if handler is Some { g4.code.len() as u32 } else { 0 };
                if let Some(c) = handler {
                    lemma_catch_faults(g4, c.param@, c.body@, finalizer is None);
                }
                let rc = match handler {
                    Some(c) => gen_catch(g4, c.param@, c.body@, finalizer is None),
                    None => Ok(g4),
                };
                if let Ok(g6) = rc {
                    let finally_pc = g6.code.len() as u32;
                    let g7 = if handler is Some { patched(g6, jump_past, finally_pc as usize) } else { g6 };
                    let g8 = try_targets(g7, g0.code.len() as usize, catch_pc, finally_pc);
                    if let Some(fs) = finalizer {
                        lemma_stmts_faults(g8, fs@, 0);
                    }
                }
            }
        },
        Statement::ForInStatement { left, right, body } => {
            let g0 = with_local(at_depth(g, deeper(g.depth)), loop_var(left));
            let var_slot = (g0.locals.len() - 1) as u16;
            lemma_expr_faults(g0, right);
            if let Ok(g1) = gen_expr(g0, right) {
                let k = g1.locals.len();
                let g8 = for_in_setup(g1);
                let g9 = emitted(emitted(emitted(g8, Instruction::LoadLocal((k + 1) as u16)), Instruction::LoadLocal((k + 2) as u16)), Instruction::Less);
                let g11 = emitted(
                    emitted(emitted(emitted(emitted(g9, Instruction::JumpIfNot(0)), Instruction::LoadLocal(k as u16)), Instruction::LoadLocal((k + 1) as u16)), Instruction::GetProperty),
                    Instruction::StoreLocal(var_slot),
                );
                lemma_stmt_faults(g11, *body, false);
            }
        },
        Statement::ForOfStatement { left, right, body, is_async } => {
            let g0 = with_local(emitted(at_depth(g, deeper(g.depth)), Instruction::LoadUndefined), loop_var(left));
            let var_slot = (g0.locals.len() - 1) as u16;
            lemma_expr_faults(g0, right);
            if let Ok(g1) = gen_expr(g0, right) {
                let g2 = emitted(g1, if is_async { Instruction::GetAsyncIterator } else { Instruction::GetIterator });
                let k = g2.locals.len();
                let g3 = emitted(with_local(g2, "__iter"@), Instruction::StoreLocal(k as u16));
                let g4 = emitted(g3, Instruction::LoadLocal(k as u16));
                let g5 = emitted(
                    emitted(g4, if is_async { Instruction::AsyncIteratorNext(0) } else { Instruction::IteratorNext(0) }),
                    Instruction::StoreLocal(var_slot),
                );
                lemma_stmt_faults(g5, *body, false);
            }
        },
        Statement::SwitchStatement { discriminant, cases } => {
            lemma_expr_faults(g, discriminant);
            if let Ok(g1) = gen_expr(g, discriminant) {
                let l = g1.locals.push("__switch_val"@);
                let slot = (l.len() - 1) as u16;
                let g2 = emitted(GenState { locals: l, ..g1 }, Instruction::StoreLocal(slot));
                lemma_case_tests_faults(g2, cases@, 0, slot, Seq::empty(), None);
                if let Ok((g3, jumps, default)) = gen_case_tests(g2, cases@, 0, slot, Seq::empty(), None) {
                    let g4 = break_scope(emitted(g3, Instruction::Jump(0)));
                    lemma_case_bodies_faults(g4, cases@, 0, jumps, default);
                }
            }
        },
        Statement::ReturnStatement(v) => {
            if let Some(e) = v {
                lemma_expr_faults(g, e);
            }
        },
        Statement::YieldStatement(v) => {
            if let Some(e) = v {
                lemma_expr_faults(g, e);
            }
        },
        Statement::IfStatement { condition, consequent, alternate } => {
            lemma_expr_faults(g, condition);
            if let Ok(g1) = gen_expr(g, condition) {
                let g2 = emitted(g1, Instruction::JumpIfNot(0));
                lemma_stmt_faults(g2, *consequent, false);
                if let Ok(g3) = gen_stmt(g2, *consequent, false) {
                    if let Some(a) = alternate {
                        let g4 = emitted(g3, Instruction::Jump(0));
                        lemma_stmt_faults(patched(g4, g1.code.len() as usize, g4.code.len() as usize), *a, false);
                    }
                }
            }
        },
        Statement::WhileStatement { condition, body } => {
            lemma_expr_faults(break_scope(g), condition);
            if let Ok(g1) = gen_expr(break_scope(g), condition) {
                let g2 = emitted(g1, Instruction::JumpIfNot(0));
                lemma_stmt_faults(GenState { conts: g2.conts.push(g.code.len() as u32 as usize), ..g2 }, *body, false);
            }
        },
        Statement::DoWhileStatement { condition, body } => {
            lemma_stmt_faults(break_scope(g), *body, false);
            if let Ok(g1) = gen_stmt(break_scope(g), *body, false) {
                lemma_expr_faults(g1, condition);
            }
        },
        Statement::ForStatement { init, condition: _, update: _, body: _ } => {
            let ga = at_depth(g, deeper(g.depth));
            lemma_for_init_faults(ga, init);
            if let Ok(gi) = gen_for_init(ga, init) {
                lemma_for_from_faults(gi, s, g.locals.len(), g.depth);
            }
        },
        Statement::BlockStatement(ss) => {
            lemma_stmts_faults(at_depth(g, deeper(g.depth)), ss@, 0);
        },
        Statement::FunctionDeclaration { name, params, body, is_async: _ } => {
            lemma_stmts_faults(entered(g, Some(name@), names(params@)), body@, 0);
        },
        _ => {},
    }
}

/// The faults of the rest of a `for` loop are code generation faults.
pub proof fn lemma_for_from_faults(gi: GenState, s: Statement, prev: nat, depth: usize)
    ensures
        codegen_fault(gen_for_from(gi, s, prev, depth)),
    decreases s, 0nat,
{
    if let Statement::ForStatement { init: _, condition, update, body } = s {
        let gj = emitted(gi, Instruction::Jump(0));
        let gk = GenState { conts: gj.conts.push(usize::MAX), breaks: gj.breaks.push(usize::MAX), ..gj };
        lemma_stmt_faults(gk, *body, false);
        if let Ok(gb) = gen_stmt(gk, *body, false) {
            let gc = conts_popped(conts_patched(gb, gj.cont_patches.len(), gb.code.len() as usize));
            lemma_dropped_faults(gc, update);
            if let Ok(gu) = gen_dropped(gc, update) {
                lemma_for_check_faults(gu, condition, gi.code.len() as usize, gj.code.len() as u32, gj.breaks.len());
            }
        }
    }
}

/// The faults of a `for` loop's first clause are code generation faults.
pub proof fn lemma_for_init_faults(g: GenState, init: Option<Box<ForInit>>)
    ensures
        codegen_fault(gen_for_init(g, init)),
    decreases init, 2nat,
{
    if let Some(b) = init {
        match *b {
            ForInit::Variable(st) => lemma_stmt_faults(g, st, false),
            ForInit::Expression(e) => lemma_expr_faults(g, e),
        }
    }
}

/// The faults of an optional dropped expression are code generation faults.
pub proof fn lemma_dropped_faults(g: GenState, e: Option<Expression>)
    ensures
        codegen_fault(gen_dropped(g, e)),
    decreases e, 2nat,
{
    if let Some(x) = e {
        lemma_expr_faults(g, x);
    }
}

/// The faults of a `for` loop's check are code generation faults.
pub proof fn lemma_for_check_faults(gu: GenState, condition: Option<Expression>, jc: usize, body_start: u32, bs: nat)
    ensures
        codegen_fault(gen_for_check(gu, condition, jc, body_start, bs)),
    decreases condition, 2nat,
{
    if let Some(c) = condition {
        lemma_expr_faults(patched(gu, jc, gu.code.len() as usize), c);
    }
}

/// The faults of generating a switch's case tests are code generation faults.
pub proof fn lemma_case_tests_faults(g: GenState, cs: Seq<SwitchCase>, i: int, slot: u16, jumps: Seq<usize>, default: Option<usize>)
    ensures
        gen_case_tests(g, cs, i, slot, jumps, default) matches Err(f) ==> (f.0 is Runtime || f.0 is Internal),
    decreases cs, cs.len() - i,
{
    if 0 <= i < cs.len() {
        match cs[i].test {
            Some(t) => {
                lemma_expr_faults(emitted(g, Instruction::LoadLocal(slot)), t);
                if let Ok(g1) = gen_expr(emitted(g, Instruction::LoadLocal(slot)), t) {
                    let g2 = emitted(g1, Instruction::StrictEq);
                    lemma_case_tests_faults(emitted(g2, Instruction::JumpIf(0)), cs, i + 1, slot, jumps.push(g2.code.len() as usize), default);
                }
            },
            None => {
                lemma_case_tests_faults(emitted(g, Instruction::Jump(0)), cs, i + 1, slot, jumps, Some(g.code.len() as usize));
            },
        }
    }
}

/// The faults of generating a switch's case bodies are code generation faults.
pub proof fn lemma_case_bodies_faults(g: GenState, cs: Seq<SwitchCase>, i: int, jumps: Seq<usize>, default: Option<usize>)
    ensures
        codegen_fault(gen_case_bodies(g, cs, i, jumps, default)),
    decreases cs, cs.len() - i,
{
    if 0 <= i < cs.len() {
        let (g1, j1, d1) = case_entered(g, cs[i], jumps, default);
        lemma_stmts_faults(g1, cs[i].consequent@, 0);
        if let Ok(g2) = gen_stmts(g1, cs[i].consequent@, 0) {
            lemma_case_bodies_faults(g2, cs, i + 1, j1, d1);
        }
    }
}

/// The faults of generating a `catch` clause are code generation faults.
pub proof fn lemma_catch_faults(g: GenState, param: Seq<char>, body: Seq<Statement>, keep: bool)
    ensures
        codegen_fault(gen_catch(g, param, body, keep)),
    decreases body, body.len() + 1,
{
    let l = g.locals.push(param);
    let g1 = emitted(emitted(GenState { locals: l, ..g }, Instruction::LoadException), Instruction::StoreLocal((l.len() - 1) as u16));
    if keep {
        lemma_program_faults(g1, body, 0);
    } else {
        lemma_stmts_faults(g1, body, 0);
    }
}

/// The faults of generating statements in turn are code generation faults.
pub proof fn lemma_stmts_faults(g: GenState, ss: Seq<Statement>, i: int)
    ensures
        codegen_fault(gen_stmts(g, ss, i)),
    decreases ss, ss.len() - i,
{
    if 0 <= i < ss.len() {
        lemma_stmt_faults(g, ss[i], false);
        if let Ok(g1) = gen_stmt(g, ss[i], false) {
            lemma_stmts_faults(g1, ss, i + 1);
        }
    }
}

/// The faults of generating declarators in turn are code generation faults.
pub proof fn lemma_decls_faults(g: GenState, ds: Seq<VariableDeclarator>, i: int)
    ensures
        codegen_fault(gen_decls(g, ds, i)),
    decreases ds, ds.len() - i,
{
    if 0 <= i < ds.len() {
        if let Some(e) = ds[i].init {
            lemma_expr_faults(g, e);
        }
        let value = match ds[i].init {
            Some(e) => gen_expr(g, e),
            None => Ok(emitted(g, Instruction::LoadUndefined)),
        };
        if let Ok(g1) = value {
            lemma_decls_faults(declared(g1, ds[i].id), ds, i + 1);
        }
    }
}

/// Generating a program fails only with a runtime or an internal error.
pub proof fn lemma_program_faults(g: GenState, ss: Seq<Statement>, i: int)
    ensures
        codegen_fault(gen_top(g, ss, i)),
        i == 0 ==> codegen_fault(gen_program(g, ss)),
    decreases ss, ss.len() - i,
{
    if 0 <= i < ss.len() {
        lemma_stmt_faults(g, ss[i], i + 1 == ss.len());
        if let Ok(g1) = gen_stmt(g, ss[i], i + 1 == ss.len()) {
            lemma_program_faults(g1, ss, i + 1);
        }
    }
}

/// `m` is the module that generation ending in state `g` gives: its code,
/// constants and functions, no classes, a source position per instruction.
pub open spec fn compiled_as(m: CompiledModule<Constant>, g: GenState) -> bool {
    &&& m.instructions@ == g.code
    &&& consts_view(m.constants@) == g.consts
    &&& entries_view(m.functions@) == g.funcs
    &&& m.class_infos@.len() == 0
    &&& m.source_lines@.len() == g.code.len()
    &&& m.source_cols@.len() == g.code.len()
}

/// What the generator keeps as it goes: the tables stay aligned, and the
/// captured variables, where the current function's locals start and the
/// current source position stay as they were.
pub open spec fn kept(before: CodeGenerator<Constant>, after: CodeGenerator<Constant>) -> bool {
    &&& after.source_lines@.len() == after.instructions@.len()
    &&& after.source_cols@.len() == after.instructions@.len()
    &&& after.captured_var_names@ == before.captured_var_names@
    &&& after.local_start_idx == before.local_start_idx
    &&& after.current_source_line == before.current_source_line
    &&& after.current_source_col == before.current_source_col
}

/// A copy of a list of strings.
fn clone_strings(v: &Vec<String>) -> (r: Vec<String>)
    ensures
        r@ == v@,
{
    let mut out: Vec<String> = Vec::new();
    let mut i: usize = 0;
    while i < v.len()
        invariant
            i <= v@.len(),
            out@ == v@.take(i as int),
        decreases v@.len() - i,
    {
        out.push(v[i].clone());
        assert(out@ =~= v@.take(i + 1));
        i += 1;
    }
    assert(v@.take(v@.len() as int) == v@);
    out
}

impl CodeGenerator<Constant> {
    /// The position of the innermost local named `name`.
    fn innermost_local(&self, name: &str) -> (r: Option<u16>)
        ensures
            match r {
                Some(i) => last_index(names(self.locals@), name@) >= 0
                    && i == (last_index(names(self.locals@), name@) as u16),
                None => last_index(names(self.locals@), name@) == -1,
            },
    {
        let ghost ns = names(self.locals@);
        let mut k = self.locals.len();
        assert(ns.take(k as int) == ns);
        while k > 0
            invariant
                k <= self.locals@.len(),
                ns == names(self.locals@),
                last_index(ns, name@) == last_index(ns.take(k as int), name@),
            decreases k,
        {
            assert(ns.take(k as int).last() == self.locals@[k - 1]@);
            assert(ns.take(k as int).drop_last() == ns.take(k - 1));
            if crate::text::str_eq(self.locals[k - 1].as_str(), name) {
                return Some((k - 1) as u16);
            }
            k -= 1;
        }
        None
    }

    /// Stores the top of the stack into `name`: a global at the top level,
    /// else a new local.
    fn store_declared(&mut self, name: &String)
        requires
            old(self).aligned(),
        ensures
            kept(*old(self), *final(self)),
            gen_view(*final(self)) == declared(gen_view(*old(self)), *name),
    {
        let ghost g = gen_view(*self);
        if self.scope_depth == 0 {
            self.emit(Instruction::StoreGlobal(name.clone()));
        } else {
            self.locals.push(name.clone());
            assert(names(self.locals@) =~= g.locals.push(name@));
            let slot = (self.locals.len() - 1) as u16;
            self.emit(Instruction::StoreLocal(slot));
        }
        assert(gen_view(*self) =~= declared(g, *name));
    }

    /// Emits the variable read for `name`.
    fn load_variable(&mut self, name: &String)
        requires
            old(self).aligned(),
        ensures
            kept(*old(self), *final(self)),
            gen_view(*final(self)) == emitted(gen_view(*old(self)), load_of(gen_view(*old(self)), *name)),
    {
        let ghost g = gen_view(*self);
        match self.innermost_local(name.as_str()) {
            Some(i) => self.emit(Instruction::LoadLocal(i)),
            None => self.emit(Instruction::LoadGlobal(name.clone())),
        }
        assert(gen_view(*self) =~= emitted(g, load_of(g, *name)));
    }

    /// Emits the variable write for `name`.
    fn store_variable(&mut self, name: &String)
        requires
            old(self).aligned(),
        ensures
            kept(*old(self), *final(self)),
            gen_view(*final(self)) == emitted(gen_view(*old(self)), store_of(gen_view(*old(self)), *name)),
    {
        let ghost g = gen_view(*self);
        match self.innermost_local(name.as_str()) {
            Some(i) => self.emit(Instruction::StoreLocal(i)),
            None => self.emit(Instruction::StoreGlobal(name.clone())),
        }
        assert(gen_view(*self) =~= emitted(g, store_of(g, *name)));
    }

    /// Emits `LoadConst` of a new constant `c`.
    fn load_constant(&mut self, c: Constant)
        requires
            old(self).aligned(),
        ensures
            kept(*old(self), *final(self)),
            final(self).locals@ == old(self).locals@,
            gen_view(*final(self)) == emitted(
                with_const(gen_view(*old(self)), const_view(c)),
                Instruction::LoadConst(gen_view(*old(self)).consts.len() as u32),
            ),
    {
        let ghost g = gen_view(*self);
        let ghost before = self.constants@;
        let idx = self.add_constant(c);
        self.emit(Instruction::LoadConst(idx));
        assert(consts_view(self.constants@) =~= consts_view(before).push(const_view(c)));
        assert(gen_view(*self) =~= emitted(with_const(g, const_view(c)), Instruction::LoadConst(g.consts.len() as u32)));
    }

    /// Emits `instr`.
    fn emit_instr(&mut self, instr: Instruction)
        requires
            old(self).aligned(),
        ensures
            kept(*old(self), *final(self)),
            final(self).locals@ == old(self).locals@,
            gen_view(*final(self)) == emitted(gen_view(*old(self)), instr),
    {
        let ghost g = gen_view(*self);
        self.emit(instr);
        assert(gen_view(*self) =~= emitted(g, instr));
    }

    /// Aims the jump at `at` at `target`.
    fn patch(&mut self, at: usize, target: usize)
        requires
            old(self).aligned(),
        ensures
            kept(*old(self), *final(self)),
            gen_view(*final(self)) == patched(gen_view(*old(self)), at, target),
    {
        let ghost g = gen_view(*self);
        self.patch_jump(at, target);
        assert(gen_view(*self) =~= patched(g, at, target));
    }

    /// The code of a function: a jump over its body, the body with the
    /// parameters as locals, `undefined` returned at its end, then
    /// `MakeFunction`. The function's entry is added to the table first.
    fn generate_function(&mut self, name: Option<String>, params: &Vec<String>, body: &Vec<Statement>) -> (r: Result<(), Error>)
        requires
            old(self).aligned(),
        ensures
            match gen_stmts(entered(gen_view(*old(self)), name_view(name), names(params@)), body@, 0) {
                Ok(g2) => r is Ok && kept(*old(self), *final(self)) && gen_view(*final(self)) == left_fn(gen_view(*old(self)), g2),
                Err(f) => r matches Err(e) && fault_of(e) == f,
            },
        decreases body, 1nat,
    {
        let ghost start = *self;
        let ghost g = gen_view(*old(self));
        let ghost nv = name_view(name);
        let func_idx = self.functions.len() as u32;
        let jump_over = self.instructions.len();
        self.emit(Instruction::Jump(0));
        let func_start = self.instructions.len();
        let param_list = clone_strings(params);
        let ghost before_push = self.functions@;
        self.functions.push(CompiledFunction {
            name,
            params: param_list,
            bytecode_index: func_start,
            param_count: params.len(),
            closure_var_count: 0,
            is_generator: false,
            source_line: None,
        });
        assert(entries_view(self.functions@) =~= entries_view(before_push).push(
            (nv, names(params@), func_start, params@.len() as usize, 0usize, false, None::<usize>),
        ));
        let saved_depth = self.scope_depth;
        self.scope_depth = saved_depth.saturating_add(1);
        let prev_locals = self.locals.len();
        let mut i: usize = 0;
        while i < params.len()
            invariant
                i <= params@.len(),
                kept(*old(self), *self),
                prev_locals == g.locals.len(),
                saved_depth == g.depth,
                jump_over == g.code.len(),
                func_idx == (g.funcs.len() as u32),
                gen_view(*self) == (GenState {
                    locals: g.locals + names(params@).take(i as int),
                    ..entered(g, nv, names(params@))
                }),
            decreases params@.len() - i,
        {
            let ghost before = names(self.locals@);
            self.locals.push(params[i].clone());
            assert(names(self.locals@) =~= before.push(params@[i as int]@));
            assert(names(params@).take(i + 1) =~= names(params@).take(i as int).push(params@[i as int]@));
            i += 1;
        }
        assert(names(params@).take(params@.len() as int) =~= names(params@));
        assert(gen_view(*self) == entered(g, nv, names(params@)));
        let ghost inner = gen_view(*self);
        let mut k: usize = 0;
        while k < body.len()
            invariant
                k <= body@.len(),
                kept(*old(self), *self),
                prev_locals == g.locals.len(),
                saved_depth == g.depth,
                jump_over == g.code.len(),
                func_idx == (g.funcs.len() as u32),
                g == gen_view(*old(self)),
                nv == name_view(name),
                inner == entered(g, nv, names(params@)),
                gen_stmts(inner, body@, 0) == gen_stmts(gen_view(*self), body@, k as int),
            decreases body@.len() - k,
        {
            match self.generate_statement(&body[k], false) { Ok(v) => v, Err(e) => { return Err(e); } };
            k += 1;
        }
        let ghost g2 = gen_view(*self);
        self.emit(Instruction::LoadUndefined);
        self.emit(Instruction::Return);
        self.scope_depth = saved_depth;
        self.locals.truncate(prev_locals);
        let end = self.instructions.len();
        self.patch_jump(jump_over, end);
        self.emit(Instruction::MakeFunction(func_idx));
        assert(gen_view(*self) =~= left_fn(g, g2));
        Ok(())
    }

    /// The code of an arrow function whose body is an expression: as for a
    /// function, with the body's value returned in place of `undefined`.
    fn generate_arrow_expression(&mut self, params: &Vec<String>, body: &Expression) -> (r: Result<(), Error>)
        requires
            old(self).aligned(),
        ensures
            match gen_expr(entered(gen_view(*old(self)), None, names(params@)), *body) {
                Ok(g2) => r is Ok && kept(*old(self), *final(self))
                    && gen_view(*final(self)) == closed_fn(gen_view(*old(self)), emitted(g2, Instruction::Return)),
                Err(f) => r matches Err(e) && fault_of(e) == f,
            },
        decreases body, 1nat,
    {
        let ghost g = gen_view(*old(self));
        let func_idx = self.functions.len() as u32;
        let jump_over = self.instructions.len();
        self.emit(Instruction::Jump(0));
        let func_start = self.instructions.len();
        let param_list = clone_strings(params);
        let ghost before_push = self.functions@;
        self.functions.push(CompiledFunction {
            name: None,
            params: param_list,
            bytecode_index: func_start,
            param_count: params.len(),
            closure_var_count: 0,
            is_generator: false,
            source_line: None,
        });
        assert(entries_view(self.functions@) =~= entries_view(before_push).push(
            (None::<Seq<char>>, names(params@), func_start, params@.len() as usize, 0usize, false, None::<usize>),
        ));
        let saved_depth = self.scope_depth;
        self.scope_depth = saved_depth.saturating_add(1);
        let prev_locals = self.locals.len();
        let mut i: usize = 0;
        while i < params.len()
            invariant
                i <= params@.len(),
                kept(*old(self), *self),
                prev_locals == g.locals.len(),
                saved_depth == g.depth,
                jump_over == g.code.len(),
                func_idx == (g.funcs.len() as u32),
                gen_view(*self) == (GenState {
                    locals: g.locals + names(params@).take(i as int),
                    ..entered(g, None, names(params@))
                }),
            decreases params@.len() - i,
        {
            let ghost before = names(self.locals@);
            self.locals.push(params[i].clone());
            assert(names(self.locals@) =~= before.push(params@[i as int]@));
            assert(names(params@).take(i + 1) =~= names(params@).take(i as int).push(params@[i as int]@));
            i += 1;
        }
        assert(names(params@).take(params@.len() as int) =~= names(params@));
        assert(gen_view(*self) == entered(g, None, names(params@)));
        match self.generate_expression(body) { Ok(v) => v, Err(e) => { return Err(e); } };
        let ghost g2 = gen_view(*self);
        self.emit(Instruction::Return);
        self.scope_depth = saved_depth;
        self.locals.truncate(prev_locals);
        let end = self.instructions.len();
        self.patch_jump(jump_over, end);
        self.emit(Instruction::MakeFunction(func_idx));
        assert(gen_view(*self) =~= closed_fn(g, emitted(g2, Instruction::Return)));
        Ok(())
    }

    /// Emits the code of each argument in turn.
    fn generate_args(&mut self, args: &Vec<Expression>) -> (r: Result<(), Error>)
        requires
            old(self).aligned(),
        ensures
            match gen_exprs(gen_view(*old(self)), args@, 0) {
                Ok(g) => r is Ok && kept(*old(self), *final(self)) && gen_view(*final(self)) == g,
                Err(f) => r matches Err(e) && fault_of(e) == f,
            },
        decreases args, 1nat,
    {
        let ghost start = *self;
        let mut i: usize = 0;
        while i < args.len()
            invariant
                i <= args@.len(),
                kept(*old(self), *self),
                gen_exprs(gen_view(*old(self)), args@, 0) == gen_exprs(gen_view(*self), args@, i as int),
            decreases args@.len() - i,
        {
            match self.generate_expression(&args[i]) { Ok(v) => v, Err(e) => { return Err(e); } };
            i += 1;
        }
        Ok(())
    }

    /// Emits the embedded expressions of a template literal and the text
    /// between them, as `gen_template` says.
    fn generate_template(&mut self, quasis: &Vec<String>, expressions: &Vec<Expression>, first_empty: bool) -> (r: Result<(), Error>)
        requires
            old(self).aligned(),
        ensures
            match gen_template(gen_view(*old(self)), quasis@, expressions@, 0, first_empty) {
                Ok(g) => r is Ok && kept(*old(self), *final(self)) && gen_view(*final(self)) == g,
                Err(f) => r matches Err(e) && fault_of(e) == f,
            },
        decreases expressions, 1nat,
    {
        let mut i: usize = 0;
        while i < expressions.len()
            invariant
                i <= expressions@.len(),
                kept(*old(self), *self),
                self.aligned(),
                gen_template(gen_view(*old(self)), quasis@, expressions@, 0, first_empty)
                    == gen_template(gen_view(*self), quasis@, expressions@, i as int, first_empty),
            decreases expressions@.len() - i,
        {
            match self.generate_expression(&expressions[i]) { Ok(v) => v, Err(e) => { return Err(e); } };
            self.emit_instr(Instruction::ToString);
            if !(first_empty && i == 0) {
                self.emit_instr(Instruction::Add);
            }
            if i + 1 < quasis.len() && quasis[i + 1].unicode_len() > 0 {
                self.load_constant(Constant::String(quasis[i + 1].clone()));
                self.emit_instr(Instruction::Add);
            }
            i += 1;
        }
        Ok(())
    }

    /// Emits the elements of an array literal, last to first.
    fn generate_elements_rev(&mut self, elements: &Vec<Expression>) -> (r: Result<(), Error>)
        requires
            old(self).aligned(),
        ensures
            match gen_exprs_rev(gen_view(*old(self)), elements@, elements@.len() as int) {
                Ok(g) => r is Ok && kept(*old(self), *final(self)) && gen_view(*final(self)) == g,
                Err(f) => r matches Err(e) && fault_of(e) == f,
            },
        decreases elements, 1nat,
    {
        let mut n: usize = elements.len();
        while n > 0
            invariant
                n <= elements@.len(),
                kept(*old(self), *self),
                gen_exprs_rev(gen_view(*old(self)), elements@, elements@.len() as int)
                    == gen_exprs_rev(gen_view(*self), elements@, n as int),
            decreases n,
        {
            match self.generate_expression(&elements[n - 1]) { Ok(v) => v, Err(e) => { return Err(e); } };
            n -= 1;
        }
        Ok(())
    }

    /// Emits one element of an array literal that holds a spread, as
    /// `gen_spread_elem` says.
    fn generate_spread_element(&mut self, e: &Expression) -> (r: Result<(), Error>)
        requires
            old(self).aligned(),
        ensures
            match gen_spread_elem(gen_view(*old(self)), *e) {
                Ok(g) => r is Ok && kept(*old(self), *final(self)) && gen_view(*final(self)) == g,
                Err(f) => r matches Err(e) && fault_of(e) == f,
            },
        decreases e, 1nat,
    {
        self.emit_instr(Instruction::Dup);
        match e {
            Expression::SpreadElement { argument } => {
                match self.generate_expression(argument) { Ok(v) => v, Err(e) => { return Err(e); } };
                self.emit_instr(Instruction::SpreadArray);
            },
            _ => {
                match self.generate_expression(e) { Ok(v) => v, Err(e) => { return Err(e); } };
                self.emit_instr(Instruction::ArrayPush);
            },
        }
        Ok(())
    }

    /// Emits the elements of an array literal that holds a spread, in order.
    fn generate_spread_elements(&mut self, elements: &Vec<Expression>) -> (r: Result<(), Error>)
        requires
            old(self).aligned(),
        ensures
            match gen_spread_elems(gen_view(*old(self)), elements@, 0) {
                Ok(g) => r is Ok && kept(*old(self), *final(self)) && gen_view(*final(self)) == g,
                Err(f) => r matches Err(e) && fault_of(e) == f,
            },
        decreases elements, 1nat,
    {
        let mut i: usize = 0;
        while i < elements.len()
            invariant
                i <= elements@.len(),
                kept(*old(self), *self),
                gen_spread_elems(gen_view(*old(self)), elements@, 0) == gen_spread_elems(gen_view(*self), elements@, i as int),
            decreases elements@.len() - i,
        {
            match self.generate_spread_element(&elements[i]) { Ok(v) => v, Err(e) => { return Err(e); } };
            i += 1;
        }
        Ok(())
    }

    /// Emits the properties of an object literal, as `gen_props` says.
    fn generate_props(&mut self, properties: &Vec<(String, Expression)>) -> (r: Result<(), Error>)
        requires
            old(self).aligned(),
        ensures
            match gen_props(gen_view(*old(self)), properties@, 0) {
                Ok(g) => r is Ok && kept(*old(self), *final(self)) && gen_view(*final(self)) == g,
                Err(f) => r matches Err(e) && fault_of(e) == f,
            },
        decreases properties, 1nat,
    {
        let mut i: usize = 0;
        while i < properties.len()
            invariant
                i <= properties@.len(),
                kept(*old(self), *self),
                gen_props(gen_view(*old(self)), properties@, 0) == gen_props(gen_view(*self), properties@, i as int),
            decreases properties@.len() - i,
        {
            let (key, value) = &properties[i];
            self.load_constant(Constant::String(key.clone()));
            match self.generate_expression(value) { Ok(v) => v, Err(e) => { return Err(e); } };
            self.emit_instr(Instruction::SetProperty);
            i += 1;
        }
        Ok(())
    }

    /// Emits each declarator: its initializer (or `undefined`), then the store.
    fn generate_declarations(&mut self, declarations: &Vec<VariableDeclarator>) -> (r: Result<(), Error>)
        requires
            old(self).aligned(),
        ensures
            match gen_decls(gen_view(*old(self)), declarations@, 0) {
                Ok(g) => r is Ok && kept(*old(self), *final(self)) && gen_view(*final(self)) == g,
                Err(f) => r matches Err(e) && fault_of(e) == f,
            },
        decreases declarations, 1nat,
    {
        let ghost start = *self;
        let mut i: usize = 0;
        while i < declarations.len()
            invariant
                i <= declarations@.len(),
                kept(*old(self), *self),
                gen_decls(gen_view(*old(self)), declarations@, 0) == gen_decls(gen_view(*self), declarations@, i as int),
            decreases declarations@.len() - i,
        {
            let decl = &declarations[i];
            match &decl.init {
                Some(init) => {
                    match self.generate_expression(init) { Ok(v) => v, Err(e) => { return Err(e); } };
                },
                None => {
                    self.emit_instr(Instruction::LoadUndefined);
                },
            }
            self.store_declared(&decl.id);
            i += 1;
        }
        Ok(())
    }

    /// Emits each statement of a block in turn.
    fn generate_block_statements(&mut self, stmts: &Vec<Statement>) -> (r: Result<(), Error>)
        requires
            old(self).aligned(),
        ensures
            match gen_stmts(gen_view(*old(self)), stmts@, 0) {
                Ok(g) => r is Ok && kept(*old(self), *final(self)) && gen_view(*final(self)) == g,
                Err(f) => r matches Err(e) && fault_of(e) == f,
            },
        decreases stmts, 1nat,
    {
        let ghost start = *self;
        let mut i: usize = 0;
        while i < stmts.len()
            invariant
                i <= stmts@.len(),
                kept(*old(self), *self),
                gen_stmts(gen_view(*old(self)), stmts@, 0) == gen_stmts(gen_view(*self), stmts@, i as int),
            decreases stmts@.len() - i,
        {
            match self.generate_statement(&stmts[i], false) { Ok(v) => v, Err(e) => { return Err(e); } };
            i += 1;
        }
        Ok(())
    }

    /// Emits the code that pushes a property key.
    fn generate_key(&mut self, property: &Expression, computed: bool) -> (r: Result<(), Error>)
        requires
            old(self).aligned(),
        ensures
            match gen_key(gen_view(*old(self)), computed, *property) {
                Ok(g) => r is Ok && kept(*old(self), *final(self)) && gen_view(*final(self)) == g,
                Err(f) => r matches Err(e) && fault_of(e) == f,
            },
        decreases property, 1nat,
    {
        if computed {
            self.generate_expression(property)
        } else {
            match property {
                Expression::Identifier(name) => {
                    self.load_constant(Constant::String(name.clone()));
                    Ok(())
                },
                _ => self.generate_expression(property),
            }
        }
    }

    /// Emits the code that pushes the object and the key of the member
    /// expression `m`.
    fn generate_ref(&mut self, m: &Expression) -> (r: Result<(), Error>)
        requires
            old(self).aligned(),
        ensures
            match gen_ref(gen_view(*old(self)), *m) {
                Ok(g) => r is Ok && kept(*old(self), *final(self)) && gen_view(*final(self)) == g,
                Err(f) => r matches Err(e) && fault_of(e) == f,
            },
        decreases m, 1nat,
    {
        match m {
            Expression::Member { object, property, computed } => {
                match self.generate_expression(object) { Ok(v) => v, Err(e) => { return Err(e); } };
                self.generate_key(property, *computed)
            },
            _ => Err(Error::RuntimeError(String::from_str("Invalid assignment target"))),
        }
    }

    /// Loads the number one as a new constant.
    fn load_one(&mut self)
        requires
            old(self).aligned(),
        ensures
            kept(*old(self), *final(self)),
            gen_view(*final(self)) == with_one(gen_view(*old(self))),
    {
        let one = String::from_str("1");
        proof {
            reveal_strlit("1");
        }
        self.load_constant(Constant::Number(one));
    }

    /// Emits the code of `expr`, which leaves its value on the stack.
    pub fn generate_expression(&mut self, expr: &Expression) -> (r: Result<(), Error>)
        requires
            old(self).aligned(),
        ensures
            match gen_expr(gen_view(*old(self)), *expr) {
                Ok(g) => r is Ok && kept(*old(self), *final(self)) && gen_view(*final(self)) == g,
                Err(f) => r matches Err(e) && fault_of(e) == f,
            },
        decreases expr, 0nat,
    {
        let ghost g = gen_view(*old(self));
        match expr {
            Expression::NumberLiteral(n) => {
                self.load_constant(Constant::Number(n.clone()));
                Ok(())
            },
            Expression::StringLiteral(s) => {
                self.load_constant(Constant::String(s.clone()));
                Ok(())
            },
            Expression::BooleanLiteral(b) => {
                if *b {
                    self.emit_instr(Instruction::LoadTrue);
                } else {
                    self.emit_instr(Instruction::LoadFalse);
                }
                Ok(())
            },
            Expression::NullLiteral => {
                self.emit_instr(Instruction::LoadNull);
                Ok(())
            },
            Expression::UndefinedLiteral => {
                self.emit_instr(Instruction::LoadUndefined);
                Ok(())
            },
            Expression::Identifier(name) => {
                if crate::text::str_eq(name.as_str(), "this") {
                    self.emit_instr(Instruction::LoadThis);
                } else {
                    self.load_variable(name);
                }
                Ok(())
            },
            Expression::BinaryOp { op, left, right } => {
                match self.generate_expression(left) { Ok(v) => v, Err(e) => { return Err(e); } };
                let short = match op {
                    BinaryOperator::And => Some((true, Instruction::JumpIfNot(0))),
                    BinaryOperator::Or => Some((true, Instruction::JumpIf(0))),
                    BinaryOperator::NullishCoalescing => Some((false, Instruction::JumpIfNotUndefined(0))),
                    _ => None,
                };
                match short {
                    Some((dup, jump)) => {
                        let ghost g1 = gen_view(*self);
                        if dup {
                            self.emit_instr(Instruction::Dup);
                        }
                        let skip_right = self.instructions.len();
                        self.emit_instr(jump);
                        self.emit_instr(Instruction::Pop);
                        assert(gen_view(*self) == branch_opened(g1, dup, jump));
                        assert(skip_right == skip_at(g1, dup));
                        match self.generate_expression(right) { Ok(v) => v, Err(e) => { return Err(e); } };
                        let done = self.instructions.len();
                        self.emit_instr(Instruction::Jump(0));
                        let here = self.instructions.len();
                        self.patch(skip_right, here);
                        let end = self.instructions.len();
                        self.patch(done, end);
                    },
                    None => {
                        match self.generate_expression(right) { Ok(v) => v, Err(e) => { return Err(e); } };
                        let ghost g2 = gen_view(*self);
                        let _ = self.generate_binary_op(op);
                        assert(gen_view(*self) =~= emitted(g2, binary_instruction(*op)));
                    },
                }
                Ok(())
            },
            Expression::UnaryOp { op, operand } => {
                let is_delete = match op {
                    UnaryOperator::Delete => true,
                    _ => false,
                };
                let is_typeof = match op {
                    UnaryOperator::Typeof => true,
                    _ => false,
                };
                let member = match &**operand {
                    Expression::Member { .. } => true,
                    _ => false,
                };
                if is_delete && member {
                    match self.generate_ref(operand) { Ok(v) => v, Err(e) => { return Err(e); } };
                    self.emit_instr(Instruction::Delete);
                    return Ok(());
                }
                if is_typeof {
                    if let Expression::Identifier(name) = &**operand {
                        match self.innermost_local(name.as_str()) {
                            Some(i) => {
                                self.emit_instr(Instruction::LoadLocal(i));
                                self.emit_instr(Instruction::TypeOf);
                            },
                            None => {
                                self.emit_instr(Instruction::TypeOfGlobal(name.clone()));
                            },
                        }
                        return Ok(());
                    }
                }
                match self.generate_expression(operand) { Ok(v) => v, Err(e) => { return Err(e); } };
                match op {
                    UnaryOperator::Negate => self.emit_instr(Instruction::Negate),
                    UnaryOperator::Not => self.emit_instr(Instruction::Not),
                    UnaryOperator::Typeof => self.emit_instr(Instruction::TypeOf),
                    UnaryOperator::BitNot => self.emit_instr(Instruction::BitNot),
                    UnaryOperator::Delete => {
                        self.emit_instr(Instruction::Pop);
                        self.emit_instr(Instruction::LoadTrue);
                    },
                    UnaryOperator::Void => {
                        match &**operand {
                            Expression::Assignment { .. } => {
                                self.emit_instr(Instruction::Pop);
                                self.emit_instr(Instruction::LoadUndefined);
                            },
                            _ => self.emit_instr(Instruction::Void),
                        }
                    },
                }
                Ok(())
            },
            Expression::Assignment { target, value, op } => {
                match op {
                    Some(cop) => {
                        match self.generate_expression(target) { Ok(v) => v, Err(e) => { return Err(e); } };
                        match self.generate_expression(value) { Ok(v) => v, Err(e) => { return Err(e); } };
                        let instr = match cop {
                            CompoundAssignmentOp::AddAssign => Instruction::Add,
                            CompoundAssignmentOp::SubAssign => Instruction::Sub,
                            CompoundAssignmentOp::MulAssign => Instruction::Mul,
                            CompoundAssignmentOp::DivAssign => Instruction::Div,
                            CompoundAssignmentOp::ModAssign => Instruction::Mod,
                            CompoundAssignmentOp::AndAssign => Instruction::And,
                            CompoundAssignmentOp::OrAssign => Instruction::Or,
                        };
                        self.emit_instr(instr);
                        match &**target {
                            Expression::Identifier(name) => {
                                self.emit_instr(Instruction::Dup);
                                self.store_variable(name);
                                Ok(())
                            },
                            Expression::Member { .. } => {
                                self.emit_instr(Instruction::Dup);
                                match self.generate_ref(target) { Ok(v) => v, Err(e) => { return Err(e); } };
                                self.emit_instr(Instruction::Rot3Right);
                                self.emit_instr(Instruction::SetProperty);
                                self.emit_instr(Instruction::Pop);
                                Ok(())
                            },
                            _ => Err(Error::RuntimeError(String::from_str("Invalid assignment target"))),
                        }
                    },
                    None => {
                        match &**target {
                            Expression::Member { .. } => {
                                match self.generate_ref(target) { Ok(v) => v, Err(e) => { return Err(e); } };
                                match self.generate_expression(value) { Ok(v) => v, Err(e) => { return Err(e); } };
                                self.emit_instr(Instruction::SetProperty);
                                Ok(())
                            },
                            Expression::Identifier(name) => {
                                match self.generate_expression(value) { Ok(v) => v, Err(e) => { return Err(e); } };
                                self.emit_instr(Instruction::Dup);
                                self.store_variable(name);
                                Ok(())
                            },
                            _ => Err(Error::RuntimeError(String::from_str("Invalid assignment target"))),
                        }
                    },
                }
            },
            Expression::UpdateExpression { op, operand, prefix } => {
                let instr = match op {
                    UpdateOperator::Increment => Instruction::Add,
                    UpdateOperator::Decrement => Instruction::Sub,
                };
                match &**operand {
                    Expression::Identifier(name) => {
                        self.load_variable(name);
                        if !*prefix {
                            self.load_variable(name);
                        }
                        self.load_one();
                        self.emit_instr(instr);
                        if *prefix {
                            self.emit_instr(Instruction::Dup);
                        }
                        self.store_variable(name);
                        Ok(())
                    },
                    Expression::Member { .. } => {
                        match self.generate_ref(operand) { Ok(v) => v, Err(e) => { return Err(e); } };
                        self.emit_instr(Instruction::GetProperty);
                        if *prefix {
                            self.load_one();
                            self.emit_instr(instr);
                            self.emit_instr(Instruction::Dup);
                        } else {
                            self.emit_instr(Instruction::Dup);
                            self.load_one();
                            self.emit_instr(instr);
                        }
                        match self.generate_ref(operand) { Ok(v) => v, Err(e) => { return Err(e); } };
                        self.emit_instr(Instruction::Rot3Right);
                        self.emit_instr(Instruction::SetProperty);
                        self.emit_instr(Instruction::Pop);
                        Ok(())
                    },
                    _ => self.generate_expression(operand),
                }
            },
            Expression::AwaitExpression { argument } => {
                match self.generate_expression(argument) { Ok(v) => v, Err(e) => { return Err(e); } };
                self.emit_instr(Instruction::Await);
                Ok(())
            },
            Expression::SuperCall { args } => {
                self.emit_instr(Instruction::LoadThis);
                match self.generate_args(args) { Ok(v) => v, Err(e) => { return Err(e); } };
                self.emit_instr(Instruction::SuperConstruct(args.len() as u16));
                Ok(())
            },
            Expression::SuperMember { property, computed } => {
                self.emit_instr(Instruction::LoadThis);
                match self.generate_key(property, *computed) { Ok(v) => v, Err(e) => { return Err(e); } };
                self.emit_instr(Instruction::SuperGet);
                Ok(())
            },
            Expression::TemplateLiteral { quasis, expressions } => {
                if expressions.len() == 0 {
                    let joined = join_strings(quasis, "");
                    self.load_constant(Constant::String(joined));
                    Ok(())
                } else {
                    let first_empty = quasis.len() == 0 || quasis[0].unicode_len() == 0;
                    if !first_empty {
                        self.load_constant(Constant::String(quasis[0].clone()));
                    }
                    self.generate_template(quasis, expressions, first_empty)
                }
            },
            Expression::OptionalMember { object, property, computed } => {
                match self.generate_expression(object) { Ok(v) => v, Err(e) => { return Err(e); } };
                self.emit_instr(Instruction::Dup);
                let check_undefined = self.instructions.len();
                self.emit_instr(Instruction::JumpIfUndefined(0));
                match self.generate_key(property, *computed) { Ok(v) => v, Err(e) => { return Err(e); } };
                self.emit_instr(Instruction::GetProperty);
                let skip_end = self.instructions.len();
                self.emit_instr(Instruction::Jump(0));
                let here = self.instructions.len();
                self.patch(check_undefined, here);
                self.emit_instr(Instruction::Pop);
                self.emit_instr(Instruction::LoadUndefined);
                let end = self.instructions.len();
                self.patch(skip_end, end);
                Ok(())
            },
            Expression::ConditionalExpression { test, consequent, alternate } => {
                match self.generate_expression(test) { Ok(v) => v, Err(e) => { return Err(e); } };
                let jump_if_not = self.instructions.len();
                self.emit_instr(Instruction::JumpIfNot(0));
                match self.generate_expression(consequent) { Ok(v) => v, Err(e) => { return Err(e); } };
                let jump_to_end = self.instructions.len();
                self.emit_instr(Instruction::Jump(0));
                let here = self.instructions.len();
                self.patch(jump_if_not, here);
                match self.generate_expression(alternate) { Ok(v) => v, Err(e) => { return Err(e); } };
                let end = self.instructions.len();
                self.patch(jump_to_end, end);
                Ok(())
            },
            Expression::NewExpression { callee, args } => {
                match self.generate_expression(callee) { Ok(v) => v, Err(e) => { return Err(e); } };
                match self.generate_args(args) { Ok(v) => v, Err(e) => { return Err(e); } };
                self.emit_instr(Instruction::Construct(args.len() as u16));
                Ok(())
            },
            Expression::ArrayLiteral { elements } => {
                if has_spread(elements) {
                    self.emit_instr(Instruction::NewArray(0));
                    self.generate_spread_elements(elements)
                } else {
                    match self.generate_elements_rev(elements) { Ok(v) => v, Err(e) => { return Err(e); } };
                    self.emit_instr(Instruction::NewArray(elements.len() as u32));
                    Ok(())
                }
            },
            Expression::ObjectLiteral { properties } => {
                self.emit_instr(Instruction::NewObject);
                self.generate_props(properties)
            },
            Expression::Call { callee, args } => {
                match &**callee {
                    Expression::Member { object, property, computed } => {
                        match self.generate_expression(object) { Ok(v) => v, Err(e) => { return Err(e); } };
                        match self.generate_key(property, *computed) { Ok(v) => v, Err(e) => { return Err(e); } };
                        match self.generate_args(args) { Ok(v) => v, Err(e) => { return Err(e); } };
                        self.emit_instr(Instruction::CallMethod(args.len() as u16));
                        Ok(())
                    },
                    _ => {
                        match self.generate_args(args) { Ok(v) => v, Err(e) => { return Err(e); } };
                        match self.generate_expression(callee) { Ok(v) => v, Err(e) => { return Err(e); } };
                        self.emit_instr(Instruction::Call(args.len() as u16));
                        Ok(())
                    },
                }
            },
            Expression::Member { object, property, computed } => {
                match self.generate_expression(object) { Ok(v) => v, Err(e) => { return Err(e); } };
                match self.generate_key(property, *computed) { Ok(v) => v, Err(e) => { return Err(e); } };
                self.emit_instr(Instruction::GetProperty);
                Ok(())
            },
            Expression::FunctionExpression { name: _, params, body, is_async: _ } => {
                self.generate_function(None, params, body)
            },
            Expression::TypeAssertion { expression, type_annotation: _ } => self.generate_expression(expression),
            Expression::ArrowFunction { params, body, is_async: _ } => {
                match &**body {
                    ArrowFunctionBody::Block(stmts) => self.generate_function(None, params, stmts),
                    ArrowFunctionBody::Expression(e) => self.generate_arrow_expression(params, e),
                }
            },
            _ => Err(Error::InternalError(String::from_str("Unsupported expression"))),
        }
    }

    /// Opens a loop's break scope: pushes a placeholder break target.
    fn open_breaks(&mut self)
        requires
            old(self).aligned(),
        ensures
            kept(*old(self), *final(self)),
            gen_view(*final(self)) == break_scope(gen_view(*old(self))),
    {
        let ghost g = gen_view(*self);
        self.break_targets.push(usize::MAX);
        assert(gen_view(*self) =~= break_scope(g));
    }

    /// Pushes a continue target.
    fn push_continue(&mut self, target: usize)
        requires
            old(self).aligned(),
        ensures
            kept(*old(self), *final(self)),
            gen_view(*final(self)) == (GenState { conts: gen_view(*old(self)).conts.push(target), ..gen_view(*old(self)) }),
    {
        let ghost g = gen_view(*self);
        self.continue_targets.push(target);
        assert(gen_view(*self) =~= (GenState { conts: g.conts.push(target), ..g }));
    }

    /// Drops the innermost continue target.
    fn pop_continue(&mut self)
        requires
            old(self).aligned(),
        ensures
            kept(*old(self), *final(self)),
            gen_view(*final(self)) == conts_popped(gen_view(*old(self))),
    {
        let ghost g = gen_view(*self);
        let _ = self.continue_targets.pop();
        assert(gen_view(*self) =~= conts_popped(g));
    }

    /// Aims the break jumps recorded above the first `n` at `target`.
    fn patch_breaks(&mut self, n: usize, target: usize)
        requires
            old(self).aligned(),
        ensures
            kept(*old(self), *final(self)),
            gen_view(*final(self)) == breaks_patched(gen_view(*old(self)), n as nat, target),
    {
        while self.break_targets.len() > n
            invariant
                kept(*old(self), *self),
                breaks_patched(gen_view(*self), n as nat, target) == breaks_patched(gen_view(*old(self)), n as nat, target),
            decreases self.break_targets@.len(),
        {
            let ghost before = gen_view(*self);
            let idx = self.break_targets.pop().unwrap();
            assert(gen_view(*self) =~= (GenState { breaks: before.breaks.drop_last(), ..before }));
            self.patch(idx, target);
        }
    }

    /// Aims the continue jumps recorded above the first `n` at `target`.
    fn patch_continues(&mut self, n: usize, target: usize)
        requires
            old(self).aligned(),
        ensures
            kept(*old(self), *final(self)),
            gen_view(*final(self)) == conts_patched(gen_view(*old(self)), n as nat, target),
    {
        while self.continue_patches.len() > n
            invariant
                kept(*old(self), *self),
                conts_patched(gen_view(*self), n as nat, target) == conts_patched(gen_view(*old(self)), n as nat, target),
            decreases self.continue_patches@.len(),
        {
            let ghost before = gen_view(*self);
            let idx = self.continue_patches.pop().unwrap();
            assert(gen_view(*self) =~= (GenState { cont_patches: before.cont_patches.drop_last(), ..before }));
            self.patch(idx, target);
        }
    }

    /// Drops locals down to `n`, a `Pop` for each.
    fn pop_locals(&mut self, n: usize)
        requires
            old(self).aligned(),
        ensures
            kept(*old(self), *final(self)),
            gen_view(*final(self)) == popped_to(gen_view(*old(self)), n as nat),
    {
        while self.locals.len() > n
            invariant
                kept(*old(self), *self),
                popped_to(gen_view(*self), n as nat) == popped_to(gen_view(*old(self)), n as nat),
            decreases self.locals@.len(),
        {
            let ghost before = gen_view(*self);
            let _ = self.locals.pop();
            self.emit(Instruction::Pop);
            assert(gen_view(*self) =~= (GenState {
                code: before.code.push(Instruction::Pop),
                locals: before.locals.drop_last(),
                ..before
            }));
        }
    }

    /// Emits `break`.
    fn generate_break(&mut self)
        requires
            old(self).aligned(),
        ensures
            kept(*old(self), *final(self)),
            gen_view(*final(self)) == break_code(gen_view(*old(self))),
    {
        let ghost g = gen_view(*self);
        if self.break_targets.len() > 0 {
            self.emit_instr(Instruction::Jump(0));
            let at = self.instructions.len() - 1;
            let ghost g1 = gen_view(*self);
            self.break_targets.push(at);
            assert(gen_view(*self) =~= (GenState { breaks: g1.breaks.push(at), ..g1 }));
        } else {
            self.emit_instr(Instruction::LoadUndefined);
            self.emit_instr(Instruction::Return);
        }
    }

    /// Emits `continue`.
    fn generate_continue(&mut self)
        requires
            old(self).aligned(),
        ensures
            kept(*old(self), *final(self)),
            gen_view(*final(self)) == continue_code(gen_view(*old(self))),
    {
        let ghost g = gen_view(*self);
        let n = self.continue_targets.len();
        if n > 0 {
            let target = self.continue_targets[n - 1];
            if target == usize::MAX {
                self.emit_instr(Instruction::Jump(0));
                let at = self.instructions.len() - 1;
                let ghost g1 = gen_view(*self);
                self.continue_patches.push(at);
                assert(gen_view(*self) =~= (GenState { cont_patches: g1.cont_patches.push(at), ..g1 }));
            } else {
                self.emit_instr(Instruction::Jump(target as u32));
            }
        } else {
            self.emit_instr(Instruction::LoadUndefined);
            self.emit_instr(Instruction::Return);
        }
    }

    /// Emits the first clause of a `for` loop.
    fn generate_for_init(&mut self, init: &Option<Box<ForInit>>) -> (r: Result<(), Error>)
        requires
            old(self).aligned(),
        ensures
            match gen_for_init(gen_view(*old(self)), *init) {
                Ok(g) => r is Ok && kept(*old(self), *final(self)) && gen_view(*final(self)) == g,
                Err(f) => r matches Err(e) && fault_of(e) == f,
            },
        decreases init, 2nat,
    {
        match init {
            None => Ok(()),
            Some(b) => match &**b {
                ForInit::Variable(st) => self.generate_statement(st, false),
                ForInit::Expression(e) => {
                    match self.generate_expression(e) { Ok(v) => v, Err(e) => { return Err(e); } };
                    self.emit_instr(Instruction::Pop);
                    Ok(())
                },
            },
        }
    }

    /// Emits an optional expression and drops its value.
    fn generate_dropped(&mut self, e: &Option<Expression>) -> (r: Result<(), Error>)
        requires
            old(self).aligned(),
        ensures
            match gen_dropped(gen_view(*old(self)), *e) {
                Ok(g) => r is Ok && kept(*old(self), *final(self)) && gen_view(*final(self)) == g,
                Err(f) => r matches Err(e) && fault_of(e) == f,
            },
        decreases e, 2nat,
    {
        match e {
            None => Ok(()),
            Some(x) => {
                match self.generate_expression(x) { Ok(v) => v, Err(e) => { return Err(e); } };
                self.emit_instr(Instruction::Pop);
                Ok(())
            },
        }
    }

    /// Emits the check at the end of a `for` loop.
    fn generate_for_check(&mut self, condition: &Option<Expression>, jc: usize, body_start: u32, bs: usize) -> (r: Result<(), Error>)
        requires
            old(self).aligned(),
        ensures
            match gen_for_check(gen_view(*old(self)), *condition, jc, body_start, bs as nat) {
                Ok(g) => r is Ok && kept(*old(self), *final(self)) && gen_view(*final(self)) == g,
                Err(f) => r matches Err(e) && fault_of(e) == f,
            },
        decreases condition, 2nat,
    {
        let here = self.instructions.len();
        self.patch(jc, here);
        match condition {
            Some(c) => {
                match self.generate_expression(c) { Ok(v) => v, Err(e) => { return Err(e); } };
                let j = self.instructions.len();
                self.emit_instr(Instruction::JumpIfNot(0));
                self.emit_instr(Instruction::Jump(body_start));
                let end = self.instructions.len();
                self.patch(j, end);
                self.patch_breaks(bs, end);
            },
            None => {
                self.emit_instr(Instruction::Jump(body_start));
                let end = self.instructions.len();
                self.patch_breaks(bs, end);
            },
        }
        Ok(())
    }

    /// Emits a `while` loop.
    fn generate_while(&mut self, stmt: &Statement) -> (r: Result<(), Error>)
        requires
            old(self).aligned(),
            stmt is WhileStatement,
        ensures
            match gen_stmt(gen_view(*old(self)), *stmt, false) {
                Ok(g) => r is Ok && kept(*old(self), *final(self)) && gen_view(*final(self)) == g,
                Err(f) => r matches Err(e) && fault_of(e) == f,
            },
        decreases stmt, 0nat,
    {
        let ghost g = gen_view(*old(self));
        match stmt {
            Statement::WhileStatement { condition, body } => {
                let loop_start = self.instructions.len() as u32;
                let break_start = self.break_targets.len();
                self.open_breaks();
                match self.generate_expression(condition) { Ok(v) => v, Err(e) => { return Err(e); } };
                let jump_if_not = self.instructions.len();
                self.emit_instr(Instruction::JumpIfNot(0));
                self.push_continue(loop_start as usize);
                match self.generate_statement(body, false) { Ok(v) => v, Err(e) => { return Err(e); } };
                self.emit_instr(Instruction::Jump(loop_start));
                let end = self.instructions.len();
                self.patch(jump_if_not, end);
                self.patch_breaks(break_start, end);
                self.pop_continue();
                Ok(())
            },
            _ => Err(Error::InternalError(String::from_str("Unsupported statement"))),
        }
    }

    /// Adds a local named `name`.
    fn push_local(&mut self, name: String)
        requires
            old(self).aligned(),
        ensures
            kept(*old(self), *final(self)),
            final(self).aligned(),
            gen_view(*final(self)) == with_local(gen_view(*old(self)), name@),
            final(self).locals@.len() == old(self).locals@.len() + 1,
    {
        let ghost g = gen_view(*self);
        let ghost nv = name@;
        self.locals.push(name);
        assert(names(self.locals@) =~= g.locals.push(nv));
        assert(gen_view(*self) =~= with_local(g, nv));
    }

    /// Drops the last local, where there is one, emitting nothing.
    fn drop_local(&mut self)
        requires
            old(self).aligned(),
        ensures
            kept(*old(self), *final(self)),
            final(self).aligned(),
            gen_view(*final(self)) == (GenState { locals: locals_popped(gen_view(*old(self)).locals), ..gen_view(*old(self)) }),
    {
        let ghost g = gen_view(*self);
        let _ = self.locals.pop();
        assert(names(self.locals@) =~= locals_popped(g.locals));
        assert(gen_view(*self) =~= (GenState { locals: locals_popped(g.locals), ..g }));
    }

    /// Drops the locals above the first `n`, each with a `Pop`.
    fn pop_to(&mut self, n: usize)
        requires
            old(self).aligned(),
        ensures
            kept(*old(self), *final(self)),
            final(self).aligned(),
            gen_view(*final(self)) == popped_to(gen_view(*old(self)), n as nat),
    {
        let ghost g2 = gen_view(*self);
        while self.locals.len() > n
            invariant
                kept(*old(self), *self),
                self.aligned(),
                popped_to(gen_view(*self), n as nat) == popped_to(g2, n as nat),
            decreases self.locals@.len(),
        {
            let ghost before = gen_view(*self);
            let _ = self.locals.pop();
            self.emit(Instruction::Pop);
            assert(gen_view(*self) =~= (GenState {
                code: before.code.push(Instruction::Pop),
                locals: before.locals.drop_last(),
                ..before
            }));
        }
    }

    /// Emits a `for … in` loop: the object's keys, a counter and the number
    /// of keys kept in new locals; each round the key at the counter stored
    /// into the loop's variable, the body, and the counter stepped; the
    /// loop's locals are dropped after.
    fn generate_for_in(&mut self, stmt: &Statement) -> (r: Result<(), Error>)
        requires
            old(self).aligned(),
            stmt is ForInStatement,
        ensures
            match gen_stmt(gen_view(*old(self)), *stmt, false) {
                Ok(g) => r is Ok && kept(*old(self), *final(self)) && gen_view(*final(self)) == g,
                Err(f) => r matches Err(e) && fault_of(e) == f,
            },
        decreases stmt, 0nat,
    {
        let ghost g = gen_view(*old(self));
        match stmt {
            Statement::ForInStatement { left, right, body } => {
                let saved_depth = self.scope_depth;
                self.scope_depth = saved_depth.saturating_add(1);
                assert(gen_view(*self) =~= at_depth(g, deeper(g.depth)));
                let prev = self.locals.len();
                let name = match left {
                    ForInLeft::Identifier(n) => n.clone(),
                    ForInLeft::VariableDeclaration { kind: _, id } => id.clone(),
                };
                self.push_local(name);
                let var_slot = (self.locals.len() - 1) as u16;
                match self.generate_expression(right) { Ok(v) => v, Err(e) => { return Err(e); } };
                let ghost g1 = gen_view(*self);
                let k = self.locals.len();
                assert(g1.locals.len() == k);
                self.emit_instr(Instruction::GetKeys);
                self.push_local(String::from_str("__keys"));
                self.emit_instr(Instruction::StoreLocal(k as u16));
                let ghost g3 = gen_view(*self);
                assert(g3 == emitted(with_local(emitted(g1, Instruction::GetKeys), "__keys"@), Instruction::StoreLocal(k as u16)));
                self.push_local(String::from_str("__idx"));
                let idx_slot = (self.locals.len() - 1) as u16;
                assert(idx_slot == (k + 1) as u16);
                let zero = String::from_str("0");
                self.load_constant(Constant::Number(zero));
                self.emit_instr(Instruction::StoreLocal(idx_slot));
                let ghost g5 = gen_view(*self);
                assert(g5 == emitted(loaded(with_local(g3, "__idx"@), ConstView::Number("0"@)), Instruction::StoreLocal((k + 1) as u16)));
                self.push_local(String::from_str("__len"));
                let len_slot = (self.locals.len() - 1) as u16;
                assert(len_slot == (k + 2) as u16);
                self.emit_instr(Instruction::LoadLocal(k as u16));
                let length = String::from_str("length");
                self.load_constant(Constant::String(length));
                self.emit_instr(Instruction::GetProperty);
                self.emit_instr(Instruction::StoreLocal(len_slot));
                assert(gen_view(*self) == for_in_setup(g1));
                let start = self.instructions.len() as u32;
                self.emit_instr(Instruction::LoadLocal(idx_slot));
                self.emit_instr(Instruction::LoadLocal(len_slot));
                self.emit_instr(Instruction::Less);
                let jump_if_done = self.instructions.len();
                self.emit_instr(Instruction::JumpIfNot(0));
                self.emit_instr(Instruction::LoadLocal(k as u16));
                self.emit_instr(Instruction::LoadLocal(idx_slot));
                self.emit_instr(Instruction::GetProperty);
                self.emit_instr(Instruction::StoreLocal(var_slot));
                match self.generate_statement(body, false) { Ok(v) => v, Err(e) => { return Err(e); } };
                self.emit_instr(Instruction::LoadLocal(idx_slot));
                self.load_constant(Constant::Number(String::from_str("1")));
                self.emit_instr(Instruction::Add);
                self.emit_instr(Instruction::StoreLocal(idx_slot));
                self.emit_instr(Instruction::Jump(start));
                let end = self.instructions.len();
                self.patch(jump_if_done, end);
                self.drop_local();
                self.drop_local();
                self.drop_local();
                self.pop_to(prev);
                self.scope_depth = saved_depth;
                Ok(())
            },
            _ => Err(Error::InternalError(String::from_str("Unsupported statement"))),
        }
    }

    /// Emits a `for … of` loop: the loop's variable made `undefined`, an
    /// iterator over the value kept in a new local; each round the next item
    /// stored into the variable and the body; the loop's locals are dropped
    /// after.
    fn generate_for_of(&mut self, stmt: &Statement) -> (r: Result<(), Error>)
        requires
            old(self).aligned(),
            stmt is ForOfStatement,
        ensures
            match gen_stmt(gen_view(*old(self)), *stmt, false) {
                Ok(g) => r is Ok && kept(*old(self), *final(self)) && gen_view(*final(self)) == g,
                Err(f) => r matches Err(e) && fault_of(e) == f,
            },
        decreases stmt, 0nat,
    {
        let ghost g = gen_view(*old(self));
        match stmt {
            Statement::ForOfStatement { left, right, body, is_async } => {
                let saved_depth = self.scope_depth;
                self.scope_depth = saved_depth.saturating_add(1);
                assert(gen_view(*self) =~= at_depth(g, deeper(g.depth)));
                let prev = self.locals.len();
                let name = match left {
                    ForInLeft::Identifier(n) => n.clone(),
                    ForInLeft::VariableDeclaration { kind: _, id } => id.clone(),
                };
                self.emit_instr(Instruction::LoadUndefined);
                self.push_local(name);
                let var_slot = (self.locals.len() - 1) as u16;
                match self.generate_expression(right) { Ok(v) => v, Err(e) => { return Err(e); } };
                if *is_async {
                    self.emit_instr(Instruction::GetAsyncIterator);
                } else {
                    self.emit_instr(Instruction::GetIterator);
                }
                let k = self.locals.len();
                self.push_local(String::from_str("__iter"));
                self.emit_instr(Instruction::StoreLocal(k as u16));
                let start = self.instructions.len() as u32;
                self.emit_instr(Instruction::LoadLocal(k as u16));
                let next_at = self.instructions.len();
                if *is_async {
                    self.emit_instr(Instruction::AsyncIteratorNext(0));
                } else {
                    self.emit_instr(Instruction::IteratorNext(0));
                }
                self.emit_instr(Instruction::StoreLocal(var_slot));
                match self.generate_statement(body, false) { Ok(v) => v, Err(e) => { return Err(e); } };
                self.emit_instr(Instruction::Jump(start));
                let end = self.instructions.len() as u32;
                let ghost g7 = gen_view(*self);
                self.patch_iterator_next(next_at, end);
                assert(gen_view(*self) =~= next_patched(g7, next_at, end));
                self.drop_local();
                self.pop_to(prev);
                self.scope_depth = saved_depth;
                Ok(())
            },
            _ => Err(Error::InternalError(String::from_str("Unsupported statement"))),
        }
    }

    /// Emits a `try` statement: a handler set up before the block and taken
    /// down after it, the `catch` clause with the exception in a new local,
    /// then the `finally` block (which rethrows a pending exception where
    /// there is no `catch`); the locals of the statement are dropped after.
    fn generate_try(&mut self, stmt: &Statement) -> (r: Result<(), Error>)
        requires
            old(self).aligned(),
            stmt is TryStatement,
        ensures
            match gen_stmt(gen_view(*old(self)), *stmt, false) {
                Ok(g) => r is Ok && kept(*old(self), *final(self)) && gen_view(*final(self)) == g,
                Err(f) => r matches Err(e) && fault_of(e) == f,
            },
        decreases stmt, 0nat,
    {
        let ghost g = gen_view(*old(self));
        match stmt {
            Statement::TryStatement { block, handler, finalizer } => {
                let saved_depth = self.scope_depth;
                self.scope_depth = saved_depth.saturating_add(1);
                assert(gen_view(*self) =~= at_depth(g, deeper(g.depth)));
                let prev_locals_count = self.locals.len();
                let at = self.instructions.len();
                self.emit_instr(Instruction::TryJump(0, 0));
                match self.generate_block_statements(block) { Ok(v) => v, Err(e) => { return Err(e); } };
                self.emit_instr(Instruction::PopTryHandler);
                let jump_past = self.instructions.len();
                if handler.is_some() {
                    self.emit_instr(Instruction::Jump(0));
                }
                let catch_pc: u32 = if handler.is_some() { self.instructions.len() as u32 } else { 0 };
                match handler {
                    Some(c) => {
                        match self.generate_catch(&c.param, &c.body, finalizer.is_none()) { Ok(v) => v, Err(e) => { return Err(e); } };
                    },
                    None => {},
                }
                let finally_pc = self.instructions.len() as u32;
                if handler.is_some() {
                    self.patch(jump_past, finally_pc as usize);
                }
                self.set_try_targets(at, catch_pc, finally_pc);
                match finalizer {
                    Some(fs) => {
                        match self.generate_block_statements(fs) { Ok(v) => v, Err(e) => { return Err(e); } };
                        if handler.is_none() {
                            self.emit_instr(Instruction::ReThrowIfPending);
                        }
                    },
                    None => {},
                }
                let ghost g10 = gen_view(*self);
                while self.locals.len() > prev_locals_count
                    invariant
                        kept(*old(self), *self),
                        prev_locals_count == g.locals.len(),
                        popped_to(gen_view(*self), prev_locals_count as nat) == popped_to(g10, prev_locals_count as nat),
                    decreases self.locals@.len(),
                {
                    let ghost before = gen_view(*self);
                    let _ = self.locals.pop();
                    self.emit(Instruction::Pop);
                    assert(gen_view(*self) =~= (GenState {
                        code: before.code.push(Instruction::Pop),
                        locals: before.locals.drop_last(),
                        ..before
                    }));
                }
                self.scope_depth = saved_depth;
                assert(gen_view(*self) =~= at_depth(popped_to(g10, g.locals.len()), g.depth));
                Ok(())
            },
            _ => Err(Error::InternalError(String::from_str("Unsupported statement"))),
        }
    }

    /// Aims the handler set up at `at` at its catch and finally code.
    fn set_try_targets(&mut self, at: usize, catch_pc: u32, finally_pc: u32)
        requires
            old(self).aligned(),
        ensures
            kept(*old(self), *final(self)),
            gen_view(*final(self)) == try_targets(gen_view(*old(self)), at, catch_pc, finally_pc),
    {
        let ghost g = gen_view(*self);
        self.patch_try(at, catch_pc, finally_pc);
        assert(gen_view(*self) =~= try_targets(g, at, catch_pc, finally_pc));
    }

    /// Emits a `catch` clause, as `gen_catch` says.
    fn generate_catch(&mut self, param: &String, body: &Vec<Statement>, keep: bool) -> (r: Result<(), Error>)
        requires
            old(self).aligned(),
        ensures
            match gen_catch(gen_view(*old(self)), param@, body@, keep) {
                Ok(g) => r is Ok && kept(*old(self), *final(self)) && gen_view(*final(self)) == g,
                Err(f) => r matches Err(e) && fault_of(e) == f,
            },
        decreases body, 1nat,
    {
        let ghost g = gen_view(*self);
        self.locals.push(param.clone());
        assert(names(self.locals@) =~= g.locals.push(param@));
        assert(gen_view(*self) =~= GenState { locals: g.locals.push(param@), ..g });
        let slot = (self.locals.len() - 1) as u16;
        self.emit_instr(Instruction::LoadException);
        self.emit_instr(Instruction::StoreLocal(slot));
        let ghost g1 = gen_view(*self);
        assert(g1 =~= emitted(emitted(GenState { locals: g.locals.push(param@), ..g }, Instruction::LoadException),
            Instruction::StoreLocal((g.locals.push(param@).len() - 1) as u16)));
        let mut i: usize = 0;
        while i < body.len()
            invariant
                i <= body@.len(),
                kept(*old(self), *self),
                g == gen_view(*old(self)),
                keep ==> gen_catch(g, param@, body@, keep) == gen_top(gen_view(*self), body@, i as int),
                !keep ==> gen_catch(g, param@, body@, keep) == gen_stmts(gen_view(*self), body@, i as int),
            decreases body@.len() - i,
        {
            let last = keep && i + 1 == body.len();
            let ghost before = gen_view(*self);
            match self.generate_statement(&body[i], last) {
                Ok(v) => v,
                Err(e) => {
                    assert(keep ==> gen_top(before, body@, i as int) == Err::<GenState, Fault>(fault_of(e)));
                    assert(!keep ==> gen_stmts(before, body@, i as int) == Err::<GenState, Fault>(fault_of(e)));
                    return Err(e);
                },
            };
            i += 1;
        }
        Ok(())
    }

    /// Emits a `switch`: the discriminant kept in a new local, the case
    /// tests with their jumps, a jump to the end, then the case bodies in
    /// order, with `break` aimed at the end; the local is dropped after.
    fn generate_switch(&mut self, stmt: &Statement) -> (r: Result<(), Error>)
        requires
            old(self).aligned(),
            stmt is SwitchStatement,
        ensures
            match gen_stmt(gen_view(*old(self)), *stmt, false) {
                Ok(g) => r is Ok && kept(*old(self), *final(self)) && gen_view(*final(self)) == g,
                Err(f) => r matches Err(e) && fault_of(e) == f,
            },
        decreases stmt, 0nat,
    {
        let ghost g = gen_view(*old(self));
        match stmt {
            Statement::SwitchStatement { discriminant, cases } => {
                match self.generate_expression(discriminant) { Ok(v) => v, Err(e) => { return Err(e); } };
                let ghost g1 = gen_view(*self);
                self.locals.push(String::from_str("__switch_val"));
                assert(names(self.locals@) =~= g1.locals.push("__switch_val"@));
                let slot = (self.locals.len() - 1) as u16;
                self.emit(Instruction::StoreLocal(slot));
                let ghost g2 = gen_view(*self);
                assert(g2 =~= emitted(GenState { locals: g1.locals.push("__switch_val"@), ..g1 }, Instruction::StoreLocal(slot)));
                let (jumps, default) = match self.generate_case_tests(cases, slot) { Ok(v) => v, Err(e) => { return Err(e); } };
                let ghost g3 = gen_view(*self);
                let end_jump = self.instructions.len();
                self.emit_instr(Instruction::Jump(0));
                let break_start = self.break_targets.len();
                self.open_breaks();
                match self.generate_case_bodies(cases, &jumps, default) { Ok(v) => v, Err(e) => { return Err(e); } };
                let end = self.instructions.len();
                self.patch_breaks(break_start, end);
                self.patch(end_jump, end);
                let ghost g6 = gen_view(*self);
                let _ = self.locals.pop();
                assert(names(self.locals@) =~= locals_popped(g6.locals));
                self.emit(Instruction::Pop);
                assert(gen_view(*self) =~= emitted(GenState { locals: locals_popped(g6.locals), ..g6 }, Instruction::Pop));
                Ok(())
            },
            _ => Err(Error::InternalError(String::from_str("Unsupported statement"))),
        }
    }

    /// Emits the tests of a switch's cases, as `gen_case_tests` says, and
    /// gives the jumps it recorded.
    fn generate_case_tests(&mut self, cases: &Vec<SwitchCase>, slot: u16) -> (r: Result<(Vec<usize>, Option<usize>), Error>)
        requires
            old(self).aligned(),
        ensures
            match gen_case_tests(gen_view(*old(self)), cases@, 0, slot, Seq::empty(), None) {
                Ok((g, js, d)) => r matches Ok((v, d2)) && v@ == js && d2 == d && kept(*old(self), *final(self))
                    && gen_view(*final(self)) == g,
                Err(f) => r matches Err(e) && fault_of(e) == f,
            },
        decreases cases, 1nat,
    {
        let mut jumps: Vec<usize> = Vec::new();
        let mut default: Option<usize> = None;
        let mut i: usize = 0;
        while i < cases.len()
            invariant
                i <= cases@.len(),
                kept(*old(self), *self),
                gen_case_tests(gen_view(*old(self)), cases@, 0, slot, Seq::empty(), None)
                    == gen_case_tests(gen_view(*self), cases@, i as int, slot, jumps@, default),
            decreases cases@.len() - i,
        {
            match &cases[i].test {
                Some(test) => {
                    self.emit_instr(Instruction::LoadLocal(slot));
                    match self.generate_expression(test) { Ok(v) => v, Err(e) => { return Err(e); } };
                    self.emit_instr(Instruction::StrictEq);
                    let j = self.instructions.len();
                    self.emit_instr(Instruction::JumpIf(0));
                    jumps.push(j);
                },
                None => {
                    default = Some(self.instructions.len());
                    self.emit_instr(Instruction::Jump(0));
                },
            }
            i += 1;
        }
        Ok((jumps, default))
    }

    /// Emits the bodies of a switch's cases, as `gen_case_bodies` says.
    fn generate_case_bodies(&mut self, cases: &Vec<SwitchCase>, jumps: &Vec<usize>, default: Option<usize>) -> (r: Result<(), Error>)
        requires
            old(self).aligned(),
        ensures
            match gen_case_bodies(gen_view(*old(self)), cases@, 0, jumps@, default) {
                Ok(g) => r is Ok && kept(*old(self), *final(self)) && gen_view(*final(self)) == g,
                Err(f) => r matches Err(e) && fault_of(e) == f,
            },
        decreases cases, 1nat,
    {
        let mut q: usize = 0;
        let mut dflt = default;
        assert(jumps@.subrange(0, jumps@.len() as int) =~= jumps@);
        let mut i: usize = 0;
        while i < cases.len()
            invariant
                i <= cases@.len(),
                q <= jumps@.len(),
                kept(*old(self), *self),
                gen_case_bodies(gen_view(*old(self)), cases@, 0, jumps@, default)
                    == gen_case_bodies(gen_view(*self), cases@, i as int, jumps@.subrange(q as int, jumps@.len() as int), dflt),
            decreases cases@.len() - i,
        {
            let ghost rest = jumps@.subrange(q as int, jumps@.len() as int);
            if cases[i].test.is_some() {
                if q < jumps.len() {
                    let here = self.instructions.len();
                    self.patch(jumps[q], here);
                    assert(rest[0] == jumps@[q as int]);
                    assert(rest.subrange(1, rest.len() as int) =~= jumps@.subrange(q + 1, jumps@.len() as int));
                    q += 1;
                }
            } else {
                match dflt {
                    Some(j) => {
                        let here = self.instructions.len();
                        self.patch(j, here);
                        dflt = None;
                    },
                    None => {},
                }
            }
            match self.generate_block_statements(&cases[i].consequent) { Ok(v) => v, Err(e) => { return Err(e); } };
            i += 1;
        }
        Ok(())
    }

    /// Emits a `do … while` loop.
    fn generate_do_while(&mut self, stmt: &Statement) -> (r: Result<(), Error>)
        requires
            old(self).aligned(),
            stmt is DoWhileStatement,
        ensures
            match gen_stmt(gen_view(*old(self)), *stmt, false) {
                Ok(g) => r is Ok && kept(*old(self), *final(self)) && gen_view(*final(self)) == g,
                Err(f) => r matches Err(e) && fault_of(e) == f,
            },
        decreases stmt, 0nat,
    {
        let ghost g = gen_view(*old(self));
        match stmt {
            Statement::DoWhileStatement { condition, body } => {
                let loop_start = self.instructions.len() as u32;
                let break_start = self.break_targets.len();
                self.open_breaks();
                match self.generate_statement(body, false) { Ok(v) => v, Err(e) => { return Err(e); } };
                match self.generate_expression(condition) { Ok(v) => v, Err(e) => { return Err(e); } };
                let jump_if_not = self.instructions.len();
                self.emit_instr(Instruction::JumpIfNot(0));
                self.emit_instr(Instruction::Jump(loop_start));
                let end = self.instructions.len();
                self.patch(jump_if_not, end);
                self.patch_breaks(break_start, end);
                Ok(())
            },
            _ => Err(Error::InternalError(String::from_str("Unsupported statement"))),
        }
    }

    /// Emits a `for` loop.
    /// Emits a `for` loop.
    fn generate_for(&mut self, stmt: &Statement) -> (r: Result<(), Error>)
        requires
            old(self).aligned(),
            stmt is ForStatement,
        ensures
            match gen_stmt(gen_view(*old(self)), *stmt, false) {
                Ok(g) => r is Ok && kept(*old(self), *final(self)) && gen_view(*final(self)) == g,
                Err(f) => r matches Err(e) && fault_of(e) == f,
            },
        decreases stmt, 1nat,
    {
        let ghost g = gen_view(*old(self));
        match stmt {
            Statement::ForStatement { init, condition: _, update: _, body: _ } => {
                let saved_depth = self.scope_depth;
                self.scope_depth = saved_depth.saturating_add(1);
                assert(gen_view(*self) =~= at_depth(g, deeper(g.depth)));
                let prev_locals_count = self.locals.len();
                match self.generate_for_init(init) { Ok(v) => v, Err(e) => { return Err(e); } };
                self.generate_for_rest(stmt, prev_locals_count, saved_depth)
            },
            _ => Err(Error::InternalError(String::from_str("Unsupported statement"))),
        }
    }

    /// Emits the rest of a `for` loop after its first clause.
    fn generate_for_rest(&mut self, stmt: &Statement, prev: usize, depth: usize) -> (r: Result<(), Error>)
        requires
            old(self).aligned(),
        ensures
            match gen_for_from(gen_view(*old(self)), *stmt, prev as nat, depth) {
                Ok(g) => r is Ok && kept(*old(self), *final(self)) && gen_view(*final(self)) == g,
                Err(f) => r matches Err(e) && fault_of(e) == f,
            },
        decreases stmt, 0nat,
    {
        match stmt {
            Statement::ForStatement { init: _, condition, update, body } => {
                let jump_to_check = self.instructions.len();
                self.emit_instr(Instruction::Jump(0));
                let body_start = self.instructions.len() as u32;
                let ghost gj = gen_view(*self);
                self.push_continue(usize::MAX);
                let cont_start = self.continue_patches.len();
                let break_start = self.break_targets.len();
                self.open_breaks();
                assert(gen_view(*self) =~= (GenState { conts: gj.conts.push(usize::MAX), breaks: gj.breaks.push(usize::MAX), ..gj }));
                match self.generate_statement(body, false) { Ok(v) => v, Err(e) => { return Err(e); } };
                let here = self.instructions.len();
                self.patch_continues(cont_start, here);
                self.pop_continue();
                match self.generate_dropped(update) { Ok(v) => v, Err(e) => { return Err(e); } };
                match self.generate_for_check(condition, jump_to_check, body_start, break_start) { Ok(v) => v, Err(e) => { return Err(e); } };
                self.pop_locals(prev);
                self.scope_depth = depth;
                Ok(())
            },
            _ => Ok(()),
        }
    }

    /// Emits the code of `stmt`; the value of an expression statement stays on
    /// the stack only where `is_last`.
    pub fn generate_statement(&mut self, stmt: &Statement, is_last: bool) -> (r: Result<(), Error>)
        requires
            old(self).aligned(),
        ensures
            match gen_stmt(gen_view(*old(self)), *stmt, is_last) {
                Ok(g) => r is Ok && kept(*old(self), *final(self)) && gen_view(*final(self)) == g,
                Err(f) => r matches Err(e) && fault_of(e) == f,
            },
        decreases stmt, 2nat,
    {
        let ghost start = *self;
        let ghost g = gen_view(*old(self));
        match stmt {
            Statement::Expression(expr) => {
                match self.generate_expression(expr) { Ok(v) => v, Err(e) => { return Err(e); } };
                if !is_last {
                    self.emit_instr(Instruction::Pop);
                }
                Ok(())
            },
            Statement::VariableDeclaration { kind: _, declarations } => self.generate_declarations(declarations),
            Statement::ThrowStatement(argument) => {
                match self.generate_expression(argument) { Ok(v) => v, Err(e) => { return Err(e); } };
                self.emit_instr(Instruction::Throw);
                Ok(())
            },
            Statement::ReturnStatement(value) => {
                match value {
                    Some(expr) => {
                        match self.generate_expression(expr) { Ok(v) => v, Err(e) => { return Err(e); } };
                    },
                    None => {
                        self.emit_instr(Instruction::LoadUndefined);
                    },
                }
                self.emit_instr(Instruction::Return);
                Ok(())
            },
            Statement::YieldStatement(value) => {
                match value {
                    Some(expr) => {
                        match self.generate_expression(expr) { Ok(v) => v, Err(e) => { return Err(e); } };
                    },
                    None => {
                        self.emit_instr(Instruction::LoadUndefined);
                    },
                }
                self.emit_instr(Instruction::Yield);
                Ok(())
            },
            Statement::IfStatement { condition, consequent, alternate } => {
                match self.generate_expression(condition) { Ok(v) => v, Err(e) => { return Err(e); } };
                let jump_if_not = self.instructions.len();
                self.emit_instr(Instruction::JumpIfNot(0));
                match self.generate_statement(consequent, false) { Ok(v) => v, Err(e) => { return Err(e); } };
                match alternate {
                    Some(alt) => {
                        let jump_to_end = self.instructions.len();
                        self.emit_instr(Instruction::Jump(0));
                        let here = self.instructions.len();
                        self.patch(jump_if_not, here);
                        match self.generate_statement(alt, false) { Ok(v) => v, Err(e) => { return Err(e); } };
                        let end = self.instructions.len();
                        self.patch(jump_to_end, end);
                    },
                    None => {
                        let end = self.instructions.len();
                        self.patch(jump_if_not, end);
                    },
                }
                Ok(())
            },
            Statement::WhileStatement { .. } => self.generate_while(stmt),
            Statement::SwitchStatement { .. } => self.generate_switch(stmt),
            Statement::ForInStatement { .. } => self.generate_for_in(stmt),
            Statement::ForOfStatement { .. } => self.generate_for_of(stmt),
            Statement::TryStatement { .. } => self.generate_try(stmt),
            Statement::DoWhileStatement { .. } => self.generate_do_while(stmt),
            Statement::ForStatement { .. } => self.generate_for(stmt),
            Statement::BreakStatement => {
                self.generate_break();
                Ok(())
            },
            Statement::ContinueStatement => {
                self.generate_continue();
                Ok(())
            },
            Statement::BlockStatement(stmts) => {
                let saved_depth = self.scope_depth;
                self.scope_depth = saved_depth.saturating_add(1);
                assert(gen_view(*self) =~= at_depth(g, deeper(g.depth)));
                let prev_locals_count = self.locals.len();
                match self.generate_block_statements(stmts) { Ok(v) => v, Err(e) => { return Err(e); } };
                let ghost g2 = gen_view(*self);
                while self.locals.len() > prev_locals_count
                    invariant
                        kept(*old(self), *self),
                        prev_locals_count == g.locals.len(),
                        popped_to(gen_view(*self), prev_locals_count as nat) == popped_to(g2, prev_locals_count as nat),
                    decreases self.locals@.len(),
                {
                    let ghost before = gen_view(*self);
                    let _ = self.locals.pop();
                    self.emit(Instruction::Pop);
                    assert(gen_view(*self) =~= (GenState {
                        code: before.code.push(Instruction::Pop),
                        locals: before.locals.drop_last(),
                        ..before
                    }));
                }
                self.scope_depth = saved_depth;
                assert(gen_view(*self) =~= at_depth(popped_to(g2, g.locals.len()), g.depth));
                Ok(())
            },
            Statement::FunctionDeclaration { name, params, body, is_async: _ } => {
                match self.generate_function(Some(name.clone()), params, body) { Ok(v) => v, Err(e) => { return Err(e); } };
                self.store_declared(name);
                Ok(())
            },
            _ => Err(Error::InternalError(String::from_str("Unsupported statement"))),
        }
    }

    /// Compiles a program: each statement in turn, the value of the last one
    /// left on the stack (`undefined` for an empty program).
    pub fn generate(&mut self, ast: &AstNode) -> (r: Result<CompiledModule<Constant>, Error>)
        requires
            old(self).aligned(),
        ensures
            match *ast {
                AstNode::Program(ss) => match gen_program(gen_view(*old(self)), ss@) {
                    Ok(g) => r matches Ok(m) && compiled_as(m, g),
                    Err(f) => r matches Err(e) && fault_of(e) == f,
                },
                _ => r matches Err(e) && e.kind is InternalError && e.kind.msg() == "Invalid AST node"@,
            },
    {
        let ghost start = *self;
        match ast {
            AstNode::Program(statements) => {
                if statements.len() == 0 {
                    self.emit_instr(Instruction::LoadUndefined);
                } else {
                    let mut i: usize = 0;
                    while i < statements.len()
                        invariant
                            i <= statements@.len(),
                            0 < statements@.len(),
                            (ast matches AstNode::Program(ss) && ss@ == statements@),
                            kept(*old(self), *self),
                            gen_top(gen_view(*old(self)), statements@, 0) == gen_top(gen_view(*self), statements@, i as int),
                        decreases statements@.len() - i,
                    {
                        let is_last = i + 1 == statements.len();
                        match self.generate_statement(&statements[i], is_last) { Ok(v) => v, Err(e) => { return Err(e); } };
                        i += 1;
                    }
                }
            },
            _ => {
                return Err(Error::InternalError(String::from_str("Invalid AST node")));
            },
        }
        let mut instructions: Vec<Instruction> = Vec::new();
        let mut constants: Vec<Constant> = Vec::new();
        let mut functions: Vec<CompiledFunction> = Vec::new();
        let mut source_lines: Vec<Option<usize>> = Vec::new();
        let mut source_cols: Vec<Option<usize>> = Vec::new();
        std::mem::swap(&mut instructions, &mut self.instructions);
        std::mem::swap(&mut constants, &mut self.constants);
        std::mem::swap(&mut functions, &mut self.functions);
        std::mem::swap(&mut source_lines, &mut self.source_lines);
        std::mem::swap(&mut source_cols, &mut self.source_cols);
        Ok(CompiledModule { instructions, constants, functions, class_infos: Vec::new(), source_lines, source_cols })
    }
}

/// Compiles a program to bytecode with a fresh generator.
pub fn generate(ast: &AstNode) -> (r: Result<CompiledModule<Constant>, Error>)
    ensures
        match *ast {
            AstNode::Program(ss) => match gen_program(initial_state(), ss@) {
                Ok(g) => r matches Ok(m) && compiled_as(m, g),
                Err(f) => r matches Err(e) && fault_of(e) == f,
            },
            _ => r matches Err(e) && e.kind is InternalError && e.kind.msg() == "Invalid AST node"@,
        },
{
    let mut generator: CodeGenerator<Constant> = CodeGenerator::new();
    assert(gen_view(generator) =~= initial_state());
    generator.generate(ast)
}

/// The expression that applies `op` to `l` and `r`.
pub open spec fn binary_expr(op: BinaryOperator, l: Expression, r: Expression) -> Expression {
    Expression::BinaryOp { op, left: Box::new(l), right: Box::new(r) }
}

/// Whether `op` evaluates its right operand only on some values of the left.
pub open spec fn short_circuits(op: BinaryOperator) -> bool {
    op is And || op is Or || op is NullishCoalescing
}

/// A binary operation that does not short-circuit compiles to the code of its
/// left operand, then of its right operand, then one instruction named after
/// the operator: `+` is `Add`, `>=` is `GreaterEqual`, `instanceof` is
/// `InstanceOf`, and the comma operator pops the left value.
pub proof fn law_binary_op_instruction(g: GenState, op: BinaryOperator, l: Expression, r: Expression)
    requires
        !short_circuits(op),
    ensures
        match gen_expr(g, l) {
            Err(f) => gen_expr(g, binary_expr(op, l, r)) == Err::<GenState, Fault>(f),
            Ok(g1) => match gen_expr(g1, r) {
                Err(f) => gen_expr(g, binary_expr(op, l, r)) == Err::<GenState, Fault>(f),
                Ok(g2) => gen_expr(g, binary_expr(op, l, r)) == Ok::<GenState, Fault>(GenState {
                    code: g2.code.push(match op {
                        BinaryOperator::Add => Instruction::Add,
                        BinaryOperator::Sub => Instruction::Sub,
                        BinaryOperator::Mul => Instruction::Mul,
                        BinaryOperator::Div => Instruction::Div,
                        BinaryOperator::Mod => Instruction::Mod,
                        BinaryOperator::Power => Instruction::Power,
                        BinaryOperator::Eq => Instruction::Eq,
                        BinaryOperator::StrictEq => Instruction::StrictEq,
                        BinaryOperator::NotEqual => Instruction::NotEqual,
                        BinaryOperator::StrictNotEqual => Instruction::StrictNotEqual,
                        BinaryOperator::Less => Instruction::Less,
                        BinaryOperator::Greater => Instruction::Greater,
                        BinaryOperator::LessEqual => Instruction::LessEqual,
                        BinaryOperator::GreaterEqual => Instruction::GreaterEqual,
                        BinaryOperator::BitAnd => Instruction::BitAnd,
                        BinaryOperator::BitOr => Instruction::BitOr,
                        BinaryOperator::BitXor => Instruction::BitXor,
                        BinaryOperator::ShiftLeft => Instruction::ShiftLeft,
                        BinaryOperator::ShiftRight => Instruction::ShiftRight,
                        BinaryOperator::Instanceof => Instruction::InstanceOf,
                        BinaryOperator::In => Instruction::In,
                        _ => Instruction::Pop,
                    }),
                    ..g2
                }),
            },
        },
{
}

/// Different operators that do not short-circuit, applied to the same
/// operands, compile to code that differs in its last instruction: no
/// operator is compiled as another one.
pub proof fn law_binary_ops_compile_apart(
    g: GenState,
    op1: BinaryOperator,
    op2: BinaryOperator,
    l: Expression,
    r: Expression,
)
    requires
        op1 != op2,
        !short_circuits(op1),
        !short_circuits(op2),
        gen_expr(g, binary_expr(op1, l, r)) is Ok,
    ensures
        gen_expr(g, binary_expr(op2, l, r)) is Ok,
        gen_expr(g, binary_expr(op1, l, r))->Ok_0.code.last() != gen_expr(g, binary_expr(op2, l, r))->Ok_0.code.last(),
        gen_expr(g, binary_expr(op1, l, r))->Ok_0.code.drop_last() == gen_expr(g, binary_expr(op2, l, r))->Ok_0.code.drop_last(),
{
    law_binary_op_instruction(g, op1, l, r);
    law_binary_op_instruction(g, op2, l, r);
    let g2 = gen_expr(gen_expr(g, l)->Ok_0, r)->Ok_0;
    assert(gen_expr(g, binary_expr(op1, l, r))->Ok_0.code.drop_last() =~= g2.code);
    assert(gen_expr(g, binary_expr(op2, l, r))->Ok_0.code.drop_last() =~= g2.code);
}

/// `-`, `!` and `~` compile to the code of their operand and then `Negate`,
/// `Not` and `BitNot`; `typeof` of anything but a variable name to the
/// operand's code and `TypeOf`.
pub proof fn law_unary_op_instruction(g: GenState, op: UnaryOperator, operand: Expression)
    requires
        op is Negate || op is Not || op is BitNot || (op is Typeof && !(operand is Identifier)),
    ensures
        gen_expr(g, Expression::UnaryOp { op, operand: Box::new(operand) }) == (match gen_expr(g, operand) {
            Err(f) => Err(f),
            Ok(g1) => Ok::<GenState, Fault>(GenState {
                code: g1.code.push(match op {
                    UnaryOperator::Negate => Instruction::Negate,
                    UnaryOperator::Not => Instruction::Not,
                    UnaryOperator::BitNot => Instruction::BitNot,
                    _ => Instruction::TypeOf,
                }),
                ..g1
            }),
        }),
{
}

/// A compound assignment to a variable, such as `x -= e`, compiles to the
/// code that reads the variable, the code of `e`, the arithmetic or logical
/// instruction that its operator names (`+=` adds, `-=` subtracts, `*=`
/// multiplies, `/=` divides, `%=` takes the remainder, `&&=` and `||=` apply
/// `And` and `Or`), then `Dup` and the store into the variable (`this` is
/// no variable).
pub proof fn law_compound_assignment(g: GenState, cop: CompoundAssignmentOp, name: String, value: Expression)
    requires
        name@ != "this"@,
    ensures
        ({
            let target = Expression::Identifier(name);
            let e = Expression::Assignment { target: Box::new(target), value: Box::new(value), op: Some(cop) };
            let g1 = emitted(g, load_of(g, name));
            match gen_expr(g1, value) {
                Err(f) => gen_expr(g, e) == Err::<GenState, Fault>(f),
                Ok(g2) => gen_expr(g, e) == Ok::<GenState, Fault>(GenState {
                    code: g2.code + seq![
                        match cop {
                            CompoundAssignmentOp::AddAssign => Instruction::Add,
                            CompoundAssignmentOp::SubAssign => Instruction::Sub,
                            CompoundAssignmentOp::MulAssign => Instruction::Mul,
                            CompoundAssignmentOp::DivAssign => Instruction::Div,
                            CompoundAssignmentOp::ModAssign => Instruction::Mod,
                            CompoundAssignmentOp::AndAssign => Instruction::And,
                            CompoundAssignmentOp::OrAssign => Instruction::Or,
                        },
                        Instruction::Dup,
                        store_of(g2, name),
                    ],
                    ..g2
                }),
            }
        }),
{
    let target = Expression::Identifier(name);
    let e = Expression::Assignment { target: Box::new(target), value: Box::new(value), op: Some(cop) };
    assert(gen_expr(g, target) == Ok::<GenState, Fault>(emitted(g, load_of(g, name))));
    if let Ok(g2) = gen_expr(emitted(g, load_of(g, name)), value) {
        let x = compound_instruction(cop);
        assert(emitted(emitted(emitted(g2, x), Instruction::Dup), store_of(emitted(g2, x), name)).code
            =~= g2.code + seq![x, Instruction::Dup, store_of(g2, name)]);
    }
}

/// `++` and `--` on a variable: the variable is read, the number one is
/// added to the constants and loaded, `Add` (for `++`) or `Sub` (for `--`)
/// is applied and the result stored back. The value left is the new one for
/// the prefix form (`Dup` before the store) and the old one for the postfix
/// form (the variable read twice).
pub proof fn law_update_variable(g: GenState, op: UpdateOperator, name: String, prefix: bool)
    ensures
        ({
            let e = Expression::UpdateExpression { op, operand: Box::new(Expression::Identifier(name)), prefix };
            let step = if op is Increment { Instruction::Add } else { Instruction::Sub };
            let one = Instruction::LoadConst(g.consts.len() as u32);
            gen_expr(g, e) == Ok::<GenState, Fault>(GenState {
                code: g.code + (if prefix {
                    seq![load_of(g, name), one, step, Instruction::Dup, store_of(g, name)]
                } else {
                    seq![load_of(g, name), load_of(g, name), one, step, store_of(g, name)]
                }),
                consts: g.consts.push(ConstView::Number("1"@)),
                ..g
            })
        }),
{
    let e = Expression::UpdateExpression { op, operand: Box::new(Expression::Identifier(name)), prefix };
    let r = gen_expr(g, e)->Ok_0;
    let step = if op is Increment { Instruction::Add } else { Instruction::Sub };
    let one = Instruction::LoadConst(g.consts.len() as u32);
    if prefix {
        assert(r.code =~= g.code + seq![load_of(g, name), one, step, Instruction::Dup, store_of(g, name)]);
    } else {
        assert(r.code =~= g.code + seq![load_of(g, name), load_of(g, name), one, step, store_of(g, name)]);
    }
}

/// Literals compile to one instruction that loads them: a number or a string
/// is added to the constants, with its text, and loaded from there; `true`,
/// `false`, `null` and `undefined` have instructions of their own.
pub proof fn law_literal_code(g: GenState, text: String, b: bool)
    ensures
        gen_expr(g, Expression::NumberLiteral(text)) == Ok::<GenState, Fault>(GenState {
            code: g.code.push(Instruction::LoadConst(g.consts.len() as u32)),
            consts: g.consts.push(ConstView::Number(text@)),
            ..g
        }),
        gen_expr(g, Expression::StringLiteral(text)) == Ok::<GenState, Fault>(GenState {
            code: g.code.push(Instruction::LoadConst(g.consts.len() as u32)),
            consts: g.consts.push(ConstView::String(text@)),
            ..g
        }),
        gen_expr(g, Expression::BooleanLiteral(b)) == Ok::<GenState, Fault>(GenState {
            code: g.code.push(if b { Instruction::LoadTrue } else { Instruction::LoadFalse }),
            ..g
        }),
        gen_expr(g, Expression::NullLiteral) == Ok::<GenState, Fault>(GenState { code: g.code.push(Instruction::LoadNull), ..g }),
        gen_expr(g, Expression::UndefinedLiteral) == Ok::<GenState, Fault>(GenState { code: g.code.push(Instruction::LoadUndefined), ..g }),
{
}

/// A variable is read from the innermost local of its name, the one
/// declared last, and from the global of that name where no local has it;
/// it is written to the same place.
pub proof fn law_variable_slots(g: GenState, name: String, k: int)
    requires
        0 <= k < g.locals.len() <= u16::MAX + 1,
    ensures
        g.locals[k] == name@ && (forall|m: int| k < m < g.locals.len() ==> g.locals[m] != name@)
            ==> load_of(g, name) == Instruction::LoadLocal(k as u16) && store_of(g, name) == Instruction::StoreLocal(k as u16),
        (forall|m: int| 0 <= m < g.locals.len() ==> g.locals[m] != name@)
            ==> load_of(g, name) == Instruction::LoadGlobal(name) && store_of(g, name) == Instruction::StoreGlobal(name),
{
    if g.locals[k] == name@ && (forall|m: int| k < m < g.locals.len() ==> g.locals[m] != name@) {
        lemma_last_index_at(g.locals, name@, k);
    }
    if forall|m: int| 0 <= m < g.locals.len() ==> g.locals[m] != name@ {
        lemma_last_index_absent(g.locals, name@);
    }
}

proof fn lemma_last_index_at(s: Seq<Seq<char>>, x: Seq<char>, k: int)
    requires
        0 <= k < s.len(),
        s[k] == x,
        forall|m: int| k < m < s.len() ==> s[m] != x,
    ensures
        last_index(s, x) == k,
    decreases s.len(),
{
    if s.len() - 1 != k {
        assert(s.last() != x);
        lemma_last_index_at(s.drop_last(), x, k);
    }
}

proof fn lemma_last_index_absent(s: Seq<Seq<char>>, x: Seq<char>)
    requires
        forall|m: int| 0 <= m < s.len() ==> s[m] != x,
    ensures
        last_index(s, x) == -1,
    decreases s.len(),
{
    if s.len() > 0 {
        assert(s.last() != x);
        lemma_last_index_absent(s.drop_last(), x);
    }
}

/// `a && b`, `a || b` and `a ?? b`, with a variable on the right: after the
/// left operand, `&&` duplicates the value and jumps past the right operand
/// when it is false, `||` when it is true, and `??` (without duplicating)
/// when it is not `undefined`; otherwise the left value is popped and the
/// variable read. Both jumps land just after the code.
pub proof fn law_short_circuit(g: GenState, op: BinaryOperator, l: Expression, name: String)
    requires
        short_circuits(op),
        name@ != "this"@,
        gen_expr(g, l) is Ok,
        gen_expr(g, l)->Ok_0.code.len() + 5 <= u32::MAX,
    ensures
        ({
            let g1 = gen_expr(g, l)->Ok_0;
            let n = g1.code.len();
            let tail = if op is NullishCoalescing { 4int } else { 5int };
            let end = (n + tail) as u32;
            let read = load_of(g1, name);
            gen_expr(g, binary_expr(op, l, Expression::Identifier(name))) == Ok::<GenState, Fault>(GenState {
                code: g1.code + (if op is And {
                    seq![Instruction::Dup, Instruction::JumpIfNot(end), Instruction::Pop, read, Instruction::Jump(end)]
                } else if op is Or {
                    seq![Instruction::Dup, Instruction::JumpIf(end), Instruction::Pop, read, Instruction::Jump(end)]
                } else {
                    seq![Instruction::JumpIfNotUndefined(end), Instruction::Pop, read, Instruction::Jump(end)]
                }),
                ..g1
            })
        }),
{
    let g1 = gen_expr(g, l)->Ok_0;
    let n = g1.code.len();
    let read = load_of(g1, name);
    let dup = !(op is NullishCoalescing);
    let jump = if op is And { Instruction::JumpIfNot(0) } else if op is Or { Instruction::JumpIf(0) } else { Instruction::JumpIfNotUndefined(0) };
    let o = branch_opened(g1, dup, jump);
    assert(load_of(o, name) == read);
    let g5 = emitted(o, read);
    assert(gen_expr(o, Expression::Identifier(name)) == Ok::<GenState, Fault>(g5));
    let r = branch_closed(g5, skip_at(g1, dup));
    assert(gen_expr(g, binary_expr(op, l, Expression::Identifier(name))) == Ok::<GenState, Fault>(r));
    assert(r == GenState { code: r.code, ..g1 });
    if op is And {
        assert(r.code =~= g1.code + seq![Instruction::Dup, Instruction::JumpIfNot((n + 5) as u32), Instruction::Pop, read, Instruction::Jump((n + 5) as u32)]);
    } else if op is Or {
        assert(r.code =~= g1.code + seq![Instruction::Dup, Instruction::JumpIf((n + 5) as u32), Instruction::Pop, read, Instruction::Jump((n + 5) as u32)]);
    } else {
        assert(r.code =~= g1.code + seq![Instruction::JumpIfNotUndefined((n + 4) as u32), Instruction::Pop, read, Instruction::Jump((n + 4) as u32)]);
    }
}

} // verus!
