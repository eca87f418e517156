//! The bookkeeping of the bytecode generator: emitting instructions with their
//! source positions, the constant pool, local slots and jump patching.
use vstd::prelude::*;
use vstd::string::*;
use crate::compiler::{CompiledFunction, CompiledModule, Instruction};
use crate::compiler::parser::BinaryOperator;
use crate::errors::Span;
use crate::text::str_eq;

pub mod generate;

verus! {

/// The state of the bytecode generator, with constants of type `V`.
pub struct CodeGenerator<V> {
    pub constants: Vec<V>,
    pub instructions: Vec<Instruction>,
    pub functions: Vec<CompiledFunction>,
    pub locals: Vec<String>,
    pub scope_depth: usize,
    pub captured_var_names: Vec<String>,
    pub local_start_idx: usize,
    pub source_lines: Vec<Option<usize>>,
    pub source_cols: Vec<Option<usize>>,
    pub current_source_line: Option<usize>,
    pub current_source_col: Option<usize>,
    pub break_targets: Vec<usize>,
    pub continue_targets: Vec<usize>,
    pub continue_patches: Vec<usize>,
}

/// Whether an instruction is a jump whose target can be patched.
pub open spec fn is_jump(i: Instruction) -> bool {
    i is JumpIfNot || i is JumpIf || i is JumpIfUndefined || i is JumpIfNotUndefined || i is Jump
}

/// The jump `i` with its target replaced by `target`.
pub open spec fn with_target(i: Instruction, target: u32) -> Instruction {
    match i {
        Instruction::JumpIfNot(_) => Instruction::JumpIfNot(target),
        Instruction::JumpIf(_) => Instruction::JumpIf(target),
        Instruction::JumpIfUndefined(_) => Instruction::JumpIfUndefined(target),
        Instruction::JumpIfNotUndefined(_) => Instruction::JumpIfNotUndefined(target),
        Instruction::Jump(_) => Instruction::Jump(target),
        _ => i,
    }
}

/// The instruction that a binary operator compiles to; `,` compiles to `Pop`.
pub open spec fn binary_instruction(op: BinaryOperator) -> Instruction {
    match op {
        BinaryOperator::Add => Instruction::Add,
        BinaryOperator::Sub => Instruction::Sub,
        BinaryOperator::Mul => Instruction::Mul,
        BinaryOperator::Div => Instruction::Div,
        BinaryOperator::Mod => Instruction::Mod,
        BinaryOperator::Power => Instruction::Power,
        BinaryOperator::Eq => Instruction::Eq,
        BinaryOperator::StrictEq => Instruction::StrictEq,
        BinaryOperator::NotEqual => Instruction::NotEqual,
        BinaryOperator::StrictNotEqual => Instruction::StrictNotEqual,
        BinaryOperator::Less => Instruction::Less,
        BinaryOperator::Greater => Instruction::Greater,
        BinaryOperator::LessEqual => Instruction::LessEqual,
        BinaryOperator::GreaterEqual => Instruction::GreaterEqual,
        BinaryOperator::And => Instruction::And,
        BinaryOperator::Or => Instruction::Or,
        BinaryOperator::BitAnd => Instruction::BitAnd,
        BinaryOperator::BitOr => Instruction::BitOr,
        BinaryOperator::BitXor => Instruction::BitXor,
        BinaryOperator::ShiftLeft => Instruction::ShiftLeft,
        BinaryOperator::ShiftRight => Instruction::ShiftRight,
        BinaryOperator::Instanceof => Instruction::InstanceOf,
        BinaryOperator::In => Instruction::In,
        BinaryOperator::NullishCoalescing => Instruction::NullishCoalescing,
        BinaryOperator::Comma => Instruction::Pop,
    }
}

/// The names of a list of strings.
pub open spec fn names(s: Seq<String>) -> Seq<Seq<char>> {
    s.map_values(|x: String| x@)
}

impl<V> CodeGenerator<V> {
    /// The three per-instruction tables have the same length.
    pub open spec fn aligned(&self) -> bool {
        &&& self.source_lines@.len() == self.instructions@.len()
        &&& self.source_cols@.len() == self.instructions@.len()
    }

    /// The tables are aligned, and the locals of the current function start
    /// within the list of locals.
    pub open spec fn wf(&self) -> bool {
        &&& self.aligned()
        &&& self.local_start_idx <= self.locals@.len()
    }

    /// A generator with nothing emitted, at the top level.
    pub fn new() -> (g: Self)
        ensures
            g.wf(),
            g.constants@ == Seq::<V>::empty(),
            g.instructions@ == Seq::<Instruction>::empty(),
            g.functions@ == Seq::<CompiledFunction>::empty(),
            g.locals@ == Seq::<String>::empty(),
            g.captured_var_names@ == Seq::<String>::empty(),
            g.scope_depth == 0,
            g.local_start_idx == 0,
            g.current_source_line is None,
            g.current_source_col is None,
            g.break_targets@ == Seq::<usize>::empty(),
            g.continue_targets@ == Seq::<usize>::empty(),
            g.continue_patches@ == Seq::<usize>::empty(),
    {
        CodeGenerator {
            constants: Vec::new(),
            instructions: Vec::new(),
            functions: Vec::new(),
            locals: Vec::new(),
            scope_depth: 0,
            captured_var_names: Vec::new(),
            local_start_idx: 0,
            source_lines: Vec::new(),
            source_cols: Vec::new(),
            current_source_line: None,
            current_source_col: None,
            break_targets: Vec::new(),
            continue_targets: Vec::new(),
            continue_patches: Vec::new(),
        }
    }

    /// Appends `instr`, recording the current source line and column for it.
    pub fn emit(&mut self, instr: Instruction)
        requires
            old(self).aligned(),
        ensures
            final(self).aligned(),
            final(self).instructions@ == old(self).instructions@.push(instr),
            final(self).source_lines@ == old(self).source_lines@.push(old(self).current_source_line),
            final(self).source_cols@ == old(self).source_cols@.push(old(self).current_source_col),
            final(self).constants@ == old(self).constants@,
            final(self).locals@ == old(self).locals@,
            final(self).functions@ == old(self).functions@,
            final(self).captured_var_names@ == old(self).captured_var_names@,
            final(self).local_start_idx == old(self).local_start_idx,
            final(self).scope_depth == old(self).scope_depth,
            final(self).current_source_line == old(self).current_source_line,
            final(self).current_source_col == old(self).current_source_col,
            final(self).break_targets@ == old(self).break_targets@,
            final(self).continue_targets@ == old(self).continue_targets@,
            final(self).continue_patches@ == old(self).continue_patches@,
    {
        self.instructions.push(instr);
        self.source_lines.push(self.current_source_line);
        self.source_cols.push(self.current_source_col);
    }

    /// Makes the line and column of `span` the current source position; none
    /// where there is no span or its line is 0, and no column where it is 0.
    pub fn record_line_from_span(&mut self, span: &Option<Span>)
        ensures
            match span {
                Some(s) if s.line > 0 => {
                    &&& final(self).current_source_line == Some(s.line)
                    &&& final(self).current_source_col == (if s.col > 0 { Some(s.col) } else { None })
                },
                _ => final(self).current_source_line is None && final(self).current_source_col is None,
            },
            final(self).instructions@ == old(self).instructions@,
            final(self).source_lines@ == old(self).source_lines@,
            final(self).source_cols@ == old(self).source_cols@,
            final(self).constants@ == old(self).constants@,
            final(self).locals@ == old(self).locals@,
            final(self).functions@ == old(self).functions@,
            final(self).captured_var_names@ == old(self).captured_var_names@,
            final(self).local_start_idx == old(self).local_start_idx,
            final(self).scope_depth == old(self).scope_depth,
    {
        if let Some(s) = span {
            if s.line > 0 {
                self.current_source_line = Some(s.line);
                self.current_source_col = if s.col > 0 { Some(s.col) } else { None };
            } else {
                self.current_source_line = None;
                self.current_source_col = None;
            }
        } else {
            self.current_source_line = None;
            self.current_source_col = None;
        }
    }

    /// The slot the next local of the current function gets: captured
    /// variables come first, then the function's own locals.
    pub fn current_local_slot(&self) -> (slot: u16)
        requires
            self.wf(),
            self.captured_var_names@.len() + self.locals@.len() <= usize::MAX,
        ensures
            slot == ((self.captured_var_names@.len() + self.locals@.len() - self.local_start_idx) as u16),
    {
        (self.captured_var_names.len() + self.locals.len() - self.local_start_idx) as u16
    }

    /// The slot of the last local of the current function.
    pub fn last_local_slot(&self) -> (slot: u16)
        requires
            self.wf(),
            self.captured_var_names@.len() + self.locals@.len() <= usize::MAX,
            self.captured_var_names@.len() + self.locals@.len() >= 1 + self.local_start_idx,
        ensures
            slot == ((self.captured_var_names@.len() + self.locals@.len() - 1 - self.local_start_idx) as u16),
    {
        (self.captured_var_names.len() + self.locals.len() - 1 - self.local_start_idx) as u16
    }

    /// The slot of the variable `name`: a captured variable by its position,
    /// else the first local of the current function with that name, after the
    /// captured ones.
    pub fn resolve_local(&self, name: &str) -> (r: Option<u16>)
        requires
            self.wf(),
            self.captured_var_names@.len() + self.locals@.len() <= usize::MAX,
        ensures
            r == resolved_slot(
                names(self.captured_var_names@),
                names(self.locals@).skip(self.local_start_idx as int),
                name@,
            ),
    {
        let ghost caps = names(self.captured_var_names@);
        let ghost locs = names(self.locals@).skip(self.local_start_idx as int);
        let mut i: usize = 0;
        while i < self.captured_var_names.len()
            invariant
                i <= caps.len(),
                caps == names(self.captured_var_names@),
                forall|j: int| 0 <= j < i ==> caps[j] != name@,
            decreases caps.len() - i,
        {
            if str_eq(self.captured_var_names[i].as_str(), name) {
                assert(caps[i as int] == name@);
                assert(first_index(caps, name@) == i) by {
                    lemma_first_index(caps, name@, i as int);
                }
                return Some(i as u16);
            }
            i += 1;
        }
        proof {
            lemma_first_index_none(caps, name@);
        }
        let offset = self.captured_var_names.len();
        let mut k = self.local_start_idx;
        while k < self.locals.len()
            invariant
                self.local_start_idx <= k <= self.locals@.len(),
                locs == names(self.locals@).skip(self.local_start_idx as int),
                offset == caps.len(),
                caps == names(self.captured_var_names@),
                first_index(caps, name@) == -1,
                offset + self.locals@.len() <= usize::MAX,
                forall|j: int| 0 <= j < k - self.local_start_idx ==> locs[j] != name@,
            decreases self.locals@.len() - k,
        {
            if str_eq(self.locals[k].as_str(), name) {
                let j = k - self.local_start_idx;
                assert(locs[j as int] == name@);
                assert(first_index(locs, name@) == j) by {
                    lemma_first_index(locs, name@, j as int);
                }
                return Some((offset + j) as u16);
            }
            k += 1;
        }
        proof {
            lemma_first_index_none(locs, name@);
        }
        None
    }

    /// Adds `value` to the constant pool and returns its index.
    pub fn add_constant(&mut self, value: V) -> (idx: u32)
        ensures
            idx == (old(self).constants@.len() as u32),
            final(self).constants@ == old(self).constants@.push(value),
            final(self).instructions@ == old(self).instructions@,
            final(self).source_lines@ == old(self).source_lines@,
            final(self).source_cols@ == old(self).source_cols@,
            final(self).locals@ == old(self).locals@,
            final(self).functions@ == old(self).functions@,
            final(self).captured_var_names@ == old(self).captured_var_names@,
            final(self).local_start_idx == old(self).local_start_idx,
            final(self).scope_depth == old(self).scope_depth,
            final(self).current_source_line == old(self).current_source_line,
            final(self).current_source_col == old(self).current_source_col,
            final(self).break_targets@ == old(self).break_targets@,
            final(self).continue_targets@ == old(self).continue_targets@,
            final(self).continue_patches@ == old(self).continue_patches@,
    {
        let idx = self.constants.len() as u32;
        self.constants.push(value);
        idx
    }

    /// Sets the target of the jump at `offset` to `target`; anything else at
    /// that offset, or an offset past the end, is left alone.
    pub fn patch_jump(&mut self, offset: usize, target: usize)
        ensures
            final(self).instructions@ == (if offset < old(self).instructions@.len() && is_jump(
                old(self).instructions@[offset as int],
            ) {
                old(self).instructions@.update(
                    offset as int,
                    with_target(old(self).instructions@[offset as int], target as u32),
                )
            } else {
                old(self).instructions@
            }),
            final(self).source_lines@ == old(self).source_lines@,
            final(self).source_cols@ == old(self).source_cols@,
            final(self).constants@ == old(self).constants@,
            final(self).locals@ == old(self).locals@,
            final(self).functions@ == old(self).functions@,
            final(self).captured_var_names@ == old(self).captured_var_names@,
            final(self).local_start_idx == old(self).local_start_idx,
            final(self).scope_depth == old(self).scope_depth,
            final(self).current_source_line == old(self).current_source_line,
            final(self).current_source_col == old(self).current_source_col,
            final(self).break_targets@ == old(self).break_targets@,
            final(self).continue_targets@ == old(self).continue_targets@,
            final(self).continue_patches@ == old(self).continue_patches@,
    {
        if offset >= self.instructions.len() {
            return;
        }
        let t = target as u32;
        let patched = match &self.instructions[offset] {
            Instruction::JumpIfNot(_) => Some(Instruction::JumpIfNot(t)),
            Instruction::JumpIf(_) => Some(Instruction::JumpIf(t)),
            Instruction::JumpIfUndefined(_) => Some(Instruction::JumpIfUndefined(t)),
            Instruction::JumpIfNotUndefined(_) => Some(Instruction::JumpIfNotUndefined(t)),
            Instruction::Jump(_) => Some(Instruction::Jump(t)),
            _ => None,
        };
        if let Some(instr) = patched {
            self.instructions.set(offset, instr);
        }
    }

    /// Sets the catch and finally targets of the handler set up at `offset`,
    /// where a `TryJump` stands.
    pub fn patch_try(&mut self, offset: usize, catch_pc: u32, finally_pc: u32)
        ensures
            final(self).instructions@ == (if offset < old(self).instructions@.len()
                && old(self).instructions@[offset as int] is TryJump {
                old(self).instructions@.update(offset as int, Instruction::TryJump(catch_pc, finally_pc))
            } else {
                old(self).instructions@
            }),
            final(self).source_lines@ == old(self).source_lines@,
            final(self).source_cols@ == old(self).source_cols@,
            final(self).constants@ == old(self).constants@,
            final(self).locals@ == old(self).locals@,
            final(self).functions@ == old(self).functions@,
            final(self).captured_var_names@ == old(self).captured_var_names@,
            final(self).local_start_idx == old(self).local_start_idx,
            final(self).scope_depth == old(self).scope_depth,
            final(self).current_source_line == old(self).current_source_line,
            final(self).current_source_col == old(self).current_source_col,
            final(self).break_targets@ == old(self).break_targets@,
            final(self).continue_targets@ == old(self).continue_targets@,
            final(self).continue_patches@ == old(self).continue_patches@,
    {
        if offset >= self.instructions.len() {
            return;
        }
        if matches!(self.instructions[offset], Instruction::TryJump(_, _)) {
            self.instructions.set(offset, Instruction::TryJump(catch_pc, finally_pc));
        }
    }

    /// Sets where the iterator step at `offset` goes once the iterator is done,
    /// where an iterator step stands there.
    pub fn patch_iterator_next(&mut self, offset: usize, target: u32)
        ensures
            final(self).instructions@ == (if offset < old(self).instructions@.len()
                && old(self).instructions@[offset as int] is IteratorNext {
                old(self).instructions@.update(offset as int, Instruction::IteratorNext(target))
            } else if offset < old(self).instructions@.len()
                && old(self).instructions@[offset as int] is AsyncIteratorNext {
                old(self).instructions@.update(offset as int, Instruction::AsyncIteratorNext(target))
            } else {
                old(self).instructions@
            }),
            final(self).source_lines@ == old(self).source_lines@,
            final(self).source_cols@ == old(self).source_cols@,
            final(self).constants@ == old(self).constants@,
            final(self).locals@ == old(self).locals@,
            final(self).functions@ == old(self).functions@,
            final(self).captured_var_names@ == old(self).captured_var_names@,
            final(self).local_start_idx == old(self).local_start_idx,
            final(self).scope_depth == old(self).scope_depth,
            final(self).current_source_line == old(self).current_source_line,
            final(self).current_source_col == old(self).current_source_col,
            final(self).break_targets@ == old(self).break_targets@,
            final(self).continue_targets@ == old(self).continue_targets@,
            final(self).continue_patches@ == old(self).continue_patches@,
    {
        if offset >= self.instructions.len() {
            return;
        }
        if matches!(self.instructions[offset], Instruction::IteratorNext(_)) {
            self.instructions.set(offset, Instruction::IteratorNext(target));
        } else if matches!(self.instructions[offset], Instruction::AsyncIteratorNext(_)) {
            self.instructions.set(offset, Instruction::AsyncIteratorNext(target));
        }
    }

    /// Emits the instruction for the binary operator `op`.
    pub fn generate_binary_op(&mut self, op: &BinaryOperator) -> (r: Result<(), crate::errors::Error>)
        requires
            old(self).aligned(),
        ensures
            r is Ok,
            final(self).aligned(),
            final(self).instructions@ == old(self).instructions@.push(binary_instruction(*op)),
            final(self).source_lines@ == old(self).source_lines@.push(old(self).current_source_line),
            final(self).source_cols@ == old(self).source_cols@.push(old(self).current_source_col),
            final(self).constants@ == old(self).constants@,
            final(self).locals@ == old(self).locals@,
            final(self).functions@ == old(self).functions@,
            final(self).captured_var_names@ == old(self).captured_var_names@,
            final(self).local_start_idx == old(self).local_start_idx,
            final(self).scope_depth == old(self).scope_depth,
            final(self).current_source_line == old(self).current_source_line,
            final(self).current_source_col == old(self).current_source_col,
            final(self).break_targets@ == old(self).break_targets@,
            final(self).continue_targets@ == old(self).continue_targets@,
            final(self).continue_patches@ == old(self).continue_patches@,
    {
        let instr = match op {
            BinaryOperator::Add => Instruction::Add,
            BinaryOperator::Sub => Instruction::Sub,
            BinaryOperator::Mul => Instruction::Mul,
            BinaryOperator::Div => Instruction::Div,
            BinaryOperator::Mod => Instruction::Mod,
            BinaryOperator::Power => Instruction::Power,
            BinaryOperator::Eq => Instruction::Eq,
            BinaryOperator::StrictEq => Instruction::StrictEq,
            BinaryOperator::NotEqual => Instruction::NotEqual,
            BinaryOperator::StrictNotEqual => Instruction::StrictNotEqual,
            BinaryOperator::Less => Instruction::Less,
            BinaryOperator::Greater => Instruction::Greater,
            BinaryOperator::LessEqual => Instruction::LessEqual,
            BinaryOperator::GreaterEqual => Instruction::GreaterEqual,
            BinaryOperator::And => Instruction::And,
            BinaryOperator::Or => Instruction::Or,
            BinaryOperator::BitAnd => Instruction::BitAnd,
            BinaryOperator::BitOr => Instruction::BitOr,
            BinaryOperator::BitXor => Instruction::BitXor,
            BinaryOperator::ShiftLeft => Instruction::ShiftLeft,
            BinaryOperator::ShiftRight => Instruction::ShiftRight,
            BinaryOperator::Instanceof => Instruction::InstanceOf,
            BinaryOperator::In => Instruction::In,
            BinaryOperator::NullishCoalescing => Instruction::NullishCoalescing,
            BinaryOperator::Comma => Instruction::Pop,
        };
        self.emit(instr);
        Ok(())
    }
}

/// The first position of `x` in `s`, or -1.
pub open spec fn first_index(s: Seq<Seq<char>>, x: Seq<char>) -> int
    decreases s.len(),
{
    if s.len() == 0 {
        -1
    } else if s[0] == x {
        0
    } else {
        let r = first_index(s.drop_first(), x);
        if r < 0 { -1 } else { r + 1 }
    }
}

/// The slot of `name` among the captured variables `caps` and then the locals `locs`.
pub open spec fn resolved_slot(caps: Seq<Seq<char>>, locs: Seq<Seq<char>>, name: Seq<char>) -> Option<u16> {
    let c = first_index(caps, name);
    if c >= 0 {
        Some(c as u16)
    } else {
        let l = first_index(locs, name);
        if l >= 0 {
            Some((caps.len() + l) as u16)
        } else {
            None
        }
    }
}

proof fn lemma_first_index(s: Seq<Seq<char>>, x: Seq<char>, i: int)
    requires
        0 <= i < s.len(),
        s[i] == x,
        forall|j: int| 0 <= j < i ==> s[j] != x,
    ensures
        first_index(s, x) == i,
    decreases i,
{
    if i > 0 {
        lemma_first_index(s.drop_first(), x, i - 1);
    }
}

proof fn lemma_first_index_none(s: Seq<Seq<char>>, x: Seq<char>)
    requires
        forall|j: int| 0 <= j < s.len() ==> s[j] != x,
    ensures
        first_index(s, x) == -1,
    decreases s.len(),
{
    if s.len() > 0 {
        lemma_first_index_none(s.drop_first(), x);
    }
}

} // verus!
