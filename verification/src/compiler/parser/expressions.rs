use vstd::prelude::*;
use vstd::string::*;
use crate::compiler::lexer::{token_view, SpannedToken, TemplatePart, Tok, Token};
use crate::compiler::parser::{
    closes, ends_term, ends_operand, binary_level, is_prefix_token, unary_operator_of, is_assignment_token,
    assignment_op_of, simple_operand, is_operand_of,
    token_debug_text, got_error, got_message, is_parse_failure, lemma_parts_depth_index,
    lemma_tokens_depth_index, parse_error_of, parts_depth, token_debug, token_depth,
    tokens_depth, ArrowFunctionBody, BinaryOperator, CompoundAssignmentOp, Expression, Parser,
    UnaryOperator, UpdateOperator,
};
use crate::errors::Error;
use crate::text::str_eq;

verus! {

/// The parts of a template literal token (none for any other token).
pub open spec fn template_parts(t: Token) -> Seq<TemplatePart> {
    match t {
        Token::TemplateLiteral(ps) => ps@,
        _ => Seq::empty(),
    }
}

/// The texts of the template parts `ps[..i]` that an expression has closed,
/// and the text gathered since the last expression.
pub open spec fn template_texts(ps: Seq<TemplatePart>, i: int) -> (Seq<Seq<char>>, Seq<char>)
    decreases i,
{
    if i <= 0 || i > ps.len() {
        (Seq::empty(), Seq::empty())
    } else {
        let (done, buf) = template_texts(ps, i - 1);
        match ps[i - 1] {
            TemplatePart::Text(t) => (done, buf + t@),
            TemplatePart::Expression(_) => (done.push(buf), Seq::empty()),
        }
    }
}

/// How many of the template parts `ps[..i]` are expressions.
pub open spec fn expression_parts(ps: Seq<TemplatePart>, i: int) -> nat
    decreases i,
{
    if i <= 0 || i > ps.len() {
        0
    } else {
        expression_parts(ps, i - 1) + (if ps[i - 1] is Expression { 1nat } else { 0nat })
    }
}

/// `e` is the template literal of the parts `ps`: the texts between the
/// expressions (adjacent texts joined, one more text than expressions) and
/// one expression per expression part.
pub open spec fn is_template_of(e: Expression, ps: Seq<TemplatePart>) -> bool {
    match e {
        Expression::TemplateLiteral { quasis, expressions } => {
            let (done, buf) = template_texts(ps, ps.len() as int);
            &&& names_of(quasis@) == done.push(buf)
            &&& expressions@.len() == expression_parts(ps, ps.len() as int)
        },
        _ => false,
    }
}

/// `e` is an arrow function with the parameters `params`, async where `is_async`.
pub open spec fn is_arrow_with(e: Expression, params: Seq<String>, is_async: bool) -> bool {
    match e {
        Expression::ArrowFunction { params: p, body: _, is_async: a } => p@ == params && a == is_async,
        _ => false,
    }
}

/// The names of a list of strings.
pub open spec fn names_of(v: Seq<String>) -> Seq<Seq<char>> {
    v.map_values(|s: String| s@)
}

/// From `start` on, `p`'s tokens spell the parameter names `ps`: each name
/// an identifier, a comma between each two.
pub(crate) open spec fn params_at(p: Parser, start: int, ps: Seq<Seq<char>>) -> bool {
    &&& forall|j: int| 0 <= j < ps.len() ==> p.tok_at(start + 2 * j) == Tok::Identifier(#[trigger] ps[j])
    &&& forall|j: int| 0 <= j < ps.len() - 1 ==> #[trigger] p.tok_at(start + 2 * j + 1) is Comma
}

/// The name under which a keyword may stand as a property name after `.`.
pub open spec fn keyword_name(t: Tok) -> Option<Seq<char>> {
    match t {
        Tok::Catch => Some("catch"@),
        Tok::Finally => Some("finally"@),
        Tok::Throw => Some("throw"@),
        Tok::Get => Some("get"@),
        Tok::SetKeyword => Some("set"@),
        Tok::Delete => Some("delete"@),
        Tok::New => Some("new"@),
        Tok::This => Some("this"@),
        Tok::Return => Some("return"@),
        Tok::If => Some("if"@),
        Tok::Else => Some("else"@),
        Tok::While => Some("while"@),
        Tok::For => Some("for"@),
        Tok::Do => Some("do"@),
        Tok::Function => Some("function"@),
        Tok::Class => Some("class"@),
        Tok::Switch => Some("switch"@),
        Tok::Case => Some("case"@),
        Tok::Break => Some("break"@),
        Tok::Continue => Some("continue"@),
        Tok::Typeof => Some("typeof"@),
        Tok::Instanceof => Some("instanceof"@),
        Tok::In => Some("in"@),
        Tok::Void => Some("void"@),
        Tok::Const => Some("const"@),
        Tok::Let => Some("let"@),
        Tok::Var => Some("var"@),
        Tok::Super => Some("super"@),
        Tok::Extends => Some("extends"@),
        Tok::Static => Some("static"@),
        Tok::Import => Some("import"@),
        Tok::Export => Some("export"@),
        Tok::Default => Some("default"@),
        Tok::From => Some("from"@),
        Tok::As => Some("as"@),
        Tok::Async => Some("async"@),
        Tok::Await => Some("await"@),
        Tok::Try => Some("try"@),
        Tok::Constructor => Some("constructor"@),
        Tok::Of => Some("of"@),
        _ => None,
    }
}

/// The name a token gives as a property name after `.`: an identifier's
/// own name or a keyword's name.
pub open spec fn property_name_of(t: Tok) -> Option<Seq<char>> {
    match t {
        Tok::Identifier(n) => Some(n),
        _ => keyword_name(t),
    }
}

/// The key a token gives in an object literal: as for a property name, and
/// also a string's text or a number's digits.
pub open spec fn key_of(t: Tok) -> Option<Seq<char>> {
    match t {
        Tok::String(s) => Some(s),
        Tok::Number(n) => Some(n),
        _ => property_name_of(t),
    }
}

/// The name of a keyword token that may stand as a property name.
fn keyword_text(t: &Token) -> (r: Option<&'static str>)
    ensures
        match keyword_name(token_view(*t)) {
            Some(k) => r matches Some(s) && s@ == k,
            None => r is None,
        },
{
    match t {
        Token::Catch => Some("catch"),
        Token::Finally => Some("finally"),
        Token::Throw => Some("throw"),
        Token::Get => Some("get"),
        Token::SetKeyword => Some("set"),
        Token::Delete => Some("delete"),
        Token::New => Some("new"),
        Token::This => Some("this"),
        Token::Return => Some("return"),
        Token::If => Some("if"),
        Token::Else => Some("else"),
        Token::While => Some("while"),
        Token::For => Some("for"),
        Token::Do => Some("do"),
        Token::Function => Some("function"),
        Token::Class => Some("class"),
        Token::Switch => Some("switch"),
        Token::Case => Some("case"),
        Token::Break => Some("break"),
        Token::Continue => Some("continue"),
        Token::Typeof => Some("typeof"),
        Token::Instanceof => Some("instanceof"),
        Token::In => Some("in"),
        Token::Void => Some("void"),
        Token::Const => Some("const"),
        Token::Let => Some("let"),
        Token::Var => Some("var"),
        Token::Super => Some("super"),
        Token::Extends => Some("extends"),
        Token::Static => Some("static"),
        Token::Import => Some("import"),
        Token::Export => Some("export"),
        Token::Default => Some("default"),
        Token::From => Some("from"),
        Token::As => Some("as"),
        Token::Async => Some("async"),
        Token::Await => Some("await"),
        Token::Try => Some("try"),
        Token::Constructor => Some("constructor"),
        Token::Of => Some("of"),
        _ => None,
    }
}

/// A parse error for a token that cannot start an expression.
fn unexpected_error(t: &Token) -> (e: Error)
    ensures
        e.kind is ParseError,
        e.kind.msg() == "Unexpected token "@ + token_debug(token_view(*t)),
{
    let mut m = String::from_str("Unexpected token ");
    let d = token_debug_text(t);
    m.append(d.as_str());
    Error::ParseError(m)
}

impl<'a> Parser<'a> {
    pub(crate) fn parse_expression(&mut self) -> (r: Result<Expression, Error>)
    requires
        old(self).wf(),
    ensures
        old(self).step(*final(self)),
        r is Ok ==> old(self).pos < final(self).pos,
        r matches Err(e) ==> is_parse_failure(e),
        old(self).lone_number() ==> old(self).gives_number(r, *final(self)),
        old(self).operand_pair(1) ==> (r is Ok && old(self).is_operand_pair(r->Ok_0) && final(self).pos == old(self).pos + 3),
        old(self).number_pair(1) ==> (r is Ok && old(self).is_number_pair(r->Ok_0) && final(self).pos == old(self).pos + 3),
    decreases old(self).depth(), old(self).rest(), 25nat,
    {
        self.parse_assignment()
    }

    pub(crate) fn parse_assignment(&mut self) -> (r: Result<Expression, Error>)
    requires
        old(self).wf(),
    ensures
        old(self).step(*final(self)),
        r is Ok ==> old(self).pos < final(self).pos,
        r matches Err(e) ==> is_parse_failure(e),
        old(self).lone_number() ==> old(self).gives_number(r, *final(self)),
        old(self).operand_pair(1) ==> (r is Ok && old(self).is_operand_pair(r->Ok_0) && final(self).pos == old(self).pos + 3),
        old(self).cur() is Number && is_assignment_token(old(self).tok_at(old(self).pos + 1))
            && old(self).tok_at(old(self).pos + 2) is Number && closes(old(self).tok_at(old(self).pos + 3))
            ==> (r matches Ok(Expression::Assignment { target, value, op })
                && op == assignment_op_of(old(self).tok_at(old(self).pos + 1))
                && ((*target) matches Expression::NumberLiteral(a) && a@ == old(self).cur()->Number_0)
                && ((*value) matches Expression::NumberLiteral(b) && b@ == old(self).tok_at(old(self).pos + 2)->Number_0)
                && final(self).pos == old(self).pos + 3),
        old(self).number_pair(1) ==> (r is Ok && old(self).is_number_pair(r->Ok_0) && final(self).pos == old(self).pos + 3),
    decreases old(self).depth(), old(self).rest(), 24nat,
    {
        let left = match self.parse_ternary() { Ok(v) => v, Err(e) => { return Err(e); } };
        let op: Option<Option<CompoundAssignmentOp>> = match self.peek() {
            Token::Assign => Some(None),
            Token::PlusAssign => Some(Some(CompoundAssignmentOp::AddAssign)),
            Token::MinusAssign => Some(Some(CompoundAssignmentOp::SubAssign)),
            Token::StarAssign => Some(Some(CompoundAssignmentOp::MulAssign)),
            Token::SlashAssign => Some(Some(CompoundAssignmentOp::DivAssign)),
            Token::PercentAssign => Some(Some(CompoundAssignmentOp::ModAssign)),
            Token::AndAssign => Some(Some(CompoundAssignmentOp::AndAssign)),
            Token::OrAssign => Some(Some(CompoundAssignmentOp::OrAssign)),
            _ => None,
        };
        match op {
            Some(op) => {
                self.advance();
                let value = match self.parse_assignment() { Ok(v) => v, Err(e) => { return Err(e); } };
                Ok(Expression::Assignment { target: Box::new(left), value: Box::new(value), op })
            },
            None => Ok(left),
        }
    }

    pub(crate) fn parse_ternary(&mut self) -> (r: Result<Expression, Error>)
    requires
        old(self).wf(),
    ensures
        old(self).step(*final(self)),
        r is Ok ==> old(self).pos < final(self).pos,
        r matches Err(e) ==> is_parse_failure(e),
        old(self).lone_number() ==> old(self).gives_number(r, *final(self)),
        old(self).operand_pair(1) ==> (r is Ok && old(self).is_operand_pair(r->Ok_0) && final(self).pos == old(self).pos + 3),
        old(self).number_below(1) ==> old(self).gives_number(r, *final(self)),
        old(self).number_pair(1) ==> (r is Ok && old(self).is_number_pair(r->Ok_0) && final(self).pos == old(self).pos + 3),
    decreases old(self).depth(), old(self).rest(), 23nat,
    {
        let condition = match self.parse_or() { Ok(v) => v, Err(e) => { return Err(e); } };
        if self.at(&Token::Question) {
            self.advance();
            let consequent = match self.parse_assignment() { Ok(v) => v, Err(e) => { return Err(e); } };
            match self.expect(&Token::Colon) { Ok(v) => v, Err(e) => { return Err(e); } };
            let alternate = match self.parse_assignment() { Ok(v) => v, Err(e) => { return Err(e); } };
            Ok(Expression::ConditionalExpression {
                test: Box::new(condition),
                consequent: Box::new(consequent),
                alternate: Box::new(alternate),
            })
        } else {
            Ok(condition)
        }
    }

    pub(crate) fn parse_or(&mut self) -> (r: Result<Expression, Error>)
    requires
        old(self).wf(),
    ensures
        old(self).step(*final(self)),
        r is Ok ==> old(self).pos < final(self).pos,
        r matches Err(e) ==> is_parse_failure(e),
        old(self).lone_number() ==> old(self).gives_number(r, *final(self)),
        old(self).operand_below(1) ==> old(self).gives_operand(r, *final(self)),
        old(self).operand_pair(1) ==> (r is Ok && old(self).is_operand_pair(r->Ok_0) && final(self).pos == old(self).pos + 3),
        old(self).number_below(1) ==> old(self).gives_number(r, *final(self)),
        old(self).number_pair(1) ==> (r is Ok && old(self).is_number_pair(r->Ok_0) && final(self).pos == old(self).pos + 3),
    decreases old(self).depth(), old(self).rest(), 22nat,
    {
        let ghost toks = self.tokens;
        let ghost start = self.pos;
        let mut left = match self.parse_and() { Ok(v) => v, Err(e) => { return Err(e); } };
        let ghost p1 = self.pos;
        let ghost first = left;
        loop
            invariant
            self.wf(),
            self.tokens == toks,
            toks == old(self).tokens,
            start == old(self).pos,
            start < self.pos,
            closes(old(self).tok_at(p1 as int)) ==> (self.pos == p1 && left == first),
            old(self).lone_number() ==> (p1 == old(self).pos + 1 && (first matches Expression::NumberLiteral(s) && s@ == old(self).cur()->Number_0)),
            ends_operand(old(self).tok_at(p1 as int), 1) ==> (self.pos == p1 && left == first),
            old(self).number_below(2) ==> (p1 == old(self).pos + 1 && (first matches Expression::NumberLiteral(s) && s@ == old(self).cur()->Number_0)),
            old(self).number_pair(2) ==> (p1 == old(self).pos + 3 && old(self).is_number_pair(first)),
            old(self).operand_below(2) ==> (p1 == old(self).pos + 1 && is_operand_of(first, old(self).cur())),
            old(self).operand_pair(2) ==> (p1 == old(self).pos + 3 && old(self).is_operand_pair(first)),
            old(self).operand_pair(1) && binary_level(old(self).tok_at(old(self).pos + 1)) == 1 && self.pos != p1
                ==> (self.pos == old(self).pos + 3 && old(self).is_operand_pair(left)),
            p1 <= self.pos,
            self.pos == p1 ==> left == first,
            old(self).number_pair(1) && binary_level(old(self).tok_at(old(self).pos + 1)) == 1 && self.pos != p1
                ==> (self.pos == old(self).pos + 3 && old(self).is_number_pair(left)),
        ensures
            old(self).number_pair(1) && binary_level(old(self).tok_at(old(self).pos + 1)) == 1 ==> self.pos != p1,
            old(self).operand_pair(1) && binary_level(old(self).tok_at(old(self).pos + 1)) == 1 ==> self.pos != p1,
            decreases self.tokens@.len() - self.pos,
        {
            let op = match self.peek() {
                Token::Or => Some(BinaryOperator::Or),
                _ => None,
            };
            match op {
                Some(op) => {
                    assert(!closes(self.cur()));
                    assert(!ends_operand(self.cur(), 1));
                    self.advance();
                    let right = match self.parse_and() { Ok(v) => v, Err(e) => { return Err(e); } };
                    left = Expression::BinaryOp { op, left: Box::new(left), right: Box::new(right) };
                },
                None => {
                    break;
                },
            }
        }
        Ok(left)
    }

    pub(crate) fn parse_and(&mut self) -> (r: Result<Expression, Error>)
    requires
        old(self).wf(),
    ensures
        old(self).step(*final(self)),
        r is Ok ==> old(self).pos < final(self).pos,
        r matches Err(e) ==> is_parse_failure(e),
        old(self).lone_number() ==> old(self).gives_number(r, *final(self)),
        old(self).operand_below(2) ==> old(self).gives_operand(r, *final(self)),
        old(self).operand_pair(2) ==> (r is Ok && old(self).is_operand_pair(r->Ok_0) && final(self).pos == old(self).pos + 3),
        old(self).number_below(2) ==> old(self).gives_number(r, *final(self)),
        old(self).number_pair(2) ==> (r is Ok && old(self).is_number_pair(r->Ok_0) && final(self).pos == old(self).pos + 3),
    decreases old(self).depth(), old(self).rest(), 21nat,
    {
        let ghost toks = self.tokens;
        let ghost start = self.pos;
        let mut left = match self.parse_equality() { Ok(v) => v, Err(e) => { return Err(e); } };
        let ghost p1 = self.pos;
        let ghost first = left;
        loop
            invariant
            self.wf(),
            self.tokens == toks,
            toks == old(self).tokens,
            start == old(self).pos,
            start < self.pos,
            closes(old(self).tok_at(p1 as int)) ==> (self.pos == p1 && left == first),
            old(self).lone_number() ==> (p1 == old(self).pos + 1 && (first matches Expression::NumberLiteral(s) && s@ == old(self).cur()->Number_0)),
            ends_operand(old(self).tok_at(p1 as int), 2) ==> (self.pos == p1 && left == first),
            old(self).number_below(3) ==> (p1 == old(self).pos + 1 && (first matches Expression::NumberLiteral(s) && s@ == old(self).cur()->Number_0)),
            old(self).number_pair(3) ==> (p1 == old(self).pos + 3 && old(self).is_number_pair(first)),
            old(self).operand_below(3) ==> (p1 == old(self).pos + 1 && is_operand_of(first, old(self).cur())),
            old(self).operand_pair(3) ==> (p1 == old(self).pos + 3 && old(self).is_operand_pair(first)),
            old(self).operand_pair(2) && binary_level(old(self).tok_at(old(self).pos + 1)) == 2 && self.pos != p1
                ==> (self.pos == old(self).pos + 3 && old(self).is_operand_pair(left)),
            p1 <= self.pos,
            self.pos == p1 ==> left == first,
            old(self).number_pair(2) && binary_level(old(self).tok_at(old(self).pos + 1)) == 2 && self.pos != p1
                ==> (self.pos == old(self).pos + 3 && old(self).is_number_pair(left)),
        ensures
            old(self).number_pair(2) && binary_level(old(self).tok_at(old(self).pos + 1)) == 2 ==> self.pos != p1,
            old(self).operand_pair(2) && binary_level(old(self).tok_at(old(self).pos + 1)) == 2 ==> self.pos != p1,
            decreases self.tokens@.len() - self.pos,
        {
            let op = match self.peek() {
                Token::And => Some(BinaryOperator::And),
                _ => None,
            };
            match op {
                Some(op) => {
                    assert(!closes(self.cur()));
                    assert(!ends_operand(self.cur(), 2));
                    self.advance();
                    let right = match self.parse_equality() { Ok(v) => v, Err(e) => { return Err(e); } };
                    left = Expression::BinaryOp { op, left: Box::new(left), right: Box::new(right) };
                },
                None => {
                    break;
                },
            }
        }
        Ok(left)
    }

    pub(crate) fn parse_equality(&mut self) -> (r: Result<Expression, Error>)
    requires
        old(self).wf(),
    ensures
        old(self).step(*final(self)),
        r is Ok ==> old(self).pos < final(self).pos,
        r matches Err(e) ==> is_parse_failure(e),
        old(self).lone_number() ==> old(self).gives_number(r, *final(self)),
        old(self).operand_below(3) ==> old(self).gives_operand(r, *final(self)),
        old(self).operand_pair(3) ==> (r is Ok && old(self).is_operand_pair(r->Ok_0) && final(self).pos == old(self).pos + 3),
        old(self).number_below(3) ==> old(self).gives_number(r, *final(self)),
        old(self).number_pair(3) ==> (r is Ok && old(self).is_number_pair(r->Ok_0) && final(self).pos == old(self).pos + 3),
    decreases old(self).depth(), old(self).rest(), 20nat,
    {
        let ghost toks = self.tokens;
        let ghost start = self.pos;
        let mut left = match self.parse_instanceof() { Ok(v) => v, Err(e) => { return Err(e); } };
        let ghost p1 = self.pos;
        let ghost first = left;
        loop
            invariant
            self.wf(),
            self.tokens == toks,
            toks == old(self).tokens,
            start == old(self).pos,
            start < self.pos,
            closes(old(self).tok_at(p1 as int)) ==> (self.pos == p1 && left == first),
            old(self).lone_number() ==> (p1 == old(self).pos + 1 && (first matches Expression::NumberLiteral(s) && s@ == old(self).cur()->Number_0)),
            ends_operand(old(self).tok_at(p1 as int), 3) ==> (self.pos == p1 && left == first),
            old(self).number_below(4) ==> (p1 == old(self).pos + 1 && (first matches Expression::NumberLiteral(s) && s@ == old(self).cur()->Number_0)),
            old(self).number_pair(4) ==> (p1 == old(self).pos + 3 && old(self).is_number_pair(first)),
            old(self).operand_below(4) ==> (p1 == old(self).pos + 1 && is_operand_of(first, old(self).cur())),
            old(self).operand_pair(4) ==> (p1 == old(self).pos + 3 && old(self).is_operand_pair(first)),
            old(self).operand_pair(3) && binary_level(old(self).tok_at(old(self).pos + 1)) == 3 && self.pos != p1
                ==> (self.pos == old(self).pos + 3 && old(self).is_operand_pair(left)),
            p1 <= self.pos,
            self.pos == p1 ==> left == first,
            old(self).number_pair(3) && binary_level(old(self).tok_at(old(self).pos + 1)) == 3 && self.pos != p1
                ==> (self.pos == old(self).pos + 3 && old(self).is_number_pair(left)),
        ensures
            old(self).number_pair(3) && binary_level(old(self).tok_at(old(self).pos + 1)) == 3 ==> self.pos != p1,
            old(self).operand_pair(3) && binary_level(old(self).tok_at(old(self).pos + 1)) == 3 ==> self.pos != p1,
            decreases self.tokens@.len() - self.pos,
        {
            let op = match self.peek() {
                Token::Equal => Some(BinaryOperator::Eq),
                Token::StrictEqual => Some(BinaryOperator::StrictEq),
                Token::NotEqual => Some(BinaryOperator::NotEqual),
                Token::StrictNotEqual => Some(BinaryOperator::StrictNotEqual),
                _ => None,
            };
            match op {
                Some(op) => {
                    assert(!closes(self.cur()));
                    assert(!ends_operand(self.cur(), 3));
                    self.advance();
                    let right = match self.parse_instanceof() { Ok(v) => v, Err(e) => { return Err(e); } };
                    left = Expression::BinaryOp { op, left: Box::new(left), right: Box::new(right) };
                },
                None => {
                    break;
                },
            }
        }
        Ok(left)
    }

    pub(crate) fn parse_instanceof(&mut self) -> (r: Result<Expression, Error>)
    requires
        old(self).wf(),
    ensures
        old(self).step(*final(self)),
        r is Ok ==> old(self).pos < final(self).pos,
        r matches Err(e) ==> is_parse_failure(e),
        old(self).lone_number() ==> old(self).gives_number(r, *final(self)),
        old(self).operand_below(4) ==> old(self).gives_operand(r, *final(self)),
        old(self).operand_pair(4) ==> (r is Ok && old(self).is_operand_pair(r->Ok_0) && final(self).pos == old(self).pos + 3),
        old(self).number_below(4) ==> old(self).gives_number(r, *final(self)),
        old(self).number_pair(4) ==> (r is Ok && old(self).is_number_pair(r->Ok_0) && final(self).pos == old(self).pos + 3),
    decreases old(self).depth(), old(self).rest(), 19nat,
    {
        let ghost toks = self.tokens;
        let ghost start = self.pos;
        let mut left = match self.parse_in() { Ok(v) => v, Err(e) => { return Err(e); } };
        let ghost p1 = self.pos;
        let ghost first = left;
        loop
            invariant
            self.wf(),
            self.tokens == toks,
            toks == old(self).tokens,
            start == old(self).pos,
            start < self.pos,
            closes(old(self).tok_at(p1 as int)) ==> (self.pos == p1 && left == first),
            old(self).lone_number() ==> (p1 == old(self).pos + 1 && (first matches Expression::NumberLiteral(s) && s@ == old(self).cur()->Number_0)),
            ends_operand(old(self).tok_at(p1 as int), 4) ==> (self.pos == p1 && left == first),
            old(self).number_below(5) ==> (p1 == old(self).pos + 1 && (first matches Expression::NumberLiteral(s) && s@ == old(self).cur()->Number_0)),
            old(self).number_pair(5) ==> (p1 == old(self).pos + 3 && old(self).is_number_pair(first)),
            old(self).operand_below(5) ==> (p1 == old(self).pos + 1 && is_operand_of(first, old(self).cur())),
            old(self).operand_pair(5) ==> (p1 == old(self).pos + 3 && old(self).is_operand_pair(first)),
            old(self).operand_pair(4) && binary_level(old(self).tok_at(old(self).pos + 1)) == 4 && self.pos != p1
                ==> (self.pos == old(self).pos + 3 && old(self).is_operand_pair(left)),
            p1 <= self.pos,
            self.pos == p1 ==> left == first,
            old(self).number_pair(4) && binary_level(old(self).tok_at(old(self).pos + 1)) == 4 && self.pos != p1
                ==> (self.pos == old(self).pos + 3 && old(self).is_number_pair(left)),
        ensures
            old(self).number_pair(4) && binary_level(old(self).tok_at(old(self).pos + 1)) == 4 ==> self.pos != p1,
            old(self).operand_pair(4) && binary_level(old(self).tok_at(old(self).pos + 1)) == 4 ==> self.pos != p1,
            decreases self.tokens@.len() - self.pos,
        {
            let op = match self.peek() {
                Token::Instanceof => Some(BinaryOperator::Instanceof),
                _ => None,
            };
            match op {
                Some(op) => {
                    assert(!closes(self.cur()));
                    assert(!ends_operand(self.cur(), 4));
                    self.advance();
                    let right = match self.parse_in() { Ok(v) => v, Err(e) => { return Err(e); } };
                    left = Expression::BinaryOp { op, left: Box::new(left), right: Box::new(right) };
                },
                None => {
                    break;
                },
            }
        }
        Ok(left)
    }

    pub(crate) fn parse_in(&mut self) -> (r: Result<Expression, Error>)
    requires
        old(self).wf(),
    ensures
        old(self).step(*final(self)),
        r is Ok ==> old(self).pos < final(self).pos,
        r matches Err(e) ==> is_parse_failure(e),
        old(self).lone_number() ==> old(self).gives_number(r, *final(self)),
        old(self).operand_below(5) ==> old(self).gives_operand(r, *final(self)),
        old(self).operand_pair(5) ==> (r is Ok && old(self).is_operand_pair(r->Ok_0) && final(self).pos == old(self).pos + 3),
        old(self).number_below(5) ==> old(self).gives_number(r, *final(self)),
        old(self).number_pair(5) ==> (r is Ok && old(self).is_number_pair(r->Ok_0) && final(self).pos == old(self).pos + 3),
    decreases old(self).depth(), old(self).rest(), 18nat,
    {
        let ghost toks = self.tokens;
        let ghost start = self.pos;
        let mut left = match self.parse_comparison() { Ok(v) => v, Err(e) => { return Err(e); } };
        let ghost p1 = self.pos;
        let ghost first = left;
        loop
            invariant
            self.wf(),
            self.tokens == toks,
            toks == old(self).tokens,
            start == old(self).pos,
            start < self.pos,
            closes(old(self).tok_at(p1 as int)) ==> (self.pos == p1 && left == first),
            old(self).lone_number() ==> (p1 == old(self).pos + 1 && (first matches Expression::NumberLiteral(s) && s@ == old(self).cur()->Number_0)),
            ends_operand(old(self).tok_at(p1 as int), 5) ==> (self.pos == p1 && left == first),
            old(self).number_below(6) ==> (p1 == old(self).pos + 1 && (first matches Expression::NumberLiteral(s) && s@ == old(self).cur()->Number_0)),
            old(self).number_pair(6) ==> (p1 == old(self).pos + 3 && old(self).is_number_pair(first)),
            old(self).operand_below(6) ==> (p1 == old(self).pos + 1 && is_operand_of(first, old(self).cur())),
            old(self).operand_pair(6) ==> (p1 == old(self).pos + 3 && old(self).is_operand_pair(first)),
            old(self).operand_pair(5) && binary_level(old(self).tok_at(old(self).pos + 1)) == 5 && self.pos != p1
                ==> (self.pos == old(self).pos + 3 && old(self).is_operand_pair(left)),
            p1 <= self.pos,
            self.pos == p1 ==> left == first,
            old(self).number_pair(5) && binary_level(old(self).tok_at(old(self).pos + 1)) == 5 && self.pos != p1
                ==> (self.pos == old(self).pos + 3 && old(self).is_number_pair(left)),
        ensures
            old(self).number_pair(5) && binary_level(old(self).tok_at(old(self).pos + 1)) == 5 ==> self.pos != p1,
            old(self).operand_pair(5) && binary_level(old(self).tok_at(old(self).pos + 1)) == 5 ==> self.pos != p1,
            decreases self.tokens@.len() - self.pos,
        {
            let op = match self.peek() {
                Token::In => Some(BinaryOperator::In),
                _ => None,
            };
            match op {
                Some(op) => {
                    assert(!closes(self.cur()));
                    assert(!ends_operand(self.cur(), 5));
                    self.advance();
                    let right = match self.parse_comparison() { Ok(v) => v, Err(e) => { return Err(e); } };
                    left = Expression::BinaryOp { op, left: Box::new(left), right: Box::new(right) };
                },
                None => {
                    break;
                },
            }
        }
        Ok(left)
    }

    pub(crate) fn parse_comparison(&mut self) -> (r: Result<Expression, Error>)
    requires
        old(self).wf(),
    ensures
        old(self).step(*final(self)),
        r is Ok ==> old(self).pos < final(self).pos,
        r matches Err(e) ==> is_parse_failure(e),
        old(self).lone_number() ==> old(self).gives_number(r, *final(self)),
        old(self).operand_below(6) ==> old(self).gives_operand(r, *final(self)),
        old(self).operand_pair(6) ==> (r is Ok && old(self).is_operand_pair(r->Ok_0) && final(self).pos == old(self).pos + 3),
        old(self).number_below(6) ==> old(self).gives_number(r, *final(self)),
        old(self).number_pair(6) ==> (r is Ok && old(self).is_number_pair(r->Ok_0) && final(self).pos == old(self).pos + 3),
    decreases old(self).depth(), old(self).rest(), 17nat,
    {
        let ghost toks = self.tokens;
        let ghost start = self.pos;
        let mut left = match self.parse_shift() { Ok(v) => v, Err(e) => { return Err(e); } };
        let ghost p1 = self.pos;
        let ghost first = left;
        loop
            invariant
            self.wf(),
            self.tokens == toks,
            toks == old(self).tokens,
            start == old(self).pos,
            start < self.pos,
            closes(old(self).tok_at(p1 as int)) ==> (self.pos == p1 && left == first),
            old(self).lone_number() ==> (p1 == old(self).pos + 1 && (first matches Expression::NumberLiteral(s) && s@ == old(self).cur()->Number_0)),
            ends_operand(old(self).tok_at(p1 as int), 6) ==> (self.pos == p1 && left == first),
            old(self).number_below(7) ==> (p1 == old(self).pos + 1 && (first matches Expression::NumberLiteral(s) && s@ == old(self).cur()->Number_0)),
            old(self).number_pair(7) ==> (p1 == old(self).pos + 3 && old(self).is_number_pair(first)),
            old(self).operand_below(7) ==> (p1 == old(self).pos + 1 && is_operand_of(first, old(self).cur())),
            old(self).operand_pair(7) ==> (p1 == old(self).pos + 3 && old(self).is_operand_pair(first)),
            old(self).operand_pair(6) && binary_level(old(self).tok_at(old(self).pos + 1)) == 6 && self.pos != p1
                ==> (self.pos == old(self).pos + 3 && old(self).is_operand_pair(left)),
            p1 <= self.pos,
            self.pos == p1 ==> left == first,
            old(self).number_pair(6) && binary_level(old(self).tok_at(old(self).pos + 1)) == 6 && self.pos != p1
                ==> (self.pos == old(self).pos + 3 && old(self).is_number_pair(left)),
        ensures
            old(self).number_pair(6) && binary_level(old(self).tok_at(old(self).pos + 1)) == 6 ==> self.pos != p1,
            old(self).operand_pair(6) && binary_level(old(self).tok_at(old(self).pos + 1)) == 6 ==> self.pos != p1,
            decreases self.tokens@.len() - self.pos,
        {
            let op = match self.peek() {
                Token::Less => Some(BinaryOperator::Less),
                Token::Greater => Some(BinaryOperator::Greater),
                Token::LessEqual => Some(BinaryOperator::LessEqual),
                Token::GreaterEqual => Some(BinaryOperator::GreaterEqual),
                _ => None,
            };
            match op {
                Some(op) => {
                    assert(!closes(self.cur()));
                    assert(!ends_operand(self.cur(), 6));
                    self.advance();
                    let right = match self.parse_shift() { Ok(v) => v, Err(e) => { return Err(e); } };
                    left = Expression::BinaryOp { op, left: Box::new(left), right: Box::new(right) };
                },
                None => {
                    break;
                },
            }
        }
        Ok(left)
    }

    pub(crate) fn parse_shift(&mut self) -> (r: Result<Expression, Error>)
    requires
        old(self).wf(),
    ensures
        old(self).step(*final(self)),
        r is Ok ==> old(self).pos < final(self).pos,
        r matches Err(e) ==> is_parse_failure(e),
        old(self).lone_number() ==> old(self).gives_number(r, *final(self)),
        old(self).operand_below(7) ==> old(self).gives_operand(r, *final(self)),
        old(self).operand_pair(7) ==> (r is Ok && old(self).is_operand_pair(r->Ok_0) && final(self).pos == old(self).pos + 3),
        old(self).number_below(7) ==> old(self).gives_number(r, *final(self)),
        old(self).number_pair(7) ==> (r is Ok && old(self).is_number_pair(r->Ok_0) && final(self).pos == old(self).pos + 3),
    decreases old(self).depth(), old(self).rest(), 16nat,
    {
        let ghost toks = self.tokens;
        let ghost start = self.pos;
        let mut left = match self.parse_additive() { Ok(v) => v, Err(e) => { return Err(e); } };
        let ghost p1 = self.pos;
        let ghost first = left;
        loop
            invariant
            self.wf(),
            self.tokens == toks,
            toks == old(self).tokens,
            start == old(self).pos,
            start < self.pos,
            closes(old(self).tok_at(p1 as int)) ==> (self.pos == p1 && left == first),
            old(self).lone_number() ==> (p1 == old(self).pos + 1 && (first matches Expression::NumberLiteral(s) && s@ == old(self).cur()->Number_0)),
            ends_operand(old(self).tok_at(p1 as int), 7) ==> (self.pos == p1 && left == first),
            old(self).number_below(8) ==> (p1 == old(self).pos + 1 && (first matches Expression::NumberLiteral(s) && s@ == old(self).cur()->Number_0)),
            old(self).number_pair(8) ==> (p1 == old(self).pos + 3 && old(self).is_number_pair(first)),
            old(self).operand_below(8) ==> (p1 == old(self).pos + 1 && is_operand_of(first, old(self).cur())),
            old(self).operand_pair(8) ==> (p1 == old(self).pos + 3 && old(self).is_operand_pair(first)),
            old(self).operand_pair(7) && binary_level(old(self).tok_at(old(self).pos + 1)) == 7 && self.pos != p1
                ==> (self.pos == old(self).pos + 3 && old(self).is_operand_pair(left)),
            p1 <= self.pos,
            self.pos == p1 ==> left == first,
            old(self).number_pair(7) && binary_level(old(self).tok_at(old(self).pos + 1)) == 7 && self.pos != p1
                ==> (self.pos == old(self).pos + 3 && old(self).is_number_pair(left)),
        ensures
            old(self).number_pair(7) && binary_level(old(self).tok_at(old(self).pos + 1)) == 7 ==> self.pos != p1,
            old(self).operand_pair(7) && binary_level(old(self).tok_at(old(self).pos + 1)) == 7 ==> self.pos != p1,
            decreases self.tokens@.len() - self.pos,
        {
            let op = match self.peek() {
                Token::ShiftLeft => Some(BinaryOperator::ShiftLeft),
                Token::ShiftRight => Some(BinaryOperator::ShiftRight),
                _ => None,
            };
            match op {
                Some(op) => {
                    assert(!closes(self.cur()));
                    assert(!ends_operand(self.cur(), 7));
                    self.advance();
                    let right = match self.parse_additive() { Ok(v) => v, Err(e) => { return Err(e); } };
                    left = Expression::BinaryOp { op, left: Box::new(left), right: Box::new(right) };
                },
                None => {
                    break;
                },
            }
        }
        Ok(left)
    }

    pub(crate) fn parse_additive(&mut self) -> (r: Result<Expression, Error>)
    requires
        old(self).wf(),
    ensures
        old(self).step(*final(self)),
        r is Ok ==> old(self).pos < final(self).pos,
        r matches Err(e) ==> is_parse_failure(e),
        old(self).lone_number() ==> old(self).gives_number(r, *final(self)),
        old(self).operand_below(8) ==> old(self).gives_operand(r, *final(self)),
        old(self).operand_pair(8) ==> (r is Ok && old(self).is_operand_pair(r->Ok_0) && final(self).pos == old(self).pos + 3),
        old(self).number_below(8) ==> old(self).gives_number(r, *final(self)),
        old(self).number_pair(8) ==> (r is Ok && old(self).is_number_pair(r->Ok_0) && final(self).pos == old(self).pos + 3),
        old(self).number_sum() ==> old(self).is_number_sum(r->Ok_0) && r is Ok && final(self).pos == old(self).pos + 3,
    decreases old(self).depth(), old(self).rest(), 15nat,
    {
        let ghost toks = self.tokens;
        let ghost start = self.pos;
        let mut left = match self.parse_multiplicative() { Ok(v) => v, Err(e) => { return Err(e); } };
        let ghost p1 = self.pos;
        let ghost first = left;
        loop
            invariant
            self.wf(),
            self.tokens == toks,
            toks == old(self).tokens,
            start == old(self).pos,
            start < self.pos,
            closes(old(self).tok_at(p1 as int)) ==> (self.pos == p1 && left == first),
            old(self).lone_number() ==> (p1 == old(self).pos + 1 && (first matches Expression::NumberLiteral(s) && s@ == old(self).cur()->Number_0)),
            ends_operand(old(self).tok_at(p1 as int), 8) ==> (self.pos == p1 && left == first),
            old(self).number_below(9) ==> (p1 == old(self).pos + 1 && (first matches Expression::NumberLiteral(s) && s@ == old(self).cur()->Number_0)),
            old(self).number_pair(9) ==> (p1 == old(self).pos + 3 && old(self).is_number_pair(first)),
            old(self).operand_below(9) ==> (p1 == old(self).pos + 1 && is_operand_of(first, old(self).cur())),
            old(self).operand_pair(9) ==> (p1 == old(self).pos + 3 && old(self).is_operand_pair(first)),
            old(self).operand_pair(8) && binary_level(old(self).tok_at(old(self).pos + 1)) == 8 && self.pos != p1
                ==> (self.pos == old(self).pos + 3 && old(self).is_operand_pair(left)),
            old(self).number_pair(8) && binary_level(old(self).tok_at(old(self).pos + 1)) == 8 && self.pos != p1
                ==> (self.pos == old(self).pos + 3 && old(self).is_number_pair(left)),
            old(self).number_sum() ==> (p1 == old(self).pos + 1 && (first matches Expression::NumberLiteral(s) && s@ == old(self).cur()->Number_0)),
            p1 <= self.pos,
            self.pos == p1 ==> left == first,
            old(self).number_sum() && self.pos != p1 ==> (self.pos == old(self).pos + 3 && old(self).is_number_sum(left)),
        ensures
            old(self).number_sum() ==> self.pos != p1,
            old(self).number_pair(8) && binary_level(old(self).tok_at(old(self).pos + 1)) == 8 ==> self.pos != p1,
            old(self).operand_pair(8) && binary_level(old(self).tok_at(old(self).pos + 1)) == 8 ==> self.pos != p1,
            decreases self.tokens@.len() - self.pos,
        {
            let op = match self.peek() {
                Token::Plus => Some(BinaryOperator::Add),
                Token::Minus => Some(BinaryOperator::Sub),
                _ => None,
            };
            match op {
                Some(op) => {
                    assert(!closes(self.cur()));
                    assert(!ends_operand(self.cur(), 8));
                    self.advance();
                    let right = match self.parse_multiplicative() { Ok(v) => v, Err(e) => { return Err(e); } };
                    left = Expression::BinaryOp { op, left: Box::new(left), right: Box::new(right) };
                },
                None => {
                    break;
                },
            }
        }
        Ok(left)
    }

    pub(crate) fn parse_multiplicative(&mut self) -> (r: Result<Expression, Error>)
    requires
        old(self).wf(),
    ensures
        old(self).step(*final(self)),
        r is Ok ==> old(self).pos < final(self).pos,
        r matches Err(e) ==> is_parse_failure(e),
        old(self).lone_number() ==> old(self).gives_number(r, *final(self)),
        old(self).operand_below(9) ==> old(self).gives_operand(r, *final(self)),
        old(self).operand_pair(9) ==> (r is Ok && old(self).is_operand_pair(r->Ok_0) && final(self).pos == old(self).pos + 3),
        old(self).number_below(9) ==> old(self).gives_number(r, *final(self)),
        old(self).number_pair(9) ==> (r is Ok && old(self).is_number_pair(r->Ok_0) && final(self).pos == old(self).pos + 3),
        old(self).number_term() ==> old(self).gives_number(r, *final(self)),
    decreases old(self).depth(), old(self).rest(), 14nat,
    {
        let ghost toks = self.tokens;
        let ghost start = self.pos;
        let mut left = match self.parse_power() { Ok(v) => v, Err(e) => { return Err(e); } };
        let ghost p1 = self.pos;
        let ghost first = left;
        loop
            invariant
            self.wf(),
            self.tokens == toks,
            toks == old(self).tokens,
            start == old(self).pos,
            start < self.pos,
            ends_term(old(self).tok_at(p1 as int)) ==> (self.pos == p1 && left == first),
            old(self).number_term() ==> (p1 == old(self).pos + 1 && (first matches Expression::NumberLiteral(s) && s@ == old(self).cur()->Number_0)),
            ends_operand(old(self).tok_at(p1 as int), 9) ==> (self.pos == p1 && left == first),
            old(self).number_below(10) ==> (p1 == old(self).pos + 1 && (first matches Expression::NumberLiteral(s) && s@ == old(self).cur()->Number_0)),
            old(self).number_pair(10) ==> (p1 == old(self).pos + 3 && old(self).is_number_pair(first)),
            old(self).operand_below(10) ==> (p1 == old(self).pos + 1 && is_operand_of(first, old(self).cur())),
            old(self).operand_pair(10) ==> (p1 == old(self).pos + 3 && old(self).is_operand_pair(first)),
            old(self).operand_pair(9) && binary_level(old(self).tok_at(old(self).pos + 1)) == 9 && self.pos != p1
                ==> (self.pos == old(self).pos + 3 && old(self).is_operand_pair(left)),
            p1 <= self.pos,
            self.pos == p1 ==> left == first,
            old(self).number_pair(9) && binary_level(old(self).tok_at(old(self).pos + 1)) == 9 && self.pos != p1
                ==> (self.pos == old(self).pos + 3 && old(self).is_number_pair(left)),
        ensures
            old(self).number_pair(9) && binary_level(old(self).tok_at(old(self).pos + 1)) == 9 ==> self.pos != p1,
            old(self).operand_pair(9) && binary_level(old(self).tok_at(old(self).pos + 1)) == 9 ==> self.pos != p1,
            decreases self.tokens@.len() - self.pos,
        {
            let op = match self.peek() {
                Token::Star => Some(BinaryOperator::Mul),
                Token::Slash => Some(BinaryOperator::Div),
                Token::Percent => Some(BinaryOperator::Mod),
                _ => None,
            };
            match op {
                Some(op) => {
                    assert(!ends_term(self.cur()));
                    assert(!ends_operand(self.cur(), 9));
                    self.advance();
                    let right = match self.parse_power() { Ok(v) => v, Err(e) => { return Err(e); } };
                    left = Expression::BinaryOp { op, left: Box::new(left), right: Box::new(right) };
                },
                None => {
                    break;
                },
            }
        }
        Ok(left)
    }

    pub(crate) fn parse_power(&mut self) -> (r: Result<Expression, Error>)
    requires
        old(self).wf(),
    ensures
        old(self).step(*final(self)),
        r is Ok ==> old(self).pos < final(self).pos,
        r matches Err(e) ==> is_parse_failure(e),
        old(self).lone_number() ==> old(self).gives_number(r, *final(self)),
        old(self).operand_below(10) ==> old(self).gives_operand(r, *final(self)),
        old(self).operand_pair(10) ==> (r is Ok && old(self).is_operand_pair(r->Ok_0) && final(self).pos == old(self).pos + 3),
        old(self).number_below(10) ==> old(self).gives_number(r, *final(self)),
        old(self).number_pair(10) ==> (r is Ok && old(self).is_number_pair(r->Ok_0) && final(self).pos == old(self).pos + 3),
        old(self).number_term() ==> old(self).gives_number(r, *final(self)),
    decreases old(self).depth(), old(self).rest(), 13nat,
    {
        let left = match self.parse_unary() { Ok(v) => v, Err(e) => { return Err(e); } };
        if self.at(&Token::Power) {
            self.advance();
            let right = match self.parse_unary() { Ok(v) => v, Err(e) => { return Err(e); } };
            Ok(Expression::BinaryOp { op: BinaryOperator::Power, left: Box::new(left), right: Box::new(right) })
        } else {
            Ok(left)
        }
    }

    pub(crate) fn parse_unary(&mut self) -> (r: Result<Expression, Error>)
    requires
        old(self).wf(),
    ensures
        old(self).step(*final(self)),
        r is Ok ==> old(self).pos < final(self).pos,
        r matches Err(e) ==> is_parse_failure(e),
        old(self).lone_number() ==> old(self).gives_number(r, *final(self)),
        old(self).operand_below(11) ==> old(self).gives_operand(r, *final(self)),
        is_prefix_token(old(self).cur()) && old(self).tok_at(old(self).pos + 1) is Number
            && ends_operand(old(self).tok_at(old(self).pos + 2), 11)
            ==> (r matches Ok(Expression::UnaryOp { op, operand }) && op == unary_operator_of(old(self).cur())
                && ((*operand) matches Expression::NumberLiteral(n) && n@ == old(self).tok_at(old(self).pos + 1)->Number_0)
                && final(self).pos == old(self).pos + 2),
        old(self).number_below(11) ==> old(self).gives_number(r, *final(self)),
        old(self).number_term() ==> old(self).gives_number(r, *final(self)),
    decreases old(self).depth(), old(self).rest(), 12nat,
    {
        let prefix: Option<Option<UnaryOperator>> = match self.peek() {
            Token::Minus => Some(Some(UnaryOperator::Negate)),
            Token::Not => Some(Some(UnaryOperator::Not)),
            Token::Typeof => Some(Some(UnaryOperator::Typeof)),
            Token::Void => Some(Some(UnaryOperator::Void)),
            Token::Delete => Some(Some(UnaryOperator::Delete)),
            Token::BitNot => Some(Some(UnaryOperator::BitNot)),
            Token::Await => Some(None),
            _ => None,
        };
        if let Some(op) = prefix {
            self.advance();
            let operand = match self.parse_unary() { Ok(v) => v, Err(e) => { return Err(e); } };
            return match op {
                Some(op) => Ok(Expression::UnaryOp { op, operand: Box::new(operand) }),
                None => Ok(Expression::AwaitExpression { argument: Box::new(operand) }),
            };
        }
        let update: Option<UpdateOperator> = match self.peek() {
            Token::Increment => Some(UpdateOperator::Increment),
            Token::Decrement => Some(UpdateOperator::Decrement),
            _ => None,
        };
        if let Some(op) = update {
            self.advance();
            let operand = match self.parse_unary() { Ok(v) => v, Err(e) => { return Err(e); } };
            return Ok(Expression::UpdateExpression { op, operand: Box::new(operand), prefix: true });
        }
        if self.at(&Token::New) {
            self.parse_new_expression()
        } else {
            self.parse_postfix()
        }
    }

    pub(crate) fn parse_postfix(&mut self) -> (r: Result<Expression, Error>)
    requires
        old(self).wf(),
    ensures
        old(self).step(*final(self)),
        r is Ok ==> old(self).pos < final(self).pos,
        r matches Err(e) ==> is_parse_failure(e),
        old(self).lone_number() ==> old(self).gives_number(r, *final(self)),
        old(self).operand_below(11) ==> old(self).gives_operand(r, *final(self)),
        old(self).number_below(11) ==> old(self).gives_number(r, *final(self)),
        old(self).number_term() ==> old(self).gives_number(r, *final(self)),
    decreases old(self).depth(), old(self).rest(), 11nat,
    {
        let ghost toks = self.tokens;
        let ghost start = self.pos;
        let mut expr = match self.parse_call() { Ok(v) => v, Err(e) => { return Err(e); } };
        let ghost p1 = self.pos;
        let ghost first = expr;
        loop
            invariant
            self.wf(),
            self.tokens == toks,
            toks == old(self).tokens,
            start == old(self).pos,
            start < self.pos,
            ends_term(old(self).tok_at(p1 as int)) ==> (self.pos == p1 && expr == first),
            old(self).number_term() ==> (p1 == old(self).pos + 1 && (first matches Expression::NumberLiteral(s) && s@ == old(self).cur()->Number_0)),
            ends_operand(old(self).tok_at(p1 as int), 11) ==> (self.pos == p1 && expr == first),
            old(self).number_below(11) ==> (p1 == old(self).pos + 1 && (first matches Expression::NumberLiteral(s) && s@ == old(self).cur()->Number_0)),
            old(self).operand_below(11) ==> (p1 == old(self).pos + 1 && is_operand_of(first, old(self).cur())),
            decreases self.tokens@.len() - self.pos,
        {
            if self.at(&Token::Increment) {
                assert(!ends_term(self.cur()));
                assert(!ends_operand(self.cur(), 11));
                self.advance();
                expr = Expression::UpdateExpression { op: UpdateOperator::Increment, operand: Box::new(expr), prefix: false };
            } else if self.at(&Token::Decrement) {
                assert(!ends_term(self.cur()));
                assert(!ends_operand(self.cur(), 11));
                self.advance();
                expr = Expression::UpdateExpression { op: UpdateOperator::Decrement, operand: Box::new(expr), prefix: false };
            } else if self.at(&Token::As) {
                assert(!ends_term(self.cur()));
                assert(!ends_operand(self.cur(), 11));
                self.advance();
                let type_annotation = match self.parse_type_annotation() { Ok(v) => v, Err(e) => { return Err(e); } };
                expr = Expression::TypeAssertion { expression: Box::new(expr), type_annotation };
            } else {
                break;
            }
        }
        Ok(expr)
    }

    pub(crate) fn parse_new_expression(&mut self) -> (r: Result<Expression, Error>)
    requires
        old(self).wf(),
    ensures
        old(self).step(*final(self)),
        r is Ok ==> old(self).pos < final(self).pos,
        r matches Err(e) ==> is_parse_failure(e),
    decreases old(self).depth(), old(self).rest(), 11nat,
    {
        match self.expect(&Token::New) { Ok(v) => v, Err(e) => { return Err(e); } };
        let callee = match self.parse_new_target() { Ok(v) => v, Err(e) => { return Err(e); } };
        let args = if self.at(&Token::LeftParen) {
            self.advance();
            let a = match self.parse_args() { Ok(v) => v, Err(e) => { return Err(e); } };
            match self.expect(&Token::RightParen) { Ok(v) => v, Err(e) => { return Err(e); } };
            a
        } else {
            Vec::new()
        };
        Ok(Expression::NewExpression { callee: Box::new(callee), args })
    }

    /// Consumes the next token as an object key: an identifier, a string, a
    /// number or a keyword.
    pub(crate) fn token_to_key_string(&mut self) -> (r: Result<String, Error>)
        requires
            old(self).wf(),
        ensures
            old(self).step(*final(self)),
            final(self).pos == (if old(self).pos < old(self).tokens@.len() { old(self).pos + 1 } else { old(self).pos as int }),
            match key_of(old(self).cur()) {
                Some(k) => r matches Ok(s) && s@ == k,
                None => r matches Err(e) && e.kind is ParseError && e.kind.msg() == got_message(
                    "Expected property key"@,
                    old(self).cur(),
                ),
            },
    {
        let r = match self.peek() {
            Token::Identifier(n) => Ok(n.clone()),
            Token::String(s) => Ok(s.clone()),
            Token::Number(n) => Ok(n.clone()),
            t => match keyword_text(t) {
                Some(k) => Ok(String::from_str(k)),
                None => Err(got_error("Expected property key", t)),
            },
        };
        self.advance();
        r
    }

    /// Consumes the next token as a property name after `.`: an identifier
    /// or a keyword.
    pub(crate) fn token_to_property_name(&mut self) -> (r: Result<Expression, Error>)
        requires
            old(self).wf(),
        ensures
            old(self).step(*final(self)),
            final(self).pos == (if old(self).pos < old(self).tokens@.len() { old(self).pos + 1 } else { old(self).pos as int }),
            match property_name_of(old(self).cur()) {
                Some(k) => r matches Ok(Expression::Identifier(s)) && s@ == k,
                None => r matches Err(e) && e.kind is ParseError && e.kind.msg() == got_message(
                    "Expected property name"@,
                    old(self).cur(),
                ),
            },
    {
        let r = match self.peek() {
            Token::Identifier(n) => Ok(Expression::Identifier(n.clone())),
            t => match keyword_text(t) {
                Some(k) => Ok(Expression::Identifier(String::from_str(k))),
                None => Err(got_error("Expected property name", t)),
            },
        };
        self.advance();
        r
    }

    pub(crate) fn parse_new_target(&mut self) -> (r: Result<Expression, Error>)
    requires
        old(self).wf(),
    ensures
        old(self).step(*final(self)),
        r is Ok ==> old(self).pos < final(self).pos,
        r matches Err(e) ==> is_parse_failure(e),
    {
        let ghost toks = self.tokens;
        let ghost start = self.pos;
        let first = match self.peek() {
            Token::Identifier(name) => Some(name.clone()),
            _ => None,
        };
        match first {
            None => Err(got_error("Expected identifier after 'new'", self.peek())),
            Some(name) => {
                self.advance();
                let mut expr = Expression::Identifier(name);
                while self.at(&Token::Dot)
                    invariant
            self.wf(),
            self.tokens == toks,
            toks == old(self).tokens,
            start == old(self).pos,
            start < self.pos,
                    decreases self.tokens@.len() - self.pos,
                {
                    self.advance();
                    let prop_name = match self.token_to_property_name() { Ok(v) => v, Err(e) => { return Err(e); } };
                    expr = Expression::Member { object: Box::new(expr), property: Box::new(prop_name), computed: false };
                }
                Ok(expr)
            },
        }
    }

    pub(crate) fn parse_call(&mut self) -> (r: Result<Expression, Error>)
    requires
        old(self).wf(),
    ensures
        old(self).step(*final(self)),
        r is Ok ==> old(self).pos < final(self).pos,
        r matches Err(e) ==> is_parse_failure(e),
        old(self).lone_number() ==> old(self).gives_number(r, *final(self)),
        old(self).operand_below(11) ==> old(self).gives_operand(r, *final(self)),
        old(self).number_below(11) ==> old(self).gives_number(r, *final(self)),
        old(self).number_term() ==> old(self).gives_number(r, *final(self)),
    decreases old(self).depth(), old(self).rest(), 10nat,
    {
        let ghost toks = self.tokens;
        let ghost start = self.pos;
        let mut expr = match self.parse_primary() { Ok(v) => v, Err(e) => { return Err(e); } };
        let ghost p1 = self.pos;
        let ghost first = expr;
        loop
            invariant
            self.wf(),
            self.tokens == toks,
            toks == old(self).tokens,
            start == old(self).pos,
            start < self.pos,
            ends_term(old(self).tok_at(p1 as int)) ==> (self.pos == p1 && expr == first),
            old(self).number_term() ==> (p1 == old(self).pos + 1 && (first matches Expression::NumberLiteral(s) && s@ == old(self).cur()->Number_0)),
            ends_operand(old(self).tok_at(p1 as int), 11) ==> (self.pos == p1 && expr == first),
            old(self).number_below(11) ==> (p1 == old(self).pos + 1 && (first matches Expression::NumberLiteral(s) && s@ == old(self).cur()->Number_0)),
            old(self).operand_below(11) ==> (p1 == old(self).pos + 1 && is_operand_of(first, old(self).cur())),
            decreases self.tokens@.len() - self.pos,
        {
            if self.at(&Token::LeftParen) {
                assert(!ends_term(self.cur()));
                assert(!ends_operand(self.cur(), 11));
                self.advance();
                let args = match self.parse_args() { Ok(v) => v, Err(e) => { return Err(e); } };
                match self.expect(&Token::RightParen) { Ok(v) => v, Err(e) => { return Err(e); } };
                expr = Expression::Call { callee: Box::new(expr), args };
            } else if self.at(&Token::Dot) {
                assert(!ends_term(self.cur()));
                assert(!ends_operand(self.cur(), 11));
                self.advance();
                let property = match self.token_to_property_name() { Ok(v) => v, Err(e) => { return Err(e); } };
                expr = Expression::Member { object: Box::new(expr), property: Box::new(property), computed: false };
            } else if self.at(&Token::LeftBracket) {
                assert(!ends_term(self.cur()));
                assert(!ends_operand(self.cur(), 11));
                self.advance();
                let property = match self.parse_expression() { Ok(v) => v, Err(e) => { return Err(e); } };
                match self.expect(&Token::RightBracket) { Ok(v) => v, Err(e) => { return Err(e); } };
                expr = Expression::Member { object: Box::new(expr), property: Box::new(property), computed: true };
            } else if self.at(&Token::QuestionDot) {
                assert(!ends_term(self.cur()));
                assert(!ends_operand(self.cur(), 11));
                self.advance();
                if self.at(&Token::LeftParen) {
                    self.advance();
                    let args = match self.parse_args() { Ok(v) => v, Err(e) => { return Err(e); } };
                    match self.expect(&Token::RightParen) { Ok(v) => v, Err(e) => { return Err(e); } };
                    expr = Expression::OptionalCall { callee: Box::new(expr), args };
                } else if self.at(&Token::LeftBracket) {
                    self.advance();
                    let property = match self.parse_expression() { Ok(v) => v, Err(e) => { return Err(e); } };
                    match self.expect(&Token::RightBracket) { Ok(v) => v, Err(e) => { return Err(e); } };
                    expr = Expression::OptionalMember { object: Box::new(expr), property: Box::new(property), computed: true };
                } else {
                    let property = match self.token_to_property_name() { Ok(v) => v, Err(e) => { return Err(e); } };
                    expr = Expression::OptionalMember { object: Box::new(expr), property: Box::new(property), computed: false };
                }
            } else {
                break;
            }
        }
        Ok(expr)
    }

    /// Call arguments up to (not including) the closing parenthesis: none
    /// where the next token is `)`; else expressions separated by commas,
    /// ending at the first expression not followed by a comma.
    pub(crate) fn parse_args(&mut self) -> (r: Result<Vec<Expression>, Error>)
    requires
        old(self).wf(),
    ensures
        old(self).step(*final(self)),
        match r {
            Ok(args) => {
                &&& (args@.len() == 0 <==> old(self).cur() is RightParen)
                &&& args@.len() == 0 ==> final(self).pos == old(self).pos
                &&& args@.len() > 0 ==> !(final(self).cur() is Comma) && old(self).pos + 2 * args@.len() - 1 <= final(self).pos
            },
            Err(e) => is_parse_failure(e),
        },
    decreases old(self).depth(), old(self).rest(), 26nat,
    {
        let ghost toks = self.tokens;
        let ghost start = self.pos;
        let mut args: Vec<Expression> = Vec::new();
        if !self.at(&Token::RightParen) {
            loop
                invariant_except_break
                    start + 2 * args@.len() <= self.pos,
                invariant
                    self.wf(),
                    self.tokens == toks,
                    toks == old(self).tokens,
                    start == old(self).pos,
                    !(old(self).cur() is RightParen),
                ensures
                    self.wf(),
                    self.tokens == toks,
                    args@.len() > 0,
                    start + 2 * args@.len() - 1 <= self.pos,
                    !(self.cur() is Comma),
                decreases self.tokens@.len() - self.pos,
            {
                let a = match self.parse_assignment() { Ok(v) => v, Err(e) => { return Err(e); } };
                args.push(a);
                if self.at(&Token::Comma) {
                    self.advance();
                } else {
                    break;
                }
            }
        }
        Ok(args)
    }

    /// Parameter names separated by commas, up to the closing parenthesis:
    /// none where the next token is `)`; else identifiers with a comma between
    /// each two, ending at the first identifier not followed by a comma.
    pub(crate) fn parse_params(&mut self) -> (r: Result<Vec<String>, Error>)
    requires
        old(self).wf(),
    ensures
        old(self).step(*final(self)),
        match r {
            Ok(ps) => {
                &&& (ps@.len() == 0 <==> old(self).cur() is RightParen)
                &&& params_at(*old(self), old(self).pos as int, names_of(ps@))
                &&& ps@.len() == 0 ==> final(self).pos == old(self).pos
                &&& ps@.len() > 0 ==> final(self).pos == old(self).pos + 2 * ps@.len() - 1 && !(final(self).cur() is Comma)
            },
            Err(e) => exists|ps: Seq<Seq<char>>|
                #![trigger params_at(*old(self), old(self).pos as int, ps)]
                {
                    &&& !(old(self).cur() is RightParen)
                    &&& params_at(*old(self), old(self).pos as int, ps)
                    &&& ps.len() > 0 ==> old(self).tok_at(old(self).pos + 2 * ps.len() - 1) is Comma
                    &&& !(old(self).tok_at(old(self).pos + 2 * ps.len()) is Identifier)
                    &&& e.kind is ParseError
                    &&& e.kind.msg() == got_message("Expected parameter name"@, old(self).tok_at(old(self).pos + 2 * ps.len()))
                },
        },
    {
        let ghost toks = self.tokens;
        let ghost start = self.pos;
        let mut params: Vec<String> = Vec::new();
        if !self.at(&Token::RightParen) {
            loop
                invariant_except_break
                    self.pos == start + 2 * params@.len(),
                    params@.len() > 0 ==> old(self).tok_at(start + 2 * params@.len() - 1) is Comma,
                invariant
                    self.wf(),
                    self.tokens == toks,
                    toks == old(self).tokens,
                    start == old(self).pos,
                    !(old(self).cur() is RightParen),
                    params_at(*old(self), start as int, names_of(params@)),
                ensures
                    params@.len() > 0,
                    params_at(*old(self), start as int, names_of(params@)),
                    self.wf(),
                    self.tokens == toks,
                    self.pos == start + 2 * params@.len() - 1,
                    !(self.cur() is Comma),
                decreases self.tokens@.len() - self.pos,
            {
                let ghost before = names_of(params@);
                let ghost at = self.pos;
                let p = match self.advance_identifier("Expected parameter name") {
                    Ok(v) => v,
                    Err(e) => {
                        assert(old(self).tok_at(at as int) == self.tok_at(at as int));
                        assert(params_at(*old(self), start as int, before));
                        return Err(e);
                    },
                };
                assert(at < self.tokens@.len());
                params.push(p);
                assert(names_of(params@) =~= before.push(p@));
                assert(params_at(*old(self), start as int, names_of(params@))) by {
                    assert forall|j: int| 0 <= j < names_of(params@).len() implies old(self).tok_at(start + 2 * j) == Tok::Identifier(#[trigger] names_of(params@)[j]) by {
                        if j < before.len() {
                            assert(names_of(params@)[j] == before[j]);
                        }
                    }
                    assert forall|j: int| 0 <= j < names_of(params@).len() - 1 implies #[trigger] old(self).tok_at(start + 2 * j + 1) is Comma by {
                        if j < before.len() - 1 {
                        } else {
                            assert(j == before.len() - 1);
                        }
                    }
                }
                if self.at(&Token::Comma) {
                    self.advance();
                } else {
                    break;
                }
            }
        }
        Ok(params)
    }

    /// `function`'s optional name, parameters and body, after the keyword.
    fn parse_function_rest(&mut self, is_async: bool) -> (r: Result<Expression, Error>)
    requires
        old(self).wf(),
    ensures
        old(self).step(*final(self)),
        r is Ok ==> old(self).pos < final(self).pos,
        r matches Err(e) ==> is_parse_failure(e),
    decreases old(self).depth(), old(self).rest(), 27nat,
    {
        let name = match self.peek() {
            Token::Identifier(n) => Some(n.clone()),
            _ => None,
        };
        if name.is_some() {
            self.advance();
        }
        match self.expect(&Token::LeftParen) { Ok(v) => v, Err(e) => { return Err(e); } };
        let params = match self.parse_params() { Ok(v) => v, Err(e) => { return Err(e); } };
        match self.expect(&Token::RightParen) { Ok(v) => v, Err(e) => { return Err(e); } };
        match self.expect(&Token::LeftBrace) { Ok(v) => v, Err(e) => { return Err(e); } };
        let body = match self.parse_block_body() { Ok(v) => v, Err(e) => { return Err(e); } };
        match self.expect(&Token::RightBrace) { Ok(v) => v, Err(e) => { return Err(e); } };
        Ok(Expression::FunctionExpression { name, params, body, is_async })
    }

    pub(crate) fn parse_primary(&mut self) -> (r: Result<Expression, Error>)
    requires
        old(self).wf(),
    ensures
        old(self).step(*final(self)),
        r is Ok ==> old(self).pos < final(self).pos,
        r matches Err(e) ==> is_parse_failure(e),
        old(self).lone_number() ==> old(self).gives_number(r, *final(self)),
        simple_operand(old(self).cur()) && !(old(self).tok_at(old(self).pos + 1) is Arrow) ==> old(self).gives_operand(r, *final(self)),
        old(self).cur() matches Tok::Number(n)
            ==> (r matches Ok(Expression::NumberLiteral(s)) && s@ == n && final(self).pos == old(self).pos + 1),
        old(self).cur() matches Tok::String(n)
            ==> (r matches Ok(Expression::StringLiteral(s)) && s@ == n && final(self).pos == old(self).pos + 1),
        old(self).cur() matches Tok::Identifier(n) ==> (final(self).pos >= old(self).pos + 1 && (
            if n == "true"@ {
                r == Ok::<Expression, Error>(Expression::BooleanLiteral(true)) && final(self).pos == old(self).pos + 1
            } else if n == "false"@ {
                r == Ok::<Expression, Error>(Expression::BooleanLiteral(false)) && final(self).pos == old(self).pos + 1
            } else if n == "null"@ {
                r == Ok::<Expression, Error>(Expression::NullLiteral) && final(self).pos == old(self).pos + 1
            } else if n == "undefined"@ {
                r == Ok::<Expression, Error>(Expression::UndefinedLiteral) && final(self).pos == old(self).pos + 1
            } else if old(self).tok_at(old(self).pos + 1) is Arrow {
                r matches Ok(x) ==> x is ArrowFunction
            } else {
                r matches Ok(Expression::Identifier(s)) && s@ == n && final(self).pos == old(self).pos + 1
            })),
        old(self).cur() is This
            ==> (r matches Ok(Expression::Identifier(s)) && s@ == "this"@ && final(self).pos == old(self).pos + 1),
        old(self).cur() is LeftBracket && old(self).tok_at(old(self).pos + 1) is RightBracket
            ==> (r matches Ok(Expression::ArrayLiteral { elements }) && elements@.len() == 0
                && final(self).pos == old(self).pos + 2),
        old(self).cur() is LeftBrace && old(self).tok_at(old(self).pos + 1) is RightBrace
            ==> (r matches Ok(Expression::ObjectLiteral { properties }) && properties@.len() == 0
                && final(self).pos == old(self).pos + 2),
        !(old(self).cur() is Number || old(self).cur() is String || old(self).cur() is TemplateLiteral
            || old(self).cur() is Identifier || old(self).cur() is LeftParen || old(self).cur() is Function
            || old(self).cur() is Async || old(self).cur() is Class || old(self).cur() is Super
            || old(self).cur() is This || old(self).cur() is LeftBracket || old(self).cur() is LeftBrace)
            ==> (r matches Err(e) && e.kind is ParseError
                && e.kind.msg() == "Unexpected token "@ + token_debug(old(self).cur())
                && final(self).pos == old(self).pos),
    decreases old(self).depth(), old(self).rest(), 9nat,
    {
        let ghost toks = self.tokens;
        let ghost start = self.pos;
        let k = self.pos;
        let t = self.peek();
        match t {
            Token::Number(n) => {
                let n = n.clone();
                self.advance();
                return Ok(Expression::NumberLiteral(n));
            },
            Token::String(s) => {
                let s = s.clone();
                self.advance();
                return Ok(Expression::StringLiteral(s));
            },
            Token::TemplateLiteral(_) => {
                self.advance();
                return self.parse_template_literal(k);
            },
            Token::Identifier(name) => {
                let name = name.clone();
                self.advance();
                if str_eq(name.as_str(), "true") {
                    return Ok(Expression::BooleanLiteral(true));
                } else if str_eq(name.as_str(), "false") {
                    return Ok(Expression::BooleanLiteral(false));
                } else if str_eq(name.as_str(), "null") {
                    return Ok(Expression::NullLiteral);
                } else if str_eq(name.as_str(), "undefined") {
                    return Ok(Expression::UndefinedLiteral);
                } else if self.at(&Token::Arrow) {
                    self.advance();
                    return self.parse_arrow_body(vec![name], false);
                } else {
                    return Ok(Expression::Identifier(name));
                }
            },
            _ => {},
        }
        if self.at(&Token::LeftParen) {
            self.advance();
            return self.parse_parenthesized();
        }
        if self.at(&Token::Function) {
            self.advance();
            return self.parse_function_rest(false);
        }
        if self.at(&Token::Async) {
            self.advance();
            if self.at(&Token::Function) {
                self.advance();
                return self.parse_function_rest(true);
            }
            match self.expect(&Token::LeftParen) { Ok(v) => v, Err(e) => { return Err(e); } };
            let params = match self.parse_params() { Ok(v) => v, Err(e) => { return Err(e); } };
            match self.expect(&Token::RightParen) { Ok(v) => v, Err(e) => { return Err(e); } };
            if self.at(&Token::Arrow) {
                self.advance();
                return self.parse_arrow_body(params, true);
            }
            return Err(parse_error_of("Expected '=>' after async parameters"));
        }
        if self.at(&Token::Class) {
            self.advance();
            let name = match self.peek() {
                Token::Identifier(n) => Some(n.clone()),
                _ => None,
            };
            if name.is_some() {
                self.advance();
            }
            let superclass = if self.at(&Token::Extends) {
                self.advance();
                let c = match self.parse_call() { Ok(v) => v, Err(e) => { return Err(e); } };
                Some(Box::new(c))
            } else {
                None
            };
            match self.expect(&Token::LeftBrace) { Ok(v) => v, Err(e) => { return Err(e); } };
            let body = match self.parse_class_body() { Ok(v) => v, Err(e) => { return Err(e); } };
            match self.expect(&Token::RightBrace) { Ok(v) => v, Err(e) => { return Err(e); } };
            return Ok(Expression::ClassExpression { name, superclass, body });
        }
        if self.at(&Token::Super) {
            self.advance();
            if self.at(&Token::LeftParen) {
                self.advance();
                let args = match self.parse_args() { Ok(v) => v, Err(e) => { return Err(e); } };
                match self.expect(&Token::RightParen) { Ok(v) => v, Err(e) => { return Err(e); } };
                return Ok(Expression::SuperCall { args });
            } else if self.at(&Token::Dot) {
                self.advance();
                let name = match self.advance_identifier("Expected property name after 'super'") { Ok(v) => v, Err(e) => { return Err(e); } };
                return Ok(Expression::SuperMember { property: Box::new(Expression::Identifier(name)), computed: false });
            } else if self.at(&Token::LeftBracket) {
                self.advance();
                let property = match self.parse_expression() { Ok(v) => v, Err(e) => { return Err(e); } };
                match self.expect(&Token::RightBracket) { Ok(v) => v, Err(e) => { return Err(e); } };
                return Ok(Expression::SuperMember { property: Box::new(property), computed: true });
            } else {
                return Err(parse_error_of("Expected '.' or '(' after 'super'"));
            }
        }
        if self.at(&Token::This) {
            self.advance();
            return Ok(Expression::Identifier(String::from_str("this")));
        }
        if self.at(&Token::LeftBracket) {
            self.advance();
            let mut elements: Vec<Expression> = Vec::new();
            if !self.at(&Token::RightBracket) {
                loop
                    invariant
            self.wf(),
            self.tokens == toks,
            toks == old(self).tokens,
            start == old(self).pos,
            start < self.pos,
            old(self).cur() is LeftBracket,
            !(old(self).tok_at(start + 1) is RightBracket),
                    decreases self.tokens@.len() - self.pos,
                {
                    if self.at(&Token::Ellipsis) {
                        self.advance();
                        let argument = match self.parse_expression() { Ok(v) => v, Err(e) => { return Err(e); } };
                        elements.push(Expression::SpreadElement { argument: Box::new(argument) });
                    } else {
                        let e = match self.parse_expression() { Ok(v) => v, Err(e) => { return Err(e); } };
                        elements.push(e);
                    }
                    if !self.at(&Token::Comma) {
                        break;
                    }
                    self.advance();
                    if self.at(&Token::RightBracket) {
                        break;
                    }
                }
            }
            match self.expect(&Token::RightBracket) { Ok(v) => v, Err(e) => { return Err(e); } };
            return Ok(Expression::ArrayLiteral { elements });
        }
        if self.at(&Token::LeftBrace) {
            self.advance();
            let mut properties: Vec<(String, Expression)> = Vec::new();
            if !self.at(&Token::RightBrace) {
                loop
                    invariant
            self.wf(),
            self.tokens == toks,
            toks == old(self).tokens,
            start == old(self).pos,
            start < self.pos,
            old(self).cur() is LeftBrace,
            !(old(self).tok_at(start + 1) is RightBrace),
                    decreases self.tokens@.len() - self.pos,
                {
                    let key = match self.token_to_key_string() { Ok(v) => v, Err(e) => { return Err(e); } };
                    match self.expect(&Token::Colon) { Ok(v) => v, Err(e) => { return Err(e); } };
                    let value = match self.parse_expression() { Ok(v) => v, Err(e) => { return Err(e); } };
                    properties.push((key, value));
                    if !self.at(&Token::Comma) {
                        break;
                    }
                    self.advance();
                    if self.at(&Token::RightBrace) {
                        break;
                    }
                }
            }
            match self.expect(&Token::RightBrace) { Ok(v) => v, Err(e) => { return Err(e); } };
            return Ok(Expression::ObjectLiteral { properties });
        }
        Err(unexpected_error(self.peek()))
    }

    /// What follows an opening parenthesis in an expression: the parameters of
    /// an arrow function, or a parenthesized expression.
    fn parse_parenthesized(&mut self) -> (r: Result<Expression, Error>)
    requires
        old(self).wf(),
    ensures
        old(self).step(*final(self)),
        r matches Err(e) ==> is_parse_failure(e),
        r is Ok ==> old(self).pos < final(self).pos,
        old(self).cur() is RightParen && old(self).tok_at(old(self).pos + 1) is Arrow ==> (r matches Ok(e)
            ==> is_arrow_with(e, Seq::empty(), false)),
        old(self).cur() is RightParen && !(old(self).tok_at(old(self).pos + 1) is Arrow) ==> (r matches Err(e)
            && e.kind.msg() == "Unexpected )"@),
        r matches Ok(e) ==> (e is ArrowFunction || (old(self).tok_at(final(self).pos - 1) is RightParen
            && !(final(self).cur() is Arrow))),
    decreases old(self).depth(), old(self).rest(), 27nat,
    {
        let ghost toks = self.tokens;
        let ghost start = self.pos;
        if self.at(&Token::RightParen) {
            self.advance();
            if self.at(&Token::Arrow) {
                self.advance();
                return self.parse_arrow_body(Vec::new(), false);
            }
            return Err(parse_error_of("Unexpected )"));
        }
        let first = match self.peek() {
            Token::Identifier(n) => Some(n.clone()),
            _ => None,
        };
        if let Some(first) = first {
            let saved = self.pos;
            self.advance();
            if self.at(&Token::Arrow) {
                self.advance();
                return self.parse_arrow_body(vec![first], false);
            }
            if self.at(&Token::Comma) {
                let mut params: Vec<String> = vec![first];
                loop
                    invariant
            !(old(self).cur() is RightParen),
            self.wf(),
            self.tokens == toks,
            toks == old(self).tokens,
            start == old(self).pos,
            start < self.pos,
                    decreases self.tokens@.len() - self.pos,
                {
                    if !self.at(&Token::Comma) {
                        break;
                    }
                    self.advance();
                    if self.at(&Token::RightParen) {
                        break;
                    }
                    let p = match self.advance_identifier("Expected parameter") { Ok(v) => v, Err(e) => { return Err(e); } };
                    params.push(p);
                }
                match self.expect(&Token::RightParen) { Ok(v) => v, Err(e) => { return Err(e); } };
                if self.at(&Token::Arrow) {
                    self.advance();
                    return self.parse_arrow_body(params, false);
                }
            }
            self.pos = saved;
        }
        let expr = match self.parse_expression() { Ok(v) => v, Err(e) => { return Err(e); } };
        match self.expect(&Token::RightParen) { Ok(v) => v, Err(e) => { return Err(e); } };
        if self.at(&Token::Arrow) {
            let params = match &expr {
                Expression::Identifier(name) => vec![name.clone()],
                _ => {
                    return Err(parse_error_of("Invalid arrow function parameter"));
                },
            };
            self.advance();
            return self.parse_arrow_body(params, false);
        }
        Ok(expr)
    }

    /// The parts of the template literal at position `k`: its texts, and the
    /// expressions between them, each parsed from its own tokens.
    pub(crate) fn parse_template_literal(&mut self, k: usize) -> (r: Result<Expression, Error>)
        requires
            old(self).wf(),
            k < old(self).tokens@.len(),
            old(self).tokens@[k as int].token is TemplateLiteral,
        ensures
            *final(self) == *old(self),
            r matches Err(e) ==> is_parse_failure(e),
            r matches Ok(e) ==> is_template_of(e, template_parts(old(self).tokens@[k as int].token)),
        decreases old(self).depth(), old(self).rest(), 5nat,
    {
        let toks: &'a [SpannedToken] = self.tokens;
        let parts = match &toks[k].token {
            Token::TemplateLiteral(parts) => parts,
            _ => {
                return Ok(Expression::TemplateLiteral { quasis: Vec::new(), expressions: Vec::new() });
            },
        };
        proof {
            lemma_tokens_depth_index(toks@, k as int);
        }
        let mut quasis: Vec<String> = Vec::new();
        let mut expressions: Vec<Expression> = Vec::new();
        let mut text_buf = String::new();
        let mut i: usize = 0;
        while i < parts.len()
            invariant
                i <= parts@.len(),
                template_texts(parts@, i as int) == (names_of(quasis@), text_buf@),
                expressions@.len() == expression_parts(parts@, i as int),
                toks == self.tokens,
                toks@[k as int].token == Token::TemplateLiteral(*parts),
                token_depth(toks@[k as int].token) <= tokens_depth(toks@),
                *self == *old(self),
            decreases parts@.len() - i,
        {
            match &parts[i] {
                TemplatePart::Text(t) => {
                    text_buf.append(t.as_str());
                },
                TemplatePart::Expression(expr_tokens) => {
                    let ghost before = names_of(quasis@);
                    quasis.push(text_buf.clone());
                    assert(names_of(quasis@) =~= before.push(text_buf@));
                    text_buf = String::new();
                    proof {
                        lemma_parts_depth_index(parts@, i as int);
                    }
                    let mut sub = Parser::new(expr_tokens.as_slice());
                    let e = match sub.parse_expression() { Ok(v) => v, Err(e) => { return Err(e); } };
                    expressions.push(e);
                },
            }
            i += 1;
        }
        let ghost before = names_of(quasis@);
        let ghost last = text_buf@;
        quasis.push(text_buf);
        assert(names_of(quasis@) =~= before.push(last));
        Ok(Expression::TemplateLiteral { quasis, expressions })
    }

    pub(crate) fn parse_arrow_body(&mut self, params: Vec<String>, is_async: bool) -> (r: Result<Expression, Error>)
    requires
        old(self).wf(),
    ensures
        old(self).step(*final(self)),
        r matches Ok(e) ==> is_arrow_with(e, params@, is_async),
        r is Ok ==> old(self).pos < final(self).pos,
        r matches Err(e) ==> is_parse_failure(e),
    decreases old(self).depth(), old(self).rest(), 26nat,
    {
        if self.at(&Token::LeftBrace) {
            self.advance();
            let body = match self.parse_block_body() { Ok(v) => v, Err(e) => { return Err(e); } };
            match self.expect(&Token::RightBrace) { Ok(v) => v, Err(e) => { return Err(e); } };
            Ok(Expression::ArrowFunction { params, body: Box::new(ArrowFunctionBody::Block(body)), is_async })
        } else {
            let expr = match self.parse_assignment() { Ok(v) => v, Err(e) => { return Err(e); } };
            Ok(Expression::ArrowFunction { params, body: Box::new(ArrowFunctionBody::Expression(expr)), is_async })
        }
    }
}

} // verus!
