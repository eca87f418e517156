use vstd::prelude::*;
use vstd::string::*;
use crate::compiler::lexer::{token_view, SpannedToken, Tok, Token};
use crate::compiler::parser::{
    is_number_line, number_lines, number_statements, tok_in, number_operation_line, is_number_operation, operand_operation_line, is_operand_operation,
    tok_kind, got_message, token_debug,
    got_error, is_parse_failure, parse_error_of, AstNode, CatchClause, ClassMember, Expression,
    ForInLeft, ForInit, ImportSpecifier, Parser, Statement, SwitchCase, VarKind, VariableDeclarator,
};
use crate::errors::Error;

verus! {

impl<'a> Parser<'a> {
    /// Statements up to the end of input.
    pub(crate) fn parse_program(&mut self) -> (r: Result<AstNode, Error>)
        requires
            old(self).wf(),
        ensures
            forall|k: int| #[trigger] number_lines(old(self).tokens@, old(self).pos as int, k) ==> (
                r matches Ok(AstNode::Program(s)) && number_statements(s@, old(self).tokens@, old(self).pos as int, k)),
            number_operation_line(old(self).tokens@, old(self).pos as int) ==> (r matches Ok(AstNode::Program(s))
                && s@.len() == 1 && (s@[0] matches Statement::Expression(e)
                && is_number_operation(e, old(self).tokens@, old(self).pos as int))),
            operand_operation_line(old(self).tokens@, old(self).pos as int) ==> (r matches Ok(AstNode::Program(s))
                && s@.len() == 1 && (s@[0] matches Statement::Expression(e)
                && is_operand_operation(e, old(self).tokens@, old(self).pos as int))),
            old(self).step(*final(self)),
            r matches Ok(n) ==> n is Program && final(self).cur() is Eof,
            old(self).cur() is Eof ==> (r matches Ok(AstNode::Program(s)) && s@.len() == 0),
            r matches Ok(AstNode::Program(s)) ==> (s@.len() == 0 <==> old(self).cur() is Eof)
                && old(self).pos + s@.len() <= final(self).pos,
            r matches Err(e) ==> is_parse_failure(e),
    {
        let ghost toks = self.tokens;
        let ghost start = self.pos;
        let mut statements: Vec<Statement> = Vec::new();
        while !self.at(&Token::Eof)
            invariant
            self.wf(),
            self.tokens == toks,
            toks == old(self).tokens,
            start == old(self).pos,
            start <= self.pos,
                old(self).cur() is Eof ==> (self.pos == start && statements@.len() == 0),
                start + statements@.len() <= self.pos,
                statements@.len() == 0 ==> self.pos == start,
                statements@.len() > 0 ==> !(old(self).cur() is Eof),
                forall|k: int| #[trigger] number_lines(toks@, start as int, k) ==> (
                    statements@.len() <= k && self.pos == start + 2 * statements@.len()
                    && number_statements(statements@, toks@, start as int, statements@.len() as int)),
                number_operation_line(toks@, start as int) ==> ((statements@.len() == 0 && self.pos == start)
                    || (statements@.len() == 1 && self.pos == start + 4 && (statements@[0] matches Statement::Expression(e)
                    && is_number_operation(e, toks@, start as int)))),
                operand_operation_line(toks@, start as int) ==> ((statements@.len() == 0 && self.pos == start)
                    || (statements@.len() == 1 && self.pos == start + 4 && (statements@[0] matches Statement::Expression(e)
                    && is_operand_operation(e, toks@, start as int)))),
            decreases self.tokens@.len() - self.pos,
        {
            let ghost before = statements@;
            let ghost pre = *self;
            let s = match self.parse_statement() {
                Ok(v) => v,
                Err(e) => {
                    proof {
                        assert forall|k: int| #[trigger] number_lines(toks@, start as int, k) implies false by {
                            lemma_number_line_next(pre, toks@, start as int, k, before.len() as int);
                        }
                    }
                    return Err(e);
                },
            };
            statements.push(s);
            proof {
                assert forall|k: int| #[trigger] number_lines(toks@, start as int, k) implies (
                    statements@.len() <= k && self.pos == start + 2 * statements@.len()
                    && number_statements(statements@, toks@, start as int, statements@.len() as int)) by {
                    lemma_number_line_next(pre, toks@, start as int, k, before.len() as int);
                    assert forall|j: int| 0 <= j < statements@.len() implies (#[trigger] statements@[j] matches Statement::Expression(Expression::NumberLiteral(x))
                        && x@ == tok_in(toks@, start + 2 * j)->Number_0) by {
                        if j < before.len() {
                            assert(statements@[j] == before[j]);
                        }
                    }
                }
            }
        }
        proof {
            assert forall|k: int| #[trigger] number_lines(toks@, start as int, k) implies
                number_statements(statements@, toks@, start as int, k) by {
                if statements@.len() < k {
                    assert(is_number_line(toks@, start as int, statements@.len() as int));
                }
            }
        }
        Ok(AstNode::Program(statements))
    }

    pub(crate) fn parse_statement(&mut self) -> (r: Result<Statement, Error>)
    requires
        old(self).wf(),
    ensures
        old(self).step(*final(self)),
        r is Ok ==> old(self).pos < final(self).pos,
        r matches Err(e) ==> is_parse_failure(e),
        old(self).lone_number() && old(self).tok_at(old(self).pos + 1) is Semicolon ==> old(self).number_line(r, *final(self)),
        old(self).number_pair(1) && old(self).tok_at(old(self).pos + 3) is Semicolon ==> (r matches Ok(Statement::Expression(e))
            && old(self).is_number_pair(e) && final(self).pos == old(self).pos + 4),
        old(self).operand_pair(1) && old(self).tok_at(old(self).pos + 3) is Semicolon ==> (r matches Ok(Statement::Expression(e))
            && old(self).is_operand_pair(e) && final(self).pos == old(self).pos + 4),
        old(self).cur() is Break && old(self).tok_at(old(self).pos + 1) is Semicolon
            ==> (r == Ok::<Statement, Error>(Statement::BreakStatement) && final(self).pos == old(self).pos + 2),
        old(self).cur() is Continue && old(self).tok_at(old(self).pos + 1) is Semicolon
            ==> (r == Ok::<Statement, Error>(Statement::ContinueStatement) && final(self).pos == old(self).pos + 2),
    decreases old(self).depth(), old(self).rest(), 28nat,
    {
        let t = self.peek();
        if matches!(t, Token::Const | Token::Let | Token::Var) {
            return self.parse_variable_declaration();
        }
        if self.at(&Token::Function) {
            return self.parse_function_declaration();
        }
        if self.at(&Token::Return) {
            return self.parse_return_statement();
        }
        if self.at(&Token::Yield) {
            return self.parse_yield_statement();
        }
        if self.at(&Token::If) {
            return self.parse_if_statement();
        }
        if self.at(&Token::While) {
            return self.parse_while_statement();
        }
        if self.at(&Token::LeftBrace) {
            return self.parse_block_statement();
        }
        if self.at(&Token::For) {
            return self.parse_for_statement();
        }
        if self.at(&Token::Do) {
            return self.parse_do_while_statement();
        }
        if self.at(&Token::Switch) {
            return self.parse_switch_statement();
        }
        if self.at(&Token::Break) {
            self.advance();
            match self.expect(&Token::Semicolon) { Ok(v) => v, Err(e) => { return Err(e); } };
            return Ok(Statement::BreakStatement);
        }
        if self.at(&Token::Continue) {
            self.advance();
            match self.expect(&Token::Semicolon) { Ok(v) => v, Err(e) => { return Err(e); } };
            return Ok(Statement::ContinueStatement);
        }
        if self.at(&Token::Try) {
            return self.parse_try_statement();
        }
        if self.at(&Token::Throw) {
            return self.parse_throw_statement();
        }
        if self.at(&Token::Class) {
            return self.parse_class_declaration();
        }
        if self.at(&Token::Import) {
            return self.parse_import_declaration();
        }
        if self.at(&Token::Export) {
            return self.parse_export_declaration();
        }
        self.parse_expression_statement()
    }

    pub(crate) fn parse_variable_declaration(&mut self) -> (r: Result<Statement, Error>)
        requires
            old(self).wf(),
            old(self).cur() is Const || old(self).cur() is Let || old(self).cur() is Var,
        ensures
            old(self).step(*final(self)),
            r is Ok ==> old(self).pos < final(self).pos,
            r matches Err(e) ==> is_parse_failure(e),
        decreases old(self).depth(), old(self).rest(), 27nat,
    {
        let ghost toks = self.tokens;
        let ghost start = self.pos;
        let kind = match self.peek() {
            Token::Var => VarKind::Var,
            Token::Let => VarKind::Let,
            _ => VarKind::Const,
        };
        self.advance();
        let mut declarations: Vec<VariableDeclarator> = Vec::new();
        loop
            invariant
            self.wf(),
            self.tokens == toks,
            toks == old(self).tokens,
            start == old(self).pos,
            start < self.pos,
            decreases self.tokens@.len() - self.pos,
        {
            let id = match self.advance_identifier("Expected identifier") { Ok(v) => v, Err(e) => { return Err(e); } };
            let type_annotation = if self.at(&Token::Colon) {
                self.advance();
                let t = match self.parse_type_annotation() { Ok(v) => v, Err(e) => { return Err(e); } };
                Some(t)
            } else {
                None
            };
            let init = if self.at(&Token::Assign) {
                self.advance();
                let e = match self.parse_expression() { Ok(v) => v, Err(e) => { return Err(e); } };
                Some(e)
            } else {
                None
            };
            declarations.push(VariableDeclarator { id, type_annotation, init });
            if self.at(&Token::Comma) {
                self.advance();
            } else {
                break;
            }
        }
        match self.expect(&Token::Semicolon) { Ok(v) => v, Err(e) => { return Err(e); } };
        Ok(Statement::VariableDeclaration { kind, declarations })
    }

    pub(crate) fn parse_function_declaration(&mut self) -> (r: Result<Statement, Error>)
    requires
        old(self).wf(),
    ensures
        old(self).step(*final(self)),
        r is Ok ==> old(self).pos < final(self).pos,
        r matches Err(e) ==> is_parse_failure(e),
    decreases old(self).depth(), old(self).rest(), 27nat,
    {
        let is_async = if self.at(&Token::Async) {
            self.advance();
            true
        } else {
            false
        };
        match self.expect(&Token::Function) { Ok(v) => v, Err(e) => { return Err(e); } };
        let name = match self.advance_identifier("Expected function name") { Ok(v) => v, Err(e) => { return Err(e); } };
        match self.expect(&Token::LeftParen) { Ok(v) => v, Err(e) => { return Err(e); } };
        let params = match self.parse_params() { Ok(v) => v, Err(e) => { return Err(e); } };
        match self.expect(&Token::RightParen) { Ok(v) => v, Err(e) => { return Err(e); } };
        match self.expect(&Token::LeftBrace) { Ok(v) => v, Err(e) => { return Err(e); } };
        let body = match self.parse_block_body() { Ok(v) => v, Err(e) => { return Err(e); } };
        match self.expect(&Token::RightBrace) { Ok(v) => v, Err(e) => { return Err(e); } };
        Ok(Statement::FunctionDeclaration { name, params, body, is_async })
    }

    pub(crate) fn parse_return_statement(&mut self) -> (r: Result<Statement, Error>)
    requires
        old(self).wf(),
    ensures
        old(self).step(*final(self)),
        r is Ok ==> old(self).pos < final(self).pos,
        r matches Err(e) ==> is_parse_failure(e),
    decreases old(self).depth(), old(self).rest(), 27nat,
    {
        match self.expect(&Token::Return) { Ok(v) => v, Err(e) => { return Err(e); } };
        let value = if !self.at(&Token::Semicolon) && !self.at(&Token::RightBrace) {
            let e = match self.parse_expression() { Ok(v) => v, Err(e) => { return Err(e); } };
            Some(e)
        } else {
            None
        };
        match self.expect(&Token::Semicolon) { Ok(v) => v, Err(e) => { return Err(e); } };
        Ok(Statement::ReturnStatement(value))
    }

    /// `yield`, an optional value, and `;`.
    pub(crate) fn parse_yield_statement(&mut self) -> (r: Result<Statement, Error>)
    requires
        old(self).wf(),
    ensures
        old(self).step(*final(self)),
        r is Ok ==> old(self).pos < final(self).pos,
        r matches Err(e) ==> is_parse_failure(e),
    decreases old(self).depth(), old(self).rest(), 27nat,
    {
        match self.expect(&Token::Yield) { Ok(v) => v, Err(e) => { return Err(e); } };
        let value = if !self.at(&Token::Semicolon) && !self.at(&Token::RightBrace) {
            let e = match self.parse_expression() { Ok(v) => v, Err(e) => { return Err(e); } };
            Some(e)
        } else {
            None
        };
        match self.expect(&Token::Semicolon) { Ok(v) => v, Err(e) => { return Err(e); } };
        Ok(Statement::YieldStatement(value))
    }

    pub(crate) fn parse_if_statement(&mut self) -> (r: Result<Statement, Error>)
    requires
        old(self).wf(),
    ensures
        old(self).step(*final(self)),
        r is Ok ==> old(self).pos < final(self).pos,
        r matches Err(e) ==> is_parse_failure(e),
    decreases old(self).depth(), old(self).rest(), 27nat,
    {
        match self.expect(&Token::If) { Ok(v) => v, Err(e) => { return Err(e); } };
        match self.expect(&Token::LeftParen) { Ok(v) => v, Err(e) => { return Err(e); } };
        let condition = match self.parse_expression() { Ok(v) => v, Err(e) => { return Err(e); } };
        match self.expect(&Token::RightParen) { Ok(v) => v, Err(e) => { return Err(e); } };
        let consequent = match self.parse_statement() { Ok(v) => v, Err(e) => { return Err(e); } };
        let alternate = if self.at(&Token::Else) {
            self.advance();
            let s = match self.parse_statement() { Ok(v) => v, Err(e) => { return Err(e); } };
            Some(Box::new(s))
        } else {
            None
        };
        Ok(Statement::IfStatement { condition, consequent: Box::new(consequent), alternate })
    }

    pub(crate) fn parse_while_statement(&mut self) -> (r: Result<Statement, Error>)
    requires
        old(self).wf(),
    ensures
        old(self).step(*final(self)),
        r is Ok ==> old(self).pos < final(self).pos,
        r matches Err(e) ==> is_parse_failure(e),
    decreases old(self).depth(), old(self).rest(), 27nat,
    {
        match self.expect(&Token::While) { Ok(v) => v, Err(e) => { return Err(e); } };
        match self.expect(&Token::LeftParen) { Ok(v) => v, Err(e) => { return Err(e); } };
        let condition = match self.parse_expression() { Ok(v) => v, Err(e) => { return Err(e); } };
        match self.expect(&Token::RightParen) { Ok(v) => v, Err(e) => { return Err(e); } };
        let body = match self.parse_statement() { Ok(v) => v, Err(e) => { return Err(e); } };
        Ok(Statement::WhileStatement { condition, body: Box::new(body) })
    }

    pub(crate) fn parse_block_statement(&mut self) -> (r: Result<Statement, Error>)
    requires
        old(self).wf(),
    ensures
        old(self).step(*final(self)),
        r is Ok ==> old(self).pos < final(self).pos,
        r matches Err(e) ==> is_parse_failure(e),
    decreases old(self).depth(), old(self).rest(), 27nat,
    {
        match self.expect(&Token::LeftBrace) { Ok(v) => v, Err(e) => { return Err(e); } };
        let body = match self.parse_block_body() { Ok(v) => v, Err(e) => { return Err(e); } };
        match self.expect(&Token::RightBrace) { Ok(v) => v, Err(e) => { return Err(e); } };
        Ok(Statement::BlockStatement(body))
    }

    /// Statements up to a closing brace or the end of input: none where the
    /// next token is one of these, each statement taking at least one token.
    pub(crate) fn parse_block_body(&mut self) -> (r: Result<Vec<Statement>, Error>)
    requires
        old(self).wf(),
    ensures
        old(self).step(*final(self)),
        match r {
            Ok(ss) => {
                &&& final(self).cur() is RightBrace || final(self).cur() is Eof
                &&& (ss@.len() == 0 <==> (old(self).cur() is RightBrace || old(self).cur() is Eof))
                &&& ss@.len() == 0 ==> final(self).pos == old(self).pos
                &&& old(self).pos + ss@.len() <= final(self).pos
            },
            Err(e) => is_parse_failure(e),
        },
    decreases old(self).depth(), old(self).rest(), 30nat,
    {
        let ghost toks = self.tokens;
        let ghost start = self.pos;
        let mut statements: Vec<Statement> = Vec::new();
        while !self.at(&Token::RightBrace) && !self.at(&Token::Eof)
            invariant
            self.wf(),
            self.tokens == toks,
            toks == old(self).tokens,
            start == old(self).pos,
            start + statements@.len() <= self.pos,
            statements@.len() == 0 ==> self.pos == start,
            statements@.len() > 0 ==> !(old(self).cur() is RightBrace || old(self).cur() is Eof),
            decreases self.tokens@.len() - self.pos,
        {
            let s = match self.parse_statement() { Ok(v) => v, Err(e) => { return Err(e); } };
            statements.push(s);
        }
        Ok(statements)
    }

    pub(crate) fn parse_expression_statement(&mut self) -> (r: Result<Statement, Error>)
    requires
        old(self).wf(),
    ensures
        old(self).step(*final(self)),
        r is Ok ==> old(self).pos < final(self).pos,
        r matches Err(e) ==> is_parse_failure(e),
        old(self).lone_number() && old(self).tok_at(old(self).pos + 1) is Semicolon ==> old(self).number_line(r, *final(self)),
        old(self).number_pair(1) && old(self).tok_at(old(self).pos + 3) is Semicolon ==> (r matches Ok(Statement::Expression(e))
            && old(self).is_number_pair(e) && final(self).pos == old(self).pos + 4),
        old(self).operand_pair(1) && old(self).tok_at(old(self).pos + 3) is Semicolon ==> (r matches Ok(Statement::Expression(e))
            && old(self).is_operand_pair(e) && final(self).pos == old(self).pos + 4),
    decreases old(self).depth(), old(self).rest(), 27nat,
    {
        let expr = match self.parse_expression() { Ok(v) => v, Err(e) => { return Err(e); } };
        if self.at(&Token::Semicolon) {
            self.advance();
        }
        Ok(Statement::Expression(expr))
    }

    /// An optional expression that ends before `stop`: none, with nothing
    /// consumed, where the next token is of the variant of `stop`.
    fn parse_optional_clause(&mut self, stop: &Token) -> (r: Result<Option<Expression>, Error>)
        requires
            old(self).wf(),
        ensures
            old(self).step(*final(self)),
            match r {
                Ok(o) => {
                    &&& (o is None <==> tok_kind(old(self).cur()) == tok_kind(token_view(*stop)))
                    &&& o is None ==> final(self).pos == old(self).pos
                    &&& o is Some ==> old(self).pos < final(self).pos
                },
                Err(e) => is_parse_failure(e),
            },
            tok_kind(old(self).cur()) == tok_kind(token_view(*stop)) ==> r is Ok,
            old(self).lone_number() && !(token_view(*stop) is Number) ==> (r matches Ok(Some(Expression::NumberLiteral(n)))
                && n@ == old(self).cur()->Number_0 && final(self).pos == old(self).pos + 1),
        decreases old(self).depth(), old(self).rest(), 26nat,
    {
        if !self.at(stop) {
            let e = match self.parse_expression() { Ok(v) => v, Err(e) => { return Err(e); } };
            Ok(Some(e))
        } else {
            Ok(None)
        }
    }

    /// After `(` of a `for`: the condition, update and body of a classic loop
    /// with the first clause `init` already parsed, from the first `;` on.
    fn parse_for_rest(&mut self, init: Option<Box<ForInit>>) -> (r: Result<Statement, Error>)
    requires
        old(self).wf(),
    ensures
        old(self).step(*final(self)),
        r is Ok ==> old(self).pos < final(self).pos,
        r matches Err(e) ==> is_parse_failure(e),
        !(old(self).cur() is Semicolon) ==> (r matches Err(e) && e.kind is ParseError
            && e.kind.msg() == got_message("Expected "@ + token_debug(Tok::Semicolon), old(self).cur())),
        r matches Ok(Statement::ForStatement { init: i, condition, update, body: _ }) ==> (i == init
            && (condition is None <==> old(self).tok_at(old(self).pos + 1) is Semicolon)
            && (old(self).tok_at(old(self).pos + 1) is Semicolon && old(self).tok_at(old(self).pos + 2) is RightParen
                ==> update is None)),
        r is Ok ==> r matches Ok(Statement::ForStatement { .. }),
        old(self).cur() is Semicolon && old(self).tok_at(old(self).pos + 1) is Semicolon
            && old(self).tok_at(old(self).pos + 2) is RightParen && old(self).tok_at(old(self).pos + 3) is Break
            && old(self).tok_at(old(self).pos + 4) is Semicolon ==> (r matches Ok(Statement::ForStatement {
                init: i,
                condition,
                update,
                body,
            }) && i == init && condition is None && update is None && *body == Statement::BreakStatement
            && final(self).pos == old(self).pos + 5),
    decreases old(self).depth(), old(self).rest(), 27nat,
    {
        match self.expect(&Token::Semicolon) { Ok(v) => v, Err(e) => { return Err(e); } };
        let condition = match self.parse_optional_clause(&Token::Semicolon) { Ok(v) => v, Err(e) => { return Err(e); } };
        match self.expect(&Token::Semicolon) { Ok(v) => v, Err(e) => { return Err(e); } };
        let update = match self.parse_optional_clause(&Token::RightParen) { Ok(v) => v, Err(e) => { return Err(e); } };
        match self.expect(&Token::RightParen) { Ok(v) => v, Err(e) => { return Err(e); } };
        let body = match self.parse_statement() { Ok(v) => v, Err(e) => { return Err(e); } };
        Ok(Statement::ForStatement { init, condition, update, body: Box::new(body) })
    }

    /// After the loop variable of a `for`: `in` or `of`, the object, `)` and the body.
    fn parse_for_in_of(&mut self, left: ForInLeft, is_in: bool) -> (r: Result<Statement, Error>)
    requires
        old(self).wf(),
    ensures
        old(self).step(*final(self)),
        r is Ok ==> old(self).pos < final(self).pos,
        r matches Err(e) ==> is_parse_failure(e),
        r matches Ok(s) ==> (if is_in {
            s matches Statement::ForInStatement { left: l, .. } && l == left
        } else {
            s matches Statement::ForOfStatement { left: l, is_async, .. } && l == left && !is_async
        }),
    decreases old(self).depth(), old(self).rest(), 27nat,
    {
        self.advance();
        let right = match self.parse_expression() { Ok(v) => v, Err(e) => { return Err(e); } };
        match self.expect(&Token::RightParen) { Ok(v) => v, Err(e) => { return Err(e); } };
        let body = match self.parse_statement() { Ok(v) => v, Err(e) => { return Err(e); } };
        if is_in {
            Ok(Statement::ForInStatement { left, right, body: Box::new(body) })
        } else {
            Ok(Statement::ForOfStatement { left, right, body: Box::new(body), is_async: false })
        }
    }

    pub(crate) fn parse_for_statement(&mut self) -> (r: Result<Statement, Error>)
    requires
        old(self).wf(),
    ensures
        old(self).step(*final(self)),
        r is Ok ==> old(self).pos < final(self).pos,
        r matches Err(e) ==> is_parse_failure(e),
        !(old(self).cur() is For) ==> (r matches Err(e) && e.kind is ParseError
            && e.kind.msg() == got_message("Expected "@ + token_debug(Tok::For), old(self).cur())),
        old(self).cur() is For && !(old(self).tok_at(old(self).pos + 1) is LeftParen) ==> (r matches Err(e)
            && e.kind is ParseError
            && e.kind.msg() == got_message("Expected "@ + token_debug(Tok::LeftParen), old(self).tok_at(old(self).pos + 1))),
        r is Ok ==> (r matches Ok(Statement::ForStatement { .. }) || r matches Ok(Statement::ForInStatement { .. })
            || r matches Ok(Statement::ForOfStatement { .. })),
        old(self).cur() is For && old(self).tok_at(old(self).pos + 1) is LeftParen
            && old(self).tok_at(old(self).pos + 2) is Semicolon && old(self).tok_at(old(self).pos + 3) is Semicolon
            && old(self).tok_at(old(self).pos + 4) is RightParen && old(self).tok_at(old(self).pos + 5) is Break
            && old(self).tok_at(old(self).pos + 6) is Semicolon ==> (r matches Ok(Statement::ForStatement {
                init,
                condition,
                update,
                body,
            }) && init is None && condition is None && update is None && *body == Statement::BreakStatement
            && final(self).pos == old(self).pos + 7),
        old(self).cur() is For && old(self).tok_at(old(self).pos + 1) is LeftParen
            && old(self).tok_at(old(self).pos + 2) is Semicolon ==> (
            r matches Ok(x) ==> (x matches Statement::ForStatement { init, condition, update, body: _ }
                && init is None
                && (condition is None <==> old(self).tok_at(old(self).pos + 3) is Semicolon)
                && (old(self).tok_at(old(self).pos + 3) is Semicolon && old(self).tok_at(old(self).pos + 4) is RightParen
                    ==> update is None))),
    decreases old(self).depth(), old(self).rest(), 27nat,
    {
        let ghost toks = self.tokens;
        let ghost start = self.pos;
        match self.expect(&Token::For) { Ok(v) => v, Err(e) => { return Err(e); } };
        match self.expect(&Token::LeftParen) { Ok(v) => v, Err(e) => { return Err(e); } };
        if self.at(&Token::Semicolon) {
            return self.parse_for_rest(None);
        }
        if self.at(&Token::Let) || self.at(&Token::Const) || self.at(&Token::Var) {
            let kind = match self.peek() {
                Token::Var => VarKind::Var,
                Token::Let => VarKind::Let,
                _ => VarKind::Const,
            };
            self.advance();
            let id = match self.peek() {
                Token::Identifier(n) => n.clone(),
                _ => {
                    return Err(parse_error_of("Expected identifier in for-loop"));
                },
            };
            self.advance();
            if self.at(&Token::In) {
                return self.parse_for_in_of(ForInLeft::VariableDeclaration { kind, id }, true);
            }
            if self.at(&Token::Of) {
                return self.parse_for_in_of(ForInLeft::VariableDeclaration { kind, id }, false);
            }
            let init_val = if self.at(&Token::Assign) {
                self.advance();
                let e = match self.parse_expression() { Ok(v) => v, Err(e) => { return Err(e); } };
                Some(e)
            } else {
                None
            };
            let mut declarations: Vec<VariableDeclarator> = Vec::new();
            declarations.push(VariableDeclarator { id, type_annotation: None, init: init_val });
            let init = Some(Box::new(ForInit::Variable(Statement::VariableDeclaration { kind, declarations })));
            return self.parse_for_rest(init);
        }
        let ident = match self.peek() {
            Token::Identifier(n) => Some(n.clone()),
            _ => None,
        };
        if let Some(id) = ident {
            self.advance();
            if self.at(&Token::In) {
                return self.parse_for_in_of(ForInLeft::Identifier(id), true);
            }
            if self.at(&Token::Of) {
                return self.parse_for_in_of(ForInLeft::Identifier(id), false);
            }
            self.pos = self.pos - 1;
        }
        let init_expr = match self.parse_expression() { Ok(v) => v, Err(e) => { return Err(e); } };
        self.parse_for_rest(Some(Box::new(ForInit::Expression(init_expr))))
    }

    pub(crate) fn parse_do_while_statement(&mut self) -> (r: Result<Statement, Error>)
    requires
        old(self).wf(),
    ensures
        old(self).step(*final(self)),
        r is Ok ==> old(self).pos < final(self).pos,
        r matches Err(e) ==> is_parse_failure(e),
    decreases old(self).depth(), old(self).rest(), 27nat,
    {
        match self.expect(&Token::Do) { Ok(v) => v, Err(e) => { return Err(e); } };
        let body = match self.parse_statement() { Ok(v) => v, Err(e) => { return Err(e); } };
        match self.expect(&Token::While) { Ok(v) => v, Err(e) => { return Err(e); } };
        match self.expect(&Token::LeftParen) { Ok(v) => v, Err(e) => { return Err(e); } };
        let condition = match self.parse_expression() { Ok(v) => v, Err(e) => { return Err(e); } };
        match self.expect(&Token::RightParen) { Ok(v) => v, Err(e) => { return Err(e); } };
        if self.at(&Token::Semicolon) {
            self.advance();
        }
        Ok(Statement::DoWhileStatement { condition, body: Box::new(body) })
    }

    pub(crate) fn parse_switch_statement(&mut self) -> (r: Result<Statement, Error>)
    requires
        old(self).wf(),
    ensures
        old(self).step(*final(self)),
        r is Ok ==> old(self).pos < final(self).pos,
        r matches Err(e) ==> is_parse_failure(e),
    decreases old(self).depth(), old(self).rest(), 27nat,
    {
        let ghost toks = self.tokens;
        let ghost start = self.pos;
        match self.expect(&Token::Switch) { Ok(v) => v, Err(e) => { return Err(e); } };
        match self.expect(&Token::LeftParen) { Ok(v) => v, Err(e) => { return Err(e); } };
        let discriminant = match self.parse_expression() { Ok(v) => v, Err(e) => { return Err(e); } };
        match self.expect(&Token::RightParen) { Ok(v) => v, Err(e) => { return Err(e); } };
        match self.expect(&Token::LeftBrace) { Ok(v) => v, Err(e) => { return Err(e); } };
        let mut cases: Vec<SwitchCase> = Vec::new();
        while !self.at(&Token::RightBrace) && !self.at(&Token::Eof)
            invariant
            self.wf(),
            self.tokens == toks,
            toks == old(self).tokens,
            start == old(self).pos,
            start < self.pos,
            decreases self.tokens@.len() - self.pos,
        {
            let ghost iter_start = self.pos;
            let test = if self.at(&Token::Case) {
                self.advance();
                let e = match self.parse_expression() { Ok(v) => v, Err(e) => { return Err(e); } };
                Some(e)
            } else {
                match self.expect(&Token::Default) { Ok(v) => v, Err(e) => { return Err(e); } };
                None
            };
            match self.expect(&Token::Colon) { Ok(v) => v, Err(e) => { return Err(e); } };
            let mut consequent: Vec<Statement> = Vec::new();
            while !self.at(&Token::Case) && !self.at(&Token::Default) && !self.at(&Token::RightBrace)
                && !self.at(&Token::Eof)
                invariant
            self.wf(),
            self.tokens == toks,
            toks == old(self).tokens,
            start == old(self).pos,
            start < self.pos,
                    iter_start < self.pos,
                decreases self.tokens@.len() - self.pos,
            {
                let s = match self.parse_statement() { Ok(v) => v, Err(e) => { return Err(e); } };
                consequent.push(s);
            }
            cases.push(SwitchCase { test, consequent });
        }
        match self.expect(&Token::RightBrace) { Ok(v) => v, Err(e) => { return Err(e); } };
        Ok(Statement::SwitchStatement { discriminant, cases })
    }

    /// `{ … }`: a block's statements between braces.
    fn parse_braced_body(&mut self) -> (r: Result<Vec<Statement>, Error>)
    requires
        old(self).wf(),
    ensures
        old(self).step(*final(self)),
        r is Ok ==> old(self).pos < final(self).pos,
        r matches Err(e) ==> is_parse_failure(e),
    decreases old(self).depth(), old(self).rest(), 29nat,
    {
        match self.expect(&Token::LeftBrace) { Ok(v) => v, Err(e) => { return Err(e); } };
        let body = match self.parse_block_body() { Ok(v) => v, Err(e) => { return Err(e); } };
        match self.expect(&Token::RightBrace) { Ok(v) => v, Err(e) => { return Err(e); } };
        Ok(body)
    }

    pub(crate) fn parse_try_statement(&mut self) -> (r: Result<Statement, Error>)
    requires
        old(self).wf(),
    ensures
        old(self).step(*final(self)),
        r is Ok ==> old(self).pos < final(self).pos,
        r matches Err(e) ==> is_parse_failure(e),
    decreases old(self).depth(), old(self).rest(), 27nat,
    {
        match self.expect(&Token::Try) { Ok(v) => v, Err(e) => { return Err(e); } };
        let block = match self.parse_braced_body() { Ok(v) => v, Err(e) => { return Err(e); } };
        let handler = if self.at(&Token::Catch) {
            self.advance();
            match self.expect(&Token::LeftParen) { Ok(v) => v, Err(e) => { return Err(e); } };
            let param = match self.advance_identifier("Expected parameter") { Ok(v) => v, Err(e) => { return Err(e); } };
            match self.expect(&Token::RightParen) { Ok(v) => v, Err(e) => { return Err(e); } };
            let body = match self.parse_braced_body() { Ok(v) => v, Err(e) => { return Err(e); } };
            Some(CatchClause { param, body })
        } else {
            None
        };
        let finalizer = if self.at(&Token::Finally) {
            self.advance();
            let body = match self.parse_braced_body() { Ok(v) => v, Err(e) => { return Err(e); } };
            Some(body)
        } else {
            None
        };
        Ok(Statement::TryStatement { block, handler, finalizer })
    }

    pub(crate) fn parse_throw_statement(&mut self) -> (r: Result<Statement, Error>)
    requires
        old(self).wf(),
    ensures
        old(self).step(*final(self)),
        r is Ok ==> old(self).pos < final(self).pos,
        r matches Err(e) ==> is_parse_failure(e),
    decreases old(self).depth(), old(self).rest(), 27nat,
    {
        match self.expect(&Token::Throw) { Ok(v) => v, Err(e) => { return Err(e); } };
        let argument = match self.parse_expression() { Ok(v) => v, Err(e) => { return Err(e); } };
        match self.expect(&Token::Semicolon) { Ok(v) => v, Err(e) => { return Err(e); } };
        Ok(Statement::ThrowStatement(argument))
    }

    pub(crate) fn parse_class_declaration(&mut self) -> (r: Result<Statement, Error>)
    requires
        old(self).wf(),
    ensures
        old(self).step(*final(self)),
        r is Ok ==> old(self).pos < final(self).pos,
        r matches Err(e) ==> is_parse_failure(e),
    decreases old(self).depth(), old(self).rest(), 27nat,
    {
        match self.expect(&Token::Class) { Ok(v) => v, Err(e) => { return Err(e); } };
        let name = match self.advance_identifier("Expected class name") { Ok(v) => v, Err(e) => { return Err(e); } };
        let superclass = if self.at(&Token::Extends) {
            self.advance();
            let c = match self.parse_call() { Ok(v) => v, Err(e) => { return Err(e); } };
            Some(Box::new(c))
        } else {
            None
        };
        match self.expect(&Token::LeftBrace) { Ok(v) => v, Err(e) => { return Err(e); } };
        let body = match self.parse_class_body() { Ok(v) => v, Err(e) => { return Err(e); } };
        match self.expect(&Token::RightBrace) { Ok(v) => v, Err(e) => { return Err(e); } };
        Ok(Statement::ClassDeclaration { name, superclass, body })
    }

    /// The members of a class body, up to a closing brace or the end of
    /// input: none where the next token is one of these, each member taking
    /// at least one token.
    pub(crate) fn parse_class_body(&mut self) -> (r: Result<Vec<ClassMember>, Error>)
    requires
        old(self).wf(),
    ensures
        old(self).step(*final(self)),
        match r {
            Ok(ms) => {
                &&& final(self).cur() is RightBrace || final(self).cur() is Eof
                &&& (ms@.len() == 0 <==> (old(self).cur() is RightBrace || old(self).cur() is Eof))
                &&& ms@.len() == 0 ==> final(self).pos == old(self).pos
                &&& old(self).pos + ms@.len() <= final(self).pos
            },
            Err(e) => is_parse_failure(e),
        },
        old(self).cur() is Identifier && old(self).tok_at(old(self).pos + 1) is Semicolon
            && old(self).tok_at(old(self).pos + 2) is RightBrace ==> (r matches Ok(ms) && ms@.len() == 1
            && (ms@[0] matches ClassMember::Property { name, is_static } && name@ == old(self).cur()->Identifier_0
                && !is_static)
            && final(self).pos == old(self).pos + 2),
        r matches Ok(ms) ==> exists|pl: Seq<int>|
            #[trigger] old(self).members_placed(old(self).pos as int, final(self).pos as int, ms@, pl),
    decreases old(self).depth(), old(self).rest(), 30nat,
    {
        let ghost toks = self.tokens;
        let ghost start = self.pos;
        let mut members: Vec<ClassMember> = Vec::new();
        let ghost mut places: Seq<int> = Seq::empty();
        while !self.at(&Token::RightBrace) && !self.at(&Token::Eof)
            invariant
            self.wf(),
            self.tokens == toks,
            toks == old(self).tokens,
            start == old(self).pos,
            start + members@.len() <= self.pos,
            members@.len() == 0 ==> self.pos == start,
            members@.len() > 0 ==> !(old(self).cur() is RightBrace || old(self).cur() is Eof),
            old(self).cur() is Identifier && old(self).tok_at(start + 1) is Semicolon
                && old(self).tok_at(start + 2) is RightBrace ==> ((members@.len() == 0 && self.pos == start)
                || (members@.len() == 1 && self.pos == start + 2
                    && (members@[0] matches ClassMember::Property { name, is_static }
                        && name@ == old(self).cur()->Identifier_0 && !is_static))),
            places.len() == members@.len(),
            forall|j: int| #![trigger members@[j]] #![trigger places[j]] 0 <= j < members@.len() ==>
                start <= places[j] < self.pos && old(self).member_at(places[j], members@[j]),
            decreases self.tokens@.len() - self.pos,
        {
            let was = self.pos;
            let ghost before = members@;
            let ghost places0 = places;
            let is_static = if self.at(&Token::Static) {
                self.advance();
                true
            } else {
                false
            };
            assert(is_static == (old(self).tok_at(was as int) is Static));
            let ghost after_static = self.pos;
            assert(after_static == (if is_static { was + 1 } else { was as int }));
            let is_async = if self.at(&Token::Async) {
                self.advance();
                true
            } else {
                false
            };
            assert(is_async == (old(self).tok_at(after_static as int) is Async));
            if self.at(&Token::Constructor) {
                self.advance();
                match self.expect(&Token::LeftParen) { Ok(v) => v, Err(e) => { return Err(e); } };
                let params = match self.parse_params() { Ok(v) => v, Err(e) => { return Err(e); } };
                match self.expect(&Token::RightParen) { Ok(v) => v, Err(e) => { return Err(e); } };
                let body = match self.parse_braced_body() { Ok(v) => v, Err(e) => { return Err(e); } };
                members.push(ClassMember::Constructor { params, body });
            } else if self.at(&Token::Get) && !is_async {
                self.advance();
                let name = match self.advance_identifier("Expected property name after 'get'") { Ok(v) => v, Err(e) => { return Err(e); } };
                match self.expect(&Token::LeftParen) { Ok(v) => v, Err(e) => { return Err(e); } };
                match self.expect(&Token::RightParen) { Ok(v) => v, Err(e) => { return Err(e); } };
                let body = match self.parse_braced_body() { Ok(v) => v, Err(e) => { return Err(e); } };
                members.push(ClassMember::Getter { name, body, is_static });
            } else if self.at(&Token::SetKeyword) && !is_async {
                self.advance();
                let name = match self.advance_identifier("Expected property name after 'set'") { Ok(v) => v, Err(e) => { return Err(e); } };
                match self.expect(&Token::LeftParen) { Ok(v) => v, Err(e) => { return Err(e); } };
                let param = match self.advance_identifier("Expected parameter name") { Ok(v) => v, Err(e) => { return Err(e); } };
                match self.expect(&Token::RightParen) { Ok(v) => v, Err(e) => { return Err(e); } };
                let body = match self.parse_braced_body() { Ok(v) => v, Err(e) => { return Err(e); } };
                members.push(ClassMember::Setter { name, param, body, is_static });
            } else {
                let name = match self.advance_identifier("Expected method name") { Ok(v) => v, Err(e) => { return Err(e); } };
                if self.at(&Token::LeftParen) {
                    self.advance();
                    let params = match self.parse_params() { Ok(v) => v, Err(e) => { return Err(e); } };
                    match self.expect(&Token::RightParen) { Ok(v) => v, Err(e) => { return Err(e); } };
                    let body = match self.parse_braced_body() { Ok(v) => v, Err(e) => { return Err(e); } };
                    members.push(ClassMember::Method { name, params, body, is_static, is_async });
                } else {
                    members.push(ClassMember::Property { name, is_static });
                    if self.at(&Token::Semicolon) {
                        self.advance();
                    }
                }
            }
            proof {
                places = places0.push(was as int);
                assert(members@.len() == before.len() + 1);
                assert(forall|j: int| 0 <= j < before.len() ==> #[trigger] members@[j] == before[j]);
                assert(forall|j: int| 0 <= j < before.len() ==> #[trigger] places[j] == places0[j]);
                assert(forall|j: int| 0 <= j < before.len() ==> #[trigger] places0[j] < self.pos);
                assert(old(self).member_at(was as int, members@[before.len() as int]));
                assert(places[before.len() as int] == was);
            }
        }
        proof {
            assert(old(self).members_placed(start as int, self.pos as int, members@, places));
        }
        Ok(members)
    }

    /// Consumes a string token and gives its text; otherwise a parse error.
    fn advance_string(&mut self, what: &str) -> (r: Result<String, Error>)
        requires
            old(self).wf(),
        ensures
            old(self).step(*final(self)),
            final(self).pos == (if old(self).pos < old(self).tokens@.len() { old(self).pos + 1 } else { old(self).pos as int }),
            match r {
                Ok(s) => old(self).cur() == Tok::String(s@),
                Err(e) => !(old(self).cur() is String) && e.kind is ParseError
                    && e.kind.msg() == got_message(what@, old(self).cur()),
            },
    {
        let r = match self.peek() {
            Token::String(s) => Ok(s.clone()),
            t => Err(got_error(what, t)),
        };
        self.advance();
        r
    }

    pub(crate) fn parse_import_declaration(&mut self) -> (r: Result<Statement, Error>)
    requires
        old(self).wf(),
    ensures
        old(self).step(*final(self)),
        r is Ok ==> old(self).pos < final(self).pos,
        r matches Err(e) ==> is_parse_failure(e),
        !(old(self).cur() is Import) ==> (r matches Err(e) && e.kind is ParseError
            && e.kind.msg() == got_message("Expected "@ + token_debug(Tok::Import), old(self).cur())),
        old(self).cur() is Import ==> (old(self).tok_at(old(self).pos + 1) matches Tok::String(src) ==> (
            r matches Ok(Statement::ImportDeclaration { specifiers, source })
            && specifiers@.len() == 0 && source@ == src
            && final(self).pos == old(self).pos + 2 + (if old(self).tok_at(old(self).pos + 2) is Semicolon { 1int } else { 0int }))),
        old(self).cur() is Import && old(self).tok_at(old(self).pos + 1) is LeftBrace ==> (
            r matches Ok(Statement::ImportDeclaration { specifiers, source: _ }) ==> exists|pl: Seq<int>|
                #[trigger] old(self).specifiers_placed(old(self).pos + 2, final(self).pos as int, specifiers@, pl)),
        old(self).cur() is Import && old(self).tok_at(old(self).pos + 2) is From ==> (
            old(self).tok_at(old(self).pos + 1) matches Tok::Identifier(l) ==> (
            old(self).tok_at(old(self).pos + 3) matches Tok::String(src) ==> (
            r matches Ok(Statement::ImportDeclaration { specifiers, source })
            && specifiers@.len() == 1 && specifiers@[0].local@ == l
            && (specifiers@[0].imported matches Some(x) && x@ == l)
            && source@ == src))),
        old(self).cur() is Import && old(self).tok_at(old(self).pos + 1) is Star
            && old(self).tok_at(old(self).pos + 2) is As && old(self).tok_at(old(self).pos + 4) is From ==> (
            old(self).tok_at(old(self).pos + 3) matches Tok::Identifier(l) ==> (
            old(self).tok_at(old(self).pos + 5) matches Tok::String(src) ==> (
            r matches Ok(Statement::ImportDeclaration { specifiers, source })
            && specifiers@.len() == 1 && specifiers@[0].local@ == l
            && specifiers@[0].imported is None
            && source@ == src))),
    {
        let ghost toks = self.tokens;
        let ghost start = self.pos;
        match self.expect(&Token::Import) { Ok(v) => v, Err(e) => { return Err(e); } };
        let mut specifiers: Vec<ImportSpecifier> = Vec::new();
        let ghost mut places: Seq<int> = Seq::empty();
        if matches!(self.peek(), Token::String(_)) {
            let source = match self.advance_string("Expected string") { Ok(v) => v, Err(e) => { return Err(e); } };
            if self.at(&Token::Semicolon) {
                self.advance();
            }
            return Ok(Statement::ImportDeclaration { specifiers, source });
        }
        if self.at(&Token::LeftBrace) {
            self.advance();
            while !self.at(&Token::RightBrace)
                invariant
            self.wf(),
            self.tokens == toks,
            toks == old(self).tokens,
            start == old(self).pos,
            start < self.pos,
            old(self).tok_at(start + 1) is LeftBrace,
            old(self).cur() is Import,
            start + 2 <= self.pos,
            places.len() == specifiers@.len(),
            forall|j: int| #![trigger specifiers@[j]] #![trigger places[j]] 0 <= j < specifiers@.len() ==>
                start + 2 <= places[j] < self.pos && old(self).names_specifier(places[j], specifiers@[j]),
                decreases self.tokens@.len() - self.pos,
            {
                let ghost at = self.pos;
                let ghost before = specifiers@;
                let ghost places0 = places;
                let imported = match self.advance_identifier("Expected identifier") { Ok(v) => v, Err(e) => { return Err(e); } };
                let local = if self.at(&Token::As) {
                    self.advance();
                    match self.advance_identifier("Expected identifier") { Ok(v) => v, Err(e) => { return Err(e); } }
                } else {
                    imported.clone()
                };
                let spec = ImportSpecifier { local, imported: Some(imported) };
                assert(old(self).names_specifier(at as int, spec));
                let ghost sp = spec;
                specifiers.push(spec);
                if self.at(&Token::Comma) {
                    self.advance();
                }
                proof {
                    places = places0.push(at as int);
                    assert(forall|j: int| 0 <= j < before.len() ==> #[trigger] specifiers@[j] == before[j]);
                    assert(forall|j: int| 0 <= j < before.len() ==> #[trigger] places[j] == places0[j]);
                    assert(forall|j: int| 0 <= j < before.len() ==> #[trigger] places0[j] < self.pos);
                    assert(specifiers@[before.len() as int] == sp && places[before.len() as int] == at);
                }
            }
            match self.expect(&Token::RightBrace) { Ok(v) => v, Err(e) => { return Err(e); } };
        } else if self.at(&Token::Star) {
            self.advance();
            match self.expect(&Token::As) { Ok(v) => v, Err(e) => { return Err(e); } };
            let local = match self.advance_identifier("Expected identifier") { Ok(v) => v, Err(e) => { return Err(e); } };
            specifiers.push(ImportSpecifier { local, imported: None });
        } else if matches!(self.peek(), Token::Identifier(_)) {
            let local = match self.advance_identifier("Expected identifier") { Ok(v) => v, Err(e) => { return Err(e); } };
            let imported = local.clone();
            specifiers.push(ImportSpecifier { local, imported: Some(imported) });
        }
        if self.at(&Token::From) {
            self.advance();
        }
        let source = match self.advance_string("Expected string") { Ok(v) => v, Err(e) => { return Err(e); } };
        if self.at(&Token::Semicolon) {
            self.advance();
        }
        proof {
            if old(self).tok_at(start + 1) is LeftBrace {
                assert(old(self).specifiers_placed(start + 2, self.pos as int, specifiers@, places));
            }
        }
        Ok(Statement::ImportDeclaration { specifiers, source })
    }

    pub(crate) fn parse_export_declaration(&mut self) -> (r: Result<Statement, Error>)
    requires
        old(self).wf(),
    ensures
        old(self).step(*final(self)),
        r is Ok ==> old(self).pos < final(self).pos,
        r matches Err(e) ==> is_parse_failure(e),
    decreases old(self).depth(), old(self).rest(), 27nat,
    {
        let ghost toks = self.tokens;
        let ghost start = self.pos;
        match self.expect(&Token::Export) { Ok(v) => v, Err(e) => { return Err(e); } };
        if self.at(&Token::Default) {
            self.advance();
            let decl = match self.parse_statement() { Ok(v) => v, Err(e) => { return Err(e); } };
            return Ok(Statement::ExportDefaultDeclaration { declaration: Box::new(decl) });
        }
        if self.at(&Token::LeftBrace) {
            self.advance();
            while !self.at(&Token::RightBrace) && !self.at(&Token::Eof)
                invariant
            self.wf(),
            self.tokens == toks,
            toks == old(self).tokens,
            start == old(self).pos,
            start < self.pos,
                decreases self.tokens@.len() - self.pos,
            {
                self.advance();
                if self.at(&Token::Comma) {
                    self.advance();
                }
            }
            match self.expect(&Token::RightBrace) { Ok(v) => v, Err(e) => { return Err(e); } };
            if self.at(&Token::From) {
                self.advance();
                self.advance();
            }
            if self.at(&Token::Semicolon) {
                self.advance();
            }
            return Ok(Statement::ExportDeclaration {
                declaration: Box::new(Statement::Expression(Expression::UndefinedLiteral)),
            });
        }
        let decl = match self.parse_statement() { Ok(v) => v, Err(e) => { return Err(e); } };
        Ok(Statement::ExportDeclaration { declaration: Box::new(decl) })
    }
}

/// Where `ts` holds `k` number lines from `start` on and a parse stands,
/// not at the end, after `n` of them, the next line is a number line.
proof fn lemma_number_line_next(p: Parser, ts: Seq<SpannedToken>, start: int, k: int, n: int)
    requires
        number_lines(ts, start, k),
        p.tokens@ == ts,
        p.pos == start + 2 * n,
        0 <= n <= k,
        !(p.cur() is Eof),
    ensures
        n < k,
        p.lone_number(),
        p.tok_at(p.pos + 1) is Semicolon,
{
    if n < k {
        assert(is_number_line(ts, start, n));
    }
}

} // verus!
