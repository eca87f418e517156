use vstd::prelude::*;
use vstd::string::*;
use crate::compiler::lexer::{Tok, Token};
use crate::compiler::parser::{is_parse_failure, Parser, TypeAnnotation, TypeLiteral};
use crate::errors::Error;
use crate::text::str_eq;

verus! {

/// Whether `n` names one of the built-in types.
pub open spec fn is_type_keyword(n: Seq<char>) -> bool {
    n == "number"@ || n == "string"@ || n == "boolean"@ || n == "null"@ || n == "undefined"@
        || n == "void"@ || n == "any"@ || n == "unknown"@ || n == "never"@
}

/// The built-in type that `n` names (`any` for a name that is none of them).
pub open spec fn keyword_type(n: Seq<char>) -> TypeAnnotation {
    if n == "number"@ {
        TypeAnnotation::Number
    } else if n == "string"@ {
        TypeAnnotation::String
    } else if n == "boolean"@ {
        TypeAnnotation::Boolean
    } else if n == "null"@ {
        TypeAnnotation::Null
    } else if n == "undefined"@ {
        TypeAnnotation::Undefined
    } else if n == "void"@ {
        TypeAnnotation::Void
    } else if n == "any"@ {
        TypeAnnotation::Any
    } else if n == "unknown"@ {
        TypeAnnotation::Unknown
    } else if n == "never"@ {
        TypeAnnotation::Never
    } else {
        TypeAnnotation::Any
    }
}

/// The built-in type that `n` names, if it names one.
fn keyword_annotation(n: &str) -> (r: Option<TypeAnnotation>)
    ensures
        r == (if is_type_keyword(n@) { Some(keyword_type(n@)) } else { None }),
{
    if str_eq(n, "number") {
        Some(TypeAnnotation::Number)
    } else if str_eq(n, "string") {
        Some(TypeAnnotation::String)
    } else if str_eq(n, "boolean") {
        Some(TypeAnnotation::Boolean)
    } else if str_eq(n, "null") {
        Some(TypeAnnotation::Null)
    } else if str_eq(n, "undefined") {
        Some(TypeAnnotation::Undefined)
    } else if str_eq(n, "void") {
        Some(TypeAnnotation::Void)
    } else if str_eq(n, "any") {
        Some(TypeAnnotation::Any)
    } else if str_eq(n, "unknown") {
        Some(TypeAnnotation::Unknown)
    } else if str_eq(n, "never") {
        Some(TypeAnnotation::Never)
    } else {
        None
    }
}

impl<'a> Parser<'a> {
    /// A type: members of a union, each an intersection, separated by `|`.
    pub(crate) fn parse_type_annotation(&mut self) -> (r: Result<TypeAnnotation, Error>)
        requires
            old(self).wf(),
        ensures
            old(self).step(*final(self)),
            r is Ok ==> !(final(self).cur() is BitOr),
            r matches Err(e) ==> is_parse_failure(e),
        decreases old(self).rest(), 2nat,
    {
        let ghost start = self.pos;
        let first = match self.parse_intersection_type() { Ok(v) => v, Err(e) => { return Err(e); } };
        let mut types: Vec<TypeAnnotation> = Vec::new();
        types.push(first);
        while self.at(&Token::BitOr)
            invariant
                self.wf(),
                self.tokens == old(self).tokens,
                start == old(self).pos,
                start <= self.pos,
                types@.len() >= 1,
            decreases self.tokens@.len() - self.pos,
        {
            assert(self.pos < self.tokens@.len());
            self.advance();
            let t = match self.parse_intersection_type() { Ok(v) => v, Err(e) => { return Err(e); } };
            types.push(t);
        }
        if types.len() == 1 {
            Ok(types.remove(0))
        } else {
            Ok(TypeAnnotation::Union(types))
        }
    }

    /// An intersection: primary types separated by `&`.
    pub(crate) fn parse_intersection_type(&mut self) -> (r: Result<TypeAnnotation, Error>)
        requires
            old(self).wf(),
        ensures
            old(self).step(*final(self)),
            r is Ok ==> !(final(self).cur() is BitAnd),
            r matches Err(e) ==> is_parse_failure(e),
        decreases old(self).rest(), 1nat,
    {
        let ghost start = self.pos;
        let first = match self.parse_primary_type() { Ok(v) => v, Err(e) => { return Err(e); } };
        let mut types: Vec<TypeAnnotation> = Vec::new();
        types.push(first);
        while self.at(&Token::BitAnd)
            invariant
                self.wf(),
                self.tokens == old(self).tokens,
                start == old(self).pos,
                start <= self.pos,
                types@.len() >= 1,
            decreases self.tokens@.len() - self.pos,
        {
            assert(self.pos < self.tokens@.len());
            self.advance();
            let t = match self.parse_primary_type() { Ok(v) => v, Err(e) => { return Err(e); } };
            types.push(t);
        }
        if types.len() == 1 {
            Ok(types.remove(0))
        } else {
            Ok(TypeAnnotation::Intersection(types))
        }
    }

    /// A primary type, with an optional `[]` after it for an array of it:
    /// a built-in or named type, a generic one with arguments in `<` `>`,
    /// `void`, a number or string literal type, a tuple in `[` `]` (`[]`
    /// alone is an array of `any`), an object type in `{` `}` (properties
    /// with `: type`, `?` for one that may be left out, `readonly` skipped,
    /// separated by `,` or `;`), or a type in parentheses. Any other token
    /// is left where it is and the type is `any`.
    pub(crate) fn parse_primary_type(&mut self) -> (r: Result<TypeAnnotation, Error>)
        requires
            old(self).wf(),
        ensures
            old(self).step(*final(self)),
            r matches Err(e) ==> is_parse_failure(e),
            old(self).cur() matches Tok::Identifier(n) ==> (is_type_keyword(n)
                && !(old(self).tok_at(old(self).pos + 1) is LeftBracket)
                ==> r == Ok::<TypeAnnotation, Error>(keyword_type(n)) && final(self).pos == old(self).pos + 1),
            old(self).cur() matches Tok::Identifier(n) ==> (!is_type_keyword(n)
                && !(old(self).tok_at(old(self).pos + 1) is LeftBracket)
                && !(old(self).tok_at(old(self).pos + 1) is Less)
                ==> (r matches Ok(TypeAnnotation::Named(s)) && s@ == n && final(self).pos == old(self).pos + 1)),
            old(self).cur() is Void && !(old(self).tok_at(old(self).pos + 1) is LeftBracket)
                ==> r == Ok::<TypeAnnotation, Error>(TypeAnnotation::Void) && final(self).pos == old(self).pos + 1,
            old(self).cur() matches Tok::Number(n) ==> (!(old(self).tok_at(old(self).pos + 1) is LeftBracket)
                ==> (r matches Ok(TypeAnnotation::Literal(TypeLiteral::Number(s))) && s@ == n
                    && final(self).pos == old(self).pos + 1)),
            old(self).cur() matches Tok::String(n) ==> (!(old(self).tok_at(old(self).pos + 1) is LeftBracket)
                ==> (r matches Ok(TypeAnnotation::Literal(TypeLiteral::String(s))) && s@ == n
                    && final(self).pos == old(self).pos + 1)),
            old(self).cur() is LeftBracket && old(self).tok_at(old(self).pos + 1) is RightBracket
                ==> (r matches Ok(TypeAnnotation::Array(b)) && *b == TypeAnnotation::Any
                    && final(self).pos == old(self).pos + 2),
            old(self).cur() is LeftBrace && old(self).tok_at(old(self).pos + 1) is RightBrace
                && !(old(self).tok_at(old(self).pos + 2) is LeftBracket)
                ==> (r matches Ok(TypeAnnotation::Object(ps)) && ps@.len() == 0
                    && final(self).pos == old(self).pos + 2),
            !(old(self).cur() is Identifier || old(self).cur() is Void || old(self).cur() is Number
                || old(self).cur() is String || old(self).cur() is LeftBracket || old(self).cur() is LeftParen
                || old(self).cur() is LeftBrace)
                ==> r == Ok::<TypeAnnotation, Error>(TypeAnnotation::Any) && final(self).pos == old(self).pos,
        decreases old(self).rest(), 0nat,
    {
        let ghost start = self.pos;
        let t = self.peek();
        let base = match t {
            Token::Identifier(name) => {
                let name = name.clone();
                self.advance();
                match keyword_annotation(name.as_str()) {
                    Some(k) => k,
                    None => {
                        if self.at(&Token::Less) {
                            self.advance();
                            let mut args: Vec<TypeAnnotation> = Vec::new();
                            let a = match self.parse_type_annotation() { Ok(v) => v, Err(e) => { return Err(e); } };
                            args.push(a);
                            while self.at(&Token::Comma)
                                invariant
                                    self.wf(),
                                    self.tokens == old(self).tokens,
                                    start == old(self).pos,
                                    start < self.pos,
                                    old(self).cur() is Identifier,
                                    !is_type_keyword(old(self).cur()->Identifier_0),
                                    old(self).tok_at(start + 1) is Less,
                                decreases self.tokens@.len() - self.pos,
                            {
                                assert(self.pos < self.tokens@.len());
                                self.advance();
                                if self.at(&Token::Greater) {
                                    break;
                                }
                                let a = match self.parse_type_annotation() { Ok(v) => v, Err(e) => { return Err(e); } };
                                args.push(a);
                            }
                            match self.expect(&Token::Greater) { Ok(v) => v, Err(e) => { return Err(e); } };
                            TypeAnnotation::Generic { name, args }
                        } else {
                            TypeAnnotation::Named(name)
                        }
                    },
                }
            },
            Token::Void => {
                self.advance();
                TypeAnnotation::Void
            },
            Token::Number(n) => {
                let n = n.clone();
                self.advance();
                TypeAnnotation::Literal(TypeLiteral::Number(n))
            },
            Token::String(s) => {
                let s = s.clone();
                self.advance();
                TypeAnnotation::Literal(TypeLiteral::String(s))
            },
            Token::LeftBracket => {
                self.advance();
                if self.at(&Token::RightBracket) {
                    self.advance();
                    return Ok(TypeAnnotation::Array(Box::new(TypeAnnotation::Any)));
                }
                let first = match self.parse_type_annotation() { Ok(v) => v, Err(e) => { return Err(e); } };
                let mut elements: Vec<TypeAnnotation> = Vec::new();
                elements.push(first);
                while self.at(&Token::Comma)
                    invariant
                        self.wf(),
                        self.tokens == old(self).tokens,
                        start == old(self).pos,
                        start < self.pos,
                        old(self).cur() is LeftBracket,
                        !(old(self).tok_at(start + 1) is RightBracket),
                    decreases self.tokens@.len() - self.pos,
                {
                    assert(self.pos < self.tokens@.len());
                    self.advance();
                    if self.at(&Token::RightBracket) {
                        break;
                    }
                    let e = match self.parse_type_annotation() { Ok(v) => v, Err(e) => { return Err(e); } };
                    elements.push(e);
                }
                match self.expect(&Token::RightBracket) { Ok(v) => v, Err(e) => { return Err(e); } };
                TypeAnnotation::Tuple(elements)
            },
            Token::LeftBrace => {
                self.advance();
                let mut properties: Vec<(String, TypeAnnotation, bool)> = Vec::new();
                if !self.at(&Token::RightBrace) {
                    loop
                        invariant
                            self.wf(),
                            self.tokens == old(self).tokens,
                            start == old(self).pos,
                            start < self.pos,
                            old(self).cur() is LeftBrace,
                            !(old(self).tok_at(start + 1) is RightBrace),
                        decreases self.tokens@.len() - self.pos,
                    {
                        let ghost round = self.pos;
                        loop
                            invariant
                                self.wf(),
                                self.tokens == old(self).tokens,
                                start == old(self).pos,
                                round <= self.pos,
                                start < round,
                                old(self).cur() is LeftBrace,
                                !(old(self).tok_at(start + 1) is RightBrace),
                            decreases self.tokens@.len() - self.pos,
                        {
                            let readonly = match self.peek() {
                                Token::Identifier(n) => str_eq(n.as_str(), "readonly"),
                                _ => false,
                            };
                            if !readonly {
                                break;
                            }
                            assert(self.pos < self.tokens@.len());
                            self.advance();
                        }
                        let name = match self.advance_identifier("Expected property name") { Ok(v) => v, Err(e) => { return Err(e); } };
                        let optional = if self.at(&Token::Question) {
                            self.advance();
                            true
                        } else {
                            false
                        };
                        match self.expect(&Token::Colon) { Ok(v) => v, Err(e) => { return Err(e); } };
                        let ty = match self.parse_type_annotation() { Ok(v) => v, Err(e) => { return Err(e); } };
                        properties.push((name, ty, optional));
                        if self.at(&Token::Comma) || self.at(&Token::Semicolon) {
                            self.advance();
                            if self.at(&Token::RightBrace) {
                                break;
                            }
                        } else {
                            break;
                        }
                    }
                }
                match self.expect(&Token::RightBrace) { Ok(v) => v, Err(e) => { return Err(e); } };
                TypeAnnotation::Object(properties)
            },
            Token::LeftParen => {
                self.advance();
                let inner = match self.parse_type_annotation() { Ok(v) => v, Err(e) => { return Err(e); } };
                match self.expect(&Token::RightParen) { Ok(v) => v, Err(e) => { return Err(e); } };
                inner
            },
            _ => TypeAnnotation::Any,
        };
        if self.at(&Token::LeftBracket) {
            self.advance();
            match self.expect(&Token::RightBracket) { Ok(v) => v, Err(e) => { return Err(e); } };
            Ok(TypeAnnotation::Array(Box::new(base)))
        } else {
            Ok(base)
        }
    }
}

} // verus!
