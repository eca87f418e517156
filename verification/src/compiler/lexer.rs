//! The lexer: source text to tokens with their positions.
use vstd::prelude::*;
use vstd::string::*;
use crate::dotenv::find_from;
use crate::errors::{Error, Span};
use crate::text::{char_len_utf8, char_utf8_len, chars_of, push_char, str_eq, string_of_range, utf8_len, utf8_len_range};

verus! {

/// A token of the source language. A number keeps the text it was written as.
#[derive(Debug)]
pub enum Token {
    Number(String),
    String(String),
    BigInt(String),
    Regex(String),
    Identifier(String),
    TemplateLiteral(Vec<TemplatePart>),
    Const,
    Let,
    Var,
    Function,
    Return,
    If,
    Else,
    While,
    For,
    Do,
    Switch,
    Case,
    Break,
    Continue,
    New,
    Void,
    Delete,
    Typeof,
    Instanceof,
    Constructor,
    In,
    Of,
    Class,
    Extends,
    Super,
    This,
    Import,
    Export,
    Default,
    From,
    As,
    Type,
    Interface,
    Enum,
    Async,
    Await,
    Promise,
    Try,
    Catch,
    Finally,
    Throw,
    Static,
    Get,
    SetKeyword,
    Yield,
    Public,
    Private,
    Protected,
    Readonly,
    Plus,
    Minus,
    Star,
    Slash,
    Percent,
    Power,
    Assign,
    PlusAssign,
    MinusAssign,
    StarAssign,
    SlashAssign,
    PercentAssign,
    PowerAssign,
    AndAssign,
    OrAssign,
    XorAssign,
    BitAndAssign,
    BitOrAssign,
    Equal,
    StrictEqual,
    NotEqual,
    StrictNotEqual,
    Less,
    Greater,
    LessEqual,
    GreaterEqual,
    And,
    Or,
    Not,
    BitAnd,
    BitOr,
    BitXor,
    BitNot,
    ShiftLeft,
    ShiftRight,
    UnsignedShiftRight,
    Increment,
    Decrement,
    LeftParen,
    RightParen,
    LeftBrace,
    RightBrace,
    LeftBracket,
    RightBracket,
    Semicolon,
    Colon,
    Comma,
    Dot,
    Question,
    QuestionDot,
    NullishCoalescing,
    NullishCoalescingAssign,
    Arrow,
    Ellipsis,
    Eof,
}

/// A token as plain values.
pub enum Tok {
    Number(Seq<char>),
    String(Seq<char>),
    BigInt(Seq<char>),
    Regex(Seq<char>),
    Identifier(Seq<char>),
    TemplateLiteral(Seq<Part>),
    Const,
    Let,
    Var,
    Function,
    Return,
    If,
    Else,
    While,
    For,
    Do,
    Switch,
    Case,
    Break,
    Continue,
    New,
    Void,
    Delete,
    Typeof,
    Instanceof,
    Constructor,
    In,
    Of,
    Class,
    Extends,
    Super,
    This,
    Import,
    Export,
    Default,
    From,
    As,
    Type,
    Interface,
    Enum,
    Async,
    Await,
    Promise,
    Try,
    Catch,
    Finally,
    Throw,
    Static,
    Get,
    SetKeyword,
    Yield,
    Public,
    Private,
    Protected,
    Readonly,
    Plus,
    Minus,
    Star,
    Slash,
    Percent,
    Power,
    Assign,
    PlusAssign,
    MinusAssign,
    StarAssign,
    SlashAssign,
    PercentAssign,
    PowerAssign,
    AndAssign,
    OrAssign,
    XorAssign,
    BitAndAssign,
    BitOrAssign,
    Equal,
    StrictEqual,
    NotEqual,
    StrictNotEqual,
    Less,
    Greater,
    LessEqual,
    GreaterEqual,
    And,
    Or,
    Not,
    BitAnd,
    BitOr,
    BitXor,
    BitNot,
    ShiftLeft,
    ShiftRight,
    UnsignedShiftRight,
    Increment,
    Decrement,
    LeftParen,
    RightParen,
    LeftBrace,
    RightBrace,
    LeftBracket,
    RightBracket,
    Semicolon,
    Colon,
    Comma,
    Dot,
    Question,
    QuestionDot,
    NullishCoalescing,
    NullishCoalescingAssign,
    Arrow,
    Ellipsis,
    Eof,
}

/// A token as plain values.
pub open spec fn token_view(t: Token) -> Tok
    decreases t, 0nat,
{
    match t {
        Token::Number(s) => Tok::Number(s@),
        Token::String(s) => Tok::String(s@),
        Token::BigInt(s) => Tok::BigInt(s@),
        Token::Regex(s) => Tok::Regex(s@),
        Token::Identifier(s) => Tok::Identifier(s@),
        Token::TemplateLiteral(ps) => Tok::TemplateLiteral(parts_view(ps@)),
        Token::Const => Tok::Const,
        Token::Let => Tok::Let,
        Token::Var => Tok::Var,
        Token::Function => Tok::Function,
        Token::Return => Tok::Return,
        Token::If => Tok::If,
        Token::Else => Tok::Else,
        Token::While => Tok::While,
        Token::For => Tok::For,
        Token::Do => Tok::Do,
        Token::Switch => Tok::Switch,
        Token::Case => Tok::Case,
        Token::Break => Tok::Break,
        Token::Continue => Tok::Continue,
        Token::New => Tok::New,
        Token::Void => Tok::Void,
        Token::Delete => Tok::Delete,
        Token::Typeof => Tok::Typeof,
        Token::Instanceof => Tok::Instanceof,
        Token::Constructor => Tok::Constructor,
        Token::In => Tok::In,
        Token::Of => Tok::Of,
        Token::Class => Tok::Class,
        Token::Extends => Tok::Extends,
        Token::Super => Tok::Super,
        Token::This => Tok::This,
        Token::Import => Tok::Import,
        Token::Export => Tok::Export,
        Token::Default => Tok::Default,
        Token::From => Tok::From,
        Token::As => Tok::As,
        Token::Type => Tok::Type,
        Token::Interface => Tok::Interface,
        Token::Enum => Tok::Enum,
        Token::Async => Tok::Async,
        Token::Await => Tok::Await,
        Token::Promise => Tok::Promise,
        Token::Try => Tok::Try,
        Token::Catch => Tok::Catch,
        Token::Finally => Tok::Finally,
        Token::Throw => Tok::Throw,
        Token::Static => Tok::Static,
        Token::Get => Tok::Get,
        Token::SetKeyword => Tok::SetKeyword,
        Token::Yield => Tok::Yield,
        Token::Public => Tok::Public,
        Token::Private => Tok::Private,
        Token::Protected => Tok::Protected,
        Token::Readonly => Tok::Readonly,
        Token::Plus => Tok::Plus,
        Token::Minus => Tok::Minus,
        Token::Star => Tok::Star,
        Token::Slash => Tok::Slash,
        Token::Percent => Tok::Percent,
        Token::Power => Tok::Power,
        Token::Assign => Tok::Assign,
        Token::PlusAssign => Tok::PlusAssign,
        Token::MinusAssign => Tok::MinusAssign,
        Token::StarAssign => Tok::StarAssign,
        Token::SlashAssign => Tok::SlashAssign,
        Token::PercentAssign => Tok::PercentAssign,
        Token::PowerAssign => Tok::PowerAssign,
        Token::AndAssign => Tok::AndAssign,
        Token::OrAssign => Tok::OrAssign,
        Token::XorAssign => Tok::XorAssign,
        Token::BitAndAssign => Tok::BitAndAssign,
        Token::BitOrAssign => Tok::BitOrAssign,
        Token::Equal => Tok::Equal,
        Token::StrictEqual => Tok::StrictEqual,
        Token::NotEqual => Tok::NotEqual,
        Token::StrictNotEqual => Tok::StrictNotEqual,
        Token::Less => Tok::Less,
        Token::Greater => Tok::Greater,
        Token::LessEqual => Tok::LessEqual,
        Token::GreaterEqual => Tok::GreaterEqual,
        Token::And => Tok::And,
        Token::Or => Tok::Or,
        Token::Not => Tok::Not,
        Token::BitAnd => Tok::BitAnd,
        Token::BitOr => Tok::BitOr,
        Token::BitXor => Tok::BitXor,
        Token::BitNot => Tok::BitNot,
        Token::ShiftLeft => Tok::ShiftLeft,
        Token::ShiftRight => Tok::ShiftRight,
        Token::UnsignedShiftRight => Tok::UnsignedShiftRight,
        Token::Increment => Tok::Increment,
        Token::Decrement => Tok::Decrement,
        Token::LeftParen => Tok::LeftParen,
        Token::RightParen => Tok::RightParen,
        Token::LeftBrace => Tok::LeftBrace,
        Token::RightBrace => Tok::RightBrace,
        Token::LeftBracket => Tok::LeftBracket,
        Token::RightBracket => Tok::RightBracket,
        Token::Semicolon => Tok::Semicolon,
        Token::Colon => Tok::Colon,
        Token::Comma => Tok::Comma,
        Token::Dot => Tok::Dot,
        Token::Question => Tok::Question,
        Token::QuestionDot => Tok::QuestionDot,
        Token::NullishCoalescing => Tok::NullishCoalescing,
        Token::NullishCoalescingAssign => Tok::NullishCoalescingAssign,
        Token::Arrow => Tok::Arrow,
        Token::Ellipsis => Tok::Ellipsis,
        Token::Eof => Tok::Eof,
    }
}

/// The token for a word: a keyword's own token, else an identifier.
pub open spec fn word_token(w: Seq<char>) -> Tok {
    if w == "const"@ {
        Tok::Const
    } else if w == "let"@ {
        Tok::Let
    } else if w == "var"@ {
        Tok::Var
    } else if w == "function"@ {
        Tok::Function
    } else if w == "return"@ {
        Tok::Return
    } else if w == "if"@ {
        Tok::If
    } else if w == "else"@ {
        Tok::Else
    } else if w == "while"@ {
        Tok::While
    } else if w == "for"@ {
        Tok::For
    } else if w == "do"@ {
        Tok::Do
    } else if w == "switch"@ {
        Tok::Switch
    } else if w == "case"@ {
        Tok::Case
    } else if w == "break"@ {
        Tok::Break
    } else if w == "continue"@ {
        Tok::Continue
    } else if w == "new"@ {
        Tok::New
    } else if w == "void"@ {
        Tok::Void
    } else if w == "delete"@ {
        Tok::Delete
    } else if w == "typeof"@ {
        Tok::Typeof
    } else if w == "instanceof"@ {
        Tok::Instanceof
    } else if w == "in"@ {
        Tok::In
    } else if w == "of"@ {
        Tok::Of
    } else if w == "class"@ {
        Tok::Class
    } else if w == "extends"@ {
        Tok::Extends
    } else if w == "super"@ {
        Tok::Super
    } else if w == "this"@ {
        Tok::This
    } else if w == "import"@ {
        Tok::Import
    } else if w == "export"@ {
        Tok::Export
    } else if w == "default"@ {
        Tok::Default
    } else if w == "from"@ {
        Tok::From
    } else if w == "as"@ {
        Tok::As
    } else if w == "interface"@ {
        Tok::Interface
    } else if w == "enum"@ {
        Tok::Enum
    } else if w == "async"@ {
        Tok::Async
    } else if w == "await"@ {
        Tok::Await
    } else if w == "yield"@ {
        Tok::Yield
    } else if w == "try"@ {
        Tok::Try
    } else if w == "catch"@ {
        Tok::Catch
    } else if w == "finally"@ {
        Tok::Finally
    } else if w == "throw"@ {
        Tok::Throw
    } else if w == "static"@ {
        Tok::Static
    } else if w == "public"@ {
        Tok::Public
    } else if w == "private"@ {
        Tok::Private
    } else if w == "protected"@ {
        Tok::Protected
    } else if w == "constructor"@ {
        Tok::Constructor
    } else if w == "get"@ {
        Tok::Get
    } else if w == "set"@ {
        Tok::SetKeyword
    } else {
        Tok::Identifier(w)
    }
}


/// A token with the position where it starts.
#[derive(Debug)]
pub struct SpannedToken {
    pub token: Token,
    pub span: Span,
}

/// A piece of a template literal: text, or the tokens of a `${…}` expression.
#[derive(Debug)]
pub enum TemplatePart {
    Text(String),
    Expression(Vec<SpannedToken>),
}

/// A template part as plain values.
pub enum Part {
    Text(Seq<char>),
    Expression(Seq<(Tok, Span)>),
}

/// Template parts as plain values.
pub open spec fn parts_view(ps: Seq<TemplatePart>) -> Seq<Part>
    decreases ps, ps.len(),
{
    if ps.len() == 0 {
        Seq::empty()
    } else {
        parts_view(ps.drop_last()).push(part_view(ps.last()))
    }
}

/// A template part as plain values.
pub open spec fn part_view(p: TemplatePart) -> Part
    decreases p, 0nat,
{
    match p {
        TemplatePart::Text(s) => Part::Text(s@),
        TemplatePart::Expression(ts) => Part::Expression(tokens_view(ts@)),
    }
}

/// Tokens with their spans as plain values.
pub open spec fn tokens_view(ts: Seq<SpannedToken>) -> Seq<(Tok, Span)>
    decreases ts, ts.len(),
{
    if ts.len() == 0 {
        Seq::empty()
    } else {
        tokens_view(ts.drop_last()).push((token_view(ts.last().token), ts.last().span))
    }
}

/// Whether `c` is alphabetic or numeric in Unicode, as `char::is_alphanumeric` says.
pub uninterp spec fn is_alphanumeric(c: char) -> bool;

/// Whether `c` is alphabetic or numeric in Unicode.
///
/// Trusted: calls `char::is_alphanumeric`; the result is named
/// `is_alphanumeric(c)`. Its documentation defines it by the Unicode
/// `Alphabetic` and `Numeric` properties; it is called for characters beyond
/// ASCII only, where nothing more is stated.
#[verifier::external_body]
fn char_is_alphanumeric(c: char) -> (r: bool)
    ensures
        r == is_alphanumeric(c),
{
    c.is_alphanumeric()
}

pub open spec fn is_digit(c: char) -> bool {
    '0' <= c <= '9'
}

pub open spec fn is_ascii_alpha(c: char) -> bool {
    ('a' <= c <= 'z') || ('A' <= c <= 'Z')
}

/// A character that can start an identifier.
pub open spec fn is_ident_start(c: char) -> bool {
    is_ascii_alpha(c) || c == '_' || c == '$'
}

/// A character that can continue an identifier: an ASCII letter or digit,
/// `_` or `$`, or a character beyond ASCII that is alphabetic or numeric.
pub open spec fn is_ident_char(c: char) -> bool {
    if (c as u32) < 128 {
        is_ascii_alpha(c) || is_digit(c) || c == '_' || c == '$'
    } else {
        is_alphanumeric(c)
    }
}

/// Whether `c` can continue an identifier.
fn ident_char(c: char) -> (r: bool)
    ensures
        r == is_ident_char(c),
{
    if (c as u32) < 128 {
        ('a' <= c && c <= 'z') || ('A' <= c && c <= 'Z') || ('0' <= c && c <= '9') || c == '_' || c == '$'
    } else {
        char_is_alphanumeric(c)
    }
}

/// After a token that ends an expression, `/` is division; elsewhere it starts a regex.
pub open spec fn ends_expression(t: Tok) -> bool {
    t is Number || t is BigInt || t is String || t is Regex || t is Identifier || t is RightParen
        || t is RightBracket || t is RightBrace || t is Increment || t is Decrement || t is This
}

/// Whether a `/` after the tokens `toks` starts a regex literal.
pub open spec fn regex_allowed(toks: Seq<(Tok, Span)>) -> bool {
    toks.len() == 0 || !ends_expression(toks.last().0)
}

/// The end of the run of characters satisfying `digit`-ness (or `.` where `dots`) from `j`.
pub open spec fn digits_end(s: Seq<char>, j: int, dots: bool) -> int
    decreases s.len() - j,
{
    if 0 <= j < s.len() && (is_digit(s[j]) || (dots && s[j] == '.')) {
        digits_end(s, j + 1, dots)
    } else {
        j
    }
}

/// The end of the run of identifier characters from `j`.
pub open spec fn ident_end(s: Seq<char>, j: int) -> int
    decreases s.len() - j,
{
    if 0 <= j < s.len() && is_ident_char(s[j]) {
        ident_end(s, j + 1)
    } else {
        j
    }
}

/// The end of the run of ASCII letters from `j` (the flags of a regex).
pub open spec fn alpha_end(s: Seq<char>, j: int) -> int
    decreases s.len() - j,
{
    if 0 <= j < s.len() && is_ascii_alpha(s[j]) {
        alpha_end(s, j + 1)
    } else {
        j
    }
}

/// The end of a number that starts at `i`: digits and dots, then an optional
/// exponent `e`/`E` with an optional sign and digits.
pub open spec fn number_end(s: Seq<char>, i: int) -> int {
    let j1 = digits_end(s, i, true);
    if j1 < s.len() && (s[j1] == 'e' || s[j1] == 'E') {
        let j2 = if j1 + 1 < s.len() && (s[j1 + 1] == '+' || s[j1 + 1] == '-') {
            j1 + 2
        } else {
            j1 + 1
        };
        digits_end(s, j2, false)
    } else {
        j1
    }
}

/// A block comment from `j` (after `/*`): the position, line and column after
/// its closing `*/`, or `None` where it is not closed.
pub open spec fn block_comment(s: Seq<char>, j: int, line: int, col: int) -> Option<(int, int, int)>
    decreases s.len() - j,
{
    if j < 0 || j >= s.len() {
        None
    } else if s[j] == '*' {
        if j + 1 < s.len() && s[j + 1] == '/' {
            Some((j + 2, line, col + 2))
        } else {
            block_comment(s, j + 1, line, col + 1)
        }
    } else if s[j] == '\n' {
        block_comment(s, j + 1, line + 1, 1)
    } else {
        block_comment(s, j + 1, line, col + 1)
    }
}

/// The body of a regex literal from `j`: the position, line and column after
/// the closing `/`, and the pattern; `None` where it is not closed.
pub open spec fn regex_body(s: Seq<char>, j: int, line: int, col: int, escaped: bool, depth: int) -> Option<(int, int, int, Seq<char>)>
    decreases s.len() - j,
{
    if j < 0 || j >= s.len() {
        None
    } else {
        let c = s[j];
        if c == '\\' && !escaped {
            match regex_body(s, j + 1, line, col + 1, true, depth) {
                Some((p, l, k, pat)) => Some((p, l, k, seq!['\\'] + pat)),
                None => None,
            }
        } else if c == '[' && !escaped && depth == 0 {
            match regex_body(s, j + 1, line, col + 1, false, 1) {
                Some((p, l, k, pat)) => Some((p, l, k, seq!['['] + pat)),
                None => None,
            }
        } else if c == ']' && !escaped && depth > 0 {
            match regex_body(s, j + 1, line, col + 1, false, depth - 1) {
                Some((p, l, k, pat)) => Some((p, l, k, seq![']'] + pat)),
                None => None,
            }
        } else if c == '/' && !escaped && depth == 0 {
            Some((j + 1, line, col + 1, Seq::empty()))
        } else if c == '\n' {
            match regex_body(s, j + 1, line + 1, 1, false, depth) {
                Some((p, l, k, pat)) => Some((p, l, k, seq!['\n'] + pat)),
                None => None,
            }
        } else {
            match regex_body(s, j + 1, line, col + 1, false, depth) {
                Some((p, l, k, pat)) => Some((p, l, k, seq![c] + pat)),
                None => None,
            }
        }
    }
}

/// What an escape `\c` stands for in a string literal.
pub open spec fn string_escape(c: char) -> Seq<char> {
    if c == 'n' {
        seq!['\n']
    } else if c == 't' {
        seq!['\t']
    } else if c == 'r' {
        seq!['\r']
    } else if c == '\\' || c == '\'' || c == '"' || c == '`' {
        seq![c]
    } else {
        seq!['\\', c]
    }
}

/// What an escape `\c` stands for in a template literal.
pub open spec fn template_escape(c: char) -> Seq<char> {
    if c == '$' {
        seq!['$']
    } else {
        string_escape(c)
    }
}

/// The body of a string literal from `j` closed by `quote`: the position,
/// line and column after the closing quote, and the text; `None` where it is
/// not closed.
pub open spec fn string_body(s: Seq<char>, j: int, line: int, col: int, quote: char) -> Option<(int, int, int, Seq<char>)>
    decreases s.len() - j,
{
    if j < 0 || j >= s.len() {
        None
    } else {
        let c = s[j];
        if c == quote {
            Some((j + 1, line, col + 1, Seq::empty()))
        } else if c == '\\' {
            if j + 1 < s.len() {
                match string_body(s, j + 2, line, col + 2, quote) {
                    Some((p, l, k, t)) => Some((p, l, k, string_escape(s[j + 1]) + t)),
                    None => None,
                }
            } else {
                None
            }
        } else if c == '\n' {
            match string_body(s, j + 1, line + 1, 1, quote) {
                Some((p, l, k, t)) => Some((p, l, k, seq!['\n'] + t)),
                None => None,
            }
        } else {
            match string_body(s, j + 1, line, col + 1, quote) {
                Some((p, l, k, t)) => Some((p, l, k, seq![c] + t)),
                None => None,
            }
        }
    }
}

/// The position of the `}` that closes a `${` expression, scanning from `k`
/// with `depth` braces open.
pub open spec fn brace_end(s: Seq<char>, k: int, depth: int) -> Option<int>
    decreases s.len() - k,
{
    if k < 0 || k >= s.len() {
        None
    } else if s[k] == '{' {
        brace_end(s, k + 1, depth + 1)
    } else if s[k] == '}' {
        if depth - 1 == 0 {
            Some(k)
        } else {
            brace_end(s, k + 1, depth - 1)
        }
    } else {
        brace_end(s, k + 1, depth)
    }
}

/// `toks` without its end-of-input tokens.
pub open spec fn without_eof(toks: Seq<(Tok, Span)>) -> Seq<(Tok, Span)>
    decreases toks.len(),
{
    if toks.len() == 0 {
        Seq::empty()
    } else if toks.last().0 is Eof {
        without_eof(toks.drop_last())
    } else {
        without_eof(toks.drop_last()).push(toks.last())
    }
}

/// `parts` with the pending text added, where there is any.
pub open spec fn flush_text(parts: Seq<Part>, text: Seq<char>) -> Seq<Part> {
    if text.len() > 0 {
        parts.push(Part::Text(text))
    } else {
        parts
    }
}

/// The span at position `i` of `s`, at `line` and `col`.
pub open spec fn span_at(s: Seq<char>, i: int, line: int, col: int) -> Span {
    Span { line: line as usize, col: col as usize, offset: utf8_len(s.subrange(0, i)) as usize }
}

/// A template literal from `j` (after the opening backquote): the position
/// after the closing backquote and the parts; an error message where the
/// literal or an expression in it is not closed, or an expression fails to lex.
pub open spec fn template_body(s: Seq<char>, j: int, text: Seq<char>, parts: Seq<Part>) -> Result<(int, Seq<Part>), Seq<char>>
    decreases s.len() - j, 0nat,
{
    if j < 0 || j >= s.len() {
        Err("Unterminated template literal"@)
    } else {
        let c = s[j];
        if c == '`' {
            Ok((j + 1, flush_text(parts, text)))
        } else if c == '$' {
            if j + 1 < s.len() && s[j + 1] == '{' {
                match brace_end(s, j + 2, 1) {
                    None => Err("Unterminated template expression"@),
                    Some(e) => if j + 2 <= e < s.len() {
                        match lex(s.subrange(j + 2, e), 0, 1, 1, Seq::empty()) {
                            Err(m) => Err(m),
                            Ok(ts) => template_body(
                                s,
                                e + 1,
                                Seq::empty(),
                                flush_text(parts, text).push(Part::Expression(without_eof(ts))),
                            ),
                        }
                    } else {
                        Err(Seq::empty())
                    },
                }
            } else {
                template_body(s, j + 1, text.push('$'), parts)
            }
        } else if c == '\\' {
            if j + 1 < s.len() {
                template_body(s, j + 2, text + template_escape(s[j + 1]), parts)
            } else {
                Err("Unterminated template literal"@)
            }
        } else {
            template_body(s, j + 1, text.push(c), parts)
        }
    }
}

/// An operator made of the characters at `i`: its length and token.
pub open spec fn operator_at(s: Seq<char>, i: int) -> Option<(int, Tok)> {
    let c = s[i];
    let n1 = if i + 1 < s.len() { s[i + 1] } else { '\0' };
    let n2 = if i + 2 < s.len() { s[i + 2] } else { '\0' };
    let has1 = i + 1 < s.len();
    let has2 = i + 2 < s.len();
    if c == '+' {
        if has1 && n1 == '+' { Some((2, Tok::Increment)) }
        else if has1 && n1 == '=' { Some((2, Tok::PlusAssign)) }
        else { Some((1, Tok::Plus)) }
    } else if c == '-' {
        if has1 && n1 == '-' { Some((2, Tok::Decrement)) }
        else if has1 && n1 == '=' { Some((2, Tok::MinusAssign)) }
        else { Some((1, Tok::Minus)) }
    } else if c == '*' {
        if has1 && n1 == '=' { Some((2, Tok::StarAssign)) }
        else if has1 && n1 == '*' {
            if has2 && n2 == '=' { Some((3, Tok::PowerAssign)) } else { Some((2, Tok::Power)) }
        } else { Some((1, Tok::Star)) }
    } else if c == '%' {
        if has1 && n1 == '=' { Some((2, Tok::PercentAssign)) } else { Some((1, Tok::Percent)) }
    } else if c == '(' {
        Some((1, Tok::LeftParen))
    } else if c == ')' {
        Some((1, Tok::RightParen))
    } else if c == '{' {
        Some((1, Tok::LeftBrace))
    } else if c == '}' {
        Some((1, Tok::RightBrace))
    } else if c == '[' {
        Some((1, Tok::LeftBracket))
    } else if c == ']' {
        Some((1, Tok::RightBracket))
    } else if c == ';' {
        Some((1, Tok::Semicolon))
    } else if c == ':' {
        Some((1, Tok::Colon))
    } else if c == ',' {
        Some((1, Tok::Comma))
    } else if c == '?' {
        if has1 && n1 == '.' { Some((2, Tok::QuestionDot)) }
        else if has1 && n1 == '?' {
            if has2 && n2 == '=' { Some((3, Tok::NullishCoalescingAssign)) } else { Some((2, Tok::NullishCoalescing)) }
        } else { Some((1, Tok::Question)) }
    } else if c == '=' {
        if has1 && n1 == '=' {
            if has2 && n2 == '=' { Some((3, Tok::StrictEqual)) } else { Some((2, Tok::Equal)) }
        } else if has1 && n1 == '>' { Some((2, Tok::Arrow)) }
        else { Some((1, Tok::Assign)) }
    } else if c == '!' {
        if has1 && n1 == '=' {
            if has2 && n2 == '=' { Some((3, Tok::StrictNotEqual)) } else { Some((2, Tok::NotEqual)) }
        } else { Some((1, Tok::Not)) }
    } else if c == '<' {
        if has1 && n1 == '<' { Some((2, Tok::ShiftLeft)) }
        else if has1 && n1 == '=' { Some((2, Tok::LessEqual)) }
        else { Some((1, Tok::Less)) }
    } else if c == '>' {
        if has1 && n1 == '>' { Some((2, Tok::ShiftRight)) }
        else if has1 && n1 == '=' { Some((2, Tok::GreaterEqual)) }
        else { Some((1, Tok::Greater)) }
    } else if c == '&' {
        if has1 && n1 == '&' {
            if has2 && n2 == '=' { Some((3, Tok::AndAssign)) } else { Some((2, Tok::And)) }
        } else if has1 && n1 == '=' { Some((2, Tok::BitAndAssign)) }
        else { Some((1, Tok::BitAnd)) }
    } else if c == '|' {
        if has1 && n1 == '|' {
            if has2 && n2 == '=' { Some((3, Tok::OrAssign)) } else { Some((2, Tok::Or)) }
        } else if has1 && n1 == '=' { Some((2, Tok::BitOrAssign)) }
        else { Some((1, Tok::BitOr)) }
    } else if c == '^' {
        if has1 && n1 == '=' { Some((2, Tok::XorAssign)) } else { Some((1, Tok::BitXor)) }
    } else if c == '~' {
        Some((1, Tok::BitNot))
    } else {
        None
    }
}

/// One step of the lexer at position `i` (line `line`, column `col`): the
/// position, line and column after it and the tokens it yields, or an error message.
pub open spec fn scan(s: Seq<char>, i: int, line: int, col: int, regex_ok: bool) -> Result<(int, int, int, Seq<(Tok, Span)>), Seq<char>>
    decreases s.len() - i, 1nat,
{
    if i < 0 || i >= s.len() {
        Err(Seq::empty())
    } else {
        let c = s[i];
        let sp = span_at(s, i, line, col);
        if c == ' ' || c == '\t' || c == '\r' {
            Ok((i + 1, line, col + 1, Seq::empty()))
        } else if c == '\n' {
            Ok((i + 1, line + 1, 1, Seq::empty()))
        } else if c == '/' {
            if i + 1 < s.len() && s[i + 1] == '/' {
                let e = find_from(s, i + 1, '\n');
                Ok((e, line, col + (e - i), Seq::empty()))
            } else if i + 1 < s.len() && s[i + 1] == '*' {
                match block_comment(s, i + 2, line, col + 2) {
                    Some((p, l, k)) => Ok((p, l, k, Seq::empty())),
                    None => Err("Unterminated comment"@),
                }
            } else if regex_ok {
                match regex_body(s, i + 1, line, col + 1, false, 0) {
                    Some((p, l, k, pat)) => {
                        let f = alpha_end(s, p);
                        Ok((f, l, k + (f - p), seq![(Tok::Regex(pat + "/"@ + s.subrange(p, f)), sp)]))
                    },
                    None => Err("Unterminated regex"@),
                }
            } else if i + 1 < s.len() && s[i + 1] == '=' {
                Ok((i + 2, line, col + 2, seq![(Tok::SlashAssign, sp)]))
            } else {
                Ok((i + 1, line, col + 1, seq![(Tok::Slash, sp)]))
            }
        } else if is_digit(c) {
            let e = number_end(s, i);
            let num = s.subrange(i, e);
            if e < s.len() && s[e] == 'n' {
                Ok((e + 1, line, col + (e + 1 - i), seq![(Tok::BigInt(num), sp)]))
            } else {
                Ok((e, line, col + (e - i), seq![(Tok::Number(num), sp)]))
            }
        } else if is_ident_start(c) {
            let e = ident_end(s, i);
            Ok((e, line, col + (e - i), seq![(word_token(s.subrange(i, e)), sp)]))
        } else if c == '`' {
            match template_body(s, i + 1, Seq::empty(), Seq::empty()) {
                Ok((p, parts)) => Ok((p, line, col + 1, seq![(Tok::TemplateLiteral(parts), sp)])),
                Err(m) => Err(m),
            }
        } else if c == '"' || c == '\'' {
            match string_body(s, i + 1, line, col + 1, c) {
                Some((p, l, k, t)) => Ok((p, l, k, seq![(Tok::String(t), sp)])),
                None => Err("Unterminated string"@),
            }
        } else if c == '.' {
            if i + 1 < s.len() && s[i + 1] == '.' {
                if i + 2 < s.len() && s[i + 2] == '.' {
                    Ok((i + 3, line, col + 3, seq![(Tok::Ellipsis, sp)]))
                } else {
                    Ok((i + 2, line, col + 2, seq![(Tok::Dot, sp), (Tok::Dot, Span { line: line as usize, col: (col + 1) as usize, offset: (sp.offset + 1) as usize })]))
                }
            } else {
                Ok((i + 1, line, col + 1, seq![(Tok::Dot, sp)]))
            }
        } else {
            match operator_at(s, i) {
                Some((n, t)) => Ok((i + n, line, col + n, seq![(t, sp)])),
                None => Ok((i + 1, line, col + 1, Seq::empty())),
            }
        }
    }
}

/// The tokens of `s` from position `i`, after the tokens `toks`, ending with
/// the end-of-input token; or the message of the first error.
pub open spec fn lex(s: Seq<char>, i: int, line: int, col: int, toks: Seq<(Tok, Span)>) -> Result<Seq<(Tok, Span)>, Seq<char>>
    decreases s.len() - i, 2nat,
{
    if i < 0 || i >= s.len() {
        Ok(toks.push((Tok::Eof, span_at(s, s.len() as int, line, col))))
    } else {
        match scan(s, i, line, col, regex_allowed(toks)) {
            Err(m) => Err(m),
            Ok((p, l, k, new)) => if i < p <= s.len() {
                lex(s, p, l, k, toks + new)
            } else {
                Err(Seq::empty())
            },
        }
    }
}

/// The tokens of `s`, or the message of the first error.
pub open spec fn tokenize_spec(s: Seq<char>) -> Result<Seq<(Tok, Span)>, Seq<char>> {
    lex(s, 0, 1, 1, Seq::empty())
}

proof fn lemma_utf8_len_split(s: Seq<char>, a: int, b: int)
    requires
        0 <= a <= b <= s.len(),
    ensures
        utf8_len(s.subrange(0, b)) == utf8_len(s.subrange(0, a)) + utf8_len(s.subrange(a, b)),
    decreases b - a,
{
    if b > a {
        lemma_utf8_len_split(s, a, b - 1);
        assert(s.subrange(0, b).drop_last() == s.subrange(0, b - 1));
        assert(s.subrange(a, b).drop_last() == s.subrange(a, b - 1));
    } else {
        assert(s.subrange(a, b) =~= Seq::<char>::empty());
    }
}

proof fn lemma_utf8_len_bounds(s: Seq<char>)
    ensures
        s.len() <= utf8_len(s),
        forall|i: int| 0 <= i <= s.len() ==> #[trigger] utf8_len(s.subrange(0, i)) <= utf8_len(s),
    decreases s.len(),
{
    if s.len() > 0 {
        lemma_utf8_len_bounds(s.drop_last());
        assert forall|i: int| 0 <= i <= s.len() implies #[trigger] utf8_len(s.subrange(0, i)) <= utf8_len(s) by {
            if i < s.len() {
                assert(s.subrange(0, i) == s.drop_last().subrange(0, i));
            } else {
                assert(s.subrange(0, i) == s);
            }
        }
    }
}

/// The end of the run of digits (and dots where `dots`) from `j`.
fn digits_end_exec(cs: &Vec<char>, j: usize, dots: bool) -> (r: usize)
    requires
        j <= cs@.len(),
    ensures
        r == digits_end(cs@, j as int, dots),
        j <= r <= cs@.len(),
{
    let mut k = j;
    while k < cs.len() && (('0' <= cs[k] && cs[k] <= '9') || (dots && cs[k] == '.'))
        invariant
            j <= k <= cs@.len(),
            digits_end(cs@, k as int, dots) == digits_end(cs@, j as int, dots),
        decreases cs@.len() - k,
    {
        k += 1;
    }
    k
}

proof fn lemma_digits_end_bounds(s: Seq<char>, j: int, dots: bool)
    requires
        0 <= j <= s.len(),
    ensures
        j <= digits_end(s, j, dots) <= s.len(),
    decreases s.len() - j,
{
    if j < s.len() {
        lemma_digits_end_bounds(s, j + 1, dots);
    }
}

/// The end of the run of identifier characters from `j`.
fn ident_end_exec(cs: &Vec<char>, j: usize) -> (r: usize)
    requires
        j <= cs@.len(),
    ensures
        r == ident_end(cs@, j as int),
        j <= r <= cs@.len(),
{
    let mut k = j;
    while k < cs.len() && ident_char(cs[k])
        invariant
            j <= k <= cs@.len(),
            ident_end(cs@, k as int) == ident_end(cs@, j as int),
        decreases cs@.len() - k,
    {
        k += 1;
    }
    k
}

/// The end of the run of ASCII letters from `j`.
fn alpha_end_exec(cs: &Vec<char>, j: usize) -> (r: usize)
    requires
        j <= cs@.len(),
    ensures
        r == alpha_end(cs@, j as int),
        j <= r <= cs@.len(),
{
    let mut k = j;
    while k < cs.len() && (('a' <= cs[k] && cs[k] <= 'z') || ('A' <= cs[k] && cs[k] <= 'Z'))
        invariant
            j <= k <= cs@.len(),
            alpha_end(cs@, k as int) == alpha_end(cs@, j as int),
        decreases cs@.len() - k,
    {
        k += 1;
    }
    k
}

/// The end of the number that starts at `i`.
fn number_end_exec(cs: &Vec<char>, i: usize) -> (r: usize)
    requires
        i < cs@.len(),
        is_digit(cs@[i as int]),
    ensures
        r == number_end(cs@, i as int),
        i < r <= cs@.len(),
{
    let j1 = digits_end_exec(cs, i, true);
    proof {
        lemma_digits_end_bounds(cs@, i + 1, true);
    }
    if j1 < cs.len() && (cs[j1] == 'e' || cs[j1] == 'E') {
        let j2 = if j1 + 1 < cs.len() && (cs[j1 + 1] == '+' || cs[j1 + 1] == '-') {
            j1 + 2
        } else {
            j1 + 1
        };
        digits_end_exec(cs, j2, false)
    } else {
        j1
    }
}

/// A block comment from `j`, as `block_comment` says.
fn block_comment_exec(cs: &Vec<char>, j: usize, line: usize, col: usize) -> (r: Option<(usize, usize, usize)>)
    requires
        j <= cs@.len(),
        1 <= line <= j + 1,
        1 <= col <= j + 1,
        cs@.len() + 4 < usize::MAX,
    ensures
        match r {
            Some((p, l, k)) => {
                &&& block_comment(cs@, j as int, line as int, col as int) == Some((p as int, l as int, k as int))
                &&& j < p <= cs@.len()
                &&& 1 <= l <= p + 1
                &&& 1 <= k <= p + 1
            },
            None => block_comment(cs@, j as int, line as int, col as int) is None,
        },
{
    let mut k = j;
    let mut l = line;
    let mut c = col;
    while k < cs.len()
        invariant
            j <= k <= cs@.len(),
            cs@.len() + 4 < usize::MAX,
            1 <= line <= l <= k + 1,
            1 <= c <= k + 1,
            block_comment(cs@, k as int, l as int, c as int) == block_comment(cs@, j as int, line as int, col as int),
        decreases cs@.len() - k,
    {
        if cs[k] == '*' {
            if k + 1 < cs.len() && cs[k + 1] == '/' {
                return Some((k + 2, l, c + 2));
            }
            c += 1;
        } else if cs[k] == '\n' {
            l += 1;
            c = 1;
        } else {
            c += 1;
        }
        k += 1;
    }
    None
}

/// The body of a regex literal from `j`, as `regex_body` says.
fn regex_body_exec(cs: &Vec<char>, j: usize, line: usize, col: usize) -> (r: Option<(usize, usize, usize, String)>)
    requires
        j <= cs@.len(),
        1 <= line <= j + 1,
        1 <= col <= j + 1,
        cs@.len() + 4 < usize::MAX,
    ensures
        match r {
            Some((p, l, k, pat)) => {
                &&& regex_body(cs@, j as int, line as int, col as int, false, 0) == Some((p as int, l as int, k as int, pat@))
                &&& j < p <= cs@.len()
                &&& 1 <= l <= p + 1
                &&& 1 <= k <= p + 1
            },
            None => regex_body(cs@, j as int, line as int, col as int, false, 0) is None,
        },
{
    let mut k = j;
    let mut l = line;
    let mut c = col;
    let mut escaped = false;
    let mut depth: usize = 0;
    let mut pattern = String::new();
    while k < cs.len()
        invariant
            j <= k <= cs@.len(),
            cs@.len() + 4 < usize::MAX,
            1 <= line <= l <= k + 1,
            1 <= c <= k + 1,
            depth <= k,
            regex_body(cs@, j as int, line as int, col as int, false, 0) == match regex_body(cs@, k as int, l as int, c as int, escaped, depth as int) {
                Some((p, ll, kk, pat)) => Some((p, ll, kk, pattern@ + pat)),
                None => None,
            },
        decreases cs@.len() - k,
    {
        let ch = cs[k];
        let ghost before = pattern@;
        if ch == '\\' && !escaped {
            push_char(&mut pattern, '\\');
            escaped = true;
            c += 1;
        } else if ch == '[' && !escaped && depth == 0 {
            push_char(&mut pattern, '[');
            depth = 1;
            c += 1;
            escaped = false;
        } else if ch == ']' && !escaped && depth > 0 {
            push_char(&mut pattern, ']');
            depth -= 1;
            c += 1;
            escaped = false;
        } else if ch == '/' && !escaped && depth == 0 {
            assert(pattern@ + Seq::<char>::empty() == pattern@);
            return Some((k + 1, l, c + 1, pattern));
        } else if ch == '\n' {
            push_char(&mut pattern, '\n');
            l += 1;
            c = 1;
            escaped = false;
        } else {
            push_char(&mut pattern, ch);
            c += 1;
            escaped = false;
        }
        proof {
            assert forall|pat: Seq<char>| #![auto] before + (seq![ch] + pat) == pattern@ + pat by {
                assert(before + (seq![ch] + pat) =~= pattern@ + pat);
            }
        }
        k += 1;
    }
    None
}


/// Appends what the escape `\c` stands for in a string literal.
fn push_string_escape(out: &mut String, c: char)
    ensures
        final(out)@ == old(out)@ + string_escape(c),
{
    if c == 'n' {
        push_char(out, '\n');
    } else if c == 't' {
        push_char(out, '\t');
    } else if c == 'r' {
        push_char(out, '\r');
    } else if c == '\\' || c == '\'' || c == '"' || c == '`' {
        push_char(out, c);
    } else {
        push_char(out, '\\');
        push_char(out, c);
    }
    assert(final(out)@ =~= old(out)@ + string_escape(c));
}

/// The body of a string literal from `j`, as `string_body` says.
fn string_body_exec(cs: &Vec<char>, j: usize, line: usize, col: usize, quote: char) -> (r: Option<(usize, usize, usize, String)>)
    requires
        j <= cs@.len(),
        1 <= line <= j + 1,
        1 <= col <= j + 1,
        cs@.len() + 4 < usize::MAX,
    ensures
        match r {
            Some((p, l, k, t)) => {
                &&& string_body(cs@, j as int, line as int, col as int, quote) == Some((p as int, l as int, k as int, t@))
                &&& j < p <= cs@.len()
                &&& 1 <= l <= p + 1
                &&& 1 <= k <= p + 1
            },
            None => string_body(cs@, j as int, line as int, col as int, quote) is None,
        },
{
    let mut k = j;
    let mut l = line;
    let mut c = col;
    let mut text = String::new();
    while k < cs.len()
        invariant
            j <= k <= cs@.len(),
            cs@.len() + 4 < usize::MAX,
            1 <= line <= l <= k + 1,
            1 <= c <= k + 1,
            string_body(cs@, j as int, line as int, col as int, quote) == match string_body(cs@, k as int, l as int, c as int, quote) {
                Some((p, ll, kk, t)) => Some((p, ll, kk, text@ + t)),
                None => None,
            },
        decreases cs@.len() - k,
    {
        let ch = cs[k];
        let ghost before = text@;
        if ch == quote {
            assert(text@ + Seq::<char>::empty() == text@);
            return Some((k + 1, l, c + 1, text));
        } else if ch == '\\' {
            if k + 1 < cs.len() {
                push_string_escape(&mut text, cs[k + 1]);
                c += 2;
                proof {
                    assert forall|t: Seq<char>| #![auto] before + (string_escape(cs@[k + 1]) + t) == text@ + t by {
                        assert(before + (string_escape(cs@[k + 1]) + t) =~= text@ + t);
                    }
                }
                k += 2;
            } else {
                return None;
            }
        } else {
            if ch == '\n' {
                push_char(&mut text, '\n');
                l += 1;
                c = 1;
            } else {
                push_char(&mut text, ch);
                c += 1;
            }
            proof {
                assert forall|t: Seq<char>| #![auto] before + (seq![ch] + t) == text@ + t by {
                    assert(before + (seq![ch] + t) =~= text@ + t);
                }
            }
            k += 1;
        }
    }
    None
}

/// The position of the `}` that closes a `${` expression, as `brace_end` says.
fn brace_end_exec(cs: &Vec<char>, k0: usize) -> (r: Option<usize>)
    requires
        k0 <= cs@.len(),
        cs@.len() < usize::MAX,
    ensures
        match r {
            Some(e) => brace_end(cs@, k0 as int, 1) == Some(e as int) && k0 <= e < cs@.len(),
            None => brace_end(cs@, k0 as int, 1) is None,
        },
{
    let mut k = k0;
    let mut depth: usize = 1;
    while k < cs.len()
        invariant
            k0 <= k <= cs@.len(),
            cs@.len() < usize::MAX,
            1 <= depth <= k - k0 + 1,
            brace_end(cs@, k as int, depth as int) == brace_end(cs@, k0 as int, 1),
        decreases cs@.len() - k,
    {
        if cs[k] == '{' {
            depth += 1;
        } else if cs[k] == '}' {
            if depth == 1 {
                return Some(k);
            }
            depth -= 1;
        }
        k += 1;
    }
    None
}

/// The operator at `i`, as `operator_at` says.
fn operator_at_exec(cs: &Vec<char>, i: usize) -> (r: Option<(usize, Token)>)
    requires
        i < cs@.len(),
        cs@.len() < usize::MAX,
    ensures
        match r {
            Some((n, t)) => operator_at(cs@, i as int) == Some((n as int, token_view(t))) && 1 <= n <= 3
                && i + n <= cs@.len(),
            None => operator_at(cs@, i as int) is None,
        },
{
    let c = cs[i];
    let has1 = i + 1 < cs.len();
    let has2 = i + 2 < cs.len();
    let n1 = if has1 { cs[i + 1] } else { '\0' };
    let n2 = if has2 { cs[i + 2] } else { '\0' };
    if c == '+' {
        if has1 && n1 == '+' { Some((2, Token::Increment)) }
        else if has1 && n1 == '=' { Some((2, Token::PlusAssign)) }
        else { Some((1, Token::Plus)) }
    } else if c == '-' {
        if has1 && n1 == '-' { Some((2, Token::Decrement)) }
        else if has1 && n1 == '=' { Some((2, Token::MinusAssign)) }
        else { Some((1, Token::Minus)) }
    } else if c == '*' {
        if has1 && n1 == '=' { Some((2, Token::StarAssign)) }
        else if has1 && n1 == '*' {
            if has2 && n2 == '=' { Some((3, Token::PowerAssign)) } else { Some((2, Token::Power)) }
        } else { Some((1, Token::Star)) }
    } else if c == '%' {
        if has1 && n1 == '=' { Some((2, Token::PercentAssign)) } else { Some((1, Token::Percent)) }
    } else if c == '(' {
        Some((1, Token::LeftParen))
    } else if c == ')' {
        Some((1, Token::RightParen))
    } else if c == '{' {
        Some((1, Token::LeftBrace))
    } else if c == '}' {
        Some((1, Token::RightBrace))
    } else if c == '[' {
        Some((1, Token::LeftBracket))
    } else if c == ']' {
        Some((1, Token::RightBracket))
    } else if c == ';' {
        Some((1, Token::Semicolon))
    } else if c == ':' {
        Some((1, Token::Colon))
    } else if c == ',' {
        Some((1, Token::Comma))
    } else if c == '?' {
        if has1 && n1 == '.' { Some((2, Token::QuestionDot)) }
        else if has1 && n1 == '?' {
            if has2 && n2 == '=' { Some((3, Token::NullishCoalescingAssign)) } else { Some((2, Token::NullishCoalescing)) }
        } else { Some((1, Token::Question)) }
    } else if c == '=' {
        if has1 && n1 == '=' {
            if has2 && n2 == '=' { Some((3, Token::StrictEqual)) } else { Some((2, Token::Equal)) }
        } else if has1 && n1 == '>' { Some((2, Token::Arrow)) }
        else { Some((1, Token::Assign)) }
    } else if c == '!' {
        if has1 && n1 == '=' {
            if has2 && n2 == '=' { Some((3, Token::StrictNotEqual)) } else { Some((2, Token::NotEqual)) }
        } else { Some((1, Token::Not)) }
    } else if c == '<' {
        if has1 && n1 == '<' { Some((2, Token::ShiftLeft)) }
        else if has1 && n1 == '=' { Some((2, Token::LessEqual)) }
        else { Some((1, Token::Less)) }
    } else if c == '>' {
        if has1 && n1 == '>' { Some((2, Token::ShiftRight)) }
        else if has1 && n1 == '=' { Some((2, Token::GreaterEqual)) }
        else { Some((1, Token::Greater)) }
    } else if c == '&' {
        if has1 && n1 == '&' {
            if has2 && n2 == '=' { Some((3, Token::AndAssign)) } else { Some((2, Token::And)) }
        } else if has1 && n1 == '=' { Some((2, Token::BitAndAssign)) }
        else { Some((1, Token::BitAnd)) }
    } else if c == '|' {
        if has1 && n1 == '|' {
            if has2 && n2 == '=' { Some((3, Token::OrAssign)) } else { Some((2, Token::Or)) }
        } else if has1 && n1 == '=' { Some((2, Token::BitOrAssign)) }
        else { Some((1, Token::BitOr)) }
    } else if c == '^' {
        if has1 && n1 == '=' { Some((2, Token::XorAssign)) } else { Some((1, Token::BitXor)) }
    } else if c == '~' {
        Some((1, Token::BitNot))
    } else {
        None
    }
}

/// The token for the word `w`.
fn word_token_exec(w: String) -> (t: Token)
    ensures
        token_view(t) == word_token(w@),
{
    if str_eq(w.as_str(), "const") {
        Token::Const
    } else if str_eq(w.as_str(), "let") {
        Token::Let
    } else if str_eq(w.as_str(), "var") {
        Token::Var
    } else if str_eq(w.as_str(), "function") {
        Token::Function
    } else if str_eq(w.as_str(), "return") {
        Token::Return
    } else if str_eq(w.as_str(), "if") {
        Token::If
    } else if str_eq(w.as_str(), "else") {
        Token::Else
    } else if str_eq(w.as_str(), "while") {
        Token::While
    } else if str_eq(w.as_str(), "for") {
        Token::For
    } else if str_eq(w.as_str(), "do") {
        Token::Do
    } else if str_eq(w.as_str(), "switch") {
        Token::Switch
    } else if str_eq(w.as_str(), "case") {
        Token::Case
    } else if str_eq(w.as_str(), "break") {
        Token::Break
    } else if str_eq(w.as_str(), "continue") {
        Token::Continue
    } else if str_eq(w.as_str(), "new") {
        Token::New
    } else if str_eq(w.as_str(), "void") {
        Token::Void
    } else if str_eq(w.as_str(), "delete") {
        Token::Delete
    } else if str_eq(w.as_str(), "typeof") {
        Token::Typeof
    } else if str_eq(w.as_str(), "instanceof") {
        Token::Instanceof
    } else if str_eq(w.as_str(), "in") {
        Token::In
    } else if str_eq(w.as_str(), "of") {
        Token::Of
    } else if str_eq(w.as_str(), "class") {
        Token::Class
    } else if str_eq(w.as_str(), "extends") {
        Token::Extends
    } else if str_eq(w.as_str(), "super") {
        Token::Super
    } else if str_eq(w.as_str(), "this") {
        Token::This
    } else if str_eq(w.as_str(), "import") {
        Token::Import
    } else if str_eq(w.as_str(), "export") {
        Token::Export
    } else if str_eq(w.as_str(), "default") {
        Token::Default
    } else if str_eq(w.as_str(), "from") {
        Token::From
    } else if str_eq(w.as_str(), "as") {
        Token::As
    } else if str_eq(w.as_str(), "interface") {
        Token::Interface
    } else if str_eq(w.as_str(), "enum") {
        Token::Enum
    } else if str_eq(w.as_str(), "async") {
        Token::Async
    } else if str_eq(w.as_str(), "await") {
        Token::Await
    } else if str_eq(w.as_str(), "yield") {
        Token::Yield
    } else if str_eq(w.as_str(), "try") {
        Token::Try
    } else if str_eq(w.as_str(), "catch") {
        Token::Catch
    } else if str_eq(w.as_str(), "finally") {
        Token::Finally
    } else if str_eq(w.as_str(), "throw") {
        Token::Throw
    } else if str_eq(w.as_str(), "static") {
        Token::Static
    } else if str_eq(w.as_str(), "public") {
        Token::Public
    } else if str_eq(w.as_str(), "private") {
        Token::Private
    } else if str_eq(w.as_str(), "protected") {
        Token::Protected
    } else if str_eq(w.as_str(), "constructor") {
        Token::Constructor
    } else if str_eq(w.as_str(), "get") {
        Token::Get
    } else if str_eq(w.as_str(), "set") {
        Token::SetKeyword
    } else {
        Token::Identifier(w)
    }
}

/// No token of `ts` is the end-of-input token.
pub open spec fn no_eof(ts: Seq<(Tok, Span)>) -> bool {
    forall|k: int| 0 <= k < ts.len() ==> !((#[trigger] ts[k]).0 is Eof)
}

pub(crate) proof fn lemma_tokens_view_len(ts: Seq<SpannedToken>)
    ensures
        tokens_view(ts).len() == ts.len(),
    decreases ts.len(),
{
    if ts.len() > 0 {
        lemma_tokens_view_len(ts.drop_last());
    }
}

proof fn lemma_without_eof(v: Seq<(Tok, Span)>)
    requires
        no_eof(v),
    ensures
        without_eof(v) == v,
    decreases v.len(),
{
    if v.len() > 0 {
        let w = v.drop_last();
        assert(no_eof(w)) by {
            assert forall|k: int| 0 <= k < w.len() implies !((#[trigger] w[k]).0 is Eof) by {
                assert(w[k] == v[k]);
            }
        }
        lemma_without_eof(w);
        assert(!(v[v.len() - 1].0 is Eof));
        assert(w.push(v.last()) =~= v);
    }
}

proof fn lemma_word_token_not_eof(w: Seq<char>)
    ensures
        !(word_token(w) is Eof),
{
}

/// Appends a token with its span.
fn push_token(tokens: &mut Vec<SpannedToken>, token: Token, span: Span)
    ensures
        tokens_view(final(tokens)@) == tokens_view(old(tokens)@).push((token_view(token), span)),
{
    let ghost t = token_view(token);
    tokens.push(SpannedToken { token, span });
    assert(final(tokens)@.drop_last() == old(tokens)@);
}

/// Whether a token ends an expression, as `ends_expression` says.
fn ends_expression_exec(t: &Token) -> (r: bool)
    ensures
        r == ends_expression(token_view(*t)),
{
    match t {
        Token::Number(_) | Token::BigInt(_) | Token::String(_) | Token::Regex(_)
        | Token::Identifier(_) | Token::RightParen | Token::RightBracket | Token::RightBrace
        | Token::Increment | Token::Decrement | Token::This => true,
        _ => false,
    }
}

/// A parse error with the message `msg`.
fn lex_error(msg: &str) -> (e: Error)
    ensures
        e.kind is ParseError,
        e.kind.msg() == msg@,
        e.span is None,
        e.file is None,
{
    Error::ParseError(String::from_str(msg))
}

/// Whether `e` is the parse error with message `m`.
pub open spec fn is_lex_error(e: Error, m: Seq<char>) -> bool {
    e.kind is ParseError && e.kind.msg() == m && e.span is None && e.file is None
}

/// The first position at or after `from` where `cs` holds `c`, or its length.
fn find_char_from(cs: &Vec<char>, from: usize, c: char) -> (r: usize)
    requires
        from <= cs@.len(),
    ensures
        r == find_from(cs@, from as int, c),
        from <= r <= cs@.len(),
{
    let mut j = from;
    while j < cs.len() && cs[j] != c
        invariant
            from <= j <= cs@.len(),
            find_from(cs@, j as int, c) == find_from(cs@, from as int, c),
        decreases cs@.len() - j,
    {
        j += 1;
    }
    j
}

/// A vector holding `cs[from..to]`.
fn copy_chars(cs: &Vec<char>, from: usize, to: usize) -> (r: Vec<char>)
    requires
        from <= to <= cs@.len(),
    ensures
        r@ == cs@.subrange(from as int, to as int),
{
    let mut r: Vec<char> = Vec::new();
    let mut i = from;
    while i < to
        invariant
            from <= i <= to <= cs@.len(),
            r@ == cs@.subrange(from as int, i as int),
        decreases to - i,
    {
        r.push(cs[i]);
        assert(cs@.subrange(from as int, i + 1) == cs@.subrange(from as int, i as int).push(cs@[i as int]));
        i += 1;
    }
    r
}

/// Adds the pending text to the parts, where there is any, and empties it.
fn flush_text_exec(parts: &mut Vec<TemplatePart>, text: String)
    ensures
        parts_view(final(parts)@) == flush_text(parts_view(old(parts)@), text@),
{
    let ghost t = text@;
    let ghost before = parts@;
    if text.unicode_len() > 0 {
        parts.push(TemplatePart::Text(text));
        assert(parts@.drop_last() == before);
        assert(part_view(parts@.last()) == Part::Text(t));
        assert(parts_view(parts@) == parts_view(before).push(Part::Text(t)));
    }
}

/// Appends what the escape `\c` stands for in a template literal.
fn push_template_escape(out: &mut String, c: char)
    ensures
        final(out)@ == old(out)@ + template_escape(c),
{
    if c == '$' {
        push_char(out, '$');
        assert(final(out)@ =~= old(out)@ + template_escape(c));
    } else {
        push_string_escape(out, c);
    }
}

/// A template literal from `j0`, as `template_body` says.
fn template_body_exec(cs: &Vec<char>, j0: usize) -> (r: Result<(usize, Vec<TemplatePart>), Error>)
    requires
        j0 <= cs@.len(),
        utf8_len(cs@) + 4 < usize::MAX,
    ensures
        match r {
            Ok((p, parts)) => template_body(cs@, j0 as int, Seq::empty(), Seq::empty()) == Ok::<(int, Seq<Part>), Seq<char>>((p as int, parts_view(parts@)))
                && j0 < p <= cs@.len(),
            Err(e) => template_body(cs@, j0 as int, Seq::empty(), Seq::empty()) matches Err(m) && is_lex_error(e, m),
        },
    decreases cs@.len() - j0, 0nat,
{
    proof {
        lemma_utf8_len_bounds(cs@);
    }
    let mut j = j0;
    let mut text = String::new();
    let mut parts: Vec<TemplatePart> = Vec::new();
    assert(parts_view(parts@) =~= Seq::<Part>::empty());
    loop
        invariant
            j0 <= j <= cs@.len(),
            cs@.len() <= utf8_len(cs@),
            utf8_len(cs@) + 4 < usize::MAX,
            template_body(cs@, j0 as int, Seq::empty(), Seq::empty()) == template_body(cs@, j as int, text@, parts_view(parts@)),
        decreases cs@.len() - j,
    {
        if j >= cs.len() {
            return Err(lex_error("Unterminated template literal"));
        }
        let c = cs[j];
        if c == '`' {
            flush_text_exec(&mut parts, text);
            return Ok((j + 1, parts));
        } else if c == '$' {
            if j + 1 < cs.len() && cs[j + 1] == '{' {
                match brace_end_exec(cs, j + 2) {
                    None => {
                        return Err(lex_error("Unterminated template expression"));
                    },
                    Some(e) => {
                        let expr = copy_chars(cs, j + 2, e);
                        proof {
                            lemma_utf8_len_bounds(cs@);
                            lemma_utf8_len_split(cs@, j + 2, e as int);
                            assert(utf8_len(cs@.subrange(0, e as int)) <= utf8_len(cs@));
                        }
                        match tokenize_chars(&expr) {
                            Err(err) => {
                                return Err(err);
                            },
                            Ok(mut inner) => {
                                let ghost iv = tokens_view(inner@);
                                proof {
                                    lemma_tokens_view_len(inner@);
                                    lemma_without_eof(iv.drop_last());
                                    assert(iv.drop_last().push(iv.last()) =~= iv);
                                }
                                inner.pop();
                                assert(tokens_view(inner@) == iv.drop_last());
                                assert(without_eof(iv) == iv.drop_last());
                                let ghost before = parts_view(parts@);
                                let ghost tx = text@;
                                assert(template_body(cs@, j as int, tx, before) == template_body(
                                    cs@,
                                    e + 1,
                                    Seq::empty(),
                                    flush_text(before, tx).push(Part::Expression(iv.drop_last())),
                                ));
                                let t = text;
                                text = String::new();
                                flush_text_exec(&mut parts, t);
                                let ghost mid = parts@;
                                parts.push(TemplatePart::Expression(inner));
                                assert(parts@.drop_last() == mid);
                                assert(part_view(parts@.last()) == Part::Expression(iv.drop_last()));
                                assert(parts_view(parts@) == flush_text(before, tx).push(Part::Expression(iv.drop_last())));
                                j = e + 1;
                            },
                        }
                    },
                }
            } else {
                push_char(&mut text, '$');
                j += 1;
            }
        } else if c == '\\' {
            if j + 1 < cs.len() {
                push_template_escape(&mut text, cs[j + 1]);
                j += 2;
            } else {
                return Err(lex_error("Unterminated template literal"));
            }
        } else {
            push_char(&mut text, c);
            j += 1;
        }
    }
}

/// An identifier or keyword from `i`: its token is appended to `tokens`, and
/// its end returned.
fn scan_word(cs: &Vec<char>, i: usize, span: Span, tokens: &mut Vec<SpannedToken>) -> (e: usize)
    requires
        i < cs@.len() < usize::MAX,
        is_ident_start(cs@[i as int]),
    ensures
        e == ident_end(cs@, i as int),
        i < e <= cs@.len(),
        tokens_view(final(tokens)@) == tokens_view(old(tokens)@) + seq![(word_token(cs@.subrange(i as int, e as int)), span)],
        !(word_token(cs@.subrange(i as int, e as int)) is Eof),
{
    let ghost old_tv = tokens_view(tokens@);
    let e = ident_end_exec(cs, i + 1);
    assert(ident_end(cs@, i as int) == ident_end(cs@, i + 1));
    let word = string_of_range(cs, i, e);
    let ghost wv = word@;
    let tok = word_token_exec(word);
    proof {
        lemma_word_token_not_eof(wv);
    }
    let ghost tv = token_view(tok);
    push_token(tokens, tok, span);
    assert(tokens_view(tokens@) =~= old_tv + seq![(tv, span)]);
    e
}

/// One step of the lexer at `i`, as `scan` says: the tokens it yields are
/// appended to `tokens`.
fn scan_exec(cs: &Vec<char>, i: usize, line: usize, col: usize, off: usize, regex_ok: bool, tokens: &mut Vec<SpannedToken>) -> (r: Result<(usize, usize, usize), Error>)
    requires
        i < cs@.len(),
        1 <= line <= i + 1,
        1 <= col <= i + 1,
        off == utf8_len(cs@.subrange(0, i as int)),
        utf8_len(cs@) + 4 < usize::MAX,
    ensures
        match r {
            Ok((p, l, k)) => scan(cs@, i as int, line as int, col as int, regex_ok) matches Ok((p2, l2, k2, new)) && p2 == p
                && l2 == l && k2 == k && tokens_view(final(tokens)@) == tokens_view(old(tokens)@) + new
                && no_eof(new) && i < p <= cs@.len() && 1 <= l <= p + 1 && 1 <= k <= p + 1,
            Err(e) => scan(cs@, i as int, line as int, col as int, regex_ok) matches Err(m) && is_lex_error(e, m),
        },
    decreases cs@.len() - i, 1nat,
{
    proof {
        lemma_utf8_len_bounds(cs@);
        lemma_utf8_len_split(cs@, i as int, i + 1);
        assert(utf8_len(cs@.subrange(0, i + 1)) <= utf8_len(cs@));
        assert(cs@.subrange(i as int, i + 1).drop_last() =~= Seq::<char>::empty());
    }
    let ghost s = cs@;
    let ghost old_tv = tokens_view(tokens@);
    let ghost sp = span_at(s, i as int, line as int, col as int);
    let span = Span::new(line, col, off);
    assert(span == sp);
    let c = cs[i];
    let len = cs.len();
    if c == ' ' || c == '\t' || c == '\r' {
        assert(old_tv + Seq::<(Tok, Span)>::empty() =~= old_tv);
        return Ok((i + 1, line, col + 1));
    } else if c == '\n' {
        assert(old_tv + Seq::<(Tok, Span)>::empty() =~= old_tv);
        return Ok((i + 1, line + 1, 1));
    } else if c == '/' {
        if i + 1 < len && cs[i + 1] == '/' {
            let e = find_char_from(cs, i + 1, '\n');
            assert(old_tv + Seq::<(Tok, Span)>::empty() =~= old_tv);
            return Ok((e, line, col + (e - i)));
        } else if i + 1 < len && cs[i + 1] == '*' {
            match block_comment_exec(cs, i + 2, line, col + 2) {
                Some((p, l, k)) => {
                    assert(old_tv + Seq::<(Tok, Span)>::empty() =~= old_tv);
                    return Ok((p, l, k));
                },
                None => {
                    return Err(lex_error("Unterminated comment"));
                },
            }
        } else if regex_ok {
            match regex_body_exec(cs, i + 1, line, col + 1) {
                Some((p, l, k, pat)) => {
                    let f = alpha_end_exec(cs, p);
                    let mut body = pat;
                    body.append("/");
                    crate::text::push_range(&mut body, cs, p, f);
                    let ghost tv = body@;
                    push_token(tokens, Token::Regex(body), span);
                    assert(tokens_view(tokens@) =~= old_tv + seq![(Tok::Regex(tv), sp)]);
                    return Ok((f, l, k + (f - p)));
                },
                None => {
                    return Err(lex_error("Unterminated regex"));
                },
            }
        } else if i + 1 < len && cs[i + 1] == '=' {
            push_token(tokens, Token::SlashAssign, span);
            assert(tokens_view(tokens@) =~= old_tv + seq![(Tok::SlashAssign, sp)]);
            return Ok((i + 2, line, col + 2));
        } else {
            push_token(tokens, Token::Slash, span);
            assert(tokens_view(tokens@) =~= old_tv + seq![(Tok::Slash, sp)]);
            return Ok((i + 1, line, col + 1));
        }
    } else if '0' <= c && c <= '9' {
        let e = number_end_exec(cs, i);
        proof {
            assert(digits_end(s, i as int, true) == digits_end(s, i + 1, true));
            reveal_with_fuel(digits_end, 2);
        }
        let num = string_of_range(cs, i, e);
        let ghost nv = num@;
        if e < len && cs[e] == 'n' {
            push_token(tokens, Token::BigInt(num), span);
            assert(tokens_view(tokens@) =~= old_tv + seq![(Tok::BigInt(nv), sp)]);
            return Ok((e + 1, line, col + (e + 1 - i)));
        } else {
            push_token(tokens, Token::Number(num), span);
            assert(tokens_view(tokens@) =~= old_tv + seq![(Tok::Number(nv), sp)]);
            return Ok((e, line, col + (e - i)));
        }
    } else if ('a' <= c && c <= 'z') || ('A' <= c && c <= 'Z') || c == '_' || c == '$' {
        let e = scan_word(cs, i, span, tokens);
        let ghost new = seq![(word_token(s.subrange(i as int, e as int)), sp)];
        assert(no_eof(new));
        assert(is_ident_start(c));
        assert(!is_digit(c));
        assert(scan(s, i as int, line as int, col as int, regex_ok) == Ok::<(int, int, int, Seq<(Tok, Span)>), Seq<char>>(
            (e as int, line as int, col + (e - i), new),
        ));
        assert(tokens_view(tokens@) == old_tv + new);
        assert(1 <= col + (e - i) <= e + 1);
        return Ok((e, line, col + (e - i)));
    } else if c == '`' {
        match template_body_exec(cs, i + 1) {
            Ok((p, parts)) => {
                let ghost pv = parts_view(parts@);
                push_token(tokens, Token::TemplateLiteral(parts), span);
                assert(tokens_view(tokens@) =~= old_tv + seq![(Tok::TemplateLiteral(pv), sp)]);
                return Ok((p, line, col + 1));
            },
            Err(e) => {
                return Err(e);
            },
        }
    } else if c == '"' || c == '\'' {
        match string_body_exec(cs, i + 1, line, col + 1, c) {
            Some((p, l, k, t)) => {
                let ghost tv = t@;
                push_token(tokens, Token::String(t), span);
                assert(tokens_view(tokens@) =~= old_tv + seq![(Tok::String(tv), sp)]);
                return Ok((p, l, k));
            },
            None => {
                return Err(lex_error("Unterminated string"));
            },
        }
    } else if c == '.' {
        if i + 1 < len && cs[i + 1] == '.' {
            if i + 2 < len && cs[i + 2] == '.' {
                push_token(tokens, Token::Ellipsis, span);
                assert(tokens_view(tokens@) =~= old_tv + seq![(Tok::Ellipsis, sp)]);
                return Ok((i + 3, line, col + 3));
            } else {
                push_token(tokens, Token::Dot, span);
                let second = Span::new(line, col + 1, off + 1);
                push_token(tokens, Token::Dot, second);
                assert(tokens_view(tokens@) =~= old_tv + seq![(Tok::Dot, sp), (Tok::Dot, second)]);
                return Ok((i + 2, line, col + 2));
            }
        } else {
            push_token(tokens, Token::Dot, span);
            assert(tokens_view(tokens@) =~= old_tv + seq![(Tok::Dot, sp)]);
            return Ok((i + 1, line, col + 1));
        }
    } else {
        match operator_at_exec(cs, i) {
            Some((n, t)) => {
                let ghost tv = token_view(t);
                push_token(tokens, t, span);
                assert(tokens_view(tokens@) =~= old_tv + seq![(tv, sp)]);
                return Ok((i + n, line, col + n));
            },
            None => {
                assert(old_tv + Seq::<(Tok, Span)>::empty() =~= old_tv);
                return Ok((i + 1, line, col + 1));
            },
        }
    }
}

/// The tokens of `cs`, as `tokenize_spec` says; the last token is the only
/// end-of-input token.
fn tokenize_chars(cs: &Vec<char>) -> (r: Result<Vec<SpannedToken>, Error>)
    requires
        utf8_len(cs@) + 4 < usize::MAX,
    ensures
        match r {
            Ok(ts) => tokenize_spec(cs@) == Ok::<Seq<(Tok, Span)>, Seq<char>>(tokens_view(ts@))
                && tokens_view(ts@).len() > 0 && tokens_view(ts@).last().0 is Eof
                && no_eof(tokens_view(ts@).drop_last()),
            Err(e) => tokenize_spec(cs@) matches Err(m) && is_lex_error(e, m),
        },
    decreases cs@.len(), 2nat,
{
    proof {
        lemma_utf8_len_bounds(cs@);
    }
    let mut tokens: Vec<SpannedToken> = Vec::new();
    let mut i: usize = 0;
    let mut line: usize = 1;
    let mut col: usize = 1;
    let mut off: usize = 0;
    assert(cs@.subrange(0, 0) =~= Seq::<char>::empty());
    assert(tokens_view(tokens@) =~= Seq::<(Tok, Span)>::empty());
    while i < cs.len()
        invariant
            i <= cs@.len(),
            cs@.len() <= utf8_len(cs@),
            utf8_len(cs@) + 4 < usize::MAX,
            1 <= line <= i + 1,
            1 <= col <= i + 1,
            off == utf8_len(cs@.subrange(0, i as int)),
            no_eof(tokens_view(tokens@)),
            lex(cs@, i as int, line as int, col as int, tokens_view(tokens@)) == tokenize_spec(cs@),
        decreases cs@.len() - i,
    {
        let ghost tv = tokens_view(tokens@);
        proof {
            lemma_tokens_view_len(tokens@);
        }
        let regex_ok = tokens.len() == 0 || !ends_expression_exec(&tokens[tokens.len() - 1].token);
        assert(regex_ok == regex_allowed(tv));
        match scan_exec(cs, i, line, col, off, regex_ok, &mut tokens) {
            Err(e) => {
                return Err(e);
            },
            Ok((p, l, k)) => {
                proof {
                    lemma_utf8_len_bounds(cs@);
                    lemma_utf8_len_split(cs@, i as int, p as int);
                    assert(utf8_len(cs@.subrange(0, p as int)) <= utf8_len(cs@));
                    let new = tokens_view(tokens@).subrange(tv.len() as int, tokens_view(tokens@).len() as int);
                    assert forall|q: int| 0 <= q < tokens_view(tokens@).len() implies !((#[trigger] tokens_view(tokens@)[q]).0 is Eof) by {
                        if q >= tv.len() {
                            assert(tokens_view(tokens@)[q] == new[q - tv.len()]);
                        }
                    }
                }
                let bytes = utf8_len_range(cs, i, p);
                off = off + bytes as usize;
                i = p;
                line = l;
                col = k;
            },
        }
    }
    let ghost before = tokens_view(tokens@);
    proof {
        assert(cs@.subrange(0, cs@.len() as int) == cs@);
    }
    push_token(&mut tokens, Token::Eof, Span::new(line, col, off));
    assert(tokens_view(tokens@).drop_last() == before);
    Ok(tokens)
}

/// Splits `source` into tokens, each with the line, column and byte offset
/// where it starts, ending with an end-of-input token; a parse error for an
/// unterminated comment, regex, string, template literal or template expression.
pub fn tokenize(source: &str) -> (r: Result<Vec<SpannedToken>, Error>)
    requires
        utf8_len(source@) + 4 < usize::MAX,
    ensures
        match r {
            Ok(ts) => tokenize_spec(source@) == Ok::<Seq<(Tok, Span)>, Seq<char>>(tokens_view(ts@))
                && tokens_view(ts@).len() > 0 && tokens_view(ts@).last().0 is Eof
                && no_eof(tokens_view(ts@).drop_last()),
            Err(e) => tokenize_spec(source@) matches Err(m) && is_lex_error(e, m),
        },
{
    let cs = chars_of(source);
    tokenize_chars(&cs)
}


/// Escapes in a string literal: `\n`, `\t` and `\r` stand for a line feed, a
/// tab and a carriage return; `\\`, `\'`, `\"` and `` \` `` for the character
/// after the backslash; any other escape for itself, backslash kept. The text
/// of a string body that starts with an escape is what the escape stands
/// for, then the text of the body after it, which also decides where the
/// literal ends.
pub proof fn law_string_escapes(s: Seq<char>, j: int, line: int, col: int, quote: char)
    requires
        0 <= j,
        j + 1 < s.len(),
        s[j] == '\\',
        quote != '\\',
    ensures
        match string_body(s, j + 2, line, col + 2, quote) {
            None => string_body(s, j, line, col, quote) is None,
            Some((p, l, k, t)) => string_body(s, j, line, col, quote) == Some((p, l, k, (
                if s[j + 1] == 'n' {
                    seq!['\n']
                } else if s[j + 1] == 't' {
                    seq!['\t']
                } else if s[j + 1] == 'r' {
                    seq!['\r']
                } else if s[j + 1] == '\\' || s[j + 1] == '\'' || s[j + 1] == '"' || s[j + 1] == '`' {
                    seq![s[j + 1]]
                } else {
                    seq!['\\', s[j + 1]]
                }
            ) + t)),
        },
{
}

/// How an operator or punctuation token is written.
pub open spec fn operator_text(t: Tok) -> Seq<char> {
    match t {
        Tok::Increment => seq!['+', '+'],
        Tok::PlusAssign => seq!['+', '='],
        Tok::Plus => seq!['+'],
        Tok::Decrement => seq!['-', '-'],
        Tok::MinusAssign => seq!['-', '='],
        Tok::Minus => seq!['-'],
        Tok::StarAssign => seq!['*', '='],
        Tok::PowerAssign => seq!['*', '*', '='],
        Tok::Power => seq!['*', '*'],
        Tok::Star => seq!['*'],
        Tok::PercentAssign => seq!['%', '='],
        Tok::Percent => seq!['%'],
        Tok::LeftParen => seq!['('],
        Tok::RightParen => seq![')'],
        Tok::LeftBrace => seq!['{'],
        Tok::RightBrace => seq!['}'],
        Tok::LeftBracket => seq!['['],
        Tok::RightBracket => seq![']'],
        Tok::Semicolon => seq![';'],
        Tok::Colon => seq![':'],
        Tok::Comma => seq![','],
        Tok::QuestionDot => seq!['?', '.'],
        Tok::NullishCoalescingAssign => seq!['?', '?', '='],
        Tok::NullishCoalescing => seq!['?', '?'],
        Tok::Question => seq!['?'],
        Tok::StrictEqual => seq!['=', '=', '='],
        Tok::Equal => seq!['=', '='],
        Tok::Arrow => seq!['=', '>'],
        Tok::Assign => seq!['='],
        Tok::StrictNotEqual => seq!['!', '=', '='],
        Tok::NotEqual => seq!['!', '='],
        Tok::Not => seq!['!'],
        Tok::ShiftLeft => seq!['<', '<'],
        Tok::LessEqual => seq!['<', '='],
        Tok::Less => seq!['<'],
        Tok::ShiftRight => seq!['>', '>'],
        Tok::GreaterEqual => seq!['>', '='],
        Tok::Greater => seq!['>'],
        Tok::AndAssign => seq!['&', '&', '='],
        Tok::And => seq!['&', '&'],
        Tok::BitAndAssign => seq!['&', '='],
        Tok::BitAnd => seq!['&'],
        Tok::OrAssign => seq!['|', '|', '='],
        Tok::Or => seq!['|', '|'],
        Tok::BitOrAssign => seq!['|', '='],
        Tok::BitOr => seq!['|'],
        Tok::XorAssign => seq!['^', '='],
        Tok::BitXor => seq!['^'],
        Tok::BitNot => seq!['~'],
        _ => Seq::empty(),
    }
}

/// An operator is read from exactly the characters that spell it: where the
/// lexer finds an operator of length `n` at `i`, the `n` characters there
/// are the way its token is written (`<=` is `LessEqual`, `>=` is
/// `GreaterEqual`, `===` is `StrictEqual`, ...).
pub proof fn law_operator_spelling(s: Seq<char>, i: int)
    requires
        0 <= i < s.len(),
    ensures
        operator_at(s, i) matches Some((n, t)) ==> (1 <= n && i + n <= s.len() && s.subrange(i, i + n) == operator_text(t)),
{
    if let Some((n, t)) = operator_at(s, i) {
        assert(s.subrange(i, i + n) =~= operator_text(t));
    }
}

/// The lexer reads the longest operator: where the characters at `i` spell
/// an operator token, the operator read there is at least as long (`<=` is
/// never read as `<` followed by `=`).
pub proof fn law_operator_longest(s: Seq<char>, i: int, u: Tok)
    requires
        0 <= i,
        operator_text(u).len() > 0,
        i + operator_text(u).len() <= s.len(),
        s.subrange(i, i + operator_text(u).len()) == operator_text(u),
    ensures
        operator_at(s, i) matches Some((n, _)) && n >= operator_text(u).len(),
{
    let w = operator_text(u);
    assert(s[i] == w[0]);
    if w.len() >= 2 {
        assert(s[i + 1] == w[1]);
    }
    if w.len() >= 3 {
        assert(s[i + 2] == w[2]);
    }
}

/// How a keyword token is written.
pub open spec fn keyword_text(t: Tok) -> Seq<char> {
    match t {
        Tok::Const => seq!['c', 'o', 'n', 's', 't'],
        Tok::Let => seq!['l', 'e', 't'],
        Tok::Var => seq!['v', 'a', 'r'],
        Tok::Function => seq!['f', 'u', 'n', 'c', 't', 'i', 'o', 'n'],
        Tok::Return => seq!['r', 'e', 't', 'u', 'r', 'n'],
        Tok::If => seq!['i', 'f'],
        Tok::Else => seq!['e', 'l', 's', 'e'],
        Tok::While => seq!['w', 'h', 'i', 'l', 'e'],
        Tok::For => seq!['f', 'o', 'r'],
        Tok::Do => seq!['d', 'o'],
        Tok::Switch => seq!['s', 'w', 'i', 't', 'c', 'h'],
        Tok::Case => seq!['c', 'a', 's', 'e'],
        Tok::Break => seq!['b', 'r', 'e', 'a', 'k'],
        Tok::Continue => seq!['c', 'o', 'n', 't', 'i', 'n', 'u', 'e'],
        Tok::New => seq!['n', 'e', 'w'],
        Tok::Void => seq!['v', 'o', 'i', 'd'],
        Tok::Delete => seq!['d', 'e', 'l', 'e', 't', 'e'],
        Tok::Typeof => seq!['t', 'y', 'p', 'e', 'o', 'f'],
        Tok::Instanceof => seq!['i', 'n', 's', 't', 'a', 'n', 'c', 'e', 'o', 'f'],
        Tok::In => seq!['i', 'n'],
        Tok::Of => seq!['o', 'f'],
        Tok::Class => seq!['c', 'l', 'a', 's', 's'],
        Tok::Extends => seq!['e', 'x', 't', 'e', 'n', 'd', 's'],
        Tok::Super => seq!['s', 'u', 'p', 'e', 'r'],
        Tok::This => seq!['t', 'h', 'i', 's'],
        Tok::Import => seq!['i', 'm', 'p', 'o', 'r', 't'],
        Tok::Export => seq!['e', 'x', 'p', 'o', 'r', 't'],
        Tok::Default => seq!['d', 'e', 'f', 'a', 'u', 'l', 't'],
        Tok::From => seq!['f', 'r', 'o', 'm'],
        Tok::As => seq!['a', 's'],
        Tok::Interface => seq!['i', 'n', 't', 'e', 'r', 'f', 'a', 'c', 'e'],
        Tok::Enum => seq!['e', 'n', 'u', 'm'],
        Tok::Async => seq!['a', 's', 'y', 'n', 'c'],
        Tok::Await => seq!['a', 'w', 'a', 'i', 't'],
        Tok::Yield => seq!['y', 'i', 'e', 'l', 'd'],
        Tok::Try => seq!['t', 'r', 'y'],
        Tok::Catch => seq!['c', 'a', 't', 'c', 'h'],
        Tok::Finally => seq!['f', 'i', 'n', 'a', 'l', 'l', 'y'],
        Tok::Throw => seq!['t', 'h', 'r', 'o', 'w'],
        Tok::Static => seq!['s', 't', 'a', 't', 'i', 'c'],
        Tok::Public => seq!['p', 'u', 'b', 'l', 'i', 'c'],
        Tok::Private => seq!['p', 'r', 'i', 'v', 'a', 't', 'e'],
        Tok::Protected => seq!['p', 'r', 'o', 't', 'e', 'c', 't', 'e', 'd'],
        Tok::Constructor => seq!['c', 'o', 'n', 's', 't', 'r', 'u', 'c', 't', 'o', 'r'],
        Tok::Get => seq!['g', 'e', 't'],
        Tok::SetKeyword => seq!['s', 'e', 't'],
        _ => Seq::empty(),
    }
}

/// A word is read as the keyword it spells, or else as an identifier of
/// that name.
pub proof fn law_word_spelling(w: Seq<char>)
    ensures
        word_token(w) matches Tok::Identifier(n) ==> n == w,
        !(word_token(w) is Identifier) ==> keyword_text(word_token(w)) == w,
{
    reveal_strlit("const");
    reveal_strlit("let");
    reveal_strlit("var");
    reveal_strlit("function");
    reveal_strlit("return");
    reveal_strlit("if");
    reveal_strlit("else");
    reveal_strlit("while");
    reveal_strlit("for");
    reveal_strlit("do");
    reveal_strlit("switch");
    reveal_strlit("case");
    reveal_strlit("break");
    reveal_strlit("continue");
    reveal_strlit("new");
    reveal_strlit("void");
    reveal_strlit("delete");
    reveal_strlit("typeof");
    reveal_strlit("instanceof");
    reveal_strlit("in");
    reveal_strlit("of");
    reveal_strlit("class");
    reveal_strlit("extends");
    reveal_strlit("super");
    reveal_strlit("this");
    reveal_strlit("import");
    reveal_strlit("export");
    reveal_strlit("default");
    reveal_strlit("from");
    reveal_strlit("as");
    reveal_strlit("interface");
    reveal_strlit("enum");
    reveal_strlit("async");
    reveal_strlit("await");
    reveal_strlit("yield");
    reveal_strlit("try");
    reveal_strlit("catch");
    reveal_strlit("finally");
    reveal_strlit("throw");
    reveal_strlit("static");
    reveal_strlit("public");
    reveal_strlit("private");
    reveal_strlit("protected");
    reveal_strlit("constructor");
    reveal_strlit("get");
    reveal_strlit("set");
}

/// Every keyword, spelled out, is read as that keyword (`typeof` as
/// `Typeof`, `instanceof` as `Instanceof`, `set` as `SetKeyword`, ...).
pub proof fn law_keywords_recognized(t: Tok)
    requires
        keyword_text(t).len() > 0,
    ensures
        word_token(keyword_text(t)) == t,
{
    reveal_strlit("const");
    reveal_strlit("let");
    reveal_strlit("var");
    reveal_strlit("function");
    reveal_strlit("return");
    reveal_strlit("if");
    reveal_strlit("else");
    reveal_strlit("while");
    reveal_strlit("for");
    reveal_strlit("do");
    reveal_strlit("switch");
    reveal_strlit("case");
    reveal_strlit("break");
    reveal_strlit("continue");
    reveal_strlit("new");
    reveal_strlit("void");
    reveal_strlit("delete");
    reveal_strlit("typeof");
    reveal_strlit("instanceof");
    reveal_strlit("in");
    reveal_strlit("of");
    reveal_strlit("class");
    reveal_strlit("extends");
    reveal_strlit("super");
    reveal_strlit("this");
    reveal_strlit("import");
    reveal_strlit("export");
    reveal_strlit("default");
    reveal_strlit("from");
    reveal_strlit("as");
    reveal_strlit("interface");
    reveal_strlit("enum");
    reveal_strlit("async");
    reveal_strlit("await");
    reveal_strlit("yield");
    reveal_strlit("try");
    reveal_strlit("catch");
    reveal_strlit("finally");
    reveal_strlit("throw");
    reveal_strlit("static");
    reveal_strlit("public");
    reveal_strlit("private");
    reveal_strlit("protected");
    reveal_strlit("constructor");
    reveal_strlit("get");
    reveal_strlit("set");
    match t {
        Tok::Const => {
            assert(keyword_text(t) =~= "const"@);
            assert(keyword_text(t)[0] == 'c');
            assert(keyword_text(t).len() == 5);
            assert(keyword_text(t)[1] == 'o');
        },
        Tok::Let => {
            assert(keyword_text(t) =~= "let"@);
            assert(keyword_text(t)[0] == 'l');
            assert(keyword_text(t).len() == 3);
            assert(keyword_text(t)[1] == 'e');
        },
        Tok::Var => {
            assert(keyword_text(t) =~= "var"@);
            assert(keyword_text(t)[0] == 'v');
            assert(keyword_text(t).len() == 3);
            assert(keyword_text(t)[1] == 'a');
        },
        Tok::Function => {
            assert(keyword_text(t) =~= "function"@);
            assert(keyword_text(t)[0] == 'f');
            assert(keyword_text(t).len() == 8);
            assert(keyword_text(t)[1] == 'u');
        },
        Tok::Return => {
            assert(keyword_text(t) =~= "return"@);
            assert(keyword_text(t)[0] == 'r');
            assert(keyword_text(t).len() == 6);
            assert(keyword_text(t)[1] == 'e');
        },
        Tok::If => {
            assert(keyword_text(t) =~= "if"@);
            assert(keyword_text(t)[0] == 'i');
            assert(keyword_text(t).len() == 2);
            assert(keyword_text(t)[1] == 'f');
        },
        Tok::Else => {
            assert(keyword_text(t) =~= "else"@);
            assert(keyword_text(t)[0] == 'e');
            assert(keyword_text(t).len() == 4);
            assert(keyword_text(t)[1] == 'l');
        },
        Tok::While => {
            assert(keyword_text(t) =~= "while"@);
            assert(keyword_text(t)[0] == 'w');
            assert(keyword_text(t).len() == 5);
            assert(keyword_text(t)[1] == 'h');
        },
        Tok::For => {
            assert(keyword_text(t) =~= "for"@);
            assert(keyword_text(t)[0] == 'f');
            assert(keyword_text(t).len() == 3);
            assert(keyword_text(t)[1] == 'o');
        },
        Tok::Do => {
            assert(keyword_text(t) =~= "do"@);
            assert(keyword_text(t)[0] == 'd');
            assert(keyword_text(t).len() == 2);
            assert(keyword_text(t)[1] == 'o');
        },
        Tok::Switch => {
            assert(keyword_text(t) =~= "switch"@);
            assert(keyword_text(t)[0] == 's');
            assert(keyword_text(t).len() == 6);
            assert(keyword_text(t)[1] == 'w');
        },
        Tok::Case => {
            assert(keyword_text(t) =~= "case"@);
            assert(keyword_text(t)[0] == 'c');
            assert(keyword_text(t).len() == 4);
            assert(keyword_text(t)[1] == 'a');
        },
        Tok::Break => {
            assert(keyword_text(t) =~= "break"@);
            assert(keyword_text(t)[0] == 'b');
            assert(keyword_text(t).len() == 5);
            assert(keyword_text(t)[1] == 'r');
        },
        Tok::Continue => {
            assert(keyword_text(t) =~= "continue"@);
            assert(keyword_text(t)[0] == 'c');
            assert(keyword_text(t).len() == 8);
            assert(keyword_text(t)[1] == 'o');
        },
        Tok::New => {
            assert(keyword_text(t) =~= "new"@);
            assert(keyword_text(t)[0] == 'n');
            assert(keyword_text(t).len() == 3);
            assert(keyword_text(t)[1] == 'e');
        },
        Tok::Void => {
            assert(keyword_text(t) =~= "void"@);
            assert(keyword_text(t)[0] == 'v');
            assert(keyword_text(t).len() == 4);
            assert(keyword_text(t)[1] == 'o');
        },
        Tok::Delete => {
            assert(keyword_text(t) =~= "delete"@);
            assert(keyword_text(t)[0] == 'd');
            assert(keyword_text(t).len() == 6);
            assert(keyword_text(t)[1] == 'e');
        },
        Tok::Typeof => {
            assert(keyword_text(t) =~= "typeof"@);
            assert(keyword_text(t)[0] == 't');
            assert(keyword_text(t).len() == 6);
            assert(keyword_text(t)[1] == 'y');
        },
        Tok::Instanceof => {
            assert(keyword_text(t) =~= "instanceof"@);
            assert(keyword_text(t)[0] == 'i');
            assert(keyword_text(t).len() == 10);
            assert(keyword_text(t)[1] == 'n');
        },
        Tok::In => {
            assert(keyword_text(t) =~= "in"@);
            assert(keyword_text(t)[0] == 'i');
            assert(keyword_text(t).len() == 2);
            assert(keyword_text(t)[1] == 'n');
        },
        Tok::Of => {
            assert(keyword_text(t) =~= "of"@);
            assert(keyword_text(t)[0] == 'o');
            assert(keyword_text(t).len() == 2);
            assert(keyword_text(t)[1] == 'f');
        },
        Tok::Class => {
            assert(keyword_text(t) =~= "class"@);
            assert(keyword_text(t)[0] == 'c');
            assert(keyword_text(t).len() == 5);
            assert(keyword_text(t)[1] == 'l');
        },
        Tok::Extends => {
            assert(keyword_text(t) =~= "extends"@);
            assert(keyword_text(t)[0] == 'e');
            assert(keyword_text(t).len() == 7);
            assert(keyword_text(t)[1] == 'x');
        },
        Tok::Super => {
            assert(keyword_text(t) =~= "super"@);
            assert(keyword_text(t)[0] == 's');
            assert(keyword_text(t).len() == 5);
            assert(keyword_text(t)[1] == 'u');
        },
        Tok::This => {
            assert(keyword_text(t) =~= "this"@);
            assert(keyword_text(t)[0] == 't');
            assert(keyword_text(t).len() == 4);
            assert(keyword_text(t)[1] == 'h');
        },
        Tok::Import => {
            assert(keyword_text(t) =~= "import"@);
            assert(keyword_text(t)[0] == 'i');
            assert(keyword_text(t).len() == 6);
            assert(keyword_text(t)[1] == 'm');
        },
        Tok::Export => {
            assert(keyword_text(t) =~= "export"@);
            assert(keyword_text(t)[0] == 'e');
            assert(keyword_text(t).len() == 6);
            assert(keyword_text(t)[1] == 'x');
        },
        Tok::Default => {
            assert(keyword_text(t) =~= "default"@);
            assert(keyword_text(t)[0] == 'd');
            assert(keyword_text(t).len() == 7);
            assert(keyword_text(t)[1] == 'e');
        },
        Tok::From => {
            assert(keyword_text(t) =~= "from"@);
            assert(keyword_text(t)[0] == 'f');
            assert(keyword_text(t).len() == 4);
            assert(keyword_text(t)[1] == 'r');
        },
        Tok::As => {
            assert(keyword_text(t) =~= "as"@);
            assert(keyword_text(t)[0] == 'a');
            assert(keyword_text(t).len() == 2);
            assert(keyword_text(t)[1] == 's');
        },
        Tok::Interface => {
            assert(keyword_text(t) =~= "interface"@);
            assert(keyword_text(t)[0] == 'i');
            assert(keyword_text(t).len() == 9);
            assert(keyword_text(t)[1] == 'n');
        },
        Tok::Enum => {
            assert(keyword_text(t) =~= "enum"@);
            assert(keyword_text(t)[0] == 'e');
            assert(keyword_text(t).len() == 4);
            assert(keyword_text(t)[1] == 'n');
        },
        Tok::Async => {
            assert(keyword_text(t) =~= "async"@);
            assert(keyword_text(t)[0] == 'a');
            assert(keyword_text(t).len() == 5);
            assert(keyword_text(t)[1] == 's');
        },
        Tok::Await => {
            assert(keyword_text(t) =~= "await"@);
            assert(keyword_text(t)[0] == 'a');
            assert(keyword_text(t).len() == 5);
            assert(keyword_text(t)[1] == 'w');
        },
        Tok::Yield => {
            assert(keyword_text(t) =~= "yield"@);
            assert(keyword_text(t)[0] == 'y');
            assert(keyword_text(t).len() == 5);
            assert(keyword_text(t)[1] == 'i');
        },
        Tok::Try => {
            assert(keyword_text(t) =~= "try"@);
            assert(keyword_text(t)[0] == 't');
            assert(keyword_text(t).len() == 3);
            assert(keyword_text(t)[1] == 'r');
        },
        Tok::Catch => {
            assert(keyword_text(t) =~= "catch"@);
            assert(keyword_text(t)[0] == 'c');
            assert(keyword_text(t).len() == 5);
            assert(keyword_text(t)[1] == 'a');
        },
        Tok::Finally => {
            assert(keyword_text(t) =~= "finally"@);
            assert(keyword_text(t)[0] == 'f');
            assert(keyword_text(t).len() == 7);
            assert(keyword_text(t)[1] == 'i');
        },
        Tok::Throw => {
            assert(keyword_text(t) =~= "throw"@);
            assert(keyword_text(t)[0] == 't');
            assert(keyword_text(t).len() == 5);
            assert(keyword_text(t)[1] == 'h');
        },
        Tok::Static => {
            assert(keyword_text(t) =~= "static"@);
            assert(keyword_text(t)[0] == 's');
            assert(keyword_text(t).len() == 6);
            assert(keyword_text(t)[1] == 't');
        },
        Tok::Public => {
            assert(keyword_text(t) =~= "public"@);
            assert(keyword_text(t)[0] == 'p');
            assert(keyword_text(t).len() == 6);
            assert(keyword_text(t)[1] == 'u');
        },
        Tok::Private => {
            assert(keyword_text(t) =~= "private"@);
            assert(keyword_text(t)[0] == 'p');
            assert(keyword_text(t).len() == 7);
            assert(keyword_text(t)[1] == 'r');
        },
        Tok::Protected => {
            assert(keyword_text(t) =~= "protected"@);
            assert(keyword_text(t)[0] == 'p');
            assert(keyword_text(t).len() == 9);
            assert(keyword_text(t)[1] == 'r');
        },
        Tok::Constructor => {
            assert(keyword_text(t) =~= "constructor"@);
            assert(keyword_text(t)[0] == 'c');
            assert(keyword_text(t).len() == 11);
            assert(keyword_text(t)[1] == 'o');
        },
        Tok::Get => {
            assert(keyword_text(t) =~= "get"@);
            assert(keyword_text(t)[0] == 'g');
            assert(keyword_text(t).len() == 3);
            assert(keyword_text(t)[1] == 'e');
        },
        Tok::SetKeyword => {
            assert(keyword_text(t) =~= "set"@);
            assert(keyword_text(t)[0] == 's');
            assert(keyword_text(t).len() == 3);
            assert(keyword_text(t)[1] == 'e');
        },
        _ => {},
    }
}

/// An ASCII letter of either case, `_` or `$`.
pub open spec fn ascii_word_start(c: char) -> bool {
    ('a' <= c && c <= 'z') || ('A' <= c && c <= 'Z') || c == '_' || c == '$'
}

/// A word of ASCII letters (of either case), digits, `_` and `$` that does
/// not start with a digit is read whole, up to the first character of no such
/// kind, as one token: the keyword it spells or an identifier.
pub proof fn law_scan_word(s: Seq<char>, i: int, j: int, line: int, col: int, regex_ok: bool)
    requires
        0 <= i < j <= s.len(),
        ascii_word_start(s[i]),
        forall|k: int| i < k < j ==> ascii_word_start(#[trigger] s[k]) || ('0' <= s[k] && s[k] <= '9'),
        j == s.len() || ((s[j] as u32) < 128 && !ascii_word_start(s[j]) && !('0' <= s[j] && s[j] <= '9')),
    ensures
        scan(s, i, line, col, regex_ok) == Ok::<(int, int, int, Seq<(Tok, Span)>), Seq<char>>((
            j,
            line,
            col + (j - i),
            seq![(word_token(s.subrange(i, j)), span_at(s, i, line, col))],
        )),
{
    lemma_word_run(s, i, j);
}

proof fn lemma_word_run(s: Seq<char>, k: int, j: int)
    requires
        0 <= k <= j <= s.len(),
        forall|m: int| k <= m < j ==> ascii_word_start(#[trigger] s[m]) || ('0' <= s[m] && s[m] <= '9'),
        j == s.len() || ((s[j] as u32) < 128 && !ascii_word_start(s[j]) && !('0' <= s[j] && s[j] <= '9')),
    ensures
        ident_end(s, k) == j,
    decreases j - k,
{
    if k < j {
        assert(ascii_word_start(s[k]) || ('0' <= s[k] && s[k] <= '9'));
        lemma_word_run(s, k + 1, j);
    }
}

/// A run of ASCII digits followed by anything but a digit, `.`, `e`, `E` or
/// `n` (or by nothing) is read as one number token with exactly those
/// digits as its text.
pub proof fn law_scan_integer(s: Seq<char>, i: int, j: int, line: int, col: int, regex_ok: bool)
    requires
        0 <= i < j <= s.len(),
        forall|k: int| i <= k < j ==> '0' <= #[trigger] s[k] && s[k] <= '9',
        j == s.len() || (!('0' <= s[j] && s[j] <= '9') && s[j] != '.' && s[j] != 'e' && s[j] != 'E' && s[j] != 'n'),
    ensures
        scan(s, i, line, col, regex_ok) == Ok::<(int, int, int, Seq<(Tok, Span)>), Seq<char>>((
            j,
            line,
            col + (j - i),
            seq![(Tok::Number(s.subrange(i, j)), span_at(s, i, line, col))],
        )),
{
    lemma_digit_run(s, i, j);
}

proof fn lemma_digit_run(s: Seq<char>, k: int, j: int)
    requires
        0 <= k <= j <= s.len(),
        forall|m: int| k <= m < j ==> '0' <= #[trigger] s[m] && s[m] <= '9',
        j == s.len() || (!('0' <= s[j] && s[j] <= '9') && s[j] != '.'),
    ensures
        digits_end(s, k, true) == j,
    decreases j - k,
{
    if k < j {
        assert('0' <= s[k] && s[k] <= '9');
        lemma_digit_run(s, k + 1, j);
    }
}

/// Spaces, tabs and carriage returns are skipped one column at a time; a
/// line feed starts the next line at column 1; a `//` comment is skipped up to
/// (not including) the line feed that ends it, or to the end of the text.
/// None of them yields a token.
pub proof fn law_scan_blanks_and_line_comments(s: Seq<char>, i: int, e: int, line: int, col: int, regex_ok: bool)
    requires
        0 <= i < s.len(),
    ensures
        s[i] == ' ' || s[i] == '\t' || s[i] == '\r'
            ==> scan(s, i, line, col, regex_ok) == Ok::<(int, int, int, Seq<(Tok, Span)>), Seq<char>>((i + 1, line, col + 1, Seq::empty())),
        s[i] == '\n' ==> scan(s, i, line, col, regex_ok) == Ok::<(int, int, int, Seq<(Tok, Span)>), Seq<char>>((i + 1, line + 1, 1, Seq::empty())),
        s[i] == '/' && i + 1 < s.len() && s[i + 1] == '/' && i + 1 <= e <= s.len()
            && (e == s.len() || s[e] == '\n') && (forall|k: int| i + 1 <= k < e ==> #[trigger] s[k] != '\n')
            ==> scan(s, i, line, col, regex_ok) == Ok::<(int, int, int, Seq<(Tok, Span)>), Seq<char>>((e, line, col + (e - i), Seq::empty())),
{
    if s[i] == '/' && i + 1 < s.len() && s[i + 1] == '/' && i + 1 <= e <= s.len()
        && (e == s.len() || s[e] == '\n') && (forall|k: int| i + 1 <= k < e ==> #[trigger] s[k] != '\n') {
        lemma_first_newline(s, i + 1, e);
    }
}

proof fn lemma_first_newline(s: Seq<char>, k: int, e: int)
    requires
        0 <= k <= e <= s.len(),
        e == s.len() || s[e] == '\n',
        forall|m: int| k <= m < e ==> #[trigger] s[m] != '\n',
    ensures
        find_from(s, k, '\n') == e,
    decreases e - k,
{
    if k < e {
        assert(s[k] != '\n');
        lemma_first_newline(s, k + 1, e);
    }
}

} // verus!
