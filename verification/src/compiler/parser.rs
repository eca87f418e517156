//! The syntax tree and the parser that builds it from tokens.
use vstd::prelude::*;
use vstd::string::*;
use crate::compiler::lexer::{token_view, tokens_view, SpannedToken, TemplatePart, Tok, Token};
use crate::errors::{Error, ErrorKind};
use crate::text::{chars_of, push_char};

mod expressions;
mod statements;
mod types;

verus! {

/// Where the loop variable of a `for … in` / `for … of` comes from.
#[derive(Debug, Clone)]
pub enum ForInLeft {
    Identifier(String),
    VariableDeclaration { kind: VarKind, id: String },
}

/// One name of an `import { … }` clause.
#[derive(Debug, Clone)]
pub struct ImportSpecifier {
    pub local: String,
    pub imported: Option<String>,
}

/// How a variable was declared.
#[derive(Debug, Clone, Copy, PartialEq, Eq, Structural)]
pub enum VarKind {
    Var,
    Let,
    Const,
}

/// The operator of a compound assignment such as `+=`.
#[derive(Debug, Clone, Copy, PartialEq, Eq, Structural)]
pub enum CompoundAssignmentOp {
    AddAssign,
    SubAssign,
    MulAssign,
    DivAssign,
    ModAssign,
    AndAssign,
    OrAssign,
}

/// `++` or `--`.
#[derive(Debug, Clone, Copy, PartialEq, Eq, Structural)]
pub enum UpdateOperator {
    Increment,
    Decrement,
}

/// A binary operator.
#[derive(Debug, Clone, Copy, PartialEq, Eq, Structural)]
pub enum BinaryOperator {
    Add,
    Sub,
    Mul,
    Div,
    Mod,
    Eq,
    StrictEq,
    NotEqual,
    StrictNotEqual,
    Less,
    Greater,
    LessEqual,
    GreaterEqual,
    And,
    Or,
    BitAnd,
    BitOr,
    BitXor,
    ShiftLeft,
    ShiftRight,
    Power,
    Instanceof,
    In,
    NullishCoalescing,
    Comma,
}

/// A unary operator.
#[derive(Debug, Clone, Copy, PartialEq, Eq, Structural)]
pub enum UnaryOperator {
    Negate,
    Not,
    Typeof,
    Void,
    Delete,
    BitNot,
}


/// The position of a token's variant in the list of variants; tokens without
/// a payload are equal exactly when their positions are.
pub open spec fn tok_kind(t: Tok) -> u8 {
    match t {
        Tok::Number(_) => 0,
        Tok::String(_) => 1,
        Tok::BigInt(_) => 2,
        Tok::Regex(_) => 3,
        Tok::Identifier(_) => 4,
        Tok::TemplateLiteral(_) => 5,
        Tok::Const => 6,
        Tok::Let => 7,
        Tok::Var => 8,
        Tok::Function => 9,
        Tok::Return => 10,
        Tok::If => 11,
        Tok::Else => 12,
        Tok::While => 13,
        Tok::For => 14,
        Tok::Do => 15,
        Tok::Switch => 16,
        Tok::Case => 17,
        Tok::Break => 18,
        Tok::Continue => 19,
        Tok::New => 20,
        Tok::Void => 21,
        Tok::Delete => 22,
        Tok::Typeof => 23,
        Tok::Instanceof => 24,
        Tok::Constructor => 25,
        Tok::In => 26,
        Tok::Of => 27,
        Tok::Class => 28,
        Tok::Extends => 29,
        Tok::Super => 30,
        Tok::This => 31,
        Tok::Import => 32,
        Tok::Export => 33,
        Tok::Default => 34,
        Tok::From => 35,
        Tok::As => 36,
        Tok::Type => 37,
        Tok::Interface => 38,
        Tok::Enum => 39,
        Tok::Async => 40,
        Tok::Await => 41,
        Tok::Promise => 42,
        Tok::Try => 43,
        Tok::Catch => 44,
        Tok::Finally => 45,
        Tok::Throw => 46,
        Tok::Static => 47,
        Tok::Get => 48,
        Tok::SetKeyword => 49,
        Tok::Yield => 50,
        Tok::Public => 51,
        Tok::Private => 52,
        Tok::Protected => 53,
        Tok::Readonly => 54,
        Tok::Plus => 55,
        Tok::Minus => 56,
        Tok::Star => 57,
        Tok::Slash => 58,
        Tok::Percent => 59,
        Tok::Power => 60,
        Tok::Assign => 61,
        Tok::PlusAssign => 62,
        Tok::MinusAssign => 63,
        Tok::StarAssign => 64,
        Tok::SlashAssign => 65,
        Tok::PercentAssign => 66,
        Tok::PowerAssign => 67,
        Tok::AndAssign => 68,
        Tok::OrAssign => 69,
        Tok::XorAssign => 70,
        Tok::BitAndAssign => 71,
        Tok::BitOrAssign => 72,
        Tok::Equal => 73,
        Tok::StrictEqual => 74,
        Tok::NotEqual => 75,
        Tok::StrictNotEqual => 76,
        Tok::Less => 77,
        Tok::Greater => 78,
        Tok::LessEqual => 79,
        Tok::GreaterEqual => 80,
        Tok::And => 81,
        Tok::Or => 82,
        Tok::Not => 83,
        Tok::BitAnd => 84,
        Tok::BitOr => 85,
        Tok::BitXor => 86,
        Tok::BitNot => 87,
        Tok::ShiftLeft => 88,
        Tok::ShiftRight => 89,
        Tok::UnsignedShiftRight => 90,
        Tok::Increment => 91,
        Tok::Decrement => 92,
        Tok::LeftParen => 93,
        Tok::RightParen => 94,
        Tok::LeftBrace => 95,
        Tok::RightBrace => 96,
        Tok::LeftBracket => 97,
        Tok::RightBracket => 98,
        Tok::Semicolon => 99,
        Tok::Colon => 100,
        Tok::Comma => 101,
        Tok::Dot => 102,
        Tok::Question => 103,
        Tok::QuestionDot => 104,
        Tok::NullishCoalescing => 105,
        Tok::NullishCoalescingAssign => 106,
        Tok::Arrow => 107,
        Tok::Ellipsis => 108,
        Tok::Eof => 109,
    }
}

/// The position of `t`'s variant, as `tok_kind` gives it.
pub fn token_kind(t: &Token) -> (k: u8)
    ensures
        k == tok_kind(token_view(*t)),
{
    match t {
        Token::Number(_) => 0,
        Token::String(_) => 1,
        Token::BigInt(_) => 2,
        Token::Regex(_) => 3,
        Token::Identifier(_) => 4,
        Token::TemplateLiteral(_) => 5,
        Token::Const => 6,
        Token::Let => 7,
        Token::Var => 8,
        Token::Function => 9,
        Token::Return => 10,
        Token::If => 11,
        Token::Else => 12,
        Token::While => 13,
        Token::For => 14,
        Token::Do => 15,
        Token::Switch => 16,
        Token::Case => 17,
        Token::Break => 18,
        Token::Continue => 19,
        Token::New => 20,
        Token::Void => 21,
        Token::Delete => 22,
        Token::Typeof => 23,
        Token::Instanceof => 24,
        Token::Constructor => 25,
        Token::In => 26,
        Token::Of => 27,
        Token::Class => 28,
        Token::Extends => 29,
        Token::Super => 30,
        Token::This => 31,
        Token::Import => 32,
        Token::Export => 33,
        Token::Default => 34,
        Token::From => 35,
        Token::As => 36,
        Token::Type => 37,
        Token::Interface => 38,
        Token::Enum => 39,
        Token::Async => 40,
        Token::Await => 41,
        Token::Promise => 42,
        Token::Try => 43,
        Token::Catch => 44,
        Token::Finally => 45,
        Token::Throw => 46,
        Token::Static => 47,
        Token::Get => 48,
        Token::SetKeyword => 49,
        Token::Yield => 50,
        Token::Public => 51,
        Token::Private => 52,
        Token::Protected => 53,
        Token::Readonly => 54,
        Token::Plus => 55,
        Token::Minus => 56,
        Token::Star => 57,
        Token::Slash => 58,
        Token::Percent => 59,
        Token::Power => 60,
        Token::Assign => 61,
        Token::PlusAssign => 62,
        Token::MinusAssign => 63,
        Token::StarAssign => 64,
        Token::SlashAssign => 65,
        Token::PercentAssign => 66,
        Token::PowerAssign => 67,
        Token::AndAssign => 68,
        Token::OrAssign => 69,
        Token::XorAssign => 70,
        Token::BitAndAssign => 71,
        Token::BitOrAssign => 72,
        Token::Equal => 73,
        Token::StrictEqual => 74,
        Token::NotEqual => 75,
        Token::StrictNotEqual => 76,
        Token::Less => 77,
        Token::Greater => 78,
        Token::LessEqual => 79,
        Token::GreaterEqual => 80,
        Token::And => 81,
        Token::Or => 82,
        Token::Not => 83,
        Token::BitAnd => 84,
        Token::BitOr => 85,
        Token::BitXor => 86,
        Token::BitNot => 87,
        Token::ShiftLeft => 88,
        Token::ShiftRight => 89,
        Token::UnsignedShiftRight => 90,
        Token::Increment => 91,
        Token::Decrement => 92,
        Token::LeftParen => 93,
        Token::RightParen => 94,
        Token::LeftBrace => 95,
        Token::RightBrace => 96,
        Token::LeftBracket => 97,
        Token::RightBracket => 98,
        Token::Semicolon => 99,
        Token::Colon => 100,
        Token::Comma => 101,
        Token::Dot => 102,
        Token::Question => 103,
        Token::QuestionDot => 104,
        Token::NullishCoalescing => 105,
        Token::NullishCoalescingAssign => 106,
        Token::Arrow => 107,
        Token::Ellipsis => 108,
        Token::Eof => 109,
    }
}

/// A program, a statement or an expression.
#[derive(Debug)]
pub enum AstNode {
    Program(Vec<Statement>),
    Statement(Statement),
    Expression(Expression),
}

/// A statement.
#[derive(Debug)]
pub enum Statement {
    Expression(Expression),
    VariableDeclaration { kind: VarKind, declarations: Vec<VariableDeclarator> },
    FunctionDeclaration { name: String, params: Vec<String>, body: Vec<Statement>, is_async: bool },
    ReturnStatement(Option<Expression>),
    YieldStatement(Option<Expression>),
    IfStatement { condition: Expression, consequent: Box<Statement>, alternate: Option<Box<Statement>> },
    WhileStatement { condition: Expression, body: Box<Statement> },
    BlockStatement(Vec<Statement>),
    ForStatement {
        init: Option<Box<ForInit>>,
        condition: Option<Expression>,
        update: Option<Expression>,
        body: Box<Statement>,
    },
    ForInStatement { left: ForInLeft, right: Expression, body: Box<Statement> },
    ForOfStatement { left: ForInLeft, right: Expression, body: Box<Statement>, is_async: bool },
    DoWhileStatement { condition: Expression, body: Box<Statement> },
    SwitchStatement { discriminant: Expression, cases: Vec<SwitchCase> },
    BreakStatement,
    ContinueStatement,
    TryStatement { block: Vec<Statement>, handler: Option<CatchClause>, finalizer: Option<Vec<Statement>> },
    ThrowStatement(Expression),
    ClassDeclaration { name: String, superclass: Option<Box<Expression>>, body: Vec<ClassMember> },
    ImportDeclaration { specifiers: Vec<ImportSpecifier>, source: String },
    ExportDeclaration { declaration: Box<Statement> },
    ExportDefaultDeclaration { declaration: Box<Statement> },
}

/// The first clause of a `for (…; …; …)` loop.
#[derive(Debug)]
pub enum ForInit {
    Variable(Statement),
    Expression(Expression),
}

/// One `case` (or `default`, without a test) of a `switch`.
#[derive(Debug)]
pub struct SwitchCase {
    pub test: Option<Expression>,
    pub consequent: Vec<Statement>,
}

/// The `catch (param) { … }` clause of a `try`.
#[derive(Debug)]
pub struct CatchClause {
    pub param: String,
    pub body: Vec<Statement>,
}

/// A member of a class body.
#[derive(Debug)]
pub enum ClassMember {
    Method { name: String, params: Vec<String>, body: Vec<Statement>, is_static: bool, is_async: bool },
    Property { name: String, is_static: bool },
    Constructor { params: Vec<String>, body: Vec<Statement> },
    Getter { name: String, body: Vec<Statement>, is_static: bool },
    Setter { name: String, param: String, body: Vec<Statement>, is_static: bool },
}

/// One variable of a declaration, with its declared type and its initializer.
#[derive(Debug)]
pub struct VariableDeclarator {
    pub id: String,
    pub type_annotation: Option<TypeAnnotation>,
    pub init: Option<Expression>,
}

/// Whether a class member is marked `static`.
pub open spec fn member_static(m: ClassMember) -> bool {
    match m {
        ClassMember::Method { is_static, .. } => is_static,
        ClassMember::Property { is_static, .. } => is_static,
        ClassMember::Getter { is_static, .. } => is_static,
        ClassMember::Setter { is_static, .. } => is_static,
        ClassMember::Constructor { .. } => false,
    }
}

/// A type as written in the source.
#[derive(Debug)]
pub enum TypeAnnotation {
    Number,
    String,
    Boolean,
    Null,
    Undefined,
    Void,
    Any,
    Unknown,
    Never,
    Named(String),
    Array(Box<TypeAnnotation>),
    Tuple(Vec<TypeAnnotation>),
    Union(Vec<TypeAnnotation>),
    Intersection(Vec<TypeAnnotation>),
    Literal(TypeLiteral),
    Generic { name: String, args: Vec<TypeAnnotation> },
    Object(Vec<(String, TypeAnnotation, bool)>),
}

/// A literal type. A number keeps the text it was written as.
#[derive(Debug)]
pub enum TypeLiteral {
    Number(String),
    String(String),
}

/// An expression. A number literal keeps the text it was written as.
#[derive(Debug)]
pub enum Expression {
    NumberLiteral(String),
    StringLiteral(String),
    BooleanLiteral(bool),
    NullLiteral,
    UndefinedLiteral,
    Identifier(String),
    BinaryOp { op: BinaryOperator, left: Box<Expression>, right: Box<Expression> },
    UnaryOp { op: UnaryOperator, operand: Box<Expression> },
    Assignment { target: Box<Expression>, value: Box<Expression>, op: Option<CompoundAssignmentOp> },
    Call { callee: Box<Expression>, args: Vec<Expression> },
    Member { object: Box<Expression>, property: Box<Expression>, computed: bool },
    FunctionExpression { name: Option<String>, params: Vec<String>, body: Vec<Statement>, is_async: bool },
    ArrowFunction { params: Vec<String>, body: Box<ArrowFunctionBody>, is_async: bool },
    NewExpression { callee: Box<Expression>, args: Vec<Expression> },
    ConditionalExpression { test: Box<Expression>, consequent: Box<Expression>, alternate: Box<Expression> },
    UpdateExpression { op: UpdateOperator, operand: Box<Expression>, prefix: bool },
    TemplateLiteral { quasis: Vec<String>, expressions: Vec<Expression> },
    ClassExpression { name: Option<String>, superclass: Option<Box<Expression>>, body: Vec<ClassMember> },
    AwaitExpression { argument: Box<Expression> },
    SuperCall { args: Vec<Expression> },
    SuperMember { property: Box<Expression>, computed: bool },
    TypeAssertion { expression: Box<Expression>, type_annotation: TypeAnnotation },
    SpreadElement { argument: Box<Expression> },
    OptionalMember { object: Box<Expression>, property: Box<Expression>, computed: bool },
    OptionalCall { callee: Box<Expression>, args: Vec<Expression> },
    ArrayLiteral { elements: Vec<Expression> },
    ObjectLiteral { properties: Vec<(String, Expression)> },
}

/// The body of an arrow function: an expression or a block.
#[derive(Debug)]
pub enum ArrowFunctionBody {
    Expression(Expression),
    Block(Vec<Statement>),
}

/// How deeply template literals nest in a list of tokens.
pub open spec fn tokens_depth(ts: Seq<SpannedToken>) -> nat
    decreases ts, ts.len(),
{
    if ts.len() == 0 {
        0
    } else {
        let a = tokens_depth(ts.drop_last());
        let b = token_depth(ts.last().token);
        if a < b { b } else { a }
    }
}

/// How deeply template literals nest in a token.
pub open spec fn token_depth(t: Token) -> nat
    decreases t, 0nat,
{
    match t {
        Token::TemplateLiteral(ps) => 1 + parts_depth(ps@),
        _ => 0,
    }
}

/// How deeply template literals nest in the expressions of template parts.
pub open spec fn parts_depth(ps: Seq<TemplatePart>) -> nat
    decreases ps, ps.len(),
{
    if ps.len() == 0 {
        0
    } else {
        let a = parts_depth(ps.drop_last());
        let b = match ps.last() {
            TemplatePart::Expression(ts) => tokens_depth(ts@),
            TemplatePart::Text(_) => 0,
        };
        if a < b { b } else { a }
    }
}

proof fn lemma_tokens_depth_index(ts: Seq<SpannedToken>, i: int)
    requires
        0 <= i < ts.len(),
    ensures
        token_depth(ts[i].token) <= tokens_depth(ts),
    decreases ts.len(),
{
    if i < ts.len() - 1 {
        lemma_tokens_depth_index(ts.drop_last(), i);
        assert(ts.drop_last()[i] == ts[i]);
    }
}

proof fn lemma_parts_depth_index(ps: Seq<TemplatePart>, j: int)
    requires
        0 <= j < ps.len(),
    ensures
        ps[j] matches TemplatePart::Expression(ts) ==> tokens_depth(ts@) <= parts_depth(ps),
    decreases ps.len(),
{
    if j < ps.len() - 1 {
        lemma_parts_depth_index(ps.drop_last(), j);
        assert(ps.drop_last()[j] == ps[j]);
    }
}

/// The name of a token's variant as `{:?}` shows it (`Set` for the `set`
/// keyword).
pub open spec fn tok_name(t: Tok) -> Seq<char> {
    match t {
        Tok::Number(_) => "Number"@,
        Tok::String(_) => "String"@,
        Tok::BigInt(_) => "BigInt"@,
        Tok::Regex(_) => "Regex"@,
        Tok::Identifier(_) => "Identifier"@,
        Tok::TemplateLiteral(_) => "TemplateLiteral"@,
        Tok::Const => "Const"@,
        Tok::Let => "Let"@,
        Tok::Var => "Var"@,
        Tok::Function => "Function"@,
        Tok::Return => "Return"@,
        Tok::If => "If"@,
        Tok::Else => "Else"@,
        Tok::While => "While"@,
        Tok::For => "For"@,
        Tok::Do => "Do"@,
        Tok::Switch => "Switch"@,
        Tok::Case => "Case"@,
        Tok::Break => "Break"@,
        Tok::Continue => "Continue"@,
        Tok::New => "New"@,
        Tok::Void => "Void"@,
        Tok::Delete => "Delete"@,
        Tok::Typeof => "Typeof"@,
        Tok::Instanceof => "Instanceof"@,
        Tok::Constructor => "Constructor"@,
        Tok::In => "In"@,
        Tok::Of => "Of"@,
        Tok::Class => "Class"@,
        Tok::Extends => "Extends"@,
        Tok::Super => "Super"@,
        Tok::This => "This"@,
        Tok::Import => "Import"@,
        Tok::Export => "Export"@,
        Tok::Default => "Default"@,
        Tok::From => "From"@,
        Tok::As => "As"@,
        Tok::Type => "Type"@,
        Tok::Interface => "Interface"@,
        Tok::Enum => "Enum"@,
        Tok::Async => "Async"@,
        Tok::Await => "Await"@,
        Tok::Promise => "Promise"@,
        Tok::Try => "Try"@,
        Tok::Catch => "Catch"@,
        Tok::Finally => "Finally"@,
        Tok::Throw => "Throw"@,
        Tok::Static => "Static"@,
        Tok::Get => "Get"@,
        Tok::SetKeyword => "Set"@,
        Tok::Yield => "Yield"@,
        Tok::Public => "Public"@,
        Tok::Private => "Private"@,
        Tok::Protected => "Protected"@,
        Tok::Readonly => "Readonly"@,
        Tok::Plus => "Plus"@,
        Tok::Minus => "Minus"@,
        Tok::Star => "Star"@,
        Tok::Slash => "Slash"@,
        Tok::Percent => "Percent"@,
        Tok::Power => "Power"@,
        Tok::Assign => "Assign"@,
        Tok::PlusAssign => "PlusAssign"@,
        Tok::MinusAssign => "MinusAssign"@,
        Tok::StarAssign => "StarAssign"@,
        Tok::SlashAssign => "SlashAssign"@,
        Tok::PercentAssign => "PercentAssign"@,
        Tok::PowerAssign => "PowerAssign"@,
        Tok::AndAssign => "AndAssign"@,
        Tok::OrAssign => "OrAssign"@,
        Tok::XorAssign => "XorAssign"@,
        Tok::BitAndAssign => "BitAndAssign"@,
        Tok::BitOrAssign => "BitOrAssign"@,
        Tok::Equal => "Equal"@,
        Tok::StrictEqual => "StrictEqual"@,
        Tok::NotEqual => "NotEqual"@,
        Tok::StrictNotEqual => "StrictNotEqual"@,
        Tok::Less => "Less"@,
        Tok::Greater => "Greater"@,
        Tok::LessEqual => "LessEqual"@,
        Tok::GreaterEqual => "GreaterEqual"@,
        Tok::And => "And"@,
        Tok::Or => "Or"@,
        Tok::Not => "Not"@,
        Tok::BitAnd => "BitAnd"@,
        Tok::BitOr => "BitOr"@,
        Tok::BitXor => "BitXor"@,
        Tok::BitNot => "BitNot"@,
        Tok::ShiftLeft => "ShiftLeft"@,
        Tok::ShiftRight => "ShiftRight"@,
        Tok::UnsignedShiftRight => "UnsignedShiftRight"@,
        Tok::Increment => "Increment"@,
        Tok::Decrement => "Decrement"@,
        Tok::LeftParen => "LeftParen"@,
        Tok::RightParen => "RightParen"@,
        Tok::LeftBrace => "LeftBrace"@,
        Tok::RightBrace => "RightBrace"@,
        Tok::LeftBracket => "LeftBracket"@,
        Tok::RightBracket => "RightBracket"@,
        Tok::Semicolon => "Semicolon"@,
        Tok::Colon => "Colon"@,
        Tok::Comma => "Comma"@,
        Tok::Dot => "Dot"@,
        Tok::Question => "Question"@,
        Tok::QuestionDot => "QuestionDot"@,
        Tok::NullishCoalescing => "NullishCoalescing"@,
        Tok::NullishCoalescingAssign => "NullishCoalescingAssign"@,
        Tok::Arrow => "Arrow"@,
        Tok::Ellipsis => "Ellipsis"@,
        Tok::Eof => "Eof"@,
    }
}

/// The name of a token's variant.
fn token_name(t: &Token) -> (r: &'static str)
    ensures
        r@ == tok_name(token_view(*t)),
{
    match t {
        Token::Number(_) => "Number",
        Token::String(_) => "String",
        Token::BigInt(_) => "BigInt",
        Token::Regex(_) => "Regex",
        Token::Identifier(_) => "Identifier",
        Token::TemplateLiteral(_) => "TemplateLiteral",
        Token::Const => "Const",
        Token::Let => "Let",
        Token::Var => "Var",
        Token::Function => "Function",
        Token::Return => "Return",
        Token::If => "If",
        Token::Else => "Else",
        Token::While => "While",
        Token::For => "For",
        Token::Do => "Do",
        Token::Switch => "Switch",
        Token::Case => "Case",
        Token::Break => "Break",
        Token::Continue => "Continue",
        Token::New => "New",
        Token::Void => "Void",
        Token::Delete => "Delete",
        Token::Typeof => "Typeof",
        Token::Instanceof => "Instanceof",
        Token::Constructor => "Constructor",
        Token::In => "In",
        Token::Of => "Of",
        Token::Class => "Class",
        Token::Extends => "Extends",
        Token::Super => "Super",
        Token::This => "This",
        Token::Import => "Import",
        Token::Export => "Export",
        Token::Default => "Default",
        Token::From => "From",
        Token::As => "As",
        Token::Type => "Type",
        Token::Interface => "Interface",
        Token::Enum => "Enum",
        Token::Async => "Async",
        Token::Await => "Await",
        Token::Promise => "Promise",
        Token::Try => "Try",
        Token::Catch => "Catch",
        Token::Finally => "Finally",
        Token::Throw => "Throw",
        Token::Static => "Static",
        Token::Get => "Get",
        Token::SetKeyword => "Set",
        Token::Yield => "Yield",
        Token::Public => "Public",
        Token::Private => "Private",
        Token::Protected => "Protected",
        Token::Readonly => "Readonly",
        Token::Plus => "Plus",
        Token::Minus => "Minus",
        Token::Star => "Star",
        Token::Slash => "Slash",
        Token::Percent => "Percent",
        Token::Power => "Power",
        Token::Assign => "Assign",
        Token::PlusAssign => "PlusAssign",
        Token::MinusAssign => "MinusAssign",
        Token::StarAssign => "StarAssign",
        Token::SlashAssign => "SlashAssign",
        Token::PercentAssign => "PercentAssign",
        Token::PowerAssign => "PowerAssign",
        Token::AndAssign => "AndAssign",
        Token::OrAssign => "OrAssign",
        Token::XorAssign => "XorAssign",
        Token::BitAndAssign => "BitAndAssign",
        Token::BitOrAssign => "BitOrAssign",
        Token::Equal => "Equal",
        Token::StrictEqual => "StrictEqual",
        Token::NotEqual => "NotEqual",
        Token::StrictNotEqual => "StrictNotEqual",
        Token::Less => "Less",
        Token::Greater => "Greater",
        Token::LessEqual => "LessEqual",
        Token::GreaterEqual => "GreaterEqual",
        Token::And => "And",
        Token::Or => "Or",
        Token::Not => "Not",
        Token::BitAnd => "BitAnd",
        Token::BitOr => "BitOr",
        Token::BitXor => "BitXor",
        Token::BitNot => "BitNot",
        Token::ShiftLeft => "ShiftLeft",
        Token::ShiftRight => "ShiftRight",
        Token::UnsignedShiftRight => "UnsignedShiftRight",
        Token::Increment => "Increment",
        Token::Decrement => "Decrement",
        Token::LeftParen => "LeftParen",
        Token::RightParen => "RightParen",
        Token::LeftBrace => "LeftBrace",
        Token::RightBrace => "RightBrace",
        Token::LeftBracket => "LeftBracket",
        Token::RightBracket => "RightBracket",
        Token::Semicolon => "Semicolon",
        Token::Colon => "Colon",
        Token::Comma => "Comma",
        Token::Dot => "Dot",
        Token::Question => "Question",
        Token::QuestionDot => "QuestionDot",
        Token::NullishCoalescing => "NullishCoalescing",
        Token::NullishCoalescingAssign => "NullishCoalescingAssign",
        Token::Arrow => "Arrow",
        Token::Ellipsis => "Ellipsis",
        Token::Eof => "Eof",
    }
}

/// A hexadecimal digit, lower case.
pub open spec fn hex_digit(v: nat) -> char {
    if v == 0 { '0' } else if v == 1 { '1' } else if v == 2 { '2' } else if v == 3 { '3' }
    else if v == 4 { '4' } else if v == 5 { '5' } else if v == 6 { '6' } else if v == 7 { '7' }
    else if v == 8 { '8' } else if v == 9 { '9' } else if v == 10 { 'a' } else if v == 11 { 'b' }
    else if v == 12 { 'c' } else if v == 13 { 'd' } else if v == 14 { 'e' } else { 'f' }
}

/// How `{:?}` writes the character `c` inside a quoted string: quotes,
/// backslashes and the common control characters by their escapes, other
/// ASCII control characters as `\u{…}`, everything else as it is.
pub open spec fn escaped_char(c: char) -> Seq<char> {
    let v = c as u32;
    if c == '"' {
        "\\\""@
    } else if c == '\\' {
        "\\\\"@
    } else if c == '\n' {
        "\\n"@
    } else if c == '\r' {
        "\\r"@
    } else if c == '\t' {
        "\\t"@
    } else if v == 0 {
        "\\0"@
    } else if v < 0x20 || v == 0x7f {
        "\\u{"@ + (if v < 16 { seq![hex_digit(v as nat)] } else { seq![hex_digit((v / 16) as nat), hex_digit((v % 16) as nat)] }) + "}"@
    } else {
        seq![c]
    }
}

/// `s` with each character escaped as inside a quoted string.
pub open spec fn escaped(s: Seq<char>) -> Seq<char>
    decreases s.len(),
{
    if s.len() == 0 {
        Seq::empty()
    } else {
        escaped(s.drop_last()) + escaped_char(s.last())
    }
}

/// Whether a number was written with decimal digits only.
pub open spec fn all_digits(s: Seq<char>) -> bool {
    s.len() > 0 && forall|i: int| 0 <= i < s.len() ==> '0' <= #[trigger] s[i] <= '9'
}

/// Whether `t` ends an expression: no operator of an expression begins with it.
pub open spec fn closes(t: Tok) -> bool {
    t is Semicolon || t is RightParen || t is RightBrace || t is RightBracket || t is Comma
        || t is Colon || t is Eof
}

/// The precedence level of a binary operator token, from `||` (1, binding
/// loosest) to `**` (10, binding tightest); 0 for any other token.
pub open spec fn binary_level(t: Tok) -> int {
    match t {
        Tok::Or => 1,
        Tok::And => 2,
        Tok::Equal | Tok::StrictEqual | Tok::NotEqual | Tok::StrictNotEqual => 3,
        Tok::Instanceof => 4,
        Tok::In => 5,
        Tok::Less | Tok::Greater | Tok::LessEqual | Tok::GreaterEqual => 6,
        Tok::ShiftLeft | Tok::ShiftRight => 7,
        Tok::Plus | Tok::Minus => 8,
        Tok::Star | Tok::Slash | Tok::Percent => 9,
        Tok::Power => 10,
        _ => 0,
    }
}

/// The operator that a binary operator token writes: `<=` is `LessEqual`,
/// `==` is `Eq`, `===` is `StrictEq`, `+` is `Add`, and so on.
pub open spec fn binary_operator_of(t: Tok) -> BinaryOperator {
    match t {
        Tok::Or => BinaryOperator::Or,
        Tok::And => BinaryOperator::And,
        Tok::Equal => BinaryOperator::Eq,
        Tok::StrictEqual => BinaryOperator::StrictEq,
        Tok::NotEqual => BinaryOperator::NotEqual,
        Tok::StrictNotEqual => BinaryOperator::StrictNotEqual,
        Tok::Instanceof => BinaryOperator::Instanceof,
        Tok::In => BinaryOperator::In,
        Tok::Less => BinaryOperator::Less,
        Tok::Greater => BinaryOperator::Greater,
        Tok::LessEqual => BinaryOperator::LessEqual,
        Tok::GreaterEqual => BinaryOperator::GreaterEqual,
        Tok::ShiftLeft => BinaryOperator::ShiftLeft,
        Tok::ShiftRight => BinaryOperator::ShiftRight,
        Tok::Plus => BinaryOperator::Add,
        Tok::Minus => BinaryOperator::Sub,
        Tok::Star => BinaryOperator::Mul,
        Tok::Slash => BinaryOperator::Div,
        Tok::Percent => BinaryOperator::Mod,
        _ => BinaryOperator::Power,
    }
}

/// Whether `t` is one of the assignment operators `=`, `+=`, `-=`, `*=`,
/// `/=`, `%=`, `&&=` and `||=`.
pub open spec fn is_assignment_token(t: Tok) -> bool {
    t is Assign || t is PlusAssign || t is MinusAssign || t is StarAssign || t is SlashAssign
        || t is PercentAssign || t is AndAssign || t is OrAssign
}

/// The operation that an assignment token combines the old value with:
/// none for `=`, `AddAssign` for `+=`, `SubAssign` for `-=`, and so on.
pub open spec fn assignment_op_of(t: Tok) -> Option<CompoundAssignmentOp> {
    match t {
        Tok::PlusAssign => Some(CompoundAssignmentOp::AddAssign),
        Tok::MinusAssign => Some(CompoundAssignmentOp::SubAssign),
        Tok::StarAssign => Some(CompoundAssignmentOp::MulAssign),
        Tok::SlashAssign => Some(CompoundAssignmentOp::DivAssign),
        Tok::PercentAssign => Some(CompoundAssignmentOp::ModAssign),
        Tok::AndAssign => Some(CompoundAssignmentOp::AndAssign),
        Tok::OrAssign => Some(CompoundAssignmentOp::OrAssign),
        _ => None,
    }
}

/// Whether `t` is a prefix operator that makes a unary operation: `-`, `!`,
/// `typeof`, `void`, `delete` or `~`.
pub open spec fn is_prefix_token(t: Tok) -> bool {
    t is Minus || t is Not || t is Typeof || t is Void || t is Delete || t is BitNot
}

/// The unary operator that a prefix token writes: `-` negates, `!` is
/// `Not`, `~` is `BitNot`, and the keywords name themselves.
pub open spec fn unary_operator_of(t: Tok) -> UnaryOperator {
    match t {
        Tok::Minus => UnaryOperator::Negate,
        Tok::Not => UnaryOperator::Not,
        Tok::Typeof => UnaryOperator::Typeof,
        Tok::Void => UnaryOperator::Void,
        Tok::Delete => UnaryOperator::Delete,
        _ => UnaryOperator::BitNot,
    }
}

/// Whether `t` ends an operand of an operator of level `level`: it closes
/// an expression, it is an assignment operator, or it is a binary operator
/// that binds more loosely.
pub open spec fn ends_operand(t: Tok, level: int) -> bool {
    closes(t) || is_assignment_token(t) || (1 <= binary_level(t) && binary_level(t) < level)
}

/// Whether `t` is an operand that stands for itself: a number, or a name
/// other than `true`, `false`, `null` and `undefined`.
pub open spec fn simple_operand(t: Tok) -> bool {
    t is Number || (t matches Tok::Identifier(n) && n != "true"@ && n != "false"@ && n != "null"@ && n != "undefined"@)
}

/// `e` is the expression that the simple operand `t` writes: the number
/// literal of its text, or the variable of its name.
pub open spec fn is_operand_of(e: Expression, t: Tok) -> bool {
    match t {
        Tok::Number(x) => e matches Expression::NumberLiteral(a) && a@ == x,
        Tok::Identifier(x) => e matches Expression::Identifier(a) && a@ == x,
        _ => false,
    }
}

/// From position `from` on, `ts` holds a simple operand, a binary operator,
/// a simple operand, and a token that closes an expression.
pub open spec fn operand_operation_at(ts: Seq<SpannedToken>, from: int) -> bool {
    &&& simple_operand(tok_in(ts, from))
    &&& binary_level(tok_in(ts, from + 1)) >= 1
    &&& simple_operand(tok_in(ts, from + 2))
    &&& closes(tok_in(ts, from + 3))
}

/// `e` applies the operator written at `from + 1` in `ts` to the operands
/// written at `from` and `from + 2`.
pub open spec fn is_operand_operation(e: Expression, ts: Seq<SpannedToken>, from: int) -> bool {
    &&& e matches Expression::BinaryOp { op, left, right }
    &&& op == binary_operator_of(tok_in(ts, from + 1))
    &&& is_operand_of(*left, tok_in(ts, from))
    &&& is_operand_of(*right, tok_in(ts, from + 2))
}

/// From position `from` on, `ts` holds one line, a simple operand, a binary
/// operator, a simple operand and `;`, and then ends.
pub open spec fn operand_operation_line(ts: Seq<SpannedToken>, from: int) -> bool {
    &&& operand_operation_at(ts, from)
    &&& tok_in(ts, from + 3) is Semicolon
    &&& tok_in(ts, from + 4) is Eof
}

/// From position `from` on, `ts` holds one line, a number, a binary operator,
/// a number and `;`, and then ends.
pub open spec fn number_operation_line(ts: Seq<SpannedToken>, from: int) -> bool {
    &&& number_operation_at(ts, from)
    &&& tok_in(ts, from + 3) is Semicolon
    &&& tok_in(ts, from + 4) is Eof
}

/// From position `from` on, `ts` holds a number, a binary operator, a number,
/// and a token that closes an expression.
pub open spec fn number_operation_at(ts: Seq<SpannedToken>, from: int) -> bool {
    &&& tok_in(ts, from) is Number
    &&& binary_level(tok_in(ts, from + 1)) >= 1
    &&& tok_in(ts, from + 2) is Number
    &&& closes(tok_in(ts, from + 3))
}

/// `e` applies the operator written at `from + 1` in `ts` to the number
/// literals written at `from` and `from + 2`.
pub open spec fn is_number_operation(e: Expression, ts: Seq<SpannedToken>, from: int) -> bool {
    &&& e matches Expression::BinaryOp { op, left, right }
    &&& op == binary_operator_of(tok_in(ts, from + 1))
    &&& (*left) matches Expression::NumberLiteral(a)
    &&& a@ == tok_in(ts, from)->Number_0
    &&& (*right) matches Expression::NumberLiteral(b)
    &&& b@ == tok_in(ts, from + 2)->Number_0
}

/// Whether `t` ends an operand of `+` or `-`: it closes an expression, or it
/// is `+` or `-` itself.
pub open spec fn ends_term(t: Tok) -> bool {
    closes(t) || t is Plus || t is Minus
}

/// The text that `{:?}` gives for a token: its variant's name, with the
/// payload in parentheses. A number shows its text, with `.0` added where it
/// was written with decimal digits only (as a double prints); texts are quoted
/// and escaped; a template literal shows `..` for its parts.
pub open spec fn token_debug(t: Tok) -> Seq<char> {
    match t {
        Tok::Number(n) => "Number("@ + n + (if all_digits(n) { ".0"@ } else { Seq::empty() }) + ")"@,
        Tok::String(x) => "String(\""@ + escaped(x) + "\")"@,
        Tok::BigInt(x) => "BigInt(\""@ + escaped(x) + "\")"@,
        Tok::Regex(x) => "Regex(\""@ + escaped(x) + "\")"@,
        Tok::Identifier(x) => "Identifier(\""@ + escaped(x) + "\")"@,
        Tok::TemplateLiteral(_) => "TemplateLiteral(..)"@,
        _ => tok_name(t),
    }
}

/// The hexadecimal digit for `v < 16`.
fn hex_char(v: u32) -> (r: char)
    requires
        v < 16,
    ensures
        r == hex_digit(v as nat),
{
    if v == 0 { '0' } else if v == 1 { '1' } else if v == 2 { '2' } else if v == 3 { '3' }
    else if v == 4 { '4' } else if v == 5 { '5' } else if v == 6 { '6' } else if v == 7 { '7' }
    else if v == 8 { '8' } else if v == 9 { '9' } else if v == 10 { 'a' } else if v == 11 { 'b' }
    else if v == 12 { 'c' } else if v == 13 { 'd' } else if v == 14 { 'e' } else { 'f' }
}

/// Appends `c` escaped as inside a quoted string.
fn push_escaped(out: &mut String, c: char)
    ensures
        final(out)@ == old(out)@ + escaped_char(c),
{
    let v = c as u32;
    if c == '"' {
        out.append("\\\"");
    } else if c == '\\' {
        out.append("\\\\");
    } else if c == '\n' {
        out.append("\\n");
    } else if c == '\r' {
        out.append("\\r");
    } else if c == '\t' {
        out.append("\\t");
    } else if v == 0 {
        out.append("\\0");
    } else if v < 0x20 || v == 0x7f {
        out.append("\\u{");
        if v < 16 {
            push_char(out, hex_char(v));
        } else {
            push_char(out, hex_char(v / 16));
            push_char(out, hex_char(v % 16));
        }
        out.append("}");
        proof {
            reveal_strlit("\\u{");
            reveal_strlit("}");
        }
        assert(final(out)@ =~= old(out)@ + escaped_char(c));
    } else {
        push_char(out, c);
    }
}

/// Appends `s` escaped as inside a quoted string.
pub(crate) fn push_escaped_str(out: &mut String, s: &String)
    ensures
        final(out)@ == old(out)@ + escaped(s@),
{
    let cs = chars_of(s.as_str());
    let ghost start = out@;
    let mut i: usize = 0;
    while i < cs.len()
        invariant
            i <= cs@.len(),
            cs@ == s@,
            out@ == start + escaped(cs@.take(i as int)),
        decreases cs@.len() - i,
    {
        push_escaped(out, cs[i]);
        assert(cs@.take(i + 1).drop_last() == cs@.take(i as int));
        assert(out@ =~= start + escaped(cs@.take(i + 1)));
        i += 1;
    }
    assert(cs@.take(cs@.len() as int) == cs@);
}

/// Whether `s` holds decimal digits only (and at least one).
pub(crate) fn digits_only(s: &String) -> (r: bool)
    ensures
        r == all_digits(s@),
{
    let cs = chars_of(s.as_str());
    if cs.len() == 0 {
        return false;
    }
    let mut i: usize = 0;
    while i < cs.len()
        invariant
            i <= cs@.len(),
            cs@ == s@,
            forall|k: int| 0 <= k < i ==> '0' <= #[trigger] cs@[k] <= '9',
        decreases cs@.len() - i,
    {
        if !('0' <= cs[i] && cs[i] <= '9') {
            return false;
        }
        i += 1;
    }
    true
}

/// The text of `t` as `token_debug` says.
pub fn token_debug_text(t: &Token) -> (r: String)
    ensures
        r@ == token_debug(token_view(*t)),
{
    let mut out = String::new();
    out.append(token_name(t));
    match t {
        Token::Number(n) => {
            out.append("(");
            out.append(n.as_str());
            if digits_only(n) {
                out.append(".0");
            }
            out.append(")");
        },
        Token::String(x) | Token::BigInt(x) | Token::Regex(x) | Token::Identifier(x) => {
            out.append("(\"");
            push_escaped_str(&mut out, x);
            out.append("\")");
        },
        Token::TemplateLiteral(_) => {
            out.append("(..)");
        },
        _ => {},
    }
    proof {
        reveal_strlit("(");
        reveal_strlit(")");
        reveal_strlit(".0");
        reveal_strlit("(\"");
        reveal_strlit("\")");
        reveal_strlit("(..)");
        reveal_strlit("Number");
        reveal_strlit("String");
        reveal_strlit("BigInt");
        reveal_strlit("Regex");
        reveal_strlit("Identifier");
        reveal_strlit("TemplateLiteral");
        reveal_strlit("Number(");
        reveal_strlit("String(\"");
        reveal_strlit("BigInt(\"");
        reveal_strlit("Regex(\"");
        reveal_strlit("Identifier(\"");
        reveal_strlit("\")");
        reveal_strlit("TemplateLiteral(..)");
    }
    assert(out@ =~= token_debug(token_view(*t)));
    out
}

/// The message of a parse error about an unexpected token: what was
/// expected, then `, got ` and the token as `{:?}` prints it.
pub open spec fn got_message(expected: Seq<char>, t: Tok) -> Seq<char> {
    expected + ", got "@ + token_debug(t)
}

/// A parse error saying that `expected` was expected and `t` came.
fn got_error(expected: &str, t: &Token) -> (e: Error)
    ensures
        e.kind is ParseError,
        e.kind.msg() == got_message(expected@, token_view(*t)),
{
    let mut m = String::from_str(expected);
    m.append(", got ");
    let d = token_debug_text(t);
    m.append(d.as_str());
    Error::ParseError(m)
}

/// A parse error with the message `msg`.
fn parse_error_of(msg: &str) -> (e: Error)
    ensures
        e.kind is ParseError,
        e.kind.msg() == msg@,
{
    Error::ParseError(String::from_str(msg))
}

/// Whether `e` is a parse error.
pub open spec fn is_parse_failure(e: Error) -> bool {
    e.kind is ParseError
}

/// Parses a program from `tokens`: statements up to the end of input (the
/// end-of-input token, or the end of the list), each taking at least one
/// token; a parse error on the first token that does not fit the grammar.
/// The token at position `i` of `ts`, the end of input past the last one.
pub open spec fn tok_in(ts: Seq<SpannedToken>, i: int) -> Tok {
    if 0 <= i < ts.len() {
        token_view(ts[i].token)
    } else {
        Tok::Eof
    }
}

/// Line `j` from position `from` on is a number and a semicolon.
pub open spec fn is_number_line(ts: Seq<SpannedToken>, from: int, j: int) -> bool {
    tok_in(ts, from + 2 * j) is Number && tok_in(ts, from + 2 * j + 1) is Semicolon
}

/// From position `from` on, `ts` holds `k` lines of a number and a
/// semicolon, and then ends.
pub open spec fn number_lines(ts: Seq<SpannedToken>, from: int, k: int) -> bool {
    &&& 0 <= k
    &&& forall|j: int| 0 <= j < k ==> #[trigger] is_number_line(ts, from, j)
    &&& tok_in(ts, from + 2 * k) is Eof
}

/// `ss` holds, in order, one expression statement for each number line of
/// `ts` from position `from` on: the number's literal.
pub open spec fn number_statements(ss: Seq<Statement>, ts: Seq<SpannedToken>, from: int, k: int) -> bool {
    &&& ss.len() == k
    &&& forall|j: int| 0 <= j < k ==> (#[trigger] ss[j] matches Statement::Expression(Expression::NumberLiteral(x))
        && x@ == tok_in(ts, from + 2 * j)->Number_0)
}

pub fn parse(tokens: &[SpannedToken]) -> (r: Result<AstNode, Error>)
    ensures
        forall|k: int| #[trigger] number_lines(tokens@, 0, k) ==> (r matches Ok(AstNode::Program(s))
            && number_statements(s@, tokens@, 0, k)),
        number_operation_line(tokens@, 0) ==> (r matches Ok(AstNode::Program(s)) && s@.len() == 1
            && (s@[0] matches Statement::Expression(e) && is_number_operation(e, tokens@, 0))),
        operand_operation_line(tokens@, 0) ==> (r matches Ok(AstNode::Program(s)) && s@.len() == 1
            && (s@[0] matches Statement::Expression(e) && is_operand_operation(e, tokens@, 0))),
        r matches Ok(n) ==> n is Program,
        r matches Err(e) ==> is_parse_failure(e),
        (tokens@.len() == 0 || token_view(tokens@[0].token) is Eof) ==> (r matches Ok(
            AstNode::Program(s),
        ) && s@.len() == 0),
        r matches Ok(AstNode::Program(s)) ==> (s@.len() == 0 <==> (tokens@.len() == 0 || token_view(
            tokens@[0].token,
        ) is Eof)) && s@.len() <= tokens@.len(),
{
    let mut parser = Parser::new(tokens);
    parser.parse_program()
}

/// The parser's state: the tokens, the position of the next one, and the
/// end-of-input token that stands for every position past the end.
pub(crate) struct Parser<'a> {
    pub(crate) tokens: &'a [SpannedToken],
    pub(crate) pos: usize,
    pub(crate) end: Token,
}

impl<'a> Parser<'a> {
    pub(crate) open spec fn wf(&self) -> bool {
        self.pos <= self.tokens@.len() && self.end == Token::Eof
    }

    /// The token at position `i`, the end of input past the last one.
    pub(crate) open spec fn tok_at(&self, i: int) -> Tok {
        if 0 <= i < self.tokens@.len() {
            token_view(self.tokens@[i].token)
        } else {
            Tok::Eof
        }
    }

    /// The next token.
    pub(crate) open spec fn cur(&self) -> Tok {
        self.tok_at(self.pos as int)
    }

    pub(crate) open spec fn depth(&self) -> nat {
        tokens_depth(self.tokens@)
    }

    pub(crate) open spec fn rest(&self) -> nat {
        (self.tokens@.len() - self.pos) as nat
    }

    /// The next token is a simple operand and the one after it ends an
    /// operand of an operator of level `level`.
    pub(crate) open spec fn operand_below(&self, level: int) -> bool {
        simple_operand(self.cur()) && ends_operand(self.tok_at(self.pos + 1), level)
    }

    /// `r` is the expression of the next token, a simple operand, and
    /// `after` is just past it.
    pub(crate) open spec fn gives_operand(&self, r: Result<Expression, Error>, after: Self) -> bool {
        &&& r is Ok
        &&& is_operand_of(r->Ok_0, self.cur())
        &&& after.pos == self.pos + 1
    }

    /// The next tokens are a simple operand, a binary operator of level
    /// `level` or tighter, a simple operand, and a token that closes an
    /// expression.
    pub(crate) open spec fn operand_pair(&self, level: int) -> bool {
        &&& operand_operation_at(self.tokens@, self.pos as int)
        &&& binary_level(self.tok_at(self.pos + 1)) >= level
    }

    /// `e` is the operation that `operand_pair` names.
    pub(crate) open spec fn is_operand_pair(&self, e: Expression) -> bool {
        is_operand_operation(e, self.tokens@, self.pos as int)
    }

    /// The next token is a number and the one after it ends an operand of an
    /// operator of level `level`.
    pub(crate) open spec fn number_below(&self, level: int) -> bool {
        self.cur() is Number && ends_operand(self.tok_at(self.pos + 1), level)
    }

    /// The next tokens are a number, a binary operator of level `level` or
    /// tighter, a number, and a token that closes an expression.
    pub(crate) open spec fn number_pair(&self, level: int) -> bool {
        &&& number_operation_at(self.tokens@, self.pos as int)
        &&& binary_level(self.tok_at(self.pos + 1)) >= level
    }

    /// `e` is the operation that `number_pair` names.
    pub(crate) open spec fn is_number_pair(&self, e: Expression) -> bool {
        is_number_operation(e, self.tokens@, self.pos as int)
    }

    /// The next token is a number and the one after it ends an operand of
    /// `+` or `-`.
    pub(crate) open spec fn number_term(&self) -> bool {
        self.cur() is Number && ends_term(self.tok_at(self.pos + 1))
    }

    /// The next tokens are a number, `+` or `-`, a number, and a token that
    /// ends an expression.
    pub(crate) open spec fn number_sum(&self) -> bool {
        &&& self.cur() is Number
        &&& (self.tok_at(self.pos + 1) is Plus || self.tok_at(self.pos + 1) is Minus)
        &&& self.tok_at(self.pos + 2) is Number
        &&& closes(self.tok_at(self.pos + 3))
    }

    /// `e` is the sum or difference of the two numbers that `number_sum`
    /// names.
    pub(crate) open spec fn is_number_sum(&self, e: Expression) -> bool {
        &&& e matches Expression::BinaryOp { op, left, right }
        &&& op == (if self.tok_at(self.pos + 1) is Plus { BinaryOperator::Add } else { BinaryOperator::Sub })
        &&& (*left) matches Expression::NumberLiteral(a)
        &&& a@ == self.cur()->Number_0
        &&& (*right) matches Expression::NumberLiteral(b)
        &&& b@ == self.tok_at(self.pos + 2)->Number_0
    }

    /// The next token is a number and the one after it ends an expression.
    pub(crate) open spec fn lone_number(&self) -> bool {
        self.cur() is Number && closes(self.tok_at(self.pos + 1))
    }

    /// `r` is the literal of the next token, a number, and `after` is just
    /// past it.
    pub(crate) open spec fn gives_number(&self, r: Result<Expression, Error>, after: Self) -> bool {
        &&& r matches Ok(Expression::NumberLiteral(s))
        &&& s@ == self.cur()->Number_0
        &&& after.pos == self.pos + 1
    }

    /// `r` is an expression statement of the literal of the next token, a
    /// number, and `after` is past the semicolon after it.
    pub(crate) open spec fn number_line(&self, r: Result<Statement, Error>, after: Self) -> bool {
        &&& r matches Ok(Statement::Expression(Expression::NumberLiteral(s)))
        &&& s@ == self.cur()->Number_0
        &&& after.pos == self.pos + 2
    }

    /// The tokens from position `i` on name the import specifier `s`: its
    /// imported name, then either `as` and its local name, or nothing else
    /// and a local name equal to the imported one.
    pub(crate) open spec fn names_specifier(&self, i: int, s: ImportSpecifier) -> bool {
        &&& s.imported matches Some(im)
        &&& self.tok_at(i) == Tok::Identifier(im@)
        &&& if self.tok_at(i + 1) is As {
            self.tok_at(i + 2) == Tok::Identifier(s.local@)
        } else {
            s.local@ == im@
        }
    }

    /// The specifiers `ss` are named, each by the tokens at the place `pl`
    /// gives for it, at places in `from..to`.
    pub(crate) open spec fn specifiers_placed(&self, from: int, to: int, ss: Seq<ImportSpecifier>, pl: Seq<int>) -> bool {
        &&& pl.len() == ss.len()
        &&& forall|j: int| #![trigger ss[j]] 0 <= j < ss.len() ==> from <= pl[j] < to && self.names_specifier(pl[j], ss[j])
    }

    /// The tokens at place `i` begin the class member `m`: it is static
    /// exactly where they begin with `static` (a constructor has no such
    /// flag), and a method is async exactly where `async` comes next.
    pub(crate) open spec fn member_at(&self, i: int, m: ClassMember) -> bool {
        &&& !(m is Constructor) ==> (member_static(m) == (self.tok_at(i) is Static))
        &&& (m matches ClassMember::Method { is_async, .. } ==> is_async == (self.tok_at(
            if self.tok_at(i) is Static { i + 1 } else { i },
        ) is Async))
    }

    /// The members `ms` begin, each, at the place `pl` gives for it, at
    /// places in `from..to`.
    pub(crate) open spec fn members_placed(&self, from: int, to: int, ms: Seq<ClassMember>, pl: Seq<int>) -> bool {
        &&& pl.len() == ms.len()
        &&& forall|j: int| #![trigger ms[j]] 0 <= j < ms.len() ==> from <= pl[j] < to && self.member_at(pl[j], ms[j])
    }

    /// `after` is a later state of the same parse.
    pub(crate) open spec fn step(&self, after: Self) -> bool {
        &&& after.wf()
        &&& after.tokens == self.tokens
        &&& self.pos <= after.pos
    }

    pub(crate) fn new(tokens: &'a [SpannedToken]) -> (p: Self)
        ensures
            p.wf(),
            p.pos == 0,
            p.tokens == tokens,
    {
        Parser { tokens, pos: 0, end: Token::Eof }
    }

    /// The next token, the end of input past the last one.
    pub(crate) fn peek(&self) -> (r: &Token)
        requires
            self.wf(),
        ensures
            token_view(*r) == self.cur(),
    {
        if self.pos < self.tokens.len() {
            &self.tokens[self.pos].token
        } else {
            &self.end
        }
    }

    /// Whether the next token is of the variant of `t`.
    pub(crate) fn at(&self, t: &Token) -> (r: bool)
        requires
            self.wf(),
        ensures
            r == (tok_kind(self.cur()) == tok_kind(token_view(*t))),
    {
        token_kind(self.peek()) == token_kind(t)
    }

    /// Moves past the next token; past the end it stays.
    pub(crate) fn advance(&mut self)
        requires
            old(self).wf(),
        ensures
            old(self).step(*final(self)),
            final(self).pos == (if old(self).pos < old(self).tokens@.len() { old(self).pos + 1 } else { old(self).pos as int }),
    {
        if self.pos < self.tokens.len() {
            self.pos = self.pos + 1;
        }
    }

    /// Consumes the next token, which must be of the variant of `expected`
    /// (a token without a payload).
    pub(crate) fn expect(&mut self, expected: &Token) -> (r: Result<(), Error>)
        requires
            old(self).wf(),
            tok_kind(token_view(*expected)) >= 6,
            !(token_view(*expected) is Eof),
        ensures
            old(self).step(*final(self)),
            r is Ok <==> tok_kind(old(self).cur()) == tok_kind(token_view(*expected)),
            r is Ok ==> final(self).pos == old(self).pos + 1,
            r matches Err(e) ==> e.kind is ParseError && e.kind.msg() == got_message(
                "Expected "@ + token_debug(token_view(*expected)),
                old(self).cur(),
            ),
    {
        let ok = self.at(expected);
        if ok {
            proof {
                assert(self.pos < self.tokens@.len());
            }
            self.advance();
            Ok(())
        } else {
            let mut m = String::from_str("Expected ");
            let d = token_debug_text(expected);
            m.append(d.as_str());
            let e = got_error(m.as_str(), self.peek());
            self.advance();
            Err(e)
        }
    }

    /// Consumes the next token, which must be an identifier, and gives its
    /// name; otherwise a parse error that says `what` was expected.
    pub(crate) fn advance_identifier(&mut self, what: &str) -> (r: Result<String, Error>)
        requires
            old(self).wf(),
        ensures
            old(self).step(*final(self)),
            final(self).pos == (if old(self).pos < old(self).tokens@.len() { old(self).pos + 1 } else { old(self).pos as int }),
            match r {
                Ok(n) => old(self).cur() == Tok::Identifier(n@),
                Err(e) => !(old(self).cur() is Identifier) && e.kind is ParseError
                    && e.kind.msg() == got_message(what@, old(self).cur()),
            },
    {
        let r = match self.peek() {
            Token::Identifier(n) => Ok(n.clone()),
            t => Err(got_error(what, t)),
        };
        self.advance();
        r
    }
}

} // verus!
