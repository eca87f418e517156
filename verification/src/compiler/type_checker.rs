//! A type checker over the syntax tree: literal and operator types,
//! assignability, and variables looked up through nested scopes.
use vstd::prelude::*;
use vstd::string::*;
use crate::compiler::parser::{
    all_digits, digits_only, escaped, push_escaped_str, AstNode, BinaryOperator, ClassMember, Expression, ForInit, Statement,
    SwitchCase, TypeAnnotation, TypeLiteral, UnaryOperator, VarKind, VariableDeclarator,
};
use crate::errors::{Error, ErrorClass};
use crate::text::str_eq;

verus! {

/// A static type.
#[derive(Debug)]
pub enum Type {
    Number,
    String,
    Boolean,
    Null,
    Undefined,
    Void,
    Never,
    Unknown,
    Any,
    Union(Vec<Type>),
    Intersection(Vec<Type>),
    Named(String),
    Array(Box<Type>),
    Tuple(Vec<Type>),
    Generic { name: String, args: Vec<Type> },
    NumberLiteral(String),
    StringLiteral(String),
    Object(Vec<ObjectProperty>),
}

/// A property of an object type: its name, its type, and whether it may be
/// left out.
#[derive(Debug)]
pub struct ObjectProperty {
    pub name: String,
    pub ty: Type,
    pub optional: bool,
}

/// A static type as a plain value.
pub enum Ty {
    Number,
    String,
    Boolean,
    Null,
    Undefined,
    Void,
    Never,
    Unknown,
    Any,
    Union(Seq<Ty>),
    Intersection(Seq<Ty>),
    Named(Seq<char>),
    Array(Box<Ty>),
    Tuple(Seq<Ty>),
    Generic(Seq<char>, Seq<Ty>),
    NumberLiteral(Seq<char>),
    StringLiteral(Seq<char>),
    Object(Seq<PropTy>),
}

/// A property of an object type as plain values.
pub struct PropTy {
    pub name: Seq<char>,
    pub ty: Ty,
    pub optional: bool,
}

pub open spec fn type_view(t: Type) -> Ty
    decreases t, 0nat,
{
    match t {
        Type::Number => Ty::Number,
        Type::String => Ty::String,
        Type::Boolean => Ty::Boolean,
        Type::Null => Ty::Null,
        Type::Undefined => Ty::Undefined,
        Type::Void => Ty::Void,
        Type::Never => Ty::Never,
        Type::Unknown => Ty::Unknown,
        Type::Any => Ty::Any,
        Type::Union(v) => Ty::Union(types_view(v@)),
        Type::Intersection(v) => Ty::Intersection(types_view(v@)),
        Type::Named(n) => Ty::Named(n@),
        Type::Array(b) => Ty::Array(Box::new(type_view(*b))),
        Type::Tuple(v) => Ty::Tuple(types_view(v@)),
        Type::Generic { name, args } => Ty::Generic(name@, types_view(args@)),
        Type::NumberLiteral(n) => Ty::NumberLiteral(n@),
        Type::StringLiteral(n) => Ty::StringLiteral(n@),
        Type::Object(ps) => Ty::Object(props_view(ps@)),
    }
}

/// The place of the first property named `name` in `ps`, if any.
fn find_prop(ps: &Vec<ObjectProperty>, name: &String) -> (r: Option<usize>)
    ensures
        match r {
            Some(k) => k < ps@.len() && prop_type(props_view(ps@), name@, 0) == Some(type_view(ps@[k as int].ty)),
            None => prop_type(props_view(ps@), name@, 0) is None,
        },
{
    proof {
        lemma_props_view(ps@);
    }
    let ghost pa = props_view(ps@);
    let mut k: usize = 0;
    while k < ps.len()
        invariant
            k <= ps@.len(),
            pa == props_view(ps@),
            pa.len() == ps@.len(),
            forall|j: int| 0 <= j < ps@.len() ==> #[trigger] pa[j] == (PropTy {
                name: ps@[j].name@,
                ty: type_view(ps@[j].ty),
                optional: ps@[j].optional,
            }),
            prop_type(pa, name@, 0) == prop_type(pa, name@, k as int),
        decreases ps@.len() - k,
    {
        if str_eq(ps[k].name.as_str(), name.as_str()) {
            assert(pa[k as int].name == name@);
            return Some(k);
        }
        assert(pa[k as int].name != name@);
        k += 1;
    }
    None
}

/// The properties of an object type as plain values.
pub open spec fn props_view(s: Seq<ObjectProperty>) -> Seq<PropTy>
    decreases s, s.len(),
{
    if s.len() == 0 {
        Seq::empty()
    } else {
        props_view(s.drop_last()).push(PropTy { name: s.last().name@, ty: type_view(s.last().ty), optional: s.last().optional })
    }
}

proof fn lemma_props_view(s: Seq<ObjectProperty>)
    ensures
        props_view(s).len() == s.len(),
        forall|i: int| 0 <= i < s.len() ==> #[trigger] props_view(s)[i] == (PropTy {
            name: s[i].name@,
            ty: type_view(s[i].ty),
            optional: s[i].optional,
        }),
    decreases s.len(),
{
    if s.len() > 0 {
        lemma_props_view(s.drop_last());
        assert forall|i: int| 0 <= i < s.len() implies #[trigger] props_view(s)[i] == (PropTy {
            name: s[i].name@,
            ty: type_view(s[i].ty),
            optional: s[i].optional,
        }) by {
            if i < s.len() - 1 {
                assert(s.drop_last()[i] == s[i]);
            }
        }
    }
}

pub open spec fn types_view(s: Seq<Type>) -> Seq<Ty>
    decreases s, s.len(),
{
    if s.len() == 0 {
        Seq::empty()
    } else {
        types_view(s.drop_last()).push(type_view(s.last()))
    }
}

proof fn lemma_types_view(s: Seq<Type>)
    ensures
        types_view(s).len() == s.len(),
        forall|i: int| 0 <= i < s.len() ==> #[trigger] types_view(s)[i] == type_view(s[i]),
    decreases s.len(),
{
    if s.len() > 0 {
        lemma_types_view(s.drop_last());
        assert forall|i: int| 0 <= i < s.len() implies #[trigger] types_view(s)[i] == type_view(s[i]) by {
            if i < s.len() - 1 {
                assert(s.drop_last()[i] == s[i]);
            }
        }
    }
}

/// The type that an annotation denotes.
pub open spec fn ann_type(a: TypeAnnotation) -> Ty
    decreases a, 0nat,
{
    match a {
        TypeAnnotation::Number => Ty::Number,
        TypeAnnotation::String => Ty::String,
        TypeAnnotation::Boolean => Ty::Boolean,
        TypeAnnotation::Null => Ty::Null,
        TypeAnnotation::Undefined => Ty::Undefined,
        TypeAnnotation::Void => Ty::Void,
        TypeAnnotation::Any => Ty::Any,
        TypeAnnotation::Unknown => Ty::Unknown,
        TypeAnnotation::Never => Ty::Never,
        TypeAnnotation::Named(n) => Ty::Named(n@),
        TypeAnnotation::Array(b) => Ty::Array(Box::new(ann_type(*b))),
        TypeAnnotation::Tuple(v) => Ty::Tuple(anns_type(v@)),
        TypeAnnotation::Union(v) => Ty::Union(anns_type(v@)),
        TypeAnnotation::Intersection(v) => Ty::Intersection(anns_type(v@)),
        TypeAnnotation::Literal(TypeLiteral::Number(n)) => Ty::NumberLiteral(n@),
        TypeAnnotation::Literal(TypeLiteral::String(n)) => Ty::StringLiteral(n@),
        TypeAnnotation::Generic { name, args } => Ty::Generic(name@, anns_type(args@)),
        TypeAnnotation::Object(v) => Ty::Object(ann_props(v@)),
    }
}

/// The properties that the properties of an object type annotation denote.
pub open spec fn ann_props(s: Seq<(String, TypeAnnotation, bool)>) -> Seq<PropTy>
    decreases s, s.len(),
{
    if s.len() == 0 {
        Seq::empty()
    } else {
        ann_props(s.drop_last()).push(PropTy { name: s.last().0@, ty: ann_type(s.last().1), optional: s.last().2 })
    }
}

/// The types that a list of annotations denotes, in order.
pub open spec fn anns_type(s: Seq<TypeAnnotation>) -> Seq<Ty>
    decreases s, s.len(),
{
    if s.len() == 0 {
        Seq::empty()
    } else {
        anns_type(s.drop_last()).push(ann_type(s.last()))
    }
}

/// Whether a value of type `actual` may be given where `expected` is wanted:
/// equal types, `any` or `unknown` on either side, `never` expected, a member
/// of a union that is, a literal type and its base type either way, arrays
/// of compatible elements, tuples of the same length compatible place by
/// place, and a tuple and an array whose element fits each member.
pub open spec fn compatible(expected: Ty, actual: Ty) -> bool
    decreases expected, actual, 0int,
{
    if expected == actual {
        true
    } else if expected is Any || actual is Any {
        true
    } else if expected is Unknown || actual is Unknown {
        true
    } else if expected is Never {
        true
    } else {
        match expected {
            Ty::Union(ts) => any_accepts(ts, actual, 0),
            _ => match actual {
                Ty::Union(ts) => accepts_any(expected, ts, 0),
                _ => match (expected, actual) {
                    (Ty::Number, Ty::NumberLiteral(_)) => true,
                    (Ty::NumberLiteral(_), Ty::Number) => true,
                    (Ty::String, Ty::StringLiteral(_)) => true,
                    (Ty::StringLiteral(_), Ty::String) => true,
                    (Ty::Array(a), Ty::Array(b)) => compatible(*a, *b),
                    (Ty::Tuple(a), Ty::Tuple(b)) => a.len() == b.len() && pairs_compatible(a, b, 0),
                    (Ty::Tuple(a), Ty::Array(b)) => all_fit(a, *b, 0),
                    (Ty::Array(a), Ty::Tuple(b)) => fits_all(*a, b, 0),
                    (Ty::Object(a), Ty::Object(b)) => props_fit(a, b, 0),
                    _ => false,
                },
            },
        }
    }
}

/// The type of the first property named `name` in `ps[j..]`, if any.
pub open spec fn prop_type(ps: Seq<PropTy>, name: Seq<char>, j: int) -> Option<Ty>
    decreases ps.len() - j,
{
    if j < 0 || j >= ps.len() {
        None
    } else if ps[j].name == name {
        Some(ps[j].ty)
    } else {
        prop_type(ps, name, j + 1)
    }
}

/// Whether each property of `pe[i..]` is met by `pa`: a property that may be
/// left out always is; another must be there with a type it accepts.
pub open spec fn props_fit(pe: Seq<PropTy>, pa: Seq<PropTy>, i: int) -> bool
    decreases pe, pa, pe.len() - i,
{
    if i < 0 || i >= pe.len() {
        true
    } else {
        (match prop_type(pa, pe[i].name, 0) {
            Some(t) => pe[i].optional || compatible(pe[i].ty, t),
            None => pe[i].optional,
        }) && props_fit(pe, pa, i + 1)
    }
}

/// Whether each of `a[i..]` accepts the type at the same place in `b`.
pub open spec fn pairs_compatible(a: Seq<Ty>, b: Seq<Ty>, i: int) -> bool
    decreases a, b, a.len() - i,
{
    if i < 0 || i >= a.len() || i >= b.len() {
        true
    } else {
        compatible(a[i], b[i]) && pairs_compatible(a, b, i + 1)
    }
}

/// Whether each of `ts[i..]` accepts a value of type `actual`.
pub open spec fn all_fit(ts: Seq<Ty>, actual: Ty, i: int) -> bool
    decreases ts, actual, ts.len() - i,
{
    if i < 0 || i >= ts.len() {
        true
    } else {
        compatible(ts[i], actual) && all_fit(ts, actual, i + 1)
    }
}

/// Whether `expected` accepts a value of each of the types `ts[i..]`.
pub open spec fn fits_all(expected: Ty, ts: Seq<Ty>, i: int) -> bool
    decreases expected, ts, ts.len() - i,
{
    if i < 0 || i >= ts.len() {
        true
    } else {
        compatible(expected, ts[i]) && fits_all(expected, ts, i + 1)
    }
}

/// Whether one of `ts[i..]` accepts a value of type `actual`.
pub open spec fn any_accepts(ts: Seq<Ty>, actual: Ty, i: int) -> bool
    decreases ts, actual, ts.len() - i,
{
    if i < 0 || i >= ts.len() {
        false
    } else {
        compatible(ts[i], actual) || any_accepts(ts, actual, i + 1)
    }
}

/// Whether `expected` accepts a value of one of the types `ts[i..]`.
pub open spec fn accepts_any(expected: Ty, ts: Seq<Ty>, i: int) -> bool
    decreases expected, ts, ts.len() - i,
{
    if i < 0 || i >= ts.len() {
        false
    } else {
        compatible(expected, ts[i]) || accepts_any(expected, ts, i + 1)
    }
}

/// A type as `{:?}` prints it.
pub open spec fn ty_debug(t: Ty) -> Seq<char>
    decreases t, 0nat,
{
    match t {
        Ty::Number => "Number"@,
        Ty::String => "String"@,
        Ty::Boolean => "Boolean"@,
        Ty::Null => "Null"@,
        Ty::Undefined => "Undefined"@,
        Ty::Void => "Void"@,
        Ty::Never => "Never"@,
        Ty::Unknown => "Unknown"@,
        Ty::Any => "Any"@,
        Ty::Union(ts) => "Union(["@ + tys_debug(ts) + "])"@,
        Ty::Intersection(ts) => "Intersection(["@ + tys_debug(ts) + "])"@,
        Ty::Named(n) => "Named(\""@ + escaped(n) + "\")"@,
        Ty::Array(b) => "Array("@ + ty_debug(*b) + ")"@,
        Ty::Tuple(ts) => "Tuple(["@ + tys_debug(ts) + "])"@,
        Ty::Generic(n, ts) => "Generic { name: \""@ + escaped(n) + "\", args: ["@ + tys_debug(ts) + "] }"@,
        Ty::NumberLiteral(n) => "NumberLiteral("@ + n + (if all_digits(n) { ".0"@ } else { Seq::empty() }) + ")"@,
        Ty::StringLiteral(n) => "StringLiteral(\""@ + escaped(n) + "\")"@,
        Ty::Object(ps) => "Object(["@ + props_debug(ps) + "])"@,
    }
}

/// A property as `{:?}` prints it.
pub open spec fn prop_debug(p: PropTy) -> Seq<char>
    decreases p, 0nat,
{
    "ObjectProperty { name: \""@ + escaped(p.name) + "\", ty: "@ + ty_debug(p.ty) + ", optional: "@
        + (if p.optional { "true"@ } else { "false"@ }) + " }"@
}

/// Properties as `{:?}` prints a list of them, without the brackets.
pub open spec fn props_debug(ps: Seq<PropTy>) -> Seq<char>
    decreases ps, ps.len(),
{
    if ps.len() == 0 {
        Seq::empty()
    } else if ps.len() == 1 {
        prop_debug(ps[0])
    } else {
        props_debug(ps.drop_last()) + ", "@ + prop_debug(ps.last())
    }
}

/// Types as `{:?}` prints a list of them, without the brackets.
pub open spec fn tys_debug(ts: Seq<Ty>) -> Seq<char>
    decreases ts, ts.len(),
{
    if ts.len() == 0 {
        Seq::empty()
    } else if ts.len() == 1 {
        ty_debug(ts[0])
    } else {
        tys_debug(ts.drop_last()) + ", "@ + ty_debug(ts.last())
    }
}

/// A binary operator as `{:?}` prints it.
pub open spec fn op_debug(op: BinaryOperator) -> Seq<char> {
    match op {
        BinaryOperator::Add => "Add"@,
        BinaryOperator::Sub => "Sub"@,
        BinaryOperator::Mul => "Mul"@,
        BinaryOperator::Div => "Div"@,
        BinaryOperator::Mod => "Mod"@,
        BinaryOperator::Eq => "Eq"@,
        BinaryOperator::StrictEq => "StrictEq"@,
        BinaryOperator::NotEqual => "NotEqual"@,
        BinaryOperator::StrictNotEqual => "StrictNotEqual"@,
        BinaryOperator::Less => "Less"@,
        BinaryOperator::Greater => "Greater"@,
        BinaryOperator::LessEqual => "LessEqual"@,
        BinaryOperator::GreaterEqual => "GreaterEqual"@,
        BinaryOperator::And => "And"@,
        BinaryOperator::Or => "Or"@,
        BinaryOperator::BitAnd => "BitAnd"@,
        BinaryOperator::BitOr => "BitOr"@,
        BinaryOperator::BitXor => "BitXor"@,
        BinaryOperator::ShiftLeft => "ShiftLeft"@,
        BinaryOperator::ShiftRight => "ShiftRight"@,
        BinaryOperator::Power => "Power"@,
        BinaryOperator::Instanceof => "Instanceof"@,
        BinaryOperator::In => "In"@,
        BinaryOperator::NullishCoalescing => "NullishCoalescing"@,
        BinaryOperator::Comma => "Comma"@,
    }
}

/// An error of the checker: its class and message.
pub type Fault = (ErrorClass, Seq<char>);

/// The message for a value of type `actual` where `expected` is wanted.
pub open spec fn not_assignable(actual: Ty, expected: Ty) -> Seq<char> {
    "Type '"@ + ty_debug(actual) + "' is not assignable to type '"@ + ty_debug(expected) + "'"@
}

/// The type of a binary operation on operands of types `l` and `r`.
pub open spec fn binary_type(op: BinaryOperator, l: Ty, r: Ty) -> Result<Ty, Fault> {
    match op {
        BinaryOperator::Add | BinaryOperator::Sub | BinaryOperator::Mul | BinaryOperator::Div | BinaryOperator::Mod => {
            if l is Number && r is Number {
                Ok(Ty::Number)
            } else if op is Add && l is String && r is String {
                Ok(Ty::String)
            } else {
                Err((
                    ErrorClass::Type,
                    "Operator '"@ + op_debug(op) + "' cannot be applied to types '"@ + ty_debug(l) + "' and '"@
                        + ty_debug(r) + "'"@,
                ))
            }
        },
        BinaryOperator::Eq | BinaryOperator::StrictEq | BinaryOperator::NotEqual | BinaryOperator::StrictNotEqual
        | BinaryOperator::Less | BinaryOperator::Greater | BinaryOperator::LessEqual | BinaryOperator::GreaterEqual => Ok(
            Ty::Boolean,
        ),
        BinaryOperator::And | BinaryOperator::Or => {
            if l is Boolean && r is Boolean {
                Ok(Ty::Boolean)
            } else {
                Ok(Ty::Any)
            }
        },
        _ => Ok(Ty::Number),
    }
}

/// The type of a unary operation on an operand of type `t`.
pub open spec fn unary_type(op: UnaryOperator, t: Ty) -> Result<Ty, Fault> {
    match op {
        UnaryOperator::Negate => if t is Number {
            Ok(Ty::Number)
        } else {
            Err((ErrorClass::Type, "Operator '-' cannot be applied to type '"@ + ty_debug(t) + "'"@))
        },
        UnaryOperator::Not => Ok(Ty::Boolean),
        _ => Ok(Ty::Any),
    }
}

/// Variable scopes, innermost last: each a list of names with their types.
pub type Scopes = Seq<Seq<(Seq<char>, Ty)>>;

/// The first entry for `name` in one scope.
pub open spec fn find_in(scope: Seq<(Seq<char>, Ty)>, name: Seq<char>) -> Option<Ty>
    decreases scope.len(),
{
    if scope.len() == 0 {
        None
    } else if scope[0].0 == name {
        Some(scope[0].1)
    } else {
        find_in(scope.drop_first(), name)
    }
}

/// The type of `name` in the innermost scope that has it.
pub open spec fn lookup(sc: Scopes, name: Seq<char>) -> Option<Ty>
    decreases sc.len(),
{
    if sc.len() == 0 {
        None
    } else {
        match find_in(sc.last(), name) {
            Some(t) => Some(t),
            None => lookup(sc.drop_last(), name),
        }
    }
}

/// `sc` with `name: t` added to the innermost scope, where there is one.
pub open spec fn define(sc: Scopes, name: Seq<char>, t: Ty) -> Scopes {
    if sc.len() > 0 {
        sc.update(sc.len() - 1, sc.last().push((name, t)))
    } else {
        sc
    }
}

/// `sc` without its innermost scope, where there is one.
pub open spec fn exit(sc: Scopes) -> Scopes {
    if sc.len() > 0 {
        sc.drop_last()
    } else {
        sc
    }
}

/// `sc` with a new scope holding `params`, each of type `any`.
pub open spec fn with_params(sc: Scopes, params: Seq<String>) -> Scopes
    decreases params.len(),
{
    if params.len() == 0 {
        sc.push(Seq::empty())
    } else {
        define(with_params(sc, params.drop_last()), params.last()@, Ty::Any)
    }
}

/// The class and message of an error.
pub open spec fn fault_of(e: Error) -> Fault {
    (e.kind.class(), e.kind.msg())
}

/// Checks `e` in scopes `sc`: the scopes after it and its type, or the first fault.
pub open spec fn check_expr(sc: Scopes, e: Expression) -> Result<(Scopes, Ty), Fault>
    decreases e, 0nat,
{
    match e {
        Expression::NumberLiteral(_) => Ok((sc, Ty::Number)),
        Expression::StringLiteral(_) => Ok((sc, Ty::String)),
        Expression::BooleanLiteral(_) => Ok((sc, Ty::Boolean)),
        Expression::NullLiteral => Ok((sc, Ty::Null)),
        Expression::UndefinedLiteral => Ok((sc, Ty::Undefined)),
        Expression::Identifier(n) => match lookup(sc, n@) {
            Some(t) => Ok((sc, t)),
            None => Err((ErrorClass::Reference, "'"@ + n@ + "' is not defined"@)),
        },
        Expression::BinaryOp { op, left, right } => match check_expr(sc, *left) {
            Err(f) => Err(f),
            Ok((s1, l)) => match check_expr(s1, *right) {
                Err(f) => Err(f),
                Ok((s2, r)) => match binary_type(op, l, r) {
                    Err(f) => Err(f),
                    Ok(t) => Ok((s2, t)),
                },
            },
        },
        Expression::UnaryOp { op, operand } => match check_expr(sc, *operand) {
            Err(f) => Err(f),
            Ok((s1, t)) => match unary_type(op, t) {
                Err(f) => Err(f),
                Ok(u) => Ok((s1, u)),
            },
        },
        Expression::Assignment { target, value, op: _ } => match check_expr(sc, *target) {
            Err(f) => Err(f),
            Ok((s1, tt)) => match check_expr(s1, *value) {
                Err(f) => Err(f),
                Ok((s2, vt)) => if compatible(tt, vt) {
                    Ok((s2, tt))
                } else {
                    Err((ErrorClass::Type, not_assignable(vt, tt)))
                },
            },
        },
        Expression::Call { callee, args } => match check_exprs(sc, args@, 0) {
            Err(f) => Err(f),
            Ok(s1) => match check_expr(s1, *callee) {
                Err(f) => Err(f),
                Ok((s2, _)) => Ok((s2, Ty::Any)),
            },
        },
        Expression::Member { object, property: _, computed: _ } => match check_expr(sc, *object) {
            Err(f) => Err(f),
            Ok((s1, _)) => Ok((s1, Ty::Any)),
        },
        Expression::SpreadElement { argument } => match check_expr(sc, *argument) {
            Err(f) => Err(f),
            Ok((s1, _)) => Ok((s1, Ty::Any)),
        },
        Expression::TypeAssertion { expression, type_annotation } => match check_expr(sc, *expression) {
            Err(f) => Err(f),
            Ok((s1, _)) => Ok((s1, ann_type(type_annotation))),
        },
        Expression::FunctionExpression { name: _, params, body, is_async: _ } => match check_stmts(
            with_params(sc, params@),
            body@,
            0,
        ) {
            Err(f) => Err(f),
            Ok(s1) => Ok((exit(s1), Ty::Any)),
        },
        _ => Ok((sc, Ty::Any)),
    }
}

/// Checks the expressions `es[i..]` in order.
pub open spec fn check_exprs(sc: Scopes, es: Seq<Expression>, i: int) -> Result<Scopes, Fault>
    decreases es, es.len() - i,
{
    if i < 0 || i >= es.len() {
        Ok(sc)
    } else {
        match check_expr(sc, es[i]) {
            Err(f) => Err(f),
            Ok((s1, _)) => check_exprs(s1, es, i + 1),
        }
    }
}

/// Checks `s` in scopes `sc`: the scopes after it, or the first fault.
pub open spec fn check_stmt(sc: Scopes, s: Statement) -> Result<Scopes, Fault>
    decreases s, 0nat,
{
    match s {
        Statement::Expression(e) => match check_expr(sc, e) {
            Err(f) => Err(f),
            Ok((s1, _)) => Ok(s1),
        },
        Statement::VariableDeclaration { kind, declarations } => check_decls(sc, kind, declarations@, 0),
        Statement::ReturnStatement(v) => match v {
            Some(e) => match check_expr(sc, e) {
                Err(f) => Err(f),
                Ok((s1, _)) => Ok(s1),
            },
            None => Ok(sc),
        },
        Statement::YieldStatement(v) => match v {
            Some(e) => match check_expr(sc, e) {
                Err(f) => Err(f),
                Ok((s1, _)) => Ok(s1),
            },
            None => Ok(sc),
        },
        Statement::IfStatement { condition, consequent, alternate } => match check_expr(sc, condition) {
            Err(f) => Err(f),
            Ok((s1, _)) => match check_stmt(s1, *consequent) {
                Err(f) => Err(f),
                Ok(s2) => match alternate {
                    Some(a) => check_stmt(s2, *a),
                    None => Ok(s2),
                },
            },
        },
        Statement::WhileStatement { condition, body } => match check_expr(sc, condition) {
            Err(f) => Err(f),
            Ok((s1, _)) => check_stmt(s1, *body),
        },
        Statement::BlockStatement(ss) => match check_stmts(sc.push(Seq::empty()), ss@, 0) {
            Err(f) => Err(f),
            Ok(s1) => Ok(exit(s1)),
        },
        Statement::FunctionDeclaration { name, params, body, is_async: _ } => match check_stmts(
            with_params(define(sc, name@, Ty::Any), params@),
            body@,
            0,
        ) {
            Err(f) => Err(f),
            Ok(s1) => Ok(exit(s1)),
        },
        Statement::DoWhileStatement { condition, body } => match check_expr(sc, condition) {
            Err(f) => Err(f),
            Ok((s1, _)) => check_stmt(s1, *body),
        },
        Statement::ForInStatement { left: _, right, body } => match check_expr(sc, right) {
            Err(f) => Err(f),
            Ok((s1, _)) => check_stmt(s1, *body),
        },
        Statement::ForOfStatement { left: _, right, body, is_async: _ } => match check_expr(sc, right) {
            Err(f) => Err(f),
            Ok((s1, _)) => check_stmt(s1, *body),
        },
        Statement::ThrowStatement(e) => match check_expr(sc, e) {
            Err(f) => Err(f),
            Ok((s1, _)) => Ok(s1),
        },
        Statement::ExportDeclaration { declaration } => check_stmt(sc, *declaration),
        Statement::ExportDefaultDeclaration { declaration } => check_stmt(sc, *declaration),
        Statement::ForStatement { init, condition, update, body } => {
            let s0 = sc.push(Seq::empty());
            let ri = match init {
                None => Ok(s0),
                Some(b) => match *b {
                    ForInit::Variable(st) => check_stmt(s0, st),
                    ForInit::Expression(e) => match check_expr(s0, e) {
                        Err(f) => Err(f),
                        Ok((s1, _)) => Ok(s1),
                    },
                },
            };
            match ri {
                Err(f) => Err(f),
                Ok(s1) => {
                    let rc = match condition {
                        None => Ok(s1),
                        Some(c) => match check_expr(s1, c) {
                            Err(f) => Err(f),
                            Ok((s2, _)) => Ok(s2),
                        },
                    };
                    match rc {
                        Err(f) => Err(f),
                        Ok(s2) => {
                            let ru = match update {
                                None => Ok(s2),
                                Some(u) => match check_expr(s2, u) {
                                    Err(f) => Err(f),
                                    Ok((s3, _)) => Ok(s3),
                                },
                            };
                            match ru {
                                Err(f) => Err(f),
                                Ok(s3) => match check_stmt(s3, *body) {
                                    Err(f) => Err(f),
                                    Ok(s4) => Ok(exit(s4)),
                                },
                            }
                        },
                    }
                },
            }
        },
        Statement::SwitchStatement { discriminant, cases } => match check_expr(sc, discriminant) {
            Err(f) => Err(f),
            Ok((s1, _)) => check_cases(s1, cases@, 0),
        },
        Statement::TryStatement { block, handler, finalizer } => match check_stmts(sc.push(Seq::empty()), block@, 0) {
            Err(f) => Err(f),
            Ok(s1) => {
                let s2 = exit(s1);
                let rh = match handler {
                    None => Ok(s2),
                    Some(c) => match check_stmts(define(s2.push(Seq::empty()), c.param@, Ty::Any), c.body@, 0) {
                        Err(f) => Err(f),
                        Ok(s3) => Ok(exit(s3)),
                    },
                };
                match rh {
                    Err(f) => Err(f),
                    Ok(s3) => match finalizer {
                        None => Ok(s3),
                        Some(fs) => check_stmts(s3, fs@, 0),
                    },
                }
            },
        },
        Statement::ClassDeclaration { name, superclass: _, body } => match check_members(
            define(sc, name@, Ty::Any).push(Seq::empty()),
            body@,
            0,
        ) {
            Err(f) => Err(f),
            Ok(s1) => Ok(exit(s1)),
        },
        _ => Ok(sc),
    }
}

/// Checks the cases `cs[i..]` of a `switch` in turn: each test, then each
/// statement of its body.
pub open spec fn check_cases(sc: Scopes, cs: Seq<SwitchCase>, i: int) -> Result<Scopes, Fault>
    decreases cs, cs.len() - i,
{
    if i < 0 || i >= cs.len() {
        Ok(sc)
    } else {
        let rt = match cs[i].test {
            None => Ok(sc),
            Some(t) => match check_expr(sc, t) {
                Err(f) => Err(f),
                Ok((s1, _)) => Ok(s1),
            },
        };
        match rt {
            Err(f) => Err(f),
            Ok(s1) => match check_stmts(s1, cs[i].consequent@, 0) {
                Err(f) => Err(f),
                Ok(s2) => check_cases(s2, cs, i + 1),
            },
        }
    }
}

/// Checks the members `ms[i..]` of a class in turn: the body of each method
/// and constructor in a scope of its own that holds its parameters.
pub open spec fn check_members(sc: Scopes, ms: Seq<ClassMember>, i: int) -> Result<Scopes, Fault>
    decreases ms, ms.len() - i,
{
    if i < 0 || i >= ms.len() {
        Ok(sc)
    } else {
        match ms[i] {
            ClassMember::Method { name: _, params, body, is_static: _, is_async: _ } => match check_stmts(
                with_params(sc, params@),
                body@,
                0,
            ) {
                Err(f) => Err(f),
                Ok(s1) => check_members(exit(s1), ms, i + 1),
            },
            ClassMember::Constructor { params, body } => match check_stmts(with_params(sc, params@), body@, 0) {
                Err(f) => Err(f),
                Ok(s1) => check_members(exit(s1), ms, i + 1),
            },
            _ => check_members(sc, ms, i + 1),
        }
    }
}

/// Checks the statements `ss[i..]` in order.
pub open spec fn check_stmts(sc: Scopes, ss: Seq<Statement>, i: int) -> Result<Scopes, Fault>
    decreases ss, ss.len() - i,
{
    if i < 0 || i >= ss.len() {
        Ok(sc)
    } else {
        match check_stmt(sc, ss[i]) {
            Err(f) => Err(f),
            Ok(s1) => check_stmts(s1, ss, i + 1),
        }
    }
}

/// Checks the declarators `ds[i..]` of a declaration of kind `kind`: an
/// initializer must fit the declared type, and the name gets that type;
/// without one the name gets the initializer's type; a `const` needs an
/// initializer.
pub open spec fn check_decls(sc: Scopes, kind: VarKind, ds: Seq<VariableDeclarator>, i: int) -> Result<Scopes, Fault>
    decreases ds, ds.len() - i,
{
    if i < 0 || i >= ds.len() {
        Ok(sc)
    } else {
        match ds[i].init {
            Some(init) => match check_expr(sc, init) {
                Err(f) => Err(f),
                Ok((s1, it)) => match ds[i].type_annotation {
                    Some(a) => if compatible(ann_type(a), it) {
                        check_decls(define(s1, ds[i].id@, ann_type(a)), kind, ds, i + 1)
                    } else {
                        Err((ErrorClass::Type, not_assignable(it, ann_type(a))))
                    },
                    None => check_decls(define(s1, ds[i].id@, it), kind, ds, i + 1),
                },
            },
            None => if kind is Const {
                Err((ErrorClass::Type, "Missing initializer in const declaration"@))
            } else {
                match ds[i].type_annotation {
                    Some(a) => check_decls(define(sc, ds[i].id@, ann_type(a)), kind, ds, i + 1),
                    None => check_decls(sc, kind, ds, i + 1),
                }
            },
        }
    }
}

proof fn lemma_view_any(t: Type)
    ensures
        (t is Any) == (type_view(t) is Any),
        (t is Union) == (type_view(t) is Union),
        (t is Unknown) == (type_view(t) is Unknown),
        (t is Never) == (type_view(t) is Never),
{
}

/// A copy of `t`.
pub fn clone_type(t: &Type) -> (r: Type)
    ensures
        type_view(r) == type_view(*t),
    decreases t,
{
    match t {
        Type::Number => Type::Number,
        Type::String => Type::String,
        Type::Boolean => Type::Boolean,
        Type::Null => Type::Null,
        Type::Undefined => Type::Undefined,
        Type::Void => Type::Void,
        Type::Never => Type::Never,
        Type::Unknown => Type::Unknown,
        Type::Any => Type::Any,
        Type::Union(v) => Type::Union(clone_types(v)),
        Type::Intersection(v) => Type::Intersection(clone_types(v)),
        Type::Named(n) => Type::Named(n.clone()),
        Type::Array(b) => Type::Array(Box::new(clone_type(b))),
        Type::Tuple(v) => Type::Tuple(clone_types(v)),
        Type::Generic { name, args } => Type::Generic { name: name.clone(), args: clone_types(args) },
        Type::NumberLiteral(n) => Type::NumberLiteral(n.clone()),
        Type::StringLiteral(n) => Type::StringLiteral(n.clone()),
        Type::Object(ps) => Type::Object(clone_props(ps)),
    }
}

fn clone_props(v: &Vec<ObjectProperty>) -> (r: Vec<ObjectProperty>)
    ensures
        props_view(r@) == props_view(v@),
    decreases v,
{
    let mut out: Vec<ObjectProperty> = Vec::new();
    let mut i: usize = 0;
    while i < v.len()
        invariant
            i <= v@.len(),
            props_view(out@) == props_view(v@.take(i as int)),
        decreases v@.len() - i,
    {
        let c = ObjectProperty { name: v[i].name.clone(), ty: clone_type(&v[i].ty), optional: v[i].optional };
        let ghost before = out@;
        out.push(c);
        assert(out@.drop_last() == before);
        assert(v@.take(i + 1).drop_last() == v@.take(i as int));
        i += 1;
    }
    assert(v@.take(v@.len() as int) == v@);
    out
}

fn clone_types(v: &Vec<Type>) -> (r: Vec<Type>)
    ensures
        types_view(r@) == types_view(v@),
    decreases v,
{
    let mut out: Vec<Type> = Vec::new();
    let mut i: usize = 0;
    while i < v.len()
        invariant
            i <= v@.len(),
            types_view(out@) == types_view(v@.take(i as int)),
        decreases v@.len() - i,
    {
        let c = clone_type(&v[i]);
        let ghost before = out@;
        out.push(c);
        assert(out@.drop_last() == before);
        assert(v@.take(i + 1).drop_last() == v@.take(i as int));
        i += 1;
    }
    assert(v@.take(v@.len() as int) == v@);
    out
}

/// The type that an annotation denotes.
fn annotation_type(a: &TypeAnnotation) -> (r: Type)
    ensures
        type_view(r) == ann_type(*a),
    decreases a,
{
    match a {
        TypeAnnotation::Number => Type::Number,
        TypeAnnotation::String => Type::String,
        TypeAnnotation::Boolean => Type::Boolean,
        TypeAnnotation::Null => Type::Null,
        TypeAnnotation::Undefined => Type::Undefined,
        TypeAnnotation::Void => Type::Void,
        TypeAnnotation::Any => Type::Any,
        TypeAnnotation::Unknown => Type::Unknown,
        TypeAnnotation::Never => Type::Never,
        TypeAnnotation::Named(n) => Type::Named(n.clone()),
        TypeAnnotation::Array(b) => Type::Array(Box::new(annotation_type(b))),
        TypeAnnotation::Tuple(v) => Type::Tuple(annotation_types(v)),
        TypeAnnotation::Union(v) => Type::Union(annotation_types(v)),
        TypeAnnotation::Intersection(v) => Type::Intersection(annotation_types(v)),
        TypeAnnotation::Literal(TypeLiteral::Number(n)) => Type::NumberLiteral(n.clone()),
        TypeAnnotation::Literal(TypeLiteral::String(n)) => Type::StringLiteral(n.clone()),
        TypeAnnotation::Generic { name, args } => Type::Generic { name: name.clone(), args: annotation_types(args) },
        TypeAnnotation::Object(v) => Type::Object(annotation_props(v)),
    }
}

fn annotation_props(v: &Vec<(String, TypeAnnotation, bool)>) -> (r: Vec<ObjectProperty>)
    ensures
        props_view(r@) == ann_props(v@),
    decreases v,
{
    let mut out: Vec<ObjectProperty> = Vec::new();
    let mut i: usize = 0;
    while i < v.len()
        invariant
            i <= v@.len(),
            props_view(out@) == ann_props(v@.take(i as int)),
        decreases v@.len() - i,
    {
        let (name, ann, optional) = &v[i];
        let c = ObjectProperty { name: name.clone(), ty: annotation_type(ann), optional: *optional };
        let ghost before = out@;
        out.push(c);
        assert(out@.drop_last() == before);
        assert(v@.take(i + 1).drop_last() == v@.take(i as int));
        i += 1;
    }
    assert(v@.take(v@.len() as int) == v@);
    out
}

fn annotation_types(v: &Vec<TypeAnnotation>) -> (r: Vec<Type>)
    ensures
        types_view(r@) == anns_type(v@),
    decreases v,
{
    let mut out: Vec<Type> = Vec::new();
    let mut i: usize = 0;
    while i < v.len()
        invariant
            i <= v@.len(),
            types_view(out@) == anns_type(v@.take(i as int)),
        decreases v@.len() - i,
    {
        let c = annotation_type(&v[i]);
        let ghost before = out@;
        out.push(c);
        assert(out@.drop_last() == before);
        assert(v@.take(i + 1).drop_last() == v@.take(i as int));
        i += 1;
    }
    assert(v@.take(v@.len() as int) == v@);
    out
}

/// Whether `a` and `b` are the same type.
pub fn types_equal(a: &Type, b: &Type) -> (r: bool)
    ensures
        r == (type_view(*a) == type_view(*b)),
    decreases a,
{
    match a {
        Type::Number => matches!(b, Type::Number),
        Type::String => matches!(b, Type::String),
        Type::Boolean => matches!(b, Type::Boolean),
        Type::Null => matches!(b, Type::Null),
        Type::Undefined => matches!(b, Type::Undefined),
        Type::Void => matches!(b, Type::Void),
        Type::Never => matches!(b, Type::Never),
        Type::Unknown => matches!(b, Type::Unknown),
        Type::Any => matches!(b, Type::Any),
        Type::Union(x) => match b {
            Type::Union(y) => vecs_equal(x, y),
            _ => false,
        },
        Type::Intersection(x) => match b {
            Type::Intersection(y) => vecs_equal(x, y),
            _ => false,
        },
        Type::Named(x) => match b {
            Type::Named(y) => str_eq(x.as_str(), y.as_str()),
            _ => false,
        },
        Type::Array(x) => match b {
            Type::Array(y) => types_equal(x, y),
            _ => false,
        },
        Type::Tuple(x) => match b {
            Type::Tuple(y) => vecs_equal(x, y),
            _ => false,
        },
        Type::Generic { name: n1, args: a1 } => match b {
            Type::Generic { name: n2, args: a2 } => str_eq(n1.as_str(), n2.as_str()) && vecs_equal(a1, a2),
            _ => false,
        },
        Type::NumberLiteral(x) => match b {
            Type::NumberLiteral(y) => str_eq(x.as_str(), y.as_str()),
            _ => false,
        },
        Type::StringLiteral(x) => match b {
            Type::StringLiteral(y) => str_eq(x.as_str(), y.as_str()),
            _ => false,
        },
        Type::Object(x) => match b {
            Type::Object(y) => props_equal(x, y),
            _ => false,
        },
    }
}

fn props_equal(x: &Vec<ObjectProperty>, y: &Vec<ObjectProperty>) -> (r: bool)
    ensures
        r == (props_view(x@) == props_view(y@)),
    decreases x,
{
    proof {
        lemma_props_view(x@);
        lemma_props_view(y@);
    }
    if x.len() != y.len() {
        return false;
    }
    let mut i: usize = 0;
    while i < x.len()
        invariant
            i <= x@.len(),
            x@.len() == y@.len(),
            props_view(x@).len() == x@.len(),
            props_view(y@).len() == y@.len(),
            forall|j: int| 0 <= j < x@.len() ==> #[trigger] props_view(x@)[j] == (PropTy {
                name: x@[j].name@,
                ty: type_view(x@[j].ty),
                optional: x@[j].optional,
            }),
            forall|j: int| 0 <= j < y@.len() ==> #[trigger] props_view(y@)[j] == (PropTy {
                name: y@[j].name@,
                ty: type_view(y@[j].ty),
                optional: y@[j].optional,
            }),
            forall|j: int| 0 <= j < i ==> props_view(x@)[j] == props_view(y@)[j],
        decreases x@.len() - i,
    {
        let same = str_eq(x[i].name.as_str(), y[i].name.as_str()) && x[i].optional == y[i].optional
            && types_equal(&x[i].ty, &y[i].ty);
        if !same {
            assert(props_view(x@)[i as int] != props_view(y@)[i as int]);
            return false;
        }
        i += 1;
    }
    assert(props_view(x@) =~= props_view(y@));
    true
}

fn vecs_equal(x: &Vec<Type>, y: &Vec<Type>) -> (r: bool)
    ensures
        r == (types_view(x@) == types_view(y@)),
    decreases x,
{
    proof {
        lemma_types_view(x@);
        lemma_types_view(y@);
    }
    if x.len() != y.len() {
        return false;
    }
    let mut i: usize = 0;
    while i < x.len()
        invariant
            i <= x@.len(),
            x@.len() == y@.len(),
            types_view(x@).len() == x@.len(),
            types_view(y@).len() == y@.len(),
            forall|j: int| 0 <= j < x@.len() ==> #[trigger] types_view(x@)[j] == type_view(x@[j]),
            forall|j: int| 0 <= j < y@.len() ==> #[trigger] types_view(y@)[j] == type_view(y@[j]),
            forall|j: int| 0 <= j < i ==> type_view(#[trigger] x@[j]) == type_view(y@[j]),
        decreases x@.len() - i,
    {
        if !types_equal(&x[i], &y[i]) {
            assert(types_view(x@)[i as int] != types_view(y@)[i as int]);
            return false;
        }
        i += 1;
    }
    assert(types_view(x@) =~= types_view(y@)) by {
        assert forall|j: int| 0 <= j < x@.len() implies types_view(x@)[j] == types_view(y@)[j] by {
            assert(type_view(x@[j]) == type_view(y@[j]));
        }
    }
    true
}

/// The text of `t` as `{:?}` prints it.
pub fn type_debug_text(t: &Type) -> (r: String)
    ensures
        r@ == ty_debug(type_view(*t)),
    decreases t,
{
    match t {
        Type::Number => String::from_str("Number"),
        Type::String => String::from_str("String"),
        Type::Boolean => String::from_str("Boolean"),
        Type::Null => String::from_str("Null"),
        Type::Undefined => String::from_str("Undefined"),
        Type::Void => String::from_str("Void"),
        Type::Never => String::from_str("Never"),
        Type::Unknown => String::from_str("Unknown"),
        Type::Any => String::from_str("Any"),
        Type::Union(v) => {
            let mut out = String::from_str("Union([");
            let inner = types_debug_text(v);
            out.append(inner.as_str());
            out.append("])");
            out
        },
        Type::Intersection(v) => {
            let mut out = String::from_str("Intersection([");
            let inner = types_debug_text(v);
            out.append(inner.as_str());
            out.append("])");
            out
        },
        Type::Named(n) => {
            let mut out = String::from_str("Named(\"");
            push_escaped_str(&mut out, n);
            out.append("\")");
            out
        },
        Type::Array(b) => {
            let mut out = String::from_str("Array(");
            let inner = type_debug_text(b);
            out.append(inner.as_str());
            out.append(")");
            out
        },
        Type::Tuple(v) => {
            let mut out = String::from_str("Tuple([");
            let inner = types_debug_text(v);
            out.append(inner.as_str());
            out.append("])");
            out
        },
        Type::Generic { name, args } => {
            let mut out = String::from_str("Generic { name: \"");
            push_escaped_str(&mut out, name);
            out.append("\", args: [");
            let inner = types_debug_text(args);
            out.append(inner.as_str());
            out.append("] }");
            out
        },
        Type::NumberLiteral(n) => {
            let mut out = String::from_str("NumberLiteral(");
            out.append(n.as_str());
            if digits_only(n) {
                out.append(".0");
            }
            out.append(")");
            out
        },
        Type::StringLiteral(n) => {
            let mut out = String::from_str("StringLiteral(\"");
            push_escaped_str(&mut out, n);
            out.append("\")");
            out
        },
        Type::Object(ps) => {
            let mut out = String::from_str("Object([");
            let inner = props_debug_text(ps);
            out.append(inner.as_str());
            out.append("])");
            out
        },
    }
}

fn prop_debug_text(p: &ObjectProperty) -> (r: String)
    ensures
        r@ == prop_debug(PropTy { name: p.name@, ty: type_view(p.ty), optional: p.optional }),
    decreases p, 0nat,
{
    let mut out = String::from_str("ObjectProperty { name: \"");
    push_escaped_str(&mut out, &p.name);
    out.append("\", ty: ");
    let t = type_debug_text(&p.ty);
    out.append(t.as_str());
    out.append(", optional: ");
    if p.optional {
        out.append("true");
    } else {
        out.append("false");
    }
    out.append(" }");
    out
}

fn props_debug_text(v: &Vec<ObjectProperty>) -> (r: String)
    ensures
        r@ == props_debug(props_view(v@)),
    decreases v,
{
    let mut out = String::new();
    let mut i: usize = 0;
    while i < v.len()
        invariant
            i <= v@.len(),
            out@ == props_debug(props_view(v@.take(i as int))),
        decreases v@.len() - i,
    {
        let ghost ps = props_view(v@.take(i + 1));
        assert(v@.take(i + 1).drop_last() == v@.take(i as int));
        proof {
            lemma_props_view(v@.take(i + 1));
            lemma_props_view(v@.take(i as int));
        }
        if i > 0 {
            out.append(", ");
        }
        let d = prop_debug_text(&v[i]);
        out.append(d.as_str());
        proof {
            assert(v@.take(i + 1).last() == v@[i as int]);
            assert(ps == props_view(v@.take(i as int)).push(PropTy {
                name: v@[i as int].name@,
                ty: type_view(v@[i as int].ty),
                optional: v@[i as int].optional,
            }));
            assert(ps.drop_last() == props_view(v@.take(i as int)));
            if i == 0 {
                assert(ps.len() == 1);
            }
        }
        i += 1;
    }
    assert(v@.take(v@.len() as int) == v@);
    out
}

fn types_debug_text(v: &Vec<Type>) -> (r: String)
    ensures
        r@ == tys_debug(types_view(v@)),
    decreases v,
{
    let mut out = String::new();
    let mut i: usize = 0;
    while i < v.len()
        invariant
            i <= v@.len(),
            out@ == tys_debug(types_view(v@.take(i as int))),
        decreases v@.len() - i,
    {
        let ghost ts = types_view(v@.take(i + 1));
        assert(v@.take(i + 1).drop_last() == v@.take(i as int));
        proof {
            lemma_types_view(v@.take(i + 1));
            lemma_types_view(v@.take(i as int));
        }
        if i > 0 {
            out.append(", ");
        }
        let d = type_debug_text(&v[i]);
        out.append(d.as_str());
        proof {
            assert(v@.take(i + 1).last() == v@[i as int]);
            assert(ts == types_view(v@.take(i as int)).push(type_view(v@[i as int])));
            assert(ts.drop_last() == types_view(v@.take(i as int)));
            if i == 0 {
                assert(ts.len() == 1);
                assert(ts[0] == type_view(v@[0]));
            }
        }
        i += 1;
    }
    assert(v@.take(v@.len() as int) == v@);
    out
}

/// The name of a binary operator as `{:?}` prints it.
pub fn op_debug_text(op: &BinaryOperator) -> (r: &'static str)
    ensures
        r@ == op_debug(*op),
{
    match op {
        BinaryOperator::Add => "Add",
        BinaryOperator::Sub => "Sub",
        BinaryOperator::Mul => "Mul",
        BinaryOperator::Div => "Div",
        BinaryOperator::Mod => "Mod",
        BinaryOperator::Eq => "Eq",
        BinaryOperator::StrictEq => "StrictEq",
        BinaryOperator::NotEqual => "NotEqual",
        BinaryOperator::StrictNotEqual => "StrictNotEqual",
        BinaryOperator::Less => "Less",
        BinaryOperator::Greater => "Greater",
        BinaryOperator::LessEqual => "LessEqual",
        BinaryOperator::GreaterEqual => "GreaterEqual",
        BinaryOperator::And => "And",
        BinaryOperator::Or => "Or",
        BinaryOperator::BitAnd => "BitAnd",
        BinaryOperator::BitOr => "BitOr",
        BinaryOperator::BitXor => "BitXor",
        BinaryOperator::ShiftLeft => "ShiftLeft",
        BinaryOperator::ShiftRight => "ShiftRight",
        BinaryOperator::Power => "Power",
        BinaryOperator::Instanceof => "Instanceof",
        BinaryOperator::In => "In",
        BinaryOperator::NullishCoalescing => "NullishCoalescing",
        BinaryOperator::Comma => "Comma",
    }
}

/// One scope as plain values.
pub open spec fn scope_view(s: Seq<(String, Type)>) -> Seq<(Seq<char>, Ty)> {
    Seq::new(s.len(), |j: int| (s[j].0@, type_view(s[j].1)))
}

/// The scopes as plain values.
pub open spec fn scopes_view(v: Seq<Vec<(String, Type)>>) -> Scopes {
    Seq::new(v.len(), |i: int| scope_view(v[i]@))
}

/// The checker's state: the scopes of variables, innermost last.
pub struct TypeChecker {
    scopes: Vec<Vec<(String, Type)>>,
}

impl View for TypeChecker {
    type V = Scopes;

    closed spec fn view(&self) -> Scopes {
        scopes_view(self.scopes@)
    }
}

/// The type fault as an error value.
fn fault_error(class: ErrorClass, msg: String) -> (e: Error)
    requires
        class is Type || class is Reference,
    ensures
        fault_of(e) == (class, msg@),
{
    match class {
        ErrorClass::Reference => Error::ReferenceError(msg),
        _ => Error::TypeError(msg),
    }
}

/// The message for a value of type `actual` where `expected` is wanted.
fn not_assignable_text(actual: &Type, expected: &Type) -> (r: String)
    ensures
        r@ == not_assignable(type_view(*actual), type_view(*expected)),
{
    let mut m = String::from_str("Type '");
    let a = type_debug_text(actual);
    m.append(a.as_str());
    m.append("' is not assignable to type '");
    let b = type_debug_text(expected);
    m.append(b.as_str());
    m.append("'");
    m
}

impl TypeChecker {
    /// A checker with one empty scope.
    pub fn new() -> (r: Self)
        ensures
            r@ == seq![Seq::<(Seq<char>, Ty)>::empty()],
    {
        let mut scopes: Vec<Vec<(String, Type)>> = Vec::new();
        scopes.push(Vec::new());
        let r = TypeChecker { scopes };
        assert(scope_view(r.scopes@[0]@) =~= Seq::<(Seq<char>, Ty)>::empty());
        assert(r@ =~= seq![Seq::<(Seq<char>, Ty)>::empty()]);
        r
    }

    /// Opens a new, empty innermost scope.
    pub fn enter_scope(&mut self)
        ensures
            final(self)@ == old(self)@.push(Seq::empty()),
    {
        let ghost before = self.scopes@;
        self.scopes.push(Vec::new());
        assert(scope_view(self.scopes@[before.len() as int]@) =~= Seq::<(Seq<char>, Ty)>::empty());
        assert(scopes_view(self.scopes@) =~= scopes_view(before).push(Seq::empty()));
    }

    /// Closes the innermost scope, where there is one.
    pub fn exit_scope(&mut self)
        ensures
            final(self)@ == exit(old(self)@),
    {
        let ghost before = self.scopes@;
        let _ = self.scopes.pop();
        assert(scopes_view(self.scopes@) =~= exit(scopes_view(before)));
    }

    /// Adds `name` of type `t` to the innermost scope, where there is one.
    pub fn define_variable(&mut self, name: &str, t: Type)
        ensures
            final(self)@ == define(old(self)@, name@, type_view(t)),
    {
        let ghost before = self.scopes@;
        let ghost tv = type_view(t);
        match self.scopes.pop() {
            Some(mut last) => {
                let ghost last0 = last@;
                last.push((String::from_str(name), t));
                assert(scope_view(last@) =~= scope_view(last0).push((name@, tv)));
                self.scopes.push(last);
                assert(scopes_view(self.scopes@) =~= define(scopes_view(before), name@, tv));
            },
            None => {
                assert(scopes_view(self.scopes@) =~= scopes_view(before));
            },
        }
    }

    /// The type of `name` in the innermost scope that has it.
    pub fn get_variable_type(&self, name: &str) -> (r: Option<Type>)
        ensures
            match lookup(self@, name@) {
                Some(t) => r matches Some(x) && type_view(x) == t,
                None => r is None,
            },
    {
        let ghost sc = self@;
        let mut i = self.scopes.len();
        assert(sc.take(i as int) == sc);
        while i > 0
            invariant
                i <= self.scopes@.len(),
                sc == self@,
                sc == scopes_view(self.scopes@),
                lookup(sc, name@) == lookup(sc.take(i as int), name@),
            decreases i,
        {
            let scope = &self.scopes[i - 1];
            let ghost sv = scope_view(scope@);
            assert(sv == sc[i - 1]);
            let mut j: usize = 0;
            assert(sv.skip(0) == sv);
            while j < scope.len()
                invariant
                    j <= scope@.len(),
                    0 < i <= self.scopes@.len(),
                    sc == scopes_view(self.scopes@),
                    sc == self@,
                    sv == sc[i - 1],
                    scope@ == self.scopes@[i - 1]@,
                    lookup(sc, name@) == lookup(sc.take(i as int), name@),
                    sv == scope_view(scope@),
                    find_in(sv, name@) == find_in(sv.skip(j as int), name@),
                decreases scope@.len() - j,
            {
                assert(sv.skip(j as int)[0] == sv[j as int]);
                assert(sv.skip(j as int).drop_first() == sv.skip(j + 1));
                if crate::text::str_eq(scope[j].0.as_str(), name) {
                    let t = clone_type(&scope[j].1);
                    assert(sc.take(i as int).last() == sv);
                    return Some(t);
                }
                j += 1;
            }
            assert(sv.skip(j as int) =~= Seq::<(Seq<char>, Ty)>::empty());
            assert(sc.take(i as int).last() == sv);
            assert(sc.take(i as int).drop_last() == sc.take(i - 1));
            i -= 1;
        }
        None
    }

    /// The type that an annotation denotes; it always succeeds.
    pub fn resolve_annotation(&self, a: &TypeAnnotation) -> (r: Result<Type, Error>)
        ensures
            r matches Ok(t) && type_view(t) == ann_type(*a),
    {
        Ok(annotation_type(a))
    }

    /// Whether a value of type `actual` may be given where `expected` is wanted.
    pub fn is_compatible(&self, expected: &Type, actual: &Type) -> (r: bool)
        ensures
            r == compatible(type_view(*expected), type_view(*actual)),
        decreases expected, actual,
    {
        if types_equal(expected, actual) {
            return true;
        }
        if matches!(expected, Type::Any) || matches!(actual, Type::Any) {
            return true;
        }
        proof {
            lemma_view_any(*expected);
            lemma_view_any(*actual);
        }
        if matches!(expected, Type::Unknown) || matches!(actual, Type::Unknown) {
            return true;
        }
        if matches!(expected, Type::Never) {
            return true;
        }
        match expected {
            Type::Union(types) => {
                let r = self.any_member_accepts(types, actual);
                assert(type_view(*expected) == Ty::Union(types_view(types@)));
                r
            },
            _ => match actual {
                Type::Union(types) => self.accepts_any_member(expected, types),
                _ => match (expected, actual) {
                    (Type::Number, Type::NumberLiteral(_)) => true,
                    (Type::NumberLiteral(_), Type::Number) => true,
                    (Type::String, Type::StringLiteral(_)) => true,
                    (Type::StringLiteral(_), Type::String) => true,
                    (Type::Array(a), Type::Array(b)) => self.is_compatible(a, b),
                    (Type::Tuple(a), Type::Tuple(b)) => {
                        proof {
                            lemma_types_view(a@);
                            lemma_types_view(b@);
                        }
                        a.len() == b.len() && self.pairs_accept(a, b)
                    },
                    (Type::Tuple(a), Type::Array(b)) => self.all_members_accept(a, b),
                    (Type::Array(a), Type::Tuple(b)) => self.accepts_all_members(a, b),
                    (Type::Object(a), Type::Object(b)) => self.props_accept(a, b),
                    _ => false,
                },
            },
        }
    }

    /// Whether some member of `types` accepts a value of type `actual`.
    fn any_member_accepts(&self, types: &Vec<Type>, actual: &Type) -> (r: bool)
        ensures
            r == any_accepts(types_view(types@), type_view(*actual), 0),
        decreases types, actual,
    {
        proof {
            lemma_types_view(types@);
        }
        let ghost ts = types_view(types@);
        let ghost av = type_view(*actual);
        let mut i: usize = 0;
        while i < types.len()
            invariant
                i <= types@.len(),
                ts == types_view(types@),
                av == type_view(*actual),
                ts.len() == types@.len(),
                forall|j: int| 0 <= j < types@.len() ==> #[trigger] ts[j] == type_view(types@[j]),
                any_accepts(ts, av, 0) == any_accepts(ts, av, i as int),
            decreases types@.len() - i,
        {
            if self.is_compatible(&types[i], actual) {
                assert(compatible(ts[i as int], av));
                return true;
            }
            i += 1;
        }
        false
    }

    /// Whether the properties `actual` meet each of `expected`, as
    /// `props_fit` says.
    fn props_accept(&self, expected: &Vec<ObjectProperty>, actual: &Vec<ObjectProperty>) -> (r: bool)
        ensures
            r == props_fit(props_view(expected@), props_view(actual@), 0),
        decreases expected, actual,
    {
        proof {
            lemma_props_view(expected@);
            lemma_props_view(actual@);
        }
        let ghost pe = props_view(expected@);
        let ghost pa = props_view(actual@);
        let mut i: usize = 0;
        while i < expected.len()
            invariant
                i <= expected@.len(),
                pe == props_view(expected@),
                pa == props_view(actual@),
                pe.len() == expected@.len(),
                pa.len() == actual@.len(),
                forall|j: int| 0 <= j < expected@.len() ==> #[trigger] pe[j] == (PropTy {
                    name: expected@[j].name@,
                    ty: type_view(expected@[j].ty),
                    optional: expected@[j].optional,
                }),
                forall|j: int| 0 <= j < actual@.len() ==> #[trigger] pa[j] == (PropTy {
                    name: actual@[j].name@,
                    ty: type_view(actual@[j].ty),
                    optional: actual@[j].optional,
                }),
                props_fit(pe, pa, 0) == props_fit(pe, pa, i as int),
            decreases expected@.len() - i,
        {
            let p = &expected[i];
            let found = find_prop(actual, &p.name);
            let ok = match found {
                Some(k) => p.optional || self.is_compatible(&p.ty, &actual[k].ty),
                None => p.optional,
            };
            if !ok {
                return false;
            }
            i += 1;
        }
        true
    }

    /// Whether each type of `a` accepts the type at the same place in `b`.
    fn pairs_accept(&self, a: &Vec<Type>, b: &Vec<Type>) -> (r: bool)
        requires
            a@.len() == b@.len(),
        ensures
            r == pairs_compatible(types_view(a@), types_view(b@), 0),
        decreases a, b,
    {
        proof {
            lemma_types_view(a@);
            lemma_types_view(b@);
        }
        let ghost av = types_view(a@);
        let ghost bv = types_view(b@);
        let mut i: usize = 0;
        while i < a.len()
            invariant
                i <= a@.len(),
                a@.len() == b@.len(),
                av == types_view(a@),
                bv == types_view(b@),
                av.len() == a@.len(),
                bv.len() == b@.len(),
                forall|j: int| 0 <= j < a@.len() ==> #[trigger] av[j] == type_view(a@[j]),
                forall|j: int| 0 <= j < b@.len() ==> #[trigger] bv[j] == type_view(b@[j]),
                pairs_compatible(av, bv, 0) == pairs_compatible(av, bv, i as int),
            decreases a@.len() - i,
        {
            if !self.is_compatible(&a[i], &b[i]) {
                assert(!compatible(av[i as int], bv[i as int]));
                return false;
            }
            i += 1;
        }
        true
    }

    /// Whether each type of `types` accepts a value of type `actual`.
    fn all_members_accept(&self, types: &Vec<Type>, actual: &Type) -> (r: bool)
        ensures
            r == all_fit(types_view(types@), type_view(*actual), 0),
        decreases types, actual,
    {
        proof {
            lemma_types_view(types@);
        }
        let ghost ts = types_view(types@);
        let ghost av = type_view(*actual);
        let mut i: usize = 0;
        while i < types.len()
            invariant
                i <= types@.len(),
                ts == types_view(types@),
                av == type_view(*actual),
                ts.len() == types@.len(),
                forall|j: int| 0 <= j < types@.len() ==> #[trigger] ts[j] == type_view(types@[j]),
                all_fit(ts, av, 0) == all_fit(ts, av, i as int),
            decreases types@.len() - i,
        {
            if !self.is_compatible(&types[i], actual) {
                assert(!compatible(ts[i as int], av));
                return false;
            }
            i += 1;
        }
        true
    }

    /// Whether `expected` accepts a value of each type of `types`.
    fn accepts_all_members(&self, expected: &Type, types: &Vec<Type>) -> (r: bool)
        ensures
            r == fits_all(type_view(*expected), types_view(types@), 0),
        decreases expected, types,
    {
        proof {
            lemma_types_view(types@);
        }
        let ghost ts = types_view(types@);
        let ghost ev = type_view(*expected);
        let mut i: usize = 0;
        while i < types.len()
            invariant
                i <= types@.len(),
                ts == types_view(types@),
                ev == type_view(*expected),
                ts.len() == types@.len(),
                forall|j: int| 0 <= j < types@.len() ==> #[trigger] ts[j] == type_view(types@[j]),
                fits_all(ev, ts, 0) == fits_all(ev, ts, i as int),
            decreases types@.len() - i,
        {
            if !self.is_compatible(expected, &types[i]) {
                assert(!compatible(ev, ts[i as int]));
                return false;
            }
            i += 1;
        }
        true
    }

    /// Whether `expected` accepts a value of some member of `types`.
    fn accepts_any_member(&self, expected: &Type, types: &Vec<Type>) -> (r: bool)
        ensures
            r == accepts_any(type_view(*expected), types_view(types@), 0),
        decreases expected, types,
    {
        proof {
            lemma_types_view(types@);
        }
        let ghost ts = types_view(types@);
        let ghost ev = type_view(*expected);
        let mut i: usize = 0;
        while i < types.len()
            invariant
                i <= types@.len(),
                ts == types_view(types@),
                ev == type_view(*expected),
                ts.len() == types@.len(),
                forall|j: int| 0 <= j < types@.len() ==> #[trigger] ts[j] == type_view(types@[j]),
                accepts_any(ev, ts, 0) == accepts_any(ev, ts, i as int),
            decreases types@.len() - i,
        {
            if self.is_compatible(expected, &types[i]) {
                assert(compatible(ev, ts[i as int]));
                return true;
            }
            i += 1;
        }
        false
    }

    /// The type of a binary operation, or a type error.
    pub fn check_binary_op(&self, op: &BinaryOperator, left: &Type, right: &Type) -> (r: Result<Type, Error>)
        ensures
            match binary_type(*op, type_view(*left), type_view(*right)) {
                Ok(t) => r matches Ok(x) && type_view(x) == t,
                Err(f) => r matches Err(e) && fault_of(e) == f,
            },
    {
        match op {
            BinaryOperator::Add | BinaryOperator::Sub | BinaryOperator::Mul | BinaryOperator::Div | BinaryOperator::Mod => {
                if matches!(left, Type::Number) && matches!(right, Type::Number) {
                    Ok(Type::Number)
                } else if matches!(op, BinaryOperator::Add) && matches!(left, Type::String) && matches!(right, Type::String) {
                    Ok(Type::String)
                } else {
                    let mut m = String::from_str("Operator '");
                    m.append(op_debug_text(op));
                    m.append("' cannot be applied to types '");
                    let l = type_debug_text(left);
                    m.append(l.as_str());
                    m.append("' and '");
                    let r = type_debug_text(right);
                    m.append(r.as_str());
                    m.append("'");
                    Err(fault_error(ErrorClass::Type, m))
                }
            },
            BinaryOperator::Eq | BinaryOperator::StrictEq | BinaryOperator::NotEqual | BinaryOperator::StrictNotEqual
            | BinaryOperator::Less | BinaryOperator::Greater | BinaryOperator::LessEqual | BinaryOperator::GreaterEqual => Ok(
                Type::Boolean,
            ),
            BinaryOperator::And | BinaryOperator::Or => {
                if matches!(left, Type::Boolean) && matches!(right, Type::Boolean) {
                    Ok(Type::Boolean)
                } else {
                    Ok(Type::Any)
                }
            },
            _ => Ok(Type::Number),
        }
    }

    /// The type of a unary operation, or a type error.
    pub fn check_unary_op(&self, op: &UnaryOperator, operand: &Type) -> (r: Result<Type, Error>)
        ensures
            match unary_type(*op, type_view(*operand)) {
                Ok(t) => r matches Ok(x) && type_view(x) == t,
                Err(f) => r matches Err(e) && fault_of(e) == f,
            },
    {
        match op {
            UnaryOperator::Negate => {
                if matches!(operand, Type::Number) {
                    Ok(Type::Number)
                } else {
                    let mut m = String::from_str("Operator '-' cannot be applied to type '");
                    let d = type_debug_text(operand);
                    m.append(d.as_str());
                    m.append("'");
                    Err(fault_error(ErrorClass::Type, m))
                }
            },
            UnaryOperator::Not => Ok(Type::Boolean),
            _ => Ok(Type::Any),
        }
    }
}

impl TypeChecker {
    /// Checks an expression: its type, with the scopes as `check_expr` says.
    pub fn check_expression(&mut self, expr: &Expression) -> (r: Result<Type, Error>)
        ensures
            match check_expr(old(self)@, *expr) {
                Ok((sc, t)) => r matches Ok(x) && type_view(x) == t && final(self)@ == sc,
                Err(f) => r matches Err(e) && fault_of(e) == f,
            },
        decreases expr, 0nat,
    {
        match expr {
            Expression::NumberLiteral(_) => Ok(Type::Number),
            Expression::StringLiteral(_) => Ok(Type::String),
            Expression::BooleanLiteral(_) => Ok(Type::Boolean),
            Expression::NullLiteral => Ok(Type::Null),
            Expression::UndefinedLiteral => Ok(Type::Undefined),
            Expression::Identifier(name) => match self.get_variable_type(name.as_str()) {
                Some(t) => Ok(t),
                None => {
                    let mut m = String::from_str("'");
                    m.append(name.as_str());
                    m.append("' is not defined");
                    Err(fault_error(ErrorClass::Reference, m))
                },
            },
            Expression::BinaryOp { op, left, right } => {
                let lt = match self.check_expression(left) { Ok(v) => v, Err(e) => { return Err(e); } };
                let rt = match self.check_expression(right) { Ok(v) => v, Err(e) => { return Err(e); } };
                self.check_binary_op(op, &lt, &rt)
            },
            Expression::UnaryOp { op, operand } => {
                let t = match self.check_expression(operand) { Ok(v) => v, Err(e) => { return Err(e); } };
                self.check_unary_op(op, &t)
            },
            Expression::Assignment { target, value, op: _ } => {
                let tt = match self.check_expression(target) { Ok(v) => v, Err(e) => { return Err(e); } };
                let vt = match self.check_expression(value) { Ok(v) => v, Err(e) => { return Err(e); } };
                if !self.is_compatible(&tt, &vt) {
                    let m = not_assignable_text(&vt, &tt);
                    Err(fault_error(ErrorClass::Type, m))
                } else {
                    Ok(tt)
                }
            },
            Expression::Call { callee, args } => {
                match self.check_expressions(args) { Ok(v) => v, Err(e) => { return Err(e); } };
                let _ = match self.check_expression(callee) { Ok(v) => v, Err(e) => { return Err(e); } };
                Ok(Type::Any)
            },
            Expression::Member { object, property: _, computed: _ } => {
                let _ = match self.check_expression(object) { Ok(v) => v, Err(e) => { return Err(e); } };
                Ok(Type::Any)
            },
            Expression::SpreadElement { argument } => {
                let _ = match self.check_expression(argument) { Ok(v) => v, Err(e) => { return Err(e); } };
                Ok(Type::Any)
            },
            Expression::TypeAssertion { expression, type_annotation } => {
                let _ = match self.check_expression(expression) { Ok(v) => v, Err(e) => { return Err(e); } };
                Ok(annotation_type(type_annotation))
            },
            Expression::FunctionExpression { name: _, params, body, is_async: _ } => {
                match self.check_function_body(params, body) { Ok(v) => v, Err(e) => { return Err(e); } };
                Ok(Type::Any)
            },
            _ => Ok(Type::Any),
        }
    }

    /// Checks the expressions `es` in order.
    fn check_expressions(&mut self, es: &Vec<Expression>) -> (r: Result<(), Error>)
        ensures
            match check_exprs(old(self)@, es@, 0) {
                Ok(sc) => r is Ok && final(self)@ == sc,
                Err(f) => r matches Err(e) && fault_of(e) == f,
            },
        decreases es, 0nat,
    {
        let mut i: usize = 0;
        while i < es.len()
            invariant
                i <= es@.len(),
                check_exprs(old(self)@, es@, 0) == check_exprs(self@, es@, i as int),
            decreases es@.len() - i,
        {
            let _ = match self.check_expression(&es[i]) { Ok(v) => v, Err(e) => { return Err(e); } };
            i += 1;
        }
        Ok(())
    }

    /// Checks the statements `ss` in order.
    fn check_statements(&mut self, ss: &Vec<Statement>) -> (r: Result<(), Error>)
        ensures
            match check_stmts(old(self)@, ss@, 0) {
                Ok(sc) => r is Ok && final(self)@ == sc,
                Err(f) => r matches Err(e) && fault_of(e) == f,
            },
        decreases ss, 0nat,
    {
        let mut i: usize = 0;
        while i < ss.len()
            invariant
                i <= ss@.len(),
                check_stmts(old(self)@, ss@, 0) == check_stmts(self@, ss@, i as int),
            decreases ss@.len() - i,
        {
            let _ = match self.check_statement(&ss[i]) { Ok(v) => v, Err(e) => { return Err(e); } };
            i += 1;
        }
        Ok(())
    }

    /// Checks a function's body in a new scope that holds its parameters,
    /// each of type `any`, and closes that scope.
    fn check_function_body(&mut self, params: &Vec<String>, body: &Vec<Statement>) -> (r: Result<(), Error>)
        ensures
            match check_stmts(with_params(old(self)@, params@), body@, 0) {
                Ok(sc) => r is Ok && final(self)@ == exit(sc),
                Err(f) => r matches Err(e) && fault_of(e) == f,
            },
        decreases body, 1nat,
    {
        self.enter_scope();
        let mut i: usize = 0;
        while i < params.len()
            invariant
                i <= params@.len(),
                self@ == with_params(old(self)@, params@.take(i as int)),
            decreases params@.len() - i,
        {
            assert(params@.take(i + 1).drop_last() == params@.take(i as int));
            self.define_variable(params[i].as_str(), Type::Any);
            i += 1;
        }
        assert(params@.take(params@.len() as int) == params@);
        match self.check_statements(body) { Ok(v) => v, Err(e) => { return Err(e); } };
        self.exit_scope();
        Ok(())
    }

    /// Checks the declarators of a declaration of kind `kind`.
    fn check_declarations(&mut self, kind: VarKind, ds: &Vec<VariableDeclarator>) -> (r: Result<(), Error>)
        ensures
            match check_decls(old(self)@, kind, ds@, 0) {
                Ok(sc) => r is Ok && final(self)@ == sc,
                Err(f) => r matches Err(e) && fault_of(e) == f,
            },
        decreases ds, 0nat,
    {
        let mut i: usize = 0;
        while i < ds.len()
            invariant
                i <= ds@.len(),
                check_decls(old(self)@, kind, ds@, 0) == check_decls(self@, kind, ds@, i as int),
            decreases ds@.len() - i,
        {
            let d = &ds[i];
            match &d.init {
                Some(init) => {
                    let it = match self.check_expression(init) { Ok(v) => v, Err(e) => { return Err(e); } };
                    match &d.type_annotation {
                        Some(a) => {
                            let declared = match self.resolve_annotation(a) { Ok(v) => v, Err(e) => { return Err(e); } };
                            if !self.is_compatible(&declared, &it) {
                                let m = not_assignable_text(&it, &declared);
                                return Err(fault_error(ErrorClass::Type, m));
                            }
                            self.define_variable(d.id.as_str(), declared);
                        },
                        None => {
                            self.define_variable(d.id.as_str(), it);
                        },
                    }
                },
                None => {
                    if matches!(kind, VarKind::Const) {
                        return Err(fault_error(ErrorClass::Type, String::from_str("Missing initializer in const declaration")));
                    }
                    if let Some(a) = &d.type_annotation {
                        let declared = match self.resolve_annotation(a) { Ok(v) => v, Err(e) => { return Err(e); } };
                        self.define_variable(d.id.as_str(), declared);
                    }
                },
            }
            i += 1;
        }
        Ok(())
    }

    /// Checks a statement, with the scopes as `check_stmt` says; its type is `void`.
    pub fn check_statement(&mut self, stmt: &Statement) -> (r: Result<Type, Error>)
        ensures
            match check_stmt(old(self)@, *stmt) {
                Ok(sc) => r matches Ok(x) && type_view(x) == Ty::Void && final(self)@ == sc,
                Err(f) => r matches Err(e) && fault_of(e) == f,
            },
        decreases stmt, 0nat,
    {
        match stmt {
            Statement::Expression(e) => {
                let _ = match self.check_expression(e) { Ok(v) => v, Err(e) => { return Err(e); } };
            },
            Statement::VariableDeclaration { kind, declarations } => {
                match self.check_declarations(*kind, declarations) { Ok(v) => v, Err(e) => { return Err(e); } };
            },
            Statement::ReturnStatement(v) => {
                if let Some(e) = v {
                    let _ = match self.check_expression(e) { Ok(v) => v, Err(e) => { return Err(e); } };
                }
            },
            Statement::YieldStatement(v) => {
                if let Some(e) = v {
                    let _ = match self.check_expression(e) { Ok(v) => v, Err(e) => { return Err(e); } };
                }
            },
            Statement::IfStatement { condition, consequent, alternate } => {
                let _ = match self.check_expression(condition) { Ok(v) => v, Err(e) => { return Err(e); } };
                let _ = match self.check_statement(consequent) { Ok(v) => v, Err(e) => { return Err(e); } };
                if let Some(a) = alternate {
                    let _ = match self.check_statement(a) { Ok(v) => v, Err(e) => { return Err(e); } };
                }
            },
            Statement::WhileStatement { condition, body } => {
                let _ = match self.check_expression(condition) { Ok(v) => v, Err(e) => { return Err(e); } };
                let _ = match self.check_statement(body) { Ok(v) => v, Err(e) => { return Err(e); } };
            },
            Statement::BlockStatement(ss) => {
                self.enter_scope();
                match self.check_statements(ss) { Ok(v) => v, Err(e) => { return Err(e); } };
                self.exit_scope();
            },
            Statement::FunctionDeclaration { name, params, body, is_async: _ } => {
                self.define_variable(name.as_str(), Type::Any);
                match self.check_function_body(params, body) { Ok(v) => v, Err(e) => { return Err(e); } };
            },
            Statement::DoWhileStatement { condition, body } => {
                let _ = match self.check_expression(condition) { Ok(v) => v, Err(e) => { return Err(e); } };
                let _ = match self.check_statement(body) { Ok(v) => v, Err(e) => { return Err(e); } };
            },
            Statement::ForInStatement { left: _, right, body } => {
                let _ = match self.check_expression(right) { Ok(v) => v, Err(e) => { return Err(e); } };
                let _ = match self.check_statement(body) { Ok(v) => v, Err(e) => { return Err(e); } };
            },
            Statement::ForOfStatement { left: _, right, body, is_async: _ } => {
                let _ = match self.check_expression(right) { Ok(v) => v, Err(e) => { return Err(e); } };
                let _ = match self.check_statement(body) { Ok(v) => v, Err(e) => { return Err(e); } };
            },
            Statement::ThrowStatement(e) => {
                let _ = match self.check_expression(e) { Ok(v) => v, Err(e) => { return Err(e); } };
            },
            Statement::ExportDeclaration { declaration } => {
                return self.check_statement(declaration);
            },
            Statement::ExportDefaultDeclaration { declaration } => {
                return self.check_statement(declaration);
            },
            Statement::ForStatement { init, condition, update, body } => {
                self.enter_scope();
                match init {
                    None => {},
                    Some(b) => match &**b {
                        ForInit::Variable(st) => {
                            let _ = match self.check_statement(st) { Ok(v) => v, Err(e) => { return Err(e); } };
                        },
                        ForInit::Expression(e) => {
                            let _ = match self.check_expression(e) { Ok(v) => v, Err(e) => { return Err(e); } };
                        },
                    },
                }
                if let Some(c) = condition {
                    let _ = match self.check_expression(c) { Ok(v) => v, Err(e) => { return Err(e); } };
                }
                if let Some(u) = update {
                    let _ = match self.check_expression(u) { Ok(v) => v, Err(e) => { return Err(e); } };
                }
                let _ = match self.check_statement(body) { Ok(v) => v, Err(e) => { return Err(e); } };
                self.exit_scope();
            },
            Statement::SwitchStatement { discriminant, cases } => {
                let _ = match self.check_expression(discriminant) { Ok(v) => v, Err(e) => { return Err(e); } };
                match self.check_case_list(cases) { Ok(v) => v, Err(e) => { return Err(e); } };
            },
            Statement::TryStatement { block, handler, finalizer } => {
                self.enter_scope();
                match self.check_statements(block) { Ok(v) => v, Err(e) => { return Err(e); } };
                self.exit_scope();
                if let Some(c) = handler {
                    self.enter_scope();
                    self.define_variable(c.param.as_str(), Type::Any);
                    match self.check_statements(&c.body) { Ok(v) => v, Err(e) => { return Err(e); } };
                    self.exit_scope();
                }
                if let Some(fs) = finalizer {
                    match self.check_statements(fs) { Ok(v) => v, Err(e) => { return Err(e); } };
                }
            },
            Statement::ClassDeclaration { name, superclass: _, body } => {
                self.define_variable(name.as_str(), Type::Any);
                self.enter_scope();
                match self.check_member_list(body) { Ok(v) => v, Err(e) => { return Err(e); } };
                self.exit_scope();
            },
            _ => {},
        }
        Ok(Type::Void)
    }

    /// Checks the cases of a `switch`, as `check_cases` says.
    fn check_case_list(&mut self, cases: &Vec<SwitchCase>) -> (r: Result<(), Error>)
        ensures
            match check_cases(old(self)@, cases@, 0) {
                Ok(sc) => r is Ok && final(self)@ == sc,
                Err(f) => r matches Err(e) && fault_of(e) == f,
            },
        decreases cases, 1nat,
    {
        let mut i: usize = 0;
        while i < cases.len()
            invariant
                i <= cases@.len(),
                check_cases(old(self)@, cases@, 0) == check_cases(self@, cases@, i as int),
            decreases cases@.len() - i,
        {
            if let Some(t) = &cases[i].test {
                let _ = match self.check_expression(t) { Ok(v) => v, Err(e) => { return Err(e); } };
            }
            match self.check_statements(&cases[i].consequent) { Ok(v) => v, Err(e) => { return Err(e); } };
            i += 1;
        }
        Ok(())
    }

    /// Checks the members of a class, as `check_members` says.
    fn check_member_list(&mut self, members: &Vec<ClassMember>) -> (r: Result<(), Error>)
        ensures
            match check_members(old(self)@, members@, 0) {
                Ok(sc) => r is Ok && final(self)@ == sc,
                Err(f) => r matches Err(e) && fault_of(e) == f,
            },
        decreases members, 2nat,
    {
        let mut i: usize = 0;
        while i < members.len()
            invariant
                i <= members@.len(),
                check_members(old(self)@, members@, 0) == check_members(self@, members@, i as int),
            decreases members@.len() - i,
        {
            match &members[i] {
                ClassMember::Method { name: _, params, body, is_static: _, is_async: _ } => {
                    match self.check_function_body(params, body) { Ok(v) => v, Err(e) => { return Err(e); } };
                },
                ClassMember::Constructor { params, body } => {
                    match self.check_function_body(params, body) { Ok(v) => v, Err(e) => { return Err(e); } };
                },
                _ => {},
            }
            i += 1;
        }
        Ok(())
    }

    /// Checks a program's statements in order; any other node is an internal error.
    fn check_node(&mut self, node: &AstNode) -> (r: Result<(), Error>)
        ensures
            match *node {
                AstNode::Program(ss) => match check_stmts(old(self)@, ss@, 0) {
                    Ok(sc) => r is Ok && final(self)@ == sc,
                    Err(f) => r matches Err(e) && fault_of(e) == f,
                },
                _ => r matches Err(e) && e.kind is InternalError && e.kind.msg() == "Invalid root node"@,
            },
    {
        match node {
            AstNode::Program(statements) => self.check_statements(statements),
            _ => Err(Error::InternalError(String::from_str("Invalid root node"))),
        }
    }

    /// Type-checks a program from a fresh checker with one empty scope.
    pub fn check(ast: &AstNode) -> (r: Result<(), Error>)
        ensures
            match *ast {
                AstNode::Program(ss) => match check_stmts(seq![Seq::<(Seq<char>, Ty)>::empty()], ss@, 0) {
                    Ok(_) => r is Ok,
                    Err(f) => r matches Err(e) && fault_of(e) == f,
                },
                _ => r matches Err(e) && e.kind is InternalError && e.kind.msg() == "Invalid root node"@,
            },
    {
        let mut checker = TypeChecker::new();
        checker.check_node(ast)
    }

    /// Type-checks a program from a fresh checker whose one scope holds `globals`.
    pub fn check_with_globals(ast: &AstNode, globals: &Vec<(String, Type)>) -> (r: Result<(), Error>)
        ensures
            match *ast {
                AstNode::Program(ss) => match check_stmts(seq![scope_view(globals@)], ss@, 0) {
                    Ok(_) => r is Ok,
                    Err(f) => r matches Err(e) && fault_of(e) == f,
                },
                _ => r matches Err(e) && e.kind is InternalError && e.kind.msg() == "Invalid root node"@,
            },
    {
        let mut checker = TypeChecker::new();
        let mut i: usize = 0;
        assert(scope_view(globals@.take(0)) =~= Seq::<(Seq<char>, Ty)>::empty());
        while i < globals.len()
            invariant
                i <= globals@.len(),
                checker@ == seq![scope_view(globals@.take(i as int))],
            decreases globals@.len() - i,
        {
            let t = clone_type(&globals[i].1);
            checker.define_variable(globals[i].0.as_str(), t);
            assert(scope_view(globals@.take(i + 1)) =~= scope_view(globals@.take(i as int)).push(
                (globals@[i as int].0@, type_view(globals@[i as int].1)),
            ));
            assert(checker@ =~= seq![scope_view(globals@.take(i + 1))]);
            i += 1;
        }
        assert(globals@.take(globals@.len() as int) == globals@);
        checker.check_node(ast)
    }
}

/// A variable defined in the innermost scope is found with its type, unless
/// that scope already held the name (the first definition there wins).
pub proof fn law_define_then_lookup(sc: Scopes, name: Seq<char>, t: Ty)
    requires
        sc.len() > 0,
        find_in(sc.last(), name) is None,
    ensures
        lookup(define(sc, name, t), name) == Some(t),
{
    lemma_find_in_push(sc.last(), name, name, t);
    assert(define(sc, name, t).last() == sc.last().push((name, t)));
}

/// Defining a variable leaves every other name as it was.
pub proof fn law_define_keeps_others(sc: Scopes, name: Seq<char>, t: Ty, other: Seq<char>)
    requires
        other != name,
    ensures
        lookup(define(sc, name, t), other) == lookup(sc, other),
{
    if sc.len() > 0 {
        lemma_find_in_push(sc.last(), name, other, t);
        let d = define(sc, name, t);
        assert(d.last() == sc.last().push((name, t)));
        assert(d.drop_last() == sc.drop_last());
    }
}

/// What a block defines is gone once it is left: entering a scope, defining
/// in it and leaving it gives the scopes back.
pub proof fn law_block_scope_restored(sc: Scopes, name: Seq<char>, t: Ty)
    ensures
        exit(define(sc.push(Seq::empty()), name, t)) == sc,
{
    let inner = define(sc.push(Seq::empty()), name, t);
    assert(inner.drop_last() =~= sc);
}

/// Every type accepts itself, `any` and `unknown` accept every type and are
/// accepted by every type, and `never` accepts every type.
pub proof fn law_compatible_any_and_self(t: Ty)
    ensures
        compatible(t, t),
        compatible(Ty::Any, t),
        compatible(t, Ty::Any),
        compatible(Ty::Unknown, t),
        compatible(t, Ty::Unknown),
        compatible(Ty::Never, t),
{
}

/// A literal type and its base type accept each other, a union that has the
/// base type among its members accepts the literal, and arrays are as
/// compatible as their elements.
pub proof fn law_compatible_literals_and_arrays(lit: Seq<char>, members: Seq<Ty>, i: int, a: Ty, b: Ty)
    requires
        0 <= i < members.len(),
        members[i] == Ty::String,
    ensures
        compatible(Ty::String, Ty::StringLiteral(lit)),
        compatible(Ty::StringLiteral(lit), Ty::String),
        compatible(Ty::Number, Ty::NumberLiteral(lit)),
        compatible(Ty::NumberLiteral(lit), Ty::Number),
        compatible(Ty::Union(members), Ty::StringLiteral(lit)),
        compatible(Ty::Array(Box::new(a)), Ty::Array(Box::new(b))) == compatible(a, b),
{
    lemma_any_accepts_member(members, Ty::StringLiteral(lit), 0, i);
}

proof fn lemma_any_accepts_member(ts: Seq<Ty>, actual: Ty, j: int, i: int)
    requires
        0 <= j <= i < ts.len(),
        compatible(ts[i], actual),
    ensures
        any_accepts(ts, actual, j),
    decreases i - j,
{
    if j < i {
        lemma_any_accepts_member(ts, actual, j + 1, i);
    }
}

proof fn lemma_find_in_push(scope: Seq<(Seq<char>, Ty)>, name: Seq<char>, other: Seq<char>, t: Ty)
    ensures
        find_in(scope.push((name, t)), other) == (match find_in(scope, other) {
            Some(u) => Some(u),
            None => if other == name { Some(t) } else { None },
        }),
    decreases scope.len(),
{
    let p = scope.push((name, t));
    if scope.len() > 0 {
        assert(p[0] == scope[0]);
        assert(p.drop_first() =~= scope.drop_first().push((name, t)));
        lemma_find_in_push(scope.drop_first(), name, other, t);
    } else {
        assert(p[0] == (name, t));
        assert(p.drop_first() =~= Seq::<(Seq<char>, Ty)>::empty());
        assert(find_in(p.drop_first(), other) is None);
    }
}

/// The operation `op` applied to `l` and `r`.
pub open spec fn operation(op: BinaryOperator, l: Expression, r: Expression) -> Expression {
    Expression::BinaryOp { op, left: Box::new(l), right: Box::new(r) }
}

/// Arithmetic on numbers is a number, and comparisons are booleans: where
/// both operands check (the left in `sc`, the right in the scopes the left
/// left), each of `+ - * / %` applied to two `Number`s checks as `Number`,
/// `+` on two `String`s as `String`, and each of `== === != !== < > <= >=`
/// as `Boolean` whatever the operands' types; the scopes are those the
/// operands left. `- * / %` refuse, with a type error, an operand that is not
/// a `Number`.
pub proof fn law_operator_types(sc: Scopes, op: BinaryOperator, l: Expression, r: Expression)
    requires
        check_expr(sc, l) is Ok,
        check_expr(check_expr(sc, l)->Ok_0.0, r) is Ok,
    ensures
        ({
            let (s1, lt) = check_expr(sc, l)->Ok_0;
            let (s2, rt) = check_expr(s1, r)->Ok_0;
            &&& (op is Add || op is Sub || op is Mul || op is Div || op is Mod) && lt == Ty::Number && rt == Ty::Number
                ==> check_expr(sc, operation(op, l, r)) == Ok::<(Scopes, Ty), Fault>((s2, Ty::Number))
            &&& op is Add && lt == Ty::String && rt == Ty::String
                ==> check_expr(sc, operation(op, l, r)) == Ok::<(Scopes, Ty), Fault>((s2, Ty::String))
            &&& (op is Eq || op is StrictEq || op is NotEqual || op is StrictNotEqual || op is Less || op is Greater
                || op is LessEqual || op is GreaterEqual)
                ==> check_expr(sc, operation(op, l, r)) == Ok::<(Scopes, Ty), Fault>((s2, Ty::Boolean))
            &&& (op is Sub || op is Mul || op is Div || op is Mod) && !(lt == Ty::Number && rt == Ty::Number)
                ==> (check_expr(sc, operation(op, l, r)) matches Err(f) && f.0 == ErrorClass::Type)
        }),
{
}

/// `&&` and `||` on two `Boolean`s check as `Boolean`, and as `any` where
/// either operand is not a `Boolean`; `-x` checks as `Number` where `x` is a
/// `Number` and is refused with a type error otherwise; `!x` is always a
/// `Boolean`. The scopes are those the operands left.
pub proof fn law_logical_and_unary_types(sc: Scopes, op: BinaryOperator, uop: UnaryOperator, l: Expression, r: Expression)
    requires
        check_expr(sc, l) is Ok,
        check_expr(check_expr(sc, l)->Ok_0.0, r) is Ok,
    ensures
        ({
            let (s1, lt) = check_expr(sc, l)->Ok_0;
            let (s2, rt) = check_expr(s1, r)->Ok_0;
            &&& (op is And || op is Or) ==> check_expr(sc, operation(op, l, r)) == Ok::<(Scopes, Ty), Fault>(
                (s2, if lt == Ty::Boolean && rt == Ty::Boolean { Ty::Boolean } else { Ty::Any }),
            )
            &&& uop is Negate && lt == Ty::Number
                ==> check_expr(sc, Expression::UnaryOp { op: uop, operand: Box::new(l) }) == Ok::<(Scopes, Ty), Fault>((s1, Ty::Number))
            &&& uop is Negate && lt != Ty::Number
                ==> (check_expr(sc, Expression::UnaryOp { op: uop, operand: Box::new(l) }) matches Err(f) && f.0 == ErrorClass::Type)
            &&& uop is Not
                ==> check_expr(sc, Expression::UnaryOp { op: uop, operand: Box::new(l) }) == Ok::<(Scopes, Ty), Fault>((s1, Ty::Boolean))
        }),
{
}

/// Literals have the type of their kind: a number literal is a `Number`, a
/// string literal a `String`, `true` and `false` are `Boolean`, `null` is
/// `Null` and `undefined` is `Undefined`; checking them leaves the scopes
/// as they were.
pub proof fn law_literal_types(sc: Scopes, text: String, b: bool)
    ensures
        check_expr(sc, Expression::NumberLiteral(text)) == Ok::<(Scopes, Ty), Fault>((sc, Ty::Number)),
        check_expr(sc, Expression::StringLiteral(text)) == Ok::<(Scopes, Ty), Fault>((sc, Ty::String)),
        check_expr(sc, Expression::BooleanLiteral(b)) == Ok::<(Scopes, Ty), Fault>((sc, Ty::Boolean)),
        check_expr(sc, Expression::NullLiteral) == Ok::<(Scopes, Ty), Fault>((sc, Ty::Null)),
        check_expr(sc, Expression::UndefinedLiteral) == Ok::<(Scopes, Ty), Fault>((sc, Ty::Undefined)),
{
}

} // verus!
