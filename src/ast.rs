//! The syntax tree that the analysis consumes, as handed over by a front end.
use vstd::prelude::*;

verus! {

/// The kinds of expression that the language's grammar distinguishes.
#[derive(Clone, Copy, Debug, PartialEq, Eq, Structural)]
pub enum ExprKind {
    Apply,
    Assert,
    Error,
    IfElse,
    Select,
    Str,
    Path,
    Literal,
    Lambda,
    LegacyLet,
    LetIn,
    List,
    BinOp,
    Paren,
    Root,
    AttrSet,
    UnaryOp,
    Ident,
    With,
    HasAttr,
    Inherit,
}

/// One segment of an attribute path.
#[derive(Clone, Debug, PartialEq, Eq)]
pub enum AttrName {
    /// A plain identifier segment.
    Ident(String),
    /// A quoted or interpolated segment, whose name is not known statically.
    Computed,
}

/// An entry of a `let ... in` block or of an attribute-set literal.
#[derive(Debug, PartialEq, Eq)]
pub enum Entry {
    /// `path = value;`
    Assign(Vec<AttrName>, Expr),
    /// `inherit ...;`, which the analysis does not model.
    Inherit,
}

/// The parameter of a function.
#[derive(Clone, Debug, PartialEq, Eq)]
pub enum Param {
    /// `x: ...`
    Ident(String),
    /// `{ a, b, ... } @ bind: ...`
    Pattern { bind: Option<String>, fields: Vec<String> },
}

/// An expression.
#[derive(Debug, PartialEq, Eq)]
pub enum Expr {
    /// `f x`
    Apply(Box<Expr>, Box<Expr>),
    /// `e.a.b`, with the `or` fallback if one is given.
    Select(Box<Expr>, Vec<AttrName>, Option<Box<Expr>>),
    /// A name.
    Ident(String),
    /// `with ns; body`
    With(Box<Expr>, Box<Expr>),
    /// `let entries in body`
    LetIn(Vec<Entry>, Box<Expr>),
    /// `{ entries }`, or `rec { entries }` when the flag is set.
    AttrSet(bool, Vec<Entry>),
    /// `param: body`
    Lambda(Param, Box<Expr>),
    /// `( e )`
    Paren(Box<Expr>),
    /// Any other kind of expression, which the analysis does not look into.
    Other(ExprKind),
}

/// The kind of an expression.
pub open spec fn expr_kind(e: Expr) -> ExprKind {
    match e {
        Expr::Apply(..) => ExprKind::Apply,
        Expr::Select(..) => ExprKind::Select,
        Expr::Ident(..) => ExprKind::Ident,
        Expr::With(..) => ExprKind::With,
        Expr::LetIn(..) => ExprKind::LetIn,
        Expr::AttrSet(..) => ExprKind::AttrSet,
        Expr::Lambda(..) => ExprKind::Lambda,
        Expr::Paren(..) => ExprKind::Paren,
        Expr::Other(k) => k,
    }
}

/// Classifies an expression by its kind.
pub fn token_type(expr: &Expr) -> (r: ExprKind)
    ensures
        r == expr_kind(*expr),
{
    match expr {
        Expr::Apply(..) => ExprKind::Apply,
        Expr::Select(..) => ExprKind::Select,
        Expr::Ident(..) => ExprKind::Ident,
        Expr::With(..) => ExprKind::With,
        Expr::LetIn(..) => ExprKind::LetIn,
        Expr::AttrSet(..) => ExprKind::AttrSet,
        Expr::Lambda(..) => ExprKind::Lambda,
        Expr::Paren(..) => ExprKind::Paren,
        Expr::Other(k) => *k,
    }
}

} // verus!
