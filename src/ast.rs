//! The expression tree that the markup rewrite works on.
use vstd::prelude::*;

verus! {

/// A source position: byte offset and width of the span, and the line it
/// starts on.
#[derive(Clone, Copy, Debug, PartialEq, Eq, Structural)]
pub struct Pos {
    pub offset: u64,
    pub width: u64,
    pub line: u64,
}

/// A name together with the position where it is written.
#[derive(Debug)]
pub struct Id {
    pub pos: Pos,
    pub name: String,
}

/// The key of a field of a shape literal.
#[derive(Debug)]
pub enum ShapeFieldName {
    LitStr(Pos, String),
    LitInt(Pos, String),
}

/// A reference to a class in a `new` expression.
#[derive(Debug)]
pub struct ClassId {
    pub pos: Pos,
    pub name: Id,
}

/// One attribute of a markup node: `name={expr}` or `{...expr}`.
#[derive(Debug)]
pub enum XhpAttribute {
    Simple(Id, Expr),
    Spread(Expr),
}

#[derive(Debug)]
pub struct Expr {
    pub pos: Pos,
    pub kind: ExprKind,
}

#[derive(Debug)]
pub enum ExprKind {
    Null,
    Int(String),
    Str(String),
    Lvar(String),
    Id(Id),
    Call(Box<Expr>, Vec<Expr>),
    Shape(Vec<(ShapeFieldName, Expr)>),
    Varray(Vec<Expr>),
    /// `new C<targs>(args, ...unpacked)`; the last position is that of the
    /// whole expression.
    New(ClassId, Vec<String>, Vec<Expr>, Option<Box<Expr>>, Pos),
    /// A markup node: tag, attributes and children.
    Xml(Id, Vec<XhpAttribute>, Vec<Expr>),
}

#[derive(Debug)]
pub enum Stmt {
    Expr(Expr),
    Return(Option<Expr>),
}

#[derive(Debug)]
pub struct Program {
    pub stmts: Vec<Stmt>,
}

/// The expression that an attribute binds.
pub open spec fn attribute_value(a: XhpAttribute) -> Expr {
    match a {
        XhpAttribute::Simple(_, e) => e,
        XhpAttribute::Spread(e) => e,
    }
}

/// No markup node occurs anywhere in `e`.
pub open spec fn expr_markup_free(e: Expr) -> bool
    decreases e,
{
    match e.kind {
        ExprKind::Xml(..) => false,
        ExprKind::Call(f, args) => expr_markup_free(*f) && forall|i: int|
            0 <= i < args.len() ==> expr_markup_free(#[trigger] args[i]),
        ExprKind::Shape(fields) => forall|i: int|
            0 <= i < fields.len() ==> expr_markup_free(#[trigger] fields[i].1),
        ExprKind::Varray(es) => forall|i: int|
            0 <= i < es.len() ==> expr_markup_free(#[trigger] es[i]),
        ExprKind::New(_, _, args, unpacked, _) => (forall|i: int|
            0 <= i < args.len() ==> expr_markup_free(#[trigger] args[i])) && match unpacked {
            Some(u) => expr_markup_free(*u),
            None => true,
        },
        _ => true,
    }
}

pub open spec fn stmt_markup_free(s: Stmt) -> bool {
    match s {
        Stmt::Expr(e) => expr_markup_free(e),
        Stmt::Return(Some(e)) => expr_markup_free(e),
        Stmt::Return(None) => true,
    }
}

/// No markup node occurs anywhere in the program.
pub open spec fn program_markup_free(p: Program) -> bool {
    forall|i: int| 0 <= i < p.stmts.len() ==> #[trigger] stmt_markup_free(p.stmts[i])
}

} // verus!
