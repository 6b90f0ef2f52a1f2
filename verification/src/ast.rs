//! A closed model of the Python syntax-tree shapes that class extraction
//! reads: expressions, statements, and function parameters.  A host parser
//! produces a tree of these values; everything the extractor consumes is
//! plain data (strings, vectors, options), so the logic over it is verified.
use vstd::prelude::*;

verus! {

/// The kinds of literal constant the printer distinguishes.  An integer is
/// held by its decimal spelling, exactly as it is printed back.
#[derive(Debug, PartialEq, Eq)]
pub enum Constant {
    Str(String),
    Int(String),
    Bool(bool),
    NoneConst,
    EllipsisConst,
    BytesConst,
    FloatConst,
    ComplexConst,
    TupleConst,
}

/// One `key: value` entry of a dict literal; a missing key stands for a
/// `**`-expansion entry.
#[derive(Debug, PartialEq, Eq)]
pub struct DictEntry {
    pub key: Option<Expr>,
    pub value: Expr,
}

/// Expression shapes.  Shapes the printers handle are carried with their
/// contents; a call keeps its own tag (it decides failure for base-class
/// lists), and every other shape collapses into `Other`.
#[derive(Debug, PartialEq, Eq)]
pub enum Expr {
    Name(String),
    Constant(Constant),
    SetLit(Vec<Expr>),
    TupleLit(Vec<Expr>),
    ListLit(Vec<Expr>),
    DictLit(Vec<DictEntry>),
    Subscript(Box<Expr>, Box<Expr>),
    BinOp(Box<Expr>, Box<Expr>),
    Attribute(Box<Expr>, String),
    Call,
    Lambda,
    Other,
}

/// A function parameter together with its optional annotation and default.
#[derive(Debug, PartialEq, Eq)]
pub struct Param {
    pub name: String,
    pub annotation: Option<Expr>,
    pub default: Option<Expr>,
}

/// A plain assignment `a = b = value`.
#[derive(Debug, PartialEq, Eq)]
pub struct Assign {
    pub targets: Vec<Expr>,
    pub value: Expr,
}

/// An annotated assignment `target: annotation = value`.
#[derive(Debug, PartialEq, Eq)]
pub struct AnnAssign {
    pub target: Expr,
    pub annotation: Expr,
    pub value: Option<Expr>,
}

/// A function definition.  The three parameter lists mirror Python's
/// positional-only, keyword-only and normal groups; extraction concatenates
/// them in exactly that order.
#[derive(Debug, PartialEq, Eq)]
pub struct FunctionDef {
    pub name: String,
    pub posonlyargs: Vec<Param>,
    pub kwonlyargs: Vec<Param>,
    pub args: Vec<Param>,
    pub returns: Option<Expr>,
    pub body: Vec<Stmt>,
}

/// A class definition: name, base-class expressions, body statements.
#[derive(Debug, PartialEq, Eq)]
pub struct ClassDef {
    pub name: String,
    pub bases: Vec<Expr>,
    pub body: Vec<Stmt>,
}

/// Statement shapes that extraction distinguishes; everything else is
/// `Other` and is skipped wherever a statement list is walked.
#[derive(Debug, PartialEq, Eq)]
pub enum Stmt {
    ClassDef(ClassDef),
    FunctionDef(FunctionDef),
    AsyncFunctionDef(FunctionDef),
    Assign(Assign),
    AnnAssign(AnnAssign),
    Other,
}

/// The tag of an expression shape, used by error values to identify the
/// expression they refused.
#[derive(Debug, Clone, Copy, PartialEq, Eq, Structural)]
pub enum ExprKind {
    NameKind,
    ConstantKind,
    SetLitKind,
    TupleLitKind,
    ListLitKind,
    DictLitKind,
    SubscriptKind,
    BinOpKind,
    AttributeKind,
    CallKind,
    LambdaKind,
    OtherKind,
}

pub open spec fn kind_of(e: Expr) -> ExprKind {
    match e {
        Expr::Name(_) => ExprKind::NameKind,
        Expr::Constant(_) => ExprKind::ConstantKind,
        Expr::SetLit(_) => ExprKind::SetLitKind,
        Expr::TupleLit(_) => ExprKind::TupleLitKind,
        Expr::ListLit(_) => ExprKind::ListLitKind,
        Expr::DictLit(_) => ExprKind::DictLitKind,
        Expr::Subscript(_, _) => ExprKind::SubscriptKind,
        Expr::BinOp(_, _) => ExprKind::BinOpKind,
        Expr::Attribute(_, _) => ExprKind::AttributeKind,
        Expr::Call => ExprKind::CallKind,
        Expr::Lambda => ExprKind::LambdaKind,
        Expr::Other => ExprKind::OtherKind,
    }
}

impl Expr {
    /// The tag of this expression's shape.
    pub fn kind(&self) -> (k: ExprKind)
        ensures
            k == kind_of(*self),
    {
        match self {
            Expr::Name(_) => ExprKind::NameKind,
            Expr::Constant(_) => ExprKind::ConstantKind,
            Expr::SetLit(_) => ExprKind::SetLitKind,
            Expr::TupleLit(_) => ExprKind::TupleLitKind,
            Expr::ListLit(_) => ExprKind::ListLitKind,
            Expr::DictLit(_) => ExprKind::DictLitKind,
            Expr::Subscript(_, _) => ExprKind::SubscriptKind,
            Expr::BinOp(_, _) => ExprKind::BinOpKind,
            Expr::Attribute(_, _) => ExprKind::AttributeKind,
            Expr::Call => ExprKind::CallKind,
            Expr::Lambda => ExprKind::LambdaKind,
            Expr::Other => ExprKind::OtherKind,
        }
    }
}

} // verus!
