use vstd::prelude::*;
use crate::span::Span;

verus! {

/// Which keyword introduced a variable declaration.
#[derive(Clone, Copy, PartialEq, Eq, Structural, Debug)]
pub enum DeclKind {
    Let,
    Const,
    Var,
}

#[derive(Clone, Copy, PartialEq, Eq, Structural, Debug)]
pub enum UnOp {
    Not,
    Neg,
    Plus,
}

#[derive(Clone, Copy, PartialEq, Eq, Structural, Debug)]
pub enum BinOp {
    Add,
    Sub,
    Mul,
    Div,
    Mod,
    Pow,
    EqEq,
    NotEq,
    StrictEq,
    StrictNotEq,
    Lt,
    LtEq,
    Gt,
    GtEq,
    AndAnd,
    OrOr,
    Coalesce,
}

/// A type annotation. Parsed so the source is checked, carried so the
/// generator can drop it: nothing here reaches the output.
#[derive(PartialEq, Eq, Debug)]
pub enum TypeAnn {
    /// A named type (`number`, `Color`, ...).
    Name { span: Span, name: Vec<char> },
    /// An array type `T[]`.
    Array { span: Span, elem: Box<TypeAnn> },
    /// A union type `T | U`.
    Union { span: Span, lhs: Box<TypeAnn>, rhs: Box<TypeAnn> },
}

/// A function parameter: a name with an optional type annotation.
#[derive(PartialEq, Eq, Debug)]
pub struct Param {
    pub span: Span,
    pub name: Vec<char>,
    pub ty: Option<TypeAnn>,
}

/// One member of an `enum` declaration. Members are numbered by
/// position when the enum is lowered.
#[derive(PartialEq, Eq, Debug)]
pub struct EnumMember {
    pub span: Span,
    pub name: Vec<char>,
}

/// An expression. Literals keep their raw source text, so that the
/// generator re-emits them exactly as written.
#[derive(PartialEq, Eq, Debug)]
pub enum Expr {
    Num { span: Span, text: Vec<char> },
    StrLit { span: Span, text: Vec<char> },
    Regex { span: Span, text: Vec<char> },
    BoolLit { span: Span, value: bool },
    NullLit { span: Span },
    Ident { span: Span, name: Vec<char> },
    /// A parenthesized expression; kept as a node so that regenerated
    /// text preserves the grouping the source had.
    Paren { span: Span, inner: Box<Expr> },
    Unary { span: Span, op: UnOp, arg: Box<Expr> },
    Binary { span: Span, op: BinOp, lhs: Box<Expr>, rhs: Box<Expr> },
    Assign { span: Span, target: Box<Expr>, value: Box<Expr> },
    Cond { span: Span, cond: Box<Expr>, then_e: Box<Expr>, else_e: Box<Expr> },
    Call { span: Span, callee: Box<Expr>, args: Vec<Expr> },
    Member { span: Span, obj: Box<Expr>, prop: Vec<char> },
    Index { span: Span, obj: Box<Expr>, index: Box<Expr> },
    /// `e as T`: the expression keeps its value, the annotation is
    /// dropped at generation.
    TypeAssertion { span: Span, expr: Box<Expr>, ty: TypeAnn },
    /// `e!`: the non-null assertion, dropped at generation.
    NonNull { span: Span, expr: Box<Expr> },
}

/// A statement or declaration.
#[derive(PartialEq, Eq, Debug)]
pub enum Stmt {
    VarDecl {
        span: Span,
        kind: DeclKind,
        name: Vec<char>,
        ty: Option<TypeAnn>,
        init: Option<Expr>,
    },
    ExprStmt { span: Span, expr: Expr },
    Return { span: Span, arg: Option<Expr> },
    If { span: Span, cond: Expr, then_s: Box<Stmt>, else_s: Option<Box<Stmt>> },
    While { span: Span, cond: Expr, body: Box<Stmt> },
    Block { span: Span, stmts: Vec<Stmt> },
    FnDecl {
        span: Span,
        name: Vec<char>,
        params: Vec<Param>,
        ret: Option<TypeAnn>,
        body: Vec<Stmt>,
    },
    /// An `interface` declaration: semantically inert, erased entirely
    /// at generation.
    Interface { span: Span, name: Vec<char>, members: Vec<Param> },
    /// A `type` alias: semantically inert, erased entirely at generation.
    TypeAlias { span: Span, name: Vec<char>, ty: TypeAnn },
    /// An `enum` declaration, lowered at generation to a runtime object
    /// whose members hold their positions.
    EnumDecl { span: Span, name: Vec<char>, members: Vec<EnumMember> },
    Empty { span: Span },
}

/// The root node: the ordered top-level statements of one source text.
#[derive(PartialEq, Eq, Debug)]
pub struct Program {
    pub body: Vec<Stmt>,
}

// ---------------------------------------------------------------------------
// The mathematical view of a tree. The parser's specification
// (`spec_parse_program` and friends) speaks in these: the same shapes
// as the executable tree, with text as character sequences.
// ---------------------------------------------------------------------------

pub enum TyView {
    Name { span: Span, name: Seq<char> },
    Array { span: Span, elem: Box<TyView> },
    Union { span: Span, lhs: Box<TyView>, rhs: Box<TyView> },
}

pub struct ParamView {
    pub span: Span,
    pub name: Seq<char>,
    pub ty: Option<TyView>,
}

pub struct MemberView {
    pub span: Span,
    pub name: Seq<char>,
}

pub enum ExprView {
    Num { span: Span, text: Seq<char> },
    StrLit { span: Span, text: Seq<char> },
    Regex { span: Span, text: Seq<char> },
    BoolLit { span: Span, value: bool },
    NullLit { span: Span },
    Ident { span: Span, name: Seq<char> },
    Paren { span: Span, inner: Box<ExprView> },
    Unary { span: Span, op: UnOp, arg: Box<ExprView> },
    Binary { span: Span, op: BinOp, lhs: Box<ExprView>, rhs: Box<ExprView> },
    Assign { span: Span, target: Box<ExprView>, value: Box<ExprView> },
    Cond { span: Span, cond: Box<ExprView>, then_e: Box<ExprView>, else_e: Box<ExprView> },
    Call { span: Span, callee: Box<ExprView>, args: Seq<ExprView> },
    Member { span: Span, obj: Box<ExprView>, prop: Seq<char> },
    Index { span: Span, obj: Box<ExprView>, index: Box<ExprView> },
    TypeAssertion { span: Span, expr: Box<ExprView>, ty: TyView },
    NonNull { span: Span, expr: Box<ExprView> },
}

pub enum StmtView {
    VarDecl {
        span: Span,
        kind: DeclKind,
        name: Seq<char>,
        ty: Option<TyView>,
        init: Option<ExprView>,
    },
    ExprStmt { span: Span, expr: ExprView },
    Return { span: Span, arg: Option<ExprView> },
    If { span: Span, cond: ExprView, then_s: Box<StmtView>, else_s: Option<Box<StmtView>> },
    While { span: Span, cond: ExprView, body: Box<StmtView> },
    Block { span: Span, stmts: Seq<StmtView> },
    FnDecl {
        span: Span,
        name: Seq<char>,
        params: Seq<ParamView>,
        ret: Option<TyView>,
        body: Seq<StmtView>,
    },
    Interface { span: Span, name: Seq<char>, members: Seq<ParamView> },
    TypeAlias { span: Span, name: Seq<char>, ty: TyView },
    EnumDecl { span: Span, name: Seq<char>, members: Seq<MemberView> },
    Empty { span: Span },
}

pub struct ProgramView {
    pub body: Seq<StmtView>,
}

pub open spec fn view_ty(t: TypeAnn) -> TyView
    decreases t,
{
    match t {
        TypeAnn::Name { span, name } => TyView::Name { span, name: name@ },
        TypeAnn::Array { span, elem } => TyView::Array { span, elem: Box::new(view_ty(*elem)) },
        TypeAnn::Union { span, lhs, rhs } => TyView::Union {
            span,
            lhs: Box::new(view_ty(*lhs)),
            rhs: Box::new(view_ty(*rhs)),
        },
    }
}

pub open spec fn view_param(p: Param) -> ParamView {
    ParamView {
        span: p.span,
        name: p.name@,
        ty: match p.ty {
            Option::Some(t) => Some(view_ty(t)),
            Option::None => None,
        },
    }
}

pub open spec fn view_member(m: EnumMember) -> MemberView {
    MemberView { span: m.span, name: m.name@ }
}

pub open spec fn view_params(v: Vec<Param>, k: int) -> Seq<ParamView>
    decreases v@.len() - k,
{
    if k < 0 || k >= v@.len() {
        Seq::empty()
    } else {
        seq![view_param(v@[k])] + view_params(v, k + 1)
    }
}

pub open spec fn view_members(v: Vec<EnumMember>, k: int) -> Seq<MemberView>
    decreases v@.len() - k,
{
    if k < 0 || k >= v@.len() {
        Seq::empty()
    } else {
        seq![view_member(v@[k])] + view_members(v, k + 1)
    }
}

pub open spec fn view_expr(e: Expr) -> ExprView
    decreases e,
{
    match e {
        Expr::Num { span, text } => ExprView::Num { span, text: text@ },
        Expr::StrLit { span, text } => ExprView::StrLit { span, text: text@ },
        Expr::Regex { span, text } => ExprView::Regex { span, text: text@ },
        Expr::BoolLit { span, value } => ExprView::BoolLit { span, value },
        Expr::NullLit { span } => ExprView::NullLit { span },
        Expr::Ident { span, name } => ExprView::Ident { span, name: name@ },
        Expr::Paren { span, inner } => ExprView::Paren {
            span,
            inner: Box::new(view_expr(*inner)),
        },
        Expr::Unary { span, op, arg } => ExprView::Unary {
            span,
            op,
            arg: Box::new(view_expr(*arg)),
        },
        Expr::Binary { span, op, lhs, rhs } => ExprView::Binary {
            span,
            op,
            lhs: Box::new(view_expr(*lhs)),
            rhs: Box::new(view_expr(*rhs)),
        },
        Expr::Assign { span, target, value } => ExprView::Assign {
            span,
            target: Box::new(view_expr(*target)),
            value: Box::new(view_expr(*value)),
        },
        Expr::Cond { span, cond, then_e, else_e } => ExprView::Cond {
            span,
            cond: Box::new(view_expr(*cond)),
            then_e: Box::new(view_expr(*then_e)),
            else_e: Box::new(view_expr(*else_e)),
        },
        Expr::Call { span, callee, args } => ExprView::Call {
            span,
            callee: Box::new(view_expr(*callee)),
            args: view_args(args, 0),
        },
        Expr::Member { span, obj, prop } => ExprView::Member {
            span,
            obj: Box::new(view_expr(*obj)),
            prop: prop@,
        },
        Expr::Index { span, obj, index } => ExprView::Index {
            span,
            obj: Box::new(view_expr(*obj)),
            index: Box::new(view_expr(*index)),
        },
        Expr::TypeAssertion { span, expr, ty } => ExprView::TypeAssertion {
            span,
            expr: Box::new(view_expr(*expr)),
            ty: view_ty(ty),
        },
        Expr::NonNull { span, expr } => ExprView::NonNull {
            span,
            expr: Box::new(view_expr(*expr)),
        },
    }
}

pub open spec fn view_args(v: Vec<Expr>, k: int) -> Seq<ExprView>
    decreases v, v@.len() - k,
{
    if k < 0 || k >= v@.len() {
        Seq::empty()
    } else {
        seq![view_expr(v@[k])] + view_args(v, k + 1)
    }
}

pub open spec fn view_stmt(s: Stmt) -> StmtView
    decreases s,
{
    match s {
        Stmt::VarDecl { span, kind, name, ty, init } => StmtView::VarDecl {
            span,
            kind,
            name: name@,
            ty: match ty {
                Option::Some(t) => Some(view_ty(t)),
                Option::None => None,
            },
            init: match init {
                Option::Some(e) => Some(view_expr(e)),
                Option::None => None,
            },
        },
        Stmt::ExprStmt { span, expr } => StmtView::ExprStmt { span, expr: view_expr(expr) },
        Stmt::Return { span, arg } => StmtView::Return {
            span,
            arg: match arg {
                Option::Some(e) => Some(view_expr(e)),
                Option::None => None,
            },
        },
        Stmt::If { span, cond, then_s, else_s } => StmtView::If {
            span,
            cond: view_expr(cond),
            then_s: Box::new(view_stmt(*then_s)),
            else_s: match else_s {
                Option::Some(b) => Some(Box::new(view_stmt(*b))),
                Option::None => None,
            },
        },
        Stmt::While { span, cond, body } => StmtView::While {
            span,
            cond: view_expr(cond),
            body: Box::new(view_stmt(*body)),
        },
        Stmt::Block { span, stmts } => StmtView::Block { span, stmts: view_stmts(stmts, 0) },
        Stmt::FnDecl { span, name, params, ret, body } => StmtView::FnDecl {
            span,
            name: name@,
            params: view_params(params, 0),
            ret: match ret {
                Option::Some(t) => Some(view_ty(t)),
                Option::None => None,
            },
            body: view_stmts(body, 0),
        },
        Stmt::Interface { span, name, members } => StmtView::Interface {
            span,
            name: name@,
            members: view_params(members, 0),
        },
        Stmt::TypeAlias { span, name, ty } => StmtView::TypeAlias {
            span,
            name: name@,
            ty: view_ty(ty),
        },
        Stmt::EnumDecl { span, name, members } => StmtView::EnumDecl {
            span,
            name: name@,
            members: view_members(members, 0),
        },
        Stmt::Empty { span } => StmtView::Empty { span },
    }
}

pub open spec fn view_stmts(v: Vec<Stmt>, k: int) -> Seq<StmtView>
    decreases v, v@.len() - k,
{
    if k < 0 || k >= v@.len() {
        Seq::empty()
    } else {
        seq![view_stmt(v@[k])] + view_stmts(v, k + 1)
    }
}

pub open spec fn view_program(p: Program) -> ProgramView {
    ProgramView { body: view_stmts(p.body, 0) }
}

} // verus!
