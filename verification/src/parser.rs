use vstd::prelude::*;
use crate::ast::{BinOp, DeclKind, EnumMember, Expr, Param, Program, Stmt, TypeAnn, UnOp};
use crate::ast::{
    view_args, view_expr, view_member, view_members, view_param, view_params, view_program,
    view_stmt, view_stmts, view_ty, ExprView, MemberView, ParamView, ProgramView, StmtView, TyView,
};
use crate::lexer::tokens_wf;
use crate::span::Span;
use crate::token::{Kw, Punct, Token, TokenKind};

verus! {

/// What the parser was looking for when it stopped.
#[derive(Clone, Copy, PartialEq, Eq, Structural, Debug)]
pub enum Expected {
    Expression,
    IdentName,
    TypeName,
    MemberName,
    Tok(TokenKind),
}

/// Grammar-level failures. The whole parse fails atomically: no
/// partial tree is ever returned beside an error.
#[derive(Clone, Copy, PartialEq, Eq, Structural, Debug)]
pub enum ParseError {
    /// The parser needed one of `expected` and found `found`; the
    /// error is located at the found token.
    UnexpectedToken { expected: Expected, found: Token },
    InvalidAssignmentTarget(Span),
    /// `??` stood beside `&&` or `||` without explicit grouping.
    MixedNullishLogical(Span),
    ReservedWordAsIdentifier(Span),
}

impl ParseError {
    /// The source range the error points at.
    pub open spec fn spec_span(self) -> Span {
        match self {
            ParseError::UnexpectedToken { expected, found } => found.span,
            ParseError::InvalidAssignmentTarget(s) => s,
            ParseError::MixedNullishLogical(s) => s,
            ParseError::ReservedWordAsIdentifier(s) => s,
        }
    }

    pub fn span(&self) -> (s: Span)
        ensures
            s == self.spec_span(),
    {
        match self {
            ParseError::UnexpectedToken { expected, found } => found.span,
            ParseError::InvalidAssignmentTarget(s) => *s,
            ParseError::MixedNullishLogical(s) => *s,
            ParseError::ReservedWordAsIdentifier(s) => *s,
        }
    }
}

/// Tokens appear in source order: an earlier token ends no later than
/// a later one begins.
pub proof fn lemma_toks_ordered(n: nat, toks: Seq<Token>, a: int, b: int)
    requires
        tokens_wf(n, toks),
        0 <= a <= b < toks.len(),
    ensures
        toks[a].span.start <= toks[b].span.start,
        toks[a].span.end <= toks[b].span.end,
        a < b ==> toks[a].span.end <= toks[b].span.start,
    decreases b - a,
{
    if a < b {
        lemma_toks_ordered(n, toks, a, b - 1);
        assert(crate::lexer::toks_adjacent(toks, b - 1));
        assert(toks[a].wf(n));
        assert(toks[b - 1].wf(n));
        assert(toks[b].wf(n));
    }
}

/// A span lies within the source of `n` characters.
pub open spec fn span_ok(sp: Span, n: nat) -> bool {
    sp.start <= sp.end <= n
}

/// Well-formed type annotation: its span lies in the source and each
/// child annotation's span lies within its parent's.
pub open spec fn type_wf(t: TypeAnn, n: nat) -> bool
    decreases t,
{
    match t {
        TypeAnn::Name { span, .. } => span_ok(span, n),
        TypeAnn::Array { span, elem } => span_ok(span, n) && type_wf(*elem, n) && spec_type_span(
            *elem,
        ).within(span),
        TypeAnn::Union { span, lhs, rhs } => span_ok(span, n) && type_wf(*lhs, n) && type_wf(
            *rhs,
            n,
        ) && spec_type_span(*lhs).within(span) && spec_type_span(*rhs).within(span),
    }
}

/// Well-formed expression: its span lies in the source and every child
/// node's span lies within its parent's.
pub open spec fn expr_wf(e: Expr, n: nat) -> bool
    decreases e,
{
    &&& span_ok(spec_expr_span(e), n)
    &&& match e {
        Expr::Num { .. } => true,
        Expr::StrLit { .. } => true,
        Expr::Regex { .. } => true,
        Expr::BoolLit { .. } => true,
        Expr::NullLit { .. } => true,
        Expr::Ident { .. } => true,
        Expr::Paren { span, inner } => expr_wf(*inner, n) && spec_expr_span(*inner).within(span),
        Expr::Unary { span, arg, .. } => expr_wf(*arg, n) && spec_expr_span(*arg).within(span),
        Expr::Binary { span, lhs, rhs, .. } => expr_wf(*lhs, n) && expr_wf(*rhs, n)
            && spec_expr_span(*lhs).within(span) && spec_expr_span(*rhs).within(span),
        Expr::Assign { span, target, value } => expr_wf(*target, n) && expr_wf(*value, n)
            && spec_expr_span(*target).within(span) && spec_expr_span(*value).within(span),
        Expr::Cond { span, cond, then_e, else_e } => expr_wf(*cond, n) && expr_wf(*then_e, n)
            && expr_wf(*else_e, n) && spec_expr_span(*cond).within(span) && spec_expr_span(
            *then_e,
        ).within(span) && spec_expr_span(*else_e).within(span),
        Expr::Call { span, callee, args } => expr_wf(*callee, n) && spec_expr_span(*callee).within(
            span,
        ) && (forall|k: int|
            0 <= k < args@.len() ==> expr_wf(#[trigger] args@[k], n) && spec_expr_span(
                args@[k],
            ).within(span)),
        Expr::Member { span, obj, .. } => expr_wf(*obj, n) && spec_expr_span(*obj).within(span),
        Expr::Index { span, obj, index } => expr_wf(*obj, n) && expr_wf(*index, n)
            && spec_expr_span(*obj).within(span) && spec_expr_span(*index).within(span),
        Expr::TypeAssertion { span, expr, ty } => expr_wf(*expr, n) && spec_expr_span(
            *expr,
        ).within(span) && type_wf(ty, n) && spec_type_span(ty).within(span),
        Expr::NonNull { span, expr } => expr_wf(*expr, n) && spec_expr_span(*expr).within(span),
    }
}

/// Well-formed statement: its span lies in the source and every child
/// node's span lies within its parent's.
pub open spec fn stmt_wf(s: Stmt, n: nat) -> bool
    decreases s,
{
    &&& span_ok(spec_stmt_span(s), n)
    &&& match s {
        Stmt::VarDecl { span, ty, init, .. } => (match ty {
            Option::Some(t) => type_wf(t, n) && spec_type_span(t).within(span),
            Option::None => true,
        }) && (match init {
            Option::Some(e) => expr_wf(e, n) && spec_expr_span(e).within(span),
            Option::None => true,
        }),
        Stmt::ExprStmt { span, expr } => expr_wf(expr, n) && spec_expr_span(expr).within(span),
        Stmt::Return { span, arg } => match arg {
            Option::Some(e) => expr_wf(e, n) && spec_expr_span(e).within(span),
            Option::None => true,
        },
        Stmt::If { span, cond, then_s, else_s } => expr_wf(cond, n) && spec_expr_span(cond).within(
            span,
        ) && stmt_wf(*then_s, n) && spec_stmt_span(*then_s).within(span) && (match else_s {
            Option::Some(b) => stmt_wf(*b, n) && spec_stmt_span(*b).within(span),
            Option::None => true,
        }),
        Stmt::While { span, cond, body } => expr_wf(cond, n) && spec_expr_span(cond).within(span)
            && stmt_wf(*body, n) && spec_stmt_span(*body).within(span),
        Stmt::Block { span, stmts } => forall|k: int|
            0 <= k < stmts@.len() ==> stmt_wf(#[trigger] stmts@[k], n) && spec_stmt_span(
                stmts@[k],
            ).within(span),
        Stmt::FnDecl { span, params, ret, body, .. } => (forall|k: int|
            0 <= k < params@.len() ==> span_ok((#[trigger] params@[k]).span, n)
                && params@[k].span.within(span)) && (match ret {
            Option::Some(t) => type_wf(t, n) && spec_type_span(t).within(span),
            Option::None => true,
        }) && (forall|k: int|
            0 <= k < body@.len() ==> stmt_wf(#[trigger] body@[k], n) && spec_stmt_span(
                body@[k],
            ).within(span)),
        Stmt::Interface { span, members, .. } => forall|k: int|
            0 <= k < members@.len() ==> span_ok((#[trigger] members@[k]).span, n)
                && members@[k].span.within(span),
        Stmt::TypeAlias { span, ty, .. } => type_wf(ty, n) && spec_type_span(ty).within(span),
        Stmt::EnumDecl { span, members, .. } => forall|k: int|
            0 <= k < members@.len() ==> span_ok((#[trigger] members@[k]).span, n)
                && members@[k].span.within(span),
        Stmt::Empty { .. } => true,
    }
}

/// Well-formed program: every statement is well formed.
pub open spec fn program_wf(p: Program, n: nat) -> bool {
    forall|k: int| 0 <= k < p.body@.len() ==> stmt_wf(#[trigger] p.body@[k], n)
}

/// A token that is not the end-of-input token never stands last, so
/// the position after it is still in bounds.
proof fn lemma_not_eof(n: nat, toks: Seq<Token>, i: int)
    requires
        tokens_wf(n, toks),
        0 <= i < toks.len(),
        toks[i].kind != TokenKind::Eof,
    ensures
        i + 1 < toks.len(),
{
    if i == toks.len() - 1 {
        assert(toks[toks.len() - 1].kind == TokenKind::Eof);
    }
}

/// Step past the token at `pos`, which is not the end-of-input token,
/// so the next position is still in bounds.
fn bump(src: &Vec<char>, toks: &Vec<Token>, pos: usize) -> (np: usize)
    requires
        tokens_wf(src@.len(), toks@),
        pos < toks@.len(),
        toks@[pos as int].kind != TokenKind::Eof,
    ensures
        np == pos + 1,
        np < toks@.len(),
{
    proof {
        lemma_not_eof(src@.len(), toks@, pos as int);
    }
    let n = toks.len();
    pos + 1
}

/// Copy the source text under a span.
fn text_of(src: &Vec<char>, sp: Span) -> (v: Vec<char>)
    requires
        sp.start <= sp.end <= src.len(),
    ensures
        v@ == src@.subrange(sp.start as int, sp.end as int),
{
    let mut v: Vec<char> = Vec::new();
    let mut i: usize = sp.start;
    while i < sp.end
        invariant
            sp.start <= i <= sp.end <= src.len(),
            v@ == src@.subrange(sp.start as int, i as int),
        decreases sp.end - i,
    {
        v.push(src[i]);
        proof {
            assert(v@ =~= src@.subrange(sp.start as int, i + 1));
        }
        i = i + 1;
    }
    v
}

/// Consume the given punctuator or fail at the found token.
fn expect_punct(src: &Vec<char>, toks: &Vec<Token>, pos: usize, p: Punct) -> (r: Result<
    (Token, usize),
    ParseError,
>)
    requires
        tokens_wf(src@.len(), toks@),
        pos < toks@.len(),
    ensures
        r matches Ok(o) ==> o.1 == pos + 1 && o.1 < toks@.len() && o.0 == toks@[pos as int]
            && spec_expect_punct(toks@, pos as int, p) == Ok::<(Token, int), ParseError>(
            (o.0, o.1 as int),
        ),
        r matches Err(e) ==> span_ok(e.spec_span(), src@.len()) && spec_expect_punct(
            toks@,
            pos as int,
            p,
        ) == Err::<(Token, int), ParseError>(e),
{
    let t = toks[pos];
    match t.kind {
        TokenKind::Punct(q) if q == p => {
            let np = bump(src, toks, pos);
            Ok((t, np))
        },
        _ => Err(
            ParseError::UnexpectedToken { expected: Expected::Tok(TokenKind::Punct(p)), found: t },
        ),
    }
}

/// Consume an identifier and hand back its text. A keyword here is a
/// reserved word used as a name.
fn expect_ident(src: &Vec<char>, toks: &Vec<Token>, pos: usize) -> (r: Result<
    (Vec<char>, Span, usize),
    ParseError,
>)
    requires
        tokens_wf(src@.len(), toks@),
        pos < toks@.len(),
    ensures
        r matches Ok(o) ==> o.2 == pos + 1 && o.2 < toks@.len() && o.1 == toks@[
            pos as int].span && o.0@ == src@.subrange(o.1.start as int, o.1.end as int)
            && spec_expect_ident(src@, toks@, pos as int) == Ok::<(Seq<char>, Span, int), ParseError>(
            (o.0@, o.1, o.2 as int),
        ),
        r matches Err(e) ==> span_ok(e.spec_span(), src@.len()) && spec_expect_ident(
            src@,
            toks@,
            pos as int,
        ) == Err::<(Seq<char>, Span, int), ParseError>(e),
{
    let t = toks[pos];
    match t.kind {
        TokenKind::Ident => {
            proof {
                assert(toks@[pos as int].wf(src@.len()));
            }
            let name = text_of(src, t.span);
            let np = bump(src, toks, pos);
            Ok((name, t.span, np))
        },
        TokenKind::Keyword(_) => Err(ParseError::ReservedWordAsIdentifier(t.span)),
        _ => Err(ParseError::UnexpectedToken { expected: Expected::IdentName, found: t }),
    }
}

/// Parse a type annotation: a named type, with `[]` array suffixes and
/// `|` unions. Types are carried only to be erased.
pub fn parse_type(src: &Vec<char>, toks: &Vec<Token>, pos: usize) -> (r: Result<
    (TypeAnn, usize),
    ParseError,
>)
    requires
        tokens_wf(src@.len(), toks@),
        pos < toks@.len(),
    ensures
        r matches Ok(o) ==> pos < o.1 < toks@.len() && type_wf(o.0, src@.len())
            && spec_type_span(o.0).start == toks@[pos as int].span.start && spec_type_span(
            o.0,
        ).end == toks@[o.1 - 1].span.end && spec_parse_type(src@, toks@, pos as int) == Ok::<
            (TyView, int),
            ParseError,
        >((view_ty(o.0), o.1 as int)),
        r matches Err(e) ==> span_ok(e.spec_span(), src@.len()) && spec_parse_type(
            src@,
            toks@,
            pos as int,
        ) == Err::<(TyView, int), ParseError>(e),
    decreases toks@.len() - pos, 0int,
{
    let ghost n = src@.len();
    let t = toks[pos];
    proof {
        assert(toks@[pos as int].wf(n));
    }
    let (name, nsp, mut i) = match t.kind {
        TokenKind::Ident => {
            proof {
                assert(toks@[pos as int].wf(src@.len()));
            }
            let name = text_of(src, t.span);
            let np = bump(src, toks, pos);
            (name, t.span, np)
        },
        _ => {
            return Err(ParseError::UnexpectedToken { expected: Expected::TypeName, found: t });
        },
    };
    let mut ty = TypeAnn::Name { span: nsp, name };
    let start = t.span.start;
    let ghost base = TyView::Name {
        span: t.span,
        name: src@.subrange(t.span.start as int, t.span.end as int),
    };
    proof {
        assert(view_ty(ty) == base);
    }
    loop
        invariant
            tokens_wf(src@.len(), toks@),
            n == src@.len(),
            pos < i < toks@.len(),
            start == toks@[pos as int].span.start,
            type_wf(ty, n),
            spec_type_span(ty).start == toks@[pos as int].span.start,
            spec_type_span(ty).end == toks@[i - 1].span.end,
            spec_type_suffixes(toks@, pos as int + 1, base, start) == spec_type_suffixes(
                toks@,
                i as int,
                view_ty(ty),
                start,
            ),
        ensures
            spec_type_suffixes(toks@, i as int, view_ty(ty), start) == (view_ty(ty), i as int),
        decreases toks@.len() - i,
    {
        let u = toks[i];
        if let TokenKind::Punct(Punct::LBracket) = u.kind {
            let i1 = bump(src, toks, i);
            if let TokenKind::Punct(Punct::RBracket) = toks[i1].kind {
                let i2 = bump(src, toks, i1);
                proof {
                    assert(toks@[i1 as int].wf(n));
                    lemma_toks_ordered(n, toks@, pos as int, i1 as int);
                    lemma_toks_ordered(n, toks@, i - 1, i1 as int);
                }
                ty = TypeAnn::Array {
                    span: Span { start, end: toks[i1].span.end },
                    elem: Box::new(ty),
                };
                i = i2;
            } else {
                break;
            }
        } else {
            break;
        }
    }
    let u = toks[i];
    if let TokenKind::Punct(Punct::Pipe) = u.kind {
        let i1 = bump(src, toks, i);
        let ghost iold = i as int;
        let (rhs, j) = parse_type(src, toks, i1)?;
        let rend = type_span(&rhs).end;
        proof {
            lemma_toks_ordered(n, toks@, pos as int, i1 as int);
            lemma_toks_ordered(n, toks@, iold - 1, j - 1);
            lemma_toks_ordered(n, toks@, pos as int, j - 1);
            lemma_toks_ordered(n, toks@, i1 as int, j - 1);
            lemma_view_ty_span(rhs);
        }
        ty = TypeAnn::Union { span: Span { start, end: rend }, lhs: Box::new(ty), rhs: Box::new(rhs) };
        i = j;
    }
    Ok((ty, i))
}

/// The source range a type annotation covers.
pub open spec fn spec_type_span(t: TypeAnn) -> Span {
    match t {
        TypeAnn::Name { span, .. } => span,
        TypeAnn::Array { span, .. } => span,
        TypeAnn::Union { span, .. } => span,
    }
}

pub fn type_span(t: &TypeAnn) -> (s: Span)
    ensures
        s == spec_type_span(*t),
{
    match t {
        TypeAnn::Name { span, .. } => *span,
        TypeAnn::Array { span, .. } => *span,
        TypeAnn::Union { span, .. } => *span,
    }
}

/// The source range an expression covers.
pub open spec fn spec_expr_span(e: Expr) -> Span {
    match e {
        Expr::Num { span, .. } => span,
        Expr::StrLit { span, .. } => span,
        Expr::Regex { span, .. } => span,
        Expr::BoolLit { span, .. } => span,
        Expr::NullLit { span } => span,
        Expr::Ident { span, .. } => span,
        Expr::Paren { span, .. } => span,
        Expr::Unary { span, .. } => span,
        Expr::Binary { span, .. } => span,
        Expr::Assign { span, .. } => span,
        Expr::Cond { span, .. } => span,
        Expr::Call { span, .. } => span,
        Expr::Member { span, .. } => span,
        Expr::Index { span, .. } => span,
        Expr::TypeAssertion { span, .. } => span,
        Expr::NonNull { span, .. } => span,
    }
}

pub fn expr_span(e: &Expr) -> (s: Span)
    ensures
        s == spec_expr_span(*e),
{
    match e {
        Expr::Num { span, .. } => *span,
        Expr::StrLit { span, .. } => *span,
        Expr::Regex { span, .. } => *span,
        Expr::BoolLit { span, .. } => *span,
        Expr::NullLit { span } => *span,
        Expr::Ident { span, .. } => *span,
        Expr::Paren { span, .. } => *span,
        Expr::Unary { span, .. } => *span,
        Expr::Binary { span, .. } => *span,
        Expr::Assign { span, .. } => *span,
        Expr::Cond { span, .. } => *span,
        Expr::Call { span, .. } => *span,
        Expr::Member { span, .. } => *span,
        Expr::Index { span, .. } => *span,
        Expr::TypeAssertion { span, .. } => *span,
        Expr::NonNull { span, .. } => *span,
    }
}

/// The binary operator a token stands for, with its binding power and
/// associativity. Exponentiation is the one right-associative operator.
fn binop_of(t: Token) -> (r: Option<(BinOp, u32, bool)>)
    ensures
        r matches Some(v) ==> 4 <= v.1 <= 10 && t.kind != TokenKind::Eof && spec_binop_of(t)
            == Some((v.0, v.1 as int, v.2)),
        r is None ==> spec_binop_of(t) is None,
{
    match t.kind {
        TokenKind::Punct(Punct::OrOr) => Some((BinOp::OrOr, 4, false)),
        TokenKind::Punct(Punct::Coalesce) => Some((BinOp::Coalesce, 4, false)),
        TokenKind::Punct(Punct::AndAnd) => Some((BinOp::AndAnd, 5, false)),
        TokenKind::Punct(Punct::EqEq) => Some((BinOp::EqEq, 6, false)),
        TokenKind::Punct(Punct::NotEq) => Some((BinOp::NotEq, 6, false)),
        TokenKind::Punct(Punct::EqEqEq) => Some((BinOp::StrictEq, 6, false)),
        TokenKind::Punct(Punct::NotEqEq) => Some((BinOp::StrictNotEq, 6, false)),
        TokenKind::Punct(Punct::Lt) => Some((BinOp::Lt, 7, false)),
        TokenKind::Punct(Punct::LtEq) => Some((BinOp::LtEq, 7, false)),
        TokenKind::Punct(Punct::Gt) => Some((BinOp::Gt, 7, false)),
        TokenKind::Punct(Punct::GtEq) => Some((BinOp::GtEq, 7, false)),
        TokenKind::Punct(Punct::Plus) => Some((BinOp::Add, 8, false)),
        TokenKind::Punct(Punct::Minus) => Some((BinOp::Sub, 8, false)),
        TokenKind::Punct(Punct::Star) => Some((BinOp::Mul, 9, false)),
        TokenKind::Punct(Punct::Slash) => Some((BinOp::Div, 9, false)),
        TokenKind::Punct(Punct::Percent) => Some((BinOp::Mod, 9, false)),
        TokenKind::Punct(Punct::StarStar) => Some((BinOp::Pow, 10, true)),
        _ => None,
    }
}

/// Is this expression a bare `&&` or `||` chain (no grouping round it)?
fn is_and_or(e: &Expr) -> (b: bool)
    ensures
        b == spec_is_and_or(view_expr(*e)),
{
    match e {
        Expr::Binary { op, .. } => *op == BinOp::AndAnd || *op == BinOp::OrOr,
        _ => false,
    }
}

/// Is this expression a bare `??` chain (no grouping round it)?
fn is_coalesce(e: &Expr) -> (b: bool)
    ensures
        b == spec_is_coalesce(view_expr(*e)),
{
    match e {
        Expr::Binary { op, .. } => *op == BinOp::Coalesce,
        _ => false,
    }
}

/// Parse a primary expression: a literal, a name, or a parenthesized
/// expression.
pub fn parse_primary(src: &Vec<char>, toks: &Vec<Token>, pos: usize) -> (r: Result<
    (Expr, usize),
    ParseError,
>)
    requires
        tokens_wf(src@.len(), toks@),
        pos < toks@.len(),
    ensures
        r matches Ok(o) ==> pos < o.1 < toks@.len() && expr_wf(o.0, src@.len())
            && spec_expr_span(o.0).start == toks@[pos as int].span.start && spec_expr_span(
            o.0,
        ).end == toks@[o.1 - 1].span.end && spec_parse_primary(src@, toks@, pos as int) == Ok::<
            (ExprView, int),
            ParseError,
        >((view_expr(o.0), o.1 as int)),
        r matches Err(e) ==> span_ok(e.spec_span(), src@.len()) && spec_parse_primary(
            src@,
            toks@,
            pos as int,
        ) == Err::<(ExprView, int), ParseError>(e),
    decreases toks@.len() - pos, 0int,
{
    let ghost n = src@.len();
    let t = toks[pos];
    proof {
        assert(toks@[pos as int].wf(src@.len()));
    }
    match t.kind {
        TokenKind::Num => {
            let text = text_of(src, t.span);
            let np = bump(src, toks, pos);
            Ok((Expr::Num { span: t.span, text }, np))
        },
        TokenKind::StrLit => {
            let text = text_of(src, t.span);
            let np = bump(src, toks, pos);
            Ok((Expr::StrLit { span: t.span, text }, np))
        },
        TokenKind::Regex => {
            let text = text_of(src, t.span);
            let np = bump(src, toks, pos);
            Ok((Expr::Regex { span: t.span, text }, np))
        },
        TokenKind::Ident => {
            let name = text_of(src, t.span);
            let np = bump(src, toks, pos);
            Ok((Expr::Ident { span: t.span, name }, np))
        },
        TokenKind::Keyword(Kw::True) => {
            let np = bump(src, toks, pos);
            Ok((Expr::BoolLit { span: t.span, value: true }, np))
        },
        TokenKind::Keyword(Kw::False) => {
            let np = bump(src, toks, pos);
            Ok((Expr::BoolLit { span: t.span, value: false }, np))
        },
        TokenKind::Keyword(Kw::Null) => {
            let np = bump(src, toks, pos);
            Ok((Expr::NullLit { span: t.span }, np))
        },
        TokenKind::Punct(Punct::LParen) => {
            let i1 = bump(src, toks, pos);
            let (inner, i2) = parse_expr(src, toks, i1, 1)?;
            let (rp, i3) = expect_punct(src, toks, i2, Punct::RParen)?;
            proof {
                assert(toks@[i2 as int].wf(n));
                lemma_toks_ordered(n, toks@, pos as int, i1 as int);
                lemma_toks_ordered(n, toks@, i2 - 1, i2 as int);
                lemma_toks_ordered(n, toks@, pos as int, i2 as int);
            }
            Ok(
                (
                    Expr::Paren {
                        span: Span { start: t.span.start, end: rp.span.end },
                        inner: Box::new(inner),
                    },
                    i3,
                ),
            )
        },
        _ => Err(ParseError::UnexpectedToken { expected: Expected::Expression, found: t }),
    }
}

/// Parse a primary expression followed by its postfix forms: member
/// access, calls, indexing, the non-null assertion and `as` assertions.
#[verifier::rlimit(100)]
pub fn parse_postfix(src: &Vec<char>, toks: &Vec<Token>, pos: usize) -> (r: Result<
    (Expr, usize),
    ParseError,
>)
    requires
        tokens_wf(src@.len(), toks@),
        pos < toks@.len(),
    ensures
        r matches Ok(o) ==> pos < o.1 < toks@.len() && expr_wf(o.0, src@.len())
            && spec_expr_span(o.0).start == toks@[pos as int].span.start && spec_expr_span(
            o.0,
        ).end == toks@[o.1 - 1].span.end && spec_parse_postfix(src@, toks@, pos as int) == Ok::<
            (ExprView, int),
            ParseError,
        >((view_expr(o.0), o.1 as int)),
        r matches Err(e) ==> span_ok(e.spec_span(), src@.len()) && spec_parse_postfix(
            src@,
            toks@,
            pos as int,
        ) == Err::<(ExprView, int), ParseError>(e),
    decreases toks@.len() - pos, 1int,
{
    let ghost n = src@.len();
    let (e0, i0) = parse_primary(src, toks, pos)?;
    let mut e = e0;
    let mut i = i0;
    loop
        invariant
            tokens_wf(src@.len(), toks@),
            n == src@.len(),
            pos < i < toks@.len(),
            expr_wf(e, n),
            spec_expr_span(e).start == toks@[pos as int].span.start,
            spec_expr_span(e).end == toks@[i - 1].span.end,
            spec_parse_postfix(src@, toks@, pos as int) == spec_postfix_steps(
                src@,
                toks@,
                i as int,
                view_expr(e),
            ),
        decreases toks@.len() - i,
    {
        proof {
            lemma_view_expr_span(e);
        }
        let t = toks[i];
        match t.kind {
            TokenKind::Punct(Punct::Dot) => {
                let i1 = bump(src, toks, i);
                let u = toks[i1];
                if let TokenKind::Ident = u.kind {
                    proof {
                        assert(toks@[i1 as int].wf(src@.len()));
                        lemma_toks_ordered(n, toks@, i - 1, i1 as int);
                        lemma_toks_ordered(n, toks@, pos as int, i1 as int);
                    }
                    let prop = text_of(src, u.span);
                    let i2 = bump(src, toks, i1);
                    let sp = Span { start: expr_span(&e).start, end: u.span.end };
                    e = Expr::Member { span: sp, obj: Box::new(e), prop };
                    i = i2;
                    proof {
                        lemma_view_expr_span(e);
                    }
                } else {
                    return Err(
                        ParseError::UnexpectedToken { expected: Expected::MemberName, found: u },
                    );
                }
            },
            TokenKind::Punct(Punct::LParen) => {
                let i1 = bump(src, toks, i);
                let (args, i2) = parse_args(src, toks, i1)?;
                proof {
                    assert(toks@[i2 - 1].wf(n));
                    lemma_toks_ordered(n, toks@, i - 1, i2 - 1);
                    lemma_toks_ordered(n, toks@, pos as int, i1 as int);
                    lemma_toks_ordered(n, toks@, pos as int, i2 - 1);
                }
                let sp = Span { start: expr_span(&e).start, end: toks[i2 - 1].span.end };
                e = Expr::Call { span: sp, callee: Box::new(e), args };
                i = i2;
            },
            TokenKind::Punct(Punct::LBracket) => {
                let i1 = bump(src, toks, i);
                let (ix, i2) = parse_expr(src, toks, i1, 1)?;
                let (rb, i3) = expect_punct(src, toks, i2, Punct::RBracket)?;
                proof {
                    assert(toks@[i2 as int].wf(n));
                    lemma_toks_ordered(n, toks@, i - 1, i2 as int);
                    lemma_toks_ordered(n, toks@, pos as int, i1 as int);
                    lemma_toks_ordered(n, toks@, i2 - 1, i2 as int);
                    lemma_toks_ordered(n, toks@, pos as int, i2 as int);
                }
                let sp = Span { start: expr_span(&e).start, end: rb.span.end };
                e = Expr::Index { span: sp, obj: Box::new(e), index: Box::new(ix) };
                i = i3;
            },
            TokenKind::Punct(Punct::Bang) => {
                let i1 = bump(src, toks, i);
                proof {
                    assert(toks@[i as int].wf(n));
                    lemma_toks_ordered(n, toks@, i - 1, i as int);
                    lemma_toks_ordered(n, toks@, pos as int, i as int);
                }
                let sp = Span { start: expr_span(&e).start, end: t.span.end };
                e = Expr::NonNull { span: sp, expr: Box::new(e) };
                i = i1;
            },
            TokenKind::Keyword(Kw::As) => {
                let i1 = bump(src, toks, i);
                let (ty, i2) = parse_type(src, toks, i1)?;
                proof {
                    lemma_toks_ordered(n, toks@, i - 1, i2 - 1);
                    lemma_toks_ordered(n, toks@, pos as int, i1 as int);
                    lemma_toks_ordered(n, toks@, pos as int, i2 - 1);
                }
                let sp = Span { start: expr_span(&e).start, end: type_span(&ty).end };
                e = Expr::TypeAssertion { span: sp, expr: Box::new(e), ty };
                i = i2;
            },
            _ => {
                return Ok((e, i));
            },
        }
    }
}

/// Parse a unary expression: prefix `!`, `-`, `+` over a postfix
/// expression.
pub fn parse_unary(src: &Vec<char>, toks: &Vec<Token>, pos: usize) -> (r: Result<
    (Expr, usize),
    ParseError,
>)
    requires
        tokens_wf(src@.len(), toks@),
        pos < toks@.len(),
    ensures
        r matches Ok(o) ==> pos < o.1 < toks@.len() && expr_wf(o.0, src@.len())
            && spec_expr_span(o.0).start == toks@[pos as int].span.start && spec_expr_span(
            o.0,
        ).end == toks@[o.1 - 1].span.end && spec_parse_unary(src@, toks@, pos as int) == Ok::<
            (ExprView, int),
            ParseError,
        >((view_expr(o.0), o.1 as int)),
        r matches Err(e) ==> span_ok(e.spec_span(), src@.len()) && spec_parse_unary(
            src@,
            toks@,
            pos as int,
        ) == Err::<(ExprView, int), ParseError>(e),
    decreases toks@.len() - pos, 2int,
{
    let ghost n = src@.len();
    let t = toks[pos];
    let op = match t.kind {
        TokenKind::Punct(Punct::Bang) => Some(UnOp::Not),
        TokenKind::Punct(Punct::Minus) => Some(UnOp::Neg),
        TokenKind::Punct(Punct::Plus) => Some(UnOp::Plus),
        _ => None,
    };
    match op {
        Some(op) => {
            let i1 = bump(src, toks, pos);
            let (arg, i2) = parse_unary(src, toks, i1)?;
            proof {
                assert(toks@[pos as int].wf(n));
                lemma_toks_ordered(n, toks@, pos as int, i1 as int);
                lemma_view_expr_span(arg);
            }
            let sp = Span { start: t.span.start, end: expr_span(&arg).end };
            Ok((Expr::Unary { span: sp, op, arg: Box::new(arg) }, i2))
        },
        None => parse_postfix(src, toks, pos),
    }
}

/// Parse the arguments of a call, from just after the `(` through the
/// closing `)`.
#[verifier::rlimit(100)]
pub fn parse_args(src: &Vec<char>, toks: &Vec<Token>, pos: usize) -> (r: Result<
    (Vec<Expr>, usize),
    ParseError,
>)
    requires
        tokens_wf(src@.len(), toks@),
        pos < toks@.len(),
    ensures
        r matches Ok(o) ==> pos < o.1 < toks@.len() && (forall|k: int|
            0 <= k < o.0@.len() ==> expr_wf(#[trigger] o.0@[k], src@.len()) && toks@[
                pos as int
            ].span.start <= spec_expr_span(o.0@[k]).start && spec_expr_span(o.0@[k]).end <= toks@[
                o.1 - 1
            ].span.end) && spec_parse_args(src@, toks@, pos as int) == Ok::<
            (Seq<ExprView>, int),
            ParseError,
        >((view_args(o.0, 0), o.1 as int)),
        r matches Err(e) ==> span_ok(e.spec_span(), src@.len()) && spec_parse_args(
            src@,
            toks@,
            pos as int,
        ) == Err::<(Seq<ExprView>, int), ParseError>(e),
    decreases toks@.len() - pos, 4int,
{
    let ghost n = src@.len();
    let mut args: Vec<Expr> = Vec::new();
    proof {
        assert(view_args(args, 0) =~= Seq::<ExprView>::empty());
    }
    if let TokenKind::Punct(Punct::RParen) = toks[pos].kind {
        let np = bump(src, toks, pos);
        return Ok((args, np));
    }
    let mut i = pos;
    loop
        invariant
            tokens_wf(src@.len(), toks@),
            n == src@.len(),
            pos <= i < toks@.len(),
            spec_parse_args(src@, toks@, pos as int) == spec_args_steps(
                src@,
                toks@,
                i as int,
                view_args(args, 0),
            ),
            forall|k: int|
                0 <= k < args@.len() ==> expr_wf(#[trigger] args@[k], n) && toks@[
                    pos as int
                ].span.start <= spec_expr_span(args@[k]).start && (i > pos && spec_expr_span(
                    args@[k],
                ).end <= toks@[i - 1].span.end),
        decreases toks@.len() - i,
    {
        let (e, i2) = parse_expr(src, toks, i, 1)?;
        proof {
            lemma_toks_ordered(n, toks@, pos as int, i as int);
        }
        let ghost args0 = args@;
        let ghost argsv0 = args;
        let ghost ev = e;
        args.push(e);
        proof {
            lemma_view_args_push(argsv0, args, ev, 0);
            assert forall|k: int| 0 <= k < args@.len() implies expr_wf(#[trigger] args@[k], n)
                && toks@[pos as int].span.start <= spec_expr_span(args@[k]).start
                && spec_expr_span(args@[k]).end <= toks@[i2 - 1].span.end by {
                if k < args0.len() {
                    assert(args@[k] == args0[k]);
                    lemma_toks_ordered(n, toks@, i - 1, i2 - 1);
                } else {
                    assert(args@[k] == e);
                }
            }
        }
        let t = toks[i2];
        match t.kind {
            TokenKind::Punct(Punct::Comma) => {
                i = bump(src, toks, i2);
                proof {
                    lemma_toks_ordered(n, toks@, i2 - 1, i2 as int);
                }
            },
            TokenKind::Punct(Punct::RParen) => {
                let np = bump(src, toks, i2);
                proof {
                    lemma_toks_ordered(n, toks@, i2 - 1, i2 as int);
                }
                return Ok((args, np));
            },
            _ => {
                return Err(
                    ParseError::UnexpectedToken {
                        expected: Expected::Tok(TokenKind::Punct(Punct::RParen)),
                        found: t,
                    },
                );
            },
        }
    }
}

/// Parse an expression by precedence climbing: operators bind no looser
/// than `min_prec`. `??` beside `&&` or `||` without grouping is the
/// mixing error.
#[verifier::rlimit(100)]
pub fn parse_expr(src: &Vec<char>, toks: &Vec<Token>, pos: usize, min_prec: u32) -> (r: Result<
    (Expr, usize),
    ParseError,
>)
    requires
        tokens_wf(src@.len(), toks@),
        pos < toks@.len(),
    ensures
        r matches Ok(o) ==> pos < o.1 < toks@.len() && expr_wf(o.0, src@.len())
            && spec_expr_span(o.0).start == toks@[pos as int].span.start && spec_expr_span(
            o.0,
        ).end == toks@[o.1 - 1].span.end && spec_parse_expr(
            src@,
            toks@,
            pos as int,
            min_prec as int,
        ) == Ok::<(ExprView, int), ParseError>((view_expr(o.0), o.1 as int)),
        r matches Err(e) ==> span_ok(e.spec_span(), src@.len()) && spec_parse_expr(
            src@,
            toks@,
            pos as int,
            min_prec as int,
        ) == Err::<(ExprView, int), ParseError>(e),
    decreases toks@.len() - pos, 3int,
{
    let ghost n = src@.len();
    let (e0, i0) = parse_unary(src, toks, pos)?;
    let mut lhs = e0;
    let mut i = i0;
    loop
        invariant
            tokens_wf(src@.len(), toks@),
            n == src@.len(),
            pos < i < toks@.len(),
            expr_wf(lhs, n),
            spec_expr_span(lhs).start == toks@[pos as int].span.start,
            spec_expr_span(lhs).end == toks@[i - 1].span.end,
            spec_parse_expr(src@, toks@, pos as int, min_prec as int) == spec_expr_steps(
                src@,
                toks@,
                i as int,
                min_prec as int,
                view_expr(lhs),
            ),
        decreases toks@.len() - i,
    {
        proof {
            lemma_view_expr_span(lhs);
        }
        let t = toks[i];
        if min_prec <= 2 && matches!(t.kind, TokenKind::Punct(Punct::Question)) {
            let i1 = bump(src, toks, i);
            let (th, i2) = parse_expr(src, toks, i1, 1)?;
            let (_colon, i3) = expect_punct(src, toks, i2, Punct::Colon)?;
            let (el, i4) = parse_expr(src, toks, i3, 2)?;
            proof {
                lemma_toks_ordered(n, toks@, i - 1, i4 - 1);
                lemma_toks_ordered(n, toks@, pos as int, i1 as int);
                lemma_toks_ordered(n, toks@, i2 - 1, i4 - 1);
                lemma_toks_ordered(n, toks@, pos as int, i3 as int);
                lemma_view_expr_span(el);
            }
            let sp = Span { start: expr_span(&lhs).start, end: expr_span(&el).end };
            lhs = Expr::Cond {
                span: sp,
                cond: Box::new(lhs),
                then_e: Box::new(th),
                else_e: Box::new(el),
            };
            i = i4;
        } else if min_prec <= 1 && matches!(t.kind, TokenKind::Punct(Punct::Assign)) {
            let target_ok = match &lhs {
                Expr::Ident { .. } => true,
                Expr::Member { .. } => true,
                Expr::Index { .. } => true,
                _ => false,
            };
            if !target_ok {
                return Err(ParseError::InvalidAssignmentTarget(expr_span(&lhs)));
            }
            let i1 = bump(src, toks, i);
            let (rhs, i2) = parse_expr(src, toks, i1, 1)?;
            proof {
                lemma_toks_ordered(n, toks@, i - 1, i2 - 1);
                lemma_toks_ordered(n, toks@, pos as int, i1 as int);
                lemma_view_expr_span(rhs);
            }
            let sp = Span { start: expr_span(&lhs).start, end: expr_span(&rhs).end };
            lhs = Expr::Assign { span: sp, target: Box::new(lhs), value: Box::new(rhs) };
            i = i2;
        } else {
            match binop_of(t) {
                None => {
                    return Ok((lhs, i));
                },
                Some((op, prec, right_assoc)) => {
                    if prec < min_prec {
                        return Ok((lhs, i));
                    }
                    let i1 = bump(src, toks, i);
                    let next_min = if right_assoc {
                        prec
                    } else {
                        prec + 1
                    };
                    let (rhs, i2) = parse_expr(src, toks, i1, next_min)?;
                    proof {
                        lemma_toks_ordered(n, toks@, i - 1, i2 - 1);
                        lemma_toks_ordered(n, toks@, pos as int, i1 as int);
                        lemma_view_expr_span(rhs);
                    }
                    if op == BinOp::Coalesce && (is_and_or(&lhs) || is_and_or(&rhs)) {
                        return Err(ParseError::MixedNullishLogical(t.span));
                    }
                    if (op == BinOp::AndAnd || op == BinOp::OrOr) && (is_coalesce(&lhs)
                        || is_coalesce(&rhs)) {
                        return Err(ParseError::MixedNullishLogical(t.span));
                    }
                    let sp = Span { start: expr_span(&lhs).start, end: expr_span(&rhs).end };
                    lhs = Expr::Binary { span: sp, op, lhs: Box::new(lhs), rhs: Box::new(rhs) };
                    i = i2;
                },
            }
        }
    }
}

/// The source range a statement covers.
pub open spec fn spec_stmt_span(s: Stmt) -> Span {
    match s {
        Stmt::VarDecl { span, .. } => span,
        Stmt::ExprStmt { span, .. } => span,
        Stmt::Return { span, .. } => span,
        Stmt::If { span, .. } => span,
        Stmt::While { span, .. } => span,
        Stmt::Block { span, .. } => span,
        Stmt::FnDecl { span, .. } => span,
        Stmt::Interface { span, .. } => span,
        Stmt::TypeAlias { span, .. } => span,
        Stmt::EnumDecl { span, .. } => span,
        Stmt::Empty { span } => span,
    }
}

pub fn stmt_span(s: &Stmt) -> (sp: Span)
    ensures
        sp == spec_stmt_span(*s),
{
    match s {
        Stmt::VarDecl { span, .. } => *span,
        Stmt::ExprStmt { span, .. } => *span,
        Stmt::Return { span, .. } => *span,
        Stmt::If { span, .. } => *span,
        Stmt::While { span, .. } => *span,
        Stmt::Block { span, .. } => *span,
        Stmt::FnDecl { span, .. } => *span,
        Stmt::Interface { span, .. } => *span,
        Stmt::TypeAlias { span, .. } => *span,
        Stmt::EnumDecl { span, .. } => *span,
        Stmt::Empty { span } => *span,
    }
}

/// Parse an enum declaration from its name on (the introducing
/// keywords are already consumed); `start` is where the declaration
/// began.
fn parse_enum_tail(src: &Vec<char>, toks: &Vec<Token>, pos: usize, start: usize) -> (r: Result<
    (Stmt, usize),
    ParseError,
>)
    requires
        tokens_wf(src@.len(), toks@),
        pos < toks@.len(),
        start <= toks@[pos as int].span.start,
    ensures
        r matches Ok(o) ==> pos < o.1 < toks@.len() && stmt_wf(o.0, src@.len())
            && spec_stmt_span(o.0).start == start && spec_stmt_span(o.0).end == toks@[
            o.1 - 1].span.end && spec_parse_enum_tail(src@, toks@, pos as int, start) == Ok::<
            (StmtView, int),
            ParseError,
        >((view_stmt(o.0), o.1 as int)),
        r matches Err(e) ==> span_ok(e.spec_span(), src@.len()) && spec_parse_enum_tail(
            src@,
            toks@,
            pos as int,
            start,
        ) == Err::<(StmtView, int), ParseError>(e),
{
    let ghost n = src@.len();
    let (name, _nsp, i1) = expect_ident(src, toks, pos)?;
    let (_lb, i2) = expect_punct(src, toks, i1, Punct::LBrace)?;
    let mut members: Vec<EnumMember> = Vec::new();
    proof {
        assert(view_members(members, 0) =~= Seq::<MemberView>::empty());
    }
    let mut i = i2;
    loop
        invariant
            tokens_wf(src@.len(), toks@),
            n == src@.len(),
            pos < i < toks@.len(),
            start <= toks@[pos as int].span.start,
            spec_parse_enum_tail(src@, toks@, pos as int, start) == spec_enum_steps(
                src@,
                toks@,
                i as int,
                view_members(members, 0),
                name@,
                start,
            ),
            forall|k: int|
                0 <= k < members@.len() ==> span_ok((#[trigger] members@[k]).span, n) && toks@[
                    pos as int].span.start <= members@[k].span.start && members@[k].span.end
                    <= toks@[i - 1].span.end,
        decreases toks@.len() - i,
    {
        let t = toks[i];
        if let TokenKind::Punct(Punct::RBrace) = t.kind {
            let np = bump(src, toks, i);
            proof {
                assert(toks@[i as int].wf(n));
                lemma_toks_ordered(n, toks@, pos as int, i as int);
                lemma_toks_ordered(n, toks@, i - 1, i as int);
            }
            return Ok(
                (
                    Stmt::EnumDecl { span: Span { start, end: t.span.end }, name, members },
                    np,
                ),
            );
        }
        let (mname, msp, j) = expect_ident(src, toks, i)?;
        proof {
            assert(toks@[i as int].wf(n));
            lemma_toks_ordered(n, toks@, pos as int, i as int);
        }
        let ghost members0 = members@;
        let ghost membersv0 = members;
        let m = EnumMember { span: msp, name: mname };
        let ghost mv = m;
        members.push(m);
        proof {
            lemma_view_members_push(membersv0, members, mv, 0);
            assert(forall|k: int| 0 <= k < members0.len() ==> members@[k] == members0[k]);
            assert(members@[members@.len() - 1].span == msp);
        }
        let u = toks[j];
        match u.kind {
            TokenKind::Punct(Punct::Comma) => {
                i = bump(src, toks, j);
                proof {
                    lemma_toks_ordered(n, toks@, j - 1, j as int);
                    lemma_toks_ordered(n, toks@, j - 2, j as int);
                }
            },
            TokenKind::Punct(Punct::RBrace) => {
                let np = bump(src, toks, j);
                proof {
                    assert(toks@[j as int].wf(n));
                    lemma_toks_ordered(n, toks@, j - 1, j as int);
                    lemma_toks_ordered(n, toks@, pos as int, j as int);
                    lemma_toks_ordered(n, toks@, i - 1, j as int);
                }
                return Ok(
                    (
                        Stmt::EnumDecl { span: Span { start, end: u.span.end }, name, members },
                        np,
                    ),
                );
            },
            _ => {
                return Err(
                    ParseError::UnexpectedToken {
                        expected: Expected::Tok(TokenKind::Punct(Punct::RBrace)),
                        found: u,
                    },
                );
            },
        }
    }
}

/// Parse a parameter list, from just after the `(` through the closing
/// `)`.
fn parse_params(src: &Vec<char>, toks: &Vec<Token>, pos: usize) -> (r: Result<
    (Vec<Param>, usize),
    ParseError,
>)
    requires
        tokens_wf(src@.len(), toks@),
        pos < toks@.len(),
    ensures
        r matches Ok(o) ==> pos < o.1 < toks@.len() && (forall|k: int|
            0 <= k < o.0@.len() ==> span_ok((#[trigger] o.0@[k]).span, src@.len()) && toks@[
                pos as int].span.start <= o.0@[k].span.start && o.0@[k].span.end <= toks@[
                o.1 - 1].span.end) && spec_parse_params(src@, toks@, pos as int) == Ok::<
            (Seq<ParamView>, int),
            ParseError,
        >((view_params(o.0, 0), o.1 as int)),
        r matches Err(e) ==> span_ok(e.spec_span(), src@.len()) && spec_parse_params(
            src@,
            toks@,
            pos as int,
        ) == Err::<(Seq<ParamView>, int), ParseError>(e),
{
    let ghost n = src@.len();
    let mut params: Vec<Param> = Vec::new();
    proof {
        assert(view_params(params, 0) =~= Seq::<ParamView>::empty());
    }
    if let TokenKind::Punct(Punct::RParen) = toks[pos].kind {
        let np = bump(src, toks, pos);
        return Ok((params, np));
    }
    let mut i = pos;
    loop
        invariant
            tokens_wf(src@.len(), toks@),
            n == src@.len(),
            pos <= i < toks@.len(),
            params@.len() > 0 ==> i > pos,
            spec_parse_params(src@, toks@, pos as int) == spec_params_steps(
                src@,
                toks@,
                i as int,
                view_params(params, 0),
            ),
            forall|k: int|
                0 <= k < params@.len() ==> span_ok((#[trigger] params@[k]).span, n) && toks@[
                    pos as int].span.start <= params@[k].span.start && params@[k].span.end
                    <= toks@[i - 1].span.end,
        decreases toks@.len() - i,
    {
        let ghost iold = i as int;
        let (pname, psp, j1) = expect_ident(src, toks, i)?;
        let mut pty: Option<TypeAnn> = None;
        let mut j = j1;
        let mut pend = psp.end;
        if let TokenKind::Punct(Punct::Colon) = toks[j].kind {
            let j2 = bump(src, toks, j);
            let (ta, j3) = parse_type(src, toks, j2)?;
            pend = type_span(&ta).end;
            proof {
                lemma_view_ty_span(ta);
            }
            pty = Some(ta);
            j = j3;
            proof {
                assert(toks@[iold].wf(n));
                lemma_toks_ordered(n, toks@, iold, j - 1);
            }
        }
        proof {
            assert(toks@[iold].wf(n));
            lemma_toks_ordered(n, toks@, pos as int, iold);
        }
        let ghost params0 = params@;
        let ghost paramsv0 = params;
        let pm = Param { span: Span { start: psp.start, end: pend }, name: pname, ty: pty };
        let ghost pmv = pm;
        params.push(pm);
        proof {
            lemma_view_params_push(paramsv0, params, pmv, 0);
            assert(forall|k: int| 0 <= k < params0.len() ==> params@[k] == params0[k]);
            assert forall|k: int| 0 <= k < params@.len() implies span_ok(
                (#[trigger] params@[k]).span,
                n,
            ) && toks@[pos as int].span.start <= params@[k].span.start && params@[k].span.end
                <= toks@[j - 1].span.end by {
                if k < params0.len() {
                    lemma_toks_ordered(n, toks@, iold - 1, j - 1);
                }
            }
        }
        let u = toks[j];
        match u.kind {
            TokenKind::Punct(Punct::Comma) => {
                i = bump(src, toks, j);
                proof {
                    lemma_toks_ordered(n, toks@, j - 1, j as int);
                }
            },
            TokenKind::Punct(Punct::RParen) => {
                let np = bump(src, toks, j);
                proof {
                    lemma_toks_ordered(n, toks@, j - 1, j as int);
                }
                return Ok((params, np));
            },
            _ => {
                return Err(
                    ParseError::UnexpectedToken {
                        expected: Expected::Tok(TokenKind::Punct(Punct::RParen)),
                        found: u,
                    },
                );
            },
        }
    }
}

/// Parse a `{ ... }` statement block, returning its statements and the
/// span of the braces.
pub fn parse_block(src: &Vec<char>, toks: &Vec<Token>, pos: usize) -> (r: Result<
    (Vec<Stmt>, Span, usize),
    ParseError,
>)
    requires
        tokens_wf(src@.len(), toks@),
        pos < toks@.len(),
    ensures
        r matches Ok(o) ==> pos < o.2 < toks@.len() && span_ok(o.1, src@.len()) && o.1.start
            == toks@[pos as int].span.start && o.1.end == toks@[o.2 - 1].span.end && (forall|
            k: int,
        |
            0 <= k < o.0@.len() ==> stmt_wf(#[trigger] o.0@[k], src@.len()) && spec_stmt_span(
                o.0@[k],
            ).within(o.1)) && spec_parse_block(src@, toks@, pos as int) == Ok::<
            (Seq<StmtView>, Span, int),
            ParseError,
        >((view_stmts(o.0, 0), o.1, o.2 as int)),
        r matches Err(e) ==> span_ok(e.spec_span(), src@.len()) && spec_parse_block(
            src@,
            toks@,
            pos as int,
        ) == Err::<(Seq<StmtView>, Span, int), ParseError>(e),
    decreases toks@.len() - pos, 0int,
{
    let ghost n = src@.len();
    let (lb, mut i) = expect_punct(src, toks, pos, Punct::LBrace)?;
    let mut stmts: Vec<Stmt> = Vec::new();
    proof {
        assert(view_stmts(stmts, 0) =~= Seq::<StmtView>::empty());
    }
    loop
        invariant
            tokens_wf(src@.len(), toks@),
            n == src@.len(),
            pos < i < toks@.len(),
            lb == toks@[pos as int],
            spec_parse_block(src@, toks@, pos as int) == spec_block_steps(
                src@,
                toks@,
                i as int,
                view_stmts(stmts, 0),
                lb.span.start,
            ),
            forall|k: int|
                0 <= k < stmts@.len() ==> stmt_wf(#[trigger] stmts@[k], n) && toks@[
                    pos as int].span.start <= spec_stmt_span(stmts@[k]).start && spec_stmt_span(
                    stmts@[k],
                ).end <= toks@[i - 1].span.end,
        decreases toks@.len() - i,
    {
        let t = toks[i];
        if let TokenKind::Punct(Punct::RBrace) = t.kind {
            let np = bump(src, toks, i);
            proof {
                assert(toks@[pos as int].wf(n));
                assert(toks@[i as int].wf(n));
                lemma_toks_ordered(n, toks@, pos as int, i as int);
                lemma_toks_ordered(n, toks@, i - 1, i as int);
            }
            return Ok((stmts, Span { start: lb.span.start, end: t.span.end }, np));
        }
        if let TokenKind::Eof = t.kind {
            return Err(
                ParseError::UnexpectedToken {
                    expected: Expected::Tok(TokenKind::Punct(Punct::RBrace)),
                    found: t,
                },
            );
        }
        let ghost iold = i as int;
        let (s, i2) = parse_stmt(src, toks, i)?;
        proof {
            lemma_toks_ordered(n, toks@, pos as int, iold);
        }
        let ghost stmts0 = stmts@;
        let ghost stmtsv0 = stmts;
        let ghost sv = s;
        stmts.push(s);
        proof {
            lemma_view_stmts_push(stmtsv0, stmts, sv, 0);
            assert(forall|k: int| 0 <= k < stmts0.len() ==> stmts@[k] == stmts0[k]);
            assert forall|k: int| 0 <= k < stmts@.len() implies stmt_wf(#[trigger] stmts@[k], n)
                && toks@[pos as int].span.start <= spec_stmt_span(stmts@[k]).start
                && spec_stmt_span(stmts@[k]).end <= toks@[i2 - 1].span.end by {
                if k < stmts0.len() {
                    lemma_toks_ordered(n, toks@, iold - 1, i2 - 1);
                }
            }
        }
        i = i2;
    }
}

#[verifier::rlimit(100)]
fn parse_fn_tail(src: &Vec<char>, toks: &Vec<Token>, pos: usize) -> (r: Result<
    (Stmt, usize),
    ParseError,
>)
    requires
        tokens_wf(src@.len(), toks@),
        pos < toks@.len(),
        toks@[pos as int].kind == TokenKind::Keyword(Kw::Function),
    ensures
        r matches Ok(o) ==> pos < o.1 < toks@.len() && stmt_wf(o.0, src@.len())
            && spec_stmt_span(o.0).start == toks@[pos as int].span.start && spec_stmt_span(
            o.0,
        ).end == toks@[o.1 - 1].span.end && spec_parse_stmt(src@, toks@, pos as int) == Ok::<
            (StmtView, int),
            ParseError,
        >((view_stmt(o.0), o.1 as int)),
        r matches Err(e) ==> span_ok(e.spec_span(), src@.len()) && spec_parse_stmt(
            src@,
            toks@,
            pos as int,
        ) == Err::<(StmtView, int), ParseError>(e),
    decreases toks@.len() - pos, 0int,
{
    let ghost n = src@.len();
    let t = toks[pos];
    proof {
        assert(toks@[pos as int].wf(n));
    }
    let i1 = bump(src, toks, pos);
    let (name, _nsp, i2) = expect_ident(src, toks, i1)?;
    let (_lp, i3) = expect_punct(src, toks, i2, Punct::LParen)?;
    let (params, i4) = parse_params(src, toks, i3)?;
    let mut ret: Option<TypeAnn> = None;
    let mut i = i4;
    if let TokenKind::Punct(Punct::Colon) = toks[i].kind {
        let i5 = bump(src, toks, i);
        let (ta, i6) = parse_type(src, toks, i5)?;
        proof {
            lemma_toks_ordered(n, toks@, pos as int, i5 as int);
        }
        ret = Some(ta);
        i = i6;
    }
    let ghost ib = i as int;
    let (body, bsp, i7) = parse_block(src, toks, i)?;
    proof {
        lemma_toks_ordered(n, toks@, pos as int, i3 as int);
        lemma_toks_ordered(n, toks@, pos as int, ib);
        lemma_toks_ordered(n, toks@, pos as int, i7 - 1);
        lemma_toks_ordered(n, toks@, i4 - 1, i7 - 1);
        lemma_toks_ordered(n, toks@, ib - 1, i7 - 1);
    }
    Ok(
        (
            Stmt::FnDecl {
                span: Span { start: t.span.start, end: bsp.end },
                name,
                params,
                ret,
                body,
            },
            i7,
        ),
    )
}

#[verifier::rlimit(100)]
fn parse_if_tail(src: &Vec<char>, toks: &Vec<Token>, pos: usize) -> (r: Result<
    (Stmt, usize),
    ParseError,
>)
    requires
        tokens_wf(src@.len(), toks@),
        pos < toks@.len(),
        toks@[pos as int].kind == TokenKind::Keyword(Kw::If),
    ensures
        r matches Ok(o) ==> pos < o.1 < toks@.len() && stmt_wf(o.0, src@.len())
            && spec_stmt_span(o.0).start == toks@[pos as int].span.start && spec_stmt_span(
            o.0,
        ).end == toks@[o.1 - 1].span.end && spec_parse_stmt(src@, toks@, pos as int) == Ok::<
            (StmtView, int),
            ParseError,
        >((view_stmt(o.0), o.1 as int)),
        r matches Err(e) ==> span_ok(e.spec_span(), src@.len()) && spec_parse_stmt(
            src@,
            toks@,
            pos as int,
        ) == Err::<(StmtView, int), ParseError>(e),
    decreases toks@.len() - pos, 0int,
{
    let ghost n = src@.len();
    let t = toks[pos];
    proof {
        assert(toks@[pos as int].wf(n));
    }
    let i1 = bump(src, toks, pos);
    let (_lp, i2) = expect_punct(src, toks, i1, Punct::LParen)?;
    let (cond, i3) = parse_expr(src, toks, i2, 1)?;
    let (_rp, i4) = expect_punct(src, toks, i3, Punct::RParen)?;
    let (then_s, i5) = parse_stmt(src, toks, i4)?;
    if let TokenKind::Keyword(Kw::Else) = toks[i5].kind {
        let i6 = bump(src, toks, i5);
        let (else_s, i7) = parse_stmt(src, toks, i6)?;
        proof {
            lemma_toks_ordered(n, toks@, pos as int, i2 as int);
            lemma_toks_ordered(n, toks@, pos as int, i4 as int);
            lemma_toks_ordered(n, toks@, pos as int, i6 as int);
            lemma_toks_ordered(n, toks@, i3 - 1, i7 - 1);
            lemma_toks_ordered(n, toks@, i5 - 1, i7 - 1);
            lemma_toks_ordered(n, toks@, pos as int, i7 - 1);
            lemma_view_stmt_span(else_s);
        }
        let sp = Span { start: t.span.start, end: stmt_span(&else_s).end };
        Ok(
            (
                Stmt::If {
                    span: sp,
                    cond,
                    then_s: Box::new(then_s),
                    else_s: Some(Box::new(else_s)),
                },
                i7,
            ),
        )
    } else {
        proof {
            lemma_toks_ordered(n, toks@, pos as int, i2 as int);
            lemma_toks_ordered(n, toks@, pos as int, i4 as int);
            lemma_toks_ordered(n, toks@, i3 - 1, i5 - 1);
            lemma_toks_ordered(n, toks@, pos as int, i5 - 1);
            lemma_view_stmt_span(then_s);
        }
        let sp = Span { start: t.span.start, end: stmt_span(&then_s).end };
        Ok((Stmt::If { span: sp, cond, then_s: Box::new(then_s), else_s: None }, i5))
    }
}

#[verifier::rlimit(100)]
fn parse_while_tail(src: &Vec<char>, toks: &Vec<Token>, pos: usize) -> (r: Result<
    (Stmt, usize),
    ParseError,
>)
    requires
        tokens_wf(src@.len(), toks@),
        pos < toks@.len(),
        toks@[pos as int].kind == TokenKind::Keyword(Kw::While),
    ensures
        r matches Ok(o) ==> pos < o.1 < toks@.len() && stmt_wf(o.0, src@.len())
            && spec_stmt_span(o.0).start == toks@[pos as int].span.start && spec_stmt_span(
            o.0,
        ).end == toks@[o.1 - 1].span.end && spec_parse_stmt(src@, toks@, pos as int) == Ok::<
            (StmtView, int),
            ParseError,
        >((view_stmt(o.0), o.1 as int)),
        r matches Err(e) ==> span_ok(e.spec_span(), src@.len()) && spec_parse_stmt(
            src@,
            toks@,
            pos as int,
        ) == Err::<(StmtView, int), ParseError>(e),
    decreases toks@.len() - pos, 0int,
{
    let ghost n = src@.len();
    let t = toks[pos];
    proof {
        assert(toks@[pos as int].wf(n));
    }
    let i1 = bump(src, toks, pos);
    let (_lp, i2) = expect_punct(src, toks, i1, Punct::LParen)?;
    let (cond, i3) = parse_expr(src, toks, i2, 1)?;
    let (_rp, i4) = expect_punct(src, toks, i3, Punct::RParen)?;
    let (body, i5) = parse_stmt(src, toks, i4)?;
    proof {
        lemma_toks_ordered(n, toks@, pos as int, i2 as int);
        lemma_toks_ordered(n, toks@, pos as int, i4 as int);
        lemma_toks_ordered(n, toks@, i3 - 1, i5 - 1);
        lemma_toks_ordered(n, toks@, pos as int, i5 - 1);
        lemma_view_stmt_span(body);
    }
    let sp = Span { start: t.span.start, end: stmt_span(&body).end };
    Ok((Stmt::While { span: sp, cond, body: Box::new(body) }, i5))
}

/// Parse one statement or declaration. The returned tree is well
/// formed: every node's span lies inside its parent's and inside the
/// source.
#[verifier::rlimit(100)]
pub fn parse_stmt(src: &Vec<char>, toks: &Vec<Token>, pos: usize) -> (r: Result<
    (Stmt, usize),
    ParseError,
>)
    requires
        tokens_wf(src@.len(), toks@),
        pos < toks@.len(),
    ensures
        r matches Ok(o) ==> pos < o.1 < toks@.len() && stmt_wf(o.0, src@.len())
            && spec_stmt_span(o.0).start == toks@[pos as int].span.start && spec_stmt_span(
            o.0,
        ).end == toks@[o.1 - 1].span.end && spec_parse_stmt(src@, toks@, pos as int) == Ok::<
            (StmtView, int),
            ParseError,
        >((view_stmt(o.0), o.1 as int)),
        r matches Err(e) ==> span_ok(e.spec_span(), src@.len()) && spec_parse_stmt(
            src@,
            toks@,
            pos as int,
        ) == Err::<(StmtView, int), ParseError>(e),
    decreases toks@.len() - pos, 1int,
{
    let ghost n = src@.len();
    let t = toks[pos];
    proof {
        assert(toks@[pos as int].wf(n));
    }
    match t.kind {
        TokenKind::Keyword(Kw::Let) => parse_var_tail(src, toks, pos, DeclKind::Let),
        TokenKind::Keyword(Kw::Var) => parse_var_tail(src, toks, pos, DeclKind::Var),
        TokenKind::Keyword(Kw::Const) => {
            let i1 = bump(src, toks, pos);
            if let TokenKind::Keyword(Kw::Enum) = toks[i1].kind {
                let i2 = bump(src, toks, i1);
                proof {
                    lemma_toks_ordered(n, toks@, pos as int, i2 as int);
                }
                parse_enum_tail(src, toks, i2, t.span.start)
            } else {
                parse_var_tail(src, toks, pos, DeclKind::Const)
            }
        },
        TokenKind::Keyword(Kw::Enum) => {
            let i1 = bump(src, toks, pos);
            proof {
                lemma_toks_ordered(n, toks@, pos as int, i1 as int);
            }
            parse_enum_tail(src, toks, i1, t.span.start)
        },
        TokenKind::Keyword(Kw::Function) => parse_fn_tail(src, toks, pos),
        TokenKind::Keyword(Kw::Return) => {
            let i1 = bump(src, toks, pos);
            if let TokenKind::Punct(Punct::Semi) = toks[i1].kind {
                let (semi, i2) = expect_punct(src, toks, i1, Punct::Semi)?;
                proof {
                    assert(toks@[i1 as int].wf(n));
                    lemma_toks_ordered(n, toks@, pos as int, i1 as int);
                }
                Ok(
                    (
                        Stmt::Return {
                            span: Span { start: t.span.start, end: semi.span.end },
                            arg: None,
                        },
                        i2,
                    ),
                )
            } else {
                let (e, i2) = parse_expr(src, toks, i1, 1)?;
                let (semi, i3) = expect_punct(src, toks, i2, Punct::Semi)?;
                proof {
                    assert(toks@[i2 as int].wf(n));
                    lemma_toks_ordered(n, toks@, pos as int, i1 as int);
                    lemma_toks_ordered(n, toks@, i2 - 1, i2 as int);
                    lemma_toks_ordered(n, toks@, pos as int, i2 as int);
                }
                Ok(
                    (
                        Stmt::Return {
                            span: Span { start: t.span.start, end: semi.span.end },
                            arg: Some(e),
                        },
                        i3,
                    ),
                )
            }
        },
        TokenKind::Keyword(Kw::If) => parse_if_tail(src, toks, pos),
        TokenKind::Keyword(Kw::While) => parse_while_tail(src, toks, pos),
        TokenKind::Keyword(Kw::Interface) => {
            let i1 = bump(src, toks, pos);
            let (name, _nsp, i2) = expect_ident(src, toks, i1)?;
            let (_lb, i3) = expect_punct(src, toks, i2, Punct::LBrace)?;
            let mut members: Vec<Param> = Vec::new();
            proof {
                assert(view_params(members, 0) =~= Seq::<ParamView>::empty());
            }
            let mut i = i3;
            loop
                invariant
                    tokens_wf(src@.len(), toks@),
                    n == src@.len(),
                    pos < i < toks@.len(),
                    t == toks@[pos as int],
                    t.kind == TokenKind::Keyword(Kw::Interface),
                    spec_parse_stmt(src@, toks@, pos as int) == spec_iface_steps(
                        src@,
                        toks@,
                        i as int,
                        view_params(members, 0),
                        name@,
                        t.span.start,
                    ),
                    forall|k: int|
                        0 <= k < members@.len() ==> span_ok((#[trigger] members@[k]).span, n)
                            && toks@[pos as int].span.start <= members@[k].span.start && members@[
                            k].span.end <= toks@[i - 1].span.end,
                decreases toks@.len() - i,
            {
                let u = toks[i];
                if let TokenKind::Punct(Punct::RBrace) = u.kind {
                    let np = bump(src, toks, i);
                    proof {
                        assert(toks@[i as int].wf(n));
                        lemma_toks_ordered(n, toks@, pos as int, i as int);
                        lemma_toks_ordered(n, toks@, i - 1, i as int);
                    }
                    return Ok(
                        (
                            Stmt::Interface {
                                span: Span { start: t.span.start, end: u.span.end },
                                name,
                                members,
                            },
                            np,
                        ),
                    );
                }
                let ghost im = i as int;
                let (mname, msp, j1) = expect_ident(src, toks, i)?;
                let mut j = j1;
                if let TokenKind::Punct(Punct::Question) = toks[j].kind {
                    j = bump(src, toks, j);
                }
                let (_colon, j2) = expect_punct(src, toks, j, Punct::Colon)?;
                let (mty, j3) = parse_type(src, toks, j2)?;
                proof {
                    assert(toks@[im].wf(n));
                    assert(toks@[j3 as int].wf(n));
                    lemma_toks_ordered(n, toks@, pos as int, im);
                    lemma_toks_ordered(n, toks@, im, j3 as int);
                    lemma_toks_ordered(n, toks@, im, j3 - 1);
                    lemma_toks_ordered(n, toks@, im - 1, j3 as int);
                    lemma_toks_ordered(n, toks@, im - 1, j3 - 1);
                    lemma_view_ty_span(mty);
                }
                let u2 = toks[j3];
                let (mend, inext) = match u2.kind {
                    TokenKind::Punct(Punct::Semi) => (u2.span.end, bump(src, toks, j3)),
                    TokenKind::Punct(Punct::Comma) => (u2.span.end, bump(src, toks, j3)),
                    TokenKind::Punct(Punct::RBrace) => (type_span(&mty).end, j3),
                    _ => {
                        return Err(
                            ParseError::UnexpectedToken {
                                expected: Expected::Tok(TokenKind::Punct(Punct::RBrace)),
                                found: u2,
                            },
                        );
                    },
                };
                let ghost members0 = members@;
                let ghost membersv0 = members;
                let pm = Param {
                    span: Span { start: msp.start, end: mend },
                    name: mname,
                    ty: Some(mty),
                };
                let ghost pmv = pm;
                members.push(pm);
                proof {
                    lemma_view_params_push(membersv0, members, pmv, 0);
                    assert(forall|k: int|
                        0 <= k < members0.len() ==> members@[k] == members0[k]);
                }
                i = inext;
            }
        },
        TokenKind::Keyword(Kw::Type) => {
            let i1 = bump(src, toks, pos);
            let (name, _nsp, i2) = expect_ident(src, toks, i1)?;
            let (_eq, i3) = expect_punct(src, toks, i2, Punct::Assign)?;
            let (ty, i4) = parse_type(src, toks, i3)?;
            let (semi, i5) = expect_punct(src, toks, i4, Punct::Semi)?;
            proof {
                assert(toks@[i4 as int].wf(n));
                lemma_toks_ordered(n, toks@, pos as int, i3 as int);
                lemma_toks_ordered(n, toks@, i4 - 1, i4 as int);
                lemma_toks_ordered(n, toks@, pos as int, i4 as int);
            }
            Ok(
                (
                    Stmt::TypeAlias {
                        span: Span { start: t.span.start, end: semi.span.end },
                        name,
                        ty,
                    },
                    i5,
                ),
            )
        },
        TokenKind::Punct(Punct::LBrace) => {
            let (stmts, sp, np) = parse_block(src, toks, pos)?;
            Ok((Stmt::Block { span: sp, stmts }, np))
        },
        TokenKind::Punct(Punct::Semi) => {
            let np = bump(src, toks, pos);
            Ok((Stmt::Empty { span: t.span }, np))
        },
        _ => {
            let (e, i1) = parse_expr(src, toks, pos, 1)?;
            if let TokenKind::Eof = toks[i1].kind {
                proof {
                    lemma_view_expr_span(e);
                }
                let sp = Span { start: t.span.start, end: expr_span(&e).end };
                return Ok((Stmt::ExprStmt { span: sp, expr: e }, i1));
            }
            let (semi, i2) = expect_punct(src, toks, i1, Punct::Semi)?;
            proof {
                assert(toks@[i1 as int].wf(n));
                lemma_toks_ordered(n, toks@, i1 - 1, i1 as int);
                lemma_toks_ordered(n, toks@, pos as int, i1 as int);
            }
            let sp = Span { start: t.span.start, end: semi.span.end };
            Ok((Stmt::ExprStmt { span: sp, expr: e }, i2))
        },
    }
}

/// Parse a variable declaration from its introducing keyword at `pos`.
fn parse_var_tail(src: &Vec<char>, toks: &Vec<Token>, pos: usize, kind: DeclKind) -> (r: Result<
    (Stmt, usize),
    ParseError,
>)
    requires
        tokens_wf(src@.len(), toks@),
        pos < toks@.len(),
        toks@[pos as int].kind matches TokenKind::Keyword(_),
    ensures
        r matches Ok(o) ==> pos < o.1 < toks@.len() && stmt_wf(o.0, src@.len())
            && spec_stmt_span(o.0).start == toks@[pos as int].span.start && spec_stmt_span(
            o.0,
        ).end == toks@[o.1 - 1].span.end && spec_var_tail(src@, toks@, pos as int, kind) == Ok::<
            (StmtView, int),
            ParseError,
        >((view_stmt(o.0), o.1 as int)),
        r matches Err(e) ==> span_ok(e.spec_span(), src@.len()) && spec_var_tail(
            src@,
            toks@,
            pos as int,
            kind,
        ) == Err::<(StmtView, int), ParseError>(e),
{
    let ghost n = src@.len();
    let t = toks[pos];
    proof {
        assert(toks@[pos as int].wf(n));
    }
    let i1 = bump(src, toks, pos);
    let (name, _nsp, i2) = expect_ident(src, toks, i1)?;
    let mut ty: Option<TypeAnn> = None;
    let mut i = i2;
    if let TokenKind::Punct(Punct::Colon) = toks[i].kind {
        let i3 = bump(src, toks, i);
        let (ta, i4) = parse_type(src, toks, i3)?;
        proof {
            lemma_toks_ordered(n, toks@, pos as int, i3 as int);
        }
        ty = Some(ta);
        i = i4;
    }
    let ghost ity = i as int;
    let mut init: Option<Expr> = None;
    if let TokenKind::Punct(Punct::Assign) = toks[i].kind {
        let i5 = bump(src, toks, i);
        let (e, i6) = parse_expr(src, toks, i5, 1)?;
        proof {
            lemma_toks_ordered(n, toks@, pos as int, i5 as int);
        }
        init = Some(e);
        i = i6;
    }
    let (semi, i7) = expect_punct(src, toks, i, Punct::Semi)?;
    proof {
        assert(toks@[i as int].wf(n));
        lemma_toks_ordered(n, toks@, pos as int, i as int);
        lemma_toks_ordered(n, toks@, ity - 1, i as int);
        lemma_toks_ordered(n, toks@, i - 1, i as int);
    }
    Ok(
        (
            Stmt::VarDecl {
                span: Span { start: t.span.start, end: semi.span.end },
                kind,
                name,
                ty,
                init,
            },
            i7,
        ),
    )
}

/// Parse a whole token stream into a program: top-level statements up
/// to the end of input. Any failure aborts the parse; no partial tree
/// is returned.
pub fn parse_program(src: &Vec<char>, toks: &Vec<Token>) -> (r: Result<Program, ParseError>)
    requires
        tokens_wf(src@.len(), toks@),
    ensures
        r matches Ok(p) ==> program_wf(p, src@.len()) && spec_parse_program(src@, toks@) == Ok::<
            ProgramView,
            ParseError,
        >(view_program(p)),
        r matches Err(e) ==> span_ok(e.spec_span(), src@.len()) && spec_parse_program(src@, toks@)
            == Err::<ProgramView, ParseError>(e),
{
    let ghost n = src@.len();
    let mut body: Vec<Stmt> = Vec::new();
    let mut i: usize = 0;
    proof {
        assert(toks@.len() >= 1);
        assert(view_stmts(body, 0) =~= Seq::<StmtView>::empty());
    }
    loop
        invariant
            tokens_wf(src@.len(), toks@),
            n == src@.len(),
            i < toks@.len(),
            spec_parse_program(src@, toks@) == spec_program_steps(
                src@,
                toks@,
                i as int,
                view_stmts(body, 0),
            ),
            forall|k: int| 0 <= k < body@.len() ==> stmt_wf(#[trigger] body@[k], n),
        decreases toks@.len() - i,
    {
        if let TokenKind::Eof = toks[i].kind {
            return Ok(Program { body });
        }
        match parse_stmt(src, toks, i) {
            Err(e) => {
                return Err(e);
            },
            Ok((s, i2)) => {
                let ghost body0 = body@;
                let ghost bodyv0 = body;
                let ghost sv = s;
                body.push(s);
                proof {
                    lemma_view_stmts_push(bodyv0, body, sv, 0);
                    assert(forall|k: int| 0 <= k < body0.len() ==> body@[k] == body0[k]);
                }
                i = i2;
            },
        }
    }
}


// ---------------------------------------------------------------------------
// The parser's specification: one spec function per grammar rule, over
// the token stream and the source characters, producing the tree's
// mathematical view. Every executable parse function returns exactly
// what its spec function says, in the Ok and in the Err case alike.
// ---------------------------------------------------------------------------

/// A placeholder error for positions the well-formed token stream can
/// never reach (the stream ends in an end-of-input token, so no rule
/// runs off its end).
pub open spec fn oob_err() -> ParseError {
    ParseError::UnexpectedToken {
        expected: Expected::Expression,
        found: Token { kind: TokenKind::Eof, span: Span { start: 0, end: 0 } },
    }
}

pub open spec fn spec_expect_punct(toks: Seq<Token>, pos: int, p: Punct) -> Result<
    (Token, int),
    ParseError,
> {
    if pos < 0 || pos >= toks.len() {
        Err(oob_err())
    } else {
        let t = toks[pos];
        match t.kind {
            TokenKind::Punct(q) => if q == p {
                Ok((t, pos + 1))
            } else {
                Err(
                    ParseError::UnexpectedToken {
                        expected: Expected::Tok(TokenKind::Punct(p)),
                        found: t,
                    },
                )
            },
            _ => Err(
                ParseError::UnexpectedToken {
                    expected: Expected::Tok(TokenKind::Punct(p)),
                    found: t,
                },
            ),
        }
    }
}

pub open spec fn spec_expect_ident(s: Seq<char>, toks: Seq<Token>, pos: int) -> Result<
    (Seq<char>, Span, int),
    ParseError,
> {
    if pos < 0 || pos >= toks.len() {
        Err(oob_err())
    } else {
        let t = toks[pos];
        match t.kind {
            TokenKind::Ident => Ok(
                (s.subrange(t.span.start as int, t.span.end as int), t.span, pos + 1),
            ),
            TokenKind::Keyword(_) => Err(ParseError::ReservedWordAsIdentifier(t.span)),
            _ => Err(
                ParseError::UnexpectedToken { expected: Expected::IdentName, found: t },
            ),
        }
    }
}

pub open spec fn tyv_span(t: TyView) -> Span {
    match t {
        TyView::Name { span, .. } => span,
        TyView::Array { span, .. } => span,
        TyView::Union { span, .. } => span,
    }
}

pub open spec fn exprv_span(e: ExprView) -> Span {
    match e {
        ExprView::Num { span, .. } => span,
        ExprView::StrLit { span, .. } => span,
        ExprView::Regex { span, .. } => span,
        ExprView::BoolLit { span, .. } => span,
        ExprView::NullLit { span } => span,
        ExprView::Ident { span, .. } => span,
        ExprView::Paren { span, .. } => span,
        ExprView::Unary { span, .. } => span,
        ExprView::Binary { span, .. } => span,
        ExprView::Assign { span, .. } => span,
        ExprView::Cond { span, .. } => span,
        ExprView::Call { span, .. } => span,
        ExprView::Member { span, .. } => span,
        ExprView::Index { span, .. } => span,
        ExprView::TypeAssertion { span, .. } => span,
        ExprView::NonNull { span, .. } => span,
    }
}

pub open spec fn stmtv_span(s: StmtView) -> Span {
    match s {
        StmtView::VarDecl { span, .. } => span,
        StmtView::ExprStmt { span, .. } => span,
        StmtView::Return { span, .. } => span,
        StmtView::If { span, .. } => span,
        StmtView::While { span, .. } => span,
        StmtView::Block { span, .. } => span,
        StmtView::FnDecl { span, .. } => span,
        StmtView::Interface { span, .. } => span,
        StmtView::TypeAlias { span, .. } => span,
        StmtView::EnumDecl { span, .. } => span,
        StmtView::Empty { span } => span,
    }
}

/// A view keeps its node's span.
pub proof fn lemma_view_ty_span(t: TypeAnn)
    ensures
        tyv_span(view_ty(t)) == spec_type_span(t),
{
    match t {
        TypeAnn::Name { .. } => {},
        TypeAnn::Array { .. } => {},
        TypeAnn::Union { .. } => {},
    }
}

pub proof fn lemma_view_expr_span(e: Expr)
    ensures
        exprv_span(view_expr(e)) == spec_expr_span(e),
{
    match e {
        Expr::Num { .. } => {},
        Expr::StrLit { .. } => {},
        Expr::Regex { .. } => {},
        Expr::BoolLit { .. } => {},
        Expr::NullLit { .. } => {},
        Expr::Ident { .. } => {},
        Expr::Paren { .. } => {},
        Expr::Unary { .. } => {},
        Expr::Binary { .. } => {},
        Expr::Assign { .. } => {},
        Expr::Cond { .. } => {},
        Expr::Call { .. } => {},
        Expr::Member { .. } => {},
        Expr::Index { .. } => {},
        Expr::TypeAssertion { .. } => {},
        Expr::NonNull { .. } => {},
    }
}

pub proof fn lemma_view_stmt_span(s: Stmt)
    ensures
        stmtv_span(view_stmt(s)) == spec_stmt_span(s),
{
    match s {
        Stmt::VarDecl { .. } => {},
        Stmt::ExprStmt { .. } => {},
        Stmt::Return { .. } => {},
        Stmt::If { .. } => {},
        Stmt::While { .. } => {},
        Stmt::Block { .. } => {},
        Stmt::FnDecl { .. } => {},
        Stmt::Interface { .. } => {},
        Stmt::TypeAlias { .. } => {},
        Stmt::EnumDecl { .. } => {},
        Stmt::Empty { .. } => {},
    }
}

/// Appending one element extends an accumulated view sequence by the
/// element's view.
pub proof fn lemma_view_args_push(v1: Vec<Expr>, v2: Vec<Expr>, x: Expr, k: int)
    requires
        v2@ == v1@.push(x),
        0 <= k <= v1@.len(),
    ensures
        view_args(v2, k) == view_args(v1, k) + seq![view_expr(x)],
    decreases v1@.len() - k,
{
    if k < v1@.len() {
        lemma_view_args_push(v1, v2, x, k + 1);
        assert(v2@[k] == v1@[k]);
        assert(view_args(v2, k) == seq![view_expr(v2@[k])] + view_args(v2, k + 1));
        assert(view_args(v1, k) == seq![view_expr(v1@[k])] + view_args(v1, k + 1));
        assert(view_args(v2, k) =~= view_args(v1, k) + seq![view_expr(x)]);
    } else {
        assert(v2@[k] == x);
        assert(view_args(v2, k) == seq![view_expr(v2@[k])] + view_args(v2, k + 1));
        assert(view_args(v2, k + 1) =~= Seq::<ExprView>::empty());
        assert(view_args(v1, k) =~= Seq::<ExprView>::empty());
        assert(view_args(v2, k) =~= view_args(v1, k) + seq![view_expr(x)]);
    }
}

pub proof fn lemma_view_stmts_push(v1: Vec<Stmt>, v2: Vec<Stmt>, x: Stmt, k: int)
    requires
        v2@ == v1@.push(x),
        0 <= k <= v1@.len(),
    ensures
        view_stmts(v2, k) == view_stmts(v1, k) + seq![view_stmt(x)],
    decreases v1@.len() - k,
{
    if k < v1@.len() {
        lemma_view_stmts_push(v1, v2, x, k + 1);
        assert(v2@[k] == v1@[k]);
        assert(view_stmts(v2, k) == seq![view_stmt(v2@[k])] + view_stmts(v2, k + 1));
        assert(view_stmts(v1, k) == seq![view_stmt(v1@[k])] + view_stmts(v1, k + 1));
        assert(view_stmts(v2, k) =~= view_stmts(v1, k) + seq![view_stmt(x)]);
    } else {
        assert(v2@[k] == x);
        assert(view_stmts(v2, k) == seq![view_stmt(v2@[k])] + view_stmts(v2, k + 1));
        assert(view_stmts(v2, k + 1) =~= Seq::<StmtView>::empty());
        assert(view_stmts(v1, k) =~= Seq::<StmtView>::empty());
        assert(view_stmts(v2, k) =~= view_stmts(v1, k) + seq![view_stmt(x)]);
    }
}

pub proof fn lemma_view_params_push(v1: Vec<Param>, v2: Vec<Param>, x: Param, k: int)
    requires
        v2@ == v1@.push(x),
        0 <= k <= v1@.len(),
    ensures
        view_params(v2, k) == view_params(v1, k) + seq![view_param(x)],
    decreases v1@.len() - k,
{
    if k < v1@.len() {
        lemma_view_params_push(v1, v2, x, k + 1);
        assert(v2@[k] == v1@[k]);
        assert(view_params(v2, k) == seq![view_param(v2@[k])] + view_params(v2, k + 1));
        assert(view_params(v1, k) == seq![view_param(v1@[k])] + view_params(v1, k + 1));
        assert(view_params(v2, k) =~= view_params(v1, k) + seq![view_param(x)]);
    } else {
        assert(v2@[k] == x);
        assert(view_params(v2, k) == seq![view_param(v2@[k])] + view_params(v2, k + 1));
        assert(view_params(v2, k + 1) =~= Seq::<ParamView>::empty());
        assert(view_params(v1, k) =~= Seq::<ParamView>::empty());
        assert(view_params(v2, k) =~= view_params(v1, k) + seq![view_param(x)]);
    }
}

pub proof fn lemma_view_members_push(v1: Vec<EnumMember>, v2: Vec<EnumMember>, x: EnumMember, k: int)
    requires
        v2@ == v1@.push(x),
        0 <= k <= v1@.len(),
    ensures
        view_members(v2, k) == view_members(v1, k) + seq![view_member(x)],
    decreases v1@.len() - k,
{
    if k < v1@.len() {
        lemma_view_members_push(v1, v2, x, k + 1);
        assert(v2@[k] == v1@[k]);
        assert(view_members(v2, k) == seq![view_member(v2@[k])] + view_members(v2, k + 1));
        assert(view_members(v1, k) == seq![view_member(v1@[k])] + view_members(v1, k + 1));
        assert(view_members(v2, k) =~= view_members(v1, k) + seq![view_member(x)]);
    } else {
        assert(v2@[k] == x);
        assert(view_members(v2, k) == seq![view_member(v2@[k])] + view_members(v2, k + 1));
        assert(view_members(v2, k + 1) =~= Seq::<MemberView>::empty());
        assert(view_members(v1, k) =~= Seq::<MemberView>::empty());
        assert(view_members(v2, k) =~= view_members(v1, k) + seq![view_member(x)]);
    }
}

pub open spec fn spec_binop_of(t: Token) -> Option<(BinOp, int, bool)> {
    match t.kind {
        TokenKind::Punct(Punct::OrOr) => Some((BinOp::OrOr, 4int, false)),
        TokenKind::Punct(Punct::Coalesce) => Some((BinOp::Coalesce, 4int, false)),
        TokenKind::Punct(Punct::AndAnd) => Some((BinOp::AndAnd, 5int, false)),
        TokenKind::Punct(Punct::EqEq) => Some((BinOp::EqEq, 6int, false)),
        TokenKind::Punct(Punct::NotEq) => Some((BinOp::NotEq, 6int, false)),
        TokenKind::Punct(Punct::EqEqEq) => Some((BinOp::StrictEq, 6int, false)),
        TokenKind::Punct(Punct::NotEqEq) => Some((BinOp::StrictNotEq, 6int, false)),
        TokenKind::Punct(Punct::Lt) => Some((BinOp::Lt, 7int, false)),
        TokenKind::Punct(Punct::LtEq) => Some((BinOp::LtEq, 7int, false)),
        TokenKind::Punct(Punct::Gt) => Some((BinOp::Gt, 7int, false)),
        TokenKind::Punct(Punct::GtEq) => Some((BinOp::GtEq, 7int, false)),
        TokenKind::Punct(Punct::Plus) => Some((BinOp::Add, 8int, false)),
        TokenKind::Punct(Punct::Minus) => Some((BinOp::Sub, 8int, false)),
        TokenKind::Punct(Punct::Star) => Some((BinOp::Mul, 9int, false)),
        TokenKind::Punct(Punct::Slash) => Some((BinOp::Div, 9int, false)),
        TokenKind::Punct(Punct::Percent) => Some((BinOp::Mod, 9int, false)),
        TokenKind::Punct(Punct::StarStar) => Some((BinOp::Pow, 10int, true)),
        _ => None,
    }
}

pub open spec fn spec_is_and_or(e: ExprView) -> bool {
    e matches ExprView::Binary { op, .. } && (op == BinOp::AndAnd || op == BinOp::OrOr)
}

pub open spec fn spec_is_coalesce(e: ExprView) -> bool {
    e matches ExprView::Binary { op, .. } && op == BinOp::Coalesce
}

/// The `[]` suffixes of a type, folded onto `ty`.
pub open spec fn spec_type_suffixes(toks: Seq<Token>, i: int, ty: TyView, start: usize) -> (
    TyView,
    int,
)
    decreases toks.len() - i,
{
    if 0 <= i && i < toks.len() && toks[i].kind == TokenKind::Punct(Punct::LBracket) && i + 1
        < toks.len() && toks[i + 1].kind == TokenKind::Punct(Punct::RBracket) {
        spec_type_suffixes(
            toks,
            i + 2,
            TyView::Array { span: Span { start, end: toks[i + 1].span.end }, elem: Box::new(ty) },
            start,
        )
    } else {
        (ty, i)
    }
}

pub open spec fn spec_parse_type(s: Seq<char>, toks: Seq<Token>, pos: int) -> Result<
    (TyView, int),
    ParseError,
>
    decreases toks.len() - pos, 0int,
{
    if pos < 0 || pos >= toks.len() {
        Err(oob_err())
    } else {
        let t = toks[pos];
        match t.kind {
            TokenKind::Ident => {
                let base = TyView::Name {
                    span: t.span,
                    name: s.subrange(t.span.start as int, t.span.end as int),
                };
                let (ty, i) = spec_type_suffixes(toks, pos + 1, base, t.span.start);
                if 0 <= i && i < toks.len() && toks[i].kind == TokenKind::Punct(Punct::Pipe)
                    && pos < i {
                    match spec_parse_type(s, toks, i + 1) {
                        Err(e) => Err(e),
                        Ok((rhs, j)) => Ok(
                            (
                                TyView::Union {
                                    span: Span { start: t.span.start, end: tyv_span(rhs).end },
                                    lhs: Box::new(ty),
                                    rhs: Box::new(rhs),
                                },
                                j,
                            ),
                        ),
                    }
                } else {
                    Ok((ty, i))
                }
            },
            _ => Err(ParseError::UnexpectedToken { expected: Expected::TypeName, found: t }),
        }
    }
}

pub open spec fn spec_parse_primary(s: Seq<char>, toks: Seq<Token>, pos: int) -> Result<
    (ExprView, int),
    ParseError,
>
    decreases toks.len() - pos, 0int,
{
    if pos < 0 || pos >= toks.len() {
        Err(oob_err())
    } else {
        let t = toks[pos];
        let text = s.subrange(t.span.start as int, t.span.end as int);
        match t.kind {
            TokenKind::Num => Ok((ExprView::Num { span: t.span, text }, pos + 1)),
            TokenKind::StrLit => Ok((ExprView::StrLit { span: t.span, text }, pos + 1)),
            TokenKind::Regex => Ok((ExprView::Regex { span: t.span, text }, pos + 1)),
            TokenKind::Ident => Ok((ExprView::Ident { span: t.span, name: text }, pos + 1)),
            TokenKind::Keyword(Kw::True) => Ok(
                (ExprView::BoolLit { span: t.span, value: true }, pos + 1),
            ),
            TokenKind::Keyword(Kw::False) => Ok(
                (ExprView::BoolLit { span: t.span, value: false }, pos + 1),
            ),
            TokenKind::Keyword(Kw::Null) => Ok((ExprView::NullLit { span: t.span }, pos + 1)),
            TokenKind::Punct(Punct::LParen) => match spec_parse_expr(s, toks, pos + 1, 1) {
                Err(e) => Err(e),
                Ok((inner, i2)) => match spec_expect_punct(toks, i2, Punct::RParen) {
                    Err(e) => Err(e),
                    Ok((rp, i3)) => Ok(
                        (
                            ExprView::Paren {
                                span: Span { start: t.span.start, end: rp.span.end },
                                inner: Box::new(inner),
                            },
                            i3,
                        ),
                    ),
                },
            },
            _ => Err(ParseError::UnexpectedToken { expected: Expected::Expression, found: t }),
        }
    }
}

/// The postfix forms after a primary expression.
pub open spec fn spec_postfix_steps(s: Seq<char>, toks: Seq<Token>, i: int, e: ExprView) -> Result<
    (ExprView, int),
    ParseError,
>
    decreases toks.len() - i, 1int,
{
    if i < 0 || i >= toks.len() {
        Err(oob_err())
    } else {
        let t = toks[i];
        match t.kind {
            TokenKind::Punct(Punct::Dot) => {
                if i + 1 >= toks.len() {
                    Err(oob_err())
                } else {
                    let u = toks[i + 1];
                    if u.kind == TokenKind::Ident {
                        let prop = s.subrange(u.span.start as int, u.span.end as int);
                        let e2 = ExprView::Member {
                            span: Span { start: exprv_span(e).start, end: u.span.end },
                            obj: Box::new(e),
                            prop,
                        };
                        spec_postfix_steps(s, toks, i + 2, e2)
                    } else {
                        Err(
                            ParseError::UnexpectedToken {
                                expected: Expected::MemberName,
                                found: u,
                            },
                        )
                    }
                }
            },
            TokenKind::Punct(Punct::LParen) => match spec_parse_args(s, toks, i + 1) {
                Err(e2) => Err(e2),
                Ok((argsv, i2)) => if i + 1 < i2 && i2 <= toks.len() {
                    let e2 = ExprView::Call {
                        span: Span { start: exprv_span(e).start, end: toks[i2 - 1].span.end },
                        callee: Box::new(e),
                        args: argsv,
                    };
                    spec_postfix_steps(s, toks, i2, e2)
                } else {
                    Err(oob_err())
                },
            },
            TokenKind::Punct(Punct::LBracket) => match spec_parse_expr(s, toks, i + 1, 1) {
                Err(e2) => Err(e2),
                Ok((ix, i2)) => match spec_expect_punct(toks, i2, Punct::RBracket) {
                    Err(e2) => Err(e2),
                    Ok((rb, i3)) => if i < i2 {
                        let e2 = ExprView::Index {
                            span: Span { start: exprv_span(e).start, end: rb.span.end },
                            obj: Box::new(e),
                            index: Box::new(ix),
                        };
                        spec_postfix_steps(s, toks, i3, e2)
                    } else {
                        Err(oob_err())
                    },
                },
            },
            TokenKind::Punct(Punct::Bang) => {
                let e2 = ExprView::NonNull {
                    span: Span { start: exprv_span(e).start, end: t.span.end },
                    expr: Box::new(e),
                };
                spec_postfix_steps(s, toks, i + 1, e2)
            },
            TokenKind::Keyword(Kw::As) => match spec_parse_type(s, toks, i + 1) {
                Err(e2) => Err(e2),
                Ok((ty, i2)) => if i < i2 && i2 <= toks.len() {
                    let e2 = ExprView::TypeAssertion {
                        span: Span { start: exprv_span(e).start, end: tyv_span(ty).end },
                        expr: Box::new(e),
                        ty,
                    };
                    spec_postfix_steps(s, toks, i2, e2)
                } else {
                    Err(oob_err())
                },
            },
            _ => Ok((e, i)),
        }
    }
}

pub open spec fn spec_parse_postfix(s: Seq<char>, toks: Seq<Token>, pos: int) -> Result<
    (ExprView, int),
    ParseError,
>
    decreases toks.len() - pos, 2int,
{
    match spec_parse_primary(s, toks, pos) {
        Err(e) => Err(e),
        Ok((e0, i0)) => if pos < i0 && i0 <= toks.len() {
            spec_postfix_steps(s, toks, i0, e0)
        } else {
            Err(oob_err())
        },
    }
}

pub open spec fn spec_parse_unary(s: Seq<char>, toks: Seq<Token>, pos: int) -> Result<
    (ExprView, int),
    ParseError,
>
    decreases toks.len() - pos, 3int,
{
    if pos < 0 || pos >= toks.len() {
        Err(oob_err())
    } else {
        let t = toks[pos];
        let op = match t.kind {
            TokenKind::Punct(Punct::Bang) => Some(UnOp::Not),
            TokenKind::Punct(Punct::Minus) => Some(UnOp::Neg),
            TokenKind::Punct(Punct::Plus) => Some(UnOp::Plus),
            _ => None,
        };
        match op {
            Some(op) => match spec_parse_unary(s, toks, pos + 1) {
                Err(e) => Err(e),
                Ok((arg, i2)) => Ok(
                    (
                        ExprView::Unary {
                            span: Span { start: t.span.start, end: exprv_span(arg).end },
                            op,
                            arg: Box::new(arg),
                        },
                        i2,
                    ),
                ),
            },
            None => spec_parse_postfix(s, toks, pos),
        }
    }
}

/// The precedence-climbing steps after a first operand.
pub open spec fn spec_expr_steps(
    s: Seq<char>,
    toks: Seq<Token>,
    i: int,
    min_prec: int,
    lhs: ExprView,
) -> Result<(ExprView, int), ParseError>
    decreases toks.len() - i, 0int,
{
    if i < 0 || i >= toks.len() {
        Err(oob_err())
    } else {
        let t = toks[i];
        if min_prec <= 2 && t.kind == TokenKind::Punct(Punct::Question) {
            match spec_parse_expr(s, toks, i + 1, 1) {
                Err(e) => Err(e),
                Ok((th, i2)) => match spec_expect_punct(toks, i2, Punct::Colon) {
                    Err(e) => Err(e),
                    Ok((_c, i3)) => if !(i < i3 && i3 <= toks.len()) {
                        Err(oob_err())
                    } else {
                        match spec_parse_expr(s, toks, i3, 2) {
                        Err(e) => Err(e),
                        Ok((el, i4)) => {
                            let lhs2 = ExprView::Cond {
                                span: Span {
                                    start: exprv_span(lhs).start,
                                    end: exprv_span(el).end,
                                },
                                cond: Box::new(lhs),
                                then_e: Box::new(th),
                                else_e: Box::new(el),
                            };
                            if i < i4 && i4 <= toks.len() {
                                spec_expr_steps(s, toks, i4, min_prec, lhs2)
                            } else {
                                Err(oob_err())
                            }
                        },
                    }},
                },
            }
        } else if min_prec <= 1 && t.kind == TokenKind::Punct(Punct::Assign) {
            let target_ok = lhs matches ExprView::Ident { .. } || lhs matches ExprView::Member {
                ..
            } || lhs matches ExprView::Index { .. };
            if !target_ok {
                Err(ParseError::InvalidAssignmentTarget(exprv_span(lhs)))
            } else {
                match spec_parse_expr(s, toks, i + 1, 1) {
                    Err(e) => Err(e),
                    Ok((rhs, i2)) => {
                        let lhs2 = ExprView::Assign {
                            span: Span { start: exprv_span(lhs).start, end: exprv_span(rhs).end },
                            target: Box::new(lhs),
                            value: Box::new(rhs),
                        };
                        if i < i2 && i2 <= toks.len() {
                            spec_expr_steps(s, toks, i2, min_prec, lhs2)
                        } else {
                            Err(oob_err())
                        }
                    },
                }
            }
        } else {
            match spec_binop_of(t) {
                None => Ok((lhs, i)),
                Some((op, prec, right_assoc)) => if prec < min_prec {
                    Ok((lhs, i))
                } else {
                    let next_min = if right_assoc {
                        prec
                    } else {
                        prec + 1
                    };
                    match spec_parse_expr(s, toks, i + 1, next_min) {
                        Err(e) => Err(e),
                        Ok((rhs, i2)) => if op == BinOp::Coalesce && (spec_is_and_or(lhs)
                            || spec_is_and_or(rhs)) {
                            Err(ParseError::MixedNullishLogical(t.span))
                        } else if (op == BinOp::AndAnd || op == BinOp::OrOr) && (spec_is_coalesce(
                            lhs,
                        ) || spec_is_coalesce(rhs)) {
                            Err(ParseError::MixedNullishLogical(t.span))
                        } else {
                            let lhs2 = ExprView::Binary {
                                span: Span {
                                    start: exprv_span(lhs).start,
                                    end: exprv_span(rhs).end,
                                },
                                op,
                                lhs: Box::new(lhs),
                                rhs: Box::new(rhs),
                            };
                            if i < i2 && i2 <= toks.len() {
                                spec_expr_steps(s, toks, i2, min_prec, lhs2)
                            } else {
                                Err(oob_err())
                            }
                        },
                    }
                },
            }
        }
    }
}

pub open spec fn spec_parse_expr(s: Seq<char>, toks: Seq<Token>, pos: int, min_prec: int) -> Result<
    (ExprView, int),
    ParseError,
>
    decreases toks.len() - pos, 4int,
{
    match spec_parse_unary(s, toks, pos) {
        Err(e) => Err(e),
        Ok((e0, i0)) => if pos < i0 && i0 <= toks.len() {
            spec_expr_steps(s, toks, i0, min_prec, e0)
        } else {
            Err(oob_err())
        },
    }
}

/// The comma-separated call arguments from `i` on, accumulated in `acc`.
pub open spec fn spec_args_steps(s: Seq<char>, toks: Seq<Token>, i: int, acc: Seq<ExprView>) -> Result<
    (Seq<ExprView>, int),
    ParseError,
>
    decreases toks.len() - i, 5int,
{
    if i < 0 || i >= toks.len() {
        Err(oob_err())
    } else {
        match spec_parse_expr(s, toks, i, 1) {
            Err(e) => Err(e),
            Ok((e, i2)) => {
                let acc2 = acc + seq![e];
                if i2 < 0 || i2 >= toks.len() {
                    Err(oob_err())
                } else {
                    let t = toks[i2];
                    match t.kind {
                        TokenKind::Punct(Punct::Comma) => if i <= i2 {
                            spec_args_steps(s, toks, i2 + 1, acc2)
                        } else {
                            Err(oob_err())
                        },
                        TokenKind::Punct(Punct::RParen) => Ok((acc2, i2 + 1)),
                        _ => Err(
                            ParseError::UnexpectedToken {
                                expected: Expected::Tok(TokenKind::Punct(Punct::RParen)),
                                found: t,
                            },
                        ),
                    }
                }
            },
        }
    }
}

pub open spec fn spec_parse_args(s: Seq<char>, toks: Seq<Token>, pos: int) -> Result<
    (Seq<ExprView>, int),
    ParseError,
>
    decreases toks.len() - pos, 6int,
{
    if pos < 0 || pos >= toks.len() {
        Err(oob_err())
    } else if toks[pos].kind == TokenKind::Punct(Punct::RParen) {
        Ok((Seq::empty(), pos + 1))
    } else {
        spec_args_steps(s, toks, pos, Seq::empty())
    }
}


/// The members of an enum body from `i` on, accumulated in `acc`.
pub open spec fn spec_enum_steps(
    s: Seq<char>,
    toks: Seq<Token>,
    i: int,
    acc: Seq<MemberView>,
    name: Seq<char>,
    start: usize,
) -> Result<(StmtView, int), ParseError>
    decreases toks.len() - i, 0int,
{
    if i < 0 || i >= toks.len() {
        Err(oob_err())
    } else {
        let t = toks[i];
        if t.kind == TokenKind::Punct(Punct::RBrace) {
            Ok(
                (
                    StmtView::EnumDecl {
                        span: Span { start, end: t.span.end },
                        name,
                        members: acc,
                    },
                    i + 1,
                ),
            )
        } else {
            match spec_expect_ident(s, toks, i) {
                Err(e) => Err(e),
                Ok((mname, msp, j)) => {
                    let acc2 = acc + seq![MemberView { span: msp, name: mname }];
                    if j < 0 || j >= toks.len() {
                        Err(oob_err())
                    } else {
                        let u = toks[j];
                        match u.kind {
                            TokenKind::Punct(Punct::Comma) => if i <= j {
                                spec_enum_steps(s, toks, j + 1, acc2, name, start)
                            } else {
                                Err(oob_err())
                            },
                            TokenKind::Punct(Punct::RBrace) => Ok(
                                (
                                    StmtView::EnumDecl {
                                        span: Span { start, end: u.span.end },
                                        name,
                                        members: acc2,
                                    },
                                    j + 1,
                                ),
                            ),
                            _ => Err(
                                ParseError::UnexpectedToken {
                                    expected: Expected::Tok(TokenKind::Punct(Punct::RBrace)),
                                    found: u,
                                },
                            ),
                        }
                    }
                },
            }
        }
    }
}

pub open spec fn spec_parse_enum_tail(s: Seq<char>, toks: Seq<Token>, pos: int, start: usize) -> Result<
    (StmtView, int),
    ParseError,
>
    decreases toks.len() - pos, 1int,
{
    match spec_expect_ident(s, toks, pos) {
        Err(e) => Err(e),
        Ok((name, _nsp, i1)) => match spec_expect_punct(toks, i1, Punct::LBrace) {
            Err(e) => Err(e),
            Ok((_lb, i2)) => if pos < i2 && i2 <= toks.len() {
                spec_enum_steps(s, toks, i2, Seq::empty(), name, start)
            } else {
                Err(oob_err())
            },
        },
    }
}

/// The parameters from `i` on, accumulated in `acc`.
pub open spec fn spec_params_steps(s: Seq<char>, toks: Seq<Token>, i: int, acc: Seq<ParamView>) -> Result<
    (Seq<ParamView>, int),
    ParseError,
>
    decreases toks.len() - i, 1int,
{
    match spec_expect_ident(s, toks, i) {
        Err(e) => Err(e),
        Ok((pname, psp, j1)) => {
            let with_ty: Result<(Option<TyView>, usize, int), ParseError> = if 0 <= j1 && j1
                < toks.len() && toks[j1].kind == TokenKind::Punct(Punct::Colon) && i < j1 {
                match spec_parse_type(s, toks, j1 + 1) {
                    Err(e) => Err(e),
                    Ok((ta, j3)) => Ok((Some(ta), tyv_span(ta).end, j3)),
                }
            } else {
                Ok((None, psp.end, j1))
            };
            match with_ty {
                Err(e) => Err(e),
                Ok((pty, pend, j)) => {
                    let acc2 = acc + seq![
                        ParamView { span: Span { start: psp.start, end: pend }, name: pname, ty: pty },
                    ];
                    if j < 0 || j >= toks.len() {
                        Err(oob_err())
                    } else {
                        let u = toks[j];
                        match u.kind {
                            TokenKind::Punct(Punct::Comma) => if i <= j {
                                spec_params_steps(s, toks, j + 1, acc2)
                            } else {
                                Err(oob_err())
                            },
                            TokenKind::Punct(Punct::RParen) => Ok((acc2, j + 1)),
                            _ => Err(
                                ParseError::UnexpectedToken {
                                    expected: Expected::Tok(TokenKind::Punct(Punct::RParen)),
                                    found: u,
                                },
                            ),
                        }
                    }
                },
            }
        },
    }
}

pub open spec fn spec_parse_params(s: Seq<char>, toks: Seq<Token>, pos: int) -> Result<
    (Seq<ParamView>, int),
    ParseError,
>
    decreases toks.len() - pos, 2int,
{
    if pos < 0 || pos >= toks.len() {
        Err(oob_err())
    } else if toks[pos].kind == TokenKind::Punct(Punct::RParen) {
        Ok((Seq::empty(), pos + 1))
    } else {
        spec_params_steps(s, toks, pos, Seq::empty())
    }
}

/// The statements of a block from `i` on, accumulated in `acc`.
pub open spec fn spec_block_steps(
    s: Seq<char>,
    toks: Seq<Token>,
    i: int,
    acc: Seq<StmtView>,
    lbstart: usize,
) -> Result<(Seq<StmtView>, Span, int), ParseError>
    decreases toks.len() - i, 9int,
{
    if i < 0 || i >= toks.len() {
        Err(oob_err())
    } else {
        let t = toks[i];
        if t.kind == TokenKind::Punct(Punct::RBrace) {
            Ok((acc, Span { start: lbstart, end: t.span.end }, i + 1))
        } else if t.kind == TokenKind::Eof {
            Err(
                ParseError::UnexpectedToken {
                    expected: Expected::Tok(TokenKind::Punct(Punct::RBrace)),
                    found: t,
                },
            )
        } else {
            match spec_parse_stmt(s, toks, i) {
                Err(e) => Err(e),
                Ok((sv, i2)) => if i < i2 && i2 <= toks.len() {
                    spec_block_steps(s, toks, i2, acc + seq![sv], lbstart)
                } else {
                    Err(oob_err())
                },
            }
        }
    }
}

pub open spec fn spec_parse_block(s: Seq<char>, toks: Seq<Token>, pos: int) -> Result<
    (Seq<StmtView>, Span, int),
    ParseError,
>
    decreases toks.len() - pos, 7int,
{
    match spec_expect_punct(toks, pos, Punct::LBrace) {
        Err(e) => Err(e),
        Ok((lb, i)) => if pos < i && i <= toks.len() {
            spec_block_steps(s, toks, i, Seq::empty(), lb.span.start)
        } else {
            Err(oob_err())
        },
    }
}

/// A variable declaration from its introducing keyword at `pos`.
pub open spec fn spec_var_tail(s: Seq<char>, toks: Seq<Token>, pos: int, kind: DeclKind) -> Result<
    (StmtView, int),
    ParseError,
>
    decreases toks.len() - pos, 7int,
{
    if pos < 0 || pos >= toks.len() {
        Err(oob_err())
    } else {
        let t = toks[pos];
        match spec_expect_ident(s, toks, pos + 1) {
            Err(e) => Err(e),
            Ok((name, _nsp, i2)) => {
                let with_ty: Result<(Option<TyView>, int), ParseError> = if 0 <= i2 && i2
                    < toks.len() && toks[i2].kind == TokenKind::Punct(Punct::Colon) && pos < i2 {
                    match spec_parse_type(s, toks, i2 + 1) {
                        Err(e) => Err(e),
                        Ok((ta, i4)) => Ok((Some(ta), i4)),
                    }
                } else {
                    Ok((None, i2))
                };
                match with_ty {
                    Err(e) => Err(e),
                    Ok((ty, i)) => {
                        let with_init: Result<(Option<ExprView>, int), ParseError> = if 0 <= i && i
                            < toks.len() && toks[i].kind == TokenKind::Punct(Punct::Assign) && pos
                            < i {
                            match spec_parse_expr(s, toks, i + 1, 1) {
                                Err(e) => Err(e),
                                Ok((e, i6)) => Ok((Some(e), i6)),
                            }
                        } else {
                            Ok((None, i))
                        };
                        match with_init {
                            Err(e) => Err(e),
                            Ok((init, i)) => match spec_expect_punct(toks, i, Punct::Semi) {
                                Err(e) => Err(e),
                                Ok((semi, i7)) => Ok(
                                    (
                                        StmtView::VarDecl {
                                            span: Span { start: t.span.start, end: semi.span.end },
                                            kind,
                                            name,
                                            ty,
                                            init,
                                        },
                                        i7,
                                    ),
                                ),
                            },
                        }
                    },
                }
            },
        }
    }
}

/// The members of an interface body from `i` on, accumulated in `acc`.
/// Members are `name?: type`, separated by `;` or `,`; the separator
/// after the last member may be absent.
pub open spec fn spec_iface_steps(
    s: Seq<char>,
    toks: Seq<Token>,
    i: int,
    acc: Seq<ParamView>,
    name: Seq<char>,
    start: usize,
) -> Result<(StmtView, int), ParseError>
    decreases toks.len() - i, 0int,
{
    if i < 0 || i >= toks.len() {
        Err(oob_err())
    } else {
        let u = toks[i];
        if u.kind == TokenKind::Punct(Punct::RBrace) {
            Ok(
                (
                    StmtView::Interface {
                        span: Span { start, end: u.span.end },
                        name,
                        members: acc,
                    },
                    i + 1,
                ),
            )
        } else {
            match spec_expect_ident(s, toks, i) {
                Err(e) => Err(e),
                Ok((mname, msp, j1)) => {
                    let j = if 0 <= j1 && j1 < toks.len() && toks[j1].kind == TokenKind::Punct(
                        Punct::Question,
                    ) {
                        j1 + 1
                    } else {
                        j1
                    };
                    match spec_expect_punct(toks, j, Punct::Colon) {
                        Err(e) => Err(e),
                        Ok((_c, j2)) => if !(i < j2 && j2 <= toks.len()) {
                            Err(oob_err())
                        } else {
                            match spec_parse_type(s, toks, j2) {
                                Err(e) => Err(e),
                                Ok((mty, j3)) => if j3 < 0 || j3 >= toks.len() {
                                    Err(oob_err())
                                } else {
                                    let u2 = toks[j3];
                                    if u2.kind == TokenKind::Punct(Punct::Semi) || u2.kind
                                        == TokenKind::Punct(Punct::Comma) {
                                        let acc2 = acc + seq![
                                            ParamView {
                                                span: Span { start: msp.start, end: u2.span.end },
                                                name: mname,
                                                ty: Some(mty),
                                            },
                                        ];
                                        if i < j3 {
                                            spec_iface_steps(s, toks, j3 + 1, acc2, name, start)
                                        } else {
                                            Err(oob_err())
                                        }
                                    } else if u2.kind == TokenKind::Punct(Punct::RBrace) {
                                        let acc2 = acc + seq![
                                            ParamView {
                                                span: Span {
                                                    start: msp.start,
                                                    end: tyv_span(mty).end,
                                                },
                                                name: mname,
                                                ty: Some(mty),
                                            },
                                        ];
                                        if i < j3 {
                                            spec_iface_steps(s, toks, j3, acc2, name, start)
                                        } else {
                                            Err(oob_err())
                                        }
                                    } else {
                                        Err(
                                            ParseError::UnexpectedToken {
                                                expected: Expected::Tok(
                                                    TokenKind::Punct(Punct::RBrace),
                                                ),
                                                found: u2,
                                            },
                                        )
                                    }
                                },
                            }
                        },
                    }
                },
            }
        }
    }
}

/// One statement or declaration at `pos`.
pub open spec fn spec_parse_stmt(s: Seq<char>, toks: Seq<Token>, pos: int) -> Result<
    (StmtView, int),
    ParseError,
>
    decreases toks.len() - pos, 8int,
{
    if pos < 0 || pos >= toks.len() {
        Err(oob_err())
    } else {
        let t = toks[pos];
        match t.kind {
            TokenKind::Keyword(Kw::Let) => spec_var_tail(s, toks, pos, DeclKind::Let),
            TokenKind::Keyword(Kw::Var) => spec_var_tail(s, toks, pos, DeclKind::Var),
            TokenKind::Keyword(Kw::Const) => {
                if pos + 1 < toks.len() && toks[pos + 1].kind == TokenKind::Keyword(Kw::Enum) {
                    spec_parse_enum_tail(s, toks, pos + 2, t.span.start)
                } else {
                    spec_var_tail(s, toks, pos, DeclKind::Const)
                }
            },
            TokenKind::Keyword(Kw::Enum) => spec_parse_enum_tail(s, toks, pos + 1, t.span.start),
            TokenKind::Keyword(Kw::Function) => match spec_expect_ident(s, toks, pos + 1) {
                Err(e) => Err(e),
                Ok((name, _nsp, i2)) => match spec_expect_punct(toks, i2, Punct::LParen) {
                    Err(e) => Err(e),
                    Ok((_lp, i3)) => if !(pos < i3 && i3 <= toks.len()) {
                        Err(oob_err())
                    } else {
                        match spec_parse_params(s, toks, i3) {
                            Err(e) => Err(e),
                            Ok((params, i4)) => {
                                let with_ret: Result<(Option<TyView>, int), ParseError> = if 0
                                    <= i4 && i4 < toks.len() && toks[i4].kind == TokenKind::Punct(
                                    Punct::Colon,
                                ) && pos < i4 {
                                    match spec_parse_type(s, toks, i4 + 1) {
                                        Err(e) => Err(e),
                                        Ok((ta, i6)) => Ok((Some(ta), i6)),
                                    }
                                } else {
                                    Ok((None, i4))
                                };
                                match with_ret {
                                    Err(e) => Err(e),
                                    Ok((ret, i)) => if !(pos < i && i <= toks.len()) {
                                        Err(oob_err())
                                    } else {
                                        match spec_parse_block(s, toks, i) {
                                            Err(e) => Err(e),
                                            Ok((body, bsp, i7)) => Ok(
                                                (
                                                    StmtView::FnDecl {
                                                        span: Span {
                                                            start: t.span.start,
                                                            end: bsp.end,
                                                        },
                                                        name,
                                                        params,
                                                        ret,
                                                        body,
                                                    },
                                                    i7,
                                                ),
                                            ),
                                        }
                                    },
                                }
                            },
                        }
                    },
                },
            },
            TokenKind::Keyword(Kw::Return) => {
                if pos + 1 < toks.len() && toks[pos + 1].kind == TokenKind::Punct(Punct::Semi) {
                    match spec_expect_punct(toks, pos + 1, Punct::Semi) {
                        Err(e) => Err(e),
                        Ok((semi, i2)) => Ok(
                            (
                                StmtView::Return {
                                    span: Span { start: t.span.start, end: semi.span.end },
                                    arg: None,
                                },
                                i2,
                            ),
                        ),
                    }
                } else {
                    match spec_parse_expr(s, toks, pos + 1, 1) {
                        Err(e) => Err(e),
                        Ok((e, i2)) => match spec_expect_punct(toks, i2, Punct::Semi) {
                            Err(er) => Err(er),
                            Ok((semi, i3)) => Ok(
                                (
                                    StmtView::Return {
                                        span: Span { start: t.span.start, end: semi.span.end },
                                        arg: Some(e),
                                    },
                                    i3,
                                ),
                            ),
                        },
                    }
                }
            },
            TokenKind::Keyword(Kw::If) => match spec_expect_punct(toks, pos + 1, Punct::LParen) {
                Err(e) => Err(e),
                Ok((_lp, i2)) => if !(pos < i2 && i2 <= toks.len()) {
                    Err(oob_err())
                } else {
                    match spec_parse_expr(s, toks, i2, 1) {
                        Err(e) => Err(e),
                        Ok((cond, i3)) => match spec_expect_punct(toks, i3, Punct::RParen) {
                            Err(e) => Err(e),
                            Ok((_rp, i4)) => if !(pos < i4 && i4 <= toks.len()) {
                                Err(oob_err())
                            } else {
                                match spec_parse_stmt(s, toks, i4) {
                                    Err(e) => Err(e),
                                    Ok((then_s, i5)) => if i5 < toks.len() && toks[i5].kind
                                        == TokenKind::Keyword(Kw::Else) && pos < i5 {
                                        match spec_parse_stmt(s, toks, i5 + 1) {
                                            Err(e) => Err(e),
                                            Ok((else_s, i7)) => Ok(
                                                (
                                                    StmtView::If {
                                                        span: Span {
                                                            start: t.span.start,
                                                            end: stmtv_span(else_s).end,
                                                        },
                                                        cond,
                                                        then_s: Box::new(then_s),
                                                        else_s: Some(Box::new(else_s)),
                                                    },
                                                    i7,
                                                ),
                                            ),
                                        }
                                    } else {
                                        Ok(
                                            (
                                                StmtView::If {
                                                    span: Span {
                                                        start: t.span.start,
                                                        end: stmtv_span(then_s).end,
                                                    },
                                                    cond,
                                                    then_s: Box::new(then_s),
                                                    else_s: None,
                                                },
                                                i5,
                                            ),
                                        )
                                    },
                                }
                            },
                        },
                    }
                },
            },
            TokenKind::Keyword(Kw::While) => match spec_expect_punct(toks, pos + 1, Punct::LParen) {
                Err(e) => Err(e),
                Ok((_lp, i2)) => if !(pos < i2 && i2 <= toks.len()) {
                    Err(oob_err())
                } else {
                    match spec_parse_expr(s, toks, i2, 1) {
                        Err(e) => Err(e),
                        Ok((cond, i3)) => match spec_expect_punct(toks, i3, Punct::RParen) {
                            Err(e) => Err(e),
                            Ok((_rp, i4)) => if !(pos < i4 && i4 <= toks.len()) {
                                Err(oob_err())
                            } else {
                                match spec_parse_stmt(s, toks, i4) {
                                    Err(e) => Err(e),
                                    Ok((body, i5)) => Ok(
                                        (
                                            StmtView::While {
                                                span: Span {
                                                    start: t.span.start,
                                                    end: stmtv_span(body).end,
                                                },
                                                cond,
                                                body: Box::new(body),
                                            },
                                            i5,
                                        ),
                                    ),
                                }
                            },
                        },
                    }
                },
            },
            TokenKind::Keyword(Kw::Interface) => match spec_expect_ident(s, toks, pos + 1) {
                Err(e) => Err(e),
                Ok((name, _nsp, i2)) => match spec_expect_punct(toks, i2, Punct::LBrace) {
                    Err(e) => Err(e),
                    Ok((_lb, i3)) => if !(pos < i3 && i3 <= toks.len()) {
                        Err(oob_err())
                    } else {
                        spec_iface_steps(s, toks, i3, Seq::empty(), name, t.span.start)
                    },
                },
            },
            TokenKind::Keyword(Kw::Type) => match spec_expect_ident(s, toks, pos + 1) {
                Err(e) => Err(e),
                Ok((name, _nsp, i2)) => match spec_expect_punct(toks, i2, Punct::Assign) {
                    Err(e) => Err(e),
                    Ok((_eq, i3)) => if !(pos < i3 && i3 <= toks.len()) {
                        Err(oob_err())
                    } else {
                        match spec_parse_type(s, toks, i3) {
                            Err(e) => Err(e),
                            Ok((ty, i4)) => match spec_expect_punct(toks, i4, Punct::Semi) {
                                Err(e) => Err(e),
                                Ok((semi, i5)) => Ok(
                                    (
                                        StmtView::TypeAlias {
                                            span: Span { start: t.span.start, end: semi.span.end },
                                            name,
                                            ty,
                                        },
                                        i5,
                                    ),
                                ),
                            },
                        }
                    },
                },
            },
            TokenKind::Punct(Punct::LBrace) => match spec_parse_block(s, toks, pos) {
                Err(e) => Err(e),
                Ok((stmts, sp, np)) => Ok((StmtView::Block { span: sp, stmts }, np)),
            },
            TokenKind::Punct(Punct::Semi) => Ok((StmtView::Empty { span: t.span }, pos + 1)),
            _ => match spec_parse_expr(s, toks, pos, 1) {
                Err(e) => Err(e),
                Ok((e, i1)) => if 0 <= i1 && i1 < toks.len() && toks[i1].kind == TokenKind::Eof {
                    Ok(
                        (
                            StmtView::ExprStmt {
                                span: Span { start: t.span.start, end: exprv_span(e).end },
                                expr: e,
                            },
                            i1,
                        ),
                    )
                } else {
                    match spec_expect_punct(toks, i1, Punct::Semi) {
                        Err(er) => Err(er),
                        Ok((semi, i2)) => Ok(
                            (
                                StmtView::ExprStmt {
                                    span: Span { start: t.span.start, end: semi.span.end },
                                    expr: e,
                                },
                                i2,
                            ),
                        ),
                    }
                },
            },
        }
    }
}

/// The top-level statements from `i` on, accumulated in `acc`.
pub open spec fn spec_program_steps(s: Seq<char>, toks: Seq<Token>, i: int, acc: Seq<StmtView>) -> Result<
    ProgramView,
    ParseError,
>
    decreases toks.len() - i, 9int,
{
    if i < 0 || i >= toks.len() {
        Err(oob_err())
    } else if toks[i].kind == TokenKind::Eof {
        Ok(ProgramView { body: acc })
    } else {
        match spec_parse_stmt(s, toks, i) {
            Err(e) => Err(e),
            Ok((sv, i2)) => if i < i2 && i2 <= toks.len() {
                spec_program_steps(s, toks, i2, acc + seq![sv])
            } else {
                Err(oob_err())
            },
        }
    }
}

/// The parse of a whole token stream, as a mathematical function: the
/// program's view, or the first grammar error.
pub open spec fn spec_parse_program(s: Seq<char>, toks: Seq<Token>) -> Result<
    ProgramView,
    ParseError,
> {
    spec_program_steps(s, toks, 0, Seq::empty())
}

} // verus!
