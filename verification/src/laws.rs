use vstd::prelude::*;
use crate::ast::{EnumMember, Expr, Param, Program, Stmt};
use crate::gen::{
    dec_rep, expr_prec, spec_digit_char, spec_gen_args, spec_gen_expr, spec_gen_members,
    spec_gen_params, spec_gen_program, spec_gen_raw, spec_gen_stmt, spec_gen_stmts,
};
use crate::lexer::is_digit;

verus! {

broadcast use vstd::std_specs::vec::group_vec_axioms;

// ---------------------------------------------------------------------------
// Type erasure: `b` is `a` with every TypeScript-only annotation
// removed — `as` assertions, non-null assertions, variable, parameter
// and return type annotations. Interfaces and type aliases carry only
// types, so any two are interchangeable here: nothing of them reaches
// the output at all (`lemma_inert_decls_silent`).
// ---------------------------------------------------------------------------

pub open spec fn erased_expr(a: Expr, b: Expr) -> bool
    decreases a,
{
    match a {
        Expr::TypeAssertion { expr, .. } => erased_expr(*expr, b),
        Expr::NonNull { expr, .. } => erased_expr(*expr, b),
        Expr::Num { span, text } => b matches Expr::Num { span: bs, text: bt } && bs == span
            && bt@ == text@,
        Expr::StrLit { span, text } => b matches Expr::StrLit { span: bs, text: bt } && bs == span
            && bt@ == text@,
        Expr::Regex { span, text } => b matches Expr::Regex { span: bs, text: bt } && bs == span
            && bt@ == text@,
        Expr::BoolLit { span, value } => b matches Expr::BoolLit { span: bs, value: bv } && bs
            == span && bv == value,
        Expr::NullLit { span } => b matches Expr::NullLit { span: bs } && bs == span,
        Expr::Ident { span, name } => b matches Expr::Ident { span: bs, name: bn } && bs == span
            && bn@ == name@,
        Expr::Paren { inner, .. } => b matches Expr::Paren { inner: bi, .. } && erased_expr(
            *inner,
            *bi,
        ),
        Expr::Unary { op, arg, .. } => b matches Expr::Unary { op: bo, arg: ba, .. } && bo == op
            && erased_expr(*arg, *ba),
        Expr::Binary { op, lhs, rhs, .. } => b matches Expr::Binary {
            op: bo,
            lhs: bl,
            rhs: br,
            ..
        } && bo == op && erased_expr(*lhs, *bl) && erased_expr(*rhs, *br),
        Expr::Assign { target, value, .. } => b matches Expr::Assign {
            target: bt,
            value: bv,
            ..
        } && erased_expr(*target, *bt) && erased_expr(*value, *bv),
        Expr::Cond { cond, then_e, else_e, .. } => b matches Expr::Cond {
            cond: bc,
            then_e: bt,
            else_e: be,
            ..
        } && erased_expr(*cond, *bc) && erased_expr(*then_e, *bt) && erased_expr(*else_e, *be),
        Expr::Call { callee, args, .. } => b matches Expr::Call { callee: bc, args: ba, .. }
            && erased_expr(*callee, *bc) && ba@.len() == args@.len() && (forall|k: int|
            0 <= k < args@.len() ==> erased_expr(#[trigger] args@[k], ba@[k])),
        Expr::Member { obj, prop, .. } => b matches Expr::Member { obj: bo, prop: bp, .. }
            && erased_expr(*obj, *bo) && bp@ == prop@,
        Expr::Index { obj, index, .. } => b matches Expr::Index { obj: bo, index: bi, .. }
            && erased_expr(*obj, *bo) && erased_expr(*index, *bi),
    }
}

pub open spec fn erased_params(a: Vec<Param>, b: Vec<Param>) -> bool {
    &&& a@.len() == b@.len()
    &&& forall|k: int|
        0 <= k < a@.len() ==> (#[trigger] b@[k]).name@ == a@[k].name@ && b@[k].ty is None
}

pub open spec fn erased_members(a: Vec<EnumMember>, b: Vec<EnumMember>) -> bool {
    &&& a@.len() == b@.len()
    &&& forall|k: int| 0 <= k < a@.len() ==> (#[trigger] b@[k]).name@ == a@[k].name@
}

pub open spec fn erased_stmt(a: Stmt, b: Stmt) -> bool
    decreases a,
{
    match a {
        Stmt::VarDecl { kind, name, init, .. } => b matches Stmt::VarDecl {
            kind: bk,
            name: bn,
            ty: bty,
            init: bi,
            ..
        } && bk == kind && bn@ == name@ && bty is None && (match (init, bi) {
            (Option::None, Option::None) => true,
            (Option::Some(e), Option::Some(be)) => erased_expr(e, be),
            _ => false,
        }),
        Stmt::ExprStmt { expr, .. } => b matches Stmt::ExprStmt { expr: be, .. } && erased_expr(
            expr,
            be,
        ),
        Stmt::Return { arg, .. } => b matches Stmt::Return { arg: ba, .. } && (match (arg, ba) {
            (Option::None, Option::None) => true,
            (Option::Some(e), Option::Some(be)) => erased_expr(e, be),
            _ => false,
        }),
        Stmt::If { cond, then_s, else_s, .. } => b matches Stmt::If {
            cond: bc,
            then_s: bt,
            else_s: be,
            ..
        } && erased_expr(cond, bc) && erased_stmt(*then_s, *bt) && (match (else_s, be) {
            (Option::None, Option::None) => true,
            (Option::Some(e), Option::Some(b2)) => erased_stmt(*e, *b2),
            _ => false,
        }),
        Stmt::While { cond, body, .. } => b matches Stmt::While { cond: bc, body: bb, .. }
            && erased_expr(cond, bc) && erased_stmt(*body, *bb),
        Stmt::Block { stmts, .. } => b matches Stmt::Block { stmts: bs, .. } && bs@.len()
            == stmts@.len() && (forall|k: int|
            0 <= k < stmts@.len() ==> erased_stmt(#[trigger] stmts@[k], bs@[k])),
        Stmt::FnDecl { name, params, body, .. } => b matches Stmt::FnDecl {
            name: bn,
            params: bp,
            ret: bret,
            body: bb,
            ..
        } && bn@ == name@ && erased_params(params, bp) && bret is None && bb@.len() == body@.len()
            && (forall|k: int| 0 <= k < body@.len() ==> erased_stmt(#[trigger] body@[k], bb@[k])),
        Stmt::Interface { .. } => b matches Stmt::Interface { .. },
        Stmt::TypeAlias { .. } => b matches Stmt::TypeAlias { .. },
        Stmt::EnumDecl { name, members, .. } => b matches Stmt::EnumDecl {
            name: bn,
            members: bm,
            ..
        } && bn@ == name@ && erased_members(members, bm),
        Stmt::Empty { .. } => b matches Stmt::Empty { .. },
    }
}

pub open spec fn erased_program(a: Program, b: Program) -> bool {
    &&& a.body@.len() == b.body@.len()
    &&& forall|k: int|
        0 <= k < a.body@.len() ==> erased_stmt(#[trigger] a.body@[k], b.body@[k])
}

// ---------------------------------------------------------------------------
// The theorem: generation cannot tell erased trees apart, so no type
// annotation ever reaches the output.
// ---------------------------------------------------------------------------

/// Erasure keeps the unparenthesized generated text.
proof fn lemma_erased_raw(a: Expr, b: Expr)
    requires
        erased_expr(a, b),
    ensures
        spec_gen_raw(b) == spec_gen_raw(a),
        expr_prec(b) == expr_prec(a),
    decreases a, 0int,
{
    match a {
        Expr::TypeAssertion { expr, .. } => {
            lemma_erased_raw(*expr, b);
        },
        Expr::NonNull { expr, .. } => {
            lemma_erased_raw(*expr, b);
        },
        Expr::Paren { inner, .. } => {
            if let Expr::Paren { inner: bi, .. } = b {
                lemma_erased_gen(*inner, *bi, 1);
            }
        },
        Expr::Unary { op, arg, .. } => {
            if let Expr::Unary { arg: ba, .. } = b {
                lemma_erased_gen(*arg, *ba, 12);
            }
        },
        Expr::Binary { op, lhs, rhs, .. } => {
            if let Expr::Binary { lhs: bl, rhs: br, .. } = b {
                let p = crate::gen::op_prec(op);
                let lctx = if op == crate::ast::BinOp::Pow {
                    p + 1
                } else if op == crate::ast::BinOp::Coalesce {
                    6
                } else {
                    p
                };
                let rctx = if op == crate::ast::BinOp::Pow {
                    p
                } else if op == crate::ast::BinOp::Coalesce {
                    6
                } else {
                    p + 1
                };
                lemma_erased_gen(*lhs, *bl, lctx);
                lemma_erased_gen(*rhs, *br, rctx);
            }
        },
        Expr::Assign { target, value, .. } => {
            if let Expr::Assign { target: bt, value: bv, .. } = b {
                lemma_erased_gen(*target, *bt, 12);
                lemma_erased_gen(*value, *bv, 1);
            }
        },
        Expr::Cond { cond, then_e, else_e, .. } => {
            if let Expr::Cond { cond: bc, then_e: bt, else_e: be, .. } = b {
                lemma_erased_gen(*cond, *bc, 3);
                lemma_erased_gen(*then_e, *bt, 1);
                lemma_erased_gen(*else_e, *be, 2);
            }
        },
        Expr::Call { callee, args, .. } => {
            if let Expr::Call { callee: bc, args: ba, .. } = b {
                lemma_erased_gen(*callee, *bc, 12);
                lemma_erased_args(args, ba, 0);
            }
        },
        Expr::Member { obj, .. } => {
            if let Expr::Member { obj: bo, .. } = b {
                lemma_erased_gen(*obj, *bo, 12);
            }
        },
        Expr::Index { obj, index, .. } => {
            if let Expr::Index { obj: bo, index: bi, .. } = b {
                lemma_erased_gen(*obj, *bo, 12);
                lemma_erased_gen(*index, *bi, 1);
            }
        },
        _ => {
        },
    }
}

/// Erasure keeps the generated text in every precedence context.
proof fn lemma_erased_gen(a: Expr, b: Expr, ctx: int)
    requires
        erased_expr(a, b),
    ensures
        spec_gen_expr(b, ctx) == spec_gen_expr(a, ctx),
    decreases a, 1int,
{
    lemma_erased_raw(a, b);
}

proof fn lemma_erased_args(a: Vec<Expr>, b: Vec<Expr>, k: int)
    requires
        a@.len() == b@.len(),
        forall|j: int| 0 <= j < a@.len() ==> erased_expr(#[trigger] a@[j], b@[j]),
    ensures
        spec_gen_args(b, k) == spec_gen_args(a, k),
    decreases a, a@.len() - k, 2int,
{
    if 0 <= k < a@.len() {
        lemma_erased_gen(a@[k], b@[k], 2);
        if k + 1 < a@.len() {
            lemma_erased_args(a, b, k + 1);
        }
    }
}

proof fn lemma_erased_params(a: Vec<Param>, b: Vec<Param>, k: int)
    requires
        erased_params(a, b),
    ensures
        spec_gen_params(b, k) == spec_gen_params(a, k),
    decreases a@.len() - k,
{
    if 0 <= k < a@.len() && k + 1 < a@.len() {
        lemma_erased_params(a, b, k + 1);
    }
}

proof fn lemma_erased_members(a: Vec<EnumMember>, b: Vec<EnumMember>, k: int)
    requires
        erased_members(a, b),
    ensures
        spec_gen_members(b, k) == spec_gen_members(a, k),
    decreases a@.len() - k,
{
    if 0 <= k < a@.len() && k + 1 < a@.len() {
        lemma_erased_members(a, b, k + 1);
    }
}

/// Erasing type annotations from one statement leaves its generated
/// text untouched.
pub proof fn lemma_erased_stmt(a: Stmt, b: Stmt)
    requires
        erased_stmt(a, b),
    ensures
        spec_gen_stmt(b) == spec_gen_stmt(a),
    decreases a, 1int,
{
    match a {
        Stmt::VarDecl { init, .. } => {
            if let Stmt::VarDecl { init: bi, .. } = b {
                match (init, bi) {
                    (Option::Some(e), Option::Some(be)) => lemma_erased_gen(e, be, 1),
                    _ => {},
                }
            }
        },
        Stmt::ExprStmt { expr, .. } => {
            if let Stmt::ExprStmt { expr: be, .. } = b {
                lemma_erased_gen(expr, be, 1);
            }
        },
        Stmt::Return { arg, .. } => {
            if let Stmt::Return { arg: ba, .. } = b {
                match (arg, ba) {
                    (Option::Some(e), Option::Some(be)) => lemma_erased_gen(e, be, 1),
                    _ => {},
                }
            }
        },
        Stmt::If { cond, then_s, else_s, .. } => {
            if let Stmt::If { cond: bc, then_s: bt, else_s: be, .. } = b {
                lemma_erased_gen(cond, bc, 1);
                lemma_erased_stmt(*then_s, *bt);
                match (else_s, be) {
                    (Option::Some(e), Option::Some(b2)) => lemma_erased_stmt(*e, *b2),
                    _ => {},
                }
            }
        },
        Stmt::While { cond, body, .. } => {
            if let Stmt::While { cond: bc, body: bb, .. } = b {
                lemma_erased_gen(cond, bc, 1);
                lemma_erased_stmt(*body, *bb);
            }
        },
        Stmt::Block { stmts, .. } => {
            if let Stmt::Block { stmts: bs, .. } = b {
                lemma_erased_stmts(stmts, bs, 0);
            }
        },
        Stmt::FnDecl { params, body, .. } => {
            if let Stmt::FnDecl { params: bp, body: bb, .. } = b {
                lemma_erased_params(params, bp, 0);
                lemma_erased_stmts(body, bb, 0);
            }
        },
        Stmt::EnumDecl { members, .. } => {
            if let Stmt::EnumDecl { members: bm, .. } = b {
                lemma_erased_members(members, bm, 0);
            }
        },
        _ => {
        },
    }
}

proof fn lemma_erased_stmts(a: Vec<Stmt>, b: Vec<Stmt>, k: int)
    requires
        a@.len() == b@.len(),
        forall|j: int| 0 <= j < a@.len() ==> erased_stmt(#[trigger] a@[j], b@[j]),
    ensures
        spec_gen_stmts(b, k) == spec_gen_stmts(a, k),
    decreases a, a@.len() - k, 2int,
{
    if 0 <= k < a@.len() {
        lemma_erased_stmt(a@[k], b@[k]);
        lemma_erased_stmts(a, b, k + 1);
    }
}

/// Type erasure changes nothing in the output: two programs that differ
/// only in TypeScript-only annotations generate character-for-character
/// the same JavaScript. In particular no type annotation, `as`
/// assertion or non-null assertion ever reaches the output.
pub proof fn lemma_type_erasure(a: Program, b: Program)
    requires
        erased_program(a, b),
    ensures
        spec_gen_program(b) == spec_gen_program(a),
{
    lemma_erased_stmts(a.body, b.body, 0);
}

/// Interfaces and type aliases are semantically inert: they contribute
/// no characters at all to the output.
pub proof fn lemma_inert_decls_silent(s: Stmt)
    requires
        s matches Stmt::Interface { .. } || s matches Stmt::TypeAlias { .. },
    ensures
        spec_gen_stmt(s) == Seq::<char>::empty(),
{
}


// ---------------------------------------------------------------------------
// Enum lowering: `spec_gen_stmt` prints member `k` as `name: <numeral>`
// where the numeral is `dec_rep(k)`. The theorem below says that this
// numeral denotes exactly `k` under the usual reading of decimal
// digits, so the lowered object binds each member to its position.
// ---------------------------------------------------------------------------

/// The numeric value a decimal digit character denotes.
pub open spec fn digit_val(c: char) -> nat {
    if c == '0' {
        0
    } else if c == '1' {
        1
    } else if c == '2' {
        2
    } else if c == '3' {
        3
    } else if c == '4' {
        4
    } else if c == '5' {
        5
    } else if c == '6' {
        6
    } else if c == '7' {
        7
    } else if c == '8' {
        8
    } else {
        9
    }
}

/// The number a digit string denotes, read left to right.
pub open spec fn dec_val(s: Seq<char>) -> nat
    decreases s.len(),
{
    if s.len() == 0 {
        0
    } else {
        dec_val(s.drop_last()) * 10 + digit_val(s.last())
    }
}

/// The numeral the generator prints for `n` denotes `n`, consists of
/// decimal digits only, and has no leading zero unless it is `0`
/// itself. In particular an enum member at position `k` is lowered to
/// a property initialized with the numeral denoting `k`.
pub proof fn lemma_dec_rep_denotes(n: nat)
    ensures
        dec_val(dec_rep(n)) == n,
        dec_rep(n).len() >= 1,
        forall|k: int| 0 <= k < dec_rep(n).len() ==> is_digit(#[trigger] dec_rep(n)[k]),
        n >= 1 ==> dec_rep(n)[0] != '0',
    decreases n,
{
    if n < 10 {
        let s = dec_rep(n);
        assert(s == seq![spec_digit_char(n as int)]);
        assert(s.drop_last() =~= Seq::<char>::empty());
        assert(dec_val(Seq::<char>::empty()) == 0);
        assert(s.last() == spec_digit_char(n as int));
        assert(dec_val(s) == dec_val(s.drop_last()) * 10 + digit_val(s.last()));
        assert(dec_val(s.drop_last()) == 0);
    } else {
        lemma_dec_rep_denotes(n / 10);
        let head = dec_rep(n / 10);
        let s = head + seq![spec_digit_char((n % 10) as int)];
        assert(dec_rep(n) == s);
        assert(s.drop_last() =~= head);
        assert(s.last() == spec_digit_char((n % 10) as int));
        assert(dec_val(s) == dec_val(head) * 10 + digit_val(spec_digit_char((n % 10) as int)));
        assert(digit_val(spec_digit_char((n % 10) as int)) == n % 10);
        assert(dec_val(s) == (n / 10) * 10 + n % 10);
        assert(forall|k: int| 0 <= k < s.len() - 1 ==> s[k] == head[k]);
        assert(s[0] == head[0]);
    }
}

} // verus!
