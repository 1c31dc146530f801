use vstd::prelude::*;
use crate::ast::{BinOp, DeclKind, EnumMember, Expr, Param, Program, Stmt, UnOp};

verus! {

broadcast use vstd::std_specs::vec::group_vec_axioms;

// ---------------------------------------------------------------------------
// Operator spellings and binding powers
// ---------------------------------------------------------------------------

pub open spec fn op_prec(op: BinOp) -> int {
    match op {
        BinOp::OrOr => 4,
        BinOp::Coalesce => 4,
        BinOp::AndAnd => 5,
        BinOp::EqEq => 6,
        BinOp::NotEq => 6,
        BinOp::StrictEq => 6,
        BinOp::StrictNotEq => 6,
        BinOp::Lt => 7,
        BinOp::LtEq => 7,
        BinOp::Gt => 7,
        BinOp::GtEq => 7,
        BinOp::Add => 8,
        BinOp::Sub => 8,
        BinOp::Mul => 9,
        BinOp::Div => 9,
        BinOp::Mod => 9,
        BinOp::Pow => 10,
    }
}

pub open spec fn op_str(op: BinOp) -> Seq<char> {
    match op {
        BinOp::OrOr => "||"@,
        BinOp::Coalesce => "??"@,
        BinOp::AndAnd => "&&"@,
        BinOp::EqEq => "=="@,
        BinOp::NotEq => "!="@,
        BinOp::StrictEq => "==="@,
        BinOp::StrictNotEq => "!=="@,
        BinOp::Lt => "<"@,
        BinOp::LtEq => "<="@,
        BinOp::Gt => ">"@,
        BinOp::GtEq => ">="@,
        BinOp::Add => "+"@,
        BinOp::Sub => "-"@,
        BinOp::Mul => "*"@,
        BinOp::Div => "/"@,
        BinOp::Mod => "%"@,
        BinOp::Pow => "**"@,
    }
}

pub open spec fn un_str(op: UnOp) -> Seq<char> {
    match op {
        UnOp::Not => "!"@,
        UnOp::Neg => "-"@,
        UnOp::Plus => "+"@,
    }
}

pub open spec fn decl_str(k: DeclKind) -> Seq<char> {
    match k {
        DeclKind::Let => "let "@,
        DeclKind::Const => "const "@,
        DeclKind::Var => "var "@,
    }
}

/// How tightly an expression binds, for deciding where parentheses must
/// be re-inserted. `as` and non-null assertions are transparent: they
/// vanish at generation, so they bind like what they wrap.
pub open spec fn expr_prec(e: Expr) -> int
    decreases e,
{
    match e {
        Expr::Num { .. } => 13,
        Expr::StrLit { .. } => 13,
        Expr::Regex { .. } => 13,
        Expr::BoolLit { .. } => 13,
        Expr::NullLit { .. } => 13,
        Expr::Ident { .. } => 13,
        Expr::Paren { .. } => 13,
        Expr::Call { .. } => 12,
        Expr::Member { .. } => 12,
        Expr::Index { .. } => 12,
        Expr::Unary { .. } => 11,
        Expr::Binary { op, .. } => op_prec(op),
        Expr::Cond { .. } => 2,
        Expr::Assign { .. } => 1,
        Expr::TypeAssertion { expr, .. } => expr_prec(*expr),
        Expr::NonNull { expr, .. } => expr_prec(*expr),
    }
}

// ---------------------------------------------------------------------------
// The generated text, as a specification
// ---------------------------------------------------------------------------

/// The text of `e` with no outer parentheses.
pub open spec fn spec_gen_raw(e: Expr) -> Seq<char>
    decreases e, 0int,
{
    match e {
        Expr::Num { text, .. } => text@,
        Expr::StrLit { text, .. } => text@,
        Expr::Regex { text, .. } => text@,
        Expr::BoolLit { value, .. } => if value {
            "true"@
        } else {
            "false"@
        },
        Expr::NullLit { .. } => "null"@,
        Expr::Ident { name, .. } => name@,
        Expr::Paren { inner, .. } => "("@ + spec_gen_expr(*inner, 1) + ")"@,
        Expr::Unary { op, arg, .. } => un_str(op) + spec_gen_expr(*arg, 12),
        Expr::Binary { op, lhs, rhs, .. } => {
            let p = op_prec(op);
            let lctx = if op == BinOp::Pow {
                p + 1
            } else if op == BinOp::Coalesce {
                6
            } else {
                p
            };
            let rctx = if op == BinOp::Pow {
                p
            } else if op == BinOp::Coalesce {
                6
            } else {
                p + 1
            };
            spec_gen_expr(*lhs, lctx) + " "@ + op_str(op) + " "@ + spec_gen_expr(*rhs, rctx)
        },
        Expr::Assign { target, value, .. } => spec_gen_expr(*target, 12) + " = "@ + spec_gen_expr(
            *value,
            1,
        ),
        Expr::Cond { cond, then_e, else_e, .. } => spec_gen_expr(*cond, 3) + " ? "@
            + spec_gen_expr(*then_e, 1) + " : "@ + spec_gen_expr(*else_e, 2),
        Expr::Call { callee, args, .. } => spec_gen_expr(*callee, 12) + "("@ + spec_gen_args(
            args,
            0,
        ) + ")"@,
        Expr::Member { obj, prop, .. } => spec_gen_expr(*obj, 12) + "."@ + prop@,
        Expr::Index { obj, index, .. } => spec_gen_expr(*obj, 12) + "["@ + spec_gen_expr(*index, 1)
            + "]"@,
        Expr::TypeAssertion { expr, .. } => spec_gen_raw(*expr),
        Expr::NonNull { expr, .. } => spec_gen_raw(*expr),
    }
}

/// The text of `e` in a context that admits operators binding at least
/// as tightly as `ctx`: parentheses are re-inserted exactly where the
/// expression binds looser than its context.
pub open spec fn spec_gen_expr(e: Expr, ctx: int) -> Seq<char>
    decreases e, 1int,
{
    if expr_prec(e) < ctx {
        "("@ + spec_gen_raw(e) + ")"@
    } else {
        spec_gen_raw(e)
    }
}

/// The call arguments from index `k` on, comma separated.
pub open spec fn spec_gen_args(args: Vec<Expr>, k: int) -> Seq<char>
    decreases args, args@.len() - k, 2int,
{
    if k < 0 || k >= args@.len() {
        Seq::<char>::empty()
    } else {
        let head = spec_gen_expr(args@[k], 2);
        if k + 1 < args@.len() {
            head + ", "@ + spec_gen_args(args, k + 1)
        } else {
            head
        }
    }
}

/// The parameter names from index `k` on, comma separated; the type
/// annotations are dropped here.
pub open spec fn spec_gen_params(params: Vec<Param>, k: int) -> Seq<char>
    decreases params@.len() - k,
{
    if k < 0 || k >= params@.len() {
        Seq::<char>::empty()
    } else {
        let head = params@[k].name@;
        if k + 1 < params@.len() {
            head + ", "@ + spec_gen_params(params, k + 1)
        } else {
            head
        }
    }
}

pub open spec fn spec_digit_char(d: int) -> char {
    if d == 0 {
        '0'
    } else if d == 1 {
        '1'
    } else if d == 2 {
        '2'
    } else if d == 3 {
        '3'
    } else if d == 4 {
        '4'
    } else if d == 5 {
        '5'
    } else if d == 6 {
        '6'
    } else if d == 7 {
        '7'
    } else if d == 8 {
        '8'
    } else {
        '9'
    }
}

/// The usual decimal spelling of `n`.
pub open spec fn dec_rep(n: nat) -> Seq<char>
    decreases n,
{
    if n < 10 {
        seq![spec_digit_char(n as int)]
    } else {
        dec_rep(n / 10) + seq![spec_digit_char((n % 10) as int)]
    }
}

/// The enum members from index `k` on: each lowered to `name: position`.
pub open spec fn spec_gen_members(members: Vec<EnumMember>, k: int) -> Seq<char>
    decreases members@.len() - k,
{
    if k < 0 || k >= members@.len() {
        Seq::<char>::empty()
    } else {
        let head = members@[k].name@ + ": "@ + dec_rep(k as nat);
        if k + 1 < members@.len() {
            head + ", "@ + spec_gen_members(members, k + 1)
        } else {
            head
        }
    }
}

/// The text of one statement. Interfaces and type aliases produce
/// nothing; an enum is lowered to a runtime object holding each
/// member's position; every other form re-emits its JavaScript with
/// type annotations dropped.
pub open spec fn spec_gen_stmt(s: Stmt) -> Seq<char>
    decreases s, 1int,
{
    match s {
        Stmt::VarDecl { kind, name, init, .. } => decl_str(kind) + name@ + (match init {
            Some(e) => " = "@ + spec_gen_expr(e, 1),
            None => Seq::<char>::empty(),
        }) + ";"@,
        Stmt::ExprStmt { expr, .. } => spec_gen_expr(expr, 1) + ";"@,
        Stmt::Return { arg, .. } => "return"@ + (match arg {
            Some(e) => " "@ + spec_gen_expr(e, 1),
            None => Seq::<char>::empty(),
        }) + ";"@,
        Stmt::If { cond, then_s, else_s, .. } => "if ("@ + spec_gen_expr(cond, 1) + ") "@
            + spec_gen_stmt(*then_s) + (match else_s {
            Some(b) => " else "@ + spec_gen_stmt(*b),
            None => Seq::<char>::empty(),
        }),
        Stmt::While { cond, body, .. } => "while ("@ + spec_gen_expr(cond, 1) + ") "@
            + spec_gen_stmt(*body),
        Stmt::Block { stmts, .. } => "{"@ + spec_gen_stmts(stmts, 0) + "}"@,
        Stmt::FnDecl { name, params, body, .. } => "function "@ + name@ + "("@ + spec_gen_params(
            params,
            0,
        ) + ") {"@ + spec_gen_stmts(body, 0) + "}"@,
        Stmt::Interface { .. } => Seq::<char>::empty(),
        Stmt::TypeAlias { .. } => Seq::<char>::empty(),
        Stmt::EnumDecl { name, members, .. } => "var "@ + name@ + " = {"@ + (if members@.len()
            == 0 {
            Seq::<char>::empty()
        } else {
            " "@ + spec_gen_members(members, 0) + " "@
        }) + "};"@,
        Stmt::Empty { .. } => ";"@,
    }
}

/// The statements from index `k` on, in order. Statements need no
/// separator: each ends with `;` or `}`.
pub open spec fn spec_gen_stmts(stmts: Vec<Stmt>, k: int) -> Seq<char>
    decreases stmts, stmts@.len() - k, 2int,
{
    if k < 0 || k >= stmts@.len() {
        Seq::<char>::empty()
    } else {
        spec_gen_stmt(stmts@[k]) + spec_gen_stmts(stmts, k + 1)
    }
}

/// The whole output text of a program.
pub open spec fn spec_gen_program(p: Program) -> Seq<char> {
    spec_gen_stmts(p.body, 0)
}

// ---------------------------------------------------------------------------
// The executable generator: provably emits exactly the specified text.
// ---------------------------------------------------------------------------

/// Append the characters of a string slice.
fn push_str_chars(out: &mut Vec<char>, s: &str)
    ensures
        final(out)@ == old(out)@ + s@,
{
    let n = s.unicode_len();
    let mut i: usize = 0;
    while i < n
        invariant
            i <= n,
            n == s@.len(),
            out@ == old(out)@ + s@.subrange(0, i as int),
        decreases n - i,
    {
        let c = s.get_char(i);
        out.push(c);
        proof {
            assert(out@ =~= old(out)@ + s@.subrange(0, i + 1));
        }
        i = i + 1;
    }
    proof {
        assert(s@.subrange(0, n as int) =~= s@);
    }
}

/// Append a vector of characters.
fn push_chars(out: &mut Vec<char>, v: &Vec<char>)
    ensures
        final(out)@ == old(out)@ + v@,
{
    let n = v.len();
    let mut i: usize = 0;
    while i < n
        invariant
            i <= n,
            n == v@.len(),
            out@ == old(out)@ + v@.subrange(0, i as int),
        decreases n - i,
    {
        out.push(v[i]);
        proof {
            assert(out@ =~= old(out)@ + v@.subrange(0, i + 1));
        }
        i = i + 1;
    }
    proof {
        assert(v@.subrange(0, n as int) =~= v@);
    }
}

fn push_op(out: &mut Vec<char>, op: BinOp)
    ensures
        final(out)@ == old(out)@ + op_str(op),
{
    match op {
        BinOp::OrOr => push_str_chars(out, "||"),
        BinOp::Coalesce => push_str_chars(out, "??"),
        BinOp::AndAnd => push_str_chars(out, "&&"),
        BinOp::EqEq => push_str_chars(out, "=="),
        BinOp::NotEq => push_str_chars(out, "!="),
        BinOp::StrictEq => push_str_chars(out, "==="),
        BinOp::StrictNotEq => push_str_chars(out, "!=="),
        BinOp::Lt => push_str_chars(out, "<"),
        BinOp::LtEq => push_str_chars(out, "<="),
        BinOp::Gt => push_str_chars(out, ">"),
        BinOp::GtEq => push_str_chars(out, ">="),
        BinOp::Add => push_str_chars(out, "+"),
        BinOp::Sub => push_str_chars(out, "-"),
        BinOp::Mul => push_str_chars(out, "*"),
        BinOp::Div => push_str_chars(out, "/"),
        BinOp::Mod => push_str_chars(out, "%"),
        BinOp::Pow => push_str_chars(out, "**"),
    }
}

fn op_prec_x(op: BinOp) -> (p: u32)
    ensures
        p as int == op_prec(op),
{
    match op {
        BinOp::OrOr => 4,
        BinOp::Coalesce => 4,
        BinOp::AndAnd => 5,
        BinOp::EqEq => 6,
        BinOp::NotEq => 6,
        BinOp::StrictEq => 6,
        BinOp::StrictNotEq => 6,
        BinOp::Lt => 7,
        BinOp::LtEq => 7,
        BinOp::Gt => 7,
        BinOp::GtEq => 7,
        BinOp::Add => 8,
        BinOp::Sub => 8,
        BinOp::Mul => 9,
        BinOp::Div => 9,
        BinOp::Mod => 9,
        BinOp::Pow => 10,
    }
}

fn expr_prec_x(e: &Expr) -> (p: u32)
    ensures
        p as int == expr_prec(*e),
    decreases *e,
{
    match e {
        Expr::Num { .. } => 13,
        Expr::StrLit { .. } => 13,
        Expr::Regex { .. } => 13,
        Expr::BoolLit { .. } => 13,
        Expr::NullLit { .. } => 13,
        Expr::Ident { .. } => 13,
        Expr::Paren { .. } => 13,
        Expr::Call { .. } => 12,
        Expr::Member { .. } => 12,
        Expr::Index { .. } => 12,
        Expr::Unary { .. } => 11,
        Expr::Binary { op, .. } => op_prec_x(*op),
        Expr::Cond { .. } => 2,
        Expr::Assign { .. } => 1,
        Expr::TypeAssertion { expr, .. } => expr_prec_x(expr),
        Expr::NonNull { expr, .. } => expr_prec_x(expr),
    }
}

fn push_dec(out: &mut Vec<char>, n: u64)
    ensures
        final(out)@ == old(out)@ + dec_rep(n as nat),
    decreases n,
{
    let d = (n % 10) as u8;
    let c: char = if d == 0 {
        '0'
    } else if d == 1 {
        '1'
    } else if d == 2 {
        '2'
    } else if d == 3 {
        '3'
    } else if d == 4 {
        '4'
    } else if d == 5 {
        '5'
    } else if d == 6 {
        '6'
    } else if d == 7 {
        '7'
    } else if d == 8 {
        '8'
    } else {
        '9'
    };
    if n < 10 {
        out.push(c);
        proof {
            assert(out@ =~= old(out)@ + dec_rep(n as nat));
        }
    } else {
        push_dec(out, n / 10);
        out.push(c);
        proof {
            assert(out@ =~= old(out)@ + dec_rep(n as nat));
        }
    }
}

/// Emit `e` with no outer parentheses.
fn gen_raw(e: &Expr, out: &mut Vec<char>)
    ensures
        final(out)@ == old(out)@ + spec_gen_raw(*e),
    decreases *e, 0int,
{
    match e {
        Expr::Num { text, .. } => push_chars(out, text),
        Expr::StrLit { text, .. } => push_chars(out, text),
        Expr::Regex { text, .. } => push_chars(out, text),
        Expr::BoolLit { value, .. } => {
            if *value {
                push_str_chars(out, "true");
            } else {
                push_str_chars(out, "false");
            }
        },
        Expr::NullLit { .. } => push_str_chars(out, "null"),
        Expr::Ident { name, .. } => push_chars(out, name),
        Expr::Paren { inner, .. } => {
            push_str_chars(out, "(");
            gen_expr(inner, 1, out);
            push_str_chars(out, ")");
            proof {
                assert(out@ =~= old(out)@ + spec_gen_raw(*e));
            }
        },
        Expr::Unary { op, arg, .. } => {
            match op {
                UnOp::Not => push_str_chars(out, "!"),
                UnOp::Neg => push_str_chars(out, "-"),
                UnOp::Plus => push_str_chars(out, "+"),
            }
            gen_expr(arg, 12, out);
            proof {
                assert(out@ =~= old(out)@ + spec_gen_raw(*e));
            }
        },
        Expr::Binary { op, lhs, rhs, .. } => {
            let p = op_prec_x(*op);
            let lctx = if *op == BinOp::Pow {
                p + 1
            } else if *op == BinOp::Coalesce {
                6
            } else {
                p
            };
            let rctx = if *op == BinOp::Pow {
                p
            } else if *op == BinOp::Coalesce {
                6
            } else {
                p + 1
            };
            gen_expr(lhs, lctx, out);
            push_str_chars(out, " ");
            push_op(out, *op);
            push_str_chars(out, " ");
            gen_expr(rhs, rctx, out);
            proof {
                assert(out@ =~= old(out)@ + spec_gen_raw(*e));
            }
        },
        Expr::Assign { target, value, .. } => {
            gen_expr(target, 12, out);
            push_str_chars(out, " = ");
            gen_expr(value, 1, out);
            proof {
                assert(out@ =~= old(out)@ + spec_gen_raw(*e));
            }
        },
        Expr::Cond { cond, then_e, else_e, .. } => {
            gen_expr(cond, 3, out);
            push_str_chars(out, " ? ");
            gen_expr(then_e, 1, out);
            push_str_chars(out, " : ");
            gen_expr(else_e, 2, out);
            proof {
                assert(out@ =~= old(out)@ + spec_gen_raw(*e));
            }
        },
        Expr::Call { callee, args, .. } => {
            gen_expr(callee, 12, out);
            push_str_chars(out, "(");
            gen_args(args, 0, out);
            push_str_chars(out, ")");
            proof {
                assert(out@ =~= old(out)@ + spec_gen_raw(*e));
            }
        },
        Expr::Member { obj, prop, .. } => {
            gen_expr(obj, 12, out);
            push_str_chars(out, ".");
            push_chars(out, prop);
            proof {
                assert(out@ =~= old(out)@ + spec_gen_raw(*e));
            }
        },
        Expr::Index { obj, index, .. } => {
            gen_expr(obj, 12, out);
            push_str_chars(out, "[");
            gen_expr(index, 1, out);
            push_str_chars(out, "]");
            proof {
                assert(out@ =~= old(out)@ + spec_gen_raw(*e));
            }
        },
        Expr::TypeAssertion { expr, .. } => {
            gen_raw(expr, out);
        },
        Expr::NonNull { expr, .. } => {
            gen_raw(expr, out);
        },
    }
}

/// Emit `e`, parenthesized exactly when it binds looser than `ctx`.
fn gen_expr(e: &Expr, ctx: u32, out: &mut Vec<char>)
    ensures
        final(out)@ == old(out)@ + spec_gen_expr(*e, ctx as int),
    decreases *e, 1int,
{
    let p = expr_prec_x(e);
    if p < ctx {
        push_str_chars(out, "(");
        gen_raw(e, out);
        push_str_chars(out, ")");
        proof {
            assert(out@ =~= old(out)@ + spec_gen_expr(*e, ctx as int));
        }
    } else {
        gen_raw(e, out);
    }
}

/// Emit the call arguments from index `k` on, comma separated.
fn gen_args(args: &Vec<Expr>, k: usize, out: &mut Vec<char>)
    ensures
        final(out)@ == old(out)@ + spec_gen_args(*args, k as int),
    decreases *args, args@.len() - k, 2int,
{
    if k >= args.len() {
        proof {
            assert(out@ =~= old(out)@ + spec_gen_args(*args, k as int));
        }
        return ;
    }
    gen_expr(&args[k], 2, out);
    if k + 1 < args.len() {
        push_str_chars(out, ", ");
        gen_args(args, k + 1, out);
    }
    proof {
        assert(out@ =~= old(out)@ + spec_gen_args(*args, k as int));
    }
}

/// Emit the parameter names from index `k` on, comma separated.
fn gen_params(params: &Vec<Param>, k: usize, out: &mut Vec<char>)
    ensures
        final(out)@ == old(out)@ + spec_gen_params(*params, k as int),
    decreases params@.len() - k,
{
    if k >= params.len() {
        proof {
            assert(out@ =~= old(out)@ + spec_gen_params(*params, k as int));
        }
        return ;
    }
    push_chars(out, &params[k].name);
    if k + 1 < params.len() {
        push_str_chars(out, ", ");
        gen_params(params, k + 1, out);
    }
    proof {
        assert(out@ =~= old(out)@ + spec_gen_params(*params, k as int));
    }
}

/// Emit the lowered enum members from index `k` on.
fn gen_members(members: &Vec<EnumMember>, k: usize, out: &mut Vec<char>)
    ensures
        final(out)@ == old(out)@ + spec_gen_members(*members, k as int),
    decreases members@.len() - k,
{
    if k >= members.len() {
        proof {
            assert(out@ =~= old(out)@ + spec_gen_members(*members, k as int));
        }
        return ;
    }
    push_chars(out, &members[k].name);
    push_str_chars(out, ": ");
    push_dec(out, k as u64);
    if k + 1 < members.len() {
        push_str_chars(out, ", ");
        gen_members(members, k + 1, out);
    }
    proof {
        assert(out@ =~= old(out)@ + spec_gen_members(*members, k as int));
    }
}

/// Emit one statement.
fn gen_stmt(s: &Stmt, out: &mut Vec<char>)
    ensures
        final(out)@ == old(out)@ + spec_gen_stmt(*s),
    decreases *s, 1int,
{
    match s {
        Stmt::VarDecl { kind, name, init, .. } => {
            match kind {
                DeclKind::Let => push_str_chars(out, "let "),
                DeclKind::Const => push_str_chars(out, "const "),
                DeclKind::Var => push_str_chars(out, "var "),
            }
            push_chars(out, name);
            match init {
                Some(e) => {
                    push_str_chars(out, " = ");
                    gen_expr(e, 1, out);
                },
                None => {},
            }
            push_str_chars(out, ";");
            proof {
                assert(out@ =~= old(out)@ + spec_gen_stmt(*s));
            }
        },
        Stmt::ExprStmt { expr, .. } => {
            gen_expr(expr, 1, out);
            push_str_chars(out, ";");
            proof {
                assert(out@ =~= old(out)@ + spec_gen_stmt(*s));
            }
        },
        Stmt::Return { arg, .. } => {
            push_str_chars(out, "return");
            match arg {
                Some(e) => {
                    push_str_chars(out, " ");
                    gen_expr(e, 1, out);
                },
                None => {},
            }
            push_str_chars(out, ";");
            proof {
                assert(out@ =~= old(out)@ + spec_gen_stmt(*s));
            }
        },
        Stmt::If { cond, then_s, else_s, .. } => {
            push_str_chars(out, "if (");
            gen_expr(cond, 1, out);
            push_str_chars(out, ") ");
            gen_stmt(then_s, out);
            match else_s {
                Some(b) => {
                    push_str_chars(out, " else ");
                    gen_stmt(b, out);
                },
                None => {},
            }
            proof {
                assert(out@ =~= old(out)@ + spec_gen_stmt(*s));
            }
        },
        Stmt::While { cond, body, .. } => {
            push_str_chars(out, "while (");
            gen_expr(cond, 1, out);
            push_str_chars(out, ") ");
            gen_stmt(body, out);
            proof {
                assert(out@ =~= old(out)@ + spec_gen_stmt(*s));
            }
        },
        Stmt::Block { stmts, .. } => {
            push_str_chars(out, "{");
            gen_stmts(stmts, 0, out);
            push_str_chars(out, "}");
            proof {
                assert(out@ =~= old(out)@ + spec_gen_stmt(*s));
            }
        },
        Stmt::FnDecl { name, params, body, .. } => {
            push_str_chars(out, "function ");
            push_chars(out, name);
            push_str_chars(out, "(");
            gen_params(params, 0, out);
            push_str_chars(out, ") {");
            gen_stmts(body, 0, out);
            push_str_chars(out, "}");
            proof {
                assert(out@ =~= old(out)@ + spec_gen_stmt(*s));
            }
        },
        Stmt::Interface { .. } => {
            proof {
                assert(out@ =~= old(out)@ + spec_gen_stmt(*s));
            }
        },
        Stmt::TypeAlias { .. } => {
            proof {
                assert(out@ =~= old(out)@ + spec_gen_stmt(*s));
            }
        },
        Stmt::EnumDecl { name, members, .. } => {
            push_str_chars(out, "var ");
            push_chars(out, name);
            push_str_chars(out, " = {");
            if members.len() > 0 {
                push_str_chars(out, " ");
                gen_members(members, 0, out);
                push_str_chars(out, " ");
            }
            push_str_chars(out, "};");
            proof {
                assert(out@ =~= old(out)@ + spec_gen_stmt(*s));
            }
        },
        Stmt::Empty { .. } => {
            push_str_chars(out, ";");
        },
    }
}

/// Emit the statements from index `k` on.
fn gen_stmts(stmts: &Vec<Stmt>, k: usize, out: &mut Vec<char>)
    ensures
        final(out)@ == old(out)@ + spec_gen_stmts(*stmts, k as int),
    decreases *stmts, stmts@.len() - k, 2int,
{
    if k >= stmts.len() {
        proof {
            assert(out@ =~= old(out)@ + spec_gen_stmts(*stmts, k as int));
        }
        return ;
    }
    gen_stmt(&stmts[k], out);
    gen_stmts(stmts, k + 1, out);
    proof {
        assert(out@ =~= old(out)@ + spec_gen_stmts(*stmts, k as int));
    }
}

/// Walk the tree and emit JavaScript: the result is, character for
/// character, `spec_gen_program`. The tree itself is read, never
/// changed.
pub fn generate_chars(p: &Program) -> (out: Vec<char>)
    ensures
        out@ == spec_gen_program(*p),
{
    let mut out: Vec<char> = Vec::new();
    gen_stmts(&p.body, 0, &mut out);
    proof {
        assert(out@ =~= spec_gen_program(*p));
    }
    out
}

} // verus!
