use ts_compiler::ast::{BinOp, Expr, Program, Stmt};
use ts_compiler::parser::ParseError;
use ts_compiler::token::{Kw, LexError, Punct, TokenKind};
use ts_compiler::{parse_text, tokenize, transpile, CompileError};

fn ok(src: &str) -> String {
    transpile(src).expect("expected successful transpilation")
}

fn parsed(src: &str) -> Program {
    parse_text(src).expect("expected successful parse")
}

// Round-trip idempotence: generated JavaScript, re-parsed and
// re-generated, comes back unchanged.
fn round_trip(src: &str) {
    let first = ok(src);
    let second = ok(&first);
    assert_eq!(first, second);
}

#[test]
fn round_trip_declarations() {
    round_trip("let x = 1;var y = x;const z = y;");
}

#[test]
fn round_trip_control_flow() {
    round_trip("if (a < b) { f(a); } else { g(b); }while (i < n) { i = i + 1; }");
}

#[test]
fn round_trip_functions_and_calls() {
    round_trip("function add(a, b) { return a + b; }add(1, 2);");
}

#[test]
fn round_trip_grouping_kept() {
    let out = ok("x = (1 + 2) * 3;");
    assert_eq!(out, "x = (1 + 2) * 3;");
    round_trip("x = (1 + 2) * 3;");
}

#[test]
fn round_trip_operators() {
    round_trip("r = 1 + 2 * 3 - 4 / 5 % 6;s = a && b || c;t = x === y ? 1 : 2;");
}

#[test]
fn round_trip_reparse_same_structure() {
    let p1 = parsed("1 + 2 * 3");
    let text = ts_compiler::generate(&p1);
    let p2 = parsed(&text);
    // Same shape on both sides: a `+` whose right operand is a `*`.
    for p in [&p1, &p2] {
        match &p.body[0] {
            Stmt::ExprStmt { expr: Expr::Binary { op: BinOp::Add, rhs, .. }, .. } => {
                assert!(matches!(**rhs, Expr::Binary { op: BinOp::Mul, .. }));
            }
            other => panic!("unexpected statement: {:?}", other),
        }
    }
}

// Operator precedence preservation: `1 + 2 * 3` parses as
// `1 + (2 * 3)`, never `(1 + 2) * 3`.
#[test]
fn precedence_plus_times() {
    let p = parsed("1 + 2 * 3");
    assert_eq!(p.body.len(), 1);
    match &p.body[0] {
        Stmt::ExprStmt { expr: Expr::Binary { op, lhs, rhs, .. }, .. } => {
            assert_eq!(*op, BinOp::Add);
            assert!(matches!(**lhs, Expr::Num { .. }));
            match &**rhs {
                Expr::Binary { op, .. } => assert_eq!(*op, BinOp::Mul),
                other => panic!("right operand is not a product: {:?}", other),
            }
        }
        other => panic!("unexpected statement: {:?}", other),
    }
}

#[test]
fn exponent_is_right_associative() {
    assert_eq!(ok("p = 2 ** 3 ** 2;"), "p = 2 ** 3 ** 2;");
    let p = parsed("p = 2 ** 3 ** 2;");
    match &p.body[0] {
        Stmt::ExprStmt { expr: Expr::Assign { value, .. }, .. } => match &**value {
            Expr::Binary { op: BinOp::Pow, lhs, .. } => {
                assert!(matches!(**lhs, Expr::Num { .. }));
            }
            other => panic!("not an exponentiation: {:?}", other),
        },
        other => panic!("unexpected statement: {:?}", other),
    }
}

// Regex/division disambiguation.
#[test]
fn division_after_operands() {
    let toks = tokenize("a / b / c").expect("lexing failed");
    let kinds: Vec<TokenKind> = toks.iter().map(|t| t.kind).collect();
    assert_eq!(
        kinds,
        vec![
            TokenKind::Ident,
            TokenKind::Punct(Punct::Slash),
            TokenKind::Ident,
            TokenKind::Punct(Punct::Slash),
            TokenKind::Ident,
            TokenKind::Eof,
        ]
    );
}

#[test]
fn regex_in_operand_position() {
    let toks = tokenize("f(/ab+c/, d)").expect("lexing failed");
    assert_eq!(toks[0].kind, TokenKind::Ident);
    assert_eq!(toks[1].kind, TokenKind::Punct(Punct::LParen));
    assert_eq!(toks[2].kind, TokenKind::Regex);
    assert_eq!(toks[2].span.start, 2);
    assert_eq!(toks[2].span.end, 8);
    assert_eq!(toks[3].kind, TokenKind::Punct(Punct::Comma));
}

#[test]
fn division_after_close_paren() {
    let toks = tokenize("(a) / b").expect("lexing failed");
    assert_eq!(toks[3].kind, TokenKind::Punct(Punct::Slash));
}

#[test]
fn regex_round_trips() {
    assert_eq!(ok("let r = /ab+c/g;"), "let r = /ab+c/g;");
}

// Error locality: the failure points at the offending token.
#[test]
fn error_at_the_semicolon() {
    let err = parse_text("let x = ;").expect_err("parse should fail");
    match err {
        CompileError::Parse(ParseError::UnexpectedToken { found, .. }) => {
            assert_eq!(found.span.start, 8);
            assert_eq!(found.kind, TokenKind::Punct(Punct::Semi));
        }
        other => panic!("unexpected error: {:?}", other),
    }
    assert_eq!(err.span().start, 8);
}

// Enum lowering: members become a runtime object numbered by position.
#[test]
fn enum_lowering() {
    assert_eq!(
        ok("enum Color { Red, Green }"),
        "var Color = { Red: 0, Green: 1 };"
    );
}

#[test]
fn const_enum_lowering() {
    assert_eq!(ok("const enum E { A }"), "var E = { A: 0 };");
}

#[test]
fn empty_enum_lowering() {
    assert_eq!(ok("enum N {}"), "var N = {};");
}

#[test]
fn enum_members_past_ten() {
    let out = ok("enum D { A0, A1, A2, A3, A4, A5, A6, A7, A8, A9, B0, B1 }");
    assert!(out.ends_with("B0: 10, B1: 11 };"));
}

// Type erasure: annotations, assertions, interfaces and aliases leave
// no trace in the output.
#[test]
fn erases_variable_annotation() {
    assert_eq!(ok("let x: number = 1;"), "let x = 1;");
}

#[test]
fn erases_parameter_and_return_types() {
    assert_eq!(
        ok("function f(a: string, b): string[] { return a; }"),
        "function f(a, b) {return a;}"
    );
}

#[test]
fn erases_union_types() {
    assert_eq!(ok("let u: number | string[] = 1;"), "let u = 1;");
}

#[test]
fn erases_interface_and_alias() {
    assert_eq!(
        ok("interface I { a: number; b?: string; }type T = I[];let y = 2;"),
        "let y = 2;"
    );
}

#[test]
fn erases_as_and_nonnull() {
    assert_eq!(ok("let z = x as number;"), "let z = x;");
    assert_eq!(ok("let w = y!;"), "let w = y;");
    assert_eq!(ok("let v = (a as T[]) + b!;"), "let v = (a) + b;");
}

#[test]
fn output_has_no_typescript_tokens() {
    let inputs = [
        "let x: number = 1;",
        "function f(a: string): boolean { return true; }",
        "let z = x as number;",
        "interface I { a: number; }let k = 1;",
        "type T = number;let m = 2;",
    ];
    for src in inputs {
        let out = ok(src);
        let toks = tokenize(&out).expect("output must re-lex");
        for t in toks {
            match t.kind {
                TokenKind::Keyword(k) => assert!(
                    !matches!(k, Kw::Interface | Kw::Type | Kw::As | Kw::Enum),
                    "TypeScript keyword in output {:?}",
                    out
                ),
                TokenKind::Punct(p) => assert!(
                    p != Punct::Colon,
                    "type annotation colon in output {:?}",
                    out
                ),
                _ => {}
            }
        }
    }
}

// Lexer errors, one input per variant.
#[test]
fn unterminated_string() {
    match transpile("let s = 'abc;") {
        Err(CompileError::Lex(LexError::UnterminatedString(sp))) => assert_eq!(sp.start, 8),
        other => panic!("unexpected result: {:?}", other),
    }
}

#[test]
fn unterminated_comment() {
    match transpile("/* no end") {
        Err(CompileError::Lex(LexError::UnterminatedComment(sp))) => assert_eq!(sp.start, 0),
        other => panic!("unexpected result: {:?}", other),
    }
}

#[test]
fn unterminated_regex() {
    match transpile("let r = /ab") {
        Err(CompileError::Lex(LexError::UnterminatedRegex(sp))) => assert_eq!(sp.start, 8),
        other => panic!("unexpected result: {:?}", other),
    }
}

#[test]
fn invalid_numeric_literal() {
    match transpile("let n = 0x;") {
        Err(CompileError::Lex(LexError::InvalidNumericLiteral(_))) => {}
        other => panic!("unexpected result: {:?}", other),
    }
    match transpile("let n = 12ab;") {
        Err(CompileError::Lex(LexError::InvalidNumericLiteral(_))) => {}
        other => panic!("unexpected result: {:?}", other),
    }
}

#[test]
fn invalid_escape_sequence() {
    match transpile("let s = 'a\\q';") {
        Err(CompileError::Lex(LexError::InvalidEscapeSequence(sp))) => assert_eq!(sp.start, 10),
        other => panic!("unexpected result: {:?}", other),
    }
}

#[test]
fn unexpected_character() {
    match transpile("let a = #;") {
        Err(CompileError::Lex(LexError::UnexpectedCharacter(sp))) => assert_eq!(sp.start, 8),
        other => panic!("unexpected result: {:?}", other),
    }
}

// Parser errors.
#[test]
fn mixed_nullish_and_logical() {
    for src in ["let a = b ?? c || d;", "let a = b && c ?? d;"] {
        match parse_text(src) {
            Err(CompileError::Parse(ParseError::MixedNullishLogical(_))) => {}
            other => panic!("unexpected result for {:?}: {:?}", src, other),
        }
    }
    // Grouping makes the same mix legal.
    assert_eq!(ok("let a = (b ?? c) || d;"), "let a = (b ?? c) || d;");
}

#[test]
fn invalid_assignment_target() {
    match parse_text("1 = 2;") {
        Err(CompileError::Parse(ParseError::InvalidAssignmentTarget(sp))) => {
            assert_eq!(sp.start, 0);
        }
        other => panic!("unexpected result: {:?}", other),
    }
}

#[test]
fn reserved_word_as_name() {
    match parse_text("let let = 1;") {
        Err(CompileError::Parse(ParseError::ReservedWordAsIdentifier(sp))) => {
            assert_eq!(sp.start, 4);
        }
        other => panic!("unexpected result: {:?}", other),
    }
}

#[test]
fn missing_brace_reported() {
    assert!(matches!(
        parse_text("{ let a = 1;"),
        Err(CompileError::Parse(ParseError::UnexpectedToken { .. }))
    ));
}

// Lexer details.
#[test]
fn token_spans_and_keywords() {
    let toks = tokenize("let x").expect("lexing failed");
    assert_eq!(toks[0].kind, TokenKind::Keyword(Kw::Let));
    assert_eq!((toks[0].span.start, toks[0].span.end), (0, 3));
    assert_eq!(toks[1].kind, TokenKind::Ident);
    assert_eq!((toks[1].span.start, toks[1].span.end), (4, 5));
    assert_eq!(toks[2].kind, TokenKind::Eof);
    assert_eq!((toks[2].span.start, toks[2].span.end), (5, 5));
}

#[test]
fn longest_match_punctuators() {
    let toks = tokenize("a === b !== c => d").expect("lexing failed");
    assert_eq!(toks[1].kind, TokenKind::Punct(Punct::EqEqEq));
    assert_eq!(toks[3].kind, TokenKind::Punct(Punct::NotEqEq));
    assert_eq!(toks[5].kind, TokenKind::Punct(Punct::Arrow));
}

#[test]
fn comments_are_skipped() {
    assert_eq!(
        ok("let a = 1; // trailing\n/* block */let b = 2;"),
        "let a = 1;let b = 2;"
    );
}

#[test]
fn numeric_forms() {
    assert_eq!(ok("let a = 0x1f;let b = 1.25;let c = 10;"), "let a = 0x1f;let b = 1.25;let c = 10;");
}

#[test]
fn string_literals_kept_raw() {
    assert_eq!(ok("let s = 'a\\n\"b';let t = \"c'd\";"), "let s = 'a\\n\"b';let t = \"c'd\";");
}

#[test]
fn empty_input() {
    assert_eq!(ok(""), "");
}

#[test]
fn member_call_index_chain() {
    assert_eq!(ok("obj.m(1, 2)[k];"), "obj.m(1, 2)[k];");
}

#[test]
fn literals_and_unary() {
    assert_eq!(ok("let a = true;let b = false;let c = null;let d = -1;let e = !f;"),
        "let a = true;let b = false;let c = null;let d = -1;let e = !f;");
}

#[test]
fn nested_unary_stays_two_negations() {
    // `--x` lexes as two minus signs here; regenerating must not glue
    // them back into one token.
    let out = ok("a = --x;");
    assert_eq!(out, "a = -(-x);");
    round_trip("a = --x;");
}

#[test]
fn ternary_and_assignment_chains() {
    assert_eq!(ok("r = a ? b : c ? d : e;"), "r = a ? b : c ? d : e;");
    assert_eq!(ok("a = b = c;"), "a = b = c;");
    round_trip("r = (a ? b : c) ? d : e;");
}

#[test]
fn coalesce_chain_round_trips() {
    let out = ok("r = a ?? b ?? c;");
    let again = ok(&out);
    assert_eq!(out, again);
}

#[test]
fn if_else_round_trip() {
    assert_eq!(
        ok("if (a) x = 1; else { y = 2; }"),
        "if (a) x = 1; else {y = 2;}"
    );
}

#[test]
fn interface_member_with_question_erased() {
    assert_eq!(ok("interface P { x?: number[]; }var q = 3;"), "var q = 3;");
}

// Interface members: `;` or `,` separators, the last one optional.
#[test]
fn interface_without_trailing_separator() {
    assert_eq!(ok("interface I { x: number } let y = 1;"), "let y = 1;");
}

#[test]
fn interface_with_comma_separators() {
    assert_eq!(ok("interface P { a: number, b: string[] }var q = 3;"), "var q = 3;");
    assert_eq!(ok("interface M { a: number; b: string }let r = 4;"), "let r = 4;");
}

#[test]
fn interface_member_needs_separator_or_close() {
    assert!(matches!(
        parse_text("interface I { a: number b: string }"),
        Err(CompileError::Parse(ParseError::UnexpectedToken { .. }))
    ));
}

// Assignment is a valid call argument; regeneration groups it.
#[test]
fn assignment_as_call_argument() {
    assert_eq!(ok("f(a = 1, b);"), "f((a = 1), b);");
    round_trip("f(a = 1, b);");
}

// Exponent, binary and octal numeric literals.
#[test]
fn exponent_binary_octal_literals() {
    assert_eq!(
        ok("let a = 1e5;let b = 1.5e-2;let c = 0b101;let d = 0o17;let e2 = 2E+3;"),
        "let a = 1e5;let b = 1.5e-2;let c = 0b101;let d = 0o17;let e2 = 2E+3;"
    );
}

#[test]
fn malformed_numeric_literals() {
    for src in ["let n = 1e;", "let n = 1e+;", "let n = 0b;", "let n = 0b12;", "let n = 0o9;"] {
        match transpile(src) {
            Err(CompileError::Lex(LexError::InvalidNumericLiteral(_))) => {}
            other => panic!("unexpected result for {:?}: {:?}", src, other),
        }
    }
}

#[test]
fn numeric_separators() {
    assert_eq!(
        ok("let a = 1_000;let b = 1_0.5_5e1_0;"),
        "let a = 1_000;let b = 1_0.5_5e1_0;"
    );
    for src in ["let n = 1_;", "let n = 1__0;"] {
        match transpile(src) {
            Err(CompileError::Lex(LexError::InvalidNumericLiteral(_))) => {}
            other => panic!("unexpected result for {:?}: {:?}", src, other),
        }
    }
}
