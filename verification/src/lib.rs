pub mod span;
pub mod token;
pub mod lexer;
pub mod ast;
pub mod parser;
pub mod gen;
pub mod laws;

use vstd::prelude::*;
use crate::ast::{view_program, Program, ProgramView};
use crate::gen::spec_gen_program;
use crate::lexer::{lex_chars, lex_err_ok, spec_tokens, tokens_wf};
use crate::parser::{parse_program, program_wf, spec_parse_program, ParseError};
use crate::span::Span;
use crate::token::{LexError, Token};

verus! {

/// Everything that can stop a transpilation: a token-level failure or
/// a grammar-level one, each carrying the offending source range.
#[derive(Clone, Copy, PartialEq, Eq, Structural, Debug)]
pub enum CompileError {
    Lex(LexError),
    Parse(ParseError),
}

impl CompileError {
    /// The source range the error points at.
    pub open spec fn spec_span(self) -> Span {
        match self {
            CompileError::Lex(e) => e.spec_span(),
            CompileError::Parse(e) => e.spec_span(),
        }
    }

    pub fn span(&self) -> (s: Span)
        ensures
            s == self.spec_span(),
    {
        match self {
            CompileError::Lex(e) => e.span(),
            CompileError::Parse(e) => e.span(),
        }
    }
}

/// The characters of a string slice, one by one.
pub fn str_to_chars(s: &str) -> (v: Vec<char>)
    ensures
        v@ == s@,
{
    let n = s.unicode_len();
    let mut v: Vec<char> = Vec::new();
    let mut i: usize = 0;
    while i < n
        invariant
            i <= n,
            n == s@.len(),
            v@ == s@.subrange(0, i as int),
        decreases n - i,
    {
        let c = s.get_char(i);
        v.push(c);
        proof {
            assert(v@ =~= s@.subrange(0, i + 1));
        }
        i = i + 1;
    }
    proof {
        assert(s@.subrange(0, n as int) =~= s@);
    }
    v
}

/// Relies on String implementing FromIterator over characters: the
/// collected string holds exactly the iterated characters, which is
/// what a String's view is.
#[verifier::external_body]
fn chars_to_string(v: &Vec<char>) -> (r: String)
    ensures
        r@ == v@,
{
    v.iter().collect()
}

/// Turn source text into its token stream, or the first token-level
/// error. The result is exactly the specified lexing of the text.
pub fn tokenize(source: &str) -> (r: Result<Vec<Token>, LexError>)
    ensures
        match r {
            Ok(toks) => spec_tokens(source@) == Ok::<Seq<Token>, LexError>(toks@) && tokens_wf(
                source@.len(),
                toks@,
            ),
            Err(e) => spec_tokens(source@) == Err::<Seq<Token>, LexError>(e) && lex_err_ok(
                e,
                source@.len(),
            ),
        },
{
    let chars = str_to_chars(source);
    lex_chars(&chars)
}

/// The whole front half of the pipeline as a mathematical function:
/// lex the text, then parse the token stream, handing back the
/// program's view or the first error.
pub open spec fn spec_parse_text(s: Seq<char>) -> Result<ProgramView, CompileError> {
    match spec_tokens(s) {
        Err(e) => Err(CompileError::Lex(e)),
        Ok(toks) => match spec_parse_program(s, toks) {
            Err(e) => Err(CompileError::Parse(e)),
            Ok(p) => Ok(p),
        },
    }
}

/// Lex and parse source text into a program, or the first error: the
/// result is exactly `spec_parse_text` of the text, in the Ok and the
/// Err case alike. Parsing is atomic: on any failure no tree is
/// returned; a returned tree is well formed, every node's span inside
/// its parent's and inside the source. An error's span also lies
/// inside the source.
pub fn parse_text(source: &str) -> (r: Result<Program, CompileError>)
    ensures
        match r {
            Ok(p) => spec_parse_text(source@) == Ok::<ProgramView, CompileError>(view_program(p))
                && program_wf(p, source@.len()),
            Err(e) => spec_parse_text(source@) == Err::<ProgramView, CompileError>(e),
        },
        r matches Err(e) ==> e.spec_span().start <= e.spec_span().end <= source@.len(),
{
    let chars = str_to_chars(source);
    match lex_chars(&chars) {
        Err(e) => Err(CompileError::Lex(e)),
        Ok(toks) => match parse_program(&chars, &toks) {
            Err(e) => Err(CompileError::Parse(e)),
            Ok(p) => Ok(p),
        },
    }
}

/// Emit JavaScript for a parsed program: exactly the text that
/// `spec_gen_program` describes, TypeScript-only constructs dropped or
/// lowered. The tree is only read.
pub fn generate(p: &Program) -> (out: String)
    ensures
        out@ == spec_gen_program(*p),
{
    let v = crate::gen::generate_chars(p);
    chars_to_string(&v)
}

/// The whole pipeline: lex, parse, and re-emit JavaScript. It succeeds
/// exactly when `spec_parse_text` does, and then the output is exactly
/// the generated text of the program that the specified parse yields
/// (the witness below is pinned: its view is that parse's result); a
/// failure is exactly the specified lex or parse error.
pub fn transpile(source: &str) -> (r: Result<String, CompileError>)
    ensures
        match r {
            Ok(out) => exists|p: Program|
                spec_parse_text(source@) == Ok::<ProgramView, CompileError>(
                    #[trigger] view_program(p),
                ) && out@ == spec_gen_program(p),
            Err(e) => spec_parse_text(source@) == Err::<ProgramView, CompileError>(e),
        },
        r matches Err(e) ==> e.spec_span().start <= e.spec_span().end <= source@.len(),
{
    match parse_text(source) {
        Err(e) => Err(e),
        Ok(p) => {
            let ghost pw = p;
            let out = generate(&p);
            proof {
                assert(spec_parse_text(source@) == Ok::<ProgramView, CompileError>(
                    view_program(pw),
                ) && out@ == spec_gen_program(pw));
            }
            Ok(out)
        },
    }
}

} // verus!
