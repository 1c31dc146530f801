use vstd::prelude::*;
use crate::span::Span;
use crate::token::{Kw, LexError, Punct, Token, TokenKind};

verus! {

// ---------------------------------------------------------------------------
// Character classes
// ---------------------------------------------------------------------------

pub open spec fn is_ws(c: char) -> bool {
    c == ' ' || c == '\t' || c == '\n' || c == '\r'
}

#[verifier::when_used_as_spec(is_ws)]
pub fn ws(c: char) -> (b: bool)
    ensures
        b == is_ws(c),
{
    c == ' ' || c == '\t' || c == '\n' || c == '\r'
}

pub open spec fn is_digit(c: char) -> bool {
    48 <= c as u32 <= 57
}

#[verifier::when_used_as_spec(is_digit)]
pub fn digit(c: char) -> (b: bool)
    ensures
        b == is_digit(c),
{
    let u = c as u32;
    48 <= u && u <= 57
}

pub open spec fn is_hex_digit(c: char) -> bool {
    is_digit(c) || 97 <= c as u32 <= 102 || 65 <= c as u32 <= 70
}

#[verifier::when_used_as_spec(is_hex_digit)]
pub fn hex_digit(c: char) -> (b: bool)
    ensures
        b == is_hex_digit(c),
{
    let u = c as u32;
    digit(c) || (97 <= u && u <= 102) || (65 <= u && u <= 70)
}

pub open spec fn is_bin_digit(c: char) -> bool {
    c == '0' || c == '1'
}

#[verifier::when_used_as_spec(is_bin_digit)]
pub fn bin_digit(c: char) -> (b: bool)
    ensures
        b == is_bin_digit(c),
{
    c == '0' || c == '1'
}

pub open spec fn is_oct_digit(c: char) -> bool {
    48 <= c as u32 <= 55
}

#[verifier::when_used_as_spec(is_oct_digit)]
pub fn oct_digit(c: char) -> (b: bool)
    ensures
        b == is_oct_digit(c),
{
    let u = c as u32;
    48 <= u && u <= 55
}

pub open spec fn is_id_start(c: char) -> bool {
    97 <= c as u32 <= 122 || 65 <= c as u32 <= 90 || c == '_' || c == '$'
}

#[verifier::when_used_as_spec(is_id_start)]
pub fn id_start(c: char) -> (b: bool)
    ensures
        b == is_id_start(c),
{
    let u = c as u32;
    (97 <= u && u <= 122) || (65 <= u && u <= 90) || c == '_' || c == '$'
}

pub open spec fn is_id_cont(c: char) -> bool {
    is_id_start(c) || is_digit(c)
}

#[verifier::when_used_as_spec(is_id_cont)]
pub fn id_cont(c: char) -> (b: bool)
    ensures
        b == is_id_cont(c),
{
    id_start(c) || digit(c)
}

/// The single characters accepted after a backslash in a string literal.
pub open spec fn is_escape_char(c: char) -> bool {
    ||| c == 'n' || c == 't' || c == 'r' || c == 'b' || c == 'f' || c == 'v'
    ||| c == '0' || c == 'u' || c == 'x'
    ||| c == '\'' || c == '"' || c == '\\' || c == '/' || c == '`' || c == '\n'
}

#[verifier::when_used_as_spec(is_escape_char)]
pub fn escape_char(c: char) -> (b: bool)
    ensures
        b == is_escape_char(c),
{
    c == 'n' || c == 't' || c == 'r' || c == 'b' || c == 'f' || c == 'v' || c == '0' || c == 'u'
        || c == 'x' || c == '\'' || c == '"' || c == '\\' || c == '/' || c == '`' || c == '\n'
}

// ---------------------------------------------------------------------------
// Scan-to-end helpers: each finds where a lexical element stops.
// ---------------------------------------------------------------------------

/// Position of the newline ending a line comment, or the end of input.
pub open spec fn line_end_at(s: Seq<char>, i: int) -> int
    decreases s.len() - i,
{
    if i < 0 || i >= s.len() {
        s.len() as int
    } else if s[i] == '\n' {
        i
    } else {
        line_end_at(s, i + 1)
    }
}

pub proof fn lemma_line_end_at(s: Seq<char>, i: int)
    requires
        0 <= i <= s.len(),
    ensures
        i <= line_end_at(s, i) <= s.len(),
    decreases s.len() - i,
{
    if i < s.len() && s[i] != '\n' {
        lemma_line_end_at(s, i + 1);
    }
}

/// Position just past the `*/` closing a block comment, if any.
pub open spec fn block_end_at(s: Seq<char>, i: int) -> Option<int>
    decreases s.len() - i,
{
    if i < 0 || i + 2 > s.len() {
        None
    } else if s[i] == '*' && s[i + 1] == '/' {
        Some(i + 2)
    } else {
        block_end_at(s, i + 1)
    }
}

pub proof fn lemma_block_end_at(s: Seq<char>, i: int)
    requires
        0 <= i,
    ensures
        block_end_at(s, i) matches Some(e) ==> i + 2 <= e <= s.len(),
    decreases s.len() - i,
{
    if 0 <= i && i + 2 <= s.len() && !(s[i] == '*' && s[i + 1] == '/') {
        lemma_block_end_at(s, i + 1);
    }
}

/// First position at or after `i` holding no identifier character.
pub open spec fn ident_end_at(s: Seq<char>, i: int) -> int
    decreases s.len() - i,
{
    if i < 0 || i >= s.len() {
        s.len() as int
    } else if is_id_cont(s[i]) {
        ident_end_at(s, i + 1)
    } else {
        i
    }
}

pub proof fn lemma_ident_end_at(s: Seq<char>, i: int)
    requires
        0 <= i <= s.len(),
    ensures
        i <= ident_end_at(s, i) <= s.len(),
        i < s.len() && is_id_cont(s[i]) ==> i < ident_end_at(s, i),
    decreases s.len() - i,
{
    if i < s.len() && is_id_cont(s[i]) {
        lemma_ident_end_at(s, i + 1);
    }
}

/// First position at or after `i` holding no decimal digit.
pub open spec fn digits_end_at(s: Seq<char>, i: int) -> int
    decreases s.len() - i,
{
    if i < 0 || i >= s.len() {
        s.len() as int
    } else if is_digit(s[i]) {
        digits_end_at(s, i + 1)
    } else {
        i
    }
}

pub proof fn lemma_digits_end_at(s: Seq<char>, i: int)
    requires
        0 <= i <= s.len(),
    ensures
        i <= digits_end_at(s, i) <= s.len(),
        i < s.len() && is_digit(s[i]) ==> i < digits_end_at(s, i),
    decreases s.len() - i,
{
    if i < s.len() && is_digit(s[i]) {
        lemma_digits_end_at(s, i + 1);
    }
}

/// First position at or after `i` holding no hexadecimal digit.
pub open spec fn hex_end_at(s: Seq<char>, i: int) -> int
    decreases s.len() - i,
{
    if i < 0 || i >= s.len() {
        s.len() as int
    } else if is_hex_digit(s[i]) {
        hex_end_at(s, i + 1)
    } else {
        i
    }
}

pub proof fn lemma_hex_end_at(s: Seq<char>, i: int)
    requires
        0 <= i <= s.len(),
    ensures
        i <= hex_end_at(s, i) <= s.len(),
    decreases s.len() - i,
{
    if i < s.len() && is_hex_digit(s[i]) {
        lemma_hex_end_at(s, i + 1);
    }
}

/// First position at or after `i` holding no binary digit.
pub open spec fn bin_end_at(s: Seq<char>, i: int) -> int
    decreases s.len() - i,
{
    if i < 0 || i >= s.len() {
        s.len() as int
    } else if is_bin_digit(s[i]) {
        bin_end_at(s, i + 1)
    } else {
        i
    }
}

pub proof fn lemma_bin_end_at(s: Seq<char>, i: int)
    requires
        0 <= i <= s.len(),
    ensures
        i <= bin_end_at(s, i) <= s.len(),
    decreases s.len() - i,
{
    if i < s.len() && is_bin_digit(s[i]) {
        lemma_bin_end_at(s, i + 1);
    }
}

/// First position at or after `i` holding no octal digit.
pub open spec fn oct_end_at(s: Seq<char>, i: int) -> int
    decreases s.len() - i,
{
    if i < 0 || i >= s.len() {
        s.len() as int
    } else if is_oct_digit(s[i]) {
        oct_end_at(s, i + 1)
    } else {
        i
    }
}

pub proof fn lemma_oct_end_at(s: Seq<char>, i: int)
    requires
        0 <= i <= s.len(),
    ensures
        i <= oct_end_at(s, i) <= s.len(),
    decreases s.len() - i,
{
    if i < s.len() && is_oct_digit(s[i]) {
        lemma_oct_end_at(s, i + 1);
    }
}

/// End of a decimal digit run that may contain `_` separators: each
/// `_` must stand between two digits.
pub open spec fn num_run_end(s: Seq<char>, i: int) -> int
    decreases s.len() - i,
{
    let e = digits_end_at(s, i);
    if 0 <= i && i <= e && e < s.len() && s[e] == '_' && e + 1 < s.len() && is_digit(s[e + 1]) {
        num_run_end(s, e + 1)
    } else {
        e
    }
}

pub proof fn lemma_num_run_end(s: Seq<char>, i: int)
    requires
        0 <= i <= s.len(),
    ensures
        i <= num_run_end(s, i) <= s.len(),
        i < s.len() && is_digit(s[i]) ==> i < num_run_end(s, i),
    decreases s.len() - i,
{
    lemma_digits_end_at(s, i);
    let e = digits_end_at(s, i);
    if 0 <= i && i <= e && e < s.len() && s[e] == '_' && e + 1 < s.len() && is_digit(s[e + 1]) {
        lemma_num_run_end(s, e + 1);
    }
}

// ---------------------------------------------------------------------------
// Executable twins of the scan-to-end helpers
// ---------------------------------------------------------------------------

fn line_end_x(src: &Vec<char>, pos: usize) -> (e: usize)
    requires
        pos <= src.len(),
    ensures
        e as int == line_end_at(src@, pos as int),
        pos <= e <= src.len(),
{
    let mut i: usize = pos;
    while i < src.len() && src[i] != '\n'
        invariant
            pos <= i <= src.len(),
            line_end_at(src@, pos as int) == line_end_at(src@, i as int),
        decreases src.len() - i,
    {
        i = i + 1;
    }
    i
}

fn block_end_x(src: &Vec<char>, pos: usize) -> (e: Option<usize>)
    requires
        pos <= src.len(),
    ensures
        match e {
            Some(j) => block_end_at(src@, pos as int) == Some(j as int) && pos + 2 <= j
                <= src.len(),
            None => block_end_at(src@, pos as int) is None,
        },
{
    let mut i: usize = pos;
    loop
        invariant
            pos <= i <= src.len(),
            block_end_at(src@, pos as int) == block_end_at(src@, i as int),
        decreases src.len() - i,
    {
        if src.len() < 2 || i > src.len() - 2 {
            return None;
        }
        if src[i] == '*' && src[i + 1] == '/' {
            proof {
                lemma_block_end_at(src@, pos as int);
            }
            return Some(i + 2);
        }
        i = i + 1;
    }
}

fn ident_end_x(src: &Vec<char>, pos: usize) -> (e: usize)
    requires
        pos <= src.len(),
    ensures
        e as int == ident_end_at(src@, pos as int),
        pos <= e <= src.len(),
{
    let mut i: usize = pos;
    while i < src.len() && id_cont(src[i])
        invariant
            pos <= i <= src.len(),
            ident_end_at(src@, pos as int) == ident_end_at(src@, i as int),
        decreases src.len() - i,
    {
        i = i + 1;
    }
    i
}

fn digits_end_x(src: &Vec<char>, pos: usize) -> (e: usize)
    requires
        pos <= src.len(),
    ensures
        e as int == digits_end_at(src@, pos as int),
        pos <= e <= src.len(),
{
    let mut i: usize = pos;
    while i < src.len() && digit(src[i])
        invariant
            pos <= i <= src.len(),
            digits_end_at(src@, pos as int) == digits_end_at(src@, i as int),
        decreases src.len() - i,
    {
        i = i + 1;
    }
    i
}

fn hex_end_x(src: &Vec<char>, pos: usize) -> (e: usize)
    requires
        pos <= src.len(),
    ensures
        e as int == hex_end_at(src@, pos as int),
        pos <= e <= src.len(),
{
    let mut i: usize = pos;
    while i < src.len() && hex_digit(src[i])
        invariant
            pos <= i <= src.len(),
            hex_end_at(src@, pos as int) == hex_end_at(src@, i as int),
        decreases src.len() - i,
    {
        i = i + 1;
    }
    i
}

fn bin_end_x(src: &Vec<char>, pos: usize) -> (e: usize)
    requires
        pos <= src.len(),
    ensures
        e as int == bin_end_at(src@, pos as int),
        pos <= e <= src.len(),
{
    let mut i: usize = pos;
    while i < src.len() && bin_digit(src[i])
        invariant
            pos <= i <= src.len(),
            bin_end_at(src@, pos as int) == bin_end_at(src@, i as int),
        decreases src.len() - i,
    {
        i = i + 1;
    }
    i
}

fn oct_end_x(src: &Vec<char>, pos: usize) -> (e: usize)
    requires
        pos <= src.len(),
    ensures
        e as int == oct_end_at(src@, pos as int),
        pos <= e <= src.len(),
{
    let mut i: usize = pos;
    while i < src.len() && oct_digit(src[i])
        invariant
            pos <= i <= src.len(),
            oct_end_at(src@, pos as int) == oct_end_at(src@, i as int),
        decreases src.len() - i,
    {
        i = i + 1;
    }
    i
}

fn num_run_end_x(src: &Vec<char>, pos: usize) -> (e: usize)
    requires
        pos <= src.len(),
    ensures
        e as int == num_run_end(src@, pos as int),
        pos <= e <= src.len(),
{
    let mut i: usize = pos;
    loop
        invariant
            pos <= i <= src.len(),
            num_run_end(src@, pos as int) == num_run_end(src@, i as int),
        decreases src.len() - i,
    {
        let e = digits_end_x(src, i);
        if e < src.len() && src[e] == '_' && e + 1 < src.len() && digit(src[e + 1]) {
            i = e + 1;
        } else {
            return e;
        }
    }
}

// ---------------------------------------------------------------------------
// Keywords
// ---------------------------------------------------------------------------

/// The keyword spelled by `s`, if any.
pub open spec fn kw_of(s: Seq<char>) -> Option<Kw> {
    if s.len() == 3 && s[0] == 'l' && s[1] == 'e' && s[2] == 't' {
        Some(Kw::Let)
    } else if s.len() == 5 && s[0] == 'c' && s[1] == 'o' && s[2] == 'n' && s[3] == 's' && s[4]
        == 't' {
        Some(Kw::Const)
    } else if s.len() == 3 && s[0] == 'v' && s[1] == 'a' && s[2] == 'r' {
        Some(Kw::Var)
    } else if s.len() == 8 && s[0] == 'f' && s[1] == 'u' && s[2] == 'n' && s[3] == 'c' && s[4]
        == 't' && s[5] == 'i' && s[6] == 'o' && s[7] == 'n' {
        Some(Kw::Function)
    } else if s.len() == 6 && s[0] == 'r' && s[1] == 'e' && s[2] == 't' && s[3] == 'u' && s[4]
        == 'r' && s[5] == 'n' {
        Some(Kw::Return)
    } else if s.len() == 2 && s[0] == 'i' && s[1] == 'f' {
        Some(Kw::If)
    } else if s.len() == 4 && s[0] == 'e' && s[1] == 'l' && s[2] == 's' && s[3] == 'e' {
        Some(Kw::Else)
    } else if s.len() == 5 && s[0] == 'w' && s[1] == 'h' && s[2] == 'i' && s[3] == 'l' && s[4]
        == 'e' {
        Some(Kw::While)
    } else if s.len() == 4 && s[0] == 't' && s[1] == 'r' && s[2] == 'u' && s[3] == 'e' {
        Some(Kw::True)
    } else if s.len() == 5 && s[0] == 'f' && s[1] == 'a' && s[2] == 'l' && s[3] == 's' && s[4]
        == 'e' {
        Some(Kw::False)
    } else if s.len() == 4 && s[0] == 'n' && s[1] == 'u' && s[2] == 'l' && s[3] == 'l' {
        Some(Kw::Null)
    } else if s.len() == 4 && s[0] == 'e' && s[1] == 'n' && s[2] == 'u' && s[3] == 'm' {
        Some(Kw::Enum)
    } else if s.len() == 9 && s[0] == 'i' && s[1] == 'n' && s[2] == 't' && s[3] == 'e' && s[4]
        == 'r' && s[5] == 'f' && s[6] == 'a' && s[7] == 'c' && s[8] == 'e' {
        Some(Kw::Interface)
    } else if s.len() == 4 && s[0] == 't' && s[1] == 'y' && s[2] == 'p' && s[3] == 'e' {
        Some(Kw::Type)
    } else if s.len() == 2 && s[0] == 'a' && s[1] == 's' {
        Some(Kw::As)
    } else {
        None
    }
}

/// Keyword lookup for the identifier text at `src[start..end]`.
fn kw_at(src: &Vec<char>, start: usize, end: usize) -> (r: Option<Kw>)
    requires
        start <= end <= src.len(),
    ensures
        r == kw_of(src@.subrange(start as int, end as int)),
{
    let n = end - start;
    let r = if n == 3 && src[start] == 'l' && src[start + 1] == 'e' && src[start + 2] == 't' {
        Some(Kw::Let)
    } else if n == 5 && src[start] == 'c' && src[start + 1] == 'o' && src[start + 2] == 'n'
        && src[start + 3] == 's' && src[start + 4] == 't' {
        Some(Kw::Const)
    } else if n == 3 && src[start] == 'v' && src[start + 1] == 'a' && src[start + 2] == 'r' {
        Some(Kw::Var)
    } else if n == 8 && src[start] == 'f' && src[start + 1] == 'u' && src[start + 2] == 'n'
        && src[start + 3] == 'c' && src[start + 4] == 't' && src[start + 5] == 'i' && src[start
        + 6] == 'o' && src[start + 7] == 'n' {
        Some(Kw::Function)
    } else if n == 6 && src[start] == 'r' && src[start + 1] == 'e' && src[start + 2] == 't'
        && src[start + 3] == 'u' && src[start + 4] == 'r' && src[start + 5] == 'n' {
        Some(Kw::Return)
    } else if n == 2 && src[start] == 'i' && src[start + 1] == 'f' {
        Some(Kw::If)
    } else if n == 4 && src[start] == 'e' && src[start + 1] == 'l' && src[start + 2] == 's'
        && src[start + 3] == 'e' {
        Some(Kw::Else)
    } else if n == 5 && src[start] == 'w' && src[start + 1] == 'h' && src[start + 2] == 'i'
        && src[start + 3] == 'l' && src[start + 4] == 'e' {
        Some(Kw::While)
    } else if n == 4 && src[start] == 't' && src[start + 1] == 'r' && src[start + 2] == 'u'
        && src[start + 3] == 'e' {
        Some(Kw::True)
    } else if n == 5 && src[start] == 'f' && src[start + 1] == 'a' && src[start + 2] == 'l'
        && src[start + 3] == 's' && src[start + 4] == 'e' {
        Some(Kw::False)
    } else if n == 4 && src[start] == 'n' && src[start + 1] == 'u' && src[start + 2] == 'l'
        && src[start + 3] == 'l' {
        Some(Kw::Null)
    } else if n == 4 && src[start] == 'e' && src[start + 1] == 'n' && src[start + 2] == 'u'
        && src[start + 3] == 'm' {
        Some(Kw::Enum)
    } else if n == 9 && src[start] == 'i' && src[start + 1] == 'n' && src[start + 2] == 't'
        && src[start + 3] == 'e' && src[start + 4] == 'r' && src[start + 5] == 'f' && src[start
        + 6] == 'a' && src[start + 7] == 'c' && src[start + 8] == 'e' {
        Some(Kw::Interface)
    } else if n == 4 && src[start] == 't' && src[start + 1] == 'y' && src[start + 2] == 'p'
        && src[start + 3] == 'e' {
        Some(Kw::Type)
    } else if n == 2 && src[start] == 'a' && src[start + 1] == 's' {
        Some(Kw::As)
    } else {
        None
    };
    proof {
        let sub = src@.subrange(start as int, end as int);
        assert(sub.len() == end - start);
        assert(forall|k: int| 0 <= k < sub.len() ==> sub[k] == src@[start + k]);
    }
    r
}

// ---------------------------------------------------------------------------
// Trivia: whitespace and comments, skipped before every token.
// ---------------------------------------------------------------------------

/// Position of the first character after the trivia starting at `i`,
/// or the error for a block comment left open.
pub open spec fn skip_trivia(s: Seq<char>, i: int) -> Result<int, LexError>
    decreases s.len() - i,
{
    if i < 0 || i >= s.len() {
        Ok(s.len() as int)
    } else if is_ws(s[i]) {
        skip_trivia(s, i + 1)
    } else if s[i] == '/' && i + 1 < s.len() && s[i + 1] == '/' {
        let e = line_end_at(s, i + 2);
        if i < e && e <= s.len() {
            skip_trivia(s, e)
        } else {
            Ok(i)
        }
    } else if s[i] == '/' && i + 1 < s.len() && s[i + 1] == '*' {
        match block_end_at(s, i + 2) {
            None => Err(
                LexError::UnterminatedComment(
                    Span { start: i as usize, end: s.len() as usize },
                ),
            ),
            Some(e) => if i < e && e <= s.len() {
                skip_trivia(s, e)
            } else {
                Ok(i)
            },
        }
    } else {
        Ok(i)
    }
}

/// The span of a token-level error lies inside the source.
pub open spec fn lex_err_ok(e: LexError, n: nat) -> bool {
    e.spec_span().start <= e.spec_span().end <= n
}

pub proof fn lemma_skip_trivia(s: Seq<char>, i: int)
    requires
        0 <= i <= s.len(),
        s.len() <= usize::MAX,
    ensures
        skip_trivia(s, i) matches Ok(j) ==> i <= j <= s.len(),
        skip_trivia(s, i) matches Err(e) ==> lex_err_ok(e, s.len()),
    decreases s.len() - i,
{
    if i < s.len() {
        if is_ws(s[i]) {
            lemma_skip_trivia(s, i + 1);
        } else if s[i] == '/' && i + 1 < s.len() && s[i + 1] == '/' {
            lemma_line_end_at(s, i + 2);
            let e = line_end_at(s, i + 2);
            if i < e {
                lemma_skip_trivia(s, e);
            }
        } else if s[i] == '/' && i + 1 < s.len() && s[i + 1] == '*' {
            lemma_block_end_at(s, i + 2);
            match block_end_at(s, i + 2) {
                Some(e) => {
                    if i < e {
                        lemma_skip_trivia(s, e);
                    }
                },
                None => {
                },
            }
        }
    }
}

fn skip_trivia_x(src: &Vec<char>, pos: usize) -> (r: Result<usize, LexError>)
    requires
        pos <= src.len(),
    ensures
        match r {
            Ok(j) => skip_trivia(src@, pos as int) == Ok::<int, LexError>(j as int) && pos <= j
                <= src.len(),
            Err(e) => skip_trivia(src@, pos as int) == Err::<int, LexError>(e),
        },
{
    let mut i: usize = pos;
    loop
        invariant
            pos <= i <= src.len(),
            skip_trivia(src@, pos as int) == skip_trivia(src@, i as int),
        decreases src.len() - i,
    {
        if i >= src.len() {
            return Ok(i);
        }
        let c = src[i];
        if ws(c) {
            i = i + 1;
        } else if c == '/' && i + 1 < src.len() && src[i + 1] == '/' {
            let e = line_end_x(src, i + 2);
            i = e;
        } else if c == '/' && i + 1 < src.len() && src[i + 1] == '*' {
            match block_end_x(src, i + 2) {
                None => {
                    return Err(
                        LexError::UnterminatedComment(Span { start: i, end: src.len() }),
                    );
                },
                Some(e) => {
                    i = e;
                },
            }
        } else {
            return Ok(i);
        }
    }
}

// ---------------------------------------------------------------------------
// String literals
// ---------------------------------------------------------------------------

/// Position just past the closing quote of the string literal that
/// opened at `start` with quote character `quote`, scanning from `i`.
pub open spec fn string_end(s: Seq<char>, start: int, i: int, quote: char) -> Result<
    int,
    LexError,
>
    decreases s.len() - i,
{
    if i < 0 || i >= s.len() {
        Err(LexError::UnterminatedString(Span { start: start as usize, end: s.len() as usize }))
    } else if s[i] == '\n' {
        Err(LexError::UnterminatedString(Span { start: start as usize, end: i as usize }))
    } else if s[i] == quote {
        Ok(i + 1)
    } else if s[i] == '\\' {
        if i + 1 >= s.len() {
            Err(
                LexError::UnterminatedString(
                    Span { start: start as usize, end: s.len() as usize },
                ),
            )
        } else if is_escape_char(s[i + 1]) {
            string_end(s, start, i + 2, quote)
        } else {
            Err(
                LexError::InvalidEscapeSequence(
                    Span { start: i as usize, end: (i + 2) as usize },
                ),
            )
        }
    } else {
        string_end(s, start, i + 1, quote)
    }
}

pub proof fn lemma_string_end(s: Seq<char>, start: int, i: int, quote: char)
    requires
        0 <= start <= i <= s.len(),
        s.len() <= usize::MAX,
    ensures
        string_end(s, start, i, quote) matches Ok(e) ==> i < e <= s.len(),
        string_end(s, start, i, quote) matches Err(e) ==> lex_err_ok(e, s.len()),
    decreases s.len() - i,
{
    if i < s.len() && s[i] != '\n' && s[i] != quote {
        if s[i] == '\\' {
            if i + 1 < s.len() && is_escape_char(s[i + 1]) {
                lemma_string_end(s, start, i + 2, quote);
            }
        } else {
            lemma_string_end(s, start, i + 1, quote);
        }
    }
}

fn string_end_x(src: &Vec<char>, start: usize, pos: usize, quote: char) -> (r: Result<
    usize,
    LexError,
>)
    requires
        pos <= src.len(),
    ensures
        match r {
            Ok(e) => string_end(src@, start as int, pos as int, quote) == Ok::<int, LexError>(
                e as int,
            ) && pos < e <= src.len(),
            Err(e) => string_end(src@, start as int, pos as int, quote) == Err::<int, LexError>(
                e,
            ),
        },
{
    let mut i: usize = pos;
    loop
        invariant
            pos <= i <= src.len(),
            string_end(src@, start as int, pos as int, quote) == string_end(
                src@,
                start as int,
                i as int,
                quote,
            ),
        decreases src.len() - i,
    {
        if i >= src.len() {
            return Err(LexError::UnterminatedString(Span { start, end: src.len() }));
        }
        let c = src[i];
        if c == '\n' {
            return Err(LexError::UnterminatedString(Span { start, end: i }));
        }
        if c == quote {
            return Ok(i + 1);
        }
        if c == '\\' {
            if i + 1 >= src.len() {
                return Err(LexError::UnterminatedString(Span { start, end: src.len() }));
            }
            if escape_char(src[i + 1]) {
                i = i + 2;
            } else {
                return Err(LexError::InvalidEscapeSequence(Span { start: i, end: i + 2 }));
            }
        } else {
            i = i + 1;
        }
    }
}

// ---------------------------------------------------------------------------
// Regular-expression literals
// ---------------------------------------------------------------------------

/// Position just past the closing `/` of the regex literal that opened
/// at `start`, scanning from `i`; `in_class` says whether the scan
/// stands inside a `[...]` character class, where `/` is literal.
pub open spec fn regex_end(s: Seq<char>, start: int, i: int, in_class: bool) -> Result<
    int,
    LexError,
>
    decreases s.len() - i,
{
    if i < 0 || i >= s.len() {
        Err(LexError::UnterminatedRegex(Span { start: start as usize, end: s.len() as usize }))
    } else if s[i] == '\n' {
        Err(LexError::UnterminatedRegex(Span { start: start as usize, end: i as usize }))
    } else if s[i] == '\\' {
        if i + 1 >= s.len() {
            Err(
                LexError::UnterminatedRegex(
                    Span { start: start as usize, end: s.len() as usize },
                ),
            )
        } else {
            regex_end(s, start, i + 2, in_class)
        }
    } else if s[i] == '[' {
        regex_end(s, start, i + 1, true)
    } else if s[i] == ']' {
        regex_end(s, start, i + 1, false)
    } else if s[i] == '/' && !in_class {
        Ok(i + 1)
    } else {
        regex_end(s, start, i + 1, in_class)
    }
}

pub proof fn lemma_regex_end(s: Seq<char>, start: int, i: int, in_class: bool)
    requires
        0 <= start <= i <= s.len(),
        s.len() <= usize::MAX,
    ensures
        regex_end(s, start, i, in_class) matches Ok(e) ==> i < e <= s.len(),
        regex_end(s, start, i, in_class) matches Err(e) ==> lex_err_ok(e, s.len()),
    decreases s.len() - i,
{
    if i < s.len() && s[i] != '\n' {
        if s[i] == '\\' {
            if i + 1 < s.len() {
                lemma_regex_end(s, start, i + 2, in_class);
            }
        } else if s[i] == '[' {
            lemma_regex_end(s, start, i + 1, true);
        } else if s[i] == ']' {
            lemma_regex_end(s, start, i + 1, false);
        } else if s[i] == '/' && !in_class {
        } else {
            lemma_regex_end(s, start, i + 1, in_class);
        }
    }
}

fn regex_end_x(src: &Vec<char>, start: usize, pos: usize) -> (r: Result<usize, LexError>)
    requires
        pos <= src.len(),
    ensures
        match r {
            Ok(e) => regex_end(src@, start as int, pos as int, false) == Ok::<int, LexError>(
                e as int,
            ) && pos < e <= src.len(),
            Err(e) => regex_end(src@, start as int, pos as int, false) == Err::<int, LexError>(
                e,
            ),
        },
{
    let mut i: usize = pos;
    let mut in_class: bool = false;
    loop
        invariant
            pos <= i <= src.len(),
            regex_end(src@, start as int, pos as int, false) == regex_end(
                src@,
                start as int,
                i as int,
                in_class,
            ),
        decreases src.len() - i,
    {
        if i >= src.len() {
            return Err(LexError::UnterminatedRegex(Span { start, end: src.len() }));
        }
        let c = src[i];
        if c == '\n' {
            return Err(LexError::UnterminatedRegex(Span { start, end: i }));
        }
        if c == '\\' {
            if i + 1 >= src.len() {
                return Err(LexError::UnterminatedRegex(Span { start, end: src.len() }));
            }
            i = i + 2;
        } else if c == '[' {
            in_class = true;
            i = i + 1;
        } else if c == ']' {
            in_class = false;
            i = i + 1;
        } else if c == '/' && !in_class {
            return Ok(i + 1);
        } else {
            i = i + 1;
        }
    }
}

// ---------------------------------------------------------------------------
// Numeric literals
// ---------------------------------------------------------------------------

/// Close a radix-prefixed literal (`0x`/`0b`/`0o` at `i`) whose digits
/// ended at `e`: at least one digit, and no identifier character may
/// follow.
pub open spec fn scan_radix_tail(s: Seq<char>, i: int, e: int) -> Result<(Token, int), LexError> {
    if e == i + 2 {
        Err(LexError::InvalidNumericLiteral(Span { start: i as usize, end: e as usize }))
    } else if e < s.len() && is_id_cont(s[e]) {
        Err(LexError::InvalidNumericLiteral(Span { start: i as usize, end: (e + 1) as usize }))
    } else {
        Ok(
            (
                Token { kind: TokenKind::Num, span: Span { start: i as usize, end: e as usize } },
                e,
            ),
        )
    }
}

/// Scan the numeric literal starting at `i` (where a decimal digit
/// stands): a hexadecimal, binary or octal literal after `0x`/`0b`/`0o`,
/// else decimal digits with an optional fraction and an optional signed
/// exponent. A literal running straight into an identifier character,
/// or an exponent without digits, is malformed.
pub open spec fn scan_number(s: Seq<char>, i: int) -> Result<(Token, int), LexError> {
    if 0 <= i && i + 1 < s.len() && s[i] == '0' && (s[i + 1] == 'x' || s[i + 1] == 'X') {
        scan_radix_tail(s, i, hex_end_at(s, i + 2))
    } else if 0 <= i && i + 1 < s.len() && s[i] == '0' && (s[i + 1] == 'b' || s[i + 1] == 'B') {
        scan_radix_tail(s, i, bin_end_at(s, i + 2))
    } else if 0 <= i && i + 1 < s.len() && s[i] == '0' && (s[i + 1] == 'o' || s[i + 1] == 'O') {
        scan_radix_tail(s, i, oct_end_at(s, i + 2))
    } else {
        let d = num_run_end(s, i);
        let f = if d + 1 < s.len() && s[d] == '.' && is_digit(s[d + 1]) {
            num_run_end(s, d + 1)
        } else {
            d
        };
        if f < s.len() && (s[f] == 'e' || s[f] == 'E') {
            let m = if f + 1 < s.len() && (s[f + 1] == '+' || s[f + 1] == '-') {
                f + 2
            } else {
                f + 1
            };
            let d2 = num_run_end(s, m);
            if d2 == m {
                Err(
                    LexError::InvalidNumericLiteral(
                        Span { start: i as usize, end: m as usize },
                    ),
                )
            } else if d2 < s.len() && is_id_start(s[d2]) {
                Err(
                    LexError::InvalidNumericLiteral(
                        Span { start: i as usize, end: (d2 + 1) as usize },
                    ),
                )
            } else {
                Ok(
                    (
                        Token {
                            kind: TokenKind::Num,
                            span: Span { start: i as usize, end: d2 as usize },
                        },
                        d2,
                    ),
                )
            }
        } else if f < s.len() && is_id_start(s[f]) {
            Err(
                LexError::InvalidNumericLiteral(
                    Span { start: i as usize, end: (f + 1) as usize },
                ),
            )
        } else {
            Ok(
                (
                    Token {
                        kind: TokenKind::Num,
                        span: Span { start: i as usize, end: f as usize },
                    },
                    f,
                ),
            )
        }
    }
}

pub proof fn lemma_scan_number(s: Seq<char>, i: int)
    requires
        0 <= i < s.len(),
        s.len() <= usize::MAX,
        is_digit(s[i]),
    ensures
        scan_number(s, i) matches Ok(p) ==> i < p.1 <= s.len() && p.0.span.start == i
            && p.0.span.end == p.1 && p.0.kind == TokenKind::Num,
        scan_number(s, i) matches Err(e) ==> lex_err_ok(e, s.len()),
{
    if 0 <= i && i + 1 < s.len() && s[i] == '0' && (s[i + 1] == 'x' || s[i + 1] == 'X') {
        lemma_hex_end_at(s, i + 2);
    } else if 0 <= i && i + 1 < s.len() && s[i] == '0' && (s[i + 1] == 'b' || s[i + 1] == 'B') {
        lemma_bin_end_at(s, i + 2);
    } else if 0 <= i && i + 1 < s.len() && s[i] == '0' && (s[i + 1] == 'o' || s[i + 1] == 'O') {
        lemma_oct_end_at(s, i + 2);
    } else {
        lemma_num_run_end(s, i);
        let d = num_run_end(s, i);
        if d + 1 < s.len() && s[d] == '.' && is_digit(s[d + 1]) {
            lemma_num_run_end(s, d + 1);
        }
        let f = if d + 1 < s.len() && s[d] == '.' && is_digit(s[d + 1]) {
            num_run_end(s, d + 1)
        } else {
            d
        };
        if f < s.len() && (s[f] == 'e' || s[f] == 'E') {
            let m = if f + 1 < s.len() && (s[f + 1] == '+' || s[f + 1] == '-') {
                f + 2
            } else {
                f + 1
            };
            lemma_num_run_end(s, m);
        }
    }
}

fn scan_number_x(src: &Vec<char>, pos: usize) -> (r: Result<(Token, usize), LexError>)
    requires
        pos < src.len(),
        is_digit(src@[pos as int]),
    ensures
        match r {
            Ok(p) => scan_number(src@, pos as int) == Ok::<(Token, int), LexError>(
                (p.0, p.1 as int),
            ) && pos < p.1 <= src.len(),
            Err(e) => scan_number(src@, pos as int) == Err::<(Token, int), LexError>(e),
        },
{
    proof {
        lemma_scan_number(src@, pos as int);
    }
    if pos + 1 < src.len() && src[pos] == '0' && (src[pos + 1] == 'x' || src[pos + 1] == 'X') {
        let e = hex_end_x(src, pos + 2);
        radix_tail_x(src, pos, e)
    } else if pos + 1 < src.len() && src[pos] == '0' && (src[pos + 1] == 'b' || src[pos + 1]
        == 'B') {
        let e = bin_end_x(src, pos + 2);
        radix_tail_x(src, pos, e)
    } else if pos + 1 < src.len() && src[pos] == '0' && (src[pos + 1] == 'o' || src[pos + 1]
        == 'O') {
        let e = oct_end_x(src, pos + 2);
        radix_tail_x(src, pos, e)
    } else {
        let d = num_run_end_x(src, pos);
        let f = if d < src.len() && src[d] == '.' && d + 1 < src.len() && digit(src[d + 1]) {
            num_run_end_x(src, d + 1)
        } else {
            d
        };
        if f < src.len() && (src[f] == 'e' || src[f] == 'E') {
            let m = if f + 1 < src.len() && (src[f + 1] == '+' || src[f + 1] == '-') {
                f + 2
            } else {
                f + 1
            };
            let d2 = num_run_end_x(src, m);
            if d2 == m {
                Err(LexError::InvalidNumericLiteral(Span { start: pos, end: m }))
            } else if d2 < src.len() && id_start(src[d2]) {
                Err(LexError::InvalidNumericLiteral(Span { start: pos, end: d2 + 1 }))
            } else {
                Ok((Token { kind: TokenKind::Num, span: Span { start: pos, end: d2 } }, d2))
            }
        } else if f < src.len() && id_start(src[f]) {
            Err(LexError::InvalidNumericLiteral(Span { start: pos, end: f + 1 }))
        } else {
            Ok((Token { kind: TokenKind::Num, span: Span { start: pos, end: f } }, f))
        }
    }
}

/// Close a radix-prefixed literal whose digits ended at `e`.
fn radix_tail_x(src: &Vec<char>, pos: usize, e: usize) -> (r: Result<(Token, usize), LexError>)
    requires
        pos + 2 <= e <= src.len(),
    ensures
        match r {
            Ok(p) => scan_radix_tail(src@, pos as int, e as int) == Ok::<(Token, int), LexError>(
                (p.0, p.1 as int),
            ) && pos < p.1 <= src.len(),
            Err(er) => scan_radix_tail(src@, pos as int, e as int) == Err::<
                (Token, int),
                LexError,
            >(er),
        },
{
    if e == pos + 2 {
        Err(LexError::InvalidNumericLiteral(Span { start: pos, end: e }))
    } else if e < src.len() && id_cont(src[e]) {
        Err(LexError::InvalidNumericLiteral(Span { start: pos, end: e + 1 }))
    } else {
        Ok((Token { kind: TokenKind::Num, span: Span { start: pos, end: e } }, e))
    }
}

// ---------------------------------------------------------------------------
// Punctuators, longest match first
// ---------------------------------------------------------------------------

pub open spec fn scan_punct(s: Seq<char>, i: int) -> Result<(Token, int), LexError> {
    if i < 0 || i >= s.len() {
        Err(LexError::UnexpectedCharacter(Span { start: 0, end: 0 }))
    } else {
        let c = s[i];
        let (p, e): (Option<Punct>, int) = if c == '=' {
            if i + 2 < s.len() && s[i + 1] == '=' && s[i + 2] == '=' {
                (Some(Punct::EqEqEq), i + 3)
            } else if i + 1 < s.len() && s[i + 1] == '=' {
                (Some(Punct::EqEq), i + 2)
            } else if i + 1 < s.len() && s[i + 1] == '>' {
                (Some(Punct::Arrow), i + 2)
            } else {
                (Some(Punct::Assign), i + 1)
            }
        } else if c == '!' {
            if i + 2 < s.len() && s[i + 1] == '=' && s[i + 2] == '=' {
                (Some(Punct::NotEqEq), i + 3)
            } else if i + 1 < s.len() && s[i + 1] == '=' {
                (Some(Punct::NotEq), i + 2)
            } else {
                (Some(Punct::Bang), i + 1)
            }
        } else if c == '<' {
            if i + 1 < s.len() && s[i + 1] == '=' {
                (Some(Punct::LtEq), i + 2)
            } else {
                (Some(Punct::Lt), i + 1)
            }
        } else if c == '>' {
            if i + 1 < s.len() && s[i + 1] == '=' {
                (Some(Punct::GtEq), i + 2)
            } else {
                (Some(Punct::Gt), i + 1)
            }
        } else if c == '&' {
            if i + 1 < s.len() && s[i + 1] == '&' {
                (Some(Punct::AndAnd), i + 2)
            } else {
                (Some(Punct::Amp), i + 1)
            }
        } else if c == '|' {
            if i + 1 < s.len() && s[i + 1] == '|' {
                (Some(Punct::OrOr), i + 2)
            } else {
                (Some(Punct::Pipe), i + 1)
            }
        } else if c == '?' {
            if i + 1 < s.len() && s[i + 1] == '?' {
                (Some(Punct::Coalesce), i + 2)
            } else {
                (Some(Punct::Question), i + 1)
            }
        } else if c == '*' {
            if i + 1 < s.len() && s[i + 1] == '*' {
                (Some(Punct::StarStar), i + 2)
            } else {
                (Some(Punct::Star), i + 1)
            }
        } else if c == '(' {
            (Some(Punct::LParen), i + 1)
        } else if c == ')' {
            (Some(Punct::RParen), i + 1)
        } else if c == '{' {
            (Some(Punct::LBrace), i + 1)
        } else if c == '}' {
            (Some(Punct::RBrace), i + 1)
        } else if c == '[' {
            (Some(Punct::LBracket), i + 1)
        } else if c == ']' {
            (Some(Punct::RBracket), i + 1)
        } else if c == ';' {
            (Some(Punct::Semi), i + 1)
        } else if c == ',' {
            (Some(Punct::Comma), i + 1)
        } else if c == '.' {
            (Some(Punct::Dot), i + 1)
        } else if c == ':' {
            (Some(Punct::Colon), i + 1)
        } else if c == '+' {
            (Some(Punct::Plus), i + 1)
        } else if c == '-' {
            (Some(Punct::Minus), i + 1)
        } else if c == '%' {
            (Some(Punct::Percent), i + 1)
        } else if c == '/' {
            (Some(Punct::Slash), i + 1)
        } else {
            (None, i + 1)
        };
        match p {
            Some(q) => Ok(
                (
                    Token {
                        kind: TokenKind::Punct(q),
                        span: Span { start: i as usize, end: e as usize },
                    },
                    e,
                ),
            ),
            None => Err(
                LexError::UnexpectedCharacter(
                    Span { start: i as usize, end: (i + 1) as usize },
                ),
            ),
        }
    }
}

fn scan_punct_x(src: &Vec<char>, pos: usize) -> (r: Result<(Token, usize), LexError>)
    requires
        pos < src.len(),
    ensures
        match r {
            Ok(p) => scan_punct(src@, pos as int) == Ok::<(Token, int), LexError>(
                (p.0, p.1 as int),
            ) && pos < p.1 <= src.len(),
            Err(e) => scan_punct(src@, pos as int) == Err::<(Token, int), LexError>(e),
        },
{
    let c = src[pos];
    let n = src.len();
    let (p, e): (Option<Punct>, usize) = if c == '=' {
        if pos + 1 < n && pos + 2 < n && src[pos + 1] == '=' && src[pos + 2] == '=' {
            (Some(Punct::EqEqEq), pos + 3)
        } else if pos + 1 < n && src[pos + 1] == '=' {
            (Some(Punct::EqEq), pos + 2)
        } else if pos + 1 < n && src[pos + 1] == '>' {
            (Some(Punct::Arrow), pos + 2)
        } else {
            (Some(Punct::Assign), pos + 1)
        }
    } else if c == '!' {
        if pos + 1 < n && pos + 2 < n && src[pos + 1] == '=' && src[pos + 2] == '=' {
            (Some(Punct::NotEqEq), pos + 3)
        } else if pos + 1 < n && src[pos + 1] == '=' {
            (Some(Punct::NotEq), pos + 2)
        } else {
            (Some(Punct::Bang), pos + 1)
        }
    } else if c == '<' {
        if pos + 1 < n && src[pos + 1] == '=' {
            (Some(Punct::LtEq), pos + 2)
        } else {
            (Some(Punct::Lt), pos + 1)
        }
    } else if c == '>' {
        if pos + 1 < n && src[pos + 1] == '=' {
            (Some(Punct::GtEq), pos + 2)
        } else {
            (Some(Punct::Gt), pos + 1)
        }
    } else if c == '&' {
        if pos + 1 < n && src[pos + 1] == '&' {
            (Some(Punct::AndAnd), pos + 2)
        } else {
            (Some(Punct::Amp), pos + 1)
        }
    } else if c == '|' {
        if pos + 1 < n && src[pos + 1] == '|' {
            (Some(Punct::OrOr), pos + 2)
        } else {
            (Some(Punct::Pipe), pos + 1)
        }
    } else if c == '?' {
        if pos + 1 < n && src[pos + 1] == '?' {
            (Some(Punct::Coalesce), pos + 2)
        } else {
            (Some(Punct::Question), pos + 1)
        }
    } else if c == '*' {
        if pos + 1 < n && src[pos + 1] == '*' {
            (Some(Punct::StarStar), pos + 2)
        } else {
            (Some(Punct::Star), pos + 1)
        }
    } else if c == '(' {
        (Some(Punct::LParen), pos + 1)
    } else if c == ')' {
        (Some(Punct::RParen), pos + 1)
    } else if c == '{' {
        (Some(Punct::LBrace), pos + 1)
    } else if c == '}' {
        (Some(Punct::RBrace), pos + 1)
    } else if c == '[' {
        (Some(Punct::LBracket), pos + 1)
    } else if c == ']' {
        (Some(Punct::RBracket), pos + 1)
    } else if c == ';' {
        (Some(Punct::Semi), pos + 1)
    } else if c == ',' {
        (Some(Punct::Comma), pos + 1)
    } else if c == '.' {
        (Some(Punct::Dot), pos + 1)
    } else if c == ':' {
        (Some(Punct::Colon), pos + 1)
    } else if c == '+' {
        (Some(Punct::Plus), pos + 1)
    } else if c == '-' {
        (Some(Punct::Minus), pos + 1)
    } else if c == '%' {
        (Some(Punct::Percent), pos + 1)
    } else if c == '/' {
        (Some(Punct::Slash), pos + 1)
    } else {
        (None, pos + 1)
    };
    match p {
        Some(q) => Ok((Token { kind: TokenKind::Punct(q), span: Span { start: pos, end: e } }, e)),
        None => Err(LexError::UnexpectedCharacter(Span { start: pos, end: pos + 1 })),
    }
}

// ---------------------------------------------------------------------------
// One token
// ---------------------------------------------------------------------------

/// Scan the single token starting at the non-trivia position `i`.
/// `regex_ok` says whether a `/` here opens a regex literal (operand
/// position) or is the division operator.
pub open spec fn scan_token(s: Seq<char>, i: int, regex_ok: bool) -> Result<
    (Token, int),
    LexError,
> {
    if i < 0 || i >= s.len() {
        Err(LexError::UnexpectedCharacter(Span { start: 0, end: 0 }))
    } else {
        let c = s[i];
        if is_id_start(c) {
            let e = ident_end_at(s, i);
            let kind = match kw_of(s.subrange(i, e)) {
                Some(k) => TokenKind::Keyword(k),
                None => TokenKind::Ident,
            };
            Ok((Token { kind, span: Span { start: i as usize, end: e as usize } }, e))
        } else if is_digit(c) {
            scan_number(s, i)
        } else if c == '"' || c == '\'' {
            match string_end(s, i, i + 1, c) {
                Err(err) => Err(err),
                Ok(e) => Ok(
                    (
                        Token {
                            kind: TokenKind::StrLit,
                            span: Span { start: i as usize, end: e as usize },
                        },
                        e,
                    ),
                ),
            }
        } else if c == '/' && regex_ok {
            match regex_end(s, i, i + 1, false) {
                Err(err) => Err(err),
                Ok(e) => {
                    let f = ident_end_at(s, e);
                    Ok(
                        (
                            Token {
                                kind: TokenKind::Regex,
                                span: Span { start: i as usize, end: f as usize },
                            },
                            f,
                        ),
                    )
                },
            }
        } else {
            scan_punct(s, i)
        }
    }
}

pub proof fn lemma_scan_token(s: Seq<char>, i: int, regex_ok: bool)
    requires
        0 <= i < s.len(),
        s.len() <= usize::MAX,
    ensures
        scan_token(s, i, regex_ok) matches Ok(p) ==> i < p.1 <= s.len() && p.0.span.start == i
            && p.0.span.end == p.1 && p.0.kind != TokenKind::Eof,
        scan_token(s, i, regex_ok) matches Err(e) ==> lex_err_ok(e, s.len()),
{
    let c = s[i];
    if is_id_start(c) {
        lemma_ident_end_at(s, i);
    } else if is_digit(c) {
        lemma_scan_number(s, i);
    } else if c == '"' || c == '\'' {
        lemma_string_end(s, i, i + 1, c);
    } else if c == '/' && regex_ok {
        lemma_regex_end(s, i, i + 1, false);
        match regex_end(s, i, i + 1, false) {
            Ok(e) => {
                lemma_ident_end_at(s, e);
            },
            Err(_) => {
            },
        }
    }
}

fn scan_token_x(src: &Vec<char>, pos: usize, regex_ok: bool) -> (r: Result<
    (Token, usize),
    LexError,
>)
    requires
        pos < src.len(),
    ensures
        match r {
            Ok(p) => scan_token(src@, pos as int, regex_ok) == Ok::<(Token, int), LexError>(
                (p.0, p.1 as int),
            ) && pos < p.1 <= src.len() && p.0.span.start == pos && p.0.span.end == p.1
                && p.0.kind != TokenKind::Eof,
            Err(e) => scan_token(src@, pos as int, regex_ok) == Err::<(Token, int), LexError>(e),
        },
{
    proof {
        lemma_scan_token(src@, pos as int, regex_ok);
    }
    let c = src[pos];
    if id_start(c) {
        let e = ident_end_x(src, pos);
        let kind = match kw_at(src, pos, e) {
            Some(k) => TokenKind::Keyword(k),
            None => TokenKind::Ident,
        };
        Ok((Token { kind, span: Span { start: pos, end: e } }, e))
    } else if digit(c) {
        scan_number_x(src, pos)
    } else if c == '"' || c == '\'' {
        match string_end_x(src, pos, pos + 1, c) {
            Err(err) => Err(err),
            Ok(e) => Ok((Token { kind: TokenKind::StrLit, span: Span { start: pos, end: e } }, e)),
        }
    } else if c == '/' && regex_ok {
        match regex_end_x(src, pos, pos + 1) {
            Err(err) => Err(err),
            Ok(e) => {
                let f = ident_end_x(src, e);
                Ok((Token { kind: TokenKind::Regex, span: Span { start: pos, end: f } }, f))
            },
        }
    } else {
        scan_punct_x(src, pos)
    }
}

// ---------------------------------------------------------------------------
// The token stream
// ---------------------------------------------------------------------------

/// After which tokens a following `/` is the division operator rather
/// than the start of a regex literal: after anything that can end an
/// operand.
pub open spec fn spec_regex_allowed_after(t: Token) -> bool {
    match t.kind {
        TokenKind::Ident => false,
        TokenKind::Num => false,
        TokenKind::StrLit => false,
        TokenKind::Regex => false,
        TokenKind::Keyword(k) => !(k == Kw::True || k == Kw::False || k == Kw::Null),
        TokenKind::Punct(p) => !(p == Punct::RParen || p == Punct::RBracket),
        TokenKind::Eof => true,
    }
}

#[verifier::when_used_as_spec(spec_regex_allowed_after)]
pub fn regex_allowed_after(t: Token) -> (b: bool)
    ensures
        b == spec_regex_allowed_after(t),
{
    match t.kind {
        TokenKind::Ident => false,
        TokenKind::Num => false,
        TokenKind::StrLit => false,
        TokenKind::Regex => false,
        TokenKind::Keyword(k) => !(k == Kw::True || k == Kw::False || k == Kw::Null),
        TokenKind::Punct(p) => !(p == Punct::RParen || p == Punct::RBracket),
        TokenKind::Eof => true,
    }
}

/// The token stream of `s` from position `i` on: trivia is skipped,
/// one token is scanned, and the rest follows; the stream always ends
/// with a single end-of-input token.
pub open spec fn lex_from(s: Seq<char>, i: int, regex_ok: bool) -> Result<Seq<Token>, LexError>
    decreases s.len() - i + 1,
{
    match skip_trivia(s, i) {
        Err(e) => Err(e),
        Ok(j) => if j >= s.len() {
            Ok(
                seq![
                    Token {
                        kind: TokenKind::Eof,
                        span: Span { start: s.len() as usize, end: s.len() as usize },
                    },
                ],
            )
        } else {
            match scan_token(s, j, regex_ok) {
                Err(e) => Err(e),
                Ok((t, np)) => if i <= j && j < np && np <= s.len() {
                    match lex_from(s, np, spec_regex_allowed_after(t)) {
                        Err(e) => Err(e),
                        Ok(rest) => Ok(seq![t] + rest),
                    }
                } else {
                    Err(LexError::UnexpectedCharacter(Span { start: 0, end: 0 }))
                },
            }
        },
    }
}

/// What the lexer guarantees of a token stream over a source of `n`
/// characters: non-empty, closed by exactly one end-of-input token,
/// every span ordered and in bounds, and consecutive tokens in source
/// order without overlap.
/// Token `k` ends no later than token `k + 1` begins.
pub open spec fn toks_adjacent(toks: Seq<Token>, k: int) -> bool {
    toks[k].span.end <= toks[k + 1].span.start
}

pub open spec fn tokens_wf(n: nat, toks: Seq<Token>) -> bool {
    &&& toks.len() >= 1
    &&& toks[toks.len() - 1].kind == TokenKind::Eof
    &&& toks[toks.len() - 1].span.start == n
    &&& toks[toks.len() - 1].span.end == n
    &&& (forall|k: int| 0 <= k < toks.len() ==> (#[trigger] toks[k]).wf(n))
    &&& (forall|k: int| 0 <= k < toks.len() - 1 ==> (#[trigger] toks[k]).kind != TokenKind::Eof)
    &&& (forall|k: int| 0 <= k < toks.len() - 1 ==> #[trigger] toks_adjacent(toks, k))
}

/// Putting one more token, ending before the rest begins, in front of a
/// well-formed stream keeps it well-formed.
pub proof fn lemma_tokens_wf_cons(n: nat, t: Token, rest: Seq<Token>)
    requires
        tokens_wf(n, rest),
        t.wf(n),
        t.kind != TokenKind::Eof,
        t.span.end <= rest[0].span.start,
    ensures
        tokens_wf(n, seq![t] + rest),
{
    let toks = seq![t] + rest;
    assert(toks.len() == 1 + rest.len());
    assert(toks[0] == t);
    assert(toks[toks.len() - 1] == rest[rest.len() - 1]);
    assert forall|k: int| 0 <= k < toks.len() implies (#[trigger] toks[k]).wf(n) by {
        if k >= 1 {
            assert(toks[k] == rest[k - 1]);
            assert(rest[k - 1].wf(n));
        }
    }
    assert forall|k: int| 0 <= k < toks.len() - 1 implies (#[trigger] toks[k]).kind
        != TokenKind::Eof by {
        if k >= 1 {
            assert(toks[k] == rest[k - 1]);
            assert(rest[k - 1].kind != TokenKind::Eof);
        }
    }
    assert forall|k: int| 0 <= k < toks.len() - 1 implies #[trigger] toks_adjacent(toks, k) by {
        if k == 0 {
            assert(toks[0] == t);
            assert(toks[1] == rest[0]);
        } else {
            assert(toks[k] == rest[k - 1]);
            assert(toks[k + 1] == rest[k]);
            assert(toks_adjacent(rest, k - 1));
            assert(rest[k - 1].span.end <= rest[k].span.start);
        }
    }
}

#[verifier::rlimit(100)]
pub proof fn lemma_lex_from_wf(s: Seq<char>, i: int, regex_ok: bool)
    requires
        0 <= i <= s.len(),
        s.len() <= usize::MAX,
    ensures
        lex_from(s, i, regex_ok) matches Ok(toks) ==> tokens_wf(s.len(), toks) && toks.len() >= 1
            && i <= toks[0].span.start,
        lex_from(s, i, regex_ok) matches Err(e) ==> lex_err_ok(e, s.len()),
    decreases s.len() - i + 1,
{
    lemma_skip_trivia(s, i);
    match skip_trivia(s, i) {
        Err(_) => {
        },
        Ok(j) => {
            if j < s.len() {
                lemma_scan_token(s, j, regex_ok);
                match scan_token(s, j, regex_ok) {
                    Err(_) => {
                    },
                    Ok((t, np)) => {
                        lemma_lex_from_wf(s, np, spec_regex_allowed_after(t));
                        match lex_from(s, np, spec_regex_allowed_after(t)) {
                            Err(_) => {
                            },
                            Ok(rest) => {
                                lemma_tokens_wf_cons(s.len(), t, rest);
                            },
                        }
                    },
                }
            }
        },
    }
}

/// Tokenize a whole character sequence. Every contract downstream of
/// the lexer speaks in terms of this function.
pub open spec fn spec_tokens(s: Seq<char>) -> Result<Seq<Token>, LexError> {
    lex_from(s, 0, true)
}

/// Turn source characters into the token stream, or the first
/// token-level error. The result is exactly `spec_tokens`.
pub fn lex_chars(src: &Vec<char>) -> (r: Result<Vec<Token>, LexError>)
    ensures
        match r {
            Ok(toks) => spec_tokens(src@) == Ok::<Seq<Token>, LexError>(toks@) && tokens_wf(
                src@.len(),
                toks@,
            ),
            Err(e) => spec_tokens(src@) == Err::<Seq<Token>, LexError>(e) && lex_err_ok(
                e,
                src@.len(),
            ),
        },
{
    let mut out: Vec<Token> = Vec::new();
    let mut i: usize = 0;
    let mut regex_ok: bool = true;
    let n = src.len();
    proof {
        assert(out@ =~= Seq::<Token>::empty());
        assert(n == src@.len());
    }
    loop
        invariant
            src@.len() <= usize::MAX,
            i <= src.len(),
            forall|rest: Seq<Token>|
                lex_from(src@, i as int, regex_ok) == Ok::<Seq<Token>, LexError>(rest)
                    ==> lex_from(src@, 0, true) == Ok::<Seq<Token>, LexError>(out@ + rest),
            forall|e: LexError|
                lex_from(src@, i as int, regex_ok) == Err::<Seq<Token>, LexError>(e) ==> lex_from(
                    src@,
                    0,
                    true,
                ) == Err::<Seq<Token>, LexError>(e),
        decreases src.len() - i,
    {
        let ghost i0 = i as int;
        let ghost rok0 = regex_ok;
        match skip_trivia_x(src, i) {
            Err(e) => {
                proof {
                    lemma_lex_from_wf(src@, 0, true);
                }
                return Err(e);
            },
            Ok(j) => {
                if j >= src.len() {
                    let t = Token {
                        kind: TokenKind::Eof,
                        span: Span { start: src.len(), end: src.len() },
                    };
                    let ghost out0 = out@;
                    out.push(t);
                    proof {
                        assert(lex_from(src@, i0, rok0) == Ok::<Seq<Token>, LexError>(seq![t]));
                        assert(out@ =~= out0 + seq![t]);
                        lemma_lex_from_wf(src@, 0, true);
                    }
                    return Ok(out);
                } else {
                    match scan_token_x(src, j, regex_ok) {
                        Err(e) => {
                            proof {
                                lemma_lex_from_wf(src@, 0, true);
                            }
                            return Err(e);
                        },
                        Ok((t, np)) => {
                            proof {
                                assert(lex_from(src@, i0, rok0) == (
                                match lex_from(src@, np as int, spec_regex_allowed_after(t)) {
                                    Err(e) => Err::<Seq<Token>, LexError>(e),
                                    Ok(rest) => Ok::<Seq<Token>, LexError>(seq![t] + rest),
                                }));
                            }
                            let ghost out0 = out@;
                            out.push(t);
                            proof {
                                assert(forall|rest: Seq<Token>|
                                    out0 + (seq![t] + rest) =~= out@ + rest);
                            }
                            regex_ok = regex_allowed_after(t);
                            i = np;
                        },
                    }
                }
            },
        }
    }
}

} // verus!
