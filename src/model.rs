//! The mathematical model of a scan: one step at a time, from a position
//! and a line, over the source as a sequence of characters.
use crate::token::{
    LiteralModel, ScanErrorKind, ScanErrorModel, TokenModel, TokenType,
};
use vstd::prelude::*;

verus! {

// ---------------------------------------------------------------------------
// Character classes
// ---------------------------------------------------------------------------

pub open spec fn is_digit(c: char) -> bool {
    '0' <= c && c <= '9'
}

pub open spec fn is_alpha(c: char) -> bool {
    ('a' <= c && c <= 'z') || ('A' <= c && c <= 'Z') || c == '_'
}

pub open spec fn is_alpha_numeric(c: char) -> bool {
    is_alpha(c) || is_digit(c)
}

// ---------------------------------------------------------------------------
// The model of a scan
// ---------------------------------------------------------------------------

/// The first position at or after `i` that does not hold a digit.
pub open spec fn digits_end(s: Seq<char>, i: int) -> int
    decreases s.len() - i,
{
    if 0 <= i < s.len() && is_digit(s[i]) {
        digits_end(s, i + 1)
    } else {
        i
    }
}

/// The first position at or after `i` that does not hold a letter, digit or `_`.
pub open spec fn word_end(s: Seq<char>, i: int) -> int
    decreases s.len() - i,
{
    if 0 <= i < s.len() && is_alpha_numeric(s[i]) {
        word_end(s, i + 1)
    } else {
        i
    }
}

/// The first position at or after `i` that holds `c`, or the length of `s`.
pub open spec fn find_char(s: Seq<char>, i: int, c: char) -> int
    decreases s.len() - i,
{
    if 0 <= i < s.len() && s[i] != c {
        find_char(s, i + 1, c)
    } else {
        i
    }
}

/// The number of newlines in `s[i..j]`.
pub open spec fn newlines(s: Seq<char>, i: int, j: int) -> int
    decreases j - i,
{
    if j <= i {
        0
    } else {
        newlines(s, i, j - 1) + if s[j - 1] == '\n' {
            1int
        } else {
            0int
        }
    }
}

/// Where a number that starts at `start` ends: a run of digits, then a `.` and
/// a further run of digits only where a digit follows the `.`.
pub open spec fn number_end(s: Seq<char>, start: int) -> int {
    let e = digits_end(s, start + 1);
    if e + 1 < s.len() && s[e] == '.' && is_digit(s[e + 1]) {
        digits_end(s, e + 1)
    } else {
        e
    }
}

/// The reserved word that `w` spells, if any.
pub open spec fn keyword(w: Seq<char>) -> Option<TokenType> {
    if w == seq!['a', 'n', 'd'] {
        Some(TokenType::And)
    } else if w == seq!['c', 'l', 'a', 's', 's'] {
        Some(TokenType::Class)
    } else if w == seq!['e', 'l', 's', 'e'] {
        Some(TokenType::Else)
    } else if w == seq!['f', 'a', 'l', 's', 'e'] {
        Some(TokenType::False)
    } else if w == seq!['f', 'o', 'r'] {
        Some(TokenType::For)
    } else if w == seq!['f', 'u', 'n'] {
        Some(TokenType::Fun)
    } else if w == seq!['i', 'f'] {
        Some(TokenType::If)
    } else if w == seq!['n', 'i', 'l'] {
        Some(TokenType::Nil)
    } else if w == seq!['o', 'r'] {
        Some(TokenType::Or)
    } else if w == seq!['p', 'r', 'i', 'n', 't'] {
        Some(TokenType::Print)
    } else if w == seq!['r', 'e', 't', 'u', 'r', 'n'] {
        Some(TokenType::Return)
    } else if w == seq!['s', 'u', 'p', 'e', 'r'] {
        Some(TokenType::Super)
    } else if w == seq!['t', 'h', 'i', 's'] {
        Some(TokenType::This)
    } else if w == seq!['t', 'r', 'u', 'e'] {
        Some(TokenType::True)
    } else if w == seq!['v', 'a', 'r'] {
        Some(TokenType::Var)
    } else if w == seq!['w', 'h', 'i', 'l', 'e'] {
        Some(TokenType::While)
    } else {
        None
    }
}

/// What one step of the scan does: where it resumes, on which line, and the
/// token or error that it produces, if any.
pub struct Step {
    pub next: int,
    pub line: int,
    pub token: Option<TokenModel>,
    pub error: Option<ScanErrorModel>,
}

/// A step that consumes `s[start..end]` and produces a token of kind `k` without a value.
pub open spec fn emit(s: Seq<char>, start: int, end: int, line: int, k: TokenType) -> Step {
    Step {
        next: end,
        line,
        token: Some(
            TokenModel { kind: k, lexeme: s.subrange(start, end), line, literal: LiteralModel::Nil },
        ),
        error: None,
    }
}

/// A step that consumes up to `end` and produces nothing.
pub open spec fn skip(end: int, line: int) -> Step {
    Step { next: end, line, token: None, error: None }
}

/// A one- or two-character operator: the second form when `=` follows.
pub open spec fn emit_with_equal(
    s: Seq<char>,
    start: int,
    line: int,
    one: TokenType,
    two: TokenType,
) -> Step {
    if start + 1 < s.len() && s[start + 1] == '=' {
        emit(s, start, start + 2, line, two)
    } else {
        emit(s, start, start + 1, line, one)
    }
}

/// The step of a string literal whose opening quote is at `start`.
pub open spec fn string_step(s: Seq<char>, start: int, line: int) -> Step {
    let q = find_char(s, start + 1, '"');
    let l = line + newlines(s, start + 1, q);
    if q >= s.len() {
        Step {
            next: q,
            line: l,
            token: None,
            error: Some(ScanErrorModel { kind: ScanErrorKind::UnterminatedString, line }),
        }
    } else {
        Step {
            next: q + 1,
            line: l,
            token: Some(
                TokenModel {
                    kind: TokenType::Strings,
                    lexeme: s.subrange(start, q + 1),
                    line: l,
                    literal: LiteralModel::Str(s.subrange(start + 1, q)),
                },
            ),
            error: None,
        }
    }
}

/// The step of a number whose first digit is at `start`.
pub open spec fn number_step(s: Seq<char>, start: int, line: int) -> Step {
    let e = number_end(s, start);
    Step {
        next: e,
        line,
        token: Some(
            TokenModel {
                kind: TokenType::Number,
                lexeme: s.subrange(start, e),
                line,
                literal: LiteralModel::Num(s.subrange(start, e)),
            },
        ),
        error: None,
    }
}

/// The step of an identifier or keyword whose first letter is at `start`.
pub open spec fn word_step(s: Seq<char>, start: int, line: int) -> Step {
    let e = word_end(s, start + 1);
    let k = match keyword(s.subrange(start, e)) {
        Some(k) => k,
        None => TokenType::Identifier,
    };
    emit(s, start, e, line, k)
}

/// One step of the scan, from the character at `start`.
pub open spec fn step(s: Seq<char>, start: int, line: int) -> Step {
    let c = s[start];
    if c == '(' {
        emit(s, start, start + 1, line, TokenType::LeftParen)
    } else if c == ')' {
        emit(s, start, start + 1, line, TokenType::RightParen)
    } else if c == '{' {
        emit(s, start, start + 1, line, TokenType::LeftBrace)
    } else if c == '}' {
        emit(s, start, start + 1, line, TokenType::RightBrace)
    } else if c == ',' {
        emit(s, start, start + 1, line, TokenType::Comma)
    } else if c == '.' {
        emit(s, start, start + 1, line, TokenType::Dot)
    } else if c == '-' {
        emit(s, start, start + 1, line, TokenType::Minus)
    } else if c == '+' {
        emit(s, start, start + 1, line, TokenType::Plus)
    } else if c == ';' {
        emit(s, start, start + 1, line, TokenType::Semicolon)
    } else if c == '*' {
        emit(s, start, start + 1, line, TokenType::Star)
    } else if c == '!' {
        emit_with_equal(s, start, line, TokenType::Bang, TokenType::BangEqual)
    } else if c == '=' {
        emit_with_equal(s, start, line, TokenType::Equal, TokenType::EqualEqual)
    } else if c == '<' {
        emit_with_equal(s, start, line, TokenType::Less, TokenType::LessEqual)
    } else if c == '>' {
        emit_with_equal(s, start, line, TokenType::Greater, TokenType::GreaterEqual)
    } else if c == '/' {
        if start + 1 < s.len() && s[start + 1] == '/' {
            skip(find_char(s, start + 2, '\n'), line)
        } else {
            emit(s, start, start + 1, line, TokenType::Slash)
        }
    } else if c == ' ' || c == '\r' || c == '\t' {
        skip(start + 1, line)
    } else if c == '\n' {
        skip(start + 1, line + 1)
    } else if c == '"' {
        string_step(s, start, line)
    } else if is_digit(c) {
        number_step(s, start, line)
    } else if is_alpha(c) {
        word_step(s, start, line)
    } else {
        Step {
            next: start + 1,
            line,
            token: None,
            error: Some(ScanErrorModel { kind: ScanErrorKind::UnexpectedCharacter, line }),
        }
    }
}

/// The one-element sequence of `o`'s value, or the empty sequence.
pub open spec fn opt_seq<A>(o: Option<A>) -> Seq<A> {
    match o {
        Some(a) => seq![a],
        None => Seq::empty(),
    }
}

/// The end-of-input token, on line `line`.
pub open spec fn eof_token(line: int) -> TokenModel {
    TokenModel { kind: TokenType::Eof, lexeme: Seq::empty(), line, literal: LiteralModel::Nil }
}

/// The tokens and errors of a scan of `s` from position `pos` on line `line`.
pub open spec fn scan_from(s: Seq<char>, pos: int, line: int) -> (Seq<TokenModel>, Seq<ScanErrorModel>)
    decreases s.len() - pos,
{
    if pos < 0 || pos >= s.len() {
        (seq![eof_token(line)], Seq::empty())
    } else {
        let st = step(s, pos, line);
        if st.next <= pos || st.next > s.len() {
            (seq![eof_token(line)], Seq::empty())
        } else {
            let rest = scan_from(s, st.next, st.line);
            (opt_seq(st.token) + rest.0, opt_seq(st.error) + rest.1)
        }
    }
}

/// The tokens of a scan of the whole of `s`.
pub open spec fn scan_tokens_of(s: Seq<char>) -> Seq<TokenModel> {
    scan_from(s, 0, 1).0
}

/// The lexical errors of a scan of the whole of `s`, in source order.
pub open spec fn scan_errors_of(s: Seq<char>) -> Seq<ScanErrorModel> {
    scan_from(s, 0, 1).1
}


// ---------------------------------------------------------------------------
// Lemmas on the model
// ---------------------------------------------------------------------------

pub proof fn lemma_digits_end(s: Seq<char>, i: int)
    requires
        0 <= i <= s.len(),
    ensures
        i <= digits_end(s, i) <= s.len(),
        forall|k: int| i <= k < digits_end(s, i) ==> is_digit(#[trigger] s[k]),
        digits_end(s, i) < s.len() ==> !is_digit(s[digits_end(s, i)]),
    decreases s.len() - i,
{
    if i < s.len() && is_digit(s[i]) {
        lemma_digits_end(s, i + 1);
    }
}

pub proof fn lemma_word_end(s: Seq<char>, i: int)
    requires
        0 <= i <= s.len(),
    ensures
        i <= word_end(s, i) <= s.len(),
        forall|k: int| i <= k < word_end(s, i) ==> is_alpha_numeric(#[trigger] s[k]),
        word_end(s, i) < s.len() ==> !is_alpha_numeric(s[word_end(s, i)]),
    decreases s.len() - i,
{
    if i < s.len() && is_alpha_numeric(s[i]) {
        lemma_word_end(s, i + 1);
    }
}

pub proof fn lemma_find_char(s: Seq<char>, i: int, c: char)
    requires
        0 <= i <= s.len(),
    ensures
        i <= find_char(s, i, c) <= s.len(),
        forall|k: int| i <= k < find_char(s, i, c) ==> #[trigger] s[k] != c,
        find_char(s, i, c) < s.len() ==> s[find_char(s, i, c)] == c,
    decreases s.len() - i,
{
    if i < s.len() && s[i] != c {
        lemma_find_char(s, i + 1, c);
    }
}

proof fn lemma_newlines_bound(s: Seq<char>, i: int, j: int)
    requires
        i <= j,
    ensures
        0 <= newlines(s, i, j) <= j - i,
    decreases j - i,
{
    if j > i {
        lemma_newlines_bound(s, i, j - 1);
    }
}

/// Each step moves forward, stays within the source, and never moves the line back.
pub proof fn lemma_step_advances(s: Seq<char>, start: int, line: int)
    requires
        0 <= start < s.len(),
    ensures
        start < step(s, start, line).next <= s.len(),
        line <= step(s, start, line).line <= line + (step(s, start, line).next - start),
{
    let st = step(s, start, line);
    let c = s[start];
    if c == '/' && start + 1 < s.len() && s[start + 1] == '/' {
        lemma_find_char(s, start + 2, '\n');
    } else if c == '"' {
        let q = find_char(s, start + 1, '"');
        lemma_find_char(s, start + 1, '"');
        lemma_newlines_bound(s, start + 1, q);
    } else if is_digit(c) {
        lemma_digits_end(s, start + 1);
        let e = digits_end(s, start + 1);
        if e + 1 < s.len() && s[e] == '.' && is_digit(s[e + 1]) {
            lemma_digits_end(s, e + 1);
        }
    } else if is_alpha(c) {
        lemma_word_end(s, start + 1);
    }
}

} // verus!
