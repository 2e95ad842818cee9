//! What holds of every scan.
use crate::model::{
    eof_token, find_char, is_alpha, is_alpha_numeric, keyword, lemma_find_char,
    lemma_step_advances, lemma_word_end, newlines, scan_errors_of, scan_from, scan_tokens_of,
    step, word_end,
};
use crate::scanner::Scanner;
use crate::token::{
    is_literal_kind, LiteralModel, ScanErrorModel, TokenModel, TokenType,
};
use vstd::prelude::*;

verus! {

// ---------------------------------------------------------------------------
// Laws of the scan
// ---------------------------------------------------------------------------

/// A scan from any position yields a non-empty sequence of tokens whose last
/// token is the end-of-input token, and no earlier token is one.
pub proof fn lemma_scan_from_ends_with_eof(s: Seq<char>, pos: int, line: int)
    ensures
        scan_from(s, pos, line).0.len() > 0,
        scan_from(s, pos, line).0.last().kind == TokenType::Eof,
        forall|i: int|
            0 <= i < scan_from(s, pos, line).0.len() - 1 ==> #[trigger] scan_from(
                s,
                pos,
                line,
            ).0[i].kind != TokenType::Eof,
    decreases s.len() - pos,
{
    if 0 <= pos < s.len() {
        let st = step(s, pos, line);
        if pos < st.next <= s.len() {
            lemma_scan_from_ends_with_eof(s, st.next, st.line);
            lemma_step_kind_not_eof(s, pos, line);
            let r = scan_from(s, pos, line).0;
            let rest = scan_from(s, st.next, st.line).0;
            assert forall|i: int| 0 <= i < r.len() - 1 implies #[trigger] r[i].kind
                != TokenType::Eof by {
                if st.token is Some && i > 0 {
                    assert(r[i] == rest[i - 1]);
                }
            }
        }
    }
}

proof fn lemma_step_kind_not_eof(s: Seq<char>, start: int, line: int)
    requires
        0 <= start < s.len(),
    ensures
        step(s, start, line).token matches Some(t) ==> t.kind != TokenType::Eof,
{
    let e = word_end(s, start + 1);
    let w = s.subrange(start, e);
    if is_alpha(s[start]) && keyword(w) is Some {
        assert(keyword(w)->0 != TokenType::Eof);
    }
}

/// Scanning always ends: every scan of a text yields a non-empty token
/// sequence whose last token, and only that one, has kind end-of-input.
pub proof fn lemma_scan_ends_with_eof(s: Seq<char>)
    ensures
        scan_tokens_of(s).len() > 0,
        scan_tokens_of(s).last().kind == TokenType::Eof,
        forall|i: int|
            0 <= i < scan_tokens_of(s).len() - 1 ==> #[trigger] scan_tokens_of(s)[i].kind
                != TokenType::Eof,
{
    lemma_scan_from_ends_with_eof(s, 0, 1);
}

/// Whether scanning the lexeme of `t` on its own gives a first token of the
/// same kind as `t`.
pub open spec fn relexes(t: TokenModel) -> bool {
    scan_tokens_of(t.lexeme).len() > 0 && scan_tokens_of(t.lexeme)[0].kind == t.kind
}

proof fn lemma_word_end_all(w: Seq<char>, i: int)
    requires
        0 <= i <= w.len(),
        forall|k: int| i <= k < w.len() ==> is_alpha_numeric(#[trigger] w[k]),
    ensures
        word_end(w, i) == w.len(),
    decreases w.len() - i,
{
    if i < w.len() {
        lemma_word_end_all(w, i + 1);
    }
}

/// The first token of a scan of `w` is the token of the first step, when that step makes one.
proof fn lemma_first_token(w: Seq<char>)
    requires
        w.len() > 0,
        step(w, 0, 1).token is Some,
    ensures
        scan_tokens_of(w)[0] == step(w, 0, 1).token->0,
{
    lemma_step_advances(w, 0, 1);
}

proof fn lemma_step_relexes(s: Seq<char>, start: int, line: int)
    requires
        0 <= start < s.len(),
        step(s, start, line).token is Some,
        !is_literal_kind(step(s, start, line).token->0.kind),
    ensures
        relexes(step(s, start, line).token->0),
{
    let st = step(s, start, line);
    let t = st.token->0;
    let w = t.lexeme;
    lemma_step_advances(s, start, line);
    assert(w.len() > 0 && w[0] == s[start]);
    lemma_first_token(w);
    let c = s[start];
    if is_alpha(c) {
        let e = word_end(s, start + 1);
        lemma_word_end(s, start + 1);
        assert forall|k: int| 1 <= k < w.len() implies is_alpha_numeric(#[trigger] w[k]) by {
            assert(w[k] == s[start + k]);
        }
        lemma_word_end_all(w, 1);
        assert(w.subrange(0, w.len() as int) =~= w);
    }
}

/// Every token of a scan from `pos` whose kind carries no value relexes to its own kind.
pub proof fn lemma_scan_from_relexes(s: Seq<char>, pos: int, line: int)
    ensures
        forall|i: int|
            0 <= i < scan_from(s, pos, line).0.len() && !is_literal_kind(
                #[trigger] scan_from(s, pos, line).0[i].kind,
            ) ==> relexes(scan_from(s, pos, line).0[i]),
    decreases s.len() - pos,
{
    let r = scan_from(s, pos, line).0;
    if 0 <= pos < s.len() {
        let st = step(s, pos, line);
        if pos < st.next <= s.len() {
            lemma_scan_from_relexes(s, st.next, st.line);
            let rest = scan_from(s, st.next, st.line).0;
            assert forall|i: int| 0 <= i < r.len() && !is_literal_kind(#[trigger] r[i].kind) implies relexes(r[i]) by {
                if st.token is Some {
                    if i == 0 {
                        lemma_step_relexes(s, pos, line);
                    } else {
                        assert(r[i] == rest[i - 1]);
                    }
                } else {
                    assert(r[i] == rest[i]);
                }
            }
            return;
        }
    }
    assert(scan_tokens_of(Seq::<char>::empty()) == seq![eof_token(1)]);
    assert(r[0].lexeme =~= Seq::<char>::empty());
}

/// Rescanning the lexeme of any token that carries no value (punctuation,
/// operators, keywords and the end-of-input token), on its own, reproduces
/// that token's kind.
pub proof fn lemma_relex_keeps_kind(s: Seq<char>, i: int)
    requires
        0 <= i < scan_tokens_of(s).len(),
        !is_literal_kind(scan_tokens_of(s)[i].kind),
    ensures
        relexes(scan_tokens_of(s)[i]),
{
    lemma_scan_from_relexes(s, 0, 1);
}

/// Whether `t` is a string token whose value is its lexeme without the
/// opening and closing quotes.
pub open spec fn string_round_trips(t: TokenModel) -> bool {
    t.kind == TokenType::Strings ==> {
        &&& t.lexeme.len() >= 2
        &&& t.lexeme[0] == '"'
        &&& t.lexeme.last() == '"'
        &&& t.literal == LiteralModel::Str(t.lexeme.subrange(1, t.lexeme.len() - 1))
    }
}

/// A string literal's value is exactly the text between its quotes, and the
/// line handed on to the following token (which is also the string token's
/// own line) is the line the string began on plus the newlines in its value.
pub proof fn lemma_string_step(s: Seq<char>, start: int, line: int)
    requires
        0 <= start < s.len(),
        s[start] == '"',
        step(s, start, line).token is Some,
    ensures
        ({
            let st = step(s, start, line);
            let t = st.token->0;
            let v = t.lexeme.subrange(1, t.lexeme.len() - 1);
            &&& string_round_trips(t)
            &&& t.literal == LiteralModel::Str(v)
            &&& st.line == line + newlines(v, 0, v.len() as int)
            &&& t.line == st.line
        }),
{
    let q = find_char(s, start + 1, '"');
    lemma_find_char(s, start + 1, '"');
    let t = step(s, start, line).token->0;
    let v = s.subrange(start + 1, q);
    assert(t.lexeme.subrange(1, t.lexeme.len() - 1) =~= v);
    lemma_newlines_subrange(s, start + 1, q);
}

proof fn lemma_newlines_subrange(s: Seq<char>, i: int, j: int)
    requires
        0 <= i <= j <= s.len(),
    ensures
        newlines(s, i, j) == newlines(s.subrange(i, j), 0, j - i),
    decreases j - i,
{
    if j > i {
        lemma_newlines_subrange(s, i, j - 1);
        let a = s.subrange(i, j);
        let b = s.subrange(i, j - 1);
        assert(newlines(b, 0, j - 1 - i) == newlines(a, 0, j - 1 - i)) by {
            lemma_newlines_prefix(a, b, j - 1 - i);
        }
    }
}

proof fn lemma_newlines_prefix(a: Seq<char>, b: Seq<char>, n: int)
    requires
        0 <= n <= b.len(),
        n <= a.len(),
        forall|k: int| 0 <= k < n ==> a[k] == b[k],
    ensures
        newlines(a, 0, n) == newlines(b, 0, n),
    decreases n,
{
    if n > 0 {
        lemma_newlines_prefix(a, b, n - 1);
    }
}

/// Every string token of a scan from `pos` holds as its value exactly the text between its quotes.
pub proof fn lemma_scan_from_strings(s: Seq<char>, pos: int, line: int)
    ensures
        forall|i: int|
            0 <= i < scan_from(s, pos, line).0.len() ==> string_round_trips(
                #[trigger] scan_from(s, pos, line).0[i],
            ),
    decreases s.len() - pos,
{
    let r = scan_from(s, pos, line).0;
    if 0 <= pos < s.len() {
        let st = step(s, pos, line);
        if pos < st.next <= s.len() {
            lemma_scan_from_strings(s, st.next, st.line);
            let rest = scan_from(s, st.next, st.line).0;
            assert forall|i: int| 0 <= i < r.len() implies string_round_trips(#[trigger] r[i]) by {
                if st.token is Some {
                    if i == 0 {
                        if s[pos] == '"' {
                            lemma_string_step(s, pos, line);
                        }
                    } else {
                        assert(r[i] == rest[i - 1]);
                    }
                } else {
                    assert(r[i] == rest[i]);
                }
            }
        }
    }
}

/// In every scan, a string token's value is the text strictly between the
/// first and last `"` of its lexeme.
pub proof fn lemma_string_literal_round_trip(s: Seq<char>, i: int)
    requires
        0 <= i < scan_tokens_of(s).len(),
    ensures
        string_round_trips(scan_tokens_of(s)[i]),
{
    lemma_scan_from_strings(s, 0, 1);
}

/// Scanning is a function of the source: two fresh scanners over the same
/// text, each run once with `scan_tokens`, end with the same tokens and the
/// same errors.
pub proof fn lemma_scan_is_deterministic(a0: Scanner, a1: Scanner, b0: Scanner, b1: Scanner)
    requires
        a0.text() == b0.text(),
        a0.position() == 0 && b0.position() == 0,
        a0.current_line() == 1 && b0.current_line() == 1,
        a0.tokens_model() == Seq::<TokenModel>::empty(),
        b0.tokens_model() == Seq::<TokenModel>::empty(),
        a0.errors_model() == Seq::<ScanErrorModel>::empty(),
        b0.errors_model() == Seq::<ScanErrorModel>::empty(),
        a1.tokens_model() == a0.tokens_model() + scan_from(a0.text(), a0.position(), a0.current_line()).0,
        a1.errors_model() == a0.errors_model() + scan_from(a0.text(), a0.position(), a0.current_line()).1,
        b1.tokens_model() == b0.tokens_model() + scan_from(b0.text(), b0.position(), b0.current_line()).0,
        b1.errors_model() == b0.errors_model() + scan_from(b0.text(), b0.position(), b0.current_line()).1,
    ensures
        a1.tokens_model() == b1.tokens_model(),
        a1.errors_model() == b1.errors_model(),
        a1.tokens_model() == scan_tokens_of(a0.text()),
        a1.errors_model() == scan_errors_of(a0.text()),
{
    assert(a1.tokens_model() =~= scan_tokens_of(a0.text()));
    assert(b1.tokens_model() =~= scan_tokens_of(b0.text()));
    assert(a1.errors_model() =~= scan_errors_of(a0.text()));
    assert(b1.errors_model() =~= scan_errors_of(b0.text()));
}

} // verus!
