use crate::model::{
    digits_end, eof_token, find_char, is_alpha, is_alpha_numeric, is_digit, keyword,
    lemma_step_advances, newlines, number_step, opt_seq, scan_from, step, string_step, word_end,
    word_step, Step,
};
use crate::token::{
    Literal, LiteralModel, ScanError, ScanErrorKind, ScanErrorModel, Token, TokenModel, TokenType,
};
use vstd::prelude::*;

verus! {

// ---------------------------------------------------------------------------
// The scanner
// ---------------------------------------------------------------------------

/// Relies on `String::push`: appends one character to the end of the string.
#[verifier::external_body]
fn push_char(s: &mut String, c: char)
    ensures
        final(s)@ == old(s)@.push(c),
{
    s.push(c);
}

/// A single left-to-right pass over source text, producing tokens.
pub struct Scanner {
    source: Vec<char>,
    tokens: Vec<Token>,
    errors: Vec<ScanError>,
    start: usize,
    current: usize,
    line: usize,
}

impl Scanner {
    /// The source text, as characters.
    pub closed spec fn text(&self) -> Seq<char> {
        self.source@
    }

    /// The offset of the next unread character.
    pub closed spec fn position(&self) -> int {
        self.current as int
    }

    /// The current line, counted from 1.
    pub closed spec fn current_line(&self) -> int {
        self.line as int
    }

    /// The tokens produced so far.
    pub closed spec fn tokens_model(&self) -> Seq<TokenModel> {
        self.tokens@.map_values(|t: Token| t@)
    }

    /// The lexical errors reported so far.
    pub closed spec fn errors_model(&self) -> Seq<ScanErrorModel> {
        self.errors@.map_values(|e: ScanError| e@)
    }

    /// The scanner's invariant: `start <= current <= len(source)` and
    /// `1 <= line`, with the line never ahead of the characters read.
    pub closed spec fn wf(&self) -> bool {
        &&& self.start <= self.current <= self.source.len()
        &&& 1 <= self.line <= self.current + 1
    }

    /// A scanner over `source` that has read nothing yet.
    pub fn new_from(source: String) -> (r: Scanner)
        ensures
            r.wf(),
            r.text() == source@,
            r.position() == 0,
            r.current_line() == 1,
            r.tokens_model() == Seq::<TokenModel>::empty(),
            r.errors_model() == Seq::<ScanErrorModel>::empty(),
    {
        let mut chars: Vec<char> = Vec::new();
        for c in it: source.as_str().chars()
            invariant
                chars@ == it.seq().take(it.index() as int),
        {
            chars.push(c);
        }
        assert(chars@ =~= source@);
        let r = Scanner {
            source: chars,
            tokens: Vec::new(),
            errors: Vec::new(),
            start: 0,
            current: 0,
            line: 1,
        };
        assert(r.tokens_model() =~= Seq::<TokenModel>::empty());
        assert(r.errors_model() =~= Seq::<ScanErrorModel>::empty());
        r
    }

    /// The tokens produced so far.
    pub fn tokens(&self) -> (r: &Vec<Token>)
        ensures
            r@.map_values(|t: Token| t@) == self.tokens_model(),
    {
        &self.tokens
    }

    /// The lexical errors reported so far, in source order.
    pub fn errors(&self) -> (r: &Vec<ScanError>)
        ensures
            r@.map_values(|e: ScanError| e@) == self.errors_model(),
    {
        &self.errors
    }

    fn is_digital(c: char) -> (r: bool)
        ensures
            r == is_digit(c),
    {
        c >= '0' && c <= '9'
    }

    fn is_alpha(c: char) -> (r: bool)
        ensures
            r == is_alpha(c),
    {
        (c >= 'a' && c <= 'z') || (c >= 'A' && c <= 'Z') || c == '_'
    }

    fn is_alpha_numeric(c: char) -> (r: bool)
        ensures
            r == is_alpha_numeric(c),
    {
        Scanner::is_alpha(c) || Scanner::is_digital(c)
    }

    fn is_at_end(&self) -> (r: bool)
        ensures
            r == (self.current >= self.source.len()),
    {
        self.current >= self.source.len()
    }

    fn peek(&self) -> (r: char)
        ensures
            r == if self.current < self.source.len() {
                self.source@[self.current as int]
            } else {
                '\0'
            },
    {
        if self.is_at_end() {
            '\0'
        } else {
            self.source[self.current]
        }
    }

    fn peek_next(&self) -> (r: char)
        ensures
            r == if self.current + 1 < self.source.len() {
                self.source@[self.current + 1]
            } else {
                '\0'
            },
    {
        if self.current >= self.source.len() || self.current + 1 >= self.source.len() {
            '\0'
        } else {
            self.source[self.current + 1]
        }
    }

    fn advance(&mut self) -> (r: char)
        requires
            old(self).current < old(self).source.len(),
        ensures
            r == old(self).source@[old(self).current as int],
            final(self).current == old(self).current + 1,
            final(self).source == old(self).source,
            final(self).tokens == old(self).tokens,
            final(self).errors == old(self).errors,
            final(self).start == old(self).start,
            final(self).line == old(self).line,
    {
        let ret = self.source[self.current];
        self.current = self.current + 1;
        ret
    }

    fn match_with_char(&mut self, expected: char) -> (r: bool)
        ensures
            r == (old(self).current < old(self).source.len()
                && old(self).source@[old(self).current as int] == expected),
            final(self).current == old(self).current + if r {
                1int
            } else {
                0int
            },
            final(self).source == old(self).source,
            final(self).tokens == old(self).tokens,
            final(self).errors == old(self).errors,
            final(self).start == old(self).start,
            final(self).line == old(self).line,
    {
        if self.is_at_end() || self.source[self.current] != expected {
            false
        } else {
            self.current = self.current + 1;
            true
        }
    }

    /// The characters `source[from..to]` as a string.
    fn text_of(&self, from: usize, to: usize) -> (r: String)
        requires
            from <= to <= self.source.len(),
        ensures
            r@ == self.source@.subrange(from as int, to as int),
    {
        let mut s = String::new();
        let mut i: usize = from;
        while i < to
            invariant
                from <= i <= to <= self.source.len(),
                s@ == self.source@.subrange(from as int, i as int),
            decreases to - i,
        {
            push_char(&mut s, self.source[i]);
            i = i + 1;
            assert(s@ =~= self.source@.subrange(from as int, i as int));
        }
        s
    }

    fn add_to_token_raw(&mut self, kind: TokenType, literal: Literal)
        requires
            old(self).start <= old(self).current <= old(self).source.len(),
        ensures
            final(self).tokens_model() == old(self).tokens_model().push(
                TokenModel {
                    kind,
                    lexeme: old(self).source@.subrange(
                        old(self).start as int,
                        old(self).current as int,
                    ),
                    line: old(self).line as int,
                    literal: literal@,
                },
            ),
            final(self).source == old(self).source,
            final(self).errors == old(self).errors,
            final(self).start == old(self).start,
            final(self).current == old(self).current,
            final(self).line == old(self).line,
    {
        let text = self.text_of(self.start, self.current);
        let t = Token::new(kind, text, self.line, literal);
        self.tokens.push(t);
        assert(self.tokens_model() =~= old(self).tokens_model().push(t@));
    }

    /// Whether this step went from `self` to `after` as `st` says: the cursor
    /// and line moved on, and the step's token and error, if any, were added.
    closed spec fn took_step(self, after: Scanner, st: Step) -> bool {
        &&& after.source@ == self.source@
        &&& after.current == st.next
        &&& after.line == st.line
        &&& after.tokens_model() == match st.token {
            Some(t) => self.tokens_model().push(t),
            None => self.tokens_model(),
        }
        &&& after.errors_model() == match st.error {
            Some(e) => self.errors_model().push(e),
            None => self.errors_model(),
        }
    }

    /// Whether the current lexeme `source[start..current]` is `w`.
    fn lexeme_is(&self, w: &[char]) -> (r: bool)
        requires
            self.start <= self.current <= self.source.len(),
        ensures
            r == (self.source@.subrange(self.start as int, self.current as int) == w@),
    {
        if self.current - self.start != w.len() {
            return false;
        }
        let mut i: usize = 0;
        while i < w.len()
            invariant
                self.start <= self.current <= self.source.len(),
                i <= w.len() == self.current - self.start,
                forall|k: int| 0 <= k < i ==> self.source@[self.start + k] == w@[k],
            decreases w.len() - i,
        {
            if self.source[self.start + i] != w[i] {
                assert(self.source@.subrange(self.start as int, self.current as int)[i as int]
                    != w@[i as int]);
                return false;
            }
            i = i + 1;
        }
        assert(self.source@.subrange(self.start as int, self.current as int) =~= w@);
        true
    }

    /// The reserved word that the current lexeme spells, if any.
    fn keyword_kind(&self) -> (r: Option<TokenType>)
        requires
            self.start <= self.current <= self.source.len(),
        ensures
            r == keyword(self.source@.subrange(self.start as int, self.current as int)),
    {
        let w = ['a', 'n', 'd'];
        assert(w@ =~= seq!['a', 'n', 'd']);
        if self.lexeme_is(&w) {
            return Some(TokenType::And);
        }
        let w = ['c', 'l', 'a', 's', 's'];
        assert(w@ =~= seq!['c', 'l', 'a', 's', 's']);
        if self.lexeme_is(&w) {
            return Some(TokenType::Class);
        }
        let w = ['e', 'l', 's', 'e'];
        assert(w@ =~= seq!['e', 'l', 's', 'e']);
        if self.lexeme_is(&w) {
            return Some(TokenType::Else);
        }
        let w = ['f', 'a', 'l', 's', 'e'];
        assert(w@ =~= seq!['f', 'a', 'l', 's', 'e']);
        if self.lexeme_is(&w) {
            return Some(TokenType::False);
        }
        let w = ['f', 'o', 'r'];
        assert(w@ =~= seq!['f', 'o', 'r']);
        if self.lexeme_is(&w) {
            return Some(TokenType::For);
        }
        let w = ['f', 'u', 'n'];
        assert(w@ =~= seq!['f', 'u', 'n']);
        if self.lexeme_is(&w) {
            return Some(TokenType::Fun);
        }
        let w = ['i', 'f'];
        assert(w@ =~= seq!['i', 'f']);
        if self.lexeme_is(&w) {
            return Some(TokenType::If);
        }
        let w = ['n', 'i', 'l'];
        assert(w@ =~= seq!['n', 'i', 'l']);
        if self.lexeme_is(&w) {
            return Some(TokenType::Nil);
        }
        let w = ['o', 'r'];
        assert(w@ =~= seq!['o', 'r']);
        if self.lexeme_is(&w) {
            return Some(TokenType::Or);
        }
        let w = ['p', 'r', 'i', 'n', 't'];
        assert(w@ =~= seq!['p', 'r', 'i', 'n', 't']);
        if self.lexeme_is(&w) {
            return Some(TokenType::Print);
        }
        let w = ['r', 'e', 't', 'u', 'r', 'n'];
        assert(w@ =~= seq!['r', 'e', 't', 'u', 'r', 'n']);
        if self.lexeme_is(&w) {
            return Some(TokenType::Return);
        }
        let w = ['s', 'u', 'p', 'e', 'r'];
        assert(w@ =~= seq!['s', 'u', 'p', 'e', 'r']);
        if self.lexeme_is(&w) {
            return Some(TokenType::Super);
        }
        let w = ['t', 'h', 'i', 's'];
        assert(w@ =~= seq!['t', 'h', 'i', 's']);
        if self.lexeme_is(&w) {
            return Some(TokenType::This);
        }
        let w = ['t', 'r', 'u', 'e'];
        assert(w@ =~= seq!['t', 'r', 'u', 'e']);
        if self.lexeme_is(&w) {
            return Some(TokenType::True);
        }
        let w = ['v', 'a', 'r'];
        assert(w@ =~= seq!['v', 'a', 'r']);
        if self.lexeme_is(&w) {
            return Some(TokenType::Var);
        }
        let w = ['w', 'h', 'i', 'l', 'e'];
        assert(w@ =~= seq!['w', 'h', 'i', 'l', 'e']);
        if self.lexeme_is(&w) {
            return Some(TokenType::While);
        }
        None
    }

    fn identifier(&mut self)
        requires
            old(self).start < old(self).current == old(self).start + 1 <= old(self).source.len(),
            is_alpha(old(self).source@[old(self).start as int]),
        ensures
            old(self).took_step(
                *final(self),
                word_step(old(self).source@, old(self).start as int, old(self).line as int),
            ),
            final(self).start == old(self).start,
    {
        let ghost s = self.source@;
        let ghost e = word_end(s, self.start + 1);
        while Scanner::is_alpha_numeric(self.peek())
            invariant
                self.source@ == s,
                self.start < self.current <= self.source.len(),
                word_end(s, self.current as int) == e,
                self.tokens == old(self).tokens,
                self.errors == old(self).errors,
                self.start == old(self).start,
                self.line == old(self).line,
            decreases self.source.len() - self.current,
        {
            self.advance();
        }
        let kind = match self.keyword_kind() {
            None => TokenType::Identifier,
            Some(k) => k,
        };
        self.add_to_token(kind);
    }

    fn number(&mut self)
        requires
            old(self).start < old(self).current == old(self).start + 1 <= old(self).source.len(),
            is_digit(old(self).source@[old(self).start as int]),
        ensures
            old(self).took_step(
                *final(self),
                number_step(old(self).source@, old(self).start as int, old(self).line as int),
            ),
            final(self).start == old(self).start,
    {
        let ghost s = self.source@;
        let ghost e = digits_end(s, self.start + 1);
        while Scanner::is_digital(self.peek())
            invariant
                self.source@ == s,
                self.start < self.current <= self.source.len(),
                digits_end(s, self.current as int) == e,
                self.tokens == old(self).tokens,
                self.errors == old(self).errors,
                self.start == old(self).start,
                self.line == old(self).line,
            decreases self.source.len() - self.current,
        {
            self.advance();
        }
        // A fractional part needs a digit after the dot.
        if self.peek() == '.' && Scanner::is_digital(self.peek_next()) {
            self.advance();
            let ghost f = digits_end(s, self.current as int);
            while Scanner::is_digital(self.peek())
                invariant
                    self.source@ == s,
                    self.start < self.current <= self.source.len(),
                    digits_end(s, self.current as int) == f,
                    self.tokens == old(self).tokens,
                    self.errors == old(self).errors,
                    self.start == old(self).start,
                    self.line == old(self).line,
                decreases self.source.len() - self.current,
            {
                self.advance();
            }
        }
        let text = self.text_of(self.start, self.current);
        self.add_to_token_raw(TokenType::Number, Literal::Number(text));
    }

    fn string(&mut self)
        requires
            old(self).start < old(self).current == old(self).start + 1 <= old(self).source.len(),
            old(self).source@[old(self).start as int] == '"',
            old(self).source.len() < usize::MAX,
            1 <= old(self).line <= old(self).current,
        ensures
            old(self).took_step(
                *final(self),
                string_step(old(self).source@, old(self).start as int, old(self).line as int),
            ),
            final(self).start == old(self).start,
    {
        let ghost s = self.source@;
        let ghost q = find_char(s, self.start + 1, '"');
        let first_line = self.line;
        while self.peek() != '"' && !self.is_at_end()
            invariant
                self.source@ == s,
                self.source.len() < usize::MAX,
                self.start < self.current <= self.source.len(),
                find_char(s, self.current as int, '"') == q,
                self.line == first_line + newlines(s, self.start + 1, self.current as int),
                self.line <= self.current,
                self.tokens == old(self).tokens,
                self.errors == old(self).errors,
                self.start == old(self).start,
                first_line == old(self).line,
            decreases self.source.len() - self.current,
        {
            if self.peek() == '\n' {
                self.line = self.line + 1;
            }
            self.advance();
        }
        if self.is_at_end() {
            self.errors.push(ScanError { kind: ScanErrorKind::UnterminatedString, line: first_line });
            assert(self.errors_model() =~= old(self).errors_model().push(
                ScanErrorModel { kind: ScanErrorKind::UnterminatedString, line: first_line as int },
            ));
            return;
        }
        // The closing quote.
        self.advance();
        // The value leaves out the surrounding quotes.
        let value = self.text_of(self.start + 1, self.current - 1);
        self.add_to_token_raw(TokenType::Strings, Literal::String(value));
    }

    /// Scans the whole remaining source, then appends the end-of-input token.
    ///
    /// The tokens and errors added are those of `scan_from` from the current
    /// position and line; on a new scanner, `scan_tokens_of` and
    /// `scan_errors_of` of its source.
    pub fn scan_tokens(&mut self) -> (r: &Vec<Token>)
        requires
            old(self).wf(),
            old(self).text().len() < usize::MAX,
        ensures
            final(self).wf(),
            final(self).text() == old(self).text(),
            final(self).position() == final(self).text().len(),
            final(self).tokens_model() == old(self).tokens_model() + scan_from(
                old(self).text(),
                old(self).position(),
                old(self).current_line(),
            ).0,
            final(self).errors_model() == old(self).errors_model() + scan_from(
                old(self).text(),
                old(self).position(),
                old(self).current_line(),
            ).1,
            r@.map_values(|t: Token| t@) == final(self).tokens_model(),
    {
        let ghost s = self.source@;
        let ghost goal = scan_from(s, self.current as int, self.line as int);
        while !self.is_at_end()
            invariant
                self.wf(),
                self.source@ == s,
                s.len() < usize::MAX,
                old(self).tokens_model() + goal.0 == self.tokens_model() + scan_from(
                    s,
                    self.current as int,
                    self.line as int,
                ).0,
                old(self).errors_model() + goal.1 == self.errors_model() + scan_from(
                    s,
                    self.current as int,
                    self.line as int,
                ).1,
            decreases s.len() - self.current,
        {
            self.start = self.current;
            let ghost before = *self;
            proof {
                lemma_step_advances(s, self.current as int, self.line as int);
            }
            self.scan_token();
            proof {
                let st = step(s, before.current as int, before.line as int);
                let rest = scan_from(s, st.next, st.line);
                assert(self.tokens_model() + rest.0 =~= before.tokens_model() + (opt_seq(st.token)
                    + rest.0));
                assert(self.errors_model() + rest.1 =~= before.errors_model() + (opt_seq(st.error)
                    + rest.1));
            }
        }
        let eof = Token::new(TokenType::Eof, String::new(), self.line, Literal::Nil);
        let ghost before = *self;
        self.tokens.push(eof);
        proof {
            assert(self.tokens_model() =~= before.tokens_model() + seq![eof_token(self.line as int)]);
            assert(self.errors_model() =~= before.errors_model() + Seq::<ScanErrorModel>::empty());
        }
        &self.tokens
    }

    /// Scans one lexeme, starting at `current`.
    fn scan_token(&mut self)
        requires
            old(self).wf(),
            old(self).start == old(self).current < old(self).source.len(),
            old(self).source.len() < usize::MAX,
        ensures
            old(self).took_step(
                *final(self),
                step(old(self).source@, old(self).current as int, old(self).line as int),
            ),
            final(self).wf(),
    {
        proof {
            lemma_step_advances(self.source@, self.current as int, self.line as int);
        }
        let ch = self.advance();
        match ch {
            '(' => self.add_to_token(TokenType::LeftParen),
            ')' => self.add_to_token(TokenType::RightParen),
            '{' => self.add_to_token(TokenType::LeftBrace),
            '}' => self.add_to_token(TokenType::RightBrace),
            ',' => self.add_to_token(TokenType::Comma),
            '.' => self.add_to_token(TokenType::Dot),
            '-' => self.add_to_token(TokenType::Minus),
            '+' => self.add_to_token(TokenType::Plus),
            ';' => self.add_to_token(TokenType::Semicolon),
            '*' => self.add_to_token(TokenType::Star),
            '!' => {
                let kind = if self.match_with_char('=') {
                    TokenType::BangEqual
                } else {
                    TokenType::Bang
                };
                self.add_to_token(kind);
            },
            '=' => {
                let kind = if self.match_with_char('=') {
                    TokenType::EqualEqual
                } else {
                    TokenType::Equal
                };
                self.add_to_token(kind);
            },
            '<' => {
                let kind = if self.match_with_char('=') {
                    TokenType::LessEqual
                } else {
                    TokenType::Less
                };
                self.add_to_token(kind);
            },
            '>' => {
                let kind = if self.match_with_char('=') {
                    TokenType::GreaterEqual
                } else {
                    TokenType::Greater
                };
                self.add_to_token(kind);
            },
            '/' => {
                if self.match_with_char('/') {
                    // A comment runs to the end of the line.
                    let ghost s = self.source@;
                    let ghost e = find_char(s, self.current as int, '\n');
                    while self.peek() != '\n' && !self.is_at_end()
                        invariant
                            self.source@ == s,
                            self.start < self.current <= self.source.len(),
                            find_char(s, self.current as int, '\n') == e,
                            self.tokens == old(self).tokens,
                            self.errors == old(self).errors,
                            self.start == old(self).start,
                            self.line == old(self).line,
                        decreases self.source.len() - self.current,
                    {
                        self.advance();
                    }
                } else {
                    self.add_to_token(TokenType::Slash);
                }
            },
            ' ' | '\r' | '\t' => {},
            '\n' => {
                self.line = self.line + 1;
            },
            '"' => self.string(),
            _ => {
                if Scanner::is_digital(ch) {
                    self.number();
                } else if Scanner::is_alpha(ch) {
                    self.identifier();
                } else {
                    let e = ScanError { kind: ScanErrorKind::UnexpectedCharacter, line: self.line };
                    self.errors.push(e);
                    assert(self.errors_model() =~= old(self).errors_model().push(e@));
                }
            },
        }
    }

    fn add_to_token(&mut self, kind: TokenType)
        requires
            old(self).start <= old(self).current <= old(self).source.len(),
        ensures
            final(self).tokens_model() == old(self).tokens_model().push(
                TokenModel {
                    kind,
                    lexeme: old(self).source@.subrange(
                        old(self).start as int,
                        old(self).current as int,
                    ),
                    line: old(self).line as int,
                    literal: LiteralModel::Nil,
                },
            ),
            final(self).source == old(self).source,
            final(self).errors == old(self).errors,
            final(self).start == old(self).start,
            final(self).current == old(self).current,
            final(self).line == old(self).line,
    {
        self.add_to_token_raw(kind, Literal::Nil)
    }
}

} // verus!
