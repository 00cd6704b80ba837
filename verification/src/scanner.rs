use vstd::prelude::*;

use crate::expression::{LitV, Literal};
use crate::ieee::{decimal_numeral, f32_parse, parse_f32};
use crate::text::{chars_between, chars_of, same_chars, string_between};
use crate::token::{Token, TokenType, TokenV, clone_tokens, tokens_view};

verus! {

broadcast use vstd::string::group_string_axioms;

// ---------------------------------------------------------------------------
// The lexical grammar, stated over the source as a sequence of characters.
// ---------------------------------------------------------------------------

pub open spec fn is_digit_char(c: char) -> bool {
    '0' <= c && c <= '9'
}

pub open spec fn is_alpha_char(c: char) -> bool {
    ('a' <= c && c <= 'z') || ('A' <= c && c <= 'Z') || c == '_'
}

pub open spec fn is_alphanumeric_char(c: char) -> bool {
    is_alpha_char(c) || is_digit_char(c)
}

/// The first index at or after `i` that does not hold a digit (or the end).
pub open spec fn digits_end(src: Seq<char>, i: int) -> int
    decreases src.len() - i,
{
    if 0 <= i < src.len() && is_digit_char(src[i]) {
        digits_end(src, i + 1)
    } else {
        i
    }
}

/// The first index at or after `i` that does not hold a letter, digit or `_` (or the end).
pub open spec fn word_end(src: Seq<char>, i: int) -> int
    decreases src.len() - i,
{
    if 0 <= i < src.len() && is_alphanumeric_char(src[i]) {
        word_end(src, i + 1)
    } else {
        i
    }
}

/// The first index at or after `i` that holds a newline (or the end).
pub open spec fn comment_end(src: Seq<char>, i: int) -> int
    decreases src.len() - i,
{
    if 0 <= i < src.len() && src[i] != '\n' {
        comment_end(src, i + 1)
    } else {
        i
    }
}

/// The first index at or after `i` that holds a double quote (or the end).
pub open spec fn quote_end(src: Seq<char>, i: int) -> int
    decreases src.len() - i,
{
    if 0 <= i < src.len() && src[i] != '"' {
        quote_end(src, i + 1)
    } else {
        i
    }
}

/// The number of newline characters in `s`.
pub open spec fn newlines(s: Seq<char>) -> int
    decreases s.len(),
{
    if s.len() == 0 {
        0
    } else {
        newlines(s.drop_last()) + if s.last() == '\n' { 1int } else { 0int }
    }
}

/// Where a number literal starting at `start` ends: digits, then optionally a dot
/// followed by at least one digit and more digits.
/// Every character from `i` up to `digits_end(src, i)` is a digit.
proof fn lemma_digits_run(src: Seq<char>, i: int)
    requires
        0 <= i,
    ensures
        i <= digits_end(src, i),
        digits_end(src, i) <= i || digits_end(src, i) <= src.len(),
        forall|k: int| i <= k < digits_end(src, i) ==> is_digit_char(#[trigger] src[k]),
    decreases src.len() - i,
{
    if 0 <= i < src.len() && is_digit_char(src[i]) {
        lemma_digits_run(src, i + 1);
    }
}

/// The text of a number token is a decimal numeral: digits, then at most one dot
/// followed by digits.
proof fn lemma_number_text(src: Seq<char>, start: int)
    requires
        0 <= start < src.len(),
        is_digit_char(src[start]),
    ensures
        start < number_end(src, start) <= src.len(),
        decimal_numeral(src.subrange(start, number_end(src, start))),
{
    let e = digits_end(src, start + 1);
    lemma_digits_run(src, start + 1);
    let n = number_end(src, start);
    if e + 1 < src.len() && src[e] == '.' && is_digit_char(src[e + 1]) {
        lemma_digits_run(src, e + 1);
        assert(digits_end(src, e + 1) == digits_end(src, e + 2));
        lemma_digits_run(src, e + 2);
    }
    let t = src.subrange(start, n);
    assert forall|k: int| 0 <= k < t.len() implies ('0' <= #[trigger] t[k] <= '9' || t[k] == '.') by {
        assert(t[k] == src[start + k]);
        if start + k != e && start + k != start {
            assert(is_digit_char(src[start + k]));
        }
    }
    assert forall|i: int, j: int| 0 <= i < j < t.len() && t[i] == '.' implies t[j] != '.' by {
        assert(t[i] == src[start + i]);
        assert(t[j] == src[start + j]);
        if start + i < e {
            if start + i != start {
                assert(is_digit_char(src[start + i]));
            }
        }
        assert(start + i == e);
        assert(is_digit_char(src[start + j]));
    }
    assert(t[t.len() - 1] == src[n - 1]);
    if n - 1 != start && n - 1 != e {
        assert(is_digit_char(src[n - 1]));
    }
}

pub open spec fn number_end(src: Seq<char>, start: int) -> int {
    let e = digits_end(src, start + 1);
    if e + 1 < src.len() && src[e] == '.' && is_digit_char(src[e + 1]) {
        digits_end(src, e + 1)
    } else {
        e
    }
}

pub open spec fn all_digits(s: Seq<char>) -> bool {
    forall|i: int| 0 <= i < s.len() ==> is_digit_char(#[trigger] s[i])
}

/// The value of a string of decimal digits.
pub open spec fn digits_value(s: Seq<char>) -> int
    decreases s.len(),
{
    if s.len() == 0 {
        0
    } else {
        digits_value(s.drop_last()) * 10 + (s.last() as int - '0' as int)
    }
}

/// What parsing a numeral as an `i32` gives: a non-empty string of digits whose value fits.
pub open spec fn i32_numeral(s: Seq<char>) -> Option<i32> {
    if s.len() > 0 && all_digits(s) && digits_value(s) <= i32::MAX {
        Some(digits_value(s) as i32)
    } else {
        None
    }
}

/// The literal of a number token: an integer where the text fits an `i32`, else the
/// nearest single-precision float, if the text parses as one.
pub open spec fn number_literal(text: Seq<char>) -> Option<LitV> {
    match i32_numeral(text) {
        Some(v) => Some(LitV::Int(v)),
        None => match f32_parse(text) {
            Some(b) => Some(LitV::Float(b)),
            None => None,
        },
    }
}

/// The keyword that a word spells, if any.
pub open spec fn keyword_type(s: Seq<char>) -> Option<TokenType> {
    if s == "and"@ {
        Some(TokenType::And)
    } else if s == "class"@ {
        Some(TokenType::Class)
    } else if s == "else"@ {
        Some(TokenType::Else)
    } else if s == "false"@ {
        Some(TokenType::False)
    } else if s == "for"@ {
        Some(TokenType::For)
    } else if s == "fun"@ {
        Some(TokenType::Fun)
    } else if s == "if"@ {
        Some(TokenType::If)
    } else if s == "nil"@ {
        Some(TokenType::Nil)
    } else if s == "or"@ {
        Some(TokenType::Or)
    } else if s == "print"@ {
        Some(TokenType::Print)
    } else if s == "return"@ {
        Some(TokenType::Return)
    } else if s == "super"@ {
        Some(TokenType::Super)
    } else if s == "this"@ {
        Some(TokenType::This)
    } else if s == "true"@ {
        Some(TokenType::True)
    } else if s == "var"@ {
        Some(TokenType::Var)
    } else if s == "while"@ {
        Some(TokenType::While)
    } else {
        None
    }
}

/// What one scanning step does from a position: skip input, emit one token, or fail
/// (on a character that starts no token, an unterminated string, or a numeral that
/// does not parse).
pub enum Lexed {
    Skip { end: int, line: int },
    Emit { end: int, line: int, token: TokenV },
    Fail,
}

/// The token of type `tt` made of `src[start..end]`, ending on `line`.
pub open spec fn token_at(src: Seq<char>, start: int, end: int, line: int, tt: TokenType, literal: Option<LitV>) -> TokenV {
    TokenV { token_type: tt, lexeme: src.subrange(start, end), line: Some(line as usize), literal }
}

pub open spec fn emit(src: Seq<char>, start: int, end: int, line: int, tt: TokenType) -> Lexed {
    Lexed::Emit { end, line, token: token_at(src, start, end, line, tt, None) }
}

/// A one- or two-character operator: `two` when `=` follows, else `one`.
pub open spec fn emit_pair(src: Seq<char>, start: int, line: int, one: TokenType, two: TokenType) -> Lexed {
    if start + 1 < src.len() && src[start + 1] == '=' {
        emit(src, start, start + 2, line, two)
    } else {
        emit(src, start, start + 1, line, one)
    }
}

/// One scanning step from `start` (which must be inside the source) on line `line`.
pub open spec fn lex_step(src: Seq<char>, start: int, line: int) -> Lexed {
    let c = src[start];
    if c == '(' {
        emit(src, start, start + 1, line, TokenType::LeftParen)
    } else if c == ')' {
        emit(src, start, start + 1, line, TokenType::RightParen)
    } else if c == '{' {
        emit(src, start, start + 1, line, TokenType::LeftBrace)
    } else if c == '}' {
        emit(src, start, start + 1, line, TokenType::RightBrace)
    } else if c == ',' {
        emit(src, start, start + 1, line, TokenType::Comma)
    } else if c == '.' {
        emit(src, start, start + 1, line, TokenType::Dot)
    } else if c == '-' {
        emit(src, start, start + 1, line, TokenType::Minus)
    } else if c == '+' {
        emit(src, start, start + 1, line, TokenType::Plus)
    } else if c == ';' {
        emit(src, start, start + 1, line, TokenType::SemiColon)
    } else if c == '*' {
        emit(src, start, start + 1, line, TokenType::Star)
    } else if c == '!' {
        emit_pair(src, start, line, TokenType::Bang, TokenType::BangEqual)
    } else if c == '=' {
        emit_pair(src, start, line, TokenType::Equal, TokenType::EqualEqual)
    } else if c == '<' {
        emit_pair(src, start, line, TokenType::Less, TokenType::LessEqual)
    } else if c == '>' {
        emit_pair(src, start, line, TokenType::Greater, TokenType::GreaterEqual)
    } else if c == '/' {
        if start + 1 < src.len() && src[start + 1] == '/' {
            Lexed::Skip { end: comment_end(src, start + 2), line }
        } else {
            emit(src, start, start + 1, line, TokenType::Slash)
        }
    } else if c == '"' {
        let q = quote_end(src, start + 1);
        if q >= src.len() {
            Lexed::Fail
        } else {
            let l = line + newlines(src.subrange(start + 1, q));
            Lexed::Emit {
                end: q + 1,
                line: l,
                token: token_at(src, start, q + 1, l, TokenType::String, Some(LitV::Str(src.subrange(start + 1, q)))),
            }
        }
    } else if c == ' ' || c == '\r' || c == '\t' {
        Lexed::Skip { end: start + 1, line }
    } else if c == '\n' {
        Lexed::Skip { end: start + 1, line: line + 1 }
    } else if is_digit_char(c) {
        let e = number_end(src, start);
        match number_literal(src.subrange(start, e)) {
            Some(lit) => Lexed::Emit { end: e, line, token: token_at(src, start, e, line, TokenType::Number, Some(lit)) },
            None => Lexed::Fail,
        }
    } else if is_alpha_char(c) {
        let e = word_end(src, start + 1);
        let tt = match keyword_type(src.subrange(start, e)) {
            Some(k) => k,
            None => TokenType::Identifier,
        };
        emit(src, start, e, line, tt)
    } else {
        Lexed::Fail
    }
}

/// The end-of-file token that closes every token list.
pub open spec fn eof_token() -> TokenV {
    TokenV { token_type: TokenType::EOF, lexeme: Seq::empty(), line: None, literal: None }
}

/// The tokens of `src` from position `pos` on line `line`, closed by the end-of-file
/// token; `None` when scanning fails.
pub open spec fn lex(src: Seq<char>, pos: int, line: int) -> Option<Seq<TokenV>>
    decreases src.len() - pos,
{
    if pos >= src.len() {
        Some(seq![eof_token()])
    } else {
        match lex_step(src, pos, line) {
            Lexed::Fail => None,
            Lexed::Skip { end, line: l } => if pos < end <= src.len() {
                lex(src, end, l)
            } else {
                None
            },
            Lexed::Emit { end, line: l, token } => if pos < end <= src.len() {
                match lex(src, end, l) {
                    Some(rest) => Some(seq![token] + rest),
                    None => None,
                }
            } else {
                None
            },
        }
    }
}

/// The tokens of a whole source text, starting on line 1.
pub open spec fn scan(src: Seq<char>) -> Option<Seq<TokenV>> {
    lex(src, 0, 1)
}

pub open spec fn prepend(prefix: Seq<TokenV>, rest: Option<Seq<TokenV>>) -> Option<Seq<TokenV>> {
    match rest {
        Some(r) => Some(prefix + r),
        None => None,
    }
}

proof fn lemma_ends(src: Seq<char>, i: int)
    requires
        0 <= i <= src.len(),
    ensures
        i <= digits_end(src, i) <= src.len(),
        i <= word_end(src, i) <= src.len(),
        i <= comment_end(src, i) <= src.len(),
        i <= quote_end(src, i) <= src.len(),
    decreases src.len() - i,
{
    if i < src.len() {
        lemma_ends(src, i + 1);
    }
}

proof fn lemma_digits_value_prefix(s: Seq<char>, k: int)
    requires
        all_digits(s),
        0 <= k <= s.len(),
    ensures
        0 <= digits_value(s.subrange(0, k)) <= digits_value(s),
    decreases s.len(),
{
    if k < s.len() {
        lemma_digits_value_prefix(s.drop_last(), k);
        assert(s.drop_last().subrange(0, k) =~= s.subrange(0, k));
        lemma_digits_value_nonneg(s.drop_last());
    } else {
        assert(s.subrange(0, k) =~= s);
        lemma_digits_value_nonneg(s);
    }
}

proof fn lemma_digits_value_nonneg(s: Seq<char>)
    requires
        all_digits(s),
    ensures
        digits_value(s) >= 0,
    decreases s.len(),
{
    if s.len() > 0 {
        lemma_digits_value_nonneg(s.drop_last());
    }
}

// ---------------------------------------------------------------------------
// The scanner.
// ---------------------------------------------------------------------------

fn is_digit(c: char) -> (r: bool)
    ensures
        r == is_digit_char(c),
{
    c >= '0' && c <= '9'
}

fn is_alpha(c: char) -> (r: bool)
    ensures
        r == is_alpha_char(c),
{
    (c >= 'a' && c <= 'z') || (c >= 'A' && c <= 'Z') || c == '_'
}

fn is_alphanumeric(c: char) -> (r: bool)
    ensures
        r == is_alphanumeric_char(c),
{
    is_alpha(c) || is_digit(c)
}

/// Parses a numeral as an `i32`, as `str::parse::<i32>` does on strings of digits.
pub fn parse_i32_numeral(text: &Vec<char>) -> (r: Option<i32>)
    ensures
        r == i32_numeral(text@),
{
    if text.len() == 0 {
        return None;
    }
    let mut i: usize = 0;
    while i < text.len()
        invariant
            i <= text.len(),
            all_digits(text@.subrange(0, i as int)),
        decreases text.len() - i,
    {
        if !is_digit(text[i]) {
            assert(!all_digits(text@));
            return None;
        }
        assert(forall|j: int| 0 <= j < i + 1 ==> #[trigger] text@.subrange(0, i + 1)[j] == text@[j]);
        i = i + 1;
    }
    assert(text@.subrange(0, text@.len() as int) =~= text@);
    let mut acc: i64 = 0;
    i = 0;
    while i < text.len()
        invariant
            i <= text.len(),
            all_digits(text@),
            acc == digits_value(text@.subrange(0, i as int)),
            0 <= acc <= i32::MAX,
        decreases text.len() - i,
    {
        let d = (text[i] as u32 - '0' as u32) as i64;
        assert(text@.subrange(0, i + 1).drop_last() =~= text@.subrange(0, i as int));
        acc = acc * 10 + d;
        if acc > i32::MAX as i64 {
            proof {
                lemma_digits_value_prefix(text@, i + 1);
            }
            return None;
        }
        i = i + 1;
    }
    assert(text@.subrange(0, text@.len() as int) =~= text@);
    Some(acc as i32)
}

/// Turns source text into tokens.
pub struct Scanner {
    source: Vec<char>,
    tokens: Vec<Token>,
    start: usize,
    current: usize,
    line: usize,
}

impl Scanner {
    /// The source text, as characters.
    pub closed spec fn source_text(&self) -> Seq<char> {
        self.source@
    }

    /// The tokens scanned so far.
    pub closed spec fn scanned(&self) -> Seq<TokenV> {
        tokens_view(self.tokens@)
    }

    /// The position of the next character to scan.
    pub closed spec fn position(&self) -> int {
        self.current as int
    }

    /// The current line number.
    pub closed spec fn line_number(&self) -> int {
        self.line as int
    }

    /// The scanner's invariant.
    pub closed spec fn wf(&self) -> bool {
        &&& self.current <= self.source@.len() < usize::MAX
        &&& self.start <= self.current
        &&& 1 <= self.line <= self.current + 1
    }

    /// A scanner positioned at the start of `source`, on line 1, with no tokens yet.
    pub fn new(source: String) -> (r: Self)
        requires
            source@.len() < usize::MAX,
        ensures
            r.wf(),
            r.source_text() == source@,
            r.scanned() == Seq::<TokenV>::empty(),
            r.position() == 0,
            r.line_number() == 1,
    {
        let r = Scanner { source: chars_of(source.as_str()), start: 0, current: 0, line: 1, tokens: Vec::new() };
        assert(tokens_view(r.tokens@) =~= Seq::<TokenV>::empty());
        r
    }

    /// Scans the rest of the source and returns every token so far, closed by an
    /// end-of-file token. Scanning must succeed from the current position.
    pub fn scan_tokens(&mut self) -> (r: Vec<Token>)
        requires
            old(self).wf(),
            lex(old(self).source_text(), old(self).position(), old(self).line_number()) is Some,
        ensures
            tokens_view(r@) == old(self).scanned() + lex(
                old(self).source_text(),
                old(self).position(),
                old(self).line_number(),
            ).unwrap(),
            final(self).wf(),
            final(self).scanned() == tokens_view(r@),
            final(self).source_text() == old(self).source_text(),
    {
        let ok = self.scan_all();
        assert(ok);
        clone_tokens(&self.tokens)
    }

    /// Scans the rest of the source as `scan_tokens` does when scanning succeeds from the
    /// current position, and returns `None` (with the scanner unchanged) when it fails.
    pub fn try_scan_tokens(&mut self) -> (r: Option<Vec<Token>>)
        requires
            old(self).wf(),
        ensures
            r is Some <==> lex(old(self).source_text(), old(self).position(), old(self).line_number()) is Some,
            r matches Some(v) ==> tokens_view(v@) == old(self).scanned() + lex(
                old(self).source_text(),
                old(self).position(),
                old(self).line_number(),
            ).unwrap(),
    {
        let mut probe = Scanner {
            source: chars_between(&self.source, 0, self.source.len()),
            tokens: Vec::new(),
            start: self.start,
            current: self.current,
            line: self.line,
        };
        assert(probe.source@ =~= self.source@);
        if probe.scan_all() {
            Some(self.scan_tokens())
        } else {
            None
        }
    }

    /// Scans to the end; `true` exactly when scanning succeeds, and then the tokens are
    /// extended by what `lex` gives.
    fn scan_all(&mut self) -> (ok: bool)
        requires
            old(self).wf(),
        ensures
            ok == (lex(old(self).source_text(), old(self).position(), old(self).line_number()) is Some),
            ok ==> final(self).scanned() == old(self).scanned() + lex(
                old(self).source_text(),
                old(self).position(),
                old(self).line_number(),
            ).unwrap(),
            final(self).wf(),
            final(self).source_text() == old(self).source_text(),
    {
        let ghost src = self.source@;
        let ghost c0 = self.current as int;
        let ghost l0 = self.line as int;
        let ghost before = self.scanned();
        while !self.is_at_end()
            invariant
                self.wf(),
                self.source@ == src,
                src == old(self).source@,
                c0 == old(self).current,
                l0 == old(self).line,
                before == old(self).scanned(),
                self.scanned().len() >= before.len(),
                self.scanned().subrange(0, before.len() as int) == before,
                lex(src, c0, l0) == prepend(
                    self.scanned().subrange(before.len() as int, self.scanned().len() as int),
                    lex(src, self.current as int, self.line as int),
                ),
            decreases self.source@.len() - self.current,
        {
            self.start = self.current;
            let ghost cur = self.current as int;
            let ghost ln = self.line as int;
            let ghost prev = self.scanned();
            if !self.scan_token() {
                return false;
            }
            proof {
                let p_old = prev.subrange(before.len() as int, prev.len() as int);
                let p_new = self.scanned().subrange(before.len() as int, self.scanned().len() as int);
                match lex_step(src, cur, ln) {
                    Lexed::Emit { end, line, token } => {
                        assert(p_new =~= p_old + seq![token]);
                        assert(self.scanned().subrange(0, before.len() as int) =~= prev.subrange(0, before.len() as int));
                        match lex(src, end, line) {
                            Some(rest) => {
                                assert(p_old + (seq![token] + rest) =~= p_new + rest);
                            },
                            None => {},
                        }
                    },
                    Lexed::Skip { end, line } => {
                        assert(p_new =~= p_old);
                    },
                    Lexed::Fail => {},
                }
            }
        }
        let eof = Token { token_type: TokenType::EOF, lexeme: String::new(), line: None, literal: None };
        let ghost prev = self.scanned();
        self.tokens.push(eof);
        proof {
            assert(self.scanned() =~= prev.push(eof_token()));
            assert(eof@ == eof_token());
            let p_old = prev.subrange(before.len() as int, prev.len() as int);
            assert(self.scanned().subrange(0, before.len() as int) =~= prev.subrange(0, before.len() as int));
            assert(prev =~= before + p_old);
            assert(self.scanned() =~= before + (p_old + seq![eof_token()]));
        }
        true
    }

    /// Scans one token (or skips input) from the current position.
    fn scan_token(&mut self) -> (ok: bool)
        requires
            old(self).wf(),
            old(self).current < old(self).source@.len(),
            old(self).start == old(self).current,
        ensures
            final(self).wf(),
            final(self).source@ == old(self).source@,
            ok ==> final(self).current > old(self).current,
            is_digit_char(old(self).source@[old(self).current as int]) ==> ok,
            match lex_step(old(self).source@, old(self).current as int, old(self).line as int) {
                Lexed::Fail => !ok,
                Lexed::Skip { end, line } => ok && final(self).current == end && final(self).line == line
                    && final(self).scanned() == old(self).scanned(),
                Lexed::Emit { end, line, token } => ok && final(self).current == end && final(self).line == line
                    && final(self).scanned() == old(self).scanned().push(token),
            },
    {
        let c = self.advance();
        match c {
            '(' => self.add_token(TokenType::LeftParen, None),
            ')' => self.add_token(TokenType::RightParen, None),
            '{' => self.add_token(TokenType::LeftBrace, None),
            '}' => self.add_token(TokenType::RightBrace, None),
            ',' => self.add_token(TokenType::Comma, None),
            '.' => self.add_token(TokenType::Dot, None),
            '-' => self.add_token(TokenType::Minus, None),
            '+' => self.add_token(TokenType::Plus, None),
            ';' => self.add_token(TokenType::SemiColon, None),
            '*' => self.add_token(TokenType::Star, None),
            '!' => {
                let token = if self.match_next('=') {
                    TokenType::BangEqual
                } else {
                    TokenType::Bang
                };
                self.add_token(token, None);
            },
            '=' => {
                let token = if self.match_next('=') {
                    TokenType::EqualEqual
                } else {
                    TokenType::Equal
                };
                self.add_token(token, None);
            },
            '<' => {
                let token = if self.match_next('=') {
                    TokenType::LessEqual
                } else {
                    TokenType::Less
                };
                self.add_token(token, None);
            },
            '>' => {
                let token = if self.match_next('=') {
                    TokenType::GreaterEqual
                } else {
                    TokenType::Greater
                };
                self.add_token(token, None);
            },
            '/' => {
                // two forward slashes start a comment, which ends at the newline
                if self.match_next('/') {
                    while self.peek() != '\n' && !self.is_at_end()
                        invariant
                            self.wf(),
                            self.source@ == old(self).source@,
                            self.line == old(self).line,
                            self.tokens@ == old(self).tokens@,
                            old(self).current + 2 <= self.current,
                            comment_end(self.source@, old(self).current + 2) == comment_end(
                                self.source@,
                                self.current as int,
                            ),
                        decreases self.source@.len() - self.current,
                    {
                        self.advance();
                    }
                } else {
                    self.add_token(TokenType::Slash, None);
                }
            },
            '"' => {
                return self.consume_string();
            },
            // whitespace does nothing
            ' ' => {},
            '\r' => {},
            '\t' => {},
            // a newline ends the line but adds no token
            '\n' => {
                self.line = self.line + 1;
            },
            c => {
                if is_digit(c) {
                    return self.consume_number();
                } else if is_alpha(c) {
                    self.consume_identifier();
                } else {
                    return false;
                }
            },
        }
        true
    }

    /// The type of the keyword that `text` spells, if any.
    fn keyword(&self, text: &Vec<char>) -> (r: Option<TokenType>)
        ensures
            r == keyword_type(text@),
    {
        let t = text.as_slice();
        if same_chars(t, chars_of("and").as_slice()) {
            Some(TokenType::And)
        } else if same_chars(t, chars_of("class").as_slice()) {
            Some(TokenType::Class)
        } else if same_chars(t, chars_of("else").as_slice()) {
            Some(TokenType::Else)
        } else if same_chars(t, chars_of("false").as_slice()) {
            Some(TokenType::False)
        } else if same_chars(t, chars_of("for").as_slice()) {
            Some(TokenType::For)
        } else if same_chars(t, chars_of("fun").as_slice()) {
            Some(TokenType::Fun)
        } else if same_chars(t, chars_of("if").as_slice()) {
            Some(TokenType::If)
        } else if same_chars(t, chars_of("nil").as_slice()) {
            Some(TokenType::Nil)
        } else if same_chars(t, chars_of("or").as_slice()) {
            Some(TokenType::Or)
        } else if same_chars(t, chars_of("print").as_slice()) {
            Some(TokenType::Print)
        } else if same_chars(t, chars_of("return").as_slice()) {
            Some(TokenType::Return)
        } else if same_chars(t, chars_of("super").as_slice()) {
            Some(TokenType::Super)
        } else if same_chars(t, chars_of("this").as_slice()) {
            Some(TokenType::This)
        } else if same_chars(t, chars_of("true").as_slice()) {
            Some(TokenType::True)
        } else if same_chars(t, chars_of("var").as_slice()) {
            Some(TokenType::Var)
        } else if same_chars(t, chars_of("while").as_slice()) {
            Some(TokenType::While)
        } else {
            None
        }
    }

    /// Consumes the current character and steps forward one character.
    fn advance(&mut self) -> (c: char)
        requires
            old(self).wf(),
            old(self).current < old(self).source@.len(),
        ensures
            final(self).wf(),
            c == old(self).source@[old(self).current as int],
            final(self).current == old(self).current + 1,
            final(self).source@ == old(self).source@,
            final(self).tokens@ == old(self).tokens@,
            final(self).line == old(self).line,
            final(self).start == old(self).start,
    {
        let prev = self.current;
        self.current = self.current + 1;
        self.source[prev]
    }

    /// Adds a token made of the characters from `start` to the current position.
    fn add_token(&mut self, token_type: TokenType, literal: Option<Literal>)
        requires
            old(self).wf(),
        ensures
            final(self).wf(),
            final(self).source@ == old(self).source@,
            final(self).current == old(self).current,
            final(self).line == old(self).line,
            final(self).start == old(self).start,
            final(self).scanned() == old(self).scanned().push(
                TokenV {
                    token_type,
                    lexeme: old(self).source@.subrange(old(self).start as int, old(self).current as int),
                    line: Some(old(self).line),
                    literal: match literal {
                        Some(l) => Some(l@),
                        None => None,
                    },
                },
            ),
    {
        let t = Token {
            token_type,
            literal,
            lexeme: string_between(&self.source, self.start, self.current),
            line: Some(self.line),
        };
        let ghost prev = self.tokens@;
        self.tokens.push(t);
        assert(tokens_view(self.tokens@) =~= tokens_view(prev).push(t@));
    }

    /// Consumes the next character when it is `expected`.
    fn match_next(&mut self, expected: char) -> (r: bool)
        requires
            old(self).wf(),
        ensures
            final(self).wf(),
            r == (old(self).current < old(self).source@.len() && old(self).source@[old(self).current as int] == expected),
            final(self).current == old(self).current + if r { 1int } else { 0int },
            final(self).source@ == old(self).source@,
            final(self).tokens@ == old(self).tokens@,
            final(self).line == old(self).line,
            final(self).start == old(self).start,
    {
        if self.is_at_end() || self.source[self.current] != expected {
            false
        } else {
            self.current = self.current + 1;
            true
        }
    }

    /// The current character, or `'\0'` at the end.
    fn peek(&self) -> (c: char)
        requires
            self.wf(),
        ensures
            c == if self.current < self.source@.len() { self.source@[self.current as int] } else { '\0' },
    {
        if self.is_at_end() {
            '\0'
        } else {
            self.source[self.current]
        }
    }

    /// The character after the current one, or `'\0'` past the end.
    fn peek_next(&self) -> (c: char)
        requires
            self.wf(),
        ensures
            c == if self.current + 1 < self.source@.len() { self.source@[self.current + 1] } else { '\0' },
    {
        if self.current + 1 >= self.source.len() {
            '\0'
        } else {
            self.source[self.current + 1]
        }
    }

    fn consume_string(&mut self) -> (ok: bool)
        requires
            old(self).wf(),
            old(self).current == old(self).start + 1,
            old(self).line <= old(self).current,
            old(self).source@[old(self).start as int] == '"',
        ensures
            final(self).wf(),
            final(self).source@ == old(self).source@,
            ok ==> final(self).current > old(self).current,
            ({
                let src = old(self).source@;
                let start = old(self).start as int;
                let q = quote_end(src, start + 1);
                if q >= src.len() {
                    !ok
                } else {
                    let l = old(self).line + newlines(src.subrange(start + 1, q));
                    &&& ok
                    &&& final(self).current == q + 1
                    &&& final(self).line == l
                    &&& final(self).scanned() == old(self).scanned().push(
                        token_at(src, start, q + 1, l, TokenType::String, Some(LitV::Str(src.subrange(start + 1, q)))),
                    )
                }
            }),
    {
        let ghost src = self.source@;
        let ghost start = self.start as int;
        assert(src.subrange(start + 1, self.current as int) =~= Seq::<char>::empty());
        while self.peek() != '"' && !self.is_at_end()
            invariant
                self.wf(),
                self.source@ == src,
                self.start == start,
                self.tokens@ == old(self).tokens@,
                start + 1 <= self.current,
                self.line <= self.current,
                self.line == old(self).line + newlines(src.subrange(start + 1, self.current as int)),
                quote_end(src, start + 1) == quote_end(src, self.current as int),
            decreases self.source@.len() - self.current,
        {
            let ghost cur = self.current as int;
            if self.peek() == '\n' {
                self.line = self.line + 1;
            }
            self.advance();
            assert(src.subrange(start + 1, cur + 1).drop_last() =~= src.subrange(start + 1, cur));
        }
        if self.is_at_end() {
            return false;
        }
        self.advance();
        let s = string_between(&self.source, self.start + 1, self.current - 1);
        self.add_token(TokenType::String, Some(Literal::String(s)));
        true
    }

    fn consume_number(&mut self) -> (ok: bool)
        requires
            old(self).wf(),
            old(self).current == old(self).start + 1,
            is_digit_char(old(self).source@[old(self).start as int]),
        ensures
            final(self).wf(),
            final(self).source@ == old(self).source@,
            final(self).current >= old(self).current,
            ok,
            ({
                let src = old(self).source@;
                let start = old(self).start as int;
                let e = number_end(src, start);
                match number_literal(src.subrange(start, e)) {
                    Some(lit) => ok && final(self).current == e && final(self).line == old(self).line
                        && final(self).scanned() == old(self).scanned().push(
                        token_at(src, start, e, old(self).line as int, TokenType::Number, Some(lit)),
                    ),
                    None => !ok,
                }
            }),
    {
        let ghost src = self.source@;
        let ghost start = self.start as int;
        while is_digit(self.peek())
            invariant
                self.wf(),
                self.source@ == src,
                self.start == start,
                self.line == old(self).line,
                self.tokens@ == old(self).tokens@,
                start + 1 <= self.current,
                digits_end(src, start + 1) == digits_end(src, self.current as int),
            decreases self.source@.len() - self.current,
        {
            self.advance();
        }
        if self.peek() == '.' && is_digit(self.peek_next()) {
            self.advance();
            while is_digit(self.peek())
                invariant
                    self.wf(),
                    self.source@ == src,
                    self.start == start,
                    self.line == old(self).line,
                    self.tokens@ == old(self).tokens@,
                    start + 1 <= self.current,
                    digits_end(src, digits_end(src, start + 1) + 1) == digits_end(src, self.current as int),
                decreases self.source@.len() - self.current,
            {
                self.advance();
            }
        }
        let text = chars_between(&self.source, self.start, self.current);
        match parse_i32_numeral(&text) {
            Some(v) => {
                self.add_token(TokenType::Number, Some(Literal::Int(v)));
                true
            },
            None => {
                let s = string_between(&self.source, self.start, self.current);
                proof {
                    lemma_number_text(src, start);
                }
                match parse_f32(s.as_str()) {
                    Some(bits) => {
                        self.add_token(TokenType::Number, Some(Literal::Float(bits)));
                        true
                    },
                    None => false,
                }
            },
        }
    }

    fn consume_identifier(&mut self)
        requires
            old(self).wf(),
            old(self).current == old(self).start + 1,
        ensures
            final(self).wf(),
            final(self).source@ == old(self).source@,
            final(self).line == old(self).line,
            final(self).current >= old(self).current,
            ({
                let src = old(self).source@;
                let start = old(self).start as int;
                let e = word_end(src, start + 1);
                let tt = match keyword_type(src.subrange(start, e)) {
                    Some(k) => k,
                    None => TokenType::Identifier,
                };
                &&& final(self).current == e
                &&& final(self).scanned() == old(self).scanned().push(
                    token_at(src, start, e, old(self).line as int, tt, None),
                )
            }),
    {
        let ghost src = self.source@;
        let ghost start = self.start as int;
        while is_alphanumeric(self.peek())
            invariant
                self.wf(),
                self.source@ == src,
                self.start == start,
                self.line == old(self).line,
                self.tokens@ == old(self).tokens@,
                start + 1 <= self.current,
                word_end(src, start + 1) == word_end(src, self.current as int),
            decreases self.source@.len() - self.current,
        {
            self.advance();
        }
        let text = chars_between(&self.source, self.start, self.current);
        let token_type = match self.keyword(&text) {
            Some(k) => k,
            None => TokenType::Identifier,
        };
        self.add_token(token_type, None);
    }

    /// Whether every character has been scanned.
    fn is_at_end(&self) -> (r: bool)
        requires
            self.wf(),
        ensures
            r == (self.current >= self.source@.len()),
    {
        self.current >= self.source.len()
    }
}

} // verus!
