//! How scanning treats whitespace and comments, and how it reads back printed numbers.
use vstd::prelude::*;

use crate::expression::{LitV, ValueV};
use crate::interpreter::{PieceV, int_text, nat_text, value_piece};
use crate::scanner::{
    all_digits, digits_end, digits_value, eof_token, is_alpha_char, is_alphanumeric_char, is_digit_char, keyword_type, lex,
    newlines, token_at,
};
use crate::token::{TokenType, TokenV};

verus! {

/// Whitespace is insignificant to the scanner: a space, tab or carriage return is
/// skipped, so scanning from it gives what scanning from the next character gives, on
/// the same line.
pub proof fn law_whitespace_skipped(src: Seq<char>, pos: int, line: int)
    requires
        0 <= pos < src.len(),
        src[pos] == ' ' || src[pos] == '\t' || src[pos] == '\r',
    ensures
        lex(src, pos, line) == lex(src, pos + 1, line),
{
}

/// A string literal runs from a double quote to the next one: its token holds exactly the
/// characters between them, it is reported on the line where it ends (line breaks inside
/// it count), and scanning goes on after the closing quote.
pub proof fn law_string_literal(src: Seq<char>, pos: int, q: int, line: int)
    requires
        0 <= pos < q < src.len(),
        src[pos] == '"',
        src[q] == '"',
        forall|k: int| pos < k < q ==> src[k] != '"',
    ensures
        ({
            let l = line + newlines(src.subrange(pos + 1, q));
            let token = token_at(src, pos, q + 1, l, TokenType::String, Some(LitV::Str(src.subrange(pos + 1, q))));
            lex(src, pos, line) == match lex(src, q + 1, l) {
                Some(rest) => Some(seq![token] + rest),
                None => None::<Seq<TokenV>>,
            }
        }),
{
    lemma_quote_end(src, pos + 1, q);
}

/// A string literal with no closing quote is a scanning error.
pub proof fn law_unterminated_string(src: Seq<char>, pos: int, line: int)
    requires
        0 <= pos < src.len(),
        src[pos] == '"',
        forall|k: int| pos < k < src.len() ==> src[k] != '"',
    ensures
        lex(src, pos, line) is None,
{
    lemma_quote_end(src, pos + 1, src.len() as int);
}

proof fn lemma_quote_end(src: Seq<char>, i: int, q: int)
    requires
        0 <= i <= q <= src.len(),
        forall|k: int| i <= k < q ==> src[k] != '"',
        q == src.len() || src[q] == '"',
    ensures
        crate::scanner::quote_end(src, i) == q,
    decreases q - i,
{
    if i < q {
        lemma_quote_end(src, i + 1, q);
    }
}

/// A word (a letter or `_`, then letters, digits and `_`) is read whole: it is the
/// keyword it spells, or else an identifier, with the word as its lexeme, and scanning
/// goes on after it.
pub proof fn law_word(src: Seq<char>, pos: int, e: int, line: int)
    requires
        0 <= pos < e <= src.len(),
        is_alpha_char(src[pos]),
        forall|k: int| pos <= k < e ==> is_alphanumeric_char(#[trigger] src[k]),
        e == src.len() || !is_alphanumeric_char(src[e]),
    ensures
        ({
            let word = src.subrange(pos, e);
            let tt = match keyword_type(word) {
                Some(k) => k,
                None => TokenType::Identifier,
            };
            lex(src, pos, line) == match lex(src, e, line) {
                Some(rest) => Some(seq![token_at(src, pos, e, line, tt, None)] + rest),
                None => None::<Seq<TokenV>>,
            }
        }),
{
    lemma_word_end(src, pos + 1, e);
}

proof fn lemma_word_end(src: Seq<char>, i: int, e: int)
    requires
        0 <= i <= e <= src.len(),
        forall|k: int| i <= k < e ==> is_alphanumeric_char(#[trigger] src[k]),
        e == src.len() || !is_alphanumeric_char(src[e]),
    ensures
        crate::scanner::word_end(src, i) == e,
    decreases e - i,
{
    if i < e {
        lemma_word_end(src, i + 1, e);
    }
}

/// Whether the character after `pos` is `c`.
pub open spec fn next_is(src: Seq<char>, pos: int, c: char) -> bool {
    pos + 1 < src.len() && src[pos + 1] == c
}

/// Scanning from `pos` reads one token of type `tt` spanning `len` characters (with no
/// literal value), then goes on after it.
pub open spec fn scans_as(src: Seq<char>, pos: int, line: int, tt: TokenType, len: int) -> bool {
    lex(src, pos, line) == match lex(src, pos + len, line) {
        Some(rest) => Some(seq![token_at(src, pos, pos + len, line, tt, None)] + rest),
        None => None::<Seq<TokenV>>,
    }
}

/// Punctuation and operators: each single character stands for its token, and `!`, `=`,
/// `<`, `>` followed by `=` make one two-character token (`!=`, `==`, `<=`, `>=`); a `/`
/// not followed by another `/` is division.
pub proof fn law_operator_tokens(src: Seq<char>, pos: int, line: int)
    requires
        0 <= pos < src.len(),
    ensures
        src[pos] == '(' ==> scans_as(src, pos, line, TokenType::LeftParen, 1),
        src[pos] == ')' ==> scans_as(src, pos, line, TokenType::RightParen, 1),
        src[pos] == '{' ==> scans_as(src, pos, line, TokenType::LeftBrace, 1),
        src[pos] == '}' ==> scans_as(src, pos, line, TokenType::RightBrace, 1),
        src[pos] == ',' ==> scans_as(src, pos, line, TokenType::Comma, 1),
        src[pos] == '.' ==> scans_as(src, pos, line, TokenType::Dot, 1),
        src[pos] == '-' ==> scans_as(src, pos, line, TokenType::Minus, 1),
        src[pos] == '+' ==> scans_as(src, pos, line, TokenType::Plus, 1),
        src[pos] == ';' ==> scans_as(src, pos, line, TokenType::SemiColon, 1),
        src[pos] == '*' ==> scans_as(src, pos, line, TokenType::Star, 1),
        src[pos] == '!' && next_is(src, pos, '=') ==> scans_as(src, pos, line, TokenType::BangEqual, 2),
        src[pos] == '!' && !next_is(src, pos, '=') ==> scans_as(src, pos, line, TokenType::Bang, 1),
        src[pos] == '=' && next_is(src, pos, '=') ==> scans_as(src, pos, line, TokenType::EqualEqual, 2),
        src[pos] == '=' && !next_is(src, pos, '=') ==> scans_as(src, pos, line, TokenType::Equal, 1),
        src[pos] == '<' && next_is(src, pos, '=') ==> scans_as(src, pos, line, TokenType::LessEqual, 2),
        src[pos] == '<' && !next_is(src, pos, '=') ==> scans_as(src, pos, line, TokenType::Less, 1),
        src[pos] == '>' && next_is(src, pos, '=') ==> scans_as(src, pos, line, TokenType::GreaterEqual, 2),
        src[pos] == '>' && !next_is(src, pos, '=') ==> scans_as(src, pos, line, TokenType::Greater, 1),
        src[pos] == '/' && !next_is(src, pos, '/') ==> scans_as(src, pos, line, TokenType::Slash, 1),
{
}

/// A line break is skipped too, and counts a line.
pub proof fn law_newline_counted(src: Seq<char>, pos: int, line: int)
    requires
        0 <= pos < src.len(),
        src[pos] == '\n',
    ensures
        lex(src, pos, line) == lex(src, pos + 1, line + 1),
{
}

/// A comment runs from `//` to the end of its line: scanning from the comment gives what
/// scanning from the line break (or the end of the text) after it gives.
pub proof fn law_comment_skipped(src: Seq<char>, pos: int, q: int, line: int)
    requires
        0 <= pos,
        pos + 2 <= q <= src.len(),
        src[pos] == '/',
        src[pos + 1] == '/',
        forall|k: int| pos + 2 <= k < q ==> src[k] != '\n',
        q == src.len() || src[q] == '\n',
    ensures
        lex(src, pos, line) == lex(src, q, line),
{
    lemma_comment_end(src, pos + 2, q);
}

proof fn lemma_comment_end(src: Seq<char>, i: int, q: int)
    requires
        0 <= i <= q <= src.len(),
        forall|k: int| i <= k < q ==> src[k] != '\n',
        q == src.len() || src[q] == '\n',
    ensures
        crate::scanner::comment_end(src, i) == q,
    decreases q - i,
{
    if i < q {
        lemma_comment_end(src, i + 1, q);
    }
}

/// The digit character for a number below ten is a digit whose value is that number.
proof fn lemma_digit_char(d: nat)
    requires
        d < 10,
    ensures
        is_digit_char(crate::interpreter::digit_char(d)),
        crate::interpreter::digit_char(d) as int - '0' as int == d,
{
}

/// The decimal text of a natural number is a non-empty string of digits whose value is
/// the number.
pub proof fn law_nat_text_value(n: nat)
    ensures
        nat_text(n).len() >= 1,
        all_digits(nat_text(n)),
        digits_value(nat_text(n)) == n,
    decreases n,
{
    if n < 10 {
        lemma_digit_char(n);
        let s = nat_text(n);
        assert(s.drop_last() =~= Seq::<char>::empty());
        assert(digits_value(Seq::<char>::empty()) == 0);
        assert(digits_value(s) == digits_value(s.drop_last()) * 10 + (s.last() as int - '0' as int));
    } else {
        law_nat_text_value(n / 10);
        lemma_digit_char(n % 10);
        let s = nat_text(n);
        assert(s.drop_last() =~= nat_text(n / 10));
        assert(s.last() == crate::interpreter::digit_char(n % 10));
        assert(digits_value(s) == digits_value(s.drop_last()) * 10 + (s.last() as int - '0' as int));
        assert((n / 10) * 10 + n % 10 == n);
        assert forall|i: int| 0 <= i < s.len() implies is_digit_char(#[trigger] s[i]) by {
            if i < s.len() - 1 {
                assert(s[i] == nat_text(n / 10)[i]);
            }
        }
    }
}

/// A run of digits to the end of the text ends at the end.
proof fn lemma_digits_to_end(src: Seq<char>, p: int)
    requires
        0 <= p <= src.len(),
        forall|k: int| p <= k < src.len() ==> is_digit_char(#[trigger] src[k]),
    ensures
        digits_end(src, p) == src.len(),
    decreases src.len() - p,
{
    if p < src.len() {
        lemma_digits_to_end(src, p + 1);
    }
}

/// The text of a printed value, if it is text.
pub open spec fn printed_text(v: ValueV) -> Seq<char> {
    match value_piece(v) {
        PieceV::Text(t) => t,
        PieceV::Float(_) => Seq::empty(),
    }
}

/// Scanning the printed form of an integer gives the integer back: a non-negative
/// integer scans as one number token holding it, a negative one (above the smallest) as
/// a minus sign followed by the number token of its opposite.
pub proof fn law_printed_integers_scan_back(i: i32, line: int)
    ensures
        i >= 0 ==> lex(printed_text(ValueV::Literal(LitV::Int(i))), 0, line) == Some(
            seq![
                token_at(printed_text(ValueV::Literal(LitV::Int(i))), 0, printed_text(ValueV::Literal(LitV::Int(i))).len() as int, line, TokenType::Number, Some(LitV::Int(i))),
                eof_token(),
            ],
        ),
        i < 0 && i > i32::MIN ==> (lex(printed_text(ValueV::Literal(LitV::Int(i))), 0, line) matches Some(ts)
            && ts.len() == 3 && ts[0].token_type == TokenType::Minus && ts[1].token_type == TokenType::Number
            && ts[1].literal == Some(LitV::Int((-i) as i32)) && ts[2] == eof_token()),
{
    let t = printed_text(ValueV::Literal(LitV::Int(i)));
    assert(t == int_text(i));
    if i >= 0 {
        law_nat_text_value(i as nat);
        assert(t.subrange(0, t.len() as int) =~= t);
        lemma_number_run(t, 0, line, i);
    } else if i > i32::MIN {
        let m = (-i) as nat;
        law_nat_text_value(m);
        let u = nat_text(m);
        assert(t =~= seq!['-'] + u);
        assert forall|k: int| 1 <= k < t.len() implies is_digit_char(#[trigger] t[k]) by {
            assert(t[k] == u[k - 1]);
        }
        assert(t.subrange(1, t.len() as int) =~= u);
        lemma_number_run(t, 1, line, (-i) as i32);
        let rest = lex(t, 1, line).unwrap();
        assert(lex(t, 0, line) == Some(seq![token_at(t, 0, 1, line, TokenType::Minus, None)] + rest));
    }
}

/// From a position where digits run to the end of the text and their value `v` fits an
/// integer, scanning gives one number token holding `v`, then the end.
proof fn lemma_number_run(src: Seq<char>, p: int, line: int, v: i32)
    requires
        0 <= p < src.len(),
        forall|k: int| p <= k < src.len() ==> is_digit_char(#[trigger] src[k]),
        digits_value(src.subrange(p, src.len() as int)) == v,
        v >= 0,
    ensures
        lex(src, p, line) == Some(
            seq![token_at(src, p, src.len() as int, line, TokenType::Number, Some(LitV::Int(v))), eof_token()],
        ),
{
    lemma_digits_to_end(src, p + 1);
    let text = src.subrange(p, src.len() as int);
    assert(all_digits(text)) by {
        assert forall|k: int| 0 <= k < text.len() implies is_digit_char(#[trigger] text[k]) by {
            assert(text[k] == src[p + k]);
        }
    }
    assert(crate::scanner::number_end(src, p) == src.len());
    assert(crate::scanner::number_literal(text) == Some(LitV::Int(v)));
    let c = src[p];
    assert(is_digit_char(c));
    assert(lex(src, src.len() as int, line) == Some(seq![eof_token()]));
}

} // verus!
