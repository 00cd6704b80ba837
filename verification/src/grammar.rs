//! The syntactic grammar of the language, stated over token views: what the parser
//! produces from a token sequence, position by position.
use vstd::prelude::*;

use crate::expression::{ExprV, LitV};
use crate::statement::StmtV;
use crate::token::{TokenType, TokenV};

verus! {

/// A syntax error: the token where it was found and a message.
pub struct PErr {
    pub token: TokenV,
    pub message: Seq<char>,
}

/// The outcome of parsing from a position: a result and the position after it, or an
/// error and the position where parsing stopped.
pub enum Parsed<T> {
    Done(T, int),
    Failed(PErr, int),
}

/// Whether the token at `p` ends the input.
pub open spec fn at_end(t: Seq<TokenV>, p: int) -> bool {
    t[p].token_type == TokenType::EOF
}

/// Whether the token at `p` is of type `tt` (and not the end).
pub open spec fn check(t: Seq<TokenV>, p: int, tt: TokenType) -> bool {
    0 <= p < t.len() && !at_end(t, p) && t[p].token_type == tt
}

/// Whether the token at `p` is of one of the types `tts` (and not the end).
pub open spec fn check_any(t: Seq<TokenV>, p: int, tts: Seq<TokenType>) -> bool {
    0 <= p < t.len() && !at_end(t, p) && tts.contains(t[p].token_type)
}

/// The position after consuming the token at `p`; the end is never passed.
pub open spec fn advance(t: Seq<TokenV>, p: int) -> int {
    if at_end(t, p) {
        p
    } else {
        p + 1
    }
}

pub open spec fn err<T>(t: Seq<TokenV>, p: int, message: Seq<char>) -> Parsed<T> {
    Parsed::Failed(PErr { token: t[p], message }, p)
}

/// Expects a token of type `tt` at `p`.
pub open spec fn consume(t: Seq<TokenV>, p: int, tt: TokenType, message: Seq<char>) -> Parsed<TokenV> {
    if check(t, p, tt) {
        Parsed::Done(t[p], p + 1)
    } else {
        err(t, p, message)
    }
}

// Levels that order the mutually recursive parsing functions at one position.

pub open spec fn binary(left: ExprV, operator: TokenV, right: ExprV) -> ExprV {
    ExprV::Binary { left: Box::new(left), operator, right: Box::new(right) }
}

pub open spec fn logical(left: ExprV, operator: TokenV, right: ExprV) -> ExprV {
    ExprV::Logical { left: Box::new(left), operator, right: Box::new(right) }
}

/// How many tokens are left from `p` (zero past the end).
pub open spec fn remaining(t: Seq<TokenV>, p: int) -> nat {
    if p < t.len() {
        (t.len() - p) as nat
    } else {
        0
    }
}

/// `expression -> assignment`
#[verifier::opaque]
pub open spec fn expression(t: Seq<TokenV>, p: int) -> Parsed<ExprV>
    decreases remaining(t, p), 30nat,
{
    assignment(t, p)
}

/// `assignment -> IDENTIFIER "=" assignment | or`
#[verifier::opaque]
pub open spec fn assignment(t: Seq<TokenV>, p: int) -> Parsed<ExprV>
    decreases remaining(t, p), 29nat,
{
    match or_expr(t, p) {
        Parsed::Failed(e, q) => Parsed::Failed(e, q),
        Parsed::Done(expr, p1) => if check(t, p1, TokenType::Equal) && p1 >= p {
            let equals = t[p1];
            match assignment(t, p1 + 1) {
                Parsed::Failed(e, q) => Parsed::Failed(e, q),
                Parsed::Done(value, p2) => match expr {
                    ExprV::Variable { id, name } => Parsed::Done(
                        ExprV::Assignment { id: p1 as usize, name, value: Box::new(value) },
                        p2,
                    ),
                    _ => Parsed::Failed(PErr { token: equals, message: "Invalid assignment target"@ }, p2),
                },
            }
        } else {
            Parsed::Done(expr, p1)
        },
    }
}

/// `or -> and ("or" equality)*`
#[verifier::opaque]
pub open spec fn or_expr(t: Seq<TokenV>, p: int) -> Parsed<ExprV>
    decreases remaining(t, p), 28nat,
{
    match and_expr(t, p) {
        Parsed::Failed(e, q) => Parsed::Failed(e, q),
        Parsed::Done(left, p1) => if p1 >= p {
            or_rest(t, p1, left)
        } else {
            Parsed::Done(left, p1)
        },
    }
}

#[verifier::opaque]
pub open spec fn or_rest(t: Seq<TokenV>, p: int, left: ExprV) -> Parsed<ExprV>
    decreases remaining(t, p), 27nat,
{
    if check(t, p, TokenType::Or) {
        match equality(t, p + 1) {
            Parsed::Failed(e, q) => Parsed::Failed(e, q),
            Parsed::Done(right, p2) => if p2 > p {
                or_rest(t, p2, logical(left, t[p], right))
            } else {
                Parsed::Done(logical(left, t[p], right), p2)
            },
        }
    } else {
        Parsed::Done(left, p)
    }
}

/// `and -> equality ("and" equality)*`
#[verifier::opaque]
pub open spec fn and_expr(t: Seq<TokenV>, p: int) -> Parsed<ExprV>
    decreases remaining(t, p), 26nat,
{
    match equality(t, p) {
        Parsed::Failed(e, q) => Parsed::Failed(e, q),
        Parsed::Done(left, p1) => if p1 >= p {
            and_rest(t, p1, left)
        } else {
            Parsed::Done(left, p1)
        },
    }
}

#[verifier::opaque]
pub open spec fn and_rest(t: Seq<TokenV>, p: int, left: ExprV) -> Parsed<ExprV>
    decreases remaining(t, p), 25nat,
{
    if check(t, p, TokenType::And) {
        match equality(t, p + 1) {
            Parsed::Failed(e, q) => Parsed::Failed(e, q),
            Parsed::Done(right, p2) => if p2 > p {
                and_rest(t, p2, logical(left, t[p], right))
            } else {
                Parsed::Done(logical(left, t[p], right), p2)
            },
        }
    } else {
        Parsed::Done(left, p)
    }
}

pub open spec fn equality_ops() -> Seq<TokenType> {
    seq![TokenType::BangEqual, TokenType::EqualEqual]
}

pub open spec fn comparison_ops() -> Seq<TokenType> {
    seq![TokenType::Greater, TokenType::GreaterEqual, TokenType::Less, TokenType::LessEqual]
}

pub open spec fn term_ops() -> Seq<TokenType> {
    seq![TokenType::Minus, TokenType::Plus]
}

pub open spec fn factor_ops() -> Seq<TokenType> {
    seq![TokenType::Slash, TokenType::Star]
}

pub open spec fn unary_ops() -> Seq<TokenType> {
    seq![TokenType::Bang, TokenType::Minus]
}

/// `equality -> comparison (("!=" | "==") comparison)*`
#[verifier::opaque]
pub open spec fn equality(t: Seq<TokenV>, p: int) -> Parsed<ExprV>
    decreases remaining(t, p), 24nat,
{
    match comparison(t, p) {
        Parsed::Failed(e, q) => Parsed::Failed(e, q),
        Parsed::Done(left, p1) => if p1 >= p {
            equality_rest(t, p1, left)
        } else {
            Parsed::Done(left, p1)
        },
    }
}

#[verifier::opaque]
pub open spec fn equality_rest(t: Seq<TokenV>, p: int, left: ExprV) -> Parsed<ExprV>
    decreases remaining(t, p), 23nat,
{
    if check_any(t, p, equality_ops()) {
        match comparison(t, p + 1) {
            Parsed::Failed(e, q) => Parsed::Failed(e, q),
            Parsed::Done(right, p2) => if p2 > p {
                equality_rest(t, p2, binary(left, t[p], right))
            } else {
                Parsed::Done(binary(left, t[p], right), p2)
            },
        }
    } else {
        Parsed::Done(left, p)
    }
}

/// `comparison -> term ((">" | ">=" | "<" | "<=") term)*`
#[verifier::opaque]
pub open spec fn comparison(t: Seq<TokenV>, p: int) -> Parsed<ExprV>
    decreases remaining(t, p), 22nat,
{
    match term(t, p) {
        Parsed::Failed(e, q) => Parsed::Failed(e, q),
        Parsed::Done(left, p1) => if p1 >= p {
            comparison_rest(t, p1, left)
        } else {
            Parsed::Done(left, p1)
        },
    }
}

#[verifier::opaque]
pub open spec fn comparison_rest(t: Seq<TokenV>, p: int, left: ExprV) -> Parsed<ExprV>
    decreases remaining(t, p), 21nat,
{
    if check_any(t, p, comparison_ops()) {
        match term(t, p + 1) {
            Parsed::Failed(e, q) => Parsed::Failed(e, q),
            Parsed::Done(right, p2) => if p2 > p {
                comparison_rest(t, p2, binary(left, t[p], right))
            } else {
                Parsed::Done(binary(left, t[p], right), p2)
            },
        }
    } else {
        Parsed::Done(left, p)
    }
}

/// `term -> factor (("-" | "+") factor)*`
#[verifier::opaque]
pub open spec fn term(t: Seq<TokenV>, p: int) -> Parsed<ExprV>
    decreases remaining(t, p), 20nat,
{
    match factor(t, p) {
        Parsed::Failed(e, q) => Parsed::Failed(e, q),
        Parsed::Done(left, p1) => if p1 >= p {
            term_rest(t, p1, left)
        } else {
            Parsed::Done(left, p1)
        },
    }
}

#[verifier::opaque]
pub open spec fn term_rest(t: Seq<TokenV>, p: int, left: ExprV) -> Parsed<ExprV>
    decreases remaining(t, p), 19nat,
{
    if check_any(t, p, term_ops()) {
        match factor(t, p + 1) {
            Parsed::Failed(e, q) => Parsed::Failed(e, q),
            Parsed::Done(right, p2) => if p2 > p {
                term_rest(t, p2, binary(left, t[p], right))
            } else {
                Parsed::Done(binary(left, t[p], right), p2)
            },
        }
    } else {
        Parsed::Done(left, p)
    }
}

/// `factor -> unary (("/" | "*") unary)*`
#[verifier::opaque]
pub open spec fn factor(t: Seq<TokenV>, p: int) -> Parsed<ExprV>
    decreases remaining(t, p), 18nat,
{
    match unary(t, p) {
        Parsed::Failed(e, q) => Parsed::Failed(e, q),
        Parsed::Done(left, p1) => if p1 >= p {
            factor_rest(t, p1, left)
        } else {
            Parsed::Done(left, p1)
        },
    }
}

#[verifier::opaque]
pub open spec fn factor_rest(t: Seq<TokenV>, p: int, left: ExprV) -> Parsed<ExprV>
    decreases remaining(t, p), 17nat,
{
    if check_any(t, p, factor_ops()) {
        match unary(t, p + 1) {
            Parsed::Failed(e, q) => Parsed::Failed(e, q),
            Parsed::Done(right, p2) => if p2 > p {
                factor_rest(t, p2, binary(left, t[p], right))
            } else {
                Parsed::Done(binary(left, t[p], right), p2)
            },
        }
    } else {
        Parsed::Done(left, p)
    }
}

/// `unary -> ("!" | "-") unary | call`
#[verifier::opaque]
pub open spec fn unary(t: Seq<TokenV>, p: int) -> Parsed<ExprV>
    decreases remaining(t, p), 16nat,
{
    if check_any(t, p, unary_ops()) {
        match unary(t, p + 1) {
            Parsed::Failed(e, q) => Parsed::Failed(e, q),
            Parsed::Done(right, p2) => Parsed::Done(ExprV::Unary { operator: t[p], right: Box::new(right) }, p2),
        }
    } else {
        call(t, p)
    }
}

/// `call -> primary ("(" arguments? ")")*`
#[verifier::opaque]
pub open spec fn call(t: Seq<TokenV>, p: int) -> Parsed<ExprV>
    decreases remaining(t, p), 15nat,
{
    match primary(t, p) {
        Parsed::Failed(e, q) => Parsed::Failed(e, q),
        Parsed::Done(e, p1) => if p < p1 && p < t.len() {
            call_rest(t, p1, e)
        } else {
            Parsed::Done(e, p1)
        },
    }
}

#[verifier::opaque]
pub open spec fn call_rest(t: Seq<TokenV>, p: int, callee: ExprV) -> Parsed<ExprV>
    decreases remaining(t, p), 14nat,
{
    if check(t, p, TokenType::LeftParen) {
        match finish_call(t, p + 1, callee) {
            Parsed::Failed(e, q) => Parsed::Failed(e, q),
            Parsed::Done(e, p2) => if p2 > p {
                call_rest(t, p2, e)
            } else {
                Parsed::Done(e, p2)
            },
        }
    } else {
        Parsed::Done(callee, p)
    }
}

/// The arguments and closing parenthesis of a call whose `(` has been consumed. The
/// arguments are expressions separated by commas.
#[verifier::opaque]
pub open spec fn finish_call(t: Seq<TokenV>, p: int, callee: ExprV) -> Parsed<ExprV>
    decreases remaining(t, p), 33nat,
{
    let args = if !check(t, p, TokenType::RightParen) {
        arguments(t, p, Seq::empty())
    } else {
        Parsed::Done(Seq::empty(), p)
    };
    match args {
        Parsed::Failed(e, q) => Parsed::Failed(e, q),
        Parsed::Done(args, p1) => match consume(t, p1, TokenType::RightParen, "Expected ')' after arguments."@) {
            Parsed::Failed(e, q) => Parsed::Failed(e, q),
            Parsed::Done(paren, p2) => Parsed::Done(ExprV::Call { callee: Box::new(callee), paren, args }, p2),
        },
    }
}

/// The arguments of a call, after the `args` read so far: an expression, then more
/// after a comma. The 256th argument is refused.
#[verifier::opaque]
pub open spec fn arguments(t: Seq<TokenV>, p: int, args: Seq<ExprV>) -> Parsed<Seq<ExprV>>
    decreases remaining(t, p), 32nat,
{
    if args.len() >= 255 {
        err(t, p, "Exceeded maximum number of function arguments (255)."@)
    } else {
        match expression(t, p) {
            Parsed::Failed(e, q) => Parsed::Failed(e, q),
            Parsed::Done(a, p1) => if check(t, p1, TokenType::Comma) && p <= p1 {
                arguments(t, p1 + 1, args.push(a))
            } else {
                Parsed::Done(args.push(a), p1)
            },
        }
    }
}

pub open spec fn literal_types() -> Seq<TokenType> {
    seq![TokenType::String, TokenType::Number]
}

/// `primary -> "false" | "true" | "nil" | STRING | NUMBER | "(" expression ")" | IDENTIFIER`
#[verifier::opaque]
pub open spec fn primary(t: Seq<TokenV>, p: int) -> Parsed<ExprV>
    decreases remaining(t, p), 13nat,
{
    if check(t, p, TokenType::False) {
        Parsed::Done(ExprV::Literal(LitV::False), p + 1)
    } else if check(t, p, TokenType::True) {
        Parsed::Done(ExprV::Literal(LitV::True), p + 1)
    } else if check(t, p, TokenType::Nil) {
        Parsed::Done(ExprV::Literal(LitV::Nil), p + 1)
    } else if check_any(t, p, literal_types()) {
        Parsed::Done(ExprV::Literal(t[p].literal.unwrap()), p + 1)
    } else if check(t, p, TokenType::LeftParen) {
        match expression(t, p + 1) {
            Parsed::Failed(e, q) => Parsed::Failed(e, q),
            Parsed::Done(e, p1) => match consume(t, p1, TokenType::RightParen, "Expect ')' after expression."@) {
                Parsed::Failed(er, q) => Parsed::Failed(er, q),
                Parsed::Done(_, p2) => Parsed::Done(ExprV::Grouping(Box::new(e)), p2),
            },
        }
    } else if check(t, p, TokenType::Identifier) {
        Parsed::Done(ExprV::Variable { id: p as usize, name: t[p] }, p + 1)
    } else {
        err(t, p, "Expression expected."@)
    }
}

// Statements.

/// `declaration -> varDecl | statement`
#[verifier::opaque]
pub open spec fn declaration(t: Seq<TokenV>, p: int) -> Parsed<StmtV>
    decreases remaining(t, p), 11nat,
{
    if check(t, p, TokenType::Var) {
        var_declaration(t, p)
    } else {
        statement(t, p)
    }
}

/// `varDecl -> "var" IDENTIFIER ("=" expression)? ";"`, from the `var` keyword.
#[verifier::opaque]
pub open spec fn var_declaration(t: Seq<TokenV>, p: int) -> Parsed<StmtV> {
    match consume(t, advance(t, p), TokenType::Identifier, "Expected variable name."@) {
        Parsed::Failed(e, q) => Parsed::Failed(e, q),
        Parsed::Done(name, p1) => {
            let init = if check(t, p1, TokenType::Equal) {
                match expression(t, p1 + 1) {
                    Parsed::Failed(e, q) => Parsed::Failed(e, q),
                    Parsed::Done(e, q) => Parsed::Done(Some(e), q),
                }
            } else {
                Parsed::Done(None, p1)
            };
            match init {
                Parsed::Failed(e, q) => Parsed::Failed(e, q),
                Parsed::Done(initializer, p2) => match consume(
                    t,
                    p2,
                    TokenType::SemiColon,
                    "Expected ';' after variable declaration."@,
                ) {
                    Parsed::Failed(e, q) => Parsed::Failed(e, q),
                    Parsed::Done(_, p3) => Parsed::Done(StmtV::Var { name, initializer }, p3),
                },
            }
        },
    }
}

/// `statement -> forStmt | printStmt | ifStmt | whileStmt | block | exprStmt`
#[verifier::opaque]
pub open spec fn statement(t: Seq<TokenV>, p: int) -> Parsed<StmtV>
    decreases remaining(t, p), 10nat,
{
    if check(t, p, TokenType::For) {
        for_statement(t, p + 1)
    } else if check(t, p, TokenType::Print) {
        print_statement(t, p + 1)
    } else if check(t, p, TokenType::If) {
        if_statement(t, p + 1)
    } else if check(t, p, TokenType::While) {
        while_statement(t, p + 1)
    } else if check(t, p, TokenType::LeftBrace) {
        block_statement(t, p + 1)
    } else {
        expression_statement(t, p)
    }
}

/// An optional clause of a `for` loop: an expression, absent when the token that ends
/// the clause (`end`) comes at once (it is not consumed).
#[verifier::opaque]
pub open spec fn for_clause(t: Seq<TokenV>, p: int, end: TokenType) -> Parsed<Option<ExprV>> {
    if !check(t, p, end) {
        match expression(t, p) {
            Parsed::Failed(e, q) => Parsed::Failed(e, q),
            Parsed::Done(c, q) => Parsed::Done(Some(c), q),
        }
    } else {
        Parsed::Done(None, p)
    }
}

/// The initializer clause of a `for` loop.
#[verifier::opaque]
pub open spec fn for_initializer(t: Seq<TokenV>, p: int) -> Parsed<Option<StmtV>> {
    if check(t, p, TokenType::SemiColon) {
        Parsed::Done(None, p + 1)
    } else {
        let s = if check(t, p, TokenType::Var) {
            var_declaration(t, p)
        } else {
            expression_statement(t, p)
        };
        match s {
            Parsed::Failed(e, q) => Parsed::Failed(e, q),
            Parsed::Done(s, q) => Parsed::Done(Some(s), q),
        }
    }
}

/// The `while` loop that a `for` loop stands for:
/// `{ initializer; while (condition) { body; increment; } }`, with `true` for a missing
/// condition and without the parts that are missing.
pub open spec fn desugar_for(
    initializer: Option<StmtV>,
    condition: Option<ExprV>,
    increment: Option<ExprV>,
    body: StmtV,
) -> StmtV {
    let body1 = match increment {
        Some(i) => StmtV::Block(seq![body, StmtV::Expression(i)]),
        None => body,
    };
    let cond = match condition {
        Some(c) => c,
        None => ExprV::Literal(LitV::True),
    };
    let looped = StmtV::While { condition: cond, body: Box::new(body1) };
    match initializer {
        Some(i) => StmtV::Block(seq![i, looped]),
        None => looped,
    }
}

/// A `for` loop, from after the `for` keyword.
#[verifier::opaque]
pub open spec fn for_statement(t: Seq<TokenV>, p: int) -> Parsed<StmtV>
    decreases remaining(t, p), 9nat,
{
    match consume(t, p, TokenType::LeftParen, "Expected '(' after 'for'."@) {
        Parsed::Failed(e, q) => Parsed::Failed(e, q),
        Parsed::Done(_, p1) => match for_initializer(t, p1) {
            Parsed::Failed(e, q) => Parsed::Failed(e, q),
            Parsed::Done(initializer, p2) => match for_clause(t, p2, TokenType::SemiColon) {
                Parsed::Failed(e, q) => Parsed::Failed(e, q),
                Parsed::Done(condition, p3) => match consume(
                    t,
                    p3,
                    TokenType::SemiColon,
                    "Expected ';' after for-loop condition."@,
                ) {
                    Parsed::Failed(e, q) => Parsed::Failed(e, q),
                    Parsed::Done(_, p4) => match for_clause(t, p4, TokenType::RightParen) {
                        Parsed::Failed(e, q) => Parsed::Failed(e, q),
                        Parsed::Done(increment, p5) => match consume(
                            t,
                            p5,
                            TokenType::RightParen,
                            "Expected ')' after for clause."@,
                        ) {
                            Parsed::Failed(e, q) => Parsed::Failed(e, q),
                            Parsed::Done(_, p6) => if p6 > p {
                                match statement(t, p6) {
                                    Parsed::Failed(e, q) => Parsed::Failed(e, q),
                                    Parsed::Done(body, p7) => Parsed::Done(
                                        desugar_for(initializer, condition, increment, body),
                                        p7,
                                    ),
                                }
                            } else {
                                err(t, p6, Seq::empty())
                            },
                        },
                    },
                },
            },
        },
    }
}

/// An `if` statement, from after the `if` keyword.
#[verifier::opaque]
pub open spec fn if_statement(t: Seq<TokenV>, p: int) -> Parsed<StmtV>
    decreases remaining(t, p), 9nat,
{
    match consume(t, p, TokenType::LeftParen, "Expected '(' after 'if'."@) {
        Parsed::Failed(e, q) => Parsed::Failed(e, q),
        Parsed::Done(_, p1) => match expression(t, p1) {
            Parsed::Failed(e, q) => Parsed::Failed(e, q),
            Parsed::Done(condition, p2) => match consume(
                t,
                p2,
                TokenType::RightParen,
                "Expected ')' after if condition."@,
            ) {
                Parsed::Failed(e, q) => Parsed::Failed(e, q),
                Parsed::Done(_, p3) => if p3 > p {
                    match statement(t, p3) {
                        Parsed::Failed(e, q) => Parsed::Failed(e, q),
                        Parsed::Done(then_branch, p4) => if check(t, p4, TokenType::Else) && p4 >= p {
                            match statement(t, p4 + 1) {
                                Parsed::Failed(e, q) => Parsed::Failed(e, q),
                                Parsed::Done(else_branch, p5) => Parsed::Done(
                                    StmtV::If {
                                        condition,
                                        then_branch: Box::new(then_branch),
                                        else_branch: Some(Box::new(else_branch)),
                                    },
                                    p5,
                                ),
                            }
                        } else {
                            Parsed::Done(
                                StmtV::If { condition, then_branch: Box::new(then_branch), else_branch: None },
                                p4,
                            )
                        },
                    }
                } else {
                    err(t, p3, Seq::empty())
                },
            },
        },
    }
}

/// A `print` statement, from after the `print` keyword.
#[verifier::opaque]
pub open spec fn print_statement(t: Seq<TokenV>, p: int) -> Parsed<StmtV> {
    match expression(t, p) {
        Parsed::Failed(e, q) => Parsed::Failed(e, q),
        Parsed::Done(value, p1) => match consume(t, p1, TokenType::SemiColon, "Expect ';' after value."@) {
            Parsed::Failed(e, q) => Parsed::Failed(e, q),
            Parsed::Done(_, p2) => Parsed::Done(StmtV::Print(value), p2),
        },
    }
}

/// A `while` statement, from after the `while` keyword.
#[verifier::opaque]
pub open spec fn while_statement(t: Seq<TokenV>, p: int) -> Parsed<StmtV>
    decreases remaining(t, p), 9nat,
{
    match consume(t, p, TokenType::LeftParen, "Expect '(' after 'while'."@) {
        Parsed::Failed(e, q) => Parsed::Failed(e, q),
        Parsed::Done(_, p1) => match expression(t, p1) {
            Parsed::Failed(e, q) => Parsed::Failed(e, q),
            Parsed::Done(condition, p2) => match consume(
                t,
                p2,
                TokenType::RightParen,
                "Expect ')' after 'condition'."@,
            ) {
                Parsed::Failed(e, q) => Parsed::Failed(e, q),
                Parsed::Done(_, p3) => if p3 > p {
                    match statement(t, p3) {
                        Parsed::Failed(e, q) => Parsed::Failed(e, q),
                        Parsed::Done(body, p4) => Parsed::Done(
                            StmtV::While { condition, body: Box::new(body) },
                            p4,
                        ),
                    }
                } else {
                    err(t, p3, Seq::empty())
                },
            },
        },
    }
}

/// A block, from after its `{`.
#[verifier::opaque]
pub open spec fn block_statement(t: Seq<TokenV>, p: int) -> Parsed<StmtV>
    decreases remaining(t, p), 13nat,
{
    match block_items(t, p, Seq::empty()) {
        Parsed::Failed(e, q) => Parsed::Failed(e, q),
        Parsed::Done(stmts, p1) => match consume(
            t,
            p1,
            TokenType::RightBrace,
            "Expected '{' after block statement."@,
        ) {
            Parsed::Failed(e, q) => Parsed::Failed(e, q),
            Parsed::Done(_, p2) => Parsed::Done(StmtV::Block(stmts), p2),
        },
    }
}

/// The declarations of a block, up to its `}` or the end.
#[verifier::opaque]
pub open spec fn block_items(t: Seq<TokenV>, p: int, stmts: Seq<StmtV>) -> Parsed<Seq<StmtV>>
    decreases remaining(t, p), 12nat,
{
    if !check(t, p, TokenType::RightBrace) && 0 <= p < t.len() && !at_end(t, p) {
        match declaration(t, p) {
            Parsed::Failed(e, q) => Parsed::Failed(e, q),
            Parsed::Done(s, p1) => if p1 > p {
                block_items(t, p1, stmts.push(s))
            } else {
                Parsed::Done(stmts.push(s), p1)
            },
        }
    } else {
        Parsed::Done(stmts, p)
    }
}

/// An expression statement.
#[verifier::opaque]
pub open spec fn expression_statement(t: Seq<TokenV>, p: int) -> Parsed<StmtV> {
    match expression(t, p) {
        Parsed::Failed(e, q) => Parsed::Failed(e, q),
        Parsed::Done(e, p1) => match consume(t, p1, TokenType::SemiColon, "Expect ';' after expression."@) {
            Parsed::Failed(er, q) => Parsed::Failed(er, q),
            Parsed::Done(_, p2) => Parsed::Done(StmtV::Expression(e), p2),
        },
    }
}

/// The statements and syntax errors of a program from position `p`: each declaration
/// that parses is kept; after an error, parsing resumes one token past where it stopped.
#[verifier::opaque]
pub open spec fn program(t: Seq<TokenV>, p: int, stmts: Seq<StmtV>, errors: Seq<PErr>) -> (Seq<StmtV>, Seq<PErr>)
    decreases remaining(t, p),
{
    if !(0 <= p < t.len()) || at_end(t, p) {
        (stmts, errors)
    } else {
        match declaration(t, p) {
            Parsed::Done(s, q) => if q > p {
                program(t, q, stmts.push(s), errors)
            } else {
                (stmts.push(s), errors)
            },
            Parsed::Failed(e, q) => if 0 <= q < t.len() && advance(t, q) > p {
                program(t, advance(t, q), stmts, errors.push(e))
            } else {
                (stmts, errors.push(e))
            },
        }
    }
}

/// Whether a token sequence can be parsed: it holds an end-of-file token, and every
/// string or number token carries its literal.
pub open spec fn parsable(t: Seq<TokenV>) -> bool {
    &&& exists|i: int| 0 <= i < t.len() && #[trigger] t[i].token_type == TokenType::EOF
    &&& forall|i: int| 0 <= i < t.len() && literal_types().contains(#[trigger] t[i].token_type) ==> t[i].literal is Some
}

} // verus!
