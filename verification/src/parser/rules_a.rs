//! Parsing rules, part one: declarations, `for`/`if`/`while`/`print` statements,
//! assignments, `and`, terms, unary expressions, primaries and call arguments.
//!
//! The parsing functions are spread over three modules so that a module unfolds only the
//! grammar rules of its own functions, never those of the functions they call.
use vstd::prelude::*;

use crate::expression::{
    Assignment, Binary, Call, Expr, ExprV, Grouping, Literal, Logical, Unary, Variable, exprs_view,
    lemma_exprs_view_push,
};
use crate::grammar::{
    Parsed, and_expr, and_rest, arguments, assignment, call, check, consume, declaration, desugar_for,
    equality, expression, expression_statement, factor, finish_call, for_clause, for_initializer,
    for_statement, if_statement, literal_types, primary, print_statement, statement, term, term_ops,
    term_rest, unary, unary_ops, var_declaration, while_statement,
};
use crate::statement::Stmt;
use crate::token::TokenType;

use super::{Parser, ParseError, desugar, opt_expr_view, opt_stmt_view, outcome, parse_error};

verus! {

broadcast use vstd::string::group_string_axioms;

impl Parser {
    pub(super) fn declaration(&mut self) -> (r: Result<Stmt, ParseError>)
        requires
            old(self).inv(),
        ensures
            final(self).inv(),
            final(self).tokens@ == old(self).tokens@,
            final(self).statements@ == old(self).statements@,
            final(self).errors@ == old(self).errors@,
            final(self).current >= old(self).current,
            r is Ok ==> final(self).current > old(self).current,
            outcome(r, final(self).current as int) == declaration(old(self).tv(), old(self).current as int),
        decreases old(self).tokens@.len() - old(self).current, 11nat,
    {
        proof {
            reveal(declaration);
        }
        if self.check(TokenType::Var) {
            self.var_declaration()
        } else {
            self.statement()
        }
    }

    /// Desugars a `for` loop into a `while` loop.
    pub(super) fn for_statement(&mut self) -> (r: Result<Stmt, ParseError>)
        requires
            old(self).inv(),
            old(self).current > 0,
        ensures
            final(self).inv(),
            final(self).tokens@ == old(self).tokens@,
            final(self).statements@ == old(self).statements@,
            final(self).errors@ == old(self).errors@,
            final(self).current >= old(self).current,
            r is Ok ==> final(self).current > old(self).current,
            outcome(r, final(self).current as int) == for_statement(old(self).tv(), old(self).current as int),
        decreases old(self).tokens@.len() - old(self).current, 9nat,
    {
        proof {
            reveal(for_statement);
            reveal(for_initializer);
        }
        match self.consume(TokenType::LeftParen, "Expected '(' after 'for'.") {
            Ok(_) => {},
            Err(e) => return Err(e),
        }
        let ghost p1 = self.current as int;
        let initializer = if self.match_one(TokenType::SemiColon) {
            None
        } else if self.check(TokenType::Var) {
            match self.var_declaration() {
                Ok(s) => Some(s),
                Err(e) => return Err(e),
            }
        } else {
            match self.expression_statement() {
                Ok(s) => Some(s),
                Err(e) => return Err(e),
            }
        };
        assert(for_initializer(self.tv(), p1) == Parsed::Done(
            match initializer { Some(s) => Some(s@), None => None },
            self.current as int,
        ));
        let condition = match self.for_clause(TokenType::SemiColon) {
            Ok(c) => c,
            Err(e) => return Err(e),
        };
        match self.consume(TokenType::SemiColon, "Expected ';' after for-loop condition.") {
            Ok(_) => {},
            Err(e) => return Err(e),
        }
        let increment = match self.for_clause(TokenType::RightParen) {
            Ok(c) => c,
            Err(e) => return Err(e),
        };
        match self.consume(TokenType::RightParen, "Expected ')' after for clause.") {
            Ok(_) => {},
            Err(e) => return Err(e),
        }
        let mut body = match self.statement() {
            Ok(s) => s,
            Err(e) => return Err(e),
        };
        let ghost init_v = opt_stmt_view(&initializer);
        let ghost cond_v = opt_expr_view(&condition);
        let ghost incr_v = opt_expr_view(&increment);
        let ghost body_v = body@;
        let body = desugar(initializer, condition, increment, body);
        assert(body@ == desugar_for(init_v, cond_v, incr_v, body_v));
        Ok(body)
    }

    pub(super) fn if_statement(&mut self) -> (r: Result<Stmt, ParseError>)
        requires
            old(self).inv(),
        ensures
            final(self).inv(),
            final(self).tokens@ == old(self).tokens@,
            final(self).statements@ == old(self).statements@,
            final(self).errors@ == old(self).errors@,
            final(self).current >= old(self).current,
            r is Ok ==> final(self).current > old(self).current,
            outcome(r, final(self).current as int) == if_statement(old(self).tv(), old(self).current as int),
        decreases old(self).tokens@.len() - old(self).current, 9nat,
    {
        proof {
            reveal(if_statement);
        }
        match self.consume(TokenType::LeftParen, "Expected '(' after 'if'.") {
            Ok(_) => {},
            Err(e) => return Err(e),
        }
        let condition = match self.expression() {
            Ok(e) => e,
            Err(e) => return Err(e),
        };
        match self.consume(TokenType::RightParen, "Expected ')' after if condition.") {
            Ok(_) => {},
            Err(e) => return Err(e),
        }
        let then_branch = match self.statement() {
            Ok(s) => s,
            Err(e) => return Err(e),
        };
        let else_branch = if self.match_one(TokenType::Else) {
            match self.statement() {
                Ok(s) => Some(Box::new(s)),
                Err(e) => return Err(e),
            }
        } else {
            None
        };
        Ok(Stmt::If { condition, then_branch: Box::new(then_branch), else_branch })
    }

    pub(super) fn while_statement(&mut self) -> (r: Result<Stmt, ParseError>)
        requires
            old(self).inv(),
        ensures
            final(self).inv(),
            final(self).tokens@ == old(self).tokens@,
            final(self).statements@ == old(self).statements@,
            final(self).errors@ == old(self).errors@,
            final(self).current >= old(self).current,
            r is Ok ==> final(self).current > old(self).current,
            outcome(r, final(self).current as int) == while_statement(old(self).tv(), old(self).current as int),
        decreases old(self).tokens@.len() - old(self).current, 9nat,
    {
        proof {
            reveal(while_statement);
        }
        match self.consume(TokenType::LeftParen, "Expect '(' after 'while'.") {
            Ok(_) => {},
            Err(e) => return Err(e),
        }
        let condition = match self.expression() {
            Ok(e) => e,
            Err(e) => return Err(e),
        };
        match self.consume(TokenType::RightParen, "Expect ')' after 'condition'.") {
            Ok(_) => {},
            Err(e) => return Err(e),
        }
        let body = match self.statement() {
            Ok(s) => s,
            Err(e) => return Err(e),
        };
        Ok(Stmt::While { condition, body: Box::new(body) })
    }

    pub(super) fn print_statement(&mut self) -> (r: Result<Stmt, ParseError>)
        requires
            old(self).inv(),
        ensures
            final(self).inv(),
            final(self).tokens@ == old(self).tokens@,
            final(self).statements@ == old(self).statements@,
            final(self).errors@ == old(self).errors@,
            final(self).current >= old(self).current,
            r is Ok ==> final(self).current > old(self).current,
            outcome(r, final(self).current as int) == print_statement(old(self).tv(), old(self).current as int),
    {
        proof {
            reveal(print_statement);
        }
        let value = match self.expression() {
            Ok(e) => e,
            Err(e) => return Err(e),
        };
        match self.consume(TokenType::SemiColon, "Expect ';' after value.") {
            Ok(_) => {},
            Err(e) => return Err(e),
        }
        Ok(Stmt::Print(value))
    }

    pub(super) fn assignment(&mut self) -> (r: Result<Expr, ParseError>)
        requires
            old(self).inv(),
        ensures
            final(self).inv(),
            final(self).tokens@ == old(self).tokens@,
            final(self).statements@ == old(self).statements@,
            final(self).errors@ == old(self).errors@,
            final(self).current >= old(self).current,
            r is Ok ==> final(self).current > old(self).current,
            outcome(r, final(self).current as int) == assignment(old(self).tv(), old(self).current as int),
        decreases old(self).tokens@.len() - old(self).current, 29nat,
    {
        proof {
            reveal(assignment);
        }
        // the l-value is parsed first, as an ordinary expression
        let expr = match self.or() {
            Ok(e) => e,
            Err(e) => return Err(e),
        };
        if self.match_one(TokenType::Equal) {
            let id = self.current - 1;
            let equals = self.previous();
            // the r-value is an assignment of its own
            let value = match self.assignment() {
                Ok(e) => e,
                Err(e) => return Err(e),
            };
            match expr {
                Expr::Variable(v) => Ok(Expr::Assignment(Assignment { id, name: v.name, value: Box::new(value) })),
                _ => Err(parse_error(equals, "Invalid assignment target")),
            }
        } else {
            Ok(expr)
        }
    }

    pub(super) fn and(&mut self) -> (r: Result<Expr, ParseError>)
        requires
            old(self).inv(),
        ensures
            final(self).inv(),
            final(self).tokens@ == old(self).tokens@,
            final(self).statements@ == old(self).statements@,
            final(self).errors@ == old(self).errors@,
            final(self).current >= old(self).current,
            r is Ok ==> final(self).current > old(self).current,
            outcome(r, final(self).current as int) == and_expr(old(self).tv(), old(self).current as int),
        decreases old(self).tokens@.len() - old(self).current, 26nat,
    {
        proof {
            reveal(and_expr);
            reveal(and_rest);
        }
        let ghost t = self.tv();
        let mut expr = match self.equality() {
            Ok(e) => e,
            Err(e) => return Err(e),
        };
        let ghost p1 = self.current as int;
        let ghost e1 = expr@;
        loop
            invariant_except_break
                self.inv(),
                self.tokens@ == old(self).tokens@,
                self.statements@ == old(self).statements@,
                self.errors@ == old(self).errors@,
                t == old(self).tv(),
                self.current >= p1 > old(self).current,
                and_rest(t, p1, e1) == and_rest(t, self.current as int, expr@),
                and_expr(t, old(self).current as int) == and_rest(t, p1, e1),
            ensures
                self.inv(),
                self.tokens@ == old(self).tokens@,
                self.statements@ == old(self).statements@,
                self.errors@ == old(self).errors@,
                self.current > old(self).current,
                and_rest(t, p1, e1) == Parsed::Done(expr@, self.current as int),
            decreases self.tokens@.len() - self.current,
        {
            proof {
                reveal(and_rest);
                reveal(and_expr);
            }
            if !self.match_one(TokenType::And) {
                break;
            }
            let operator = self.previous();
            let right = match self.equality() {
                Ok(e) => e,
                Err(e) => return Err(e),
            };
            expr = Expr::Logical(Logical { left: Box::new(expr), operator, right: Box::new(right) });
        }
        Ok(expr)
    }

    pub(super) fn term(&mut self) -> (r: Result<Expr, ParseError>)
        requires
            old(self).inv(),
        ensures
            final(self).inv(),
            final(self).tokens@ == old(self).tokens@,
            final(self).statements@ == old(self).statements@,
            final(self).errors@ == old(self).errors@,
            final(self).current >= old(self).current,
            r is Ok ==> final(self).current > old(self).current,
            outcome(r, final(self).current as int) == term(old(self).tv(), old(self).current as int),
        decreases old(self).tokens@.len() - old(self).current, 20nat,
    {
        proof {
            reveal(term);
            reveal(term_rest);
        }
        let ghost t = self.tv();
        let mut expr = match self.factor() {
            Ok(e) => e,
            Err(e) => return Err(e),
        };
        let ghost p1 = self.current as int;
        let ghost e1 = expr@;
        loop
            invariant_except_break
                self.inv(),
                self.tokens@ == old(self).tokens@,
                self.statements@ == old(self).statements@,
                self.errors@ == old(self).errors@,
                t == old(self).tv(),
                self.current >= p1 > old(self).current,
                term_rest(t, p1, e1) == term_rest(t, self.current as int, expr@),
                term(t, old(self).current as int) == term_rest(t, p1, e1),
            ensures
                self.inv(),
                self.tokens@ == old(self).tokens@,
                self.statements@ == old(self).statements@,
                self.errors@ == old(self).errors@,
                self.current > old(self).current,
                term_rest(t, p1, e1) == Parsed::Done(expr@, self.current as int),
            decreases self.tokens@.len() - self.current,
        {
            proof {
                reveal(term_rest);
                reveal(term);
            }
            if !self.match_any(&[TokenType::Minus, TokenType::Plus], Ghost(term_ops())) {
                break;
            }
            let operator = self.previous();
            let right = match self.factor() {
                Ok(e) => e,
                Err(e) => return Err(e),
            };
            expr = Expr::Binary(Binary { left: Box::new(expr), operator, right: Box::new(right) });
        }
        Ok(expr)
    }

    pub(super) fn unary(&mut self) -> (r: Result<Expr, ParseError>)
        requires
            old(self).inv(),
        ensures
            final(self).inv(),
            final(self).tokens@ == old(self).tokens@,
            final(self).statements@ == old(self).statements@,
            final(self).errors@ == old(self).errors@,
            final(self).current >= old(self).current,
            r is Ok ==> final(self).current > old(self).current,
            outcome(r, final(self).current as int) == unary(old(self).tv(), old(self).current as int),
        decreases old(self).tokens@.len() - old(self).current, 16nat,
    {
        proof {
            reveal(unary);
        }
        if self.match_any(&[TokenType::Bang, TokenType::Minus], Ghost(unary_ops())) {
            let operator = self.previous();
            let right = match self.unary() {
                Ok(e) => e,
                Err(e) => return Err(e),
            };
            Ok(Expr::Unary(Unary { operator, right: Box::new(right) }))
        } else {
            self.call()
        }
    }

    /// Literals and groupings: the bottom of the expression grammar.
    pub(super) fn primary(&mut self) -> (r: Result<Expr, ParseError>)
        requires
            old(self).inv(),
        ensures
            final(self).inv(),
            final(self).tokens@ == old(self).tokens@,
            final(self).statements@ == old(self).statements@,
            final(self).errors@ == old(self).errors@,
            final(self).current >= old(self).current,
            r is Ok ==> final(self).current > old(self).current,
            outcome(r, final(self).current as int) == primary(old(self).tv(), old(self).current as int),
        decreases old(self).tokens@.len() - old(self).current, 13nat,
    {
        proof {
            reveal(primary);
        }
        if self.match_one(TokenType::False) {
            Ok(Expr::Literal(Literal::False))
        } else if self.match_one(TokenType::True) {
            Ok(Expr::Literal(Literal::True))
        } else if self.match_one(TokenType::Nil) {
            Ok(Expr::Literal(Literal::Nil))
        } else if self.match_any(&[TokenType::String, TokenType::Number], Ghost(literal_types())) {
            let token = self.previous();
            proof {
                let k = self.current - 1;
                assert(self.tv()[k as int] == token@);
                assert(literal_types().contains(self.tv()[k as int].token_type));
            }
            Ok(Expr::Literal(token.literal.unwrap()))
        } else if self.match_one(TokenType::LeftParen) {
            let expr = match self.expression() {
                Ok(e) => e,
                Err(e) => return Err(e),
            };
            match self.consume(TokenType::RightParen, "Expect ')' after expression.") {
                Ok(_) => {},
                Err(e) => return Err(e),
            }
            Ok(Expr::Grouping(Grouping { expression: Box::new(expr) }))
        } else if self.match_one(TokenType::Identifier) {
            let id = self.current - 1;
            Ok(Expr::Variable(Variable { id, name: self.previous() }))
        } else {
            // every form of valid syntax has been tried
            Err(parse_error(self.peek().clone(), "Expression expected."))
        }
    }

    /// The arguments and `)` of a call whose `(` has been consumed: expressions
    /// separated by commas, at most 255 of them.
    pub(super) fn finish_call(&mut self, callee: Expr) -> (r: Result<Expr, ParseError>)
        requires
            old(self).inv(),
        ensures
            final(self).inv(),
            final(self).tokens@ == old(self).tokens@,
            final(self).statements@ == old(self).statements@,
            final(self).errors@ == old(self).errors@,
            final(self).current >= old(self).current,
            r is Ok ==> final(self).current > old(self).current,
            outcome(r, final(self).current as int) == finish_call(old(self).tv(), old(self).current as int, callee@),
        decreases old(self).tokens@.len() - old(self).current, 33nat,
    {
        proof {
            reveal(finish_call);
            reveal(arguments);
        }
        let ghost t = self.tv();
        let ghost p = self.current as int;
        let mut args: Vec<Expr> = Vec::new();
        assert(exprs_view(args@) =~= Seq::<ExprV>::empty());
        if !self.check(TokenType::RightParen) {
            loop
                invariant_except_break
                    self.inv(),
                    self.tokens@ == old(self).tokens@,
                    self.statements@ == old(self).statements@,
                    self.errors@ == old(self).errors@,
                    t == old(self).tv(),
                    p == old(self).current,
                    self.current >= p,
                    arguments(t, p, Seq::empty()) == arguments(t, self.current as int, exprs_view(args@)),
                    !check(t, p, TokenType::RightParen),
                    exprs_view(args@).len() == args@.len(),
                ensures
                    self.inv(),
                    self.tokens@ == old(self).tokens@,
                    self.statements@ == old(self).statements@,
                    self.errors@ == old(self).errors@,
                    self.current >= p,
                    arguments(t, p, Seq::empty()) == Parsed::Done(exprs_view(args@), self.current as int),
                decreases self.tokens@.len() - self.current,
            {
                proof {
                    reveal(arguments);
                    reveal(finish_call);
                }
                if args.len() >= 255 {
                    return Err(parse_error(
                        self.peek().clone(),
                        "Exceeded maximum number of function arguments (255).",
                    ));
                }
                let a = match self.expression() {
                    Ok(e) => e,
                    Err(e) => return Err(e),
                };
                proof {
                    lemma_exprs_view_push(args@, a);
                }
                args.push(a);
                if !self.match_one(TokenType::Comma) {
                    break;
                }
            }
        }
        let paren = match self.consume(TokenType::RightParen, "Expected ')' after arguments.") {
            Ok(t) => t,
            Err(e) => return Err(e),
        };
        Ok(Expr::Call(Call { callee: Box::new(callee), paren, args }))
    }
}

} // verus!
