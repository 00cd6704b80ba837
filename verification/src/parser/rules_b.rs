//! Parsing rules, part two: variable declarations, expression statements, `for`
//! clauses, blocks, equality and calls.
//!
//! The parsing functions are spread over three modules so that a module unfolds only the
//! grammar rules of its own functions, never those of the functions they call.
use vstd::prelude::*;

use crate::expression::{Binary, Expr};
use crate::grammar::{
    Parsed, advance, block_items, block_statement, call, call_rest, check, comparison, consume, declaration,
    equality, equality_ops, equality_rest, expression, expression_statement, finish_call, for_clause,
    primary, statement, var_declaration,
};
use crate::statement::{Stmt, StmtV, lemma_stmts_view_push, stmts_view};
use crate::token::TokenType;

use super::{Parser, ParseError, outcome};

verus! {

broadcast use vstd::string::group_string_axioms;

impl Parser {
    pub(super) fn var_declaration(&mut self) -> (r: Result<Stmt, ParseError>)
        requires
            old(self).inv(),
        ensures
            final(self).inv(),
            final(self).tokens@ == old(self).tokens@,
            final(self).statements@ == old(self).statements@,
            final(self).errors@ == old(self).errors@,
            final(self).current >= old(self).current,
            r is Ok ==> final(self).current > old(self).current,
            outcome(r, final(self).current as int) == var_declaration(old(self).tv(), old(self).current as int),
    {
        proof {
            reveal(var_declaration);
        }
        self.advance();  // the `var` keyword
        let name = match self.consume(TokenType::Identifier, "Expected variable name.") {
            Ok(t) => t,
            Err(e) => return Err(e),
        };
        let initializer = if self.match_one(TokenType::Equal) {
            match self.expression() {
                Ok(e) => Some(e),
                Err(e) => return Err(e),
            }
        } else {
            None
        };
        match self.consume(TokenType::SemiColon, "Expected ';' after variable declaration.") {
            Ok(_) => {},
            Err(e) => return Err(e),
        }
        Ok(Stmt::Var { name, initializer })
    }

    pub(super) fn expression_statement(&mut self) -> (r: Result<Stmt, ParseError>)
        requires
            old(self).inv(),
        ensures
            final(self).inv(),
            final(self).tokens@ == old(self).tokens@,
            final(self).statements@ == old(self).statements@,
            final(self).errors@ == old(self).errors@,
            final(self).current >= old(self).current,
            r is Ok ==> final(self).current > old(self).current,
            outcome(r, final(self).current as int) == expression_statement(old(self).tv(), old(self).current as int),
    {
        proof {
            reveal(expression_statement);
        }
        let expr = match self.expression() {
            Ok(e) => e,
            Err(e) => return Err(e),
        };
        match self.consume(TokenType::SemiColon, "Expect ';' after expression.") {
            Ok(_) => {},
            Err(e) => return Err(e),
        }
        Ok(Stmt::Expression(expr))
    }

    /// An optional clause of a `for` loop: an expression, unless the token `end` that
    /// closes the clause comes at once (it is left for the caller).
    pub(super) fn for_clause(&mut self, end: TokenType) -> (r: Result<Option<Expr>, ParseError>)
        requires
            old(self).inv(),
        ensures
            final(self).inv(),
            final(self).tokens@ == old(self).tokens@,
            final(self).statements@ == old(self).statements@,
            final(self).errors@ == old(self).errors@,
            final(self).current >= old(self).current,
            for_clause(old(self).tv(), old(self).current as int, end) == match r {
                Ok(Some(e)) => Parsed::Done(Some(e@), final(self).current as int),
                Ok(None) => Parsed::Done(None, final(self).current as int),
                Err(e) => Parsed::Failed(e@, final(self).current as int),
            },
    {
        proof {
            reveal(for_clause);
        }
        if !self.check(end) {
            match self.expression() {
                Ok(e) => Ok(Some(e)),
                Err(e) => Err(e),
            }
        } else {
            Ok(None)
        }
    }

    pub(super) fn block_statement(&mut self) -> (r: Result<Stmt, ParseError>)
        requires
            old(self).inv(),
        ensures
            final(self).inv(),
            final(self).tokens@ == old(self).tokens@,
            final(self).statements@ == old(self).statements@,
            final(self).errors@ == old(self).errors@,
            final(self).current >= old(self).current,
            r is Ok ==> final(self).current > old(self).current,
            outcome(r, final(self).current as int) == block_statement(old(self).tv(), old(self).current as int),
        decreases old(self).tokens@.len() - old(self).current, 13nat,
    {
        proof {
            reveal(block_statement);
            reveal(block_items);
        }
        let ghost t = self.tv();
        let ghost p = self.current as int;
        let mut stmts: Vec<Stmt> = Vec::new();
        assert(stmts_view(stmts@) =~= Seq::<StmtV>::empty());
        loop
            invariant_except_break
                self.inv(),
                self.tokens@ == old(self).tokens@,
                self.statements@ == old(self).statements@,
                self.errors@ == old(self).errors@,
                t == old(self).tv(),
                p == old(self).current,
                self.current >= p,
                block_items(t, p, Seq::empty()) == block_items(t, self.current as int, stmts_view(stmts@)),
            ensures
                self.inv(),
                self.tokens@ == old(self).tokens@,
                self.statements@ == old(self).statements@,
                self.errors@ == old(self).errors@,
                self.current >= p,
                block_items(t, p, Seq::empty()) == Parsed::Done(stmts_view(stmts@), self.current as int),
            decreases self.tokens@.len() - self.current,
        {
            proof {
                reveal(block_items);
                reveal(block_statement);
            }
            if self.check(TokenType::RightBrace) || self.is_at_end() {
                break;
            }
            let ghost q = self.current as int;
            let s = match self.declaration() {
                Ok(s) => s,
                Err(e) => return Err(e),
            };
            proof {
                lemma_stmts_view_push(stmts@, s);
            }
            stmts.push(s);
        }
        match self.consume(TokenType::RightBrace, "Expected '{' after block statement.") {
            Ok(_) => {},
            Err(e) => return Err(e),
        }
        Ok(Stmt::Block(stmts))
    }

    pub(super) fn equality(&mut self) -> (r: Result<Expr, ParseError>)
        requires
            old(self).inv(),
        ensures
            final(self).inv(),
            final(self).tokens@ == old(self).tokens@,
            final(self).statements@ == old(self).statements@,
            final(self).errors@ == old(self).errors@,
            final(self).current >= old(self).current,
            r is Ok ==> final(self).current > old(self).current,
            outcome(r, final(self).current as int) == equality(old(self).tv(), old(self).current as int),
        decreases old(self).tokens@.len() - old(self).current, 24nat,
    {
        proof {
            reveal(equality);
            reveal(equality_rest);
        }
        let ghost t = self.tv();
        let mut expr = match self.comparison() {
            Ok(e) => e,
            Err(e) => return Err(e),
        };
        let ghost p1 = self.current as int;
        let ghost e1 = expr@;
        loop
            invariant_except_break
                self.inv(),
                self.tokens@ == old(self).tokens@,
                self.statements@ == old(self).statements@,
                self.errors@ == old(self).errors@,
                t == old(self).tv(),
                self.current >= p1 > old(self).current,
                equality_rest(t, p1, e1) == equality_rest(t, self.current as int, expr@),
                equality(t, old(self).current as int) == equality_rest(t, p1, e1),
            ensures
                self.inv(),
                self.tokens@ == old(self).tokens@,
                self.statements@ == old(self).statements@,
                self.errors@ == old(self).errors@,
                self.current > old(self).current,
                equality_rest(t, p1, e1) == Parsed::Done(expr@, self.current as int),
            decreases self.tokens@.len() - self.current,
        {
            proof {
                reveal(equality_rest);
                reveal(equality);
            }
            if !self.match_any(&[TokenType::BangEqual, TokenType::EqualEqual], Ghost(equality_ops())) {
                break;
            }
            let operator = self.previous();
            let right = match self.comparison() {
                Ok(e) => e,
                Err(e) => return Err(e),
            };
            expr = Expr::Binary(Binary { left: Box::new(expr), operator, right: Box::new(right) });
        }
        Ok(expr)
    }

    pub(super) fn call(&mut self) -> (r: Result<Expr, ParseError>)
        requires
            old(self).inv(),
        ensures
            final(self).inv(),
            final(self).tokens@ == old(self).tokens@,
            final(self).statements@ == old(self).statements@,
            final(self).errors@ == old(self).errors@,
            final(self).current >= old(self).current,
            r is Ok ==> final(self).current > old(self).current,
            outcome(r, final(self).current as int) == call(old(self).tv(), old(self).current as int),
        decreases old(self).tokens@.len() - old(self).current, 15nat,
    {
        proof {
            reveal(call);
            reveal(call_rest);
        }
        let ghost t = self.tv();
        let mut expr = match self.primary() {
            Ok(e) => e,
            Err(e) => return Err(e),
        };
        let ghost p1 = self.current as int;
        let ghost e1 = expr@;
        loop
            invariant_except_break
                self.inv(),
                self.tokens@ == old(self).tokens@,
                self.statements@ == old(self).statements@,
                self.errors@ == old(self).errors@,
                t == old(self).tv(),
                self.current >= p1 > old(self).current,
                call_rest(t, p1, e1) == call_rest(t, self.current as int, expr@),
                call(t, old(self).current as int) == call_rest(t, p1, e1),
            ensures
                self.inv(),
                self.tokens@ == old(self).tokens@,
                self.statements@ == old(self).statements@,
                self.errors@ == old(self).errors@,
                self.current > old(self).current,
                call_rest(t, p1, e1) == Parsed::Done(expr@, self.current as int),
            decreases self.tokens@.len() - self.current,
        {
            proof {
                reveal(call_rest);
                reveal(call);
            }
            if !self.match_one(TokenType::LeftParen) {
                break;
            }
            expr = match self.finish_call(expr) {
                Ok(e) => e,
                Err(e) => return Err(e),
            };
        }
        Ok(expr)
    }
}

} // verus!
