use vstd::prelude::*;

mod rules_a;
mod rules_b;

use crate::expression::{Binary, Expr, ExprV, Literal, Logical};
use crate::grammar::{
    PErr, Parsed, advance, desugar_for, assignment, at_end, block_statement, check, check_any, comparison,
    comparison_ops, comparison_rest, consume, declaration, equality, expression, expression_statement,
    factor, factor_ops, factor_rest, for_statement, if_statement, or_expr, or_rest, parsable,
    print_statement, program, statement, term, unary, while_statement,
};
use crate::statement::{Stmt, StmtV, clone_stmts, lemma_stmts_view_push, stmts_view};
use crate::token::{Token, TokenType, TokenV, tokens_view};

verus! {

broadcast use vstd::string::group_string_axioms;

/// A syntax error: the token where it was found and a message.
#[derive(Debug)]
pub struct ParseError {
    pub token: Token,
    pub message: String,
}

impl View for ParseError {
    type V = PErr;

    open spec fn view(&self) -> PErr {
        PErr { token: self.token@, message: self.message@ }
    }
}

/// What a parsing function returned, with the position it left the parser at.
pub open spec fn outcome<A: View>(r: Result<A, ParseError>, pos: int) -> Parsed<A::V> {
    match r {
        Ok(a) => Parsed::Done(a@, pos),
        Err(e) => Parsed::Failed(e@, pos),
    }
}

fn parse_error(token: Token, message: &str) -> (e: ParseError)
    ensures
        e@ == (PErr { token: token@, message: message@ }),
{
    ParseError { token, message: message.to_string() }
}

pub open spec fn opt_stmt_view(o: &Option<Stmt>) -> Option<StmtV> {
    match o {
        Some(s) => Some(s@),
        None => None,
    }
}

pub open spec fn opt_expr_view(o: &Option<Expr>) -> Option<ExprV> {
    match o {
        Some(e) => Some(e@),
        None => None,
    }
}

/// The block of two statements.
fn pair_block(a: Stmt, b: Stmt) -> (r: Stmt)
    ensures
        r@ == StmtV::Block(seq![a@, b@]),
{
    let ghost av = a@;
    let ghost bv = b@;
    let mut v: Vec<Stmt> = Vec::new();
    v.push(a);
    v.push(b);
    proof {
        lemma_stmts_view_push(v@.subrange(0, 1), v@[1]);
        lemma_stmts_view_push(Seq::empty(), v@[0]);
        assert(v@.subrange(0, 1) =~= Seq::empty().push(v@[0]));
        assert(v@ =~= v@.subrange(0, 1).push(v@[1]));
        assert(stmts_view(Seq::<Stmt>::empty()) =~= Seq::<StmtV>::empty());
        assert(stmts_view(v@) =~= seq![av, bv]);
    }
    Stmt::Block(v)
}

/// The `while` loop that a `for` loop stands for.
fn desugar(initializer: Option<Stmt>, condition: Option<Expr>, increment: Option<Expr>, body: Stmt) -> (r: Stmt)
    ensures
        r@ == desugar_for(opt_stmt_view(&initializer), opt_expr_view(&condition), opt_expr_view(&increment), body@),
{
    let mut body = body;
    if let Some(incr) = increment {
        body = pair_block(body, Stmt::Expression(incr));
    }
    let cond = match condition {
        Some(c) => c,
        None => Expr::Literal(Literal::True),
    };
    body = Stmt::While { condition: cond, body: Box::new(body) };
    if let Some(init) = initializer {
        body = pair_block(init, body);
    }
    body
}

/// Turns tokens into statements.
pub struct Parser {
    pub(crate) tokens: Vec<Token>,
    pub(crate) statements: Vec<Stmt>,
    pub(crate) current: usize,
    pub(crate) errors: Vec<ParseError>,
}

impl Parser {
    /// The tokens being parsed.
    pub closed spec fn toks(&self) -> Seq<TokenV> {
        self.tv()
    }

    /// The tokens being parsed (for the parsing functions).
    pub(crate) open spec fn tv(&self) -> Seq<TokenV> {
        tokens_view(self.tokens@)
    }

    /// The position of the next token.
    pub closed spec fn position(&self) -> int {
        self.current as int
    }

    /// The statements parsed so far.
    pub closed spec fn parsed(&self) -> Seq<StmtV> {
        stmts_view(self.statements@)
    }

    /// The syntax errors met so far.
    pub closed spec fn syntax_errors(&self) -> Seq<PErr> {
        self.errors@.map_values(|e: ParseError| e@)
    }

    /// The parser's invariant: the tokens can be parsed and an end-of-file token lies
    /// at or after the current position.
    pub closed spec fn wf(&self) -> bool {
        self.inv()
    }

    /// The parser's invariant (for the parsing functions).
    pub(crate) open spec fn inv(&self) -> bool {
        &&& parsable(self.tv())
        &&& self.tv().len() == self.tokens@.len()
        &&& self.current < self.tv().len()
        &&& exists|k: int| self.current <= k < self.tv().len() && #[trigger] self.tv()[k].token_type == TokenType::EOF
    }

    /// A parser at the first of `tokens`, with nothing parsed yet.
    pub fn new(tokens: Vec<Token>) -> (r: Self)
        requires
            parsable(tokens_view(tokens@)),
        ensures
            r.wf(),
            r.toks() == tokens_view(tokens@),
            r.position() == 0,
            r.parsed() == Seq::<StmtV>::empty(),
            r.syntax_errors() == Seq::<PErr>::empty(),
    {
        let r = Parser { tokens, statements: Vec::new(), current: 0, errors: Vec::new() };
        assert(r.parsed() =~= Seq::<StmtV>::empty());
        assert(r.syntax_errors() =~= Seq::<PErr>::empty());
        r
    }

    /// Parses every remaining declaration and returns all statements parsed so far. A
    /// declaration with a syntax error is dropped, its error recorded, and parsing
    /// resumes one token past where it stopped.
    pub fn parse(&mut self) -> (r: Vec<Stmt>)
        requires
            old(self).wf(),
        ensures
            final(self).wf(),
            final(self).toks() == old(self).toks(),
            (stmts_view(r@), final(self).syntax_errors()) == program(
                old(self).toks(),
                old(self).position(),
                old(self).parsed(),
                old(self).syntax_errors(),
            ),
            final(self).parsed() == stmts_view(r@),
    {
        proof {
            reveal(program);
        }
        while !self.is_at_end()
            invariant
                self.inv(),
                self.tv() == old(self).tv(),
                program(old(self).tv(), old(self).position(), old(self).parsed(), old(self).syntax_errors())
                    == program(self.tv(), self.position(), self.parsed(), self.syntax_errors()),
            decreases self.tv().len() - self.current,
        {
            proof {
                reveal(program);
            }
            let ghost p = self.current as int;
            let ghost st = self.parsed();
            let ghost er = self.syntax_errors();
            match self.declaration() {
                Ok(s) => {
                    proof {
                        lemma_stmts_view_push(self.statements@, s);
                    }
                    self.statements.push(s);
                },
                Err(e) => {
                    let ghost q = self.current as int;
                    self.errors.push(e);
                    assert(self.syntax_errors() =~= er.push(e@));
                    self.advance();
                },
            }
        }
        clone_stmts(&self.statements)
    }

    /// The syntax errors met so far.
    pub fn errors(&self) -> (r: &Vec<ParseError>)
        ensures
            r@.map_values(|e: ParseError| e@) == self.syntax_errors(),
    {
        &self.errors
    }

    /// The syntax errors met, giving up the parser.
    pub fn into_errors(self) -> (r: Vec<ParseError>)
        ensures
            r@.map_values(|e: ParseError| e@) == self.syntax_errors(),
    {
        self.errors
    }

    fn statement(&mut self) -> (r: Result<Stmt, ParseError>)
        requires
            old(self).inv(),
        ensures
            final(self).inv(),
            final(self).tokens@ == old(self).tokens@,
            final(self).statements@ == old(self).statements@,
            final(self).errors@ == old(self).errors@,
            final(self).current >= old(self).current,
            r is Ok ==> final(self).current > old(self).current,
            outcome(r, final(self).current as int) == statement(old(self).tv(), old(self).current as int),
        decreases old(self).tokens@.len() - old(self).current, 10nat,
    {
        proof {
            reveal(statement);
        }
        if self.match_one(TokenType::For) {
            self.for_statement()
        } else if self.match_one(TokenType::Print) {
            self.print_statement()
        } else if self.match_one(TokenType::If) {
            self.if_statement()
        } else if self.match_one(TokenType::While) {
            self.while_statement()
        } else if self.match_one(TokenType::LeftBrace) {
            self.block_statement()
        } else {
            self.expression_statement()
        }
    }

    fn expression(&mut self) -> (r: Result<Expr, ParseError>)
        requires
            old(self).inv(),
        ensures
            final(self).inv(),
            final(self).tokens@ == old(self).tokens@,
            final(self).statements@ == old(self).statements@,
            final(self).errors@ == old(self).errors@,
            final(self).current >= old(self).current,
            r is Ok ==> final(self).current > old(self).current,
            outcome(r, final(self).current as int) == expression(old(self).tv(), old(self).current as int),
        decreases old(self).tokens@.len() - old(self).current, 30nat,
    {
        proof {
            reveal(expression);
        }
        self.assignment()
    }

    fn or(&mut self) -> (r: Result<Expr, ParseError>)
        requires
            old(self).inv(),
        ensures
            final(self).inv(),
            final(self).tokens@ == old(self).tokens@,
            final(self).statements@ == old(self).statements@,
            final(self).errors@ == old(self).errors@,
            final(self).current >= old(self).current,
            r is Ok ==> final(self).current > old(self).current,
            outcome(r, final(self).current as int) == or_expr(old(self).tv(), old(self).current as int),
        decreases old(self).tokens@.len() - old(self).current, 28nat,
    {
        proof {
            reveal(or_expr);
            reveal(or_rest);
        }
        let ghost t = self.tv();
        let mut expr = match self.and() {
            Ok(e) => e,
            Err(e) => return Err(e),
        };
        let ghost p1 = self.current as int;
        let ghost e1 = expr@;
        loop
            invariant_except_break
                self.inv(),
                self.tokens@ == old(self).tokens@,
                self.statements@ == old(self).statements@,
                self.errors@ == old(self).errors@,
                t == old(self).tv(),
                self.current >= p1 > old(self).current,
                or_rest(t, p1, e1) == or_rest(t, self.current as int, expr@),
                or_expr(t, old(self).current as int) == or_rest(t, p1, e1),
            ensures
                self.inv(),
                self.tokens@ == old(self).tokens@,
                self.statements@ == old(self).statements@,
                self.errors@ == old(self).errors@,
                self.current > old(self).current,
                or_rest(t, p1, e1) == Parsed::Done(expr@, self.current as int),
            decreases self.tokens@.len() - self.current,
        {
            proof {
                reveal(or_rest);
                reveal(or_expr);
            }
            if !self.match_one(TokenType::Or) {
                break;
            }
            let operator = self.previous();
            let right = match self.equality() {
                Ok(e) => e,
                Err(e) => return Err(e),
            };
            expr = Expr::Logical(Logical { left: Box::new(expr), operator, right: Box::new(right) });
        }
        Ok(expr)
    }

    fn comparison(&mut self) -> (r: Result<Expr, ParseError>)
        requires
            old(self).inv(),
        ensures
            final(self).inv(),
            final(self).tokens@ == old(self).tokens@,
            final(self).statements@ == old(self).statements@,
            final(self).errors@ == old(self).errors@,
            final(self).current >= old(self).current,
            r is Ok ==> final(self).current > old(self).current,
            outcome(r, final(self).current as int) == comparison(old(self).tv(), old(self).current as int),
        decreases old(self).tokens@.len() - old(self).current, 22nat,
    {
        proof {
            reveal(comparison);
            reveal(comparison_rest);
        }
        let ghost t = self.tv();
        let mut expr = match self.term() {
            Ok(e) => e,
            Err(e) => return Err(e),
        };
        let ghost p1 = self.current as int;
        let ghost e1 = expr@;
        loop
            invariant_except_break
                self.inv(),
                self.tokens@ == old(self).tokens@,
                self.statements@ == old(self).statements@,
                self.errors@ == old(self).errors@,
                t == old(self).tv(),
                self.current >= p1 > old(self).current,
                comparison_rest(t, p1, e1) == comparison_rest(t, self.current as int, expr@),
                comparison(t, old(self).current as int) == comparison_rest(t, p1, e1),
            ensures
                self.inv(),
                self.tokens@ == old(self).tokens@,
                self.statements@ == old(self).statements@,
                self.errors@ == old(self).errors@,
                self.current > old(self).current,
                comparison_rest(t, p1, e1) == Parsed::Done(expr@, self.current as int),
            decreases self.tokens@.len() - self.current,
        {
            proof {
                reveal(comparison_rest);
                reveal(comparison);
            }
            if !self.match_any(
                &[TokenType::Greater, TokenType::GreaterEqual, TokenType::Less, TokenType::LessEqual],
                Ghost(comparison_ops()),
            ) {
                break;
            }
            let operator = self.previous();
            let right = match self.term() {
                Ok(e) => e,
                Err(e) => return Err(e),
            };
            expr = Expr::Binary(Binary { left: Box::new(expr), operator, right: Box::new(right) });
        }
        Ok(expr)
    }

    fn factor(&mut self) -> (r: Result<Expr, ParseError>)
        requires
            old(self).inv(),
        ensures
            final(self).inv(),
            final(self).tokens@ == old(self).tokens@,
            final(self).statements@ == old(self).statements@,
            final(self).errors@ == old(self).errors@,
            final(self).current >= old(self).current,
            r is Ok ==> final(self).current > old(self).current,
            outcome(r, final(self).current as int) == factor(old(self).tv(), old(self).current as int),
        decreases old(self).tokens@.len() - old(self).current, 18nat,
    {
        proof {
            reveal(factor);
            reveal(factor_rest);
        }
        let ghost t = self.tv();
        let mut expr = match self.unary() {
            Ok(e) => e,
            Err(e) => return Err(e),
        };
        let ghost p1 = self.current as int;
        let ghost e1 = expr@;
        loop
            invariant_except_break
                self.inv(),
                self.tokens@ == old(self).tokens@,
                self.statements@ == old(self).statements@,
                self.errors@ == old(self).errors@,
                t == old(self).tv(),
                self.current >= p1 > old(self).current,
                factor_rest(t, p1, e1) == factor_rest(t, self.current as int, expr@),
                factor(t, old(self).current as int) == factor_rest(t, p1, e1),
            ensures
                self.inv(),
                self.tokens@ == old(self).tokens@,
                self.statements@ == old(self).statements@,
                self.errors@ == old(self).errors@,
                self.current > old(self).current,
                factor_rest(t, p1, e1) == Parsed::Done(expr@, self.current as int),
            decreases self.tokens@.len() - self.current,
        {
            proof {
                reveal(factor_rest);
                reveal(factor);
            }
            if !self.match_any(&[TokenType::Slash, TokenType::Star], Ghost(factor_ops())) {
                break;
            }
            let operator = self.previous();
            let right = match self.unary() {
                Ok(e) => e,
                Err(e) => return Err(e),
            };
            expr = Expr::Binary(Binary { left: Box::new(expr), operator, right: Box::new(right) });
        }
        Ok(expr)
    }

    /// Consumes a token of type `token_type`, or reports `message` at the current token.
    fn consume(&mut self, token_type: TokenType, message: &str) -> (r: Result<Token, ParseError>)
        requires
            old(self).inv(),
        ensures
            final(self).inv(),
            final(self).tokens@ == old(self).tokens@,
            final(self).statements@ == old(self).statements@,
            final(self).errors@ == old(self).errors@,
            final(self).current >= old(self).current,
            outcome(r, final(self).current as int) == consume(
                old(self).tv(),
                old(self).current as int,
                token_type,
                message@,
            ),
    {
        if self.check(token_type) {
            Ok(self.advance())
        } else {
            Err(parse_error(self.peek().clone(), message))
        }
    }

    /// Consumes the next token if it is of type `token_type`.
    fn match_one(&mut self, token_type: TokenType) -> (r: bool)
        requires
            old(self).inv(),
        ensures
            final(self).inv(),
            final(self).tokens@ == old(self).tokens@,
            final(self).statements@ == old(self).statements@,
            final(self).errors@ == old(self).errors@,
            r == check(old(self).tv(), old(self).current as int, token_type),
            final(self).current == old(self).current + if r { 1int } else { 0int },
    {
        if self.check(token_type) {
            self.advance();
            true
        } else {
            false
        }
    }

    /// Consumes the next token if its type is one of `types`.
    fn match_any(&mut self, types: &[TokenType], Ghost(tts): Ghost<Seq<TokenType>>) -> (r: bool)
        requires
            old(self).inv(),
            types@ == tts,
        ensures
            final(self).inv(),
            final(self).tokens@ == old(self).tokens@,
            final(self).statements@ == old(self).statements@,
            final(self).errors@ == old(self).errors@,
            r == check_any(old(self).tv(), old(self).current as int, tts),
            final(self).current == old(self).current + if r { 1int } else { 0int },
    {
        let mut i: usize = 0;
        while i < types.len()
            invariant
                self == old(self),
                self.inv(),
                i <= types@.len(),
                types@ == tts,
                forall|j: int| 0 <= j < i ==> !check(self.tv(), self.current as int, #[trigger] tts[j]),
            decreases types.len() - i,
        {
            if self.check(types[i]) {
                self.advance();
                return true;
            }
            i = i + 1;
        }
        false
    }

    /// Whether the next token is of type `token_type` (and not the end).
    fn check(&self, token_type: TokenType) -> (r: bool)
        requires
            self.inv(),
        ensures
            r == check(self.tv(), self.current as int, token_type),
    {
        if self.is_at_end() {
            false
        } else {
            self.peek().token_type == token_type
        }
    }

    /// Consumes the current token and returns it; at the end nothing is consumed.
    fn advance(&mut self) -> (r: Token)
        requires
            old(self).inv(),
        ensures
            final(self).inv(),
            final(self).tokens@ == old(self).tokens@,
            final(self).statements@ == old(self).statements@,
            final(self).errors@ == old(self).errors@,
            final(self).current == advance(old(self).tv(), old(self).current as int),
            !at_end(old(self).tv(), old(self).current as int) ==> r@ == old(self).tv()[old(self).current as int],
    {
        if !self.is_at_end() {
            let n = self.tokens.len();
            proof {
                let k = choose|k: int|
                    self.current <= k < self.tv().len() && #[trigger] self.tv()[k].token_type == TokenType::EOF;
                assert(k > self.current);
                assert(self.current + 1 < n);
            }
            self.current = self.current + 1;
        }
        self.previous()
    }

    fn is_at_end(&self) -> (r: bool)
        requires
            self.inv(),
        ensures
            r == at_end(self.tv(), self.current as int),
    {
        self.peek().token_type == TokenType::EOF
    }

    /// The next unconsumed token.
    fn peek(&self) -> (r: &Token)
        requires
            self.inv(),
        ensures
            r@ == self.tv()[self.current as int],
    {
        &self.tokens[self.current]
    }

    /// The last consumed token (the first token when none has been consumed).
    fn previous(&self) -> (r: Token)
        requires
            self.current < self.tokens@.len(),
        ensures
            r@ == if self.current > 0 { self.tv()[self.current - 1] } else { self.tv()[0] },
    {
        if self.current > 0 {
            self.tokens[self.current - 1].clone()
        } else {
            self.tokens[0].clone()
        }
    }
}

} // verus!
