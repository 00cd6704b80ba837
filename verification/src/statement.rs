use vstd::prelude::*;

use crate::expression::{Expr, ExprV, clone_expr, expr_view};
use crate::token::{Token, TokenV, clone_tokens, tokens_view};

verus! {

/// Every statement form of the language.
#[derive(Debug, PartialEq)]
#[allow(inconsistent_fields)]
pub enum Stmt {
    Expression(Expr),
    Print(Expr),
    Var { name: Token, initializer: Option<Expr> },
    Block(Vec<Stmt>),
    If { condition: Expr, then_branch: Box<Stmt>, else_branch: Option<Box<Stmt>> },
    While { condition: Expr, body: Box<Stmt> },
    Function { name: Token, params: Vec<Token>, body: Vec<Stmt> },
    Return { keyword: Token, value: Option<Box<Expr>> },
    Class { name: Token, methods: Vec<Stmt> },
}

/// The mathematical view of a statement.
#[allow(inconsistent_fields)]
pub enum StmtV {
    Expression(ExprV),
    Print(ExprV),
    Var { name: TokenV, initializer: Option<ExprV> },
    Block(Seq<StmtV>),
    If { condition: ExprV, then_branch: Box<StmtV>, else_branch: Option<Box<StmtV>> },
    While { condition: ExprV, body: Box<StmtV> },
    Function { name: TokenV, params: Seq<TokenV>, body: Seq<StmtV> },
    Return { keyword: TokenV, value: Option<ExprV> },
    Class { name: TokenV, methods: Seq<StmtV> },
}

pub open spec fn stmt_view(s: Stmt) -> StmtV
    decreases s,
{
    match s {
        Stmt::Expression(e) => StmtV::Expression(expr_view(e)),
        Stmt::Print(e) => StmtV::Print(expr_view(e)),
        Stmt::Var { name, initializer } => StmtV::Var {
            name: name@,
            initializer: match initializer {
                Some(e) => Some(expr_view(e)),
                None => None,
            },
        },
        Stmt::Block(b) => StmtV::Block(stmts_view(b@)),
        Stmt::If { condition, then_branch, else_branch } => StmtV::If {
            condition: expr_view(condition),
            then_branch: Box::new(stmt_view(*then_branch)),
            else_branch: match else_branch {
                Some(e) => Some(Box::new(stmt_view(*e))),
                None => None,
            },
        },
        Stmt::While { condition, body } => StmtV::While {
            condition: expr_view(condition),
            body: Box::new(stmt_view(*body)),
        },
        Stmt::Function { name, params, body } => StmtV::Function {
            name: name@,
            params: tokens_view(params@),
            body: stmts_view(body@),
        },
        Stmt::Return { keyword, value } => StmtV::Return {
            keyword: keyword@,
            value: match value {
                Some(e) => Some(expr_view(*e)),
                None => None,
            },
        },
        Stmt::Class { name, methods } => StmtV::Class { name: name@, methods: stmts_view(methods@) },
    }
}

pub open spec fn stmts_view(s: Seq<Stmt>) -> Seq<StmtV>
    decreases s,
{
    if s.len() == 0 {
        Seq::empty()
    } else {
        stmts_view(s.subrange(0, s.len() - 1)).push(stmt_view(s[s.len() - 1]))
    }
}

/// The view of a list of statements is the list of their views.
pub proof fn lemma_stmts_view(s: Seq<Stmt>)
    ensures
        stmts_view(s).len() == s.len(),
        forall|i: int| 0 <= i < s.len() ==> #[trigger] stmts_view(s)[i] == stmt_view(s[i]),
    decreases s.len(),
{
    if s.len() > 0 {
        lemma_stmts_view(s.subrange(0, s.len() - 1));
    }
}

/// Viewing a list extended by one statement extends its view.
pub proof fn lemma_stmts_view_push(s: Seq<Stmt>, x: Stmt)
    ensures
        stmts_view(s.push(x)) == stmts_view(s).push(stmt_view(x)),
{
    assert(s.push(x).subrange(0, s.len() as int) =~= s);
}

/// A copy of a statement.
pub fn clone_stmt(s: &Stmt) -> (r: Stmt)
    ensures
        r@ == s@,
    decreases s,
{
    match s {
        Stmt::Expression(e) => Stmt::Expression(clone_expr(e)),
        Stmt::Print(e) => Stmt::Print(clone_expr(e)),
        Stmt::Var { name, initializer } => Stmt::Var {
            name: name.clone(),
            initializer: match initializer {
                Some(e) => Some(clone_expr(e)),
                None => None,
            },
        },
        Stmt::Block(b) => Stmt::Block(clone_stmts(b)),
        Stmt::If { condition, then_branch, else_branch } => Stmt::If {
            condition: clone_expr(condition),
            then_branch: Box::new(clone_stmt(then_branch)),
            else_branch: match else_branch {
                Some(e) => Some(Box::new(clone_stmt(e))),
                None => None,
            },
        },
        Stmt::While { condition, body } => Stmt::While {
            condition: clone_expr(condition),
            body: Box::new(clone_stmt(body)),
        },
        Stmt::Function { name, params, body } => Stmt::Function {
            name: name.clone(),
            params: clone_tokens(params),
            body: clone_stmts(body),
        },
        Stmt::Return { keyword, value } => Stmt::Return {
            keyword: keyword.clone(),
            value: match value {
                Some(e) => Some(Box::new(clone_expr(e))),
                None => None,
            },
        },
        Stmt::Class { name, methods } => Stmt::Class { name: name.clone(), methods: clone_stmts(methods) },
    }
}

/// A copy of a list of statements.
pub fn clone_stmts(v: &Vec<Stmt>) -> (r: Vec<Stmt>)
    ensures
        stmts_view(r@) == stmts_view(v@),
    decreases v,
{
    let mut r: Vec<Stmt> = Vec::new();
    let mut i: usize = 0;
    while i < v.len()
        invariant
            i <= v.len(),
            stmts_view(r@) == stmts_view(v@.subrange(0, i as int)),
        decreases v.len() - i,
    {
        assert(decreases_to!(v => v@[i as int]));
        let x = clone_stmt(&v[i]);
        proof {
            lemma_stmts_view_push(r@, x);
            assert(v@.subrange(0, i + 1).subrange(0, i as int) =~= v@.subrange(0, i as int));
        }
        r.push(x);
        i = i + 1;
    }
    assert(v@.subrange(0, v@.len() as int) =~= v@);
    r
}

impl Clone for Stmt {
    fn clone(&self) -> (r: Self)
        ensures
            r@ == self@,
    {
        clone_stmt(self)
    }
}

impl View for Stmt {
    type V = StmtV;

    open spec fn view(&self) -> StmtV {
        stmt_view(*self)
    }
}

} // verus!
