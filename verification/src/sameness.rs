//! Deciding `==` on values: structurally, down to the program text that functions hold,
//! with floats compared as IEEE numbers.
use vstd::prelude::*;

use crate::expression::{
    Callable, Class, Expr, Literal, Value, exprs_view, fields_view, lemma_exprs_view,
    lemma_fields_view_index, lemma_fields_view_len,
};
use crate::equality::{
    callable_eq, class_eq, expr_eq, exprs_eq, fields_eq, lemma_exprs_eq, lemma_fields_eq, lemma_stmts_eq, opt_expr_eq,
    stmt_eq, stmts_eq, token_eq, tokens_eq, value_eq,
};
use crate::ieee::{self, FloatOrder};
use crate::semantics::lit_eq;
use crate::statement::{Stmt, lemma_stmts_view, stmts_view};
use crate::token::{Token, tokens_view};

verus! {

/// Whether two literals are equal.
pub fn same_literal(a: &Literal, b: &Literal) -> (r: bool)
    ensures
        r == lit_eq(a@, b@),
{
    match (a, b) {
        (Literal::String(x), Literal::String(y)) => *x == *y,
        (Literal::Int(x), Literal::Int(y)) => *x == *y,
        (Literal::Float(x), Literal::Float(y)) => ieee::order(*x, *y) == FloatOrder::Equal,
        (Literal::Boolean(x), Literal::Boolean(y)) => *x == *y,
        (Literal::True, Literal::True) => true,
        (Literal::False, Literal::False) => true,
        (Literal::Nil, Literal::Nil) => true,
        _ => false,
    }
}

/// Whether two tokens are equal.
pub fn same_token(a: &Token, b: &Token) -> (r: bool)
    ensures
        r == token_eq(a@, b@),
{
    let same_line = match (a.line, b.line) {
        (Some(x), Some(y)) => x == y,
        (None, None) => true,
        _ => false,
    };
    let same_lit = match (&a.literal, &b.literal) {
        (Some(x), Some(y)) => same_literal(x, y),
        (None, None) => true,
        _ => false,
    };
    a.token_type == b.token_type && a.lexeme == b.lexeme && same_line && same_lit
}

/// Whether two lists of tokens are equal.
pub fn same_tokens(a: &Vec<Token>, b: &Vec<Token>) -> (r: bool)
    ensures
        r == tokens_eq(tokens_view(a@), tokens_view(b@)),
{
    if a.len() != b.len() {
        return false;
    }
    let mut i: usize = 0;
    while i < a.len()
        invariant
            i <= a.len() == b.len(),
            forall|j: int| 0 <= j < i ==> token_eq(a@[j]@, b@[j]@),
        decreases a.len() - i,
    {
        if !same_token(&a[i], &b[i]) {
            assert(!token_eq(tokens_view(a@)[i as int], tokens_view(b@)[i as int]));
            return false;
        }
        i = i + 1;
    }
    assert forall|j: int| 0 <= j < a.len() implies token_eq(#[trigger] tokens_view(a@)[j], tokens_view(b@)[j]) by {
        assert(tokens_view(a@)[j] == a@[j]@);
    }
    true
}

/// Whether two expressions are equal.
pub fn same_expr(a: &Expr, b: &Expr) -> (r: bool)
    ensures
        r == expr_eq(a@, b@),
    decreases a,
{
    match (a, b) {
        (Expr::Binary(x), Expr::Binary(y)) => same_expr(&x.left, &y.left) && same_token(&x.operator, &y.operator)
            && same_expr(&x.right, &y.right),
        (Expr::Unary(x), Expr::Unary(y)) => same_token(&x.operator, &y.operator) && same_expr(&x.right, &y.right),
        (Expr::Logical(x), Expr::Logical(y)) => same_expr(&x.left, &y.left) && same_token(&x.operator, &y.operator)
            && same_expr(&x.right, &y.right),
        (Expr::Grouping(x), Expr::Grouping(y)) => same_expr(&x.expression, &y.expression),
        (Expr::Literal(x), Expr::Literal(y)) => same_literal(x, y),
        (Expr::Variable(x), Expr::Variable(y)) => x.id == y.id && same_token(&x.name, &y.name),
        (Expr::Assignment(x), Expr::Assignment(y)) => x.id == y.id && same_token(&x.name, &y.name) && same_expr(
            &x.value,
            &y.value,
        ),
        (Expr::Call(x), Expr::Call(y)) => same_expr(&x.callee, &y.callee) && same_token(&x.paren, &y.paren)
            && same_exprs(&x.args, &y.args),
        (Expr::Get { expr: x, name: n }, Expr::Get { expr: y, name: m }) => same_expr(x, y) && same_token(n, m),
        _ => false,
    }
}

/// Whether two lists of expressions are equal.
pub fn same_exprs(a: &Vec<Expr>, b: &Vec<Expr>) -> (r: bool)
    ensures
        r == exprs_eq(exprs_view(a@), exprs_view(b@)),
    decreases a,
{
    proof {
        lemma_exprs_view(a@);
        lemma_exprs_view(b@);
        lemma_exprs_eq(exprs_view(a@), exprs_view(b@));
    }
    if a.len() != b.len() {
        return false;
    }
    let mut i: usize = 0;
    while i < a.len()
        invariant
            i <= a.len() == b.len(),
            exprs_view(a@).len() == a.len(),
            exprs_view(b@).len() == b.len(),
            forall|k: int| 0 <= k < a.len() ==> #[trigger] exprs_view(a@)[k] == a@[k]@,
            forall|k: int| 0 <= k < b.len() ==> #[trigger] exprs_view(b@)[k] == b@[k]@,
            exprs_eq(exprs_view(a@), exprs_view(b@)) <==> forall|k: int|
                0 <= k < a.len() ==> expr_eq(#[trigger] exprs_view(a@)[k], exprs_view(b@)[k]),
            forall|j: int| 0 <= j < i ==> expr_eq(a@[j]@, b@[j]@),
        decreases a.len() - i,
    {
        assert(decreases_to!(a => a@[i as int]));
        if !same_expr(&a[i], &b[i]) {
            assert(!expr_eq(exprs_view(a@)[i as int], exprs_view(b@)[i as int]));
            return false;
        }
        i = i + 1;
    }
    assert forall|k: int| 0 <= k < a.len() implies expr_eq(#[trigger] exprs_view(a@)[k], exprs_view(b@)[k]) by {
        assert(exprs_view(a@)[k] == a@[k]@);
    }
    true
}

/// Whether two optional expressions are equal.
fn same_opt_expr(a: &Option<Expr>, b: &Option<Expr>) -> (r: bool)
    ensures
        r == opt_expr_eq(
            match a {
                Some(x) => Some(x@),
                None => None,
            },
            match b {
                Some(y) => Some(y@),
                None => None,
            },
        ),
{
    match (a, b) {
        (Some(x), Some(y)) => same_expr(x, y),
        (None, None) => true,
        _ => false,
    }
}

/// Whether two statements are equal.
pub fn same_stmt(a: &Stmt, b: &Stmt) -> (r: bool)
    ensures
        r == stmt_eq(a@, b@),
    decreases a,
{
    match (a, b) {
        (Stmt::Expression(x), Stmt::Expression(y)) => same_expr(x, y),
        (Stmt::Print(x), Stmt::Print(y)) => same_expr(x, y),
        (Stmt::Var { name: n, initializer: x }, Stmt::Var { name: m, initializer: y }) => same_token(n, m)
            && same_opt_expr(x, y),
        (Stmt::Block(x), Stmt::Block(y)) => same_stmts(x, y),
        (
            Stmt::If { condition: c, then_branch: t, else_branch: e },
            Stmt::If { condition: d, then_branch: u, else_branch: f },
        ) => {
            let same_else = match (e, f) {
                (Some(x), Some(y)) => same_stmt(x, y),
                (None, None) => true,
                _ => false,
            };
            same_expr(c, d) && same_stmt(t, u) && same_else
        },
        (Stmt::While { condition: c, body: x }, Stmt::While { condition: d, body: y }) => same_expr(c, d)
            && same_stmt(x, y),
        (Stmt::Function { name: n, params: p, body: x }, Stmt::Function { name: m, params: q, body: y }) => same_token(
            n,
            m,
        ) && same_tokens(p, q) && same_stmts(x, y),
        (Stmt::Return { keyword: k, value: x }, Stmt::Return { keyword: l, value: y }) => {
            let same_value = match (x, y) {
                (Some(v), Some(w)) => same_expr(v, w),
                (None, None) => true,
                _ => false,
            };
            assert(same_value == opt_expr_eq(
                match x {
                    Some(v) => Some(v@),
                    None => None,
                },
                match y {
                    Some(w) => Some(w@),
                    None => None,
                },
            ));
            same_token(k, l) && same_value
        },
        (Stmt::Class { name: n, methods: x }, Stmt::Class { name: m, methods: y }) => same_token(n, m) && same_stmts(
            x,
            y,
        ),
        _ => false,
    }
}

/// Whether two lists of statements are equal.
pub fn same_stmts(a: &Vec<Stmt>, b: &Vec<Stmt>) -> (r: bool)
    ensures
        r == stmts_eq(stmts_view(a@), stmts_view(b@)),
    decreases a,
{
    proof {
        lemma_stmts_view(a@);
        lemma_stmts_view(b@);
        lemma_stmts_eq(stmts_view(a@), stmts_view(b@));
    }
    if a.len() != b.len() {
        return false;
    }
    let mut i: usize = 0;
    while i < a.len()
        invariant
            i <= a.len() == b.len(),
            stmts_view(a@).len() == a.len(),
            stmts_view(b@).len() == b.len(),
            forall|k: int| 0 <= k < a.len() ==> #[trigger] stmts_view(a@)[k] == a@[k]@,
            forall|k: int| 0 <= k < b.len() ==> #[trigger] stmts_view(b@)[k] == b@[k]@,
            stmts_eq(stmts_view(a@), stmts_view(b@)) <==> forall|k: int|
                0 <= k < a.len() ==> stmt_eq(#[trigger] stmts_view(a@)[k], stmts_view(b@)[k]),
            forall|j: int| 0 <= j < i ==> stmt_eq(a@[j]@, b@[j]@),
        decreases a.len() - i,
    {
        assert(decreases_to!(a => a@[i as int]));
        if !same_stmt(&a[i], &b[i]) {
            assert(!stmt_eq(stmts_view(a@)[i as int], stmts_view(b@)[i as int]));
            return false;
        }
        i = i + 1;
    }
    assert forall|k: int| 0 <= k < a.len() implies stmt_eq(#[trigger] stmts_view(a@)[k], stmts_view(b@)[k]) by {
        assert(stmts_view(a@)[k] == a@[k]@);
    }
    true
}

/// Whether two values are equal.
pub fn same_value(a: &Value, b: &Value) -> (r: bool)
    ensures
        r == value_eq(a@, b@),
    decreases a,
{
    match (a, b) {
        (Value::Literal(x), Value::Literal(y)) => same_literal(x, y),
        (Value::Callable(x), Value::Callable(y)) => same_callable(x, y),
        (Value::ClassInstance(x), Value::ClassInstance(y)) => same_class(&x.class, &y.class),
        _ => false,
    }
}

/// Whether two callables are equal.
pub fn same_callable(a: &Callable, b: &Callable) -> (r: bool)
    ensures
        r == callable_eq(a@, b@),
    decreases a,
{
    match (a, b) {
        (Callable::Function(x), Callable::Function(y)) => same_tokens(&x.params, &y.params) && same_stmts(
            &x.body,
            &y.body,
        ),
        (Callable::Native(x), Callable::Native(y)) => x.name == y.name && x.arity == y.arity && x.func == y.func,
        (Callable::Class(x), Callable::Class(y)) => same_class(x, y),
        _ => false,
    }
}

/// Whether two classes are equal.
pub fn same_class(a: &Class, b: &Class) -> (r: bool)
    ensures
        r == class_eq(a@, b@),
    decreases a,
{
    proof {
        lemma_fields_view_len(a.fields@);
        lemma_fields_view_len(b.fields@);
        lemma_fields_eq(fields_view(a.fields@), fields_view(b.fields@));
    }
    if a.name != b.name || a.fields.len() != b.fields.len() {
        return false;
    }
    let mut i: usize = 0;
    while i < a.fields.len()
        invariant
            i <= a.fields.len() == b.fields.len(),
            fields_view(a.fields@).len() == a.fields.len(),
            fields_view(b.fields@).len() == b.fields.len(),
            a.name@ == b.name@,
            fields_eq(fields_view(a.fields@), fields_view(b.fields@)) <==> forall|k: int|
                0 <= k < a.fields.len() ==> (#[trigger] fields_view(a.fields@)[k]).0 == fields_view(b.fields@)[k].0
                    && value_eq(fields_view(a.fields@)[k].1, fields_view(b.fields@)[k].1),
            forall|j: int|
                0 <= j < i ==> (#[trigger] fields_view(a.fields@)[j]).0 == fields_view(b.fields@)[j].0 && value_eq(
                    fields_view(a.fields@)[j].1,
                    fields_view(b.fields@)[j].1,
                ),
        decreases a.fields.len() - i,
    {
        proof {
            lemma_fields_view_index(a.fields@, i as int);
            lemma_fields_view_index(b.fields@, i as int);
        }
        assert(decreases_to!(a => a.fields@[i as int].1));
        if !(a.fields[i].0 == b.fields[i].0 && same_value(&a.fields[i].1, &b.fields[i].1)) {
            return false;
        }
        i = i + 1;
    }
    true
}

} // verus!
