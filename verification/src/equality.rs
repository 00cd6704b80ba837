//! Equality of values as `==` compares them: structurally, with every float compared as
//! an IEEE number (so NaN differs from itself and the two zeros are equal), down to the
//! literals inside the bodies of functions.
use vstd::prelude::*;

use crate::expression::{CallableV, ClassV, ExprV, LitV, ValueV};
use crate::semantics::lit_eq;
use crate::statement::StmtV;
use crate::token::TokenV;

verus! {

pub open spec fn opt_lit_eq(a: Option<LitV>, b: Option<LitV>) -> bool {
    match (a, b) {
        (Some(x), Some(y)) => lit_eq(x, y),
        (None, None) => true,
        _ => false,
    }
}

/// Token equality: same kind, text and line, and equal literals.
pub open spec fn token_eq(a: TokenV, b: TokenV) -> bool {
    &&& a.token_type == b.token_type
    &&& a.lexeme == b.lexeme
    &&& a.line == b.line
    &&& opt_lit_eq(a.literal, b.literal)
}

pub open spec fn tokens_eq(a: Seq<TokenV>, b: Seq<TokenV>) -> bool {
    &&& a.len() == b.len()
    &&& forall|i: int| 0 <= i < a.len() ==> token_eq(#[trigger] a[i], b[i])
}

pub open spec fn expr_eq(a: ExprV, b: ExprV) -> bool
    decreases a,
{
    match (a, b) {
        (ExprV::Binary { left: l1, operator: o1, right: r1 }, ExprV::Binary { left: l2, operator: o2, right: r2 }) =>
            expr_eq(*l1, *l2) && token_eq(o1, o2) && expr_eq(*r1, *r2),
        (ExprV::Unary { operator: o1, right: r1 }, ExprV::Unary { operator: o2, right: r2 }) => token_eq(o1, o2)
            && expr_eq(*r1, *r2),
        (ExprV::Logical { left: l1, operator: o1, right: r1 }, ExprV::Logical { left: l2, operator: o2, right: r2 }) =>
            expr_eq(*l1, *l2) && token_eq(o1, o2) && expr_eq(*r1, *r2),
        (ExprV::Grouping(g1), ExprV::Grouping(g2)) => expr_eq(*g1, *g2),
        (ExprV::Literal(x), ExprV::Literal(y)) => lit_eq(x, y),
        (ExprV::Variable { id: i1, name: n1 }, ExprV::Variable { id: i2, name: n2 }) => i1 == i2 && token_eq(n1, n2),
        (ExprV::Assignment { id: i1, name: n1, value: v1 }, ExprV::Assignment { id: i2, name: n2, value: v2 }) => i1
            == i2 && token_eq(n1, n2) && expr_eq(*v1, *v2),
        (ExprV::Call { callee: c1, paren: p1, args: a1 }, ExprV::Call { callee: c2, paren: p2, args: a2 }) => expr_eq(
            *c1,
            *c2,
        ) && token_eq(p1, p2) && exprs_eq(a1, a2),
        (ExprV::Get { expr: e1, name: n1 }, ExprV::Get { expr: e2, name: n2 }) => expr_eq(*e1, *e2) && token_eq(n1, n2),
        _ => false,
    }
}

pub open spec fn exprs_eq(a: Seq<ExprV>, b: Seq<ExprV>) -> bool
    decreases a,
{
    if a.len() != b.len() {
        false
    } else if a.len() == 0 {
        true
    } else {
        expr_eq(a[0], b[0]) && exprs_eq(a.subrange(1, a.len() as int), b.subrange(1, b.len() as int))
    }
}

pub open spec fn opt_expr_eq(a: Option<ExprV>, b: Option<ExprV>) -> bool {
    match (a, b) {
        (Some(x), Some(y)) => expr_eq(x, y),
        (None, None) => true,
        _ => false,
    }
}

pub open spec fn stmt_eq(a: StmtV, b: StmtV) -> bool
    decreases a,
{
    match (a, b) {
        (StmtV::Expression(x), StmtV::Expression(y)) => expr_eq(x, y),
        (StmtV::Print(x), StmtV::Print(y)) => expr_eq(x, y),
        (StmtV::Var { name: n1, initializer: i1 }, StmtV::Var { name: n2, initializer: i2 }) => token_eq(n1, n2)
            && opt_expr_eq(i1, i2),
        (StmtV::Block(x), StmtV::Block(y)) => stmts_eq(x, y),
        (
            StmtV::If { condition: c1, then_branch: t1, else_branch: e1 },
            StmtV::If { condition: c2, then_branch: t2, else_branch: e2 },
        ) => expr_eq(c1, c2) && stmt_eq(*t1, *t2) && match (e1, e2) {
            (Some(x), Some(y)) => stmt_eq(*x, *y),
            (None, None) => true,
            _ => false,
        },
        (StmtV::While { condition: c1, body: b1 }, StmtV::While { condition: c2, body: b2 }) => expr_eq(c1, c2)
            && stmt_eq(*b1, *b2),
        (StmtV::Function { name: n1, params: p1, body: b1 }, StmtV::Function { name: n2, params: p2, body: b2 }) =>
            token_eq(n1, n2) && tokens_eq(p1, p2) && stmts_eq(b1, b2),
        (StmtV::Return { keyword: k1, value: v1 }, StmtV::Return { keyword: k2, value: v2 }) => token_eq(k1, k2)
            && opt_expr_eq(v1, v2),
        (StmtV::Class { name: n1, methods: m1 }, StmtV::Class { name: n2, methods: m2 }) => token_eq(n1, n2)
            && stmts_eq(m1, m2),
        _ => false,
    }
}

pub open spec fn stmts_eq(a: Seq<StmtV>, b: Seq<StmtV>) -> bool
    decreases a,
{
    if a.len() != b.len() {
        false
    } else if a.len() == 0 {
        true
    } else {
        stmt_eq(a[0], b[0]) && stmts_eq(a.subrange(1, a.len() as int), b.subrange(1, b.len() as int))
    }
}

/// Value equality for `==` and `!=`: literals by `lit_eq`; callables and instances by
/// their contents, compared in the same way.
pub open spec fn value_eq(a: ValueV, b: ValueV) -> bool
    decreases a,
{
    match (a, b) {
        (ValueV::Literal(x), ValueV::Literal(y)) => lit_eq(x, y),
        (ValueV::Callable(x), ValueV::Callable(y)) => callable_eq(x, y),
        (ValueV::Instance(x), ValueV::Instance(y)) => class_eq(x, y),
        _ => false,
    }
}

pub open spec fn callable_eq(a: CallableV, b: CallableV) -> bool
    decreases a,
{
    match (a, b) {
        (CallableV::Function { params: p1, body: b1 }, CallableV::Function { params: p2, body: b2 }) => tokens_eq(p1, p2)
            && stmts_eq(b1, b2),
        (CallableV::Native { name: n1, arity: a1, func: f1 }, CallableV::Native { name: n2, arity: a2, func: f2 }) => n1
            == n2 && a1 == a2 && f1 == f2,
        (CallableV::Class(x), CallableV::Class(y)) => class_eq(x, y),
        _ => false,
    }
}

/// Classes are equal when their names are and their fields are, one by one.
pub open spec fn class_eq(a: ClassV, b: ClassV) -> bool
    decreases a,
{
    a.name == b.name && fields_eq(a.fields, b.fields)
}

pub open spec fn fields_eq(a: Seq<(Seq<char>, ValueV)>, b: Seq<(Seq<char>, ValueV)>) -> bool
    decreases a,
{
    if a.len() != b.len() {
        false
    } else if a.len() == 0 {
        true
    } else {
        a[0].0 == b[0].0 && value_eq(a[0].1, b[0].1) && fields_eq(
            a.subrange(1, a.len() as int),
            b.subrange(1, b.len() as int),
        )
    }
}

/// Lists of expressions are equal when they are, element by element.
pub proof fn lemma_exprs_eq(a: Seq<ExprV>, b: Seq<ExprV>)
    ensures
        exprs_eq(a, b) <==> (a.len() == b.len() && forall|i: int| 0 <= i < a.len() ==> expr_eq(#[trigger] a[i], b[i])),
    decreases a.len(),
{
    if a.len() == b.len() && a.len() > 0 {
        let ra = a.subrange(1, a.len() as int);
        let rb = b.subrange(1, b.len() as int);
        lemma_exprs_eq(ra, rb);
        if forall|i: int| 0 <= i < a.len() ==> expr_eq(#[trigger] a[i], b[i]) {
            assert forall|i: int| 0 <= i < ra.len() implies expr_eq(#[trigger] ra[i], rb[i]) by {
                assert(ra[i] == a[i + 1] && rb[i] == b[i + 1]);
            }
        }
        if exprs_eq(a, b) {
            assert forall|i: int| 0 <= i < a.len() implies expr_eq(#[trigger] a[i], b[i]) by {
                if i > 0 {
                    assert(ra[i - 1] == a[i] && rb[i - 1] == b[i]);
                }
            }
        }
    }
}

/// Lists of statements are equal when they are, element by element.
pub proof fn lemma_stmts_eq(a: Seq<StmtV>, b: Seq<StmtV>)
    ensures
        stmts_eq(a, b) <==> (a.len() == b.len() && forall|i: int| 0 <= i < a.len() ==> stmt_eq(#[trigger] a[i], b[i])),
    decreases a.len(),
{
    if a.len() == b.len() && a.len() > 0 {
        let ra = a.subrange(1, a.len() as int);
        let rb = b.subrange(1, b.len() as int);
        lemma_stmts_eq(ra, rb);
        if forall|i: int| 0 <= i < a.len() ==> stmt_eq(#[trigger] a[i], b[i]) {
            assert forall|i: int| 0 <= i < ra.len() implies stmt_eq(#[trigger] ra[i], rb[i]) by {
                assert(ra[i] == a[i + 1] && rb[i] == b[i + 1]);
            }
        }
        if stmts_eq(a, b) {
            assert forall|i: int| 0 <= i < a.len() implies stmt_eq(#[trigger] a[i], b[i]) by {
                if i > 0 {
                    assert(ra[i - 1] == a[i] && rb[i - 1] == b[i]);
                }
            }
        }
    }
}

/// Lists of fields are equal when they are, element by element.
pub proof fn lemma_fields_eq(a: Seq<(Seq<char>, ValueV)>, b: Seq<(Seq<char>, ValueV)>)
    ensures
        fields_eq(a, b) <==> (a.len() == b.len() && forall|i: int|
            0 <= i < a.len() ==> (#[trigger] a[i]).0 == b[i].0 && value_eq(a[i].1, b[i].1)),
    decreases a.len(),
{
    if a.len() == b.len() && a.len() > 0 {
        let ra = a.subrange(1, a.len() as int);
        let rb = b.subrange(1, b.len() as int);
        lemma_fields_eq(ra, rb);
        if forall|i: int| 0 <= i < a.len() ==> (#[trigger] a[i]).0 == b[i].0 && value_eq(a[i].1, b[i].1) {
            assert forall|i: int| 0 <= i < ra.len() implies (#[trigger] ra[i]).0 == rb[i].0 && value_eq(ra[i].1, rb[i].1) by {
                assert(ra[i] == a[i + 1] && rb[i] == b[i + 1]);
            }
        }
        if fields_eq(a, b) {
            assert forall|i: int| 0 <= i < a.len() implies (#[trigger] a[i]).0 == b[i].0 && value_eq(a[i].1, b[i].1) by {
                if i > 0 {
                    assert(ra[i - 1] == a[i] && rb[i - 1] == b[i]);
                }
            }
        }
    }
}

} // verus!
