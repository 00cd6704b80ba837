//! Blocks and calls leave the scopes as they found them: as many scopes, each binding
//! the same names (only assignments change what the names hold).
use vstd::prelude::*;

use crate::environment::{chain_assign, frame_define};
use crate::expression::{CallableV, ExprV, ValueV, field_lookup};
use crate::laws::lemma_frame_define_lookup;
use crate::semantics::{
    IState, Reading, args_size, assign_at_distance, call_value, distance_of, eval_args, eval_expr, exec_items,
    exec_stmt, exec_while, expr_size, pop_frame, push_frame, run_block, stmt_size, stmts_size,
};
use crate::statement::StmtV;
use crate::token::TokenV;

verus! {

/// The names bound in a scope.
pub open spec fn names(f: Seq<(Seq<char>, ValueV)>) -> Set<Seq<char>> {
    Set::new(|k: Seq<char>| field_lookup(f, k) is Some)
}

/// `b` has as many scopes as `a`, and each of the first `k` binds the same names.
pub open spec fn same_scopes(a: IState, b: IState, k: int) -> bool {
    &&& b.frames.len() == a.frames.len()
    &&& forall|i: int| 0 <= i < k ==> names(#[trigger] b.frames[i]) == names(a.frames[i])
}

proof fn lemma_same_trans(a: IState, b: IState, c: IState, k: int)
    requires
        same_scopes(a, b, k),
        same_scopes(b, c, k),
    ensures
        same_scopes(a, c, k),
{
    assert forall|i: int| 0 <= i < k implies names(#[trigger] c.frames[i]) == names(a.frames[i]) by {
        assert(names(c.frames[i]) == names(b.frames[i]));
    }
}

/// Binding a name that a scope already binds keeps its names.
proof fn lemma_rebind_names(f: Seq<(Seq<char>, ValueV)>, name: Seq<char>, v: ValueV)
    requires
        field_lookup(f, name) is Some,
    ensures
        names(frame_define(f, name, v)) == names(f),
{
    assert forall|k: Seq<char>| names(frame_define(f, name, v)).contains(k) <==> names(f).contains(k) by {
        lemma_frame_define_lookup(f, name, v, k);
    }
    assert(names(frame_define(f, name, v)) =~= names(f));
}

/// Assigning keeps the number of scopes and the names each binds.
proof fn lemma_chain_assign_names(frames: Seq<Seq<(Seq<char>, ValueV)>>, name: Seq<char>, v: ValueV)
    ensures
        chain_assign(frames, name, v) matches Some(fs) ==> fs.len() == frames.len() && forall|i: int|
            0 <= i < frames.len() ==> names(#[trigger] fs[i]) == names(frames[i]),
    decreases frames.len(),
{
    if frames.len() > 0 {
        let n = frames.len();
        let last = frames[n - 1];
        crate::environment::lemma_lookup_at_last_index(last, name);
        lemma_chain_assign_names(frames.subrange(0, n - 1), name, v);
        if crate::environment::last_index(last, name) is Some {
            lemma_rebind_names(last, name, v);
        }
    }
}

proof fn lemma_assign_keeps(s: IState, d: usize, id: usize, name: TokenV, v: ValueV)
    ensures
        same_scopes(s, assign_at_distance(s, d, id, name, v).0, s.frames.len() as int),
{
    let n = s.frames.len();
    if d < n {
        let pre = s.frames.subrange(0, n - d);
        lemma_chain_assign_names(pre, name.lexeme, v);
        if let Some(fs) = chain_assign(pre, name.lexeme, v) {
            let all = fs + s.frames.subrange(n - d, n as int);
            assert forall|i: int| 0 <= i < n implies names(#[trigger] all[i]) == names(s.frames[i]) by {
                if i < n - d {
                    assert(all[i] == fs[i]);
                    assert(pre[i] == s.frames[i]);
                } else {
                    assert(all[i] == s.frames[i]);
                }
            }
        }
    }
}

/// Leaving a scope that was entered, when the scopes outside it kept their names.
proof fn lemma_pop_keeps(s: IState, f: Seq<(Seq<char>, ValueV)>, s1: IState)
    requires
        same_scopes(push_frame(s, f), s1, s.frames.len() as int),
    ensures
        same_scopes(s, pop_frame(s1), s.frames.len() as int),
{
    let s0 = push_frame(s, f);
    let s2 = pop_frame(s1);
    assert forall|i: int| 0 <= i < s.frames.len() implies names(#[trigger] s2.frames[i]) == names(s.frames[i]) by {
        assert(s2.frames[i] == s1.frames[i]);
        assert(s0.frames[i] == s.frames[i]);
    }
}

proof fn lemma_define_keeps(s: IState, name: Seq<char>, v: ValueV)
    requires
        s.frames.len() >= 1,
    ensures
        same_scopes(s, crate::semantics::define(s, name, v), s.frames.len() - 1),
{
}

/// Evaluating an expression keeps every scope's names.
pub proof fn lemma_expr_keeps(r: Seq<Reading>, fuel: nat, s: IState, e: ExprV)
    ensures
        same_scopes(s, eval_expr(r, fuel, s, e).0, s.frames.len() as int),
    decreases fuel, 1nat, expr_size(e),
{
    reveal(eval_expr);
    reveal(eval_args);
    reveal(call_value);
    reveal(exec_stmt);
    reveal(exec_items);
    reveal(exec_while);
    let n = s.frames.len() as int;
    match e {
        ExprV::Grouping(g) => lemma_expr_keeps(r, fuel, s, *g),
        ExprV::Assignment { id, name, value } => {
            lemma_expr_keeps(r, fuel, s, *value);
            let (s1, x) = eval_expr(r, fuel, s, *value);
            if let Ok(v) = x {
                lemma_assign_keeps(s1, distance_of(s1, id), id, name, v);
                lemma_same_trans(s, s1, assign_at_distance(s1, distance_of(s1, id), id, name, v).0, n);
            }
        },
        ExprV::Call { callee, paren, args } => {
            lemma_expr_keeps(r, fuel, s, *callee);
            let (s1, x) = eval_expr(r, fuel, s, *callee);
            if let Ok(ValueV::Callable(c)) = x {
                lemma_args_keeps(r, fuel, s1, args);
                lemma_same_trans(s, s1, eval_args(r, fuel, s1, args).0, n);
                let (s2, y) = eval_args(r, fuel, s1, args);
                if let Ok(vs) = y {
                    lemma_call_keeps(r, fuel, s2, c, vs, paren);
                    lemma_same_trans(s, s2, call_value(r, fuel, s2, c, vs, paren).0, n);
                }
            }
        },
        ExprV::Logical { left, operator, right } => {
            lemma_expr_keeps(r, fuel, s, *left);
            let (s1, x) = eval_expr(r, fuel, s, *left);
            lemma_expr_keeps(r, fuel, s1, *right);
            lemma_same_trans(s, s1, eval_expr(r, fuel, s1, *right).0, n);
        },
        ExprV::Unary { operator, right } => lemma_expr_keeps(r, fuel, s, *right),
        ExprV::Binary { left, operator, right } => {
            lemma_expr_keeps(r, fuel, s, *left);
            let (s1, x) = eval_expr(r, fuel, s, *left);
            lemma_expr_keeps(r, fuel, s1, *right);
            lemma_same_trans(s, s1, eval_expr(r, fuel, s1, *right).0, n);
        },
        ExprV::Get { expr, name } => lemma_expr_keeps(r, fuel, s, *expr),
        _ => {},
    }
}

/// Evaluating arguments keeps every scope's names.
pub proof fn lemma_args_keeps(r: Seq<Reading>, fuel: nat, s: IState, args: Seq<ExprV>)
    ensures
        same_scopes(s, eval_args(r, fuel, s, args).0, s.frames.len() as int),
    decreases fuel, 1nat, args_size(args),
{
    reveal(eval_expr);
    reveal(eval_args);
    reveal(call_value);
    reveal(exec_stmt);
    reveal(exec_items);
    reveal(exec_while);
    if args.len() > 0 {
        lemma_expr_keeps(r, fuel, s, args[0]);
        let (s1, x) = eval_expr(r, fuel, s, args[0]);
        lemma_args_keeps(r, fuel, s1, args.subrange(1, args.len() as int));
        lemma_same_trans(
            s,
            s1,
            eval_args(r, fuel, s1, args.subrange(1, args.len() as int)).0,
            s.frames.len() as int,
        );
    }
}

/// A call keeps every scope's names.
pub proof fn lemma_call_keeps(r: Seq<Reading>, fuel: nat, s: IState, c: CallableV, args: Seq<ValueV>, token: TokenV)
    ensures
        same_scopes(s, call_value(r, fuel, s, c, args, token).0, s.frames.len() as int),
    decreases fuel, 0nat, 0nat,
{
    reveal(eval_expr);
    reveal(eval_args);
    reveal(call_value);
    reveal(exec_stmt);
    reveal(exec_items);
    reveal(exec_while);
    if let CallableV::Function { params, body } = c {
        if params.len() == args.len() && fuel > 0 {
            let f = crate::semantics::bind_params(params, args);
            lemma_items_keeps(r, (fuel - 1) as nat, push_frame(s, f), body);
            lemma_pop_keeps(s, f, exec_items(r, (fuel - 1) as nat, push_frame(s, f), body).0);
        }
    }
}

/// Running a statement keeps the names of every scope but the innermost (where it may
/// declare).
pub proof fn lemma_stmt_keeps(r: Seq<Reading>, fuel: nat, s: IState, st: StmtV)
    requires
        s.frames.len() >= 1,
    ensures
        same_scopes(s, exec_stmt(r, fuel, s, st).0, s.frames.len() - 1),
    decreases fuel, 1nat, stmt_size(st),
{
    reveal(eval_expr);
    reveal(eval_args);
    reveal(call_value);
    reveal(exec_stmt);
    reveal(exec_items);
    reveal(exec_while);
    let n = s.frames.len() as int;
    match st {
        StmtV::Expression(e) => lemma_expr_keeps(r, fuel, s, e),
        StmtV::Print(e) => lemma_expr_keeps(r, fuel, s, e),
        StmtV::Return { keyword, value } => {
            if let Some(e) = value {
                lemma_expr_keeps(r, fuel, s, e);
            }
        },
        StmtV::Var { name, initializer } => {
            match initializer {
                Some(e) => {
                    lemma_expr_keeps(r, fuel, s, e);
                    let (s1, x) = eval_expr(r, fuel, s, e);
                    if let Ok(v) = x {
                        lemma_define_keeps(s1, name.lexeme, v);
                        lemma_same_trans(s, s1, crate::semantics::define(s1, name.lexeme, v), n - 1);
                    }
                },
                None => lemma_define_keeps(s, name.lexeme, crate::semantics::nil_value()),
            }
        },
        StmtV::Function { name, params, body } => {},
        StmtV::Class { name, methods } => {},
        StmtV::Block(b) => {
            lemma_items_keeps(r, fuel, push_frame(s, Seq::empty()), b);
            lemma_pop_keeps(s, Seq::empty(), exec_items(r, fuel, push_frame(s, Seq::empty()), b).0);
        },
        StmtV::If { condition, then_branch, else_branch } => {
            lemma_expr_keeps(r, fuel, s, condition);
            let (s1, x) = eval_expr(r, fuel, s, condition);
            lemma_stmt_keeps(r, fuel, s1, *then_branch);
            lemma_same_trans(s, s1, exec_stmt(r, fuel, s1, *then_branch).0, n - 1);
            if let Some(b) = else_branch {
                lemma_stmt_keeps(r, fuel, s1, *b);
                lemma_same_trans(s, s1, exec_stmt(r, fuel, s1, *b).0, n - 1);
            }
        },
        StmtV::While { condition, body } => lemma_while_keeps(r, fuel, s, condition, *body),
    }
}

/// Running the statements of a block keeps the names of every scope but the innermost.
pub proof fn lemma_items_keeps(r: Seq<Reading>, fuel: nat, s: IState, stmts: Seq<StmtV>)
    requires
        s.frames.len() >= 1,
    ensures
        same_scopes(s, exec_items(r, fuel, s, stmts).0, s.frames.len() - 1),
    decreases fuel, 1nat, stmts_size(stmts),
{
    reveal(eval_expr);
    reveal(eval_args);
    reveal(call_value);
    reveal(exec_stmt);
    reveal(exec_items);
    reveal(exec_while);
    if stmts.len() > 0 {
        lemma_stmt_keeps(r, fuel, s, stmts[0]);
        let (s1, out) = exec_stmt(r, fuel, s, stmts[0]);
        lemma_items_keeps(r, fuel, s1, stmts.subrange(1, stmts.len() as int));
        lemma_same_trans(
            s,
            s1,
            exec_items(r, fuel, s1, stmts.subrange(1, stmts.len() as int)).0,
            s.frames.len() - 1,
        );
    }
}

/// Running a loop keeps the names of every scope but the innermost.
pub proof fn lemma_while_keeps(r: Seq<Reading>, fuel: nat, s: IState, condition: ExprV, body: StmtV)
    requires
        s.frames.len() >= 1,
    ensures
        same_scopes(s, exec_while(r, fuel, s, condition, body).0, s.frames.len() - 1),
    decreases fuel, 0nat, 0nat,
{
    reveal(eval_expr);
    reveal(eval_args);
    reveal(call_value);
    reveal(exec_stmt);
    reveal(exec_items);
    reveal(exec_while);
    if fuel > 0 {
        let f = (fuel - 1) as nat;
        let n = s.frames.len() - 1;
        lemma_expr_keeps(r, f, s, condition);
        let (s1, x) = eval_expr(r, f, s, condition);
        lemma_stmt_keeps(r, f, s1, body);
        let s2 = exec_stmt(r, f, s1, body).0;
        lemma_same_trans(s, s1, s2, n);
        lemma_while_keeps(r, f, s2, condition, body);
        lemma_same_trans(s, s2, exec_while(r, f, s2, condition, body).0, n);
    }
}

/// A block statement leaves as many scopes as it found, each binding the same names:
/// what the block declares is gone after it.
pub proof fn law_block_restores_scopes(r: Seq<Reading>, fuel: nat, s: IState, b: Seq<StmtV>)
    ensures
        same_scopes(s, exec_stmt(r, fuel, s, StmtV::Block(b)).0, s.frames.len() as int),
{
    reveal(exec_stmt);
    reveal(exec_items);
    lemma_items_keeps(r, fuel, push_frame(s, Seq::empty()), b);
    lemma_pop_keeps(s, Seq::empty(), exec_items(r, fuel, push_frame(s, Seq::empty()), b).0);
}

/// A call leaves as many scopes as it found, each binding the same names: the
/// parameters and what the body declares do not reach the caller.
pub proof fn law_call_keeps_scopes(r: Seq<Reading>, fuel: nat, s: IState, c: CallableV, args: Seq<ValueV>, token: TokenV)
    ensures
        same_scopes(s, call_value(r, fuel, s, c, args, token).0, s.frames.len() as int),
{
    lemma_call_keeps(r, fuel, s, c, args, token);
}

/// Running a block in a scope of its own (as `evaluate_block` does) leaves as many
/// scopes as it found, each binding the same names.
pub proof fn law_run_block_keeps_scopes(
    r: Seq<Reading>,
    fuel: nat,
    s: IState,
    frame: Seq<(Seq<char>, ValueV)>,
    stmts: Seq<StmtV>,
)
    ensures
        same_scopes(s, run_block(r, fuel, s, frame, stmts).0, s.frames.len() as int),
{
    lemma_items_keeps(r, fuel, push_frame(s, frame), stmts);
    lemma_pop_keeps(s, frame, exec_items(r, fuel, push_frame(s, frame), stmts).0);
}

} // verus!
