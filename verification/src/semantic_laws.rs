//! Properties of the evaluation of programs.
use vstd::prelude::*;

use crate::environment::chain_get;
use crate::equality::value_eq;
use crate::expression::{CallableV, ExprV, LitV, ValueV, value_truthy};
use crate::interpreter::InterruptV;
use crate::laws::{law_assign_keeps_others, law_get_after_assign, lemma_frame_define_lookup};
use crate::semantics::{
    EvalV, IState, Reading, arity_error, assign_to, bind_params, binary_op, bool_value, call_outcome, call_value,
    block_step, distance_of, eval_expr, exec_items, exec_stmt, exec_while, nil_value, pop_frame, push_frame, run_program,
};
use crate::statement::StmtV;
use crate::token::{TokenType, TokenV};

verus! {

/// `or` gives its left operand, without evaluating the right one, when the left one is
/// truthy.
pub proof fn law_or_short_circuit(r: Seq<Reading>, fuel: nat, s: IState, left: ExprV, op: TokenV, right: ExprV)
    requires
        op.token_type == TokenType::Or,
        eval_expr(r, fuel, s, left).1 matches Ok(v) && value_truthy(v),
    ensures
        eval_expr(r, fuel, s, ExprV::Logical { left: Box::new(left), operator: op, right: Box::new(right) })
            == eval_expr(r, fuel, s, left),
{
    reveal(eval_expr);
}

/// `and` gives its left operand, without evaluating the right one, when the left one is
/// falsy.
pub proof fn law_and_short_circuit(r: Seq<Reading>, fuel: nat, s: IState, left: ExprV, op: TokenV, right: ExprV)
    requires
        op.token_type == TokenType::And,
        eval_expr(r, fuel, s, left).1 matches Ok(v) && !value_truthy(v),
    ensures
        eval_expr(r, fuel, s, ExprV::Logical { left: Box::new(left), operator: op, right: Box::new(right) })
            == eval_expr(r, fuel, s, left),
{
    reveal(eval_expr);
}

/// A call of a function with the wrong number of arguments is refused with an arity
/// error, and changes nothing.
pub proof fn law_call_arity_refused(
    r: Seq<Reading>,
    fuel: nat,
    s: IState,
    params: Seq<TokenV>,
    body: Seq<StmtV>,
    args: Seq<ValueV>,
    token: TokenV,
)
    requires
        params.len() != args.len(),
    ensures
        call_value(r, fuel, s, CallableV::Function { params, body }, args, token) == (
            s,
            EvalV::Err(arity_error(params.len(), args.len(), token)),
        ),
{
    reveal(call_value);
}

/// A function whose body starts by returning the value of an expression gives that
/// value, and its scope is gone after the call.
pub proof fn law_call_returns(
    r: Seq<Reading>,
    fuel: nat,
    s: IState,
    keyword: TokenV,
    e: ExprV,
    rest: Seq<StmtV>,
    token: TokenV,
)
    requires
        fuel > 0,
        eval_expr(r, (fuel - 1) as nat, push_frame(s, Seq::empty()), e).1 is Ok,
    ensures
        call_value(
            r,
            fuel,
            s,
            CallableV::Function { params: Seq::empty(), body: seq![StmtV::Return { keyword, value: Some(e) }] + rest },
            Seq::empty(),
            token,
        ) == (
            pop_frame(eval_expr(r, (fuel - 1) as nat, push_frame(s, Seq::empty()), e).0),
            eval_expr(r, (fuel - 1) as nat, push_frame(s, Seq::empty()), e).1,
        ),
{
    reveal(call_value);
    reveal(exec_items);
    reveal(exec_stmt);
    reveal(eval_expr);
    reveal_with_fuel(crate::semantics::bind_params, 1);
    let body = seq![StmtV::Return { keyword, value: Some(e) }] + rest;
    assert(body[0] == StmtV::Return { keyword, value: Some(e) });
    assert(crate::semantics::bind_params(Seq::<TokenV>::empty(), Seq::<ValueV>::empty()) =~= Seq::empty());
}

/// A `while` loop whose condition is falsy runs no round: it ends where evaluating the
/// condition left the state.
pub proof fn law_while_stops(r: Seq<Reading>, fuel: nat, s: IState, condition: ExprV, body: StmtV)
    requires
        fuel > 0,
        eval_expr(r, (fuel - 1) as nat, s, condition).1 matches Ok(v) && !value_truthy(v),
    ensures
        exec_while(r, fuel, s, condition, body) == (eval_expr(r, (fuel - 1) as nat, s, condition).0, None::<EvalV>),
{
    reveal(exec_while);
    reveal(eval_expr);
}

/// A round of a `while` loop whose condition is truthy runs the body once: an error or
/// `return` that the body yields ends the loop with it, and otherwise the loop goes on
/// from where the body left the state, with the condition evaluated again.
pub proof fn law_while_round(r: Seq<Reading>, fuel: nat, s: IState, condition: ExprV, body: StmtV)
    requires
        fuel > 0,
        eval_expr(r, (fuel - 1) as nat, s, condition).1 matches Ok(v) && value_truthy(v),
    ensures
        ({
            let f = (fuel - 1) as nat;
            let s1 = eval_expr(r, f, s, condition).0;
            let (s2, out) = exec_stmt(r, f, s1, body);
            exec_while(r, fuel, s, condition, body) == match out {
                Some(Err(i)) => (s2, Some(Err(i))),
                _ => exec_while(r, f, s2, condition, body),
            }
        }),
{
    reveal(exec_while);
    reveal(exec_stmt);
    reveal(eval_expr);
}

/// `and` and `or` give one of their operand values: `or` gives the left one when it is
/// truthy and `and` when it is falsy, without evaluating the right one; otherwise they
/// give the right one. An error in the left operand is the result.
pub proof fn law_logical(r: Seq<Reading>, fuel: nat, s: IState, left: ExprV, op: TokenV, right: ExprV)
    ensures
        eval_expr(r, fuel, s, ExprV::Logical { left: Box::new(left), operator: op, right: Box::new(right) }) == {
            let (s1, x) = eval_expr(r, fuel, s, left);
            match x {
                Err(i) => (s1, EvalV::Err(i)),
                Ok(v) => if (op.token_type == TokenType::Or) == value_truthy(v) {
                    (s1, EvalV::Ok(v))
                } else {
                    eval_expr(r, fuel, s1, right)
                },
            }
        },
{
    reveal(eval_expr);
}

/// `==` and `!=` never fail on two values, and give opposite booleans: `==` is
/// `value_eq`.
pub proof fn law_equality_operators(eq: TokenV, ne: TokenV, a: ValueV, b: ValueV)
    requires
        eq.token_type == TokenType::EqualEqual,
        ne.token_type == TokenType::BangEqual,
    ensures
        binary_op(eq, a, b) == EvalV::Ok(bool_value(value_eq(a, b))),
        binary_op(ne, a, b) == EvalV::Ok(bool_value(!value_eq(a, b))),
{
}

/// Comparing two expressions with `==` evaluates both, left first, and gives whether
/// their values are equal.
pub proof fn law_equality_expression(r: Seq<Reading>, fuel: nat, s: IState, left: ExprV, op: TokenV, right: ExprV)
    requires
        op.token_type == TokenType::EqualEqual,
        eval_expr(r, fuel, s, left).1 is Ok,
        eval_expr(r, fuel, eval_expr(r, fuel, s, left).0, right).1 is Ok,
    ensures
        ({
            let (s1, x) = eval_expr(r, fuel, s, left);
            let (s2, y) = eval_expr(r, fuel, s1, right);
            eval_expr(r, fuel, s, ExprV::Binary { left: Box::new(left), operator: op, right: Box::new(right) }) == (
                s2,
                EvalV::Ok(bool_value(value_eq(x->Ok_0, y->Ok_0))),
            )
        }),
{
    reveal(eval_expr);
}

/// An assignment evaluates its value, then, from the variable's recorded distance (0
/// when unresolved), changes the innermost binding of the name: a read from there then
/// gives the value, every other name reads as before, the scopes nearer than the
/// distance are untouched and the distance is recorded. With no binding it is an
/// undefined-variable error that changes nothing.
pub proof fn law_assignment(r: Seq<Reading>, fuel: nat, s: IState, id: usize, name: TokenV, value: ExprV, other: Seq<char>)
    requires
        eval_expr(r, fuel, s, value).1 is Ok,
    ensures
        ({
            let (s1, x) = eval_expr(r, fuel, s, value);
            let v = x->Ok_0;
            let n = s1.frames.len();
            let d = distance_of(s1, id);
            let (s2, y) = eval_expr(r, fuel, s, ExprV::Assignment { id, name, value: Box::new(value) });
            &&& (s2, y) == assign_to(s1, id, name, v)
            &&& d < n && chain_get(s1.frames.subrange(0, n - d), name.lexeme) is Some ==> {
                &&& y == EvalV::Ok(v)
                &&& s2.frames.len() == n
                &&& chain_get(s2.frames.subrange(0, n - d), name.lexeme) == Some(v)
                &&& (other != name.lexeme ==> chain_get(s2.frames.subrange(0, n - d), other) == chain_get(
                    s1.frames.subrange(0, n - d),
                    other,
                ))
                &&& s2.frames.subrange(n - d, n as int) == s1.frames.subrange(n - d, n as int)
                &&& s2.locals == s1.locals.insert(id, d)
                &&& s2.output == s1.output
            }
            &&& d < n && chain_get(s1.frames.subrange(0, n - d), name.lexeme) is None ==> (s2, y) == (
                s1,
                EvalV::Err(InterruptV::Error(crate::environment::undefined_variable(name))),
            )
        }),
{
    reveal(eval_expr);
    let (s1, x) = eval_expr(r, fuel, s, value);
    let v = x->Ok_0;
    let n = s1.frames.len();
    let d = distance_of(s1, id);
    if d < n {
        let pre = s1.frames.subrange(0, n - d);
        law_get_after_assign(pre, name.lexeme, v);
        if other != name.lexeme {
            law_assign_keeps_others(pre, name.lexeme, v, other);
        }
        if let Some(fs) = crate::environment::chain_assign(pre, name.lexeme, v) {
            crate::environment::lemma_chain_assign_len(pre, name.lexeme, v);
            let all = fs + s1.frames.subrange(n - d, n as int);
            assert(all.subrange(0, n - d) =~= fs);
            assert(all.subrange(n - d, n as int) =~= s1.frames.subrange(n - d, n as int));
        }
    }
}

/// `if` evaluates its condition, then runs the then-branch when it is truthy and the
/// else-branch (if any) otherwise; the other branch does not run. An error in the
/// condition is the result, and no branch runs.
pub proof fn law_if(r: Seq<Reading>, fuel: nat, s: IState, condition: ExprV, then_branch: StmtV, else_branch: Option<StmtV>)
    ensures
        exec_stmt(
            r,
            fuel,
            s,
            StmtV::If {
                condition,
                then_branch: Box::new(then_branch),
                else_branch: match else_branch {
                    Some(b) => Some(Box::new(b)),
                    None => None,
                },
            },
        ) == {
            let (s1, x) = eval_expr(r, fuel, s, condition);
            match x {
                Err(i) => (s1, Some(EvalV::Err(i))),
                Ok(c) => if value_truthy(c) {
                    exec_stmt(r, fuel, s1, then_branch)
                } else {
                    match else_branch {
                        Some(b) => exec_stmt(r, fuel, s1, b),
                        None => (s1, None::<EvalV>),
                    }
                },
            }
        },
{
    reveal(exec_stmt);
    reveal(eval_expr);
}

/// A call of a function with as many arguments as parameters runs the body in a new
/// scope where the parameters are bound to the arguments, then leaves that scope: a
/// `return v` gives `v`, finishing without one gives `nil`, an error is the result, and a
/// `return` never escapes the call.
pub proof fn law_call_function(
    r: Seq<Reading>,
    fuel: nat,
    s: IState,
    params: Seq<TokenV>,
    body: Seq<StmtV>,
    args: Seq<ValueV>,
    token: TokenV,
)
    requires
        params.len() == args.len(),
        fuel > 0,
    ensures
        ({
            let (s1, out) = exec_items(r, (fuel - 1) as nat, push_frame(s, bind_params(params, args)), body);
            &&& call_value(r, fuel, s, CallableV::Function { params, body }, args, token) == (pop_frame(s1), call_outcome(out))
            &&& out == Some(EvalV::Err(InterruptV::Return { value: nil_value() })) ==> call_outcome(out) == EvalV::Ok(nil_value())
            &&& out is None ==> call_outcome(out) == EvalV::Ok(nil_value())
            &&& !(call_outcome(out) matches Err(InterruptV::Return { .. }))
        }),
{
    reveal(call_value);
    reveal(exec_items);
}

/// In the scope of a call, each parameter not repeated later in the list is bound to its
/// argument.
pub proof fn law_bind_params(params: Seq<TokenV>, args: Seq<ValueV>, i: int)
    requires
        params.len() <= args.len(),
        0 <= i < params.len(),
        forall|j: int| i < j < params.len() ==> params[j].lexeme != params[i].lexeme,
    ensures
        crate::expression::field_lookup(bind_params(params, args), params[i].lexeme) == Some(args[i]),
    decreases params.len(),
{
    let k = params.len() - 1;
    let prefix = params.subrange(0, k);
    lemma_frame_define_lookup(bind_params(prefix, args), params[k].lexeme, args[k], params[i].lexeme);
    if i < k {
        assert(prefix[i] == params[i]);
        law_bind_params(prefix, args, i);
    }
}

/// The statements of a block run in order until one fails or returns: the first
/// statement's outcome decides whether the rest runs, an error ends the block with the
/// error, a `return` ends it with the returned value.
pub proof fn law_block_stops(r: Seq<Reading>, fuel: nat, s: IState, stmts: Seq<StmtV>)
    requires
        stmts.len() > 0,
    ensures
        ({
            let (s1, out) = exec_stmt(r, fuel, s, stmts[0]);
            exec_items(r, fuel, s, stmts) == match out {
                Some(Err(InterruptV::Error(e))) => (s1, Some(EvalV::Err(InterruptV::Error(e)))),
                Some(Err(InterruptV::Return { value })) => (s1, Some(EvalV::Ok(value))),
                _ => exec_items(r, fuel, s1, stmts.subrange(1, stmts.len() as int)),
            }
        }),
{
    reveal(exec_items);
    reveal(exec_stmt);
}

/// Running the statements `a + b` of a block is running `a`, then, if no statement of
/// `a` returned or failed, running `b` from where `a` left the state: nothing after a
/// `return` or an error runs.
pub proof fn law_block_in_sequence(r: Seq<Reading>, fuel: nat, s: IState, a: Seq<StmtV>, b: Seq<StmtV>)
    ensures
        exec_items(r, fuel, s, a + b) == {
            let (s1, out) = exec_items(r, fuel, s, a);
            if out is Some {
                (s1, out)
            } else {
                exec_items(r, fuel, s1, b)
            }
        },
    decreases a.len(),
{
    reveal(exec_items);
    reveal(exec_stmt);
    if a.len() == 0 {
        assert(a + b =~= b);
    } else {
        let (s1, out) = exec_stmt(r, fuel, s, a[0]);
        let rest = a.subrange(1, a.len() as int);
        assert((a + b)[0] == a[0]);
        assert((a + b).subrange(1, (a + b).len() as int) =~= rest + b);
        law_block_in_sequence(r, fuel, s1, rest, b);
    }
}

/// If the statements of a block before index `k` run without returning or failing and
/// the statement at `k` returns or fails, the block ends there: with the returned value,
/// or with the error, and no later statement runs.
pub proof fn law_block_first_interruption(r: Seq<Reading>, fuel: nat, s: IState, stmts: Seq<StmtV>, k: int)
    requires
        0 <= k < stmts.len(),
        exec_items(r, fuel, s, stmts.subrange(0, k)).1 is None,
        block_step(exec_stmt(r, fuel, exec_items(r, fuel, s, stmts.subrange(0, k)).0, stmts[k]).1) is Some,
    ensures
        ({
            let (s1, out) = exec_stmt(r, fuel, exec_items(r, fuel, s, stmts.subrange(0, k)).0, stmts[k]);
            exec_items(r, fuel, s, stmts) == (s1, block_step(out))
        }),
{
    let pre = stmts.subrange(0, k);
    let post = stmts.subrange(k, stmts.len() as int);
    assert(stmts =~= pre + post);
    law_block_in_sequence(r, fuel, s, pre, post);
    assert(post[0] == stmts[k]);
    reveal(exec_items);
    reveal(exec_stmt);
}

/// Running the statements `a + b` of a program is running `a`, then, if it ended
/// without an error or a `return`, running `b` from where `a` left the state.
pub proof fn law_program_in_sequence(r: Seq<Reading>, fuel: nat, s: IState, a: Seq<StmtV>, b: Seq<StmtV>)
    ensures
        run_program(r, fuel, s, a + b) == {
            let (s1, res) = run_program(r, fuel, s, a);
            match res {
                Ok(_) => run_program(r, fuel, s1, b),
                Err(i) => (s1, Err(i)),
            }
        },
    decreases a.len(),
{
    if a.len() == 0 {
        assert(a + b =~= b);
    } else {
        let (s1, out) = exec_stmt(r, fuel, s, a[0]);
        let rest = a.subrange(1, a.len() as int);
        assert((a + b)[0] == a[0]);
        assert((a + b).subrange(1, (a + b).len() as int) =~= rest + b);
        law_program_in_sequence(r, fuel, s1, rest, b);
    }
}

/// If the statements of a program before index `k` run without an error or `return`
/// and the statement at `k` yields one, the program stops with it and no later statement
/// runs.
pub proof fn law_program_first_interruption(r: Seq<Reading>, fuel: nat, s: IState, stmts: Seq<StmtV>, k: int)
    requires
        0 <= k < stmts.len(),
        run_program(r, fuel, s, stmts.subrange(0, k)).1 is Ok,
        exec_stmt(r, fuel, run_program(r, fuel, s, stmts.subrange(0, k)).0, stmts[k]).1 matches Some(Err(_)),
    ensures
        ({
            let (s1, out) = exec_stmt(r, fuel, run_program(r, fuel, s, stmts.subrange(0, k)).0, stmts[k]);
            run_program(r, fuel, s, stmts) == (s1, Err::<(), InterruptV<crate::interpreter::ErrV>>(out->Some_0->Err_0))
        }),
{
    let pre = stmts.subrange(0, k);
    let post = stmts.subrange(k, stmts.len() as int);
    assert(stmts =~= pre + post);
    law_program_in_sequence(r, fuel, s, pre, post);
    assert(post[0] == stmts[k]);
}

/// A program runs its statements in order and stops at the first that fails or returns,
/// with that interruption; the rest does not run.
pub proof fn law_program_stops(r: Seq<Reading>, fuel: nat, s: IState, stmts: Seq<StmtV>)
    requires
        stmts.len() > 0,
    ensures
        ({
            let (s1, out) = exec_stmt(r, fuel, s, stmts[0]);
            run_program(r, fuel, s, stmts) == match out {
                Some(Err(i)) => (s1, Err(i)),
                _ => run_program(r, fuel, s1, stmts.subrange(1, stmts.len() as int)),
            }
        }),
{
}

/// Dividing a number by a float zero of either sign is the divide-by-zero error.
pub proof fn law_divide_by_float_zero(op: TokenV, l: ValueV, zero: u32)
    requires
        op.token_type == TokenType::Slash,
        zero == 0 || zero == crate::ieee::SIGN_BIT,
        l matches ValueV::Literal(x) && (x is Int || x is Float),
    ensures
        binary_op(op, l, ValueV::Literal(LitV::Float(zero))) == EvalV::Err(
            crate::semantics::rt_err(op, "Attempted to divide by zero"@),
        ),
{
    assert(0u32 & 0x7F80_0000u32 == 0u32) by (bit_vector);
    assert(0x8000_0000u32 & 0x7F80_0000u32 == 0u32) by (bit_vector);
    assert(0u32 & 0x7FFF_FFFFu32 == 0u32) by (bit_vector);
    assert(0x8000_0000u32 & 0x7FFF_FFFFu32 == 0u32) by (bit_vector);
}

} // verus!
