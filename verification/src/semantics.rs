//! The meaning of programs: what evaluating an expression or running a statement does
//! to the interpreter's state, and what it yields.
use vstd::prelude::*;

use crate::equality::value_eq;
use crate::environment::{chain_assign, chain_get, frame_define, undefined_variable};
use crate::expression::{CallableV, ClassV, ExprV, LitV, ValueV, value_truthy};
use crate::ieee::{
    FloatOrder, SIGN_BIT, f32_add, f32_div, f32_from_i32, f32_mul, f32_order, f32_sub, f64_add, f64_div,
    f64_from_u64, f64_to_f32,
};
use crate::interpreter::{ErrV, InterruptV};
use crate::statement::StmtV;
use crate::token::{TokenType, TokenV};

verus! {

/// A reading of the system clock: seconds and nanoseconds since the Unix epoch, or
/// `None` when the clock is set before it.
pub type Reading = Option<(u64, u32)>;

/// The interpreter's state: the chain of scopes (outermost first), the resolved
/// scope distances of variable expressions, what `print` has printed, and how many
/// clock readings have been taken.
pub struct IState {
    pub frames: Seq<Seq<(Seq<char>, ValueV)>>,
    pub locals: Map<usize, usize>,
    pub output: Seq<ValueV>,
    pub clock: nat,
}

/// The outcome of an expression: a value, or what interrupted it.
pub type EvalV = Result<ValueV, InterruptV<ErrV>>;

/// `log` is a prefix of `r`: the readings taken so far are the first ones of `r`.
pub open spec fn agrees(r: Seq<Reading>, log: Seq<Reading>) -> bool {
    &&& log.len() <= r.len()
    &&& forall|i: int| 0 <= i < log.len() ==> r[i] == log[i]
}

/// Being a prefix is transitive.
pub proof fn lemma_agrees_trans(r: Seq<Reading>, a: Seq<Reading>, b: Seq<Reading>)
    requires
        agrees(r, b),
        agrees(b, a),
    ensures
        agrees(r, a),
{
    assert forall|i: int| 0 <= i < a.len() implies r[i] == a[i] by {
        assert(b[i] == a[i]);
        assert(r[i] == b[i]);
    }
}

/// The reading at position `i` of a sequence of readings.
pub open spec fn reading_at(r: Seq<Reading>, i: nat) -> Reading {
    if i < r.len() {
        r[i as int]
    } else {
        None
    }
}

/// A runtime error at a token.
pub open spec fn rt_err(token: TokenV, message: Seq<char>) -> InterruptV<ErrV> {
    InterruptV::Error(ErrV { token, message })
}

/// The token reported for an error that no token of the program caused.
pub open spec fn limit_token() -> TokenV {
    TokenV { token_type: TokenType::EOF, lexeme: Seq::empty(), line: None, literal: None }
}

/// The error reported when the evaluation budget runs out.
pub open spec fn limit_error() -> InterruptV<ErrV> {
    rt_err(limit_token(), "Evaluation limit reached"@)
}

/// The error for a call with the wrong number of arguments.
pub open spec fn arity_error(arity: nat, len: nat, token: TokenV) -> InterruptV<ErrV> {
    if len > arity {
        rt_err(token, "Too many arguments to function."@)
    } else {
        rt_err(token, "Too few arguments to function."@)
    }
}

pub open spec fn int_value(i: i32) -> ValueV {
    ValueV::Literal(LitV::Int(i))
}

pub open spec fn float_value(f: u32) -> ValueV {
    ValueV::Literal(LitV::Float(f))
}

pub open spec fn bool_value(b: bool) -> ValueV {
    ValueV::Literal(LitV::Boolean(b))
}

pub open spec fn nil_value() -> ValueV {
    ValueV::Literal(LitV::Nil)
}

/// Integer division as Rust's `/` computes it (rounding toward zero), wrapping on the
/// one quotient that does not fit (`i32::MIN / -1`).
pub open spec fn int_div(l: i32, r: i32) -> i32 {
    match l.checked_div(r) {
        Some(q) => q,
        None => i32::MIN,
    }
}

/// The operands of an arithmetic operator: both integers, or floats (an integer
/// operand beside a float is converted to the nearest float).
pub enum Operands {
    Ints(i32, i32),
    Floats(u32, u32),
    Strings(Seq<char>, Seq<char>),
    Other,
}

pub open spec fn operands(l: ValueV, r: ValueV) -> Operands {
    match (l, r) {
        (ValueV::Literal(LitV::Int(a)), ValueV::Literal(LitV::Int(b))) => Operands::Ints(a, b),
        (ValueV::Literal(LitV::Float(a)), ValueV::Literal(LitV::Float(b))) => Operands::Floats(a, b),
        (ValueV::Literal(LitV::Float(a)), ValueV::Literal(LitV::Int(b))) => Operands::Floats(a, f32_from_i32(b)),
        (ValueV::Literal(LitV::Int(a)), ValueV::Literal(LitV::Float(b))) => Operands::Floats(f32_from_i32(a), b),
        (ValueV::Literal(LitV::Str(a)), ValueV::Literal(LitV::Str(b))) => Operands::Strings(a, b),
        _ => Operands::Other,
    }
}

/// Whether the float divisor is zero (either sign): an integer divisor is zero only as
/// the integer 0.
pub open spec fn zero_divisor(r: ValueV) -> bool {
    match r {
        ValueV::Literal(LitV::Int(b)) => b == 0,
        ValueV::Literal(LitV::Float(b)) => f32_order(b, 0) == FloatOrder::Equal,
        _ => false,
    }
}

/// Literal equality: same kind and same contents, floats compared as IEEE numbers
/// (so NaN differs from itself and the two zeros are equal). `true` and the boolean
/// `true` are different literals.
pub open spec fn lit_eq(a: LitV, b: LitV) -> bool {
    match (a, b) {
        (LitV::Str(x), LitV::Str(y)) => x == y,
        (LitV::Int(x), LitV::Int(y)) => x == y,
        (LitV::Float(x), LitV::Float(y)) => f32_order(x, y) == FloatOrder::Equal,
        (LitV::Boolean(x), LitV::Boolean(y)) => x == y,
        (LitV::True, LitV::True) => true,
        (LitV::False, LitV::False) => true,
        (LitV::Nil, LitV::Nil) => true,
        _ => false,
    }
}

/// The comparison of two numbers: `Some(order)` when both are numbers.
pub open spec fn compare(l: ValueV, r: ValueV) -> Option<FloatOrder> {
    match operands(l, r) {
        Operands::Ints(a, b) => Some(
            if a < b {
                FloatOrder::Less
            } else if a == b {
                FloatOrder::Equal
            } else {
                FloatOrder::Greater
            },
        ),
        Operands::Floats(a, b) => Some(f32_order(a, b)),
        _ => None,
    }
}

/// What a binary operator yields on two values.
pub open spec fn binary_op(op: TokenV, l: ValueV, r: ValueV) -> EvalV {
    match op.token_type {
        TokenType::Minus => match operands(l, r) {
            Operands::Ints(a, b) => Ok(int_value(a.wrapping_sub(b))),
            Operands::Floats(a, b) => Ok(float_value(f32_sub(a, b))),
            _ => Err(rt_err(op, "Invalid subtraction"@)),
        },
        TokenType::Slash => match operands(l, r) {
            Operands::Ints(a, b) => if b == 0 {
                Err(rt_err(op, "Attempted to divide by zero"@))
            } else {
                Ok(int_value(int_div(a, b)))
            },
            Operands::Floats(a, b) => if zero_divisor(r) {
                Err(rt_err(op, "Attempted to divide by zero"@))
            } else {
                Ok(float_value(f32_div(a, b)))
            },
            _ => Err(rt_err(op, "Invalid division"@)),
        },
        TokenType::Star => match operands(l, r) {
            Operands::Ints(a, b) => Ok(int_value(a.wrapping_mul(b))),
            Operands::Floats(a, b) => Ok(float_value(f32_mul(a, b))),
            _ => Err(rt_err(op, "Invalid multiplication"@)),
        },
        TokenType::Plus => match operands(l, r) {
            Operands::Ints(a, b) => Ok(int_value(a.wrapping_add(b))),
            Operands::Floats(a, b) => Ok(float_value(f32_add(a, b))),
            Operands::Strings(a, b) => Ok(ValueV::Literal(LitV::Str(a + b))),
            _ => Err(rt_err(op, "Invalid addition"@)),
        },
        TokenType::Greater => match compare(l, r) {
            Some(o) => Ok(bool_value(o == FloatOrder::Greater)),
            None => Err(rt_err(op, "Invalid comparison"@)),
        },
        TokenType::GreaterEqual => match compare(l, r) {
            Some(o) => Ok(bool_value(o == FloatOrder::Greater || o == FloatOrder::Equal)),
            None => Err(rt_err(op, "Invalid comparison"@)),
        },
        TokenType::Less => match compare(l, r) {
            Some(o) => Ok(bool_value(o == FloatOrder::Less)),
            None => Err(rt_err(op, "Invalid comparison"@)),
        },
        TokenType::LessEqual => match compare(l, r) {
            Some(o) => Ok(bool_value(o == FloatOrder::Less || o == FloatOrder::Equal)),
            None => Err(rt_err(op, "Invalid comparison"@)),
        },
        TokenType::BangEqual => Ok(bool_value(!value_eq(l, r))),
        TokenType::EqualEqual => Ok(bool_value(value_eq(l, r))),
        _ => Err(rt_err(op, "Invalid binary operation"@)),
    }
}

/// What a unary operator yields on a value. `!` maps only the literals `false` and
/// `nil` to `true`; everything else, the boolean `false` included, gives `false`.
pub open spec fn unary_op(op: TokenV, v: ValueV) -> EvalV {
    match op.token_type {
        TokenType::Minus => match v {
            ValueV::Literal(LitV::Int(i)) => Ok(int_value(0i32.wrapping_sub(i))),
            ValueV::Literal(LitV::Float(f)) => Ok(float_value(f ^ SIGN_BIT)),
            _ => Err(rt_err(op, "Cannot negate a non-number"@)),
        },
        TokenType::Bang => match v {
            ValueV::Literal(LitV::False) | ValueV::Literal(LitV::Nil) => Ok(ValueV::Literal(LitV::True)),
            _ => Ok(ValueV::Literal(LitV::False)),
        },
        _ => Err(rt_err(op, "Invalid unary operator"@)),
    }
}

/// `No property <name> on class <class>.`
pub open spec fn no_property_message(name: Seq<char>, class: Seq<char>) -> Seq<char> {
    "No property "@ + name + " on class "@ + class + "."@
}

/// Reading a property of a value.
pub open spec fn get_property(v: ValueV, name: TokenV) -> EvalV {
    match v {
        ValueV::Instance(c) => match crate::expression::field_lookup(c.fields, name.lexeme) {
            Some(x) => Ok(x),
            None => Err(rt_err(name, no_property_message(name.lexeme, c.name))),
        },
        _ => Err(rt_err(name, "Only instances have properties."@)),
    }
}

/// The error for a scope distance beyond the outermost scope.
pub open spec fn no_enclosing(name: TokenV) -> InterruptV<ErrV> {
    rt_err(name, "Enclosing environment must exist"@)
}

/// The global scope alone (the outermost one).
pub open spec fn global_frames(s: IState) -> Seq<Seq<(Seq<char>, ValueV)>> {
    if s.frames.len() == 0 {
        Seq::empty()
    } else {
        s.frames.subrange(0, 1)
    }
}

/// The value of a variable: from the scope at its resolved distance outward; a variable
/// that was not resolved is a global, read from the global scope.
pub open spec fn look_up(s: IState, id: usize, name: TokenV) -> EvalV {
    let n = s.frames.len();
    if s.locals.dom().contains(id) {
        let d = s.locals[id];
        if d >= n {
            Err(no_enclosing(name))
        } else {
            match chain_get(s.frames.subrange(0, n - d), name.lexeme) {
                Some(v) => Ok(v),
                None => Err(InterruptV::Error(undefined_variable(name))),
            }
        }
    } else {
        match chain_get(global_frames(s), name.lexeme) {
            Some(v) => Ok(v),
            None => Err(InterruptV::Error(undefined_variable(name))),
        }
    }
}

/// The scope distance recorded for a variable expression (0 when it was not resolved).
pub open spec fn distance_of(s: IState, id: usize) -> usize {
    if s.locals.dom().contains(id) {
        s.locals[id]
    } else {
        0
    }
}

/// Assigning `v` to a variable from the scope `d` levels out: in the innermost scope
/// from there outward that binds it; the distance is then recorded for the expression.
pub open spec fn assign_at_distance(s: IState, d: usize, id: usize, name: TokenV, v: ValueV) -> (IState, EvalV) {
    let n = s.frames.len();
    if d >= n {
        (s, Err(no_enclosing(name)))
    } else {
        match chain_assign(s.frames.subrange(0, n - d), name.lexeme, v) {
            Some(fs) => (
                IState { frames: fs + s.frames.subrange(n - d, n as int), locals: s.locals.insert(id, d), ..s },
                Ok(v),
            ),
            None => (s, Err(InterruptV::Error(undefined_variable(name)))),
        }
    }
}

/// Assigning `v` to a variable, from its recorded distance.
pub open spec fn assign_to(s: IState, id: usize, name: TokenV, v: ValueV) -> (IState, EvalV) {
    assign_at_distance(s, distance_of(s, id), id, name, v)
}

/// Defines a variable in the innermost scope.
pub open spec fn define(s: IState, name: Seq<char>, v: ValueV) -> IState {
    let n = s.frames.len();
    IState { frames: s.frames.update(n - 1, frame_define(s.frames[n - 1], name, v)), ..s }
}

/// Enters a new innermost scope.
pub open spec fn push_frame(s: IState, f: Seq<(Seq<char>, ValueV)>) -> IState {
    IState { frames: s.frames.push(f), ..s }
}

/// Leaves the innermost scope.
pub open spec fn pop_frame(s: IState) -> IState {
    IState { frames: s.frames.subrange(0, s.frames.len() - 1), ..s }
}

/// The scope of a call: each parameter bound to its argument, in order.
pub open spec fn bind_params(params: Seq<TokenV>, args: Seq<ValueV>) -> Seq<(Seq<char>, ValueV)>
    decreases params.len(),
{
    if params.len() == 0 {
        Seq::empty()
    } else {
        let k = params.len() - 1;
        frame_define(bind_params(params.subrange(0, k), args), params[k].lexeme, args[k])
    }
}

/// One billion, the nanoseconds in a second, as a double.
pub open spec fn nanos_per_sec() -> u64 {
    0x41CD_CD65_0000_0000u64
}

/// The clock value for a reading: the seconds as a double, plus the nanoseconds divided
/// by one billion, narrowed to single precision.
pub open spec fn clock_bits(secs: u64, nanos: u32) -> u32 {
    f64_to_f32(f64_add(f64_from_u64(secs), f64_div(f64_from_u64(nanos as u64), nanos_per_sec())))
}

/// Calling the clock: the next reading, as seconds since the epoch.
pub open spec fn clock_call(r: Seq<Reading>, s: IState) -> (IState, EvalV) {
    let s1 = IState { clock: s.clock + 1, ..s };
    match reading_at(r, s.clock) {
        Some((secs, nanos)) => (s1, Ok(float_value(clock_bits(secs, nanos)))),
        None => (s1, Err(rt_err(limit_token(), "System clock is set before the Unix epoch"@))),
    }
}

/// What a function call yields, from what running its body yielded.
pub open spec fn call_outcome(out: Option<EvalV>) -> EvalV {
    match out {
        Some(Ok(v)) => Ok(v),
        Some(Err(InterruptV::Error(e))) => Err(InterruptV::Error(e)),
        Some(Err(InterruptV::Return { value })) => Ok(value),
        None => Ok(nil_value()),
    }
}

/// What a statement of a block yields to the block: a `return` ends it with the
/// returned value, an error ends it with the error, anything else lets it go on.
pub open spec fn block_step(out: Option<EvalV>) -> Option<EvalV> {
    match out {
        Some(Err(InterruptV::Error(e))) => Some(Err(InterruptV::Error(e))),
        Some(Err(InterruptV::Return { value })) => Some(Ok(value)),
        _ => None,
    }
}

/// The number of nodes of an expression.
pub open spec fn expr_size(e: ExprV) -> nat
    decreases e,
{
    match e {
        ExprV::Binary { left, operator, right } => 1 + expr_size(*left) + expr_size(*right),
        ExprV::Unary { operator, right } => 1 + expr_size(*right),
        ExprV::Logical { left, operator, right } => 1 + expr_size(*left) + expr_size(*right),
        ExprV::Grouping(g) => 1 + expr_size(*g),
        ExprV::Literal(_) => 1,
        ExprV::Variable { .. } => 1,
        ExprV::Assignment { id, name, value } => 1 + expr_size(*value),
        ExprV::Call { callee, paren, args } => 1 + expr_size(*callee) + args_size(args),
        ExprV::Get { expr, name } => 1 + expr_size(*expr),
    }
}

/// The number of nodes of a list of expressions.
pub open spec fn args_size(a: Seq<ExprV>) -> nat
    decreases a,
{
    if a.len() == 0 {
        0
    } else {
        1 + expr_size(a[0]) + args_size(a.subrange(1, a.len() as int))
    }
}

/// The number of nodes of a statement.
pub open spec fn stmt_size(st: StmtV) -> nat
    decreases st,
{
    match st {
        StmtV::Expression(e) => 1 + expr_size(e),
        StmtV::Print(e) => 1 + expr_size(e),
        StmtV::Var { name, initializer } => 1 + match initializer {
            Some(e) => expr_size(e),
            None => 0,
        },
        StmtV::Block(b) => 1 + stmts_size(b),
        StmtV::If { condition, then_branch, else_branch } => 1 + expr_size(condition) + stmt_size(*then_branch)
            + match else_branch {
            Some(b) => stmt_size(*b),
            None => 0,
        },
        StmtV::While { condition, body } => 1 + expr_size(condition) + stmt_size(*body),
        StmtV::Function { .. } => 1,
        StmtV::Return { keyword, value } => 1 + match value {
            Some(e) => expr_size(e),
            None => 0,
        },
        StmtV::Class { .. } => 1,
    }
}

/// The number of nodes of a list of statements.
pub open spec fn stmts_size(b: Seq<StmtV>) -> nat
    decreases b,
{
    if b.len() == 0 {
        0
    } else {
        1 + stmt_size(b[0]) + stmts_size(b.subrange(1, b.len() as int))
    }
}

/// Each expression of a list is smaller than the list.
pub proof fn lemma_args_size(a: Seq<ExprV>, i: int)
    requires
        0 <= i < a.len(),
    ensures
        expr_size(a[i]) < args_size(a),
    decreases i,
{
    if i > 0 {
        let rest = a.subrange(1, a.len() as int);
        assert(rest[i - 1] == a[i]);
        lemma_args_size(rest, i - 1);
    }
}

/// Each statement of a list is smaller than the list.
pub proof fn lemma_stmts_size(b: Seq<StmtV>, i: int)
    requires
        0 <= i < b.len(),
    ensures
        stmt_size(b[i]) < stmts_size(b),
    decreases i,
{
    if i > 0 {
        let rest = b.subrange(1, b.len() as int);
        assert(rest[i - 1] == b[i]);
        lemma_stmts_size(rest, i - 1);
    }
}

/// Runs the statements of a program in order, until one fails or returns (a `return`
/// at the top level stops the program too).
pub open spec fn run_program(r: Seq<Reading>, fuel: nat, s: IState, stmts: Seq<StmtV>) -> (IState, Result<(), InterruptV<ErrV>>)
    decreases stmts.len(),
{
    if stmts.len() == 0 {
        (s, Ok(()))
    } else {
        let (s1, out) = exec_stmt(r, fuel, s, stmts[0]);
        match out {
            Some(Err(i)) => (s1, Err(i)),
            _ => run_program(r, fuel, s1, stmts.subrange(1, stmts.len() as int)),
        }
    }
}

/// Runs the statements of a block in a new innermost scope that starts as `frame`.
pub open spec fn run_block(r: Seq<Reading>, fuel: nat, s: IState, frame: Seq<(Seq<char>, ValueV)>, stmts: Seq<StmtV>) -> (IState, Option<EvalV>) {
    let (s1, out) = exec_items(r, fuel, push_frame(s, frame), stmts);
    (pop_frame(s1), out)
}

/// Evaluates an expression. `fuel` bounds how deep calls nest and how many times
/// loops run; `r` is the sequence of clock readings.
#[verifier::opaque]
pub open spec fn eval_expr(r: Seq<Reading>, fuel: nat, s: IState, e: ExprV) -> (IState, EvalV)
    decreases fuel, 1nat, expr_size(e),
{
    match e {
        ExprV::Literal(l) => (s, Ok(ValueV::Literal(l))),
        ExprV::Grouping(g) => eval_expr(r, fuel, s, *g),
        ExprV::Variable { id, name } => (s, look_up(s, id, name)),
        ExprV::Assignment { id, name, value } => {
            let (s1, x) = eval_expr(r, fuel, s, *value);
            match x {
                Ok(v) => assign_to(s1, id, name, v),
                Err(i) => (s1, Err(i)),
            }
        },
        ExprV::Call { callee, paren, args } => {
            let (s1, x) = eval_expr(r, fuel, s, *callee);
            match x {
                Ok(ValueV::Callable(c)) => {
                    let (s2, y) = eval_args(r, fuel, s1, args);
                    match y {
                        Ok(vs) => call_value(r, fuel, s2, c, vs, paren),
                        Err(i) => (s2, Err(i)),
                    }
                },
                Ok(_) => (s1, Err(rt_err(paren, "Non-callable passed to Call struct"@))),
                Err(i) => (s1, Err(i)),
            }
        },
        ExprV::Logical { left, operator, right } => {
            let (s1, x) = eval_expr(r, fuel, s, *left);
            match x {
                Ok(v) => if (operator.token_type == TokenType::Or) == value_truthy(v) {
                    (s1, Ok(v))
                } else {
                    eval_expr(r, fuel, s1, *right)
                },
                Err(i) => (s1, Err(i)),
            }
        },
        ExprV::Unary { operator, right } => {
            let (s1, x) = eval_expr(r, fuel, s, *right);
            match x {
                Ok(v) => (s1, unary_op(operator, v)),
                Err(i) => (s1, Err(i)),
            }
        },
        ExprV::Binary { left, operator, right } => {
            let (s1, x) = eval_expr(r, fuel, s, *left);
            match x {
                Ok(a) => {
                    let (s2, y) = eval_expr(r, fuel, s1, *right);
                    match y {
                        Ok(b) => (s2, binary_op(operator, a, b)),
                        Err(i) => (s2, Err(i)),
                    }
                },
                Err(i) => (s1, Err(i)),
            }
        },
        ExprV::Get { expr, name } => {
            let (s1, x) = eval_expr(r, fuel, s, *expr);
            match x {
                Ok(v) => (s1, get_property(v, name)),
                Err(i) => (s1, Err(i)),
            }
        },
    }
}

/// Evaluates arguments from left to right, stopping at the first that fails.
#[verifier::opaque]
pub open spec fn eval_args(r: Seq<Reading>, fuel: nat, s: IState, args: Seq<ExprV>) -> (IState, Result<Seq<ValueV>, InterruptV<ErrV>>)
    decreases fuel, 1nat, args_size(args),
{
    if args.len() == 0 {
        (s, Ok(Seq::empty()))
    } else {
        let (s1, x) = eval_expr(r, fuel, s, args[0]);
        match x {
            Ok(v) => {
                let (s2, y) = eval_args(r, fuel, s1, args.subrange(1, args.len() as int));
                match y {
                    Ok(vs) => (s2, Ok(seq![v] + vs)),
                    Err(i) => (s2, Err(i)),
                }
            },
            Err(i) => (s1, Err(i)),
        }
    }
}

/// Calls a callable with argument values. A function runs its body in a new scope
/// inside the caller's current one.
#[verifier::opaque]
pub open spec fn call_value(r: Seq<Reading>, fuel: nat, s: IState, c: CallableV, args: Seq<ValueV>, token: TokenV) -> (IState, EvalV)
    decreases fuel, 0nat, 0nat,
{
    match c {
        CallableV::Function { params, body } => if params.len() != args.len() {
            (s, Err(arity_error(params.len(), args.len(), token)))
        } else if fuel == 0 {
            (s, Err(limit_error()))
        } else {
            let (s1, out) = exec_items(r, (fuel - 1) as nat, push_frame(s, bind_params(params, args)), body);
            (pop_frame(s1), call_outcome(out))
        },
        CallableV::Native { name, arity, func } => if args.len() != arity {
            (s, Err(rt_err(token, "Incorrect arity to native function"@)))
        } else {
            clock_call(r, s)
        },
        CallableV::Class(k) => if args.len() != 0 {
            (s, Err(arity_error(0, args.len(), token)))
        } else {
            (s, Ok(ValueV::Instance(k)))
        },
    }
}

/// Runs a statement. `None` means it completed; otherwise it yields an expression's
/// value, a `return`, or an error.
#[verifier::opaque]
pub open spec fn exec_stmt(r: Seq<Reading>, fuel: nat, s: IState, st: StmtV) -> (IState, Option<EvalV>)
    decreases fuel, 1nat, stmt_size(st),
{
    match st {
        StmtV::Expression(e) => {
            let (s1, x) = eval_expr(r, fuel, s, e);
            (s1, Some(x))
        },
        StmtV::Return { keyword, value } => match value {
            Some(e) => {
                let (s1, x) = eval_expr(r, fuel, s, e);
                match x {
                    Ok(v) => (s1, Some(Err(InterruptV::Return { value: v }))),
                    Err(i) => (s1, Some(Err(i))),
                }
            },
            None => (s, Some(Err(InterruptV::Return { value: nil_value() }))),
        },
        StmtV::Print(e) => {
            let (s1, x) = eval_expr(r, fuel, s, e);
            match x {
                Ok(v) => (IState { output: s1.output.push(v), ..s1 }, None),
                Err(i) => (s1, Some(Err(i))),
            }
        },
        StmtV::Var { name, initializer } => match initializer {
            Some(e) => {
                let (s1, x) = eval_expr(r, fuel, s, e);
                match x {
                    Ok(v) => (define(s1, name.lexeme, v), None),
                    Err(i) => (s1, Some(Err(i))),
                }
            },
            None => (define(s, name.lexeme, nil_value()), None),
        },
        StmtV::Function { name, params, body } => (
            define(s, name.lexeme, ValueV::Callable(CallableV::Function { params, body })),
            None,
        ),
        StmtV::Class { name, methods } => (
            define(s, name.lexeme, ValueV::Callable(CallableV::Class(ClassV { name: name.lexeme, fields: Seq::empty() }))),
            None,
        ),
        StmtV::Block(b) => {
            let (s1, out) = exec_items(r, fuel, push_frame(s, Seq::empty()), b);
            (pop_frame(s1), out)
        },
        StmtV::If { condition, then_branch, else_branch } => {
            let (s1, x) = eval_expr(r, fuel, s, condition);
            match x {
                Ok(v) => if value_truthy(v) {
                    exec_stmt(r, fuel, s1, *then_branch)
                } else {
                    match else_branch {
                        Some(b) => exec_stmt(r, fuel, s1, *b),
                        None => (s1, None),
                    }
                },
                Err(i) => (s1, Some(Err(i))),
            }
        },
        StmtV::While { condition, body } => exec_while(r, fuel, s, condition, *body),
    }
}

/// Runs the statements of a block in order, until one returns or fails.
#[verifier::opaque]
pub open spec fn exec_items(r: Seq<Reading>, fuel: nat, s: IState, stmts: Seq<StmtV>) -> (IState, Option<EvalV>)
    decreases fuel, 1nat, stmts_size(stmts),
{
    if stmts.len() == 0 {
        (s, None)
    } else {
        let (s1, out) = exec_stmt(r, fuel, s, stmts[0]);
        match block_step(out) {
            Some(x) => (s1, Some(x)),
            None => exec_items(r, fuel, s1, stmts.subrange(1, stmts.len() as int)),
        }
    }
}

/// Runs a `while` loop: the body runs while the condition is truthy; an interruption
/// that the body yields (an error, or a `return` not absorbed by a block) stops the loop
/// and is its result. Each round spends one unit of fuel.
#[verifier::opaque]
pub open spec fn exec_while(r: Seq<Reading>, fuel: nat, s: IState, condition: ExprV, body: StmtV) -> (IState, Option<EvalV>)
    decreases fuel, 0nat, 0nat,
{
    if fuel == 0 {
        (s, Some(Err(limit_error())))
    } else {
        let (s1, x) = eval_expr(r, (fuel - 1) as nat, s, condition);
        match x {
            Ok(v) => if !value_truthy(v) {
                (s1, None)
            } else {
                let (s2, out) = exec_stmt(r, (fuel - 1) as nat, s1, body);
                match out {
                    Some(Err(i)) => (s2, Some(Err(i))),
                    _ => exec_while(r, (fuel - 1) as nat, s2, condition, body),
                }
            },
            Err(i) => (s1, Some(Err(i))),
        }
    }
}

} // verus!
