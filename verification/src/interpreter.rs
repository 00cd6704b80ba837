use std::collections::HashMap;
use std::rc::Rc;

use vstd::prelude::*;

use crate::environment::{Environment, lemma_env_split};
use crate::expression::{
    Assignment, Callable, Expr, NativeFunction, NativeKind, Value, ValueV, Variable, fields_view, to_callable_value,
};
use crate::semantics::{
    IState, Reading, agrees, assign_at_distance, call_value, eval_expr, lemma_agrees_trans, look_up, run_block,
    run_program,
};
use crate::statement::{Stmt, stmts_view};
use crate::token::{Token, TokenV};

mod args;
mod calls;
mod exprs;
mod items;
mod looping;
mod printing;
mod stmts;

pub use printing::{
    Piece, PieceV, digit_char, int_text, literal_piece, nat_text, parenthesized, pieces_view, print, printable, printed,
    value_piece,
};

verus! {

broadcast use vstd::std_specs::hash::group_hash_axioms;

/// The evaluation budget of the public entry points: how deep calls may nest and how
/// many rounds loops may run before evaluation stops with an error.
pub const EVAL_FUEL: u64 = 0xFFFF_FFFF_FFFF_FFFFu64;

/// The views of a sequence of values.
pub open spec fn values_view(s: Seq<Value>) -> Seq<ValueV> {
    s.map_values(|v: Value| v@)
}

/// The view of an expression's outcome.
pub open spec fn eval_view(r: Result<Value, Interrupt<RuntimeError>>) -> Result<ValueV, InterruptV<ErrV>> {
    match r {
        Ok(v) => Ok(v@),
        Err(i) => Err(i@),
    }
}

/// The view of a statement's outcome.
pub open spec fn out_view(o: Option<Result<Value, Interrupt<RuntimeError>>>) -> Option<Result<ValueV, InterruptV<ErrV>>> {
    match o {
        Some(r) => Some(eval_view(r)),
        None => None,
    }
}

/// The view of the outcome of evaluating a list of arguments.
pub open spec fn args_view(r: Result<Vec<Value>, Interrupt<RuntimeError>>) -> Result<Seq<ValueV>, InterruptV<ErrV>> {
    match r {
        Ok(vs) => Ok(values_view(vs@)),
        Err(i) => Err(i@),
    }
}

/// The error that stops an evaluation whose budget ran out.
pub(crate) fn limit_reached() -> (r: Interrupt<RuntimeError>)
    ensures
        r@ == crate::semantics::limit_error(),
{
    Interrupt::Error(
        RuntimeError {
            token: Token { token_type: crate::token::TokenType::EOF, lexeme: String::new(), line: None, literal: None },
            message: "Evaluation limit reached".to_string(),
        },
    )
}

/// A tree-walking interpreter: the current chain of scopes, the scope distances of
/// resolved variable expressions, the values printed so far, and (for the proofs) the
/// clock readings taken so far.
pub struct Interpreter {
    pub environment: Environment,
    pub locals: HashMap<usize, usize>,
    pub output: Vec<Value>,
    pub readings: Ghost<Seq<Reading>>,
}

impl Interpreter {
    /// The state of the interpreter, as the semantics sees it.
    pub open spec fn st(&self) -> IState {
        IState {
            frames: self.environment@,
            locals: self.locals@,
            output: values_view(self.output@),
            clock: self.readings@.len(),
        }
    }

    /// The state of a new interpreter: a global scope that binds the native `clock`,
    /// an empty scope inside it, nothing resolved, nothing printed, no clock reading.
    pub open spec fn fresh_state() -> IState {
        IState {
            frames: seq![
                seq![(
                    "clock"@,
                    ValueV::Callable(crate::expression::CallableV::Native { name: "clock"@, arity: 0, func: NativeKind::Clock }),
                )],
                Seq::empty(),
            ],
            locals: Map::empty(),
            output: Seq::empty(),
            clock: 0,
        }
    }

    /// An interpreter whose global scope defines the native `clock`, with an empty
    /// scope inside it for the program.
    pub fn new() -> (r: Self)
        ensures
            r.st() == Self::fresh_state(),
            r.readings@ == Seq::<Reading>::empty(),
    {
        let mut globals = Environment::new(None);
        globals.define_native(
            "clock",
            to_callable_value(Callable::Native(NativeFunction { name: "clock".to_string(), arity: 0, func: NativeKind::Clock })),
        );
        let r = Interpreter {
            environment: Environment::new(Some(Box::new(globals))),
            locals: HashMap::new(),
            output: Vec::new(),
            readings: Ghost(Seq::empty()),
        };
        proof {
            reveal_with_fuel(crate::environment::last_index, 1);
        }
        assert(r.st().frames =~= seq![
            seq![(
                "clock"@,
                ValueV::Callable(crate::expression::CallableV::Native { name: "clock"@, arity: 0, func: NativeKind::Clock }),
            )],
            Seq::empty(),
        ]);
        assert(values_view(r.output@) =~= Seq::<ValueV>::empty());
        assert(r.st().locals =~= Map::<usize, usize>::empty());
        r
    }

    /// `self` is a later state of the interpreter `prev`: its clock readings extend those
    /// of `prev`, and it has as many scopes.
    pub open spec fn follows(&self, prev: &Interpreter) -> bool {
        &&& agrees(self.readings@, prev.readings@)
        &&& self.st().frames.len() == prev.st().frames.len()
    }

    /// Enters a new innermost scope holding `values`.
    pub(crate) fn push_scope(&mut self, values: Vec<(String, Value)>)
        ensures
            final(self).st() == (IState { frames: old(self).st().frames.push(fields_view(values@)), ..old(self).st() }),
            final(self).readings == old(self).readings,
    {
        let mut outer = Environment::new(None);
        std::mem::swap(&mut outer, &mut self.environment);
        self.environment = Environment { values, enclosing: Some(Box::new(outer)) };
    }

    /// Leaves the innermost scope.
    pub(crate) fn pop_scope(&mut self)
        requires
            old(self).st().frames.len() >= 2,
        ensures
            final(self).st() == (IState {
                frames: old(self).st().frames.subrange(0, old(self).st().frames.len() - 1),
                ..old(self).st()
            }),
            final(self).readings == old(self).readings,
    {
        let mut inner = Environment::new(None);
        std::mem::swap(&mut inner, &mut self.environment);
        proof {
            lemma_env_split(inner);
        }
        match inner.enclosing {
            Some(outer) => {
                self.environment = *outer;
            },
            None => {},
        }
    }

    /// Assigns `val` to the variable of an assignment, looking from the scope `distance`
    /// levels out, and records that distance for the expression.
    fn assign_at(&mut self, distance: usize, var: &Assignment, val: Value) -> (r: Result<(), Interrupt<RuntimeError>>)
        ensures
            final(self).readings == old(self).readings,
            final(self).st() == assign_at_distance(old(self).st(), distance, var.id, var.name@, val@).0,
            match r {
                Ok(_) => assign_at_distance(old(self).st(), distance, var.id, var.name@, val@).1 == Ok::<
                    ValueV,
                    InterruptV<ErrV>,
                >(val@),
                Err(e) => assign_at_distance(old(self).st(), distance, var.id, var.name@, val@).1 == Err::<
                    ValueV,
                    InterruptV<ErrV>,
                >(e@),
            },
    {
        match self.environment.assign_at(distance, &var.name, &val) {
            Ok(()) => {},
            Err(e) => {
                return Err(e);
            },
        }
        self.locals.insert(var.id, distance);
        Ok(())
    }

    /// Runs the statements of a program in order. It stops at the first statement that
    /// fails, with its error, or that returns at the top level, with the `return`.
    pub fn interpret(&mut self, statements: &[Stmt]) -> (r: Result<(), Interrupt<RuntimeError>>)
        ensures
            final(self).follows(old(self)),
            forall|rs: Seq<Reading>|
                #[trigger] agrees(rs, final(self).readings@) ==> run_program(rs, EVAL_FUEL as nat, old(self).st(), stmts_view(statements@))
                    == (
                    final(self).st(),
                    match r {
                        Ok(()) => Ok(()),
                        Err(i) => Err(i@),
                    },
                ),
    {
        let ghost all = stmts_view(statements@);
        let ghost s0 = self.st();
        proof {
            crate::statement::lemma_stmts_view(statements@);
            assert(all.subrange(0, all.len() as int) =~= all);
        }
        let mut i: usize = 0;
        while i < statements.len()
            invariant
                i <= statements.len(),
                all == stmts_view(statements@),
                all.len() == statements.len(),
                forall|k: int| 0 <= k < statements.len() ==> #[trigger] all[k] == statements@[k]@,
                self.follows(old(self)),
                s0 == old(self).st(),
                forall|rs: Seq<Reading>|
                    #[trigger] agrees(rs, self.readings@) ==> run_program(rs, EVAL_FUEL as nat, s0, all) == run_program(
                        rs,
                        EVAL_FUEL as nat,
                        self.st(),
                        all.subrange(i as int, all.len() as int),
                    ),
            decreases statements.len() - i,
        {
            let ghost li = self.readings@;
            let ghost n = all.len() as int;
            let out = self.evaluate(&statements[i]);
            proof {
                assert(all.subrange(i as int, n).subrange(1, n - i) =~= all.subrange(i + 1, n));
                assert forall|rs: Seq<Reading>| #[trigger] agrees(rs, self.readings@) implies agrees(rs, li) by {
                    lemma_agrees_trans(rs, li, self.readings@);
                }
            }
            match out {
                Some(Err(e)) => {
                    return Err(e);
                },
                _ => {},
            }
            i = i + 1;
        }
        Ok(())
    }

    /// Runs one statement.
    fn evaluate(&mut self, stmt: &Stmt) -> (r: Option<Result<Value, Interrupt<RuntimeError>>>)
        ensures
            final(self).follows(old(self)),
            forall|rs: Seq<Reading>|
                #[trigger] agrees(rs, final(self).readings@) ==> crate::semantics::exec_stmt(
                    rs,
                    EVAL_FUEL as nat,
                    old(self).st(),
                    stmt@,
                ) == (final(self).st(), out_view(r)),
    {
        self.evaluate_in(stmt, EVAL_FUEL)
    }

    /// Runs the statements of a block in a new innermost scope, which starts with the
    /// bindings `environment` (none when it is `None`), and leaves that scope again. A
    /// `return` in the block ends it with the returned value.
    pub fn evaluate_block(&mut self, block: &[Stmt], environment: Option<Vec<(String, Value)>>) -> (r: Option<
        Result<Value, Interrupt<RuntimeError>>,
    >)
        ensures
            final(self).follows(old(self)),
            forall|rs: Seq<Reading>|
                #[trigger] agrees(rs, final(self).readings@) ==> run_block(
                    rs,
                    EVAL_FUEL as nat,
                    old(self).st(),
                    match environment {
                        Some(vs) => fields_view(vs@),
                        None => Seq::empty(),
                    },
                    stmts_view(block@),
                ) == (final(self).st(), out_view(r)),
    {
        let values = match environment {
            Some(vs) => vs,
            None => Vec::new(),
        };
        assert(fields_view(Seq::<(String, Value)>::empty()) =~= Seq::empty());
        proof {
            crate::environment::lemma_env_nonempty(self.environment);
        }
        self.push_scope(values);
        let r = self.evaluate_items(block, EVAL_FUEL);
        self.pop_scope();
        r
    }

    /// Calls a callable with argument values, reporting errors at `token`.
    pub fn call(&mut self, callee: Rc<Callable>, args: Vec<Value>, token: &Token) -> (r: Result<Value, Interrupt<RuntimeError>>)
        ensures
            final(self).follows(old(self)),
            forall|rs: Seq<Reading>|
                #[trigger] agrees(rs, final(self).readings@) ==> call_value(
                    rs,
                    EVAL_FUEL as nat,
                    old(self).st(),
                    (*callee)@,
                    values_view(args@),
                    token@,
                ) == (final(self).st(), eval_view(r)),
    {
        self.call_in(&callee, args, token, EVAL_FUEL)
    }

    /// Evaluates an expression.
    pub fn evaluate_expression(&mut self, expr: &Expr) -> (r: Result<Value, Interrupt<RuntimeError>>)
        ensures
            final(self).follows(old(self)),
            forall|rs: Seq<Reading>|
                #[trigger] agrees(rs, final(self).readings@) ==> eval_expr(rs, EVAL_FUEL as nat, old(self).st(), expr@) == (
                    final(self).st(),
                    eval_view(r),
                ),
    {
        self.evaluate_expression_in(expr, EVAL_FUEL)
    }

    /// Records that the variable expression `expr_id` refers to the scope `depth`
    /// levels out from where it is evaluated.
    pub fn resolve(&mut self, expr_id: usize, depth: usize)
        ensures
            final(self).st() == (IState { locals: old(self).st().locals.insert(expr_id, depth), ..old(self).st() }),
            final(self).readings == old(self).readings,
    {
        self.locals.insert(expr_id, depth);
    }

    /// A runtime error at a token.
    fn runtime_error(&self, op: &Token, msg: &str) -> (r: RuntimeError)
        ensures
            r@ == (ErrV { token: op@, message: msg@ }),
    {
        RuntimeError { token: op.clone(), message: msg.to_string() }
    }

    /// Checks that a call passes as many arguments as the callee takes.
    pub fn check_arity(&self, arity: usize, len: usize, token: &Token) -> (r: Result<(), Interrupt<RuntimeError>>)
        ensures
            r is Ok <==> arity == len,
            r matches Err(e) ==> e@ == crate::semantics::arity_error(arity as nat, len as nat, token@),
    {
        if arity != len {
            let msg = if len > arity {
                "Too many arguments to function."
            } else {
                "Too few arguments to function."
            };
            Err(self.runtime_error(token, msg).wrap())
        } else {
            Ok(())
        }
    }

    /// The environment `distance` levels out from the current one, if there is one.
    pub fn ancestor(&self, distance: usize) -> (r: Option<&Environment>)
        ensures
            match r {
                Some(env) => distance < self.st().frames.len() && env@ == self.st().frames.subrange(
                    0,
                    self.st().frames.len() - distance,
                ),
                None => distance >= self.st().frames.len(),
            },
    {
        ancestor_of(&self.environment, distance)
    }

    /// The value of a variable expression: looked up from the scope at its resolved
    /// distance; a variable that was not resolved is read from the global scope.
    fn look_up_variable(&self, var: &Variable) -> (r: Result<Value, Interrupt<RuntimeError>>)
        ensures
            eval_view(r) == look_up(self.st(), var.id, var.name@),
    {
        match self.locals.get(&var.id) {
            Some(d) => match self.ancestor(*d) {
                Some(env) => env.get(&var.name),
                None => Err(self.runtime_error(&var.name, "Enclosing environment must exist").wrap()),
            },
            None => {
                proof {
                    lemma_env_split(self.environment);
                }
                globals_of(&self.environment).get(&var.name)
            },
        }
    }
}

/// The global scope: the outermost environment of the chain.
fn globals_of(env: &Environment) -> (r: &Environment)
    ensures
        r@ == env@.subrange(0, 1),
    decreases env,
{
    proof {
        lemma_env_split(*env);
    }
    match &env.enclosing {
        Some(outer) => {
            let r = globals_of(outer);
            proof {
                crate::environment::lemma_env_nonempty(**outer);
                assert(env@.subrange(0, env@.len() - 1).subrange(0, 1) =~= env@.subrange(0, 1));
            }
            r
        },
        None => {
            assert(env@.subrange(0, 1) =~= env@);
            env
        },
    }
}

/// The environment `distance` levels out from `env`, if there is one.
fn ancestor_of(env: &Environment, distance: usize) -> (r: Option<&Environment>)
    ensures
        match r {
            Some(a) => distance < env@.len() && a@ == env@.subrange(0, env@.len() - distance),
            None => distance >= env@.len(),
        },
    decreases distance,
{
    proof {
        crate::environment::lemma_env_split(*env);
    }
    if distance == 0 {
        assert(env@.subrange(0, env@.len() as int) =~= env@);
        Some(env)
    } else {
        match &env.enclosing {
            Some(outer) => {
                let r = ancestor_of(outer, distance - 1);
                proof {
                    let n = env@.len();
                    if distance < n {
                        assert(env@.subrange(0, n - 1).subrange(0, n - 1 - (distance - 1)) =~= env@.subrange(
                            0,
                            n - distance,
                        ));
                    }
                }
                r
            },
            None => None,
        }
    }
}

/// What stops the evaluation of a statement early: a `return`, or an error.
pub enum Interrupt<E> {
    Return { value: Value },
    Error(E),
}

/// The mathematical view of an interruption.
pub enum InterruptV<E> {
    Return { value: ValueV },
    Error(E),
}

impl<E> Interrupt<E> {
    /// Whether the interruption is an error (and not a `return`).
    pub fn is_err(&self) -> (r: bool)
        ensures
            r == (self is Error),
    {
        matches!(self, Self::Error(_))
    }
}

impl<E: View> View for Interrupt<E> {
    type V = InterruptV<E::V>;

    open spec fn view(&self) -> InterruptV<E::V> {
        match self {
            Interrupt::Return { value } => InterruptV::Return { value: value@ },
            Interrupt::Error(e) => InterruptV::Error(e@),
        }
    }
}

/// An error met while running a program: the token where it happened and a message.
#[derive(Debug)]
pub struct RuntimeError {
    pub token: Token,
    pub message: String,
}

/// The mathematical view of a runtime error.
pub struct ErrV {
    pub token: TokenV,
    pub message: Seq<char>,
}

impl View for RuntimeError {
    type V = ErrV;

    open spec fn view(&self) -> ErrV {
        ErrV { token: self.token@, message: self.message@ }
    }
}

impl Clone for RuntimeError {
    fn clone(&self) -> (r: Self)
        ensures
            r@ == self@,
    {
        RuntimeError { token: self.token.clone(), message: self.message.clone() }
    }
}

impl RuntimeError {
    /// The error as an interruption.
    pub fn wrap(&self) -> (r: Interrupt<RuntimeError>)
        ensures
            r@ == InterruptV::Error(self@),
    {
        Interrupt::Error(self.clone())
    }
}

} // verus!
