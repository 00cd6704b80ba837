//! Calls of functions, native functions and classes.
use std::rc::Rc;

use vstd::prelude::*;

use crate::environment::{Environment, lemma_env_nonempty};
use crate::expression::{
    Callable, ClassInstance, Literal, NativeKind, TCallable, Value, clone_class, clone_value, fields_view,
};
use crate::globals::clock_native;
use crate::interpreter::{Interpreter, Interrupt, RuntimeError, eval_view, limit_reached, values_view};
use crate::semantics::{Reading, agrees, bind_params, call_value};
use crate::token::{Token, tokens_view};

verus! {

/// The scope of a call: each parameter bound to its argument, in order.
fn bind_arguments(params: &Vec<Token>, args: &Vec<Value>) -> (r: Vec<(String, Value)>)
    requires
        params.len() == args.len(),
    ensures
        fields_view(r@) == bind_params(tokens_view(params@), values_view(args@)),
{
    let ghost tparams = tokens_view(params@);
    let ghost vargs = values_view(args@);
    let mut scope = Environment::new(None);
    let mut i: usize = 0;
    assert(scope@[0] =~= bind_params(tparams.subrange(0, 0), vargs));
    while i < params.len()
        invariant
            i <= params.len() == args.len(),
            tparams == tokens_view(params@),
            vargs == values_view(args@),
            scope@.len() == 1,
            scope@[0] == bind_params(tparams.subrange(0, i as int), vargs),
        decreases params.len() - i,
    {
        scope.define(&params[i], clone_value(&args[i]));
        i = i + 1;
        proof {
            assert(tparams.subrange(0, i as int).subrange(0, i - 1) =~= tparams.subrange(0, i - 1));
        }
    }
    assert(tparams.subrange(0, params.len() as int) =~= tparams);
    proof {
        crate::environment::lemma_env_split(scope);
    }
    scope.values
}

impl Interpreter {
    /// Calls a callable with argument values, with an evaluation budget of `fuel`.
    pub(crate) fn call_in(&mut self, callee: &Callable, args: Vec<Value>, token: &Token, fuel: u64) -> (r: Result<Value, Interrupt<RuntimeError>>)
        ensures
            final(self).follows(old(self)),
            forall|rs: Seq<Reading>|
                #[trigger] agrees(rs, final(self).readings@) ==> call_value(
                    rs,
                    fuel as nat,
                    old(self).st(),
                    callee@,
                    values_view(args@),
                    token@,
                ) == (final(self).st(), eval_view(r)),
        decreases fuel, 0nat, 0nat,
    {
        let ghost s0 = self.st();
        match callee {
            Callable::Function(f) => {
                if let Err(e) = self.check_arity(f.arity(), args.len(), token) {
                    assert forall|rs: Seq<Reading>| #[trigger] agrees(rs, self.readings@) implies call_value(
                        rs,
                        fuel as nat,
                        s0,
                        callee@,
                        values_view(args@),
                        token@,
                    ) == (self.st(), eval_view(Err(e))) by {
                        reveal(call_value);
                    }
                    return Err(e);
                }
                if fuel == 0 {
                    let r = Err(limit_reached());
                    assert forall|rs: Seq<Reading>| #[trigger] agrees(rs, self.readings@) implies call_value(
                        rs,
                        fuel as nat,
                        s0,
                        callee@,
                        values_view(args@),
                        token@,
                    ) == (self.st(), eval_view(r)) by {
                        reveal(call_value);
                    }
                    return r;
                }
                let scope = bind_arguments(&f.params, &args);
                proof {
                    lemma_env_nonempty(self.environment);
                }
                self.push_scope(scope);
                let ghost s1 = self.st();
                let out = self.evaluate_items(f.body.as_slice(), fuel - 1);
                self.pop_scope();
                let r = match out {
                    Some(Ok(v)) => Ok(v),
                    Some(Err(Interrupt::Error(e))) => Err(e.wrap()),
                    Some(Err(Interrupt::Return { value })) => Ok(value),
                    None => Ok(Value::Literal(Literal::Nil)),
                };
                assert forall|rs: Seq<Reading>| #[trigger] agrees(rs, self.readings@) implies call_value(
                    rs,
                    fuel as nat,
                    s0,
                    callee@,
                    values_view(args@),
                    token@,
                ) == (self.st(), eval_view(r)) by {
                    reveal(call_value);
                }
                r
            },
            Callable::Native(n) => {
                if args.len() != n.arity {
                    let r = Err(
                        Interrupt::Error(RuntimeError { token: token.clone(), message: "Incorrect arity to native function".to_string() }),
                    );
                    assert forall|rs: Seq<Reading>| #[trigger] agrees(rs, self.readings@) implies call_value(
                        rs,
                        fuel as nat,
                        s0,
                        callee@,
                        values_view(args@),
                        token@,
                    ) == (self.st(), eval_view(r)) by {
                        reveal(call_value);
                    }
                    return r;
                }
                let ghost vargs = values_view(args@);
                let r = match n.func {
                    NativeKind::Clock => clock_native(self, args),
                };
                proof {
                    assert(agrees(self.readings@, self.readings@));
                }
                assert forall|rs: Seq<Reading>| #[trigger] agrees(rs, self.readings@) implies call_value(
                    rs,
                    fuel as nat,
                    s0,
                    callee@,
                    vargs,
                    token@,
                ) == (self.st(), eval_view(r)) by {
                    reveal(call_value);
                }
                r
            },
            Callable::Class(c) => {
                if let Err(e) = self.check_arity(c.arity(), args.len(), token) {
                    assert forall|rs: Seq<Reading>| #[trigger] agrees(rs, self.readings@) implies call_value(
                        rs,
                        fuel as nat,
                        s0,
                        callee@,
                        values_view(args@),
                        token@,
                    ) == (self.st(), eval_view(Err(e))) by {
                        reveal(call_value);
                    }
                    return Err(e);
                }
                let r = Ok(Value::ClassInstance(ClassInstance::new(Rc::new(clone_class(c)))));
                assert forall|rs: Seq<Reading>| #[trigger] agrees(rs, self.readings@) implies call_value(
                    rs,
                    fuel as nat,
                    s0,
                    callee@,
                    values_view(args@),
                    token@,
                ) == (self.st(), eval_view(r)) by {
                    reveal(call_value);
                }
                r
            },
        }
    }
}

} // verus!
