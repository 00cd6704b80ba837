//! Evaluation of the arguments of a call.
use vstd::prelude::*;

use crate::expression::{Expr, Value, ValueV, exprs_view, lemma_exprs_view};
use crate::interpreter::{ErrV, Interpreter, Interrupt, InterruptV, RuntimeError, args_view, values_view};
use crate::semantics::{IState, Reading, agrees, args_size, eval_args, lemma_agrees_trans, lemma_args_size};

verus! {

/// The outcome of evaluating the remaining arguments, after the values `done`.
spec fn prepend(done: Seq<ValueV>, x: (IState, Result<Seq<ValueV>, InterruptV<ErrV>>)) -> (IState, Result<Seq<ValueV>, InterruptV<ErrV>>) {
    (
        x.0,
        match x.1 {
            Ok(vs) => Ok(done + vs),
            Err(e) => Err(e),
        },
    )
}

proof fn lemma_prepend(done: Seq<ValueV>, v: ValueV, x: (IState, Result<Seq<ValueV>, InterruptV<ErrV>>))
    ensures
        prepend(
            done,
            (
                x.0,
                match x.1 {
                    Ok(vs) => Ok(seq![v] + vs),
                    Err(e) => Err(e),
                },
            ),
        ) == prepend(done.push(v), x),
{
    match x.1 {
        Ok(vs) => {
            assert(done + (seq![v] + vs) =~= done.push(v) + vs);
        },
        Err(e) => {},
    }
}

impl Interpreter {
    /// Evaluates the arguments of a call from left to right, stopping at the first that
    /// fails.
    pub(crate) fn evaluate_args(&mut self, args: &Vec<Expr>, fuel: u64) -> (r: Result<Vec<Value>, Interrupt<RuntimeError>>)
        ensures
            final(self).follows(old(self)),
            forall|rs: Seq<Reading>|
                #[trigger] agrees(rs, final(self).readings@) ==> eval_args(rs, fuel as nat, old(self).st(), exprs_view(args@))
                    == (final(self).st(), args_view(r)),
        decreases fuel, 1nat, args_size(exprs_view(args@)),
    {
        let ghost all = exprs_view(args@);
        let ghost s0 = self.st();
        proof {
            lemma_exprs_view(args@);
            assert(all.subrange(0, all.len() as int) =~= all);
            assert forall|rs: Seq<Reading>| #[trigger] agrees(rs, self.readings@) implies eval_args(rs, fuel as nat, s0, all) == prepend(
                values_view(Seq::<Value>::empty()),
                eval_args(rs, fuel as nat, self.st(), all.subrange(0, all.len() as int)),
            ) by {
                let x = eval_args(rs, fuel as nat, self.st(), all);
                match x.1 {
                    Ok(vs) => {
                        assert(values_view(Seq::<Value>::empty()) + vs =~= vs);
                    },
                    Err(e) => {},
                }
            }
        }
        let mut done: Vec<Value> = Vec::new();
        let mut i: usize = 0;
        while i < args.len()
            invariant
                i <= args.len(),
                all == exprs_view(args@),
                all.len() == args.len(),
                forall|k: int| 0 <= k < args.len() ==> #[trigger] all[k] == args@[k]@,
                self.follows(old(self)),
                s0 == old(self).st(),
                forall|rs: Seq<Reading>|
                    #[trigger] agrees(rs, self.readings@) ==> eval_args(rs, fuel as nat, s0, all) == prepend(
                        values_view(done@),
                        eval_args(rs, fuel as nat, self.st(), all.subrange(i as int, all.len() as int)),
                    ),
            decreases args.len() - i,
        {
            proof {
                lemma_args_size(all, i as int);
            }
            let ghost li = self.readings@;
            let ghost si = self.st();
            let ghost donei = done@;
            match self.evaluate_expression_in(&args[i], fuel) {
                Ok(v) => {
                    let ghost vv = v@;
                    done.push(v);
                    i = i + 1;
                    proof {
                        assert(values_view(done@) =~= values_view(donei).push(vv));
                        let n = all.len() as int;
                        assert(all.subrange(i - 1, n).subrange(1, n - (i - 1)) =~= all.subrange(i as int, n));
                        assert forall|rs: Seq<Reading>| #[trigger] agrees(rs, self.readings@) implies eval_args(rs, fuel as nat, s0, all)
                            == prepend(
                            values_view(done@),
                            eval_args(rs, fuel as nat, self.st(), all.subrange(i as int, n)),
                        ) by {
                            lemma_agrees_trans(rs, li, self.readings@);
                            reveal(eval_args);
                            lemma_prepend(
                                values_view(donei),
                                vv,
                                eval_args(rs, fuel as nat, self.st(), all.subrange(i as int, n)),
                            );
                        }
                    }
                },
                Err(x) => {
                    proof {
                        let n = all.len() as int;
                        assert forall|rs: Seq<Reading>| #[trigger] agrees(rs, self.readings@) implies eval_args(rs, fuel as nat, s0, all)
                            == (self.st(), args_view(Err(x))) by {
                            lemma_agrees_trans(rs, li, self.readings@);
                            reveal(eval_args);
                        }
                    }
                    return Err(x);
                },
            }
        }
        proof {
            assert forall|rs: Seq<Reading>| #[trigger] agrees(rs, self.readings@) implies eval_args(rs, fuel as nat, s0, all) == (
                self.st(),
                args_view(Ok(done)),
            ) by {
                reveal(eval_args);
                assert(all.subrange(i as int, all.len() as int) =~= Seq::<crate::expression::ExprV>::empty());
                assert(values_view(done@) + Seq::<ValueV>::empty() =~= values_view(done@));
            }
        }
        Ok(done)
    }
}

} // verus!
