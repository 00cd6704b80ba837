//! Execution of `while` loops.
use vstd::prelude::*;

use crate::expression::{Expr, IsTruthy, Value};
use crate::interpreter::{Interpreter, Interrupt, RuntimeError, limit_reached, out_view};
use crate::semantics::{Reading, agrees, exec_while, lemma_agrees_trans};
use crate::statement::Stmt;

verus! {

impl Interpreter {
    /// Runs a `while` loop with an evaluation budget of `fuel`: each round spends one
    /// unit. An error or `return` that the body yields stops the loop and is its result.
    pub(crate) fn evaluate_while(&mut self, condition: &Expr, body: &Stmt, fuel: u64) -> (r: Option<Result<Value, Interrupt<RuntimeError>>>)
        ensures
            final(self).follows(old(self)),
            forall|rs: Seq<Reading>|
                #[trigger] agrees(rs, final(self).readings@) ==> exec_while(rs, fuel as nat, old(self).st(), condition@, body@) == (
                    final(self).st(),
                    out_view(r),
                ),
        decreases fuel, 0nat, 0nat,
    {
        let ghost s0 = self.st();
        let mut f = fuel;
        loop
            invariant
                f <= fuel,
                self.follows(old(self)),
                s0 == old(self).st(),
                forall|rs: Seq<Reading>|
                    #[trigger] agrees(rs, self.readings@) ==> exec_while(rs, fuel as nat, s0, condition@, body@) == exec_while(
                        rs,
                        f as nat,
                        self.st(),
                        condition@,
                        body@,
                    ),
            decreases f,
        {
            let ghost li = self.readings@;
            let ghost si = self.st();
            if f == 0 {
                let r = Some(Err(limit_reached()));
                assert forall|rs: Seq<Reading>| #[trigger] agrees(rs, self.readings@) implies exec_while(rs, fuel as nat, s0, condition@, body@)
                    == (self.st(), out_view(r)) by {
                    reveal(exec_while);
                }
                return r;
            }
            f = f - 1;
            let c = match self.evaluate_expression_in(condition, f) {
                Ok(v) => v,
                Err(i) => {
                    let r = Some(Err(i));
                    assert forall|rs: Seq<Reading>| #[trigger] agrees(rs, self.readings@) implies exec_while(
                        rs,
                        fuel as nat,
                        s0,
                        condition@,
                        body@,
                    ) == (self.st(), out_view(r)) by {
                        lemma_agrees_trans(rs, li, self.readings@);
                        reveal(exec_while);
                    }
                    return r;
                },
            };
            if !c.is_truthy() {
                let r = None;
                assert forall|rs: Seq<Reading>| #[trigger] agrees(rs, self.readings@) implies exec_while(rs, fuel as nat, s0, condition@, body@)
                    == (self.st(), out_view(r)) by {
                    lemma_agrees_trans(rs, li, self.readings@);
                    reveal(exec_while);
                }
                return r;
            }
            let ghost l1 = self.readings@;
            let out = self.evaluate_in(body, f);
            if let Some(Err(i)) = out {
                let r = Some(Err(i));
                assert forall|rs: Seq<Reading>| #[trigger] agrees(rs, self.readings@) implies exec_while(
                    rs,
                    fuel as nat,
                    s0,
                    condition@,
                    body@,
                ) == (self.st(), out_view(r)) by {
                    lemma_agrees_trans(rs, l1, self.readings@);
                    lemma_agrees_trans(rs, li, l1);
                    reveal(exec_while);
                }
                return r;
            }
            assert forall|rs: Seq<Reading>| #[trigger] agrees(rs, self.readings@) implies exec_while(rs, fuel as nat, s0, condition@, body@)
                == exec_while(rs, f as nat, self.st(), condition@, body@) by {
                lemma_agrees_trans(rs, l1, self.readings@);
                lemma_agrees_trans(rs, li, l1);
                reveal(exec_while);
            }
        }
    }
}

} // verus!
