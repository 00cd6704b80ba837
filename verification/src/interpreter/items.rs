//! Execution of the statements of a block.
use vstd::prelude::*;

use crate::interpreter::{Interpreter, Interrupt, RuntimeError, out_view};
use crate::semantics::{Reading, agrees, exec_items, lemma_agrees_trans, lemma_stmts_size, stmts_size};
use crate::statement::{Stmt, lemma_stmts_view, stmts_view};
use crate::expression::Value;

verus! {

impl Interpreter {
    /// Runs the statements of a block in order, until one returns (its value is then the
    /// block's) or fails, with an evaluation budget of `fuel`.
    pub(crate) fn evaluate_items(&mut self, stmts: &[Stmt], fuel: u64) -> (r: Option<Result<Value, Interrupt<RuntimeError>>>)
        ensures
            final(self).follows(old(self)),
            forall|rs: Seq<Reading>|
                #[trigger] agrees(rs, final(self).readings@) ==> exec_items(rs, fuel as nat, old(self).st(), stmts_view(stmts@))
                    == (final(self).st(), out_view(r)),
        decreases fuel, 1nat, stmts_size(stmts_view(stmts@)),
    {
        let ghost all = stmts_view(stmts@);
        let ghost s0 = self.st();
        proof {
            lemma_stmts_view(stmts@);
            assert(all.subrange(0, all.len() as int) =~= all);
        }
        let mut i: usize = 0;
        while i < stmts.len()
            invariant
                i <= stmts.len(),
                all == stmts_view(stmts@),
                all.len() == stmts.len(),
                forall|k: int| 0 <= k < stmts.len() ==> #[trigger] all[k] == stmts@[k]@,
                self.follows(old(self)),
                s0 == old(self).st(),
                forall|rs: Seq<Reading>|
                    #[trigger] agrees(rs, self.readings@) ==> exec_items(rs, fuel as nat, s0, all) == exec_items(
                        rs,
                        fuel as nat,
                        self.st(),
                        all.subrange(i as int, all.len() as int),
                    ),
            decreases stmts.len() - i,
        {
            proof {
                lemma_stmts_size(all, i as int);
            }
            let ghost li = self.readings@;
            let ghost si = self.st();
            let ghost n = all.len() as int;
            let out = self.evaluate_in(&stmts[i], fuel);
            let stop = match out {
                Some(Err(Interrupt::Error(e))) => Some(Err(Interrupt::Error(e))),
                Some(Err(Interrupt::Return { value })) => Some(Ok(value)),
                _ => None,
            };
            proof {
                assert(all.subrange(i as int, n).subrange(1, n - i) =~= all.subrange(i + 1, n));
            }
            if stop.is_some() {
                assert forall|rs: Seq<Reading>| #[trigger] agrees(rs, self.readings@) implies exec_items(rs, fuel as nat, s0, all) == (
                    self.st(),
                    out_view(stop),
                ) by {
                    lemma_agrees_trans(rs, li, self.readings@);
                    reveal(exec_items);
                }
                return stop;
            }
            i = i + 1;
            assert forall|rs: Seq<Reading>| #[trigger] agrees(rs, self.readings@) implies exec_items(rs, fuel as nat, s0, all)
                == exec_items(rs, fuel as nat, self.st(), all.subrange(i as int, n)) by {
                lemma_agrees_trans(rs, li, self.readings@);
                reveal(exec_items);
            }
        }
        assert forall|rs: Seq<Reading>| #[trigger] agrees(rs, self.readings@) implies exec_items(rs, fuel as nat, s0, all) == (
            self.st(),
            out_view(None),
        ) by {
            reveal(exec_items);
        }
        None
    }
}

} // verus!
