//! Evaluation of expressions.
use vstd::prelude::*;

use crate::expression::{Expr, IsTruthy, Literal, Value};
use crate::interpreter::{Interpreter, Interrupt, RuntimeError, eval_view};
use crate::operators::{binary, property, unary};
use crate::semantics::{Reading, agrees, distance_of, eval_expr, expr_size, lemma_agrees_trans};
use crate::token::TokenType;

verus! {

impl Interpreter {
    /// Evaluates an expression with an evaluation budget of `fuel`.
    pub(crate) fn evaluate_expression_in(&mut self, e: &Expr, fuel: u64) -> (r: Result<Value, Interrupt<RuntimeError>>)
        ensures
            final(self).follows(old(self)),
            forall|rs: Seq<Reading>|
                #[trigger] agrees(rs, final(self).readings@) ==> eval_expr(rs, fuel as nat, old(self).st(), e@) == (
                    final(self).st(),
                    eval_view(r),
                ),
        decreases fuel, 1nat, expr_size(e@),
    {
        let ghost s0 = self.st();
        let ghost l0 = self.readings@;
        match e {
            Expr::Literal(l) => {
                let r = Ok(Value::Literal(l.clone()));
                assert forall|rs: Seq<Reading>| #[trigger] agrees(rs, self.readings@) implies eval_expr(rs, fuel as nat, s0, e@) == (
                    self.st(),
                    eval_view(r),
                ) by {
                    reveal(eval_expr);
                }
                r
            },
            Expr::Grouping(g) => {
                let r = self.evaluate_expression_in(&g.expression, fuel);
                assert forall|rs: Seq<Reading>| #[trigger] agrees(rs, self.readings@) implies eval_expr(rs, fuel as nat, s0, e@) == (
                    self.st(),
                    eval_view(r),
                ) by {
                    reveal(eval_expr);
                }
                r
            },
            Expr::Variable(v) => {
                let r = self.look_up_variable(v);
                assert forall|rs: Seq<Reading>| #[trigger] agrees(rs, self.readings@) implies eval_expr(rs, fuel as nat, s0, e@) == (
                    self.st(),
                    eval_view(r),
                ) by {
                    reveal(eval_expr);
                }
                r
            },
            Expr::Assignment(a) => {
                let val = match self.evaluate_expression_in(&a.value, fuel) {
                    Ok(v) => v,
                    Err(i) => {
                        assert forall|rs: Seq<Reading>| #[trigger] agrees(rs, self.readings@) implies eval_expr(rs, fuel as nat, s0, e@) == (
                            self.st(),
                            eval_view(Err(i)),
                        ) by {
                            reveal(eval_expr);
                        }
                        return Err(i);
                    },
                };
                let ghost s1 = self.st();
                let ghost l1 = self.readings@;
                let distance = match self.locals.get(&a.id) {
                    Some(d) => *d,
                    None => 0,
                };
                assert(distance == distance_of(s1, a.id));
                proof {
                    let n = s1.frames.len();
                    if distance < n {
                        crate::environment::lemma_chain_assign_len(s1.frames.subrange(0, n - distance), a.name.lexeme@, val@);
                    }
                }
                let ghost v = val@;
                let r = match self.assign_at(distance, a, crate::expression::clone_value(&val)) {
                    Ok(()) => Ok(val),
                    Err(i) => Err(i),
                };
                assert forall|rs: Seq<Reading>| #[trigger] agrees(rs, self.readings@) implies eval_expr(rs, fuel as nat, s0, e@) == (
                    self.st(),
                    eval_view(r),
                ) by {
                    reveal(eval_expr);
                }
                r
            },
            Expr::Call(c) => {
                let callee = match self.evaluate_expression_in(&c.callee, fuel) {
                    Ok(v) => v,
                    Err(i) => {
                        assert forall|rs: Seq<Reading>| #[trigger] agrees(rs, self.readings@) implies eval_expr(rs, fuel as nat, s0, e@) == (
                            self.st(),
                            eval_view(Err(i)),
                        ) by {
                            reveal(eval_expr);
                        }
                        return Err(i);
                    },
                };
                let ghost s1 = self.st();
                let ghost l1 = self.readings@;
                match callee {
                    Value::Callable(f) => {
                        let args = match self.evaluate_args(&c.args, fuel) {
                            Ok(vs) => vs,
                            Err(i) => {
                                assert forall|rs: Seq<Reading>| #[trigger] agrees(rs, self.readings@) implies eval_expr(rs, fuel as nat, s0, e@) == (
                                    self.st(),
                                    eval_view(Err(i)),
                                ) by {
                                    lemma_agrees_trans(rs, l1, self.readings@);
                                    reveal(eval_expr);
                                }
                                return Err(i);
                            },
                        };
                        let ghost l2 = self.readings@;
                        let r = self.call_in(&f, args, &c.paren, fuel);
                        assert forall|rs: Seq<Reading>| #[trigger] agrees(rs, self.readings@) implies eval_expr(rs, fuel as nat, s0, e@) == (
                            self.st(),
                            eval_view(r),
                        ) by {
                            lemma_agrees_trans(rs, l2, self.readings@);
                            lemma_agrees_trans(rs, l1, l2);
                            reveal(eval_expr);
                        }
                        r
                    },
                    _ => {
                        let r = Err(Interrupt::Error(RuntimeError { token: c.paren.clone(), message: "Non-callable passed to Call struct".to_string() }));
                        assert forall|rs: Seq<Reading>| #[trigger] agrees(rs, self.readings@) implies eval_expr(rs, fuel as nat, s0, e@) == (
                            self.st(),
                            eval_view(r),
                        ) by {
                            reveal(eval_expr);
                        }
                        r
                    },
                }
            },
            Expr::Logical(l) => {
                let left = match self.evaluate_expression_in(&l.left, fuel) {
                    Ok(v) => v,
                    Err(i) => {
                        assert forall|rs: Seq<Reading>| #[trigger] agrees(rs, self.readings@) implies eval_expr(rs, fuel as nat, s0, e@) == (
                            self.st(),
                            eval_view(Err(i)),
                        ) by {
                            reveal(eval_expr);
                        }
                        return Err(i);
                    },
                };
                let ghost l1 = self.readings@;
                let is_or = l.operator.token_type == TokenType::Or;
                if is_or == left.is_truthy() {
                    let r = Ok(left);
                    assert forall|rs: Seq<Reading>| #[trigger] agrees(rs, self.readings@) implies eval_expr(rs, fuel as nat, s0, e@) == (
                        self.st(),
                        eval_view(r),
                    ) by {
                        reveal(eval_expr);
                    }
                    r
                } else {
                    let r = self.evaluate_expression_in(&l.right, fuel);
                    assert forall|rs: Seq<Reading>| #[trigger] agrees(rs, self.readings@) implies eval_expr(rs, fuel as nat, s0, e@) == (
                        self.st(),
                        eval_view(r),
                    ) by {
                        lemma_agrees_trans(rs, l1, self.readings@);
                        reveal(eval_expr);
                    }
                    r
                }
            },
            Expr::Unary(u) => {
                let right = match self.evaluate_expression_in(&u.right, fuel) {
                    Ok(v) => v,
                    Err(i) => {
                        assert forall|rs: Seq<Reading>| #[trigger] agrees(rs, self.readings@) implies eval_expr(rs, fuel as nat, s0, e@) == (
                            self.st(),
                            eval_view(Err(i)),
                        ) by {
                            reveal(eval_expr);
                        }
                        return Err(i);
                    },
                };
                let r = unary(&u.operator, &right);
                assert forall|rs: Seq<Reading>| #[trigger] agrees(rs, self.readings@) implies eval_expr(rs, fuel as nat, s0, e@) == (
                    self.st(),
                    eval_view(r),
                ) by {
                    reveal(eval_expr);
                }
                r
            },
            Expr::Binary(b) => {
                let left = match self.evaluate_expression_in(&b.left, fuel) {
                    Ok(v) => v,
                    Err(i) => {
                        assert forall|rs: Seq<Reading>| #[trigger] agrees(rs, self.readings@) implies eval_expr(rs, fuel as nat, s0, e@) == (
                            self.st(),
                            eval_view(Err(i)),
                        ) by {
                            reveal(eval_expr);
                        }
                        return Err(i);
                    },
                };
                let ghost l1 = self.readings@;
                let right = match self.evaluate_expression_in(&b.right, fuel) {
                    Ok(v) => v,
                    Err(i) => {
                        assert forall|rs: Seq<Reading>| #[trigger] agrees(rs, self.readings@) implies eval_expr(rs, fuel as nat, s0, e@) == (
                            self.st(),
                            eval_view(Err(i)),
                        ) by {
                            lemma_agrees_trans(rs, l1, self.readings@);
                            reveal(eval_expr);
                        }
                        return Err(i);
                    },
                };
                let r = binary(&b.operator, &left, &right);
                assert forall|rs: Seq<Reading>| #[trigger] agrees(rs, self.readings@) implies eval_expr(rs, fuel as nat, s0, e@) == (
                    self.st(),
                    eval_view(r),
                ) by {
                    lemma_agrees_trans(rs, l1, self.readings@);
                    reveal(eval_expr);
                }
                r
            },
            Expr::Get { expr, name } => {
                let v = match self.evaluate_expression_in(expr, fuel) {
                    Ok(v) => v,
                    Err(i) => {
                        assert forall|rs: Seq<Reading>| #[trigger] agrees(rs, self.readings@) implies eval_expr(rs, fuel as nat, s0, e@) == (
                            self.st(),
                            eval_view(Err(i)),
                        ) by {
                            reveal(eval_expr);
                        }
                        return Err(i);
                    },
                };
                let r = property(&v, name);
                assert forall|rs: Seq<Reading>| #[trigger] agrees(rs, self.readings@) implies eval_expr(rs, fuel as nat, s0, e@) == (
                    self.st(),
                    eval_view(r),
                ) by {
                    reveal(eval_expr);
                }
                r
            },
        }
    }
}

} // verus!
