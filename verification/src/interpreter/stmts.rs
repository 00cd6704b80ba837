//! Execution of statements.
use vstd::prelude::*;

use crate::environment::lemma_env_nonempty;
use crate::expression::{Callable, Class, Function, IsTruthy, Literal, Value, fields_view, to_callable_value};
use crate::interpreter::{Interpreter, Interrupt, RuntimeError, out_view, values_view};
use crate::semantics::{Reading, agrees, exec_stmt, lemma_agrees_trans, stmt_size};
use crate::statement::{Stmt, clone_stmts};
use crate::token::clone_tokens;

verus! {

impl Interpreter {
    /// Runs a statement with an evaluation budget of `fuel`.
    pub(crate) fn evaluate_in(&mut self, stmt: &Stmt, fuel: u64) -> (r: Option<Result<Value, Interrupt<RuntimeError>>>)
        ensures
            final(self).follows(old(self)),
            forall|rs: Seq<Reading>|
                #[trigger] agrees(rs, final(self).readings@) ==> exec_stmt(rs, fuel as nat, old(self).st(), stmt@) == (
                    final(self).st(),
                    out_view(r),
                ),
        decreases fuel, 1nat, stmt_size(stmt@),
    {
        let ghost s0 = self.st();
        proof {
            lemma_env_nonempty(self.environment);
        }
        match stmt {
            Stmt::Expression(e) => {
                let r = Some(self.evaluate_expression_in(e, fuel));
                assert forall|rs: Seq<Reading>| #[trigger] agrees(rs, self.readings@) implies exec_stmt(rs, fuel as nat, s0, stmt@) == (
                    self.st(),
                    out_view(r),
                ) by {
                    reveal(exec_stmt);
                }
                r
            },
            Stmt::Return { keyword, value } => {
                let r = match value {
                    Some(e) => match self.evaluate_expression_in(e, fuel) {
                        Ok(v) => Some(Err(Interrupt::Return { value: v })),
                        Err(i) => Some(Err(i)),
                    },
                    None => Some(Err(Interrupt::Return { value: Value::Literal(Literal::Nil) })),
                };
                assert forall|rs: Seq<Reading>| #[trigger] agrees(rs, self.readings@) implies exec_stmt(rs, fuel as nat, s0, stmt@) == (
                    self.st(),
                    out_view(r),
                ) by {
                    reveal(exec_stmt);
                }
                r
            },
            Stmt::Print(e) => {
                let r = match self.evaluate_expression_in(e, fuel) {
                    Ok(v) => {
                        let ghost before = self.output@;
                        self.output.push(v);
                        assert(values_view(self.output@) =~= values_view(before).push(self.output@.last()@));
                        None
                    },
                    Err(i) => Some(Err(i)),
                };
                assert forall|rs: Seq<Reading>| #[trigger] agrees(rs, self.readings@) implies exec_stmt(rs, fuel as nat, s0, stmt@) == (
                    self.st(),
                    out_view(r),
                ) by {
                    reveal(exec_stmt);
                }
                r
            },
            Stmt::Var { name, initializer } => {
                let r = match initializer {
                    Some(e) => match self.evaluate_expression_in(e, fuel) {
                        Ok(v) => {
                            self.environment.define(name, v);
                            None
                        },
                        Err(i) => Some(Err(i)),
                    },
                    None => {
                        self.environment.define(name, Value::Literal(Literal::Nil));
                        None
                    },
                };
                assert forall|rs: Seq<Reading>| #[trigger] agrees(rs, self.readings@) implies exec_stmt(rs, fuel as nat, s0, stmt@) == (
                    self.st(),
                    out_view(r),
                ) by {
                    reveal(exec_stmt);
                }
                r
            },
            Stmt::Function { name, params, body } => {
                self.environment.define(
                    name,
                    to_callable_value(Callable::Function(Function { params: clone_tokens(params), body: clone_stmts(body) })),
                );
                let r = None;
                assert forall|rs: Seq<Reading>| #[trigger] agrees(rs, self.readings@) implies exec_stmt(rs, fuel as nat, s0, stmt@) == (
                    self.st(),
                    out_view(r),
                ) by {
                    reveal(exec_stmt);
                }
                r
            },
            Stmt::Class { name, methods } => {
                let class = Class { name: name.lexeme.clone(), fields: Vec::new() };
                assert(fields_view(class.fields@) =~= Seq::empty());
                self.environment.define(name, to_callable_value(Callable::Class(class)));
                let r = None;
                assert forall|rs: Seq<Reading>| #[trigger] agrees(rs, self.readings@) implies exec_stmt(rs, fuel as nat, s0, stmt@) == (
                    self.st(),
                    out_view(r),
                ) by {
                    reveal(exec_stmt);
                }
                r
            },
            Stmt::Block(b) => {
                self.push_scope(Vec::new());
                assert(fields_view(Seq::<(String, Value)>::empty()) =~= Seq::empty());
                let r = self.evaluate_items(b.as_slice(), fuel);
                self.pop_scope();
                assert forall|rs: Seq<Reading>| #[trigger] agrees(rs, self.readings@) implies exec_stmt(rs, fuel as nat, s0, stmt@) == (
                    self.st(),
                    out_view(r),
                ) by {
                    reveal(exec_stmt);
                }
                r
            },
            Stmt::If { condition, then_branch, else_branch } => {
                let c = match self.evaluate_expression_in(condition, fuel) {
                    Ok(v) => v,
                    Err(i) => {
                        let r = Some(Err(i));
                        assert forall|rs: Seq<Reading>| #[trigger] agrees(rs, self.readings@) implies exec_stmt(rs, fuel as nat, s0, stmt@) == (
                            self.st(),
                            out_view(r),
                        ) by {
                            reveal(exec_stmt);
                        }
                        return r;
                    },
                };
                let ghost l1 = self.readings@;
                let r = if c.is_truthy() {
                    self.evaluate_in(then_branch, fuel)
                } else {
                    match else_branch {
                        Some(b) => self.evaluate_in(b, fuel),
                        None => None,
                    }
                };
                assert forall|rs: Seq<Reading>| #[trigger] agrees(rs, self.readings@) implies exec_stmt(rs, fuel as nat, s0, stmt@) == (
                    self.st(),
                    out_view(r),
                ) by {
                    lemma_agrees_trans(rs, l1, self.readings@);
                    reveal(exec_stmt);
                }
                r
            },
            Stmt::While { condition, body } => {
                let r = self.evaluate_while(condition, body, fuel);
                assert forall|rs: Seq<Reading>| #[trigger] agrees(rs, self.readings@) implies exec_stmt(rs, fuel as nat, s0, stmt@) == (
                    self.st(),
                    out_view(r),
                ) by {
                    reveal(exec_stmt);
                }
                r
            },
        }
    }
}

} // verus!
