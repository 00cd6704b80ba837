//! The resolver, which is to record for each variable expression how many scopes out
//! its binding lies. Its passes do not record anything yet.
use std::collections::HashMap;

use vstd::prelude::*;

use crate::expression::Expr;
use crate::interpreter::Interpreter;
use crate::statement::Stmt;

verus! {

pub struct Resolver {
    interpreter: Interpreter,
    scopes: Vec<HashMap<String, bool>>,
}

impl Resolver {
    /// A resolver for `interpreter`, with no scope open.
    pub fn new(interpreter: Interpreter) -> (r: Resolver)
        ensures
            r.interpreter() == interpreter,
    {
        Resolver { interpreter, scopes: Vec::new() }
    }

    /// The interpreter being resolved for.
    pub closed spec fn interpreter(&self) -> Interpreter {
        self.interpreter
    }

    /// Resolves the statements of a program. Nothing is recorded yet.
    pub fn resolve(&self, statements: &[Stmt]) {
        let mut i: usize = 0;
        while i < statements.len()
            invariant
                i <= statements.len(),
            decreases statements.len() - i,
        {
            self.resolve_stmt(&statements[i]);
            i = i + 1;
        }
    }

    /// Resolves a block in a scope of its own.
    fn resolve_block(&self, block: &[Stmt]) {
        self.begin_scope();
        let mut i: usize = 0;
        while i < block.len()
            invariant
                i <= block.len(),
            decreases block.len() - i,
        {
            self.resolve_stmt(&block[i]);
            i = i + 1;
        }
        self.end_scope();
    }

    fn resolve_stmt(&self, stmt: &Stmt) {
    }

    fn resolve_expr(&self, expr: &Expr) {
    }

    fn begin_scope(&self) {
    }

    fn end_scope(&self) {
    }

    /// The interpreter, to run the resolved program with.
    pub fn into_interpreter(self) -> (r: Interpreter)
        ensures
            r == self.interpreter(),
    {
        self.interpreter
    }
}

} // verus!
