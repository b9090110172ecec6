//! The execution dispatch contract: the seam at which an interpreter or
//! compiler backend attaches to the AST. Evaluation itself is unspecified
//! future work; what is guaranteed is that every constructed tree can be
//! walked exhaustively over the closed variant set.

use vstd::prelude::*;
use std::collections::HashMap;
use crate::expressions::{Expr, Expression, ExpressionVisitor};
use crate::expressions::{
    ConstExpr, EmptyExpr, FunctionExpr, IntExpr, PrintExpr, StringExpr, VariableExpr,
};
use crate::parser::Ast;

verus! {

/// What a backend offers: walking a whole program, and walking one tree.
pub trait RuntimeEngine {
    fn execute_ast(&self, ast: &Ast);

    fn execute_expr(&self, expr: &Expr);
}

/// The tree-walking backend. It registers declared functions by name;
/// evaluation is not implemented yet, so its visitor operations record
/// nothing.
pub struct InterpreterRuntime {
    pub functions: HashMap<String, FunctionExpr>,
}

impl InterpreterRuntime {
    pub fn new() -> (r: Self)
        ensures
            r.functions@.is_empty(),
    {
        InterpreterRuntime { functions: HashMap::new() }
    }
}

impl RuntimeEngine for InterpreterRuntime {
    /// Walks every top-level tree once, in order.
    fn execute_ast(&self, ast: &Ast) {
        let mut i: usize = 0;
        while i < ast.expressions.len()
            decreases ast.expressions.len() - i,
        {
            self.execute_expr(&ast.expressions[i]);
            i = i + 1;
        }
    }

    /// Double dispatch: the tree hands itself to this engine's matching
    /// visitor operation.
    fn execute_expr(&self, expr: &Expr) {
        expr.accept(self)
    }
}

impl ExpressionVisitor for InterpreterRuntime {
    fn accept_empty(&self, _expr: &EmptyExpr) {
    }

    fn accept_const(&self, _expr: &ConstExpr) {
    }

    fn accept_func(&self, _expr: &FunctionExpr) {
    }

    fn accept_print(&self, _expr: &PrintExpr) {
    }

    fn accept_string(&self, _expr: &StringExpr) {
    }

    fn accept_int(&self, _expr: &IntExpr) {
    }

    fn accept_variable(&self, _expr: &VariableExpr) {
    }
}

} // verus!
