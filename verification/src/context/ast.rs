//! A program: its statements, in order.

use crate::data::ast::{stmts_model, Stmt, StmtModel};
use crate::pipeline::formatter::program_text;
use crate::text::Text;
use vstd::prelude::*;

verus! {

#[derive(Debug, PartialEq)]
pub struct Ast<M> {
    pub stmts: Vec<Stmt<M>>,
}

impl<M> Ast<M> {
    /// What the program stands for.
    pub open spec fn model(self) -> Seq<StmtModel<M>> {
        stmts_model(self.stmts@)
    }

    pub fn new() -> (ast: Self)
        ensures
            ast.stmts@ == Seq::<Stmt<M>>::empty(),
    {
        Ast { stmts: Vec::new() }
    }

    pub fn stmts(&self) -> (stmts: &Vec<Stmt<M>>)
        ensures
            *stmts == self.stmts,
    {
        &self.stmts
    }

    pub fn stmts_mut(&mut self) -> (stmts: &mut Vec<Stmt<M>>)
        ensures
            *stmts == old(self).stmts,
            final(self).stmts == *final(stmts),
    {
        &mut self.stmts
    }

    /// Appends the text of the program to `out`.
    pub fn format(&self, out: &mut Text)
        ensures
            final(out)@ == old(out)@ + program_text(self.model()),
    {
        crate::pipeline::formatter::format(self, out)
    }

    pub fn push_stmt(&mut self, stmt: Stmt<M>)
        ensures
            final(self).stmts@ == old(self).stmts@.push(stmt),
    {
        self.stmts.push(stmt);
    }
}

} // verus!
