//! The passes over the tree, and the protocol by which a pass is applied to
//! a node: each kind of node has one handler.
use vstd::prelude::*;
use crate::parser::expression::{
    And, Assignment, Call, Comparison, Equality, ExprView, Factor, IfExpression, Index,
    IndexAssignment, List, MapIndex, MapIndexAssignment, Or, Primary, Record, Term, Unary,
};
use crate::parser::statement::{
    Block, ExpressionStatement, For, FunctionDeclaration, IfStatement, PrintStatement, Return,
    StmtView, VariableDeclaration, WhileStatement, With,
};

pub mod ast_printer;
pub mod environment;
pub mod interpreter;
pub mod type_checker;

verus! {

/// The tree of a node of either sort.
pub enum NodeView {
    Expression(ExprView),
    Statement(StmtView),
}

/// A pass over the tree: one handler for each kind of node. A pass may keep
/// state and change it from node to node.
///
/// What a pass does is its own affair. It says so in `ready` and `visits`:
/// what it asks for before it handles a node, and what then holds of the
/// pass before, the node, the pass afterwards and the result. Every handler
/// keeps that word for its own kind of node.
pub trait Visitor<'a>: Sized {
    type Output;

    /// What the pass asks for before it handles a node. A pass that says
    /// nothing here asks for nothing.
    open spec fn ready(&self) -> bool {
        true
    }

    /// What the pass promises of handling a node. A pass that says nothing
    /// here promises nothing.
    open spec fn visits(&self, node: NodeView, after: &Self, output: Self::Output) -> bool {
        true
    }

    fn visit_assignment(&mut self, assignment: &'a Assignment) -> (output: Self::Output)
        requires
            old(self).ready(),
        ensures
            old(self).visits(NodeView::Expression(assignment@), final(self), output),
    ;

    fn visit_equality(&mut self, equality: &'a Equality) -> (output: Self::Output)
        requires
            old(self).ready(),
        ensures
            old(self).visits(NodeView::Expression(equality@), final(self), output),
    ;

    fn visit_comparison(&mut self, comparison: &'a Comparison) -> (output: Self::Output)
        requires
            old(self).ready(),
        ensures
            old(self).visits(NodeView::Expression(comparison@), final(self), output),
    ;

    fn visit_term(&mut self, term: &'a Term) -> (output: Self::Output)
        requires
            old(self).ready(),
        ensures
            old(self).visits(NodeView::Expression(term@), final(self), output),
    ;

    fn visit_factor(&mut self, factor: &'a Factor) -> (output: Self::Output)
        requires
            old(self).ready(),
        ensures
            old(self).visits(NodeView::Expression(factor@), final(self), output),
    ;

    fn visit_unary(&mut self, unary: &'a Unary) -> (output: Self::Output)
        requires
            old(self).ready(),
        ensures
            old(self).visits(NodeView::Expression(unary@), final(self), output),
    ;

    fn visit_primary(&mut self, primary: &'a Primary) -> (output: Self::Output)
        requires
            old(self).ready(),
        ensures
            old(self).visits(NodeView::Expression(primary@), final(self), output),
    ;

    fn visit_if_expression(&mut self, if_expression: &'a IfExpression) -> (output: Self::Output)
        requires
            old(self).ready(),
        ensures
            old(self).visits(NodeView::Expression(if_expression@), final(self), output),
    ;

    fn visit_and(&mut self, and: &'a And) -> (output: Self::Output)
        requires
            old(self).ready(),
        ensures
            old(self).visits(NodeView::Expression(and@), final(self), output),
    ;

    fn visit_or(&mut self, or: &'a Or) -> (output: Self::Output)
        requires
            old(self).ready(),
        ensures
            old(self).visits(NodeView::Expression(or@), final(self), output),
    ;

    fn visit_call(&mut self, call: &'a Call) -> (output: Self::Output)
        requires
            old(self).ready(),
        ensures
            old(self).visits(NodeView::Expression(call@), final(self), output),
    ;

    fn visit_list(&mut self, list: &'a List) -> (output: Self::Output)
        requires
            old(self).ready(),
        ensures
            old(self).visits(NodeView::Expression(list@), final(self), output),
    ;

    fn visit_index(&mut self, index: &'a Index) -> (output: Self::Output)
        requires
            old(self).ready(),
        ensures
            old(self).visits(NodeView::Expression(index@), final(self), output),
    ;

    fn visit_record(&mut self, record: &'a Record) -> (output: Self::Output)
        requires
            old(self).ready(),
        ensures
            old(self).visits(NodeView::Expression(record@), final(self), output),
    ;

    fn visit_map_index(&mut self, map_index: &'a MapIndex) -> (output: Self::Output)
        requires
            old(self).ready(),
        ensures
            old(self).visits(NodeView::Expression(map_index@), final(self), output),
    ;

    fn visit_map_index_assignment(&mut self, assignment: &'a MapIndexAssignment) -> (output: Self::Output)
        requires
            old(self).ready(),
        ensures
            old(self).visits(NodeView::Expression(assignment@), final(self), output),
    ;

    fn visit_index_assignment(&mut self, assignment: &'a IndexAssignment) -> (output: Self::Output)
        requires
            old(self).ready(),
        ensures
            old(self).visits(NodeView::Expression(assignment@), final(self), output),
    ;

    fn visit_expression_statement(&mut self, expression_statement: &'a ExpressionStatement) -> (output:
        Self::Output)
        requires
            old(self).ready(),
        ensures
            old(self).visits(NodeView::Statement(expression_statement@), final(self), output),
    ;

    fn visit_print_statement(&mut self, print_statement: &'a PrintStatement) -> (output: Self::Output)
        requires
            old(self).ready(),
        ensures
            old(self).visits(NodeView::Statement(print_statement@), final(self), output),
    ;

    fn visit_variable_declaration(&mut self, variable_declaration: &'a VariableDeclaration) -> (output:
        Self::Output)
        requires
            old(self).ready(),
        ensures
            old(self).visits(NodeView::Statement(variable_declaration@), final(self), output),
    ;

    fn visit_block(&mut self, block: &'a Block) -> (output: Self::Output)
        requires
            old(self).ready(),
        ensures
            old(self).visits(NodeView::Statement(block@), final(self), output),
    ;

    fn visit_if_statement(&mut self, if_statement: &'a IfStatement) -> (output: Self::Output)
        requires
            old(self).ready(),
        ensures
            old(self).visits(NodeView::Statement(if_statement@), final(self), output),
    ;

    fn visit_while_statement(&mut self, while_statement: &'a WhileStatement) -> (output: Self::Output)
        requires
            old(self).ready(),
        ensures
            old(self).visits(NodeView::Statement(while_statement@), final(self), output),
    ;

    fn visit_function_declaration(&mut self, function_declaration: &'a FunctionDeclaration) -> (output:
        Self::Output)
        requires
            old(self).ready(),
        ensures
            old(self).visits(NodeView::Statement(function_declaration@), final(self), output),
    ;

    fn visit_return(&mut self, return_statement: &'a Return) -> (output: Self::Output)
        requires
            old(self).ready(),
        ensures
            old(self).visits(NodeView::Statement(return_statement@), final(self), output),
    ;

    fn visit_with_statement(&mut self, with_statement: &'a With) -> (output: Self::Output)
        requires
            old(self).ready(),
        ensures
            old(self).visits(NodeView::Statement(with_statement@), final(self), output),
    ;

    fn visit_for_statement(&mut self, for_statement: &'a For) -> (output: Self::Output)
        requires
            old(self).ready(),
        ensures
            old(self).visits(NodeView::Statement(for_statement@), final(self), output),
    ;
}

} // verus!
