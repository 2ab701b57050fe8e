//! The one operation that every node offers to a pass: to be handled by it.
use vstd::prelude::*;
use crate::parser::expression::{Expression, lemma_node_view};
use crate::parser::statement::{Statement, lemma_statement_node_view};
use crate::visitors::{NodeView, Visitor};

verus! {

/// A node that hands itself to a pass.
pub trait Accept {
    /// The tree of this node.
    spec fn node(&self) -> NodeView;

    /// Applies the handler that the pass has for this kind of node, once:
    /// what the pass promises of handling this node holds.
    fn accept<'a, V: Visitor<'a>>(&'a self, visitor: &mut V) -> (output: V::Output)
        requires
            old(visitor).ready(),
        ensures
            old(visitor).visits(self.node(), final(visitor), output),
    ;
}

impl Accept for Expression {
    open spec fn node(&self) -> NodeView {
        NodeView::Expression(self@)
    }

    fn accept<'a, V: Visitor<'a>>(&'a self, visitor: &mut V) -> (output: V::Output) {
        proof {
            lemma_node_view(*self);
        }
        match self {
            Expression::Assignment(assignment) => visitor.visit_assignment(assignment),
            Expression::Equality(equality) => visitor.visit_equality(equality),
            Expression::Comparison(comparison) => visitor.visit_comparison(comparison),
            Expression::Term(term) => visitor.visit_term(term),
            Expression::Factor(factor) => visitor.visit_factor(factor),
            Expression::Unary(unary) => visitor.visit_unary(unary),
            Expression::Primary(primary) => visitor.visit_primary(primary),
            Expression::IfExpression(if_expression) => visitor.visit_if_expression(if_expression),
            Expression::Or(or) => visitor.visit_or(or),
            Expression::And(and) => visitor.visit_and(and),
            Expression::Call(call) => visitor.visit_call(call),
            Expression::List(list) => visitor.visit_list(list),
            Expression::Index(index) => visitor.visit_index(index),
            Expression::Record(record) => visitor.visit_record(record),
            Expression::MapIndex(map_index) => visitor.visit_map_index(map_index),
            Expression::MapIndexAssignment(assignment) => visitor.visit_map_index_assignment(assignment),
            Expression::IndexAssignment(assignment) => visitor.visit_index_assignment(assignment),
        }
    }
}

impl Accept for Statement {
    open spec fn node(&self) -> NodeView {
        NodeView::Statement(self@)
    }

    fn accept<'a, V: Visitor<'a>>(&'a self, visitor: &mut V) -> (output: V::Output) {
        proof {
            lemma_statement_node_view(*self);
        }
        match self {
            Statement::ExpressionStatement(statement) => visitor.visit_expression_statement(statement),
            Statement::PrintStatement(statement) => visitor.visit_print_statement(statement),
            Statement::VariableDeclaration(declaration) => visitor.visit_variable_declaration(declaration),
            Statement::Block(block) => visitor.visit_block(block),
            Statement::IfStatement(statement) => visitor.visit_if_statement(statement),
            Statement::WhileStatement(statement) => visitor.visit_while_statement(statement),
            Statement::FunctionDeclaration(declaration) => visitor.visit_function_declaration(declaration),
            Statement::Return(statement) => visitor.visit_return(statement),
            Statement::With(statement) => visitor.visit_with_statement(statement),
            Statement::For(statement) => visitor.visit_for_statement(statement),
        }
    }
}

} // verus!
