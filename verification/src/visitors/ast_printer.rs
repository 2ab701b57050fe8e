//! A pass that writes the tree as text, for the eye.
use vstd::prelude::*;
use vstd::string::StringExecFns;
use crate::parser::expression::{
    And, Assignment, Call, Comparison, Equality, ExprView, Expression, Factor, IfExpression, Index,
    IndexAssignment, List, MapIndex, MapIndexAssignment, Or, Primary, Record, Term, Unary,
    entry_views, expression_views, lemma_node_view,
};
use crate::parser::statement::{
    Block, ExpressionStatement, For, FunctionDeclaration, IfStatement, PrintStatement, Return,
    Statement, StmtView, VariableDeclaration, WhileStatement, With, lemma_statement_node_view,
    statement_views,
};
use crate::token::{Token, TokenView, token_views};
use crate::visitors::{NodeView, Visitor};

verus! {

/// The text of an expression.
pub open spec fn expression_text(e: ExprView) -> Seq<char>
    decreases e, 1nat,
{
    match e {
        ExprView::Assignment { identifier, value } => identifier.lexeme + " = "@ + expression_text(*value),
        ExprView::Equality { left, operator, right } => "("@ + expression_text(*left) + " "@
            + operator.lexeme + " "@ + expression_text(*right) + ")"@,
        ExprView::Comparison { left, operator, right } => "("@ + expression_text(*left) + " "@
            + operator.lexeme + " "@ + expression_text(*right) + ")"@,
        ExprView::Term { left, operator, right } => "("@ + expression_text(*left) + " "@ + operator.lexeme
            + " "@ + expression_text(*right) + ")"@,
        ExprView::Factor { left, operator, right } => "("@ + expression_text(*left) + " "@ + operator.lexeme
            + " "@ + expression_text(*right) + ")"@,
        ExprView::Unary { operator, right } => "("@ + operator.lexeme + expression_text(*right) + ")"@,
        ExprView::Primary { value } => value.lexeme,
        ExprView::IfExpression { condition, then_branch, else_branch } => "if "@ + expression_text(*condition)
            + " then "@ + expression_text(*then_branch) + " else "@ + expression_text(*else_branch),
        ExprView::And { left, right } => "("@ + expression_text(*left) + " and "@ + expression_text(*right)
            + ")"@,
        ExprView::Or { left, right } => "("@ + expression_text(*left) + " or "@ + expression_text(*right)
            + ")"@,
        ExprView::Call { identifier, arguments } => expressions_text(
            arguments,
            0,
            expression_text(*identifier) + "("@,
        ) + ")"@,
        ExprView::List { values } => expressions_text(values, 0, "["@) + "]"@,
        ExprView::Index { list, expression } => expression_text(*list) + "["@ + expression_text(*expression)
            + "]"@,
        ExprView::Record { key_values } => entries_text(key_values, 0, "{ "@) + " }"@,
        ExprView::MapIndex { map, key } => expression_text(*map) + "."@ + key.lexeme,
        ExprView::MapIndexAssignment { map, key, value } => expression_text(*map) + "."@ + key.lexeme
            + " = "@ + expression_text(*value),
        ExprView::IndexAssignment { list, expression, value } => expression_text(*list) + "["@
            + expression_text(*expression) + "] = "@ + expression_text(*value),
    }
}

/// What stands between two items of a list: nothing before the first.
pub open spec fn comma(i: int) -> Seq<char> {
    if i > 0 {
        ", "@
    } else {
        Seq::empty()
    }
}

/// `done`, followed by the texts of the expressions from place `i` on, with
/// `, ` between them.
pub open spec fn expressions_text(es: Seq<ExprView>, i: int, done: Seq<char>) -> Seq<char>
    decreases es, es.len() - i,
{
    if 0 <= i < es.len() {
        expressions_text(es, i + 1, done + comma(i) + expression_text(es[i]))
    } else {
        done
    }
}

/// `done`, followed by the entries of a record from place `i` on, each as
/// `name:value,`, with `, ` between them.
pub open spec fn entries_text(entries: Seq<(TokenView, ExprView)>, i: int, done: Seq<char>) -> Seq<char>
    decreases entries, entries.len() - i,
{
    if 0 <= i < entries.len() {
        entries_text(
            entries,
            i + 1,
            done + comma(i) + entries[i].0.lexeme + ":"@ + expression_text(entries[i].1) + ","@,
        )
    } else {
        done
    }
}

/// `done`, followed by the names from place `i` on, with `,` between them.
pub open spec fn names_text(names: Seq<TokenView>, i: int, done: Seq<char>) -> Seq<char>
    decreases names.len() - i,
{
    if 0 <= i < names.len() {
        names_text(
            names,
            i + 1,
            done + (if i > 0 {
                ","@
            } else {
                Seq::empty()
            }) + names[i].lexeme,
        )
    } else {
        done
    }
}

/// The text of a statement.
pub open spec fn statement_text(s: StmtView) -> Seq<char>
    decreases s, 1nat,
{
    match s {
        StmtView::ExpressionStatement { expression } => expression_text(expression),
        StmtView::PrintStatement { expression } => "print ("@ + expression_text(expression) + ")"@,
        StmtView::VariableDeclaration { identifier, expression } => match expression {
            Some(e) => "make "@ + identifier.lexeme + " = "@ + expression_text(e),
            None => "make "@ + identifier.lexeme,
        },
        StmtView::Block { statements } => block_text(statements, 0, "(\n"@) + ")"@,
        StmtView::IfStatement { condition, then_branch, else_branch } => match else_branch {
            Some(other) => "if "@ + expression_text(condition) + " then "@ + statement_text(*then_branch)
                + " else "@ + statement_text(*other),
            None => "if "@ + expression_text(condition) + " then "@ + statement_text(*then_branch),
        },
        StmtView::WhileStatement { condition, body } => "while ("@ + expression_text(condition) + ") do "@
            + statement_text(*body),
        StmtView::FunctionDeclaration { identifier, parameters, body } => names_text(
            parameters,
            0,
            "funk "@ + identifier.lexeme + " ("@,
        ) + ") "@ + statement_text(*body),
        StmtView::Return { value } => match value {
            Some(e) => "return ("@ + expression_text(e) + ")"@,
            None => "return ()"@,
        },
        StmtView::With { value, identifier, body } => "with "@ + expression_text(value) + " as ("@
            + identifier.lexeme + ") "@ + statement_text(*body),
        StmtView::For { identifier, iter, body } => "for "@ + identifier.lexeme + " in "@ + expression_text(
            iter,
        ) + " "@ + statement_text(*body),
    }
}

/// `done`, followed by the statements of a block from place `i` on, each
/// behind a tab and before a line break.
pub open spec fn block_text(ss: Seq<StmtView>, i: int, done: Seq<char>) -> Seq<char>
    decreases ss, ss.len() - i,
{
    if 0 <= i < ss.len() {
        block_text(ss, i + 1, done + "\t"@ + statement_text(ss[i]) + "\n"@)
    } else {
        done
    }
}

/// `done`, followed by the statements of a program from place `i` on, each
/// before a line break.
pub open spec fn program_text(ss: Seq<StmtView>, i: int, done: Seq<char>) -> Seq<char>
    decreases ss.len() - i,
{
    if 0 <= i < ss.len() {
        program_text(ss, i + 1, done + statement_text(ss[i]) + "\n"@)
    } else {
        done
    }
}

/// The pass that writes the tree as text.
pub struct AstPrinter {}

impl AstPrinter {
    /// A printer. It keeps no state.
    pub fn new() -> (printer: Self)
        ensures
            printer == (AstPrinter {  }),
    {
        AstPrinter {  }
    }

    /// The text of a program: each statement on a line of its own.
    pub fn print(&mut self, statements: &Vec<Statement>) -> (text: String)
        ensures
            text@ == program_text(statement_views(statements@), 0, Seq::empty()),
    {
        let ghost views = statement_views(statements@);
        let mut text = String::new();
        let mut i: usize = 0;
        while i < statements.len()
            invariant
                i <= statements@.len(),
                views == statement_views(statements@),
                program_text(views, 0, Seq::empty()) == program_text(views, i as int, text@),
            decreases statements@.len() - i,
        {
            let line = self.statement(&statements[i]);
            text.append(line.as_str());
            text.append("\n");
            i = i + 1;
        }
        text
    }

    fn statement(&self, statement: &Statement) -> (text: String)
        ensures
            text@ == statement_text(statement@),
        decreases statement, 1nat,
    {
        proof {
            lemma_statement_node_view(*statement);
        }
        match statement {
            Statement::ExpressionStatement(n) => self.visit_expression_statement(n),
            Statement::PrintStatement(n) => self.visit_print_statement(n),
            Statement::VariableDeclaration(n) => self.visit_variable_declaration(n),
            Statement::Block(n) => self.visit_block(n),
            Statement::IfStatement(n) => self.visit_if_statement(n),
            Statement::WhileStatement(n) => self.visit_while_statement(n),
            Statement::FunctionDeclaration(n) => self.visit_function_declaration(n),
            Statement::Return(n) => self.visit_return(n),
            Statement::With(n) => self.visit_with_statement(n),
            Statement::For(n) => self.visit_for_statement(n),
        }
    }

    fn expression(&self, expression: &Expression) -> (text: String)
        ensures
            text@ == expression_text(expression@),
        decreases expression, 1nat,
    {
        proof {
            lemma_node_view(*expression);
        }
        match expression {
            Expression::Assignment(n) => self.visit_assignment(n),
            Expression::Equality(n) => self.visit_equality(n),
            Expression::Comparison(n) => self.visit_comparison(n),
            Expression::Term(n) => self.visit_term(n),
            Expression::Factor(n) => self.visit_factor(n),
            Expression::Unary(n) => self.visit_unary(n),
            Expression::Primary(n) => self.visit_primary(n),
            Expression::IfExpression(n) => self.visit_if_expression(n),
            Expression::And(n) => self.visit_and(n),
            Expression::Or(n) => self.visit_or(n),
            Expression::Call(n) => self.visit_call(n),
            Expression::List(n) => self.visit_list(n),
            Expression::Index(n) => self.visit_index(n),
            Expression::Record(n) => self.visit_record(n),
            Expression::MapIndex(n) => self.visit_map_index(n),
            Expression::MapIndexAssignment(n) => self.visit_map_index_assignment(n),
            Expression::IndexAssignment(n) => self.visit_index_assignment(n),
        }
    }

    /// `(` and a line break, followed by the statements, each behind a tab
    /// and before a line break.
    fn block(&self, statements: &Vec<Statement>) -> (text: String)
        ensures
            text@ == block_text(statement_views(statements@), 0, "(\n"@),
        decreases statements, 2nat,
    {
        let ghost views = statement_views(statements@);
        let mut text = String::from_str("(\n");
        let mut i: usize = 0;
        while i < statements.len()
            invariant
                i <= statements@.len(),
                views == statement_views(statements@),
                block_text(views, 0, "(\n"@) == block_text(views, i as int, text@),
            decreases statements@.len() - i,
        {
            proof {
                vstd::std_specs::vec::axiom_vec_index_decreases(*statements, i as int);
            }
            text.append("\t");
            text.append(self.statement(&statements[i]).as_str());
            text.append("\n");
            i = i + 1;
        }
        text
    }

    /// `{ `, followed by the entries as `name:value,` with `, ` between them.
    fn entries(&self, entries: &Vec<(Token, Expression)>) -> (text: String)
        ensures
            text@ == entries_text(entry_views(entries@), 0, "{ "@),
        decreases entries, 2nat,
    {
        let ghost views = entry_views(entries@);
        let mut text = String::from_str("{ ");
        let mut i: usize = 0;
        while i < entries.len()
            invariant
                i <= entries@.len(),
                views == entry_views(entries@),
                entries_text(views, 0, "{ "@) == entries_text(views, i as int, text@),
            decreases entries@.len() - i,
        {
            proof {
                vstd::std_specs::vec::axiom_vec_index_decreases(*entries, i as int);
            }
            if i > 0 {
                text.append(", ");
            }
            text.append(entries[i].0.lexeme.as_str());
            text.append(":");
            text.append(self.expression(&entries[i].1).as_str());
            text.append(",");
            i = i + 1;
        }
        text
    }

    /// `open`, followed by the texts of the expressions with `, ` between
    /// them.
    fn expressions(&self, expressions: &Vec<Expression>, open: String) -> (text: String)
        ensures
            text@ == expressions_text(expression_views(expressions@), 0, open@),
        decreases expressions, 2nat,
    {
        let ghost views = expression_views(expressions@);
        let mut text = open;
        let mut i: usize = 0;
        while i < expressions.len()
            invariant
                i <= expressions@.len(),
                views == expression_views(expressions@),
                expressions_text(views, 0, open@) == expressions_text(views, i as int, text@),
            decreases expressions@.len() - i,
        {
            proof {
                vstd::std_specs::vec::axiom_vec_index_decreases(*expressions, i as int);
            }
            if i > 0 {
                text.append(", ");
            }
            text.append(self.expression(&expressions[i]).as_str());
            i = i + 1;
        }
        text
    }

    fn visit_assignment(&self, node: &Assignment) -> (text: String)
        ensures
            text@ == expression_text(node@),
        decreases node, 0nat,
    {
        let mut text = node.identifier.lexeme.clone();
        text.append(" = ");
        text.append(self.expression(&node.value).as_str());
        text
    }

    fn visit_equality(&self, node: &Equality) -> (text: String)
        ensures
            text@ == expression_text(node@),
        decreases node, 0nat,
    {
        let mut text = String::from_str("(");
        text.append(self.expression(&node.left).as_str());
        text.append(" ");
        text.append(node.operator.lexeme.as_str());
        text.append(" ");
        text.append(self.expression(&node.right).as_str());
        text.append(")");
        text
    }

    fn visit_comparison(&self, node: &Comparison) -> (text: String)
        ensures
            text@ == expression_text(node@),
        decreases node, 0nat,
    {
        let mut text = String::from_str("(");
        text.append(self.expression(&node.left).as_str());
        text.append(" ");
        text.append(node.operator.lexeme.as_str());
        text.append(" ");
        text.append(self.expression(&node.right).as_str());
        text.append(")");
        text
    }

    fn visit_term(&self, node: &Term) -> (text: String)
        ensures
            text@ == expression_text(node@),
        decreases node, 0nat,
    {
        let mut text = String::from_str("(");
        text.append(self.expression(&node.left).as_str());
        text.append(" ");
        text.append(node.operator.lexeme.as_str());
        text.append(" ");
        text.append(self.expression(&node.right).as_str());
        text.append(")");
        text
    }

    fn visit_factor(&self, node: &Factor) -> (text: String)
        ensures
            text@ == expression_text(node@),
        decreases node, 0nat,
    {
        let mut text = String::from_str("(");
        text.append(self.expression(&node.left).as_str());
        text.append(" ");
        text.append(node.operator.lexeme.as_str());
        text.append(" ");
        text.append(self.expression(&node.right).as_str());
        text.append(")");
        text
    }

    fn visit_unary(&self, node: &Unary) -> (text: String)
        ensures
            text@ == expression_text(node@),
        decreases node, 0nat,
    {
        let mut text = String::from_str("(");
        text.append(node.operator.lexeme.as_str());
        text.append(self.expression(&node.right).as_str());
        text.append(")");
        text
    }

    fn visit_primary(&self, node: &Primary) -> (text: String)
        ensures
            text@ == expression_text(node@),
        decreases node, 0nat,
    {
        node.value.lexeme.clone()
    }

    fn visit_if_expression(&self, node: &IfExpression) -> (text: String)
        ensures
            text@ == expression_text(node@),
        decreases node, 0nat,
    {
        let mut text = String::from_str("if ");
        text.append(self.expression(&node.condition).as_str());
        text.append(" then ");
        text.append(self.expression(&node.then_branch).as_str());
        text.append(" else ");
        text.append(self.expression(&node.else_branch).as_str());
        text
    }

    fn visit_and(&self, node: &And) -> (text: String)
        ensures
            text@ == expression_text(node@),
        decreases node, 0nat,
    {
        let mut text = String::from_str("(");
        text.append(self.expression(&node.left).as_str());
        text.append(" and ");
        text.append(self.expression(&node.right).as_str());
        text.append(")");
        text
    }

    fn visit_or(&self, node: &Or) -> (text: String)
        ensures
            text@ == expression_text(node@),
        decreases node, 0nat,
    {
        let mut text = String::from_str("(");
        text.append(self.expression(&node.left).as_str());
        text.append(" or ");
        text.append(self.expression(&node.right).as_str());
        text.append(")");
        text
    }

    fn visit_call(&self, node: &Call) -> (text: String)
        ensures
            text@ == expression_text(node@),
        decreases node, 0nat,
    {
        let mut open = self.expression(&node.identifier);
        open.append("(");
        let mut text = self.expressions(&node.arguments, open);
        text.append(")");
        text
    }

    fn visit_list(&self, node: &List) -> (text: String)
        ensures
            text@ == expression_text(node@),
        decreases node, 0nat,
    {
        let mut text = self.expressions(&node.values, String::from_str("["));
        text.append("]");
        text
    }

    fn visit_index(&self, node: &Index) -> (text: String)
        ensures
            text@ == expression_text(node@),
        decreases node, 0nat,
    {
        let mut text = self.expression(&node.list);
        text.append("[");
        text.append(self.expression(&node.expression).as_str());
        text.append("]");
        text
    }

    fn visit_record(&self, node: &Record) -> (text: String)
        ensures
            text@ == expression_text(node@),
        decreases node, 0nat,
    {
        let mut text = self.entries(&node.key_values);
        text.append(" }");
        text
    }

    fn visit_map_index(&self, node: &MapIndex) -> (text: String)
        ensures
            text@ == expression_text(node@),
        decreases node, 0nat,
    {
        let mut text = self.expression(&node.map);
        text.append(".");
        text.append(node.key.lexeme.as_str());
        text
    }

    fn visit_map_index_assignment(&self, node: &MapIndexAssignment) -> (text: String)
        ensures
            text@ == expression_text(node@),
        decreases node, 0nat,
    {
        let mut text = self.expression(&node.map);
        text.append(".");
        text.append(node.key.lexeme.as_str());
        text.append(" = ");
        text.append(self.expression(&node.value).as_str());
        text
    }

    fn visit_index_assignment(&self, node: &IndexAssignment) -> (text: String)
        ensures
            text@ == expression_text(node@),
        decreases node, 0nat,
    {
        let mut text = self.expression(&node.list);
        text.append("[");
        text.append(self.expression(&node.expression).as_str());
        text.append("] = ");
        text.append(self.expression(&node.value).as_str());
        text
    }

    fn visit_expression_statement(&self, node: &ExpressionStatement) -> (text: String)
        ensures
            text@ == statement_text(node@),
        decreases node, 0nat,
    {
        self.expression(&node.expression)
    }

    fn visit_print_statement(&self, node: &PrintStatement) -> (text: String)
        ensures
            text@ == statement_text(node@),
        decreases node, 0nat,
    {
        let mut text = String::from_str("print (");
        text.append(self.expression(&node.expression).as_str());
        text.append(")");
        text
    }

    fn visit_variable_declaration(&self, node: &VariableDeclaration) -> (text: String)
        ensures
            text@ == statement_text(node@),
        decreases node, 0nat,
    {
        let mut text = String::from_str("make ");
        text.append(node.identifier.lexeme.as_str());
        match &node.expression {
            Some(e) => {
                text.append(" = ");
                text.append(self.expression(e).as_str());
            },
            None => {},
        }
        text
    }

    fn visit_block(&self, node: &Block) -> (text: String)
        ensures
            text@ == statement_text(node@),
        decreases node, 0nat,
    {
        let mut text = self.block(&node.statements);
        text.append(")");
        text
    }

    fn visit_if_statement(&self, node: &IfStatement) -> (text: String)
        ensures
            text@ == statement_text(node@),
        decreases node, 0nat,
    {
        let mut text = String::from_str("if ");
        text.append(self.expression(&node.condition).as_str());
        text.append(" then ");
        text.append(self.statement(&node.then_branch).as_str());
        match &node.else_branch {
            Some(other) => {
                text.append(" else ");
                text.append(self.statement(other).as_str());
            },
            None => {},
        }
        text
    }

    fn visit_while_statement(&self, node: &WhileStatement) -> (text: String)
        ensures
            text@ == statement_text(node@),
        decreases node, 0nat,
    {
        let mut text = String::from_str("while (");
        text.append(self.expression(&node.condition).as_str());
        text.append(") do ");
        text.append(self.statement(&node.body).as_str());
        text
    }

    fn visit_function_declaration(&self, node: &FunctionDeclaration) -> (text: String)
        ensures
            text@ == statement_text(node@),
        decreases node, 0nat,
    {
        let ghost names = token_views(node.parameters@);
        let mut text = String::from_str("funk ");
        text.append(node.identifier.lexeme.as_str());
        text.append(" (");
        let ghost head = text@;
        let mut i: usize = 0;
        while i < node.parameters.len()
            invariant
                i <= node.parameters@.len(),
                names == token_views(node.parameters@),
                names_text(names, 0, head) == names_text(names, i as int, text@),
            decreases node.parameters@.len() - i,
        {
            if i > 0 {
                text.append(",");
            }
            text.append(node.parameters[i].lexeme.as_str());
            i = i + 1;
        }
        text.append(") ");
        text.append(self.statement(&node.body).as_str());
        text
    }

    fn visit_return(&self, node: &Return) -> (text: String)
        ensures
            text@ == statement_text(node@),
        decreases node, 0nat,
    {
        let mut text = String::from_str("return (");
        match &node.value {
            Some(e) => {
                text.append(self.expression(e).as_str());
            },
            None => {},
        }
        text.append(")");
        proof {
            if node.value is None {
                reveal_strlit("return (");
                reveal_strlit(")");
                reveal_strlit("return ()");
                assert(text@ =~= "return ()"@);
            }
        }
        text
    }

    fn visit_with_statement(&self, node: &With) -> (text: String)
        ensures
            text@ == statement_text(node@),
        decreases node, 0nat,
    {
        let mut text = String::from_str("with ");
        text.append(self.expression(&node.value).as_str());
        text.append(" as (");
        text.append(node.identifier.lexeme.as_str());
        text.append(") ");
        text.append(self.statement(&node.body).as_str());
        text
    }

    fn visit_for_statement(&self, node: &For) -> (text: String)
        ensures
            text@ == statement_text(node@),
        decreases node, 0nat,
    {
        let mut text = String::from_str("for ");
        text.append(node.identifier.lexeme.as_str());
        text.append(" in ");
        text.append(self.expression(&node.iter).as_str());
        text.append(" ");
        text.append(self.statement(&node.body).as_str());
        text
    }
}

/// The printer as a pass: each handler gives the text of its node.
impl<'a> Visitor<'a> for AstPrinter {
    type Output = String;

    open spec fn visits(&self, node: NodeView, after: &Self, output: String) -> bool {
        match node {
            NodeView::Expression(e) => output@ == expression_text(e),
            NodeView::Statement(s) => output@ == statement_text(s),
        }
    }

    fn visit_assignment(&mut self, node: &'a Assignment) -> (output: String) {
        AstPrinter::visit_assignment(self, node)
    }

    fn visit_equality(&mut self, node: &'a Equality) -> (output: String) {
        AstPrinter::visit_equality(self, node)
    }

    fn visit_comparison(&mut self, node: &'a Comparison) -> (output: String) {
        AstPrinter::visit_comparison(self, node)
    }

    fn visit_term(&mut self, node: &'a Term) -> (output: String) {
        AstPrinter::visit_term(self, node)
    }

    fn visit_factor(&mut self, node: &'a Factor) -> (output: String) {
        AstPrinter::visit_factor(self, node)
    }

    fn visit_unary(&mut self, node: &'a Unary) -> (output: String) {
        AstPrinter::visit_unary(self, node)
    }

    fn visit_primary(&mut self, node: &'a Primary) -> (output: String) {
        AstPrinter::visit_primary(self, node)
    }

    fn visit_if_expression(&mut self, node: &'a IfExpression) -> (output: String) {
        AstPrinter::visit_if_expression(self, node)
    }

    fn visit_and(&mut self, node: &'a And) -> (output: String) {
        AstPrinter::visit_and(self, node)
    }

    fn visit_or(&mut self, node: &'a Or) -> (output: String) {
        AstPrinter::visit_or(self, node)
    }

    fn visit_call(&mut self, node: &'a Call) -> (output: String) {
        AstPrinter::visit_call(self, node)
    }

    fn visit_list(&mut self, node: &'a List) -> (output: String) {
        AstPrinter::visit_list(self, node)
    }

    fn visit_index(&mut self, node: &'a Index) -> (output: String) {
        AstPrinter::visit_index(self, node)
    }

    fn visit_record(&mut self, node: &'a Record) -> (output: String) {
        AstPrinter::visit_record(self, node)
    }

    fn visit_map_index(&mut self, node: &'a MapIndex) -> (output: String) {
        AstPrinter::visit_map_index(self, node)
    }

    fn visit_map_index_assignment(&mut self, node: &'a MapIndexAssignment) -> (output: String) {
        AstPrinter::visit_map_index_assignment(self, node)
    }

    fn visit_index_assignment(&mut self, node: &'a IndexAssignment) -> (output: String) {
        AstPrinter::visit_index_assignment(self, node)
    }

    fn visit_expression_statement(&mut self, node: &'a ExpressionStatement) -> (output: String) {
        AstPrinter::visit_expression_statement(self, node)
    }

    fn visit_print_statement(&mut self, node: &'a PrintStatement) -> (output: String) {
        AstPrinter::visit_print_statement(self, node)
    }

    fn visit_variable_declaration(&mut self, node: &'a VariableDeclaration) -> (output: String) {
        AstPrinter::visit_variable_declaration(self, node)
    }

    fn visit_block(&mut self, node: &'a Block) -> (output: String) {
        AstPrinter::visit_block(self, node)
    }

    fn visit_if_statement(&mut self, node: &'a IfStatement) -> (output: String) {
        AstPrinter::visit_if_statement(self, node)
    }

    fn visit_while_statement(&mut self, node: &'a WhileStatement) -> (output: String) {
        AstPrinter::visit_while_statement(self, node)
    }

    fn visit_function_declaration(&mut self, node: &'a FunctionDeclaration) -> (output: String) {
        AstPrinter::visit_function_declaration(self, node)
    }

    fn visit_return(&mut self, node: &'a Return) -> (output: String) {
        AstPrinter::visit_return(self, node)
    }

    fn visit_with_statement(&mut self, node: &'a With) -> (output: String) {
        AstPrinter::visit_with_statement(self, node)
    }

    fn visit_for_statement(&mut self, node: &'a For) -> (output: String) {
        AstPrinter::visit_for_statement(self, node)
    }
}

} // verus!
