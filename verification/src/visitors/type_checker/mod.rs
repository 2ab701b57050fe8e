//! The type checker: one pass over the tree that gives every node a type and
//! stops at the first violation of the rules in [`rules`].
use vstd::prelude::*;
use vstd::string::StringExecFns;
use crate::parser::expression::{
    And, Assignment, Call, Comparison, Equality, Expression, Factor, IfExpression, Index,
    IndexAssignment, List, MapIndex, MapIndexAssignment, Or, Primary, Record, Term, Unary,
    entry_views, expression_views, lemma_node_view,
};
use crate::parser::statement::{
    Block, ExpressionStatement, For, FunctionDeclaration, IfStatement, PrintStatement, Return,
    Statement, VariableDeclaration, WhileStatement, With, lemma_statement_node_view,
    statement_views,
};
use crate::visitors::{NodeView, Visitor};
use crate::token::{Token, TokenType, token_views};
use crate::visitors::environment::Environment;

pub mod rules;
pub mod scoping;
pub mod types;

use rules::{CheckerView, TypeError, TypeErrorKind};
use types::Type;

verus! {

/// The checker: the scopes with the types they bind, and the current scope.
pub struct TypeChecker {
    environment: Environment<Type>,
    scope: usize,
}

impl View for TypeChecker {
    type V = CheckerView;

    closed spec fn view(&self) -> CheckerView {
        CheckerView { scopes: self.environment@, scope: self.scope as int }
    }
}

/// What a rule must leave behind: the expected type and state, or the
/// expected violation.
pub open spec fn checked(
    after: TypeChecker,
    result: Result<Type, TypeError>,
    expected: Result<(Type, CheckerView), TypeError>,
) -> bool {
    match expected {
        Ok((t, st)) => result == Ok::<Type, TypeError>(t) && after@ == st,
        Err(e) => result == Err::<Type, TypeError>(e),
    }
}

/// The same for a rule over a run of trees, which has no type.
pub open spec fn checked_all(
    after: TypeChecker,
    result: Result<(), TypeError>,
    expected: Result<CheckerView, TypeError>,
) -> bool {
    match expected {
        Ok(st) => result is Ok && after@ == st,
        Err(e) => result == Err::<(), TypeError>(e),
    }
}

/// The names that every program may call, in the order of
/// [`rules::built_in_names`].
pub fn built_in_names() -> (names: Vec<String>)
    ensures
        names@.len() == rules::built_in_names().len(),
        forall|i: int| 0 <= i < names@.len() ==> (#[trigger] names@[i])@ == rules::built_in_names()[i],
{
    let mut names: Vec<String> = Vec::new();
    names.push(String::from_str("clock"));
    names.push(String::from_str("println"));
    names.push(String::from_str("input"));
    names.push(String::from_str("iter"));
    names.push(String::from_str("range_to"));
    names.push(String::from_str("range"));
    names.push(String::from_str("range_skip"));
    names.push(String::from_str("len"));
    names.push(String::from_str("push"));
    names.push(String::from_str("to_number"));
    names.push(String::from_str("type_of"));
    names
}

fn mismatch(operator: &Token) -> (e: TypeError)
    ensures
        e == rules::mismatch(operator@),
{
    TypeError { kind: TypeErrorKind::TypeMismatch, line: Some(operator.line) }
}

fn factor_type(left: Type, operator: &Token, right: Type) -> (result: Result<Type, TypeError>)
    ensures
        result == rules::factor_type(left, operator@, right),
{
    if left == Type::Unknown || right == Type::Unknown {
        Ok(Type::Unknown)
    } else if left == Type::Number && right == Type::Number {
        Ok(Type::Number)
    } else {
        Err(mismatch(operator))
    }
}

fn term_type(left: Type, operator: &Token, right: Type) -> (result: Result<Type, TypeError>)
    ensures
        result == rules::term_type(left, operator@, right),
{
    if left == Type::Unknown || right == Type::Unknown {
        Ok(Type::Unknown)
    } else if left == Type::Number && right == Type::Number {
        Ok(Type::Number)
    } else if left == Type::String && right == Type::String {
        Ok(Type::String)
    } else {
        Err(mismatch(operator))
    }
}

fn comparison_type(left: Type, operator: &Token, right: Type) -> (result: Result<Type, TypeError>)
    ensures
        result == rules::comparison_type(left, operator@, right),
{
    if left == Type::Unknown || right == Type::Unknown {
        Ok(Type::Boolean)
    } else if left == Type::Number && right == Type::Number {
        Ok(Type::Boolean)
    } else {
        Err(mismatch(operator))
    }
}

fn equality_type(left: Type, operator: &Token, right: Type) -> (result: Result<Type, TypeError>)
    ensures
        result == rules::equality_type(left, operator@, right),
{
    if left == Type::Unknown || right == Type::Unknown {
        Ok(Type::Boolean)
    } else if left == right {
        Ok(Type::Boolean)
    } else {
        Err(mismatch(operator))
    }
}

fn logical_type(left: Type, right: Type) -> (result: Result<Type, TypeError>)
    ensures
        result == rules::logical_type(left, right),
{
    if (left == Type::Boolean || left == Type::Unknown) && (right == Type::Boolean || right
        == Type::Unknown) {
        Ok(Type::Boolean)
    } else {
        Err(TypeError { kind: TypeErrorKind::TypeMismatch, line: None })
    }
}

fn unary_type(operator: &Token, right: Type) -> (result: Result<Type, TypeError>)
    ensures
        result == rules::unary_type(operator@, right),
{
    if operator.token_type == TokenType::Minus {
        if right == Type::Number {
            Ok(Type::Number)
        } else {
            Err(mismatch(operator))
        }
    } else if operator.token_type == TokenType::Bang {
        if right == Type::Boolean {
            Ok(Type::Boolean)
        } else {
            Err(mismatch(operator))
        }
    } else {
        Err(TypeError { kind: TypeErrorKind::UnexpectedToken, line: Some(operator.line) })
    }
}

impl TypeChecker {
    /// A checker in its initial state: every built-in name is a `Function`.
    pub fn new() -> (checker: Self)
        ensures
            checker@ == rules::initial_state(),
    {
        let mut environment: Environment<Type> = Environment::new();
        let names = built_in_names();
        let ghost all = rules::built_in_names();
        let ghost empty = environment@;
        let mut i: usize = 0;
        while i < names.len()
            invariant
                i <= names@.len(),
                names@.len() == all.len(),
                forall|k: int| 0 <= k < names@.len() ==> (#[trigger] names@[k])@ == all[k],
                environment@.len() == 1,
                environment@[0].enclosing is None,
                rules::declare_all(empty, all, 0, Type::Function) == rules::declare_all(
                    environment@,
                    all,
                    i as int,
                    Type::Function,
                ),
            decreases names@.len() - i,
        {
            environment.declare_global(0, names[i].clone(), Type::Function);
            i = i + 1;
        }
        TypeChecker { environment, scope: 0 }
    }

    /// Checks the statements in order. The state is that behind the last
    /// statement, or the result is the first violation.
    pub fn check(&mut self, statements: &Vec<Statement>) -> (result: Result<(), TypeError>)
        ensures
            checked_all(
                *final(self),
                result,
                rules::check_statements(old(self)@, statement_views(statements@), 0),
            ),
    {
        self.statements(statements)
    }

    fn statements(&mut self, statements: &Vec<Statement>) -> (result: Result<(), TypeError>)
        ensures
            checked_all(
                *final(self),
                result,
                rules::check_statements(old(self)@, statement_views(statements@), 0),
            ),
        decreases statements, 2nat,
    {
        let ghost views = statement_views(statements@);
        let mut i: usize = 0;
        while i < statements.len()
            invariant
                i <= statements@.len(),
                views == statement_views(statements@),
                rules::check_statements(old(self)@, views, 0) == rules::check_statements(
                    self@,
                    views,
                    i as int,
                ),
            decreases statements@.len() - i,
        {
            proof {
                reveal(rules::check_statements);
                reveal(rules::check_statement);
                vstd::std_specs::vec::axiom_vec_index_decreases(*statements, i as int);
            }
            match self.statement(&statements[i]) {
                Ok(_) => {},
                Err(e) => {
                    return Err(e);
                },
            }
            i = i + 1;
        }
        proof {
            reveal(rules::check_statements);
        }
        Ok(())
    }

    fn statement(&mut self, statement: &Statement) -> (result: Result<Type, TypeError>)
        ensures
            checked(*final(self), result, rules::check_statement(old(self)@, statement@)),
        decreases statement, 1nat,
    {
        proof {
            reveal(rules::check_statement);
            reveal(rules::check_block);
            reveal(rules::check_if_statement);
            reveal(rules::check_while_statement);
            reveal(rules::check_function_declaration);
            reveal(rules::check_with_statement);
            reveal(rules::check_for_statement);
            lemma_statement_node_view(*statement);
        }
        match statement {
            Statement::ExpressionStatement(n) => self.visit_expression_statement(n),
            Statement::PrintStatement(n) => self.visit_print_statement(n),
            Statement::VariableDeclaration(n) => self.visit_variable_declaration(n),
            Statement::Block(n) => self.visit_block(n),
            Statement::IfStatement(n) => self.visit_if_statement(n),
            Statement::WhileStatement(n) => self.visit_while_statement(n),
            Statement::FunctionDeclaration(n) => self.visit_function_declaration(n),
            Statement::Return(n) => self.visit_return(n),
            Statement::With(n) => self.visit_with_statement(n),
            Statement::For(n) => self.visit_for_statement(n),
        }
    }

    fn visit_expression_statement(&mut self, statement: &ExpressionStatement) -> (result: Result<
        Type,
        TypeError,
    >)
        ensures
            checked(*final(self), result, rules::check_statement(old(self)@, statement@)),
    {
        proof {
            reveal(rules::check_statement);
        }
        match self.expression(&statement.expression) {
            Ok(_) => Ok(Type::Nil),
            Err(e) => Err(e),
        }
    }

    fn visit_print_statement(&mut self, statement: &PrintStatement) -> (result: Result<Type, TypeError>)
        ensures
            checked(*final(self), result, rules::check_statement(old(self)@, statement@)),
    {
        proof {
            reveal(rules::check_statement);
        }
        match self.expression(&statement.expression) {
            Ok(_) => Ok(Type::Nil),
            Err(e) => Err(e),
        }
    }

    fn visit_variable_declaration(&mut self, declaration: &VariableDeclaration) -> (result: Result<
        Type,
        TypeError,
    >)
        ensures
            checked(*final(self), result, rules::check_statement(old(self)@, declaration@)),
    {
        proof {
            reveal(rules::check_statement);
        }
        let t = match &declaration.expression {
            Some(e) => match self.expression(e) {
                Ok(t) => t,
                Err(e) => {
                    return Err(e);
                },
            },
            None => Type::Nil,
        };
        self.environment.declare(self.scope, declaration.identifier.lexeme.clone(), t);
        Ok(Type::Nil)
    }

    fn visit_return(&mut self, statement: &Return) -> (result: Result<Type, TypeError>)
        ensures
            checked(*final(self), result, rules::check_statement(old(self)@, statement@)),
    {
        proof {
            reveal(rules::check_statement);
        }
        match &statement.value {
            Some(e) => self.expression(e),
            None => Ok(Type::Nil),
        }
    }

    /// Makes a new scope, enclosed by the current one, the current scope.
    fn enter(&mut self)
        ensures
            final(self)@ == rules::enter(old(self)@),
    {
        self.scope = self.environment.enclose(self.scope);
    }

    fn visit_block(&mut self, block: &Block) -> (result: Result<Type, TypeError>)
        ensures
            checked(*final(self), result, rules::check_block(old(self)@, block@)),
        decreases block, 0nat,
    {
        proof {
            reveal(rules::check_block);
            reveal(rules::check_statements);
        }
        let entry = self.scope;
        self.enter();
        match self.statements(&block.statements) {
            Ok(()) => {},
            Err(e) => {
                return Err(e);
            },
        }
        self.scope = entry;
        Ok(Type::Nil)
    }

    fn visit_if_statement(&mut self, if_statement: &IfStatement) -> (result: Result<Type, TypeError>)
        ensures
            checked(*final(self), result, rules::check_if_statement(old(self)@, if_statement@)),
        decreases if_statement, 0nat,
    {
        proof {
            reveal(rules::check_if_statement);
            reveal(rules::check_statement);
        }
        let condition = match self.expression(&if_statement.condition) {
            Ok(t) => t,
            Err(e) => {
                return Err(e);
            },
        };
        if condition != Type::Boolean {
            return Err(TypeError { kind: TypeErrorKind::NonBooleanCondition, line: None });
        }
        let then_type = match self.statement(&if_statement.then_branch) {
            Ok(t) => t,
            Err(e) => {
                return Err(e);
            },
        };
        if then_type != Type::Nil {
            return Err(TypeError { kind: TypeErrorKind::NonNilBody, line: None });
        }
        match &if_statement.else_branch {
            Some(else_branch) => {
                let else_type = match self.statement(else_branch) {
                    Ok(t) => t,
                    Err(e) => {
                        return Err(e);
                    },
                };
                if else_type != Type::Nil {
                    return Err(TypeError { kind: TypeErrorKind::NonNilBody, line: None });
                }
            },
            None => {},
        }
        Ok(Type::Nil)
    }

    fn visit_while_statement(&mut self, while_statement: &WhileStatement) -> (result: Result<
        Type,
        TypeError,
    >)
        ensures
            checked(*final(self), result, rules::check_while_statement(old(self)@, while_statement@)),
        decreases while_statement, 0nat,
    {
        proof {
            reveal(rules::check_while_statement);
            reveal(rules::check_statement);
        }
        let condition = match self.expression(&while_statement.condition) {
            Ok(t) => t,
            Err(e) => {
                return Err(e);
            },
        };
        if condition != Type::Boolean {
            return Err(TypeError { kind: TypeErrorKind::NonBooleanCondition, line: None });
        }
        let body = match self.statement(&while_statement.body) {
            Ok(t) => t,
            Err(e) => {
                return Err(e);
            },
        };
        if body != Type::Nil {
            return Err(TypeError { kind: TypeErrorKind::NonNilBody, line: None });
        }
        Ok(Type::Nil)
    }

    fn visit_function_declaration(&mut self, function_declaration: &FunctionDeclaration) -> (result: Result<
        Type,
        TypeError,
    >)
        ensures
            checked(
                *final(self),
                result,
                rules::check_function_declaration(old(self)@, function_declaration@),
            ),
        decreases function_declaration, 0nat,
    {
        proof {
            reveal(rules::check_function_declaration);
            reveal(rules::check_statement);
        }
        let entry = self.scope;
        self.environment.declare(self.scope, function_declaration.identifier.lexeme.clone(), Type::Function);
        self.enter();
        let ghost inside = self@;
        let ghost names = token_views(function_declaration.parameters@);
        let mut i: usize = 0;
        while i < function_declaration.parameters.len()
            invariant
                i <= function_declaration.parameters@.len(),
                names == token_views(function_declaration.parameters@),
                rules::bind_parameters(inside, names, 0) == rules::bind_parameters(self@, names, i as int),
            decreases function_declaration.parameters@.len() - i,
        {
            self.environment.declare(
                self.scope,
                function_declaration.parameters[i].lexeme.clone(),
                Type::Unknown,
            );
            i = i + 1;
        }
        match self.statement(&function_declaration.body) {
            Ok(_) => {},
            Err(e) => {
                return Err(e);
            },
        }
        self.scope = entry;
        Ok(Type::Nil)
    }

    fn visit_with_statement(&mut self, with_statement: &With) -> (result: Result<Type, TypeError>)
        ensures
            checked(*final(self), result, rules::check_with_statement(old(self)@, with_statement@)),
        decreases with_statement, 0nat,
    {
        proof {
            reveal(rules::check_with_statement);
            reveal(rules::check_statement);
        }
        if with_statement.identifier.token_type != TokenType::Identifier {
            return Err(
                TypeError { kind: TypeErrorKind::InvalidIdentifier, line: Some(with_statement.identifier.line) },
            );
        }
        let entry = self.scope;
        self.enter();
        let value = match self.expression(&with_statement.value) {
            Ok(t) => t,
            Err(e) => {
                return Err(e);
            },
        };
        self.environment.declare(self.scope, with_statement.identifier.lexeme.clone(), value);
        match self.statement(&with_statement.body) {
            Ok(_) => {},
            Err(e) => {
                return Err(e);
            },
        }
        self.scope = entry;
        Ok(Type::Nil)
    }

    fn visit_for_statement(&mut self, for_statement: &For) -> (result: Result<Type, TypeError>)
        ensures
            checked(*final(self), result, rules::check_for_statement(old(self)@, for_statement@)),
        decreases for_statement, 0nat,
    {
        proof {
            reveal(rules::check_for_statement);
            reveal(rules::check_statement);
        }
        if for_statement.identifier.token_type != TokenType::Identifier {
            return Err(
                TypeError { kind: TypeErrorKind::InvalidIdentifier, line: Some(for_statement.identifier.line) },
            );
        }
        let entry = self.scope;
        let iter = match self.expression(&for_statement.iter) {
            Ok(t) => t,
            Err(e) => {
                return Err(e);
            },
        };
        if iter != Type::Unknown {
            return Err(
                TypeError { kind: TypeErrorKind::InvalidIterator, line: Some(for_statement.identifier.line) },
            );
        }
        self.enter();
        self.environment.declare(self.scope, for_statement.identifier.lexeme.clone(), iter);
        match self.statement(&for_statement.body) {
            Ok(_) => {},
            Err(e) => {
                return Err(e);
            },
        }
        self.scope = entry;
        Ok(Type::Nil)
    }

    fn expression(&mut self, expression: &Expression) -> (result: Result<Type, TypeError>)
        ensures
            checked(*final(self), result, rules::check_expression(old(self)@, expression@)),
        decreases expression, 1nat,
    {
        proof {
            reveal(rules::check_expression);
            reveal(rules::check_equality);
            reveal(rules::check_assignment);
            reveal(rules::check_if_expression);
            reveal(rules::check_comparison);
            reveal(rules::check_term);
            reveal(rules::check_factor);
            reveal(rules::check_unary);
            reveal(rules::check_or);
            reveal(rules::check_and);
            reveal(rules::check_call);
            reveal(rules::check_list);
            reveal(rules::check_index);
            reveal(rules::check_record);
            reveal(rules::check_map_index);
            reveal(rules::check_map_index_assignment);
            reveal(rules::check_index_assignment);
            lemma_node_view(*expression);
        }
        match expression {
            Expression::Equality(n) => self.visit_equality(n),
            Expression::Assignment(n) => self.visit_assignment(n),
            Expression::IfExpression(n) => self.visit_if_expression(n),
            Expression::Comparison(n) => self.visit_comparison(n),
            Expression::Term(n) => self.visit_term(n),
            Expression::Factor(n) => self.visit_factor(n),
            Expression::Unary(n) => self.visit_unary(n),
            Expression::Primary(n) => self.visit_primary(n),
            Expression::Or(n) => self.visit_or(n),
            Expression::And(n) => self.visit_and(n),
            Expression::Call(n) => self.visit_call(n),
            Expression::List(n) => self.visit_list(n),
            Expression::Index(n) => self.visit_index(n),
            Expression::Record(n) => self.visit_record(n),
            Expression::MapIndex(n) => self.visit_map_index(n),
            Expression::MapIndexAssignment(n) => self.visit_map_index_assignment(n),
            Expression::IndexAssignment(n) => self.visit_index_assignment(n),
        }
    }

    fn expressions(&mut self, expressions: &Vec<Expression>) -> (result: Result<(), TypeError>)
        ensures
            checked_all(*final(self), result, rules::check_all(old(self)@, expression_views(expressions@), 0)),
        decreases expressions, 2nat,
    {
        let ghost views = expression_views(expressions@);
        let mut i: usize = 0;
        while i < expressions.len()
            invariant
                i <= expressions@.len(),
                views == expression_views(expressions@),
                rules::check_all(old(self)@, views, 0) == rules::check_all(self@, views, i as int),
            decreases expressions@.len() - i,
        {
            proof {
                reveal(rules::check_all);
                reveal(rules::check_expression);
                vstd::std_specs::vec::axiom_vec_index_decreases(*expressions, i as int);
            }
            match self.expression(&expressions[i]) {
                Ok(_) => {},
                Err(e) => {
                    return Err(e);
                },
            }
            i = i + 1;
        }
        proof {
            reveal(rules::check_all);
        }
        Ok(())
    }

    fn visit_primary(&mut self, primary: &Primary) -> (result: Result<Type, TypeError>)
        ensures
            checked(*final(self), result, rules::check_primary(old(self)@, primary@)),
    {
        match primary.value.token_type {
            TokenType::Number => Ok(Type::Number),
            TokenType::Boolean => Ok(Type::Boolean),
            TokenType::String => Ok(Type::String),
            TokenType::Nil => Ok(Type::Nil),
            TokenType::Identifier => match self.environment.get(self.scope, &primary.value.lexeme) {
                Ok(t) => Ok(t),
                Err(_) => Err(
                    TypeError { kind: TypeErrorKind::UndefinedVariable, line: Some(primary.value.line) },
                ),
            },
            _ => Err(TypeError { kind: TypeErrorKind::UnexpectedToken, line: Some(primary.value.line) }),
        }
    }

    fn visit_unary(&mut self, unary: &Unary) -> (result: Result<Type, TypeError>)
        ensures
            checked(*final(self), result, rules::check_unary(old(self)@, unary@)),
        decreases unary, 0nat,
    {
        proof {
            reveal(rules::check_unary);
            reveal(rules::check_expression);
        }
        let right = match self.expression(&unary.right) {
            Ok(t) => t,
            Err(e) => {
                return Err(e);
            },
        };
        unary_type(&unary.operator, right)
    }

    fn visit_factor(&mut self, factor: &Factor) -> (result: Result<Type, TypeError>)
        ensures
            checked(*final(self), result, rules::check_factor(old(self)@, factor@)),
        decreases factor, 0nat,
    {
        proof {
            reveal(rules::check_factor);
            reveal(rules::check_expression);
        }
        let left = match self.expression(&factor.left) {
            Ok(t) => t,
            Err(e) => {
                return Err(e);
            },
        };
        let right = match self.expression(&factor.right) {
            Ok(t) => t,
            Err(e) => {
                return Err(e);
            },
        };
        factor_type(left, &factor.operator, right)
    }

    fn visit_term(&mut self, term: &Term) -> (result: Result<Type, TypeError>)
        ensures
            checked(*final(self), result, rules::check_term(old(self)@, term@)),
        decreases term, 0nat,
    {
        proof {
            reveal(rules::check_term);
            reveal(rules::check_expression);
        }
        let left = match self.expression(&term.left) {
            Ok(t) => t,
            Err(e) => {
                return Err(e);
            },
        };
        let right = match self.expression(&term.right) {
            Ok(t) => t,
            Err(e) => {
                return Err(e);
            },
        };
        term_type(left, &term.operator, right)
    }

    fn visit_comparison(&mut self, comparison: &Comparison) -> (result: Result<Type, TypeError>)
        ensures
            checked(*final(self), result, rules::check_comparison(old(self)@, comparison@)),
        decreases comparison, 0nat,
    {
        proof {
            reveal(rules::check_comparison);
            reveal(rules::check_expression);
        }
        let left = match self.expression(&comparison.left) {
            Ok(t) => t,
            Err(e) => {
                return Err(e);
            },
        };
        let right = match self.expression(&comparison.right) {
            Ok(t) => t,
            Err(e) => {
                return Err(e);
            },
        };
        comparison_type(left, &comparison.operator, right)
    }

    fn visit_equality(&mut self, equality: &Equality) -> (result: Result<Type, TypeError>)
        ensures
            checked(*final(self), result, rules::check_equality(old(self)@, equality@)),
        decreases equality, 0nat,
    {
        proof {
            reveal(rules::check_equality);
            reveal(rules::check_expression);
        }
        let left = match self.expression(&equality.left) {
            Ok(t) => t,
            Err(e) => {
                return Err(e);
            },
        };
        let right = match self.expression(&equality.right) {
            Ok(t) => t,
            Err(e) => {
                return Err(e);
            },
        };
        equality_type(left, &equality.operator, right)
    }

    fn visit_and(&mut self, and: &And) -> (result: Result<Type, TypeError>)
        ensures
            checked(*final(self), result, rules::check_and(old(self)@, and@)),
        decreases and, 0nat,
    {
        proof {
            reveal(rules::check_and);
            reveal(rules::check_expression);
        }
        let left = match self.expression(&and.left) {
            Ok(t) => t,
            Err(e) => {
                return Err(e);
            },
        };
        let right = match self.expression(&and.right) {
            Ok(t) => t,
            Err(e) => {
                return Err(e);
            },
        };
        logical_type(left, right)
    }

    fn visit_or(&mut self, or: &Or) -> (result: Result<Type, TypeError>)
        ensures
            checked(*final(self), result, rules::check_or(old(self)@, or@)),
        decreases or, 0nat,
    {
        proof {
            reveal(rules::check_or);
            reveal(rules::check_expression);
        }
        let left = match self.expression(&or.left) {
            Ok(t) => t,
            Err(e) => {
                return Err(e);
            },
        };
        let right = match self.expression(&or.right) {
            Ok(t) => t,
            Err(e) => {
                return Err(e);
            },
        };
        logical_type(left, right)
    }

    fn visit_assignment(&mut self, assignment: &Assignment) -> (result: Result<Type, TypeError>)
        ensures
            checked(*final(self), result, rules::check_assignment(old(self)@, assignment@)),
        decreases assignment, 0nat,
    {
        proof {
            reveal(rules::check_assignment);
            reveal(rules::check_expression);
        }
        let value = match self.expression(&assignment.value) {
            Ok(t) => t,
            Err(e) => {
                return Err(e);
            },
        };
        match self.environment.assign(self.scope, &assignment.identifier.lexeme, value) {
            Ok(()) => Ok(value),
            Err(_) => Err(
                TypeError { kind: TypeErrorKind::UndefinedVariable, line: Some(assignment.identifier.line) },
            ),
        }
    }

    fn visit_if_expression(&mut self, if_expression: &IfExpression) -> (result: Result<Type, TypeError>)
        ensures
            checked(*final(self), result, rules::check_if_expression(old(self)@, if_expression@)),
        decreases if_expression, 0nat,
    {
        proof {
            reveal(rules::check_if_expression);
            reveal(rules::check_expression);
        }
        let condition = match self.expression(&if_expression.condition) {
            Ok(t) => t,
            Err(e) => {
                return Err(e);
            },
        };
        if condition != Type::Boolean {
            return Err(TypeError { kind: TypeErrorKind::NonBooleanCondition, line: None });
        }
        match self.expression(&if_expression.then_branch) {
            Ok(_) => {},
            Err(e) => {
                return Err(e);
            },
        }
        match self.expression(&if_expression.else_branch) {
            Ok(_) => {},
            Err(e) => {
                return Err(e);
            },
        }
        Ok(Type::Unknown)
    }

    fn visit_call(&mut self, call: &Call) -> (result: Result<Type, TypeError>)
        ensures
            checked(*final(self), result, rules::check_call(old(self)@, call@)),
        decreases call, 0nat,
    {
        proof {
            reveal(rules::check_call);
            reveal(rules::check_expression);
            reveal(rules::check_all);
        }
        let callee = match self.expression(&call.identifier) {
            Ok(t) => t,
            Err(e) => {
                return Err(e);
            },
        };
        if callee != Type::Function && callee != Type::Unknown {
            return Err(TypeError { kind: TypeErrorKind::NotCallable, line: None });
        }
        match self.expressions(&call.arguments) {
            Ok(()) => Ok(Type::Unknown),
            Err(e) => Err(e),
        }
    }

    fn visit_list(&mut self, list: &List) -> (result: Result<Type, TypeError>)
        ensures
            checked(*final(self), result, rules::check_list(old(self)@, list@)),
        decreases list, 0nat,
    {
        proof {
            reveal(rules::check_list);
            reveal(rules::check_all);
        }
        match self.expressions(&list.values) {
            Ok(()) => Ok(Type::List),
            Err(e) => Err(e),
        }
    }

    fn visit_record(&mut self, record: &Record) -> (result: Result<Type, TypeError>)
        ensures
            checked(*final(self), result, rules::check_record(old(self)@, record@)),
        decreases record, 0nat,
    {
        proof {
            reveal(rules::check_record);
            reveal(rules::check_entries);
        }
        let ghost views = entry_views(record.key_values@);
        let mut i: usize = 0;
        while i < record.key_values.len()
            invariant
                i <= record.key_values@.len(),
                views == entry_views(record.key_values@),
                rules::check_entries(old(self)@, views, 0) == rules::check_entries(self@, views, i as int),
            decreases record.key_values@.len() - i,
        {
            proof {
                reveal(rules::check_record);
                reveal(rules::check_entries);
                reveal(rules::check_expression);
                vstd::std_specs::vec::axiom_vec_index_decreases(record.key_values, i as int);
            }
            let entry = &record.key_values[i];
            if entry.0.token_type != TokenType::Identifier {
                return Err(TypeError { kind: TypeErrorKind::InvalidIdentifier, line: Some(entry.0.line) });
            }
            match self.expression(&entry.1) {
                Ok(_) => {},
                Err(e) => {
                    return Err(e);
                },
            }
            i = i + 1;
        }
        proof {
            reveal(rules::check_entries);
        }
        Ok(Type::Record)
    }

    fn visit_index(&mut self, index: &Index) -> (result: Result<Type, TypeError>)
        ensures
            checked(*final(self), result, rules::check_index(old(self)@, index@)),
        decreases index, 0nat,
    {
        proof {
            reveal(rules::check_index);
            reveal(rules::check_expression);
        }
        let list = match self.expression(&index.list) {
            Ok(t) => t,
            Err(e) => {
                return Err(e);
            },
        };
        if list != Type::List && list != Type::String && list != Type::Unknown {
            return Err(TypeError { kind: TypeErrorKind::NotIndexable, line: None });
        }
        let position = match self.expression(&index.expression) {
            Ok(t) => t,
            Err(e) => {
                return Err(e);
            },
        };
        if position != Type::Number && position != Type::Unknown {
            return Err(TypeError { kind: TypeErrorKind::InvalidIndex, line: None });
        }
        Ok(Type::Unknown)
    }

    fn visit_map_index(&mut self, map_index: &MapIndex) -> (result: Result<Type, TypeError>)
        ensures
            checked(*final(self), result, rules::check_map_index(old(self)@, map_index@)),
        decreases map_index, 0nat,
    {
        proof {
            reveal(rules::check_map_index);
            reveal(rules::check_expression);
        }
        let map = match self.expression(&map_index.map) {
            Ok(t) => t,
            Err(e) => {
                return Err(e);
            },
        };
        if map != Type::Record && map != Type::Unknown {
            return Err(TypeError { kind: TypeErrorKind::NotARecord, line: Some(map_index.key.line) });
        }
        Ok(Type::Unknown)
    }

    fn visit_map_index_assignment(&mut self, assignment: &MapIndexAssignment) -> (result: Result<
        Type,
        TypeError,
    >)
        ensures
            checked(*final(self), result, rules::check_map_index_assignment(old(self)@, assignment@)),
        decreases assignment, 0nat,
    {
        proof {
            reveal(rules::check_map_index_assignment);
            reveal(rules::check_expression);
        }
        let map = match self.expression(&assignment.map) {
            Ok(t) => t,
            Err(e) => {
                return Err(e);
            },
        };
        if map != Type::Record && map != Type::Unknown {
            return Err(TypeError { kind: TypeErrorKind::NotARecord, line: Some(assignment.key.line) });
        }
        self.expression(&assignment.value)
    }

    fn visit_index_assignment(&mut self, assignment: &IndexAssignment) -> (result: Result<
        Type,
        TypeError,
    >)
        ensures
            checked(*final(self), result, rules::check_index_assignment(old(self)@, assignment@)),
        decreases assignment, 0nat,
    {
        proof {
            reveal(rules::check_index_assignment);
            reveal(rules::check_expression);
        }
        let list = match self.expression(&assignment.list) {
            Ok(t) => t,
            Err(e) => {
                return Err(e);
            },
        };
        if list != Type::List && list != Type::Unknown {
            return Err(TypeError { kind: TypeErrorKind::NotIndexable, line: None });
        }
        let position = match self.expression(&assignment.expression) {
            Ok(t) => t,
            Err(e) => {
                return Err(e);
            },
        };
        if position != Type::Number && position != Type::Unknown {
            return Err(TypeError { kind: TypeErrorKind::InvalidIndex, line: None });
        }
        self.expression(&assignment.value)
    }
}

/// The checker as a pass: each handler gives the type of its node, or the
/// first violation found in it.
impl<'a> Visitor<'a> for TypeChecker {
    type Output = Result<Type, TypeError>;

    open spec fn visits(&self, node: NodeView, after: &Self, output: Result<Type, TypeError>) -> bool {
        match node {
            NodeView::Expression(e) => checked(*after, output, rules::check_expression(self@, e)),
            NodeView::Statement(s) => checked(*after, output, rules::check_statement(self@, s)),
        }
    }

    fn visit_assignment(&mut self, node: &'a Assignment) -> (output: Result<Type, TypeError>) {
        proof {
            reveal(rules::check_expression);
            reveal(rules::check_assignment);
        }
        TypeChecker::visit_assignment(self, node)
    }

    fn visit_equality(&mut self, node: &'a Equality) -> (output: Result<Type, TypeError>) {
        proof {
            reveal(rules::check_expression);
            reveal(rules::check_equality);
        }
        TypeChecker::visit_equality(self, node)
    }

    fn visit_comparison(&mut self, node: &'a Comparison) -> (output: Result<Type, TypeError>) {
        proof {
            reveal(rules::check_expression);
            reveal(rules::check_comparison);
        }
        TypeChecker::visit_comparison(self, node)
    }

    fn visit_term(&mut self, node: &'a Term) -> (output: Result<Type, TypeError>) {
        proof {
            reveal(rules::check_expression);
            reveal(rules::check_term);
        }
        TypeChecker::visit_term(self, node)
    }

    fn visit_factor(&mut self, node: &'a Factor) -> (output: Result<Type, TypeError>) {
        proof {
            reveal(rules::check_expression);
            reveal(rules::check_factor);
        }
        TypeChecker::visit_factor(self, node)
    }

    fn visit_unary(&mut self, node: &'a Unary) -> (output: Result<Type, TypeError>) {
        proof {
            reveal(rules::check_expression);
            reveal(rules::check_unary);
        }
        TypeChecker::visit_unary(self, node)
    }

    fn visit_primary(&mut self, node: &'a Primary) -> (output: Result<Type, TypeError>) {
        proof {
            reveal(rules::check_expression);
        }
        TypeChecker::visit_primary(self, node)
    }

    fn visit_if_expression(&mut self, node: &'a IfExpression) -> (output: Result<Type, TypeError>) {
        proof {
            reveal(rules::check_expression);
            reveal(rules::check_if_expression);
        }
        TypeChecker::visit_if_expression(self, node)
    }

    fn visit_and(&mut self, node: &'a And) -> (output: Result<Type, TypeError>) {
        proof {
            reveal(rules::check_expression);
            reveal(rules::check_and);
        }
        TypeChecker::visit_and(self, node)
    }

    fn visit_or(&mut self, node: &'a Or) -> (output: Result<Type, TypeError>) {
        proof {
            reveal(rules::check_expression);
            reveal(rules::check_or);
        }
        TypeChecker::visit_or(self, node)
    }

    fn visit_call(&mut self, node: &'a Call) -> (output: Result<Type, TypeError>) {
        proof {
            reveal(rules::check_expression);
            reveal(rules::check_call);
        }
        TypeChecker::visit_call(self, node)
    }

    fn visit_list(&mut self, node: &'a List) -> (output: Result<Type, TypeError>) {
        proof {
            reveal(rules::check_expression);
            reveal(rules::check_list);
        }
        TypeChecker::visit_list(self, node)
    }

    fn visit_index(&mut self, node: &'a Index) -> (output: Result<Type, TypeError>) {
        proof {
            reveal(rules::check_expression);
            reveal(rules::check_index);
        }
        TypeChecker::visit_index(self, node)
    }

    fn visit_record(&mut self, node: &'a Record) -> (output: Result<Type, TypeError>) {
        proof {
            reveal(rules::check_expression);
            reveal(rules::check_record);
        }
        TypeChecker::visit_record(self, node)
    }

    fn visit_map_index(&mut self, node: &'a MapIndex) -> (output: Result<Type, TypeError>) {
        proof {
            reveal(rules::check_expression);
            reveal(rules::check_map_index);
        }
        TypeChecker::visit_map_index(self, node)
    }

    fn visit_map_index_assignment(&mut self, node: &'a MapIndexAssignment) -> (output: Result<Type, TypeError>) {
        proof {
            reveal(rules::check_expression);
            reveal(rules::check_map_index_assignment);
        }
        TypeChecker::visit_map_index_assignment(self, node)
    }

    fn visit_index_assignment(&mut self, node: &'a IndexAssignment) -> (output: Result<Type, TypeError>) {
        proof {
            reveal(rules::check_expression);
            reveal(rules::check_index_assignment);
        }
        TypeChecker::visit_index_assignment(self, node)
    }

    fn visit_expression_statement(&mut self, node: &'a ExpressionStatement) -> (output: Result<Type, TypeError>) {
        proof {
            reveal(rules::check_statement);
        }
        TypeChecker::visit_expression_statement(self, node)
    }

    fn visit_print_statement(&mut self, node: &'a PrintStatement) -> (output: Result<Type, TypeError>) {
        proof {
            reveal(rules::check_statement);
        }
        TypeChecker::visit_print_statement(self, node)
    }

    fn visit_variable_declaration(&mut self, node: &'a VariableDeclaration) -> (output: Result<Type, TypeError>) {
        proof {
            reveal(rules::check_statement);
        }
        TypeChecker::visit_variable_declaration(self, node)
    }

    fn visit_block(&mut self, node: &'a Block) -> (output: Result<Type, TypeError>) {
        proof {
            reveal(rules::check_statement);
            reveal(rules::check_block);
        }
        TypeChecker::visit_block(self, node)
    }

    fn visit_if_statement(&mut self, node: &'a IfStatement) -> (output: Result<Type, TypeError>) {
        proof {
            reveal(rules::check_statement);
            reveal(rules::check_if_statement);
        }
        TypeChecker::visit_if_statement(self, node)
    }

    fn visit_while_statement(&mut self, node: &'a WhileStatement) -> (output: Result<Type, TypeError>) {
        proof {
            reveal(rules::check_statement);
            reveal(rules::check_while_statement);
        }
        TypeChecker::visit_while_statement(self, node)
    }

    fn visit_function_declaration(&mut self, node: &'a FunctionDeclaration) -> (output: Result<Type, TypeError>) {
        proof {
            reveal(rules::check_statement);
            reveal(rules::check_function_declaration);
        }
        TypeChecker::visit_function_declaration(self, node)
    }

    fn visit_return(&mut self, node: &'a Return) -> (output: Result<Type, TypeError>) {
        proof {
            reveal(rules::check_statement);
        }
        TypeChecker::visit_return(self, node)
    }

    fn visit_with_statement(&mut self, node: &'a With) -> (output: Result<Type, TypeError>) {
        proof {
            reveal(rules::check_statement);
            reveal(rules::check_with_statement);
        }
        TypeChecker::visit_with_statement(self, node)
    }

    fn visit_for_statement(&mut self, node: &'a For) -> (output: Result<Type, TypeError>) {
        proof {
            reveal(rules::check_statement);
            reveal(rules::check_for_statement);
        }
        TypeChecker::visit_for_statement(self, node)
    }
}

} // verus!
