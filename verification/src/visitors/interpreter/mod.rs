//! The evaluator: it walks the tree and computes what [`semantics`] says the
//! program means.
use vstd::prelude::*;
use vstd::string::StringExecFns;
use crate::parser::expression::{
    And, Assignment, Call, Comparison, Equality, Expression, Factor, IfExpression, Index,
    IndexAssignment, List, MapIndex, MapIndexAssignment, Or, Primary, Record, Term, Unary,
    entry_views, expression_views, lemma_node_view,
};
use crate::parser::statement::{
    Block, ExpressionStatement, For, FunctionDeclaration, IfStatement, PrintStatement, Return,
    Statement, VariableDeclaration, WhileStatement, With, lemma_statement_node_view,
    statement_views,
};
use crate::visitors::{NodeView, Visitor};
use crate::token::{TokenType, token_views};
use crate::visitors::environment::{Duplicate, Environment};
use crate::visitors::type_checker::built_in_names;

pub mod callable;
pub mod depth;
pub mod iterations;
pub mod laws;
pub mod number;
pub mod replay;
pub mod scoping;
pub mod semantics;
pub mod supply;
pub mod value;

use callable::{Callable, Function};
use number::{Arithmetic, NumberModel, Numbers};
use semantics::{Evaluated, Executed, MachineView};
use value::{Flow, RuntimeError, Value, ValueView, duplicate_values, field_views, value_views};

verus! {

/// The evaluator: the scopes with the values they bind, the sequences and
/// mappings that lists and records name, what was written, and what is still
/// to be read.
pub struct Interpreter<'a, A, P, F> {
    numbers: Numbers<A, P, F>,
    environment: Environment<Value<'a>>,
    scope: usize,
    lists: Vec<Vec<Value<'a>>>,
    records: Vec<Vec<(String, Value<'a>)>>,
    output: Vec<String>,
    input: Vec<String>,
    consumed: usize,
    clock: Vec<u64>,
    used: usize,
    iterations: usize,
    depth: usize,
}

/// The views of the sequences in the store.
pub open spec fn list_views<'a>(lists: Seq<Vec<Value<'a>>>) -> Seq<Seq<ValueView>> {
    Seq::new(lists.len(), |i: int| value_views(lists[i]@))
}

/// The views of the records in the store.
pub open spec fn record_views<'a>(records: Seq<Vec<(String, Value<'a>)>>) -> Seq<Seq<(Seq<char>, ValueView)>> {
    Seq::new(records.len(), |i: int| field_views(records[i]@))
}

/// The views of the lines from place `from` on.
pub open spec fn line_views(lines: Seq<String>, from: int) -> Seq<Seq<char>> {
    Seq::new((lines.len() - from) as nat, |i: int| lines[from + i]@)
}

impl<'a, A, P, F> View for Interpreter<'a, A, P, F> {
    type V = MachineView;

    closed spec fn view(&self) -> MachineView {
        MachineView {
            scopes: self.environment@,
            scope: self.scope as int,
            lists: list_views(self.lists@),
            records: record_views(self.records@),
            output: line_views(self.output@, 0),
            input: line_views(self.input@, self.consumed as int),
            clock: self.clock@.skip(self.used as int),
            iterations: self.iterations as nat,
        }
    }
}

impl<'a, A: Fn(Arithmetic, u64, u64) -> u64, P: Fn(&String) -> Option<u64>, F: Fn(u64) -> String> Interpreter<
    'a,
    A,
    P,
    F,
> {
    /// The functions that the operations on numbers compute.
    pub closed spec fn model(&self) -> NumberModel {
        self.numbers.model()
    }

    /// How deep the calls of a program may nest.
    pub closed spec fn limit(&self) -> nat {
        self.depth as nat
    }

    /// The evaluator is in order: its operations on numbers are sound, and no
    /// more lines and readings were used than there are.
    pub closed spec fn wf(&self) -> bool {
        &&& self.numbers.sound()
        &&& self.consumed <= self.input@.len()
        &&& self.used <= self.clock@.len()
    }

    /// What a rule for expressions must leave behind: the expected value,
    /// or the expected error, and the expected state.
    pub open spec fn evaluated(&self, before: Self, result: Result<Value<'a>, RuntimeError>, expected: Evaluated) -> bool {
        &&& self.wf()
        &&& self.model() == before.model()
        &&& self.limit() == before.limit()
        &&& self@ == expected.1
        &&& match expected.0 {
            Ok(v) => result is Ok && result->Ok_0@ == v,
            Err(x) => result is Err && result->Err_0 == x,
        }
    }

    /// The same for statements.
    pub open spec fn executed(&self, before: Self, result: Result<Flow<'a>, RuntimeError>, expected: Executed) -> bool {
        &&& self.wf()
        &&& self.model() == before.model()
        &&& self.limit() == before.limit()
        &&& self@ == expected.1
        &&& match expected.0 {
            Ok(flow) => result is Ok && result->Ok_0@ == flow,
            Err(x) => result is Err && result->Err_0 == x,
        }
    }

    /// An evaluator in its initial state: every built-in name is bound to its
    /// function, `input` holds the lines that the program may read, `clock`
    /// the readings that the clock will give, no loop may repeat more than
    /// `iterations` times, and calls may nest `depth` deep.
    pub fn new(
        numbers: Numbers<A, P, F>,
        input: Vec<String>,
        clock: Vec<u64>,
        iterations: usize,
        depth: usize,
    ) -> (interpreter: Self)
        requires
            numbers.sound(),
        ensures
            interpreter.wf(),
            interpreter.model() == numbers.model(),
            interpreter.limit() == depth,
            interpreter@ == semantics::initial_state(line_views(input@, 0), clock@, iterations as nat),
    {
        let mut environment: Environment<Value<'a>> = Environment::new();
        let names = built_in_names();
        let functions = callable::built_ins();
        let ghost all = crate::visitors::type_checker::rules::built_in_names();
        let ghost empty = environment@;
        let mut i: usize = 0;
        while i < names.len()
            invariant
                i <= names@.len(),
                names@.len() == all.len(),
                functions@ == semantics::built_ins(),
                all.len() == semantics::built_ins().len(),
                forall|k: int| 0 <= k < names@.len() ==> (#[trigger] names@[k])@ == all[k],
                environment@.len() == 1,
                environment@[0].enclosing is None,
                semantics::declare_built_ins(empty, all, 0) == semantics::declare_built_ins(
                    environment@,
                    all,
                    i as int,
                ),
            decreases names@.len() - i,
        {
            environment.declare_global(0, names[i].clone(), Value::BuiltIn(functions[i]));
            i = i + 1;
        }
        let interpreter = Interpreter {
            numbers,
            environment,
            scope: 0,
            lists: Vec::new(),
            records: Vec::new(),
            output: Vec::new(),
            input,
            consumed: 0,
            clock,
            used: 0,
            iterations,
            depth,
        };
        proof {
            let expected = semantics::initial_state(line_views(input@, 0), clock@, iterations as nat);
            assert(interpreter@.clock =~= expected.clock);
            assert(interpreter@.lists =~= expected.lists);
            assert(interpreter@.records =~= expected.records);
            assert(interpreter@.output =~= expected.output);
            assert(interpreter@.input =~= expected.input);
        }
        interpreter
    }

    /// The lines written so far.
    pub fn output(&self) -> (lines: &Vec<String>)
        ensures
            line_views(lines@, 0) == self@.output,
    {
        &self.output
    }

    /// Runs the statements of a program in order. The result is `Nil`, or
    /// the error that stopped the program; a `return` that reaches the
    /// program itself is such an error.
    pub fn evaluate(&mut self, statements: &'a Vec<Statement>) -> (result: Result<Value<'a>, RuntimeError>)
        requires
            old(self).wf(),
        ensures
            final(self).evaluated(
                *old(self),
                result,
                semantics::run(old(self).model(), old(self)@, statement_views(statements@), 0, old(self).limit()),
            ),
    {
        let depth = self.depth;
        let ghost views = statement_views(statements@);
        let mut i: usize = 0;
        while i < statements.len()
            invariant
                i <= statements@.len(),
                views == statement_views(statements@),
                self.wf(),
                self.model() == old(self).model(),
                self.limit() == old(self).limit(),
                depth == old(self).limit(),
                semantics::run(old(self).model(), old(self)@, views, 0, depth as nat) == semantics::run(
                    self.model(),
                    self@,
                    views,
                    i as int,
                    depth as nat,
                ),
            decreases statements@.len() - i,
        {
            match self.statement(&statements[i], depth) {
                Ok(Flow::Normal) => {},
                Ok(Flow::Returning(_)) => {
                    return Err(RuntimeError::ReturnOutsideFunction);
                },
                Err(e) => {
                    return Err(e);
                },
            }
            i = i + 1;
        }
        Ok(Value::Nil)
    }

    /// Makes a new scope, enclosed by `parent`, the current scope.
    fn enter(&mut self, parent: usize)
        requires
            old(self).wf(),
        ensures
            final(self).wf(),
            final(self).model() == old(self).model(),
            final(self).limit() == old(self).limit(),
            final(self)@ == semantics::enter(old(self)@, parent as int),
    {
        self.scope = self.environment.enclose(parent);
    }

    /// Makes `entry` the current scope again.
    fn leave(&mut self, entry: usize)
        requires
            old(self).wf(),
        ensures
            final(self).wf(),
            final(self).model() == old(self).model(),
            final(self).limit() == old(self).limit(),
            final(self)@ == semantics::leave(old(self)@, entry as int),
    {
        self.scope = entry;
    }

    /// Binds `name` to `value` in the current scope.
    fn bind(&mut self, name: &String, value: Value<'a>)
        requires
            old(self).wf(),
        ensures
            final(self).wf(),
            final(self).model() == old(self).model(),
            final(self).limit() == old(self).limit(),
            final(self)@ == semantics::bind(old(self)@, name@, value@),
    {
        self.environment.declare(self.scope, name.clone(), value);
    }

    /// Writes one more line.
    pub(crate) fn write(&mut self, line: String)
        requires
            old(self).wf(),
        ensures
            final(self).wf(),
            final(self).model() == old(self).model(),
            final(self).limit() == old(self).limit(),
            final(self)@ == semantics::write(old(self)@, line@),
    {
        self.output.push(line);
        proof {
            assert(final(self)@.output =~= old(self)@.output.push(line@));
        }
    }

    fn statement(&mut self, statement: &'a Statement, depth: usize) -> (result: Result<Flow<'a>, RuntimeError>)
        requires
            old(self).wf(),
        ensures
            final(self).executed(
                *old(self),
                result,
                semantics::exec_statement(old(self).model(), old(self)@, statement@, depth as nat),
            ),
        decreases 2 * depth + 1, 2nat, statement, 1nat, 0nat,
    {
        proof {
            reveal(semantics::exec_statement);
            reveal(semantics::eval_expression);
            reveal(semantics::exec_block);
            reveal(semantics::exec_if);
            reveal(semantics::exec_while);
            reveal(semantics::exec_with);
            reveal(semantics::for_each);
            lemma_statement_node_view(*statement);
        }
        match statement {
            Statement::ExpressionStatement(n) => self.visit_expression_statement(n, depth),
            Statement::PrintStatement(n) => self.visit_print_statement(n, depth),
            Statement::VariableDeclaration(n) => self.visit_variable_declaration(n, depth),
            Statement::FunctionDeclaration(n) => self.visit_function_declaration(n),
            Statement::Return(n) => self.visit_return(n, depth),
            Statement::Block(n) => self.visit_block(n, depth),
            Statement::IfStatement(n) => self.visit_if_statement(n, depth),
            Statement::WhileStatement(n) => self.visit_while_statement(n, depth),
            Statement::With(n) => self.visit_with_statement(n, depth),
            Statement::For(n) => self.visit_for_statement(n, depth),
        }
    }

    fn visit_expression_statement(&mut self, statement: &'a ExpressionStatement, depth: usize) -> (result:
        Result<Flow<'a>, RuntimeError>)
        requires
            old(self).wf(),
        ensures
            final(self).executed(
                *old(self),
                result,
                semantics::exec_statement(old(self).model(), old(self)@, statement@, depth as nat),
            ),
        decreases 2 * depth + 1, 1nat,
    {
        proof {
            reveal(semantics::exec_statement);
            reveal(semantics::eval_expression);
        }
        match self.expression(&statement.expression, depth) {
            Ok(_) => Ok(Flow::Normal),
            Err(e) => Err(e),
        }
    }

    fn visit_print_statement(&mut self, statement: &'a PrintStatement, depth: usize) -> (result: Result<
        Flow<'a>,
        RuntimeError,
    >)
        requires
            old(self).wf(),
        ensures
            final(self).executed(
                *old(self),
                result,
                semantics::exec_statement(old(self).model(), old(self)@, statement@, depth as nat),
            ),
        decreases 2 * depth + 1, 1nat,
    {
        proof {
            reveal(semantics::exec_statement);
            reveal(semantics::eval_expression);
        }
        let value = match self.expression(&statement.expression, depth) {
            Ok(v) => v,
            Err(e) => {
                return Err(e);
            },
        };
        match self.render(&value, depth) {
            Ok(line) => {
                self.write(line);
                Ok(Flow::Normal)
            },
            Err(e) => Err(e),
        }
    }

    fn visit_variable_declaration(&mut self, declaration: &'a VariableDeclaration, depth: usize) -> (result:
        Result<Flow<'a>, RuntimeError>)
        requires
            old(self).wf(),
        ensures
            final(self).executed(
                *old(self),
                result,
                semantics::exec_statement(old(self).model(), old(self)@, declaration@, depth as nat),
            ),
        decreases 2 * depth + 1, 1nat,
    {
        proof {
            reveal(semantics::exec_statement);
            reveal(semantics::eval_expression);
        }
        let value = match &declaration.expression {
            Some(e) => match self.expression(e, depth) {
                Ok(v) => v,
                Err(e) => {
                    return Err(e);
                },
            },
            None => Value::Nil,
        };
        self.bind(&declaration.identifier.lexeme, value);
        Ok(Flow::Normal)
    }

    fn visit_function_declaration(&mut self, declaration: &'a FunctionDeclaration) -> (result: Result<
        Flow<'a>,
        RuntimeError,
    >)
        requires
            old(self).wf(),
        ensures
            forall|depth: nat|
                final(self).executed(
                    *old(self),
                    result,
                    #[trigger] semantics::exec_statement(old(self).model(), old(self)@, declaration@, depth),
                ),
    {
        proof {
            reveal(semantics::exec_statement);
        }
        let function = Function { arity: declaration.parameters.len(), declaration, closure: self.scope };
        self.bind(&declaration.identifier.lexeme, Value::Function(function));
        Ok(Flow::Normal)
    }

    fn visit_return(&mut self, statement: &'a Return, depth: usize) -> (result: Result<Flow<'a>, RuntimeError>)
        requires
            old(self).wf(),
        ensures
            final(self).executed(
                *old(self),
                result,
                semantics::exec_statement(old(self).model(), old(self)@, statement@, depth as nat),
            ),
        decreases 2 * depth + 1, 1nat,
    {
        proof {
            reveal(semantics::exec_statement);
            reveal(semantics::eval_expression);
        }
        match &statement.value {
            Some(e) => match self.expression(e, depth) {
                Ok(v) => Ok(Flow::Returning(v)),
                Err(e) => Err(e),
            },
            None => Ok(Flow::Returning(Value::Nil)),
        }
    }

    fn visit_block(&mut self, block: &'a Block, depth: usize) -> (result: Result<Flow<'a>, RuntimeError>)
        requires
            old(self).wf(),
        ensures
            final(self).executed(
                *old(self),
                result,
                semantics::exec_block(old(self).model(), old(self)@, block@, depth as nat),
            ),
        decreases 2 * depth + 1, 2nat, block, 0nat, 0nat,
    {
        proof {
            reveal(semantics::exec_block);
            reveal(semantics::exec_statements);
        }
        let entry = self.scope;
        self.enter(entry);
        let ghost inside = self@;
        let ghost views = statement_views(block.statements@);
        let mut i: usize = 0;
        while i < block.statements.len()
            invariant
                i <= block.statements@.len(),
                views == statement_views(block.statements@),
                self.wf(),
                self.model() == old(self).model(),
                self.limit() == old(self).limit(),
                inside == semantics::enter(old(self)@, old(self)@.scope),
                entry == old(self)@.scope,
                block@ == (crate::parser::statement::StmtView::Block { statements: views }),
                semantics::exec_statements(old(self).model(), inside, views, 0, depth as nat)
                    == semantics::exec_statements(self.model(), self@, views, i as int, depth as nat),
            decreases block.statements@.len() - i,
        {
            proof {
                reveal(semantics::exec_block);
                reveal(semantics::exec_statements);
                reveal(semantics::exec_statement);
                vstd::std_specs::vec::axiom_vec_index_decreases(block.statements, i as int);
            }
            match self.statement(&block.statements[i], depth) {
                Ok(Flow::Normal) => {},
                Ok(Flow::Returning(value)) => {
                    self.leave(entry);
                    return Ok(Flow::Returning(value));
                },
                Err(e) => {
                    return Err(e);
                },
            }
            i = i + 1;
        }
        proof {
            reveal(semantics::exec_statements);
        }
        self.leave(entry);
        Ok(Flow::Normal)
    }

    fn visit_if_statement(&mut self, if_statement: &'a IfStatement, depth: usize) -> (result: Result<
        Flow<'a>,
        RuntimeError,
    >)
        requires
            old(self).wf(),
        ensures
            final(self).executed(
                *old(self),
                result,
                semantics::exec_if(old(self).model(), old(self)@, if_statement@, depth as nat),
            ),
        decreases 2 * depth + 1, 2nat, if_statement, 0nat, 0nat,
    {
        proof {
            reveal(semantics::exec_if);
            reveal(semantics::exec_statement);
            reveal(semantics::eval_expression);
        }
        let condition = match self.expression(&if_statement.condition, depth) {
            Ok(v) => v,
            Err(e) => {
                return Err(e);
            },
        };
        match condition {
            Value::Boolean(true) => self.statement(&if_statement.then_branch, depth),
            Value::Boolean(false) => match &if_statement.else_branch {
                Some(other) => self.statement(other, depth),
                None => Ok(Flow::Normal),
            },
            _ => Err(RuntimeError::TypeMismatch),
        }
    }

    fn visit_while_statement(&mut self, while_statement: &'a WhileStatement, depth: usize) -> (result: Result<
        Flow<'a>,
        RuntimeError,
    >)
        requires
            old(self).wf(),
        ensures
            final(self).executed(
                *old(self),
                result,
                semantics::exec_while(
                    old(self).model(),
                    old(self)@,
                    while_statement@,
                    depth as nat,
                    old(self)@.iterations,
                ),
            ),
        decreases 2 * depth + 1, 2nat, while_statement, 0nat, 0nat,
    {
        let mut remaining = self.iterations;
        loop
            invariant
                self.wf(),
                self.model() == old(self).model(),
                self.limit() == old(self).limit(),
                semantics::exec_while(
                    old(self).model(),
                    old(self)@,
                    while_statement@,
                    depth as nat,
                    old(self)@.iterations,
                ) == semantics::exec_while(self.model(), self@, while_statement@, depth as nat, remaining as nat),
            decreases remaining,
        {
            proof {
                reveal(semantics::exec_while);
                reveal(semantics::exec_statement);
                reveal(semantics::eval_expression);
            }
            let condition = match self.expression(&while_statement.condition, depth) {
                Ok(v) => v,
                Err(e) => {
                    return Err(e);
                },
            };
            match condition {
                Value::Boolean(true) => {},
                Value::Boolean(false) => {
                    return Ok(Flow::Normal);
                },
                _ => {
                    return Err(RuntimeError::TypeMismatch);
                },
            }
            if remaining == 0 {
                return Err(RuntimeError::IterationsExceeded);
            }
            match self.statement(&while_statement.body, depth) {
                Ok(Flow::Normal) => {},
                Ok(Flow::Returning(value)) => {
                    return Ok(Flow::Returning(value));
                },
                Err(e) => {
                    return Err(e);
                },
            }
            remaining = remaining - 1;
        }
    }

    fn visit_with_statement(&mut self, with_statement: &'a With, depth: usize) -> (result: Result<
        Flow<'a>,
        RuntimeError,
    >)
        requires
            old(self).wf(),
        ensures
            final(self).executed(
                *old(self),
                result,
                semantics::exec_with(old(self).model(), old(self)@, with_statement@, depth as nat),
            ),
        decreases 2 * depth + 1, 2nat, with_statement, 0nat, 0nat,
    {
        proof {
            reveal(semantics::exec_with);
            reveal(semantics::exec_statement);
            reveal(semantics::eval_expression);
        }
        let entry = self.scope;
        let value = match self.expression(&with_statement.value, depth) {
            Ok(v) => v,
            Err(e) => {
                return Err(e);
            },
        };
        let parent = self.scope;
        self.enter(parent);
        self.bind(&with_statement.identifier.lexeme, value);
        match self.statement(&with_statement.body, depth) {
            Ok(flow) => {
                self.leave(entry);
                Ok(flow)
            },
            Err(e) => Err(e),
        }
    }

    fn visit_for_statement(&mut self, for_statement: &'a For, depth: usize) -> (result: Result<
        Flow<'a>,
        RuntimeError,
    >)
        requires
            old(self).wf(),
        ensures
            final(self).executed(
                *old(self),
                result,
                semantics::exec_statement(old(self).model(), old(self)@, for_statement@, depth as nat),
            ),
        decreases 2 * depth + 1, 2nat, for_statement, 0nat, 0nat,
    {
        proof {
            reveal(semantics::exec_statement);
            reveal(semantics::eval_expression);
            reveal(semantics::for_each);
        }
        let entry = self.scope;
        let iter = match self.expression(&for_statement.iter, depth) {
            Ok(v) => v,
            Err(e) => {
                return Err(e);
            },
        };
        let elements = match iter {
            Value::Iter(at) => {
                if at < self.lists.len() {
                    duplicate_values(&self.lists[at])
                } else {
                    return Err(RuntimeError::InvalidIterator);
                }
            },
            _ => {
                return Err(RuntimeError::InvalidIterator);
            },
        };
        let ghost start = self@;
        let ghost items = value_views(elements@);
        let mut i: usize = 0;
        while i < elements.len()
            invariant
                i <= elements@.len(),
                items == value_views(elements@),
                self.wf(),
                self.model() == old(self).model(),
                self.limit() == old(self).limit(),
                semantics::exec_statement(old(self).model(), old(self)@, for_statement@, depth as nat)
                    == semantics::for_each(
                    old(self).model(),
                    start,
                    for_statement@,
                    items,
                    0,
                    depth as nat,
                    entry as int,
                ),
                semantics::for_each(
                    old(self).model(),
                    start,
                    for_statement@,
                    items,
                    0,
                    depth as nat,
                    entry as int,
                ) == semantics::for_each(
                    self.model(),
                    self@,
                    for_statement@,
                    items,
                    i as int,
                    depth as nat,
                    entry as int,
                ),
            decreases elements@.len() - i,
        {
            proof {
                reveal(semantics::for_each);
                reveal(semantics::exec_statement);
            }
            let parent = self.scope;
            self.enter(parent);
            self.bind(&for_statement.identifier.lexeme, elements[i].duplicate());
            match self.statement(&for_statement.body, depth) {
                Ok(Flow::Normal) => {
                    self.leave(entry);
                },
                Ok(Flow::Returning(value)) => {
                    self.leave(entry);
                    return Ok(Flow::Returning(value));
                },
                Err(e) => {
                    return Err(e);
                },
            }
            i = i + 1;
        }
        proof {
            reveal(semantics::for_each);
        }
        Ok(Flow::Normal)
    }

    fn expression(&mut self, expression: &'a Expression, depth: usize) -> (result: Result<Value<'a>, RuntimeError>)
        requires
            old(self).wf(),
        ensures
            final(self).evaluated(
                *old(self),
                result,
                semantics::eval_expression(old(self).model(), old(self)@, expression@, depth as nat),
            ),
        decreases 2 * depth + 1, 0nat, expression, 1nat, 0nat,
    {
        proof {
            reveal(semantics::eval_expression);
            reveal(semantics::eval_equality);
            reveal(semantics::eval_assignment);
            reveal(semantics::eval_if_expression);
            reveal(semantics::eval_comparison);
            reveal(semantics::eval_term);
            reveal(semantics::eval_factor);
            reveal(semantics::eval_unary);
            reveal(semantics::eval_or);
            reveal(semantics::eval_and);
            reveal(semantics::eval_call);
            reveal(semantics::eval_list);
            reveal(semantics::eval_index);
            reveal(semantics::eval_record);
            reveal(semantics::eval_map_index);
            reveal(semantics::eval_map_index_assignment);
            reveal(semantics::eval_index_assignment);
            lemma_node_view(*expression);
        }
        match expression {
            Expression::Equality(n) => self.visit_equality(n, depth),
            Expression::Assignment(n) => self.visit_assignment(n, depth),
            Expression::IfExpression(n) => self.visit_if_expression(n, depth),
            Expression::Comparison(n) => self.visit_comparison(n, depth),
            Expression::Term(n) => self.visit_term(n, depth),
            Expression::Factor(n) => self.visit_factor(n, depth),
            Expression::Unary(n) => self.visit_unary(n, depth),
            Expression::Primary(n) => self.visit_primary(n),
            Expression::Or(n) => self.visit_or(n, depth),
            Expression::And(n) => self.visit_and(n, depth),
            Expression::Call(n) => self.visit_call(n, depth),
            Expression::List(n) => self.visit_list(n, depth),
            Expression::Index(n) => self.visit_index(n, depth),
            Expression::Record(n) => self.visit_record(n, depth),
            Expression::MapIndex(n) => self.visit_map_index(n, depth),
            Expression::MapIndexAssignment(n) => self.visit_map_index_assignment(n, depth),
            Expression::IndexAssignment(n) => self.visit_index_assignment(n, depth),
        }
    }

    fn visit_primary(&mut self, primary: &'a Primary) -> (result: Result<Value<'a>, RuntimeError>)
        requires
            old(self).wf(),
        ensures
            final(self).evaluated(
                *old(self),
                result,
                semantics::eval_primary(old(self).model(), old(self)@, primary@),
            ),
    {
        let token = &primary.value;
        match token.token_type {
            TokenType::Identifier => match self.environment.get(self.scope, &token.lexeme) {
                Ok(v) => Ok(v),
                Err(_) => Err(RuntimeError::UndefinedVariable),
            },
            TokenType::Number => match (self.numbers.parse)(&token.lexeme) {
                Some(bits) => Ok(Value::Number(bits)),
                None => Err(RuntimeError::InvalidNumber),
            },
            TokenType::Boolean => {
                let truth = String::from_str("true");
                Ok(Value::Boolean(token.lexeme == truth))
            },
            TokenType::String => Ok(Value::String(token.lexeme.clone())),
            TokenType::Nil => Ok(Value::Nil),
            _ => Err(RuntimeError::UnexpectedToken),
        }
    }

    fn visit_unary(&mut self, unary: &'a Unary, depth: usize) -> (result: Result<Value<'a>, RuntimeError>)
        requires
            old(self).wf(),
        ensures
            final(self).evaluated(
                *old(self),
                result,
                semantics::eval_unary(old(self).model(), old(self)@, unary@, depth as nat),
            ),
        decreases 2 * depth + 1, 0nat, unary, 0nat, 0nat,
    {
        proof {
            reveal(semantics::eval_unary);
            reveal(semantics::eval_expression);
        }
        let right = match self.expression(&unary.right, depth) {
            Ok(v) => v,
            Err(e) => {
                return Err(e);
            },
        };
        match unary.operator.token_type {
            TokenType::Minus => match right {
                Value::Number(bits) => Ok(Value::Number(number::negate(bits))),
                _ => Err(RuntimeError::TypeMismatch),
            },
            TokenType::Bang => match right {
                Value::Boolean(b) => Ok(Value::Boolean(!b)),
                _ => Err(RuntimeError::TypeMismatch),
            },
            _ => Err(RuntimeError::UnexpectedToken),
        }
    }

    /// The sum, difference, product or quotient of two numbers.
    fn arithmetic(&self, operation: Arithmetic, left: Value<'a>, right: Value<'a>) -> (result: Result<
        Value<'a>,
        RuntimeError,
    >)
        requires
            self.wf(),
        ensures
            match (left@, right@) {
                (ValueView::Number(a), ValueView::Number(b)) => result is Ok && result->Ok_0@
                    == ValueView::Number((self.model().arithmetic)(operation, a, b)),
                _ => result is Err && result->Err_0 == RuntimeError::TypeMismatch,
            },
    {
        match (left, right) {
            (Value::Number(a), Value::Number(b)) => Ok(Value::Number((self.numbers.arithmetic)(operation, a, b))),
            _ => Err(RuntimeError::TypeMismatch),
        }
    }

    fn visit_factor(&mut self, factor: &'a Factor, depth: usize) -> (result: Result<Value<'a>, RuntimeError>)
        requires
            old(self).wf(),
        ensures
            final(self).evaluated(
                *old(self),
                result,
                semantics::eval_factor(old(self).model(), old(self)@, factor@, depth as nat),
            ),
        decreases 2 * depth + 1, 0nat, factor, 0nat, 0nat,
    {
        proof {
            reveal(semantics::eval_factor);
            reveal(semantics::eval_expression);
        }
        let left = match self.expression(&factor.left, depth) {
            Ok(v) => v,
            Err(e) => {
                return Err(e);
            },
        };
        let right = match self.expression(&factor.right, depth) {
            Ok(v) => v,
            Err(e) => {
                return Err(e);
            },
        };
        match factor.operator.token_type {
            TokenType::Star => self.arithmetic(Arithmetic::Multiply, left, right),
            TokenType::Slash => self.arithmetic(Arithmetic::Divide, left, right),
            _ => Err(RuntimeError::UnexpectedToken),
        }
    }

    fn visit_term(&mut self, term: &'a Term, depth: usize) -> (result: Result<Value<'a>, RuntimeError>)
        requires
            old(self).wf(),
        ensures
            final(self).evaluated(
                *old(self),
                result,
                semantics::eval_term(old(self).model(), old(self)@, term@, depth as nat),
            ),
        decreases 2 * depth + 1, 0nat, term, 0nat, 0nat,
    {
        proof {
            reveal(semantics::eval_term);
            reveal(semantics::eval_expression);
        }
        let left = match self.expression(&term.left, depth) {
            Ok(v) => v,
            Err(e) => {
                return Err(e);
            },
        };
        let right = match self.expression(&term.right, depth) {
            Ok(v) => v,
            Err(e) => {
                return Err(e);
            },
        };
        match term.operator.token_type {
            TokenType::Plus => match (left, right) {
                (Value::String(a), Value::String(b)) => Ok(Value::String(a.concat(b.as_str()))),
                (left, right) => self.arithmetic(Arithmetic::Add, left, right),
            },
            TokenType::Minus => self.arithmetic(Arithmetic::Subtract, left, right),
            _ => Err(RuntimeError::UnexpectedToken),
        }
    }

    fn visit_comparison(&mut self, comparison: &'a Comparison, depth: usize) -> (result: Result<
        Value<'a>,
        RuntimeError,
    >)
        requires
            old(self).wf(),
        ensures
            final(self).evaluated(
                *old(self),
                result,
                semantics::eval_comparison(old(self).model(), old(self)@, comparison@, depth as nat),
            ),
        decreases 2 * depth + 1, 0nat, comparison, 0nat, 0nat,
    {
        proof {
            reveal(semantics::eval_comparison);
            reveal(semantics::eval_expression);
        }
        let left = match self.expression(&comparison.left, depth) {
            Ok(v) => v,
            Err(e) => {
                return Err(e);
            },
        };
        let right = match self.expression(&comparison.right, depth) {
            Ok(v) => v,
            Err(e) => {
                return Err(e);
            },
        };
        match (left, right) {
            (Value::Number(a), Value::Number(b)) => match comparison.operator.token_type {
                TokenType::Greater => Ok(Value::Boolean(number::is_less(b, a))),
                TokenType::GreaterEqual => Ok(Value::Boolean(number::is_less(b, a) || number::is_same(a, b))),
                TokenType::Less => Ok(Value::Boolean(number::is_less(a, b))),
                TokenType::LessEqual => Ok(Value::Boolean(number::is_less(a, b) || number::is_same(a, b))),
                _ => Err(RuntimeError::UnexpectedToken),
            },
            _ => match comparison.operator.token_type {
                TokenType::Greater | TokenType::GreaterEqual | TokenType::Less | TokenType::LessEqual => Err(
                    RuntimeError::TypeMismatch,
                ),
                _ => Err(RuntimeError::UnexpectedToken),
            },
        }
    }

    fn visit_equality(&mut self, equality: &'a Equality, depth: usize) -> (result: Result<
        Value<'a>,
        RuntimeError,
    >)
        requires
            old(self).wf(),
        ensures
            final(self).evaluated(
                *old(self),
                result,
                semantics::eval_equality(old(self).model(), old(self)@, equality@, depth as nat),
            ),
        decreases 2 * depth + 1, 0nat, equality, 0nat, 0nat,
    {
        proof {
            reveal(semantics::eval_equality);
            reveal(semantics::eval_expression);
        }
        let left = match self.expression(&equality.left, depth) {
            Ok(v) => v,
            Err(e) => {
                return Err(e);
            },
        };
        let right = match self.expression(&equality.right, depth) {
            Ok(v) => v,
            Err(e) => {
                return Err(e);
            },
        };
        match equality.operator.token_type {
            TokenType::EqualEqual => Ok(Value::Boolean(left.equals(&right))),
            TokenType::BangEqual => Ok(Value::Boolean(!left.equals(&right))),
            _ => Err(RuntimeError::UnexpectedToken),
        }
    }

    fn visit_and(&mut self, and: &'a And, depth: usize) -> (result: Result<Value<'a>, RuntimeError>)
        requires
            old(self).wf(),
        ensures
            final(self).evaluated(
                *old(self),
                result,
                semantics::eval_and(old(self).model(), old(self)@, and@, depth as nat),
            ),
        decreases 2 * depth + 1, 0nat, and, 0nat, 0nat,
    {
        proof {
            reveal(semantics::eval_and);
            reveal(semantics::eval_expression);
        }
        let left = match self.expression(&and.left, depth) {
            Ok(v) => v,
            Err(e) => {
                return Err(e);
            },
        };
        match left {
            Value::Boolean(false) => Ok(Value::Boolean(false)),
            Value::Boolean(true) => match self.expression(&and.right, depth) {
                Ok(Value::Boolean(r)) => Ok(Value::Boolean(r)),
                Ok(_) => Err(RuntimeError::TypeMismatch),
                Err(e) => Err(e),
            },
            _ => Err(RuntimeError::TypeMismatch),
        }
    }

    fn visit_or(&mut self, or: &'a Or, depth: usize) -> (result: Result<Value<'a>, RuntimeError>)
        requires
            old(self).wf(),
        ensures
            final(self).evaluated(
                *old(self),
                result,
                semantics::eval_or(old(self).model(), old(self)@, or@, depth as nat),
            ),
        decreases 2 * depth + 1, 0nat, or, 0nat, 0nat,
    {
        proof {
            reveal(semantics::eval_or);
            reveal(semantics::eval_expression);
        }
        let left = match self.expression(&or.left, depth) {
            Ok(v) => v,
            Err(e) => {
                return Err(e);
            },
        };
        match left {
            Value::Boolean(true) => Ok(Value::Boolean(true)),
            Value::Boolean(false) => match self.expression(&or.right, depth) {
                Ok(Value::Boolean(r)) => Ok(Value::Boolean(r)),
                Ok(_) => Err(RuntimeError::TypeMismatch),
                Err(e) => Err(e),
            },
            _ => Err(RuntimeError::TypeMismatch),
        }
    }

    fn visit_assignment(&mut self, assignment: &'a Assignment, depth: usize) -> (result: Result<
        Value<'a>,
        RuntimeError,
    >)
        requires
            old(self).wf(),
        ensures
            final(self).evaluated(
                *old(self),
                result,
                semantics::eval_assignment(old(self).model(), old(self)@, assignment@, depth as nat),
            ),
        decreases 2 * depth + 1, 0nat, assignment, 0nat, 0nat,
    {
        proof {
            reveal(semantics::eval_assignment);
            reveal(semantics::eval_expression);
        }
        let value = match self.expression(&assignment.value, depth) {
            Ok(v) => v,
            Err(e) => {
                return Err(e);
            },
        };
        match self.environment.assign(self.scope, &assignment.identifier.lexeme, value.duplicate()) {
            Ok(()) => Ok(value),
            Err(_) => Err(RuntimeError::UndefinedVariable),
        }
    }

    fn visit_if_expression(&mut self, if_expression: &'a IfExpression, depth: usize) -> (result: Result<
        Value<'a>,
        RuntimeError,
    >)
        requires
            old(self).wf(),
        ensures
            final(self).evaluated(
                *old(self),
                result,
                semantics::eval_if_expression(old(self).model(), old(self)@, if_expression@, depth as nat),
            ),
        decreases 2 * depth + 1, 0nat, if_expression, 0nat, 0nat,
    {
        proof {
            reveal(semantics::eval_if_expression);
            reveal(semantics::eval_expression);
        }
        let condition = match self.expression(&if_expression.condition, depth) {
            Ok(v) => v,
            Err(e) => {
                return Err(e);
            },
        };
        match condition {
            Value::Boolean(true) => self.expression(&if_expression.then_branch, depth),
            Value::Boolean(false) => self.expression(&if_expression.else_branch, depth),
            _ => Err(RuntimeError::TypeMismatch),
        }
    }

    /// The values of the expressions, from left to right.
    fn expressions(&mut self, expressions: &'a Vec<Expression>, depth: usize) -> (result: Result<
        Vec<Value<'a>>,
        RuntimeError,
    >)
        requires
            old(self).wf(),
        ensures
            final(self).wf(),
            final(self).model() == old(self).model(),
            final(self).limit() == old(self).limit(),
            ({
                let expected = semantics::eval_all(
                    old(self).model(),
                    old(self)@,
                    expression_views(expressions@),
                    0,
                    depth as nat,
                    Seq::empty(),
                );
                &&& final(self)@ == expected.1
                &&& match expected.0 {
                    Ok(values) => result is Ok && value_views(result->Ok_0@) == values,
                    Err(x) => result is Err && result->Err_0 == x,
                }
            }),
        decreases 2 * depth + 1, 0nat, expressions, 0nat, 0nat,
    {
        let ghost views = expression_views(expressions@);
        let mut values: Vec<Value<'a>> = Vec::new();
        proof {
            assert(value_views(values@) =~= Seq::<ValueView>::empty());
        }
        let mut i: usize = 0;
        while i < expressions.len()
            invariant
                i <= expressions@.len(),
                views == expression_views(expressions@),
                self.wf(),
                self.model() == old(self).model(),
                self.limit() == old(self).limit(),
                semantics::eval_all(old(self).model(), old(self)@, views, 0, depth as nat, Seq::empty())
                    == semantics::eval_all(
                    self.model(),
                    self@,
                    views,
                    i as int,
                    depth as nat,
                    value_views(values@),
                ),
            decreases expressions@.len() - i,
        {
            proof {
                reveal(semantics::eval_all);
                reveal(semantics::eval_expression);
                vstd::std_specs::vec::axiom_vec_index_decreases(*expressions, i as int);
            }
            let ghost done = value_views(values@);
            match self.expression(&expressions[i], depth) {
                Ok(value) => {
                    values.push(value);
                    proof {
                        assert(value_views(values@) =~= done.push(value@));
                    }
                },
                Err(e) => {
                    return Err(e);
                },
            }
            i = i + 1;
        }
        proof {
            reveal(semantics::eval_all);
        }
        Ok(values)
    }

    /// Runs the body of a function of the program. See
    /// [`semantics::call_function`].
    pub(crate) fn call_function(&mut self, function: &Function<'a>, arguments: Vec<Value<'a>>, depth: usize) -> (result:
        Result<Value<'a>, RuntimeError>)
        requires
            old(self).wf(),
        ensures
            final(self).evaluated(
                *old(self),
                result,
                semantics::call_function(
                    old(self).model(),
                    old(self)@,
                    function.declaration@,
                    function.closure as int,
                    value_views(arguments@),
                    depth as nat,
                ),
            ),
        decreases 2 * depth + 1, 2nat, function.declaration, 2nat, 0nat,
    {
        proof {
            reveal(semantics::call_function);
            reveal(semantics::exec_statement);
        }
        let declaration = function.declaration;
        let entry = self.scope;
        self.enter(function.closure);
        let ghost inside = self@;
        let ghost names = token_views(declaration.parameters@);
        let ghost values = value_views(arguments@);
        let mut i: usize = 0;
        while i < declaration.parameters.len() && i < arguments.len()
            invariant
                i <= declaration.parameters@.len(),
                i <= arguments@.len(),
                names == token_views(declaration.parameters@),
                values == value_views(arguments@),
                self.wf(),
                self.model() == old(self).model(),
                self.limit() == old(self).limit(),
                semantics::bind_arguments(inside, names, values, 0) == semantics::bind_arguments(
                    self@,
                    names,
                    values,
                    i as int,
                ),
            decreases declaration.parameters@.len() - i,
        {
            self.bind(&declaration.parameters[i].lexeme, arguments[i].duplicate());
            i = i + 1;
        }
        match self.statement(&declaration.body, depth) {
            Ok(flow) => {
                self.leave(entry);
                match flow {
                    Flow::Returning(value) => Ok(value),
                    Flow::Normal => Ok(Value::Nil),
                }
            },
            Err(e) => Err(e),
        }
    }

    fn visit_call(&mut self, call: &'a Call, depth: usize) -> (result: Result<Value<'a>, RuntimeError>)
        requires
            old(self).wf(),
        ensures
            final(self).evaluated(
                *old(self),
                result,
                semantics::eval_call(old(self).model(), old(self)@, call@, depth as nat),
            ),
        decreases 2 * depth + 1, 0nat, call, 0nat, 0nat,
    {
        proof {
            reveal(semantics::eval_call);
            reveal(semantics::eval_expression);
            reveal(semantics::eval_all);
            reveal(semantics::call_function);
        }
        let callee = match self.expression(&call.identifier, depth) {
            Ok(v) => v,
            Err(e) => {
                return Err(e);
            },
        };
        let arguments = match self.expressions(&call.arguments, depth) {
            Ok(values) => values,
            Err(e) => {
                return Err(e);
            },
        };
        match callee {
            Value::BuiltIn(built_in) => built_in.call(self, arguments, depth),
            Value::Function(function) => function.call(self, arguments, depth),
            _ => Err(RuntimeError::NotCallable),
        }
    }

    /// Puts one more sequence into the store and gives its place.
    pub(crate) fn new_list(&mut self, items: Vec<Value<'a>>) -> (at: usize)
        requires
            old(self).wf(),
        ensures
            final(self).wf(),
            final(self).model() == old(self).model(),
            final(self).limit() == old(self).limit(),
            at == old(self)@.lists.len(),
            final(self)@ == (MachineView { lists: old(self)@.lists.push(value_views(items@)), ..old(self)@ }),
    {
        let at = self.lists.len();
        self.lists.push(items);
        proof {
            assert(final(self)@.lists =~= old(self)@.lists.push(value_views(items@)));
        }
        at
    }

    fn visit_list(&mut self, list: &'a List, depth: usize) -> (result: Result<Value<'a>, RuntimeError>)
        requires
            old(self).wf(),
        ensures
            final(self).evaluated(
                *old(self),
                result,
                semantics::eval_list(old(self).model(), old(self)@, list@, depth as nat),
            ),
        decreases 2 * depth + 1, 0nat, list, 0nat, 0nat,
    {
        proof {
            reveal(semantics::eval_list);
            reveal(semantics::eval_all);
        }
        match self.expressions(&list.values, depth) {
            Ok(items) => {
                let at = self.new_list(items);
                Ok(Value::List(at))
            },
            Err(e) => Err(e),
        }
    }

    fn visit_record(&mut self, record: &'a Record, depth: usize) -> (result: Result<Value<'a>, RuntimeError>)
        requires
            old(self).wf(),
        ensures
            final(self).evaluated(
                *old(self),
                result,
                semantics::eval_record(old(self).model(), old(self)@, record@, depth as nat),
            ),
        decreases 2 * depth + 1, 0nat, record, 0nat, 0nat,
    {
        proof {
            reveal(semantics::eval_record);
            reveal(semantics::eval_fields);
        }
        let ghost views = entry_views(record.key_values@);
        let mut fields: Vec<(String, Value<'a>)> = Vec::new();
        proof {
            assert(field_views(fields@) =~= Seq::<(Seq<char>, ValueView)>::empty());
        }
        let mut i: usize = 0;
        while i < record.key_values.len()
            invariant
                i <= record.key_values@.len(),
                views == entry_views(record.key_values@),
                record@ == (crate::parser::expression::ExprView::Record { key_values: views }),
                self.wf(),
                self.model() == old(self).model(),
                self.limit() == old(self).limit(),
                semantics::eval_fields(old(self).model(), old(self)@, views, 0, depth as nat, Seq::empty())
                    == semantics::eval_fields(
                    self.model(),
                    self@,
                    views,
                    i as int,
                    depth as nat,
                    field_views(fields@),
                ),
            decreases record.key_values@.len() - i,
        {
            proof {
                reveal(semantics::eval_record);
                reveal(semantics::eval_fields);
                reveal(semantics::eval_expression);
                vstd::std_specs::vec::axiom_vec_index_decreases(record.key_values, i as int);
            }
            let entry = &record.key_values[i];
            match self.expression(&entry.1, depth) {
                Ok(value) => {
                    callable::set_field(&mut fields, &entry.0.lexeme, value);
                },
                Err(e) => {
                    return Err(e);
                },
            }
            i = i + 1;
        }
        proof {
            reveal(semantics::eval_fields);
        }
        let at = self.new_record(fields);
        Ok(Value::Record(at))
    }

    /// Puts one more record into the store and gives its place.
    pub(crate) fn new_record(&mut self, fields: Vec<(String, Value<'a>)>) -> (at: usize)
        requires
            old(self).wf(),
        ensures
            final(self).wf(),
            final(self).model() == old(self).model(),
            final(self).limit() == old(self).limit(),
            at == old(self)@.records.len(),
            final(self)@ == (MachineView { records: old(self)@.records.push(field_views(fields@)), ..old(self)@ }),
    {
        let at = self.records.len();
        self.records.push(fields);
        proof {
            assert(final(self)@.records =~= old(self)@.records.push(field_views(fields@)));
        }
        at
    }

    /// The sequence at the place `at` of the store, if there is one.
    pub(crate) fn list_at(&self, at: usize) -> (list: Option<&Vec<Value<'a>>>)
        ensures
            match list {
                Some(items) => 0 <= at < self@.lists.len() && value_views(items@) == self@.lists[at as int],
                None => at >= self@.lists.len(),
            },
    {
        if at < self.lists.len() {
            Some(&self.lists[at])
        } else {
            None
        }
    }

    /// The record at the place `at` of the store, if there is one.
    pub(crate) fn record_at(&self, at: usize) -> (record: Option<&Vec<(String, Value<'a>)>>)
        ensures
            match record {
                Some(fields) => 0 <= at < self@.records.len() && field_views(fields@) == self@.records[at as int],
                None => at >= self@.records.len(),
            },
    {
        if at < self.records.len() {
            Some(&self.records[at])
        } else {
            None
        }
    }

    /// Takes the sequence at the place `at` out of the store and leaves an
    /// empty one there.
    pub(crate) fn take_list(&mut self, at: usize) -> (items: Vec<Value<'a>>)
        requires
            old(self).wf(),
            at < old(self)@.lists.len(),
        ensures
            final(self).wf(),
            final(self).model() == old(self).model(),
            final(self).limit() == old(self).limit(),
            value_views(items@) == old(self)@.lists[at as int],
            final(self)@ == (MachineView { lists: old(self)@.lists.update(at as int, Seq::empty()), ..old(self)@ }),
    {
        let mut items: Vec<Value<'a>> = Vec::new();
        std::mem::swap(&mut items, &mut self.lists[at]);
        proof {
            assert(value_views(Seq::<Value<'a>>::empty()) =~= Seq::<ValueView>::empty());
            assert(final(self)@.lists =~= old(self)@.lists.update(at as int, Seq::empty()));
        }
        items
    }

    /// Takes the record at the place `at` out of the store and leaves an
    /// empty one there.
    pub(crate) fn take_record(&mut self, at: usize) -> (fields: Vec<(String, Value<'a>)>)
        requires
            old(self).wf(),
            at < old(self)@.records.len(),
        ensures
            final(self).wf(),
            final(self).model() == old(self).model(),
            final(self).limit() == old(self).limit(),
            field_views(fields@) == old(self)@.records[at as int],
            final(self)@ == (MachineView {
                records: old(self)@.records.update(at as int, Seq::empty()),
                ..old(self)@
            }),
    {
        let mut fields: Vec<(String, Value<'a>)> = Vec::new();
        std::mem::swap(&mut fields, &mut self.records[at]);
        proof {
            assert(field_views(Seq::<(String, Value<'a>)>::empty()) =~= Seq::<(Seq<char>, ValueView)>::empty());
            assert(final(self)@.records =~= old(self)@.records.update(at as int, Seq::empty()));
        }
        fields
    }

    /// The number of sequences in the store.
    pub(crate) fn lists_len(&self) -> (count: usize)
        ensures
            count == self@.lists.len(),
    {
        self.lists.len()
    }

    /// The number of records in the store.
    pub(crate) fn records_len(&self) -> (count: usize)
        ensures
            count == self@.records.len(),
    {
        self.records.len()
    }

    /// Replaces the sequence at the place `at` of the store.
    pub(crate) fn put_list(&mut self, at: usize, items: Vec<Value<'a>>)
        requires
            old(self).wf(),
            at < old(self)@.lists.len(),
        ensures
            final(self).wf(),
            final(self).model() == old(self).model(),
            final(self).limit() == old(self).limit(),
            final(self)@ == (MachineView {
                lists: old(self)@.lists.update(at as int, value_views(items@)),
                ..old(self)@
            }),
    {
        self.lists.set(at, items);
        proof {
            assert(final(self)@.lists =~= old(self)@.lists.update(at as int, value_views(items@)));
        }
    }

    /// Replaces the record at the place `at` of the store.
    pub(crate) fn put_record(&mut self, at: usize, fields: Vec<(String, Value<'a>)>)
        requires
            old(self).wf(),
            at < old(self)@.records.len(),
        ensures
            final(self).wf(),
            final(self).model() == old(self).model(),
            final(self).limit() == old(self).limit(),
            final(self)@ == (MachineView {
                records: old(self)@.records.update(at as int, field_views(fields@)),
                ..old(self)@
            }),
    {
        self.records.set(at, fields);
        proof {
            assert(final(self)@.records =~= old(self)@.records.update(at as int, field_views(fields@)));
        }
    }

    /// The next line of input that was handed in, if one is left.
    pub(crate) fn read_line(&mut self) -> (line: Option<String>)
        requires
            old(self).wf(),
        ensures
            final(self).wf(),
            final(self).model() == old(self).model(),
            final(self).limit() == old(self).limit(),
            match line {
                Some(text) => old(self)@.input.len() > 0 && text@ == old(self)@.input[0] && final(self)@ == (
                MachineView { input: old(self)@.input.drop_first(), ..old(self)@ }),
                None => old(self)@.input.len() == 0 && final(self)@ == old(self)@,
            },
    {
        if self.consumed < self.input.len() {
            let line = self.input[self.consumed].clone();
            self.consumed = self.consumed + 1;
            proof {
                assert(final(self)@.input =~= old(self)@.input.drop_first());
                assert(final(self)@.clock =~= old(self)@.clock);
            }
            Some(line)
        } else {
            None
        }
    }

    /// The next reading of the clock that was handed in, if one is left. It
    /// is used up only when `take` says so.
    pub(crate) fn reading(&mut self, take: bool) -> (reading: Option<u64>)
        requires
            old(self).wf(),
        ensures
            final(self).wf(),
            final(self).model() == old(self).model(),
            final(self).limit() == old(self).limit(),
            match reading {
                Some(time) => old(self)@.clock.len() > 0 && time == old(self)@.clock[0] && final(self)@ == (
                if take {
                    MachineView { clock: old(self)@.clock.drop_first(), ..old(self)@ }
                } else {
                    old(self)@
                }),
                None => old(self)@.clock.len() == 0 && final(self)@ == old(self)@,
            },
    {
        if self.used < self.clock.len() {
            let time = self.clock[self.used];
            if take {
                self.used = self.used + 1;
                proof {
                    assert(final(self)@.clock =~= old(self)@.clock.drop_first());
                    assert(final(self)@.input =~= old(self)@.input);
                }
            }
            Some(time)
        } else {
            None
        }
    }

    /// The number that a text stands for, if it is one.
    pub(crate) fn parse_number(&self, text: &String) -> (bits: Option<u64>)
        requires
            self.wf(),
        ensures
            bits == (self.model().parse)(text@),
    {
        (self.numbers.parse)(text)
    }

    /// The text of a number.
    pub(crate) fn format_number(&self, bits: u64) -> (text: String)
        requires
            self.wf(),
        ensures
            text@ == (self.model().format)(bits),
    {
        (self.numbers.format)(bits)
    }

    fn visit_index(&mut self, index: &'a Index, depth: usize) -> (result: Result<Value<'a>, RuntimeError>)
        requires
            old(self).wf(),
        ensures
            final(self).evaluated(
                *old(self),
                result,
                semantics::eval_index(old(self).model(), old(self)@, index@, depth as nat),
            ),
        decreases 2 * depth + 1, 0nat, index, 0nat, 0nat,
    {
        proof {
            reveal(semantics::eval_index);
            reveal(semantics::eval_expression);
        }
        let collection = match self.expression(&index.list, depth) {
            Ok(v) => v,
            Err(e) => {
                return Err(e);
            },
        };
        let position = match self.expression(&index.expression, depth) {
            Ok(v) => v,
            Err(e) => {
                return Err(e);
            },
        };
        callable::index_value(self, &collection, &position)
    }

    fn visit_map_index(&mut self, map_index: &'a MapIndex, depth: usize) -> (result: Result<
        Value<'a>,
        RuntimeError,
    >)
        requires
            old(self).wf(),
        ensures
            final(self).evaluated(
                *old(self),
                result,
                semantics::eval_map_index(old(self).model(), old(self)@, map_index@, depth as nat),
            ),
        decreases 2 * depth + 1, 0nat, map_index, 0nat, 0nat,
    {
        proof {
            reveal(semantics::eval_map_index);
            reveal(semantics::eval_expression);
        }
        let record = match self.expression(&map_index.map, depth) {
            Ok(v) => v,
            Err(e) => {
                return Err(e);
            },
        };
        callable::field_value(self, &record, &map_index.key.lexeme)
    }

    fn visit_map_index_assignment(&mut self, assignment: &'a MapIndexAssignment, depth: usize) -> (result:
        Result<Value<'a>, RuntimeError>)
        requires
            old(self).wf(),
        ensures
            final(self).evaluated(
                *old(self),
                result,
                semantics::eval_map_index_assignment(old(self).model(), old(self)@, assignment@, depth as nat),
            ),
        decreases 2 * depth + 1, 0nat, assignment, 0nat, 0nat,
    {
        proof {
            reveal(semantics::eval_map_index_assignment);
            reveal(semantics::eval_expression);
        }
        let record = match self.expression(&assignment.map, depth) {
            Ok(v) => v,
            Err(e) => {
                return Err(e);
            },
        };
        let value = match self.expression(&assignment.value, depth) {
            Ok(v) => v,
            Err(e) => {
                return Err(e);
            },
        };
        callable::store_field(self, &record, &assignment.key.lexeme, value)
    }

    fn visit_index_assignment(&mut self, assignment: &'a IndexAssignment, depth: usize) -> (result: Result<
        Value<'a>,
        RuntimeError,
    >)
        requires
            old(self).wf(),
        ensures
            final(self).evaluated(
                *old(self),
                result,
                semantics::eval_index_assignment(old(self).model(), old(self)@, assignment@, depth as nat),
            ),
        decreases 2 * depth + 1, 0nat, assignment, 0nat, 0nat,
    {
        proof {
            reveal(semantics::eval_index_assignment);
            reveal(semantics::eval_expression);
        }
        let collection = match self.expression(&assignment.list, depth) {
            Ok(v) => v,
            Err(e) => {
                return Err(e);
            },
        };
        let position = match self.expression(&assignment.expression, depth) {
            Ok(v) => v,
            Err(e) => {
                return Err(e);
            },
        };
        let value = match self.expression(&assignment.value, depth) {
            Ok(v) => v,
            Err(e) => {
                return Err(e);
            },
        };
        callable::store_element(self, &collection, &position, value)
    }

    /// The text that a value is written as. See [`semantics::render`].
    pub(crate) fn render(&self, value: &Value<'a>, depth: usize) -> (result: Result<String, RuntimeError>)
        requires
            self.wf(),
        ensures
            match semantics::render(self.model(), self@, value@, depth as nat) {
                Ok(text) => result is Ok && result->Ok_0@ == text,
                Err(x) => result is Err && result->Err_0 == x,
            },
        decreases 2 * depth + 1, 0nat,
    {
        match value {
            Value::Number(bits) => Ok(self.format_number(*bits)),
            Value::Boolean(b) => Ok(
                if *b {
                    String::from_str("true")
                } else {
                    String::from_str("false")
                },
            ),
            Value::String(text) => Ok(text.clone()),
            Value::BuiltIn(_) => Ok(String::from_str("<native funk>")),
            Value::Function(_) => Ok(String::from_str("<funk>")),
            Value::Nil => Ok(String::from_str("nil")),
            Value::List(at) => {
                if depth == 0 {
                    return Err(RuntimeError::DepthExceeded);
                }
                match self.list_at(*at) {
                    Some(items) => self.render_items(items, String::from_str("["), depth - 1),
                    None => Err(RuntimeError::IndexOutOfRange),
                }
            },
            Value::Iter(at) => {
                if depth == 0 {
                    return Err(RuntimeError::DepthExceeded);
                }
                match self.list_at(*at) {
                    Some(items) => self.render_items(items, String::from_str("Iter ["), depth - 1),
                    None => Err(RuntimeError::IndexOutOfRange),
                }
            },
            Value::Record(at) => {
                if depth == 0 {
                    return Err(RuntimeError::DepthExceeded);
                }
                match self.record_at(*at) {
                    Some(fields) => self.render_fields(fields, depth - 1),
                    None => Err(RuntimeError::InvalidKey),
                }
            },
        }
    }

    /// `open`, the items with `, ` between them, and `]`.
    fn render_items(&self, items: &Vec<Value<'a>>, open: String, depth: usize) -> (result: Result<
        String,
        RuntimeError,
    >)
        requires
            self.wf(),
        ensures
            match semantics::render_items(self.model(), self@, value_views(items@), 0, depth as nat, open@) {
                Ok(text) => result is Ok && result->Ok_0@ == text + "]"@,
                Err(x) => result is Err && result->Err_0 == x,
            },
        decreases 2 * depth + 1, 1nat,
    {
        let ghost views = value_views(items@);
        let mut text = open;
        let mut i: usize = 0;
        while i < items.len()
            invariant
                i <= items@.len(),
                views == value_views(items@),
                self.wf(),
                semantics::render_items(self.model(), self@, views, 0, depth as nat, open@)
                    == semantics::render_items(self.model(), self@, views, i as int, depth as nat, text@),
            decreases items@.len() - i,
        {
            if i > 0 {
                text.append(", ");
            }
            match self.render(&items[i], depth) {
                Ok(item) => {
                    text.append(item.as_str());
                },
                Err(e) => {
                    return Err(e);
                },
            }
            i = i + 1;
        }
        text.append("]");
        Ok(text)
    }

    /// `{`, the fields as `name:value` with `, ` between them, and `}`.
    fn render_fields(&self, fields: &Vec<(String, Value<'a>)>, depth: usize) -> (result: Result<
        String,
        RuntimeError,
    >)
        requires
            self.wf(),
        ensures
            match semantics::render_fields(self.model(), self@, field_views(fields@), 0, depth as nat, "{"@) {
                Ok(text) => result is Ok && result->Ok_0@ == text + "}"@,
                Err(x) => result is Err && result->Err_0 == x,
            },
        decreases 2 * depth + 1, 1nat,
    {
        let ghost views = field_views(fields@);
        let mut text = String::from_str("{");
        let mut i: usize = 0;
        while i < fields.len()
            invariant
                i <= fields@.len(),
                views == field_views(fields@),
                self.wf(),
                semantics::render_fields(self.model(), self@, views, 0, depth as nat, "{"@)
                    == semantics::render_fields(self.model(), self@, views, i as int, depth as nat, text@),
            decreases fields@.len() - i,
        {
            if i > 0 {
                text.append(", ");
            }
            text.append(fields[i].0.as_str());
            text.append(":");
            match self.render(&fields[i].1, depth) {
                Ok(item) => {
                    text.append(item.as_str());
                },
                Err(e) => {
                    return Err(e);
                },
            }
            i = i + 1;
        }
        text.append("}");
        Ok(text)
    }
}

/// What a handler of the evaluator gives: the value of the node, and whether
/// a `return` is under way. For a statement that ran to its end the value is
/// `Nil`.
pub open spec fn handled<'a>(output: Result<(Value<'a>, bool), RuntimeError>, value: ValueView, returning: bool) -> bool {
    output is Ok && output->Ok_0.0@ == value && output->Ok_0.1 == returning
}

/// The evaluator as a pass: each handler gives the value of its node and
/// whether a `return` is under way, or the error that stopped the program.
impl<'a, A: Fn(Arithmetic, u64, u64) -> u64, P: Fn(&String) -> Option<u64>, F: Fn(u64) -> String> Visitor<
    'a,
> for Interpreter<'a, A, P, F> {
    type Output = Result<(Value<'a>, bool), RuntimeError>;

    open spec fn ready(&self) -> bool {
        self.wf()
    }

    open spec fn visits(&self, node: NodeView, after: &Self, output: Result<(Value<'a>, bool), RuntimeError>) -> bool {
        &&& after.wf()
        &&& after.model() == self.model()
        &&& after.limit() == self.limit()
        &&& match node {
            NodeView::Expression(e) => {
                let expected = semantics::eval_expression(self.model(), self@, e, self.limit());
                &&& after@ == expected.1
                &&& match expected.0 {
                    Ok(v) => handled(output, v, false),
                    Err(x) => output is Err && output->Err_0 == x,
                }
            },
            NodeView::Statement(s) => {
                let expected = semantics::exec_statement(self.model(), self@, s, self.limit());
                &&& after@ == expected.1
                &&& match expected.0 {
                    Ok(value::FlowView::Normal) => handled(output, ValueView::Nil, false),
                    Ok(value::FlowView::Returning(v)) => handled(output, v, true),
                    Err(x) => output is Err && output->Err_0 == x,
                }
            },
        }
    }

    fn visit_assignment(&mut self, node: &'a Assignment) -> (output: Result<(Value<'a>, bool), RuntimeError>) {
        proof {
            reveal(semantics::eval_expression);
            reveal(semantics::eval_assignment);
        }
        let depth = self.depth;
        match Interpreter::visit_assignment(self, node, depth) {
            Ok(value) => Ok((value, false)),
            Err(e) => Err(e),
        }
    }

    fn visit_equality(&mut self, node: &'a Equality) -> (output: Result<(Value<'a>, bool), RuntimeError>) {
        proof {
            reveal(semantics::eval_expression);
            reveal(semantics::eval_equality);
        }
        let depth = self.depth;
        match Interpreter::visit_equality(self, node, depth) {
            Ok(value) => Ok((value, false)),
            Err(e) => Err(e),
        }
    }

    fn visit_comparison(&mut self, node: &'a Comparison) -> (output: Result<(Value<'a>, bool), RuntimeError>) {
        proof {
            reveal(semantics::eval_expression);
            reveal(semantics::eval_comparison);
        }
        let depth = self.depth;
        match Interpreter::visit_comparison(self, node, depth) {
            Ok(value) => Ok((value, false)),
            Err(e) => Err(e),
        }
    }

    fn visit_term(&mut self, node: &'a Term) -> (output: Result<(Value<'a>, bool), RuntimeError>) {
        proof {
            reveal(semantics::eval_expression);
            reveal(semantics::eval_term);
        }
        let depth = self.depth;
        match Interpreter::visit_term(self, node, depth) {
            Ok(value) => Ok((value, false)),
            Err(e) => Err(e),
        }
    }

    fn visit_factor(&mut self, node: &'a Factor) -> (output: Result<(Value<'a>, bool), RuntimeError>) {
        proof {
            reveal(semantics::eval_expression);
            reveal(semantics::eval_factor);
        }
        let depth = self.depth;
        match Interpreter::visit_factor(self, node, depth) {
            Ok(value) => Ok((value, false)),
            Err(e) => Err(e),
        }
    }

    fn visit_unary(&mut self, node: &'a Unary) -> (output: Result<(Value<'a>, bool), RuntimeError>) {
        proof {
            reveal(semantics::eval_expression);
            reveal(semantics::eval_unary);
        }
        let depth = self.depth;
        match Interpreter::visit_unary(self, node, depth) {
            Ok(value) => Ok((value, false)),
            Err(e) => Err(e),
        }
    }

    fn visit_primary(&mut self, node: &'a Primary) -> (output: Result<(Value<'a>, bool), RuntimeError>) {
        proof {
            reveal(semantics::eval_expression);
        }
        let depth = self.depth;
        match Interpreter::visit_primary(self, node) {
            Ok(value) => Ok((value, false)),
            Err(e) => Err(e),
        }
    }

    fn visit_if_expression(&mut self, node: &'a IfExpression) -> (output: Result<(Value<'a>, bool), RuntimeError>) {
        proof {
            reveal(semantics::eval_expression);
            reveal(semantics::eval_if_expression);
        }
        let depth = self.depth;
        match Interpreter::visit_if_expression(self, node, depth) {
            Ok(value) => Ok((value, false)),
            Err(e) => Err(e),
        }
    }

    fn visit_and(&mut self, node: &'a And) -> (output: Result<(Value<'a>, bool), RuntimeError>) {
        proof {
            reveal(semantics::eval_expression);
            reveal(semantics::eval_and);
        }
        let depth = self.depth;
        match Interpreter::visit_and(self, node, depth) {
            Ok(value) => Ok((value, false)),
            Err(e) => Err(e),
        }
    }

    fn visit_or(&mut self, node: &'a Or) -> (output: Result<(Value<'a>, bool), RuntimeError>) {
        proof {
            reveal(semantics::eval_expression);
            reveal(semantics::eval_or);
        }
        let depth = self.depth;
        match Interpreter::visit_or(self, node, depth) {
            Ok(value) => Ok((value, false)),
            Err(e) => Err(e),
        }
    }

    fn visit_call(&mut self, node: &'a Call) -> (output: Result<(Value<'a>, bool), RuntimeError>) {
        proof {
            reveal(semantics::eval_expression);
            reveal(semantics::eval_call);
        }
        let depth = self.depth;
        match Interpreter::visit_call(self, node, depth) {
            Ok(value) => Ok((value, false)),
            Err(e) => Err(e),
        }
    }

    fn visit_list(&mut self, node: &'a List) -> (output: Result<(Value<'a>, bool), RuntimeError>) {
        proof {
            reveal(semantics::eval_expression);
            reveal(semantics::eval_list);
        }
        let depth = self.depth;
        match Interpreter::visit_list(self, node, depth) {
            Ok(value) => Ok((value, false)),
            Err(e) => Err(e),
        }
    }

    fn visit_index(&mut self, node: &'a Index) -> (output: Result<(Value<'a>, bool), RuntimeError>) {
        proof {
            reveal(semantics::eval_expression);
            reveal(semantics::eval_index);
        }
        let depth = self.depth;
        match Interpreter::visit_index(self, node, depth) {
            Ok(value) => Ok((value, false)),
            Err(e) => Err(e),
        }
    }

    fn visit_record(&mut self, node: &'a Record) -> (output: Result<(Value<'a>, bool), RuntimeError>) {
        proof {
            reveal(semantics::eval_expression);
            reveal(semantics::eval_record);
        }
        let depth = self.depth;
        match Interpreter::visit_record(self, node, depth) {
            Ok(value) => Ok((value, false)),
            Err(e) => Err(e),
        }
    }

    fn visit_map_index(&mut self, node: &'a MapIndex) -> (output: Result<(Value<'a>, bool), RuntimeError>) {
        proof {
            reveal(semantics::eval_expression);
            reveal(semantics::eval_map_index);
        }
        let depth = self.depth;
        match Interpreter::visit_map_index(self, node, depth) {
            Ok(value) => Ok((value, false)),
            Err(e) => Err(e),
        }
    }

    fn visit_map_index_assignment(&mut self, node: &'a MapIndexAssignment) -> (output: Result<(Value<'a>, bool), RuntimeError>) {
        proof {
            reveal(semantics::eval_expression);
            reveal(semantics::eval_map_index_assignment);
        }
        let depth = self.depth;
        match Interpreter::visit_map_index_assignment(self, node, depth) {
            Ok(value) => Ok((value, false)),
            Err(e) => Err(e),
        }
    }

    fn visit_index_assignment(&mut self, node: &'a IndexAssignment) -> (output: Result<(Value<'a>, bool), RuntimeError>) {
        proof {
            reveal(semantics::eval_expression);
            reveal(semantics::eval_index_assignment);
        }
        let depth = self.depth;
        match Interpreter::visit_index_assignment(self, node, depth) {
            Ok(value) => Ok((value, false)),
            Err(e) => Err(e),
        }
    }

    fn visit_expression_statement(&mut self, node: &'a ExpressionStatement) -> (output: Result<(Value<'a>, bool), RuntimeError>) {
        proof {
            reveal(semantics::exec_statement);
        }
        let depth = self.depth;
        match Interpreter::visit_expression_statement(self, node, depth) {
            Ok(Flow::Normal) => Ok((Value::Nil, false)),
            Ok(Flow::Returning(value)) => Ok((value, true)),
            Err(e) => Err(e),
        }
    }

    fn visit_print_statement(&mut self, node: &'a PrintStatement) -> (output: Result<(Value<'a>, bool), RuntimeError>) {
        proof {
            reveal(semantics::exec_statement);
        }
        let depth = self.depth;
        match Interpreter::visit_print_statement(self, node, depth) {
            Ok(Flow::Normal) => Ok((Value::Nil, false)),
            Ok(Flow::Returning(value)) => Ok((value, true)),
            Err(e) => Err(e),
        }
    }

    fn visit_variable_declaration(&mut self, node: &'a VariableDeclaration) -> (output: Result<(Value<'a>, bool), RuntimeError>) {
        proof {
            reveal(semantics::exec_statement);
        }
        let depth = self.depth;
        match Interpreter::visit_variable_declaration(self, node, depth) {
            Ok(Flow::Normal) => Ok((Value::Nil, false)),
            Ok(Flow::Returning(value)) => Ok((value, true)),
            Err(e) => Err(e),
        }
    }

    fn visit_block(&mut self, node: &'a Block) -> (output: Result<(Value<'a>, bool), RuntimeError>) {
        proof {
            reveal(semantics::exec_statement);
            reveal(semantics::exec_block);
        }
        let depth = self.depth;
        match Interpreter::visit_block(self, node, depth) {
            Ok(Flow::Normal) => Ok((Value::Nil, false)),
            Ok(Flow::Returning(value)) => Ok((value, true)),
            Err(e) => Err(e),
        }
    }

    fn visit_if_statement(&mut self, node: &'a IfStatement) -> (output: Result<(Value<'a>, bool), RuntimeError>) {
        proof {
            reveal(semantics::exec_statement);
            reveal(semantics::exec_if);
        }
        let depth = self.depth;
        match Interpreter::visit_if_statement(self, node, depth) {
            Ok(Flow::Normal) => Ok((Value::Nil, false)),
            Ok(Flow::Returning(value)) => Ok((value, true)),
            Err(e) => Err(e),
        }
    }

    fn visit_while_statement(&mut self, node: &'a WhileStatement) -> (output: Result<(Value<'a>, bool), RuntimeError>) {
        proof {
            reveal(semantics::exec_statement);
            reveal(semantics::exec_while);
        }
        let depth = self.depth;
        match Interpreter::visit_while_statement(self, node, depth) {
            Ok(Flow::Normal) => Ok((Value::Nil, false)),
            Ok(Flow::Returning(value)) => Ok((value, true)),
            Err(e) => Err(e),
        }
    }

    fn visit_function_declaration(&mut self, node: &'a FunctionDeclaration) -> (output: Result<(Value<'a>, bool), RuntimeError>) {
        proof {
            reveal(semantics::exec_statement);
        }
        let depth = self.depth;
        match Interpreter::visit_function_declaration(self, node) {
            Ok(Flow::Normal) => Ok((Value::Nil, false)),
            Ok(Flow::Returning(value)) => Ok((value, true)),
            Err(e) => Err(e),
        }
    }

    fn visit_return(&mut self, node: &'a Return) -> (output: Result<(Value<'a>, bool), RuntimeError>) {
        proof {
            reveal(semantics::exec_statement);
        }
        let depth = self.depth;
        match Interpreter::visit_return(self, node, depth) {
            Ok(Flow::Normal) => Ok((Value::Nil, false)),
            Ok(Flow::Returning(value)) => Ok((value, true)),
            Err(e) => Err(e),
        }
    }

    fn visit_with_statement(&mut self, node: &'a With) -> (output: Result<(Value<'a>, bool), RuntimeError>) {
        proof {
            reveal(semantics::exec_statement);
            reveal(semantics::exec_with);
        }
        let depth = self.depth;
        match Interpreter::visit_with_statement(self, node, depth) {
            Ok(Flow::Normal) => Ok((Value::Nil, false)),
            Ok(Flow::Returning(value)) => Ok((value, true)),
            Err(e) => Err(e),
        }
    }

    fn visit_for_statement(&mut self, node: &'a For) -> (output: Result<(Value<'a>, bool), RuntimeError>) {
        proof {
            reveal(semantics::exec_statement);
        }
        let depth = self.depth;
        match Interpreter::visit_for_statement(self, node, depth) {
            Ok(Flow::Normal) => Ok((Value::Nil, false)),
            Ok(Flow::Returning(value)) => Ok((value, true)),
            Err(e) => Err(e),
        }
    }
}

} // verus!
