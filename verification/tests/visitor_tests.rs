use funk::lexer::Lexer;
use funk::parser::accept::Accept;
use funk::parser::expression::{
    And, Assignment, Call, Comparison, Equality, Factor, IfExpression, Index, IndexAssignment, List,
    MapIndex, MapIndexAssignment, Or, Primary, Record, Term, Unary,
};
use funk::parser::statement::{
    Block, ExpressionStatement, For, FunctionDeclaration, IfStatement, PrintStatement, Return,
    Statement, VariableDeclaration, WhileStatement, With,
};
use funk::parser::Parser;
use funk::visitors::ast_printer::AstPrinter;
use funk::visitors::interpreter::number::{Arithmetic, Numbers};
use funk::visitors::interpreter::value::{RuntimeError, Value};
use funk::visitors::interpreter::Interpreter;
use funk::visitors::type_checker::rules::TypeErrorKind;
use funk::visitors::type_checker::types::Type;
use funk::visitors::type_checker::TypeChecker;
use funk::visitors::Visitor;

/// A pass that lists the kinds of the nodes in the order in which it meets
/// them, children before their parents' names.
struct Names {
    seen: Vec<&'static str>,
}

impl<'a> Visitor<'a> for Names {
    type Output = usize;

    fn visit_assignment(&mut self, assignment: &'a Assignment) -> usize {
        let inner = assignment.value.accept(self);
        self.seen.push("assignment");
        inner + 1
    }

    fn visit_equality(&mut self, equality: &'a Equality) -> usize {
        let inner = equality.left.accept(self) + equality.right.accept(self);
        self.seen.push("equality");
        inner + 1
    }

    fn visit_comparison(&mut self, comparison: &'a Comparison) -> usize {
        let inner = comparison.left.accept(self) + comparison.right.accept(self);
        self.seen.push("comparison");
        inner + 1
    }

    fn visit_term(&mut self, term: &'a Term) -> usize {
        let inner = term.left.accept(self) + term.right.accept(self);
        self.seen.push("term");
        inner + 1
    }

    fn visit_factor(&mut self, factor: &'a Factor) -> usize {
        let inner = factor.left.accept(self) + factor.right.accept(self);
        self.seen.push("factor");
        inner + 1
    }

    fn visit_unary(&mut self, unary: &'a Unary) -> usize {
        let inner = unary.right.accept(self);
        self.seen.push("unary");
        inner + 1
    }

    fn visit_primary(&mut self, _primary: &'a Primary) -> usize {
        self.seen.push("primary");
        1
    }

    fn visit_if_expression(&mut self, if_expression: &'a IfExpression) -> usize {
        let inner = if_expression.condition.accept(self)
            + if_expression.then_branch.accept(self)
            + if_expression.else_branch.accept(self);
        self.seen.push("if_expression");
        inner + 1
    }

    fn visit_and(&mut self, and: &'a And) -> usize {
        let inner = and.left.accept(self) + and.right.accept(self);
        self.seen.push("and");
        inner + 1
    }

    fn visit_or(&mut self, or: &'a Or) -> usize {
        let inner = or.left.accept(self) + or.right.accept(self);
        self.seen.push("or");
        inner + 1
    }

    fn visit_call(&mut self, call: &'a Call) -> usize {
        let mut inner = call.identifier.accept(self);
        for argument in &call.arguments {
            inner += argument.accept(self);
        }
        self.seen.push("call");
        inner + 1
    }

    fn visit_list(&mut self, list: &'a List) -> usize {
        let mut inner = 0;
        for value in &list.values {
            inner += value.accept(self);
        }
        self.seen.push("list");
        inner + 1
    }

    fn visit_index(&mut self, index: &'a Index) -> usize {
        let inner = index.list.accept(self) + index.expression.accept(self);
        self.seen.push("index");
        inner + 1
    }

    fn visit_record(&mut self, record: &'a Record) -> usize {
        let mut inner = 0;
        for (_, value) in &record.key_values {
            inner += value.accept(self);
        }
        self.seen.push("record");
        inner + 1
    }

    fn visit_map_index(&mut self, map_index: &'a MapIndex) -> usize {
        let inner = map_index.map.accept(self);
        self.seen.push("map_index");
        inner + 1
    }

    fn visit_map_index_assignment(&mut self, assignment: &'a MapIndexAssignment) -> usize {
        let inner = assignment.map.accept(self) + assignment.value.accept(self);
        self.seen.push("map_index_assignment");
        inner + 1
    }

    fn visit_index_assignment(&mut self, assignment: &'a IndexAssignment) -> usize {
        let inner =
            assignment.list.accept(self) + assignment.expression.accept(self) + assignment.value.accept(self);
        self.seen.push("index_assignment");
        inner + 1
    }

    fn visit_expression_statement(&mut self, statement: &'a ExpressionStatement) -> usize {
        let inner = statement.expression.accept(self);
        self.seen.push("expression_statement");
        inner + 1
    }

    fn visit_print_statement(&mut self, statement: &'a PrintStatement) -> usize {
        let inner = statement.expression.accept(self);
        self.seen.push("print");
        inner + 1
    }

    fn visit_variable_declaration(&mut self, declaration: &'a VariableDeclaration) -> usize {
        let inner = match &declaration.expression {
            Some(expression) => expression.accept(self),
            None => 0,
        };
        self.seen.push("variable_declaration");
        inner + 1
    }

    fn visit_block(&mut self, block: &'a Block) -> usize {
        let mut inner = 0;
        for statement in &block.statements {
            inner += statement.accept(self);
        }
        self.seen.push("block");
        inner + 1
    }

    fn visit_if_statement(&mut self, statement: &'a IfStatement) -> usize {
        let mut inner = statement.condition.accept(self) + statement.then_branch.accept(self);
        if let Some(else_branch) = &statement.else_branch {
            inner += else_branch.accept(self);
        }
        self.seen.push("if");
        inner + 1
    }

    fn visit_while_statement(&mut self, statement: &'a WhileStatement) -> usize {
        let inner = statement.condition.accept(self) + statement.body.accept(self);
        self.seen.push("while");
        inner + 1
    }

    fn visit_function_declaration(&mut self, declaration: &'a FunctionDeclaration) -> usize {
        let inner = declaration.body.accept(self);
        self.seen.push("function_declaration");
        inner + 1
    }

    fn visit_return(&mut self, statement: &'a Return) -> usize {
        let inner = match &statement.value {
            Some(value) => value.accept(self),
            None => 0,
        };
        self.seen.push("return");
        inner + 1
    }

    fn visit_with_statement(&mut self, statement: &'a With) -> usize {
        let inner = statement.value.accept(self) + statement.body.accept(self);
        self.seen.push("with");
        inner + 1
    }

    fn visit_for_statement(&mut self, statement: &'a For) -> usize {
        let inner = statement.iter.accept(self) + statement.body.accept(self);
        self.seen.push("for");
        inner + 1
    }
}

fn parse(source: &str) -> Vec<Statement> {
    let tokens = Lexer::new(source.to_string()).lex().unwrap();
    Parser::new(tokens).parse().unwrap()
}

fn names(source: &str) -> (Vec<&'static str>, usize) {
    let mut pass = Names { seen: vec![] };
    let mut count = 0;
    for statement in &parse(source) {
        count += statement.accept(&mut pass);
    }
    (pass.seen, count)
}

#[test]
fn accept_applies_the_handler_of_each_kind_of_expression() {
    let (seen, count) = names("a = -1 * 2 + 3 < 4 == true and false or x(1)[2].k;");
    assert_eq!(
        seen,
        vec![
            "primary", "unary", "primary", "factor", "primary", "term", "primary", "comparison", "primary",
            "equality", "primary", "and", "primary", "primary", "call", "primary", "index", "map_index", "or",
            "assignment", "expression_statement",
        ]
    );
    assert_eq!(count, 21);
}

#[test]
fn accept_applies_the_handler_of_each_kind_of_statement() {
    let source = "make a = [1]; funk f(n) { return n; } if a { print 1; } else while b for i in c with d as e { }";
    let (seen, _) = names(source);
    assert_eq!(
        seen,
        vec![
            "primary", "list", "variable_declaration", "primary", "return", "block", "function_declaration",
            "primary", "primary", "print", "block", "primary", "primary", "primary", "block", "with", "for",
            "while", "if",
        ]
    );
}

#[test]
fn accept_applies_the_handlers_of_the_collection_nodes() {
    let (seen, _) = names("r = {a: 1, b: 2 if c else 3,}; l[0] = 1; r.a = 2;");
    assert_eq!(
        seen,
        vec![
            "primary", "primary", "primary", "primary", "if_expression", "record", "assignment",
            "expression_statement", "primary", "primary", "primary", "index_assignment", "expression_statement",
            "primary", "primary", "map_index_assignment", "expression_statement",
        ]
    );
}

fn arithmetic(operation: Arithmetic, a: u64, b: u64) -> u64 {
    let (x, y) = (f64::from_bits(a), f64::from_bits(b));
    let result = match operation {
        Arithmetic::Add => x + y,
        Arithmetic::Subtract => x - y,
        Arithmetic::Multiply => x * y,
        Arithmetic::Divide => x / y,
    };
    result.to_bits()
}

fn number(text: &String) -> Option<u64> {
    text.parse::<f64>().ok().map(f64::to_bits)
}

fn format(bits: u64) -> String {
    f64::from_bits(bits).to_string()
}

#[test]
fn the_printer_is_a_pass() {
    let statements = parse("make x = 1 + 2; print x * (3 - y);");
    let mut printer = AstPrinter::new();
    let texts: Vec<String> = statements.iter().map(|statement| statement.accept(&mut printer)).collect();
    assert_eq!(texts, vec!["make x = (1 + 2)", "print ((x * (3 - y)))"]);
}

#[test]
fn the_type_checker_is_a_pass() {
    let statements = parse("make x = 1; funk f() { return x + 1; } return x; return x + true; y;");
    let mut checker = TypeChecker::new();
    assert_eq!(statements[0].accept(&mut checker), Ok(Type::Nil));
    assert_eq!(statements[1].accept(&mut checker), Ok(Type::Nil));
    assert_eq!(statements[2].accept(&mut checker), Ok(Type::Number));
    assert_eq!(statements[3].accept(&mut checker).map_err(|error| error.kind), Err(TypeErrorKind::TypeMismatch));
    assert_eq!(statements[4].accept(&mut checker).map_err(|error| error.kind), Err(TypeErrorKind::UndefinedVariable));
}

#[test]
fn the_evaluator_is_a_pass() {
    let statements = parse("make x = 20; print x + 1; return x * 2; y;");
    let mut interpreter = Interpreter::new(Numbers { arithmetic, parse: number, format }, vec![], vec![], 10, 10);
    assert!(matches!(statements[0].accept(&mut interpreter), Ok((Value::Nil, false))));
    assert!(matches!(statements[1].accept(&mut interpreter), Ok((Value::Nil, false))));
    match statements[2].accept(&mut interpreter) {
        Ok((Value::Number(bits), true)) => assert_eq!(f64::from_bits(bits), 40.0),
        _ => panic!("a returning number was expected"),
    }
    assert!(matches!(statements[3].accept(&mut interpreter), Err(RuntimeError::UndefinedVariable)));
    assert_eq!(interpreter.output(), &vec!["21".to_string()]);
}
