use funk::lexer::Lexer;
use funk::parser::expression::{
    Comparison, Equality, Expression, Factor, Primary, Term, Unary,
};
use funk::parser::statement::{ExpressionStatement, Statement};
use funk::parser::Parser;
use funk::token::{duplicate_tokens, Token, TokenType};
use funk::visitors::ast_printer::AstPrinter;
use funk::visitors::interpreter::callable::{
    built_ins, decimal, find_field, place, set_field, BuiltIn, Native,
};
use funk::visitors::interpreter::number::{Arithmetic, Numbers};
use funk::visitors::interpreter::value::{duplicate_values, RuntimeError, Value};
use funk::visitors::interpreter::Interpreter;
use funk::visitors::type_checker::rules::TypeErrorKind;
use funk::visitors::type_checker::{built_in_names, TypeChecker};

fn arithmetic(operation: Arithmetic, a: u64, b: u64) -> u64 {
    let (x, y) = (f64::from_bits(a), f64::from_bits(b));
    let result = match operation {
        Arithmetic::Add => x + y,
        Arithmetic::Subtract => x - y,
        Arithmetic::Multiply => x * y,
        Arithmetic::Divide => x / y,
    };
    result.to_bits()
}

fn parse(text: &String) -> Option<u64> {
    text.parse::<f64>().ok().map(f64::to_bits)
}

fn format(bits: u64) -> String {
    f64::from_bits(bits).to_string()
}

fn token(token_type: TokenType, lexeme: &str) -> Token {
    Token::new(token_type, lexeme.to_string(), 7)
}

fn number(lexeme: &str) -> Expression {
    Expression::Primary(Box::new(Primary::new(token(TokenType::Number, lexeme))))
}

fn statement(expression: Expression) -> Vec<Statement> {
    vec![Statement::ExpressionStatement(Box::new(ExpressionStatement { expression }))]
}

fn check(statements: &Vec<Statement>) -> Option<TypeErrorKind> {
    TypeChecker::new().check(statements).err().map(|error| error.kind)
}

fn evaluate(statements: &Vec<Statement>) -> Result<(), RuntimeError> {
    let numbers = Numbers { arithmetic, parse, format };
    let mut interpreter = Interpreter::new(numbers, vec![], vec![], 10, 10);
    interpreter.evaluate(statements).map(|_| ())
}

#[test]
fn a_token_keeps_its_parts() {
    let token = Token::new(TokenType::Identifier, "name".to_string(), 3);
    assert_eq!(token.token_type, TokenType::Identifier);
    assert_eq!(token.lexeme, "name");
    assert_eq!(token.line, 3);
    assert_eq!(token.duplicate(), token);
    let tokens = vec![token.duplicate(), Token::new(TokenType::EOF, String::new(), 4)];
    assert_eq!(duplicate_tokens(&tokens), tokens);
}

#[test]
fn the_nodes_keep_their_operands() {
    let plus = token(TokenType::Plus, "+");
    let term = Term::new(number("1"), plus.duplicate(), number("2"));
    assert_eq!(term.left, number("1"));
    assert_eq!(term.operator, plus);
    assert_eq!(term.right, number("2"));
    let factor = Factor::new(number("3"), token(TokenType::Star, "*"), number("4"));
    assert_eq!((factor.left, factor.operator.lexeme, factor.right), (number("3"), "*".to_string(), number("4")));
    let comparison = Comparison::new(number("5"), token(TokenType::Less, "<"), number("6"));
    assert_eq!((comparison.left, comparison.operator.token_type, comparison.right), (number("5"), TokenType::Less, number("6")));
    let equality = Equality::new(number("7"), token(TokenType::EqualEqual, "=="), number("8"));
    assert_eq!((equality.left, equality.operator.token_type, equality.right), (number("7"), TokenType::EqualEqual, number("8")));
    let unary = Unary::new(token(TokenType::Minus, "-"), number("9"));
    assert_eq!((unary.operator.token_type, unary.right), (TokenType::Minus, number("9")));
    let primary = Primary::new(token(TokenType::Nil, "nil"));
    assert_eq!(primary.value, token(TokenType::Nil, "nil"));
}

#[test]
fn an_operator_that_the_node_does_not_take_is_an_unexpected_token() {
    let unary = statement(Expression::Unary(Box::new(Unary::new(token(TokenType::Plus, "+"), number("1")))));
    assert_eq!(check(&unary), Some(TypeErrorKind::UnexpectedToken));
    assert_eq!(evaluate(&unary), Err(RuntimeError::UnexpectedToken));
    let term = statement(Expression::Term(Box::new(Term::new(
        number("1"),
        token(TokenType::Star, "*"),
        number("2"),
    ))));
    assert_eq!(check(&term), None);
    assert_eq!(evaluate(&term), Err(RuntimeError::UnexpectedToken));
    let factor = statement(Expression::Factor(Box::new(Factor::new(
        number("1"),
        token(TokenType::Plus, "+"),
        number("2"),
    ))));
    assert_eq!(evaluate(&factor), Err(RuntimeError::UnexpectedToken));
    let comparison = statement(Expression::Comparison(Box::new(Comparison::new(
        number("1"),
        token(TokenType::Plus, "+"),
        number("2"),
    ))));
    assert_eq!(evaluate(&comparison), Err(RuntimeError::UnexpectedToken));
    let equality = statement(Expression::Equality(Box::new(Equality::new(
        number("1"),
        token(TokenType::Less, "<"),
        number("2"),
    ))));
    assert_eq!(evaluate(&equality), Err(RuntimeError::UnexpectedToken));
}

#[test]
fn a_token_that_is_no_literal_is_an_unexpected_token() {
    let primary = statement(Expression::Primary(Box::new(Primary::new(token(TokenType::Plus, "+")))));
    let error = TypeChecker::new().check(&primary).unwrap_err();
    assert_eq!(error.kind, TypeErrorKind::UnexpectedToken);
    assert_eq!(error.line, Some(7));
    assert_eq!(evaluate(&primary), Err(RuntimeError::UnexpectedToken));
}

#[test]
fn a_number_literal_that_is_no_number_fails_at_run_time() {
    assert_eq!(evaluate(&statement(number("1.2.3"))), Err(RuntimeError::InvalidNumber));
    assert_eq!(evaluate(&statement(number("12"))), Ok(()));
}

#[test]
fn a_whole_number_beyond_the_exact_ones_is_out_of_range() {
    let tokens = Lexer::new("range(9007199254740992, 9007199254740994);".to_string()).lex().unwrap();
    let statements = Parser::new(tokens).parse().unwrap();
    assert_eq!(evaluate(&statements), Err(RuntimeError::NumberOutOfRange));
    let tokens = Lexer::new("range(9007199254740990, 9007199254740992);".to_string()).lex().unwrap();
    let statements = Parser::new(tokens).parse().unwrap();
    assert_eq!(evaluate(&statements), Ok(()));
}

#[test]
fn the_built_in_functions_have_their_names_and_arities() {
    let names = built_in_names();
    let functions = built_ins();
    assert_eq!(
        names,
        vec![
            "clock", "println", "input", "iter", "range_to", "range", "range_skip", "len", "push", "to_number",
            "type_of"
        ]
    );
    let arities: Vec<Option<usize>> = functions.iter().map(|function| function.arity).collect();
    assert_eq!(
        arities,
        vec![Some(0), None, Some(0), Some(1), Some(1), Some(2), Some(3), Some(1), Some(2), Some(1), Some(1)]
    );
    assert_eq!(functions[8], BuiltIn::new(Some(2), Native::Push));
    assert_eq!(functions[1].function, Native::Println);
}

#[test]
fn fields_are_found_and_set_by_name() {
    let mut fields: Vec<(String, Value)> = Vec::new();
    assert_eq!(find_field(&fields, &"a".to_string()), None);
    set_field(&mut fields, &"a".to_string(), Value::Number(1));
    set_field(&mut fields, &"b".to_string(), Value::Boolean(true));
    set_field(&mut fields, &"a".to_string(), Value::Nil);
    assert_eq!(fields.len(), 2);
    assert_eq!(find_field(&fields, &"a".to_string()), Some(0));
    assert_eq!(find_field(&fields, &"b".to_string()), Some(1));
    assert_eq!(find_field(&fields, &"c".to_string()), None);
    assert!(matches!(fields[0].1, Value::Nil));
    assert!(matches!(fields[1].1, Value::Boolean(true)));
}

#[test]
fn a_number_names_a_place_of_a_sequence() {
    assert_eq!(place(&Value::Number(0.0f64.to_bits()), 3), Ok(0));
    assert_eq!(place(&Value::Number(2.99f64.to_bits()), 3), Ok(2));
    assert_eq!(place(&Value::Number((-0.5f64).to_bits()), 3), Ok(0));
    assert_eq!(place(&Value::Number(3.0f64.to_bits()), 3), Err(RuntimeError::IndexOutOfRange));
    assert_eq!(place(&Value::Number((-1.0f64).to_bits()), 3), Err(RuntimeError::IndexOutOfRange));
    assert_eq!(place(&Value::Number(0.0f64.to_bits()), 0), Err(RuntimeError::IndexOutOfRange));
    assert_eq!(place(&Value::Nil, 3), Err(RuntimeError::TypeMismatch));
}

#[test]
fn a_byte_is_written_in_decimal() {
    assert_eq!(decimal(0), "0");
    assert_eq!(decimal(7), "7");
    assert_eq!(decimal(10), "10");
    assert_eq!(decimal(65), "65");
    assert_eq!(decimal(100), "100");
    assert_eq!(decimal(209), "209");
    assert_eq!(decimal(255), "255");
}

#[test]
fn values_are_compared_and_named_and_copied() {
    let one = Value::Number(1.0f64.to_bits());
    assert!(one.equals(&Value::Number(1.0f64.to_bits())));
    assert!(!one.equals(&Value::Number(2.0f64.to_bits())));
    assert!(Value::Number(0.0f64.to_bits()).equals(&Value::Number((-0.0f64).to_bits())));
    assert!(!Value::Number(f64::NAN.to_bits()).equals(&Value::Number(f64::NAN.to_bits())));
    assert!(Value::String("a".to_string()).equals(&Value::String("a".to_string())));
    assert!(!Value::String("a".to_string()).equals(&Value::String("b".to_string())));
    assert!(Value::Nil.equals(&Value::Nil));
    assert!(!Value::List(0).equals(&Value::List(0)));
    assert!(!Value::Nil.equals(&Value::Boolean(false)));
    assert_eq!(one.kind(), "number");
    assert_eq!(Value::Record(2).kind(), "record");
    let copies = duplicate_values(&vec![Value::String("x".to_string()), Value::List(4), Value::Nil]);
    assert!(matches!(&copies[0], Value::String(text) if text == "x"));
    assert!(matches!(copies[1], Value::List(4)));
    assert!(matches!(copies[2], Value::Nil));
}

#[test]
fn the_printer_writes_each_statement_on_a_line() {
    let tokens = Lexer::new("make x = 1 + 2; print x; x = [x, f(x)][0];".to_string()).lex().unwrap();
    let statements = Parser::new(tokens).parse().unwrap();
    let text = AstPrinter::new().print(&statements);
    assert_eq!(text, "make x = (1 + 2)\nprint (x)\nx = [x, f(x)][0]\n");
    assert_eq!(AstPrinter::new().print(&vec![]), "");
}

#[test]
fn the_printer_writes_statements_of_every_kind() {
    let source = "funk f(a, b) { if a == b { return; } else { while a != b a = a - 1; } return a; } \
        with {k: 1,} as r for i in iter([r.k]) r.k = r.k + i; x[0] = !true and false or -1 >= 2;";
    let tokens = Lexer::new(source.to_string()).lex().unwrap();
    let statements = Parser::new(tokens).parse().unwrap();
    let text = AstPrinter::new().print(&statements);
    let expected = "funk f (a,b) (\n\
        \tif (a == b) then (\n\
        \treturn ()\n\
        ) else (\n\
        \twhile ((a != b)) do a = (a - 1)\n\
        )\n\
        \treturn (a)\n\
        )\n\
        with { k:1, } as (r) for i in iter([r.k]) r.k = (r.k + i)\n\
        x[0] = (((!true) and false) or ((-1) >= 2))\n";
    assert_eq!(text, expected);
}
