use funk::lexer::Lexer;
use funk::parser::expression::Expression;
use funk::parser::grammar::{ParseError, ParseErrorKind};
use funk::parser::statement::Statement;
use funk::parser::Parser;
use funk::token::{Token, TokenType};
use funk::visitors::ast_printer::AstPrinter;

fn token(token_type: TokenType, lexeme: &str) -> Token {
    Token::new(token_type, lexeme.to_string(), 1)
}

fn parse(source: &str) -> Result<Vec<Statement>, ParseError> {
    let tokens = Lexer::new(source.to_string()).lex().unwrap();
    Parser::new(tokens).parse()
}

/// The tree of a program as text, with every grouping shown.
fn shape(source: &str) -> String {
    let statements = parse(source).unwrap();
    AstPrinter::new().print(&statements)
}

fn error(source: &str) -> ParseErrorKind {
    parse(source).unwrap_err().kind
}

#[test]
fn parses_a_print_statement() {
    let tokens = vec![
        token(TokenType::Print, "print"),
        token(TokenType::Number, "1"),
        token(TokenType::Semicolon, ";"),
        token(TokenType::EOF, ""),
    ];
    let mut parser = Parser::new(tokens);
    let statements = parser.parse().unwrap();
    assert_eq!(statements.len(), 1);
    assert!(matches!(statements[0], Statement::PrintStatement(_)));
}

#[test]
fn reports_a_missing_semicolon() {
    let tokens = vec![
        token(TokenType::Print, "print"),
        token(TokenType::Number, "1"),
        token(TokenType::EOF, ""),
    ];
    let mut parser = Parser::new(tokens);
    let error = parser.parse().unwrap_err();
    assert_eq!(error.kind, ParseErrorKind::ExpectedSemicolon);
    assert_eq!(error.found, TokenType::EOF);
    assert_eq!(error.line, 1);
}

#[test]
fn parsing_is_deterministic() {
    let source = "funk f(a, b) { if a < b { return [a, {k: b,}]; } else return f(b, a)[0].k; } \
        for i in range(1, 3) with i as j while j > 0 j = j - 1;";
    let first = parse(source).unwrap();
    let second = parse(source).unwrap();
    assert_eq!(first, second);
    let tokens = Lexer::new(source.to_string()).lex().unwrap();
    let copy = tokens.clone();
    assert_eq!(Parser::new(tokens).parse(), Parser::new(copy).parse());
    assert_eq!(parse("print (;"), parse("print (;"));
}

#[test]
fn no_tokens_at_all_are_an_empty_program() {
    assert_eq!(Parser::new(vec![]).parse(), Ok(vec![]));
    assert_eq!(Parser::new(vec![token(TokenType::EOF, "")]).parse(), Ok(vec![]));
}

#[test]
fn factors_bind_tighter_than_terms() {
    assert_eq!(shape("1 + 2 * 3;"), "(1 + (2 * 3))\n");
    assert_eq!(shape("1 * 2 + 3;"), "((1 * 2) + 3)\n");
    assert_eq!(shape("(1 + 2) * 3;"), "((1 + 2) * 3)\n");
}

#[test]
fn binary_operators_group_to_the_left() {
    assert_eq!(shape("1 - 2 - 3;"), "((1 - 2) - 3)\n");
    assert_eq!(shape("8 / 4 / 2;"), "((8 / 4) / 2)\n");
    assert_eq!(shape("a or b or c;"), "((a or b) or c)\n");
    assert_eq!(shape("a and b and c;"), "((a and b) and c)\n");
}

#[test]
fn the_tiers_nest_from_or_down_to_unary() {
    assert_eq!(
        shape("a or b and c == d < e + f * -g;"),
        "(a or (b and (c == (d < (e + (f * (-g)))))))\n"
    );
    assert_eq!(shape("!!a;"), "(!(!a))\n");
}

#[test]
fn the_conditional_expression_wraps_what_was_read_before() {
    assert_eq!(shape("a if c else b;"), "if c then a else b\n");
    assert_eq!(shape("a if c else b if d else e;"), "if d then if c then a else b else e\n");
}

#[test]
fn assignment_groups_to_the_right() {
    assert_eq!(shape("a = b = c;"), "a = b = c\n");
    let statements = parse("a = b = c;").unwrap();
    match &statements[0] {
        Statement::ExpressionStatement(statement) => match &statement.expression {
            Expression::Assignment(outer) => {
                assert_eq!(outer.identifier.lexeme, "a");
                assert!(matches!(outer.value, Expression::Assignment(_)));
            },
            _ => panic!("an assignment was expected"),
        },
        _ => panic!("an expression statement was expected"),
    }
}

#[test]
fn the_three_shapes_of_assignment_targets() {
    let statements = parse("a = 1; a[0] = 1; a.k = 1; a.b[1].c = 2;").unwrap();
    let kinds: Vec<&str> = statements
        .iter()
        .map(|statement| match statement {
            Statement::ExpressionStatement(statement) => match &statement.expression {
                Expression::Assignment(_) => "assignment",
                Expression::IndexAssignment(_) => "index",
                Expression::MapIndexAssignment(_) => "field",
                _ => "other",
            },
            _ => "other",
        })
        .collect();
    assert_eq!(kinds, vec!["assignment", "index", "field", "field"]);
}

#[test]
fn other_assignment_targets_are_rejected() {
    assert_eq!(error("1 = 2;"), ParseErrorKind::InvalidAssignmentTarget);
    assert_eq!(error("a + b = 2;"), ParseErrorKind::InvalidAssignmentTarget);
    assert_eq!(error("f() = 2;"), ParseErrorKind::InvalidAssignmentTarget);
    assert_eq!(error("[a] = 2;"), ParseErrorKind::InvalidAssignmentTarget);
    let found = parse("make x;\nx + 1 = 2;").unwrap_err();
    assert_eq!(found.found, TokenType::Equal);
    assert_eq!(found.line, 1);
}

#[test]
fn calls_indexings_and_fields_chain() {
    assert_eq!(shape("f(1, 2)(3)[4].k;"), "f(1, 2)(3)[4].k\n");
    assert_eq!(shape("f();"), "f()\n");
}

#[test]
fn lists_and_records() {
    assert_eq!(shape("[];"), "[]\n");
    assert_eq!(shape("[1, [2, 3]];"), "[1, [2, 3]]\n");
    assert_eq!(shape("x = {};"), "x = {  }\n");
    assert_eq!(shape("x = {a: 1, b: {c: 2,},};"), "x = { a:1,, b:{ c:2, }, }\n");
}

#[test]
fn statements_of_every_kind() {
    assert_eq!(shape("make x;"), "make x\n");
    assert_eq!(shape("make x = 1;"), "make x = 1\n");
    assert_eq!(shape("print x;"), "print (x)\n");
    assert_eq!(shape("{ x; y; }"), "(\n\tx\n\ty\n)\n");
    assert_eq!(shape("if a b; else c;"), "if a then b else c\n");
    assert_eq!(shape("if a b;"), "if a then b\n");
    assert_eq!(shape("while a b;"), "while (a) do b\n");
    assert_eq!(shape("funk f(a, b) { return; }"), "funk f (a,b) (\n\treturn ()\n)\n");
    assert_eq!(shape("funk f() { return 1; }"), "funk f () (\n\treturn (1)\n)\n");
    assert_eq!(shape("with a as b c;"), "with a as (b) c\n");
    assert_eq!(shape("for i in a b;"), "for i in a b\n");
}

#[test]
fn an_if_behind_an_expression_is_a_conditional_expression() {
    assert_eq!(shape("if a { if b c; else d; }"), "if a then (\n\tif b then c else d\n)\n");
    let found = parse("if a if b c; else d;").unwrap_err();
    assert_eq!(found.kind, ParseErrorKind::ExpectedElse);
}

#[test]
fn each_missing_token_has_an_error_of_its_own() {
    assert_eq!(error("print 1"), ParseErrorKind::ExpectedSemicolon);
    assert_eq!(error("x"), ParseErrorKind::ExpectedSemicolon);
    assert_eq!(error("make x = 1"), ParseErrorKind::ExpectedSemicolon);
    assert_eq!(error("return 1"), ParseErrorKind::ExpectedSemicolon);
    assert_eq!(error("(1;"), ParseErrorKind::ExpectedRightParen);
    assert_eq!(error("f(1;"), ParseErrorKind::ExpectedRightParen);
    assert_eq!(error("funk f(a;"), ParseErrorKind::ExpectedRightParen);
    assert_eq!(error("a[1;"), ParseErrorKind::ExpectedRightBracket);
    assert_eq!(error("[1, 2;"), ParseErrorKind::ExpectedRightBracket);
    assert_eq!(error("{ x;"), ParseErrorKind::ExpectedRightBrace);
    assert_eq!(error("funk f;"), ParseErrorKind::ExpectedLeftParen);
    assert_eq!(error("funk f() x;"), ParseErrorKind::ExpectedLeftBrace);
    assert_eq!(error("x = {a 1,};"), ParseErrorKind::ExpectedColon);
    assert_eq!(error("x = {a: 1};"), ParseErrorKind::ExpectedComma);
    assert_eq!(error("a if b;"), ParseErrorKind::ExpectedElse);
    assert_eq!(error("make x 1;"), ParseErrorKind::ExpectedEqual);
    assert_eq!(error("for i a b;"), ParseErrorKind::ExpectedIn);
    assert_eq!(error("with a b c;"), ParseErrorKind::ExpectedAs);
    assert_eq!(error("print ;"), ParseErrorKind::UnexpectedToken);
    assert_eq!(error("1 + ;"), ParseErrorKind::UnexpectedToken);
    assert_eq!(error("[1, ];"), ParseErrorKind::UnexpectedToken);
}

#[test]
fn tokens_that_end_too_early_are_an_error() {
    let tokens = vec![token(TokenType::Make, "make")];
    assert_eq!(Parser::new(tokens).parse().unwrap_err().kind, ParseErrorKind::UnexpectedEndOfInput);
    let tokens = vec![token(TokenType::Identifier, "a"), token(TokenType::Dot, ".")];
    assert_eq!(Parser::new(tokens).parse().unwrap_err().kind, ParseErrorKind::UnexpectedEndOfInput);
}

#[test]
fn an_error_carries_the_line_of_the_token_it_was_found_at() {
    let found = parse("make x = 1;\n\nprint (x\n;").unwrap_err();
    assert_eq!(found.kind, ParseErrorKind::ExpectedRightParen);
    assert_eq!(found.found, TokenType::Semicolon);
    assert_eq!(found.line, 3);
}

#[test]
fn the_first_error_ends_the_parse() {
    let found = parse("print 1 print 2").unwrap_err();
    assert_eq!(found.kind, ParseErrorKind::ExpectedSemicolon);
    assert_eq!(found.found, TokenType::Print);
}
