use funk::lexer::Lexer;
use funk::parser::Parser;
use funk::visitors::type_checker::rules::{TypeError, TypeErrorKind};
use funk::visitors::type_checker::TypeChecker;

fn check(source: &str) -> Result<(), TypeError> {
    let tokens = Lexer::new(source.to_string()).lex().unwrap();
    let statements = Parser::new(tokens).parse().unwrap();
    TypeChecker::new().check(&statements)
}

fn accepted(source: &str) {
    assert_eq!(check(source), Ok(()), "{}", source);
}

fn rejected(source: &str, kind: TypeErrorKind) {
    assert_eq!(check(source).map_err(|error| error.kind), Err(kind), "{}", source);
}

#[test]
fn arithmetic_takes_numbers() {
    accepted("1 + 2; 1 - 2; 1 * 2; 1 / 2; 1 + 2 * 3 - 4;");
    rejected("1 * true;", TypeErrorKind::TypeMismatch);
    rejected("nil / 1;", TypeErrorKind::TypeMismatch);
    rejected("1 - \"a\";", TypeErrorKind::TypeMismatch);
    rejected("true + true;", TypeErrorKind::TypeMismatch);
}

#[test]
fn terms_take_two_strings_too() {
    accepted("\"a\" + \"b\"; \"a\" - \"b\";");
    rejected("\"a\" + 1;", TypeErrorKind::TypeMismatch);
    rejected("\"a\" * \"b\";", TypeErrorKind::TypeMismatch);
}

#[test]
fn unknown_goes_with_every_operator() {
    accepted("funk f(a) { a + 1; 1 * a; a < 2; a == nil; a and true; false or a; a(1); a[0]; a.k; }");
    accepted("make x = input(); x + 1; x < 2; x == true;");
}

#[test]
fn comparison_takes_numbers() {
    accepted("1 < 2; 1 <= 2; 1 > 2; 1 >= 2;");
    rejected("1 < true;", TypeErrorKind::TypeMismatch);
    rejected("\"a\" < \"b\";", TypeErrorKind::TypeMismatch);
}

#[test]
fn equality_takes_two_of_one_type() {
    accepted("1 == 2; true != false; \"a\" == \"b\"; nil == nil; [1] == [2];");
    rejected("1 == true;", TypeErrorKind::TypeMismatch);
    rejected("nil != 1;", TypeErrorKind::TypeMismatch);
}

#[test]
fn and_and_or_take_booleans() {
    accepted("true and false; true or 1 < 2;");
    rejected("1 and true;", TypeErrorKind::TypeMismatch);
    rejected("true or nil;", TypeErrorKind::TypeMismatch);
}

#[test]
fn unary_operators_take_their_own_type() {
    accepted("-1; !true; --1; !!false;");
    rejected("-true;", TypeErrorKind::TypeMismatch);
    rejected("!1;", TypeErrorKind::TypeMismatch);
    rejected("funk f(a) { -a; }", TypeErrorKind::TypeMismatch);
}

#[test]
fn conditions_are_booleans() {
    accepted("if true { } while 1 < 2 { } 1 if true else 2;");
    rejected("if 1 { }", TypeErrorKind::NonBooleanCondition);
    rejected("while nil { }", TypeErrorKind::NonBooleanCondition);
    rejected("1 if 2 else 3;", TypeErrorKind::NonBooleanCondition);
    rejected("funk f(a) { if a { } }", TypeErrorKind::NonBooleanCondition);
}

#[test]
fn bodies_of_if_and_while_have_the_type_nil() {
    accepted("funk f() { if true { return 1; } while true print 1; if true { } else { return 2; } }");
    rejected("funk f() { if true return 1; }", TypeErrorKind::NonNilBody);
    rejected("funk f() { if true { } else return 1; }", TypeErrorKind::NonNilBody);
    rejected("funk f() { while true return 1; }", TypeErrorKind::NonNilBody);
    accepted("funk f() { if true return; }");
}

#[test]
fn names_must_be_declared() {
    accepted("make x = 1; x; x = 2;");
    rejected("x;", TypeErrorKind::UndefinedVariable);
    rejected("x = 1;", TypeErrorKind::UndefinedVariable);
    rejected("{ make x = 1; } x;", TypeErrorKind::UndefinedVariable);
    let error = check("make y;\n\nprint x;").unwrap_err();
    assert_eq!(error.line, Some(2));
}

#[test]
fn an_assignment_stores_the_type_of_its_value() {
    accepted("make x = 1; x = \"a\"; x + \"b\";");
    rejected("make x = 1; x = \"a\"; x + 1;", TypeErrorKind::TypeMismatch);
    accepted("make x; make y; x = y = 1; x + y;");
}

#[test]
fn the_built_in_names_are_functions() {
    accepted("clock(); println(1, 2); input(); iter([1]); range_to(1); range(1, 2); range_skip(1, 2, 1); \
        len([1]); push([1], 2); to_number(\"1\"); type_of(1);");
    rejected("len + 1;", TypeErrorKind::TypeMismatch);
}

#[test]
fn what_is_called_is_a_function() {
    accepted("funk f() { } f(); f(1, 2, 3);");
    rejected("make x = 1; x();", TypeErrorKind::NotCallable);
    rejected("\"f\"();", TypeErrorKind::NotCallable);
    rejected("funk f() { } f(1 + true);", TypeErrorKind::TypeMismatch);
}

#[test]
fn a_function_may_call_itself_and_its_neighbours() {
    accepted("funk f(n) { return f(n - 1); }");
    accepted("funk f(n) { funk g(m) { return f(m); } return g(n); }");
}

#[test]
fn parameters_are_unknown() {
    accepted("funk f(a, b) { return a + b * 2; }");
    rejected("funk f(a) { return c; }", TypeErrorKind::UndefinedVariable);
    rejected("funk f(a) { } a;", TypeErrorKind::UndefinedVariable);
}

#[test]
fn what_is_indexed_is_a_list_or_a_string() {
    accepted("[1][0]; \"ab\"[1]; make l = [1]; l[0] = 2;");
    rejected("1[0];", TypeErrorKind::NotIndexable);
    rejected("[1][true];", TypeErrorKind::InvalidIndex);
    rejected("make s = \"a\"; s[0] = 1;", TypeErrorKind::NotIndexable);
    rejected("make l = [1]; l[nil] = 1;", TypeErrorKind::InvalidIndex);
}

#[test]
fn a_field_is_taken_of_a_record() {
    accepted("make r = {a: 1,}; r.a; r.a = 2; r.b.c;");
    rejected("make l = [1]; l.a;", TypeErrorKind::NotARecord);
    rejected("make l = [1]; l.a = 1;", TypeErrorKind::NotARecord);
}

#[test]
fn the_keys_of_a_record_are_identifiers() {
    accepted("make r = {a: 1, b: 2,};");
    rejected("make r = {1: 2,};", TypeErrorKind::InvalidIdentifier);
    rejected("make r = {a: 1 + nil,};", TypeErrorKind::TypeMismatch);
}

#[test]
fn with_and_for_bind_identifiers() {
    accepted("with 1 as x { x + 1; }");
    rejected("with 1 as 2 { }", TypeErrorKind::InvalidIdentifier);
    rejected("with 1 as x { } x;", TypeErrorKind::UndefinedVariable);
    accepted("for i in range_to(3) { i + 1; }");
    rejected("for 1 in range_to(3) { }", TypeErrorKind::InvalidIdentifier);
    rejected("for i in [1, 2] { }", TypeErrorKind::InvalidIterator);
    rejected("for i in range_to(3) { } i;", TypeErrorKind::UndefinedVariable);
}

#[test]
fn the_first_violation_is_reported() {
    rejected("1 + true; x;", TypeErrorKind::TypeMismatch);
    rejected("x; 1 + true;", TypeErrorKind::UndefinedVariable);
}
