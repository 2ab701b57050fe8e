use funk::lexer::Lexer;
use funk::parser::Parser;
use funk::visitors::interpreter::number::{Arithmetic, Numbers};
use funk::visitors::interpreter::value::{RuntimeError, Value};
use funk::visitors::interpreter::Interpreter;
use funk::visitors::type_checker::TypeChecker;

fn arithmetic(operation: Arithmetic, a: u64, b: u64) -> u64 {
    let (x, y) = (f64::from_bits(a), f64::from_bits(b));
    let result = match operation {
        Arithmetic::Add => x + y,
        Arithmetic::Subtract => x - y,
        Arithmetic::Multiply => x * y,
        Arithmetic::Divide => x / y,
    };
    result.to_bits()
}

fn parse(text: &String) -> Option<u64> {
    text.parse::<f64>().ok().map(f64::to_bits)
}

fn format(bits: u64) -> String {
    f64::from_bits(bits).to_string()
}

/// Scans, parses, checks and runs a program; gives the lines it wrote and
/// how it ended.
fn run_with(source: &str, input: Vec<String>, depth: usize, iterations: usize) -> (Vec<String>, Result<(), RuntimeError>) {
    let mut lexer = Lexer::new(source.to_string());
    let tokens = lexer.lex().expect("the program scans");
    let mut parser = Parser::new(tokens);
    let statements = parser.parse().expect("the program parses");
    let mut checker = TypeChecker::new();
    checker.check(&statements).expect("the program checks");
    let numbers = Numbers { arithmetic, parse, format };
    let mut interpreter = Interpreter::new(numbers, input, vec![1_700_000_000_000], iterations, depth);
    let result = interpreter.evaluate(&statements);
    let lines = interpreter.output().clone();
    (lines, result.map(|value| assert!(matches!(value, Value::Nil))))
}

fn run(source: &str) -> (Vec<String>, Result<(), RuntimeError>) {
    run_with(source, vec![], 200, 100_000)
}

fn lines(source: &str) -> Vec<String> {
    let (lines, result) = run(source);
    assert_eq!(result, Ok(()));
    lines
}

#[test]
fn adds_two_variables() {
    assert_eq!(lines("make x = 3; make y = 4; print x + y;"), vec!["7"]);
}

#[test]
fn computes_a_factorial_by_recursion() {
    let source = "funk f(n) { if n <= 1 { return 1; } return n * f(n - 1); } print f(5);";
    assert_eq!(lines(source), vec!["120"]);
}

#[test]
fn push_appends_to_a_list() {
    assert_eq!(lines("make l = [1, 2, 3]; push(l, 4); print l;"), vec!["[1, 2, 3, 4]"]);
}

#[test]
fn assigns_to_a_field_of_a_record() {
    assert_eq!(lines("make r = {a: 1,}; r.a = 2; print r.a;"), vec!["2"]);
}

#[test]
fn for_runs_over_a_range() {
    assert_eq!(lines("for i in range_to(3) { print i; }"), vec!["0", "1", "2"]);
}

#[test]
fn reading_an_undeclared_variable_fails() {
    let mut lexer = Lexer::new("print x;".to_string());
    let tokens = lexer.lex().unwrap();
    let statements = Parser::new(tokens).parse().unwrap();
    let numbers = Numbers { arithmetic, parse, format };
    let mut interpreter = Interpreter::new(numbers, vec![], vec![], 10, 10);
    let result = interpreter.evaluate(&statements);
    assert!(matches!(result, Err(RuntimeError::UndefinedVariable)));
}

#[test]
fn a_variable_without_initializer_is_nil() {
    assert_eq!(lines("make x; print x;"), vec!["nil"]);
}

#[test]
fn a_variable_of_a_block_is_gone_after_the_block() {
    let mut lexer = Lexer::new("{ make x = 1; } print x;".to_string());
    let tokens = lexer.lex().unwrap();
    let statements = Parser::new(tokens).parse().unwrap();
    let numbers = Numbers { arithmetic, parse, format };
    let mut interpreter = Interpreter::new(numbers, vec![], vec![], 10, 10);
    let result = interpreter.evaluate(&statements);
    assert!(matches!(result, Err(RuntimeError::UndefinedVariable)));
}

#[test]
fn an_assignment_in_a_block_reaches_the_outer_variable() {
    assert_eq!(lines("make x = 1; { x = 2; { x = x + 1; } } print x;"), vec!["3"]);
}

#[test]
fn an_assignment_in_a_loop_reaches_the_outer_variable() {
    let source = "make n = 0; make i = 0; while i < 3 { n = n + 10; i = i + 1; } print n;";
    assert_eq!(lines(source), vec!["30"]);
}

#[test]
fn an_assignment_in_a_with_body_reaches_the_outer_variable() {
    assert_eq!(lines("make x = 1; with 5 as y { x = x + y; } print x;"), vec!["6"]);
}

#[test]
fn a_closure_resolves_names_in_its_defining_scope() {
    let source = "make x = 1; \
        funk outer() { make x = 10; funk inner() { return x; } return inner; } \
        make f = outer(); \
        { make x = 100; print f(); }";
    assert_eq!(lines(source), vec!["10"]);
}

#[test]
fn a_closure_sees_later_changes_of_its_scope() {
    let source = "make count = 0; funk bump() { count = count + 1; return count; } bump(); bump(); print count;";
    assert_eq!(lines(source), vec!["2"]);
}

#[test]
fn return_leaves_nested_blocks_and_loops() {
    let source = "funk find() { \
            for i in range_to(10) { \
                while true { \
                    if i == 3 { { return i; } } \
                    { i = i; } \
                    if true { return 0 - 1; } \
                } \
            } \
            return 99; \
        } \
        print find();";
    assert_eq!(lines(source), vec!["-1"]);
}

#[test]
fn return_stops_the_statements_behind_it() {
    let source = "funk f() { print 1; return 2; print 3; } print f();";
    assert_eq!(lines(source), vec!["1", "2"]);
}

#[test]
fn return_at_top_level_is_rejected() {
    let (lines, result) = run("print 1; return 2; print 3;");
    assert_eq!(lines, vec!["1"]);
    assert_eq!(result, Err(RuntimeError::ReturnOutsideFunction));
}

#[test]
fn and_does_not_evaluate_its_right_operand_after_false() {
    let source = "make n = 0; funk touch() { n = n + 1; return true; } \
        print false and touch(); print n; print true and touch(); print n;";
    assert_eq!(lines(source), vec!["false", "0", "true", "1"]);
}

#[test]
fn or_does_not_evaluate_its_right_operand_after_true() {
    let source = "make n = 0; funk touch() { n = n + 1; return false; } \
        print true or touch(); print n; print false or touch(); print n;";
    assert_eq!(lines(source), vec!["true", "0", "false", "1"]);
}

#[test]
fn two_names_of_one_list_see_each_others_changes() {
    let source = "make a = [1, 2]; make b = a; push(b, 3); a[0] = 9; print a; print b;";
    assert_eq!(lines(source), vec!["[9, 2, 3]", "[9, 2, 3]"]);
}

#[test]
fn two_lists_written_alike_are_apart() {
    let source = "make a = [1, 2]; make b = [1, 2]; push(b, 3); print a; print b;";
    assert_eq!(lines(source), vec!["[1, 2]", "[1, 2, 3]"]);
}

#[test]
fn two_names_of_one_record_see_each_others_changes() {
    let source = "make r = {a: 1, b: 2,}; make s = r; s.a = 5; print r; print r.a;";
    assert_eq!(lines(source), vec!["{a:5, b:2}", "5"]);
}

#[test]
fn the_conditional_expression_groups_to_the_left() {
    // (1 if false else 2) if true else 3
    assert_eq!(lines("print 1 if false else 2 if true else 3;"), vec!["2"]);
    // (1 if true else 2) if false else 3
    assert_eq!(lines("print 1 if true else 2 if false else 3;"), vec!["3"]);
}

#[test]
fn strings_are_joined_by_plus() {
    assert_eq!(lines("print \"ab\" + 'cd';"), vec!["abcd"]);
}

#[test]
fn numbers_divide_as_floating_point() {
    assert_eq!(lines("print 1 / 4; print 7 / 2 * 2; print 0.1 + 0.2;"), vec!["0.25", "7", "0.30000000000000004"]);
}

#[test]
fn comparisons_order_numbers() {
    let source = "print 1 < 2; print 2 <= 2; print 3 > 4; print 0 - 1 >= 0 - 1; print 0 - 2 < 0 - 1; print 0 - 1 < 1;";
    assert_eq!(lines(source), vec!["true", "true", "false", "true", "true", "true"]);
}

#[test]
fn equality_compares_values_of_one_kind() {
    let source = "print 1 == 1; print 1 != 2; print \"a\" == \"a\"; print nil == nil; print true == false; \
        make l = [1]; funk same(a, b) { return a == b; } print same(l, l); print same(1, \"1\");";
    assert_eq!(lines(source), vec!["true", "true", "true", "true", "false", "false", "false"]);
}

#[test]
fn unary_operators() {
    assert_eq!(lines("print -3; print !true; print --2;"), vec!["-3", "false", "2"]);
}

#[test]
fn range_with_bounds_and_step() {
    assert_eq!(lines("for i in range(2, 5) { print i; }"), vec!["2", "3", "4"]);
    assert_eq!(lines("for i in range_skip(1, 8, 3) { print i; }"), vec!["1", "4", "7"]);
}

#[test]
fn range_rejects_bounds_out_of_order() {
    let (_, result) = run("range(5, 2);");
    assert_eq!(result, Err(RuntimeError::InvalidRange));
    let (_, result) = run("range(2, 2);");
    assert_eq!(result, Err(RuntimeError::InvalidRange));
    let (_, result) = run("range_to(0 - 1);");
    assert_eq!(result, Err(RuntimeError::InvalidRange));
    let (_, result) = run("range_skip(1, 5, 0);");
    assert_eq!(result, Err(RuntimeError::InvalidRange));
}

#[test]
fn iter_runs_over_a_list_and_over_a_string() {
    assert_eq!(lines("for x in iter([1, \"a\", nil]) { print x; }"), vec!["1", "a", "nil"]);
    assert_eq!(lines("for c in iter(\"héj\") { print c; }"), vec!["h", "é", "j"]);
}

#[test]
fn len_counts_elements_and_bytes() {
    assert_eq!(lines("print len([1, 2, 3]); print len(\"abc\"); print len(\"é\"); print len([]);"), vec!["3", "3", "2", "0"]);
}

#[test]
fn to_number_reads_a_number() {
    assert_eq!(lines("print to_number(\"2.5\") * 2;"), vec!["5"]);
    let (_, result) = run("to_number(\"abc\");");
    assert_eq!(result, Err(RuntimeError::InvalidNumber));
}

#[test]
fn type_of_names_the_kind() {
    let source = "funk f() { } print type_of(1); print type_of(\"a\"); print type_of(true); print type_of(nil); \
        print type_of([1]); print type_of({a: 1,}); print type_of(f); print type_of(len); print type_of(iter([1]));";
    assert_eq!(
        lines(source),
        vec!["number", "string", "boolean", "nil", "list", "record", "function", "builtin function", "iter"]
    );
}

#[test]
fn println_writes_its_arguments_as_one_line() {
    assert_eq!(lines("println(1, \"a\", true, nil, [1, [2]]); println();"), vec!["1atruenil[1, [2]]", ""]);
}

#[test]
fn values_are_written_as_text() {
    let source = "funk f() { } print f; print len; print iter([1, 2]); print {a: [1], b: \"x\",}; print [];";
    assert_eq!(lines(source), vec!["<funk>", "<native funk>", "Iter [1, 2]", "{a:[1], b:x}", "[]"]);
}

#[test]
fn input_reads_the_lines_given() {
    let (lines, result) = run_with(
        "print input(); print input() + \"!\";",
        vec!["first".to_string(), "second".to_string()],
        10,
        10,
    );
    assert_eq!(result, Ok(()));
    assert_eq!(lines, vec!["first", "second!"]);
}

#[test]
fn a_program_that_reads_more_than_was_given_asks_for_input() {
    let (lines, result) = run_with("print 1; print input(); print input(); print 2;", vec!["a".to_string()], 10, 10);
    assert_eq!(lines, vec!["1", "a"]);
    assert_eq!(result, Err(RuntimeError::InputNeeded));
}

#[test]
fn clock_gives_the_readings_given() {
    assert_eq!(lines("print clock();"), vec!["1700000000000"]);
    let (lines, result) = run("print clock(); print clock();");
    assert_eq!(lines, vec!["1700000000000"]);
    assert_eq!(result, Err(RuntimeError::ClockNeeded));
}

/// Runs a program as a host would: whenever it asks for a line or for the
/// time it is run again from the start with one more handed in. Gives the
/// lines written by each run.
fn replay(source: &str, mut supply: Vec<&str>, mut times: Vec<u64>) -> Vec<Vec<String>> {
    let tokens = Lexer::new(source.to_string()).lex().unwrap();
    let statements = Parser::new(tokens).parse().unwrap();
    let mut input: Vec<String> = Vec::new();
    let mut readings: Vec<u64> = Vec::new();
    let mut runs = Vec::new();
    supply.reverse();
    times.reverse();
    loop {
        let numbers = Numbers { arithmetic, parse, format };
        let mut interpreter = Interpreter::new(numbers, input.clone(), readings.clone(), 100, 100);
        let result = interpreter.evaluate(&statements);
        runs.push(interpreter.output().clone());
        match result {
            Err(RuntimeError::InputNeeded) => input.push(supply.pop().unwrap().to_string()),
            Err(RuntimeError::ClockNeeded) => readings.push(times.pop().unwrap()),
            _ => return runs,
        }
    }
}

#[test]
fn a_program_run_again_with_more_input_goes_on_where_it_stopped() {
    let source = "print \"name?\"; make n = input(); print \"hello \" + n; \
        make t = clock(); print \"age?\"; make a = to_number(input()); print clock() - t; print a + 1;";
    let runs = replay(source, vec!["ann", "41"], vec![1000, 1250]);
    assert_eq!(
        runs,
        vec![
            vec!["name?"],
            vec!["name?", "hello ann"],
            vec!["name?", "hello ann", "age?"],
            vec!["name?", "hello ann", "age?"],
            vec!["name?", "hello ann", "age?", "250", "42"],
        ]
    );
}

#[test]
fn more_input_than_a_program_reads_changes_nothing() {
    let source = "print input(); print clock();";
    let tokens = Lexer::new(source.to_string()).lex().unwrap();
    let statements = Parser::new(tokens).parse().unwrap();
    let mut outputs = Vec::new();
    for extra in 0..3 {
        let mut input = vec!["a".to_string()];
        let mut readings = vec![5];
        for i in 0..extra {
            input.push(format!("more {}", i));
            readings.push(6 + i);
        }
        let numbers = Numbers { arithmetic, parse, format };
        let mut interpreter = Interpreter::new(numbers, input, readings, 10, 10);
        assert!(interpreter.evaluate(&statements).is_ok());
        outputs.push(interpreter.output().clone());
    }
    assert_eq!(outputs, vec![vec!["a", "5"], vec!["a", "5"], vec!["a", "5"]]);
}

#[test]
fn indexing_reads_elements_and_bytes() {
    assert_eq!(lines("make l = [10, 20, 30]; print l[1]; print l[2.9]; print \"hA\"[1];"), vec!["20", "30", "65"]);
}

#[test]
fn an_index_outside_the_list_fails() {
    let (_, result) = run("make l = [1]; print l[1];");
    assert_eq!(result, Err(RuntimeError::IndexOutOfRange));
    let (_, result) = run("make l = [1]; print l[0 - 1];");
    assert_eq!(result, Err(RuntimeError::IndexOutOfRange));
    let (_, result) = run("make l = [1]; l[3] = 2;");
    assert_eq!(result, Err(RuntimeError::IndexOutOfRange));
}

#[test]
fn a_field_that_a_record_lacks_fails() {
    let (_, result) = run("make r = {a: 1,}; print r.b;");
    assert_eq!(result, Err(RuntimeError::InvalidKey));
    let (_, result) = run("make r = {a: 1,}; r.b = 2;");
    assert_eq!(result, Err(RuntimeError::InvalidKey));
}

#[test]
fn a_call_with_the_wrong_number_of_arguments_fails() {
    let (_, result) = run("len();");
    assert_eq!(result, Err(RuntimeError::ArityMismatch));
    let (_, result) = run("funk f(a) { } f(1, 2);");
    assert_eq!(result, Err(RuntimeError::ArityMismatch));
}

#[test]
fn operands_of_the_wrong_kind_fail_at_run_time() {
    let (_, result) = run("funk f(a) { return a + 1; } f(\"x\");");
    assert_eq!(result, Err(RuntimeError::TypeMismatch));
    let (_, result) = run("funk f(a) { if a and true { } } f(1);");
    assert_eq!(result, Err(RuntimeError::TypeMismatch));
}

#[test]
fn what_is_called_must_be_a_function() {
    let (_, result) = run("funk f(a) { return a(); } f(1);");
    assert_eq!(result, Err(RuntimeError::NotCallable));
}

#[test]
fn for_runs_over_iterators_alone() {
    let (_, result) = run("funk f(a) { for x in a { } } f([1, 2]);");
    assert_eq!(result, Err(RuntimeError::InvalidIterator));
}

#[test]
fn built_in_functions_reject_arguments_of_the_wrong_kind() {
    let (_, result) = run("len(1);");
    assert_eq!(result, Err(RuntimeError::InvalidArgument));
    let (_, result) = run("push(1, 2);");
    assert_eq!(result, Err(RuntimeError::InvalidArgument));
    let (_, result) = run("iter(true);");
    assert_eq!(result, Err(RuntimeError::InvalidArgument));
    let (_, result) = run("to_number(1);");
    assert_eq!(result, Err(RuntimeError::InvalidArgument));
    let (_, result) = run("range_to(\"a\");");
    assert_eq!(result, Err(RuntimeError::InvalidArgument));
}

#[test]
fn calls_nested_too_deep_stop_the_program() {
    let (lines, result) = run_with("funk f(n) { print n; return f(n + 1); } f(0);", vec![], 3, 10);
    assert_eq!(lines, vec!["0", "1", "2"]);
    assert_eq!(result, Err(RuntimeError::DepthExceeded));
}

#[test]
fn a_loop_that_repeats_too_often_stops_the_program() {
    let (lines, result) = run_with("make i = 0; while true { print i; i = i + 1; }", vec![], 10, 3);
    assert_eq!(lines, vec!["0", "1", "2"]);
    assert_eq!(result, Err(RuntimeError::IterationsExceeded));
    let (lines, result) = run_with("make i = 0; while i < 3 { i = i + 1; } print i;", vec![], 10, 3);
    assert_eq!(lines, vec!["3"]);
    assert_eq!(result, Ok(()));
}

#[test]
fn a_list_that_holds_itself_cannot_be_written() {
    let (_, result) = run("make l = [1]; push(l, l); print l;");
    assert_eq!(result, Err(RuntimeError::DepthExceeded));
}

#[test]
fn what_was_written_before_an_error_stays_written() {
    let (lines, result) = run("make l = [1]; print l[0]; print l[5]; print 3;");
    assert_eq!(lines, vec!["1"]);
    assert_eq!(result, Err(RuntimeError::IndexOutOfRange));
}

#[test]
fn a_for_loop_runs_over_the_elements_it_found_at_its_start() {
    let source = "make l = [1, 2]; for x in iter(l) { push(l, x + 10); } print l;";
    assert_eq!(lines(source), vec!["[1, 2, 11, 12]"]);
}

#[test]
fn an_iterator_shares_the_sequence_of_its_list() {
    let source = "make l = [1]; make it = iter(l); push(l, 2); for x in it { print x; }";
    assert_eq!(lines(source), vec!["1", "2"]);
}

#[test]
fn each_repetition_of_a_for_has_a_scope_of_its_own() {
    let source = "make fs = []; for i in range_to(3) { funk f() { return i; } push(fs, f); } \
        for f in iter(fs) { print f(); }";
    assert_eq!(lines(source), vec!["0", "1", "2"]);
}

#[test]
fn a_function_value_can_be_passed_and_returned() {
    let source = "funk twice(f) { funk g(x) { return f(f(x)); } return g; } \
        funk inc(x) { return x + 1; } print twice(twice(inc))(0);";
    assert_eq!(lines(source), vec!["4"]);
}

#[test]
fn with_binds_one_name_for_its_body() {
    let source = "with [1, 2] as l { push(l, 3); print len(l); }";
    assert_eq!(lines(source), vec!["3"]);
}

#[test]
fn a_record_keeps_its_fields_in_the_order_written() {
    let source = "make r = {b: 1, a: 2, b: 3,}; print r; r.a = [r.b]; print r;";
    assert_eq!(lines(source), vec!["{b:3, a:2}", "{b:3, a:[3]}"]);
}

#[test]
fn not_a_number_is_equal_to_nothing() {
    let source = "make n = 0 / 0; print n == n; print n != n; print n < 1; print n >= 1;";
    assert_eq!(lines(source), vec!["false", "true", "false", "false"]);
}

#[test]
fn the_evaluator_gives_nil_for_a_program() {
    let mut lexer = Lexer::new("1 + 1;".to_string());
    let tokens = lexer.lex().unwrap();
    let statements = Parser::new(tokens).parse().unwrap();
    let numbers = Numbers { arithmetic, parse, format };
    let mut interpreter = Interpreter::new(numbers, vec![], vec![], 10, 10);
    assert!(matches!(interpreter.evaluate(&statements), Ok(Value::Nil)));
    assert!(interpreter.output().is_empty());
}

#[test]
fn a_long_program_runs() {
    let mut source = String::from("make total = 0;\n");
    for i in 0..2000 {
        source.push_str(&format!("make x{} = {}; total = total + x{};\n", i, i, i));
    }
    source.push_str("print total; // é\n");
    assert_eq!(lines(&source), vec!["1999000"]);
}

#[test]
fn a_loop_with_many_repetitions_runs() {
    let source = "make i = 0; make sum = 0; while i < 20000 { sum = sum + i; i = i + 1; } print sum;";
    let (lines, result) = run_with(source, vec![], 10, 1_000_000);
    assert_eq!(result, Ok(()));
    assert_eq!(lines, vec!["199990000"]);
}
