use lox::expression::{Literal, Value};
use lox::globals::seconds_since_epoch;
use lox::parser::Parser;
use lox::scanner::Scanner;
use lox::interpreter::{Interpreter, Interrupt, RuntimeError};
use lox::runtime::{Lox, Outcome};

/// Runs a program and returns what it printed and how it ended.
fn run(source: &str) -> (Vec<Value>, Result<(), Interrupt<RuntimeError>>) {
    let mut lox = Lox::new();
    match lox.run(source.as_bytes().to_vec()) {
        Outcome::Ran { parse_errors, interpreter, result } => {
            assert!(parse_errors.is_empty(), "unexpected syntax errors: {:?}", parse_errors);
            let Interpreter { output, .. } = interpreter;
            (output, result)
        },
        _ => panic!("the program did not run"),
    }
}

/// Runs a program with the given variable expressions (by token index) resolved to
/// scope distances, and returns what it printed and how it ended.
fn run_resolved(source: &str, resolved: &[(usize, usize)]) -> (Vec<Value>, Result<(), Interrupt<RuntimeError>>) {
    let tokens = Scanner::new(source.to_string()).scan_tokens();
    let mut parser = Parser::new(tokens);
    let program = parser.parse();
    assert!(parser.errors().is_empty());
    let mut interpreter = Interpreter::new();
    for (id, depth) in resolved {
        interpreter.resolve(*id, *depth);
    }
    let result = interpreter.interpret(&program);
    (interpreter.output, result)
}

fn printed(source: &str) -> Vec<Value> {
    let (output, result) = run(source);
    assert!(result.is_ok(), "the program stopped early");
    output
}

fn runtime_error(source: &str) -> String {
    let (_, result) = run(source);
    match result {
        Err(Interrupt::Error(e)) => e.message,
        _ => panic!("expected a runtime error"),
    }
}

fn int_value(i: i32) -> Value {
    Value::Literal(Literal::Int(i))
}

fn float(f: f32) -> Value {
    Value::Literal(Literal::Float(f.to_bits()))
}

fn boolean(b: bool) -> Value {
    Value::Literal(Literal::Boolean(b))
}

#[test]
fn integer_arithmetic_follows_precedence() {
    assert_eq!(printed("print 1 + 2 * 3;"), vec![int_value(7)]);
    assert_eq!(printed("print (1 + 2) * 3;"), vec![int_value(9)]);
    assert_eq!(printed("print 10 - 4 - 3;"), vec![int_value(3)]);
}

#[test]
fn integer_division_truncates() {
    assert_eq!(printed("print 7 / 2;"), vec![int_value(3)]);
    assert_eq!(printed("print -7 / 2;"), vec![int_value(-3)]);
}

#[test]
fn integer_overflow_wraps() {
    assert_eq!(printed("print 2147483647 + 1;"), vec![int_value(i32::MIN)]);
}

#[test]
fn floats_mix_with_integers() {
    assert_eq!(printed("print 1.5 + 2;"), vec![float(3.5)]);
    assert_eq!(printed("print 2 * 0.25;"), vec![float(0.5)]);
    assert_eq!(printed("print 7.5 - 0.5;"), vec![float(7.0)]);
    assert_eq!(printed("print 1 / 4.0;"), vec![float(0.25)]);
    assert_eq!(printed("print -2.5;"), vec![float(-2.5)]);
}

#[test]
fn float_comparisons() {
    assert_eq!(printed("print 1.5 < 2;"), vec![boolean(true)]);
    assert_eq!(printed("print 2.0 >= 2;"), vec![boolean(true)]);
    assert_eq!(printed("print 0.5 + 0.25 == 0.75;"), vec![boolean(true)]);
}

#[test]
fn strings_concatenate() {
    assert_eq!(printed("print \"ab\" + \"cd\";"), vec![Value::Literal(Literal::String("abcd".to_string()))]);
}

#[test]
fn comparisons_give_booleans() {
    assert_eq!(printed("print 1 < 2;"), vec![boolean(true)]);
    assert_eq!(printed("print 2 <= 1;"), vec![boolean(false)]);
    assert_eq!(printed("print 1 == 1;"), vec![boolean(true)]);
    assert_eq!(printed("print 1 != 1;"), vec![boolean(false)]);
}

#[test]
fn equality_compares_kinds_and_contents() {
    assert_eq!(printed("print 1 == 1.0;"), vec![boolean(false)]);
    assert_eq!(printed("print \"a\" == \"a\";"), vec![boolean(true)]);
    assert_eq!(printed("print nil == nil;"), vec![boolean(true)]);
    assert_eq!(printed("print true == (1 < 2);"), vec![boolean(false)]);
    assert_eq!(printed("print clock == clock;"), vec![boolean(true)]);
}

#[test]
fn bang_turns_only_false_and_nil_into_true() {
    assert_eq!(printed("print !nil;"), vec![Value::Literal(Literal::True)]);
    assert_eq!(printed("print !false;"), vec![Value::Literal(Literal::True)]);
    assert_eq!(printed("print !0;"), vec![Value::Literal(Literal::False)]);
    assert_eq!(printed("print !(1 > 2);"), vec![Value::Literal(Literal::False)]);
}

#[test]
fn logical_operators_short_circuit() {
    assert_eq!(printed("print nil or 2;"), vec![int_value(2)]);
    assert_eq!(printed("print 1 or undefined;"), vec![int_value(1)]);
    assert_eq!(printed("print false and undefined;"), vec![Value::Literal(Literal::False)]);
    assert_eq!(printed("print 1 and 2;"), vec![int_value(2)]);
}

#[test]
fn variables_are_defined_read_and_assigned() {
    // `a` is read at tokens 7 and 12, in the scope where it is declared
    let (output, result) = run_resolved("var a = 1; a = a + 1; print a;", &[(7, 0), (12, 0)]);
    assert!(result.is_ok());
    assert_eq!(output, vec![int_value(2)]);
    assert_eq!(printed("var a; a = 4; print a = 3;"), vec![int_value(3)]);
}

#[test]
fn unresolved_variables_are_read_from_the_global_scope() {
    assert_eq!(runtime_error("var a = 1; print a;"), "Undefined variable");
    assert_eq!(runtime_error("{ var a = 1; print a; }"), "Undefined variable");
    assert_eq!(printed("print clock == clock;"), vec![boolean(true)]);
}

#[test]
fn nil_is_the_value_of_an_uninitialised_variable() {
    let (output, _) = run_resolved("var a; print a;", &[(4, 0)]);
    assert_eq!(output, vec![Value::Literal(Literal::Nil)]);
}

#[test]
fn blocks_have_their_own_scope() {
    let source = "var a = 1; { var a = 2; print a; } print a;";
    assert_eq!(run_resolved(source, &[(12, 0), (16, 0)]).0, vec![int_value(2), int_value(1)]);
    assert_eq!(run_resolved(source, &[(12, 1), (16, 0)]).0, vec![int_value(1), int_value(1)]);
    assert_eq!(run_resolved("var a = 1; { a = 2; } print a;", &[(12, 0)]).0, vec![int_value(2)]);
}

#[test]
fn if_picks_a_branch() {
    assert_eq!(printed("if (1 < 2) print 1; else print 2;"), vec![int_value(1)]);
    assert_eq!(printed("if (nil) print 1; else print 2;"), vec![int_value(2)]);
    assert_eq!(printed("if (false) print 1;"), vec![]);
}

#[test]
fn while_loops_run_while_the_condition_holds() {
    let source = "var i = 0; while (i < 3) { print i; i = i + 1; }";
    let (output, result) = run_resolved(source, &[(7, 0), (13, 1), (17, 1)]);
    assert!(result.is_ok());
    assert_eq!(output, vec![int_value(0), int_value(1), int_value(2)]);
}

#[test]
fn for_loops_run_their_increment() {
    let source = "for (var i = 0; i < 3; i = i + 1) print i;";
    let (output, result) = run_resolved(source, &[(7, 0), (13, 1), (18, 1)]);
    assert!(result.is_ok());
    assert_eq!(output, vec![int_value(0), int_value(1), int_value(2)]);
}

#[test]
fn clock_gives_seconds_since_the_epoch() {
    let out = printed("print clock();");
    assert_eq!(out.len(), 1);
    let Value::Literal(Literal::Float(bits)) = out[0] else {
        panic!("expected a float, got {:?}", out[0]);
    };
    assert!(f32::from_bits(bits) > 1.0e9);
    assert_eq!(printed("print clock() > 0;"), vec![boolean(true)]);
}

#[test]
fn runtime_errors_stop_the_program() {
    let (output, result) = run("print 1; print 1 / 0; print 2;");
    assert_eq!(output, vec![int_value(1)]);
    assert!(matches!(result, Err(Interrupt::Error(_))));
}

#[test]
fn each_runtime_error_has_its_message() {
    assert_eq!(runtime_error("print 1 / 0;"), "Attempted to divide by zero");
    assert_eq!(runtime_error("print 1.0 / 0;"), "Attempted to divide by zero");
    assert_eq!(runtime_error("print x;"), "Undefined variable");
    assert_eq!(runtime_error("x = 1;"), "Undefined variable");
    assert_eq!(runtime_error("print -\"a\";"), "Cannot negate a non-number");
    assert_eq!(runtime_error("print 1 - \"a\";"), "Invalid subtraction");
    assert_eq!(runtime_error("print 1 + \"a\";"), "Invalid addition");
    assert_eq!(runtime_error("print \"a\" * 2;"), "Invalid multiplication");
    assert_eq!(runtime_error("print nil / 2;"), "Invalid division");
    assert_eq!(runtime_error("print 1 < \"a\";"), "Invalid comparison");
    assert_eq!(runtime_error("1();"), "Non-callable passed to Call struct");
    assert_eq!(runtime_error("clock(1);"), "Incorrect arity to native function");
}

#[test]
fn runtime_errors_are_flagged() {
    let mut lox = Lox::new();
    let _ = lox.run(b"print 1 / 0;".to_vec());
    assert!(lox.had_runtime_error);
    assert!(!lox.had_error);
}

#[test]
fn invalid_utf8_is_an_error_in_the_source() {
    let mut lox = Lox::new();
    assert!(matches!(lox.run(vec![0xff, 0xfe]), Outcome::InvalidUtf8));
    assert!(lox.had_error);
    assert!(!lox.had_runtime_error);
}

#[test]
fn unterminated_strings_do_not_scan() {
    let mut lox = Lox::new();
    assert!(matches!(lox.run(b"print \"abc;".to_vec()), Outcome::ScanFailed));
    assert!(!lox.had_error);
}

#[test]
fn syntax_errors_are_returned_and_the_rest_runs() {
    let mut lox = Lox::new();
    match lox.run(b"print ; print 2;".to_vec()) {
        Outcome::Ran { parse_errors, interpreter, result } => {
            assert_eq!(parse_errors.len(), 1);
            assert_eq!(interpreter.output, vec![int_value(2)]);
            assert!(result.is_ok());
        },
        _ => panic!("the program did not run"),
    }
}

#[test]
fn a_while_loop_with_a_false_condition_runs_no_round() {
    assert_eq!(printed("while (false) print 1; print 2;"), vec![int_value(2)]);
}

#[test]
fn clock_readings_become_seconds() {
    assert_eq!(seconds_since_epoch(1, 500_000_000), 1.5f32.to_bits());
    assert_eq!(seconds_since_epoch(0, 250_000_000), 0.25f32.to_bits());
    assert_eq!(seconds_since_epoch(1_700_000_000, 0), (1_700_000_000f64 as f32).to_bits());
}

#[test]
fn floats_compare_as_ieee_numbers() {
    let inf = "999999999999999999999999999999999999999999.0";
    let nan = format!("({inf} - {inf})");
    assert_eq!(printed(&format!("print {nan} == {nan};")), vec![boolean(false)]);
    assert_eq!(printed(&format!("print {nan} != {nan};")), vec![boolean(true)]);
    assert_eq!(printed(&format!("print {nan} < 1;")), vec![boolean(false)]);
    assert_eq!(printed("print -0.0 == 0.0;"), vec![boolean(true)]);
    assert_eq!(printed(&format!("print {inf} > 1;")), vec![boolean(true)]);
    assert_eq!(runtime_error("print 1 / -0.0;"), "Attempted to divide by zero");
}

#[test]
fn an_error_in_a_loop_body_stops_the_loop() {
    let source = "var i = 0; while (i < 3) { print i; print 1 / 0; i = i + 1; }";
    let (output, result) = run_resolved(source, &[(7, 0), (13, 1), (22, 1)]);
    assert_eq!(output, vec![int_value(0)]);
    match result {
        Err(Interrupt::Error(e)) => assert_eq!(e.message, "Attempted to divide by zero"),
        _ => panic!("expected a runtime error"),
    }
}

