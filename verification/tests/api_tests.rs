use std::rc::Rc;

use lox::environment::Environment;
use lox::expression::{
    Callable, Class, ClassInstance, Expr, Function, IsTruthy, Literal, NativeFunction, NativeKind, TCallable, Value,
    Variable, to_callable_value,
};
use lox::interpreter::{Interpreter, Interrupt};
use lox::statement::Stmt;
use lox::token::{Token, TokenType};

fn ident(name: &str) -> Token {
    Token { token_type: TokenType::Identifier, lexeme: name.to_string(), line: Some(1), literal: None }
}

fn int_value(i: i32) -> Value {
    Value::Literal(Literal::Int(i))
}

#[test]
fn truthiness_of_literals_and_values() {
    assert!(!Literal::False.is_truthy());
    assert!(!Literal::Nil.is_truthy());
    assert!(!Literal::Boolean(false).is_truthy());
    assert!(Literal::Boolean(true).is_truthy());
    assert!(Literal::True.is_truthy());
    assert!(Literal::Int(0).is_truthy());
    assert!(Literal::String(String::new()).is_truthy());
    let clock = Callable::Native(NativeFunction { name: "clock".to_string(), arity: 0, func: NativeKind::Clock });
    assert!(clock.is_truthy());
    assert!(to_callable_value(clock).is_truthy());
}

#[test]
fn a_defined_variable_can_be_read_back() {
    let mut env = Environment::new(None);
    env.define(&ident("a"), int_value(1));
    assert_eq!(env.get(&ident("a")).ok(), Some(int_value(1)));
    env.define(&ident("a"), int_value(2));
    assert_eq!(env.get(&ident("a")).ok(), Some(int_value(2)));
    assert_eq!(env.values.len(), 1);
}

#[test]
fn lookups_go_outward_and_inner_scopes_shadow() {
    let mut outer = Environment::new(None);
    outer.define(&ident("a"), int_value(1));
    outer.define(&ident("b"), int_value(2));
    let mut inner = Environment::new(Some(Box::new(outer)));
    inner.define(&ident("a"), int_value(10));
    assert_eq!(inner.get(&ident("a")).ok(), Some(int_value(10)));
    assert_eq!(inner.get(&ident("b")).ok(), Some(int_value(2)));
    match inner.get(&ident("c")) {
        Err(Interrupt::Error(e)) => assert_eq!(e.message, "Undefined variable"),
        _ => panic!("expected an undefined variable"),
    }
}

#[test]
fn assignment_changes_the_innermost_binding() {
    let mut outer = Environment::new(None);
    outer.define(&ident("a"), int_value(1));
    let mut inner = Environment::new(Some(Box::new(outer)));
    assert!(inner.assign(&ident("a"), &int_value(5)).is_ok());
    assert_eq!(inner.get(&ident("a")).ok(), Some(int_value(5)));
    assert!(inner.values.is_empty());
    assert!(inner.assign(&ident("z"), &int_value(5)).is_err());
}

#[test]
fn assigning_from_a_distance() {
    let mut outer = Environment::new(None);
    outer.define(&ident("a"), int_value(1));
    let mut inner = Environment::new(Some(Box::new(outer)));
    inner.define(&ident("a"), int_value(2));
    assert!(inner.assign_at(1, &ident("a"), &int_value(7)).is_ok());
    assert_eq!(inner.get(&ident("a")).ok(), Some(int_value(2)));
    let outer = inner.enclosing.as_ref().unwrap();
    assert_eq!(outer.get(&ident("a")).ok(), Some(int_value(7)));
    match inner.assign_at(5, &ident("a"), &int_value(7)) {
        Err(Interrupt::Error(e)) => assert_eq!(e.message, "Enclosing environment must exist"),
        _ => panic!("expected a missing scope"),
    }
}

#[test]
fn arity_checks_name_the_problem() {
    let interpreter = Interpreter::new();
    let paren = Token { token_type: TokenType::RightParen, lexeme: ")".to_string(), line: Some(3), literal: None };
    assert!(interpreter.check_arity(2, 2, &paren).is_ok());
    match interpreter.check_arity(1, 2, &paren) {
        Err(Interrupt::Error(e)) => {
            assert_eq!(e.message, "Too many arguments to function.");
            assert_eq!(e.token.line, Some(3));
        },
        _ => panic!("expected an arity error"),
    }
    match interpreter.check_arity(2, 1, &paren) {
        Err(Interrupt::Error(e)) => assert_eq!(e.message, "Too few arguments to function."),
        _ => panic!("expected an arity error"),
    }
}

fn identity_function() -> Rc<Callable> {
    // fun (x) { return x; }
    Rc::new(Callable::Function(Function {
        params: vec![ident("x")],
        body: vec![Stmt::Return {
            keyword: Token { token_type: TokenType::Return, lexeme: "return".to_string(), line: Some(1), literal: None },
            value: Some(Box::new(Expr::Variable(Variable { id: 0, name: ident("x") }))),
        }],
    }))
}

#[test]
fn calling_a_function_binds_its_parameters() {
    let mut interpreter = Interpreter::new();
    // the parameter is read in the call's own scope
    interpreter.resolve(0, 0);
    let paren = ident(")");
    let r = interpreter.call(identity_function(), vec![int_value(42)], &paren);
    assert_eq!(r.ok(), Some(int_value(42)));
    // the call's scope is gone again
    assert!(interpreter.environment.get(&ident("x")).is_err());
    match interpreter.call(identity_function(), vec![], &paren) {
        Err(Interrupt::Error(e)) => assert_eq!(e.message, "Too few arguments to function."),
        _ => panic!("expected an arity error"),
    }
}

#[test]
fn a_function_without_return_gives_nil() {
    let mut interpreter = Interpreter::new();
    let f = Rc::new(Callable::Function(Function { params: vec![], body: vec![] }));
    assert_eq!(interpreter.call(f, vec![], &ident(")")).ok(), Some(Value::Literal(Literal::Nil)));
}

#[test]
fn declared_functions_are_called_by_name() {
    let mut interpreter = Interpreter::new();
    let program = vec![
        Stmt::Function {
            name: ident("id"),
            params: vec![ident("x")],
            body: vec![Stmt::Return {
                keyword: ident("return"),
                value: Some(Box::new(Expr::Variable(Variable { id: 1, name: ident("x") }))),
            }],
        },
        Stmt::Print(Expr::Call(lox::expression::Call {
            callee: Box::new(Expr::Variable(Variable { id: 2, name: ident("id") })),
            paren: ident(")"),
            args: vec![Expr::Literal(Literal::Int(9))],
        })),
    ];
    interpreter.resolve(1, 0);
    interpreter.resolve(2, 0);
    assert!(interpreter.interpret(&program).is_ok());
    assert_eq!(interpreter.output, vec![int_value(9)]);
}

#[test]
fn a_return_ends_a_block_with_its_value() {
    let mut interpreter = Interpreter::new();
    let block = vec![
        Stmt::Return { keyword: ident("return"), value: Some(Box::new(Expr::Literal(Literal::Int(3)))) },
        Stmt::Print(Expr::Literal(Literal::Int(4))),
    ];
    let r = interpreter.evaluate_block(&block, None);
    assert!(matches!(r, Some(Ok(Value::Literal(Literal::Int(3))))));
    assert!(interpreter.output.is_empty());
}

#[test]
fn a_block_starts_with_the_given_bindings() {
    let mut interpreter = Interpreter::new();
    let block = vec![Stmt::Print(Expr::Variable(Variable { id: 0, name: ident("y") }))];
    interpreter.resolve(0, 0);
    let r = interpreter.evaluate_block(&block, Some(vec![("y".to_string(), int_value(8))]));
    assert!(r.is_none());
    assert_eq!(interpreter.output, vec![int_value(8)]);
    assert!(interpreter.environment.get(&ident("y")).is_err());
}

#[test]
fn a_return_at_the_top_level_stops_the_program() {
    let mut interpreter = Interpreter::new();
    let program = vec![
        Stmt::Return { keyword: ident("return"), value: None },
        Stmt::Print(Expr::Literal(Literal::Int(4))),
    ];
    assert!(matches!(interpreter.interpret(&program), Err(Interrupt::Return { value: Value::Literal(Literal::Nil) })));
    assert!(interpreter.output.is_empty());
}

#[test]
fn a_resolved_variable_is_read_at_its_distance() {
    let mut interpreter = Interpreter::new();
    interpreter.environment.define(&ident("a"), int_value(1));
    let block = vec![
        Stmt::Var { name: ident("a"), initializer: Some(Expr::Literal(Literal::Int(2))) },
        Stmt::Print(Expr::Variable(Variable { id: 7, name: ident("a") })),
    ];
    interpreter.resolve(7, 1);
    assert!(interpreter.evaluate_block(&block, None).is_none());
    assert_eq!(interpreter.output, vec![int_value(1)]);
    interpreter.resolve(7, 9);
    match interpreter.evaluate_expression(&Expr::Variable(Variable { id: 7, name: ident("a") })) {
        Err(Interrupt::Error(e)) => assert_eq!(e.message, "Enclosing environment must exist"),
        _ => panic!("expected a missing scope"),
    }
}

#[test]
fn classes_make_instances_with_properties() {
    let class = Class { name: "Point".to_string(), fields: vec![("x".to_string(), int_value(1)), ("x".to_string(), int_value(2))] };
    assert_eq!(class.arity(), 0);
    assert_eq!(class.get(&ident("x")), Some(int_value(2)));
    assert_eq!(class.get(&ident("y")), None);
    let mut interpreter = Interpreter::new();
    let instance = interpreter.call(Rc::new(Callable::Class(class)), vec![], &ident(")")).ok().unwrap();
    assert!(matches!(instance, Value::ClassInstance(_)));
    let Value::ClassInstance(ClassInstance { class }) = &instance else { unreachable!() };
    assert_eq!(class.name, "Point");
    let instance2 = ClassInstance::new(class.clone());
    assert_eq!(instance2.class.fields.len(), 2);
}

#[test]
fn properties_are_read_from_instances_only() {
    let mut interpreter = Interpreter::new();
    let class = Class { name: "C".to_string(), fields: vec![("x".to_string(), int_value(5))] };
    interpreter.environment.define(&ident("i"), Value::ClassInstance(ClassInstance::new(Rc::new(class))));
    interpreter.resolve(0, 0);
    let get = |name: &str| Expr::Get {
        expr: Box::new(Expr::Variable(Variable { id: 0, name: ident("i") })),
        name: ident(name),
    };
    assert_eq!(interpreter.evaluate_expression(&get("x")).ok(), Some(int_value(5)));
    match interpreter.evaluate_expression(&get("y")) {
        Err(Interrupt::Error(e)) => assert_eq!(e.message, "No property y on class C."),
        _ => panic!("expected a missing property"),
    }
    let on_int = Expr::Get { expr: Box::new(Expr::Literal(Literal::Int(1))), name: ident("x") };
    match interpreter.evaluate_expression(&on_int) {
        Err(Interrupt::Error(e)) => assert_eq!(e.message, "Only instances have properties."),
        _ => panic!("expected an error"),
    }
}

#[test]
fn class_declarations_define_callable_classes() {
    let mut interpreter = Interpreter::new();
    let program = vec![
        Stmt::Class { name: ident("C"), methods: vec![] },
        Stmt::Print(Expr::Call(lox::expression::Call {
            callee: Box::new(Expr::Variable(Variable { id: 0, name: ident("C") })),
            paren: ident(")"),
            args: vec![],
        })),
    ];
    interpreter.resolve(0, 0);
    assert!(interpreter.interpret(&program).is_ok());
    assert_eq!(interpreter.output.len(), 1);
    assert!(matches!(interpreter.output[0], Value::ClassInstance(_)));
}

#[test]
fn functions_report_their_arity() {
    let f = Function { params: vec![ident("a"), ident("b")], body: vec![] };
    assert_eq!(f.arity(), 2);
}

#[test]
fn runtime_errors_wrap_into_interruptions() {
    let e = lox::interpreter::RuntimeError { token: ident("x"), message: "m".to_string() };
    assert!(matches!(e.wrap(), Interrupt::Error(ref w) if w.message == "m"));
}

#[test]
fn only_errors_count_as_errors() {
    let e: Interrupt<lox::interpreter::RuntimeError> =
        lox::interpreter::RuntimeError { token: ident("x"), message: "m".to_string() }.wrap();
    assert!(e.is_err());
    let r: Interrupt<lox::interpreter::RuntimeError> = Interrupt::Return { value: int_value(1) };
    assert!(!r.is_err());
}

#[test]
fn operators_outside_the_grammar_are_runtime_errors() {
    let mut interpreter = Interpreter::new();
    let comma = Token { token_type: TokenType::Comma, lexeme: ",".to_string(), line: Some(2), literal: None };
    let binary = Expr::Binary(lox::expression::Binary {
        left: Box::new(Expr::Literal(Literal::Int(1))),
        operator: comma.clone(),
        right: Box::new(Expr::Literal(Literal::Int(2))),
    });
    match interpreter.evaluate_expression(&binary) {
        Err(Interrupt::Error(e)) => {
            assert_eq!(e.message, "Invalid binary operation");
            assert_eq!(e.token.line, Some(2));
        },
        _ => panic!("expected an error"),
    }
    let unary = Expr::Unary(lox::expression::Unary { operator: comma, right: Box::new(Expr::Literal(Literal::Int(2))) });
    match interpreter.evaluate_expression(&unary) {
        Err(Interrupt::Error(e)) => assert_eq!(e.message, "Invalid unary operator"),
        _ => panic!("expected an error"),
    }
}

#[test]
fn the_new_interpreter_knows_clock() {
    let interpreter = Interpreter::new();
    match interpreter.environment.get(&ident("clock")) {
        Ok(Value::Callable(c)) => assert!(matches!(&*c, Callable::Native(n) if n.name == "clock" && n.arity == 0)),
        _ => panic!("expected the native clock"),
    }
    assert!(interpreter.output.is_empty());
}

#[test]
fn functions_compare_by_their_text_with_floats_as_numbers() {
    let body = |bits: u32| vec![Stmt::Print(Expr::Literal(Literal::Float(bits)))];
    let f = |bits: u32| Value::Callable(Rc::new(Callable::Function(Function { params: vec![ident("a")], body: body(bits) })));
    let zero = 0.0f32.to_bits();
    let negative_zero = (-0.0f32).to_bits();
    let nan = f32::NAN.to_bits();
    assert!(lox::operators::values_equal(&f(zero), &f(negative_zero)));
    assert!(!lox::operators::values_equal(&f(nan), &f(nan)));
    assert!(!lox::operators::values_equal(&f(zero), &f(1.0f32.to_bits())));
    let class = |v: Value| Value::ClassInstance(ClassInstance::new(Rc::new(Class { name: "C".to_string(), fields: vec![("x".to_string(), v)] })));
    assert!(lox::operators::values_equal(&class(int_value(1)), &class(int_value(1))));
    assert!(!lox::operators::values_equal(&class(int_value(1)), &class(int_value(2))));
}

#[test]
fn a_return_in_a_loop_body_returns_from_the_function() {
    let mut interpreter = Interpreter::new();
    let forever = |value: i32| Stmt::While {
        condition: Expr::Literal(Literal::True),
        body: Box::new(Stmt::Return { keyword: ident("return"), value: Some(Box::new(Expr::Literal(Literal::Int(value)))) }),
    };
    let f = Rc::new(Callable::Function(Function { params: vec![], body: vec![forever(7)] }));
    assert_eq!(interpreter.call(f, vec![], &ident(")")).ok(), Some(int_value(7)));
    let program = vec![forever(1), Stmt::Print(Expr::Literal(Literal::Int(2)))];
    assert!(matches!(interpreter.interpret(&program), Err(Interrupt::Return { value: Value::Literal(Literal::Int(1)) })));
    assert!(interpreter.output.is_empty());
}
