use std::rc::Rc;

use lox::expression::{
    Assignment, Binary, Callable, Class, ClassInstance, Expr, Function, Grouping, Literal, Logical, NativeFunction,
    NativeKind, Unary, Value, Variable,
};
use lox::interpreter::{Piece, print};
use lox::scanner::Scanner;
use lox::token::{Token, TokenType};

fn op(token_type: TokenType, lexeme: &str) -> Token {
    Token { token_type, lexeme: lexeme.to_string(), line: Some(1), literal: None }
}

fn join(pieces: &[Piece]) -> String {
    pieces
        .iter()
        .map(|p| match p {
            Piece::Text(t) => t.clone(),
            Piece::Float(bits) => format!("{}", f32::from_bits(*bits)),
        })
        .collect()
}

#[test]
fn prints_prefix_form_with_groups() {
    // -1 * (2.5)
    let expr = Expr::Binary(Binary {
        left: Box::new(Expr::Unary(Unary {
            operator: op(TokenType::Minus, "-"),
            right: Box::new(Expr::Literal(Literal::Int(1))),
        })),
        operator: op(TokenType::Star, "*"),
        right: Box::new(Expr::Grouping(Grouping { expression: Box::new(Expr::Literal(Literal::Float(2.5f32.to_bits()))) })),
    });
    let pieces = print(&expr);
    assert_eq!(join(&pieces), "(* (- 1) (group 2.5))");
    assert!(pieces.contains(&Piece::Float(2.5f32.to_bits())));
}

#[test]
fn prints_literals_variables_and_assignments() {
    assert_eq!(join(&print(&Expr::Literal(Literal::Int(-45)))), "-45");
    assert_eq!(join(&print(&Expr::Literal(Literal::Int(i32::MIN)))), "-2147483648");
    assert_eq!(join(&print(&Expr::Literal(Literal::Int(0)))), "0");
    assert_eq!(join(&print(&Expr::Literal(Literal::Nil))), "nil");
    assert_eq!(join(&print(&Expr::Literal(Literal::Boolean(false)))), "false");
    assert_eq!(join(&print(&Expr::Literal(Literal::String("hi".to_string())))), "hi");
    let assign = Expr::Assignment(Assignment {
        id: 0,
        name: op(TokenType::Identifier, "a"),
        value: Box::new(Expr::Logical(Logical {
            left: Box::new(Expr::Variable(Variable { id: 1, name: op(TokenType::Identifier, "b") })),
            operator: op(TokenType::Or, "or"),
            right: Box::new(Expr::Literal(Literal::True)),
        })),
    });
    assert_eq!(join(&print(&assign)), "a = (or b true)");
}

fn types(tokens: &[Token]) -> Vec<TokenType> {
    tokens.iter().map(|t| t.token_type).collect()
}

#[test]
fn scans_declarations_and_ends_with_eof() {
    let tokens = Scanner::new("var x = 1.5;".to_string()).scan_tokens();
    assert_eq!(
        types(&tokens),
        vec![TokenType::Var, TokenType::Identifier, TokenType::Equal, TokenType::Number, TokenType::SemiColon, TokenType::EOF]
    );
    assert_eq!(tokens[3].literal, Some(Literal::Float(1.5f32.to_bits())));
    assert_eq!(tokens[1].lexeme, "x");
    assert_eq!(tokens[5].lexeme, "");
    assert_eq!(tokens[5].line, None);
}

#[test]
fn scans_integers_operators_and_comments() {
    let tokens = Scanner::new("a >= 12 // note\n!= b".to_string()).scan_tokens();
    assert_eq!(
        types(&tokens),
        vec![TokenType::Identifier, TokenType::GreaterEqual, TokenType::Number, TokenType::BangEqual, TokenType::Identifier, TokenType::EOF]
    );
    assert_eq!(tokens[2].literal, Some(Literal::Int(12)));
    assert_eq!(tokens[0].line, Some(1));
    assert_eq!(tokens[3].line, Some(2));
}

#[test]
fn scans_strings_and_counts_their_lines() {
    let tokens = Scanner::new("\"a\nb\" x".to_string()).scan_tokens();
    assert_eq!(types(&tokens), vec![TokenType::String, TokenType::Identifier, TokenType::EOF]);
    assert_eq!(tokens[0].literal, Some(Literal::String("a\nb".to_string())));
    assert_eq!(tokens[0].line, Some(2));
    assert_eq!(tokens[1].line, Some(2));
}

#[test]
fn scans_keywords() {
    let tokens = Scanner::new("and class else false for fun if nil or print return super this true var while".to_string())
        .scan_tokens();
    assert_eq!(
        types(&tokens),
        vec![
            TokenType::And,
            TokenType::Class,
            TokenType::Else,
            TokenType::False,
            TokenType::For,
            TokenType::Fun,
            TokenType::If,
            TokenType::Nil,
            TokenType::Or,
            TokenType::Print,
            TokenType::Return,
            TokenType::Super,
            TokenType::This,
            TokenType::True,
            TokenType::Var,
            TokenType::While,
            TokenType::EOF,
        ]
    );
}

#[test]
fn unterminated_strings_and_stray_characters_do_not_scan() {
    assert!(Scanner::new("\"abc".to_string()).try_scan_tokens().is_none());
    assert!(Scanner::new("#".to_string()).try_scan_tokens().is_none());
    assert!(Scanner::new("1 + 2".to_string()).try_scan_tokens().is_some());
}

#[test]
fn values_print_as_text_or_floats() {
    let text = |v: Value| match v.to_piece() {
        Piece::Text(t) => t,
        Piece::Float(_) => panic!("expected text"),
    };
    assert_eq!(text(Value::Literal(Literal::Int(12))), "12");
    assert_eq!(text(Value::Literal(Literal::True)), "true");
    assert_eq!(text(Value::Literal(Literal::Boolean(true))), "true");
    assert_eq!(Value::Literal(Literal::Float(7)).to_piece(), Piece::Float(7));
    let class = Class { name: "Cake".to_string(), fields: vec![] };
    assert_eq!(text(Value::ClassInstance(ClassInstance::new(Rc::new(class)))), "<instance of class Cake>");
    let native = NativeFunction { name: "clock".to_string(), arity: 0, func: NativeKind::Clock };
    assert_eq!(text(Value::Callable(Rc::new(Callable::Native(native)))), "<native function>");
    let function = Function { params: vec![], body: vec![] };
    assert_eq!(text(Value::Callable(Rc::new(Callable::Function(function)))), "<function>");
    let class = Class { name: "Pie".to_string(), fields: vec![] };
    assert_eq!(text(Value::Callable(Rc::new(Callable::Class(class)))), "Pie");
    assert_eq!(Literal::Nil.to_piece(), Piece::Text("nil".to_string()));
}

#[test]
fn numerals_too_large_for_an_integer_scan_as_floats() {
    let tokens = Scanner::new("2147483648 2147483647".to_string()).scan_tokens();
    assert_eq!(tokens[0].literal, Some(Literal::Float(2147483648.0f32.to_bits())));
    assert_eq!(tokens[1].literal, Some(Literal::Int(i32::MAX)));
    let huge = "9".repeat(60);
    let tokens = Scanner::new(huge.clone()).try_scan_tokens().unwrap();
    assert_eq!(tokens[0].literal, Some(Literal::Float(huge.parse::<f32>().unwrap().to_bits())));
}
