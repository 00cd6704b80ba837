use lox::expression::{Expr, Literal};
use lox::parser::Parser;
use lox::statement::Stmt;
use lox::token::{Token, TokenType};

fn token(token_type: TokenType, lexeme: &str, literal: Option<Literal>) -> Token {
    Token { token_type, lexeme: lexeme.to_string(), line: None, literal }
}

#[test]
fn parses_var_declaration() {
    // var a = 1;
    let tokens: Vec<Token> = vec![
        Token { token_type: TokenType::Var, lexeme: "var".to_string(), line: None, literal: None },
        Token { token_type: TokenType::Identifier, lexeme: "a".to_string(), line: None, literal: None },
        Token { token_type: TokenType::Equal, lexeme: "=".to_string(), line: None, literal: None },
        Token { token_type: TokenType::Number, lexeme: "1".to_string(), line: None, literal: Some(Literal::Int(1)) },
        Token { token_type: TokenType::SemiColon, lexeme: ';'.to_string(), line: None, literal: None },
        Token { token_type: TokenType::EOF, lexeme: "EOF".to_string(), line: None, literal: None },
    ];

    let parsed = Parser::new(tokens).parse();
    assert_eq!(parsed.len(), 1);
    let Stmt::Var { name, initializer } = &parsed[0] else {
        panic!("expected a var declaration, got {:?}", parsed[0]);
    };

    assert_eq!(name.lexeme, "a");
    assert_eq!(initializer, &Some(Expr::Literal(Literal::Int(1))));
}

#[test]
fn parse_error_skips_a_token_and_goes_on() {
    // print ; print 2;
    let tokens = vec![
        token(TokenType::Print, "print", None),
        token(TokenType::SemiColon, ";", None),
        token(TokenType::Print, "print", None),
        token(TokenType::Number, "2", Some(Literal::Int(2))),
        token(TokenType::SemiColon, ";", None),
        token(TokenType::EOF, "", None),
    ];
    let mut parser = Parser::new(tokens);
    let parsed = parser.parse();
    assert_eq!(parser.errors().len(), 1);
    assert_eq!(parsed, vec![Stmt::Print(Expr::Literal(Literal::Int(2)))]);
}

#[test]
fn missing_semicolon_is_reported() {
    let tokens = vec![
        token(TokenType::Print, "print", None),
        token(TokenType::Number, "1", Some(Literal::Int(1))),
        token(TokenType::EOF, "", None),
    ];
    let mut parser = Parser::new(tokens);
    let parsed = parser.parse();
    assert!(parsed.is_empty());
    let errors = parser.into_errors();
    assert_eq!(errors.len(), 1);
    assert_eq!(errors[0].message, "Expect ';' after value.");
    assert_eq!(errors[0].token.token_type, TokenType::EOF);
}

#[test]
fn for_loop_desugars_into_a_while_loop() {
    // for (var i = 0; i < 1; i = i + 1) print i;
    let tokens = vec![
        token(TokenType::For, "for", None),
        token(TokenType::LeftParen, "(", None),
        token(TokenType::Var, "var", None),
        token(TokenType::Identifier, "i", None),
        token(TokenType::Equal, "=", None),
        token(TokenType::Number, "0", Some(Literal::Int(0))),
        token(TokenType::SemiColon, ";", None),
        token(TokenType::Identifier, "i", None),
        token(TokenType::Less, "<", None),
        token(TokenType::Number, "1", Some(Literal::Int(1))),
        token(TokenType::SemiColon, ";", None),
        token(TokenType::Identifier, "i", None),
        token(TokenType::Equal, "=", None),
        token(TokenType::Identifier, "i", None),
        token(TokenType::Plus, "+", None),
        token(TokenType::Number, "1", Some(Literal::Int(1))),
        token(TokenType::RightParen, ")", None),
        token(TokenType::Print, "print", None),
        token(TokenType::Identifier, "i", None),
        token(TokenType::SemiColon, ";", None),
        token(TokenType::EOF, "", None),
    ];
    let parsed = Parser::new(tokens).parse();
    assert_eq!(parsed.len(), 1);
    let Stmt::Block(outer) = &parsed[0] else {
        panic!("expected a block, got {:?}", parsed[0]);
    };
    assert_eq!(outer.len(), 2);
    assert!(matches!(outer[0], Stmt::Var { .. }));
    let Stmt::While { condition, body } = &outer[1] else {
        panic!("expected a while loop, got {:?}", outer[1]);
    };
    assert!(matches!(condition, Expr::Binary(_)));
    let Stmt::Block(inner) = &**body else {
        panic!("expected the body and the increment in a block, got {:?}", body);
    };
    assert_eq!(inner.len(), 2);
    assert!(matches!(inner[0], Stmt::Print(_)));
    assert!(matches!(inner[1], Stmt::Expression(Expr::Assignment(_))));
}

fn parse_source(source: &str) -> (Vec<Stmt>, Vec<lox::parser::ParseError>) {
    let tokens = lox::scanner::Scanner::new(source.to_string()).scan_tokens();
    let mut parser = Parser::new(tokens);
    let parsed = parser.parse();
    (parsed, parser.into_errors())
}

#[test]
fn a_for_loop_without_clauses_loops_forever() {
    let (parsed, errors) = parse_source("for (;;) print 1;");
    assert!(errors.is_empty());
    assert_eq!(
        parsed,
        vec![Stmt::While {
            condition: Expr::Literal(Literal::True),
            body: Box::new(Stmt::Print(Expr::Literal(Literal::Int(1)))),
        }]
    );
}

#[test]
fn a_for_loop_may_leave_out_any_clause() {
    let (parsed, errors) = parse_source("for (; x; ) print 1;");
    assert!(errors.is_empty());
    assert!(matches!(&parsed[0], Stmt::While { condition: Expr::Variable(_), .. }));
    let (parsed, errors) = parse_source("for (;; x = 1) print 1;");
    assert!(errors.is_empty());
    let Stmt::While { condition, body } = &parsed[0] else {
        panic!("expected a while loop, got {:?}", parsed[0]);
    };
    assert_eq!(condition, &Expr::Literal(Literal::True));
    assert!(matches!(&**body, Stmt::Block(b) if b.len() == 2));
}

#[test]
fn calls_take_arguments_separated_by_commas() {
    let (parsed, errors) = parse_source("f(1, 2);");
    assert!(errors.is_empty());
    let Stmt::Expression(Expr::Call(call)) = &parsed[0] else {
        panic!("expected a call, got {:?}", parsed[0]);
    };
    assert_eq!(call.args, vec![Expr::Literal(Literal::Int(1)), Expr::Literal(Literal::Int(2))]);
    assert_eq!(call.paren.token_type, TokenType::RightParen);
    assert!(matches!(&*call.callee, Expr::Variable(v) if v.name.lexeme == "f"));
    let (parsed, errors) = parse_source("f(1)(2, 3, 4);");
    assert!(errors.is_empty());
    let Stmt::Expression(Expr::Call(outer)) = &parsed[0] else {
        panic!("expected a call, got {:?}", parsed[0]);
    };
    assert_eq!(outer.args.len(), 3);
    assert!(matches!(&*outer.callee, Expr::Call(inner) if inner.args.len() == 1));
}

#[test]
fn a_trailing_comma_is_a_syntax_error() {
    let (_, errors) = parse_source("f(1,);");
    assert!(!errors.is_empty());
    assert_eq!(errors[0].message, "Expression expected.");
}

#[test]
fn calls_take_at_most_255_arguments() {
    let args = |n: usize| (0..n).map(|i| i.to_string()).collect::<Vec<_>>().join(", ");
    let (parsed, errors) = parse_source(&format!("f({});", args(255)));
    assert!(errors.is_empty());
    let Stmt::Expression(Expr::Call(call)) = &parsed[0] else {
        panic!("expected a call");
    };
    assert_eq!(call.args.len(), 255);
    let (_, errors) = parse_source(&format!("f({});", args(256)));
    assert!(!errors.is_empty());
    assert_eq!(errors[0].message, "Exceeded maximum number of function arguments (255).");
    assert_eq!(errors[0].token.lexeme, "255");
}
