use loxrust::ast::BinaryExp;
use loxrust::ast::Exp;
use loxrust::ast::GroupingExp;
use loxrust::ast::LiteralExp;
use loxrust::ast::Stmt;
use loxrust::ast::UnaryExp;
use loxrust::ast::VarDecl;
use loxrust::parser::Parser;
use loxrust::scanner::Literal;
use loxrust::scanner::Scanner;
use loxrust::scanner::Token;
use loxrust::scanner::TokenType;

#[test]
fn parse_valid_example_expression() {
    let valid_tokens = vec![
        Token {
            token_type: TokenType::Literal(Literal::IDENTIFIER("foobar".to_string())),
            lexeme: "f".to_string(),
            line: 0,
        },
        Token { token_type: TokenType::EqualEqual, lexeme: "==".to_string(), line: 0 },
        Token {
            token_type: TokenType::Literal(Literal::NUMBER(i64::from(2))),
            lexeme: "2".to_string(),
            line: 0,
        },
    ];
    let expected_exp: Exp = Exp::BinaryExp(BinaryExp {
        left: Box::new(Exp::LiteralExp(LiteralExp {
            value: Literal::IDENTIFIER("foobar".to_string()),
        })),
        operator: Token { token_type: TokenType::EqualEqual, lexeme: "==".to_string(), line: 0 },
        right: Box::new(Exp::LiteralExp(LiteralExp { value: Literal::NUMBER(2) })),
    });
    let exp_result = Parser::new(valid_tokens.as_ref()).expression();
    match exp_result {
        Ok(exp) => {
            assert_eq!(exp, expected_exp)
        }
        Err(err) => panic!("{}", err),
    }
}

#[test]
fn parse_expresion_with_brackets() {
    let valid_tokens = vec![
        Token { token_type: TokenType::LeftParen, lexeme: "(".to_string(), line: 0 },
        Token {
            token_type: TokenType::Literal(Literal::IDENTIFIER("foobar".to_string())),
            lexeme: "f".to_string(),
            line: 0,
        },
        Token { token_type: TokenType::EqualEqual, lexeme: "==".to_string(), line: 0 },
        Token {
            token_type: TokenType::Literal(Literal::NUMBER(i64::from(2))),
            lexeme: "2".to_string(),
            line: 0,
        },
        Token { token_type: TokenType::RightParen, lexeme: ")".to_string(), line: 0 },
    ];
    let expected_exp: Exp = Exp::GroupingExp(GroupingExp {
        exp: Box::new(Exp::BinaryExp(BinaryExp {
            left: Box::new(Exp::LiteralExp(LiteralExp {
                value: Literal::IDENTIFIER("foobar".to_string()),
            })),
            operator: Token {
                token_type: TokenType::EqualEqual,
                lexeme: "==".to_string(),
                line: 0,
            },
            right: Box::new(Exp::LiteralExp(LiteralExp { value: Literal::NUMBER(2) })),
        })),
    });
    let exp_result = Parser::new(valid_tokens.as_ref()).expression();
    match exp_result {
        Ok(exp) => {
            assert_eq!(exp, expected_exp)
        }
        Err(err) => panic!("{}", err),
    }
}

fn scan(source: &str) -> Vec<Token> {
    let mut scanner = Scanner::new(source.to_string());
    scanner.scan_tokens().clone()
}

#[test]
fn multiplication_binds_tighter_than_addition() {
    let tokens = scan("1 + 2 * 3;");
    let stmts = Parser::new(tokens.as_ref()).parse().unwrap();
    assert_eq!(stmts.len(), 1);
    match &stmts[0] {
        Stmt::ExprStmt(Exp::BinaryExp(top)) => {
            assert!(matches!(top.operator.token_type, TokenType::PLUS));
            assert!(matches!(*top.left, Exp::LiteralExp(_)));
            match &*top.right {
                Exp::BinaryExp(inner) => {
                    assert!(matches!(inner.operator.token_type, TokenType::STAR))
                }
                other => panic!("expected a product on the right, got {:?}", other),
            }
        }
        other => panic!("expected a sum statement, got {:?}", other),
    }
}

#[test]
fn equal_precedence_folds_left_associatively() {
    let tokens = scan("1 - 2 - 3;");
    let stmts = Parser::new(tokens.as_ref()).parse().unwrap();
    match &stmts[0] {
        Stmt::ExprStmt(Exp::BinaryExp(top)) => {
            assert!(matches!(top.operator.token_type, TokenType::MINUS));
            assert!(matches!(*top.left, Exp::BinaryExp(_)));
            assert!(matches!(*top.right, Exp::LiteralExp(_)));
        }
        other => panic!("expected a difference statement, got {:?}", other),
    }
}

#[test]
fn unary_operators_are_right_recursive() {
    let tokens = scan("!!1;");
    let stmts = Parser::new(tokens.as_ref()).parse().unwrap();
    match &stmts[0] {
        Stmt::ExprStmt(Exp::UnaryExp(UnaryExp { right, operator })) => {
            assert!(matches!(operator.token_type, TokenType::BANG));
            assert!(matches!(**right, Exp::UnaryExp(_)));
        }
        other => panic!("expected a unary statement, got {:?}", other),
    }
}

#[test]
fn var_declaration_parses() {
    let tokens = scan("var x = 5;");
    let stmts = Parser::new(tokens.as_ref()).parse().unwrap();
    let expected = Stmt::VarDecl(VarDecl {
        name: "x".to_string(),
        initializer: Some(Exp::LiteralExp(LiteralExp { value: Literal::NUMBER(5) })),
    });
    assert_eq!(stmts, vec![expected]);
}

#[test]
fn print_statement_parses() {
    let tokens = scan("print 7;");
    let stmts = Parser::new(tokens.as_ref()).parse().unwrap();
    let expected = Stmt::PrintStmt(Exp::LiteralExp(LiteralExp { value: Literal::NUMBER(7) }));
    assert_eq!(stmts, vec![expected]);
}

#[test]
fn missing_semicolon_aborts_the_parse() {
    let tokens = scan("1 + 2");
    let result = Parser::new(tokens.as_ref()).parse();
    assert_eq!(result, Err("Expect ';' after value.".to_string()));
}

#[test]
fn unclosed_paren_aborts_the_parse() {
    let tokens = scan("(1;");
    let result = Parser::new(tokens.as_ref()).parse();
    assert_eq!(result, Err("Expect ')' after expression.".to_string()));
}

#[test]
fn var_requires_an_identifier() {
    let tokens = scan("var 1 = 2;");
    let result = Parser::new(tokens.as_ref()).parse();
    assert_eq!(result, Err("Expected Identifier token".to_string()));

    let tokens = scan("var ;");
    let result = Parser::new(tokens.as_ref()).parse();
    assert_eq!(result, Err("Expected Literal token".to_string()));

    let tokens = scan("var x 5;");
    let result = Parser::new(tokens.as_ref()).parse();
    assert_eq!(result, Err("Expected equals after variable name".to_string()));
}

#[test]
fn stray_closing_paren_is_a_syntax_error() {
    let tokens = scan(");");
    let result = Parser::new(tokens.as_ref()).parse();
    assert_eq!(
        result,
        Err("Didn't expect to get anything other than a literal or paren here".to_string())
    );
}

#[test]
fn nil_true_false_parse_as_placeholder_literals() {
    let tokens = scan("nil;");
    let stmts = Parser::new(tokens.as_ref()).parse().unwrap();
    let expected = Stmt::ExprStmt(Exp::LiteralExp(LiteralExp {
        value: Literal::STRING("null".to_string()),
    }));
    assert_eq!(stmts, vec![expected]);
}

#[test]
fn empty_token_buffer_parses_to_no_statements() {
    let tokens: Vec<Token> = vec![];
    let result = Parser::new(tokens.as_ref()).parse();
    assert_eq!(result, Ok(vec![]));
}

#[test]
fn expression_with_no_tokens_is_an_error() {
    let tokens: Vec<Token> = vec![];
    let result = Parser::new(tokens.as_ref()).expression();
    assert_eq!(result, Err("No tokens to parse".to_string()));
}
