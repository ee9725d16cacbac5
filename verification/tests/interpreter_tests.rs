use loxrust::ast::BinaryExp;
use loxrust::ast::Exp;
use loxrust::ast::LiteralExp;
use loxrust::ast::Stmt;
use loxrust::ast::UnaryExp;
use loxrust::ast::VarDecl;
use loxrust::interpreter::Interpreter;
use loxrust::interpreter::Value;
use loxrust::parser::Parser;
use loxrust::scanner::Literal;
use loxrust::scanner::Scanner;
use loxrust::scanner::Token;
use loxrust::scanner::TokenType;

fn token(token_type: TokenType, lexeme: &str) -> Token {
    Token { token_type, lexeme: lexeme.to_string(), line: 0 }
}

fn number(n: i64) -> Exp {
    Exp::LiteralExp(LiteralExp { value: Literal::NUMBER(n) })
}

fn string(s: &str) -> Exp {
    Exp::LiteralExp(LiteralExp { value: Literal::STRING(s.to_string()) })
}

fn identifier(s: &str) -> Exp {
    Exp::LiteralExp(LiteralExp { value: Literal::IDENTIFIER(s.to_string()) })
}

fn binary(left: Exp, op: TokenType, lexeme: &str, right: Exp) -> Exp {
    Exp::BinaryExp(BinaryExp {
        left: Box::new(left),
        operator: token(op, lexeme),
        right: Box::new(right),
    })
}

#[test]
fn subtraction_and_concatenation_evaluate() {
    let interpreter = Interpreter::new();
    let difference = binary(number(2), TokenType::MINUS, "-", number(2));
    assert_eq!(interpreter.evaluate(&difference), Ok(Value::Number(0)));

    let joined = binary(string("a"), TokenType::PLUS, "+", string("b"));
    assert_eq!(interpreter.evaluate(&joined), Ok(Value::String("ab".to_string())));
}

#[test]
fn mixed_types_under_plus_are_a_type_error() {
    let interpreter = Interpreter::new();
    // `1 == 1` evaluates to the boolean true; adding it to a number is the
    // mixed-operand type error.
    let boolean = binary(number(1), TokenType::EqualEqual, "==", number(1));
    let sum = binary(number(1), TokenType::PLUS, "+", boolean);
    assert_eq!(
        interpreter.evaluate(&sum),
        Err("Both sides of value must be the same type: 1, true".to_string())
    );
}

#[test]
fn same_type_non_numbers_under_plus_are_refused() {
    let interpreter = Interpreter::new();
    let t = binary(number(1), TokenType::EqualEqual, "==", number(1));
    let f = binary(number(1), TokenType::BangEqual, "!=", number(1));
    let sum = binary(t, TokenType::PLUS, "+", f);
    assert_eq!(
        interpreter.evaluate(&sum),
        Err("Only numbers and strings are supported for operator +".to_string())
    );
}

#[test]
fn interpret_binds_prints_and_overwrites() {
    let mut interpreter = Interpreter::new();
    let stmts = vec![
        Stmt::VarDecl(VarDecl { name: "x".to_string(), initializer: Some(number(5)) }),
        Stmt::PrintStmt(identifier("x")),
    ];
    assert_eq!(interpreter.interpret(&stmts), Ok(()));
    assert_eq!(interpreter.output(), &vec!["5".to_string()]);

    let redeclare = vec![
        Stmt::VarDecl(VarDecl { name: "x".to_string(), initializer: Some(number(9)) }),
        Stmt::PrintStmt(identifier("x")),
    ];
    assert_eq!(interpreter.interpret(&redeclare), Ok(()));
    assert_eq!(interpreter.output(), &vec!["5".to_string(), "9".to_string()]);
}

#[test]
fn equality_of_number_and_string_is_false_not_an_error() {
    let interpreter = Interpreter::new();
    let cmp = binary(number(2), TokenType::EqualEqual, "==", string("2"));
    assert_eq!(interpreter.evaluate(&cmp), Ok(Value::Boolean(false)));
    let cmp = binary(number(2), TokenType::BangEqual, "!=", string("2"));
    assert_eq!(interpreter.evaluate(&cmp), Ok(Value::Boolean(true)));
}

#[test]
fn division_by_zero_is_an_error() {
    let interpreter = Interpreter::new();
    let quotient = binary(number(10), TokenType::SLASH, "/", number(0));
    assert_eq!(interpreter.evaluate(&quotient), Err("Division by zero".to_string()));
}

#[test]
fn division_truncates_toward_zero() {
    let interpreter = Interpreter::new();
    let quotient = binary(number(-7), TokenType::SLASH, "/", number(2));
    assert_eq!(interpreter.evaluate(&quotient), Ok(Value::Number(-3)));
    let quotient = binary(number(7), TokenType::SLASH, "/", number(2));
    assert_eq!(interpreter.evaluate(&quotient), Ok(Value::Number(3)));
}

#[test]
fn arithmetic_overflow_is_an_error() {
    let interpreter = Interpreter::new();
    let sum = binary(number(i64::MAX), TokenType::PLUS, "+", number(1));
    assert_eq!(interpreter.evaluate(&sum), Err("Arithmetic overflow".to_string()));

    let negated = Exp::UnaryExp(UnaryExp {
        operator: token(TokenType::MINUS, "-"),
        right: Box::new(number(i64::MIN)),
    });
    assert_eq!(interpreter.evaluate(&negated), Err("Arithmetic overflow".to_string()));

    let quotient = binary(number(i64::MIN), TokenType::SLASH, "/", number(-1));
    assert_eq!(interpreter.evaluate(&quotient), Err("Arithmetic overflow".to_string()));
}

#[test]
fn bang_negates_truthiness() {
    let interpreter = Interpreter::new();
    let not_zero = Exp::UnaryExp(UnaryExp {
        operator: token(TokenType::BANG, "!"),
        right: Box::new(number(0)),
    });
    // Zero is truthy: only nil and false are falsy.
    assert_eq!(interpreter.evaluate(&not_zero), Ok(Value::Boolean(false)));

    let f = binary(number(1), TokenType::BangEqual, "!=", number(1));
    let not_false = Exp::UnaryExp(UnaryExp {
        operator: token(TokenType::BANG, "!"),
        right: Box::new(f),
    });
    assert_eq!(interpreter.evaluate(&not_false), Ok(Value::Boolean(true)));
}

#[test]
fn minus_refuses_non_numbers() {
    let interpreter = Interpreter::new();
    let negated = Exp::UnaryExp(UnaryExp {
        operator: token(TokenType::MINUS, "-"),
        right: Box::new(string("a")),
    });
    assert_eq!(
        interpreter.evaluate(&negated),
        Err("Minus can't be used with this value: a".to_string())
    );
}

#[test]
fn relational_operators_compare_numbers() {
    let interpreter = Interpreter::new();
    let cmp = binary(number(1), TokenType::LESS, "<", number(2));
    assert_eq!(interpreter.evaluate(&cmp), Ok(Value::Boolean(true)));
    let cmp = binary(number(1), TokenType::GreaterEqual, ">=", number(2));
    assert_eq!(interpreter.evaluate(&cmp), Ok(Value::Boolean(false)));
    let cmp = binary(string("a"), TokenType::LESS, "<", string("b"));
    assert_eq!(
        interpreter.evaluate(&cmp),
        Err("Non-number values not supported with operator -".to_string())
    );
}

#[test]
fn unknown_variable_is_an_error() {
    let interpreter = Interpreter::new();
    assert_eq!(
        interpreter.evaluate(&identifier("y")),
        Err("Unable to find global variable: y".to_string())
    );
}

#[test]
fn unknown_binary_operator_is_an_error() {
    let interpreter = Interpreter::new();
    let odd = binary(number(1), TokenType::COMMA, ",", number(2));
    assert_eq!(
        interpreter.evaluate(&odd),
        Err("Unknown TokenType for binary expression, line: 0".to_string())
    );
}

#[test]
fn failing_statement_keeps_earlier_effects() {
    let mut interpreter = Interpreter::new();
    let stmts = vec![
        Stmt::PrintStmt(number(1)),
        Stmt::PrintStmt(identifier("missing")),
        Stmt::PrintStmt(number(2)),
    ];
    assert_eq!(
        interpreter.interpret(&stmts),
        Err("Unable to find global variable: missing".to_string())
    );
    assert_eq!(interpreter.output(), &vec!["1".to_string()]);
}

#[test]
fn whole_pipeline_runs_source_text() {
    let mut scanner = Scanner::new("var x = 3 + 4;\nprint x * 2;\nprint \"done\";".to_string());
    let tokens = scanner.scan_tokens().clone();
    assert_eq!(scanner.errors.len(), 0);
    let mut parser = Parser::new(tokens.as_ref());
    let stmts = parser.parse().unwrap();
    let mut interpreter = Interpreter::new();
    assert_eq!(interpreter.interpret(&stmts), Ok(()));
    assert_eq!(interpreter.output(), &vec!["14".to_string(), "done".to_string()]);
}

#[test]
fn nil_placeholder_prints_as_null_text() {
    let mut scanner = Scanner::new("print nil;".to_string());
    let tokens = scanner.scan_tokens().clone();
    let stmts = Parser::new(tokens.as_ref()).parse().unwrap();
    let mut interpreter = Interpreter::new();
    assert_eq!(interpreter.interpret(&stmts), Ok(()));
    // `nil` parses as the string placeholder "null", which prints verbatim.
    assert_eq!(interpreter.output(), &vec!["null".to_string()]);
}

#[test]
fn value_display_forms() {
    assert_eq!(Value::Nil.to_string(), "nil");
    assert_eq!(Value::Boolean(true).to_string(), "true");
    assert_eq!(Value::Boolean(false).to_string(), "false");
    assert_eq!(Value::Number(-12).to_string(), "-12");
    assert_eq!(Value::Number(9007).to_string(), "9007");
    assert_eq!(Value::String("hi".to_string()).to_string(), "hi");
}
