use loxrust::ast::ast_printer;
use loxrust::ast::exp_printer;
use loxrust::ast::BinaryExp;
use loxrust::ast::Exp;
use loxrust::ast::GroupingExp;
use loxrust::ast::LiteralExp;
use loxrust::ast::Stmt;
use loxrust::ast::UnaryExp;
use loxrust::ast::VarDecl;
use loxrust::scanner::Literal;
use loxrust::scanner::Token;
use loxrust::scanner::TokenType;

fn token(token_type: TokenType, lexeme: &str) -> Token {
    Token { token_type, lexeme: lexeme.to_string(), line: 0 }
}

fn number(n: i64) -> Exp {
    Exp::LiteralExp(LiteralExp { value: Literal::NUMBER(n) })
}

#[test]
fn ast_printer_simple() {
    let binary_exp: Exp = Exp::BinaryExp(BinaryExp {
        left: Box::new(Exp::GroupingExp(GroupingExp {
            exp: Box::new(Exp::LiteralExp(LiteralExp {
                value: Literal::STRING("foobar".to_string()),
            })),
        })),
        operator: token(TokenType::EqualEqual, "=="),
        right: Box::new(number(2)),
    });
    let binary_stmt: Stmt = Stmt::ExprStmt(binary_exp);

    let mut output_string = String::new();
    let output = ast_printer(&mut output_string, &binary_stmt);

    assert_eq!(*output, "(== (group foobar) 2);".to_string());
}

#[test]
fn exp_printer_renders_prefix_form() {
    let exp = Exp::BinaryExp(BinaryExp {
        left: Box::new(number(1)),
        right: Box::new(Exp::UnaryExp(UnaryExp {
            operator: token(TokenType::MINUS, "-"),
            right: Box::new(number(2)),
        })),
        operator: token(TokenType::PLUS, "+"),
    });
    let mut builder = String::new();
    let output = exp_printer(&mut builder, &exp);
    assert_eq!(*output, "(+ 1 (- 2))");
}

#[test]
fn printer_renders_negative_numbers() {
    let exp = number(-45);
    let mut builder = String::new();
    let output = exp_printer(&mut builder, &exp);
    assert_eq!(*output, "-45");
}

#[test]
fn printer_appends_to_the_builder() {
    let mut builder = String::from("seen: ");
    let exp = number(7);
    let output = exp_printer(&mut builder, &exp);
    assert_eq!(*output, "seen: 7");
}

#[test]
fn print_statement_renders_with_prefix_and_semicolon() {
    let stmt = Stmt::PrintStmt(Exp::LiteralExp(LiteralExp {
        value: Literal::IDENTIFIER("x".to_string()),
    }));
    let mut builder = String::new();
    let output = ast_printer(&mut builder, &stmt);
    assert_eq!(*output, "print x;");
}

#[test]
fn var_declaration_renders_name_and_initializer() {
    let stmt = Stmt::VarDecl(VarDecl {
        name: "x".to_string(),
        initializer: Some(number(5)),
    });
    let mut builder = String::new();
    let output = ast_printer(&mut builder, &stmt);
    assert_eq!(*output, "var x = 5;");

    let bare = Stmt::VarDecl(VarDecl { name: "y".to_string(), initializer: None });
    let mut builder = String::new();
    let output = ast_printer(&mut builder, &bare);
    assert_eq!(*output, "var y;");
}

#[test]
fn well_formedness_rejects_foreign_unary_operators() {
    let good = Exp::UnaryExp(UnaryExp {
        operator: token(TokenType::BANG, "!"),
        right: Box::new(number(1)),
    });
    assert!(good.is_well_formed());
    let bad = Exp::UnaryExp(UnaryExp {
        operator: token(TokenType::PLUS, "+"),
        right: Box::new(number(1)),
    });
    assert!(!bad.is_well_formed());
}
