//! The abstract syntax tree: expression and statement nodes produced by the
//! parser and consumed by the interpreter, together with their abstract
//! views, a well-formedness predicate, and the debug printer that renders
//! any tree in fully parenthesized prefix form.

use vstd::prelude::*;

use crate::numbers::dec_str;
use crate::numbers::i64_to_dec_string;
use crate::scanner::Literal;
use crate::scanner::LiteralView;
use crate::scanner::Token;
use crate::scanner::TokenType;
use crate::scanner::TokenTypeView;
use crate::scanner::TokenView;

verus! {

/// A statement: evaluate and discard, evaluate and display, or bind a
/// global variable.
#[derive(Debug, PartialEq)]
pub enum Stmt {
    ExprStmt(Exp),
    PrintStmt(Exp),
    VarDecl(VarDecl),
}

/// A global variable declaration: the declared name and its optional
/// initializer expression.
#[derive(Debug, PartialEq)]
pub struct VarDecl {
    pub name: String,
    pub initializer: Option<Exp>,
}

/// An expression tree: each non-leaf node exclusively owns its children.
#[derive(Debug, PartialEq)]
pub enum Exp {
    BinaryExp(BinaryExp),
    GroupingExp(GroupingExp),
    UnaryExp(UnaryExp),
    LiteralExp(LiteralExp),
}

/// A binary operator application.
#[derive(Debug, PartialEq)]
pub struct BinaryExp {
    pub left: Box<Exp>,
    pub operator: Token,
    pub right: Box<Exp>,
}

/// A parenthesized sub-expression.
#[derive(Debug, PartialEq)]
pub struct GroupingExp {
    pub exp: Box<Exp>,
}

/// A prefix operator application.
#[derive(Debug, PartialEq)]
pub struct UnaryExp {
    pub right: Box<Exp>,
    pub operator: Token,
}

/// A literal leaf.
#[derive(Debug, PartialEq)]
pub struct LiteralExp {
    pub value: Literal,
}

/// The abstract form of an expression tree.
pub enum ExpView {
    Binary { left: Box<ExpView>, operator: TokenView, right: Box<ExpView> },
    Grouping { inner: Box<ExpView> },
    Unary { operator: TokenView, right: Box<ExpView> },
    Lit { value: LiteralView },
}

/// The abstract form of a statement.
pub enum StmtView {
    ExprStmt(ExpView),
    PrintStmt(ExpView),
    VarDecl { name: Seq<char>, initializer: Option<ExpView> },
}

/// The abstract form of an expression.
pub open spec fn exp_view(e: Exp) -> ExpView
    decreases e,
{
    match e {
        Exp::BinaryExp(b) => ExpView::Binary {
            left: Box::new(exp_view(*b.left)),
            operator: b.operator@,
            right: Box::new(exp_view(*b.right)),
        },
        Exp::GroupingExp(g) => ExpView::Grouping { inner: Box::new(exp_view(*g.exp)) },
        Exp::UnaryExp(u) => ExpView::Unary {
            operator: u.operator@,
            right: Box::new(exp_view(*u.right)),
        },
        Exp::LiteralExp(l) => ExpView::Lit { value: l.value@ },
    }
}

impl View for Exp {
    type V = ExpView;

    open spec fn view(&self) -> ExpView {
        exp_view(*self)
    }
}

/// The abstract form of a statement value.
pub open spec fn stmt_view(s: Stmt) -> StmtView {
    match s {
        Stmt::ExprStmt(e) => StmtView::ExprStmt(exp_view(e)),
        Stmt::PrintStmt(e) => StmtView::PrintStmt(exp_view(e)),
        Stmt::VarDecl(d) => StmtView::VarDecl {
            name: d.name@,
            initializer: match d.initializer {
                Some(e) => Some(exp_view(e)),
                None => None,
            },
        },
    }
}

impl View for Stmt {
    type V = StmtView;

    open spec fn view(&self) -> StmtView {
        stmt_view(*self)
    }
}

impl View for VarDecl {
    type V = StmtView;

    open spec fn view(&self) -> StmtView {
        stmt_view(Stmt::VarDecl(*self))
    }
}

/// Whether every unary node carries one of the two prefix operators, the
/// only unary shapes the grammar produces and the evaluator gives a meaning
/// to. A unary node with any other operator is a structurally impossible
/// state that would abort the process rather than evaluate.
pub open spec fn exp_wf(e: ExpView) -> bool
    decreases e,
{
    match e {
        ExpView::Binary { left, right, .. } => exp_wf(*left) && exp_wf(*right),
        ExpView::Grouping { inner } => exp_wf(*inner),
        ExpView::Unary { operator, right } => (operator.kind == TokenTypeView::Bang
            || operator.kind == TokenTypeView::Minus) && exp_wf(*right),
        ExpView::Lit { .. } => true,
    }
}

/// Whether every expression in the statement is well formed.
pub open spec fn stmt_wf(s: StmtView) -> bool {
    match s {
        StmtView::ExprStmt(e) => exp_wf(e),
        StmtView::PrintStmt(e) => exp_wf(e),
        StmtView::VarDecl { initializer, .. } => match initializer {
            Some(e) => exp_wf(e),
            None => true,
        },
    }
}

impl Exp {
    /// Whether every unary node carries one of the two prefix operators.
    pub fn is_well_formed(&self) -> (r: bool)
        ensures
            r == exp_wf(self@),
        decreases *self,
    {
        match self {
            Exp::BinaryExp(x) => x.left.is_well_formed() && x.right.is_well_formed(),
            Exp::GroupingExp(x) => x.exp.is_well_formed(),
            Exp::UnaryExp(x) => (match &x.operator.token_type {
                TokenType::BANG => true,
                TokenType::MINUS => true,
                _ => false,
            }) && x.right.is_well_formed(),
            Exp::LiteralExp(_) => true,
        }
    }
}

impl Stmt {
    /// Whether every expression in the statement is well formed.
    pub fn is_well_formed(&self) -> (r: bool)
        ensures
            r == stmt_wf(self@),
    {
        match self {
            Stmt::ExprStmt(e) => e.is_well_formed(),
            Stmt::PrintStmt(e) => e.is_well_formed(),
            Stmt::VarDecl(d) => match &d.initializer {
                Some(e) => e.is_well_formed(),
                None => true,
            },
        }
    }
}

/// Whether every statement of the sequence is well formed.
pub open spec fn stmts_wf(stmts: Seq<StmtView>) -> bool {
    forall|i: int| 0 <= i < stmts.len() ==> stmt_wf(stmts[i])
}

/// Whether every statement of the vector is well formed.
pub fn stmts_well_formed(stmts: &Vec<Stmt>) -> (r: bool)
    ensures
        r == stmts_wf(stmts@.map_values(|s: Stmt| s@)),
{
    let ghost views = stmts@.map_values(|s: Stmt| s@);
    let mut i: usize = 0;
    while i < stmts.len()
        invariant
            i <= stmts@.len(),
            views == stmts@.map_values(|s: Stmt| s@),
            forall|j: int| 0 <= j < i ==> stmt_wf(views[j]),
        decreases stmts@.len() - i,
    {
        if !stmts[i].is_well_formed() {
            proof {
                assert(!stmt_wf(views[i as int]));
            }
            return false;
        }
        i += 1;
    }
    true
}

/// The fully parenthesized prefix rendering of an expression: operator
/// applications as `(<lexeme> <operands>)`, groupings as `(group <inner>)`,
/// literals as their raw value.
pub open spec fn exp_print(e: ExpView) -> Seq<char>
    decreases e,
{
    match e {
        ExpView::Binary { left, operator, right } => seq!['('] + operator.lexeme + seq![' ']
            + exp_print(*left) + seq![' '] + exp_print(*right) + seq![')'],
        ExpView::Grouping { inner } => "(group "@ + exp_print(*inner) + seq![')'],
        ExpView::Unary { operator, right } => seq!['('] + operator.lexeme + seq![' ']
            + exp_print(*right) + seq![')'],
        ExpView::Lit { value } => match value {
            LiteralView::Identifier(s) => s,
            LiteralView::StrLit(s) => s,
            LiteralView::Number(n) => dec_str(n),
        },
    }
}

/// The rendering of a statement: expression statements end with `;`, print
/// statements are prefixed with `print `, declarations render as
/// `var <name> = <initializer>;`.
pub open spec fn stmt_print(s: StmtView) -> Seq<char> {
    match s {
        StmtView::ExprStmt(e) => exp_print(e) + seq![';'],
        StmtView::PrintStmt(e) => "print "@ + exp_print(e) + seq![';'],
        StmtView::VarDecl { name, initializer } => match initializer {
            Some(e) => "var "@ + name + " = "@ + exp_print(e) + seq![';'],
            None => "var "@ + name + seq![';'],
        },
    }
}

/// Appends the prefix rendering of `exp` to `builder`.
fn exp_print_into(builder: &mut String, exp: &Exp)
    ensures
        final(builder)@ == old(builder)@ + exp_print(exp@),
    decreases *exp,
{
    match exp {
        Exp::BinaryExp(x) => {
            builder.append("(");
            builder.append(x.operator.lexeme.as_str());
            builder.append(" ");
            exp_print_into(builder, &*x.left);
            builder.append(" ");
            exp_print_into(builder, &*x.right);
            builder.append(")");
            proof {
                reveal_strlit("(");
                reveal_strlit(" ");
                reveal_strlit(")");
                assert(builder@ =~= old(builder)@ + exp_print(exp@));
            }
        },
        Exp::GroupingExp(x) => {
            builder.append("(group ");
            exp_print_into(builder, &*x.exp);
            builder.append(")");
            proof {
                reveal_strlit(")");
                assert(builder@ =~= old(builder)@ + exp_print(exp@));
            }
        },
        Exp::UnaryExp(x) => {
            builder.append("(");
            builder.append(x.operator.lexeme.as_str());
            builder.append(" ");
            exp_print_into(builder, &*x.right);
            builder.append(")");
            proof {
                reveal_strlit("(");
                reveal_strlit(" ");
                reveal_strlit(")");
                assert(builder@ =~= old(builder)@ + exp_print(exp@));
            }
        },
        Exp::LiteralExp(l) => {
            match &l.value {
                Literal::IDENTIFIER(s) => builder.append(s.as_str()),
                Literal::STRING(s) => builder.append(s.as_str()),
                Literal::NUMBER(n) => {
                    let d = i64_to_dec_string(*n);
                    builder.append(d.as_str());
                },
            }
            proof {
                assert(builder@ =~= old(builder)@ + exp_print(exp@));
            }
        },
    }
}

/// Appends the prefix rendering of `exp` to `builder` and hands the builder
/// back.
pub fn exp_printer<'a>(builder: &'a mut String, exp: &'a Exp) -> (r: &'a String)
    ensures
        r@ == old(builder)@ + exp_print(exp@),
        final(builder)@ == old(builder)@ + exp_print(exp@),
{
    exp_print_into(builder, exp);
    builder
}

/// Appends the prefix rendering of `stmt` to `builder` and hands the
/// builder back.
pub fn ast_printer<'a>(builder: &'a mut String, stmt: &'a Stmt) -> (r: &'a String)
    ensures
        r@ == old(builder)@ + stmt_print(stmt@),
        final(builder)@ == old(builder)@ + stmt_print(stmt@),
{
    match stmt {
        Stmt::ExprStmt(exp) => {
            exp_print_into(builder, exp);
            builder.append(";");
            proof {
                reveal_strlit(";");
                assert(builder@ =~= old(builder)@ + stmt_print(stmt@));
            }
        },
        Stmt::PrintStmt(exp) => {
            builder.append("print ");
            exp_print_into(builder, exp);
            builder.append(";");
            proof {
                reveal_strlit(";");
                assert(builder@ =~= old(builder)@ + stmt_print(stmt@));
            }
        },
        Stmt::VarDecl(decl) => {
            builder.append("var ");
            builder.append(decl.name.as_str());
            match &decl.initializer {
                Some(exp) => {
                    builder.append(" = ");
                    exp_print_into(builder, exp);
                    builder.append(";");
                },
                None => {
                    builder.append(";");
                },
            }
            proof {
                reveal_strlit(";");
                assert(builder@ =~= old(builder)@ + stmt_print(stmt@));
            }
        },
    }
    builder
}

} // verus!
