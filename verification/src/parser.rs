//! Recursive-descent parser: converts a token sequence into a sequence of
//! statement trees by precedence climbing, aborting the whole parse on the
//! first grammar violation.
//!
//! The grammar is specified by the mutually recursive functions
//! `parse_program`, `parse_statement`, `parse_equality` … `parse_primary`;
//! each executable method is proved to return exactly what the
//! corresponding grammar function denotes, to advance the cursor, and to
//! produce well-formed trees.

use vstd::prelude::*;

use crate::ast::BinaryExp;
use crate::ast::Exp;
use crate::ast::ExpView;
use crate::ast::GroupingExp;
use crate::ast::LiteralExp;
use crate::ast::Stmt;
use crate::ast::StmtView;
use crate::ast::UnaryExp;
use crate::ast::VarDecl;
use crate::ast::exp_wf;
use crate::ast::stmt_wf;
use crate::ast::stmts_wf;
use crate::scanner::Literal;
use crate::scanner::LiteralView;
use crate::scanner::Token;
use crate::scanner::TokenType;
use crate::scanner::TokenTypeView;
use crate::scanner::TokenView;
use crate::scanner::same_kind;
use crate::scanner::tokens_view;

verus! {

/// Whether the token at `pos` exists and matches kind `k` by discriminant.
pub open spec fn at_kind(t: Seq<TokenView>, pos: int, k: TokenTypeView) -> bool {
    0 <= pos < t.len() && same_kind(t[pos].kind, k)
}

/// Equality operators: `==`, `!=`. Left-associative folding over
/// `parse_comparison`.
pub open spec fn parse_equality(t: Seq<TokenView>, pos: int) -> Result<
    (ExpView, int),
    Seq<char>,
>
    decreases t.len() - pos, 8int,
{
    match parse_comparison(t, pos) {
        Ok((left, p)) => if pos < p <= t.len() {
            parse_equality_rest(t, p, left)
        } else {
            Err(Seq::empty())
        },
        Err(e) => Err(e),
    }
}

/// The left-associative loop of the equality level.
pub open spec fn parse_equality_rest(t: Seq<TokenView>, pos: int, left: ExpView) -> Result<
    (ExpView, int),
    Seq<char>,
>
    decreases t.len() - pos, 9int,
{
    if at_kind(t, pos, TokenTypeView::EqualEqual) || at_kind(t, pos, TokenTypeView::BangEqual) {
        match parse_comparison(t, pos + 1) {
            Ok((right, p2)) => if pos < p2 <= t.len() {
                parse_equality_rest(
                    t,
                    p2,
                    ExpView::Binary {
                        left: Box::new(left),
                        operator: t[pos],
                        right: Box::new(right),
                    },
                )
            } else {
                Err(Seq::empty())
            },
            Err(e) => Err(e),
        }
    } else {
        Ok((left, pos))
    }
}

/// Comparison operators: `>`, `>=`, `<`, `<=`.
pub open spec fn parse_comparison(t: Seq<TokenView>, pos: int) -> Result<
    (ExpView, int),
    Seq<char>,
>
    decreases t.len() - pos, 6int,
{
    match parse_addition(t, pos) {
        Ok((left, p)) => if pos < p <= t.len() {
            parse_comparison_rest(t, p, left)
        } else {
            Err(Seq::empty())
        },
        Err(e) => Err(e),
    }
}

/// The left-associative loop of the comparison level.
pub open spec fn parse_comparison_rest(t: Seq<TokenView>, pos: int, left: ExpView) -> Result<
    (ExpView, int),
    Seq<char>,
>
    decreases t.len() - pos, 7int,
{
    if at_kind(t, pos, TokenTypeView::Greater) || at_kind(t, pos, TokenTypeView::GreaterEqual)
        || at_kind(t, pos, TokenTypeView::Less) || at_kind(t, pos, TokenTypeView::LessEqual) {
        match parse_addition(t, pos + 1) {
            Ok((right, p2)) => if pos < p2 <= t.len() {
                parse_comparison_rest(
                    t,
                    p2,
                    ExpView::Binary {
                        left: Box::new(left),
                        operator: t[pos],
                        right: Box::new(right),
                    },
                )
            } else {
                Err(Seq::empty())
            },
            Err(e) => Err(e),
        }
    } else {
        Ok((left, pos))
    }
}

/// Additive operators: `-`, `+`.
pub open spec fn parse_addition(t: Seq<TokenView>, pos: int) -> Result<(ExpView, int), Seq<char>>
    decreases t.len() - pos, 4int,
{
    match parse_multiplication(t, pos) {
        Ok((left, p)) => if pos < p <= t.len() {
            parse_addition_rest(t, p, left)
        } else {
            Err(Seq::empty())
        },
        Err(e) => Err(e),
    }
}

/// The left-associative loop of the additive level.
pub open spec fn parse_addition_rest(t: Seq<TokenView>, pos: int, left: ExpView) -> Result<
    (ExpView, int),
    Seq<char>,
>
    decreases t.len() - pos, 5int,
{
    if at_kind(t, pos, TokenTypeView::Minus) || at_kind(t, pos, TokenTypeView::Plus) {
        match parse_multiplication(t, pos + 1) {
            Ok((right, p2)) => if pos < p2 <= t.len() {
                parse_addition_rest(
                    t,
                    p2,
                    ExpView::Binary {
                        left: Box::new(left),
                        operator: t[pos],
                        right: Box::new(right),
                    },
                )
            } else {
                Err(Seq::empty())
            },
            Err(e) => Err(e),
        }
    } else {
        Ok((left, pos))
    }
}

/// Multiplicative operators: `/`, `*`.
pub open spec fn parse_multiplication(t: Seq<TokenView>, pos: int) -> Result<
    (ExpView, int),
    Seq<char>,
>
    decreases t.len() - pos, 2int,
{
    match parse_unary(t, pos) {
        Ok((left, p)) => if pos < p <= t.len() {
            parse_multiplication_rest(t, p, left)
        } else {
            Err(Seq::empty())
        },
        Err(e) => Err(e),
    }
}

/// The left-associative loop of the multiplicative level.
pub open spec fn parse_multiplication_rest(t: Seq<TokenView>, pos: int, left: ExpView) -> Result<
    (ExpView, int),
    Seq<char>,
>
    decreases t.len() - pos, 3int,
{
    if at_kind(t, pos, TokenTypeView::Slash) || at_kind(t, pos, TokenTypeView::Star) {
        match parse_unary(t, pos + 1) {
            Ok((right, p2)) => if pos < p2 <= t.len() {
                parse_multiplication_rest(
                    t,
                    p2,
                    ExpView::Binary {
                        left: Box::new(left),
                        operator: t[pos],
                        right: Box::new(right),
                    },
                )
            } else {
                Err(Seq::empty())
            },
            Err(e) => Err(e),
        }
    } else {
        Ok((left, pos))
    }
}

/// Prefix operators `!` and `-`: right-recursive, falling through to the
/// primary rule when no prefix operator matches.
pub open spec fn parse_unary(t: Seq<TokenView>, pos: int) -> Result<(ExpView, int), Seq<char>>
    decreases t.len() - pos, 1int,
{
    if at_kind(t, pos, TokenTypeView::Bang) || at_kind(t, pos, TokenTypeView::Minus) {
        match parse_unary(t, pos + 1) {
            Ok((right, p2)) => Ok(
                (ExpView::Unary { operator: t[pos], right: Box::new(right) }, p2),
            ),
            Err(e) => Err(e),
        }
    } else {
        parse_primary(t, pos)
    }
}

/// The primary rule: `nil`/`true`/`false` as literal placeholder values,
/// literal-payload tokens as literal nodes, and a parenthesized
/// sub-expression that must be closed by `)`. Any other token here is a
/// syntax error.
pub open spec fn parse_primary(t: Seq<TokenView>, pos: int) -> Result<(ExpView, int), Seq<char>>
    decreases t.len() - pos, 0int,
{
    if pos < 0 || pos >= t.len() {
        Err("No tokens to parse"@)
    } else {
        match t[pos].kind {
            TokenTypeView::Nil => Ok(
                (ExpView::Lit { value: LiteralView::StrLit("null"@) }, pos + 1),
            ),
            TokenTypeView::True => Ok(
                (ExpView::Lit { value: LiteralView::StrLit("true"@) }, pos + 1),
            ),
            TokenTypeView::False => Ok(
                (ExpView::Lit { value: LiteralView::StrLit("false"@) }, pos + 1),
            ),
            TokenTypeView::Literal(l) => Ok((ExpView::Lit { value: l }, pos + 1)),
            TokenTypeView::LeftParen => match parse_equality(t, pos + 1) {
                Ok((inner, p2)) => if at_kind(t, p2, TokenTypeView::RightParen) {
                    Ok((ExpView::Grouping { inner: Box::new(inner) }, p2 + 1))
                } else {
                    Err("Expect ')' after expression."@)
                },
                Err(e) => Err(e),
            },
            _ => Err("Didn't expect to get anything other than a literal or paren here"@),
        }
    }
}

/// An expression followed by a required `;`.
pub open spec fn parse_statement_body(t: Seq<TokenView>, pos: int) -> Result<
    (ExpView, int),
    Seq<char>,
> {
    match parse_equality(t, pos) {
        Ok((e, p)) => if at_kind(t, p, TokenTypeView::Semicolon) {
            Ok((e, p + 1))
        } else {
            Err("Expect ';' after value."@)
        },
        Err(e) => Err(e),
    }
}

/// What follows a `var` keyword: a required identifier, a required `=`, an
/// initializer expression and a required `;`.
pub open spec fn parse_declaration_body(t: Seq<TokenView>, pos: int) -> Result<
    (StmtView, int),
    Seq<char>,
> {
    if pos < 0 || pos >= t.len() {
        Err("Expected Literal token"@)
    } else {
        match t[pos].kind {
            TokenTypeView::Literal(l) => match l {
                LiteralView::Identifier(name) => if at_kind(t, pos + 1, TokenTypeView::Equal) {
                    match parse_statement_body(t, pos + 2) {
                        Ok((e, p)) => Ok(
                            (StmtView::VarDecl { name, initializer: Some(e) }, p),
                        ),
                        Err(e) => Err(e),
                    }
                } else {
                    Err("Expected equals after variable name"@)
                },
                _ => Err("Expected Identifier token"@),
            },
            _ => Err("Expected Literal token"@),
        }
    }
}

/// One statement: a `var` declaration, a `print` statement, or a bare
/// expression statement.
pub open spec fn parse_statement(t: Seq<TokenView>, pos: int) -> Result<
    (StmtView, int),
    Seq<char>,
> {
    if at_kind(t, pos, TokenTypeView::Var) {
        parse_declaration_body(t, pos + 1)
    } else if at_kind(t, pos, TokenTypeView::Print) {
        match parse_statement_body(t, pos + 1) {
            Ok((e, p)) => Ok((StmtView::PrintStmt(e), p)),
            Err(e) => Err(e),
        }
    } else {
        match parse_statement_body(t, pos) {
            Ok((e, p)) => Ok((StmtView::ExprStmt(e), p)),
            Err(e) => Err(e),
        }
    }
}

/// The whole program: statements until the cursor reaches the end of the
/// buffer or the end-of-input token; the first failure aborts the parse.
pub open spec fn parse_program(t: Seq<TokenView>, pos: int) -> Result<Seq<StmtView>, Seq<char>>
    decreases t.len() - pos,
{
    if pos < 0 || pos >= t.len() || same_kind(t[pos].kind, TokenTypeView::Eof) {
        Ok(Seq::empty())
    } else {
        match parse_statement(t, pos) {
            Ok((s, p)) => if pos < p <= t.len() {
                match parse_program(t, p) {
                    Ok(rest) => Ok(seq![s] + rest),
                    Err(e) => Err(e),
                }
            } else {
                Err(Seq::empty())
            },
            Err(e) => Err(e),
        }
    }
}

} // verus!

verus! {

/// Folds one successfully parsed statement into the running relation
/// between a parse's starting position and its current position.
proof fn lemma_parse_program_step(
    t: Seq<TokenView>,
    p0: int,
    pb: int,
    vb: Seq<StmtView>,
    s: StmtView,
    pn: int,
)
    requires
        0 <= pb < t.len(),
        !same_kind(t[pb].kind, TokenTypeView::Eof),
        parse_statement(t, pb) == Ok::<_, Seq<char>>((s, pn)),
        pb < pn <= t.len(),
        (match parse_program(t, pb) {
            Ok(rest) => parse_program(t, p0) == Ok::<_, Seq<char>>(vb + rest),
            Err(e) => parse_program(t, p0) == Err::<Seq<StmtView>, _>(e),
        }),
    ensures
        (match parse_program(t, pn) {
            Ok(rest) => parse_program(t, p0) == Ok::<_, Seq<char>>((vb + seq![s]) + rest),
            Err(e) => parse_program(t, p0) == Err::<Seq<StmtView>, _>(e),
        }),
{
    assert(parse_program(t, pb) == (match parse_program(t, pn) {
        Ok(rest) => Ok::<_, Seq<char>>(seq![s] + rest),
        Err(e) => Err::<Seq<StmtView>, _>(e),
    }));
    match parse_program(t, pn) {
        Ok(rest) => {
            assert(parse_program(t, p0) == Ok::<_, Seq<char>>(vb + (seq![s] + rest)));
            assert(vb + (seq![s] + rest) =~= (vb + seq![s]) + rest);
        },
        Err(e) => {},
    }
}

/// Surfaces the failure of one statement as the failure of the parse that
/// reached it.
proof fn lemma_parse_program_err(
    t: Seq<TokenView>,
    p0: int,
    pb: int,
    vb: Seq<StmtView>,
    m: Seq<char>,
)
    requires
        0 <= pb < t.len(),
        !same_kind(t[pb].kind, TokenTypeView::Eof),
        parse_statement(t, pb) == Err::<(StmtView, int), _>(m),
        (match parse_program(t, pb) {
            Ok(rest) => parse_program(t, p0) == Ok::<_, Seq<char>>(vb + rest),
            Err(e) => parse_program(t, p0) == Err::<Seq<StmtView>, _>(e),
        }),
    ensures
        parse_program(t, p0) == Err::<Seq<StmtView>, _>(m),
{
    assert(parse_program(t, pb) == Err::<Seq<StmtView>, _>(m));
}

/// A cursor over an immutable token buffer. The buffer is never mutated;
/// the cursor never exceeds its length.
pub struct Parser<'a> {
    data: &'a [Token],
    current_position: usize,
}

impl<'a> Parser<'a> {
    /// The abstract token sequence the parser reads.
    pub closed spec fn toks(self) -> Seq<TokenView> {
        tokens_view(self.data@)
    }

    /// The cursor.
    pub closed spec fn pos(self) -> int {
        self.current_position as int
    }

    /// The cursor stays within the buffer.
    pub open spec fn wf(self) -> bool {
        0 <= self.pos() <= self.toks().len()
    }

    /// A fresh parser over `data`, with the cursor at the start.
    pub fn new(data: &'a [Token]) -> (r: Parser<'a>)
        ensures
            r.toks() == tokens_view(data@),
            r.pos() == 0,
            r.wf(),
    {
        Parser { data, current_position: 0 }
    }

    /// If the current token matches one of `valid_tokens` by discriminant,
    /// consumes it; otherwise leaves the cursor alone.
    fn consume_valid_tokens(&mut self, valid_tokens: &[TokenType]) -> (r: bool)
        requires
            old(self).wf(),
        ensures
            final(self).toks() == old(self).toks(),
            final(self).wf(),
            r == (old(self).pos() < old(self).toks().len() && (exists|i: int|
                0 <= i < valid_tokens@.len() && same_kind(
                    old(self).toks()[old(self).pos()].kind,
                    valid_tokens@[i]@,
                ))),
            r ==> final(self).pos() == old(self).pos() + 1,
            !r ==> final(self).pos() == old(self).pos(),
    {
        if self.data.len() <= self.current_position {
            return false;
        }
        let current = &self.data[self.current_position];
        proof {
            assert(self.toks()[self.pos()] == current@);
        }
        if current.token_type.matches(valid_tokens) {
            self.current_position += 1;
            return true;
        }
        false
    }

    /// Advances the cursor; past the end of the buffer this is a no-op.
    fn advance(&mut self)
        requires
            old(self).wf(),
        ensures
            final(self).toks() == old(self).toks(),
            final(self).wf(),
            old(self).pos() < old(self).toks().len() ==> final(self).pos() == old(self).pos()
                + 1,
            old(self).pos() >= old(self).toks().len() ==> final(self).pos() == old(self).pos(),
    {
        if self.current_position != self.data.len() {
            self.current_position += 1;
        }
    }

    /// The equality level: `==` and `!=` over comparisons.
    fn equality(&mut self) -> (r: Result<Exp, String>)
        requires
            old(self).wf(),
        ensures
            final(self).toks() == old(self).toks(),
            final(self).wf(),
            match r {
                Ok(e) => ({
                    &&& parse_equality(old(self).toks(), old(self).pos()) == Ok::<
                        _,
                        Seq<char>,
                    >((e@, final(self).pos()))
                    &&& old(self).pos() < final(self).pos() <= old(self).toks().len()
                    &&& exp_wf(e@)
                }),
                Err(m) => parse_equality(old(self).toks(), old(self).pos()) == Err::<
                    (ExpView, int),
                    _,
                >(m@),
            },
        decreases self.toks().len() - self.pos(), 8int,
    {
        let left = match self.comparison() {
            Ok(e) => e,
            Err(m) => {
                return Err(m);
            },
        };
        self.equality_rest(left)
    }

    /// The left-associative loop of the equality level.
    fn equality_rest(&mut self, left: Exp) -> (r: Result<Exp, String>)
        requires
            old(self).wf(),
            exp_wf(left@),
        ensures
            final(self).toks() == old(self).toks(),
            final(self).wf(),
            match r {
                Ok(e) => ({
                    &&& parse_equality_rest(old(self).toks(), old(self).pos(), left@) == Ok::<
                        _,
                        Seq<char>,
                    >((e@, final(self).pos()))
                    &&& old(self).pos() <= final(self).pos() <= old(self).toks().len()
                    &&& exp_wf(e@)
                }),
                Err(m) => parse_equality_rest(old(self).toks(), old(self).pos(), left@) == Err::<
                    (ExpView, int),
                    _,
                >(m@),
            },
        decreases self.toks().len() - self.pos(), 9int,
    {
        if self.consume_valid_tokens(&[TokenType::EqualEqual, TokenType::BangEqual]) {
            let op_ref = &self.data[self.current_position - 1];
            let operator = op_ref.dup();
            let right = match self.comparison() {
                Ok(e) => e,
                Err(m) => {
                    return Err(m);
                },
            };
            let combined = Exp::BinaryExp(
                BinaryExp { left: Box::new(left), operator, right: Box::new(right) },
            );
            self.equality_rest(combined)
        } else {
            Ok(left)
        }
    }

    /// The comparison level: `>`, `>=`, `<`, `<=` over additions.
    fn comparison(&mut self) -> (r: Result<Exp, String>)
        requires
            old(self).wf(),
        ensures
            final(self).toks() == old(self).toks(),
            final(self).wf(),
            match r {
                Ok(e) => ({
                    &&& parse_comparison(old(self).toks(), old(self).pos()) == Ok::<
                        _,
                        Seq<char>,
                    >((e@, final(self).pos()))
                    &&& old(self).pos() < final(self).pos() <= old(self).toks().len()
                    &&& exp_wf(e@)
                }),
                Err(m) => parse_comparison(old(self).toks(), old(self).pos()) == Err::<
                    (ExpView, int),
                    _,
                >(m@),
            },
        decreases self.toks().len() - self.pos(), 6int,
    {
        let left = match self.addition() {
            Ok(e) => e,
            Err(m) => {
                return Err(m);
            },
        };
        self.comparison_rest(left)
    }

    /// The left-associative loop of the comparison level.
    fn comparison_rest(&mut self, left: Exp) -> (r: Result<Exp, String>)
        requires
            old(self).wf(),
            exp_wf(left@),
        ensures
            final(self).toks() == old(self).toks(),
            final(self).wf(),
            match r {
                Ok(e) => ({
                    &&& parse_comparison_rest(old(self).toks(), old(self).pos(), left@) == Ok::<
                        _,
                        Seq<char>,
                    >((e@, final(self).pos()))
                    &&& old(self).pos() <= final(self).pos() <= old(self).toks().len()
                    &&& exp_wf(e@)
                }),
                Err(m) => parse_comparison_rest(old(self).toks(), old(self).pos(), left@)
                    == Err::<(ExpView, int), _>(m@),
            },
        decreases self.toks().len() - self.pos(), 7int,
    {
        if self.consume_valid_tokens(
            &[TokenType::GREATER, TokenType::GreaterEqual, TokenType::LESS, TokenType::LessEqual],
        ) {
            let op_ref = &self.data[self.current_position - 1];
            let operator = op_ref.dup();
            let right = match self.addition() {
                Ok(e) => e,
                Err(m) => {
                    return Err(m);
                },
            };
            let combined = Exp::BinaryExp(
                BinaryExp { left: Box::new(left), operator, right: Box::new(right) },
            );
            self.comparison_rest(combined)
        } else {
            Ok(left)
        }
    }

    /// The additive level: `-` and `+` over multiplications.
    fn addition(&mut self) -> (r: Result<Exp, String>)
        requires
            old(self).wf(),
        ensures
            final(self).toks() == old(self).toks(),
            final(self).wf(),
            match r {
                Ok(e) => ({
                    &&& parse_addition(old(self).toks(), old(self).pos()) == Ok::<
                        _,
                        Seq<char>,
                    >((e@, final(self).pos()))
                    &&& old(self).pos() < final(self).pos() <= old(self).toks().len()
                    &&& exp_wf(e@)
                }),
                Err(m) => parse_addition(old(self).toks(), old(self).pos()) == Err::<
                    (ExpView, int),
                    _,
                >(m@),
            },
        decreases self.toks().len() - self.pos(), 4int,
    {
        let left = match self.multiplication() {
            Ok(e) => e,
            Err(m) => {
                return Err(m);
            },
        };
        self.addition_rest(left)
    }

    /// The left-associative loop of the additive level.
    fn addition_rest(&mut self, left: Exp) -> (r: Result<Exp, String>)
        requires
            old(self).wf(),
            exp_wf(left@),
        ensures
            final(self).toks() == old(self).toks(),
            final(self).wf(),
            match r {
                Ok(e) => ({
                    &&& parse_addition_rest(old(self).toks(), old(self).pos(), left@) == Ok::<
                        _,
                        Seq<char>,
                    >((e@, final(self).pos()))
                    &&& old(self).pos() <= final(self).pos() <= old(self).toks().len()
                    &&& exp_wf(e@)
                }),
                Err(m) => parse_addition_rest(old(self).toks(), old(self).pos(), left@) == Err::<
                    (ExpView, int),
                    _,
                >(m@),
            },
        decreases self.toks().len() - self.pos(), 5int,
    {
        if self.consume_valid_tokens(&[TokenType::MINUS, TokenType::PLUS]) {
            let op_ref = &self.data[self.current_position - 1];
            let operator = op_ref.dup();
            let right = match self.multiplication() {
                Ok(e) => e,
                Err(m) => {
                    return Err(m);
                },
            };
            let combined = Exp::BinaryExp(
                BinaryExp { left: Box::new(left), operator, right: Box::new(right) },
            );
            self.addition_rest(combined)
        } else {
            Ok(left)
        }
    }

    /// The multiplicative level: `/` and `*` over unaries.
    fn multiplication(&mut self) -> (r: Result<Exp, String>)
        requires
            old(self).wf(),
        ensures
            final(self).toks() == old(self).toks(),
            final(self).wf(),
            match r {
                Ok(e) => ({
                    &&& parse_multiplication(old(self).toks(), old(self).pos()) == Ok::<
                        _,
                        Seq<char>,
                    >((e@, final(self).pos()))
                    &&& old(self).pos() < final(self).pos() <= old(self).toks().len()
                    &&& exp_wf(e@)
                }),
                Err(m) => parse_multiplication(old(self).toks(), old(self).pos()) == Err::<
                    (ExpView, int),
                    _,
                >(m@),
            },
        decreases self.toks().len() - self.pos(), 2int,
    {
        let left = match self.unary() {
            Ok(e) => e,
            Err(m) => {
                return Err(m);
            },
        };
        self.multiplication_rest(left)
    }

    /// The left-associative loop of the multiplicative level.
    fn multiplication_rest(&mut self, left: Exp) -> (r: Result<Exp, String>)
        requires
            old(self).wf(),
            exp_wf(left@),
        ensures
            final(self).toks() == old(self).toks(),
            final(self).wf(),
            match r {
                Ok(e) => ({
                    &&& parse_multiplication_rest(old(self).toks(), old(self).pos(), left@)
                        == Ok::<_, Seq<char>>((e@, final(self).pos()))
                    &&& old(self).pos() <= final(self).pos() <= old(self).toks().len()
                    &&& exp_wf(e@)
                }),
                Err(m) => parse_multiplication_rest(old(self).toks(), old(self).pos(), left@)
                    == Err::<(ExpView, int), _>(m@),
            },
        decreases self.toks().len() - self.pos(), 3int,
    {
        if self.consume_valid_tokens(&[TokenType::SLASH, TokenType::STAR]) {
            let op_ref = &self.data[self.current_position - 1];
            let operator = op_ref.dup();
            let right = match self.unary() {
                Ok(e) => e,
                Err(m) => {
                    return Err(m);
                },
            };
            let combined = Exp::BinaryExp(
                BinaryExp { left: Box::new(left), operator, right: Box::new(right) },
            );
            self.multiplication_rest(combined)
        } else {
            Ok(left)
        }
    }

    /// The unary level: prefix `!` and `-`, right-recursive.
    fn unary(&mut self) -> (r: Result<Exp, String>)
        requires
            old(self).wf(),
        ensures
            final(self).toks() == old(self).toks(),
            final(self).wf(),
            match r {
                Ok(e) => ({
                    &&& parse_unary(old(self).toks(), old(self).pos()) == Ok::<_, Seq<char>>(
                        (e@, final(self).pos()),
                    )
                    &&& old(self).pos() < final(self).pos() <= old(self).toks().len()
                    &&& exp_wf(e@)
                }),
                Err(m) => parse_unary(old(self).toks(), old(self).pos()) == Err::<
                    (ExpView, int),
                    _,
                >(m@),
            },
        decreases self.toks().len() - self.pos(), 1int,
    {
        if self.consume_valid_tokens(&[TokenType::BANG, TokenType::MINUS]) {
            let op_ref = &self.data[self.current_position - 1];
            let operator = op_ref.dup();
            let right = match self.unary() {
                Ok(e) => e,
                Err(m) => {
                    return Err(m);
                },
            };
            Ok(Exp::UnaryExp(UnaryExp { right: Box::new(right), operator }))
        } else {
            self.primary()
        }
    }

    /// The primary rule: literal placeholders, literal tokens, and
    /// parenthesized sub-expressions.
    fn primary(&mut self) -> (r: Result<Exp, String>)
        requires
            old(self).wf(),
        ensures
            final(self).toks() == old(self).toks(),
            final(self).wf(),
            match r {
                Ok(e) => ({
                    &&& parse_primary(old(self).toks(), old(self).pos()) == Ok::<_, Seq<char>>(
                        (e@, final(self).pos()),
                    )
                    &&& old(self).pos() < final(self).pos() <= old(self).toks().len()
                    &&& exp_wf(e@)
                }),
                Err(m) => parse_primary(old(self).toks(), old(self).pos()) == Err::<
                    (ExpView, int),
                    _,
                >(m@),
            },
        decreases self.toks().len() - self.pos(), 0int,
    {
        if self.data.len() <= self.current_position {
            return Err(String::from_str("No tokens to parse"));
        }
        let current = &self.data[self.current_position];
        proof {
            assert(self.toks()[self.pos()] == current@);
        }
        match &current.token_type {
            TokenType::NIL => {
                self.advance();
                Ok(Exp::LiteralExp(LiteralExp { value: Literal::STRING(String::from_str("null")) }))
            },
            TokenType::TRUE => {
                self.advance();
                Ok(Exp::LiteralExp(LiteralExp { value: Literal::STRING(String::from_str("true")) }))
            },
            TokenType::FALSE => {
                self.advance();
                Ok(
                    Exp::LiteralExp(
                        LiteralExp { value: Literal::STRING(String::from_str("false")) },
                    ),
                )
            },
            TokenType::Literal(lit) => {
                let value = lit.dup();
                self.advance();
                Ok(Exp::LiteralExp(LiteralExp { value }))
            },
            TokenType::LeftParen => {
                self.advance();
                let inner = match self.equality() {
                    Ok(e) => e,
                    Err(m) => {
                        return Err(m);
                    },
                };
                if self.consume_valid_tokens(&[TokenType::RightParen]) {
                    Ok(Exp::GroupingExp(GroupingExp { exp: Box::new(inner) }))
                } else {
                    Err(String::from_str("Expect ')' after expression."))
                }
            },
            _ => Err(String::from_str("Didn't expect to get anything other than a literal or paren here")),
        }
    }

    /// The expression grammar's entry point: the lowest-precedence level.
    pub fn expression(&mut self) -> (r: Result<Exp, String>)
        requires
            old(self).wf(),
        ensures
            final(self).toks() == old(self).toks(),
            final(self).wf(),
            match r {
                Ok(e) => ({
                    &&& parse_equality(old(self).toks(), old(self).pos()) == Ok::<
                        _,
                        Seq<char>,
                    >((e@, final(self).pos()))
                    &&& old(self).pos() < final(self).pos() <= old(self).toks().len()
                    &&& exp_wf(e@)
                }),
                Err(m) => parse_equality(old(self).toks(), old(self).pos()) == Err::<
                    (ExpView, int),
                    _,
                >(m@),
            },
    {
        self.equality()
    }

    /// An expression followed by a required `;`.
    fn consume_statement_body(&mut self) -> (r: Result<Exp, String>)
        requires
            old(self).wf(),
        ensures
            final(self).toks() == old(self).toks(),
            final(self).wf(),
            match r {
                Ok(e) => ({
                    &&& parse_statement_body(old(self).toks(), old(self).pos()) == Ok::<
                        _,
                        Seq<char>,
                    >((e@, final(self).pos()))
                    &&& old(self).pos() < final(self).pos() <= old(self).toks().len()
                    &&& exp_wf(e@)
                }),
                Err(m) => parse_statement_body(old(self).toks(), old(self).pos()) == Err::<
                    (ExpView, int),
                    _,
                >(m@),
            },
    {
        let e = match self.expression() {
            Ok(e) => e,
            Err(m) => {
                return Err(m);
            },
        };
        if self.consume_valid_tokens(&[TokenType::SEMICOLON]) {
            Ok(e)
        } else {
            Err(String::from_str("Expect ';' after value."))
        }
    }

    /// What follows a `var` keyword: identifier, `=`, initializer, `;`.
    fn consume_declaration_body(&mut self) -> (r: Result<VarDecl, String>)
        requires
            old(self).wf(),
        ensures
            final(self).toks() == old(self).toks(),
            final(self).wf(),
            match r {
                Ok(d) => ({
                    &&& parse_declaration_body(old(self).toks(), old(self).pos()) == Ok::<
                        _,
                        Seq<char>,
                    >((d@, final(self).pos()))
                    &&& old(self).pos() < final(self).pos() <= old(self).toks().len()
                    &&& stmt_wf(d@)
                }),
                Err(m) => parse_declaration_body(old(self).toks(), old(self).pos()) == Err::<
                    (StmtView, int),
                    _,
                >(m@),
            },
    {
        if self.data.len() <= self.current_position {
            return Err(String::from_str("Expected Literal token"));
        }
        let current = &self.data[self.current_position];
        proof {
            assert(self.toks()[self.pos()] == current@);
        }
        match &current.token_type {
            TokenType::Literal(lit) => match lit {
                Literal::IDENTIFIER(id) => {
                    let name = id.clone();
                    self.current_position += 1;
                    if self.consume_valid_tokens(&[TokenType::EQUAL]) {
                        match self.consume_statement_body() {
                            Ok(e) => Ok(VarDecl { name, initializer: Some(e) }),
                            Err(m) => Err(m),
                        }
                    } else {
                        Err(String::from_str("Expected equals after variable name"))
                    }
                },
                _ => Err(String::from_str("Expected Identifier token")),
            },
            _ => Err(String::from_str("Expected Literal token")),
        }
    }

    /// One statement: a `var` declaration, a `print` statement, or a bare
    /// expression statement.
    #[verifier::rlimit(50)]
    fn statement(&mut self) -> (r: Result<Stmt, String>)
        requires
            old(self).wf(),
        ensures
            final(self).toks() == old(self).toks(),
            final(self).wf(),
            match r {
                Ok(s) => ({
                    &&& parse_statement(old(self).toks(), old(self).pos()) == Ok::<
                        _,
                        Seq<char>,
                    >((s@, final(self).pos()))
                    &&& old(self).pos() < final(self).pos() <= old(self).toks().len()
                    &&& stmt_wf(s@)
                }),
                Err(m) => parse_statement(old(self).toks(), old(self).pos()) == Err::<
                    (StmtView, int),
                    _,
                >(m@),
            },
    {
        if self.consume_valid_tokens(&[TokenType::VAR]) {
            match self.consume_declaration_body() {
                Ok(d) => Ok(Stmt::VarDecl(d)),
                Err(m) => Err(m),
            }
        } else if self.consume_valid_tokens(&[TokenType::PRINT]) {
            match self.consume_statement_body() {
                Ok(e) => Ok(Stmt::PrintStmt(e)),
                Err(m) => Err(m),
            }
        } else {
            match self.consume_statement_body() {
                Ok(e) => Ok(Stmt::ExprStmt(e)),
                Err(m) => Err(m),
            }
        }
    }

    /// Whether the cursor has reached the end of the buffer or the
    /// end-of-input token.
    fn is_at_end(&self) -> (r: bool)
        requires
            self.wf(),
        ensures
            r == (self.pos() >= self.toks().len() || same_kind(
                self.toks()[self.pos()].kind,
                TokenTypeView::Eof,
            )),
    {
        if self.current_position >= self.data.len() {
            return true;
        }
        let current = &self.data[self.current_position];
        proof {
            assert(self.toks()[self.pos()] == current@);
        }
        match &current.token_type {
            TokenType::EOF => true,
            _ => false,
        }
    }

    /// Parses statements until the end-of-input token; a failure on any one
    /// statement aborts the entire parse and surfaces its message. The
    /// produced statements are exactly what the grammar denotes, and every
    /// tree is well formed.
    #[verifier::rlimit(80)]
    pub fn parse(&mut self) -> (r: Result<Vec<Stmt>, String>)
        requires
            old(self).wf(),
        ensures
            final(self).toks() == old(self).toks(),
            final(self).wf(),
            match r {
                Ok(stmts) => ({
                    &&& parse_program(old(self).toks(), old(self).pos()) == Ok::<_, Seq<char>>(
                        stmts@.map_values(|s: Stmt| s@),
                    )
                    &&& stmts_wf(stmts@.map_values(|s: Stmt| s@))
                }),
                Err(m) => parse_program(old(self).toks(), old(self).pos()) == Err::<
                    Seq<StmtView>,
                    _,
                >(m@),
            },
    {
        let ghost t = self.toks();
        let ghost p0 = self.pos();
        let mut statements: Vec<Stmt> = Vec::new();
        while !self.is_at_end()
            invariant
                self.wf(),
                self.toks() == t,
                t == old(self).toks(),
                p0 == old(self).pos(),
                p0 <= self.pos(),
                stmts_wf(statements@.map_values(|s: Stmt| s@)),
                (match parse_program(t, self.pos()) {
                    Ok(rest) => parse_program(t, p0) == Ok::<_, Seq<char>>(
                        statements@.map_values(|s: Stmt| s@) + rest,
                    ),
                    Err(e) => parse_program(t, p0) == Err::<Seq<StmtView>, _>(e),
                }),
            decreases t.len() - self.pos(),
        {
            let ghost p_before = self.pos();
            let ghost views_before = statements@.map_values(|s: Stmt| s@);
            match self.statement() {
                Ok(s) => {
                    statements.push(s);
                    proof {
                        assert(statements@.map_values(|s: Stmt| s@) =~= views_before + seq![
                            s@,
                        ]);
                        lemma_parse_program_step(t, p0, p_before, views_before, s@, self.pos());
                    }
                },
                Err(m) => {
                    proof {
                        lemma_parse_program_err(t, p0, p_before, views_before, m@);
                    }
                    return Err(m);
                },
            }
        }
        proof {
            assert(parse_program(t, self.pos()) == Ok::<_, Seq<char>>(Seq::<StmtView>::empty()));
            assert(statements@.map_values(|s: Stmt| s@) + Seq::<StmtView>::empty() =~= statements@.map_values(
                |s: Stmt| s@,
            ));
        }
        Ok(statements)
    }
}

} // verus!
