//! Tree-walking evaluator: executes statements in sequence against a single
//! global scope, with type-checked operator semantics.
//!
//! Whole-number semantics: literals and arithmetic are 64-bit integers.
//! Division truncates toward zero; division by zero and any arithmetic
//! overflow (including negating the smallest integer) are evaluation-time
//! errors, surfaced like type errors rather than aborting the process.

use vstd::prelude::*;

use crate::ast::BinaryExp;
use crate::ast::Exp;
use crate::ast::ExpView;
use crate::ast::GroupingExp;
use crate::ast::LiteralExp;
use crate::ast::Stmt;
use crate::ast::StmtView;
use crate::ast::UnaryExp;
use crate::ast::exp_wf;
use crate::ast::stmt_wf;
use crate::ast::stmts_wf;
use crate::environment::Environment;
use crate::numbers::dec_digits;
use crate::numbers::dec_str;
use crate::numbers::i64_to_dec_string;
use crate::numbers::usize_to_dec_string;
use crate::scanner::Literal;
use crate::scanner::LiteralView;
use crate::scanner::TokenType;
use crate::scanner::TokenTypeView;
use crate::scanner::TokenView;

verus! {

/// A runtime value: produced only by the evaluator, stored only in the
/// global scope.
#[derive(Debug, PartialEq)]
pub enum Value {
    Nil,
    Boolean(bool),
    Number(i64),
    String(String),
}

/// A runtime value with strings abstracted to character sequences and
/// numbers to unbounded integers.
pub enum ValueView {
    Nil,
    Boolean(bool),
    Number(int),
    StrVal(Seq<char>),
}

impl View for Value {
    type V = ValueView;

    open spec fn view(&self) -> ValueView {
        match self {
            Value::Nil => ValueView::Nil,
            Value::Boolean(b) => ValueView::Boolean(*b),
            Value::Number(n) => ValueView::Number(*n as int),
            Value::String(s) => ValueView::StrVal(s@),
        }
    }
}

/// The display rendering of a runtime value: `nil`, `true`/`false`, decimal
/// digits, or the string verbatim.
pub open spec fn display_of(v: ValueView) -> Seq<char> {
    match v {
        ValueView::Nil => "nil"@,
        ValueView::Boolean(b) => if b {
            "true"@
        } else {
            "false"@
        },
        ValueView::Number(n) => dec_str(n),
        ValueView::StrVal(s) => s,
    }
}

/// Truthiness: nil and false are falsy; every other value, including zero
/// and the empty string, is truthy.
pub open spec fn truthy(v: ValueView) -> bool {
    match v {
        ValueView::Nil => false,
        ValueView::Boolean(b) => b,
        ValueView::Number(_) => true,
        ValueView::StrVal(_) => true,
    }
}

/// Value equality: two values are equal iff they are the same variant with
/// equal payloads; values of different variants are never equal.
pub open spec fn vals_equal(a: ValueView, b: ValueView) -> bool {
    match (a, b) {
        (ValueView::Nil, ValueView::Nil) => true,
        (ValueView::Boolean(x), ValueView::Boolean(y)) => x == y,
        (ValueView::Number(x), ValueView::Number(y)) => x == y,
        (ValueView::StrVal(x), ValueView::StrVal(y)) => x == y,
        _ => false,
    }
}

/// Whether two values are of the same variant.
pub open spec fn same_shape(a: ValueView, b: ValueView) -> bool {
    match (a, b) {
        (ValueView::Nil, ValueView::Nil) => true,
        (ValueView::Boolean(_), ValueView::Boolean(_)) => true,
        (ValueView::Number(_), ValueView::Number(_)) => true,
        (ValueView::StrVal(_), ValueView::StrVal(_)) => true,
        _ => false,
    }
}

impl Value {
    /// An owned copy, equal to the original.
    pub(crate) fn dup(&self) -> (r: Value)
        ensures
            r == *self,
    {
        match self {
            Value::Nil => Value::Nil,
            Value::Boolean(b) => Value::Boolean(*b),
            Value::Number(n) => Value::Number(*n),
            Value::String(s) => Value::String(s.clone()),
        }
    }

    /// The display form of the value.
    pub fn to_string(&self) -> (r: String)
        ensures
            r@ == display_of(self@),
    {
        match self {
            Value::Nil => String::from_str("nil"),
            Value::Boolean(b) => if *b {
                String::from_str("true")
            } else {
                String::from_str("false")
            },
            Value::Number(n) => i64_to_dec_string(*n),
            Value::String(s) => s.clone(),
        }
    }

    /// Truthiness of the value.
    pub fn is_truthy(&self) -> (r: bool)
        ensures
            r == truthy(self@),
    {
        match self {
            Value::Nil => false,
            Value::Boolean(b) => *b,
            Value::Number(_) => true,
            Value::String(_) => true,
        }
    }

    /// Equality per `vals_equal`: never an error, whatever the variants.
    pub fn is_equal(&self, other: &Value) -> (r: bool)
        ensures
            r == vals_equal(self@, other@),
    {
        match (self, other) {
            (Value::Nil, Value::Nil) => true,
            (Value::Boolean(x), Value::Boolean(y)) => *x == *y,
            (Value::Number(x), Value::Number(y)) => *x == *y,
            (Value::String(x), Value::String(y)) => x.eq(y),
            _ => false,
        }
    }
}

/// The diagnostic for an unresolved identifier.
pub open spec fn unknown_variable_msg(id: Seq<char>) -> Seq<char> {
    "Unable to find global variable: "@ + id
}

/// The diagnostic for operands of different variants.
pub open spec fn type_mismatch_msg(l: ValueView, r: ValueView) -> Seq<char> {
    "Both sides of value must be the same type: "@ + display_of(l) + ", "@ + display_of(r)
}

/// The diagnostic an arithmetic or relational operator gives non-number
/// operands: mismatched variants name both values, same-variant non-numbers
/// get the fixed wording of the operator table.
pub open spec fn non_number_diag(l: ValueView, r: ValueView) -> Seq<char> {
    if same_shape(l, r) {
        "Non-number values not supported with operator -"@
    } else {
        type_mismatch_msg(l, r)
    }
}

/// The diagnostic `+` gives operands that are neither two numbers nor two
/// strings.
pub open spec fn plus_diag(l: ValueView, r: ValueView) -> Seq<char> {
    if same_shape(l, r) {
        "Only numbers and strings are supported for operator +"@
    } else {
        type_mismatch_msg(l, r)
    }
}

/// The diagnostic for a unary minus on a non-number.
pub open spec fn bad_unary_operand_msg(v: ValueView) -> Seq<char> {
    "Minus can't be used with this value: "@ + display_of(v)
}

/// The diagnostic for a token kind no binary dispatch handles.
pub open spec fn unknown_binary_op_msg(line: int) -> Seq<char> {
    "Unknown TokenType for binary expression, line: "@ + dec_digits(line)
}

/// Division truncating toward zero, the machine semantics of `/` on signed
/// integers.
pub open spec fn trunc_div(x: int, d: int) -> int {
    if x == 0 {
        0
    } else if x > 0 && d > 0 {
        x / d
    } else if x < 0 && d < 0 {
        (x * -1) / (d * -1)
    } else if x < 0 {
        ((x * -1) / d) * -1
    } else {
        (x / (d * -1)) * -1
    }
}

/// The meaning of a unary operator application. Only `!` and `-` reach
/// this: the well-formedness of the tree excludes every other operator.
pub open spec fn eval_unary(op: TokenView, v: ValueView) -> Result<ValueView, Seq<char>> {
    if op.kind == TokenTypeView::Bang {
        Ok(ValueView::Boolean(!truthy(v)))
    } else {
        match v {
            ValueView::Number(n) => if -n > i64::MAX {
                Err("Arithmetic overflow"@)
            } else {
                Ok(ValueView::Number(-n))
            },
            _ => Err(bad_unary_operand_msg(v)),
        }
    }
}

/// The meaning of a binary operator on two already-evaluated values.
/// Arithmetic and relational operators require two numbers; `+` also
/// concatenates two strings; `==`/`!=` compare any two values and never
/// fail; division by zero and overflow are errors.
pub open spec fn eval_binary(op: TokenView, l: ValueView, r: ValueView) -> Result<
    ValueView,
    Seq<char>,
> {
    match op.kind {
        TokenTypeView::Minus => match (l, r) {
            (ValueView::Number(a), ValueView::Number(b)) => if a - b > i64::MAX || a - b
                < i64::MIN {
                Err("Arithmetic overflow"@)
            } else {
                Ok(ValueView::Number(a - b))
            },
            _ => Err(non_number_diag(l, r)),
        },
        TokenTypeView::Slash => match (l, r) {
            (ValueView::Number(a), ValueView::Number(b)) => if b == 0 {
                Err("Division by zero"@)
            } else if trunc_div(a, b) > i64::MAX || trunc_div(a, b) < i64::MIN {
                Err("Arithmetic overflow"@)
            } else {
                Ok(ValueView::Number(trunc_div(a, b)))
            },
            _ => Err(non_number_diag(l, r)),
        },
        TokenTypeView::Star => match (l, r) {
            (ValueView::Number(a), ValueView::Number(b)) => if a * b > i64::MAX || a * b
                < i64::MIN {
                Err("Arithmetic overflow"@)
            } else {
                Ok(ValueView::Number(a * b))
            },
            _ => Err(non_number_diag(l, r)),
        },
        TokenTypeView::Greater => match (l, r) {
            (ValueView::Number(a), ValueView::Number(b)) => Ok(ValueView::Boolean(a > b)),
            _ => Err(non_number_diag(l, r)),
        },
        TokenTypeView::GreaterEqual => match (l, r) {
            (ValueView::Number(a), ValueView::Number(b)) => Ok(ValueView::Boolean(a >= b)),
            _ => Err(non_number_diag(l, r)),
        },
        TokenTypeView::Less => match (l, r) {
            (ValueView::Number(a), ValueView::Number(b)) => Ok(ValueView::Boolean(a < b)),
            _ => Err(non_number_diag(l, r)),
        },
        TokenTypeView::LessEqual => match (l, r) {
            (ValueView::Number(a), ValueView::Number(b)) => Ok(ValueView::Boolean(a <= b)),
            _ => Err(non_number_diag(l, r)),
        },
        TokenTypeView::Plus => match (l, r) {
            (ValueView::Number(a), ValueView::Number(b)) => if a + b > i64::MAX || a + b
                < i64::MIN {
                Err("Arithmetic overflow"@)
            } else {
                Ok(ValueView::Number(a + b))
            },
            (ValueView::StrVal(x), ValueView::StrVal(y)) => Ok(ValueView::StrVal(x + y)),
            _ => Err(plus_diag(l, r)),
        },
        TokenTypeView::BangEqual => Ok(ValueView::Boolean(!vals_equal(l, r))),
        TokenTypeView::EqualEqual => Ok(ValueView::Boolean(vals_equal(l, r))),
        _ => Err(unknown_binary_op_msg(op.line)),
    }
}

/// The meaning of a literal leaf: strings and numbers wrap directly;
/// identifiers resolve in the environment.
pub open spec fn eval_literal(env: Map<Seq<char>, ValueView>, lit: LiteralView) -> Result<
    ValueView,
    Seq<char>,
> {
    match lit {
        LiteralView::Identifier(id) => if env.contains_key(id) {
            Ok(env[id])
        } else {
            Err(unknown_variable_msg(id))
        },
        LiteralView::StrLit(s) => Ok(ValueView::StrVal(s)),
        LiteralView::Number(n) => Ok(ValueView::Number(n)),
    }
}

/// The meaning of a binary node: both operands are evaluated before the
/// operator is inspected; a left-operand error is surfaced before a
/// right-operand error.
pub open spec fn eval_binary_node(
    env: Map<Seq<char>, ValueView>,
    op: TokenView,
    l: ExpView,
    r: ExpView,
) -> Result<ValueView, Seq<char>> {
    match eval_exp(env, l) {
        Err(ml) => Err(ml),
        Ok(lv) => match eval_exp(env, r) {
            Err(mr) => Err(mr),
            Ok(rv) => eval_binary(op, lv, rv),
        },
    }
}

/// The evaluation model: a single recursive dispatch over the four
/// expression shapes, against an environment mapping names to values.
pub open spec fn eval_exp(env: Map<Seq<char>, ValueView>, e: ExpView) -> Result<
    ValueView,
    Seq<char>,
>
    decreases e,
{
    match e {
        ExpView::Lit { value } => eval_literal(env, value),
        ExpView::Grouping { inner } => eval_exp(env, *inner),
        ExpView::Unary { operator, right } => match eval_exp(env, *right) {
            Ok(v) => eval_unary(operator, v),
            Err(m) => Err(m),
        },
        ExpView::Binary { left, operator, right } => match eval_exp(env, *left) {
            Err(ml) => Err(ml),
            Ok(lv) => match eval_exp(env, *right) {
                Err(mr) => Err(mr),
                Ok(rv) => eval_binary(operator, lv, rv),
            },
        },
    }
}

/// One statement of the model: the scope and output afterwards, and the
/// error that aborted it, if any. Side effects of earlier statements are
/// never rolled back.
pub open spec fn exec_stmt(
    env: Map<Seq<char>, ValueView>,
    out: Seq<Seq<char>>,
    s: StmtView,
) -> (Map<Seq<char>, ValueView>, Seq<Seq<char>>, Option<Seq<char>>) {
    match s {
        StmtView::VarDecl { name, initializer } => {
            let v = match initializer {
                None => Ok(ValueView::Nil),
                Some(e) => eval_exp(env, e),
            };
            match v {
                Ok(val) => (env.insert(name, val), out, None),
                Err(m) => (env, out, Some(m)),
            }
        },
        StmtView::ExprStmt(e) => match eval_exp(env, e) {
            Ok(_) => (env, out, None),
            Err(m) => (env, out, Some(m)),
        },
        StmtView::PrintStmt(e) => match eval_exp(env, e) {
            Ok(v) => (env, out.push(display_of(v)), None),
            Err(m) => (env, out, Some(m)),
        },
    }
}

/// Statements execute in sequence; the first failing statement aborts the
/// run, leaving prior bindings and prints in place.
pub open spec fn run_stmts(
    env: Map<Seq<char>, ValueView>,
    out: Seq<Seq<char>>,
    stmts: Seq<StmtView>,
) -> (Map<Seq<char>, ValueView>, Seq<Seq<char>>, Option<Seq<char>>)
    decreases stmts.len(),
{
    if stmts.len() == 0 {
        (env, out, None)
    } else {
        let (env2, out2, err) = exec_stmt(env, out, stmts[0]);
        match err {
            Some(m) => (env2, out2, Some(m)),
            None => run_stmts(env2, out2, stmts.skip(1)),
        }
    }
}

} // verus!

verus! {

/// Builds the mismatched-operands diagnostic.
fn type_mismatch_error(a: &Value, b: &Value) -> (m: String)
    ensures
        m@ == type_mismatch_msg(a@, b@),
{
    let mut m = String::from_str("Both sides of value must be the same type: ");
    let da = a.to_string();
    m.append(da.as_str());
    m.append(", ");
    let db = b.to_string();
    m.append(db.as_str());
    m
}

/// Whether two values are of the same variant.
fn shapes_match(a: &Value, b: &Value) -> (r: bool)
    ensures
        r == same_shape(a@, b@),
{
    match (a, b) {
        (Value::Nil, Value::Nil) => true,
        (Value::Boolean(_), Value::Boolean(_)) => true,
        (Value::Number(_), Value::Number(_)) => true,
        (Value::String(_), Value::String(_)) => true,
        _ => false,
    }
}

/// Builds the non-number-operands diagnostic of the arithmetic and
/// relational operators.
fn non_number_error(a: &Value, b: &Value) -> (m: String)
    ensures
        m@ == non_number_diag(a@, b@),
{
    if shapes_match(a, b) {
        String::from_str("Non-number values not supported with operator -")
    } else {
        type_mismatch_error(a, b)
    }
}

/// The abstract state of an interpretation session: the global bindings and
/// the lines printed so far.
pub struct InterpreterView {
    pub globals: Map<Seq<char>, ValueView>,
    pub output: Seq<Seq<char>>,
}

/// Executes statements against a single global scope, collecting the
/// display output of `print` statements in order.
pub struct Interpreter {
    globals: Environment,
    output: Vec<String>,
}

impl View for Interpreter {
    type V = InterpreterView;

    closed spec fn view(&self) -> InterpreterView {
        InterpreterView {
            globals: self.globals@,
            output: self.output@.map_values(|s: String| s@),
        }
    }
}

impl Interpreter {
    /// A fresh session: empty scope, nothing printed.
    pub fn new() -> (r: Interpreter)
        ensures
            r@.globals == Map::<Seq<char>, ValueView>::empty(),
            r@.output == Seq::<Seq<char>>::empty(),
    {
        let r = Interpreter { globals: Environment::new(), output: Vec::new() };
        proof {
            assert(r@.output =~= Seq::<Seq<char>>::empty());
        }
        r
    }

    /// The lines printed so far, in order.
    pub fn output(&self) -> (r: &Vec<String>)
        ensures
            r@.map_values(|s: String| s@) == self@.output,
    {
        &self.output
    }

    /// Evaluates a literal leaf: strings and numbers wrap directly;
    /// identifiers resolve in the global scope.
    fn interpret_literal(&self, exp: &LiteralExp) -> (r: Result<Value, String>)
        ensures
            match r {
                Ok(v) => eval_literal(self@.globals, exp.value@) == Ok::<_, Seq<char>>(v@),
                Err(m) => eval_literal(self@.globals, exp.value@) == Err::<ValueView, _>(m@),
            },
    {
        match &exp.value {
            Literal::IDENTIFIER(id) => match self.globals.get(id) {
                None => {
                    let mut m = String::from_str("Unable to find global variable: ");
                    m.append(id.as_str());
                    Err(m)
                },
                Some(value) => Ok(value.dup()),
            },
            Literal::STRING(s) => Ok(Value::String(s.clone())),
            Literal::NUMBER(n) => Ok(Value::Number(*n)),
        }
    }

    /// Evaluates a grouping: its inner expression's value unchanged.
    fn interpret_grouping(&self, exp: &GroupingExp) -> (r: Result<Value, String>)
        requires
            exp_wf(exp.exp@),
        ensures
            match r {
                Ok(v) => eval_exp(self@.globals, exp.exp@) == Ok::<_, Seq<char>>(v@),
                Err(m) => eval_exp(self@.globals, exp.exp@) == Err::<ValueView, _>(m@),
            },
        decreases *exp,
    {
        self.evaluate(&*exp.exp)
    }

    /// Evaluates a unary application: `!` negates truthiness, `-` negates a
    /// number and refuses anything else.
    fn interpret_unary(&self, exp: &UnaryExp) -> (r: Result<Value, String>)
        requires
            exp.operator@.kind == TokenTypeView::Bang || exp.operator@.kind
                == TokenTypeView::Minus,
            exp_wf(exp.right@),
        ensures
            ({
                let spec_r = (match eval_exp(self@.globals, exp.right@) {
                    Ok(v) => eval_unary(exp.operator@, v),
                    Err(m) => Err(m),
                });
                match r {
                    Ok(v) => spec_r == Ok::<_, Seq<char>>(v@),
                    Err(m) => spec_r == Err::<ValueView, _>(m@),
                }
            }),
        decreases *exp,
    {
        let right = self.evaluate(&*exp.right);
        match &exp.operator.token_type {
            TokenType::BANG => match right {
                Ok(v) => Ok(Value::Boolean(!v.is_truthy())),
                Err(m) => Err(m),
            },
            TokenType::MINUS => match right {
                Ok(v) => match v {
                    Value::Number(value) => {
                        if value == i64::MIN {
                            Err(String::from_str("Arithmetic overflow"))
                        } else {
                            Ok(Value::Number(-value))
                        }
                    },
                    other => {
                        let mut m = String::from_str("Minus can't be used with this value: ");
                        let d = other.to_string();
                        m.append(d.as_str());
                        Err(m)
                    },
                },
                Err(m) => Err(m),
            },
            _ => unreached(),
        }
    }

    /// Evaluates a binary application: both operands first, right before
    /// left, then the type-checked operator dispatch.
    fn interpret_binary(&self, exp: &BinaryExp) -> (r: Result<Value, String>)
        requires
            exp_wf(exp.left@),
            exp_wf(exp.right@),
        ensures
            ({
                let spec_r = eval_binary_node(
                    self@.globals,
                    exp.operator@,
                    exp.left@,
                    exp.right@,
                );
                match r {
                    Ok(v) => spec_r == Ok::<_, Seq<char>>(v@),
                    Err(m) => spec_r == Err::<ValueView, _>(m@),
                }
            }),
        decreases *exp,
    {
        let right = self.evaluate(&*exp.right);
        let left = self.evaluate(&*exp.left);
        let lv = match left {
            Ok(v) => v,
            Err(m) => {
                return Err(m);
            },
        };
        let rv = match right {
            Ok(v) => v,
            Err(m) => {
                return Err(m);
            },
        };
        match &exp.operator.token_type {
            TokenType::MINUS => match (lv, rv) {
                (Value::Number(a), Value::Number(b)) => match a.checked_sub(b) {
                    Some(c) => Ok(Value::Number(c)),
                    None => Err(String::from_str("Arithmetic overflow")),
                },
                (a, b) => Err(non_number_error(&a, &b)),
            },
            TokenType::SLASH => match (lv, rv) {
                (Value::Number(a), Value::Number(b)) => {
                    if b == 0 {
                        Err(String::from_str("Division by zero"))
                    } else {
                        match a.checked_div(b) {
                            Some(c) => Ok(Value::Number(c)),
                            None => Err(String::from_str("Arithmetic overflow")),
                        }
                    }
                },
                (a, b) => Err(non_number_error(&a, &b)),
            },
            TokenType::STAR => match (lv, rv) {
                (Value::Number(a), Value::Number(b)) => match a.checked_mul(b) {
                    Some(c) => Ok(Value::Number(c)),
                    None => Err(String::from_str("Arithmetic overflow")),
                },
                (a, b) => Err(non_number_error(&a, &b)),
            },
            TokenType::GREATER => match (lv, rv) {
                (Value::Number(a), Value::Number(b)) => Ok(Value::Boolean(a > b)),
                (a, b) => Err(non_number_error(&a, &b)),
            },
            TokenType::GreaterEqual => match (lv, rv) {
                (Value::Number(a), Value::Number(b)) => Ok(Value::Boolean(a >= b)),
                (a, b) => Err(non_number_error(&a, &b)),
            },
            TokenType::LESS => match (lv, rv) {
                (Value::Number(a), Value::Number(b)) => Ok(Value::Boolean(a < b)),
                (a, b) => Err(non_number_error(&a, &b)),
            },
            TokenType::LessEqual => match (lv, rv) {
                (Value::Number(a), Value::Number(b)) => Ok(Value::Boolean(a <= b)),
                (a, b) => Err(non_number_error(&a, &b)),
            },
            TokenType::PLUS => match (lv, rv) {
                (Value::Number(a), Value::Number(b)) => match a.checked_add(b) {
                    Some(c) => Ok(Value::Number(c)),
                    None => Err(String::from_str("Arithmetic overflow")),
                },
                (Value::String(x), Value::String(y)) => Ok(Value::String(x.concat(y.as_str()))),
                (a, b) => {
                    if shapes_match(&a, &b) {
                        Err(String::from_str("Only numbers and strings are supported for operator +"))
                    } else {
                        Err(type_mismatch_error(&a, &b))
                    }
                },
            },
            TokenType::BangEqual => Ok(Value::Boolean(!lv.is_equal(&rv))),
            TokenType::EqualEqual => Ok(Value::Boolean(lv.is_equal(&rv))),
            _ => {
                let mut m = String::from_str("Unknown TokenType for binary expression, line: ");
                let d = usize_to_dec_string(exp.operator.line);
                m.append(d.as_str());
                Err(m)
            },
        }
    }

    /// Evaluates an expression: a single recursive dispatch over the four
    /// node shapes.
    pub fn evaluate(&self, exp: &Exp) -> (r: Result<Value, String>)
        requires
            exp_wf(exp@),
        ensures
            match r {
                Ok(v) => eval_exp(self@.globals, exp@) == Ok::<_, Seq<char>>(v@),
                Err(m) => eval_exp(self@.globals, exp@) == Err::<ValueView, _>(m@),
            },
        decreases *exp,
    {
        match exp {
            Exp::BinaryExp(bin_exp) => self.interpret_binary(bin_exp),
            Exp::GroupingExp(grouping_exp) => self.interpret_grouping(grouping_exp),
            Exp::UnaryExp(unary_exp) => self.interpret_unary(unary_exp),
            Exp::LiteralExp(literal_exp) => self.interpret_literal(literal_exp),
        }
    }

    /// Executes one statement: evaluates, then binds, prints or discards.
    fn execute(&mut self, stmt: &Stmt) -> (r: Result<(), String>)
        requires
            stmt_wf(stmt@),
        ensures
            ({
                let (env2, out2, err) = exec_stmt(
                    old(self)@.globals,
                    old(self)@.output,
                    stmt@,
                );
                &&& final(self)@.globals == env2
                &&& final(self)@.output == out2
                &&& match r {
                    Ok(u) => err is None,
                    Err(m) => err == Some(m@),
                }
            }),
    {
        match stmt {
            Stmt::VarDecl(decl) => {
                let val = match &decl.initializer {
                    None => Ok(Value::Nil),
                    Some(exp) => self.evaluate(exp),
                };
                match val {
                    Ok(v) => {
                        self.globals.put(decl.name.clone(), v);
                        Ok(())
                    },
                    Err(m) => Err(m),
                }
            },
            Stmt::ExprStmt(exp) => match self.evaluate(exp) {
                Ok(_) => Ok(()),
                Err(m) => Err(m),
            },
            Stmt::PrintStmt(exp) => match self.evaluate(exp) {
                Ok(v) => {
                    let line = v.to_string();
                    self.output.push(line);
                    proof {
                        assert(self@.output =~= old(self)@.output.push(display_of(v@)));
                    }
                    Ok(())
                },
                Err(m) => Err(m),
            },
        }
    }

    /// Executes statements in sequence; the first failing statement aborts
    /// the run and its message is surfaced, with prior bindings and prints
    /// left in place.
    pub fn interpret(&mut self, stmts: &Vec<Stmt>) -> (r: Result<(), String>)
        requires
            stmts_wf(stmts@.map_values(|s: Stmt| s@)),
        ensures
            ({
                let (env2, out2, err) = run_stmts(
                    old(self)@.globals,
                    old(self)@.output,
                    stmts@.map_values(|s: Stmt| s@),
                );
                &&& final(self)@.globals == env2
                &&& final(self)@.output == out2
                &&& match r {
                    Ok(u) => err is None,
                    Err(m) => err == Some(m@),
                }
            }),
    {
        let ghost views = stmts@.map_values(|s: Stmt| s@);
        proof {
            assert(views.skip(0) =~= views);
        }
        let mut i: usize = 0;
        while i < stmts.len()
            invariant
                i <= stmts@.len(),
                views == stmts@.map_values(|s: Stmt| s@),
                stmts_wf(views),
                run_stmts(old(self)@.globals, old(self)@.output, views) == run_stmts(
                    self@.globals,
                    self@.output,
                    views.skip(i as int),
                ),
            decreases stmts@.len() - i,
        {
            let ghost pre = self@;
            proof {
                assert(stmt_wf(views[i as int]));
                assert(views.skip(i as int)[0] == views[i as int]);
            }
            match self.execute(&stmts[i]) {
                Ok(_) => {
                    proof {
                        assert(views.skip(i as int).skip(1) =~= views.skip(i as int + 1));
                    }
                    i += 1;
                },
                Err(m) => {
                    return Err(m);
                },
            }
        }
        proof {
            assert(views.skip(i as int) =~= Seq::<StmtView>::empty());
        }
        Ok(())
    }
}

} // verus!

verus! {

/// The operators `==` and `!=` never fail, whatever the operand variants;
/// values of different variants — a number against a string of
/// equal-looking text among them — compare unequal rather than erroring.
pub proof fn lemma_equality_never_fails(op: TokenView, l: ValueView, r: ValueView)
    requires
        op.kind == TokenTypeView::EqualEqual || op.kind == TokenTypeView::BangEqual,
    ensures
        op.kind == TokenTypeView::EqualEqual ==> eval_binary(op, l, r) == Ok::<
            ValueView,
            Seq<char>,
        >(ValueView::Boolean(vals_equal(l, r))),
        op.kind == TokenTypeView::BangEqual ==> eval_binary(op, l, r) == Ok::<
            ValueView,
            Seq<char>,
        >(ValueView::Boolean(!vals_equal(l, r))),
        !same_shape(l, r) ==> !vals_equal(l, r),
{
}

/// Dividing any number by zero is an evaluation-time error, never a value
/// and never a process abort.
pub proof fn lemma_division_by_zero(op: TokenView, a: int)
    requires
        op.kind == TokenTypeView::Slash,
    ensures
        eval_binary(op, ValueView::Number(a), ValueView::Number(0)) == Err::<
            ValueView,
            Seq<char>,
        >("Division by zero"@),
{
}

/// Executing a variable declaration binds the evaluated initializer under
/// the declared name, overwriting any prior binding of that name; nothing
/// is printed and nothing fails.
pub proof fn lemma_redeclaration_overwrites(
    env: Map<Seq<char>, ValueView>,
    out: Seq<Seq<char>>,
    name: Seq<char>,
    e: ExpView,
    v: ValueView,
)
    requires
        eval_exp(env, e) == Ok::<ValueView, Seq<char>>(v),
    ensures
        ({
            let (env2, out2, err) = exec_stmt(env, out, StmtView::VarDecl { name, initializer: Some(e) });
            &&& env2 == env.insert(name, v)
            &&& env2.contains_key(name) && env2[name] == v
            &&& out2 == out
            &&& err is None
        }),
{
}

} // verus!

