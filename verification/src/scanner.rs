//! Lexical scanner: converts raw source text into an ordered sequence of
//! tokens, collecting diagnostics for malformed input instead of halting.
//!
//! The scanner is specified against a character-level model of the lexical
//! grammar: `scan_spec` consumes the source character by character, greedily
//! and without backtracking, and `Scanner::scan_tokens` is proved to produce
//! exactly the tokens and diagnostics of that model.

use vstd::prelude::*;

use crate::numbers::dec_value;
use crate::numbers::dec_digits;
use crate::numbers::is_digit_char;
use crate::numbers::usize_to_dec_string;

verus! {

/// The payload of a literal token: an identifier name, a string literal's
/// contents, or a whole-number value.
#[allow(non_camel_case_types)]
#[derive(Clone, Debug, PartialEq)]
pub enum Literal {
    IDENTIFIER(String),
    STRING(String),
    NUMBER(i64),
}

/// A literal payload with strings abstracted to character sequences and
/// numbers to unbounded integers.
pub enum LiteralView {
    Identifier(Seq<char>),
    StrLit(Seq<char>),
    Number(int),
}

impl View for Literal {
    type V = LiteralView;

    open spec fn view(&self) -> LiteralView {
        match self {
            Literal::IDENTIFIER(s) => LiteralView::Identifier(s@),
            Literal::STRING(s) => LiteralView::StrLit(s@),
            Literal::NUMBER(n) => LiteralView::Number(*n as int),
        }
    }
}

/// The closed set of token kinds: single-character punctuation,
/// one-or-two-character operators, literal payloads, reserved keywords and
/// the end-of-input marker.
#[allow(non_camel_case_types)]
#[derive(Clone, Debug)]
pub enum TokenType {
    // Single-character tokens.
    LeftParen,
    RightParen,
    LeftBrace,
    RightBrace,
    COMMA,
    DOT,
    MINUS,
    PLUS,
    SEMICOLON,
    SLASH,
    STAR,
    // One or two character tokens.
    BANG,
    BangEqual,
    EQUAL,
    EqualEqual,
    GREATER,
    GreaterEqual,
    LESS,
    LessEqual,
    // Literals.
    Literal(Literal),
    // Keywords.
    AND,
    CLASS,
    ELSE,
    FALSE,
    FUN,
    FOR,
    IF,
    NIL,
    OR,
    PRINT,
    RETURN,
    SUPER,
    THIS,
    TRUE,
    VAR,
    WHILE,
    EOF,
}

/// The abstract counterpart of `TokenType`.
pub enum TokenTypeView {
    LeftParen,
    RightParen,
    LeftBrace,
    RightBrace,
    Comma,
    Dot,
    Minus,
    Plus,
    Semicolon,
    Slash,
    Star,
    Bang,
    BangEqual,
    Equal,
    EqualEqual,
    Greater,
    GreaterEqual,
    Less,
    LessEqual,
    Literal(LiteralView),
    And,
    Class,
    Else,
    False,
    Fun,
    For,
    If,
    Nil,
    Or,
    Print,
    Return,
    Super,
    This,
    True,
    Var,
    While,
    Eof,
}

impl View for TokenType {
    type V = TokenTypeView;

    open spec fn view(&self) -> TokenTypeView {
        match self {
            TokenType::LeftParen => TokenTypeView::LeftParen,
            TokenType::RightParen => TokenTypeView::RightParen,
            TokenType::LeftBrace => TokenTypeView::LeftBrace,
            TokenType::RightBrace => TokenTypeView::RightBrace,
            TokenType::COMMA => TokenTypeView::Comma,
            TokenType::DOT => TokenTypeView::Dot,
            TokenType::MINUS => TokenTypeView::Minus,
            TokenType::PLUS => TokenTypeView::Plus,
            TokenType::SEMICOLON => TokenTypeView::Semicolon,
            TokenType::SLASH => TokenTypeView::Slash,
            TokenType::STAR => TokenTypeView::Star,
            TokenType::BANG => TokenTypeView::Bang,
            TokenType::BangEqual => TokenTypeView::BangEqual,
            TokenType::EQUAL => TokenTypeView::Equal,
            TokenType::EqualEqual => TokenTypeView::EqualEqual,
            TokenType::GREATER => TokenTypeView::Greater,
            TokenType::GreaterEqual => TokenTypeView::GreaterEqual,
            TokenType::LESS => TokenTypeView::Less,
            TokenType::LessEqual => TokenTypeView::LessEqual,
            TokenType::Literal(l) => TokenTypeView::Literal(l@),
            TokenType::AND => TokenTypeView::And,
            TokenType::CLASS => TokenTypeView::Class,
            TokenType::ELSE => TokenTypeView::Else,
            TokenType::FALSE => TokenTypeView::False,
            TokenType::FUN => TokenTypeView::Fun,
            TokenType::FOR => TokenTypeView::For,
            TokenType::IF => TokenTypeView::If,
            TokenType::NIL => TokenTypeView::Nil,
            TokenType::OR => TokenTypeView::Or,
            TokenType::PRINT => TokenTypeView::Print,
            TokenType::RETURN => TokenTypeView::Return,
            TokenType::SUPER => TokenTypeView::Super,
            TokenType::THIS => TokenTypeView::This,
            TokenType::TRUE => TokenTypeView::True,
            TokenType::VAR => TokenTypeView::Var,
            TokenType::WHILE => TokenTypeView::While,
            TokenType::EOF => TokenTypeView::Eof,
        }
    }
}

/// A numeric tag identifying the variant of a token kind. All literal
/// payloads share one tag: grammar matching is by variant only.
pub open spec fn kind_tag(k: TokenTypeView) -> int {
    match k {
        TokenTypeView::LeftParen => 0,
        TokenTypeView::RightParen => 1,
        TokenTypeView::LeftBrace => 2,
        TokenTypeView::RightBrace => 3,
        TokenTypeView::Comma => 4,
        TokenTypeView::Dot => 5,
        TokenTypeView::Minus => 6,
        TokenTypeView::Plus => 7,
        TokenTypeView::Semicolon => 8,
        TokenTypeView::Slash => 9,
        TokenTypeView::Star => 10,
        TokenTypeView::Bang => 11,
        TokenTypeView::BangEqual => 12,
        TokenTypeView::Equal => 13,
        TokenTypeView::EqualEqual => 14,
        TokenTypeView::Greater => 15,
        TokenTypeView::GreaterEqual => 16,
        TokenTypeView::Less => 17,
        TokenTypeView::LessEqual => 18,
        TokenTypeView::Literal(_) => 19,
        TokenTypeView::And => 20,
        TokenTypeView::Class => 21,
        TokenTypeView::Else => 22,
        TokenTypeView::False => 23,
        TokenTypeView::Fun => 24,
        TokenTypeView::For => 25,
        TokenTypeView::If => 26,
        TokenTypeView::Nil => 27,
        TokenTypeView::Or => 28,
        TokenTypeView::Print => 29,
        TokenTypeView::Return => 30,
        TokenTypeView::Super => 31,
        TokenTypeView::This => 32,
        TokenTypeView::True => 33,
        TokenTypeView::Var => 34,
        TokenTypeView::While => 35,
        TokenTypeView::Eof => 36,
    }
}

/// Discriminant-only comparison of token kinds, the relation used for
/// grammar matching: any two literal payloads match.
pub open spec fn same_kind(a: TokenTypeView, b: TokenTypeView) -> bool {
    kind_tag(a) == kind_tag(b)
}

/// Equality of two literal payloads as token kinds: identifier and string
/// payloads compare structurally; numbers are never compared by value.
pub open spec fn lit_kind_eq(a: LiteralView, b: LiteralView) -> bool {
    match (a, b) {
        (LiteralView::Identifier(x), LiteralView::Identifier(y)) => x == y,
        (LiteralView::StrLit(x), LiteralView::StrLit(y)) => x == y,
        (LiteralView::Number(_), LiteralView::Number(_)) => true,
        _ => false,
    }
}

/// Token-kind equality: structural for identifier and string payloads,
/// value-blind for numeric payloads, discriminant equality otherwise.
pub open spec fn kind_eq(a: TokenTypeView, b: TokenTypeView) -> bool {
    match (a, b) {
        (TokenTypeView::Literal(x), TokenTypeView::Literal(y)) => lit_kind_eq(x, y),
        _ => same_kind(a, b),
    }
}

impl TokenType {
    /// The executable variant tag, mirroring `kind_tag`.
    pub(crate) fn tag(&self) -> (r: u32)
        ensures
            r as int == kind_tag(self@),
    {
        match self {
            TokenType::LeftParen => 0,
            TokenType::RightParen => 1,
            TokenType::LeftBrace => 2,
            TokenType::RightBrace => 3,
            TokenType::COMMA => 4,
            TokenType::DOT => 5,
            TokenType::MINUS => 6,
            TokenType::PLUS => 7,
            TokenType::SEMICOLON => 8,
            TokenType::SLASH => 9,
            TokenType::STAR => 10,
            TokenType::BANG => 11,
            TokenType::BangEqual => 12,
            TokenType::EQUAL => 13,
            TokenType::EqualEqual => 14,
            TokenType::GREATER => 15,
            TokenType::GreaterEqual => 16,
            TokenType::LESS => 17,
            TokenType::LessEqual => 18,
            TokenType::Literal(_) => 19,
            TokenType::AND => 20,
            TokenType::CLASS => 21,
            TokenType::ELSE => 22,
            TokenType::FALSE => 23,
            TokenType::FUN => 24,
            TokenType::FOR => 25,
            TokenType::IF => 26,
            TokenType::NIL => 27,
            TokenType::OR => 28,
            TokenType::PRINT => 29,
            TokenType::RETURN => 30,
            TokenType::SUPER => 31,
            TokenType::THIS => 32,
            TokenType::TRUE => 33,
            TokenType::VAR => 34,
            TokenType::WHILE => 35,
            TokenType::EOF => 36,
        }
    }

    /// Whether this kind matches, by discriminant only, one of the given
    /// kinds. This is the grammar-matching relation; it deliberately ignores
    /// literal payload values.
    pub fn matches(&self, valid_tokens: &[TokenType]) -> (r: bool)
        ensures
            r == exists|i: int|
                0 <= i < valid_tokens@.len() && same_kind(self@, valid_tokens@[i]@),
    {
        let my_tag = self.tag();
        let mut i: usize = 0;
        while i < valid_tokens.len()
            invariant
                0 <= i <= valid_tokens@.len(),
                my_tag as int == kind_tag(self@),
                forall|j: int| 0 <= j < i ==> !same_kind(self@, valid_tokens@[j]@),
            decreases valid_tokens@.len() - i,
        {
            let candidate = &valid_tokens[i];
            proof {
                assert(*candidate == valid_tokens@[i as int]);
            }
            if candidate.tag() == my_tag {
                proof {
                    assert(same_kind(self@, valid_tokens@[i as int]@));
                }
                return true;
            }
            proof {
                assert(!same_kind(self@, valid_tokens@[i as int]@));
            }
            i += 1;
        }
        false
    }
}

impl PartialEq for TokenType {
    /// Token-kind equality per `kind_eq`: payload-sensitive for identifier
    /// and string literals, payload-blind for numbers.
    fn eq(&self, other: &TokenType) -> (r: bool) {
        if self.tag() != other.tag() {
            false
        } else {
            match (self, other) {
                (TokenType::Literal(x), TokenType::Literal(y)) => match (x, y) {
                    (Literal::IDENTIFIER(a), Literal::IDENTIFIER(b)) => a.eq(b),
                    (Literal::STRING(a), Literal::STRING(b)) => a.eq(b),
                    (Literal::NUMBER(_), Literal::NUMBER(_)) => true,
                    _ => false,
                },
                _ => true,
            }
        }
    }
}

impl vstd::std_specs::cmp::PartialEqSpecImpl for TokenType {
    open spec fn obeys_eq_spec() -> bool {
        true
    }

    open spec fn eq_spec(&self, other: &TokenType) -> bool {
        kind_eq(self@, other@)
    }
}

/// The smallest lexical unit: a kind, the literal substring of source text it
/// was scanned from, and the 0-based line it lies on.
#[derive(Clone, Debug, PartialEq)]
pub struct Token {
    pub token_type: TokenType,
    pub lexeme: String,
    pub line: usize,
}

/// The abstract counterpart of `Token`.
pub struct TokenView {
    pub kind: TokenTypeView,
    pub lexeme: Seq<char>,
    pub line: int,
}

impl View for Token {
    type V = TokenView;

    open spec fn view(&self) -> TokenView {
        TokenView { kind: self.token_type@, lexeme: self.lexeme@, line: self.line as int }
    }
}

impl Literal {
    /// An owned copy, equal to the original.
    pub(crate) fn dup(&self) -> (r: Literal)
        ensures
            r == *self,
    {
        match self {
            Literal::IDENTIFIER(s) => Literal::IDENTIFIER(s.clone()),
            Literal::STRING(s) => Literal::STRING(s.clone()),
            Literal::NUMBER(n) => Literal::NUMBER(*n),
        }
    }
}

impl TokenType {
    /// An owned copy, equal to the original.
    pub(crate) fn dup(&self) -> (r: TokenType)
        ensures
            r == *self,
    {
        match self {
            TokenType::LeftParen => TokenType::LeftParen,
            TokenType::RightParen => TokenType::RightParen,
            TokenType::LeftBrace => TokenType::LeftBrace,
            TokenType::RightBrace => TokenType::RightBrace,
            TokenType::COMMA => TokenType::COMMA,
            TokenType::DOT => TokenType::DOT,
            TokenType::MINUS => TokenType::MINUS,
            TokenType::PLUS => TokenType::PLUS,
            TokenType::SEMICOLON => TokenType::SEMICOLON,
            TokenType::SLASH => TokenType::SLASH,
            TokenType::STAR => TokenType::STAR,
            TokenType::BANG => TokenType::BANG,
            TokenType::BangEqual => TokenType::BangEqual,
            TokenType::EQUAL => TokenType::EQUAL,
            TokenType::EqualEqual => TokenType::EqualEqual,
            TokenType::GREATER => TokenType::GREATER,
            TokenType::GreaterEqual => TokenType::GreaterEqual,
            TokenType::LESS => TokenType::LESS,
            TokenType::LessEqual => TokenType::LessEqual,
            TokenType::Literal(l) => TokenType::Literal(l.dup()),
            TokenType::AND => TokenType::AND,
            TokenType::CLASS => TokenType::CLASS,
            TokenType::ELSE => TokenType::ELSE,
            TokenType::FALSE => TokenType::FALSE,
            TokenType::FUN => TokenType::FUN,
            TokenType::FOR => TokenType::FOR,
            TokenType::IF => TokenType::IF,
            TokenType::NIL => TokenType::NIL,
            TokenType::OR => TokenType::OR,
            TokenType::PRINT => TokenType::PRINT,
            TokenType::RETURN => TokenType::RETURN,
            TokenType::SUPER => TokenType::SUPER,
            TokenType::THIS => TokenType::THIS,
            TokenType::TRUE => TokenType::TRUE,
            TokenType::VAR => TokenType::VAR,
            TokenType::WHILE => TokenType::WHILE,
            TokenType::EOF => TokenType::EOF,
        }
    }
}

impl Token {
    /// An owned copy, equal to the original.
    pub(crate) fn dup(&self) -> (r: Token)
        ensures
            r == *self,
    {
        Token { token_type: self.token_type.dup(), lexeme: self.lexeme.clone(), line: self.line }
    }
}

} // verus!


verus! {

/// Whether `c` is alphanumeric in the sense of the Unicode character
/// properties that identifier scanning goes by.
pub uninterp spec fn unicode_alphanumeric(c: char) -> bool;

/// Relies on char::is_alphanumeric: whether `c` is a Unicode letter or
/// number, a property of the character alone.
#[verifier::external_body]
fn is_alphanumeric_char(c: char) -> (r: bool)
    ensures
        r == unicode_alphanumeric(c),
{
    c.is_alphanumeric()
}

/// The index of the first occurrence of `c` at or after `from`, or the
/// length of `s` if there is none.
pub open spec fn find_char(s: Seq<char>, from: int, c: char) -> int
    decreases s.len() - from,
{
    if from < 0 || from >= s.len() {
        s.len() as int
    } else if s[from] == c {
        from
    } else {
        find_char(s, from + 1, c)
    }
}

/// The index of the first character at or after `from` that cannot be part
/// of a number literal (a digit or a decimal point), or the length of `s`.
pub open spec fn number_end(s: Seq<char>, from: int) -> int
    decreases s.len() - from,
{
    if from < 0 || from >= s.len() {
        s.len() as int
    } else if is_digit_char(s[from]) || s[from] == '.' {
        number_end(s, from + 1)
    } else {
        from
    }
}

/// The index of the first non-alphanumeric character at or after `from`, or
/// the length of `s`.
pub open spec fn word_end(s: Seq<char>, from: int) -> int
    decreases s.len() - from,
{
    if from < 0 || from >= s.len() {
        s.len() as int
    } else if unicode_alphanumeric(s[from]) {
        word_end(s, from + 1)
    } else {
        from
    }
}

/// The number of occurrences of `c` in `s`.
pub open spec fn count_char(s: Seq<char>, c: char) -> int
    decreases s.len(),
{
    if s.len() == 0 {
        0
    } else {
        count_char(s.drop_last(), c) + if s.last() == c {
            1int
        } else {
            0int
        }
    }
}

/// Whether every character of `s` is a decimal digit.
pub open spec fn all_digits(s: Seq<char>) -> bool {
    forall|i: int| 0 <= i < s.len() ==> is_digit_char(s[i])
}

/// The token kind of a scanned word: a reserved keyword, or an identifier
/// for any unreserved word.
pub open spec fn word_kind(w: Seq<char>) -> TokenTypeView {
    if w == "and"@ {
        TokenTypeView::And
    } else if w == "class"@ {
        TokenTypeView::Class
    } else if w == "else"@ {
        TokenTypeView::Else
    } else if w == "false"@ {
        TokenTypeView::False
    } else if w == "for"@ {
        TokenTypeView::For
    } else if w == "fun"@ {
        TokenTypeView::Fun
    } else if w == "if"@ {
        TokenTypeView::If
    } else if w == "nil"@ {
        TokenTypeView::Nil
    } else if w == "or"@ {
        TokenTypeView::Or
    } else if w == "print"@ {
        TokenTypeView::Print
    } else if w == "return"@ {
        TokenTypeView::Return
    } else if w == "super"@ {
        TokenTypeView::Super
    } else if w == "this"@ {
        TokenTypeView::This
    } else if w == "true"@ {
        TokenTypeView::True
    } else if w == "var"@ {
        TokenTypeView::Var
    } else if w == "while"@ {
        TokenTypeView::While
    } else {
        TokenTypeView::Literal(LiteralView::Identifier(w))
    }
}

/// The diagnostic for a string literal with no closing quote.
pub open spec fn unterminated_string_msg(line: int) -> Seq<char> {
    "Unterminated string starting on line "@ + dec_digits(line)
}

/// The diagnostic for a number literal ending in a decimal point.
pub open spec fn number_trailing_dot_msg(line: int) -> Seq<char> {
    "Number not permitted to end with '.' on line "@ + dec_digits(line)
}

/// The diagnostic for a number literal that does not parse as a whole number.
pub open spec fn number_parse_msg(line: int) -> Seq<char> {
    "Unable to parse number on line "@ + dec_digits(line)
}

/// The diagnostic for a character no token can start with.
pub open spec fn unrecognized_char_msg(c: char, line: int) -> Seq<char> {
    "Unrecognized character '"@ + seq![c] + "' on line "@ + dec_digits(line)
}

/// The outcome of one scanning step: the index where scanning resumes, the
/// line counter afterwards, and the token or diagnostic the step produced.
pub struct ScanStep {
    pub next: int,
    pub line: int,
    pub token: Option<TokenView>,
    pub error: Option<Seq<char>>,
}

/// A step that consumes `s[i .. j]` as a token of kind `k`.
pub open spec fn token_step(s: Seq<char>, i: int, j: int, line: int, k: TokenTypeView) -> ScanStep {
    ScanStep {
        next: j,
        line,
        token: Some(TokenView { kind: k, lexeme: s.subrange(i, j), line }),
        error: None,
    }
}

/// A step for a one-or-two-character operator: a following `=` merges into
/// the two-character kind `k2`, otherwise the single character is `k1`.
pub open spec fn two_char_step(
    s: Seq<char>,
    i: int,
    line: int,
    k1: TokenTypeView,
    k2: TokenTypeView,
) -> ScanStep {
    if i + 1 < s.len() && s[i + 1] == '=' {
        token_step(s, i, i + 2, line, k2)
    } else {
        token_step(s, i, i + 1, line, k1)
    }
}

/// A step for a string literal: consumes up to the closing quote, counting
/// the newlines inside; with no closing quote, consumes the rest of the
/// source and records a diagnostic.
pub open spec fn string_step(s: Seq<char>, i: int, line: int) -> ScanStep {
    let close = find_char(s, i + 1, '"');
    if close >= s.len() {
        ScanStep {
            next: s.len() as int,
            line,
            token: None,
            error: Some(unterminated_string_msg(line)),
        }
    } else {
        let content = s.subrange(i + 1, close);
        let line2 = line + count_char(content, '\n');
        ScanStep {
            next: close + 1,
            line: line2,
            token: Some(
                TokenView {
                    kind: TokenTypeView::Literal(LiteralView::StrLit(content)),
                    lexeme: s.subrange(i, close + 1),
                    line: line2,
                },
            ),
            error: None,
        }
    }
}

/// A step for a number literal: consumes the maximal run of digits and
/// decimal points; a trailing point, an inner point or a value beyond
/// `i64::MAX` is a diagnostic instead of a token.
pub open spec fn number_step(s: Seq<char>, i: int, line: int) -> ScanStep {
    let j = number_end(s, i);
    let w = s.subrange(i, j);
    if w.len() > 0 && w.last() == '.' {
        ScanStep { next: j, line, token: None, error: Some(number_trailing_dot_msg(line)) }
    } else if !all_digits(w) || dec_value(w) > i64::MAX {
        ScanStep { next: j, line, token: None, error: Some(number_parse_msg(line)) }
    } else {
        token_step(s, i, j, line, TokenTypeView::Literal(LiteralView::Number(dec_value(w))))
    }
}

/// A step for a keyword or identifier: consumes the maximal alphanumeric run.
pub open spec fn word_step(s: Seq<char>, i: int, line: int) -> ScanStep {
    let j = word_end(s, i);
    token_step(s, i, j, line, word_kind(s.subrange(i, j)))
}

/// One scanning step at position `i`: decides from the character there,
/// greedily and without backtracking, what the step consumes and produces.
pub open spec fn scan_step(s: Seq<char>, i: int, line: int) -> ScanStep {
    let c = s[i];
    if c == '(' {
        token_step(s, i, i + 1, line, TokenTypeView::LeftParen)
    } else if c == ')' {
        token_step(s, i, i + 1, line, TokenTypeView::RightParen)
    } else if c == '{' {
        token_step(s, i, i + 1, line, TokenTypeView::LeftBrace)
    } else if c == '}' {
        token_step(s, i, i + 1, line, TokenTypeView::RightBrace)
    } else if c == ',' {
        token_step(s, i, i + 1, line, TokenTypeView::Comma)
    } else if c == '.' {
        token_step(s, i, i + 1, line, TokenTypeView::Dot)
    } else if c == '-' {
        token_step(s, i, i + 1, line, TokenTypeView::Minus)
    } else if c == '+' {
        token_step(s, i, i + 1, line, TokenTypeView::Plus)
    } else if c == ';' {
        token_step(s, i, i + 1, line, TokenTypeView::Semicolon)
    } else if c == '*' {
        token_step(s, i, i + 1, line, TokenTypeView::Star)
    } else if c == '!' {
        two_char_step(s, i, line, TokenTypeView::Bang, TokenTypeView::BangEqual)
    } else if c == '=' {
        two_char_step(s, i, line, TokenTypeView::Equal, TokenTypeView::EqualEqual)
    } else if c == '<' {
        two_char_step(s, i, line, TokenTypeView::Less, TokenTypeView::LessEqual)
    } else if c == '>' {
        two_char_step(s, i, line, TokenTypeView::Greater, TokenTypeView::GreaterEqual)
    } else if c == '/' {
        if i + 1 < s.len() && s[i + 1] == '/' {
            // A line comment: consumed up to, not including, the newline.
            ScanStep { next: find_char(s, i + 2, '\n'), line, token: None, error: None }
        } else {
            token_step(s, i, i + 1, line, TokenTypeView::Slash)
        }
    } else if c == ' ' || c == '\r' || c == '\t' {
        ScanStep { next: i + 1, line, token: None, error: None }
    } else if c == '\n' {
        ScanStep { next: i + 1, line: line + 1, token: None, error: None }
    } else if c == '"' {
        string_step(s, i, line)
    } else if is_digit_char(c) {
        number_step(s, i, line)
    } else if unicode_alphanumeric(c) {
        word_step(s, i, line)
    } else {
        ScanStep { next: i + 1, line, token: None, error: Some(unrecognized_char_msg(c, line)) }
    }
}

/// The end-of-input token: empty lexeme, bearing the final line number.
pub open spec fn eof_token(line: int) -> TokenView {
    TokenView { kind: TokenTypeView::Eof, lexeme: Seq::empty(), line }
}

/// The result of a scan: the token sequence, always ending with the
/// end-of-input token, and the diagnostics in order of discovery.
pub struct ScanOut {
    pub tokens: Seq<TokenView>,
    pub errors: Seq<Seq<char>>,
}

/// The tokens and diagnostics that scanning produces from position `i` with
/// line counter `line`.
pub open spec fn scan_spec(s: Seq<char>, i: int, line: int) -> ScanOut
    decreases s.len() - i,
{
    if i < 0 || i >= s.len() {
        ScanOut { tokens: seq![eof_token(line)], errors: Seq::empty() }
    } else {
        let st = scan_step(s, i, line);
        let next = if st.next <= i {
            i + 1
        } else if st.next > s.len() {
            s.len() as int
        } else {
            st.next
        };
        let rest = scan_spec(s, next, st.line);
        ScanOut {
            tokens: (match st.token {
                Some(t) => seq![t],
                None => Seq::empty(),
            }) + rest.tokens,
            errors: (match st.error {
                Some(e) => seq![e],
                None => Seq::empty(),
            }) + rest.errors,
        }
    }
}

/// `find_char` stays within `[from, len]`, skips only non-matches, and
/// lands on a match if it lands inside the sequence.
pub proof fn lemma_find_char_props(s: Seq<char>, from: int, c: char)
    requires
        0 <= from <= s.len(),
    ensures
        from <= find_char(s, from, c) <= s.len(),
        forall|k: int| from <= k < find_char(s, from, c) ==> s[k] != c,
        find_char(s, from, c) < s.len() ==> s[find_char(s, from, c)] == c,
    decreases s.len() - from,
{
    if from < s.len() && s[from] != c {
        lemma_find_char_props(s, from + 1, c);
    }
}

/// `number_end` stays within `[from, len]`, consumes only digits and
/// points, and stops at the first character that is neither.
pub proof fn lemma_number_end_props(s: Seq<char>, from: int)
    requires
        0 <= from <= s.len(),
    ensures
        from <= number_end(s, from) <= s.len(),
        forall|k: int|
            from <= k < number_end(s, from) ==> is_digit_char(s[k]) || s[k] == '.',
        number_end(s, from) < s.len() ==> !(is_digit_char(s[number_end(s, from)])
            || s[number_end(s, from)] == '.'),
    decreases s.len() - from,
{
    if from < s.len() && (is_digit_char(s[from]) || s[from] == '.') {
        lemma_number_end_props(s, from + 1);
    }
}

/// `word_end` stays within `[from, len]` and consumes only alphanumerics.
pub proof fn lemma_word_end_props(s: Seq<char>, from: int)
    requires
        0 <= from <= s.len(),
    ensures
        from <= word_end(s, from) <= s.len(),
        forall|k: int| from <= k < word_end(s, from) ==> unicode_alphanumeric(s[k]),
        word_end(s, from) < s.len() ==> !unicode_alphanumeric(s[word_end(s, from)]),
    decreases s.len() - from,
{
    if from < s.len() && unicode_alphanumeric(s[from]) {
        lemma_word_end_props(s, from + 1);
    }
}

/// A character occurs between zero and `len` times.
pub proof fn lemma_count_char_bounds(s: Seq<char>, c: char)
    ensures
        0 <= count_char(s, c) <= s.len(),
    decreases s.len(),
{
    if s.len() > 0 {
        lemma_count_char_bounds(s.drop_last(), c);
    }
}

/// Every scanning step consumes at least one character, stays in bounds,
/// and moves the line counter by at most the characters it consumed.
pub proof fn lemma_scan_step_bounds(s: Seq<char>, i: int, line: int)
    requires
        0 <= i < s.len(),
    ensures
        i < scan_step(s, i, line).next <= s.len(),
        line <= scan_step(s, i, line).line <= line + (scan_step(s, i, line).next - i),
{
    let c = s[i];
    if c == '(' || c == ')' || c == '{' || c == '}' || c == ',' || c == '.' || c == '-' || c == '+'
        || c == ';' || c == '*' {
    } else if c == '!' || c == '=' || c == '<' || c == '>' {
    } else if c == '/' {
        if i + 1 < s.len() && s[i + 1] == '/' {
            lemma_find_char_props(s, i + 2, '\n');
        }
    } else if c == ' ' || c == '\r' || c == '\t' || c == '\n' {
    } else if c == '"' {
        lemma_find_char_props(s, i + 1, '"');
        let close = find_char(s, i + 1, '"');
        if close < s.len() {
            lemma_count_char_bounds(s.subrange(i + 1, close), '\n');
        }
    } else if is_digit_char(c) {
        lemma_number_end_props(s, i);
        assert(number_end(s, i) == number_end(s, i + 1));
        lemma_number_end_props(s, i + 1);
    } else if unicode_alphanumeric(c) {
        lemma_word_end_props(s, i);
        assert(word_end(s, i) == word_end(s, i + 1));
        lemma_word_end_props(s, i + 1);
    } else {
    }
}

} // verus!

verus! {

/// Collects the characters of a string slice into a vector.
fn to_char_vec(s: &str) -> (r: Vec<char>)
    ensures
        r@ == s@,
{
    let n = s.unicode_len();
    let mut r: Vec<char> = Vec::new();
    let mut i: usize = 0;
    while i < n
        invariant
            i <= n,
            n == s@.len(),
            r@ == s@.subrange(0, i as int),
        decreases n - i,
    {
        r.push(s.get_char(i));
        proof {
            assert(r@ =~= s@.subrange(0, i as int + 1));
        }
        i += 1;
    }
    proof {
        assert(r@ =~= s@);
    }
    r
}

/// Character-for-character equality of two string slices.
fn str_eq(a: &str, b: &str) -> (r: bool)
    ensures
        r == (a@ == b@),
{
    let na = a.unicode_len();
    let nb = b.unicode_len();
    if na != nb {
        proof {
            assert(a@ != b@);
        }
        return false;
    }
    let mut i: usize = 0;
    while i < na
        invariant
            i <= na,
            na == a@.len(),
            na == b@.len(),
            forall|j: int| 0 <= j < i ==> a@[j] == b@[j],
        decreases na - i,
    {
        if a.get_char(i) != b.get_char(i) {
            proof {
                assert(a@ != b@);
            }
            return false;
        }
        i += 1;
    }
    proof {
        assert(a@ =~= b@);
    }
    true
}

/// The index of the first occurrence of `c` at or after `from`.
fn find_char_from(chars: &Vec<char>, from: usize, c: char) -> (r: usize)
    requires
        from <= chars@.len(),
    ensures
        r as int == find_char(chars@, from as int, c),
{
    let mut k = from;
    while k < chars.len()
        invariant
            from <= k <= chars@.len(),
            find_char(chars@, from as int, c) == find_char(chars@, k as int, c),
        decreases chars@.len() - k,
    {
        if chars[k] == c {
            return k;
        }
        k += 1;
    }
    k
}

/// The index of the first character at or after `from` that is neither a
/// digit nor a decimal point.
fn number_end_from(chars: &Vec<char>, from: usize) -> (r: usize)
    requires
        from <= chars@.len(),
    ensures
        r as int == number_end(chars@, from as int),
{
    let mut k = from;
    while k < chars.len()
        invariant
            from <= k <= chars@.len(),
            number_end(chars@, from as int) == number_end(chars@, k as int),
        decreases chars@.len() - k,
    {
        let u = chars[k] as u32;
        if !((48 <= u && u <= 57) || chars[k] == '.') {
            return k;
        }
        k += 1;
    }
    k
}

/// The index of the first non-alphanumeric character at or after `from`.
fn word_end_from(chars: &Vec<char>, from: usize) -> (r: usize)
    requires
        from <= chars@.len(),
    ensures
        r as int == word_end(chars@, from as int),
{
    let mut k = from;
    while k < chars.len()
        invariant
            from <= k <= chars@.len(),
            word_end(chars@, from as int) == word_end(chars@, k as int),
        decreases chars@.len() - k,
    {
        if !is_alphanumeric_char(chars[k]) {
            return k;
        }
        k += 1;
    }
    k
}

/// Counts the newlines in `chars[a .. b]`.
fn count_newlines(chars: &Vec<char>, a: usize, b: usize) -> (r: usize)
    requires
        a <= b <= chars@.len(),
    ensures
        r as int == count_char(chars@.subrange(a as int, b as int), '\n'),
        r <= b - a,
{
    let mut k = a;
    let mut r: usize = 0;
    while k < b
        invariant
            a <= k <= b <= chars@.len(),
            r <= k - a,
            r as int == count_char(chars@.subrange(a as int, k as int), '\n'),
        decreases b - k,
    {
        proof {
            let pre = chars@.subrange(a as int, k as int);
            let post = chars@.subrange(a as int, k as int + 1);
            assert(post.drop_last() =~= pre);
        }
        if chars[k] == '\n' {
            r += 1;
        }
        k += 1;
    }
    r
}

/// Parses a run of decimal digits as a whole number, refusing values beyond
/// `i64::MAX`.
fn parse_digits(chars: &Vec<char>, a: usize, b: usize) -> (r: Option<i64>)
    requires
        a <= b <= chars@.len(),
        all_digits(chars@.subrange(a as int, b as int)),
    ensures
        ({
            let w = chars@.subrange(a as int, b as int);
            match r {
                Some(v) => v as int == dec_value(w),
                None => dec_value(w) > i64::MAX,
            }
        }),
{
    let ghost w = chars@.subrange(a as int, b as int);
    let mut k = a;
    let mut acc: u64 = 0;
    while k < b
        invariant
            a <= k <= b <= chars@.len(),
            all_digits(w),
            w == chars@.subrange(a as int, b as int),
            acc as int == dec_value(chars@.subrange(a as int, k as int)),
        decreases b - k,
    {
        proof {
            let pre = chars@.subrange(a as int, k as int);
            let post = chars@.subrange(a as int, k as int + 1);
            assert(post.drop_last() =~= pre);
            assert(w[k - a] == chars@[k as int]);
            assert(is_digit_char(chars@[k as int]));
        }
        let u = chars[k] as u32;
        let d: u64 = (u - 48) as u64;
        let shifted = match acc.checked_mul(10) {
            Some(s) => s,
            None => {
                proof {
                    let post = chars@.subrange(a as int, k as int + 1);
                    assert(dec_value(post) > i64::MAX);
                    assert(w.subrange(0, k as int + 1 - a) =~= post);
                    lemma_prefix_exceeds(w, k as int + 1 - a);
                }
                return None;
            },
        };
        let total = match shifted.checked_add(d) {
            Some(t) => t,
            None => {
                proof {
                    let post = chars@.subrange(a as int, k as int + 1);
                    assert(dec_value(post) > i64::MAX);
                    assert(w.subrange(0, k as int + 1 - a) =~= post);
                    lemma_prefix_exceeds(w, k as int + 1 - a);
                }
                return None;
            },
        };
        acc = total;
        k += 1;
    }
    if acc > 9223372036854775807u64 {
        proof {
            assert(chars@.subrange(a as int, b as int) =~= w);
        }
        None
    } else {
        Some(acc as i64)
    }
}

/// If a prefix of a digit run already exceeds `i64::MAX`, so does the run.
proof fn lemma_prefix_exceeds(w: Seq<char>, j: int)
    requires
        all_digits(w),
        0 <= j <= w.len(),
        dec_value(w.subrange(0, j)) > i64::MAX,
    ensures
        dec_value(w) > i64::MAX,
{
    crate::numbers::lemma_dec_value_prefix_le(w, j);
}

} // verus!

verus! {

/// The abstract token sequence of a token vector.
pub open spec fn tokens_view(v: Seq<Token>) -> Seq<TokenView> {
    v.map_values(|t: Token| t@)
}

/// The abstract diagnostics of a diagnostics vector.
pub open spec fn errors_view(v: Seq<String>) -> Seq<Seq<char>> {
    v.map_values(|e: String| e@)
}

/// Converts raw source text into tokens, collecting diagnostics for
/// malformed input in `errors` and scanning on past them.
pub struct Scanner {
    source: String,
    tokens: Vec<Token>,
    line: usize,
    pub errors: Vec<String>,
}

/// The abstract state of a scanner: the source characters, the views of the
/// tokens scanned so far, the line counter, and the diagnostics.
pub struct ScannerView {
    pub source: Seq<char>,
    pub tokens: Seq<TokenView>,
    pub line: int,
    pub errors: Seq<Seq<char>>,
}

impl View for Scanner {
    type V = ScannerView;

    closed spec fn view(&self) -> ScannerView {
        ScannerView {
            source: self.source@,
            tokens: tokens_view(self.tokens@),
            line: self.line as int,
            errors: errors_view(self.errors@),
        }
    }
}

impl Scanner {
    /// A fresh scanner over `source`: no tokens scanned yet, line counter at
    /// zero, no diagnostics.
    pub fn new(source: String) -> (r: Scanner)
        ensures
            r@.source == source@,
            r@.tokens.len() == 0,
            r@.line == 0,
            r@.errors.len() == 0,
    {
        Scanner { source, tokens: Vec::new(), line: 0, errors: Vec::new() }
    }

    /// A token whose kind is `token_type` and whose lexeme is the source
    /// substring `[i, j)`, on the current line.
    fn make_token(&self, token_type: TokenType, i: usize, j: usize) -> (t: Token)
        requires
            i <= j <= self.source@.len(),
        ensures
            t@ == (TokenView {
                kind: token_type@,
                lexeme: self.source@.subrange(i as int, j as int),
                line: self.line as int,
            }),
    {
        let lexeme = String::from_str(self.source.as_str().substring_char(i, j));
        Token { token_type, lexeme, line: self.line }
    }

    /// A one-or-two-character operator token: a following `=` merges into
    /// kind `k2`, otherwise the single character is kind `k1`.
    fn two_char(&self, chars: &Vec<char>, i: usize, k1: TokenType, k2: TokenType) -> (r: (usize, Option<Token>))
        requires
            i < chars@.len(),
            chars@ == self.source@,
        ensures
            ({
                let st = two_char_step(chars@, i as int, self.line as int, k1@, k2@);
                &&& r.0 as int == st.next
                &&& match r.1 {
                    Some(t) => st.token == Some(t@),
                    None => false,
                }
            }),
    {
        let n = chars.len();
        if i + 1 < n && chars[i + 1] == '=' {
            (i + 2, Some(self.make_token(k2, i, i + 2)))
        } else {
            (i + 1, Some(self.make_token(k1, i, i + 1)))
        }
    }

    /// Scans a string literal delimited by `"`, consuming up to the closing
    /// quote and counting the newlines inside; with no closing quote the
    /// rest of the source is consumed and a diagnostic recorded.
    fn scan_string(&mut self, chars: &Vec<char>, i: usize) -> (r: (usize, Option<Token>))
        requires
            i < chars@.len(),
            chars@ == old(self).source@,
            old(self).line <= i,
        ensures
            ({
                let st = string_step(chars@, i as int, old(self).line as int);
                &&& r.0 as int == st.next
                &&& final(self).line as int == st.line
                &&& final(self).line <= r.0
                &&& final(self).source == old(self).source
                &&& final(self).tokens == old(self).tokens
                &&& match r.1 {
                    Some(t) => st.token == Some(t@),
                    None => st.token is None,
                }
                &&& errors_view(final(self).errors@) == errors_view(old(self).errors@)
                    + (match st.error {
                    Some(e) => seq![e],
                    None => Seq::<Seq<char>>::empty(),
                })
            }),
    {
        let n = chars.len();
        proof {
            lemma_find_char_props(chars@, i as int + 1, '"');
        }
        let close = find_char_from(chars, i + 1, '"');
        if close >= n {
            let mut m = String::from_str("Unterminated string starting on line ");
            let d = usize_to_dec_string(self.line);
            m.append(d.as_str());
            self.errors.push(m);
            proof {
                assert(errors_view(self.errors@) =~= errors_view(old(self).errors@)
                    + seq![unterminated_string_msg(old(self).line as int)]);
            }
            (n, None)
        } else {
            proof {
                lemma_count_char_bounds(chars@.subrange(i as int + 1, close as int), '\n');
            }
            let cnt = count_newlines(chars, i + 1, close);
            let new_line = self.line + cnt;
            self.line = new_line;
            let content = String::from_str(self.source.as_str().substring_char(i + 1, close));
            let lexeme = String::from_str(self.source.as_str().substring_char(i, close + 1));
            let t = Token {
                token_type: TokenType::Literal(Literal::STRING(content)),
                lexeme,
                line: new_line,
            };
            (close + 1, Some(t))
        }
    }

    /// Scans a number literal: the maximal run of digits and decimal
    /// points. A trailing point, an inner point or a value beyond
    /// `i64::MAX` is recorded as a diagnostic instead of a token.
    fn scan_number(&mut self, chars: &Vec<char>, i: usize) -> (r: (usize, Option<Token>))
        requires
            i < chars@.len(),
            is_digit_char(chars@[i as int]),
            chars@ == old(self).source@,
            old(self).line <= i,
        ensures
            ({
                let st = number_step(chars@, i as int, old(self).line as int);
                &&& r.0 as int == st.next
                &&& final(self).line == old(self).line
                &&& final(self).source == old(self).source
                &&& final(self).tokens == old(self).tokens
                &&& match r.1 {
                    Some(t) => st.token == Some(t@),
                    None => st.token is None,
                }
                &&& errors_view(final(self).errors@) == errors_view(old(self).errors@)
                    + (match st.error {
                    Some(e) => seq![e],
                    None => Seq::<Seq<char>>::empty(),
                })
            }),
    {
        proof {
            lemma_number_end_props(chars@, i as int);
            assert(number_end(chars@, i as int) == number_end(chars@, i as int + 1));
            lemma_number_end_props(chars@, i as int + 1);
        }
        let j = number_end_from(chars, i);
        let ghost w = chars@.subrange(i as int, j as int);
        if chars[j - 1] == '.' {
            proof {
                assert(w.last() == chars@[j - 1]);
            }
            let mut m = String::from_str("Number not permitted to end with '.' on line ");
            let d = usize_to_dec_string(self.line);
            m.append(d.as_str());
            self.errors.push(m);
            proof {
                assert(errors_view(self.errors@) =~= errors_view(old(self).errors@)
                    + seq![number_trailing_dot_msg(old(self).line as int)]);
            }
            (j, None)
        } else {
            proof {
                assert(w.last() == chars@[j - 1]);
                lemma_find_char_props(chars@, i as int, '.');
            }
            let dot = find_char_from(chars, i, '.');
            if dot < j {
                proof {
                    assert(w[dot - i] == chars@[dot as int]);
                    assert(!is_digit_char(w[dot - i]));
                }
                let mut m = String::from_str("Unable to parse number on line ");
                let d = usize_to_dec_string(self.line);
                m.append(d.as_str());
                self.errors.push(m);
                proof {
                    assert(errors_view(self.errors@) =~= errors_view(old(self).errors@)
                        + seq![number_parse_msg(old(self).line as int)]);
                }
                (j, None)
            } else {
                proof {
                    assert forall|m: int| 0 <= m < w.len() implies is_digit_char(w[m]) by {
                        assert(w[m] == chars@[i + m]);
                        assert(is_digit_char(chars@[i + m]) || chars@[i + m] == '.');
                        assert(chars@[i + m] != '.');
                    };
                }
                match parse_digits(chars, i, j) {
                    Some(v) => {
                        let t = self.make_token(
                            TokenType::Literal(Literal::NUMBER(v)),
                            i,
                            j,
                        );
                        (j, Some(t))
                    },
                    None => {
                        let mut m = String::from_str("Unable to parse number on line ");
                        let d = usize_to_dec_string(self.line);
                        m.append(d.as_str());
                        self.errors.push(m);
                        proof {
                            assert(errors_view(self.errors@) =~= errors_view(old(self).errors@)
                                + seq![number_parse_msg(old(self).line as int)]);
                        }
                        (j, None)
                    },
                }
            }
        }
    }

    /// Scans a keyword or identifier: the maximal alphanumeric run, looked
    /// up in the fixed keyword table; unreserved words become identifiers.
    fn scan_keyword_or_identifier(&mut self, chars: &Vec<char>, i: usize) -> (r: (usize, Option<Token>))
        requires
            i < chars@.len(),
            unicode_alphanumeric(chars@[i as int]),
            chars@ == old(self).source@,
            old(self).line <= i,
        ensures
            ({
                let st = word_step(chars@, i as int, old(self).line as int);
                &&& r.0 as int == st.next
                &&& final(self).line == old(self).line
                &&& final(self).source == old(self).source
                &&& final(self).tokens == old(self).tokens
                &&& final(self).errors == old(self).errors
                &&& match r.1 {
                    Some(t) => st.token == Some(t@),
                    None => st.token is None,
                }
            }),
    {
        proof {
            lemma_word_end_props(chars@, i as int);
            assert(word_end(chars@, i as int) == word_end(chars@, i as int + 1));
            lemma_word_end_props(chars@, i as int + 1);
        }
        let j = word_end_from(chars, i);
        let word = self.source.as_str().substring_char(i, j);
        let kind = if str_eq(word, "and") {
            TokenType::AND
        } else if str_eq(word, "class") {
            TokenType::CLASS
        } else if str_eq(word, "else") {
            TokenType::ELSE
        } else if str_eq(word, "false") {
            TokenType::FALSE
        } else if str_eq(word, "for") {
            TokenType::FOR
        } else if str_eq(word, "fun") {
            TokenType::FUN
        } else if str_eq(word, "if") {
            TokenType::IF
        } else if str_eq(word, "nil") {
            TokenType::NIL
        } else if str_eq(word, "or") {
            TokenType::OR
        } else if str_eq(word, "print") {
            TokenType::PRINT
        } else if str_eq(word, "return") {
            TokenType::RETURN
        } else if str_eq(word, "super") {
            TokenType::SUPER
        } else if str_eq(word, "this") {
            TokenType::THIS
        } else if str_eq(word, "true") {
            TokenType::TRUE
        } else if str_eq(word, "var") {
            TokenType::VAR
        } else if str_eq(word, "while") {
            TokenType::WHILE
        } else {
            TokenType::Literal(Literal::IDENTIFIER(String::from_str(word)))
        };
        let t = self.make_token(kind, i, j);
        (j, Some(t))
    }

    /// One scanning step at position `i`, proved to match `scan_step`.
    fn scan_token(&mut self, chars: &Vec<char>, i: usize) -> (r: (usize, Option<Token>))
        requires
            i < chars@.len(),
            chars@ == old(self).source@,
            old(self).line <= i,
        ensures
            ({
                let st = scan_step(chars@, i as int, old(self).line as int);
                &&& r.0 as int == st.next
                &&& final(self).line as int == st.line
                &&& final(self).line <= r.0
                &&& final(self).source == old(self).source
                &&& final(self).tokens == old(self).tokens
                &&& match r.1 {
                    Some(t) => st.token == Some(t@),
                    None => st.token is None,
                }
                &&& errors_view(final(self).errors@) == errors_view(old(self).errors@)
                    + (match st.error {
                    Some(e) => seq![e],
                    None => Seq::<Seq<char>>::empty(),
                })
            }),
    {
        let n = chars.len();
        proof {
            assert(i < n);
            lemma_scan_step_bounds(chars@, i as int, old(self).line as int);
        }
        let c = chars[i];
        if c == '(' {
            (i + 1, Some(self.make_token(TokenType::LeftParen, i, i + 1)))
        } else if c == ')' {
            (i + 1, Some(self.make_token(TokenType::RightParen, i, i + 1)))
        } else if c == '{' {
            (i + 1, Some(self.make_token(TokenType::LeftBrace, i, i + 1)))
        } else if c == '}' {
            (i + 1, Some(self.make_token(TokenType::RightBrace, i, i + 1)))
        } else if c == ',' {
            (i + 1, Some(self.make_token(TokenType::COMMA, i, i + 1)))
        } else if c == '.' {
            (i + 1, Some(self.make_token(TokenType::DOT, i, i + 1)))
        } else if c == '-' {
            (i + 1, Some(self.make_token(TokenType::MINUS, i, i + 1)))
        } else if c == '+' {
            (i + 1, Some(self.make_token(TokenType::PLUS, i, i + 1)))
        } else if c == ';' {
            (i + 1, Some(self.make_token(TokenType::SEMICOLON, i, i + 1)))
        } else if c == '*' {
            (i + 1, Some(self.make_token(TokenType::STAR, i, i + 1)))
        } else if c == '!' {
            self.two_char(chars, i, TokenType::BANG, TokenType::BangEqual)
        } else if c == '=' {
            self.two_char(chars, i, TokenType::EQUAL, TokenType::EqualEqual)
        } else if c == '<' {
            self.two_char(chars, i, TokenType::LESS, TokenType::LessEqual)
        } else if c == '>' {
            self.two_char(chars, i, TokenType::GREATER, TokenType::GreaterEqual)
        } else if c == '/' {
            if i + 1 < n && chars[i + 1] == '/' {
                let j = find_char_from(chars, i + 2, '\n');
                (j, None)
            } else {
                (i + 1, Some(self.make_token(TokenType::SLASH, i, i + 1)))
            }
        } else if c == ' ' || c == '\r' || c == '\t' {
            (i + 1, None)
        } else if c == '\n' {
            self.line = self.line + 1;
            (i + 1, None)
        } else if c == '"' {
            self.scan_string(chars, i)
        } else if 48 <= (c as u32) && (c as u32) <= 57 {
            self.scan_number(chars, i)
        } else if is_alphanumeric_char(c) {
            self.scan_keyword_or_identifier(chars, i)
        } else {
            let mut m = String::from_str("Unrecognized character '");
            m.append(self.source.as_str().substring_char(i, i + 1));
            m.append("' on line ");
            let d = usize_to_dec_string(self.line);
            m.append(d.as_str());
            self.errors.push(m);
            proof {
                assert(chars@.subrange(i as int, i as int + 1) =~= seq![chars@[i as int]]);
                assert(m@ == unrecognized_char_msg(chars@[i as int], old(self).line as int));
                assert(errors_view(self.errors@) =~= errors_view(old(self).errors@) + seq![m@]);
            }
            (i + 1, None)
        }
    }

    /// Scans the whole source into tokens, ending with the end-of-input
    /// token. The tokens and the appended diagnostics are exactly those of
    /// `scan_spec`. Re-invoking with already-populated token storage is a
    /// no-op that returns the existing sequence.
    pub fn scan_tokens(&mut self) -> (r: &Vec<Token>)
        ensures
            final(self)@.source == old(self)@.source,
            old(self)@.tokens.len() != 0 ==> final(self)@ == old(self)@,
            old(self)@.tokens.len() == 0 ==> ({
                let out = scan_spec(old(self)@.source, 0, 0);
                &&& final(self)@.tokens == out.tokens
                &&& final(self)@.errors == old(self)@.errors + out.errors
            }),
            tokens_view(r@) == final(self)@.tokens,
    {
        if self.tokens.len() > 0 {
            return &self.tokens;
        }
        self.line = 0;
        let chars = to_char_vec(self.source.as_str());
        let ghost s = chars@;
        let n = chars.len();
        let mut i: usize = 0;
        while i < n
            invariant
                i <= n,
                n == s.len(),
                chars@ == s,
                s == self.source@,
                self.source == old(self).source,
                self.line <= i,
                self.tokens@.len() == 0 ==> old(self).tokens@.len() == 0,
                scan_spec(s, 0, 0).tokens =~= tokens_view(self.tokens@)
                    + scan_spec(s, i as int, self.line as int).tokens,
                errors_view(old(self).errors@) + scan_spec(s, 0, 0).errors =~= errors_view(
                    self.errors@,
                ) + scan_spec(s, i as int, self.line as int).errors,
            decreases n - i,
        {
            let ghost pre_line = self.line;
            let ghost pre_tokens = self.tokens@;
            let ghost pre_errors = self.errors@;
            let (next, tok) = self.scan_token(&chars, i);
            proof {
                lemma_scan_step_bounds(s, i as int, pre_line as int);
            }
            let ghost st = scan_step(s, i as int, pre_line as int);
            match tok {
                Some(t) => {
                    self.tokens.push(t);
                    proof {
                        assert(tokens_view(self.tokens@) =~= tokens_view(pre_tokens)
                            + seq![st.token->Some_0]);
                    }
                },
                None => {},
            }
            proof {
                assert(scan_spec(s, i as int, pre_line as int).tokens =~= (match st.token {
                    Some(t) => seq![t],
                    None => Seq::<TokenView>::empty(),
                }) + scan_spec(s, st.next, st.line).tokens);
                assert(scan_spec(s, i as int, pre_line as int).errors =~= (match st.error {
                    Some(e) => seq![e],
                    None => Seq::<Seq<char>>::empty(),
                }) + scan_spec(s, st.next, st.line).errors);
                assert(scan_spec(s, 0, 0).tokens =~= tokens_view(self.tokens@)
                    + scan_spec(s, st.next, st.line).tokens);
                assert(errors_view(old(self).errors@) + scan_spec(s, 0, 0).errors =~=
                    errors_view(self.errors@) + scan_spec(s, st.next, st.line).errors);
            }
            i = next;
        }
        let eof = Token { token_type: TokenType::EOF, lexeme: String::new(), line: self.line };
        proof {
            assert(eof@ == eof_token(self.line as int));
        }
        let ghost pre_tokens = self.tokens@;
        self.tokens.push(eof);
        proof {
            assert(tokens_view(self.tokens@) =~= tokens_view(pre_tokens)
                + seq![eof_token(self.line as int)]);
            assert(scan_spec(s, i as int, self.line as int).tokens =~= seq![
                eof_token(self.line as int),
            ]);
            assert(tokens_view(self.tokens@) =~= scan_spec(s, 0, 0).tokens);
            assert(errors_view(self.errors@) =~= errors_view(old(self).errors@) + scan_spec(
                s,
                0,
                0,
            ).errors);
        }
        &self.tokens
    }
}

} // verus!

verus! {

/// The operator-punctuation characters: single-character tokens and the
/// first characters of the one-or-two-character operators.
pub open spec fn op_char(c: char) -> bool {
    c == '(' || c == ')' || c == '{' || c == '}' || c == ',' || c == '.' || c == '-' || c == '+'
        || c == ';' || c == '*' || c == '!' || c == '=' || c == '<' || c == '>' || c == '/'
}

/// The concatenation of the lexemes of a token sequence.
pub open spec fn lexemes_concat(ts: Seq<TokenView>) -> Seq<char>
    decreases ts.len(),
{
    if ts.len() == 0 {
        Seq::empty()
    } else {
        ts[0].lexeme + lexemes_concat(ts.skip(1))
    }
}

proof fn lemma_scan_operators_from(s: Seq<char>, i: int)
    requires
        forall|k: int| 0 <= k < s.len() ==> op_char(s[k]),
        forall|k: int| 0 <= k && k + 1 < s.len() ==> !(#[trigger] s[k] == '/' && s[k + 1] == '/'),
        0 <= i <= s.len(),
    ensures
        ({
            let out = scan_spec(s, i, 0);
            &&& out.errors.len() == 0
            &&& out.tokens.len() >= 1
            &&& out.tokens.last() == eof_token(0)
            &&& (forall|k: int| 0 <= k < out.tokens.len() ==> out.tokens[k].line == 0)
            &&& lexemes_concat(out.tokens) == s.skip(i)
        }),
    decreases s.len() - i,
{
    let out = scan_spec(s, i, 0);
    if i >= s.len() {
        assert(out.tokens.skip(1) =~= Seq::<TokenView>::empty());
        assert(lexemes_concat(out.tokens.skip(1)) == Seq::<char>::empty());
        assert(lexemes_concat(out.tokens) =~= s.skip(i));
    } else {
        let st = scan_step(s, i, 0);
        lemma_scan_step_bounds(s, i, 0);
        lemma_scan_operators_from(s, st.next);
        let rest = scan_spec(s, st.next, 0);
        let c = s[i];
        assert(op_char(c));
        assert(st.line == 0);
        let tok = st.token->Some_0;
        assert(st.token == Some(tok) && st.error is None && tok.line == 0 && tok.lexeme
            =~= s.subrange(i, st.next));
        assert(out.tokens =~= seq![tok] + rest.tokens);
        assert(out.tokens.skip(1) =~= rest.tokens);
        assert(lexemes_concat(out.tokens) == tok.lexeme + lexemes_concat(rest.tokens));
        assert(s.subrange(i, st.next) + s.skip(st.next) =~= s.skip(i));
    }
}

/// For source text of operator punctuation alone, with no comment opener,
/// scanning yields exactly one token per lexeme plus the trailing
/// end-of-input marker: no diagnostics, every token on line 0, and the
/// lexemes partitioning the source text.
pub proof fn lemma_scan_operators(s: Seq<char>)
    requires
        forall|k: int| 0 <= k < s.len() ==> op_char(s[k]),
        forall|k: int| 0 <= k && k + 1 < s.len() ==> !(#[trigger] s[k] == '/' && s[k + 1] == '/'),
    ensures
        ({
            let out = scan_spec(s, 0, 0);
            &&& out.errors.len() == 0
            &&& out.tokens.len() >= 1
            &&& out.tokens.last() == eof_token(0)
            &&& (forall|k: int| 0 <= k < out.tokens.len() ==> out.tokens[k].line == 0)
            &&& lexemes_concat(out.tokens) == s
        }),
{
    lemma_scan_operators_from(s, 0);
    assert(s.skip(0) =~= s);
}

} // verus!
