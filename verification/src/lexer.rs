use vstd::prelude::*;
use vstd::string::StrSliceExecFns;
use vstd::string::StringExecFns;

use crate::error::{EasyDbError, EasyDbResult, ErrorView};

verus! {

// ---------------------------------------------------------------------------
// Keywords
// ---------------------------------------------------------------------------

/// The closed, case-insensitive vocabulary of reserved words.
#[derive(Clone, Copy, Debug, PartialEq, Eq, Structural)]
pub enum Keyword {
    And,
    Create,
    Drop,
    Table,
    Bool,
    Boolean,
    Char,
    Double,
    Float,
    Int,
    Integer,
    String,
    Text,
    Varchar,
    Primary,
    Key,
    Null,
    Not,
    Default,
    Unique,
    Index,
    References,
}

/// The canonical (uppercase) spelling of a keyword.
pub open spec fn keyword_text(k: Keyword) -> Seq<char> {
    match k {
        Keyword::And => "AND"@,
        Keyword::Create => "CREATE"@,
        Keyword::Drop => "DROP"@,
        Keyword::Table => "TABLE"@,
        Keyword::Bool => "BOOL"@,
        Keyword::Boolean => "BOOLEAN"@,
        Keyword::Char => "CHAR"@,
        Keyword::Double => "DOUBLE"@,
        Keyword::Float => "FLOAT"@,
        Keyword::Int => "INT"@,
        Keyword::Integer => "INTEGER"@,
        Keyword::String => "STRING"@,
        Keyword::Text => "TEXT"@,
        Keyword::Varchar => "VARCHAR"@,
        Keyword::Primary => "PRIMARY"@,
        Keyword::Key => "KEY"@,
        Keyword::Null => "NULL"@,
        Keyword::Not => "NOT"@,
        Keyword::Default => "DEFAULT"@,
        Keyword::Unique => "UNIQUE"@,
        Keyword::Index => "INDEX"@,
        Keyword::References => "REFERENCES"@,
    }
}

/// The code point of `c` with an ASCII lowercase letter folded to uppercase.
pub open spec fn upper_char(c: char) -> int {
    if 97 <= c as u32 && c as u32 <= 122 {
        c as u32 - 32
    } else {
        c as u32 as int
    }
}

/// Case-insensitive (ASCII folding) equality of two character sequences.
pub open spec fn eq_ignore_case(a: Seq<char>, b: Seq<char>) -> bool {
    a.len() == b.len() && (forall|i: int|
        0 <= i < a.len() ==> #[trigger] upper_char(a[i]) == upper_char(b[i]))
}

/// The keyword whose spelling matches `s` case-insensitively, if any.
pub open spec fn keyword_of(s: Seq<char>) -> Option<Keyword> {
    if eq_ignore_case(s, "AND"@) {
        Some(Keyword::And)
    } else if eq_ignore_case(s, "CREATE"@) {
        Some(Keyword::Create)
    } else if eq_ignore_case(s, "DROP"@) {
        Some(Keyword::Drop)
    } else if eq_ignore_case(s, "TABLE"@) {
        Some(Keyword::Table)
    } else if eq_ignore_case(s, "BOOL"@) {
        Some(Keyword::Bool)
    } else if eq_ignore_case(s, "BOOLEAN"@) {
        Some(Keyword::Boolean)
    } else if eq_ignore_case(s, "CHAR"@) {
        Some(Keyword::Char)
    } else if eq_ignore_case(s, "DOUBLE"@) {
        Some(Keyword::Double)
    } else if eq_ignore_case(s, "FLOAT"@) {
        Some(Keyword::Float)
    } else if eq_ignore_case(s, "INT"@) {
        Some(Keyword::Int)
    } else if eq_ignore_case(s, "INTEGER"@) {
        Some(Keyword::Integer)
    } else if eq_ignore_case(s, "STRING"@) {
        Some(Keyword::String)
    } else if eq_ignore_case(s, "TEXT"@) {
        Some(Keyword::Text)
    } else if eq_ignore_case(s, "VARCHAR"@) {
        Some(Keyword::Varchar)
    } else if eq_ignore_case(s, "PRIMARY"@) {
        Some(Keyword::Primary)
    } else if eq_ignore_case(s, "KEY"@) {
        Some(Keyword::Key)
    } else if eq_ignore_case(s, "NULL"@) {
        Some(Keyword::Null)
    } else if eq_ignore_case(s, "NOT"@) {
        Some(Keyword::Not)
    } else if eq_ignore_case(s, "DEFAULT"@) {
        Some(Keyword::Default)
    } else if eq_ignore_case(s, "UNIQUE"@) {
        Some(Keyword::Unique)
    } else if eq_ignore_case(s, "INDEX"@) {
        Some(Keyword::Index)
    } else if eq_ignore_case(s, "REFERENCES"@) {
        Some(Keyword::References)
    } else {
        None
    }
}

/// Folds an ASCII lowercase letter to its uppercase code point.
fn char_upper(c: char) -> (u: u32)
    ensures
        u == upper_char(c),
{
    let v = c as u32;
    if 97 <= v && v <= 122 {
        v - 32
    } else {
        v
    }
}

/// Compares two strings case-insensitively under ASCII folding.
fn str_eq_ignore_case(s: &str, t: &str) -> (r: bool)
    ensures
        r == eq_ignore_case(s@, t@),
{
    let n = s.unicode_len();
    let m = t.unicode_len();
    if n != m {
        return false;
    }
    let mut i: usize = 0;
    while i < n
        invariant
            n == s@.len(),
            n == t@.len(),
            i <= n,
            forall|j: int| 0 <= j < i ==> #[trigger] upper_char(s@[j]) == upper_char(t@[j]),
        decreases n - i,
    {
        let a = char_upper(s.get_char(i));
        let b = char_upper(t.get_char(i));
        if a != b {
            assert(upper_char(s@[i as int]) != upper_char(t@[i as int]));
            return false;
        }
        i += 1;
    }
    true
}

impl Keyword {
    /// The keyword spelled `ident`, matched case-insensitively, if any.
    pub fn from_str(ident: &str) -> (r: Option<Keyword>)
        ensures
            r == keyword_of(ident@),
    {
        if str_eq_ignore_case(ident, "AND") {
            Some(Keyword::And)
        } else if str_eq_ignore_case(ident, "CREATE") {
            Some(Keyword::Create)
        } else if str_eq_ignore_case(ident, "DROP") {
            Some(Keyword::Drop)
        } else if str_eq_ignore_case(ident, "TABLE") {
            Some(Keyword::Table)
        } else if str_eq_ignore_case(ident, "BOOL") {
            Some(Keyword::Bool)
        } else if str_eq_ignore_case(ident, "BOOLEAN") {
            Some(Keyword::Boolean)
        } else if str_eq_ignore_case(ident, "CHAR") {
            Some(Keyword::Char)
        } else if str_eq_ignore_case(ident, "DOUBLE") {
            Some(Keyword::Double)
        } else if str_eq_ignore_case(ident, "FLOAT") {
            Some(Keyword::Float)
        } else if str_eq_ignore_case(ident, "INT") {
            Some(Keyword::Int)
        } else if str_eq_ignore_case(ident, "INTEGER") {
            Some(Keyword::Integer)
        } else if str_eq_ignore_case(ident, "STRING") {
            Some(Keyword::String)
        } else if str_eq_ignore_case(ident, "TEXT") {
            Some(Keyword::Text)
        } else if str_eq_ignore_case(ident, "VARCHAR") {
            Some(Keyword::Varchar)
        } else if str_eq_ignore_case(ident, "PRIMARY") {
            Some(Keyword::Primary)
        } else if str_eq_ignore_case(ident, "KEY") {
            Some(Keyword::Key)
        } else if str_eq_ignore_case(ident, "NULL") {
            Some(Keyword::Null)
        } else if str_eq_ignore_case(ident, "NOT") {
            Some(Keyword::Not)
        } else if str_eq_ignore_case(ident, "DEFAULT") {
            Some(Keyword::Default)
        } else if str_eq_ignore_case(ident, "UNIQUE") {
            Some(Keyword::Unique)
        } else if str_eq_ignore_case(ident, "INDEX") {
            Some(Keyword::Index)
        } else if str_eq_ignore_case(ident, "REFERENCES") {
            Some(Keyword::References)
        } else {
            None
        }
    }

    /// The canonical uppercase spelling of the keyword.
    pub fn to_str(&self) -> (s: &'static str)
        ensures
            s@ == keyword_text(*self),
    {
        match self {
            Keyword::And => "AND",
            Keyword::Create => "CREATE",
            Keyword::Drop => "DROP",
            Keyword::Table => "TABLE",
            Keyword::Bool => "BOOL",
            Keyword::Boolean => "BOOLEAN",
            Keyword::Char => "CHAR",
            Keyword::Double => "DOUBLE",
            Keyword::Float => "FLOAT",
            Keyword::Int => "INT",
            Keyword::Integer => "INTEGER",
            Keyword::String => "STRING",
            Keyword::Text => "TEXT",
            Keyword::Varchar => "VARCHAR",
            Keyword::Primary => "PRIMARY",
            Keyword::Key => "KEY",
            Keyword::Null => "NULL",
            Keyword::Not => "NOT",
            Keyword::Default => "DEFAULT",
            Keyword::Unique => "UNIQUE",
            Keyword::Index => "INDEX",
            Keyword::References => "REFERENCES",
        }
    }
}

// ---------------------------------------------------------------------------
// Tokens
// ---------------------------------------------------------------------------

/// The mathematical value of a [`Token`]: the same variants, with text as a
/// sequence of characters.
pub enum TokenView {
    Number(Seq<char>),
    String(Seq<char>),
    Ident(Seq<char>),
    Keyword(Keyword),
    Period,
    Equal,
    GreaterThan,
    LessThan,
    Plus,
    Minus,
    Asterisk,
    Slash,
    Caret,
    Percent,
    Exclamation,
    Question,
    OpenParen,
    CloseParen,
    Comma,
    Semicolon,
    GreaterThanOrEqual,
    LessThanOrEqual,
    LessOrGreaterThan,
    NotEqual,
}

/// One lexical unit: a literal, an identifier, a keyword, or a symbol.
#[derive(Clone, Debug)]
pub enum Token {
    Number(String),
    String(String),
    Ident(String),
    Keyword(Keyword),
    Period,
    Equal,
    GreaterThan,
    LessThan,
    Plus,
    Minus,
    Asterisk,
    Slash,
    Caret,
    Percent,
    Exclamation,
    Question,
    OpenParen,
    CloseParen,
    Comma,
    Semicolon,
    GreaterThanOrEqual,
    LessThanOrEqual,
    LessOrGreaterThan,
    NotEqual,
}

impl View for Token {
    type V = TokenView;

    open spec fn view(&self) -> TokenView {
        match self {
            Token::Number(n) => TokenView::Number(n@),
            Token::String(s) => TokenView::String(s@),
            Token::Ident(s) => TokenView::Ident(s@),
            Token::Keyword(k) => TokenView::Keyword(*k),
            Token::Period => TokenView::Period,
            Token::Equal => TokenView::Equal,
            Token::GreaterThan => TokenView::GreaterThan,
            Token::LessThan => TokenView::LessThan,
            Token::Plus => TokenView::Plus,
            Token::Minus => TokenView::Minus,
            Token::Asterisk => TokenView::Asterisk,
            Token::Slash => TokenView::Slash,
            Token::Caret => TokenView::Caret,
            Token::Percent => TokenView::Percent,
            Token::Exclamation => TokenView::Exclamation,
            Token::Question => TokenView::Question,
            Token::OpenParen => TokenView::OpenParen,
            Token::CloseParen => TokenView::CloseParen,
            Token::Comma => TokenView::Comma,
            Token::Semicolon => TokenView::Semicolon,
            Token::GreaterThanOrEqual => TokenView::GreaterThanOrEqual,
            Token::LessThanOrEqual => TokenView::LessThanOrEqual,
            Token::LessOrGreaterThan => TokenView::LessOrGreaterThan,
            Token::NotEqual => TokenView::NotEqual,
        }
    }
}

impl PartialEq for Token {
    fn eq(&self, other: &Token) -> (r: bool) {
        match (self, other) {
            (Token::Number(a), Token::Number(b)) => *a == *b,
            (Token::String(a), Token::String(b)) => *a == *b,
            (Token::Ident(a), Token::Ident(b)) => *a == *b,
            (Token::Keyword(a), Token::Keyword(b)) => *a == *b,
            (Token::Period, Token::Period) => true,
            (Token::Equal, Token::Equal) => true,
            (Token::GreaterThan, Token::GreaterThan) => true,
            (Token::LessThan, Token::LessThan) => true,
            (Token::Plus, Token::Plus) => true,
            (Token::Minus, Token::Minus) => true,
            (Token::Asterisk, Token::Asterisk) => true,
            (Token::Slash, Token::Slash) => true,
            (Token::Caret, Token::Caret) => true,
            (Token::Percent, Token::Percent) => true,
            (Token::Exclamation, Token::Exclamation) => true,
            (Token::Question, Token::Question) => true,
            (Token::OpenParen, Token::OpenParen) => true,
            (Token::CloseParen, Token::CloseParen) => true,
            (Token::Comma, Token::Comma) => true,
            (Token::Semicolon, Token::Semicolon) => true,
            (Token::GreaterThanOrEqual, Token::GreaterThanOrEqual) => true,
            (Token::LessThanOrEqual, Token::LessThanOrEqual) => true,
            (Token::LessOrGreaterThan, Token::LessOrGreaterThan) => true,
            (Token::NotEqual, Token::NotEqual) => true,
            _ => false,
        }
    }
}

impl vstd::std_specs::cmp::PartialEqSpecImpl for Token {
    open spec fn obeys_eq_spec() -> bool {
        true
    }

    open spec fn eq_spec(&self, other: &Token) -> bool {
        self@ == other@
    }
}

impl From<Keyword> for Token {
    fn from(keyword: Keyword) -> (t: Token) {
        Token::Keyword(keyword)
    }
}

impl vstd::std_specs::convert::FromSpecImpl<Keyword> for Token {
    open spec fn obeys_from_spec() -> bool {
        true
    }

    open spec fn from_spec(keyword: Keyword) -> Token {
        Token::Keyword(keyword)
    }
}

/// The display form of a token: the literal text for numbers, strings and
/// identifiers, the canonical spelling for keywords and symbols.
pub open spec fn token_text(t: TokenView) -> Seq<char> {
    match t {
        TokenView::Number(n) => n,
        TokenView::String(s) => s,
        TokenView::Ident(s) => s,
        TokenView::Keyword(k) => keyword_text(k),
        TokenView::Period => "."@,
        TokenView::Equal => "="@,
        TokenView::GreaterThan => ">"@,
        TokenView::LessThan => "<"@,
        TokenView::Plus => "+"@,
        TokenView::Minus => "-"@,
        TokenView::Asterisk => "*"@,
        TokenView::Slash => "/"@,
        TokenView::Caret => "^"@,
        TokenView::Percent => "%"@,
        TokenView::Exclamation => "!"@,
        TokenView::Question => "?"@,
        TokenView::OpenParen => "("@,
        TokenView::CloseParen => ")"@,
        TokenView::Comma => ","@,
        TokenView::Semicolon => ";"@,
        TokenView::GreaterThanOrEqual => ">="@,
        TokenView::LessThanOrEqual => "<="@,
        TokenView::LessOrGreaterThan => "<>"@,
        TokenView::NotEqual => "!="@,
    }
}

impl Token {
    /// The display form of the token, used in error messages.
    pub fn display(&self) -> (s: String)
        ensures
            s@ == token_text(self@),
    {
        match self {
            Token::Number(n) => n.clone(),
            Token::String(s) => s.clone(),
            Token::Ident(s) => s.clone(),
            Token::Keyword(k) => k.to_str().to_owned(),
            Token::Period => ".".to_owned(),
            Token::Equal => "=".to_owned(),
            Token::GreaterThan => ">".to_owned(),
            Token::LessThan => "<".to_owned(),
            Token::Plus => "+".to_owned(),
            Token::Minus => "-".to_owned(),
            Token::Asterisk => "*".to_owned(),
            Token::Slash => "/".to_owned(),
            Token::Caret => "^".to_owned(),
            Token::Percent => "%".to_owned(),
            Token::Exclamation => "!".to_owned(),
            Token::Question => "?".to_owned(),
            Token::OpenParen => "(".to_owned(),
            Token::CloseParen => ")".to_owned(),
            Token::Comma => ",".to_owned(),
            Token::Semicolon => ";".to_owned(),
            Token::GreaterThanOrEqual => ">=".to_owned(),
            Token::LessThanOrEqual => "<=".to_owned(),
            Token::LessOrGreaterThan => "<>".to_owned(),
            Token::NotEqual => "!=".to_owned(),
        }
    }
}

// ---------------------------------------------------------------------------
// The lexical model: what token starts at a given position of the text
// ---------------------------------------------------------------------------

/// Whitespace skipped between tokens.
pub open spec fn is_ws_char(c: char) -> bool {
    c == ' ' || c == '\t' || c == '\n' || c == '\r'
}

/// A decimal digit.
pub open spec fn is_digit_char(c: char) -> bool {
    48 <= c as u32 && c as u32 <= 57
}

/// An ASCII letter, which opens an identifier or keyword.
pub open spec fn is_alpha_char(c: char) -> bool {
    (65 <= c as u32 && c as u32 <= 90) || (97 <= c as u32 && c as u32 <= 122)
}

/// A character that may continue an identifier.
pub open spec fn is_ident_char(c: char) -> bool {
    is_alpha_char(c) || is_digit_char(c) || c == '_'
}

/// The position after the whitespace run starting at `i`.
pub open spec fn ws_end(s: Seq<char>, i: int) -> int
    decreases s.len() - i,
{
    if 0 <= i < s.len() && is_ws_char(s[i]) {
        ws_end(s, i + 1)
    } else {
        i
    }
}

/// The position after the digit run starting at `i`.
pub open spec fn digit_end(s: Seq<char>, i: int) -> int
    decreases s.len() - i,
{
    if 0 <= i < s.len() && is_digit_char(s[i]) {
        digit_end(s, i + 1)
    } else {
        i
    }
}

/// The position after the identifier-character run starting at `i`.
pub open spec fn ident_end(s: Seq<char>, i: int) -> int
    decreases s.len() - i,
{
    if 0 <= i < s.len() && is_ident_char(s[i]) {
        ident_end(s, i + 1)
    } else {
        i
    }
}

/// The position after the number starting at `i`: digits, an optional
/// fraction (`.` and more digits), and an optional exponent (`e`/`E`, an
/// optional sign, and more digits).
pub open spec fn number_end(s: Seq<char>, i: int) -> int {
    let d = digit_end(s, i);
    let f = if d < s.len() && s[d] == '.' {
        digit_end(s, d + 1)
    } else {
        d
    };
    if f < s.len() && (s[f] == 'e' || s[f] == 'E') {
        let g = if f + 1 < s.len() && (s[f + 1] == '+' || s[f + 1] == '-') {
            f + 2
        } else {
            f + 1
        };
        digit_end(s, g)
    } else {
        f
    }
}

/// The identifier or keyword token whose text is the identifier run at `i`.
pub open spec fn ident_token(s: Seq<char>, i: int) -> TokenView {
    let w = s.subrange(i, ident_end(s, i));
    match keyword_of(w) {
        Some(k) => TokenView::Keyword(k),
        None => TokenView::Ident(w),
    }
}

/// The content and end position of a string literal whose opening quote
/// stands just before `i`: characters up to the closing quote, with a doubled
/// quote standing for one literal quote. `None` if the literal never closes.
pub open spec fn string_body(s: Seq<char>, i: int) -> Option<(Seq<char>, int)>
    decreases s.len() - i,
{
    if i < 0 || i >= s.len() {
        None
    } else if s[i] == '\'' {
        if i + 1 < s.len() && s[i + 1] == '\'' {
            match string_body(s, i + 2) {
                Some((content, end)) => Some((seq!['\''] + content, end)),
                None => None,
            }
        } else {
            Some((Seq::empty(), i + 1))
        }
    } else {
        match string_body(s, i + 1) {
            Some((content, end)) => Some((seq![s[i]] + content, end)),
            None => None,
        }
    }
}

/// The token a single symbol character stands for.
pub open spec fn single_symbol(c: char) -> Option<TokenView> {
    if c == '.' {
        Some(TokenView::Period)
    } else if c == '=' {
        Some(TokenView::Equal)
    } else if c == '>' {
        Some(TokenView::GreaterThan)
    } else if c == '<' {
        Some(TokenView::LessThan)
    } else if c == '+' {
        Some(TokenView::Plus)
    } else if c == '-' {
        Some(TokenView::Minus)
    } else if c == '*' {
        Some(TokenView::Asterisk)
    } else if c == '/' {
        Some(TokenView::Slash)
    } else if c == '^' {
        Some(TokenView::Caret)
    } else if c == '%' {
        Some(TokenView::Percent)
    } else if c == '!' {
        Some(TokenView::Exclamation)
    } else if c == '?' {
        Some(TokenView::Question)
    } else if c == '(' {
        Some(TokenView::OpenParen)
    } else if c == ')' {
        Some(TokenView::CloseParen)
    } else if c == ',' {
        Some(TokenView::Comma)
    } else if c == ';' {
        Some(TokenView::Semicolon)
    } else {
        None
    }
}

/// The symbol token at `i`, combining `!=`, `<>`, `<=` and `>=` greedily,
/// with the position after it; `None` if no symbol starts at `i`.
pub open spec fn symbol_step(s: Seq<char>, i: int) -> Option<(TokenView, int)> {
    match single_symbol(s[i]) {
        None => None,
        Some(t) => if t == TokenView::Exclamation {
            if i + 1 < s.len() && s[i + 1] == '=' {
                Some((TokenView::NotEqual, i + 2))
            } else {
                Some((t, i + 1))
            }
        } else if t == TokenView::LessThan {
            if i + 1 < s.len() && s[i + 1] == '>' {
                Some((TokenView::LessOrGreaterThan, i + 2))
            } else if i + 1 < s.len() && s[i + 1] == '=' {
                Some((TokenView::LessThanOrEqual, i + 2))
            } else {
                Some((t, i + 1))
            }
        } else if t == TokenView::GreaterThan {
            if i + 1 < s.len() && s[i + 1] == '=' {
                Some((TokenView::GreaterThanOrEqual, i + 2))
            } else {
                Some((t, i + 1))
            }
        } else {
            Some((t, i + 1))
        },
    }
}

/// The message of the error reported for a character no token starts with.
pub open spec fn unexpected_char_msg(c: char) -> Seq<char> {
    "Unexpected character "@ + seq![c]
}

/// The message of the error reported for a string literal that never closes.
pub open spec fn unterminated_string_msg() -> Seq<char> {
    "Unexpected end of string literal"@
}

/// One step of the lexer at position `i`: the position after the step and
/// the item produced, `None` standing for end of input.
pub struct LexStep {
    pub next: int,
    pub item: Option<Result<TokenView, ErrorView>>,
}

/// What a lexer standing at position `i` of text `s` produces next, and
/// where it stands afterwards. This is the whole lexical rule of the
/// language: every executable scan is proved equal to it.
pub open spec fn lex_next(s: Seq<char>, i: int) -> LexStep {
    let j = ws_end(s, i);
    if j >= s.len() {
        LexStep { next: s.len() as int, item: None }
    } else if is_digit_char(s[j]) {
        LexStep {
            next: number_end(s, j),
            item: Some(Ok(TokenView::Number(s.subrange(j, number_end(s, j))))),
        }
    } else if is_alpha_char(s[j]) {
        LexStep { next: ident_end(s, j), item: Some(Ok(ident_token(s, j))) }
    } else if s[j] == '\'' {
        match string_body(s, j + 1) {
            Some((content, end)) => LexStep {
                next: end,
                item: Some(Ok(TokenView::String(content))),
            },
            None => LexStep {
                next: s.len() as int,
                item: Some(Err(ErrorView::Parse(unterminated_string_msg()))),
            },
        }
    } else {
        match symbol_step(s, j) {
            Some((t, k)) => LexStep { next: k, item: Some(Ok(t)) },
            None => LexStep { next: j, item: Some(Err(ErrorView::Parse(unexpected_char_msg(s[j])))) },
        }
    }
}

/// Relates an executable lexer item to its model.
pub open spec fn item_matches(
    r: Option<EasyDbResult<Token>>,
    m: Option<Result<TokenView, ErrorView>>,
) -> bool {
    match (r, m) {
        (None, None) => true,
        (Some(Ok(t)), Some(Ok(tv))) => t@ == tv,
        (Some(Err(e)), Some(Err(ev))) => e@ == ev,
        _ => false,
    }
}

// ---------------------------------------------------------------------------
// Bounds of the model
// ---------------------------------------------------------------------------

proof fn lemma_ws_end_bounds(s: Seq<char>, i: int)
    requires
        0 <= i <= s.len(),
    ensures
        i <= ws_end(s, i) <= s.len(),
    decreases s.len() - i,
{
    if i < s.len() && is_ws_char(s[i]) {
        lemma_ws_end_bounds(s, i + 1);
    }
}

proof fn lemma_digit_end_bounds(s: Seq<char>, i: int)
    requires
        0 <= i <= s.len(),
    ensures
        i <= digit_end(s, i) <= s.len(),
    decreases s.len() - i,
{
    if i < s.len() && is_digit_char(s[i]) {
        lemma_digit_end_bounds(s, i + 1);
    }
}

proof fn lemma_ident_end_bounds(s: Seq<char>, i: int)
    requires
        0 <= i <= s.len(),
    ensures
        i <= ident_end(s, i) <= s.len(),
        i < s.len() && is_ident_char(s[i]) ==> i < ident_end(s, i),
    decreases s.len() - i,
{
    if i < s.len() && is_ident_char(s[i]) {
        lemma_ident_end_bounds(s, i + 1);
    }
}

proof fn lemma_number_end_bounds(s: Seq<char>, i: int)
    requires
        0 <= i <= s.len(),
    ensures
        i <= number_end(s, i) <= s.len(),
        i < s.len() && is_digit_char(s[i]) ==> i < number_end(s, i),
{
    lemma_digit_end_bounds(s, i);
    let d = digit_end(s, i);
    if i < s.len() && is_digit_char(s[i]) {
        lemma_digit_end_bounds(s, i + 1);
    }
    if d < s.len() && s[d] == '.' {
        lemma_digit_end_bounds(s, d + 1);
    }
    let f = if d < s.len() && s[d] == '.' {
        digit_end(s, d + 1)
    } else {
        d
    };
    if f < s.len() && (s[f] == 'e' || s[f] == 'E') {
        let g = if f + 1 < s.len() && (s[f + 1] == '+' || s[f + 1] == '-') {
            f + 2
        } else {
            f + 1
        };
        lemma_digit_end_bounds(s, g);
    }
}

proof fn lemma_string_body_bounds(s: Seq<char>, i: int)
    requires
        0 <= i,
    ensures
        string_body(s, i) matches Some(se) ==> i < se.1 <= s.len(),
    decreases s.len() - i,
{
    if 0 <= i < s.len() {
        if s[i] == '\'' {
            if i + 1 < s.len() && s[i + 1] == '\'' {
                lemma_string_body_bounds(s, i + 2);
            }
        } else {
            lemma_string_body_bounds(s, i + 1);
        }
    }
}

/// A well-formed lexer stands inside its text.
pub proof fn lemma_wf_bounds<'a>(l: Lexer<'a>)
    requires
        l.wf(),
    ensures
        0 <= l.position() <= l.text().len(),
{
}

/// One lexer step never moves backwards, never leaves the text, and always
/// consumes at least one character when it yields a token.
pub proof fn lemma_lex_next_bounds(s: Seq<char>, i: int)
    requires
        0 <= i <= s.len(),
    ensures
        i <= lex_next(s, i).next <= s.len(),
        lex_next(s, i).item matches Some(it) && it is Ok ==> i < lex_next(s, i).next,
{
    lemma_ws_end_bounds(s, i);
    let j = ws_end(s, i);
    if j < s.len() {
        if is_digit_char(s[j]) {
            lemma_number_end_bounds(s, j);
        } else if is_alpha_char(s[j]) {
            lemma_ident_end_bounds(s, j);
        } else if s[j] == '\'' {
            lemma_string_body_bounds(s, j + 1);
        }
    }
}

// ---------------------------------------------------------------------------
// The lexer
// ---------------------------------------------------------------------------

fn ws_char(c: char) -> (b: bool)
    ensures
        b == is_ws_char(c),
{
    c == ' ' || c == '\t' || c == '\n' || c == '\r'
}

fn digit_char(c: char) -> (b: bool)
    ensures
        b == is_digit_char(c),
{
    let v = c as u32;
    48 <= v && v <= 57
}

fn alpha_char(c: char) -> (b: bool)
    ensures
        b == is_alpha_char(c),
{
    let v = c as u32;
    (65 <= v && v <= 90) || (97 <= v && v <= 122)
}

fn ident_char(c: char) -> (b: bool)
    ensures
        b == is_ident_char(c),
{
    alpha_char(c) || digit_char(c) || c == '_'
}

/// A single-pass tokenizer over a borrowed text. It stands at a character
/// position and yields one token (or one error) per call of [`Lexer::next`].
#[derive(Clone, Copy)]
pub struct Lexer<'a> {
    input: &'a str,
    pos: usize,
    len: usize,
}

impl<'a> Lexer<'a> {
    /// The text being lexed.
    pub closed spec fn text(self) -> Seq<char> {
        self.input@
    }

    /// The current character position.
    pub closed spec fn position(self) -> int {
        self.pos as int
    }

    /// The lexer stands inside its text.
    pub closed spec fn wf(self) -> bool {
        self.len == self.input@.len() && self.pos <= self.len
    }

    /// A lexer standing at the start of `input`.
    pub fn new(input: &'a str) -> (l: Lexer<'a>)
        ensures
            l.wf(),
            l.text() == input@,
            l.position() == 0,
    {
        let len = input.unicode_len();
        Lexer { input, pos: 0, len }
    }

    /// Skips the whitespace run at the current position.
    fn skip_whitespace(&mut self)
        requires
            old(self).wf(),
        ensures
            final(self).wf(),
            final(self).text() == old(self).text(),
            final(self).position() == ws_end(old(self).text(), old(self).position()),
    {
        let ghost text = self.input@;
        let ghost p0 = self.pos as int;
        while self.pos < self.len && ws_char(self.input.get_char(self.pos))
            invariant
                self.wf(),
                self.input@ == text,
                ws_end(text, self.pos as int) == ws_end(text, p0),
            decreases self.len - self.pos,
        {
            self.pos = self.pos + 1;
        }
    }

    /// Consumes the digit run at the current position.
    fn scan_digits(&mut self)
        requires
            old(self).wf(),
        ensures
            final(self).wf(),
            final(self).text() == old(self).text(),
            final(self).position() == digit_end(old(self).text(), old(self).position()),
            old(self).position() <= final(self).position(),
    {
        let ghost text = self.input@;
        let ghost p0 = self.pos as int;
        while self.pos < self.len && digit_char(self.input.get_char(self.pos))
            invariant
                self.wf(),
                self.input@ == text,
                p0 <= self.pos as int,
                digit_end(text, self.pos as int) == digit_end(text, p0),
            decreases self.len - self.pos,
        {
            self.pos = self.pos + 1;
        }
    }

    /// Scans the number token at the current position.
    fn scan_number(&mut self) -> (t: Token)
        requires
            old(self).wf(),
        ensures
            final(self).wf(),
            final(self).text() == old(self).text(),
            final(self).position() == number_end(old(self).text(), old(self).position()),
            t@ == TokenView::Number(
                old(self).text().subrange(
                    old(self).position(),
                    number_end(old(self).text(), old(self).position()),
                ),
            ),
    {
        let ghost text = self.input@;
        let ghost p0 = self.pos as int;
        let start = self.pos;
        self.scan_digits();
        if self.pos < self.len {
            let c = self.input.get_char(self.pos);
            if c == '.' {
                self.pos = self.pos + 1;
                self.scan_digits();
            }
        }
        if self.pos < self.len {
            let c = self.input.get_char(self.pos);
            if c == 'e' || c == 'E' {
                self.pos = self.pos + 1;
                if self.pos < self.len {
                    let d = self.input.get_char(self.pos);
                    if d == '+' || d == '-' {
                        self.pos = self.pos + 1;
                    }
                }
                self.scan_digits();
            }
        }
        assert(self.pos as int == number_end(text, p0));
        let s = self.input.substring_char(start, self.pos);
        Token::Number(s.to_owned())
    }

    /// Scans the identifier run at the current position and classifies it as
    /// a keyword or a plain identifier.
    fn scan_ident(&mut self) -> (t: Token)
        requires
            old(self).wf(),
        ensures
            final(self).wf(),
            final(self).text() == old(self).text(),
            final(self).position() == ident_end(old(self).text(), old(self).position()),
            old(self).position() <= final(self).position(),
            t@ == ident_token(old(self).text(), old(self).position()),
    {
        let ghost text = self.input@;
        let ghost p0 = self.pos as int;
        let start = self.pos;
        while self.pos < self.len && ident_char(self.input.get_char(self.pos))
            invariant
                self.wf(),
                self.input@ == text,
                p0 <= self.pos as int,
                ident_end(text, self.pos as int) == ident_end(text, p0),
            decreases self.len - self.pos,
        {
            self.pos = self.pos + 1;
        }
        let word = self.input.substring_char(start, self.pos);
        match Keyword::from_str(word) {
            Some(k) => Token::Keyword(k),
            None => Token::Ident(word.to_owned()),
        }
    }

    /// Scans the rest of a string literal, the opening quote already
    /// consumed: everything up to the closing quote, a doubled quote giving
    /// one literal quote.
    fn scan_string_rest(input: &str, len: usize, pos: usize) -> (r: (EasyDbResult<String>, usize))
        requires
            len == input@.len(),
            pos <= len,
        ensures
            pos <= r.1 <= len,
            match string_body(input@, pos as int) {
                Some(se) => r.1 as int == se.1 && match r.0 {
                    Ok(st) => st@ == se.0,
                    Err(_) => false,
                },
                None => r.1 == len && match r.0 {
                    Ok(_) => false,
                    Err(e) => e@ == ErrorView::Parse(unterminated_string_msg()),
                },
            },
        decreases len - pos,
    {
        if pos == len {
            (Err(EasyDbError::Parse("Unexpected end of string literal".to_owned())), len)
        } else {
            let c = input.get_char(pos);
            if c == '\'' {
                let mut doubled = false;
                if pos + 1 < len {
                    doubled = input.get_char(pos + 1) == '\'';
                }
                if doubled {
                    let (rest, end) = Self::scan_string_rest(input, len, pos + 2);
                    match rest {
                        Ok(tail) => {
                            proof {
                                reveal_strlit("'");
                                assert("'"@ =~= seq!['\'']);
                            }
                            (Ok("'".to_owned().concat(tail.as_str())), end)
                        },
                        Err(e) => (Err(e), end),
                    }
                } else {
                    (Ok(String::new()), pos + 1)
                }
            } else {
                let first = input.substring_char(pos, pos + 1);
                proof {
                    assert(first@ =~= seq![input@[pos as int]]);
                }
                let (rest, end) = Self::scan_string_rest(input, len, pos + 1);
                match rest {
                    Ok(tail) => (Ok(first.to_owned().concat(tail.as_str())), end),
                    Err(e) => (Err(e), end),
                }
            }
        }
    }

    /// Scans the symbol token at the current position, combining `!=`, `<>`,
    /// `<=` and `>=` greedily; leaves the position alone when no symbol
    /// starts here.
    fn scan_symbol(&mut self) -> (r: Option<Token>)
        requires
            old(self).wf(),
            old(self).position() < old(self).text().len(),
        ensures
            final(self).wf(),
            final(self).text() == old(self).text(),
            match symbol_step(old(self).text(), old(self).position()) {
                Some(se) => final(self).position() == se.1 && match r {
                    Some(t) => t@ == se.0,
                    None => false,
                },
                None => final(self).position() == old(self).position() && r is None,
            },
    {
        let c = self.input.get_char(self.pos);
        let first: Option<Token> = match c {
            '.' => Some(Token::Period),
            '=' => Some(Token::Equal),
            '>' => Some(Token::GreaterThan),
            '<' => Some(Token::LessThan),
            '+' => Some(Token::Plus),
            '-' => Some(Token::Minus),
            '*' => Some(Token::Asterisk),
            '/' => Some(Token::Slash),
            '^' => Some(Token::Caret),
            '%' => Some(Token::Percent),
            '!' => Some(Token::Exclamation),
            '?' => Some(Token::Question),
            '(' => Some(Token::OpenParen),
            ')' => Some(Token::CloseParen),
            ',' => Some(Token::Comma),
            ';' => Some(Token::Semicolon),
            _ => None,
        };
        match first {
            None => None,
            Some(tok) => {
                self.pos = self.pos + 1;
                match tok {
                    Token::Exclamation => {
                        if self.next_char_is('=') {
                            self.pos = self.pos + 1;
                            Some(Token::NotEqual)
                        } else {
                            Some(Token::Exclamation)
                        }
                    },
                    Token::LessThan => {
                        if self.next_char_is('>') {
                            self.pos = self.pos + 1;
                            Some(Token::LessOrGreaterThan)
                        } else if self.next_char_is('=') {
                            self.pos = self.pos + 1;
                            Some(Token::LessThanOrEqual)
                        } else {
                            Some(Token::LessThan)
                        }
                    },
                    Token::GreaterThan => {
                        if self.next_char_is('=') {
                            self.pos = self.pos + 1;
                            Some(Token::GreaterThanOrEqual)
                        } else {
                            Some(Token::GreaterThan)
                        }
                    },
                    t => Some(t),
                }
            },
        }
    }

    /// Whether the character at the current position is `c`.
    fn next_char_is(&self, c: char) -> (b: bool)
        requires
            self.wf(),
        ensures
            b == (self.position() < self.text().len() && self.text()[self.position()] == c),
    {
        self.pos < self.len && self.input.get_char(self.pos) == c
    }

    /// Produces the next token of the text, `None` at its end, or the error
    /// that stops the scan: an unexpected character or an unterminated
    /// string literal. The result is a function of the lexer's state alone
    /// (`lex_next`), so lexing the same text again yields the same sequence.
    pub fn next(&mut self) -> (r: Option<EasyDbResult<Token>>)
        requires
            old(self).wf(),
        ensures
            final(self).wf(),
            final(self).text() == old(self).text(),
            final(self).position() == lex_next(old(self).text(), old(self).position()).next,
            item_matches(r, lex_next(old(self).text(), old(self).position()).item),
    {
        let ghost text = self.input@;
        let ghost p0 = self.pos as int;
        self.skip_whitespace();
        if self.pos >= self.len {
            None
        } else {
            let c = self.input.get_char(self.pos);
            if digit_char(c) {
                Some(Ok(self.scan_number()))
            } else if alpha_char(c) {
                Some(Ok(self.scan_ident()))
            } else if c == '\'' {
                let (body, end) = Self::scan_string_rest(self.input, self.len, self.pos + 1);
                self.pos = end;
                match body {
                    Ok(content) => Some(Ok(Token::String(content))),
                    Err(e) => Some(Err(e)),
                }
            } else {
                match self.scan_symbol() {
                    Some(t) => Some(Ok(t)),
                    None => {
                        let mut m = "Unexpected character ".to_owned();
                        let ch = self.input.substring_char(self.pos, self.pos + 1);
                        proof {
                            assert(ch@ =~= seq![text[self.pos as int]]);
                        }
                        m.append(ch);
                        Some(Err(EasyDbError::Parse(m)))
                    },
                }
            }
        }
    }
}

} // verus!
