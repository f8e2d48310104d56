use vstd::prelude::*;
use vstd::string::StringExecFns;

use crate::error::{EasyDbError, EasyDbResult, ErrorView};
use crate::lexer::{
    keyword_text, lemma_lex_next_bounds, lemma_wf_bounds, lex_next, token_text, Keyword, Lexer,
    Token, TokenView,
};

verus! {

// ---------------------------------------------------------------------------
// The statement tree
// ---------------------------------------------------------------------------

/// The four semantic column types the grammar's type keywords collapse onto.
#[derive(Clone, Copy, Debug, PartialEq, Eq, Structural)]
pub enum DataType {
    Boolean,
    Integer,
    Float,
    String,
}

/// Whether a column was declared nullable, not nullable, or neither.
#[derive(Clone, Copy, Debug, PartialEq, Eq, Structural)]
pub enum Nullability {
    Unspecified,
    Nullable,
    NotNullable,
}

/// The mathematical value of a [`Column`].
pub struct ColumnView {
    pub name: Seq<char>,
    pub datatype: DataType,
    pub primary_key: bool,
    pub nullable: Nullability,
    pub unique: bool,
    pub index: bool,
    pub references: Option<Seq<char>>,
}

/// One column definition of a `CREATE TABLE` statement.
#[derive(Clone, Debug, PartialEq)]
pub struct Column {
    pub name: String,
    pub datatype: DataType,
    pub primary_key: bool,
    pub nullable: Nullability,
    pub unique: bool,
    pub index: bool,
    pub references: Option<String>,
}

impl View for Column {
    type V = ColumnView;

    open spec fn view(&self) -> ColumnView {
        ColumnView {
            name: self.name@,
            datatype: self.datatype,
            primary_key: self.primary_key,
            nullable: self.nullable,
            unique: self.unique,
            index: self.index,
            references: match self.references {
                Some(r) => Some(r@),
                None => None,
            },
        }
    }
}

/// The mathematical value of a [`Statement`].
pub enum StatementView {
    CreateTable { name: Seq<char>, columns: Seq<ColumnView> },
    DropTable(Seq<char>),
}

/// A parsed data-definition statement.
#[derive(Clone, Debug, PartialEq)]
pub enum Statement {
    CreateTable { name: String, columns: Vec<Column> },
    DropTable(String),
}

/// The mathematical value of a column list.
pub open spec fn cols_view(cs: Seq<Column>) -> Seq<ColumnView> {
    cs.map_values(|c: Column| c@)
}

impl View for Statement {
    type V = StatementView;

    open spec fn view(&self) -> StatementView {
        match self {
            Statement::CreateTable { name, columns } => StatementView::CreateTable {
                name: name@,
                columns: cols_view(columns@),
            },
            Statement::DropTable(name) => StatementView::DropTable(name@),
        }
    }
}

// ---------------------------------------------------------------------------
// The grammar, as a model over the text
// ---------------------------------------------------------------------------

/// One parsing step: the position after it and its outcome.
pub struct ParseStep<T> {
    pub next: int,
    pub res: Result<T, ErrorView>,
}

pub open spec fn unexpected_eoi_msg() -> Seq<char> {
    "Unexpected end of input"@
}

pub open spec fn unexpected_token_msg(t: TokenView) -> Seq<char> {
    "Unexpected token "@ + token_text(t)
}

pub open spec fn expected_token_msg(want: TokenView, got: TokenView) -> Seq<char> {
    "Expected token "@ + token_text(want) + ", found "@ + token_text(got)
}

pub open spec fn expected_ident_msg(got: TokenView) -> Seq<char> {
    "Expected identifier, got "@ + token_text(got)
}

pub open spec fn unexpected_keyword_msg(k: Keyword) -> Seq<char> {
    "Unexpected keyword "@ + keyword_text(k)
}

pub open spec fn nullability_conflict_msg(name: Seq<char>) -> Seq<char> {
    "Column "@ + name + " can't be both not nullable and nullable"@
}

pub open spec fn no_advance_msg() -> Seq<char> {
    "lexer did not advance"@
}

/// Drawing the next token: end of input is an error here.
pub open spec fn sp_next(s: Seq<char>, i: int) -> ParseStep<TokenView> {
    let st = lex_next(s, i);
    ParseStep {
        next: st.next,
        res: match st.item {
            Some(Ok(t)) => Ok(t),
            Some(Err(e)) => Err(e),
            None => Err(ErrorView::Parse(unexpected_eoi_msg())),
        },
    }
}

/// Looking one token ahead without consuming it.
pub open spec fn sp_peek(s: Seq<char>, i: int) -> Result<Option<TokenView>, ErrorView> {
    match lex_next(s, i).item {
        None => Ok(None),
        Some(Ok(t)) => Ok(Some(t)),
        Some(Err(e)) => Err(e),
    }
}

/// Consuming the next token only if it equals `tv`: the position afterwards,
/// and whether it was consumed.
pub open spec fn sp_next_if_token(s: Seq<char>, i: int, tv: TokenView) -> (int, bool) {
    match lex_next(s, i).item {
        Some(Ok(t)) => if t == tv {
            (lex_next(s, i).next, true)
        } else {
            (i, false)
        },
        _ => (i, false),
    }
}

/// Consuming the next token only if it is a keyword.
pub open spec fn sp_next_if_keyword(s: Seq<char>, i: int) -> (int, Option<Keyword>) {
    match lex_next(s, i).item {
        Some(Ok(TokenView::Keyword(k))) => (lex_next(s, i).next, Some(k)),
        _ => (i, None),
    }
}

/// Requiring a given token next (`exp` is `Some`), or the end of the input
/// (`exp` is `None`).
pub open spec fn sp_next_expect(s: Seq<char>, i: int, exp: Option<TokenView>) -> ParseStep<
    Option<TokenView>,
> {
    match exp {
        Some(want) => {
            let st = sp_next(s, i);
            match st.res {
                Ok(t) => if t == want {
                    ParseStep { next: st.next, res: Ok(Some(t)) }
                } else {
                    ParseStep {
                        next: st.next,
                        res: Err(ErrorView::Parse(expected_token_msg(want, t))),
                    }
                },
                Err(e) => ParseStep { next: st.next, res: Err(e) },
            }
        },
        None => match sp_peek(s, i) {
            Ok(Some(t)) => ParseStep {
                next: i,
                res: Err(ErrorView::Parse(unexpected_token_msg(t))),
            },
            Ok(None) => ParseStep { next: i, res: Ok(None) },
            Err(e) => ParseStep { next: i, res: Err(e) },
        },
    }
}

/// Requiring an identifier next.
pub open spec fn sp_next_ident(s: Seq<char>, i: int) -> ParseStep<Seq<char>> {
    let st = sp_next(s, i);
    match st.res {
        Ok(t) => match t {
            TokenView::Ident(name) => ParseStep { next: st.next, res: Ok(name) },
            _ => ParseStep { next: st.next, res: Err(ErrorView::Parse(expected_ident_msg(t))) },
        },
        Err(e) => ParseStep { next: st.next, res: Err(e) },
    }
}

/// The semantic type a column-type keyword stands for, if the token is one.
pub open spec fn datatype_of(t: TokenView) -> Option<DataType> {
    match t {
        TokenView::Keyword(Keyword::Bool) => Some(DataType::Boolean),
        TokenView::Keyword(Keyword::Boolean) => Some(DataType::Boolean),
        TokenView::Keyword(Keyword::Char) => Some(DataType::String),
        TokenView::Keyword(Keyword::Double) => Some(DataType::Float),
        TokenView::Keyword(Keyword::Float) => Some(DataType::Float),
        TokenView::Keyword(Keyword::Int) => Some(DataType::Integer),
        TokenView::Keyword(Keyword::Integer) => Some(DataType::Integer),
        TokenView::Keyword(Keyword::String) => Some(DataType::String),
        TokenView::Keyword(Keyword::Text) => Some(DataType::String),
        TokenView::Keyword(Keyword::Varchar) => Some(DataType::String),
        _ => None,
    }
}

/// One constraint of a column definition: `Ok(None)` when no keyword
/// follows (the loop ends), `Ok(Some(col))` when one constraint was consumed.
pub open spec fn sp_constraint_step(s: Seq<char>, i: int, col: ColumnView) -> ParseStep<
    Option<ColumnView>,
> {
    let (j, kwopt) = sp_next_if_keyword(s, i);
    match kwopt {
        None => ParseStep { next: j, res: Ok(None) },
        Some(kw) => match kw {
            Keyword::Primary => {
                let e = sp_next_expect(s, j, Some(TokenView::Keyword(Keyword::Key)));
                match e.res {
                    Ok(_) => ParseStep {
                        next: e.next,
                        res: Ok(Some(ColumnView { primary_key: true, ..col })),
                    },
                    Err(er) => ParseStep { next: e.next, res: Err(er) },
                }
            },
            Keyword::Null => if col.nullable == Nullability::NotNullable {
                ParseStep {
                    next: j,
                    res: Err(ErrorView::Value(nullability_conflict_msg(col.name))),
                }
            } else {
                ParseStep {
                    next: j,
                    res: Ok(Some(ColumnView { nullable: Nullability::Nullable, ..col })),
                }
            },
            Keyword::Not => {
                let e = sp_next_expect(s, j, Some(TokenView::Keyword(Keyword::Null)));
                match e.res {
                    Err(er) => ParseStep { next: e.next, res: Err(er) },
                    Ok(_) => if col.nullable == Nullability::Nullable {
                        ParseStep {
                            next: e.next,
                            res: Err(ErrorView::Value(nullability_conflict_msg(col.name))),
                        }
                    } else {
                        ParseStep {
                            next: e.next,
                            res: Ok(Some(ColumnView { nullable: Nullability::NotNullable, ..col })),
                        }
                    },
                }
            },
            Keyword::Unique => ParseStep {
                next: j,
                res: Ok(Some(ColumnView { unique: true, ..col })),
            },
            Keyword::Index => ParseStep {
                next: j,
                res: Ok(Some(ColumnView { index: true, ..col })),
            },
            Keyword::References => {
                let n = sp_next_ident(s, j);
                match n.res {
                    Ok(table) => ParseStep {
                        next: n.next,
                        res: Ok(Some(ColumnView { references: Some(table), ..col })),
                    },
                    Err(er) => ParseStep { next: n.next, res: Err(er) },
                }
            },
            _ => ParseStep { next: j, res: Err(ErrorView::Parse(unexpected_keyword_msg(kw))) },
        },
    }
}

/// The constraint loop of a column definition. The `Internal` arm only
/// bounds the recursion; it is unreachable, since a consumed token always
/// advances the position (`lemma_lex_next_bounds`).
pub open spec fn sp_column_constraints(s: Seq<char>, i: int, col: ColumnView) -> ParseStep<
    ColumnView,
>
    decreases s.len() - i,
{
    let st = sp_constraint_step(s, i, col);
    match st.res {
        Err(e) => ParseStep { next: st.next, res: Err(e) },
        Ok(None) => ParseStep { next: st.next, res: Ok(col) },
        Ok(Some(col2)) => if i < st.next <= s.len() {
            sp_column_constraints(s, st.next, col2)
        } else {
            ParseStep { next: st.next, res: Err(ErrorView::Internal(no_advance_msg())) }
        },
    }
}

/// One column definition: a name, a type keyword, then any constraints.
pub open spec fn sp_parse_column(s: Seq<char>, i: int) -> ParseStep<ColumnView> {
    let n = sp_next_ident(s, i);
    match n.res {
        Err(e) => ParseStep { next: n.next, res: Err(e) },
        Ok(name) => {
            let dt = sp_next(s, n.next);
            match dt.res {
                Err(e) => ParseStep { next: dt.next, res: Err(e) },
                Ok(t) => match datatype_of(t) {
                    Some(datatype) => sp_column_constraints(
                        s,
                        dt.next,
                        ColumnView {
                            name,
                            datatype,
                            primary_key: false,
                            nullable: Nullability::Unspecified,
                            unique: false,
                            index: false,
                            references: None,
                        },
                    ),
                    None => ParseStep {
                        next: dt.next,
                        res: Err(ErrorView::Parse(unexpected_token_msg(t))),
                    },
                },
            }
        },
    }
}

/// The comma-separated column list: always at least one column. The
/// `Internal` arm only bounds the recursion; it is unreachable, since a
/// consumed comma always advances the position (`lemma_lex_next_bounds`).
pub open spec fn sp_parse_columns(s: Seq<char>, i: int, acc: Seq<ColumnView>) -> ParseStep<
    Seq<ColumnView>,
>
    decreases s.len() - i,
{
    let c = sp_parse_column(s, i);
    match c.res {
        Err(e) => ParseStep { next: c.next, res: Err(e) },
        Ok(col) => {
            let (j, took) = sp_next_if_token(s, c.next, TokenView::Comma);
            if !took {
                ParseStep { next: j, res: Ok(acc.push(col)) }
            } else if i < j <= s.len() {
                sp_parse_columns(s, j, acc.push(col))
            } else {
                ParseStep { next: j, res: Err(ErrorView::Internal(no_advance_msg())) }
            }
        },
    }
}

/// A `CREATE TABLE` statement, its `CREATE TABLE` prefix already consumed.
pub open spec fn sp_parse_create_table(s: Seq<char>, i: int) -> ParseStep<StatementView> {
    let n = sp_next_ident(s, i);
    match n.res {
        Err(e) => ParseStep { next: n.next, res: Err(e) },
        Ok(name) => {
            let p = sp_next_expect(s, n.next, Some(TokenView::OpenParen));
            match p.res {
                Err(e) => ParseStep { next: p.next, res: Err(e) },
                Ok(_) => {
                    let cols = sp_parse_columns(s, p.next, Seq::empty());
                    match cols.res {
                        Err(e) => ParseStep { next: cols.next, res: Err(e) },
                        Ok(columns) => {
                            let cp = sp_next_expect(s, cols.next, Some(TokenView::CloseParen));
                            match cp.res {
                                Err(e) => ParseStep { next: cp.next, res: Err(e) },
                                Ok(_) => ParseStep {
                                    next: cp.next,
                                    res: Ok(StatementView::CreateTable { name, columns }),
                                },
                            }
                        },
                    }
                },
            }
        },
    }
}

/// A `DROP TABLE` statement, its `DROP TABLE` prefix already consumed.
pub open spec fn sp_parse_drop_table(s: Seq<char>, i: int) -> ParseStep<StatementView> {
    let n = sp_next_ident(s, i);
    match n.res {
        Ok(name) => ParseStep { next: n.next, res: Ok(StatementView::DropTable(name)) },
        Err(e) => ParseStep { next: n.next, res: Err(e) },
    }
}

/// A data-definition statement: `CREATE TABLE ...` or `DROP TABLE ...`.
pub open spec fn sp_parse_ddl(s: Seq<char>, i: int) -> ParseStep<StatementView> {
    let st = sp_next(s, i);
    match st.res {
        Err(e) => ParseStep { next: st.next, res: Err(e) },
        Ok(t) => if t == TokenView::Keyword(Keyword::Create) {
            let st2 = sp_next(s, st.next);
            match st2.res {
                Err(e) => ParseStep { next: st2.next, res: Err(e) },
                Ok(t2) => if t2 == TokenView::Keyword(Keyword::Table) {
                    sp_parse_create_table(s, st2.next)
                } else {
                    ParseStep { next: st2.next, res: Err(ErrorView::Parse(unexpected_token_msg(t2))) }
                },
            }
        } else if t == TokenView::Keyword(Keyword::Drop) {
            let st2 = sp_next(s, st.next);
            match st2.res {
                Err(e) => ParseStep { next: st2.next, res: Err(e) },
                Ok(t2) => if t2 == TokenView::Keyword(Keyword::Table) {
                    sp_parse_drop_table(s, st2.next)
                } else {
                    ParseStep { next: st2.next, res: Err(ErrorView::Parse(unexpected_token_msg(t2))) }
                },
            }
        } else {
            ParseStep { next: st.next, res: Err(ErrorView::Parse(unexpected_token_msg(t))) }
        },
    }
}

/// Statement dispatch on the first token, which is inspected, not consumed.
pub open spec fn sp_parse_statement(s: Seq<char>, i: int) -> ParseStep<StatementView> {
    match sp_peek(s, i) {
        Ok(Some(TokenView::Keyword(Keyword::Create))) => sp_parse_ddl(s, i),
        Ok(Some(TokenView::Keyword(Keyword::Drop))) => sp_parse_ddl(s, i),
        Ok(Some(t)) => ParseStep { next: i, res: Err(ErrorView::Parse(unexpected_token_msg(t))) },
        Ok(None) => ParseStep { next: i, res: Err(ErrorView::Parse(unexpected_eoi_msg())) },
        Err(e) => ParseStep { next: i, res: Err(e) },
    }
}

/// The whole parse: one statement, an optional semicolon, then the end of
/// the input. This is the meaning of [`Parser::parse`].
pub open spec fn sp_parse(s: Seq<char>, i: int) -> Result<StatementView, ErrorView> {
    let st = sp_parse_statement(s, i);
    match st.res {
        Err(e) => Err(e),
        Ok(statement) => {
            let (j, _took) = sp_next_if_token(s, st.next, TokenView::Semicolon);
            match sp_next_expect(s, j, None).res {
                Ok(_) => Ok(statement),
                Err(e) => Err(e),
            }
        },
    }
}

// ---------------------------------------------------------------------------
// Relating executable results to the model
// ---------------------------------------------------------------------------

pub open spec fn token_res_matches(r: EasyDbResult<Token>, m: Result<TokenView, ErrorView>) -> bool {
    match (r, m) {
        (Ok(t), Ok(tv)) => t@ == tv,
        (Err(e), Err(ev)) => e@ == ev,
        _ => false,
    }
}

pub open spec fn opt_token_res_matches(
    r: EasyDbResult<Option<Token>>,
    m: Result<Option<TokenView>, ErrorView>,
) -> bool {
    match (r, m) {
        (Ok(None), Ok(None)) => true,
        (Ok(Some(t)), Ok(Some(tv))) => t@ == tv,
        (Err(e), Err(ev)) => e@ == ev,
        _ => false,
    }
}

pub open spec fn ident_res_matches(r: EasyDbResult<String>, m: Result<Seq<char>, ErrorView>) -> bool {
    match (r, m) {
        (Ok(n), Ok(nv)) => n@ == nv,
        (Err(e), Err(ev)) => e@ == ev,
        _ => false,
    }
}

pub open spec fn column_res_matches(r: EasyDbResult<Column>, m: Result<ColumnView, ErrorView>) -> bool {
    match (r, m) {
        (Ok(c), Ok(cv)) => c@ == cv,
        (Err(e), Err(ev)) => e@ == ev,
        _ => false,
    }
}

pub open spec fn cols_res_matches(
    r: EasyDbResult<Vec<Column>>,
    m: Result<Seq<ColumnView>, ErrorView>,
) -> bool {
    match (r, m) {
        (Ok(cs), Ok(csv)) => cols_view(cs@) == csv,
        (Err(e), Err(ev)) => e@ == ev,
        _ => false,
    }
}

pub open spec fn stmt_res_matches(
    r: EasyDbResult<Statement>,
    m: Result<StatementView, ErrorView>,
) -> bool {
    match (r, m) {
        (Ok(st), Ok(sv)) => st@ == sv,
        (Err(e), Err(ev)) => e@ == ev,
        _ => false,
    }
}

pub open spec fn opt_token_view(o: Option<Token>) -> Option<TokenView> {
    match o {
        Some(t) => Some(t@),
        None => None,
    }
}

// ---------------------------------------------------------------------------
// Error message construction
// ---------------------------------------------------------------------------

fn msg_unexpected_token(t: &Token) -> (m: String)
    ensures
        m@ == unexpected_token_msg(t@),
{
    let mut m = "Unexpected token ".to_owned();
    m.append(t.display().as_str());
    m
}

fn msg_expected_token(want: &Token, got: &Token) -> (m: String)
    ensures
        m@ == expected_token_msg(want@, got@),
{
    let mut m = "Expected token ".to_owned();
    m.append(want.display().as_str());
    m.append(", found ");
    m.append(got.display().as_str());
    m
}

fn msg_expected_ident(got: &Token) -> (m: String)
    ensures
        m@ == expected_ident_msg(got@),
{
    let mut m = "Expected identifier, got ".to_owned();
    m.append(got.display().as_str());
    m
}

fn msg_unexpected_keyword(k: Keyword) -> (m: String)
    ensures
        m@ == unexpected_keyword_msg(k),
{
    let mut m = "Unexpected keyword ".to_owned();
    m.append(k.to_str());
    m
}

fn msg_nullability_conflict(name: &str) -> (m: String)
    ensures
        m@ == nullability_conflict_msg(name@),
{
    let mut m = "Column ".to_owned();
    m.append(name);
    m.append(" can't be both not nullable and nullable");
    m
}

// ---------------------------------------------------------------------------
// The parser
// ---------------------------------------------------------------------------

/// A recursive-descent parser with one token of lookahead. It draws tokens
/// from a [`Lexer`] on demand and builds exactly one [`Statement`].
pub struct Parser<'a> {
    lexer: Lexer<'a>,
}

impl<'a> Parser<'a> {
    /// The text being parsed.
    pub closed spec fn text(self) -> Seq<char> {
        self.lexer.text()
    }

    /// The current character position of the underlying lexer.
    pub closed spec fn position(self) -> int {
        self.lexer.position()
    }

    /// The parser's lexer stands inside its text.
    pub closed spec fn wf(self) -> bool {
        self.lexer.wf()
    }

    /// A parser standing at the start of `query`.
    pub fn new(query: &'a str) -> (p: Parser<'a>)
        ensures
            p.wf(),
            p.text() == query@,
            p.position() == 0,
    {
        Parser { lexer: Lexer::new(query) }
    }

    /// Draws the next token; the end of the input is an error here.
    fn next(&mut self) -> (r: EasyDbResult<Token>)
        requires
            old(self).wf(),
        ensures
            final(self).wf(),
            final(self).text() == old(self).text(),
            final(self).position() == sp_next(old(self).text(), old(self).position()).next,
            old(self).position() <= final(self).position(),
            token_res_matches(r, sp_next(old(self).text(), old(self).position()).res),
    {
        proof {
            lemma_wf_bounds(self.lexer);
            lemma_lex_next_bounds(self.lexer.text(), self.lexer.position());
        }
        match self.lexer.next() {
            Some(Ok(t)) => Ok(t),
            Some(Err(e)) => Err(e),
            None => Err(EasyDbError::Parse("Unexpected end of input".to_owned())),
        }
    }

    /// Looks one token ahead without consuming it.
    fn peek(&self) -> (r: EasyDbResult<Option<Token>>)
        requires
            self.wf(),
        ensures
            opt_token_res_matches(r, sp_peek(self.text(), self.position())),
    {
        let mut lookahead = self.lexer;
        match lookahead.next() {
            None => Ok(None),
            Some(Ok(t)) => Ok(Some(t)),
            Some(Err(e)) => Err(e),
        }
    }

    /// Consumes the next token only if it equals `token`.
    fn next_if_token(&mut self, token: Token) -> (r: Option<Token>)
        requires
            old(self).wf(),
        ensures
            final(self).wf(),
            final(self).text() == old(self).text(),
            final(self).position() == sp_next_if_token(
                old(self).text(),
                old(self).position(),
                token@,
            ).0,
            old(self).position() <= final(self).position(),
            (r is Some) == sp_next_if_token(old(self).text(), old(self).position(), token@).1,
            r is Some ==> old(self).position() < final(self).position(),
    {
        proof {
            lemma_wf_bounds(self.lexer);
            lemma_lex_next_bounds(self.lexer.text(), self.lexer.position());
        }
        let take = match self.peek() {
            Ok(Some(t)) => t == token,
            _ => false,
        };
        if take {
            match self.next() {
                Ok(t) => Some(t),
                Err(_) => None,
            }
        } else {
            None
        }
    }

    /// Consumes the next token only if it is a keyword.
    fn next_if_keyword(&mut self) -> (r: Option<Token>)
        requires
            old(self).wf(),
        ensures
            final(self).wf(),
            final(self).text() == old(self).text(),
            final(self).position() == sp_next_if_keyword(old(self).text(), old(self).position()).0,
            old(self).position() <= final(self).position(),
            match (r, sp_next_if_keyword(old(self).text(), old(self).position()).1) {
                (Some(t), Some(k)) => t@ == TokenView::Keyword(k),
                (None, None) => true,
                _ => false,
            },
            r is Some ==> old(self).position() < final(self).position(),
    {
        proof {
            lemma_wf_bounds(self.lexer);
            lemma_lex_next_bounds(self.lexer.text(), self.lexer.position());
        }
        let is_kw = match self.peek() {
            Ok(Some(Token::Keyword(_))) => true,
            _ => false,
        };
        if is_kw {
            match self.next() {
                Ok(t) => Some(t),
                Err(_) => None,
            }
        } else {
            None
        }
    }

    /// Draws the next token and requires it to be `expect` (when `Some`), or
    /// requires the input to be at its end (when `None`).
    fn next_expect(&mut self, expect: Option<Token>) -> (r: EasyDbResult<Option<Token>>)
        requires
            old(self).wf(),
        ensures
            final(self).wf(),
            final(self).text() == old(self).text(),
            final(self).position() == sp_next_expect(
                old(self).text(),
                old(self).position(),
                opt_token_view(expect),
            ).next,
            old(self).position() <= final(self).position(),
            opt_token_res_matches(
                r,
                sp_next_expect(old(self).text(), old(self).position(), opt_token_view(expect)).res,
            ),
    {
        match expect {
            Some(want) => {
                let token = match self.next() {
                    Ok(t) => t,
                    Err(e) => {
                        return Err(e);
                    },
                };
                if token == want {
                    Ok(Some(token))
                } else {
                    Err(EasyDbError::Parse(msg_expected_token(&want, &token)))
                }
            },
            None => match self.peek() {
                Ok(Some(token)) => Err(EasyDbError::Parse(msg_unexpected_token(&token))),
                Ok(None) => Ok(None),
                Err(e) => Err(e),
            },
        }
    }

    /// Draws the next token and requires it to be an identifier.
    fn next_ident(&mut self) -> (r: EasyDbResult<String>)
        requires
            old(self).wf(),
        ensures
            final(self).wf(),
            final(self).text() == old(self).text(),
            final(self).position() == sp_next_ident(old(self).text(), old(self).position()).next,
            old(self).position() <= final(self).position(),
            ident_res_matches(r, sp_next_ident(old(self).text(), old(self).position()).res),
    {
        match self.next() {
            Ok(Token::Ident(name)) => Ok(name),
            Ok(token) => Err(EasyDbError::Parse(msg_expected_ident(&token))),
            Err(e) => Err(e),
        }
    }

    /// Parses one statement, consumes an optional trailing semicolon, and
    /// requires the end of the input: anything after the semicolon is a
    /// syntax error. The result is a function of the text alone (`sp_parse`).
    pub fn parse(&mut self) -> (r: EasyDbResult<Statement>)
        requires
            old(self).wf(),
        ensures
            final(self).wf(),
            final(self).text() == old(self).text(),
            stmt_res_matches(r, sp_parse(old(self).text(), old(self).position())),
    {
        let statement = match self.parse_statement() {
            Ok(st) => st,
            Err(e) => {
                return Err(e);
            },
        };
        let _ = self.next_if_token(Token::Semicolon);
        match self.next_expect(None) {
            Ok(_) => Ok(statement),
            Err(e) => Err(e),
        }
    }

    /// Dispatches on the first token without consuming it: only `CREATE` and
    /// `DROP` open a statement.
    fn parse_statement(&mut self) -> (r: EasyDbResult<Statement>)
        requires
            old(self).wf(),
        ensures
            final(self).wf(),
            final(self).text() == old(self).text(),
            final(self).position() == sp_parse_statement(old(self).text(), old(self).position()).next,
            old(self).position() <= final(self).position(),
            stmt_res_matches(r, sp_parse_statement(old(self).text(), old(self).position()).res),
    {
        match self.peek() {
            Ok(Some(Token::Keyword(Keyword::Create))) => self.parse_ddl(),
            Ok(Some(Token::Keyword(Keyword::Drop))) => self.parse_ddl(),
            Ok(Some(token)) => Err(EasyDbError::Parse(msg_unexpected_token(&token))),
            Ok(None) => Err(EasyDbError::Parse("Unexpected end of input".to_owned())),
            Err(e) => Err(e),
        }
    }

    /// Consumes `CREATE TABLE` or `DROP TABLE` and parses the rest.
    fn parse_ddl(&mut self) -> (r: EasyDbResult<Statement>)
        requires
            old(self).wf(),
        ensures
            final(self).wf(),
            final(self).text() == old(self).text(),
            final(self).position() == sp_parse_ddl(old(self).text(), old(self).position()).next,
            old(self).position() <= final(self).position(),
            stmt_res_matches(r, sp_parse_ddl(old(self).text(), old(self).position()).res),
    {
        match self.next() {
            Err(e) => Err(e),
            Ok(Token::Keyword(Keyword::Create)) => match self.next() {
                Err(e) => Err(e),
                Ok(Token::Keyword(Keyword::Table)) => self.parse_ddl_create_table(),
                Ok(token) => Err(EasyDbError::Parse(msg_unexpected_token(&token))),
            },
            Ok(Token::Keyword(Keyword::Drop)) => match self.next() {
                Err(e) => Err(e),
                Ok(Token::Keyword(Keyword::Table)) => self.parse_ddl_drop_table(),
                Ok(token) => Err(EasyDbError::Parse(msg_unexpected_token(&token))),
            },
            Ok(token) => Err(EasyDbError::Parse(msg_unexpected_token(&token))),
        }
    }

    /// Parses the comma-separated column list of a `CREATE TABLE` statement.
    fn parse_columns(&mut self) -> (r: EasyDbResult<Vec<Column>>)
        requires
            old(self).wf(),
        ensures
            final(self).wf(),
            final(self).text() == old(self).text(),
            final(self).position() == sp_parse_columns(
                old(self).text(),
                old(self).position(),
                Seq::empty(),
            ).next,
            old(self).position() <= final(self).position(),
            cols_res_matches(
                r,
                sp_parse_columns(old(self).text(), old(self).position(), Seq::empty()).res,
            ),
    {
        let ghost s = self.text();
        let ghost p0 = self.position();
        let mut columns: Vec<Column> = Vec::new();
        proof {
            lemma_wf_bounds(self.lexer);
            assert(cols_view(columns@) =~= Seq::<ColumnView>::empty());
        }
        loop
            invariant_except_break
                self.wf(),
                s == old(self).text(),
                p0 == old(self).position(),
                self.text() == s,
                p0 <= self.position() <= s.len(),
                sp_parse_columns(s, p0, Seq::empty()) == sp_parse_columns(
                    s,
                    self.position(),
                    cols_view(columns@),
                ),
            ensures
                self.wf(),
                self.text() == s,
                p0 <= self.position() <= s.len(),
                sp_parse_columns(s, p0, Seq::empty()).next == self.position(),
                (match sp_parse_columns(s, p0, Seq::empty()).res {
                    Ok(cv) => cv == cols_view(columns@),
                    Err(_) => false,
                }),
            decreases s.len() - self.position(),
        {
            let ghost i0 = self.position();
            let ghost acc0 = cols_view(columns@);
            let column = match self.parse_ddl_column() {
                Ok(c) => c,
                Err(e) => {
                    return Err(e);
                },
            };
            columns.push(column);
            proof {
                assert(cols_view(columns@) =~= acc0.push(columns@[columns@.len() - 1]@));
                lemma_wf_bounds(self.lexer);
            }
            let took = self.next_if_token(Token::Comma);
            proof {
                lemma_wf_bounds(self.lexer);
            }
            if took.is_none() {
                break;
            }
        }
        Ok(columns)
    }

    /// Parses a `CREATE TABLE` statement; its `CREATE TABLE` prefix has
    /// already been consumed.
    fn parse_ddl_create_table(&mut self) -> (r: EasyDbResult<Statement>)
        requires
            old(self).wf(),
        ensures
            final(self).wf(),
            final(self).text() == old(self).text(),
            final(self).position() == sp_parse_create_table(
                old(self).text(),
                old(self).position(),
            ).next,
            old(self).position() <= final(self).position(),
            stmt_res_matches(r, sp_parse_create_table(old(self).text(), old(self).position()).res),
    {
        let name = match self.next_ident() {
            Ok(n) => n,
            Err(e) => {
                return Err(e);
            },
        };
        match self.next_expect(Some(Token::OpenParen)) {
            Ok(_) => {},
            Err(e) => {
                return Err(e);
            },
        }
        let columns = match self.parse_columns() {
            Ok(cs) => cs,
            Err(e) => {
                return Err(e);
            },
        };
        match self.next_expect(Some(Token::CloseParen)) {
            Ok(_) => Ok(Statement::CreateTable { name, columns }),
            Err(e) => Err(e),
        }
    }

    /// Parses one column definition: name, type keyword, constraints.
    fn parse_ddl_column(&mut self) -> (r: EasyDbResult<Column>)
        requires
            old(self).wf(),
        ensures
            final(self).wf(),
            final(self).text() == old(self).text(),
            final(self).position() == sp_parse_column(old(self).text(), old(self).position()).next,
            old(self).position() <= final(self).position(),
            column_res_matches(r, sp_parse_column(old(self).text(), old(self).position()).res),
    {
        let ghost s = self.text();
        let ghost p0 = self.position();
        let name = match self.next_ident() {
            Ok(n) => n,
            Err(e) => {
                return Err(e);
            },
        };
        let datatype = match self.next() {
            Err(e) => {
                return Err(e);
            },
            Ok(Token::Keyword(Keyword::Bool)) => DataType::Boolean,
            Ok(Token::Keyword(Keyword::Boolean)) => DataType::Boolean,
            Ok(Token::Keyword(Keyword::Char)) => DataType::String,
            Ok(Token::Keyword(Keyword::Double)) => DataType::Float,
            Ok(Token::Keyword(Keyword::Float)) => DataType::Float,
            Ok(Token::Keyword(Keyword::Int)) => DataType::Integer,
            Ok(Token::Keyword(Keyword::Integer)) => DataType::Integer,
            Ok(Token::Keyword(Keyword::String)) => DataType::String,
            Ok(Token::Keyword(Keyword::Text)) => DataType::String,
            Ok(Token::Keyword(Keyword::Varchar)) => DataType::String,
            Ok(token) => {
                return Err(EasyDbError::Parse(msg_unexpected_token(&token)));
            },
        };
        let mut column = Column {
            name,
            datatype,
            primary_key: false,
            nullable: Nullability::Unspecified,
            unique: false,
            index: false,
            references: None,
        };
        let ghost cstart = self.position();
        let ghost col0 = column@;
        proof {
            lemma_wf_bounds(self.lexer);
        }
        assert(sp_parse_column(s, p0) == sp_column_constraints(s, cstart, col0));
        loop
            invariant_except_break
                self.wf(),
                s == old(self).text(),
                p0 == old(self).position(),
                self.text() == s,
                cstart <= self.position() <= s.len(),
                sp_parse_column(s, p0) == sp_column_constraints(s, cstart, col0),
                sp_column_constraints(s, cstart, col0) == sp_column_constraints(
                    s,
                    self.position(),
                    column@,
                ),
                p0 <= cstart,
            ensures
                self.wf(),
                self.text() == s,
                p0 <= self.position() <= s.len(),
                sp_parse_column(s, p0).next == self.position(),
                (match sp_parse_column(s, p0).res {
                    Ok(cv) => cv == column@,
                    Err(_) => false,
                }),
            decreases s.len() - self.position(),
        {
            let ghost i0 = self.position();
            match self.constraint_step(&mut column) {
                Ok(true) => {
                    proof {
                        lemma_wf_bounds(self.lexer);
                    }
                },
                Ok(false) => {
                    break;
                },
                Err(e) => {
                    return Err(e);
                },
            }
        }
        Ok(column)
    }

    /// Consumes one constraint keyword of a column definition and applies it;
    /// `Ok(false)` when no keyword follows, so the constraint loop ends.
    fn constraint_step(&mut self, column: &mut Column) -> (r: EasyDbResult<bool>)
        requires
            old(self).wf(),
        ensures
            final(self).wf(),
            final(self).text() == old(self).text(),
            final(self).position() == sp_constraint_step(
                old(self).text(),
                old(self).position(),
                old(column)@,
            ).next,
            old(self).position() <= final(self).position(),
            (match (r, sp_constraint_step(old(self).text(), old(self).position(), old(column)@).res) {
                (Ok(b), Ok(Some(cv))) => b && final(column)@ == cv
                    && old(self).position() < final(self).position(),
                (Ok(b), Ok(None)) => !b && final(column)@ == old(column)@
                    && final(self).position() == old(self).position(),
                (Err(er), Err(e)) => er@ == e,
                _ => false,
            }),
    {
        match self.next_if_keyword() {
            None => Ok(false),
            Some(Token::Keyword(kw)) => match kw {
                Keyword::Primary => match self.next_expect(Some(Token::Keyword(Keyword::Key))) {
                    Err(e) => Err(e),
                    Ok(_) => {
                        column.primary_key = true;
                        Ok(true)
                    },
                },
                Keyword::Null => {
                    if column.nullable == Nullability::NotNullable {
                        Err(EasyDbError::Value(msg_nullability_conflict(column.name.as_str())))
                    } else {
                        column.nullable = Nullability::Nullable;
                        Ok(true)
                    }
                },
                Keyword::Not => match self.next_expect(Some(Token::Keyword(Keyword::Null))) {
                    Err(e) => Err(e),
                    Ok(_) => {
                        if column.nullable == Nullability::Nullable {
                            Err(EasyDbError::Value(msg_nullability_conflict(column.name.as_str())))
                        } else {
                            column.nullable = Nullability::NotNullable;
                            Ok(true)
                        }
                    },
                },
                Keyword::Unique => {
                    column.unique = true;
                    Ok(true)
                },
                Keyword::Index => {
                    column.index = true;
                    Ok(true)
                },
                Keyword::References => match self.next_ident() {
                    Ok(table) => {
                        column.references = Some(table);
                        Ok(true)
                    },
                    Err(e) => Err(e),
                },
                other => Err(EasyDbError::Parse(msg_unexpected_keyword(other))),
            },
            Some(_) => Err(EasyDbError::Internal("keyword token expected".to_owned())),
        }
    }

    /// Parses a `DROP TABLE` statement; its `DROP TABLE` prefix has already
    /// been parsed and consumed.
    fn parse_ddl_drop_table(&mut self) -> (r: EasyDbResult<Statement>)
        requires
            old(self).wf(),
        ensures
            final(self).wf(),
            final(self).text() == old(self).text(),
            final(self).position() == sp_parse_drop_table(old(self).text(), old(self).position()).next,
            old(self).position() <= final(self).position(),
            stmt_res_matches(r, sp_parse_drop_table(old(self).text(), old(self).position()).res),
    {
        match self.next_ident() {
            Ok(name) => Ok(Statement::DropTable(name)),
            Err(e) => Err(e),
        }
    }
}

// ---------------------------------------------------------------------------
// Laws of the grammar
// ---------------------------------------------------------------------------

/// Columns keep their source order: the column-list loop only appends, so
/// the columns already gathered stand unchanged, in order, before every
/// column parsed after them, and at least one more is always added.
pub proof fn lemma_sp_parse_columns_extends(s: Seq<char>, i: int, acc: Seq<ColumnView>)
    ensures
        (match sp_parse_columns(s, i, acc).res {
            Ok(cols) => cols.len() > acc.len() && cols.subrange(0, acc.len() as int) == acc,
            Err(_) => true,
        }),
    decreases s.len() - i,
{
    let c = sp_parse_column(s, i);
    match c.res {
        Err(_) => {},
        Ok(col) => {
            let (j, took) = sp_next_if_token(s, c.next, TokenView::Comma);
            if !took {
                assert(acc.push(col).subrange(0, acc.len() as int) =~= acc);
            } else if i < j <= s.len() {
                lemma_sp_parse_columns_extends(s, j, acc.push(col));
                match sp_parse_columns(s, j, acc.push(col)).res {
                    Ok(cols) => {
                        assert(cols.subrange(0, acc.len() as int) =~= acc) by {
                            let ext = cols.subrange(0, acc.len() as int + 1);
                            assert(ext == acc.push(col));
                            assert(forall|k: int|
                                0 <= k < acc.len() ==> cols[k] == ext[k] && ext[k] == acc[k]);
                        }
                    },
                    Err(_) => {},
                }
            }
        },
    }
}

/// A `CREATE TABLE` body parses to a `CreateTable` statement with at least
/// one column.
proof fn lemma_sp_create_table_shape(s: Seq<char>, i: int)
    ensures
        (match sp_parse_create_table(s, i).res {
            Ok(st) => st matches StatementView::CreateTable { columns, .. } && columns.len() >= 1,
            Err(_) => true,
        }),
{
    let n = sp_next_ident(s, i);
    if n.res is Ok {
        let p = sp_next_expect(s, n.next, Some(TokenView::OpenParen));
        if p.res is Ok {
            lemma_sp_parse_columns_extends(s, p.next, Seq::empty());
        }
    }
}

/// A parse can never return an empty `CREATE TABLE`: the grammar's column
/// loop parses at least one column, so every successfully parsed
/// `CreateTable` statement carries one or more columns.
pub proof fn lemma_create_table_has_columns(s: Seq<char>, i: int)
    ensures
        (match sp_parse(s, i) {
            Ok(StatementView::CreateTable { columns, .. }) => columns.len() >= 1,
            _ => true,
        }),
{
    let st1 = sp_next(s, i);
    match st1.res {
        Ok(t) => {
            let st2 = sp_next(s, st1.next);
            if st2.res is Ok {
                lemma_sp_create_table_shape(s, st2.next);
            }
        },
        Err(_) => {},
    }
}

} // verus!
