use easydb::error::EasyDbError;
use easydb::lexer::{Keyword, Lexer, Token};

/// Collects the items the lexer yields, stopping at the end of the input or
/// at the first error.
fn lex_all(input: &str) -> Vec<Result<Token, EasyDbError>> {
    let mut lexer = Lexer::new(input);
    let mut items = Vec::new();
    loop {
        match lexer.next() {
            None => break,
            Some(Ok(t)) => items.push(Ok(t)),
            Some(Err(e)) => {
                items.push(Err(e));
                break;
            }
        }
    }
    items
}

#[test]
fn number_with_exponent_is_one_token() {
    let items = lex_all("1.5e-3");
    assert_eq!(items, vec![Ok(Token::Number("1.5e-3".to_string()))]);
}

#[test]
fn number_forms() {
    assert_eq!(lex_all("0"), vec![Ok(Token::Number("0".to_string()))]);
    assert_eq!(lex_all("3.14"), vec![Ok(Token::Number("3.14".to_string()))]);
    assert_eq!(lex_all("2e10"), vec![Ok(Token::Number("2e10".to_string()))]);
    assert_eq!(lex_all("7E+2"), vec![Ok(Token::Number("7E+2".to_string()))]);
}

#[test]
fn unexpected_character_is_parse_error() {
    let items = lex_all("@");
    assert_eq!(
        items,
        vec![Err(EasyDbError::Parse("Unexpected character @".to_string()))]
    );
}

#[test]
fn unexpected_character_after_tokens() {
    let items = lex_all("a @");
    assert_eq!(
        items,
        vec![
            Ok(Token::Ident("a".to_string())),
            Err(EasyDbError::Parse("Unexpected character @".to_string())),
        ]
    );
}

#[test]
fn lexing_is_deterministic() {
    let text = "CREATE TABLE t (a INT, b STRING 'it''s' 1.5e-3 != <> <= >=);";
    let first = lex_all(text);
    let second = lex_all(text);
    assert_eq!(first, second);
}

#[test]
fn keywords_match_case_insensitively() {
    assert_eq!(Keyword::from_str("create"), Some(Keyword::Create));
    assert_eq!(Keyword::from_str("CREATE"), Some(Keyword::Create));
    assert_eq!(Keyword::from_str("CrEaTe"), Some(Keyword::Create));
    assert_eq!(Keyword::from_str("integer"), Some(Keyword::Integer));
    assert_eq!(Keyword::from_str("varchar"), Some(Keyword::Varchar));
    assert_eq!(Keyword::from_str("references"), Some(Keyword::References));
    assert_eq!(Keyword::from_str("and"), Some(Keyword::And));
    assert_eq!(Keyword::from_str("nothing"), None);
    assert_eq!(Keyword::from_str(""), None);
    assert_eq!(Keyword::from_str("CREATES"), None);
}

#[test]
fn keyword_round_trip() {
    let all = [
        Keyword::And,
        Keyword::Create,
        Keyword::Drop,
        Keyword::Table,
        Keyword::Bool,
        Keyword::Boolean,
        Keyword::Char,
        Keyword::Double,
        Keyword::Float,
        Keyword::Int,
        Keyword::Integer,
        Keyword::String,
        Keyword::Text,
        Keyword::Varchar,
        Keyword::Primary,
        Keyword::Key,
        Keyword::Null,
        Keyword::Not,
        Keyword::Default,
        Keyword::Unique,
        Keyword::Index,
        Keyword::References,
    ];
    for k in all {
        assert_eq!(Keyword::from_str(k.to_str()), Some(k));
    }
}

#[test]
fn keyword_to_str_is_uppercase() {
    assert_eq!(Keyword::Create.to_str(), "CREATE");
    assert_eq!(Keyword::References.to_str(), "REFERENCES");
    assert_eq!(Keyword::Bool.to_str(), "BOOL");
}

#[test]
fn identifier_with_digits_and_underscore() {
    let items = lex_all("foo_1 bar2");
    assert_eq!(
        items,
        vec![
            Ok(Token::Ident("foo_1".to_string())),
            Ok(Token::Ident("bar2".to_string())),
        ]
    );
}

#[test]
fn keyword_tokens_from_text() {
    let items = lex_all("create TABLE t");
    assert_eq!(
        items,
        vec![
            Ok(Token::Keyword(Keyword::Create)),
            Ok(Token::Keyword(Keyword::Table)),
            Ok(Token::Ident("t".to_string())),
        ]
    );
}

#[test]
fn string_literal_with_doubled_quote() {
    let items = lex_all("'it''s'");
    assert_eq!(items, vec![Ok(Token::String("it's".to_string()))]);
}

#[test]
fn empty_string_literal() {
    let items = lex_all("''");
    assert_eq!(items, vec![Ok(Token::String(String::new()))]);
}

#[test]
fn unterminated_string_is_parse_error() {
    let items = lex_all("'abc");
    assert_eq!(
        items,
        vec![Err(EasyDbError::Parse(
            "Unexpected end of string literal".to_string()
        ))]
    );
}

#[test]
fn symbols_single_and_combined() {
    let items = lex_all(". = > < + - * / ^ % ! ? ( ) , ; != <> <= >=");
    assert_eq!(
        items,
        vec![
            Ok(Token::Period),
            Ok(Token::Equal),
            Ok(Token::GreaterThan),
            Ok(Token::LessThan),
            Ok(Token::Plus),
            Ok(Token::Minus),
            Ok(Token::Asterisk),
            Ok(Token::Slash),
            Ok(Token::Caret),
            Ok(Token::Percent),
            Ok(Token::Exclamation),
            Ok(Token::Question),
            Ok(Token::OpenParen),
            Ok(Token::CloseParen),
            Ok(Token::Comma),
            Ok(Token::Semicolon),
            Ok(Token::NotEqual),
            Ok(Token::LessOrGreaterThan),
            Ok(Token::LessThanOrEqual),
            Ok(Token::GreaterThanOrEqual),
        ]
    );
}

#[test]
fn combined_symbols_without_spaces() {
    let items = lex_all("!=<><=>=!");
    assert_eq!(
        items,
        vec![
            Ok(Token::NotEqual),
            Ok(Token::LessOrGreaterThan),
            Ok(Token::LessThanOrEqual),
            Ok(Token::GreaterThanOrEqual),
            Ok(Token::Exclamation),
        ]
    );
}

#[test]
fn whitespace_only_input_yields_nothing() {
    assert_eq!(lex_all("  \t\r\n "), Vec::new());
    assert_eq!(lex_all(""), Vec::new());
}

#[test]
fn token_display_forms() {
    assert_eq!(Token::Number("1.5".to_string()).display(), "1.5");
    assert_eq!(Token::Ident("abc".to_string()).display(), "abc");
    assert_eq!(Token::Keyword(Keyword::Create).display(), "CREATE");
    assert_eq!(Token::NotEqual.display(), "!=");
    assert_eq!(Token::OpenParen.display(), "(");
}

#[test]
fn token_from_keyword() {
    let t: Token = Keyword::Key.into();
    assert_eq!(t, Token::Keyword(Keyword::Key));
}
