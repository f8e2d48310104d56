use easydb::ast::{Column, DataType, Nullability, Parser, Statement};
use easydb::error::EasyDbError;

fn parse(query: &str) -> Result<Statement, EasyDbError> {
    let mut parser = Parser::new(query);
    parser.parse()
}

fn plain_column(name: &str, datatype: DataType) -> Column {
    Column {
        name: name.to_string(),
        datatype,
        primary_key: false,
        nullable: Nullability::Unspecified,
        unique: false,
        index: false,
        references: None,
    }
}

#[test]
fn drop_table_parses() {
    assert_eq!(
        parse("DROP TABLE t"),
        Ok(Statement::DropTable("t".to_string()))
    );
}

#[test]
fn drop_table_with_semicolon() {
    assert_eq!(
        parse("DROP TABLE t;"),
        Ok(Statement::DropTable("t".to_string()))
    );
}

#[test]
fn drop_table_trailing_garbage_is_parse_error() {
    assert_eq!(
        parse("DROP TABLE t EXTRA"),
        Err(EasyDbError::Parse("Unexpected token EXTRA".to_string()))
    );
}

#[test]
fn trailing_garbage_after_semicolon_is_parse_error() {
    assert_eq!(
        parse("DROP TABLE t; EXTRA"),
        Err(EasyDbError::Parse("Unexpected token EXTRA".to_string()))
    );
}

#[test]
fn create_table_single_column() {
    assert_eq!(
        parse("CREATE TABLE t (a INT)"),
        Ok(Statement::CreateTable {
            name: "t".to_string(),
            columns: vec![plain_column("a", DataType::Integer)],
        })
    );
}

#[test]
fn create_table_columns_in_source_order() {
    assert_eq!(
        parse("CREATE TABLE movies (id INTEGER, title STRING, released BOOL)"),
        Ok(Statement::CreateTable {
            name: "movies".to_string(),
            columns: vec![
                plain_column("id", DataType::Integer),
                plain_column("title", DataType::String),
                plain_column("released", DataType::Boolean),
            ],
        })
    );
}

#[test]
fn create_table_datatype_keywords_collapse() {
    let result = parse(
        "CREATE TABLE t (a BOOL, b BOOLEAN, c CHAR, d DOUBLE, e FLOAT, f INT, \
         g INTEGER, h STRING, i TEXT, j VARCHAR)",
    );
    let expected = vec![
        plain_column("a", DataType::Boolean),
        plain_column("b", DataType::Boolean),
        plain_column("c", DataType::String),
        plain_column("d", DataType::Float),
        plain_column("e", DataType::Float),
        plain_column("f", DataType::Integer),
        plain_column("g", DataType::Integer),
        plain_column("h", DataType::String),
        plain_column("i", DataType::String),
        plain_column("j", DataType::String),
    ];
    assert_eq!(
        result,
        Ok(Statement::CreateTable {
            name: "t".to_string(),
            columns: expected,
        })
    );
}

#[test]
fn create_table_constraints_combo() {
    let result = parse("CREATE TABLE t (a INT PRIMARY KEY, b STRING UNIQUE INDEX REFERENCES other)");
    let mut a = plain_column("a", DataType::Integer);
    a.primary_key = true;
    let mut b = plain_column("b", DataType::String);
    b.unique = true;
    b.index = true;
    b.references = Some("other".to_string());
    assert_eq!(
        result,
        Ok(Statement::CreateTable {
            name: "t".to_string(),
            columns: vec![a, b],
        })
    );
}

#[test]
fn nullability_constraints_set_the_tri_state() {
    let result = parse("CREATE TABLE t (a INT NULL, b INT NOT NULL, c INT)");
    let mut a = plain_column("a", DataType::Integer);
    a.nullable = Nullability::Nullable;
    let mut b = plain_column("b", DataType::Integer);
    b.nullable = Nullability::NotNullable;
    let c = plain_column("c", DataType::Integer);
    assert_eq!(
        result,
        Ok(Statement::CreateTable {
            name: "t".to_string(),
            columns: vec![a, b, c],
        })
    );
}

#[test]
fn not_null_then_null_is_value_error() {
    assert_eq!(
        parse("CREATE TABLE t (a INT NOT NULL NULL)"),
        Err(EasyDbError::Value(
            "Column a can't be both not nullable and nullable".to_string()
        ))
    );
}

#[test]
fn null_then_not_null_is_value_error() {
    assert_eq!(
        parse("CREATE TABLE t (a INT NULL NOT NULL)"),
        Err(EasyDbError::Value(
            "Column a can't be both not nullable and nullable".to_string()
        ))
    );
}

#[test]
fn repeated_null_is_not_a_conflict() {
    let result = parse("CREATE TABLE t (a INT NULL NULL)");
    let mut a = plain_column("a", DataType::Integer);
    a.nullable = Nullability::Nullable;
    assert_eq!(
        result,
        Ok(Statement::CreateTable {
            name: "t".to_string(),
            columns: vec![a],
        })
    );
}

#[test]
fn zero_columns_is_rejected() {
    assert_eq!(
        parse("CREATE TABLE t ()"),
        Err(EasyDbError::Parse("Expected identifier, got )".to_string()))
    );
}

#[test]
fn unterminated_create_reports_end_of_input() {
    assert_eq!(
        parse("CREATE TABLE t (a INT"),
        Err(EasyDbError::Parse("Unexpected end of input".to_string()))
    );
}

#[test]
fn empty_input_reports_end_of_input() {
    assert_eq!(
        parse(""),
        Err(EasyDbError::Parse("Unexpected end of input".to_string()))
    );
}

#[test]
fn statement_must_start_with_create_or_drop() {
    assert_eq!(
        parse("SELECT"),
        Err(EasyDbError::Parse("Unexpected token SELECT".to_string()))
    );
    assert_eq!(
        parse("1"),
        Err(EasyDbError::Parse("Unexpected token 1".to_string()))
    );
    assert_eq!(
        parse("("),
        Err(EasyDbError::Parse("Unexpected token (".to_string()))
    );
}

#[test]
fn create_without_table_is_parse_error() {
    assert_eq!(
        parse("CREATE INDEX"),
        Err(EasyDbError::Parse("Unexpected token INDEX".to_string()))
    );
}

#[test]
fn missing_open_paren_is_parse_error() {
    assert_eq!(
        parse("CREATE TABLE t a INT)"),
        Err(EasyDbError::Parse("Expected token (, found a".to_string()))
    );
}

#[test]
fn primary_without_key_is_parse_error() {
    assert_eq!(
        parse("CREATE TABLE t (a INT PRIMARY UNIQUE)"),
        Err(EasyDbError::Parse(
            "Expected token KEY, found UNIQUE".to_string()
        ))
    );
}

#[test]
fn default_keyword_is_not_supported() {
    assert_eq!(
        parse("CREATE TABLE t (a INT DEFAULT)"),
        Err(EasyDbError::Parse("Unexpected keyword DEFAULT".to_string()))
    );
}

#[test]
fn bad_character_surfaces_through_parse() {
    assert_eq!(
        parse("CREATE TABLE t (a INT @)"),
        Err(EasyDbError::Parse("Unexpected character @".to_string()))
    );
}

#[test]
fn references_needs_an_identifier() {
    assert_eq!(
        parse("CREATE TABLE t (a INT REFERENCES )"),
        Err(EasyDbError::Parse("Expected identifier, got )".to_string()))
    );
}

#[test]
fn parsing_twice_gives_the_same_result() {
    let text = "CREATE TABLE t (a INT PRIMARY KEY, b STRING NULL)";
    assert_eq!(parse(text), parse(text));
}
