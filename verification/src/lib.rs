//! A verified front end for a small data-definition language: a lexer that
//! turns text into tokens and a recursive-descent parser that builds a
//! validated `CREATE TABLE` / `DROP TABLE` statement tree.
//!
//! Every executable function is specified against a mathematical model of the
//! same process over `Seq<char>`, so the result of lexing and parsing is a
//! function of the input text alone.

pub mod ast;
pub mod error;
pub mod lexer;
