//! Source languages.
pub mod common;
pub mod facts;
pub mod lexer;
pub mod paths;
pub mod rust;
pub mod spacing;
pub mod syntax;
pub mod typescript;
