//! A one-way translator for foreign-function-interface declaration headers:
//! it maps an abstract syntax model of top-level declarations (constants,
//! type aliases, imports, foreign-function blocks, and two declaration
//! macros) to equivalent Zig declaration text, one item at a time.

pub mod ast;
pub mod driver;
pub mod foreign;
pub mod imports;
pub mod macros;
pub mod mapper;
pub mod strutil;
