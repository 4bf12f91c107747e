//! The built-in matching strategies, and the closed choice of them that a
//! lexer drives.

pub mod choice;
pub mod constant;
pub mod identifier;
pub mod int_literal;
pub mod string_literal;
pub mod whitespace;
