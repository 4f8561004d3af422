//! A lexical analyzer for a small Java-like teaching language.
//!
//! Source text is fed one line at a time through [`scan_line`], which threads
//! a [`ScanState`] across lines and yields classified [`Token`]s. Every
//! executable function carries a contract over the mathematical model given
//! by the spec functions of [`scanner`], and Verus proves the code against it.
pub mod chars;
pub mod classify;
pub mod laws;
pub mod render;
pub mod scanner;
pub mod token;

pub use classify::{is_delimiter, is_keyword, is_symbol};
pub use render::{escape_symbol, render_token, render_tokens};
pub use scanner::{scan_line, scan_lines};
pub use token::{LexError, ScanState, Token, TokenKind};
