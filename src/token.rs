//! Tokens, the state carried between lines, and the lexical error.
use vstd::prelude::*;

verus! {

/// The five classes of token.
#[derive(Clone, Copy, Debug, PartialEq, Eq, Structural)]
pub enum TokenKind {
    Keyword,
    Symbol,
    Identifier,
    IntegerConstant,
    StringConstant,
}

/// A classified lexical unit. For a symbol, `text` is the raw character.
#[derive(Clone, Debug, PartialEq, Eq)]
pub struct Token {
    pub kind: TokenKind,
    pub text: String,
}

/// The mathematical value of a [`Token`].
pub struct TokenModel {
    pub kind: TokenKind,
    pub text: Seq<char>,
}

impl View for Token {
    type V = TokenModel;

    open spec fn view(&self) -> TokenModel {
        TokenModel { kind: self.kind, text: self.text@ }
    }
}

/// The models of a sequence of tokens, in order.
pub open spec fn tokens_model(ts: Seq<Token>) -> Seq<TokenModel> {
    ts.map_values(|t: Token| t@)
}

/// The state carried from one line to the next.
#[derive(Clone, Debug, PartialEq, Eq)]
pub struct ScanState {
    /// Inside a `/* ... */` span not yet closed.
    pub in_block_comment: bool,
    /// Inside a `"..."` span not yet closed.
    pub in_string_literal: bool,
    /// What the open string literal holds so far.
    pub string_buffer: String,
}

/// The mathematical value of a [`ScanState`].
pub struct StateModel {
    pub in_block_comment: bool,
    pub in_string_literal: bool,
    pub string_buffer: Seq<char>,
}

impl View for ScanState {
    type V = StateModel;

    open spec fn view(&self) -> StateModel {
        StateModel {
            in_block_comment: self.in_block_comment,
            in_string_literal: self.in_string_literal,
            string_buffer: self.string_buffer@,
        }
    }
}

/// The state at the start of a file: outside comments and strings.
pub open spec fn fresh_state() -> StateModel {
    StateModel { in_block_comment: false, in_string_literal: false, string_buffer: Seq::empty() }
}

impl StateModel {
    /// A block comment and a string literal are never open together, and
    /// the buffer holds characters only while a string literal is open.
    pub open spec fn wf(self) -> bool {
        &&& !(self.in_block_comment && self.in_string_literal)
        &&& (!self.in_string_literal ==> self.string_buffer.len() == 0)
    }
}

impl ScanState {
    /// The state at the start of a file.
    pub fn new() -> (r: ScanState)
        ensures
            r@ == fresh_state(),
            r@.wf(),
    {
        ScanState { in_block_comment: false, in_string_literal: false, string_buffer: String::new() }
    }
}

/// The one lexical error: a word that starts with a digit and is not a number.
#[derive(Clone, Debug, PartialEq, Eq)]
pub enum LexError {
    IdentifierStartsWithDigit { word: String },
}

impl LexError {
    /// The offending word.
    pub open spec fn word_model(self) -> Seq<char> {
        match self {
            LexError::IdentifierStartsWithDigit { word } => word@,
        }
    }
}

} // verus!
