//! The fixed tables of the language: its symbols, delimiters and keywords.
use vstd::prelude::*;
use crate::chars::{chars_of, same_chars};

verus! {

/// The punctuation and operator characters of the language.
pub open spec fn symbol_char(c: char) -> bool {
    c == '{'
        || c == '}'
        || c == '('
        || c == ')'
        || c == '['
        || c == ']'
        || c == '.'
        || c == ','
        || c == ';'
        || c == '+'
        || c == '-'
        || c == '*'
        || c == '/'
        || c == '&'
        || c == '|'
        || c == '<'
        || c == '>'
        || c == '='
        || c == '~'
}

/// Characters that end an identifier, keyword or number: the symbols and
/// whitespace (space, tab, newline).
pub open spec fn delimiter_char(c: char) -> bool {
    symbol_char(c) || c == ' ' || c == '\t' || c == '\n'
}

/// The reserved words of the language; membership is exact and case-sensitive.
pub open spec fn keyword_word(w: Seq<char>) -> bool {
    w == seq!['c', 'l', 'a', 's', 's']
        || w == seq!['c', 'o', 'n', 's', 't', 'r', 'u', 'c', 't', 'o', 'r']
        || w == seq!['f', 'u', 'n', 'c', 't', 'i', 'o', 'n']
        || w == seq!['m', 'e', 't', 'h', 'o', 'd']
        || w == seq!['i', 'n', 't']
        || w == seq!['b', 'o', 'o', 'l', 'e', 'a', 'n']
        || w == seq!['c', 'h', 'a', 'r']
        || w == seq!['v', 'o', 'i', 'd']
        || w == seq!['v', 'a', 'r']
        || w == seq!['s', 't', 'a', 't', 'i', 'c']
        || w == seq!['f', 'i', 'e', 'l', 'd']
        || w == seq!['l', 'e', 't']
        || w == seq!['d', 'o']
        || w == seq!['i', 'f']
        || w == seq!['e', 'l', 's', 'e']
        || w == seq!['w', 'h', 'i', 'l', 'e']
        || w == seq!['r', 'e', 't', 'u', 'r', 'n']
        || w == seq!['t', 'r', 'u', 'e']
        || w == seq!['f', 'a', 'l', 's', 'e']
        || w == seq!['n', 'u', 'l', 'l']
        || w == seq!['t', 'h', 'i', 's']
}

/// Whether `c` is one of the language's symbol characters.
pub fn is_symbol(c: char) -> (r: bool)
    ensures
        r == symbol_char(c),
{
    c == '{'
        || c == '}'
        || c == '('
        || c == ')'
        || c == '['
        || c == ']'
        || c == '.'
        || c == ','
        || c == ';'
        || c == '+'
        || c == '-'
        || c == '*'
        || c == '/'
        || c == '&'
        || c == '|'
        || c == '<'
        || c == '>'
        || c == '='
        || c == '~'
}

/// Whether `c` ends an identifier, keyword or number.
pub fn is_delimiter(c: char) -> (r: bool)
    ensures
        r == delimiter_char(c),
{
    is_symbol(c) || c == ' ' || c == '\n' || c == '\t'
}

/// Whether the characters of `w` form a keyword.
pub fn is_keyword_chars(w: &[char]) -> (r: bool)
    ensures
        r == keyword_word(w@),
{
    same_chars(w, &['c', 'l', 'a', 's', 's'])
        || same_chars(w, &['c', 'o', 'n', 's', 't', 'r', 'u', 'c', 't', 'o', 'r'])
        || same_chars(w, &['f', 'u', 'n', 'c', 't', 'i', 'o', 'n'])
        || same_chars(w, &['m', 'e', 't', 'h', 'o', 'd'])
        || same_chars(w, &['i', 'n', 't'])
        || same_chars(w, &['b', 'o', 'o', 'l', 'e', 'a', 'n'])
        || same_chars(w, &['c', 'h', 'a', 'r'])
        || same_chars(w, &['v', 'o', 'i', 'd'])
        || same_chars(w, &['v', 'a', 'r'])
        || same_chars(w, &['s', 't', 'a', 't', 'i', 'c'])
        || same_chars(w, &['f', 'i', 'e', 'l', 'd'])
        || same_chars(w, &['l', 'e', 't'])
        || same_chars(w, &['d', 'o'])
        || same_chars(w, &['i', 'f'])
        || same_chars(w, &['e', 'l', 's', 'e'])
        || same_chars(w, &['w', 'h', 'i', 'l', 'e'])
        || same_chars(w, &['r', 'e', 't', 'u', 'r', 'n'])
        || same_chars(w, &['t', 'r', 'u', 'e'])
        || same_chars(w, &['f', 'a', 'l', 's', 'e'])
        || same_chars(w, &['n', 'u', 'l', 'l'])
        || same_chars(w, &['t', 'h', 'i', 's'])
}

/// Whether `word` is a keyword.
pub fn is_keyword(word: &str) -> (r: bool)
    ensures
        r == keyword_word(word@),
{
    let w = chars_of(word);
    is_keyword_chars(w.as_slice())
}

} // verus!
