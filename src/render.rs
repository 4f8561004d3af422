//! The markup rendering of tokens: one tagged record per token, inside a
//! `<tokens>` envelope.
use vstd::prelude::*;
use vstd::string::StringExecFns;
use crate::chars::push_char;
use crate::token::{tokens_model, Token, TokenKind, TokenModel};

verus! {

/// The markup tag of each kind of token.
pub open spec fn tag_name(k: TokenKind) -> Seq<char> {
    match k {
        TokenKind::Keyword => "keyword"@,
        TokenKind::Symbol => "symbol"@,
        TokenKind::Identifier => "identifier"@,
        TokenKind::IntegerConstant => "integerConstant"@,
        TokenKind::StringConstant => "stringConstant"@,
    }
}

/// How a symbol character is written in markup: `<`, `>`, `&` and `"` as
/// entities, every other character as itself.
pub open spec fn symbol_markup(c: char) -> Seq<char> {
    if c == '<' {
        "&lt;"@
    } else if c == '>' {
        "&gt;"@
    } else if c == '&' {
        "&amp;"@
    } else if c == '"' {
        "&quot;"@
    } else {
        seq![c]
    }
}

/// The markup of each character of `s`, in order.
pub open spec fn escaped(s: Seq<char>) -> Seq<char>
    decreases s.len(),
{
    if s.len() == 0 {
        Seq::empty()
    } else {
        escaped(s.drop_last()) + symbol_markup(s.last())
    }
}

/// What stands between the tags of a token's record: a symbol escaped, any
/// other text as it is.
pub open spec fn token_body(t: TokenModel) -> Seq<char> {
    if t.kind == TokenKind::Symbol {
        escaped(t.text)
    } else {
        t.text
    }
}

/// The record of one token, e.g. `<keyword> class </keyword>` and a newline.
pub open spec fn token_record(t: TokenModel) -> Seq<char> {
    "<"@ + tag_name(t.kind) + "> "@ + token_body(t) + " </"@ + tag_name(t.kind) + ">\n"@
}

/// The records of `ts`, one after another.
pub open spec fn records(ts: Seq<TokenModel>) -> Seq<char>
    decreases ts.len(),
{
    if ts.len() == 0 {
        Seq::empty()
    } else {
        records(ts.drop_last()) + token_record(ts.last())
    }
}

/// The whole document for a file's tokens.
pub open spec fn document(ts: Seq<TokenModel>) -> Seq<char> {
    "<tokens>\n"@ + records(ts) + "</tokens>\n"@
}

/// Appends the tag name of `k` to `s`.
fn push_tag(s: &mut String, k: TokenKind)
    ensures
        final(s)@ == old(s)@ + tag_name(k),
{
    match k {
        TokenKind::Keyword => s.append("keyword"),
        TokenKind::Symbol => s.append("symbol"),
        TokenKind::Identifier => s.append("identifier"),
        TokenKind::IntegerConstant => s.append("integerConstant"),
        TokenKind::StringConstant => s.append("stringConstant"),
    }
}

/// Appends the markup of the symbol character `c` to `s`.
fn push_symbol(s: &mut String, c: char)
    ensures
        final(s)@ == old(s)@ + symbol_markup(c),
{
    if c == '<' {
        s.append("&lt;");
    } else if c == '>' {
        s.append("&gt;");
    } else if c == '&' {
        s.append("&amp;");
    } else if c == '"' {
        s.append("&quot;");
    } else {
        push_char(s, c);
        assert(old(s)@.push(c) =~= old(s)@ + seq![c]);
    }
}

/// The markup of one symbol character.
pub fn escape_symbol(c: char) -> (r: String)
    ensures
        r@ == symbol_markup(c),
{
    let mut s = String::new();
    push_symbol(&mut s, c);
    assert(s@ =~= symbol_markup(c));
    s
}

/// Appends the record of `t` to `s`.
fn push_record(s: &mut String, t: &Token)
    ensures
        final(s)@ == old(s)@ + token_record(t@),
{
    let ghost start = s@;
    s.append("<");
    push_tag(s, t.kind);
    s.append("> ");
    let ghost before_body = s@;
    if t.kind == TokenKind::Symbol {
        let cs = crate::chars::chars_of(t.text.as_str());
        let mut i: usize = 0;
        while i < cs.len()
            invariant
                cs@ == t.text@,
                i <= cs@.len(),
                s@ == before_body + escaped(cs@.subrange(0, i as int)),
            decreases cs@.len() - i,
        {
            push_symbol(s, cs[i]);
            assert(cs@.subrange(0, i + 1).drop_last() =~= cs@.subrange(0, i as int));
            assert(s@ =~= before_body + escaped(cs@.subrange(0, i + 1)));
            i = i + 1;
        }
        assert(cs@.subrange(0, cs@.len() as int) =~= cs@);
    } else {
        s.append(t.text.as_str());
    }
    assert(s@ == before_body + token_body(t@));
    s.append(" </");
    push_tag(s, t.kind);
    s.append(">\n");
    assert(s@ =~= start + token_record(t@));
}

/// The record of one token, e.g. `<symbol> &lt; </symbol>` and a newline.
pub fn render_token(t: &Token) -> (r: String)
    ensures
        r@ == token_record(t@),
{
    let mut s = String::new();
    push_record(&mut s, t);
    assert(s@ =~= token_record(t@));
    s
}

/// The document for `tokens`: their records in order inside a `<tokens>`
/// envelope.
pub fn render_tokens(tokens: &[Token]) -> (r: String)
    ensures
        r@ == document(tokens_model(tokens@)),
{
    let mut s = String::new();
    s.append("<tokens>\n");
    let ghost head = s@;
    let mut i: usize = 0;
    while i < tokens.len()
        invariant
            i <= tokens@.len(),
            s@ == head + records(tokens_model(tokens@.subrange(0, i as int))),
        decreases tokens@.len() - i,
    {
        push_record(&mut s, &tokens[i]);
        assert(tokens_model(tokens@.subrange(0, i + 1)).drop_last()
            =~= tokens_model(tokens@.subrange(0, i as int)));
        assert(s@ =~= head + records(tokens_model(tokens@.subrange(0, i + 1))));
        i = i + 1;
    }
    assert(tokens@.subrange(0, tokens@.len() as int) =~= tokens@);
    s.append("</tokens>\n");
    assert(s@ =~= document(tokens_model(tokens@)));
    s
}

} // verus!
