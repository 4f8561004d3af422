use jack_tokenizer::{
    escape_symbol, is_delimiter, is_keyword, is_symbol, render_token, render_tokens, scan_line,
    scan_lines, LexError, ScanState, Token, TokenKind,
};

fn tok(kind: TokenKind, text: &str) -> Token {
    Token { kind, text: text.to_string() }
}

fn scan_ok(state: ScanState, line: &str) -> (ScanState, Vec<Token>) {
    scan_line(state, line).expect("line should scan")
}

fn lines(src: &[&str]) -> Vec<String> {
    src.iter().map(|s| s.to_string()).collect()
}

#[test]
fn plain_words_one_token_per_run() {
    let (st, toks) = scan_ok(ScanState::new(), "while  foo\t42 class x9");
    assert_eq!(
        toks,
        vec![
            tok(TokenKind::Keyword, "while"),
            tok(TokenKind::Identifier, "foo"),
            tok(TokenKind::IntegerConstant, "42"),
            tok(TokenKind::Keyword, "class"),
            tok(TokenKind::Identifier, "x9"),
        ]
    );
    assert_eq!(st, ScanState::new());
}

#[test]
fn keywords_are_case_sensitive() {
    let (_, toks) = scan_ok(ScanState::new(), "Class class");
    assert_eq!(toks, vec![tok(TokenKind::Identifier, "Class"), tok(TokenKind::Keyword, "class")]);
}

#[test]
fn string_constant_round_trip() {
    let (st, toks) = scan_ok(ScanState::new(), "\"abc\"");
    assert_eq!(toks, vec![tok(TokenKind::StringConstant, "abc")]);
    assert_eq!(st, ScanState::new());
}

#[test]
fn string_keeps_symbols_and_spaces() {
    let (_, toks) = scan_ok(ScanState::new(), "\"a + b; // c\" x");
    assert_eq!(
        toks,
        vec![tok(TokenKind::StringConstant, "a + b; // c"), tok(TokenKind::Identifier, "x")]
    );
}

#[test]
fn line_comment_yields_nothing() {
    let (st, toks) = scan_ok(ScanState::new(), "// comment text {}\"foo\"");
    assert!(toks.is_empty());
    assert_eq!(st, ScanState::new());
}

#[test]
fn line_comment_after_identifier() {
    let (st, toks) = scan_ok(ScanState::new(), "x//comment");
    assert_eq!(toks, vec![tok(TokenKind::Identifier, "x")]);
    assert_eq!(st, ScanState::new());
}

#[test]
fn block_comment_spans_lines() {
    let (st, toks) = scan_ok(ScanState::new(), "/* start");
    assert!(toks.is_empty());
    assert!(st.in_block_comment);
    let (st, toks) = scan_ok(st, "still inside");
    assert!(toks.is_empty());
    assert!(st.in_block_comment);
    let (st, toks) = scan_ok(st, "end */ x");
    assert_eq!(toks, vec![tok(TokenKind::Identifier, "x")]);
    assert!(!st.in_block_comment);
}

#[test]
fn block_comment_within_line() {
    let (st, toks) = scan_ok(ScanState::new(), "a /* b */ c");
    assert_eq!(toks, vec![tok(TokenKind::Identifier, "a"), tok(TokenKind::Identifier, "c")]);
    assert_eq!(st, ScanState::new());
}

#[test]
fn let_statement_tokens() {
    let (_, toks) = scan_ok(ScanState::new(), "let x = 123;");
    assert_eq!(
        toks,
        vec![
            tok(TokenKind::Keyword, "let"),
            tok(TokenKind::Identifier, "x"),
            tok(TokenKind::Symbol, "="),
            tok(TokenKind::IntegerConstant, "123"),
            tok(TokenKind::Symbol, ";"),
        ]
    );
}

#[test]
fn digit_prefixed_identifier_is_fatal() {
    let r = scan_line(ScanState::new(), "1abc");
    assert_eq!(r, Err(LexError::IdentifierStartsWithDigit { word: "1abc".to_string() }));
    let (_, toks) = scan_ok(ScanState::new(), "abc1");
    assert_eq!(toks, vec![tok(TokenKind::Identifier, "abc1")]);
}

#[test]
fn digit_prefixed_identifier_before_symbol() {
    let r = scan_line(ScanState::new(), "let 2x;");
    assert_eq!(r, Err(LexError::IdentifierStartsWithDigit { word: "2x".to_string() }));
}

#[test]
fn symbols_escape_in_markup() {
    assert_eq!(escape_symbol('<'), "&lt;");
    assert_eq!(escape_symbol('>'), "&gt;");
    assert_eq!(escape_symbol('&'), "&amp;");
    assert_eq!(escape_symbol('"'), "&quot;");
    for c in ['{', '}', '(', ')', '[', ']', '.', ',', ';', '+', '-', '*', '/', '|', '=', '~'] {
        assert_eq!(escape_symbol(c), c.to_string());
    }
    assert_eq!(render_token(&tok(TokenKind::Symbol, "<")), "<symbol> &lt; </symbol>\n");
    assert_eq!(render_token(&tok(TokenKind::Symbol, "+")), "<symbol> + </symbol>\n");
}

#[test]
fn records_for_each_kind() {
    assert_eq!(render_token(&tok(TokenKind::Keyword, "class")), "<keyword> class </keyword>\n");
    assert_eq!(render_token(&tok(TokenKind::Identifier, "Main")), "<identifier> Main </identifier>\n");
    assert_eq!(
        render_token(&tok(TokenKind::IntegerConstant, "42")),
        "<integerConstant> 42 </integerConstant>\n"
    );
    assert_eq!(
        render_token(&tok(TokenKind::StringConstant, "hello")),
        "<stringConstant> hello </stringConstant>\n"
    );
}

#[test]
fn document_envelope() {
    assert_eq!(render_tokens(&[]), "<tokens>\n</tokens>\n");
    let toks = vec![tok(TokenKind::Keyword, "do"), tok(TokenKind::Symbol, "&")];
    assert_eq!(
        render_tokens(&toks),
        "<tokens>\n<keyword> do </keyword>\n<symbol> &amp; </symbol>\n</tokens>\n"
    );
}

#[test]
fn scanning_twice_gives_same_tokens() {
    let src = lines(&["class Main {", "  /* note", "  */ function void main() {", "    do Output.printString(\"hi\");", "  }", "}"]);
    let a = scan_lines(&src).expect("file should scan");
    let b = scan_lines(&src).expect("file should scan");
    assert_eq!(a, b);
    assert_eq!(a.len(), 19);
    assert_eq!(a[0], tok(TokenKind::Keyword, "class"));
    assert_eq!(a[3], tok(TokenKind::Keyword, "function"));
    assert_eq!(a[12], tok(TokenKind::Identifier, "printString"));
    assert_eq!(a[14], tok(TokenKind::StringConstant, "hi"));
}

#[test]
fn file_error_is_first_offending_word() {
    let src = lines(&["let x = 1;", "let 9lives = 2;", "let 8ball = 3;"]);
    assert_eq!(
        scan_lines(&src),
        Err(LexError::IdentifierStartsWithDigit { word: "9lives".to_string() })
    );
}

#[test]
fn string_spans_lines() {
    let (st, toks) = scan_ok(ScanState::new(), "x \"ab c");
    assert_eq!(toks, vec![tok(TokenKind::Identifier, "x")]);
    assert!(st.in_string_literal);
    assert_eq!(st.string_buffer, "ab c");
    let (st, toks) = scan_ok(st, "de\";");
    assert_eq!(toks, vec![tok(TokenKind::StringConstant, "ab cde"), tok(TokenKind::Symbol, ";")]);
    assert_eq!(st, ScanState::new());
}

#[test]
fn empty_line_changes_nothing() {
    let (st, toks) = scan_ok(ScanState::new(), "");
    assert!(toks.is_empty());
    assert_eq!(st, ScanState::new());
}

#[test]
fn word_flushed_at_end_of_line() {
    let (_, toks) = scan_ok(ScanState::new(), "return value");
    assert_eq!(toks, vec![tok(TokenKind::Keyword, "return"), tok(TokenKind::Identifier, "value")]);
}

#[test]
fn division_and_product_are_symbols() {
    let (_, toks) = scan_ok(ScanState::new(), "a/b*c");
    assert_eq!(
        toks,
        vec![
            tok(TokenKind::Identifier, "a"),
            tok(TokenKind::Symbol, "/"),
            tok(TokenKind::Identifier, "b"),
            tok(TokenKind::Symbol, "*"),
            tok(TokenKind::Identifier, "c"),
        ]
    );
}

#[test]
fn classifiers() {
    for c in "{}()[].,;+-*/&|<>=~".chars() {
        assert!(is_symbol(c));
        assert!(is_delimiter(c));
    }
    assert!(is_delimiter(' ') && is_delimiter('\t') && is_delimiter('\n'));
    assert!(!is_symbol('a') && !is_delimiter('a') && !is_symbol('"') && !is_delimiter('_'));
    for k in [
        "class", "constructor", "function", "method", "int", "boolean", "char", "void", "var", "static",
        "field", "let", "do", "if", "else", "while", "return", "true", "false", "null", "this",
    ] {
        assert!(is_keyword(k));
    }
    assert!(!is_keyword(""));
    assert!(!is_keyword("Class"));
    assert!(!is_keyword("classes"));
}
