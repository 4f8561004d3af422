//! The line scanner: a state machine over the characters of one line.
use vstd::prelude::*;
use crate::chars::{chars_of, string_of};
use crate::classify::{delimiter_char, is_delimiter, is_keyword_chars, is_symbol, keyword_word, symbol_char};
use crate::token::{fresh_state, tokens_model, LexError, ScanState, StateModel, Token, TokenKind, TokenModel};

verus! {

/// An ASCII decimal digit.
pub open spec fn digit_char(c: char) -> bool {
    '0' <= c && c <= '9'
}

/// Every character of `w` is a decimal digit.
pub open spec fn all_digits(w: Seq<char>) -> bool {
    forall|i: int| 0 <= i < w.len() ==> digit_char(#[trigger] w[i])
}

/// The class of a completed word, by the precedence keyword, integer,
/// identifier; `None` for a word that starts with a digit and is not a number.
pub open spec fn word_kind(w: Seq<char>) -> Option<TokenKind> {
    if keyword_word(w) {
        Some(TokenKind::Keyword)
    } else if w.len() > 0 && all_digits(w) {
        Some(TokenKind::IntegerConstant)
    } else if w.len() > 0 && digit_char(w[0]) {
        None
    } else {
        Some(TokenKind::Identifier)
    }
}

/// Where the scan of a line stands between two characters.
pub struct Cursor {
    pub comment: bool,
    pub string: bool,
    /// The open string literal's contents.
    pub buffer: Seq<char>,
    /// The word (identifier, keyword or number) being accumulated.
    pub word: Seq<char>,
    /// The previous character of this line, if any.
    pub prev: Option<char>,
    /// The tokens emitted so far on this line.
    pub tokens: Seq<TokenModel>,
}

/// Outside both comments and string literals.
pub open spec fn plain(cur: Cursor) -> bool {
    !cur.comment && !cur.string
}

/// The cursor at the start of a line scanned from state `st`.
pub open spec fn line_start(st: StateModel) -> Cursor {
    Cursor {
        comment: st.in_block_comment,
        string: st.in_string_literal,
        buffer: st.string_buffer,
        word: Seq::empty(),
        prev: None,
        tokens: Seq::empty(),
    }
}

/// The state handed on to the next line.
pub open spec fn state_of(cur: Cursor) -> StateModel {
    StateModel { in_block_comment: cur.comment, in_string_literal: cur.string, string_buffer: cur.buffer }
}

/// Emits the pending word, if any, as a token; `Err` with the word where it
/// starts with a digit and is not a number.
pub open spec fn flush(cur: Cursor) -> Result<Cursor, Seq<char>> {
    if cur.word.len() == 0 {
        Ok(cur)
    } else {
        match word_kind(cur.word) {
            Some(k) => Ok(
                Cursor {
                    word: Seq::empty(),
                    tokens: cur.tokens.push(TokenModel { kind: k, text: cur.word }),
                    ..cur
                },
            ),
            None => Err(cur.word),
        }
    }
}

/// Consumes the character `c`, followed on its line by `next`, once any
/// pending word has been flushed.
pub open spec fn advance(cur: Cursor, c: char, next: Option<char>) -> Cursor {
    let moved = if c == '/' && next == Some('*') && plain(cur) {
        Cursor { comment: true, ..cur }
    } else if c == '/' && cur.prev == Some('*') && cur.comment && !cur.string {
        Cursor { comment: false, ..cur }
    } else if c == '"' && !cur.comment && !cur.string {
        Cursor { string: true, buffer: Seq::empty(), ..cur }
    } else if c == '"' && !cur.comment && cur.string {
        Cursor {
            string: false,
            buffer: Seq::empty(),
            tokens: cur.tokens.push(TokenModel { kind: TokenKind::StringConstant, text: cur.buffer }),
            ..cur
        }
    } else if cur.string {
        Cursor { buffer: cur.buffer.push(c), ..cur }
    } else if cur.comment {
        cur
    } else if symbol_char(c) {
        Cursor { tokens: cur.tokens.push(TokenModel { kind: TokenKind::Symbol, text: seq![c] }), ..cur }
    } else if !delimiter_char(c) {
        Cursor { word: cur.word.push(c), ..cur }
    } else {
        cur
    };
    Cursor { prev: Some(c), ..moved }
}

/// The character after position `i` of `line`, if there is one.
pub open spec fn next_of(line: Seq<char>, i: int) -> Option<char> {
    if i + 1 < line.len() {
        Some(line[i + 1])
    } else {
        None
    }
}

/// What is left of the scan of `line` from position `i` on, with cursor `cur`:
/// the state for the next line and the line's tokens, or the offending word.
pub open spec fn run(line: Seq<char>, i: int, cur: Cursor) -> Result<(StateModel, Seq<TokenModel>), Seq<char>>
    decreases line.len() - i,
{
    if i >= line.len() {
        if plain(cur) {
            match flush(cur) {
                Ok(f) => Ok((state_of(f), f.tokens)),
                Err(w) => Err(w),
            }
        } else {
            Ok((state_of(cur), cur.tokens))
        }
    } else {
        let c = line[i];
        let flushed = if plain(cur) && delimiter_char(c) {
            flush(cur)
        } else {
            Ok(cur)
        };
        match flushed {
            Err(w) => Err(w),
            Ok(f) => if plain(f) && c == '/' && next_of(line, i) == Some('/') {
                Ok((state_of(f), f.tokens))
            } else {
                run(line, i + 1, advance(f, c, next_of(line, i)))
            },
        }
    }
}

/// The scan of one line from state `st`.
pub open spec fn scan_line_model(st: StateModel, line: Seq<char>) -> Result<(StateModel, Seq<TokenModel>), Seq<char>> {
    run(line, 0, line_start(st))
}

/// The model of what [`scan_line`] returns.
pub open spec fn line_outcome(r: Result<(ScanState, Vec<Token>), LexError>) -> Result<(StateModel, Seq<TokenModel>), Seq<char>> {
    match r {
        Ok((s, ts)) => Ok((s@, tokens_model(ts@))),
        Err(e) => Err(e.word_model()),
    }
}

/// The scan of the first `n` lines of a file, from the fresh state: the state
/// after them and all their tokens in order, or the first offending word.
pub open spec fn scan_prefix(lines: Seq<Seq<char>>, n: int) -> Result<(StateModel, Seq<TokenModel>), Seq<char>>
    decreases n,
{
    if n <= 0 {
        Ok((fresh_state(), Seq::empty()))
    } else {
        match scan_prefix(lines, n - 1) {
            Err(w) => Err(w),
            Ok((st, ts)) => match scan_line_model(st, lines[n - 1]) {
                Err(w) => Err(w),
                Ok((st2, ts2)) => Ok((st2, ts + ts2)),
            },
        }
    }
}

/// The characters of each line.
pub open spec fn lines_model(lines: Seq<String>) -> Seq<Seq<char>> {
    lines.map_values(|s: String| s@)
}

/// The model of what [`scan_lines`] returns.
pub open spec fn file_outcome(r: Result<Vec<Token>, LexError>) -> Result<Seq<TokenModel>, Seq<char>> {
    match r {
        Ok(ts) => Ok(tokens_model(ts@)),
        Err(e) => Err(e.word_model()),
    }
}

/// The tokens of a whole file given as its lines, or the first offending word.
pub open spec fn scan_file_model(lines: Seq<Seq<char>>) -> Result<Seq<TokenModel>, Seq<char>> {
    match scan_prefix(lines, lines.len() as int) {
        Ok((_, ts)) => Ok(ts),
        Err(w) => Err(w),
    }
}

/// Whether `c` is an ASCII decimal digit.
fn is_digit(c: char) -> (r: bool)
    ensures
        r == digit_char(c),
{
    '0' <= c && c <= '9'
}

/// Classifies a completed word: `None` where it starts with a digit and is
/// not a number.
pub fn classify_word(w: &[char]) -> (r: Option<TokenKind>)
    ensures
        r == word_kind(w@),
{
    if is_keyword_chars(w) {
        return Some(TokenKind::Keyword);
    }
    if w.len() == 0 {
        return Some(TokenKind::Identifier);
    }
    let mut i: usize = 0;
    while i < w.len()
        invariant
            !keyword_word(w@),
            0 < w@.len(),
            i <= w@.len(),
            forall|j: int| 0 <= j < i ==> digit_char(#[trigger] w@[j]),
        decreases w@.len() - i,
    {
        if !is_digit(w[i]) {
            assert(!digit_char(w@[i as int]));
            if is_digit(w[0]) {
                return None;
            } else {
                return Some(TokenKind::Identifier);
            }
        }
        i = i + 1;
    }
    Some(TokenKind::IntegerConstant)
}

/// The executable counterpart of a [`Cursor`].
struct LineScanner {
    comment: bool,
    string: bool,
    buffer: Vec<char>,
    word: Vec<char>,
    prev: Option<char>,
    tokens: Vec<Token>,
}

impl View for LineScanner {
    type V = Cursor;

    closed spec fn view(&self) -> Cursor {
        Cursor {
            comment: self.comment,
            string: self.string,
            buffer: self.buffer@,
            word: self.word@,
            prev: self.prev,
            tokens: tokens_model(self.tokens@),
        }
    }
}

impl LineScanner {
    fn emit(&mut self, kind: TokenKind, text: &[char])
        ensures
            final(self)@ == (Cursor {
                tokens: old(self)@.tokens.push(TokenModel { kind, text: text@ }),
                ..old(self)@
            }),
    {
        let t = Token { kind, text: string_of(text) };
        self.tokens.push(t);
        assert(tokens_model(self.tokens@) =~= tokens_model(old(self).tokens@).push(t@));
    }

    fn flush(&mut self) -> (r: Result<(), LexError>)
        ensures
            match flush(old(self)@) {
                Ok(c) => r is Ok && final(self)@ == c,
                Err(w) => r matches Err(e) && e.word_model() == w,
            },
    {
        if self.word.len() == 0 {
            return Ok(());
        }
        match classify_word(self.word.as_slice()) {
            Some(k) => {
                let mut w: Vec<char> = Vec::new();
                std::mem::swap(&mut w, &mut self.word);
                self.emit(k, w.as_slice());
                assert(self.word@ =~= Seq::<char>::empty());
                Ok(())
            },
            None => Err(LexError::IdentifierStartsWithDigit { word: string_of(self.word.as_slice()) }),
        }
    }

    fn advance(&mut self, c: char, next: Option<char>)
        ensures
            final(self)@ == advance(old(self)@, c, next),
    {
        if c == '/' && next == Some('*') && !self.comment && !self.string {
            self.comment = true;
        } else if c == '/' && self.prev == Some('*') && self.comment && !self.string {
            self.comment = false;
        } else if c == '"' && !self.comment && !self.string {
            self.string = true;
            self.buffer = Vec::new();
        } else if c == '"' && !self.comment && self.string {
            let mut b: Vec<char> = Vec::new();
            std::mem::swap(&mut b, &mut self.buffer);
            self.emit(TokenKind::StringConstant, b.as_slice());
            self.string = false;
        } else if self.string {
            self.buffer.push(c);
        } else if self.comment {
            // inside a block comment every other character is discarded
        } else if is_symbol(c) {
            let one = [c];
            self.emit(TokenKind::Symbol, &one);
            assert(one@ =~= seq![c]);
        } else if !is_delimiter(c) {
            self.word.push(c);
        }
        self.prev = Some(c);
        assert(self@ == advance(old(self)@, c, next));
    }

    fn finish(self) -> (r: (ScanState, Vec<Token>))
        ensures
            r.0@ == state_of(self@),
            tokens_model(r.1@) == self@.tokens,
    {
        let st = ScanState {
            in_block_comment: self.comment,
            in_string_literal: self.string,
            string_buffer: string_of(self.buffer.as_slice()),
        };
        (st, self.tokens)
    }
}

/// Scans one line from `state`. Returns the state for the next line and the
/// line's tokens in order, or the fatal error for a word that starts with a
/// digit and is not a number.
pub fn scan_line(state: ScanState, line: &str) -> (r: Result<(ScanState, Vec<Token>), LexError>)
    requires
        state@.wf(),
    ensures
        line_outcome(r) == scan_line_model(state@, line@),
        r matches Ok((s, _)) ==> s@.wf(),
{
    let cs = chars_of(line);
    let n = cs.len();
    let mut sc = LineScanner {
        comment: state.in_block_comment,
        string: state.in_string_literal,
        buffer: chars_of(state.string_buffer.as_str()),
        word: Vec::new(),
        prev: None,
        tokens: Vec::new(),
    };
    assert(tokens_model(sc.tokens@) =~= Seq::<TokenModel>::empty());
    assert(sc@ == line_start(state@));
    let mut i: usize = 0;
    while i < n
        invariant
            n == cs@.len(),
            cs@ == line@,
            i <= n,
            run(line@, 0, line_start(state@)) == run(line@, i as int, sc@),
            state_of(sc@).wf(),
        decreases n - i,
    {
        let c = cs[i];
        let next = if i + 1 < n {
            Some(cs[i + 1])
        } else {
            None
        };
        assert(next == next_of(line@, i as int));
        if !sc.comment && !sc.string && is_delimiter(c) {
            match sc.flush() {
                Ok(()) => {},
                Err(e) => {
                    return Err(e);
                },
            }
        }
        if !sc.comment && !sc.string && c == '/' && next == Some('/') {
            let (st, ts) = sc.finish();
            return Ok((st, ts));
        }
        sc.advance(c, next);
        i = i + 1;
    }
    if !sc.comment && !sc.string {
        match sc.flush() {
            Ok(()) => {},
            Err(e) => {
                return Err(e);
            },
        }
    }
    let (st, ts) = sc.finish();
    Ok((st, ts))
}

/// Scans a whole file, given as its lines in order, from the fresh state.
/// Returns all tokens in order, or the first fatal error.
pub fn scan_lines(lines: &[String]) -> (r: Result<Vec<Token>, LexError>)
    ensures
        file_outcome(r) == scan_file_model(lines_model(lines@)),
{
    let ghost ls = lines_model(lines@);
    let mut st = ScanState::new();
    let mut all: Vec<Token> = Vec::new();
    let mut i: usize = 0;
    assert(tokens_model(all@) =~= Seq::<TokenModel>::empty());
    while i < lines.len()
        invariant
            ls == lines_model(lines@),
            i <= lines@.len(),
            st@.wf(),
            scan_prefix(ls, i as int) == Ok::<(StateModel, Seq<TokenModel>), Seq<char>>((st@, tokens_model(all@))),
        decreases lines@.len() - i,
    {
        assert(ls[i as int] == lines@[i as int]@);
        match scan_line(st, lines[i].as_str()) {
            Ok((st2, mut ts)) => {
                let ghost before = all@;
                let ghost added = ts@;
                all.append(&mut ts);
                assert(tokens_model(all@) =~= tokens_model(before) + tokens_model(added));
                st = st2;
            },
            Err(e) => {
                assert(scan_prefix(ls, i + 1) == Err::<(StateModel, Seq<TokenModel>), Seq<char>>(e.word_model()));
                assert(scan_prefix(ls, lines@.len() as int) == Err::<(StateModel, Seq<TokenModel>), Seq<char>>(e.word_model())) by {
                    lemma_error_sticks(ls, i + 1, lines@.len() as int);
                }
                return Err(e);
            },
        }
        i = i + 1;
    }
    Ok(all)
}

/// Once a prefix of the file fails, every longer prefix fails with the same word.
proof fn lemma_error_sticks(lines: Seq<Seq<char>>, m: int, n: int)
    requires
        0 <= m <= n,
        scan_prefix(lines, m) is Err,
    ensures
        scan_prefix(lines, n) == scan_prefix(lines, m),
    decreases n - m,
{
    if m < n {
        lemma_error_sticks(lines, m, n - 1);
    }
}

} // verus!
