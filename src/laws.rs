//! Properties of the scanner as a whole.
use vstd::prelude::*;
use crate::classify::{delimiter_char, symbol_char};
use crate::scanner::{
    advance, file_outcome, flush, next_of, state_of, line_start, lines_model, plain, run, scan_file_model, scan_line_model,
    word_kind, Cursor,
};
use crate::token::{fresh_state, LexError, StateModel, Token, TokenKind, TokenModel};

verus! {

/// Whitespace: space, tab or newline.
pub open spec fn space_char(c: char) -> bool {
    c == ' ' || c == '\t' || c == '\n'
}

/// The maximal runs of non-whitespace characters of `line` from position
/// `i` on, the first of them extending the run `pending` begun before `i`.
pub open spec fn words_from(line: Seq<char>, i: int, pending: Seq<char>) -> Seq<Seq<char>>
    decreases line.len() - i,
{
    let done = if pending.len() > 0 {
        seq![pending]
    } else {
        Seq::empty()
    };
    if i >= line.len() {
        done
    } else if space_char(line[i]) {
        done + words_from(line, i + 1, Seq::empty())
    } else {
        words_from(line, i + 1, pending.push(line[i]))
    }
}

/// The maximal whitespace-delimited runs of `line`, in order.
pub open spec fn words(line: Seq<char>) -> Seq<Seq<char>> {
    words_from(line, 0, Seq::empty())
}

/// Each word classified as a token, by the precedence keyword, integer,
/// identifier; `Err` with the first word that starts with a digit and is not
/// a number.
pub open spec fn classify_all(ws: Seq<Seq<char>>) -> Result<Seq<TokenModel>, Seq<char>>
    decreases ws.len(),
{
    if ws.len() == 0 {
        Ok(Seq::empty())
    } else {
        match word_kind(ws[0]) {
            None => Err(ws[0]),
            Some(k) => match classify_all(ws.drop_first()) {
                Ok(ts) => Ok(seq![TokenModel { kind: k, text: ws[0] }] + ts),
                Err(w) => Err(w),
            },
        }
    }
}

/// The outcome of a line that ends in the fresh state after the tokens
/// `before` and then those that `rest` gives.
pub open spec fn after(before: Seq<TokenModel>, rest: Result<Seq<TokenModel>, Seq<char>>) -> Result<(StateModel, Seq<TokenModel>), Seq<char>> {
    match rest {
        Ok(ts) => Ok((fresh_state(), before + ts)),
        Err(w) => Err(w),
    }
}

proof fn lemma_plain_run(line: Seq<char>, i: int, cur: Cursor)
    requires
        0 <= i,
        forall|j: int| i <= j < line.len() ==> !symbol_char(#[trigger] line[j]) && line[j] != '"',
        !cur.comment,
        !cur.string,
        cur.buffer.len() == 0,
    ensures
        run(line, i, cur) == after(cur.tokens, classify_all(words_from(line, i, cur.word))),
    decreases line.len() - i,
{
    let pending = cur.word;
    let done = if pending.len() > 0 { seq![pending] } else { Seq::<Seq<char>>::empty() };
    if pending.len() > 0 {
        assert(done.drop_first() =~= Seq::<Seq<char>>::empty());
    }
    if i >= line.len() {
        assert(cur.buffer =~= Seq::<char>::empty());
        assert(state_of(cur) == fresh_state());
        assert(cur.tokens + Seq::<TokenModel>::empty() =~= cur.tokens);
        if pending.len() > 0 {
            if let Some(k) = word_kind(pending) {
                assert(cur.tokens.push(TokenModel { kind: k, text: pending })
                    =~= cur.tokens + (seq![TokenModel { kind: k, text: pending }] + Seq::<TokenModel>::empty()));
                assert(classify_all(done.drop_first()) == Ok::<Seq<TokenModel>, Seq<char>>(Seq::empty()));
            }
        }
    } else {
        let c = line[i];
        assert(!symbol_char(c) && c != '"');
        if space_char(c) {
            let rest = words_from(line, i + 1, Seq::empty());
            assert(words_from(line, i, pending) == done + rest);
            match flush(cur) {
                Err(w) => {
                    assert((done + rest)[0] == pending);
                },
                Ok(f) => {
                    let nxt = Cursor { prev: Some(c), ..f };
                    assert(run(line, i, cur) == run(line, i + 1, nxt));
                    lemma_plain_run(line, i + 1, nxt);
                    if pending.len() == 0 {
                        assert(pending =~= Seq::<char>::empty());
                        assert(done + rest =~= rest);
                    } else {
                        let k = word_kind(pending)->0;
                        let tm = TokenModel { kind: k, text: pending };
                        assert((done + rest)[0] == pending);
                        assert((done + rest).drop_first() =~= rest);
                        match classify_all(rest) {
                            Ok(ts) => {
                                assert(cur.tokens.push(tm) + ts =~= cur.tokens + (seq![tm] + ts));
                            },
                            Err(_) => {},
                        }
                    }
                },
            }
        } else {
            assert(!delimiter_char(c));
            let nxt = Cursor { word: pending.push(c), prev: Some(c), ..cur };
            assert(run(line, i, cur) == run(line, i + 1, nxt));
            lemma_plain_run(line, i + 1, nxt);
        }
    }
}

/// A line with no symbols (hence no comments) and no string literals,
/// scanned from the fresh state, yields one token per maximal
/// whitespace-delimited run, in order, classified by the precedence keyword,
/// integer, identifier; the fresh state is handed on. The scan fails on the
/// first run that starts with a digit and is not a number.
pub proof fn lemma_plain_line_words(line: Seq<char>)
    requires
        forall|j: int| 0 <= j < line.len() ==> !symbol_char(#[trigger] line[j]) && line[j] != '"',
    ensures
        scan_line_model(fresh_state(), line) == after(Seq::empty(), classify_all(words(line))),
{
    lemma_plain_run(line, 0, line_start(fresh_state()));
}

proof fn lemma_string_run(line: Seq<char>, i: int, cur: Cursor)
    requires
        0 <= i < line.len(),
        line.last() == '"',
        forall|j: int| i <= j < line.len() - 1 ==> #[trigger] line[j] != '"',
        cur.string,
        !cur.comment,
        cur.word.len() == 0,
    ensures
        run(line, i, cur) == Ok::<(StateModel, Seq<TokenModel>), Seq<char>>((
            fresh_state(),
            cur.tokens.push(
                TokenModel {
                    kind: TokenKind::StringConstant,
                    text: cur.buffer + line.subrange(i, line.len() - 1),
                },
            ),
        )),
    decreases line.len() - i,
{
    let c = line[i];
    if i == line.len() - 1 {
        assert(cur.buffer + line.subrange(i, line.len() - 1) =~= cur.buffer);
        let nxt = advance(cur, c, next_of(line, i));
        assert(nxt.word =~= Seq::<char>::empty());
        assert(state_of(nxt) == fresh_state());
    } else {
        assert(c != '"');
        let nxt = Cursor { buffer: cur.buffer.push(c), prev: Some(c), ..cur };
        assert(advance(cur, c, next_of(line, i)) == nxt);
        lemma_string_run(line, i + 1, nxt);
        assert(nxt.buffer + line.subrange(i + 1, line.len() - 1)
            =~= cur.buffer + line.subrange(i, line.len() - 1));
    }
}

/// A line that is one string literal, scanned from the fresh state, yields
/// exactly one string constant holding the enclosed characters and hands on
/// the fresh state.
pub proof fn lemma_string_literal_round_trip(s: Seq<char>)
    requires
        forall|j: int| 0 <= j < s.len() ==> #[trigger] s[j] != '"',
    ensures
        scan_line_model(fresh_state(), seq!['"'] + s + seq!['"']) == Ok::<(StateModel, Seq<TokenModel>), Seq<char>>((
            fresh_state(),
            seq![TokenModel { kind: TokenKind::StringConstant, text: s }],
        )),
{
    let line = seq!['"'] + s + seq!['"'];
    let start = line_start(fresh_state());
    assert(line[0] == '"');
    assert(!delimiter_char('"'));
    let opened = advance(start, '"', next_of(line, 0));
    assert(opened.buffer =~= Seq::<char>::empty());
    assert(forall|j: int| 1 <= j < line.len() - 1 ==> line[j] == s[j - 1]);
    lemma_string_run(line, 1, opened);
    assert(line.subrange(1, line.len() - 1) =~= s);
    assert(Seq::<char>::empty() + s =~= s);
    assert(Seq::<TokenModel>::empty().push(TokenModel { kind: TokenKind::StringConstant, text: s })
        =~= seq![TokenModel { kind: TokenKind::StringConstant, text: s }]);
}

/// A line that starts with `//`, scanned outside comments and string
/// literals, yields no tokens and hands on the state it was given.
pub proof fn lemma_line_comment_is_silent(st: StateModel, line: Seq<char>)
    requires
        st.wf(),
        !st.in_block_comment,
        !st.in_string_literal,
        line.len() >= 2,
        line[0] == '/',
        line[1] == '/',
    ensures
        scan_line_model(st, line) == Ok::<(StateModel, Seq<TokenModel>), Seq<char>>((st, Seq::empty())),
{
    assert(delimiter_char('/'));
    assert(next_of(line, 0) == Some('/'));
    assert(st.string_buffer =~= Seq::<char>::empty());
    assert(state_of(line_start(st)) == st);
}

proof fn lemma_comment_run(line: Seq<char>, i: int, cur: Cursor)
    requires
        0 <= i,
        cur.comment,
        !cur.string,
        i < line.len() && line[i] == '/' ==> cur.prev != Some('*'),
        forall|j: int| i < j < line.len() ==> !(line[j - 1] == '*' && #[trigger] line[j] == '/'),
    ensures
        run(line, i, cur) == Ok::<(StateModel, Seq<TokenModel>), Seq<char>>((state_of(cur), cur.tokens)),
    decreases line.len() - i,
{
    if i < line.len() {
        let c = line[i];
        let nxt = Cursor { prev: Some(c), ..cur };
        assert(advance(cur, c, next_of(line, i)) == nxt);
        if i + 1 < line.len() && line[i + 1] == '/' {
            assert(!(line[i] == '*' && line[i + 1] == '/'));
        }
        lemma_comment_run(line, i + 1, nxt);
    }
}

/// A line scanned inside a block comment, in which no `*` is directly
/// followed by `/`, yields no tokens and leaves the state as it was: the
/// comment stays open.
pub proof fn lemma_comment_line_is_silent(st: StateModel, line: Seq<char>)
    requires
        st.wf(),
        st.in_block_comment,
        forall|j: int| 0 < j < line.len() ==> !(line[j - 1] == '*' && #[trigger] line[j] == '/'),
    ensures
        scan_line_model(st, line) == Ok::<(StateModel, Seq<TokenModel>), Seq<char>>((st, Seq::empty())),
{
    lemma_comment_run(line, 0, line_start(st));
}

/// Scanning the same file twice, each time from the fresh state, gives the
/// same outcome: the same tokens in the same order, or the same error.
pub proof fn lemma_scan_deterministic(
    lines: Seq<String>,
    first: Result<Vec<Token>, LexError>,
    second: Result<Vec<Token>, LexError>,
)
    requires
        file_outcome(first) == scan_file_model(lines_model(lines)),
        file_outcome(second) == scan_file_model(lines_model(lines)),
    ensures
        file_outcome(first) == file_outcome(second),
{
}

} // verus!
