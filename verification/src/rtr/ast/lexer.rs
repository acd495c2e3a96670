use crate::shared::position::{lemma_position_bounds, Position};
use crate::shared::range::Range;
use crate::shared::text::{chars_of, string_of};
use crate::shared::token::{
    is_delimiter, spec_is_delimiter, Token, TokenKind, TokenModel, TokenType,
};
use vstd::prelude::*;

verus! {

/// The comment, if any, that the tokenizer is inside of.
#[derive(Clone, Copy, Debug, PartialEq, Eq, Structural)]
pub enum CommentType {
    Outside,
    Multiline,
    Singleline,
}

/// The state of the tokenizer between two characters: the tokens read so
/// far, the length of the text run that is still open, and the comment mode.
pub struct Scan {
    pub tokens: Seq<TokenModel>,
    pub run: nat,
    pub mode: CommentType,
}

/// The models of a sequence of tokens.
pub open spec fn token_models(tokens: Seq<Token>) -> Seq<TokenModel> {
    Seq::new(tokens.len(), |k: int| tokens[k]@)
}

/// True when `second` follows a slash at offset `i`.
pub open spec fn opens_comment(text: Seq<char>, i: int, second: char) -> bool {
    text[i] == '/' && i + 1 < text.len() && text[i + 1] == second
}

/// The token of the text run `text[from..to]`.
pub open spec fn run_token(text: Seq<char>, from: int, to: int) -> TokenModel {
    TokenModel {
        kind: TokenKind::Text(text.subrange(from, to)),
        range: Range { start: Position::spec_at(text, from), end: Position::spec_at(text, to) },
    }
}

/// The token of the delimiter at offset `i`.
pub open spec fn delimiter_token(text: Seq<char>, i: int) -> TokenModel {
    TokenModel {
        kind: TokenKind::Punct(text[i]),
        range: Range { start: Position::spec_at(text, i), end: Position::spec_at(text, i + 1) },
    }
}

/// The tokens of `st` with the open text run, which ends before offset `n`,
/// closed.
pub open spec fn flush(text: Seq<char>, st: Scan, n: int) -> Seq<TokenModel> {
    if st.run > 0 {
        st.tokens.push(run_token(text, n - st.run, n))
    } else {
        st.tokens
    }
}

/// The state after the character at offset `i` is read in state `st`.
///
/// Inside a multi-line comment everything is skipped up to a slash that
/// follows a star; inside a single-line comment everything up to the end of
/// the line, which is itself read as a token. Outside comments a slash
/// followed by a star or a slash closes the open text run and opens a
/// comment; a delimiter closes the run and is a token by itself; any other
/// character extends the run.
pub open spec fn scan_step(text: Seq<char>, st: Scan, i: int) -> Scan {
    let c = text[i];
    if st.mode == CommentType::Multiline {
        Scan {
            tokens: st.tokens,
            run: st.run,
            mode: if i > 0 && text[i - 1] == '*' && c == '/' {
                CommentType::Outside
            } else {
                CommentType::Multiline
            },
        }
    } else if st.mode == CommentType::Singleline && c != '\n' {
        st
    } else if opens_comment(text, i, '*') {
        Scan { tokens: flush(text, st, i), run: 0, mode: CommentType::Multiline }
    } else if opens_comment(text, i, '/') {
        Scan { tokens: flush(text, st, i), run: 0, mode: CommentType::Singleline }
    } else if spec_is_delimiter(c) {
        Scan {
            tokens: flush(text, st, i).push(delimiter_token(text, i)),
            run: 0,
            mode: CommentType::Outside,
        }
    } else {
        Scan { tokens: st.tokens, run: st.run + 1, mode: CommentType::Outside }
    }
}

/// The state after the first `n` characters of `text`.
pub open spec fn scan(text: Seq<char>, n: int) -> Scan
    decreases n,
{
    if n <= 0 {
        Scan { tokens: Seq::empty(), run: 0, mode: CommentType::Outside }
    } else {
        scan_step(text, scan(text, n - 1), n - 1)
    }
}

/// The tokens of `text`.
pub open spec fn spec_tokenise(text: Seq<char>) -> Seq<TokenModel> {
    flush(text, scan(text, text.len() as int), text.len() as int)
}

/// The open text run never reaches back before the start of the text.
pub proof fn lemma_scan_run(text: Seq<char>, n: int)
    requires
        0 <= n <= text.len(),
    ensures
        scan(text, n).run <= n,
        scan(text, n).mode != CommentType::Outside ==> scan(text, n).run == 0,
    decreases n,
{
    if n > 0 {
        lemma_scan_run(text, n - 1);
    }
}

/// What holds of a token that was read from `text`: its range lies inside
/// the text, is not empty, and carries the positions of its two offsets;
/// the token's own text is the text that the range spans; a text run holds
/// no delimiter, and a delimiter token is one character wide.
pub open spec fn token_ok(text: Seq<char>, t: TokenModel) -> bool {
    let s = t.range.start.i as int;
    let e = t.range.end.i as int;
    &&& 0 <= s < e <= text.len()
    &&& t.range.start == Position::spec_at(text, s)
    &&& t.range.end == Position::spec_at(text, e)
    &&& t.kind.text() == t.range.spec_text(text)
    &&& match t.kind {
        TokenKind::Text(x) => forall|j: int| s <= j < e ==> !spec_is_delimiter(#[trigger] text[j]),
        TokenKind::Punct(c) => e == s + 1 && spec_is_delimiter(c),
        TokenKind::Eof => false,
    }
}

/// True when every token of `tokens` is read from `text`, each ends where
/// or before the next one starts, and all end at or before offset `limit`.
pub open spec fn tokens_ok(text: Seq<char>, tokens: Seq<TokenModel>, limit: int) -> bool {
    &&& forall|k: int| 0 <= k < tokens.len() ==> token_ok(text, #[trigger] tokens[k])
    &&& forall|k: int| 0 <= k < tokens.len() ==> (#[trigger] tokens[k]).range.end.i <= limit
    &&& forall|k: int, m: int|
        0 <= k < m < tokens.len() ==> (#[trigger] tokens[k]).range.end.i <= (
        #[trigger] tokens[m]).range.start.i
}

proof fn lemma_push_ok(text: Seq<char>, tokens: Seq<TokenModel>, limit: int, t: TokenModel)
    requires
        tokens_ok(text, tokens, limit),
        token_ok(text, t),
        limit <= t.range.start.i,
    ensures
        tokens_ok(text, tokens.push(t), t.range.end.i as int),
{
    let out = tokens.push(t);
    assert forall|k: int| 0 <= k < out.len() implies token_ok(text, #[trigger] out[k]) by {
        if k < tokens.len() {
            assert(out[k] == tokens[k]);
        }
    }
    assert forall|k: int| 0 <= k < out.len() implies (#[trigger] out[k]).range.end.i
        <= t.range.end.i by {
        if k < tokens.len() {
            assert(out[k] == tokens[k]);
        }
    }
    assert forall|k: int, m: int| 0 <= k < m < out.len() implies (#[trigger] out[k]).range.end.i <= (
    #[trigger] out[m]).range.start.i by {
        assert(out[k] == tokens[k]);
        if m < tokens.len() {
            assert(out[m] == tokens[m]);
        }
    }
}

proof fn lemma_flush_ok(text: Seq<char>, st: Scan, n: int)
    requires
        0 <= n <= text.len(),
        text.len() <= usize::MAX,
        st.run <= n,
        tokens_ok(text, st.tokens, n - st.run),
        forall|j: int| n - st.run <= j < n ==> !spec_is_delimiter(#[trigger] text[j]),
    ensures
        tokens_ok(text, flush(text, st, n), n),
{
    if st.run > 0 {
        let t = run_token(text, n - st.run, n);
        lemma_position_bounds(text, n - st.run);
        lemma_position_bounds(text, n);
        lemma_push_ok(text, st.tokens, n - st.run, t);
    }
}

/// Every token that the tokenizer has read after `n` characters is read
/// from the text, in order, before the open text run; and the open run
/// holds no delimiter.
pub proof fn lemma_scan_ok(text: Seq<char>, n: int)
    requires
        0 <= n <= text.len(),
        text.len() <= usize::MAX,
    ensures
        scan(text, n).run <= n,
        tokens_ok(text, scan(text, n).tokens, n - scan(text, n).run),
        forall|j: int| n - scan(text, n).run <= j < n ==> !spec_is_delimiter(#[trigger] text[j]),
    decreases n,
{
    lemma_scan_run(text, n);
    if n > 0 {
        let i = n - 1;
        let st = scan(text, i);
        lemma_scan_ok(text, i);
        lemma_scan_run(text, i);
        let c = text[i];
        if st.mode == CommentType::Multiline {
        } else if st.mode == CommentType::Singleline && c != '\n' {
        } else if opens_comment(text, i, '*') || opens_comment(text, i, '/') {
            lemma_flush_ok(text, st, i);
        } else if spec_is_delimiter(c) {
            lemma_flush_ok(text, st, i);
            lemma_position_bounds(text, i);
            lemma_position_bounds(text, n);
            let t = delimiter_token(text, i);
            assert(t.kind.text() =~= t.range.spec_text(text));
            lemma_push_ok(text, flush(text, st, i), i, t);
        } else {
        }
    }
}

/// Every token of a text is read from it: no token is empty, each spans
/// exactly its own text, and the tokens follow one another without
/// overlap.
pub proof fn lemma_tokens_ok(text: Seq<char>)
    requires
        text.len() <= usize::MAX,
    ensures
        tokens_ok(text, spec_tokenise(text), text.len() as int),
{
    let n = text.len() as int;
    lemma_scan_ok(text, n);
    lemma_flush_ok(text, scan(text, n), n);
}

proof fn lemma_scan_plain(run: Seq<char>, n: int)
    requires
        0 <= n <= run.len(),
        forall|j: int| 0 <= j < run.len() ==> !spec_is_delimiter(#[trigger] run[j]),
    ensures
        scan(run, n) == (Scan { tokens: Seq::empty(), run: n as nat, mode: CommentType::Outside }),
    decreases n,
{
    if n > 0 {
        lemma_scan_plain(run, n - 1);
        assert(!spec_is_delimiter(run[n - 1]));
    }
}

/// True when reading again the text that the token `k` of `text` spans
/// gives that token and nothing else, and that text is the token's own.
pub open spec fn reads_back(text: Seq<char>, k: int) -> bool {
    let t = spec_tokenise(text)[k];
    let again = spec_tokenise(t.range.spec_text(text));
    &&& again.len() == 1
    &&& again[0].kind == t.kind
    &&& t.kind.text() == t.range.spec_text(text)
}

/// Reading again the text that a token spans gives that token and nothing
/// else. The text is no longer than the machine can count; every string
/// is so.
pub proof fn lemma_retokenise(text: Seq<char>, k: int)
    requires
        text.len() <= usize::MAX,
        0 <= k < spec_tokenise(text).len(),
    ensures
        spec_tokenise(spec_tokenise(text)[k].range.spec_text(text)).len() == 1,
        spec_tokenise(spec_tokenise(text)[k].range.spec_text(text))[0].kind == spec_tokenise(
            text,
        )[k].kind,
        spec_tokenise(text)[k].kind.text() == spec_tokenise(text)[k].range.spec_text(text),
{
    lemma_tokens_ok(text);
    let t = spec_tokenise(text)[k];
    assert(token_ok(text, t));
    let part = t.range.spec_text(text);
    let s = t.range.start.i as int;
    match t.kind {
        TokenKind::Text(x) => {
            assert forall|j: int| 0 <= j < part.len() implies !spec_is_delimiter(
                #[trigger] part[j],
            ) by {
                assert(part[j] == text[s + j]);
            }
            lemma_scan_plain(part, part.len() as int);
            assert(part.subrange(0, part.len() as int) =~= part);
        },
        TokenKind::Punct(c) => {
            assert(part =~= seq![c]);
            assert(part[0] == c);
            assert(scan(part, 0).run == 0);
            assert(scan(part, 1) == scan_step(part, scan(part, 0), 0));
            assert(!opens_comment(part, 0, '*'));
            assert(!opens_comment(part, 0, '/'));
        },
        TokenKind::Eof => {},
    }
}

fn close_run(
    chars: &Vec<char>,
    tokens: &mut Vec<Token>,
    run: usize,
    run_pos: Position,
    pos: Position,
    i: usize,
    Ghost(st): Ghost<Scan>,
)
    requires
        i <= chars@.len(),
        run <= i,
        run == st.run,
        token_models(old(tokens)@) == st.tokens,
        run > 0 ==> run_pos == Position::spec_at(chars@, i - run),
        pos == Position::spec_at(chars@, i as int),
    ensures
        token_models(final(tokens)@) == flush(chars@, st, i as int),
{
    if run > 0 {
        let txt = string_of(chars, i - run, i);
        tokens.push(Token { token_type: TokenType::Text(txt), range: Range { start: run_pos, end: pos } });
        assert(token_models(tokens@) =~= flush(chars@, st, i as int));
    }
}

/// Splits a script into its tokens. Comments are left out; every other
/// character belongs to exactly one token.
pub fn tokenise(text: &str) -> (tokens: Vec<Token>)
    ensures
        token_models(tokens@) == spec_tokenise(text@),
        tokens_ok(text@, token_models(tokens@), text@.len() as int),
        forall|k: int| 0 <= k < tokens@.len() ==> reads_back(text@, k),
{
    let chars = chars_of(text);
    let n = chars.len();
    proof {
        lemma_tokens_ok(text@);
        assert forall|k: int| 0 <= k < spec_tokenise(text@).len() implies reads_back(text@, k) by {
            lemma_retokenise(text@, k);
        }
    }
    let mut tokens: Vec<Token> = Vec::new();
    let mut pos = Position::start();
    let mut run: usize = 0;
    let mut run_pos = Position::start();
    let mut mode = CommentType::Outside;
    let mut i: usize = 0;
    assert(token_models(tokens@) =~= scan(chars@, 0).tokens);
    while i < n
        invariant
            n == chars@.len(),
            0 <= i <= n,
            run <= i,
            pos == Position::spec_at(chars@, i as int),
            run > 0 ==> run_pos == Position::spec_at(chars@, i - run),
            run == scan(chars@, i as int).run,
            mode == scan(chars@, i as int).mode,
            token_models(tokens@) == scan(chars@, i as int).tokens,
        decreases n - i,
    {
        let c = chars[i];
        let ghost st = scan(chars@, i as int);
        proof {
            lemma_position_bounds(chars@, i as int);
            lemma_scan_run(chars@, i as int);
        }
        let next = pos.advance(c);
        if mode == CommentType::Multiline {
            if i > 0 && chars[i - 1] == '*' && c == '/' {
                mode = CommentType::Outside;
            }
        } else if mode == CommentType::Singleline && c != '\n' {
        } else if c == '/' && i + 1 < n && chars[i + 1] == '*' {
            close_run(&chars, &mut tokens, run, run_pos, pos, i, Ghost(st));
            run = 0;
            mode = CommentType::Multiline;
        } else if c == '/' && i + 1 < n && chars[i + 1] == '/' {
            close_run(&chars, &mut tokens, run, run_pos, pos, i, Ghost(st));
            run = 0;
            mode = CommentType::Singleline;
        } else if is_delimiter(c) {
            close_run(&chars, &mut tokens, run, run_pos, pos, i, Ghost(st));
            run = 0;
            mode = CommentType::Outside;
            let ghost before = token_models(tokens@);
            tokens.push(Token { token_type: TokenType::of_char(c), range: Range { start: pos, end: next } });
            assert(token_models(tokens@) =~= before.push(delimiter_token(chars@, i as int)));
        } else {
            if run == 0 {
                run_pos = pos;
            }
            run = run + 1;
            mode = CommentType::Outside;
        }
        pos = next;
        i = i + 1;
    }
    let ghost st = scan(chars@, n as int);
    close_run(&chars, &mut tokens, run, run_pos, pos, i, Ghost(st));
    tokens
}

} // verus!
