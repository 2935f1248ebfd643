//! The mathematical model of lexing.
//!
//! `spec_lex` maps a character sequence to the token sequence (or the lexer
//! error) that tokenizing must produce; the executable lexer is proved equal
//! to it.  The model mirrors the scanner one rule per character class:
//! whitespace, quoted strings, single-character structure, comment
//! delimiters, hashtags and mentions, numbers, and maximal-munch words that
//! are reclassified into operators afterwards.

use vstd::prelude::*;

use crate::chars::char_alphabetic;
use crate::chars::char_alphanumeric;
use crate::chars::spec_is_digit;
use crate::error::SpecLintError;
use crate::error::SpecPos;
use crate::error::SpecSpan;
use crate::numeric::spec_parse_u32;

verus! {

/// The ghost counterpart of a token's kind, over character sequences.
pub enum SpecTokenKind {
    Word(Seq<char>),
    QuotedString(Seq<char>),
    Number(Seq<char>),
    And,
    Or,
    Not,
    LeftParen,
    RightParen,
    LeftBracket,
    RightBracket,
    LeftBrace,
    RightBrace,
    Tilde,
    Colon,
    Question,
    Asterisk,
    To,
    Near(u32),
    NearForward(u32),
    CommentStart,
    CommentEnd,
    CommentText(Seq<char>),
    Field(Seq<char>),
    Hashtag(Seq<char>),
    Mention(Seq<char>),
    Whitespace,
    Eof,
}

/// The ghost counterpart of a token.
pub struct SpecToken {
    pub kind: SpecTokenKind,
    pub span: SpecSpan,
    pub raw: Seq<char>,
}

/// The scan cursor: character offset plus the 1-based line and column.
pub struct LexSt {
    pub pos: int,
    pub line: int,
    pub column: int,
}

/// One step of the model scanner: a token with the cursor after it, or a
/// fatal lexer error.
pub enum SpecNext {
    Tok(SpecToken, LexSt),
    Fail(SpecPos, Seq<char>),
}

pub open spec fn init_st() -> LexSt {
    LexSt { pos: 0, line: 1, column: 1 }
}

pub open spec fn st_pos(st: LexSt) -> SpecPos {
    SpecPos { line: st.line, column: st.column, offset: st.pos }
}

pub open spec fn st_wf(input: Seq<char>, st: LexSt) -> bool {
    &&& 0 <= st.pos <= input.len()
    &&& 1 <= st.line
    &&& 1 <= st.column
}

/// The four whitespace characters the scanner tracks.
pub open spec fn ws_char(c: char) -> bool {
    c == ' ' || c == '\t' || c == '\r' || c == '\n'
}

/// A character that can open a word token.
pub open spec fn word_start_char(c: char) -> bool {
    char_alphabetic(c) || c == '_' || c == '*' || c == '?'
}

/// A character that can continue a word token.
pub open spec fn word_char(c: char) -> bool {
    char_alphanumeric(c) || c == '_' || c == '.' || c == '-' || c == '/' || c == '*' || c == '?'
}

/// A character that can continue a hashtag or mention.
pub open spec fn tag_char(c: char) -> bool {
    char_alphanumeric(c) || c == '_' || c == '*' || c == '?'
}

/// A character that can continue a number token.
pub open spec fn num_char(c: char) -> bool {
    spec_is_digit(c) || c == '.'
}

/// Length of the maximal run of word characters starting at `pos`.
pub open spec fn word_run(input: Seq<char>, pos: int) -> nat
    decreases input.len() - pos,
{
    if 0 <= pos < input.len() && word_char(input[pos]) {
        (1 + word_run(input, pos + 1)) as nat
    } else {
        0
    }
}

/// Length of the maximal run of hashtag/mention characters starting at `pos`.
pub open spec fn tag_run(input: Seq<char>, pos: int) -> nat
    decreases input.len() - pos,
{
    if 0 <= pos < input.len() && tag_char(input[pos]) {
        (1 + tag_run(input, pos + 1)) as nat
    } else {
        0
    }
}

/// Length of the maximal run of number characters starting at `pos`.
pub open spec fn num_run(input: Seq<char>, pos: int) -> nat
    decreases input.len() - pos,
{
    if 0 <= pos < input.len() && num_char(input[pos]) {
        (1 + num_run(input, pos + 1)) as nat
    } else {
        0
    }
}

/// Length of the run of characters other than `"` starting at `pos`.
pub open spec fn nonquote_run(input: Seq<char>, pos: int) -> nat
    decreases input.len() - pos,
{
    if 0 <= pos < input.len() && input[pos] != '"' {
        (1 + nonquote_run(input, pos + 1)) as nat
    } else {
        0
    }
}

pub proof fn lemma_word_run_le(input: Seq<char>, pos: int)
    requires
        0 <= pos <= input.len(),
    ensures
        word_run(input, pos) <= input.len() - pos,
    decreases input.len() - pos,
{
    if pos < input.len() && word_char(input[pos]) {
        lemma_word_run_le(input, pos + 1);
    }
}

pub proof fn lemma_tag_run_le(input: Seq<char>, pos: int)
    requires
        0 <= pos <= input.len(),
    ensures
        tag_run(input, pos) <= input.len() - pos,
    decreases input.len() - pos,
{
    if pos < input.len() && tag_char(input[pos]) {
        lemma_tag_run_le(input, pos + 1);
    }
}

pub proof fn lemma_num_run_le(input: Seq<char>, pos: int)
    requires
        0 <= pos <= input.len(),
    ensures
        num_run(input, pos) <= input.len() - pos,
    decreases input.len() - pos,
{
    if pos < input.len() && num_char(input[pos]) {
        lemma_num_run_le(input, pos + 1);
    }
}

pub proof fn lemma_nonquote_run_le(input: Seq<char>, pos: int)
    requires
        0 <= pos <= input.len(),
    ensures
        nonquote_run(input, pos) <= input.len() - pos,
        pos + nonquote_run(input, pos) < input.len() ==> input[pos + nonquote_run(input, pos)]
            == '"',
    decreases input.len() - pos,
{
    if pos < input.len() && input[pos] != '"' {
        lemma_nonquote_run_le(input, pos + 1);
    }
}

/// Advancing the cursor over one character: a line feed starts a new line,
/// anything else moves one column right.
pub open spec fn step_lc(st: LexSt, c: char) -> LexSt {
    if c == '\n' {
        LexSt { pos: st.pos + 1, line: st.line + 1, column: 1 }
    } else {
        LexSt { pos: st.pos + 1, line: st.line, column: st.column + 1 }
    }
}

/// Advancing the cursor over a sequence of characters.
pub open spec fn advance_lc(st: LexSt, s: Seq<char>) -> LexSt
    decreases s.len(),
{
    if s.len() == 0 {
        st
    } else {
        step_lc(advance_lc(st, s.drop_last()), s.last())
    }
}

pub proof fn lemma_advance_lc(st: LexSt, s: Seq<char>)
    ensures
        advance_lc(st, s).pos == st.pos + s.len(),
        st.line >= 1 && st.column >= 1 ==> advance_lc(st, s).line >= 1 && advance_lc(
            st,
            s,
        ).column >= 1,
        st.line >= 1 && st.column >= 1 && st.line <= st.pos + 1 && st.column <= st.pos + 1
            ==> advance_lc(st, s).line <= advance_lc(st, s).pos + 1 && advance_lc(st, s).column
            <= advance_lc(st, s).pos + 1,
    decreases s.len(),
{
    if s.len() > 0 {
        lemma_advance_lc(st, s.drop_last());
    }
}

/// Advancing one position within a line.
pub open spec fn bump(st: LexSt) -> LexSt {
    LexSt { pos: st.pos + 1, line: st.line, column: st.column + 1 }
}

/// Advancing `k` positions within a line.
pub open spec fn bump_by(st: LexSt, k: int) -> LexSt {
    LexSt { pos: st.pos + k, line: st.line, column: st.column + k }
}

pub open spec fn span_between(a: LexSt, b: LexSt) -> SpecSpan {
    SpecSpan { start: st_pos(a), end: st_pos(b) }
}

/// A one-character token of the given kind.
pub open spec fn single_tok(input: Seq<char>, st: LexSt, kind: SpecTokenKind) -> SpecNext {
    SpecNext::Tok(
        SpecToken {
            kind,
            span: span_between(st, bump(st)),
            raw: input.subrange(st.pos, st.pos + 1),
        },
        bump(st),
    )
}

/// The structural kind of a single character, if it has one.
pub open spec fn structural_kind(c: char) -> Option<SpecTokenKind> {
    if c == '(' {
        Some(SpecTokenKind::LeftParen)
    } else if c == ')' {
        Some(SpecTokenKind::RightParen)
    } else if c == '[' {
        Some(SpecTokenKind::LeftBracket)
    } else if c == ']' {
        Some(SpecTokenKind::RightBracket)
    } else if c == '{' {
        Some(SpecTokenKind::LeftBrace)
    } else if c == '}' {
        Some(SpecTokenKind::RightBrace)
    } else if c == '~' {
        Some(SpecTokenKind::Tilde)
    } else if c == ':' {
        Some(SpecTokenKind::Colon)
    } else {
        None
    }
}

/// A quoted string: everything up to the closing quote, which must exist;
/// the error reports the opening quote's position.
pub open spec fn quoted_step(input: Seq<char>, st: LexSt) -> SpecNext {
    let inner = nonquote_run(input, st.pos + 1) as int;
    if st.pos + 1 + inner >= input.len() {
        SpecNext::Fail(st_pos(st), "Unterminated quoted string"@)
    } else {
        let value = input.subrange(st.pos + 1, st.pos + 1 + inner);
        let raw = input.subrange(st.pos, st.pos + 2 + inner);
        let lc = advance_lc(bump(st), value);
        let st2 = LexSt { pos: st.pos + 2 + inner, line: lc.line, column: lc.column + 1 };
        SpecNext::Tok(
            SpecToken {
                kind: SpecTokenKind::QuotedString(value),
                span: span_between(st, st2),
                raw,
            },
            st2,
        )
    }
}

/// The keyword prefix that proximity operators start with.
pub open spec fn near_prefix() -> Seq<char> {
    seq!['N', 'E', 'A', 'R', '/']
}

/// Reclassification of a word after maximal munch: the boolean keywords,
/// `TO`, and `NEAR/<digits>` with an optional `f` suffix; everything else
/// stays a plain word.
pub open spec fn spec_classify_word(value: Seq<char>) -> SpecTokenKind {
    if value == seq!['A', 'N', 'D'] {
        SpecTokenKind::And
    } else if value == seq!['O', 'R'] {
        SpecTokenKind::Or
    } else if value == seq!['N', 'O', 'T'] {
        SpecTokenKind::Not
    } else if value == seq!['T', 'O'] {
        SpecTokenKind::To
    } else if value.len() >= 5 && value.take(5) == near_prefix() {
        if value.last() == 'f' && value.len() > 6 {
            match spec_parse_u32(value.subrange(5, value.len() - 1)) {
                Some(d) => SpecTokenKind::NearForward(d),
                None => SpecTokenKind::Word(value),
            }
        } else if value.len() > 5 {
            match spec_parse_u32(value.subrange(5, value.len() as int)) {
                Some(d) => SpecTokenKind::Near(d),
                None => SpecTokenKind::Word(value),
            }
        } else {
            SpecTokenKind::Word(value)
        }
    } else {
        SpecTokenKind::Word(value)
    }
}

/// A word token: the maximal run of word characters, reclassified.
pub open spec fn word_step(input: Seq<char>, st: LexSt) -> SpecNext {
    let run0 = word_run(input, st.pos) as int;
    let run = if run0 == 0 {
        1
    } else {
        run0
    };
    let value = input.subrange(st.pos, st.pos + run);
    let st2 = bump_by(st, run);
    SpecNext::Tok(
        SpecToken { kind: spec_classify_word(value), span: span_between(st, st2), raw: value },
        st2,
    )
}

/// A number token: an optional leading minus, then digits and dots.
pub open spec fn number_step(input: Seq<char>, st: LexSt) -> SpecNext {
    let sign: int = if input[st.pos] == '-' {
        1
    } else {
        0
    };
    let run = num_run(input, st.pos + sign) as int;
    let value = input.subrange(st.pos, st.pos + sign + run);
    let st2 = bump_by(st, sign + run);
    SpecNext::Tok(
        SpecToken { kind: SpecTokenKind::Number(value), span: span_between(st, st2), raw: value },
        st2,
    )
}

/// A hashtag or mention: the marker, then a run of tag characters; the
/// value excludes the marker, the raw text includes it.
pub open spec fn tag_step(input: Seq<char>, st: LexSt, mention: bool) -> SpecNext {
    let run = tag_run(input, st.pos + 1) as int;
    let value = input.subrange(st.pos + 1, st.pos + 1 + run);
    let raw = input.subrange(st.pos, st.pos + 1 + run);
    let st2 = bump_by(st, 1 + run);
    SpecNext::Tok(
        SpecToken {
            kind: if mention {
                SpecTokenKind::Mention(value)
            } else {
                SpecTokenKind::Hashtag(value)
            },
            span: span_between(st, st2),
            raw,
        },
        st2,
    )
}

/// A comment delimiter: exactly three `<` or three `>`.
pub open spec fn comment_step(input: Seq<char>, st: LexSt, end: bool) -> SpecNext {
    let st2 = bump_by(st, 3);
    SpecNext::Tok(
        SpecToken {
            kind: if end {
                SpecTokenKind::CommentEnd
            } else {
                SpecTokenKind::CommentStart
            },
            span: span_between(st, st2),
            raw: input.subrange(st.pos, st.pos + 3),
        },
        st2,
    )
}

/// The message for a character no rule accepts.
pub open spec fn unexpected_char_msg(c: char) -> Seq<char> {
    "Unexpected character '"@ + seq![c] + "'"@
}

/// One step of the scanner at a position strictly inside the input.
pub open spec fn spec_next(input: Seq<char>, st: LexSt) -> SpecNext
    recommends
        st_wf(input, st),
        st.pos < input.len(),
{
    let c = input[st.pos];
    if ws_char(c) {
        let st2 = step_lc(st, c);
        SpecNext::Tok(
            SpecToken {
                kind: SpecTokenKind::Whitespace,
                span: span_between(st, st2),
                raw: input.subrange(st.pos, st.pos + 1),
            },
            st2,
        )
    } else if c == '"' {
        quoted_step(input, st)
    } else if structural_kind(c) is Some {
        single_tok(input, st, structural_kind(c)->Some_0)
    } else if c == '<' && st.pos + 2 < input.len() && input[st.pos + 1] == '<' && input[st.pos + 2]
        == '<' {
        comment_step(input, st, false)
    } else if c == '>' && st.pos + 2 < input.len() && input[st.pos + 1] == '>' && input[st.pos + 2]
        == '>' {
        comment_step(input, st, true)
    } else if c == '#' {
        tag_step(input, st, false)
    } else if c == '@' {
        tag_step(input, st, true)
    } else if spec_is_digit(c) || (c == '-' && st.pos + 1 < input.len() && spec_is_digit(
        input[st.pos + 1],
    )) {
        number_step(input, st)
    } else if word_start_char(c) {
        word_step(input, st)
    } else {
        SpecNext::Fail(st_pos(st), unexpected_char_msg(c))
    }
}

/// The zero-width end-of-input token.
pub open spec fn eof_token(st: LexSt) -> SpecToken {
    SpecToken {
        kind: SpecTokenKind::Eof,
        span: SpecSpan { start: st_pos(st), end: st_pos(st) },
        raw: Seq::<char>::empty(),
    }
}

/// Lexing from a cursor to the end of the input: whitespace tokens are
/// dropped, the first failure is fatal, and the end-of-input token closes
/// the sequence.
pub open spec fn lex_from(input: Seq<char>, st: LexSt) -> Result<Seq<SpecToken>, SpecLintError>
    decreases input.len() - st.pos,
{
    if st.pos >= input.len() {
        Ok(seq![eof_token(st)])
    } else {
        match spec_next(input, st) {
            SpecNext::Fail(p, m) => Err(SpecLintError::LexerError { position: p, message: m }),
            SpecNext::Tok(t, st2) => {
                if st.pos < st2.pos <= input.len() {
                    match lex_from(input, st2) {
                        Err(e) => Err(e),
                        Ok(rest) => if t.kind is Whitespace {
                            Ok(rest)
                        } else {
                            Ok(seq![t] + rest)
                        },
                    }
                } else {
                    // Unreachable: every scanner step consumes at least one
                    // character; the executable lexer's contracts prove it.
                    Err(SpecLintError::LexerError { position: st_pos(st), message: Seq::empty() })
                }
            },
        }
    }
}

/// What lexing a whole text must produce.
pub open spec fn spec_lex(input: Seq<char>) -> Result<Seq<SpecToken>, SpecLintError> {
    lex_from(input, init_st())
}

/// Position `k` of the input lies inside some token's span.
pub open spec fn in_some_token(toks: Seq<SpecToken>, k: int) -> bool {
    exists|i: int|
        0 <= i < toks.len() && (#[trigger] toks[i]).span.start.offset <= k
            < toks[i].span.end.offset
}

/// Every input position from `lo` on is either inside a token's span or
/// holds a whitespace character.
pub open spec fn covered_or_ws(input: Seq<char>, lo: int, toks: Seq<SpecToken>) -> bool {
    forall|k: int|
        lo <= k < input.len() ==> #[trigger] in_some_token(toks, k) || ws_char(input[k])
}

/// The tokens lay the input from `lo` back out: each token's raw text is
/// the exact slice its span addresses, tokens stand in source order, the
/// last is the end-of-input token, and the positions left uncovered are
/// whitespace.
pub open spec fn faithful_tokens(input: Seq<char>, lo: int, toks: Seq<SpecToken>) -> bool {
    &&& toks.len() >= 1
    &&& toks.last().kind is Eof
    &&& forall|i: int|
        0 <= i < toks.len() ==> lo <= (#[trigger] toks[i]).span.start.offset
            && toks[i].span.start.offset <= toks[i].span.end.offset <= input.len()
            && toks[i].raw == input.subrange(toks[i].span.start.offset, toks[i].span.end.offset)
    &&& forall|i: int, j: int|
        #![trigger toks[i], toks[j]]
        0 <= i < j < toks.len() ==> toks[i].span.end.offset <= toks[j].span.start.offset
    &&& covered_or_ws(input, lo, toks)
}

/// One scanner step always consumes at least one character, stays inside
/// the input, spans exactly what it consumed, and carries that slice as
/// its raw text.
pub proof fn lemma_spec_next_shape(input: Seq<char>, st: LexSt)
    requires
        st_wf(input, st),
        st.pos < input.len(),
    ensures
        spec_next(input, st) matches SpecNext::Tok(t, st2) ==> {
            &&& st_wf(input, st2)
            &&& st.pos < st2.pos <= input.len()
            &&& t.span.start.offset == st.pos
            &&& t.span.end.offset == st2.pos
            &&& t.raw == input.subrange(st.pos, st2.pos)
            &&& (t.kind is Whitespace ==> st2.pos == st.pos + 1 && ws_char(input[st.pos]))
        },
{
    let c = input[st.pos];
    if ws_char(c) {
    } else if c == '"' {
        lemma_nonquote_run_le(input, st.pos + 1);
        let inner = nonquote_run(input, st.pos + 1) as int;
        if st.pos + 1 + inner < input.len() {
            let value = input.subrange(st.pos + 1, st.pos + 1 + inner);
            lemma_advance_lc(bump(st), value);
        }
    } else if structural_kind(c) is Some {
    } else if c == '<' && st.pos + 2 < input.len() && input[st.pos + 1] == '<' && input[st.pos + 2]
        == '<' {
    } else if c == '>' && st.pos + 2 < input.len() && input[st.pos + 1] == '>' && input[st.pos + 2]
        == '>' {
    } else if c == '#' || c == '@' {
        lemma_tag_run_le(input, st.pos + 1);
    } else if spec_is_digit(c) || (c == '-' && st.pos + 1 < input.len() && spec_is_digit(
        input[st.pos + 1],
    )) {
        let sign: int = if c == '-' {
            1
        } else {
            0
        };
        lemma_num_run_le(input, st.pos + sign);
    } else if word_start_char(c) {
        lemma_word_run_le(input, st.pos);
    } else {
    }
}

/// The induction behind the round-trip law, generalized over the scan
/// cursor.
pub proof fn lemma_lex_from_faithful(input: Seq<char>, st: LexSt)
    requires
        st_wf(input, st),
    ensures
        lex_from(input, st) matches Ok(toks) ==> faithful_tokens(input, st.pos, toks),
    decreases input.len() - st.pos,
{
    if st.pos >= input.len() {
        let toks = seq![eof_token(st)];
        assert(eof_token(st).raw =~= input.subrange(st.pos, st.pos));
        assert(toks.last().kind is Eof);
    } else {
        lemma_spec_next_shape(input, st);
        match spec_next(input, st) {
            SpecNext::Fail(_, _) => {},
            SpecNext::Tok(t, st2) => {
                lemma_lex_from_faithful(input, st2);
                match lex_from(input, st2) {
                    Err(_) => {},
                    Ok(rest) => {
                        if t.kind is Whitespace {
                            assert forall|k: int| st.pos <= k < input.len() implies #[trigger]
                            in_some_token(rest, k) || ws_char(input[k]) by {
                                if k > st.pos {
                                    assert(st2.pos <= k);
                                }
                            }
                            assert(faithful_tokens(input, st.pos, rest));
                        } else {
                            let toks = seq![t] + rest;
                            assert(toks[0] == t);
                            assert(forall|i: int|
                                0 <= i < rest.len() ==> toks[i + 1] == #[trigger] rest[i]);
                            assert(toks.last() == rest.last());
                            assert forall|i: int|
                                0 <= i < toks.len() implies st.pos <= (
                            #[trigger] toks[i]).span.start.offset && toks[i].span.start.offset
                                <= toks[i].span.end.offset <= input.len() && toks[i].raw
                                == input.subrange(
                                toks[i].span.start.offset,
                                toks[i].span.end.offset,
                            ) by {
                                if i > 0 {
                                    assert(toks[i] == rest[i - 1]);
                                }
                            }
                            assert forall|i: int, j: int|
                                #![trigger toks[i], toks[j]]
                                0 <= i < j < toks.len() implies toks[i].span.end.offset
                                <= toks[j].span.start.offset by {
                                if i > 0 {
                                    assert(toks[i] == rest[i - 1]);
                                    assert(toks[j] == rest[j - 1]);
                                } else {
                                    assert(toks[j] == rest[j - 1]);
                                    assert(st2.pos <= rest[j - 1].span.start.offset);
                                }
                            }
                            assert forall|k: int| st.pos <= k < input.len() implies #[trigger]
                            in_some_token(toks, k) || ws_char(input[k]) by {
                                if k < st2.pos {
                                    assert(toks[0].span.start.offset <= k
                                        < toks[0].span.end.offset);
                                    assert(in_some_token(toks, k));
                                } else {
                                    assert(in_some_token(rest, k) || ws_char(input[k]));
                                    if in_some_token(rest, k) {
                                        let i = choose|i: int|
                                            0 <= i < rest.len() && (
                                            #[trigger] rest[i]).span.start.offset <= k
                                                < rest[i].span.end.offset;
                                        assert(toks[i + 1] == rest[i]);
                                        assert(in_some_token(toks, k));
                                    }
                                }
                            }
                            assert(faithful_tokens(input, st.pos, toks));
                        }
                    },
                }
            },
        }
    }
}

/// Round-trip span coverage: when lexing succeeds, every token's raw text
/// equals the exact input slice its span addresses, the tokens stand in
/// source order ending with the end-of-input token, and every position
/// outside all token spans holds whitespace — so the tokens' raw texts,
/// with the skipped whitespace reinserted, reconstruct the input exactly.
pub proof fn lemma_lex_round_trip(input: Seq<char>)
    ensures
        spec_lex(input) matches Ok(toks) ==> faithful_tokens(input, 0, toks),
{
    lemma_lex_from_faithful(input, init_st());
}

} // verus!
