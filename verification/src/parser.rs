//! The recursive-descent parser: tokens to an expression tree.
//!
//! Precedence, lowest first: `OR`, then explicit `AND` or an implicit
//! `AND` written as juxtaposition, then prefix `NOT`, then the atoms:
//! terms, groups, field-scoped operands, ranges, and proximity.  The
//! executable parser is proved equal to the model below, so parsing is a
//! pure function of the token sequence; the first ill-formed token is a
//! single fatal error.

use vstd::prelude::*;

use crate::ast::Expression;
use crate::ast::FieldType;
use crate::ast::SpecExpr;
use crate::ast::SpecTerm;
use crate::ast::Term;
use crate::ast::spec_expr_span;
use crate::error::LintError;
use crate::error::LintResult;
use crate::error::SpecLintError;
use crate::error::SpecPos;
use crate::error::SpecSpan;
use crate::error::Span;
use crate::lex_model::SpecToken;
use crate::lex_model::SpecTokenKind;
use crate::lexer::Token;
use crate::lexer::TokenType;

verus! {

/// The views of a token list.
pub open spec fn tokens_view(s: Seq<Token>) -> Seq<SpecToken> {
    s.map_values(|t: Token| t@)
}

/// A value has an occurrence of `c`.
pub open spec fn has_char(s: Seq<char>, c: char) -> bool {
    exists|i: int| 0 <= i < s.len() && s[i] == c
}

/// Classification of a word value into a term: a `*` makes it a
/// wildcard, otherwise a `?` makes it a replacement, otherwise it is a
/// plain word.
pub open spec fn spec_term_of_word(value: Seq<char>) -> SpecTerm {
    if has_char(value, '*') {
        SpecTerm::Wildcard { value }
    } else if has_char(value, '?') {
        SpecTerm::Replacement { value }
    } else {
        SpecTerm::Word { value }
    }
}

/// The recognized field names.
pub open spec fn spec_field_of(w: Seq<char>) -> Option<FieldType> {
    if w == "title"@ {
        Some(FieldType::Title)
    } else if w == "site"@ {
        Some(FieldType::Site)
    } else if w == "language"@ {
        Some(FieldType::Language)
    } else if w == "authorFollowers"@ {
        Some(FieldType::AuthorFollowers)
    } else {
        None
    }
}

/// A token that can open an atom, used to recognize an implicit `AND`.
pub open spec fn starts_atom(k: SpecTokenKind) -> bool {
    ||| k is Word
    ||| k is QuotedString
    ||| k is Number
    ||| k is Hashtag
    ||| k is Mention
    ||| k is LeftParen
    ||| k is LeftBracket
    ||| k is LeftBrace
    ||| k is Not
}

/// A token that can stand as a range bound, with its text.
pub open spec fn bound_value(k: SpecTokenKind) -> Option<Seq<char>> {
    match k {
        SpecTokenKind::Word(w) => Some(w),
        SpecTokenKind::Number(v) => Some(v),
        _ => None,
    }
}

pub open spec fn perr(span: SpecSpan, message: Seq<char>) -> SpecLintError {
    SpecLintError::ParserError { span, message }
}

/// The zero span used when the token list ends without an end-of-input
/// token.
pub open spec fn zero_span() -> SpecSpan {
    SpecSpan {
        start: SpecPos { line: 0, column: 0, offset: 0 },
        end: SpecPos { line: 0, column: 0, offset: 0 },
    }
}

pub open spec fn span_over(a: SpecSpan, b: SpecSpan) -> SpecSpan {
    SpecSpan { start: a.start, end: b.end }
}

/// A range: the cursor is at `[` or `{`; reads `bound TO bound` and the
/// matching closing delimiter.
pub open spec fn spec_parse_range(
    toks: Seq<SpecToken>,
    pos: int,
    field: Option<FieldType>,
    start_span: SpecSpan,
) -> Result<(SpecExpr, int), SpecLintError>
    recommends
        0 <= pos < toks.len(),
{
    let brace = toks[pos].kind is LeftBrace;
    if pos + 4 >= toks.len() {
        Err(perr(toks[pos].span, "Unterminated range"@))
    } else {
        match bound_value(toks[pos + 1].kind) {
            None => Err(perr(toks[pos + 1].span, "Expected a range bound"@)),
            Some(lo) => {
                if !(toks[pos + 2].kind is To) {
                    Err(perr(toks[pos + 2].span, "Expected TO in range"@))
                } else {
                    match bound_value(toks[pos + 3].kind) {
                        None => Err(perr(toks[pos + 3].span, "Expected a range bound"@)),
                        Some(hi) => {
                            let closes = if brace {
                                toks[pos + 4].kind is RightBrace
                            } else {
                                toks[pos + 4].kind is RightBracket
                            };
                            if !closes {
                                Err(perr(toks[pos + 4].span, "Expected a closing bracket"@))
                            } else {
                                Ok(
                                    (
                                        SpecExpr::Range {
                                            field,
                                            start: lo,
                                            end: hi,
                                            span: span_over(start_span, toks[pos + 4].span),
                                        },
                                        pos + 5,
                                    ),
                                )
                            }
                        },
                    }
                }
            },
        }
    }
}

/// An atom, or a prefix `NOT` before one.
pub open spec fn spec_parse_not(toks: Seq<SpecToken>, pos: int) -> Result<
    (SpecExpr, int),
    SpecLintError,
>
    decreases toks.len() - pos, 0int,
{
    if pos < 0 || pos >= toks.len() {
        Err(perr(zero_span(), "Unexpected end of input"@))
    } else {
        let t = toks[pos];
        match t.kind {
            SpecTokenKind::Not => {
                match spec_parse_not(toks, pos + 1) {
                    Err(e) => Err(e),
                    Ok((operand, p)) => Ok(
                        (
                            SpecExpr::Not {
                                operand: Box::new(operand),
                                span: span_over(t.span, spec_expr_span(operand)),
                            },
                            p,
                        ),
                    ),
                }
            },
            SpecTokenKind::Word(w) => {
                if pos + 1 < toks.len() && toks[pos + 1].kind is Colon {
                    match spec_field_of(w) {
                        None => Err(perr(t.span, "Unknown field '"@ + w + "'"@)),
                        Some(f) => {
                            let opens = pos + 2 < toks.len() && (toks[pos + 2].kind
                                is LeftBracket || toks[pos + 2].kind is LeftBrace);
                            if opens {
                                spec_parse_range(toks, pos + 2, Some(f), t.span)
                            } else {
                                match spec_parse_not(toks, pos + 2) {
                                    Err(e) => Err(e),
                                    Ok((operand, p)) => Ok(
                                        (
                                            SpecExpr::Field {
                                                field: f,
                                                operand: Box::new(operand),
                                                span: span_over(t.span, spec_expr_span(operand)),
                                            },
                                            p,
                                        ),
                                    ),
                                }
                            }
                        },
                    }
                } else {
                    Ok(
                        (
                            SpecExpr::Term { term: spec_term_of_word(w), span: t.span },
                            pos + 1,
                        ),
                    )
                }
            },
            SpecTokenKind::QuotedString(s) => {
                if pos + 2 < toks.len() && toks[pos + 1].kind is Tilde && toks[pos + 2].kind
                    is Number {
                    let v = toks[pos + 2].kind->Number_0;
                    match crate::numeric::spec_parse_u32(v) {
                        None => Err(
                            perr(
                                toks[pos + 2].span,
                                "Proximity distance must be a whole number"@,
                            ),
                        ),
                        Some(d) => Ok(
                            (
                                SpecExpr::Proximity {
                                    terms: seq![SpecTerm::Phrase { value: s }],
                                    distance: d,
                                    forward: false,
                                    span: span_over(t.span, toks[pos + 2].span),
                                },
                                pos + 3,
                            ),
                        ),
                    }
                } else {
                    Ok(
                        (
                            SpecExpr::Term { term: SpecTerm::Phrase { value: s }, span: t.span },
                            pos + 1,
                        ),
                    )
                }
            },
            SpecTokenKind::Number(v) => Ok(
                (SpecExpr::Term { term: SpecTerm::Number { value: v }, span: t.span }, pos + 1),
            ),
            SpecTokenKind::Hashtag(h) => Ok(
                (SpecExpr::Term { term: SpecTerm::Hashtag { value: h }, span: t.span }, pos + 1),
            ),
            SpecTokenKind::Mention(m) => Ok(
                (SpecExpr::Term { term: SpecTerm::Mention { value: m }, span: t.span }, pos + 1),
            ),
            SpecTokenKind::LeftParen => {
                match spec_parse_or(toks, pos + 1) {
                    Err(e) => Err(e),
                    Ok((inner, p)) => {
                        if p < toks.len() && toks[p].kind is RightParen {
                            Ok(
                                (
                                    SpecExpr::Group {
                                        inner: Box::new(inner),
                                        span: span_over(t.span, toks[p].span),
                                    },
                                    p + 1,
                                ),
                            )
                        } else if p < toks.len() {
                            Err(perr(toks[p].span, "Expected a closing parenthesis"@))
                        } else {
                            Err(perr(zero_span(), "Unexpected end of input"@))
                        }
                    },
                }
            },
            SpecTokenKind::LeftBracket => spec_parse_range(toks, pos, None, t.span),
            SpecTokenKind::LeftBrace => spec_parse_range(toks, pos, None, t.span),
            _ => Err(perr(t.span, "Unexpected token"@)),
        }
    }
}

/// A `NOT`-level operand, then proximity operators, explicit `AND`, or
/// juxtaposition.
pub open spec fn spec_parse_and(toks: Seq<SpecToken>, pos: int) -> Result<
    (SpecExpr, int),
    SpecLintError,
>
    decreases toks.len() - pos, 2int,
{
    match spec_parse_not(toks, pos) {
        Err(e) => Err(e),
        Ok((l, p)) => {
            if !(pos < p <= toks.len()) {
                Err(perr(zero_span(), "Unexpected end of input"@))
            } else if p < toks.len() && (toks[p].kind is Near || toks[p].kind is NearForward) {
                let forward = toks[p].kind is NearForward;
                let d = if forward {
                    toks[p].kind->NearForward_0
                } else {
                    toks[p].kind->Near_0
                };
                match spec_parse_not(toks, p + 1) {
                    Err(e) => Err(e),
                    Ok((rr, p2)) => {
                        if !(p + 1 <= p2 <= toks.len()) {
                            Err(perr(zero_span(), "Unexpected end of input"@))
                        } else {
                            match (l, rr) {
                                (
                                    SpecExpr::Term { term: lt, span: ls },
                                    SpecExpr::Term { term: rt, span: rs },
                                ) => {
                                    let prox = SpecExpr::Proximity {
                                        terms: seq![lt, rt],
                                        distance: d,
                                        forward,
                                        span: span_over(ls, rs),
                                    };
                                    spec_parse_and_rest(toks, pos, prox, p2)
                                },
                                _ => Err(
                                    perr(toks[p].span, "Proximity operators need plain terms"@),
                                ),
                            }
                        }
                    },
                }
            } else {
                spec_parse_and_rest(toks, pos, l, p)
            }
        },
    }
}

/// The continuation of an `AND` chain after its first operand.
pub open spec fn spec_parse_and_rest(
    toks: Seq<SpecToken>,
    pos: int,
    l: SpecExpr,
    p: int,
) -> Result<(SpecExpr, int), SpecLintError>
    decreases toks.len() - pos, 1int,
{
    if !(pos < p <= toks.len()) {
        Err(perr(zero_span(), "Unexpected end of input"@))
    } else if p < toks.len() && toks[p].kind is And {
        match spec_parse_and(toks, p + 1) {
            Err(e) => Err(e),
            Ok((rr, p2)) => Ok(
                (
                    SpecExpr::And {
                        left: Box::new(l),
                        right: Box::new(rr),
                        span: span_over(spec_expr_span(l), spec_expr_span(rr)),
                    },
                    p2,
                ),
            ),
        }
    } else if p < toks.len() && starts_atom(toks[p].kind) {
        match spec_parse_and(toks, p) {
            Err(e) => Err(e),
            Ok((rr, p2)) => Ok(
                (
                    SpecExpr::And {
                        left: Box::new(l),
                        right: Box::new(rr),
                        span: span_over(spec_expr_span(l), spec_expr_span(rr)),
                    },
                    p2,
                ),
            ),
        }
    } else {
        Ok((l, p))
    }
}

/// An `OR` chain of `AND` chains; `OR` associates to the right.
pub open spec fn spec_parse_or(toks: Seq<SpecToken>, pos: int) -> Result<
    (SpecExpr, int),
    SpecLintError,
>
    decreases toks.len() - pos, 3int,
{
    match spec_parse_and(toks, pos) {
        Err(e) => Err(e),
        Ok((l, p)) => {
            if !(pos < p <= toks.len()) {
                Err(perr(zero_span(), "Unexpected end of input"@))
            } else if p < toks.len() && toks[p].kind is Or {
                match spec_parse_or(toks, p + 1) {
                    Err(e) => Err(e),
                    Ok((rr, p2)) => Ok(
                        (
                            SpecExpr::Or {
                                left: Box::new(l),
                                right: Box::new(rr),
                                span: span_over(spec_expr_span(l), spec_expr_span(rr)),
                            },
                            p2,
                        ),
                    ),
                }
            } else {
                Ok((l, p))
            }
        },
    }
}

/// What parsing a whole token sequence must produce: one expression with
/// every token consumed up to the end-of-input token.
pub open spec fn spec_parse(toks: Seq<SpecToken>) -> Result<SpecExpr, SpecLintError> {
    match spec_parse_or(toks, 0) {
        Err(e) => Err(e),
        Ok((e, p)) => {
            if p < toks.len() && toks[p].kind is Eof {
                Ok(e)
            } else if p < toks.len() {
                Err(perr(toks[p].span, "Unexpected token"@))
            } else {
                Err(perr(zero_span(), "Unexpected end of input"@))
            }
        },
    }
}

/// Whether `s` equals a given string, character by character.
fn string_is(s: &String, lit: &str) -> (b: bool)
    ensures
        b == (s@ == lit@),
{
    let a = s.as_str();
    let n = a.unicode_len();
    if n != lit.unicode_len() {
        return false;
    }
    let mut i: usize = 0;
    while i < n
        invariant
            0 <= i <= n,
            n == a@.len(),
            n == lit@.len(),
            a@ == s@,
            forall|j: int| 0 <= j < i ==> a@[j] == lit@[j],
        decreases n - i,
    {
        if a.get_char(i) != lit.get_char(i) {
            return false;
        }
        i = i + 1;
    }
    proof {
        assert(s@ =~= lit@);
    }
    true
}

/// Whether `s` holds the character `c`.
fn contains_char(s: &String, c: char) -> (b: bool)
    ensures
        b == has_char(s@, c),
{
    let a = s.as_str();
    let n = a.unicode_len();
    let mut i: usize = 0;
    while i < n
        invariant
            0 <= i <= n,
            n == a@.len(),
            a@ == s@,
            forall|j: int| 0 <= j < i ==> s@[j] != c,
        decreases n - i,
    {
        if a.get_char(i) == c {
            return true;
        }
        i = i + 1;
    }
    false
}

/// The term a word value stands for.
fn term_of_word(value: String) -> (t: Term)
    ensures
        t@ == spec_term_of_word(value@),
{
    if contains_char(&value, '*') {
        Term::Wildcard { value }
    } else if contains_char(&value, '?') {
        Term::Replacement { value }
    } else {
        Term::Word { value }
    }
}

/// The field a word names, if any.
fn field_of(w: &String) -> (f: Option<FieldType>)
    ensures
        f == spec_field_of(w@),
{
    if string_is(w, "title") {
        Some(FieldType::Title)
    } else if string_is(w, "site") {
        Some(FieldType::Site)
    } else if string_is(w, "language") {
        Some(FieldType::Language)
    } else if string_is(w, "authorFollowers") {
        Some(FieldType::AuthorFollowers)
    } else {
        None
    }
}

/// Parses a whole token sequence, as produced by the lexer, into one
/// expression.
pub fn parse(tokens: &Vec<Token>) -> (r: LintResult<Expression>)
    ensures
        match r {
            Ok(e) => spec_parse(tokens_view(tokens@)) matches Ok(se) && se == e@,
            Err(er) => spec_parse(tokens_view(tokens@)) matches Err(em) && em == er@,
        },
{
    let ghost toks = tokens_view(tokens@);
    match parse_or(tokens, 0) {
        Err(e) => Err(e),
        Ok((e, p)) => {
            if p < tokens.len() && matches!(tokens[p].token_type, TokenType::Eof) {
                Ok(e)
            } else if p < tokens.len() {
                Err(LintError::ParserError {
                    span: tokens[p].span,
                    message: String::from_str("Unexpected token"),
                })
            } else {
                Err(LintError::ParserError {
                    span: zero_span_exec(),
                    message: String::from_str("Unexpected end of input"),
                })
            }
        },
    }
}

/// The zero span for a missing end-of-input token.
fn zero_span_exec() -> (s: Span)
    ensures
        s@ == zero_span(),
{
    Span::single(crate::error::Position::new(0, 0, 0))
}

fn parse_or(tokens: &Vec<Token>, pos: usize) -> (r: LintResult<(Expression, usize)>)
    ensures
        match r {
            Ok((e, p)) => {
                &&& pos < p <= tokens@.len()
                &&& spec_parse_or(tokens_view(tokens@), pos as int) matches Ok(se) && se == (
                e@,
                p as int,
                )
            },
            Err(er) => spec_parse_or(tokens_view(tokens@), pos as int) matches Err(em) && em
                == er@,
        },
    decreases tokens@.len() - pos, 3int,
{
    let ghost toks = tokens_view(tokens@);
    match parse_and(tokens, pos) {
        Err(e) => Err(e),
        Ok((l, p)) => {
            if p < tokens.len() && matches!(tokens[p].token_type, TokenType::Or) {
                match parse_or(tokens, p + 1) {
                    Err(e) => Err(e),
                    Ok((rr, p2)) => {
                        let span = Span::new(l.span().start, rr.span().end);
                        Ok((Expression::Or { left: Box::new(l), right: Box::new(rr), span }, p2))
                    },
                }
            } else {
                Ok((l, p))
            }
        },
    }
}

fn parse_and(tokens: &Vec<Token>, pos: usize) -> (r: LintResult<(Expression, usize)>)
    ensures
        match r {
            Ok((e, p)) => {
                &&& pos < p <= tokens@.len()
                &&& spec_parse_and(tokens_view(tokens@), pos as int) matches Ok(se) && se == (
                e@,
                p as int,
                )
            },
            Err(er) => spec_parse_and(tokens_view(tokens@), pos as int) matches Err(em) && em
                == er@,
        },
    decreases tokens@.len() - pos, 2int,
{
    let ghost toks = tokens_view(tokens@);
    match parse_not(tokens, pos) {
        Err(e) => Err(e),
        Ok((l, p)) => {
            let is_near = p < tokens.len() && matches!(
                tokens[p].token_type,
                TokenType::Near(_) | TokenType::NearForward(_),
            );
            if is_near {
                let (forward, d) = match tokens[p].token_type {
                    TokenType::NearForward(d) => (true, d),
                    TokenType::Near(d) => (false, d),
                    _ => (false, 0u32),
                };
                match parse_not(tokens, p + 1) {
                    Err(e) => Err(e),
                    Ok((rr, p2)) => {
                        match (l, rr) {
                            (
                                Expression::Term { term: lt, span: ls },
                                Expression::Term { term: rt, span: rs },
                            ) => {
                                let mut terms: Vec<Term> = Vec::new();
                                terms.push(lt);
                                terms.push(rt);
                                proof {
                                    assert(terms@.map_values(|t: Term| t@) =~= seq![lt@, rt@]);
                                }
                                let prox = Expression::Proximity {
                                    terms,
                                    distance: d,
                                    forward,
                                    span: Span::new(ls.start, rs.end),
                                };
                                parse_and_rest(tokens, pos, prox, p2)
                            },
                            _ => Err(LintError::ParserError {
                                span: tokens[p].span,
                                message: String::from_str("Proximity operators need plain terms"),
                            }),
                        }
                    },
                }
            } else {
                parse_and_rest(tokens, pos, l, p)
            }
        },
    }
}

fn parse_and_rest(tokens: &Vec<Token>, pos: usize, l: Expression, p: usize) -> (r: LintResult<
    (Expression, usize),
>)
    requires
        pos < p <= tokens@.len(),
    ensures
        match r {
            Ok((e, p2)) => {
                &&& pos < p2 <= tokens@.len()
                &&& spec_parse_and_rest(tokens_view(tokens@), pos as int, l@, p as int)
                    matches Ok(se) && se == (e@, p2 as int)
            },
            Err(er) => spec_parse_and_rest(tokens_view(tokens@), pos as int, l@, p as int)
                matches Err(em) && em == er@,
        },
    decreases tokens@.len() - pos, 1int,
{
    let ghost toks = tokens_view(tokens@);
    if p < tokens.len() && matches!(tokens[p].token_type, TokenType::And) {
        match parse_and(tokens, p + 1) {
            Err(e) => Err(e),
            Ok((rr, p2)) => {
                let span = Span::new(l.span().start, rr.span().end);
                Ok((Expression::And { left: Box::new(l), right: Box::new(rr), span }, p2))
            },
        }
    } else if p < tokens.len() && starts_atom_exec(&tokens[p].token_type) {
        match parse_and(tokens, p) {
            Err(e) => Err(e),
            Ok((rr, p2)) => {
                let span = Span::new(l.span().start, rr.span().end);
                Ok((Expression::And { left: Box::new(l), right: Box::new(rr), span }, p2))
            },
        }
    } else {
        Ok((l, p))
    }
}

/// Whether a token can open an atom.
fn starts_atom_exec(k: &TokenType) -> (b: bool)
    ensures
        b == starts_atom(k@),
{
    match k {
        TokenType::Word(_) => true,
        TokenType::QuotedString(_) => true,
        TokenType::Number(_) => true,
        TokenType::Hashtag(_) => true,
        TokenType::Mention(_) => true,
        TokenType::LeftParen => true,
        TokenType::LeftBracket => true,
        TokenType::LeftBrace => true,
        TokenType::Not => true,
        _ => false,
    }
}

fn parse_not(tokens: &Vec<Token>, pos: usize) -> (r: LintResult<(Expression, usize)>)
    ensures
        match r {
            Ok((e, p)) => {
                &&& pos < p <= tokens@.len()
                &&& spec_parse_not(tokens_view(tokens@), pos as int) matches Ok(se) && se == (
                e@,
                p as int,
                )
            },
            Err(er) => spec_parse_not(tokens_view(tokens@), pos as int) matches Err(em) && em
                == er@,
        },
    decreases tokens@.len() - pos, 0int,
{
    let ghost toks = tokens_view(tokens@);
    if pos >= tokens.len() {
        return Err(LintError::ParserError {
            span: zero_span_exec(),
            message: String::from_str("Unexpected end of input"),
        });
    }
    let t_span = tokens[pos].span;
    match &tokens[pos].token_type {
        TokenType::Not => {
            match parse_not(tokens, pos + 1) {
                Err(e) => Err(e),
                Ok((operand, p)) => {
                    let span = Span::new(t_span.start, operand.span().end);
                    Ok((Expression::Not { operand: Box::new(operand), span }, p))
                },
            }
        },
        TokenType::Word(w) => {
            if tokens.len() - pos > 1 && matches!(tokens[pos + 1].token_type, TokenType::Colon) {
                match field_of(w) {
                    None => {
                        let mut message = String::from_str("Unknown field '");
                        message.append(w.as_str());
                        message.append("'");
                        Err(LintError::ParserError { span: t_span, message })
                    },
                    Some(f) => {
                        let opens_range = tokens.len() - pos > 2 && matches!(
                            tokens[pos + 2].token_type,
                            TokenType::LeftBracket | TokenType::LeftBrace,
                        );
                        if opens_range {
                            parse_range(tokens, pos + 2, Some(f), t_span, pos)
                        } else {
                            match parse_not(tokens, pos + 2) {
                                Err(e) => Err(e),
                                Ok((operand, p)) => {
                                    let span = Span::new(t_span.start, operand.span().end);
                                    Ok(
                                        (
                                            Expression::Field {
                                                field: f,
                                                operand: Box::new(operand),
                                                span,
                                            },
                                            p,
                                        ),
                                    )
                                },
                            }
                        }
                    },
                }
            } else {
                let term = term_of_word(w.clone());
                Ok((Expression::Term { term, span: t_span }, pos + 1))
            }
        },
        TokenType::QuotedString(s) => {
            let has_tilde = tokens.len() - pos > 2 && matches!(
                tokens[pos + 1].token_type,
                TokenType::Tilde,
            ) && matches!(tokens[pos + 2].token_type, TokenType::Number(_));
            if has_tilde {
                let dv = match &tokens[pos + 2].token_type {
                    TokenType::Number(v) => crate::numeric::parse_u32_str(v),
                    _ => None,
                };
                match dv {
                    None => Err(LintError::ParserError {
                        span: tokens[pos + 2].span,
                        message: String::from_str("Proximity distance must be a whole number"),
                    }),
                    Some(d) => {
                        let mut terms: Vec<Term> = Vec::new();
                        terms.push(Term::Phrase { value: s.clone() });
                        proof {
                            assert(terms@.map_values(|t: Term| t@) =~= seq![
                                SpecTerm::Phrase { value: s@ },
                            ]);
                        }
                        let span = Span::new(t_span.start, tokens[pos + 2].span.end);
                        Ok(
                            (
                                Expression::Proximity {
                                    terms,
                                    distance: d,
                                    forward: false,
                                    span,
                                },
                                pos + 3,
                            ),
                        )
                    },
                }
            } else {
                Ok(
                    (
                        Expression::Term { term: Term::Phrase { value: s.clone() }, span: t_span },
                        pos + 1,
                    ),
                )
            }
        },
        TokenType::Number(v) => Ok(
            (Expression::Term { term: Term::Number { value: v.clone() }, span: t_span }, pos + 1),
        ),
        TokenType::Hashtag(h) => Ok(
            (Expression::Term { term: Term::Hashtag { value: h.clone() }, span: t_span }, pos + 1),
        ),
        TokenType::Mention(m) => Ok(
            (Expression::Term { term: Term::Mention { value: m.clone() }, span: t_span }, pos + 1),
        ),
        TokenType::LeftParen => {
            match parse_or(tokens, pos + 1) {
                Err(e) => Err(e),
                Ok((inner, p)) => {
                    if p < tokens.len() && matches!(tokens[p].token_type, TokenType::RightParen) {
                        let span = Span::new(t_span.start, tokens[p].span.end);
                        Ok((Expression::Group { inner: Box::new(inner), span }, p + 1))
                    } else if p < tokens.len() {
                        Err(LintError::ParserError {
                            span: tokens[p].span,
                            message: String::from_str("Expected a closing parenthesis"),
                        })
                    } else {
                        Err(LintError::ParserError {
                            span: zero_span_exec(),
                            message: String::from_str("Unexpected end of input"),
                        })
                    }
                },
            }
        },
        TokenType::LeftBracket => parse_range(tokens, pos, None, t_span, pos),
        TokenType::LeftBrace => parse_range(tokens, pos, None, t_span, pos),
        _ => Err(LintError::ParserError {
            span: t_span,
            message: String::from_str("Unexpected token"),
        }),
    }
}

/// Reads `bound TO bound` and the closing delimiter; `open_pos` is where
/// the whole expression began, for the error cases of `spec_parse_not`.
fn parse_range(
    tokens: &Vec<Token>,
    pos: usize,
    field: Option<FieldType>,
    start_span: Span,
    open_pos: usize,
) -> (r: LintResult<(Expression, usize)>)
    requires
        open_pos <= pos < tokens@.len(),
    ensures
        match r {
            Ok((e, p)) => {
                &&& open_pos < p <= tokens@.len()
                &&& spec_parse_range(tokens_view(tokens@), pos as int, field, start_span@)
                    matches Ok(se) && se == (e@, p as int)
            },
            Err(er) => spec_parse_range(tokens_view(tokens@), pos as int, field, start_span@)
                matches Err(em) && em == er@,
        },
{
    let ghost toks = tokens_view(tokens@);
    let brace = matches!(tokens[pos].token_type, TokenType::LeftBrace);
    if tokens.len() - pos < 5 {
        return Err(LintError::ParserError {
            span: tokens[pos].span,
            message: String::from_str("Unterminated range"),
        });
    }
    let lo = match &tokens[pos + 1].token_type {
        TokenType::Word(w) => Some(w.clone()),
        TokenType::Number(v) => Some(v.clone()),
        _ => None,
    };
    match lo {
        None => Err(LintError::ParserError {
            span: tokens[pos + 1].span,
            message: String::from_str("Expected a range bound"),
        }),
        Some(lo) => {
            if !matches!(tokens[pos + 2].token_type, TokenType::To) {
                return Err(LintError::ParserError {
                    span: tokens[pos + 2].span,
                    message: String::from_str("Expected TO in range"),
                });
            }
            let hi = match &tokens[pos + 3].token_type {
                TokenType::Word(w) => Some(w.clone()),
                TokenType::Number(v) => Some(v.clone()),
                _ => None,
            };
            match hi {
                None => Err(LintError::ParserError {
                    span: tokens[pos + 3].span,
                    message: String::from_str("Expected a range bound"),
                }),
                Some(hi) => {
                    let closes = if brace {
                        matches!(tokens[pos + 4].token_type, TokenType::RightBrace)
                    } else {
                        matches!(tokens[pos + 4].token_type, TokenType::RightBracket)
                    };
                    if !closes {
                        return Err(LintError::ParserError {
                            span: tokens[pos + 4].span,
                            message: String::from_str("Expected a closing bracket"),
                        });
                    }
                    let span = Span::new(start_span.start, tokens[pos + 4].span.end);
                    Ok(
                        (
                            Expression::Range { field, start: lo, end: hi, span },
                            pos + 5,
                        ),
                    )
                },
            }
        },
    }
}

} // verus!
