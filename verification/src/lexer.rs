//! The tokenizer for boolean search queries.
//!
//! `Lexer::tokenize` is proved to return exactly what the model in
//! `lex_model` assigns to its input: the same tokens, spans, raw text and
//! line/column bookkeeping, or the same fatal error.  Because the model is
//! a function of the character sequence alone, lexing is pure: equal inputs
//! give equal token sequences.

use vstd::prelude::*;

use crate::chars::is_alphabetic_char;
use crate::chars::is_alphanumeric_char;
use crate::chars::is_digit;
use crate::chars::push_char;
use crate::error::LintError;
use crate::error::LintResult;
use crate::error::Position;
use crate::error::SpecLintError;
use crate::error::Span;
use crate::lex_model::LexSt;
use crate::lex_model::SpecNext;
use crate::lex_model::SpecToken;
use crate::lex_model::SpecTokenKind;
use crate::lex_model::advance_lc;
use crate::lex_model::bump;
use crate::lex_model::comment_step;
use crate::lex_model::eof_token;
use crate::lex_model::init_st;
use crate::lex_model::lex_from;
use crate::lex_model::near_prefix;
use crate::lex_model::nonquote_run;
use crate::lex_model::num_run;
use crate::lex_model::number_step;
use crate::lex_model::quoted_step;
use crate::lex_model::spec_classify_word;
use crate::lex_model::spec_lex;
use crate::lex_model::spec_next;
use crate::lex_model::st_pos;
use crate::lex_model::structural_kind;
use crate::lex_model::tag_run;
use crate::lex_model::tag_step;
use crate::lex_model::word_char;
use crate::lex_model::word_run;
use crate::lex_model::word_step;
use crate::lex_model::ws_char;
use crate::numeric::parse_u32_in;

verus! {

/// The kind of one token.
#[derive(Debug, Clone, PartialEq)]
pub enum TokenType {
    Word(String),
    QuotedString(String),
    Number(String),
    And,
    Or,
    Not,
    LeftParen,
    RightParen,
    LeftBracket,
    RightBracket,
    LeftBrace,
    RightBrace,
    Tilde,
    Colon,
    Question,
    Asterisk,
    To,
    Near(u32),
    NearForward(u32),
    CommentStart,
    CommentEnd,
    CommentText(String),
    Field(String),
    Hashtag(String),
    Mention(String),
    Whitespace,
    Eof,
}

impl View for TokenType {
    type V = SpecTokenKind;

    open spec fn view(&self) -> SpecTokenKind {
        match self {
            TokenType::Word(s) => SpecTokenKind::Word(s@),
            TokenType::QuotedString(s) => SpecTokenKind::QuotedString(s@),
            TokenType::Number(s) => SpecTokenKind::Number(s@),
            TokenType::And => SpecTokenKind::And,
            TokenType::Or => SpecTokenKind::Or,
            TokenType::Not => SpecTokenKind::Not,
            TokenType::LeftParen => SpecTokenKind::LeftParen,
            TokenType::RightParen => SpecTokenKind::RightParen,
            TokenType::LeftBracket => SpecTokenKind::LeftBracket,
            TokenType::RightBracket => SpecTokenKind::RightBracket,
            TokenType::LeftBrace => SpecTokenKind::LeftBrace,
            TokenType::RightBrace => SpecTokenKind::RightBrace,
            TokenType::Tilde => SpecTokenKind::Tilde,
            TokenType::Colon => SpecTokenKind::Colon,
            TokenType::Question => SpecTokenKind::Question,
            TokenType::Asterisk => SpecTokenKind::Asterisk,
            TokenType::To => SpecTokenKind::To,
            TokenType::Near(d) => SpecTokenKind::Near(*d),
            TokenType::NearForward(d) => SpecTokenKind::NearForward(*d),
            TokenType::CommentStart => SpecTokenKind::CommentStart,
            TokenType::CommentEnd => SpecTokenKind::CommentEnd,
            TokenType::CommentText(s) => SpecTokenKind::CommentText(s@),
            TokenType::Field(s) => SpecTokenKind::Field(s@),
            TokenType::Hashtag(s) => SpecTokenKind::Hashtag(s@),
            TokenType::Mention(s) => SpecTokenKind::Mention(s@),
            TokenType::Whitespace => SpecTokenKind::Whitespace,
            TokenType::Eof => SpecTokenKind::Eof,
        }
    }
}

/// The description of a token kind, as shown in messages.
pub open spec fn spec_describe(k: SpecTokenKind) -> Seq<char> {
    match k {
        SpecTokenKind::Word(w) => "word '"@ + w + "'"@,
        SpecTokenKind::QuotedString(s) => "quoted string '"@ + s + "'"@,
        SpecTokenKind::Number(n) => "number '"@ + n + "'"@,
        SpecTokenKind::And => "AND"@,
        SpecTokenKind::Or => "OR"@,
        SpecTokenKind::Not => "NOT"@,
        SpecTokenKind::LeftParen => "("@,
        SpecTokenKind::RightParen => ")"@,
        SpecTokenKind::LeftBracket => "["@,
        SpecTokenKind::RightBracket => "]"@,
        SpecTokenKind::LeftBrace => "{"@,
        SpecTokenKind::RightBrace => "}"@,
        SpecTokenKind::Tilde => "~"@,
        SpecTokenKind::Colon => ":"@,
        SpecTokenKind::Question => "?"@,
        SpecTokenKind::Asterisk => "*"@,
        SpecTokenKind::To => "TO"@,
        SpecTokenKind::Near(n) => "NEAR/"@ + crate::numeric::spec_u32_dec(n as int),
        SpecTokenKind::NearForward(n) => "NEAR/"@ + crate::numeric::spec_u32_dec(n as int) + "f"@,
        SpecTokenKind::CommentStart => "<<<"@,
        SpecTokenKind::CommentEnd => ">>>"@,
        SpecTokenKind::CommentText(t) => "comment text '"@ + t + "'"@,
        SpecTokenKind::Field(f) => "field '"@ + f + "'"@,
        SpecTokenKind::Hashtag(h) => "hashtag '"@ + h + "'"@,
        SpecTokenKind::Mention(m) => "mention '"@ + m + "'"@,
        SpecTokenKind::Whitespace => "whitespace"@,
        SpecTokenKind::Eof => "end of file"@,
    }
}

impl TokenType {
    /// Describes the token kind for messages: a word between quotes, an
    /// operator as written, or a name for the rest.
    pub fn describe(&self) -> (s: String)
        ensures
            s@ == spec_describe(self@),
    {
        match self {
            TokenType::Word(w) => {
                let mut s = String::from_str("word '");
                s.append(w.as_str());
                s.append("'");
                s
            },
            TokenType::QuotedString(q) => {
                let mut s = String::from_str("quoted string '");
                s.append(q.as_str());
                s.append("'");
                s
            },
            TokenType::Number(n) => {
                let mut s = String::from_str("number '");
                s.append(n.as_str());
                s.append("'");
                s
            },
            TokenType::And => String::from_str("AND"),
            TokenType::Or => String::from_str("OR"),
            TokenType::Not => String::from_str("NOT"),
            TokenType::LeftParen => String::from_str("("),
            TokenType::RightParen => String::from_str(")"),
            TokenType::LeftBracket => String::from_str("["),
            TokenType::RightBracket => String::from_str("]"),
            TokenType::LeftBrace => String::from_str("{"),
            TokenType::RightBrace => String::from_str("}"),
            TokenType::Tilde => String::from_str("~"),
            TokenType::Colon => String::from_str(":"),
            TokenType::Question => String::from_str("?"),
            TokenType::Asterisk => String::from_str("*"),
            TokenType::To => String::from_str("TO"),
            TokenType::Near(n) => {
                let mut s = String::from_str("NEAR/");
                let d = crate::numeric::u32_dec(*n);
                s.append(d.as_str());
                s
            },
            TokenType::NearForward(n) => {
                let mut s = String::from_str("NEAR/");
                let d = crate::numeric::u32_dec(*n);
                s.append(d.as_str());
                s.append("f");
                s
            },
            TokenType::CommentStart => String::from_str("<<<"),
            TokenType::CommentEnd => String::from_str(">>>"),
            TokenType::CommentText(t) => {
                let mut s = String::from_str("comment text '");
                s.append(t.as_str());
                s.append("'");
                s
            },
            TokenType::Field(f) => {
                let mut s = String::from_str("field '");
                s.append(f.as_str());
                s.append("'");
                s
            },
            TokenType::Hashtag(h) => {
                let mut s = String::from_str("hashtag '");
                s.append(h.as_str());
                s.append("'");
                s
            },
            TokenType::Mention(m) => {
                let mut s = String::from_str("mention '");
                s.append(m.as_str());
                s.append("'");
                s
            },
            TokenType::Whitespace => String::from_str("whitespace"),
            TokenType::Eof => String::from_str("end of file"),
        }
    }
}

/// A token with its source span and the raw text it was read from.
#[derive(Debug, Clone, PartialEq)]
pub struct Token {
    pub token_type: TokenType,
    pub span: Span,
    pub raw: String,
}

impl View for Token {
    type V = SpecToken;

    open spec fn view(&self) -> SpecToken {
        SpecToken { kind: self.token_type@, span: self.span@, raw: self.raw@ }
    }
}

impl Token {
    pub fn new(token_type: TokenType, span: Span, raw: String) -> (t: Token)
        ensures
            t == (Token { token_type, span, raw }),
    {
        Token { token_type, span, raw }
    }
}

/// A fresh string holding one character.
fn char_string(c: char) -> (s: String)
    ensures
        s@ == seq![c],
{
    let mut s = String::new();
    push_char(&mut s, c);
    proof {
        assert(s@ =~= seq![c]);
    }
    s
}

/// Whether `c` can continue a word token.
fn is_word_char(c: char) -> (r: bool)
    ensures
        r == word_char(c),
{
    is_alphanumeric_char(c) || c == '_' || c == '.' || c == '-' || c == '/' || c == '*' || c == '?'
}

/// Whether `c` can continue a hashtag or mention.
fn is_tag_char(c: char) -> (r: bool)
    ensures
        r == crate::lex_model::tag_char(c),
{
    is_alphanumeric_char(c) || c == '_' || c == '*' || c == '?'
}

/// The token type of one structural character.
fn structural_token_type(c: char) -> (t: TokenType)
    requires
        structural_kind(c) is Some,
    ensures
        t@ == structural_kind(c)->Some_0,
{
    if c == '(' {
        TokenType::LeftParen
    } else if c == ')' {
        TokenType::RightParen
    } else if c == '[' {
        TokenType::LeftBracket
    } else if c == ']' {
        TokenType::RightBracket
    } else if c == '{' {
        TokenType::LeftBrace
    } else if c == '}' {
        TokenType::RightBrace
    } else if c == '~' {
        TokenType::Tilde
    } else {
        TokenType::Colon
    }
}

/// Reclassifies the word `v[from..to]` (whose text is `value`) after
/// maximal munch.
fn classify_word_token(v: &Vec<char>, from: usize, to: usize, value: String) -> (t: TokenType)
    requires
        from <= to <= v@.len(),
        value@ == v@.subrange(from as int, to as int),
    ensures
        t@ == spec_classify_word(value@),
{
    let len = to - from;
    if len == 3 && v[from] == 'A' && v[from + 1] == 'N' && v[from + 2] == 'D' {
        proof {
            assert(value@ =~= seq!['A', 'N', 'D']);
        }
        TokenType::And
    } else if len == 2 && v[from] == 'O' && v[from + 1] == 'R' {
        proof {
            assert(value@ =~= seq!['O', 'R']);
        }
        TokenType::Or
    } else if len == 3 && v[from] == 'N' && v[from + 1] == 'O' && v[from + 2] == 'T' {
        proof {
            assert(value@ =~= seq!['N', 'O', 'T']);
        }
        TokenType::Not
    } else if len == 2 && v[from] == 'T' && v[from + 1] == 'O' {
        proof {
            assert(value@ =~= seq!['T', 'O']);
        }
        TokenType::To
    } else if len >= 5 && v[from] == 'N' && v[from + 1] == 'E' && v[from + 2] == 'A' && v[from + 3]
        == 'R' && v[from + 4] == '/' {
        proof {
            assert(value@.take(5) =~= near_prefix());
            assert(value@.last() == v@[to - 1]);
        }
        if v[to - 1] == 'f' && len > 6 {
            match parse_u32_in(v, from + 5, to - 1) {
                Some(d) => {
                    proof {
                        assert(v@.subrange(from + 5, to - 1) =~= value@.subrange(
                            5,
                            value@.len() - 1,
                        ));
                    }
                    TokenType::NearForward(d)
                },
                None => {
                    proof {
                        assert(v@.subrange(from + 5, to - 1) =~= value@.subrange(
                            5,
                            value@.len() - 1,
                        ));
                    }
                    TokenType::Word(value)
                },
            }
        } else if len > 5 {
            match parse_u32_in(v, from + 5, to) {
                Some(d) => {
                    proof {
                        assert(v@.subrange(from + 5, to as int) =~= value@.subrange(
                            5,
                            value@.len() as int,
                        ));
                    }
                    TokenType::Near(d)
                },
                None => {
                    proof {
                        assert(v@.subrange(from + 5, to as int) =~= value@.subrange(
                            5,
                            value@.len() as int,
                        ));
                    }
                    TokenType::Word(value)
                },
            }
        } else {
            TokenType::Word(value)
        }
    } else {
        proof {
            if value@.len() >= 5 && value@.take(5) == near_prefix() {
                assert(value@[0] == 'N' && value@[1] == 'E' && value@[2] == 'A' && value@[3] == 'R'
                    && value@[4] == '/');
            }
        }
        TokenType::Word(value)
    }
}

/// Tokenizes a whole query text: the model's tokens, or its fatal error.
pub fn lex(text: &str) -> (r: LintResult<Vec<Token>>)
    requires
        text@.len() < usize::MAX,
    ensures
        match r {
            Ok(tokens) => spec_lex(text@) matches Ok(m) && m == tokens@.map_values(
                |t: Token| t@,
            ),
            Err(e) => spec_lex(text@) matches Err(em) && em == e@,
        },
{
    let mut lexer = Lexer::new(text);
    lexer.tokenize()
}

/// The scanner: turns query text into tokens with spans.
pub struct Lexer {
    input: Vec<char>,
    position: usize,
    line: usize,
    column: usize,
}

impl Lexer {
    /// The characters being scanned.
    pub closed spec fn input_chars(&self) -> Seq<char> {
        self.input@
    }

    /// The scan cursor as a model state.
    pub closed spec fn st(&self) -> LexSt {
        LexSt { pos: self.position as int, line: self.line as int, column: self.column as int }
    }

    /// The scanner's invariant: the cursor stays inside the input and the
    /// line/column counters stay small enough never to overflow.
    pub closed spec fn wf(&self) -> bool {
        &&& self.position <= self.input@.len()
        &&& self.input@.len() < usize::MAX
        &&& 1 <= self.line <= self.position + 1
        &&& 1 <= self.column <= self.position + 1
    }

    pub fn new(input: &str) -> (lx: Lexer)
        requires
            input@.len() < usize::MAX,
        ensures
            lx.wf(),
            lx.input_chars() == input@,
            lx.st() == init_st(),
    {
        let n = input.unicode_len();
        let mut v: Vec<char> = Vec::new();
        let mut i: usize = 0;
        while i < n
            invariant
                0 <= i <= n,
                n == input@.len(),
                v@ == input@.take(i as int),
            decreases n - i,
        {
            let c = input.get_char(i);
            v.push(c);
            proof {
                assert(v@ =~= input@.take(i + 1));
            }
            i = i + 1;
        }
        proof {
            assert(v@ =~= input@);
        }
        Lexer { input: v, position: 0, line: 1, column: 1 }
    }


    fn is_at_end(&self) -> (r: bool)
        ensures
            r == (self.st().pos >= self.input_chars().len()),
    {
        self.position >= self.input.len()
    }

    fn current_char(&self) -> (c: char)
        ensures
            c == if self.st().pos < self.input_chars().len() {
                self.input_chars()[self.st().pos]
            } else {
                '\0'
            },
    {
        if self.is_at_end() {
            '\0'
        } else {
            self.input[self.position]
        }
    }

    fn advance(&mut self)
        requires
            old(self).input@.len() < usize::MAX,
        ensures
            final(self).input == old(self).input,
            final(self).line == old(self).line,
            final(self).column == old(self).column,
            old(self).st().pos < old(self).input_chars().len() ==> final(self).position == old(
                self,
            ).position + 1,
            old(self).st().pos >= old(self).input_chars().len() ==> final(self).position == old(
                self,
            ).position,
    {
        if !self.is_at_end() {
            self.position = self.position + 1;
        }
    }

    fn current_position(&self) -> (p: Position)
        ensures
            p@ == st_pos(self.st()),
    {
        Position::new(self.line, self.column, self.position)
    }

    /// Tokenizes the whole input from the current cursor: exactly the token
    /// sequence of the model, with whitespace dropped and a final
    /// end-of-input token, or the model's fatal error.
    pub fn tokenize(&mut self) -> (r: LintResult<Vec<Token>>)
        requires
            old(self).wf(),
        ensures
            match r {
                Ok(tokens) => lex_from(old(self).input_chars(), old(self).st()) matches Ok(m) && m
                    == tokens@.map_values(|t: Token| t@),
                Err(e) => lex_from(old(self).input_chars(), old(self).st()) matches Err(em) && em
                    == e@,
            },
    {
        let ghost inp = self.input@;
        let ghost st0 = self.st();
        let mut tokens: Vec<Token> = Vec::new();
        while !self.is_at_end()
            invariant
                self.wf(),
                self.input@ == inp,
                inp == old(self).input_chars(),
                st0 == old(self).st(),
                ({
                    let tail = lex_from(inp, self.st());
                    lex_from(inp, st0) == (match tail {
                        Ok(rest) => Ok::<Seq<SpecToken>, SpecLintError>(
                            tokens@.map_values(|t: Token| t@) + rest,
                        ),
                        Err(e) => Err::<Seq<SpecToken>, SpecLintError>(e),
                    })
                }),
            decreases inp.len() - self.st().pos,
        {
            let ghost st_before = self.st();
            let ghost toks_before = tokens@;
            match self.next_token() {
                Err(e) => {
                    proof {
                        assert(st_before.pos < inp.len());
                        assert(lex_from(inp, st_before) == Err::<Seq<SpecToken>, SpecLintError>(
                            e@,
                        ));
                        assert(lex_from(inp, st0) == Err::<Seq<SpecToken>, SpecLintError>(e@));
                    }
                    return Err(e);
                },
                Ok(tok) => {
                    let keep = match tok.token_type {
                        TokenType::Whitespace => false,
                        _ => true,
                    };
                    if keep {
                        tokens.push(tok);
                        proof {
                            assert(tokens@.map_values(|t: Token| t@) =~= toks_before.map_values(
                                |t: Token| t@,
                            ).push(tok@));
                            match lex_from(inp, self.st()) {
                                Ok(rest) => {
                                    assert(toks_before.map_values(|t: Token| t@) + (seq![tok@]
                                        + rest) =~= tokens@.map_values(|t: Token| t@) + rest);
                                },
                                Err(_) => {},
                            }
                        }
                    }
                },
            }
        }
        let eof_pos = self.current_position();
        let eof = Token::new(TokenType::Eof, Span::single(eof_pos), String::new());
        proof {
            assert(eof@.raw =~= eof_token(self.st()).raw);
            assert(eof@ == eof_token(self.st()));
        }
        let ghost toks_before = tokens@;
        tokens.push(eof);
        proof {
            assert(tokens@.map_values(|t: Token| t@) =~= toks_before.map_values(|t: Token| t@)
                + seq![eof_token(self.st())]);
        }
        Ok(tokens)
    }

    /// Scans one token at the cursor, which must be inside the input.
    fn next_token(&mut self) -> (r: LintResult<Token>)
        requires
            old(self).wf(),
            old(self).st().pos < old(self).input_chars().len(),
        ensures
            final(self).input@ == old(self).input@,
            match r {
                Ok(t) => {
                    &&& final(self).wf()
                    &&& old(self).st().pos < final(self).st().pos
                    &&& spec_next(old(self).input_chars(), old(self).st()) == SpecNext::Tok(
                        t@,
                        final(self).st(),
                    )
                },
                Err(e) => spec_next(old(self).input_chars(), old(self).st()) matches SpecNext::Fail(
                    p,
                    m,
                ) && e@ == (SpecLintError::LexerError { position: p, message: m }),
            },
    {
        let ghost inp = self.input@;
        let ghost st0 = self.st();
        let start_pos = self.current_position();
        let ch = self.current_char();

        if ch == ' ' || ch == '\t' || ch == '\r' || ch == '\n' {
            self.advance();
            if ch == '\n' {
                self.line = self.line + 1;
                self.column = 1;
            } else {
                self.column = self.column + 1;
            }
            let end_pos = self.current_position();
            let t = Token::new(TokenType::Whitespace, Span::new(start_pos, end_pos), char_string(ch));
            proof {
                assert(t@.raw =~= inp.subrange(st0.pos, st0.pos + 1));
            }
            Ok(t)
        } else if ch == '"' {
            self.read_quoted_string()
        } else if ch == '(' || ch == ')' || ch == '[' || ch == ']' || ch == '{' || ch == '}' || ch
            == '~' || ch == ':' {
            self.advance();
            self.column = self.column + 1;
            let end_pos = self.current_position();
            let t = Token::new(
                structural_token_type(ch),
                Span::new(start_pos, end_pos),
                char_string(ch),
            );
            proof {
                assert(t@.raw =~= inp.subrange(st0.pos, st0.pos + 1));
                assert(!ws_char(inp[st0.pos]));
            }
            Ok(t)
        } else if ch == '<' && self.position + 2 < self.input.len() && self.input[self.position + 1]
            == '<' && self.input[self.position + 2] == '<' {
            self.read_comment_start()
        } else if ch == '>' && self.position + 2 < self.input.len() && self.input[self.position + 1]
            == '>' && self.input[self.position + 2] == '>' {
            self.read_comment_end()
        } else if ch == '#' {
            self.read_hashtag()
        } else if ch == '@' {
            self.read_mention()
        } else if is_digit(ch) || (ch == '-' && self.position + 1 < self.input.len() && is_digit(
            self.input[self.position + 1],
        )) {
            self.read_number()
        } else if is_alphabetic_char(ch) || ch == '_' || ch == '*' || ch == '?' {
            self.read_word_or_operator()
        } else {
            self.advance();
            self.column = self.column + 1;
            let mut message = String::from_str("Unexpected character '");
            push_char(&mut message, ch);
            message.append("'");
            proof {
                assert(message@ =~= crate::lex_model::unexpected_char_msg(ch));
            }
            Err(LintError::LexerError { position: start_pos, message })
        }
    }

    /// Scans a quoted string; the opening quote is at the cursor.
    fn read_quoted_string(&mut self) -> (r: LintResult<Token>)
        requires
            old(self).wf(),
            old(self).st().pos < old(self).input_chars().len(),
            old(self).input_chars()[old(self).st().pos] == '"',
        ensures
            final(self).input@ == old(self).input@,
            match r {
                Ok(t) => {
                    &&& final(self).wf()
                    &&& old(self).st().pos < final(self).st().pos
                    &&& quoted_step(old(self).input_chars(), old(self).st()) == SpecNext::Tok(
                        t@,
                        final(self).st(),
                    )
                },
                Err(e) => quoted_step(old(self).input_chars(), old(self).st())
                    matches SpecNext::Fail(p, m) && e@ == (SpecLintError::LexerError {
                    position: p,
                    message: m,
                }),
            },
    {
        let ghost inp = self.input@;
        let ghost st0 = self.st();
        let start_pos = self.current_position();
        let ghost start = self.position as int;
        let mut value = String::new();
        let mut raw = char_string(self.current_char());
        self.advance();
        self.column = self.column + 1;

        while !self.is_at_end() && self.current_char() != '"'
            invariant
                self.wf(),
                self.input@ == inp,
                0 <= start < inp.len(),
                start < self.st().pos <= inp.len(),
                inp[start] == '"',
                nonquote_run(inp, start + 1) == self.st().pos - start - 1 + nonquote_run(
                    inp,
                    self.st().pos,
                ),
                value@ == inp.subrange(start + 1, self.st().pos),
                raw@ == inp.subrange(start, self.st().pos),
                self.st() == advance_lc(
                    bump(LexSt { pos: start, line: st0.line, column: st0.column }),
                    value@,
                ),
            decreases inp.len() - self.st().pos,
        {
            let c = self.current_char();
            let ghost value_old = value@;
            push_char(&mut value, c);
            push_char(&mut raw, c);

            if c == '\n' {
                self.line = self.line + 1;
                self.column = 1;
            } else {
                self.column = self.column + 1;
            }
            self.advance();
            proof {
                assert(value@ =~= inp.subrange(start + 1, self.st().pos));
                assert(raw@ =~= inp.subrange(start, self.st().pos));
                assert(value@.drop_last() =~= value_old);
                assert(advance_lc(
                    bump(LexSt { pos: start, line: st0.line, column: st0.column }),
                    value@,
                ) == crate::lex_model::step_lc(
                    advance_lc(
                        bump(LexSt { pos: start, line: st0.line, column: st0.column }),
                        value_old,
                    ),
                    c,
                ));
            }
        }

        if self.is_at_end() {
            let message = String::from_str("Unterminated quoted string");
            return Err(LintError::LexerError { position: start_pos, message });
        }

        let closing = self.current_char();
        push_char(&mut raw, closing);
        self.advance();
        self.column = self.column + 1;
        let end_pos = self.current_position();
        proof {
            assert(raw@ =~= inp.subrange(start, self.st().pos));
        }
        Ok(Token::new(TokenType::QuotedString(value), Span::new(start_pos, end_pos), raw))
    }

    /// Scans a word and reclassifies it; the first character is at the
    /// cursor and is a word character.
    fn read_word_or_operator(&mut self) -> (r: LintResult<Token>)
        requires
            old(self).wf(),
            old(self).st().pos < old(self).input_chars().len(),
            word_char(old(self).input_chars()[old(self).st().pos]),
        ensures
            final(self).input@ == old(self).input@,
            match r {
                Ok(t) => {
                    &&& final(self).wf()
                    &&& old(self).st().pos < final(self).st().pos
                    &&& word_step(old(self).input_chars(), old(self).st()) == SpecNext::Tok(
                        t@,
                        final(self).st(),
                    )
                },
                Err(e) => false,
            },
    {
        let ghost inp = self.input@;
        let ghost st0 = self.st();
        let start_pos = self.current_position();
        let start = self.position;
        let mut value = String::new();

        while !self.is_at_end() && is_word_char(self.current_char())
            invariant
                self.wf(),
                self.input@ == inp,
                start as int <= self.st().pos <= inp.len(),
                word_run(inp, start as int) == self.st().pos - start + word_run(inp, self.st().pos),
                value@ == inp.subrange(start as int, self.st().pos),
                self.line == st0.line,
                self.st().column == st0.column + self.st().pos - start,
            decreases inp.len() - self.st().pos,
        {
            let c = self.current_char();
            push_char(&mut value, c);
            self.advance();
            self.column = self.column + 1;
            proof {
                assert(value@ =~= inp.subrange(start as int, self.st().pos));
            }
        }
        proof {
            assert(word_run(inp, self.st().pos) == 0);
            assert(word_run(inp, start as int) >= 1);
        }
        let end = self.position;
        let end_pos = self.current_position();
        let ghost value_snap = value@;
        let raw = value.clone();
        let tt = classify_word_token(&self.input, start, end, value);
        Ok(Token::new(tt, Span::new(start_pos, end_pos), raw))
    }

    /// Scans a number; the cursor is at a digit, or at a minus directly
    /// followed by a digit.
    fn read_number(&mut self) -> (r: LintResult<Token>)
        requires
            old(self).wf(),
            old(self).st().pos < old(self).input_chars().len(),
            crate::chars::spec_is_digit(old(self).input_chars()[old(self).st().pos]) || (old(
                self,
            ).input_chars()[old(self).st().pos] == '-' && old(self).st().pos + 1 < old(
                self,
            ).input_chars().len() && crate::chars::spec_is_digit(
                old(self).input_chars()[old(self).st().pos + 1],
            )),
        ensures
            final(self).input@ == old(self).input@,
            match r {
                Ok(t) => {
                    &&& final(self).wf()
                    &&& old(self).st().pos < final(self).st().pos
                    &&& number_step(old(self).input_chars(), old(self).st()) == SpecNext::Tok(
                        t@,
                        final(self).st(),
                    )
                },
                Err(e) => false,
            },
    {
        let ghost inp = self.input@;
        let ghost st0 = self.st();
        let start_pos = self.current_position();
        let start = self.position;
        let mut value = String::new();

        if self.current_char() == '-' {
            push_char(&mut value, '-');
            self.advance();
            self.column = self.column + 1;
        }
        let ghost sign = self.st().pos - start;

        while !self.is_at_end() && (is_digit(self.current_char()) || self.current_char() == '.')
            invariant
                self.wf(),
                self.input@ == inp,
                start + sign <= self.st().pos <= inp.len(),
                sign == if inp[start as int] == '-' {
                    1int
                } else {
                    0int
                },
                num_run(inp, start + sign) == self.st().pos - start - sign + num_run(
                    inp,
                    self.st().pos,
                ),
                value@ == inp.subrange(start as int, self.st().pos),
                self.line == st0.line,
                self.st().column == st0.column + self.st().pos - start,
            decreases inp.len() - self.st().pos,
        {
            let c = self.current_char();
            push_char(&mut value, c);
            self.advance();
            self.column = self.column + 1;
            proof {
                assert(value@ =~= inp.subrange(start as int, self.st().pos));
            }
        }
        proof {
            assert(num_run(inp, self.st().pos) == 0);
            if sign == 0 {
                assert(num_run(inp, start as int) >= 1);
            }
        }
        let end_pos = self.current_position();
        let raw = value.clone();
        Ok(Token::new(TokenType::Number(value), Span::new(start_pos, end_pos), raw))
    }

    /// Scans a hashtag; the `#` is at the cursor.
    fn read_hashtag(&mut self) -> (r: LintResult<Token>)
        requires
            old(self).wf(),
            old(self).st().pos < old(self).input_chars().len(),
        ensures
            final(self).input@ == old(self).input@,
            match r {
                Ok(t) => {
                    &&& final(self).wf()
                    &&& old(self).st().pos < final(self).st().pos
                    &&& tag_step(old(self).input_chars(), old(self).st(), false) == SpecNext::Tok(
                        t@,
                        final(self).st(),
                    )
                },
                Err(e) => false,
            },
    {
        let (start_pos, end_pos, marker, value) = self.read_tag_parts();
        let mut raw = char_string(marker);
        raw.append(value.as_str());
        proof {
            let inp = old(self).input_chars();
            let st0 = old(self).st();
            let run = tag_run(inp, st0.pos + 1) as int;
            assert(raw@ =~= inp.subrange(st0.pos, st0.pos + 1 + run));
        }
        Ok(Token::new(TokenType::Hashtag(value), Span::new(start_pos, end_pos), raw))
    }

    /// Scans a mention; the `@` is at the cursor.
    fn read_mention(&mut self) -> (r: LintResult<Token>)
        requires
            old(self).wf(),
            old(self).st().pos < old(self).input_chars().len(),
        ensures
            final(self).input@ == old(self).input@,
            match r {
                Ok(t) => {
                    &&& final(self).wf()
                    &&& old(self).st().pos < final(self).st().pos
                    &&& tag_step(old(self).input_chars(), old(self).st(), true) == SpecNext::Tok(
                        t@,
                        final(self).st(),
                    )
                },
                Err(e) => false,
            },
    {
        let (start_pos, end_pos, marker, value) = self.read_tag_parts();
        let mut raw = char_string(marker);
        raw.append(value.as_str());
        proof {
            let inp = old(self).input_chars();
            let st0 = old(self).st();
            let run = tag_run(inp, st0.pos + 1) as int;
            assert(raw@ =~= inp.subrange(st0.pos, st0.pos + 1 + run));
        }
        Ok(Token::new(TokenType::Mention(value), Span::new(start_pos, end_pos), raw))
    }

    /// Consumes a `#`/`@` marker and the run of tag characters after it;
    /// returns the two positions, the marker and the value.
    fn read_tag_parts(&mut self) -> (parts: (Position, Position, char, String))
        requires
            old(self).wf(),
            old(self).st().pos < old(self).input_chars().len(),
        ensures
            final(self).input@ == old(self).input@,
            final(self).wf(),
            old(self).st().pos < final(self).st().pos,
            ({
                let (start_pos, end_pos, marker, value) = parts;
                let inp = old(self).input_chars();
                let st0 = old(self).st();
                let run = tag_run(inp, st0.pos + 1) as int;
                &&& start_pos@ == st_pos(st0)
                &&& marker == inp[st0.pos]
                &&& value@ == inp.subrange(st0.pos + 1, st0.pos + 1 + run)
                &&& final(self).st() == crate::lex_model::bump_by(st0, 1 + run)
                &&& end_pos@ == st_pos(final(self).st())
            }),
    {
        let ghost inp = self.input@;
        let ghost st0 = self.st();
        let start_pos = self.current_position();
        let ghost start = self.position as int;
        let marker = self.current_char();
        self.advance();
        self.column = self.column + 1;
        let mut value = String::new();

        while !self.is_at_end() && is_tag_char(self.current_char())
            invariant
                self.wf(),
                self.input@ == inp,
                start + 1 <= self.st().pos <= inp.len(),
                tag_run(inp, start + 1) == self.st().pos - start - 1 + tag_run(inp, self.st().pos),
                value@ == inp.subrange(start + 1, self.st().pos),
                self.line == st0.line,
                self.st().column == st0.column + self.st().pos - start,
            decreases inp.len() - self.st().pos,
        {
            let c = self.current_char();
            push_char(&mut value, c);
            self.advance();
            self.column = self.column + 1;
            proof {
                assert(value@ =~= inp.subrange(start + 1, self.st().pos));
            }
        }
        proof {
            assert(tag_run(inp, self.st().pos) == 0);
        }
        let end_pos = self.current_position();
        (start_pos, end_pos, marker, value)
    }

    /// Scans the `<<<` comment opener; all three characters are present.
    fn read_comment_start(&mut self) -> (r: LintResult<Token>)
        requires
            old(self).wf(),
            old(self).st().pos + 2 < old(self).input_chars().len(),
        ensures
            final(self).input@ == old(self).input@,
            match r {
                Ok(t) => {
                    &&& final(self).wf()
                    &&& old(self).st().pos < final(self).st().pos
                    &&& comment_step(old(self).input_chars(), old(self).st(), false)
                        == SpecNext::Tok(t@, final(self).st())
                },
                Err(e) => false,
            },
    {
        let (start_pos, end_pos, raw) = self.read_comment_parts();
        Ok(Token::new(TokenType::CommentStart, Span::new(start_pos, end_pos), raw))
    }

    /// Scans the `>>>` comment closer; all three characters are present.
    fn read_comment_end(&mut self) -> (r: LintResult<Token>)
        requires
            old(self).wf(),
            old(self).st().pos + 2 < old(self).input_chars().len(),
        ensures
            final(self).input@ == old(self).input@,
            match r {
                Ok(t) => {
                    &&& final(self).wf()
                    &&& old(self).st().pos < final(self).st().pos
                    &&& comment_step(old(self).input_chars(), old(self).st(), true)
                        == SpecNext::Tok(t@, final(self).st())
                },
                Err(e) => false,
            },
    {
        let (start_pos, end_pos, raw) = self.read_comment_parts();
        Ok(Token::new(TokenType::CommentEnd, Span::new(start_pos, end_pos), raw))
    }

    /// Consumes the three characters of a comment delimiter.
    fn read_comment_parts(&mut self) -> (parts: (Position, Position, String))
        requires
            old(self).wf(),
            old(self).st().pos + 2 < old(self).input_chars().len(),
        ensures
            final(self).input@ == old(self).input@,
            final(self).wf(),
            ({
                let (start_pos, end_pos, raw) = parts;
                let inp = old(self).input_chars();
                let st0 = old(self).st();
                &&& start_pos@ == st_pos(st0)
                &&& raw@ == inp.subrange(st0.pos, st0.pos + 3)
                &&& final(self).st() == crate::lex_model::bump_by(st0, 3)
                &&& end_pos@ == st_pos(final(self).st())
            }),
    {
        let ghost inp = self.input@;
        let ghost st0 = self.st();
        let start_pos = self.current_position();
        let c0 = self.input[self.position];
        let c1 = self.input[self.position + 1];
        let c2 = self.input[self.position + 2];
        self.advance();
        self.advance();
        self.advance();
        self.column = self.column + 3;
        let end_pos = self.current_position();
        let mut raw = char_string(c0);
        push_char(&mut raw, c1);
        push_char(&mut raw, c2);
        proof {
            assert(raw@ =~= inp.subrange(st0.pos, st0.pos + 3));
        }
        (start_pos, end_pos, raw)
    }
}

} // verus!
