//! The tokenizer: turns raw source text into a sequence of positioned
//! tokens. `spec_tokenize` is the mathematical account of the whole pass,
//! one character at a time; `tokenize` produces exactly that sequence.
use vstd::prelude::*;
use vstd::string::StrSliceExecFns;
use vstd::string::StringExecFns;
use crate::text::char_alnum;
use crate::text::char_numeric;
use crate::text::char_is_alphanumeric;
use crate::text::char_is_numeric;
use crate::text::push_char;
use crate::text::str_eq;
use crate::text::i64_to_string;
use crate::text::spec_dec_int;

verus! {

#[derive(PartialEq, Debug, Clone, Copy)]
pub struct TokenInfo {
    pub line: i32,
    pub index: i32,
}

#[derive(PartialEq, Debug, Clone)]
pub enum Token {
    LeftParen,
    RightParen,
    Identifier { body: String },
    Number { body: String },
    Fn,
    Memory,
    Colon,
    LeftBracket,
    RightBracket,
    Comma,
    Return,
    Semicolon,
    Local,
    Global,
    Assign,
    Text { body: String },
    Plus,
    Export,
    Import,
    Dot,
    If,
    Else,
    True,
    False,
    For,
}

#[derive(PartialEq, Debug, Clone)]
pub struct FullyQualifiedToken {
    pub token: Token,
    pub info: TokenInfo,
}

/// The mathematical model of a token: bodies as character sequences.
pub enum SpecToken {
    LeftParen,
    RightParen,
    Identifier { body: Seq<char> },
    Number { body: Seq<char> },
    Fn,
    Memory,
    Colon,
    LeftBracket,
    RightBracket,
    Comma,
    Return,
    Semicolon,
    Local,
    Global,
    Assign,
    Text { body: Seq<char> },
    Plus,
    Export,
    Import,
    Dot,
    If,
    Else,
    True,
    False,
    For,
}

/// The mathematical model of a positioned token.
pub struct SpecFqt {
    pub token: SpecToken,
    pub line: int,
    pub index: int,
}

impl View for Token {
    type V = SpecToken;

    open spec fn view(&self) -> SpecToken {
        match self {
            Token::LeftParen => SpecToken::LeftParen,
            Token::RightParen => SpecToken::RightParen,
            Token::Identifier { body } => SpecToken::Identifier { body: body@ },
            Token::Number { body } => SpecToken::Number { body: body@ },
            Token::Fn => SpecToken::Fn,
            Token::Memory => SpecToken::Memory,
            Token::Colon => SpecToken::Colon,
            Token::LeftBracket => SpecToken::LeftBracket,
            Token::RightBracket => SpecToken::RightBracket,
            Token::Comma => SpecToken::Comma,
            Token::Return => SpecToken::Return,
            Token::Semicolon => SpecToken::Semicolon,
            Token::Local => SpecToken::Local,
            Token::Global => SpecToken::Global,
            Token::Assign => SpecToken::Assign,
            Token::Text { body } => SpecToken::Text { body: body@ },
            Token::Plus => SpecToken::Plus,
            Token::Export => SpecToken::Export,
            Token::Import => SpecToken::Import,
            Token::Dot => SpecToken::Dot,
            Token::If => SpecToken::If,
            Token::Else => SpecToken::Else,
            Token::True => SpecToken::True,
            Token::False => SpecToken::False,
            Token::For => SpecToken::For,
        }
    }
}

impl DeepView for Token {
    type V = SpecToken;

    open spec fn deep_view(&self) -> SpecToken {
        self.view()
    }
}

impl View for FullyQualifiedToken {
    type V = SpecFqt;

    open spec fn view(&self) -> SpecFqt {
        SpecFqt { token: self.token@, line: self.info.line as int, index: self.info.index as int }
    }
}

impl DeepView for FullyQualifiedToken {
    type V = SpecFqt;

    open spec fn deep_view(&self) -> SpecFqt {
        self.view()
    }
}

/// How a token prints in diagnostics.
pub open spec fn spec_token_text(t: SpecToken) -> Seq<char> {
    match t {
        SpecToken::LeftParen => "("@,
        SpecToken::RightParen => ")"@,
        SpecToken::Identifier { body } => body,
        SpecToken::Number { body } => body,
        SpecToken::Fn => "fn"@,
        SpecToken::Memory => "memory"@,
        SpecToken::Colon => ":"@,
        SpecToken::LeftBracket => "{"@,
        SpecToken::RightBracket => "}"@,
        SpecToken::Comma => ","@,
        SpecToken::Return => "return"@,
        SpecToken::Semicolon => ";"@,
        SpecToken::Local => "local"@,
        SpecToken::Global => "global"@,
        SpecToken::Assign => "="@,
        SpecToken::Text { body } => body,
        SpecToken::Plus => "+"@,
        SpecToken::Export => "export"@,
        SpecToken::Import => "import"@,
        SpecToken::Dot => "."@,
        SpecToken::If => "if"@,
        SpecToken::Else => "else"@,
        SpecToken::True => "true"@,
        SpecToken::False => "false"@,
        SpecToken::For => "for"@,
    }
}

impl Token {
    /// The diagnostic text of this token, as `spec_token_text` gives it.
    pub fn text(&self) -> (r: String)
        ensures
            r@ == spec_token_text(self@),
    {
        match self {
            Token::LeftParen => String::from_str("("),
            Token::RightParen => String::from_str(")"),
            Token::Identifier { body } => body.clone(),
            Token::Number { body } => body.clone(),
            Token::Fn => String::from_str("fn"),
            Token::Memory => String::from_str("memory"),
            Token::Colon => String::from_str(":"),
            Token::LeftBracket => String::from_str("{"),
            Token::RightBracket => String::from_str("}"),
            Token::Comma => String::from_str(","),
            Token::Return => String::from_str("return"),
            Token::Semicolon => String::from_str(";"),
            Token::Local => String::from_str("local"),
            Token::Global => String::from_str("global"),
            Token::Assign => String::from_str("="),
            Token::Text { body } => body.clone(),
            Token::Plus => String::from_str("+"),
            Token::Export => String::from_str("export"),
            Token::Import => String::from_str("import"),
            Token::Dot => String::from_str("."),
            Token::If => String::from_str("if"),
            Token::Else => String::from_str("else"),
            Token::True => String::from_str("true"),
            Token::False => String::from_str("false"),
            Token::For => String::from_str("for"),
        }
    }
}

/// A copy of a token, equal to the original.
pub fn clone_token(t: &Token) -> (r: Token)
    ensures
        r == *t,
{
    match t {
        Token::LeftParen => Token::LeftParen,
        Token::RightParen => Token::RightParen,
        Token::Identifier { body } => Token::Identifier { body: body.clone() },
        Token::Number { body } => Token::Number { body: body.clone() },
        Token::Fn => Token::Fn,
        Token::Memory => Token::Memory,
        Token::Colon => Token::Colon,
        Token::LeftBracket => Token::LeftBracket,
        Token::RightBracket => Token::RightBracket,
        Token::Comma => Token::Comma,
        Token::Return => Token::Return,
        Token::Semicolon => Token::Semicolon,
        Token::Local => Token::Local,
        Token::Global => Token::Global,
        Token::Assign => Token::Assign,
        Token::Text { body } => Token::Text { body: body.clone() },
        Token::Plus => Token::Plus,
        Token::Export => Token::Export,
        Token::Import => Token::Import,
        Token::Dot => Token::Dot,
        Token::If => Token::If,
        Token::Else => Token::Else,
        Token::True => Token::True,
        Token::False => Token::False,
        Token::For => Token::For,
    }
}

/// A copy of a positioned token, equal to the original.
pub fn clone_fqt(t: &FullyQualifiedToken) -> (r: FullyQualifiedToken)
    ensures
        r == *t,
{
    FullyQualifiedToken { token: clone_token(&t.token), info: t.info }
}

/// Whether two tokens are the same token, stated over their models.
pub fn token_eq(a: &Token, b: &Token) -> (r: bool)
    ensures
        r == (a@ == b@),
{
    match (a, b) {
        (Token::LeftParen, Token::LeftParen) => true,
        (Token::RightParen, Token::RightParen) => true,
        (Token::Identifier { body: x }, Token::Identifier { body: y }) => str_eq(x.as_str(), y.as_str()),
        (Token::Number { body: x }, Token::Number { body: y }) => str_eq(x.as_str(), y.as_str()),
        (Token::Fn, Token::Fn) => true,
        (Token::Memory, Token::Memory) => true,
        (Token::Colon, Token::Colon) => true,
        (Token::LeftBracket, Token::LeftBracket) => true,
        (Token::RightBracket, Token::RightBracket) => true,
        (Token::Comma, Token::Comma) => true,
        (Token::Return, Token::Return) => true,
        (Token::Semicolon, Token::Semicolon) => true,
        (Token::Local, Token::Local) => true,
        (Token::Global, Token::Global) => true,
        (Token::Assign, Token::Assign) => true,
        (Token::Text { body: x }, Token::Text { body: y }) => str_eq(x.as_str(), y.as_str()),
        (Token::Plus, Token::Plus) => true,
        (Token::Export, Token::Export) => true,
        (Token::Import, Token::Import) => true,
        (Token::Dot, Token::Dot) => true,
        (Token::If, Token::If) => true,
        (Token::Else, Token::Else) => true,
        (Token::True, Token::True) => true,
        (Token::False, Token::False) => true,
        (Token::For, Token::For) => true,
        _ => false,
    }
}

/// The diagnostic rendered for an error at a known source position.
pub open spec fn spec_error_with_info(msg: Seq<char>, line: int, index: int) -> Seq<char> {
    msg + " at line "@ + spec_dec_int(line + 1) + ", index "@ + spec_dec_int(index)
}

/// Wraps an error message with the line and column of the offending
/// token; the reported line is one-based.
pub fn error_with_info<A>(error: String, token: &FullyQualifiedToken) -> (r: Result<A, String>)
    ensures
        (r matches Err(m) && m@ == spec_error_with_info(error@, token@.line, token@.index)),
{
    let mut out = error;
    out.append(" at line ");
    let line = i64_to_string(token.info.line as i64 + 1);
    out.append(line.as_str());
    out.append(", index ");
    let index = i64_to_string(token.info.index as i64);
    out.append(index.as_str());
    Err(out)
}

pub open spec fn spec_is_identifier_char(c: char) -> bool {
    char_alnum(c) || c == '_'
}

pub open spec fn spec_is_number_string(s: Seq<char>) -> bool {
    forall|i: int| 0 <= i < s.len() ==> char_numeric(s[i]) || s[i] == '.'
}

fn is_identifier_char(c: char) -> (r: bool)
    ensures
        r == spec_is_identifier_char(c),
{
    char_is_alphanumeric(c) || c == '_'
}

fn is_number_string(s: &str) -> (r: bool)
    ensures
        r == spec_is_number_string(s@),
{
    let n = s.unicode_len();
    let mut i: usize = 0;
    while i < n
        invariant
            i <= n,
            n == s@.len(),
            forall|j: int| 0 <= j < i ==> char_numeric(s@[j]) || s@[j] == '.',
        decreases n - i,
    {
        let c = s.get_char(i);
        if !char_is_numeric(c) && c != '.' {
            return false;
        }
        i += 1;
    }
    true
}

/// The lexer's running state: the pending buffer, whether a quoted text
/// literal is open, and the current source position.
pub struct LexState {
    pub buf: Seq<char>,
    pub in_quotes: bool,
    pub line: int,
    pub index: int,
}

/// What a flushed buffer becomes: nothing when empty, else a keyword, a
/// number when every character is numeric or a dot, and an identifier
/// otherwise.
pub open spec fn spec_classify(buf: Seq<char>) -> SpecToken {
    if buf == "fn"@ { SpecToken::Fn }
    else if buf == "memory"@ { SpecToken::Memory }
    else if buf == "return"@ { SpecToken::Return }
    else if buf == "local"@ { SpecToken::Local }
    else if buf == "global"@ { SpecToken::Global }
    else if buf == "export"@ { SpecToken::Export }
    else if buf == "import"@ { SpecToken::Import }
    else if buf == "if"@ { SpecToken::If }
    else if buf == "else"@ { SpecToken::Else }
    else if buf == "true"@ { SpecToken::True }
    else if buf == "false"@ { SpecToken::False }
    else if buf == "for"@ { SpecToken::For }
    else if spec_is_number_string(buf) { SpecToken::Number { body: buf } }
    else { SpecToken::Identifier { body: buf } }
}

pub open spec fn spec_flush_parts(buf: Seq<char>, line: int, index: int) -> Seq<SpecFqt> {
    if buf.len() == 0 {
        Seq::empty()
    } else {
        seq![SpecFqt { token: spec_classify(buf), line: line, index: index }]
    }
}

pub open spec fn spec_flush(st: LexState) -> Seq<SpecFqt> {
    spec_flush_parts(st.buf, st.line, st.index)
}

pub open spec fn spec_cleared(st: LexState) -> LexState {
    LexState { buf: Seq::empty(), ..st }
}

/// The tokens one character emits and the lexer state it leaves, before
/// the position advances.
pub open spec fn spec_lex_emit(c: char, st: LexState) -> (Seq<SpecFqt>, LexState) {
    if c == '"' {
        if st.in_quotes {
            (
                seq![SpecFqt { token: SpecToken::Text { body: st.buf }, line: st.line, index: st.index }],
                LexState { buf: Seq::empty(), in_quotes: false, ..st },
            )
        } else {
            (spec_flush(st), LexState { buf: Seq::empty(), in_quotes: true, ..st })
        }
    } else if st.in_quotes {
        (Seq::empty(), LexState { buf: st.buf.push(c), ..st })
    } else if c == '(' {
        (spec_flush(st) + seq![SpecFqt { token: SpecToken::LeftParen, line: st.line, index: st.index }], spec_cleared(st))
    } else if c == ')' {
        (spec_flush(st) + seq![SpecFqt { token: SpecToken::RightParen, line: st.line, index: st.index }], spec_cleared(st))
    } else if c == ':' {
        (spec_flush(st) + seq![SpecFqt { token: SpecToken::Colon, line: st.line, index: st.index }], spec_cleared(st))
    } else if c == ' ' || c == '\n' {
        (spec_flush(st), spec_cleared(st))
    } else if c == '{' {
        (spec_flush(st) + seq![SpecFqt { token: SpecToken::LeftBracket, line: st.line, index: st.index }], spec_cleared(st))
    } else if c == '}' {
        (spec_flush(st) + seq![SpecFqt { token: SpecToken::RightBracket, line: st.line, index: st.index }], spec_cleared(st))
    } else if c == ',' {
        (spec_flush(st) + seq![SpecFqt { token: SpecToken::Comma, line: st.line, index: st.index }], spec_cleared(st))
    } else if c == ';' {
        (spec_flush(st) + seq![SpecFqt { token: SpecToken::Semicolon, line: st.line, index: st.index }], spec_cleared(st))
    } else if c == '=' {
        (spec_flush(st) + seq![SpecFqt { token: SpecToken::Assign, line: st.line, index: st.index }], spec_cleared(st))
    } else if c == '+' {
        (spec_flush(st) + seq![SpecFqt { token: SpecToken::Plus, line: st.line, index: st.index }], spec_cleared(st))
    } else if c == '.' && spec_is_number_string(st.buf) {
        (Seq::empty(), LexState { buf: st.buf.push(c), ..st })
    } else if c == '.' {
        (spec_flush(st) + seq![SpecFqt { token: SpecToken::Dot, line: st.line, index: st.index }], spec_cleared(st))
    } else if spec_is_identifier_char(c) {
        (Seq::empty(), LexState { buf: st.buf.push(c), ..st })
    } else {
        (Seq::empty(), st)
    }
}

/// The position advance after a character: newlines move to the start of
/// the next line, anything else to the next column.
pub open spec fn spec_lex_advance(c: char, st: LexState) -> LexState {
    if c == '\n' {
        LexState {
            line: if st.line == 0x7fff_ffff { st.line } else { st.line + 1 },
            index: 0,
            ..st
        }
    } else {
        LexState { index: if st.index == 0x7fff_ffff { st.index } else { st.index + 1 }, ..st }
    }
}

pub open spec fn spec_lex_step(c: char, st: LexState) -> (Seq<SpecFqt>, LexState) {
    let (emitted, st2) = spec_lex_emit(c, st);
    (emitted, spec_lex_advance(c, st2))
}

/// The tokens emitted from position `i` to the end, given the lexer
/// state there, the pending buffer flushed at the end.
pub open spec fn spec_tokenize_at(chars: Seq<char>, i: int, st: LexState) -> Seq<SpecFqt>
    decreases chars.len() - i,
{
    if i < 0 || i >= chars.len() {
        spec_flush(st)
    } else {
        let (emitted, st2) = spec_lex_step(chars[i], st);
        emitted + spec_tokenize_at(chars, i + 1, st2)
    }
}

/// The token sequence of a whole source text.
pub open spec fn spec_tokenize(chars: Seq<char>) -> Seq<SpecFqt> {
    spec_tokenize_at(chars, 0, LexState { buf: Seq::empty(), in_quotes: false, line: 0, index: 0 })
}

fn push_token(tokens: &mut Vec<FullyQualifiedToken>, t: Token, line: i32, index: i32)
    ensures
        final(tokens).deep_view() == old(tokens).deep_view()
            + seq![SpecFqt { token: t@, line: line as int, index: index as int }],
{
    let ghost pre = tokens.deep_view();
    let ghost tv = t@;
    tokens.push(FullyQualifiedToken { token: t, info: TokenInfo { line, index } });
    proof {
        assert(tokens.deep_view() =~= pre + seq![SpecFqt { token: tv, line: line as int, index: index as int }]);
    }
}

fn classify_buffer(buf: String) -> (t: Token)
    ensures
        t@ == spec_classify(buf@),
{
    if str_eq(buf.as_str(), "fn") { Token::Fn }
    else if str_eq(buf.as_str(), "memory") { Token::Memory }
    else if str_eq(buf.as_str(), "return") { Token::Return }
    else if str_eq(buf.as_str(), "local") { Token::Local }
    else if str_eq(buf.as_str(), "global") { Token::Global }
    else if str_eq(buf.as_str(), "export") { Token::Export }
    else if str_eq(buf.as_str(), "import") { Token::Import }
    else if str_eq(buf.as_str(), "if") { Token::If }
    else if str_eq(buf.as_str(), "else") { Token::Else }
    else if str_eq(buf.as_str(), "true") { Token::True }
    else if str_eq(buf.as_str(), "false") { Token::False }
    else if str_eq(buf.as_str(), "for") { Token::For }
    else if is_number_string(buf.as_str()) { Token::Number { body: buf } }
    else { Token::Identifier { body: buf } }
}

fn flush_buffer(tokens: &mut Vec<FullyQualifiedToken>, buf: &mut String, line: i32, index: i32)
    ensures
        final(tokens).deep_view() == old(tokens).deep_view()
            + spec_flush_parts(old(buf)@, line as int, index as int),
        final(buf)@ == Seq::<char>::empty(),
{
    if buf.as_str().is_empty() {
        proof {
            assert(tokens.deep_view() =~= old(tokens).deep_view() + Seq::<SpecFqt>::empty());
        }
        return;
    }
    let mut owned = String::new();
    core::mem::swap(&mut owned, buf);
    let t = classify_buffer(owned);
    push_token(tokens, t, line, index);
}

/// Turns source text into positioned tokens, exactly the sequence that
/// `spec_tokenize` gives.
pub fn tokenize(body: String) -> (res: Vec<FullyQualifiedToken>)
    ensures
        res.deep_view() == spec_tokenize(body@),
{
    let s = body.as_str();
    let n = s.unicode_len();
    let mut tokens: Vec<FullyQualifiedToken> = Vec::new();
    let mut buf = String::new();
    let mut in_quotes: bool = false;
    let mut line: i32 = 0;
    let mut index: i32 = 0;
    let mut i: usize = 0;
    proof {
        assert(tokens.deep_view() =~= Seq::<SpecFqt>::empty());
    }
    while i < n
        invariant
            i <= n,
            n == body@.len(),
            s@ == body@,
            0 <= line as int <= 0x7fff_ffff,
            0 <= index as int <= 0x7fff_ffff,
            tokens.deep_view() + spec_tokenize_at(
                body@,
                i as int,
                LexState { buf: buf@, in_quotes: in_quotes, line: line as int, index: index as int },
            ) == spec_tokenize(body@),
        decreases n - i,
    {
        let ghost st = LexState { buf: buf@, in_quotes: in_quotes, line: line as int, index: index as int };
        let ghost pre_tokens = tokens.deep_view();
        let c = s.get_char(i);
        proof {
            assert(spec_tokenize_at(body@, i as int, st) == spec_lex_step(c, st).0 + spec_tokenize_at(
                body@,
                i as int + 1,
                spec_lex_step(c, st).1,
            ));
        }
        if c == '"' {
            if in_quotes {
                let mut owned = String::new();
                core::mem::swap(&mut owned, &mut buf);
                push_token(&mut tokens, Token::Text { body: owned }, line, index);
                in_quotes = false;
            } else {
                flush_buffer(&mut tokens, &mut buf, line, index);
                in_quotes = true;
            }
        } else if in_quotes {
            push_char(&mut buf, c);
        } else if c == '(' {
            flush_buffer(&mut tokens, &mut buf, line, index);
            push_token(&mut tokens, Token::LeftParen, line, index);
        } else if c == ')' {
            flush_buffer(&mut tokens, &mut buf, line, index);
            push_token(&mut tokens, Token::RightParen, line, index);
        } else if c == ':' {
            flush_buffer(&mut tokens, &mut buf, line, index);
            push_token(&mut tokens, Token::Colon, line, index);
        } else if c == ' ' || c == '\n' {
            flush_buffer(&mut tokens, &mut buf, line, index);
        } else if c == '{' {
            flush_buffer(&mut tokens, &mut buf, line, index);
            push_token(&mut tokens, Token::LeftBracket, line, index);
        } else if c == '}' {
            flush_buffer(&mut tokens, &mut buf, line, index);
            push_token(&mut tokens, Token::RightBracket, line, index);
        } else if c == ',' {
            flush_buffer(&mut tokens, &mut buf, line, index);
            push_token(&mut tokens, Token::Comma, line, index);
        } else if c == ';' {
            flush_buffer(&mut tokens, &mut buf, line, index);
            push_token(&mut tokens, Token::Semicolon, line, index);
        } else if c == '=' {
            flush_buffer(&mut tokens, &mut buf, line, index);
            push_token(&mut tokens, Token::Assign, line, index);
        } else if c == '+' {
            flush_buffer(&mut tokens, &mut buf, line, index);
            push_token(&mut tokens, Token::Plus, line, index);
        } else if c == '.' {
            if is_number_string(buf.as_str()) {
                push_char(&mut buf, c);
            } else {
                flush_buffer(&mut tokens, &mut buf, line, index);
                push_token(&mut tokens, Token::Dot, line, index);
            }
        } else if is_identifier_char(c) {
            push_char(&mut buf, c);
        }
        proof {
            let (emitted, st2) = spec_lex_emit(c, st);
            assert(tokens.deep_view() =~= pre_tokens + emitted);
            assert(buf@ == st2.buf);
            assert(in_quotes == st2.in_quotes);
            assert(pre_tokens + emitted + spec_tokenize_at(body@, i as int + 1, spec_lex_step(c, st).1)
                =~= pre_tokens + (emitted + spec_tokenize_at(body@, i as int + 1, spec_lex_step(c, st).1)));
        }
        i += 1;
        if c == '\n' {
            if line != i32::MAX {
                line += 1;
            }
            index = 0;
        } else {
            if index != i32::MAX {
                index += 1;
            }
        }
    }
    let ghost final_buf = buf@;
    proof {
        assert(spec_tokenize_at(
            body@,
            n as int,
            LexState { buf: final_buf, in_quotes: in_quotes, line: line as int, index: index as int },
        ) == spec_flush_parts(final_buf, line as int, index as int));
    }
    flush_buffer(&mut tokens, &mut buf, line, index);
    tokens
}

/// Where statements split: at semicolons that stand at brace depth
/// zero. Braces nest, and everything inside any open brace stays in the
/// current statement; a stray closing brace at depth zero is kept as an
/// ordinary token.
pub open spec fn spec_split_statements_at(ts: Seq<SpecFqt>, depth: int, cur: Seq<SpecFqt>) -> Seq<Seq<SpecFqt>>
    decreases ts.len(),
{
    if ts.len() == 0 {
        if cur.len() == 0 {
            Seq::empty()
        } else {
            seq![cur]
        }
    } else {
        let t = ts.first();
        if t.token is LeftBracket {
            spec_split_statements_at(ts.drop_first(), depth + 1, cur.push(t))
        } else if t.token is RightBracket && depth > 0 {
            spec_split_statements_at(ts.drop_first(), depth - 1, cur.push(t))
        } else if t.token is Semicolon && depth == 0 {
            seq![cur] + spec_split_statements_at(ts.drop_first(), 0, Seq::empty())
        } else {
            spec_split_statements_at(ts.drop_first(), depth, cur.push(t))
        }
    }
}

pub open spec fn spec_split_statements(ts: Seq<SpecFqt>) -> Seq<Seq<SpecFqt>> {
    spec_split_statements_at(ts, 0, Seq::empty())
}

/// The groups flattened back into one stream.
pub open spec fn spec_concat_groups(gs: Seq<Seq<SpecFqt>>) -> Seq<SpecFqt>
    decreases gs.len(),
{
    if gs.len() == 0 {
        Seq::empty()
    } else {
        gs.first() + spec_concat_groups(gs.drop_first())
    }
}

/// A token stream with the semicolons at brace depth zero removed,
/// every other token kept in order.
pub open spec fn spec_drop_top_semicolons(ts: Seq<SpecFqt>, depth: int) -> Seq<SpecFqt>
    decreases ts.len(),
{
    if ts.len() == 0 {
        Seq::empty()
    } else {
        let t = ts.first();
        if t.token is LeftBracket {
            seq![t] + spec_drop_top_semicolons(ts.drop_first(), depth + 1)
        } else if t.token is RightBracket && depth > 0 {
            seq![t] + spec_drop_top_semicolons(ts.drop_first(), depth - 1)
        } else if t.token is Semicolon && depth == 0 {
            spec_drop_top_semicolons(ts.drop_first(), 0)
        } else {
            seq![t] + spec_drop_top_semicolons(ts.drop_first(), depth)
        }
    }
}

/// Splitting loses nothing but the separators: concatenating the
/// statement groups in order gives back the input stream with exactly
/// its depth-zero semicolons removed.
pub proof fn lemma_split_statements_reassemble(ts: Seq<SpecFqt>, depth: int, cur: Seq<SpecFqt>)
    ensures
        spec_concat_groups(spec_split_statements_at(ts, depth, cur)) == cur
            + spec_drop_top_semicolons(ts, depth),
    decreases ts.len(),
{
    if ts.len() == 0 {
        if cur.len() == 0 {
            assert(spec_concat_groups(Seq::<Seq<SpecFqt>>::empty()) =~= Seq::<SpecFqt>::empty());
            assert(cur + Seq::<SpecFqt>::empty() =~= cur);
        } else {
            let one = seq![cur];
            assert(one.first() == cur);
            assert(one.drop_first() =~= Seq::<Seq<SpecFqt>>::empty());
            assert(spec_concat_groups(Seq::<Seq<SpecFqt>>::empty()) == Seq::<SpecFqt>::empty());
            assert(spec_concat_groups(one) =~= cur);
            assert(cur + Seq::<SpecFqt>::empty() =~= cur);
        }
    } else {
        let t = ts.first();
        if t.token is LeftBracket {
            lemma_split_statements_reassemble(ts.drop_first(), depth + 1, cur.push(t));
            assert(cur.push(t) + spec_drop_top_semicolons(ts.drop_first(), depth + 1) =~= cur + (
            seq![t] + spec_drop_top_semicolons(ts.drop_first(), depth + 1)));
        } else if t.token is RightBracket && depth > 0 {
            lemma_split_statements_reassemble(ts.drop_first(), depth - 1, cur.push(t));
            assert(cur.push(t) + spec_drop_top_semicolons(ts.drop_first(), depth - 1) =~= cur + (
            seq![t] + spec_drop_top_semicolons(ts.drop_first(), depth - 1)));
        } else if t.token is Semicolon && depth == 0 {
            lemma_split_statements_reassemble(ts.drop_first(), 0, Seq::empty());
            let rest = spec_split_statements_at(ts.drop_first(), 0, Seq::empty());
            let whole = seq![cur] + rest;
            assert(whole.first() == cur);
            assert(whole.drop_first() =~= rest);
            assert(spec_concat_groups(whole) == cur + spec_concat_groups(rest));
            assert(Seq::<SpecFqt>::empty() + spec_drop_top_semicolons(ts.drop_first(), 0)
                =~= spec_drop_top_semicolons(ts.drop_first(), 0));
        } else {
            lemma_split_statements_reassemble(ts.drop_first(), depth, cur.push(t));
            assert(cur.push(t) + spec_drop_top_semicolons(ts.drop_first(), depth) =~= cur + (
            seq![t] + spec_drop_top_semicolons(ts.drop_first(), depth)));
        }
    }
}

/// Splits a token stream into statement groups at top-level semicolons,
/// exactly as `spec_split_statements` says.
pub fn split_by_semicolon_within_brackets(tokens: Vec<FullyQualifiedToken>) -> (res: Vec<
    Vec<FullyQualifiedToken>,
>)
    ensures
        res.deep_view() == spec_split_statements(tokens.deep_view()),
{
    let mut groups: Vec<Vec<FullyQualifiedToken>> = Vec::new();
    let mut current_group: Vec<FullyQualifiedToken> = Vec::new();
    let mut bracket_depth: usize = 0;
    let mut i: usize = 0;
    proof {
        assert(groups.deep_view() =~= Seq::<Seq<SpecFqt>>::empty());
        assert(current_group.deep_view() =~= Seq::<SpecFqt>::empty());
        assert(tokens.deep_view().skip(0) =~= tokens.deep_view());
    }
    while i < tokens.len()
        invariant
            i <= tokens@.len(),
            bracket_depth <= i,
            groups.deep_view() + spec_split_statements_at(
                tokens.deep_view().skip(i as int),
                bracket_depth as int,
                current_group.deep_view(),
            ) == spec_split_statements(tokens.deep_view()),
        decreases tokens@.len() - i,
    {
        let ghost rest = tokens.deep_view().skip(i as int);
        let ghost pre_groups = groups.deep_view();
        let ghost pre_cur = current_group.deep_view();
        proof {
            assert(rest.first() == tokens.deep_view()[i as int]);
            assert(rest.drop_first() =~= tokens.deep_view().skip(i as int + 1));
            assert(tokens.deep_view()[i as int] == tokens@[i as int].deep_view());
        }
        let fqt = clone_fqt(&tokens[i]);
        if token_eq(&fqt.token, &Token::LeftBracket) {
            bracket_depth += 1;
            current_group.push(fqt);
            proof {
                assert(current_group.deep_view() =~= pre_cur.push(rest.first()));
            }
        } else if token_eq(&fqt.token, &Token::RightBracket) && bracket_depth > 0 {
            bracket_depth -= 1;
            current_group.push(fqt);
            proof {
                assert(current_group.deep_view() =~= pre_cur.push(rest.first()));
            }
        } else if token_eq(&fqt.token, &Token::Semicolon) && bracket_depth == 0 {
            groups.push(current_group);
            current_group = Vec::new();
            proof {
                assert(groups.deep_view() =~= pre_groups.push(pre_cur));
                assert(current_group.deep_view() =~= Seq::<SpecFqt>::empty());
                assert(pre_groups + (seq![pre_cur] + spec_split_statements_at(rest.drop_first(), 0, Seq::empty()))
                    =~= pre_groups.push(pre_cur) + spec_split_statements_at(rest.drop_first(), 0, Seq::empty()));
            }
        } else {
            current_group.push(fqt);
            proof {
                assert(current_group.deep_view() =~= pre_cur.push(rest.first()));
            }
        }
        i += 1;
    }
    proof {
        assert(tokens.deep_view().skip(tokens@.len() as int).len() == 0);
    }
    if !current_group.is_empty() {
        let ghost pre_groups = groups.deep_view();
        let ghost pre_cur = current_group.deep_view();
        groups.push(current_group);
        proof {
            assert(groups.deep_view() =~= pre_groups.push(pre_cur));
            assert(pre_groups + seq![pre_cur] =~= pre_groups.push(pre_cur));
        }
    } else {
        proof {
            assert(groups.deep_view() + Seq::<Seq<SpecFqt>>::empty() =~= groups.deep_view());
        }
    }
    groups
}

} // verus!
