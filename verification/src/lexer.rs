//! The lexer: a pull scanner over the source characters. Each call skips
//! white space and line comments, then reads one maximal token, classifies
//! it, and reports its span.

use crate::error::{DiagnosticError, Error, ErrorValue, LexingErrorKind, LexingErrorValue};
use crate::span::Span;
use crate::token::{
    alpha_char, classify, classify_spec, digit_char, is_alpha_char, is_digit_char, is_space_char,
    operator_of, space_char, BinaryOperator, Operator, Token, TokenType, UnaryOperator,
};
use vstd::prelude::*;
use vstd::string::StrSliceExecFns;

verus! {

/// The index one past the first newline at or after `i`, or the length
/// when no newline remains: where scanning resumes after a line comment.
pub open spec fn newline_end(s: Seq<char>, i: int) -> int
    decreases s.len() - i,
{
    if i < 0 || i >= s.len() {
        s.len() as int
    } else if s[i] == '\n' {
        i + 1
    } else {
        newline_end(s, i + 1)
    }
}

proof fn lemma_newline_end_bounds(s: Seq<char>, i: int)
    requires
        0 <= i <= s.len(),
    ensures
        i <= newline_end(s, i) <= s.len(),
    decreases s.len() - i,
{
    if i < s.len() && s[i] != '\n' {
        lemma_newline_end_bounds(s, i + 1);
    }
}

/// The first position at or after `i` that holds neither white space nor
/// a line comment: where the next token (if any) starts.
pub open spec fn skip_trivia(s: Seq<char>, i: int) -> int
    recommends
        0 <= i <= s.len(),
    decreases s.len() - i,
    via skip_trivia_dec
{
    if i < 0 || i >= s.len() {
        s.len() as int
    } else if is_space_char(s[i]) {
        skip_trivia(s, i + 1)
    } else if s[i] == '/' && i + 1 < s.len() && s[i + 1] == '/' {
        skip_trivia(s, newline_end(s, i + 1))
    } else {
        i
    }
}

#[via_fn]
proof fn skip_trivia_dec(s: Seq<char>, i: int) {
    if 0 <= i && i < s.len() {
        lemma_newline_end_bounds(s, i + 1);
    }
}

proof fn lemma_skip_trivia_bounds(s: Seq<char>, i: int)
    requires
        0 <= i <= s.len(),
    ensures
        i <= skip_trivia(s, i) <= s.len(),
    decreases s.len() - i,
{
    if i < s.len() {
        if is_space_char(s[i]) {
            lemma_skip_trivia_bounds(s, i + 1);
        } else if s[i] == '/' && i + 1 < s.len() && s[i + 1] == '/' {
            lemma_newline_end_bounds(s, i + 1);
            lemma_skip_trivia_bounds(s, newline_end(s, i + 1));
        }
    }
}

/// The index of the closing quote at or after `i`, if any.
pub open spec fn close_quote(s: Seq<char>, i: int) -> Option<int>
    decreases s.len() - i,
{
    if i < 0 || i >= s.len() {
        None
    } else if s[i] == '"' {
        Some(i)
    } else {
        close_quote(s, i + 1)
    }
}

proof fn lemma_close_quote_bounds(s: Seq<char>, i: int)
    requires
        0 <= i,
    ensures
        close_quote(s, i) is Some ==> i <= close_quote(s, i)->Some_0 < s.len(),
    decreases s.len() - i,
{
    if i < s.len() && s[i] != '"' {
        lemma_close_quote_bounds(s, i + 1);
    }
}

/// The end of an identifier run that started before `i`.
pub open spec fn ident_end(s: Seq<char>, i: int) -> int
    decreases s.len() - i,
{
    if i < 0 || i >= s.len() || !crate::token::is_ident_char(s[i]) {
        i
    } else {
        ident_end(s, i + 1)
    }
}

proof fn lemma_ident_end_bounds(s: Seq<char>, i: int)
    requires
        0 <= i <= s.len(),
    ensures
        i <= ident_end(s, i) <= s.len(),
    decreases s.len() - i,
{
    if i < s.len() && crate::token::is_ident_char(s[i]) {
        lemma_ident_end_bounds(s, i + 1);
    }
}

/// The end of a digit run that started before `i`.
pub open spec fn digit_run_end(s: Seq<char>, i: int) -> int
    decreases s.len() - i,
{
    if i < 0 || i >= s.len() || !is_digit_char(s[i]) {
        i
    } else {
        digit_run_end(s, i + 1)
    }
}

proof fn lemma_digit_run_end_bounds(s: Seq<char>, i: int)
    requires
        0 <= i <= s.len(),
    ensures
        i <= digit_run_end(s, i) <= s.len(),
    decreases s.len() - i,
{
    if i < s.len() && is_digit_char(s[i]) {
        lemma_digit_run_end_bounds(s, i + 1);
    }
}

/// Where a number that starts at `t` ends: its digit run, extended over
/// one interior dot only when a digit follows the dot.
pub open spec fn number_end(s: Seq<char>, t: int) -> int
    recommends
        0 <= t < s.len(),
{
    let de = digit_run_end(s, t + 1);
    if de < s.len() && s[de] == '.' && de + 1 < s.len() && is_digit_char(s[de + 1]) {
        digit_run_end(s, de + 1)
    } else {
        de
    }
}

/// The single-character punctuation.
pub open spec fn is_punct_char(c: char) -> bool {
    c == '(' || c == ')' || c == '{' || c == '}' || c == ',' || c == '.' || c == ';' || c == '+'
        || c == '-' || c == '*'
}

/// The characters that may begin a two-character comparison operator.
pub open spec fn is_cmp_char(c: char) -> bool {
    c == '!' || c == '=' || c == '<' || c == '>'
}

/// A character that starts a token other than a string literal.
pub open spec fn starts_plain_token(c: char) -> bool {
    is_punct_char(c) || is_cmp_char(c) || c == '/' || is_alpha_char(c) || is_digit_char(c)
}

/// Where the token that starts at `t` ends (strings aside).
pub open spec fn token_end(s: Seq<char>, t: int) -> int
    recommends
        0 <= t < s.len(),
        starts_plain_token(s[t]),
{
    let c = s[t];
    if is_punct_char(c) {
        t + 1
    } else if is_cmp_char(c) {
        if t + 1 < s.len() && s[t + 1] == '=' {
            t + 2
        } else {
            t + 1
        }
    } else if c == '/' {
        t + 1
    } else if is_alpha_char(c) {
        ident_end(s, t + 1)
    } else if is_digit_char(c) {
        number_end(s, t)
    } else {
        t + 1
    }
}

/// A token never ends before the character after its start, nor past the
/// end of the source.
pub proof fn lemma_token_end_bounds(s: Seq<char>, t: int)
    requires
        0 <= t < s.len(),
        starts_plain_token(s[t]),
    ensures
        t < token_end(s, t) <= s.len(),
{
    let c = s[t];
    if is_alpha_char(c) {
        lemma_ident_end_bounds(s, t + 1);
    } else if !is_punct_char(c) && !is_cmp_char(c) && c != '/' && is_digit_char(c) {
        lemma_digit_run_end_bounds(s, t + 1);
        let de = digit_run_end(s, t + 1);
        if de < s.len() && s[de] == '.' && de + 1 < s.len() && is_digit_char(s[de + 1]) {
            lemma_digit_run_end_bounds(s, de + 1);
        }
    }
}

/// The scan position after one pull that started at `pos`.
pub open spec fn next_scan_pos(s: Seq<char>, pos: int) -> int
    recommends
        0 <= pos <= s.len(),
{
    let t = skip_trivia(s, pos);
    if t >= s.len() {
        s.len() as int
    } else {
        let c = s[t];
        if c == '"' {
            match close_quote(s, t + 1) {
                Some(j) => j + 1,
                None => s.len() as int,
            }
        } else if starts_plain_token(c) {
            token_end(s, t)
        } else {
            t + 1
        }
    }
}

/// The token read from `s[t..e)`: correctly classified, carrying that
/// exact slice as its lexeme, with that exact span.
pub open spec fn token_matches<'a>(
    s: Seq<char>,
    t: int,
    e: int,
    r: Option<Result<Token<'a>, Error>>,
) -> bool {
    match r {
        Some(Ok(tok)) => tok.ty == classify_spec(s.subrange(t, e)) && tok.lexeme@ == s.subrange(
            t,
            e,
        ) && tok.span == (Span { offset: t as usize, length: (e - t) as usize }),
        _ => false,
    }
}

/// A lexing error of the given kind, anchored at the given span of `s`.
pub open spec fn lexing_error_matches(
    s: Seq<char>,
    kind: LexingErrorKind,
    span: Span,
    r: Option<Result<Token<'_>, Error>>,
) -> bool {
    match r {
        Some(Err(Error::LexingError(d))) => d.kind == kind && d.span == span && d.source@ == s,
        _ => false,
    }
}

/// What one pull of the lexer yields, as a function of the source and the
/// position the pull started at: nothing at the end of input; a correctly
/// classified maximal token; an unterminated-string error when a quote
/// never closes; an unexpected-character error otherwise.
pub open spec fn scan_result_ok<'a>(
    s: Seq<char>,
    pos: int,
    r: Option<Result<Token<'a>, Error>>,
) -> bool {
    let t = skip_trivia(s, pos);
    if t >= s.len() {
        r is None
    } else {
        let c = s[t];
        if c == '"' {
            match close_quote(s, t + 1) {
                Some(j) => token_matches(s, t, j + 1, r),
                None => lexing_error_matches(
                    s,
                    LexingErrorKind::UnterminatedString,
                    Span { offset: t as usize, length: (s.len() - t) as usize },
                    r,
                ),
            }
        } else if starts_plain_token(c) {
            token_matches(s, t, token_end(s, t), r)
        } else {
            lexing_error_matches(
                s,
                LexingErrorKind::UnexpectedCharacter(c),
                Span { offset: t as usize, length: 1 },
                r,
            )
        }
    }
}

/// The deterministic outcome of one pull, as positions and error values:
/// `None` at the end of input; `Ok((t, e))` for a token spanning
/// `s[t..e)`; `Err` with the exact lexing error value otherwise.
pub open spec fn spec_scan(s: Seq<char>, pos: int) -> Option<Result<(int, int), ErrorValue>> {
    let t = skip_trivia(s, pos);
    if t >= s.len() {
        None
    } else {
        let c = s[t];
        if c == '"' {
            match close_quote(s, t + 1) {
                Some(j) => Some(Ok((t, j + 1))),
                None => Some(
                    Err(
                        ErrorValue::LexingError(
                            LexingErrorValue::UnterminatedString,
                            Span { offset: t as usize, length: (s.len() - t) as usize },
                            s,
                        ),
                    ),
                ),
            }
        } else if starts_plain_token(c) {
            Some(Ok((t, token_end(s, t))))
        } else {
            Some(
                Err(
                    ErrorValue::LexingError(
                        LexingErrorValue::UnexpectedCharacter(c),
                        Span { offset: t as usize, length: 1 },
                        s,
                    ),
                ),
            )
        }
    }
}

/// A scanned token lies strictly between the pull's start position and
/// the end of the source.
pub proof fn lemma_scan_bounds(s: Seq<char>, pos: int)
    ensures
        match spec_scan(s, pos) {
            Some(Ok(te)) => pos <= te.0 < te.1 <= s.len(),
            _ => true,
        },
{
    if 0 <= pos <= s.len() {
        lemma_skip_trivia_bounds(s, pos);
        let t = skip_trivia(s, pos);
        if t < s.len() {
            if s[t] == '"' {
                lemma_close_quote_bounds(s, t + 1);
            } else if starts_plain_token(s[t]) {
                lemma_token_end_bounds(s, t);
            }
        }
    }
}

/// When `spec_expect` succeeds, scanning moved strictly forward.
pub proof fn lemma_expect_bounds(s: Seq<char>, pos: int, expected: TokenType)
    ensures
        match spec_expect(s, pos, expected) {
            Ok(e) => pos < e <= s.len(),
            Err(_) => true,
        },
{
    lemma_scan_bounds(s, pos);
}

/// The deterministic outcome of demanding a token type: the position
/// after the token when the next token has that type, or the exact error
/// value otherwise.
pub open spec fn spec_expect(s: Seq<char>, pos: int, expected: TokenType) -> Result<
    int,
    ErrorValue,
> {
    match spec_scan(s, pos) {
        None => Err(ErrorValue::UnexpectedEndOfInput),
        Some(Err(ev)) => Err(ev),
        Some(Ok((t, e))) => {
            let ty = classify_spec(s.subrange(t, e));
            if ty == expected {
                Ok(e)
            } else {
                Err(
                    ErrorValue::LexingError(
                        LexingErrorValue::UnexpectedToken { expected, found: ty },
                        Span { offset: t as usize, length: (e - t) as usize },
                        s,
                    ),
                )
            }
        },
    }
}

/// The lexeme each operator is written as.
pub open spec fn operator_lexeme(op: Operator) -> Seq<char> {
    match op {
        Operator::Unary(u) => match u {
            UnaryOperator::LeftParen => seq!['('],
            UnaryOperator::RightParen => seq![')'],
            UnaryOperator::LeftBrace => seq!['{'],
            UnaryOperator::RightBrace => seq!['}'],
            UnaryOperator::Comma => seq![','],
            UnaryOperator::Dot => seq!['.'],
            UnaryOperator::Semicolon => seq![';'],
            UnaryOperator::Plus => seq!['+'],
            UnaryOperator::Minus => seq!['-'],
            UnaryOperator::Star => seq!['*'],
            UnaryOperator::Slash => seq!['/'],
            UnaryOperator::Bang => seq!['!'],
        },
        Operator::Binary(b) => match b {
            BinaryOperator::BangEqual => seq!['!', '='],
            BinaryOperator::Less => seq!['<'],
            BinaryOperator::LessEqual => seq!['<', '='],
            BinaryOperator::Equal => seq!['='],
            BinaryOperator::EqualEqual => seq!['=', '='],
            BinaryOperator::Greater => seq!['>'],
            BinaryOperator::GreaterEqual => seq!['>', '='],
        },
    }
}

/// Round-trip tokenization over operator text, in general: wherever the
/// next non-trivia character begins an operator — punctuation, a
/// comparison starter, or a slash (a comment opener was already trivia) —
/// the pull yields exactly one maximally munched operator token: two
/// characters when `!`, `=`, `<` or `>` is followed by `=`, one
/// otherwise. It is never an error and never an `Invalid` token, so text
/// made only of operators lexes to one operator token per operator.
pub proof fn lemma_operator_scan(s: Seq<char>, pos: int)
    requires
        0 <= pos <= s.len(),
        ({
            let t = skip_trivia(s, pos);
            t < s.len() && (is_punct_char(s[t]) || is_cmp_char(s[t]) || s[t] == '/')
        }),
    ensures
        ({
            let t = skip_trivia(s, pos);
            let e = if is_cmp_char(s[t]) && t + 1 < s.len() && s[t + 1] == '=' {
                t + 2
            } else {
                t + 1
            };
            &&& spec_scan(s, pos) == Some(Ok::<(int, int), ErrorValue>((t, e)))
            &&& next_scan_pos(s, pos) == e
            &&& classify_spec(s.subrange(t, e)) matches TokenType::Operator(_)
        }),
{
    lemma_skip_trivia_bounds(s, pos);
    let t = skip_trivia(s, pos);
    let c = s[t];
    let e = if is_cmp_char(c) && t + 1 < s.len() && s[t + 1] == '=' {
        t + 2
    } else {
        t + 1
    };
    assert(token_end(s, t) == e);
    let lex = s.subrange(t, e);
    assert(lex.len() == e - t);
    assert(lex[0] == c);
    if e == t + 2 {
        assert(lex[1] == s[t + 1]);
    }
    assert(operator_of(lex) is Some);
}

/// Round-trip tokenization of the operators: a source that spells any
/// one operator lexes to exactly that operator token covering the whole
/// input — never an `Invalid` classification, never an error — and the
/// stream then ends.
pub proof fn lemma_operator_round_trip<'a>(op: Operator, r: Option<Result<Token<'a>, Error>>)
    requires
        scan_result_ok(operator_lexeme(op), 0, r),
    ensures
        classify_spec(operator_lexeme(op)) == TokenType::Operator(op),
        token_matches(operator_lexeme(op), 0, operator_lexeme(op).len() as int, r),
        next_scan_pos(operator_lexeme(op), 0) == operator_lexeme(op).len(),
        skip_trivia(operator_lexeme(op), operator_lexeme(op).len() as int)
            == operator_lexeme(op).len(),
{
    let s = operator_lexeme(op);
    assert(s =~= s.subrange(0, s.len() as int));
    assert(classify_spec(s) == TokenType::Operator(op));
    assert(skip_trivia(s, 0) == 0);
    assert(token_end(s, 0) == s.len());
}

/// The number of newlines in `s[0..upto)`.
pub open spec fn newline_count(s: Seq<char>, upto: int) -> nat
    decreases upto,
{
    if upto <= 0 || upto > s.len() {
        0
    } else {
        newline_count(s, upto - 1) + if s[upto - 1] == '\n' {
            1nat
        } else {
            0nat
        }
    }
}

/// The 1-based line number of position `upto`: one more than the number
/// of newlines in the consumed prefix.
pub open spec fn line_of(s: Seq<char>, upto: int) -> nat {
    1 + newline_count(s, upto)
}

/// The lexer: the source text and the current scan position, counted in
/// characters.
#[derive(Debug, Clone, Copy)]
pub struct Lexer<'a> {
    pub source_code: &'a str,
    pub offset: usize,
}

/// Wraps a lexing error of the given kind into the common error type.
fn make_lexing_error(source: &str, kind: LexingErrorKind, span: Span) -> (r: Error)
    ensures
        r == Error::LexingError(
            DiagnosticError { source: r->LexingError_0.source, kind, span },
        ),
        r->LexingError_0.source@ == source@,
{
    Error::LexingError(DiagnosticError::new(source.to_owned(), kind, span))
}

impl<'a> Lexer<'a> {
    /// The scan position never passes the end of the source, and the
    /// source length fits the machine's word.
    pub open spec fn wf(self) -> bool {
        self.offset <= self.source_code@.len() && self.source_code@.len() <= usize::MAX
    }

    pub fn new(stream: &'a str) -> (r: Lexer<'a>)
        ensures
            r.source_code@ == stream@,
            r.offset == 0,
            r.wf(),
    {
        // counting the characters shows that their number fits a machine
        // word, which every later position computation leans on
        let _n = stream.unicode_len();
        Lexer { source_code: stream, offset: 0 }
    }

    pub fn source_code(&self) -> (r: &'a str)
        ensures
            r@ == self.source_code@,
    {
        self.source_code
    }

    pub fn offset(&self) -> (r: usize)
        ensures
            r == self.offset,
    {
        self.offset
    }

    /// The 1-based line number of the current position, counted from the
    /// consumed prefix. The source must leave one line number to spare,
    /// which any addressable source does.
    pub fn line(&self) -> (r: usize)
        requires
            self.wf(),
            self.source_code@.len() < usize::MAX,
        ensures
            r as nat == line_of(self.source_code@, self.offset as int),
    {
        let s = self.source_code;
        let mut count: usize = 0;
        let mut j: usize = 0;
        while j < self.offset
            invariant
                0 <= j <= self.offset <= s@.len(),
                count as nat == newline_count(s@, j as int),
                count <= j,
            decreases self.offset - j,
        {
            let c = s.get_char(j);
            if c == '\n' {
                count += 1;
            }
            j += 1;
        }
        count + 1
    }

    /// Advances past white space and line comments.
    fn skip_to_token(&mut self)
        requires
            old(self).wf(),
        ensures
            final(self).source_code == old(self).source_code,
            final(self).offset as int == skip_trivia(
                old(self).source_code@,
                old(self).offset as int,
            ),
            final(self).wf(),
    {
        let s = self.source_code;
        let n = s.unicode_len();
        proof {
            lemma_skip_trivia_bounds(s@, old(self).offset as int);
        }
        loop
            invariant
                self.source_code == old(self).source_code,
                s == self.source_code,
                n == s@.len(),
                self.offset <= n,
                skip_trivia(s@, old(self).offset as int) == skip_trivia(s@, self.offset as int),
            decreases n - self.offset,
        {
            if self.offset >= n {
                return ;
            }
            let c = s.get_char(self.offset);
            if space_char(c) {
                self.offset = self.offset + 1;
            } else if c == '/' && self.offset + 1 < n && s.get_char(self.offset + 1) == '/' {
                proof {
                    lemma_newline_end_bounds(s@, self.offset + 1);
                }
                self.offset = newline_scan(s, self.offset + 1);
            } else {
                return ;
            }
        }
    }

    /// Pulls the next token, or `None` at the end of input. Lexical
    /// errors are reported per token and scanning may continue.
    pub fn next(&mut self) -> (r: Option<Result<Token<'a>, Error>>)
        requires
            old(self).wf(),
        ensures
            final(self).wf(),
            final(self).source_code == old(self).source_code,
            final(self).offset as int == next_scan_pos(
                old(self).source_code@,
                old(self).offset as int,
            ),
            scan_result_ok(old(self).source_code@, old(self).offset as int, r),
            final(self).offset >= old(self).offset,
            r is Some ==> final(self).offset > old(self).offset,
            match r {
                None => spec_scan(old(self).source_code@, old(self).offset as int) is None,
                Some(Ok(tok)) => spec_scan(old(self).source_code@, old(self).offset as int)
                    == Some(Ok::<(int, int), ErrorValue>((tok.span.offset as int, tok.span.offset
                    + tok.span.length))),
                Some(Err(er)) => spec_scan(old(self).source_code@, old(self).offset as int)
                    matches Some(Err(ev)) && er@ == ev,
            },
            match r {
                Some(Ok(tok)) => tok.span.offset + tok.span.length <= old(
                    self,
                ).source_code@.len() && tok.ty == classify_spec(
                    old(self).source_code@.subrange(
                        tok.span.offset as int,
                        tok.span.offset + tok.span.length,
                    ),
                ) && tok.lexeme@ == old(self).source_code@.subrange(
                    tok.span.offset as int,
                    tok.span.offset + tok.span.length,
                ),
                _ => true,
            },
    {
        let s = self.source_code;
        let n = s.unicode_len();
        self.skip_to_token();
        let t = self.offset;
        proof {
            lemma_skip_trivia_bounds(s@, old(self).offset as int);
        }
        if t >= n {
            return None;
        }
        let c = s.get_char(t);
        if c == '"' {
            match quote_scan(s, t + 1) {
                Some(j) => {
                    self.offset = j + 1;
                    proof {
                        lemma_close_quote_bounds(s@, t as int + 1);
                    }
                    Some(Ok(token_at(s, t, j + 1)))
                },
                None => {
                    self.offset = n;
                    Some(
                        Err(
                            make_lexing_error(
                                s,
                                LexingErrorKind::UnterminatedString,
                                Span::new(t, n - t),
                            ),
                        ),
                    )
                },
            }
        } else if punct_char(c) {
            self.offset = t + 1;
            Some(Ok(token_at(s, t, t + 1)))
        } else if cmp_char(c) {
            let e = if t + 1 < n && s.get_char(t + 1) == '=' {
                t + 2
            } else {
                t + 1
            };
            self.offset = e;
            Some(Ok(token_at(s, t, e)))
        } else if c == '/' {
            self.offset = t + 1;
            Some(Ok(token_at(s, t, t + 1)))
        } else if alpha_char(c) {
            let e = ident_scan(s, t + 1);
            proof {
                lemma_ident_end_bounds(s@, t as int + 1);
            }
            self.offset = e;
            Some(Ok(token_at(s, t, e)))
        } else if digit_char(c) {
            let de = digit_scan(s, t + 1);
            proof {
                lemma_digit_run_end_bounds(s@, t as int + 1);
            }
            let e = if de < n && s.get_char(de) == '.' && de + 1 < n && digit_char(
                s.get_char(de + 1),
            ) {
                let e2 = digit_scan(s, de + 1);
                proof {
                    lemma_digit_run_end_bounds(s@, de as int + 1);
                }
                e2
            } else {
                de
            };
            self.offset = e;
            Some(Ok(token_at(s, t, e)))
        } else {
            self.offset = t + 1;
            Some(
                Err(
                    make_lexing_error(s, LexingErrorKind::UnexpectedCharacter(c), Span::new(t, 1)),
                ),
            )
        }
    }

    /// Looks at the next pull without advancing this lexer.
    pub fn peek(&self) -> (r: Option<Result<Token<'a>, Error>>)
        requires
            self.wf(),
        ensures
            scan_result_ok(self.source_code@, self.offset as int, r),
            match r {
                None => spec_scan(self.source_code@, self.offset as int) is None,
                Some(Ok(tok)) => spec_scan(self.source_code@, self.offset as int) == Some(
                    Ok::<(int, int), ErrorValue>(
                        (tok.span.offset as int, tok.span.offset + tok.span.length),
                    ),
                ) && tok.ty == classify_spec(
                    self.source_code@.subrange(
                        tok.span.offset as int,
                        tok.span.offset + tok.span.length,
                    ),
                ) && tok.lexeme@ == self.source_code@.subrange(
                    tok.span.offset as int,
                    tok.span.offset + tok.span.length,
                ),
                Some(Err(er)) => spec_scan(self.source_code@, self.offset as int) matches Some(
                    Err(ev),
                ) && er@ == ev,
            },
    {
        let mut probe = *self;
        probe.next()
    }

    /// Pulls the next token and demands the given type of it: anything
    /// else is an error, as is the end of input.
    pub fn expect(&mut self, expected: TokenType) -> (r: Result<Token<'a>, Error>)
        requires
            old(self).wf(),
        ensures
            final(self).wf(),
            final(self).source_code == old(self).source_code,
            final(self).offset as int == next_scan_pos(
                old(self).source_code@,
                old(self).offset as int,
            ),
            expect_result_ok(old(self).source_code@, old(self).offset as int, expected, r),
            match r {
                Ok(_) => spec_expect(old(self).source_code@, old(self).offset as int, expected)
                    == Ok::<int, ErrorValue>(final(self).offset as int),
                Err(er) => spec_expect(old(self).source_code@, old(self).offset as int, expected)
                    == Err::<int, ErrorValue>(er@),
            },
            final(self).offset >= old(self).offset,
            r is Ok ==> final(self).offset > old(self).offset,
            match r {
                Ok(tok) => tok.span.offset + tok.span.length <= old(self).source_code@.len()
                    && tok.ty == classify_spec(
                    old(self).source_code@.subrange(
                        tok.span.offset as int,
                        tok.span.offset + tok.span.length,
                    ),
                ),
                _ => true,
            },
    {
        match self.next() {
            None => Err(Error::UnexpectedEndOfInput),
            Some(Err(e)) => Err(e),
            Some(Ok(tok)) => {
                if tok.ty() == expected {
                    Ok(tok)
                } else {
                    Err(
                        make_lexing_error(
                            self.source_code,
                            LexingErrorKind::UnexpectedToken { expected, found: tok.ty() },
                            tok.span(),
                        ),
                    )
                }
            },
        }
    }
}

/// What `expect` yields: the scanned token when it has the demanded type;
/// otherwise the scan's own error, an unexpected-token error, or an
/// end-of-input error.
pub open spec fn expect_result_ok<'a>(
    s: Seq<char>,
    pos: int,
    expected: TokenType,
    r: Result<Token<'a>, Error>,
) -> bool {
    let t = skip_trivia(s, pos);
    if t >= s.len() {
        r == Result::<Token<'a>, Error>::Err(Error::UnexpectedEndOfInput)
    } else {
        match r {
            Ok(tok) => tok.ty == expected && scan_result_ok(s, pos, Some(Ok(tok))),
            Err(Error::LexingError(d)) => d.source@ == s && (scan_result_ok(
                s,
                pos,
                Some(Err(Error::LexingError(d))),
            ) || (match d.kind {
                LexingErrorKind::UnexpectedToken { expected: exp, found } => exp == expected
                    && found == classify_spec(s.subrange(t, next_scan_pos(s, pos))) && found
                    != expected && d.span == (Span {
                    offset: t as usize,
                    length: (next_scan_pos(s, pos) - t) as usize,
                }),
                _ => false,
            })),
            _ => false,
        }
    }
}

/// Reads the token that spans `s[t..e)`.
fn token_at<'b>(s: &'b str, t: usize, e: usize) -> (tok: Token<'b>)
    requires
        t < e <= s@.len(),
    ensures
        token_matches(s@, t as int, e as int, Some(Ok(tok))),
{
    let lex = s.substring_char(t, e);
    let ty = classify(lex);
    Token::new(ty, lex, Span::new(t, e - t))
}

/// Exec mirror of `is_punct_char`.
fn punct_char(c: char) -> (r: bool)
    ensures
        r == is_punct_char(c),
{
    c == '(' || c == ')' || c == '{' || c == '}' || c == ',' || c == '.' || c == ';' || c == '+'
        || c == '-' || c == '*'
}

/// Exec mirror of `is_cmp_char`.
fn cmp_char(c: char) -> (r: bool)
    ensures
        r == is_cmp_char(c),
{
    c == '!' || c == '=' || c == '<' || c == '>'
}

/// Finds where scanning resumes after a line comment.
fn newline_scan(s: &str, from: usize) -> (e: usize)
    requires
        from <= s@.len(),
    ensures
        e as int == newline_end(s@, from as int),
        from <= e <= s@.len(),
{
    let n = s.unicode_len();
    let mut j = from;
    while j < n
        invariant
            from <= j <= n == s@.len(),
            newline_end(s@, from as int) == newline_end(s@, j as int),
        decreases n - j,
    {
        let c = s.get_char(j);
        if c == '\n' {
            return j + 1;
        }
        j += 1;
    }
    n
}

/// Finds the closing quote at or after `from`.
fn quote_scan(s: &str, from: usize) -> (r: Option<usize>)
    requires
        from <= s@.len(),
    ensures
        match r {
            Some(j) => close_quote(s@, from as int) == Some(j as int) && from <= j < s@.len(),
            None => close_quote(s@, from as int) is None,
        },
{
    let n = s.unicode_len();
    let mut j = from;
    while j < n
        invariant
            from <= j <= n == s@.len(),
            close_quote(s@, from as int) == close_quote(s@, j as int),
        decreases n - j,
    {
        let c = s.get_char(j);
        if c == '"' {
            return Some(j);
        }
        j += 1;
    }
    None
}

/// Finds the end of an identifier run.
fn ident_scan(s: &str, from: usize) -> (e: usize)
    requires
        from <= s@.len(),
    ensures
        e as int == ident_end(s@, from as int),
        from <= e <= s@.len(),
{
    let n = s.unicode_len();
    let mut j = from;
    while j < n
        invariant
            from <= j <= n == s@.len(),
            ident_end(s@, from as int) == ident_end(s@, j as int),
        decreases n - j,
    {
        let c = s.get_char(j);
        if !crate::token::ident_char(c) {
            return j;
        }
        j += 1;
    }
    n
}

/// Finds the end of a digit run.
fn digit_scan(s: &str, from: usize) -> (e: usize)
    requires
        from <= s@.len(),
    ensures
        e as int == digit_run_end(s@, from as int),
        from <= e <= s@.len(),
{
    let n = s.unicode_len();
    let mut j = from;
    while j < n
        invariant
            from <= j <= n == s@.len(),
            digit_run_end(s@, from as int) == digit_run_end(s@, j as int),
        decreases n - j,
    {
        let c = s.get_char(j);
        if !digit_char(c) {
            return j;
        }
        j += 1;
    }
    n
}

} // verus!
