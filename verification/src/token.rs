//! The lexical vocabulary: operators, keywords and literals, together with
//! the rules that classify a lexeme into its token type.

use crate::number::{norm_spec, Number};
use crate::span::Span;
use vstd::prelude::*;
use vstd::string::StrSliceExecFns;

verus! {

/// Operators written with a single character, and the punctuation.
#[derive(Debug, Clone, Copy, PartialEq, Eq, Structural)]
pub enum UnaryOperator {
    LeftParen,
    RightParen,
    LeftBrace,
    RightBrace,
    Comma,
    Dot,
    Semicolon,
    Plus,
    Minus,
    Star,
    Slash,
    Bang,
}

/// Operators written with two characters, and the comparison family.
#[derive(Debug, Clone, Copy, PartialEq, Eq, Structural)]
pub enum BinaryOperator {
    BangEqual,
    Less,
    LessEqual,
    Equal,
    EqualEqual,
    Greater,
    GreaterEqual,
}

/// A lexical operator.
#[derive(Debug, Clone, Copy, PartialEq, Eq, Structural)]
pub enum Operator {
    Unary(UnaryOperator),
    Binary(BinaryOperator),
}

/// The reserved words, matched case-sensitively.
#[derive(Debug, Clone, Copy, PartialEq, Eq, Structural)]
pub enum Keyword {
    And,
    Or,
    If,
    Else,
    True,
    False,
    For,
    While,
    Class,
    Fun,
    Var,
    Print,
    Return,
    Super,
    This,
    Nil,
}

/// A literal: an identifier, a quoted string (its text is recovered from
/// the lexeme), or a number with its value parsed at lexing time.
#[derive(Debug, Clone, Copy, PartialEq, Eq, Structural)]
pub enum Literal {
    Identifier,
    String,
    Number(Number),
}

/// The classification of one token.
#[derive(Debug, Clone, Copy, PartialEq, Eq, Structural)]
pub enum TokenType {
    Keyword(Keyword),
    Literal(Literal),
    Operator(Operator),
    Invalid,
}

/// A decimal digit.
pub open spec fn is_digit_char(c: char) -> bool {
    48 <= c as int <= 57
}

/// An ASCII letter or an underscore: what may start an identifier.
pub open spec fn is_alpha_char(c: char) -> bool {
    (65 <= c as int <= 90) || (97 <= c as int <= 122) || c as int == 95
}

/// What may continue an identifier.
pub open spec fn is_ident_char(c: char) -> bool {
    is_alpha_char(c) || is_digit_char(c)
}

/// A character with the Unicode white-space property.
pub open spec fn is_space_char(c: char) -> bool {
    let u = c as int;
    (9 <= u <= 13) || u == 32 || u == 0x85 || u == 0xA0 || u == 0x1680 || (0x2000 <= u <= 0x200A)
        || u == 0x2028 || u == 0x2029 || u == 0x202F || u == 0x205F || u == 0x3000
}

/// Exec mirror of `is_digit_char`.
pub fn digit_char(c: char) -> (r: bool)
    ensures
        r == is_digit_char(c),
{
    let u = c as u32;
    48 <= u && u <= 57
}

/// Exec mirror of `is_alpha_char`.
pub fn alpha_char(c: char) -> (r: bool)
    ensures
        r == is_alpha_char(c),
{
    let u = c as u32;
    (65 <= u && u <= 90) || (97 <= u && u <= 122) || u == 95
}

/// Exec mirror of `is_ident_char`.
pub fn ident_char(c: char) -> (r: bool)
    ensures
        r == is_ident_char(c),
{
    alpha_char(c) || digit_char(c)
}

/// Exec mirror of `is_space_char`, the Unicode white-space set.
pub fn space_char(c: char) -> (r: bool)
    ensures
        r == is_space_char(c),
{
    let u = c as u32;
    (9 <= u && u <= 13) || u == 32 || u == 0x85 || u == 0xA0 || u == 0x1680 || (0x2000 <= u && u
        <= 0x200A) || u == 0x2028 || u == 0x2029 || u == 0x202F || u == 0x205F || u == 0x3000
}

/// The operator a lexeme spells, if any.
pub open spec fn operator_of(s: Seq<char>) -> Option<Operator> {
    if s.len() == 1 {
        let c = s[0];
        if c == '(' {
            Some(Operator::Unary(UnaryOperator::LeftParen))
        } else if c == ')' {
            Some(Operator::Unary(UnaryOperator::RightParen))
        } else if c == '{' {
            Some(Operator::Unary(UnaryOperator::LeftBrace))
        } else if c == '}' {
            Some(Operator::Unary(UnaryOperator::RightBrace))
        } else if c == ',' {
            Some(Operator::Unary(UnaryOperator::Comma))
        } else if c == '.' {
            Some(Operator::Unary(UnaryOperator::Dot))
        } else if c == ';' {
            Some(Operator::Unary(UnaryOperator::Semicolon))
        } else if c == '+' {
            Some(Operator::Unary(UnaryOperator::Plus))
        } else if c == '-' {
            Some(Operator::Unary(UnaryOperator::Minus))
        } else if c == '*' {
            Some(Operator::Unary(UnaryOperator::Star))
        } else if c == '/' {
            Some(Operator::Unary(UnaryOperator::Slash))
        } else if c == '!' {
            Some(Operator::Unary(UnaryOperator::Bang))
        } else if c == '<' {
            Some(Operator::Binary(BinaryOperator::Less))
        } else if c == '=' {
            Some(Operator::Binary(BinaryOperator::Equal))
        } else if c == '>' {
            Some(Operator::Binary(BinaryOperator::Greater))
        } else {
            None
        }
    } else if s.len() == 2 && s[1] == '=' {
        let c = s[0];
        if c == '!' {
            Some(Operator::Binary(BinaryOperator::BangEqual))
        } else if c == '<' {
            Some(Operator::Binary(BinaryOperator::LessEqual))
        } else if c == '=' {
            Some(Operator::Binary(BinaryOperator::EqualEqual))
        } else if c == '>' {
            Some(Operator::Binary(BinaryOperator::GreaterEqual))
        } else {
            None
        }
    } else {
        None
    }
}

/// The keyword a lexeme spells, if any.
pub open spec fn keyword_of(s: Seq<char>) -> Option<Keyword> {
    if s.len() == 2 {
        if s[0] == 'i' && s[1] == 'f' {
            Some(Keyword::If)
        } else if s[0] == 'o' && s[1] == 'r' {
            Some(Keyword::Or)
        } else {
            None
        }
    } else if s.len() == 3 {
        if s[0] == 'a' && s[1] == 'n' && s[2] == 'd' {
            Some(Keyword::And)
        } else if s[0] == 'f' && s[1] == 'o' && s[2] == 'r' {
            Some(Keyword::For)
        } else if s[0] == 'f' && s[1] == 'u' && s[2] == 'n' {
            Some(Keyword::Fun)
        } else if s[0] == 'v' && s[1] == 'a' && s[2] == 'r' {
            Some(Keyword::Var)
        } else if s[0] == 'n' && s[1] == 'i' && s[2] == 'l' {
            Some(Keyword::Nil)
        } else {
            None
        }
    } else if s.len() == 4 {
        if s[0] == 'e' && s[1] == 'l' && s[2] == 's' && s[3] == 'e' {
            Some(Keyword::Else)
        } else if s[0] == 't' && s[1] == 'r' && s[2] == 'u' && s[3] == 'e' {
            Some(Keyword::True)
        } else if s[0] == 't' && s[1] == 'h' && s[2] == 'i' && s[3] == 's' {
            Some(Keyword::This)
        } else {
            None
        }
    } else if s.len() == 5 {
        if s[0] == 'c' && s[1] == 'l' && s[2] == 'a' && s[3] == 's' && s[4] == 's' {
            Some(Keyword::Class)
        } else if s[0] == 'w' && s[1] == 'h' && s[2] == 'i' && s[3] == 'l' && s[4] == 'e' {
            Some(Keyword::While)
        } else if s[0] == 'p' && s[1] == 'r' && s[2] == 'i' && s[3] == 'n' && s[4] == 't' {
            Some(Keyword::Print)
        } else if s[0] == 's' && s[1] == 'u' && s[2] == 'p' && s[3] == 'e' && s[4] == 'r' {
            Some(Keyword::Super)
        } else if s[0] == 'f' && s[1] == 'a' && s[2] == 'l' && s[3] == 's' && s[4] == 'e' {
            Some(Keyword::False)
        } else {
            None
        }
    } else if s.len() == 6 {
        if s[0] == 'r' && s[1] == 'e' && s[2] == 't' && s[3] == 'u' && s[4] == 'r' && s[5] == 'n' {
            Some(Keyword::Return)
        } else {
            None
        }
    } else {
        None
    }
}

/// Every character is a decimal digit.
pub open spec fn all_digits(s: Seq<char>) -> bool {
    forall|i: int| 0 <= i < s.len() ==> is_digit_char(#[trigger] s[i])
}

/// Every character is a decimal digit or a dot.
pub open spec fn all_digits_or_dots(s: Seq<char>) -> bool {
    forall|i: int| 0 <= i < s.len() ==> is_digit_char(#[trigger] s[i]) || s[i] == '.'
}

/// Every character may continue an identifier.
pub open spec fn all_ident_chars(s: Seq<char>) -> bool {
    forall|i: int| 0 <= i < s.len() ==> is_ident_char(#[trigger] s[i])
}

/// The first index at or after `from` holding a dot, if any.
pub open spec fn dot_index_from(s: Seq<char>, from: int) -> Option<int>
    decreases s.len() - from,
{
    if from < 0 || from >= s.len() {
        None
    } else if s[from] == '.' {
        Some(from)
    } else {
        dot_index_from(s, from + 1)
    }
}

/// The value of a digit string, read in base ten; the empty string reads
/// as zero.
pub open spec fn digits_val(s: Seq<char>) -> nat
    decreases s.len(),
{
    if s.len() == 0 {
        0
    } else {
        digits_val(s.drop_last()) * 10 + (s.last() as nat - 48) as nat
    }
}

/// Ten to the `k`.
pub open spec fn pow10(k: nat) -> nat
    decreases k,
{
    if k == 0 {
        1
    } else {
        10 * pow10((k - 1) as nat)
    }
}

/// The classification of a lexeme made of digits and dots: a number token
/// when it has at most one dot, at least one digit, and its exact value
/// can be held; otherwise no valid token.
pub open spec fn number_literal_of(s: Seq<char>) -> TokenType
    recommends
        all_digits_or_dots(s),
        s.len() >= 1,
{
    let i = match dot_index_from(s, 0) {
        Some(i) => i,
        None => s.len() as int,
    };
    let int_part = s.take(i);
    let frac_part = if i == s.len() {
        Seq::<char>::empty()
    } else {
        s.skip(i + 1)
    };
    if i < s.len() && dot_index_from(s, i + 1) is Some {
        TokenType::Invalid
    } else if int_part.len() + frac_part.len() == 0 {
        TokenType::Invalid
    } else {
        let n1 = digits_val(int_part);
        let n2 = digits_val(frac_part);
        let p = pow10(frac_part.len());
        if n1 <= i64::MAX && n2 <= i64::MAX && p <= i64::MAX && n1 * p + n2 <= i64::MAX {
            match norm_spec((n1 * p + n2) as int, p as int) {
                Some(v) => TokenType::Literal(Literal::Number(v)),
                None => TokenType::Invalid,
            }
        } else {
            TokenType::Invalid
        }
    }
}

/// How a lexeme classifies: first as an operator, then as a keyword, then
/// as a literal (a quoted string, a number, or an identifier).
pub open spec fn classify_spec(s: Seq<char>) -> TokenType {
    if s.len() == 0 {
        TokenType::Invalid
    } else if operator_of(s) is Some {
        TokenType::Operator(operator_of(s)->Some_0)
    } else if keyword_of(s) is Some {
        TokenType::Keyword(keyword_of(s)->Some_0)
    } else if s[0] == '"' {
        if s[s.len() - 1] == '"' {
            TokenType::Literal(Literal::String)
        } else {
            TokenType::Invalid
        }
    } else if all_digits_or_dots(s) {
        number_literal_of(s)
    } else if !is_digit_char(s[0]) && all_ident_chars(s) {
        TokenType::Literal(Literal::Identifier)
    } else {
        TokenType::Invalid
    }
}

proof fn lemma_digits_val_monotone(s: Seq<char>, j: int)
    requires
        0 <= j <= s.len(),
    ensures
        digits_val(s.take(j)) <= digits_val(s),
    decreases s.len() - j,
{
    if j == s.len() {
        assert(s.take(j) =~= s);
    } else {
        lemma_digits_val_monotone(s, j + 1);
        assert(s.take(j + 1).drop_last() =~= s.take(j));
        assert(digits_val(s.take(j + 1)) == digits_val(s.take(j)) * 10 + (s.take(j + 1).last()
            as nat - 48) as nat);
    }
}

proof fn lemma_pow10_pos(k: nat)
    ensures
        pow10(k) >= 1,
    decreases k,
{
    if k > 0 {
        lemma_pow10_pos((k - 1) as nat);
    }
}

proof fn lemma_pow10_monotone(a: nat, b: nat)
    requires
        a <= b,
    ensures
        pow10(a) <= pow10(b),
    decreases b,
{
    if a < b {
        lemma_pow10_monotone(a, (b - 1) as nat);
        lemma_pow10_pos((b - 1) as nat);
    }
}

proof fn lemma_dot_index_props(s: Seq<char>, from: int)
    requires
        0 <= from,
    ensures
        match dot_index_from(s, from) {
            Some(i) => from <= i < s.len() && s[i] == '.' && forall|j: int|
                from <= j < i ==> #[trigger] s[j] != '.',
            None => forall|j: int| from <= j < s.len() ==> #[trigger] s[j] != '.',
        },
    decreases s.len() - from,
{
    if from < s.len() && s[from] != '.' {
        lemma_dot_index_props(s, from + 1);
    }
}

/// Finds the first dot at or after `from`.
fn dot_find_from(s: &str, from: usize) -> (r: Option<usize>)
    requires
        from <= s@.len(),
    ensures
        match r {
            Some(i) => Some(i as int) == dot_index_from(s@, from as int),
            None => dot_index_from(s@, from as int) is None,
        },
{
    let n = s.unicode_len();
    let mut j = from;
    while j < n
        invariant
            from <= j <= n == s@.len(),
            dot_index_from(s@, from as int) == dot_index_from(s@, j as int),
        decreases n - j,
    {
        let c = s.get_char(j);
        if c == '.' {
            return Some(j);
        }
        j += 1;
    }
    None
}

/// Checks that every character is a digit or a dot.
fn digits_dots_check(s: &str) -> (r: bool)
    ensures
        r == all_digits_or_dots(s@),
{
    let n = s.unicode_len();
    let mut j: usize = 0;
    while j < n
        invariant
            0 <= j <= n == s@.len(),
            forall|i: int| 0 <= i < j ==> is_digit_char(#[trigger] s@[i]) || s@[i] == '.',
        decreases n - j,
    {
        let c = s.get_char(j);
        if !(digit_char(c) || c == '.') {
            assert(!(is_digit_char(s@[j as int]) || s@[j as int] == '.'));
            return false;
        }
        j += 1;
    }
    true
}

/// Checks that every character may continue an identifier.
fn ident_chars_check(s: &str) -> (r: bool)
    ensures
        r == all_ident_chars(s@),
{
    let n = s.unicode_len();
    let mut j: usize = 0;
    while j < n
        invariant
            0 <= j <= n == s@.len(),
            forall|i: int| 0 <= i < j ==> is_ident_char(#[trigger] s@[i]),
        decreases n - j,
    {
        let c = s.get_char(j);
        if !ident_char(c) {
            assert(!is_ident_char(s@[j as int]));
            return false;
        }
        j += 1;
    }
    true
}

/// Reads the decimal value of `s[from..to]`; `None` when it is beyond
/// `i64::MAX`.
fn digits_value(s: &str, from: usize, to: usize) -> (r: Option<u64>)
    requires
        from <= to <= s@.len(),
        all_digits(s@.subrange(from as int, to as int)),
    ensures
        match r {
            Some(v) => v as nat == digits_val(s@.subrange(from as int, to as int)) && v
                <= i64::MAX as u64,
            None => digits_val(s@.subrange(from as int, to as int)) > i64::MAX as u64,
        },
{
    let ghost d = s@.subrange(from as int, to as int);
    let bound: u64 = 9_223_372_036_854_775_807;
    assert(bound == i64::MAX as u64);
    let mut acc: u64 = 0;
    let mut j = from;
    while j < to
        invariant
            from <= j <= to <= s@.len(),
            acc as nat == digits_val(d.take(j - from)),
            acc <= bound,
            bound == i64::MAX as u64,
            all_digits(d),
            d == s@.subrange(from as int, to as int),
        decreases to - j,
    {
        let c = s.get_char(j);
        proof {
            assert(c == d[j - from]);
            assert(is_digit_char(c));
        }
        let dv: u64 = (c as u32 - 48) as u64;
        proof {
            assert(d.take(j - from + 1).drop_last() =~= d.take(j - from));
            assert(d.take(j - from + 1).last() == c);
            assert(digits_val(d.take(j - from + 1)) == digits_val(d.take(j - from)) * 10 + (
            c as nat - 48) as nat);
            vstd::arithmetic::div_mod::lemma_fundamental_div_mod((bound - dv) as int, 10);
        }
        if acc <= (bound - dv) / 10 {
            acc = acc * 10 + dv;
        } else {
            proof {
                assert(acc as nat * 10 + dv as nat > bound as nat);
                lemma_digits_val_monotone(d, j - from + 1);
            }
            return None;
        }
        j += 1;
    }
    proof {
        assert(d.take(to - from) =~= d);
    }
    Some(acc)
}

/// Computes ten to the `k`; `None` when it is beyond `i64::MAX`.
fn pow10_value(k: usize) -> (r: Option<u64>)
    ensures
        match r {
            Some(v) => v as nat == pow10(k as nat) && v <= i64::MAX as u64,
            None => pow10(k as nat) > i64::MAX as u64,
        },
{
    let bound: u64 = 9_223_372_036_854_775_807;
    assert(bound == i64::MAX as u64);
    let mut p: u64 = 1;
    let mut j: usize = 0;
    while j < k
        invariant
            0 <= j <= k,
            p as nat == pow10(j as nat),
            p <= bound,
            bound == i64::MAX as u64,
        decreases k - j,
    {
        proof {
            vstd::arithmetic::div_mod::lemma_fundamental_div_mod(bound as int, 10);
        }
        if p <= bound / 10 {
            p = p * 10;
        } else {
            proof {
                assert(pow10((j + 1) as nat) == 10 * pow10(j as nat));
                lemma_pow10_monotone((j + 1) as nat, k as nat);
            }
            return None;
        }
        j += 1;
    }
    Some(p)
}

/// Looks a lexeme up in the operator table.
pub fn operator_lookup(s: &str) -> (r: Option<Operator>)
    ensures
        r == operator_of(s@),
{
    let n = s.unicode_len();
    if n == 1 {
        let c = s.get_char(0);
        if c == '(' {
            Some(Operator::Unary(UnaryOperator::LeftParen))
        } else if c == ')' {
            Some(Operator::Unary(UnaryOperator::RightParen))
        } else if c == '{' {
            Some(Operator::Unary(UnaryOperator::LeftBrace))
        } else if c == '}' {
            Some(Operator::Unary(UnaryOperator::RightBrace))
        } else if c == ',' {
            Some(Operator::Unary(UnaryOperator::Comma))
        } else if c == '.' {
            Some(Operator::Unary(UnaryOperator::Dot))
        } else if c == ';' {
            Some(Operator::Unary(UnaryOperator::Semicolon))
        } else if c == '+' {
            Some(Operator::Unary(UnaryOperator::Plus))
        } else if c == '-' {
            Some(Operator::Unary(UnaryOperator::Minus))
        } else if c == '*' {
            Some(Operator::Unary(UnaryOperator::Star))
        } else if c == '/' {
            Some(Operator::Unary(UnaryOperator::Slash))
        } else if c == '!' {
            Some(Operator::Unary(UnaryOperator::Bang))
        } else if c == '<' {
            Some(Operator::Binary(BinaryOperator::Less))
        } else if c == '=' {
            Some(Operator::Binary(BinaryOperator::Equal))
        } else if c == '>' {
            Some(Operator::Binary(BinaryOperator::Greater))
        } else {
            None
        }
    } else if n == 2 {
        let c1 = s.get_char(1);
        if c1 == '=' {
            let c = s.get_char(0);
            if c == '!' {
                Some(Operator::Binary(BinaryOperator::BangEqual))
            } else if c == '<' {
                Some(Operator::Binary(BinaryOperator::LessEqual))
            } else if c == '=' {
                Some(Operator::Binary(BinaryOperator::EqualEqual))
            } else if c == '>' {
                Some(Operator::Binary(BinaryOperator::GreaterEqual))
            } else {
                None
            }
        } else {
            None
        }
    } else {
        None
    }
}

/// Looks a lexeme up in the keyword table.
pub fn keyword_lookup(s: &str) -> (r: Option<Keyword>)
    ensures
        r == keyword_of(s@),
{
    let n = s.unicode_len();
    if n == 2 {
        let c0 = s.get_char(0);
        let c1 = s.get_char(1);
        if c0 == 'i' && c1 == 'f' {
            Some(Keyword::If)
        } else if c0 == 'o' && c1 == 'r' {
            Some(Keyword::Or)
        } else {
            None
        }
    } else if n == 3 {
        let c0 = s.get_char(0);
        let c1 = s.get_char(1);
        let c2 = s.get_char(2);
        if c0 == 'a' && c1 == 'n' && c2 == 'd' {
            Some(Keyword::And)
        } else if c0 == 'f' && c1 == 'o' && c2 == 'r' {
            Some(Keyword::For)
        } else if c0 == 'f' && c1 == 'u' && c2 == 'n' {
            Some(Keyword::Fun)
        } else if c0 == 'v' && c1 == 'a' && c2 == 'r' {
            Some(Keyword::Var)
        } else if c0 == 'n' && c1 == 'i' && c2 == 'l' {
            Some(Keyword::Nil)
        } else {
            None
        }
    } else if n == 4 {
        let c0 = s.get_char(0);
        let c1 = s.get_char(1);
        let c2 = s.get_char(2);
        let c3 = s.get_char(3);
        if c0 == 'e' && c1 == 'l' && c2 == 's' && c3 == 'e' {
            Some(Keyword::Else)
        } else if c0 == 't' && c1 == 'r' && c2 == 'u' && c3 == 'e' {
            Some(Keyword::True)
        } else if c0 == 't' && c1 == 'h' && c2 == 'i' && c3 == 's' {
            Some(Keyword::This)
        } else {
            None
        }
    } else if n == 5 {
        let c0 = s.get_char(0);
        let c1 = s.get_char(1);
        let c2 = s.get_char(2);
        let c3 = s.get_char(3);
        let c4 = s.get_char(4);
        if c0 == 'c' && c1 == 'l' && c2 == 'a' && c3 == 's' && c4 == 's' {
            Some(Keyword::Class)
        } else if c0 == 'w' && c1 == 'h' && c2 == 'i' && c3 == 'l' && c4 == 'e' {
            Some(Keyword::While)
        } else if c0 == 'p' && c1 == 'r' && c2 == 'i' && c3 == 'n' && c4 == 't' {
            Some(Keyword::Print)
        } else if c0 == 's' && c1 == 'u' && c2 == 'p' && c3 == 'e' && c4 == 'r' {
            Some(Keyword::Super)
        } else if c0 == 'f' && c1 == 'a' && c2 == 'l' && c3 == 's' && c4 == 'e' {
            Some(Keyword::False)
        } else {
            None
        }
    } else if n == 6 {
        let c0 = s.get_char(0);
        let c1 = s.get_char(1);
        let c2 = s.get_char(2);
        let c3 = s.get_char(3);
        let c4 = s.get_char(4);
        let c5 = s.get_char(5);
        if c0 == 'r' && c1 == 'e' && c2 == 't' && c3 == 'u' && c4 == 'r' && c5 == 'n' {
            Some(Keyword::Return)
        } else {
            None
        }
    } else {
        None
    }
}

/// Classifies a lexeme of digits and dots.
fn number_lookup(s: &str) -> (t: TokenType)
    requires
        all_digits_or_dots(s@),
        s@.len() >= 1,
    ensures
        t == number_literal_of(s@),
{
    let n = s.unicode_len();
    let dot = dot_find_from(s, 0);
    proof {
        lemma_dot_index_props(s@, 0);
    }
    let i = match dot {
        Some(i) => i,
        None => n,
    };
    if i < n {
        let second = dot_find_from(s, i + 1);
        proof {
            lemma_dot_index_props(s@, i + 1);
        }
        if second.is_some() {
            return TokenType::Invalid;
        }
    }
    if n == 1 && i == 0 {
        return TokenType::Invalid;
    }
    proof {
        assert(s@.take(i as int) =~= s@.subrange(0, i as int));
        assert(all_digits(s@.subrange(0, i as int)));
    }
    let n1 = match digits_value(s, 0, i) {
        Some(v) => v,
        None => {
            return TokenType::Invalid;
        },
    };
    let ghost frac_spec = if i == n {
        Seq::<char>::empty()
    } else {
        s@.skip(i as int + 1)
    };
    let frac_len: usize = if i == n {
        0
    } else {
        n - 1 - i
    };
    let n2: u64 = if i == n {
        proof {
            assert(frac_spec =~= s@.subrange(n as int, n as int));
        }
        0
    } else {
        proof {
            assert(frac_spec =~= s@.subrange(i as int + 1, n as int));
            assert(all_digits(s@.subrange(i as int + 1, n as int)));
        }
        match digits_value(s, i + 1, n) {
            Some(v) => v,
            None => {
                return TokenType::Invalid;
            },
        }
    };
    let p = match pow10_value(frac_len) {
        Some(v) => v,
        None => {
            return TokenType::Invalid;
        },
    };
    proof {
        assert((n1 as nat) * (p as nat) + n2 as nat <= u128::MAX) by (nonlinear_arith)
            requires
                n1 as nat <= 0x7fff_ffff_ffff_ffff,
                p as nat <= 0x7fff_ffff_ffff_ffff,
                n2 as nat <= 0x7fff_ffff_ffff_ffff,
        ;
    }
    let num_wide: u128 = (n1 as u128) * (p as u128) + (n2 as u128);
    if num_wide <= 9_223_372_036_854_775_807u128 {
        proof {
            lemma_pow10_pos(frac_len as nat);
        }
        match Number::new_rational(num_wide as i64, p as i64) {
            Some(v) => TokenType::Literal(Literal::Number(v)),
            None => TokenType::Invalid,
        }
    } else {
        TokenType::Invalid
    }
}

/// Classifies a lexeme: first as an operator, then as a keyword, then as
/// a literal.
pub fn classify(s: &str) -> (t: TokenType)
    ensures
        t == classify_spec(s@),
{
    let n = s.unicode_len();
    if n == 0 {
        return TokenType::Invalid;
    }
    if let Some(op) = operator_lookup(s) {
        return TokenType::Operator(op);
    }
    if let Some(kw) = keyword_lookup(s) {
        return TokenType::Keyword(kw);
    }
    let c0 = s.get_char(0);
    if c0 == '"' {
        return if s.get_char(n - 1) == '"' {
            TokenType::Literal(Literal::String)
        } else {
            TokenType::Invalid
        };
    }
    if digits_dots_check(s) {
        return number_lookup(s);
    }
    if !digit_char(c0) && ident_chars_check(s) {
        return TokenType::Literal(Literal::Identifier);
    }
    TokenType::Invalid
}

/// The display label of a single-character operator.
pub open spec fn spec_unary_operator_text(op: UnaryOperator) -> Seq<char> {
    match op {
        UnaryOperator::LeftParen => "LEFT_PAREN"@,
        UnaryOperator::RightParen => "RIGHT_PAREN"@,
        UnaryOperator::LeftBrace => "LEFT_BRACE"@,
        UnaryOperator::RightBrace => "RIGHT_BRACE"@,
        UnaryOperator::Comma => "COMMA"@,
        UnaryOperator::Dot => "DOT"@,
        UnaryOperator::Semicolon => "SEMICOLON"@,
        UnaryOperator::Plus => "PLUS"@,
        UnaryOperator::Minus => "MINUS"@,
        UnaryOperator::Star => "STAR"@,
        UnaryOperator::Slash => "SLASH"@,
        UnaryOperator::Bang => "BANG"@,
    }
}

/// The display label of a two-character operator.
pub open spec fn spec_binary_operator_text(op: BinaryOperator) -> Seq<char> {
    match op {
        BinaryOperator::BangEqual => "BANG_EQUAL"@,
        BinaryOperator::Less => "LESS"@,
        BinaryOperator::LessEqual => "LESS_EQUAL"@,
        BinaryOperator::Equal => "EQUAL"@,
        BinaryOperator::EqualEqual => "EQUAL_EQUAL"@,
        BinaryOperator::Greater => "GREATER"@,
        BinaryOperator::GreaterEqual => "GREATER_EQUAL"@,
    }
}

/// The display label of a keyword.
pub open spec fn spec_keyword_text(kw: Keyword) -> Seq<char> {
    match kw {
        Keyword::And => "AND"@,
        Keyword::Class => "CLASS"@,
        Keyword::Else => "ELSE"@,
        Keyword::False => "FALSE"@,
        Keyword::Fun => "FUN"@,
        Keyword::For => "FOR"@,
        Keyword::If => "IF"@,
        Keyword::Nil => "NIL"@,
        Keyword::Or => "OR"@,
        Keyword::Print => "PRINT"@,
        Keyword::Return => "RETURN"@,
        Keyword::Super => "SUPER"@,
        Keyword::This => "THIS"@,
        Keyword::True => "TRUE"@,
        Keyword::Var => "VAR"@,
        Keyword::While => "WHILE"@,
    }
}

/// The display label of a literal's category.
pub open spec fn spec_literal_text(lit: Literal) -> Seq<char> {
    match lit {
        Literal::Identifier => "IDENTIFIER"@,
        Literal::String => "STRING"@,
        Literal::Number(_) => "NUMBER"@,
    }
}

/// The display label of a token type.
pub open spec fn spec_token_type_text(ty: TokenType) -> Seq<char> {
    match ty {
        TokenType::Keyword(kw) => spec_keyword_text(kw),
        TokenType::Literal(lit) => spec_literal_text(lit),
        TokenType::Operator(op) => match op {
            Operator::Unary(u) => spec_unary_operator_text(u),
            Operator::Binary(b) => spec_binary_operator_text(b),
        },
        TokenType::Invalid => "Invalid"@,
    }
}

impl UnaryOperator {
    /// This operator's display label.
    pub fn text(&self) -> (r: &'static str)
        ensures
            r@ == spec_unary_operator_text(*self),
    {
        match self {
            UnaryOperator::LeftParen => "LEFT_PAREN",
            UnaryOperator::RightParen => "RIGHT_PAREN",
            UnaryOperator::LeftBrace => "LEFT_BRACE",
            UnaryOperator::RightBrace => "RIGHT_BRACE",
            UnaryOperator::Comma => "COMMA",
            UnaryOperator::Dot => "DOT",
            UnaryOperator::Semicolon => "SEMICOLON",
            UnaryOperator::Plus => "PLUS",
            UnaryOperator::Minus => "MINUS",
            UnaryOperator::Star => "STAR",
            UnaryOperator::Slash => "SLASH",
            UnaryOperator::Bang => "BANG",
        }
    }
}

impl BinaryOperator {
    /// This operator's display label.
    pub fn text(&self) -> (r: &'static str)
        ensures
            r@ == spec_binary_operator_text(*self),
    {
        match self {
            BinaryOperator::BangEqual => "BANG_EQUAL",
            BinaryOperator::Less => "LESS",
            BinaryOperator::LessEqual => "LESS_EQUAL",
            BinaryOperator::Equal => "EQUAL",
            BinaryOperator::EqualEqual => "EQUAL_EQUAL",
            BinaryOperator::Greater => "GREATER",
            BinaryOperator::GreaterEqual => "GREATER_EQUAL",
        }
    }
}

impl Keyword {
    /// This keyword's display label.
    pub fn text(&self) -> (r: &'static str)
        ensures
            r@ == spec_keyword_text(*self),
    {
        match self {
            Keyword::And => "AND",
            Keyword::Class => "CLASS",
            Keyword::Else => "ELSE",
            Keyword::False => "FALSE",
            Keyword::Fun => "FUN",
            Keyword::For => "FOR",
            Keyword::If => "IF",
            Keyword::Nil => "NIL",
            Keyword::Or => "OR",
            Keyword::Print => "PRINT",
            Keyword::Return => "RETURN",
            Keyword::Super => "SUPER",
            Keyword::This => "THIS",
            Keyword::True => "TRUE",
            Keyword::Var => "VAR",
            Keyword::While => "WHILE",
        }
    }
}

impl Literal {
    /// This literal category's display label.
    pub fn text(&self) -> (r: &'static str)
        ensures
            r@ == spec_literal_text(*self),
    {
        match self {
            Literal::Identifier => "IDENTIFIER",
            Literal::String => "STRING",
            Literal::Number(_) => "NUMBER",
        }
    }
}

impl Operator {
    /// This operator's display label.
    pub fn text(&self) -> (r: &'static str)
        ensures
            r@ == spec_token_type_text(TokenType::Operator(*self)),
    {
        match self {
            Operator::Unary(u) => u.text(),
            Operator::Binary(b) => b.text(),
        }
    }
}

impl TokenType {
    /// This token type's display label.
    pub fn text(&self) -> (r: &'static str)
        ensures
            r@ == spec_token_type_text(*self),
    {
        match self {
            TokenType::Keyword(kw) => kw.text(),
            TokenType::Literal(lit) => lit.text(),
            TokenType::Operator(op) => op.text(),
            TokenType::Invalid => "Invalid",
        }
    }
}

/// A lexeme that classifies as a number carries a well-formed value: a
/// positive denominator.
pub proof fn lemma_classified_number_wf(s: Seq<char>)
    ensures
        match classify_spec(s) {
            TokenType::Literal(Literal::Number(v)) => v.wf(),
            _ => true,
        },
{
    if s.len() > 0 && operator_of(s) is None && keyword_of(s) is None && s[0] != '"'
        && all_digits_or_dots(s) {
        let i = match dot_index_from(s, 0) {
            Some(i) => i,
            None => s.len() as int,
        };
        let frac_part = if i == s.len() {
            Seq::<char>::empty()
        } else {
            s.skip(i + 1)
        };
        lemma_pow10_pos(frac_part.len());
        crate::number::lemma_norm_spec_props(
            (digits_val(s.take(i)) * pow10(frac_part.len()) + digits_val(frac_part)) as int,
            pow10(frac_part.len()) as int,
        );
    }
}

/// The display line of a token: its type label, its lexeme, and its
/// value part.
pub open spec fn spec_token_text(ty: TokenType, lex: Seq<char>) -> Seq<char> {
    spec_token_type_text(ty) + " "@ + lex + " "@ + (match ty {
        TokenType::Literal(Literal::String) => if lex.len() >= 2 && lex[0] == '"' && lex[lex.len()
            - 1] == '"' {
            lex.subrange(1, lex.len() - 1)
        } else {
            lex
        },
        TokenType::Literal(Literal::Number(n)) => crate::number::spec_number_text(
            n.num as int,
            n.den as int,
        ),
        _ => "null"@,
    })
}

/// One token: its classification and the source slice it was read from,
/// with that slice's position.
#[derive(Debug, Clone, Copy, PartialEq)]
pub struct Token<'a> {
    pub ty: TokenType,
    pub lexeme: &'a str,
    pub span: Span,
}

impl<'a> Token<'a> {
    pub fn new(ty: TokenType, lexeme: &'a str, span: Span) -> (r: Token<'a>)
        ensures
            r.ty == ty,
            r.lexeme@ == lexeme@,
            r.span == span,
    {
        Token { ty, lexeme, span }
    }

    pub fn ty(&self) -> (r: TokenType)
        ensures
            r == self.ty,
    {
        self.ty
    }

    pub fn lexeme(&self) -> (r: &'a str)
        ensures
            r@ == self.lexeme@,
    {
        self.lexeme
    }

    pub fn span(&self) -> (r: Span)
        ensures
            r == self.span,
    {
        self.span
    }

    /// The display line of this token: its type label, its lexeme, and
    /// its value — the unquoted text for a string, the numeric value
    /// for a number, `null` otherwise.
    pub fn to_text(&self) -> (r: String)
        requires
            match self.ty {
                TokenType::Literal(Literal::Number(n)) => n.wf(),
                _ => true,
            },
        ensures
            r@ == spec_token_text(self.ty, self.lexeme@),
    {
        let mut out = String::new();
        out.append(self.ty.text());
        out.append(" ");
        out.append(self.lexeme);
        out.append(" ");
        match self.ty {
            TokenType::Literal(Literal::String) => {
                let u = Token::unescape(self.lexeme);
                out.append(u);
            },
            TokenType::Literal(Literal::Number(n)) => {
                let t = n.to_text();
                out.append(t.as_str());
            },
            _ => {
                out.append("null");
            },
        }
        proof {
            assert(out@ =~= spec_token_text(self.ty, self.lexeme@));
        }
        out
    }

    /// The text of a string literal: the lexeme with its surrounding
    /// quotes stripped.
    pub fn unescape(s: &'a str) -> (r: &'a str)
        ensures
            (s@.len() >= 2 && s@[0] == '"' && s@[s@.len() - 1] == '"') ==> r@ == s@.subrange(
                1,
                s@.len() - 1,
            ),
            !(s@.len() >= 2 && s@[0] == '"' && s@[s@.len() - 1] == '"') ==> r@ == s@,
    {
        let n = s.unicode_len();
        if n >= 2 && s.get_char(0) == '"' && s.get_char(n - 1) == '"' {
            s.substring_char(1, n - 1)
        } else {
            s
        }
    }
}

} // verus!
