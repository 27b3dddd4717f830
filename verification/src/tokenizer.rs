//! The tokenizer: from source text to tokens with their line and column.
//!
//! Which text is a token is decided by regular expressions, tried in a fixed
//! order at the start of what is left of a line. Matching is done by the
//! `regex` crate; the order, the tokens, string literals with their escapes,
//! lines and columns are verified here.

use vstd::prelude::*;
use vstd::std_specs::iter::IteratorSpec;
use vstd::string::StringExecFns;
use vstd::string::StrSliceExecFns;
use crate::error::{LingerError, LingerErrorView, TokenizerError, TokenizerErrorView};
use crate::text::{push_char, signed_decimal, signed_text};

verus! {

broadcast use vstd::string::group_string_axioms;

/// A token with the line and the column at which it starts, both counted
/// from 1.
#[derive(Debug, PartialEq, Eq, Clone)]
pub struct Token<'a>(pub TokenValue<'a>, pub usize, pub usize);

/// What a token is: a name, the content of a string literal, a number, or
/// one of the signs of the language.
#[derive(Debug, PartialEq, Eq, Clone)]
#[allow(non_camel_case_types)]
pub enum TokenValue<'a> {
    ID(&'a str),
    STR(String),
    NUM(i64),
    ASSIGN,
    OP(Operator),
    LPAREN,
    RPAREN,
    LBRACKET,
    RBRACKET,
    SEMICOLON,
    QUOTE,
    COMMA,
    THIN_ARROW,
}

/// The operators of the language.
#[derive(Copy, Clone, Debug, PartialEq, Eq, Structural)]
pub enum Operator {
    Plus,
    Minus,
    Times,
    Eq,
    Ne,
    LT,
    GT,
    LTE,
    GTE,
    Mod,
    Div,
    LogicOr,
    LogicAnd,
    LogicNot,
    PreIncrement,
    PostIncrement,
    PreDecrement,
    PostDecrement,
}

/// What a token value is, mathematically.
#[allow(non_camel_case_types)]
pub enum TokenValueView {
    ID(Seq<char>),
    STR(Seq<char>),
    NUM(i64),
    ASSIGN,
    OP(Operator),
    LPAREN,
    RPAREN,
    LBRACKET,
    RBRACKET,
    SEMICOLON,
    QUOTE,
    COMMA,
    THIN_ARROW,
}

/// What a token is, mathematically.
pub struct TokenView {
    pub value: TokenValueView,
    pub line: usize,
    pub column: usize,
}

impl<'a> View for TokenValue<'a> {
    type V = TokenValueView;

    open spec fn view(&self) -> TokenValueView {
        match *self {
            TokenValue::ID(s) => TokenValueView::ID(s@),
            TokenValue::STR(s) => TokenValueView::STR(s@),
            TokenValue::NUM(n) => TokenValueView::NUM(n),
            TokenValue::ASSIGN => TokenValueView::ASSIGN,
            TokenValue::OP(op) => TokenValueView::OP(op),
            TokenValue::LPAREN => TokenValueView::LPAREN,
            TokenValue::RPAREN => TokenValueView::RPAREN,
            TokenValue::LBRACKET => TokenValueView::LBRACKET,
            TokenValue::RBRACKET => TokenValueView::RBRACKET,
            TokenValue::SEMICOLON => TokenValueView::SEMICOLON,
            TokenValue::QUOTE => TokenValueView::QUOTE,
            TokenValue::COMMA => TokenValueView::COMMA,
            TokenValue::THIN_ARROW => TokenValueView::THIN_ARROW,
        }
    }
}

impl<'a> View for Token<'a> {
    type V = TokenView;

    open spec fn view(&self) -> TokenView {
        TokenView { value: self.0@, line: self.1, column: self.2 }
    }
}

/// The views of a list of tokens.
pub open spec fn tokens_view(tokens: Seq<Token>) -> Seq<TokenView> {
    Seq::new(tokens.len(), |i: int| tokens[i]@)
}

impl<'a> TokenValue<'a> {
    /// A copy of this token value.
    pub fn duplicate(&self) -> (r: TokenValue<'a>)
        ensures
            r@ == self@,
    {
        match self {
            TokenValue::ID(s) => TokenValue::ID(*s),
            TokenValue::STR(s) => TokenValue::STR(s.clone()),
            TokenValue::NUM(n) => TokenValue::NUM(*n),
            TokenValue::ASSIGN => TokenValue::ASSIGN,
            TokenValue::OP(op) => TokenValue::OP(*op),
            TokenValue::LPAREN => TokenValue::LPAREN,
            TokenValue::RPAREN => TokenValue::RPAREN,
            TokenValue::LBRACKET => TokenValue::LBRACKET,
            TokenValue::RBRACKET => TokenValue::RBRACKET,
            TokenValue::SEMICOLON => TokenValue::SEMICOLON,
            TokenValue::QUOTE => TokenValue::QUOTE,
            TokenValue::COMMA => TokenValue::COMMA,
            TokenValue::THIN_ARROW => TokenValue::THIN_ARROW,
        }
    }
}

/// How an operator is written.
pub open spec fn operator_text(op: Operator) -> Seq<char> {
    match op {
        Operator::Plus => "+"@,
        Operator::Minus => "-"@,
        Operator::Times => "*"@,
        Operator::Eq => "=="@,
        Operator::Ne => "!="@,
        Operator::LT => "<"@,
        Operator::GT => ">"@,
        Operator::LTE => "<="@,
        Operator::GTE => ">="@,
        Operator::Mod => "%"@,
        Operator::Div => "/"@,
        Operator::LogicOr => "||"@,
        Operator::LogicAnd => "&&"@,
        Operator::LogicNot => "!"@,
        Operator::PreIncrement => "++"@,
        Operator::PostIncrement => "++"@,
        Operator::PreDecrement => "--"@,
        Operator::PostDecrement => "--"@,
    }
}

impl Operator {
    /// How this operator is written.
    pub fn symbol(&self) -> (r: &'static str)
        ensures
            r@ == operator_text(*self),
    {
        match self {
            Operator::Plus => "+",
            Operator::Minus => "-",
            Operator::Times => "*",
            Operator::Eq => "==",
            Operator::Ne => "!=",
            Operator::LT => "<",
            Operator::GT => ">",
            Operator::LTE => "<=",
            Operator::GTE => ">=",
            Operator::Mod => "%",
            Operator::Div => "/",
            Operator::LogicOr => "||",
            Operator::LogicAnd => "&&",
            Operator::LogicNot => "!",
            Operator::PreIncrement => "++",
            Operator::PostIncrement => "++",
            Operator::PreDecrement => "--",
            Operator::PostDecrement => "--",
        }
    }
}

/// How a token value is written: a name and a number as they are, a string
/// between double quotes, every other token as in a program.
pub open spec fn token_text(v: TokenValueView) -> Seq<char> {
    match v {
        TokenValueView::ID(id) => id,
        TokenValueView::STR(s) => "\""@ + s + "\""@,
        TokenValueView::NUM(n) => signed_decimal(n as int),
        TokenValueView::ASSIGN => "="@,
        TokenValueView::OP(op) => operator_text(op),
        TokenValueView::LPAREN => "("@,
        TokenValueView::RPAREN => ")"@,
        TokenValueView::LBRACKET => "{"@,
        TokenValueView::RBRACKET => "}"@,
        TokenValueView::SEMICOLON => ";"@,
        TokenValueView::QUOTE => "\""@,
        TokenValueView::COMMA => ","@,
        TokenValueView::THIN_ARROW => "->"@,
    }
}

impl<'a> TokenValue<'a> {
    /// How this token value is written.
    pub fn text(&self) -> (r: String)
        ensures
            r@ == token_text(self@),
    {
        match self {
            TokenValue::ID(id) => (*id).to_owned(),
            TokenValue::STR(s) => {
                let mut r = "\"".to_owned();
                r.append(s.as_str());
                r.append("\"");
                r
            },
            TokenValue::NUM(n) => signed_text(*n),
            TokenValue::ASSIGN => "=".to_owned(),
            TokenValue::OP(op) => op.symbol().to_owned(),
            TokenValue::LPAREN => "(".to_owned(),
            TokenValue::RPAREN => ")".to_owned(),
            TokenValue::LBRACKET => "{".to_owned(),
            TokenValue::RBRACKET => "}".to_owned(),
            TokenValue::SEMICOLON => ";".to_owned(),
            TokenValue::QUOTE => "\"".to_owned(),
            TokenValue::COMMA => ",".to_owned(),
            TokenValue::THIN_ARROW => "->".to_owned(),
        }
    }
}

impl<'a> Token<'a> {
    /// A copy of this token.
    pub fn duplicate(&self) -> (r: Token<'a>)
        ensures
            r@ == self@,
    {
        Token(self.0.duplicate(), self.1, self.2)
    }
}

pub const WHITESPACE_REGEX: &'static str = r"[[:space:]]+";

pub const ASSIGN_REGEX: &'static str = r"=";

pub const THIN_ARROW_REGEX: &'static str = r"->";

pub const EQ_REGEX: &'static str = r"==";

pub const NE_REGEX: &'static str = r"!=";

pub const LT_REGEX: &'static str = r"<";

pub const GT_REGEX: &'static str = r">";

pub const LTE_REGEX: &'static str = r"<=";

pub const GTE_REGEX: &'static str = r">=";

pub const ID_REGEX: &'static str = r"([a-zA-Z][a-zA-Z0-9_]*)\b";

pub const NUM_REGEX: &'static str = r"(\d+)\b";

pub const PLUS_REGEX: &'static str = r"\+";

pub const MINUS_REGEX: &'static str = r"\-";

pub const STAR_REGEX: &'static str = r"\*";

pub const SLASH_REGEX: &'static str = r"/";

pub const MOD_REGEX: &'static str = "%";

pub const LPAREN_REGEX: &'static str = r"\(";

pub const RPAREN_REGEX: &'static str = r"\)";

pub const LBRACKET_REGEX: &'static str = r"\{";

pub const RBRACKET_REGEX: &'static str = r"\}";

pub const SEMICOLON_REGEX: &'static str = ";";

pub const COMMA_REGEX: &'static str = ",";

pub const QUOTE_REGEX: &'static str = "\"";

pub const LOGIC_OR_REGEX: &'static str = r"\|\|";

pub const LOGIC_AND_REGEX: &'static str = "&&";

pub const LOGIC_NOT_REGEX: &'static str = "!";

/// The number of patterns.
pub const PATTERNS: usize = 26;

/// The patterns in the order in which they are tried.
pub open spec fn pattern(k: int) -> Seq<char> {
    if k == 0 {
        WHITESPACE_REGEX@
    } else if k == 1 {
        NE_REGEX@
    } else if k == 2 {
        EQ_REGEX@
    } else if k == 3 {
        LTE_REGEX@
    } else if k == 4 {
        GTE_REGEX@
    } else if k == 5 {
        LOGIC_AND_REGEX@
    } else if k == 6 {
        LOGIC_OR_REGEX@
    } else if k == 7 {
        THIN_ARROW_REGEX@
    } else if k == 8 {
        ASSIGN_REGEX@
    } else if k == 9 {
        LT_REGEX@
    } else if k == 10 {
        GT_REGEX@
    } else if k == 11 {
        STAR_REGEX@
    } else if k == 12 {
        MOD_REGEX@
    } else if k == 13 {
        SLASH_REGEX@
    } else if k == 14 {
        ID_REGEX@
    } else if k == 15 {
        NUM_REGEX@
    } else if k == 16 {
        PLUS_REGEX@
    } else if k == 17 {
        MINUS_REGEX@
    } else if k == 18 {
        LPAREN_REGEX@
    } else if k == 19 {
        RPAREN_REGEX@
    } else if k == 20 {
        LBRACKET_REGEX@
    } else if k == 21 {
        RBRACKET_REGEX@
    } else if k == 22 {
        SEMICOLON_REGEX@
    } else if k == 23 {
        COMMA_REGEX@
    } else if k == 24 {
        QUOTE_REGEX@
    } else {
        LOGIC_NOT_REGEX@
    }
}

/// The pattern at place `k` of the order.
fn pattern_at(k: usize) -> (r: &'static str)
    requires
        k < PATTERNS,
    ensures
        r@ == pattern(k as int),
{
    match k {
        0 => WHITESPACE_REGEX,
        1 => NE_REGEX,
        2 => EQ_REGEX,
        3 => LTE_REGEX,
        4 => GTE_REGEX,
        5 => LOGIC_AND_REGEX,
        6 => LOGIC_OR_REGEX,
        7 => THIN_ARROW_REGEX,
        8 => ASSIGN_REGEX,
        9 => LT_REGEX,
        10 => GT_REGEX,
        11 => STAR_REGEX,
        12 => MOD_REGEX,
        13 => SLASH_REGEX,
        14 => ID_REGEX,
        15 => NUM_REGEX,
        16 => PLUS_REGEX,
        17 => MINUS_REGEX,
        18 => LPAREN_REGEX,
        19 => RPAREN_REGEX,
        20 => LBRACKET_REGEX,
        21 => RBRACKET_REGEX,
        22 => SEMICOLON_REGEX,
        23 => COMMA_REGEX,
        24 => QUOTE_REGEX,
        _ => LOGIC_NOT_REGEX,
    }
}

/// Whether a text is one of the patterns of the tokenizer.
pub open spec fn is_pattern(re: Seq<char>) -> bool {
    exists|k: int| 0 <= k < PATTERNS && re == #[trigger] pattern(k)
}

/// How many characters of `text` stand before the end of the match of the
/// regular expression `^(pattern)`, if it matches: the expression can only
/// match where the text begins.
pub uninterp spec fn prefix_match(pattern: Seq<char>, text: Seq<char>) -> Option<nat>;

/// The number that a decimal digit stands for.
pub open spec fn digit_value(c: char) -> Option<int> {
    if '0' <= c <= '9' {
        Some(c as int - '0' as int)
    } else {
        None
    }
}

/// The number that a text of the digits `0` to `9` stands for; nothing for
/// the empty text and for a text that holds anything else.
pub open spec fn digits_value(text: Seq<char>) -> Option<int>
    decreases text.len(),
{
    if text.len() == 0 {
        None
    } else {
        match digit_value(text.last()) {
            Some(d) => if text.len() == 1 {
                Some(d)
            } else {
                match digits_value(text.drop_last()) {
                    Some(v) => Some(v * 10 + d),
                    None => None,
                }
            },
            None => None,
        }
    }
}

/// The number that a text of digits stands for, if it is no larger than
/// the largest `i64`.
pub open spec fn parsed_i64(text: Seq<char>) -> Option<i64> {
    match digits_value(text) {
        Some(v) => if v <= i64::MAX {
            Some(v as i64)
        } else {
            None
        },
        None => None,
    }
}

/// The number of a text of digits is at least the number of each of its
/// beginnings.
proof fn lemma_digits_grow(text: Seq<char>, k: int)
    requires
        1 <= k <= text.len(),
        digits_value(text) is Some,
    ensures
        digits_value(text.take(k)) is Some,
        0 <= digits_value(text.take(k))->Some_0 <= digits_value(text)->Some_0,
    decreases text.len(),
{
    if k == text.len() {
        assert(text.take(k) =~= text);
        if text.len() > 1 {
            lemma_digits_grow(text.drop_last(), k - 1);
        }
    } else {
        assert(text.drop_last().take(k) =~= text.take(k));
        lemma_digits_grow(text.drop_last(), k);
    }
}

/// The number that a text of digits stands for, if it is no larger than
/// the largest `i64`.
fn parse_i64(s: &str) -> (r: Option<i64>)
    ensures
        r == parsed_i64(s@),
{
    let mut it = s.chars();
    let mut value: i64 = 0;
    let ghost mut k: int = 0;
    loop
        invariant
            0 <= k <= s@.len(),
            it.remaining() == s@.skip(k),
            it.obeys_prophetic_iter_laws(),
            0 <= value,
            k > 0 ==> digits_value(s@.take(k)) == Some(value as int),
            k == 0 ==> value == 0,
        decreases s@.len() - k,
    {
        let c = match it.next() {
            Some(c) => c,
            None => {
                assert(s@.take(k) =~= s@);
                return if s.is_empty() {
                    None
                } else {
                    Some(value)
                };
            },
        };
        assert(c == s@[k]);
        assert(s@.skip(k).drop_first() =~= s@.skip(k + 1));
        proof {
            let longer = s@.take(k + 1);
            assert(longer.last() == c);
            assert(longer.drop_last() =~= s@.take(k));
            if digits_value(s@) is Some {
                lemma_digits_grow(s@, k + 1);
            }
        }
        if c < '0' || c > '9' {
            return None;
        }
        let d: i64 = (c as u32 - '0' as u32) as i64;
        if value > (i64::MAX - d) / 10 {
            return None;
        }
        value = value * 10 + d;
        proof {
            k = k + 1;
        }
    }
}

/// `Regex::new` on `^(re)` followed by `Regex::find` on `s`: the text up to
/// the end of the match, and the text after it.
///
/// Not proved, but taken from the `regex` crate, for the patterns of this
/// tokenizer: they compile; whether and where an expression matches depends
/// on the expression and the text alone; and a match ends between two
/// characters of the text.
#[verifier::external_body]
fn find<'a>(re: &str, s: &'a str) -> (r: Option<(&'a str, &'a str)>)
    requires
        is_pattern(re@),
    ensures
        match r {
            Some((matched, rest)) => prefix_match(re@, s@) == Some(matched@.len()) && matched@
                + rest@ == s@,
            None => prefix_match(re@, s@) is None,
        },
{
    let m = regex::Regex::new(format!("^({re})").as_str()).unwrap().find(s)?;
    Some(s.split_at(m.end()))
}

/// `str::split_once` at the first line feed: the text before it and the
/// text after it, or nothing where the text holds no line feed.
#[verifier::external_body]
fn split_line<'a>(s: &'a str) -> (r: Option<(&'a str, &'a str)>)
    ensures
        match r {
            Some((line, rest)) => s@ == line@ + seq!['\n'] + rest@ && !line@.contains('\n'),
            None => !s@.contains('\n'),
        },
{
    s.split_once('\n')
}

/// The first pattern, from place `k` on, that matches at the start of the
/// text: its place, and the number of characters that it matches.
pub open spec fn first_match(text: Seq<char>, k: int) -> Option<(int, nat)>
    decreases PATTERNS - k,
{
    if k < 0 || k >= PATTERNS {
        None
    } else {
        match prefix_match(pattern(k), text) {
            Some(n) => Some((k, n)),
            None => first_match(text, k + 1),
        }
    }
}

/// What the pattern at place `k` makes of the text that it matched: no
/// token for whitespace, a name, a number, or the token of the pattern.
pub open spec fn token_of(k: int, matched: Seq<char>) -> Result<
    Option<TokenValueView>,
    TokenizerErrorView,
> {
    if k == 0 {
        Ok(None)
    } else if k == 1 {
        Ok(Some(TokenValueView::OP(Operator::Ne)))
    } else if k == 2 {
        Ok(Some(TokenValueView::OP(Operator::Eq)))
    } else if k == 3 {
        Ok(Some(TokenValueView::OP(Operator::LTE)))
    } else if k == 4 {
        Ok(Some(TokenValueView::OP(Operator::GTE)))
    } else if k == 5 {
        Ok(Some(TokenValueView::OP(Operator::LogicAnd)))
    } else if k == 6 {
        Ok(Some(TokenValueView::OP(Operator::LogicOr)))
    } else if k == 7 {
        Ok(Some(TokenValueView::THIN_ARROW))
    } else if k == 8 {
        Ok(Some(TokenValueView::ASSIGN))
    } else if k == 9 {
        Ok(Some(TokenValueView::OP(Operator::LT)))
    } else if k == 10 {
        Ok(Some(TokenValueView::OP(Operator::GT)))
    } else if k == 11 {
        Ok(Some(TokenValueView::OP(Operator::Times)))
    } else if k == 12 {
        Ok(Some(TokenValueView::OP(Operator::Mod)))
    } else if k == 13 {
        Ok(Some(TokenValueView::OP(Operator::Div)))
    } else if k == 14 {
        Ok(Some(TokenValueView::ID(matched)))
    } else if k == 15 {
        match parsed_i64(matched) {
            Some(n) => Ok(Some(TokenValueView::NUM(n))),
            None => Err(TokenizerErrorView::InvalidNumber(matched)),
        }
    } else if k == 16 {
        Ok(Some(TokenValueView::OP(Operator::Plus)))
    } else if k == 17 {
        Ok(Some(TokenValueView::OP(Operator::Minus)))
    } else if k == 18 {
        Ok(Some(TokenValueView::LPAREN))
    } else if k == 19 {
        Ok(Some(TokenValueView::RPAREN))
    } else if k == 20 {
        Ok(Some(TokenValueView::LBRACKET))
    } else if k == 21 {
        Ok(Some(TokenValueView::RBRACKET))
    } else if k == 22 {
        Ok(Some(TokenValueView::SEMICOLON))
    } else if k == 23 {
        Ok(Some(TokenValueView::COMMA))
    } else if k == 24 {
        Ok(Some(TokenValueView::QUOTE))
    } else {
        Ok(Some(TokenValueView::OP(Operator::LogicNot)))
    }
}

/// The number of characters before the first place at which whitespace
/// begins.
pub open spec fn word_len(text: Seq<char>) -> nat
    decreases text.len(),
{
    if text.len() == 0 || prefix_match(WHITESPACE_REGEX@, text) is Some {
        0
    } else {
        1 + word_len(text.drop_first())
    }
}

/// How a text at whose start no token begins is reported: what stands
/// before the first whitespace, between double quotes.
pub open spec fn unknown_token(text: Seq<char>) -> Seq<char> {
    "\""@ + text.take(word_len(text) as int) + "\""@
}

/// The length of a text in bytes.
pub open spec fn byte_len(text: Seq<char>) -> usize {
    vstd::utf8::encode_utf8(text).len() as usize
}

/// What begins a text: the token of the first pattern that matches, or no
/// token for whitespace, and the number of characters that it takes.
pub open spec fn lexeme(text: Seq<char>) -> Result<
    (Option<TokenValueView>, nat),
    TokenizerErrorView,
> {
    match first_match(text, 0) {
        Some((k, n)) => if 0 < n <= text.len() {
            match token_of(k, text.take(n as int)) {
                Ok(v) => Ok((v, n)),
                Err(e) => Err(e),
            }
        } else {
            Err(TokenizerErrorView::UnknownToken(unknown_token(text)))
        },
        None => Err(TokenizerErrorView::UnknownToken(unknown_token(text))),
    }
}

/// The character that a backslash and `c` stand for in a string literal.
pub open spec fn escape(c: char) -> Option<char> {
    if c == 'n' {
        Some('\n')
    } else if c == 'r' {
        Some('\r')
    } else if c == 't' {
        Some('\t')
    } else if c == '\\' || c == '0' || c == '"' || c == '\'' {
        Some(c)
    } else {
        None
    }
}

/// The rest of a string literal, read from place `i` of the text behind
/// the opening quote, with `content` read so far: the content up to the
/// closing quote, and the place behind that quote.
pub open spec fn string_literal(text: Seq<char>, i: int, content: Seq<char>) -> Result<
    (Seq<char>, int),
    TokenizerErrorView,
>
    decreases text.len() - i,
{
    if i < 0 || i >= text.len() {
        Err(TokenizerErrorView::UnterminatedStringLiteral)
    } else if text[i] == '"' {
        Ok((content, i + 1))
    } else if text[i] == '\\' {
        if i + 1 >= text.len() {
            Err(TokenizerErrorView::UnterminatedStringLiteral)
        } else {
            match escape(text[i + 1]) {
                Some(c) => string_literal(text, i + 2, content.push(c)),
                None => Err(TokenizerErrorView::InvalidEscapeSequence(text[i + 1])),
            }
        }
    } else {
        string_literal(text, i + 1, content.push(text[i]))
    }
}

/// The tokens, with `first` in front, where there are tokens.
pub open spec fn prefixed(
    first: Seq<TokenView>,
    rest: Result<Seq<TokenView>, TokenizerErrorView>,
) -> Result<Seq<TokenView>, TokenizerErrorView> {
    match rest {
        Ok(tokens) => Ok(first + tokens),
        Err(e) => Err(e),
    }
}

/// The tokens of a line, or of what is left of one, which begins at the
/// given column.
///
/// A column is the column of the token before plus that token's length in
/// bytes; behind a string literal, the literal's column plus the length of
/// its content in bytes plus 2. Columns stop at the largest `usize`.
pub open spec fn line_tokens(text: Seq<char>, line: usize, col: usize) -> Result<
    Seq<TokenView>,
    TokenizerErrorView,
>
    decreases text.len(),
{
    if text.len() == 0 {
        Ok(Seq::empty())
    } else {
        match lexeme(text) {
            Ok((v, n)) => if 0 < n <= text.len() {
                let rest = text.skip(n as int);
                let next = col.saturating_add(byte_len(text.take(n as int)));
                match v {
                    None => line_tokens(rest, line, next),
                    Some(TokenValueView::QUOTE) => match string_literal(rest, 0, Seq::empty()) {
                        Ok((content, used)) => if 0 <= used <= rest.len() {
                            prefixed(
                                seq![
                                    TokenView {
                                        value: TokenValueView::STR(content),
                                        line,
                                        column: col,
                                    },
                                ],
                                line_tokens(
                                    rest.skip(used),
                                    line,
                                    col.saturating_add(byte_len(content)).saturating_add(2),
                                ),
                            )
                        } else {
                            Err(TokenizerErrorView::UnterminatedStringLiteral)
                        },
                        Err(e) => Err(e),
                    },
                    Some(value) => prefixed(
                        seq![TokenView { value, line, column: col }],
                        line_tokens(rest, line, next),
                    ),
                }
            } else {
                Err(TokenizerErrorView::UnknownToken(unknown_token(text)))
            },
            Err(e) => Err(e),
        }
    }
}

/// The number of characters before the first line feed.
pub open spec fn line_len(text: Seq<char>) -> nat
    decreases text.len(),
{
    if text.len() == 0 || text[0] == '\n' {
        0
    } else {
        1 + line_len(text.drop_first())
    }
}

/// The tokens of a text whose first line has the given number: those of
/// each line, in the order of the lines. Line numbers stop at the largest
/// `usize`.
pub open spec fn text_tokens(text: Seq<char>, line: usize) -> Result<
    Seq<TokenView>,
    TokenizerErrorView,
>
    decreases text.len(),
{
    let n = line_len(text);
    match line_tokens(text.take(n as int), line, 1) {
        Ok(tokens) => if n < text.len() {
            prefixed(tokens, text_tokens(text.skip(n as int + 1), line.saturating_add(1)))
        } else {
            Ok(tokens)
        },
        Err(e) => Err(e),
    }
}

/// The token that the pattern at place `k` makes of the text it matched.
fn make_token<'a>(k: usize, matched: &'a str) -> (r: Result<
    Option<TokenValue<'a>>,
    TokenizerError,
>)
    requires
        k < PATTERNS,
    ensures
        match r {
            Ok(Some(v)) => token_of(k as int, matched@) == Ok::<
                Option<TokenValueView>,
                TokenizerErrorView,
            >(Some(v@)),
            Ok(None) => token_of(k as int, matched@) == Ok::<
                Option<TokenValueView>,
                TokenizerErrorView,
            >(None),
            Err(e) => token_of(k as int, matched@) == Err::<
                Option<TokenValueView>,
                TokenizerErrorView,
            >(e@),
        },
{
    match k {
        0 => Ok(None),
        1 => Ok(Some(TokenValue::OP(Operator::Ne))),
        2 => Ok(Some(TokenValue::OP(Operator::Eq))),
        3 => Ok(Some(TokenValue::OP(Operator::LTE))),
        4 => Ok(Some(TokenValue::OP(Operator::GTE))),
        5 => Ok(Some(TokenValue::OP(Operator::LogicAnd))),
        6 => Ok(Some(TokenValue::OP(Operator::LogicOr))),
        7 => Ok(Some(TokenValue::THIN_ARROW)),
        8 => Ok(Some(TokenValue::ASSIGN)),
        9 => Ok(Some(TokenValue::OP(Operator::LT))),
        10 => Ok(Some(TokenValue::OP(Operator::GT))),
        11 => Ok(Some(TokenValue::OP(Operator::Times))),
        12 => Ok(Some(TokenValue::OP(Operator::Mod))),
        13 => Ok(Some(TokenValue::OP(Operator::Div))),
        14 => Ok(Some(TokenValue::ID(matched))),
        15 => match parse_i64(matched) {
            Some(n) => Ok(Some(TokenValue::NUM(n))),
            None => Err(TokenizerError::InvalidNumber(matched.to_owned())),
        },
        16 => Ok(Some(TokenValue::OP(Operator::Plus))),
        17 => Ok(Some(TokenValue::OP(Operator::Minus))),
        18 => Ok(Some(TokenValue::LPAREN)),
        19 => Ok(Some(TokenValue::RPAREN)),
        20 => Ok(Some(TokenValue::LBRACKET)),
        21 => Ok(Some(TokenValue::RBRACKET)),
        22 => Ok(Some(TokenValue::SEMICOLON)),
        23 => Ok(Some(TokenValue::COMMA)),
        24 => Ok(Some(TokenValue::QUOTE)),
        _ => Ok(Some(TokenValue::OP(Operator::LogicNot))),
    }
}

/// How a text at whose start no token begins is reported.
fn report_unknown(s: &str) -> (r: String)
    ensures
        r@ == unknown_token(s@),
{
    let n = s.unicode_len();
    let mut k: usize = 0;
    let mut at_space = false;
    assert(s@.skip(0) =~= s@);
    while k < n && !at_space
        invariant
            k <= n,
            n == s@.len(),
            word_len(s@) == k + word_len(s@.skip(k as int)),
            at_space ==> word_len(s@.skip(k as int)) == 0,
        decreases n - k + if at_space { 0int } else { 1int },
    {
        let tail = s.substring_char(k, n);
        assert(tail@ =~= s@.skip(k as int));
        assert(is_pattern(WHITESPACE_REGEX@)) by {
            assert(pattern(0) == WHITESPACE_REGEX@);
        }
        if find(WHITESPACE_REGEX, tail).is_some() {
            at_space = true;
        } else {
            assert(s@.skip(k as int).drop_first() =~= s@.skip(k + 1));
            k += 1;
        }
    }
    let word = s.substring_char(0, k);
    assert(word@ =~= s@.take(k as int));
    let mut r = "\"".to_owned();
    r.append(word);
    r.append("\"");
    r
}

/// Reads what begins the text `s`, which stands at the given line and
/// column: a token, or nothing for whitespace; its length in bytes; and the
/// text behind it. Fails with `UnknownToken` where no pattern matches, or
/// the first that matches matches nothing; with `InvalidNumber` where digits
/// stand for no number of the range.
pub fn get_token<'a>(s: &'a str, row: usize, col: usize) -> (r: Result<
    (Option<Token<'a>>, usize, &'a str),
    LingerError<'a>,
>)
    ensures
        match lexeme(s@) {
            Ok((v, n)) => r matches Ok((token, length, rest)) && 0 < n <= s@.len() && rest@
                == s@.skip(n as int) && length == byte_len(s@.take(n as int)) && match token {
                Some(t) => v == Some(t.0@) && t.1 == row && t.2 == col,
                None => v is None,
            },
            Err(e) => r matches Err(err) && err@ == LingerErrorView::TokenizerError(e),
        },
{
    let mut k: usize = 0;
    while k < PATTERNS
        invariant
            k <= PATTERNS,
            first_match(s@, 0) == first_match(s@, k as int),
        decreases PATTERNS - k,
    {
        let re = pattern_at(k);
        if let Some((matched, rest)) = find(re, s) {
            assert(matched@ =~= s@.take(matched@.len() as int));
            assert(rest@ =~= s@.skip(matched@.len() as int));
            if matched.is_empty() {
                return Err(
                    LingerError::TokenizerError(TokenizerError::UnknownToken(report_unknown(s))),
                );
            }
            return match make_token(k, matched) {
                Ok(Some(v)) => Ok((Some(Token(v, row, col)), matched.len(), rest)),
                Ok(None) => Ok((None, matched.len(), rest)),
                Err(e) => Err(LingerError::TokenizerError(e)),
            };
        }
        k += 1;
    }
    Err(LingerError::TokenizerError(TokenizerError::UnknownToken(report_unknown(s))))
}

/// Reads a string literal from the text behind its opening quote: the
/// content, with each escape sequence replaced by what it stands for, and
/// the text behind the closing quote.
fn read_string<'a>(s: &'a str) -> (r: Result<(String, &'a str), TokenizerError>)
    ensures
        match string_literal(s@, 0, Seq::empty()) {
            Ok((content, used)) => r matches Ok((text, rest)) && text@ == content && 0 <= used
                <= s@.len() && rest@ == s@.skip(used),
            Err(e) => r matches Err(err) && err@ == e,
        },
{
    let n = s.unicode_len();
    let mut content = String::new();
    let mut it = s.chars();
    let mut k: usize = 0;
    loop
        invariant
            k <= n,
            n == s@.len(),
            it.remaining() == s@.skip(k as int),
            it.obeys_prophetic_iter_laws(),
            string_literal(s@, 0, Seq::empty()) == string_literal(s@, k as int, content@),
        decreases n - k,
    {
        let c = match it.next() {
            Some(c) => c,
            None => {
                return Err(TokenizerError::UnterminatedStringLiteral);
            },
        };
        assert(c == s@[k as int]);
        assert(s@.skip(k as int).drop_first() =~= s@.skip(k + 1));
        k += 1;
        if c == '"' {
            let rest = s.substring_char(k, n);
            assert(rest@ =~= s@.skip(k as int));
            return Ok((content, rest));
        } else if c == '\\' {
            let e = match it.next() {
                Some(e) => e,
                None => {
                    return Err(TokenizerError::UnterminatedStringLiteral);
                },
            };
            assert(e == s@[k as int]);
            assert(s@.skip(k as int).drop_first() =~= s@.skip(k + 1));
            k += 1;
            let plain = if e == 'n' {
                '\n'
            } else if e == 'r' {
                '\r'
            } else if e == 't' {
                '\t'
            } else if e == '\\' || e == '0' || e == '"' || e == '\'' {
                e
            } else {
                return Err(TokenizerError::InvalidEscapeSequence(e));
            };
            push_char(&mut content, plain);
        } else {
            push_char(&mut content, c);
        }
    }
}

/// Tokens in front of tokens in front of a result are the tokens of both in
/// front of it.
proof fn lemma_prefixed_twice(
    a: Seq<TokenView>,
    b: Seq<TokenView>,
    r: Result<Seq<TokenView>, TokenizerErrorView>,
)
    ensures
        prefixed(a, prefixed(b, r)) == prefixed(a + b, r),
{
    match r {
        Ok(tokens) => {
            assert(a + (b + tokens) =~= (a + b) + tokens);
        },
        Err(_) => {},
    }
}

/// The tokens of a line, or of what is left of one, which begins at the
/// given column: [`line_tokens`].
pub fn tokenize_helper<'a>(s: &'a str, line_num: usize, col_num: usize) -> (r: Result<
    Vec<Token<'a>>,
    LingerError<'a>,
>)
    ensures
        match line_tokens(s@, line_num, col_num) {
            Ok(tokens) => r matches Ok(found) && tokens_view(found@) == tokens,
            Err(e) => r matches Err(err) && err@ == LingerErrorView::TokenizerError(e),
        },
{
    let mut tokens: Vec<Token<'a>> = Vec::new();
    let mut rest: &'a str = s;
    let mut col: usize = col_num;
    let ghost whole = line_tokens(s@, line_num, col_num);
    assert(tokens_view(tokens@) =~= Seq::empty());
    assert(prefixed(Seq::empty(), whole) == whole) by {
        if let Ok(ts) = whole {
            assert(Seq::<TokenView>::empty() + ts =~= ts);
        }
    }
    while !rest.is_empty()
        invariant
            whole == line_tokens(s@, line_num, col_num),
            whole == prefixed(tokens_view(tokens@), line_tokens(rest@, line_num, col)),
        decreases rest@.len(),
    {
        let ghost before = tokens_view(tokens@);
        let (token, length, after) = match get_token(rest, line_num, col) {
            Ok(found) => found,
            Err(e) => {
                return Err(e);
            },
        };
        let next = col.saturating_add(length);
        match token {
            None => {
                rest = after;
                col = next;
            },
            Some(Token(TokenValue::QUOTE, _, _)) => {
                let (content, behind) = match read_string(after) {
                    Ok(found) => found,
                    Err(e) => {
                        return Err(LingerError::TokenizerError(e));
                    },
                };
                let width = content.as_str().len();
                let ghost one = seq![
                    TokenView { value: TokenValueView::STR(content@), line: line_num, column: col },
                ];
                tokens.push(Token(TokenValue::STR(content), line_num, col));
                proof {
                    assert(tokens_view(tokens@) =~= before + one);
                    lemma_prefixed_twice(
                        before,
                        one,
                        line_tokens(
                            behind@,
                            line_num,
                            col.saturating_add(width).saturating_add(2),
                        ),
                    );
                }
                rest = behind;
                col = col.saturating_add(width).saturating_add(2);
            },
            Some(t) => {
                let ghost one = seq![t@];
                tokens.push(t);
                proof {
                    assert(tokens_view(tokens@) =~= before + one);
                    lemma_prefixed_twice(before, one, line_tokens(after@, line_num, next));
                }
                rest = after;
                col = next;
            },
        }
    }
    proof {
        if let Ok(ts) = line_tokens(rest@, line_num, col) {
            assert(tokens_view(tokens@) + ts =~= tokens_view(tokens@));
        }
    }
    Ok(tokens)
}

/// Where a text is a line, a line feed and a rest, the line ends at the
/// line feed.
proof fn lemma_line_len(text: Seq<char>, line: Seq<char>, rest: Seq<char>)
    requires
        text == line + seq!['\n'] + rest,
        !line.contains('\n'),
    ensures
        line_len(text) == line.len(),
    decreases line.len(),
{
    if line.len() == 0 {
        assert(text[0] == '\n');
    } else {
        assert(line[0] != '\n');
        assert(text[0] == line[0]);
        assert(text.drop_first() =~= line.drop_first() + seq!['\n'] + rest);
        assert forall|c: char| line.drop_first().contains(c) implies line.contains(c) by {
            let i = choose|i: int| 0 <= i < line.drop_first().len() && line.drop_first()[i] == c;
            assert(line[i + 1] == c);
        }
        lemma_line_len(text.drop_first(), line.drop_first(), rest);
    }
}

/// A text without line feed is one line.
proof fn lemma_single_line(text: Seq<char>)
    requires
        !text.contains('\n'),
    ensures
        line_len(text) == text.len(),
    decreases text.len(),
{
    if text.len() > 0 {
        assert(text[0] != '\n');
        assert forall|c: char| text.drop_first().contains(c) implies text.contains(c) by {
            let i = choose|i: int| 0 <= i < text.drop_first().len() && text.drop_first()[i] == c;
            assert(text[i + 1] == c);
        }
        lemma_single_line(text.drop_first());
    }
}

/// The tokens of a text: those of each of its lines, which line feeds
/// separate, in the order of the lines. Lines and columns count from 1.
///
/// Fails with the error of the first line that cannot be split into
/// tokens.
pub fn tokenize<'a>(s: &'a str) -> (r: Result<Vec<Token<'a>>, LingerError<'a>>)
    ensures
        match text_tokens(s@, 1) {
            Ok(tokens) => r matches Ok(found) && tokens_view(found@) == tokens,
            Err(e) => r matches Err(err) && err@ == LingerErrorView::TokenizerError(e),
        },
{
    let mut tokens: Vec<Token<'a>> = Vec::new();
    let mut rest: &'a str = s;
    let mut line: usize = 1;
    let ghost whole = text_tokens(s@, 1);
    assert(tokens_view(tokens@) =~= Seq::empty());
    assert(prefixed(Seq::empty(), whole) == whole) by {
        if let Ok(ts) = whole {
            assert(Seq::<TokenView>::empty() + ts =~= ts);
        }
    }
    loop
        invariant
            whole == text_tokens(s@, 1),
            whole == prefixed(tokens_view(tokens@), text_tokens(rest@, line)),
        decreases rest@.len(),
    {
        let ghost before = tokens_view(tokens@);
        match split_line(rest) {
            Some((first, behind)) => {
                proof {
                    lemma_line_len(rest@, first@, behind@);
                    assert(rest@.take(first@.len() as int) =~= first@);
                    assert(rest@.skip(first@.len() as int + 1) =~= behind@);
                }
                let mut found = match tokenize_helper(first, line, 1) {
                    Ok(found) => found,
                    Err(e) => {
                        return Err(e);
                    },
                };
                let ghost these = tokens_view(found@);
                tokens.append(&mut found);
                proof {
                    assert(tokens_view(tokens@) =~= before + these);
                    lemma_prefixed_twice(
                        before,
                        these,
                        text_tokens(behind@, line.saturating_add(1)),
                    );
                }
                rest = behind;
                line = line.saturating_add(1);
            },
            None => {
                proof {
                    lemma_single_line(rest@);
                    assert(rest@.take(rest@.len() as int) =~= rest@);
                }
                let mut found = match tokenize_helper(rest, line, 1) {
                    Ok(found) => found,
                    Err(e) => {
                        return Err(e);
                    },
                };
                let ghost these = tokens_view(found@);
                tokens.append(&mut found);
                assert(tokens_view(tokens@) =~= before + these);
                return Ok(tokens);
            },
        }
    }
}

} // verus!
