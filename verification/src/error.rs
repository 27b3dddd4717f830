//! The errors of the tokenizer, of a parser and of the evaluator.

use vstd::prelude::*;
use vstd::string::StringExecFns;
use crate::host::{Host, HostModel};
use crate::interpreter::{join_texts, value_view, values_view, Value, ValueView};
use crate::number::Number;
use crate::semantics::{joined_text, value_text};
use crate::text::{decimal, push_char, signed_decimal, signed_text, unsigned_text};
use crate::tokenizer::{
    operator_text, token_text, Operator, Token, TokenValue, TokenValueView, TokenView,
};

verus! {

/// Why a text could not be split into tokens.
#[derive(Debug)]
pub enum TokenizerError {
    /// No token begins where the text, given between double quotes, begins.
    UnknownToken(String),
    /// A backslash in a string literal, followed by a character that does
    /// not make an escape sequence with it.
    InvalidEscapeSequence(char),
    /// A string literal that the end of the line cuts off.
    UnterminatedStringLiteral,
    /// Digits that stand for no number of the tokenizer's range.
    InvalidNumber(String),
}

/// What a tokenizer error is, mathematically.
pub enum TokenizerErrorView {
    UnknownToken(Seq<char>),
    InvalidEscapeSequence(char),
    UnterminatedStringLiteral,
    InvalidNumber(Seq<char>),
}

impl View for TokenizerError {
    type V = TokenizerErrorView;

    open spec fn view(&self) -> TokenizerErrorView {
        match *self {
            TokenizerError::UnknownToken(s) => TokenizerErrorView::UnknownToken(s@),
            TokenizerError::InvalidEscapeSequence(c) => TokenizerErrorView::InvalidEscapeSequence(
                c,
            ),
            TokenizerError::UnterminatedStringLiteral => {
                TokenizerErrorView::UnterminatedStringLiteral
            },
            TokenizerError::InvalidNumber(s) => TokenizerErrorView::InvalidNumber(s@),
        }
    }
}

/// The line that reports a tokenizer error.
pub open spec fn tokenizer_message(e: TokenizerErrorView) -> Seq<char> {
    match e {
        TokenizerErrorView::UnknownToken(s) => "unknown token "@ + s,
        TokenizerErrorView::InvalidEscapeSequence(c) => "invalid escape sequence \"\\"@.push(c)
            + "\""@,
        TokenizerErrorView::UnterminatedStringLiteral => "unterminated string literal"@,
        TokenizerErrorView::InvalidNumber(s) => "invalid number \""@ + s + "\""@,
    }
}

impl TokenizerError {
    /// The line that reports this error.
    pub fn message(&self) -> (r: String)
        ensures
            r@ == tokenizer_message(self@),
    {
        match self {
            TokenizerError::UnknownToken(s) => {
                let mut r = "unknown token ".to_owned();
                r.append(s.as_str());
                r
            },
            TokenizerError::InvalidEscapeSequence(c) => {
                let mut r = "invalid escape sequence \"\\".to_owned();
                push_char(&mut r, *c);
                r.append("\"");
                r
            },
            TokenizerError::UnterminatedStringLiteral => "unterminated string literal".to_owned(),
            TokenizerError::InvalidNumber(s) => {
                let mut r = "invalid number \"".to_owned();
                r.append(s.as_str());
                r.append("\"");
                r
            },
        }
    }
}

/// Why tokens could not be read as a program.
#[derive(Debug)]
pub enum ParseError<'a> {
    NoMain,
    MultipleMain,
    MissingSemicolon,
    UnexpectedToken(Token<'a>),
    Expected(TokenValue<'a>, Token<'a>),
    ExpectedSomething,
    KeywordAsVar(&'a str),
    KeywordAsProc(&'a str),
    KeywordAsParam(&'a str),
    Custom(String),
}

/// What a parse error is, mathematically.
pub enum ParseErrorView {
    NoMain,
    MultipleMain,
    MissingSemicolon,
    UnexpectedToken(TokenView),
    Expected(TokenValueView, TokenView),
    ExpectedSomething,
    KeywordAsVar(Seq<char>),
    KeywordAsProc(Seq<char>),
    KeywordAsParam(Seq<char>),
    Custom(Seq<char>),
}

impl<'a> View for ParseError<'a> {
    type V = ParseErrorView;

    open spec fn view(&self) -> ParseErrorView {
        match *self {
            ParseError::NoMain => ParseErrorView::NoMain,
            ParseError::MultipleMain => ParseErrorView::MultipleMain,
            ParseError::MissingSemicolon => ParseErrorView::MissingSemicolon,
            ParseError::UnexpectedToken(t) => ParseErrorView::UnexpectedToken(t@),
            ParseError::Expected(v, t) => ParseErrorView::Expected(v@, t@),
            ParseError::ExpectedSomething => ParseErrorView::ExpectedSomething,
            ParseError::KeywordAsVar(s) => ParseErrorView::KeywordAsVar(s@),
            ParseError::KeywordAsProc(s) => ParseErrorView::KeywordAsProc(s@),
            ParseError::KeywordAsParam(s) => ParseErrorView::KeywordAsParam(s@),
            ParseError::Custom(s) => ParseErrorView::Custom(s@),
        }
    }
}

/// A line and a column between brackets, as error lines give them.
pub open spec fn position_text(line: usize, column: usize) -> Seq<char> {
    "("@ + decimal(line as nat) + ", "@ + decimal(column as nat) + ")"@
}

/// The line that reports a parse error.
pub open spec fn parse_message(e: ParseErrorView) -> Seq<char> {
    match e {
        ParseErrorView::NoMain => "main procedure not found"@,
        ParseErrorView::MultipleMain => "multiple main procedures found"@,
        ParseErrorView::MissingSemicolon => "missing semicolon"@,
        ParseErrorView::UnexpectedToken(t) => "unexpected token "@ + token_text(t.value) + " @ "@
            + position_text(t.line, t.column),
        ParseErrorView::Expected(v, t) => "expected token "@ + token_text(v) + " @ "@
            + position_text(t.line, t.column) + ", instead got "@ + token_text(t.value),
        ParseErrorView::ExpectedSomething => "expected token"@,
        ParseErrorView::KeywordAsVar(k) => "keyword \""@ + k + "\" used as variable"@,
        ParseErrorView::KeywordAsProc(k) => "keyword \""@ + k + "\" used as procedure name"@,
        ParseErrorView::KeywordAsParam(k) => "keyword \""@ + k + "\" used as parameter name"@,
        ParseErrorView::Custom(s) => s,
    }
}

/// A line and a column between brackets.
fn position(line: usize, column: usize) -> (r: String)
    ensures
        r@ == position_text(line, column),
{
    let mut r = "(".to_owned();
    r.append(unsigned_text(line as u64).as_str());
    r.append(", ");
    r.append(unsigned_text(column as u64).as_str());
    r.append(")");
    r
}

/// A text between two others.
fn between(before: &str, middle: &str, after: &str) -> (r: String)
    ensures
        r@ == before@ + middle@ + after@,
{
    let mut r = before.to_owned();
    r.append(middle);
    r.append(after);
    r
}

impl<'a> ParseError<'a> {
    /// The line that reports this error.
    pub fn message(&self) -> (r: String)
        ensures
            r@ == parse_message(self@),
    {
        match self {
            ParseError::NoMain => "main procedure not found".to_owned(),
            ParseError::MultipleMain => "multiple main procedures found".to_owned(),
            ParseError::MissingSemicolon => "missing semicolon".to_owned(),
            ParseError::UnexpectedToken(t) => {
                let mut r = "unexpected token ".to_owned();
                r.append(t.0.text().as_str());
                r.append(" @ ");
                r.append(position(t.1, t.2).as_str());
                r
            },
            ParseError::Expected(v, t) => {
                let mut r = "expected token ".to_owned();
                r.append(v.text().as_str());
                r.append(" @ ");
                r.append(position(t.1, t.2).as_str());
                r.append(", instead got ");
                r.append(t.0.text().as_str());
                r
            },
            ParseError::ExpectedSomething => "expected token".to_owned(),
            ParseError::KeywordAsVar(k) => between("keyword \"", *k, "\" used as variable"),
            ParseError::KeywordAsProc(k) => between("keyword \"", *k, "\" used as procedure name"),
            ParseError::KeywordAsParam(k) => between(
                "keyword \"",
                *k,
                "\" used as parameter name",
            ),
            ParseError::Custom(s) => s.clone(),
        }
    }
}

/// Why an evaluation stopped.
#[derive(Debug)]
pub enum RuntimeError<'a> {
    /// The name is not bound.
    UnknownVariable(String),
    /// No procedure has the name.
    UnknownProc(String),
    /// An operand of the wrong kind.
    BadArg(Value<'a>),
    /// A group of operands that do not fit together.
    BadArgs(Vec<Value<'a>>),
    /// A call with the wrong number of arguments: the callee, the number of
    /// its parameters, the number of arguments given.
    ArgMismatch(String, usize, usize),
    /// A condition that is not a boolean.
    BadCondition(Value<'a>),
    /// `break` reached the end of a block that is not inside a loop.
    BreakNotInLoop,
    /// `continue` reached the end of a block that is not inside a loop.
    ContinueNotInLoop,
    /// An operator with one operand, used with two.
    UnaryAsBinary(Operator),
    /// An operator with two operands, used with one.
    BinaryAsUnary(Operator),
    /// An increment or decrement of something that is no variable.
    InvalidAssignmentTarget,
    /// A list was expected; the text of what came instead.
    ExpectedList(String),
    /// A number without fractional part was expected; the text of what came
    /// instead.
    ExpectedInteger(String),
    /// An index below zero or beyond the last item.
    IndexOutOfBounds(i64),
    /// Something that is no list was indexed; its text.
    NotIndexable(String),
    /// A constant was the target of an assignment.
    ConstantReassignment(String),
    /// The evaluation needed more nested calls and loop rounds than it was
    /// given.
    OutOfFuel,
}

/// What a runtime error is, mathematically.
pub enum RuntimeErrorView {
    UnknownVariable(Seq<char>),
    UnknownProc(Seq<char>),
    BadArg(ValueView),
    BadArgs(Seq<ValueView>),
    ArgMismatch(Seq<char>, usize, usize),
    BadCondition(ValueView),
    BreakNotInLoop,
    ContinueNotInLoop,
    UnaryAsBinary(Operator),
    BinaryAsUnary(Operator),
    InvalidAssignmentTarget,
    ExpectedList(Seq<char>),
    ExpectedInteger(Seq<char>),
    IndexOutOfBounds(i64),
    NotIndexable(Seq<char>),
    ConstantReassignment(Seq<char>),
    OutOfFuel,
}

impl<'a> View for RuntimeError<'a> {
    type V = RuntimeErrorView;

    open spec fn view(&self) -> RuntimeErrorView {
        match *self {
            RuntimeError::UnknownVariable(s) => RuntimeErrorView::UnknownVariable(s@),
            RuntimeError::UnknownProc(s) => RuntimeErrorView::UnknownProc(s@),
            RuntimeError::BadArg(v) => RuntimeErrorView::BadArg(v@),
            RuntimeError::BadArgs(vs) => RuntimeErrorView::BadArgs(
                Seq::new(vs.len() as nat, |i: int| value_view(vs[i])),
            ),
            RuntimeError::ArgMismatch(s, expected, actual) => RuntimeErrorView::ArgMismatch(
                s@,
                expected,
                actual,
            ),
            RuntimeError::BadCondition(v) => RuntimeErrorView::BadCondition(v@),
            RuntimeError::BreakNotInLoop => RuntimeErrorView::BreakNotInLoop,
            RuntimeError::ContinueNotInLoop => RuntimeErrorView::ContinueNotInLoop,
            RuntimeError::UnaryAsBinary(op) => RuntimeErrorView::UnaryAsBinary(op),
            RuntimeError::BinaryAsUnary(op) => RuntimeErrorView::BinaryAsUnary(op),
            RuntimeError::InvalidAssignmentTarget => RuntimeErrorView::InvalidAssignmentTarget,
            RuntimeError::ExpectedList(s) => RuntimeErrorView::ExpectedList(s@),
            RuntimeError::ExpectedInteger(s) => RuntimeErrorView::ExpectedInteger(s@),
            RuntimeError::IndexOutOfBounds(i) => RuntimeErrorView::IndexOutOfBounds(i),
            RuntimeError::NotIndexable(s) => RuntimeErrorView::NotIndexable(s@),
            RuntimeError::ConstantReassignment(s) => RuntimeErrorView::ConstantReassignment(s@),
            RuntimeError::OutOfFuel => RuntimeErrorView::OutOfFuel,
        }
    }
}

/// The line that reports a runtime error.
pub open spec fn runtime_message(h: HostModel, e: RuntimeErrorView) -> Seq<char> {
    match e {
        RuntimeErrorView::UnknownVariable(id) => "unknown variable \""@ + id + "\""@,
        RuntimeErrorView::UnknownProc(name) => "unknown procedure \""@ + name + "\""@,
        RuntimeErrorView::BadArg(v) => "bad argument \""@ + value_text(h, v) + "\""@,
        RuntimeErrorView::BadArgs(vs) => "bad args: ["@ + joined_text(h, vs, ", "@) + "]"@,
        RuntimeErrorView::ArgMismatch(name, expected, actual) => "procedure "@ + name
            + " expected "@ + decimal(expected as nat) + " args, instead got "@ + decimal(
            actual as nat,
        ),
        RuntimeErrorView::BadCondition(v) => "expected boolean value, instead got "@ + value_text(
            h,
            v,
        ),
        RuntimeErrorView::BreakNotInLoop => "break outside of a loop"@,
        RuntimeErrorView::ContinueNotInLoop => "continue outside of a loop"@,
        RuntimeErrorView::UnaryAsBinary(op) => "unary operator \""@ + operator_text(op)
            + "\" used with two operands"@,
        RuntimeErrorView::BinaryAsUnary(op) => "binary operator \""@ + operator_text(op)
            + "\" used with one operand"@,
        RuntimeErrorView::InvalidAssignmentTarget => "invalid assignment target"@,
        RuntimeErrorView::ExpectedList(s) => "expected a list, instead got "@ + s,
        RuntimeErrorView::ExpectedInteger(s) => "expected an integer, instead got "@ + s,
        RuntimeErrorView::IndexOutOfBounds(i) => "index out of bounds: "@ + signed_decimal(
            i as int,
        ),
        RuntimeErrorView::NotIndexable(s) => "cannot index "@ + s,
        RuntimeErrorView::ConstantReassignment(id) => "cannot assign to constant \""@ + id
            + "\""@,
        RuntimeErrorView::OutOfFuel => "too many nested calls or loop rounds"@,
    }
}

impl<'a> RuntimeError<'a> {
    /// The line that reports this error.
    pub fn message<A, S>(&self, host: &Host<A, S>) -> (r: String) where
        A: Fn(Operator, Number, Number) -> Number,
        S: Fn(Number) -> String,

        requires
            host.deterministic(),
        ensures
            r@ == runtime_message(host.model(), self@),
    {
        match self {
            RuntimeError::UnknownVariable(id) => between("unknown variable \"", id.as_str(), "\""),
            RuntimeError::UnknownProc(name) => between(
                "unknown procedure \"",
                name.as_str(),
                "\"",
            ),
            RuntimeError::BadArg(v) => between("bad argument \"", v.text(host).as_str(), "\""),
            RuntimeError::BadArgs(vs) => {
                assert(self@->BadArgs_0 =~= values_view(vs@));
                between("bad args: [", join_texts(vs, ", ", host).as_str(), "]")
            },
            RuntimeError::ArgMismatch(name, expected, actual) => {
                let mut r = "procedure ".to_owned();
                r.append(name.as_str());
                r.append(" expected ");
                r.append(unsigned_text(*expected as u64).as_str());
                r.append(" args, instead got ");
                r.append(unsigned_text(*actual as u64).as_str());
                r
            },
            RuntimeError::BadCondition(v) => {
                let mut r = "expected boolean value, instead got ".to_owned();
                r.append(v.text(host).as_str());
                r
            },
            RuntimeError::BreakNotInLoop => "break outside of a loop".to_owned(),
            RuntimeError::ContinueNotInLoop => "continue outside of a loop".to_owned(),
            RuntimeError::UnaryAsBinary(op) => between(
                "unary operator \"",
                op.symbol(),
                "\" used with two operands",
            ),
            RuntimeError::BinaryAsUnary(op) => between(
                "binary operator \"",
                op.symbol(),
                "\" used with one operand",
            ),
            RuntimeError::InvalidAssignmentTarget => "invalid assignment target".to_owned(),
            RuntimeError::ExpectedList(s) => {
                let mut r = "expected a list, instead got ".to_owned();
                r.append(s.as_str());
                r
            },
            RuntimeError::ExpectedInteger(s) => {
                let mut r = "expected an integer, instead got ".to_owned();
                r.append(s.as_str());
                r
            },
            RuntimeError::IndexOutOfBounds(i) => {
                let mut r = "index out of bounds: ".to_owned();
                r.append(signed_text(*i).as_str());
                r
            },
            RuntimeError::NotIndexable(s) => {
                let mut r = "cannot index ".to_owned();
                r.append(s.as_str());
                r
            },
            RuntimeError::ConstantReassignment(id) => between(
                "cannot assign to constant \"",
                id.as_str(),
                "\"",
            ),
            RuntimeError::OutOfFuel => "too many nested calls or loop rounds".to_owned(),
        }
    }
}

/// Any error of the language.
#[derive(Debug)]
pub enum LingerError<'a> {
    ParseError(ParseError<'a>),
    TokenizerError(TokenizerError),
    RuntimeError(RuntimeError<'a>),
}

/// What an error is, mathematically.
pub enum LingerErrorView {
    ParseError(ParseErrorView),
    TokenizerError(TokenizerErrorView),
    RuntimeError(RuntimeErrorView),
}

impl<'a> View for LingerError<'a> {
    type V = LingerErrorView;

    open spec fn view(&self) -> LingerErrorView {
        match *self {
            LingerError::ParseError(e) => LingerErrorView::ParseError(e@),
            LingerError::TokenizerError(e) => LingerErrorView::TokenizerError(e@),
            LingerError::RuntimeError(e) => LingerErrorView::RuntimeError(e@),
        }
    }
}

/// The line that reports an error.
pub open spec fn error_message(h: HostModel, e: LingerErrorView) -> Seq<char> {
    match e {
        LingerErrorView::ParseError(e) => parse_message(e),
        LingerErrorView::TokenizerError(e) => tokenizer_message(e),
        LingerErrorView::RuntimeError(e) => runtime_message(h, e),
    }
}

impl<'a> LingerError<'a> {
    /// The line that reports this error.
    pub fn message<A, S>(&self, host: &Host<A, S>) -> (r: String) where
        A: Fn(Operator, Number, Number) -> Number,
        S: Fn(Number) -> String,

        requires
            host.deterministic(),
        ensures
            r@ == error_message(host.model(), self@),
    {
        match self {
            LingerError::ParseError(e) => e.message(),
            LingerError::TokenizerError(e) => e.message(),
            LingerError::RuntimeError(e) => e.message(host),
        }
    }
}

/// The error for a token that should not stand where it stands: the first
/// of `tokens`.
pub fn unexpected_token<'a>(tokens: &'a [Token<'a>]) -> (r: LingerError<'a>)
    requires
        tokens@.len() > 0,
    ensures
        r@ == LingerErrorView::ParseError(ParseErrorView::UnexpectedToken(tokens@[0]@)),
{
    LingerError::ParseError(ParseError::UnexpectedToken(tokens[0].duplicate()))
}

} // verus!
