//! The errors of lexing and parsing. Each carries, or leads to, the span of
//! the source that it is about.
use vstd::prelude::*;
use vstd::string::StringExecFns;
use crate::span::Span;
use crate::token::{Token, TokenKind, TokenKindView, TokenView};

verus! {

/// What went wrong while reading a token.
#[derive(Debug, Clone, Copy, PartialEq, Eq, Structural)]
pub enum LexerErrorKind {
    /// A character that starts no token.
    UnexpectedCharacter(char),
    /// A letter or an underscore directly behind the digits of a constant.
    InvalidConstSuffix,
    /// A run of digits whose value does not fit a signed 64-bit integer.
    InvalidIntegerLiteral,
}

/// A lexical error and the place where it was found.
#[derive(Debug, Clone, Copy, PartialEq, Eq, Structural)]
pub struct LexerError {
    pub kind: LexerErrorKind,
    pub span: Span,
}

/// A syntax error, or the lexical error that stopped the parser.
#[derive(Debug, Clone, PartialEq)]
pub enum ParseError {
    /// The source ended where a token was needed; the span is the byte just
    /// behind the text that was read.
    UnexpectedEof(Span),
    /// The token found, and the kind that was needed in its place.
    UnexpectedToken(Token, TokenKind),
    /// A token behind the end of a complete program.
    UnexpectedTrailing(Token),
    Lexer(LexerError),
}

/// The mathematical value of a [`ParseError`].
pub enum ParseErrorView {
    UnexpectedEof(Span),
    UnexpectedToken(TokenView, TokenKindView),
    UnexpectedTrailing(TokenView),
    Lexer(LexerError),
}

impl View for ParseError {
    type V = ParseErrorView;

    open spec fn view(&self) -> ParseErrorView {
        match self {
            ParseError::UnexpectedEof(span) => ParseErrorView::UnexpectedEof(*span),
            ParseError::UnexpectedToken(found, expected) => ParseErrorView::UnexpectedToken(
                found@,
                expected@,
            ),
            ParseError::UnexpectedTrailing(found) => ParseErrorView::UnexpectedTrailing(found@),
            ParseError::Lexer(e) => ParseErrorView::Lexer(*e),
        }
    }
}

impl From<LexerError> for ParseError {
    fn from(e: LexerError) -> (wrapped: ParseError) {
        ParseError::Lexer(e)
    }
}

impl vstd::std_specs::convert::FromSpecImpl<LexerError> for ParseError {
    open spec fn obeys_from_spec() -> bool {
        true
    }

    open spec fn from_spec(e: LexerError) -> ParseError {
        ParseError::Lexer(e)
    }
}

impl LexerError {
    /// The place of the error.
    pub fn span(&self) -> (span: &Span)
        ensures
            *span == self.span,
    {
        &self.span
    }
}

impl ParseErrorView {
    /// The place of the error: its own span, that of the token it names, or
    /// that of the lexical error it wraps.
    pub open spec fn span(self) -> Span {
        match self {
            ParseErrorView::UnexpectedEof(span) => span,
            ParseErrorView::UnexpectedToken(found, _) => found.span,
            ParseErrorView::UnexpectedTrailing(found) => found.span,
            ParseErrorView::Lexer(e) => e.span,
        }
    }
}

impl ParseError {
    /// The place of the error.
    pub fn span(&self) -> (span: &Span)
        ensures
            *span == self@.span(),
    {
        match self {
            ParseError::UnexpectedEof(span) => span,
            ParseError::UnexpectedToken(found, _) => &found.span,
            ParseError::UnexpectedTrailing(found) => &found.span,
            ParseError::Lexer(e) => e.span(),
        }
    }
}


impl LexerError {
    /// What the error says to a reader.
    pub open spec fn message_text(self) -> Seq<char> {
        match self.kind {
            LexerErrorKind::UnexpectedCharacter(found) => "unexpected token '"@.push(found) + "'"@,
            LexerErrorKind::InvalidConstSuffix => "invalid const suffic"@,
            LexerErrorKind::InvalidIntegerLiteral => "unable to convert integer literal value to int"@,
        }
    }

    /// What the error says to a reader.
    pub fn message(&self) -> (out: String)
        ensures
            out@ == self.message_text(),
    {
        let mut out = String::new();
        match self.kind {
            LexerErrorKind::UnexpectedCharacter(found) => {
                out.append("unexpected token '");
                out.push(found);
                out.append("'");
            },
            LexerErrorKind::InvalidConstSuffix => {
                out.append("invalid const suffic");
            },
            LexerErrorKind::InvalidIntegerLiteral => {
                out.append("unable to convert integer literal value to int");
            },
        }
        assert(out@ =~= self.message_text());
        out
    }
}

impl ParseErrorView {
    /// What the error says to a reader.
    pub open spec fn message_text(self) -> Seq<char> {
        match self {
            ParseErrorView::UnexpectedEof(_) => "unexpected end of file"@,
            ParseErrorView::UnexpectedToken(found, expected) => "expected '"@
                + expected.debug_text() + "' but found "@ + found.kind.debug_text(),
            ParseErrorView::UnexpectedTrailing(found) => "unexpected trailing '"@
                + found.debug_text() + "'"@,
            ParseErrorView::Lexer(e) => e.message_text(),
        }
    }
}

impl ParseError {
    /// What the error says to a reader.
    pub fn message(&self) -> (out: String)
        ensures
            out@ == self@.message_text(),
    {
        let mut out = String::new();
        match self {
            ParseError::UnexpectedEof(_) => {
                out.append("unexpected end of file");
            },
            ParseError::UnexpectedToken(found, expected) => {
                out.append("expected '");
                expected.debug(&mut out);
                out.append("' but found ");
                found.kind.debug(&mut out);
            },
            ParseError::UnexpectedTrailing(found) => {
                out.append("unexpected trailing '");
                found.debug(&mut out);
                out.append("'");
            },
            ParseError::Lexer(e) => {
                let inner = e.message();
                out.append(inner.as_str());
            },
        }
        assert(out@ =~= self@.message_text());
        out
    }
}

/// Why a source text was not compiled.
#[derive(Debug, Clone)]
pub enum CompilerError {
    /// A lexical error, met while only the tokens were asked for.
    Lexer(LexerError),
    /// A syntax error, or a lexical error met while parsing.
    Parser(ParseError),
}

/// The mathematical value of a [`CompilerError`].
pub enum CompilerErrorView {
    Lexer(LexerError),
    Parser(ParseErrorView),
}

impl View for CompilerError {
    type V = CompilerErrorView;

    open spec fn view(&self) -> CompilerErrorView {
        match self {
            CompilerError::Lexer(e) => CompilerErrorView::Lexer(*e),
            CompilerError::Parser(e) => CompilerErrorView::Parser(e@),
        }
    }
}

} // verus!
