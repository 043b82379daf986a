//! Tokens: the lexical units of the source language.
use vstd::prelude::*;
use vstd::string::StringExecFns;
use crate::span::Span;
use crate::text::{
    debug_quoted, decimal, push_decimal, push_signed_decimal, signed_decimal, str_debug,
};

verus! {

/// The reserved words of the language.
#[derive(Debug, Clone, Copy, PartialEq, Eq, Structural)]
pub enum Keyword {
    Int,
    Void,
    Return,
}

/// A constant as it is written in the source.
#[derive(Debug, Clone, Copy, PartialEq, Eq, Structural)]
pub enum Const {
    Int(i64),
}

/// What a token is, apart from where it stands.
#[derive(Debug, Clone)]
pub enum TokenKind {
    Identifier(String),
    Constant(Const),
    Keyword(Keyword),
    OpenParenthesis,
    CloseParenthesis,
    OpenBrace,
    CloseBrace,
    Semicolon,
}

/// The mathematical value of a [`TokenKind`]: an identifier is the sequence
/// of its characters.
pub enum TokenKindView {
    Identifier(Seq<char>),
    Constant(Const),
    Keyword(Keyword),
    OpenParenthesis,
    CloseParenthesis,
    OpenBrace,
    CloseBrace,
    Semicolon,
}

/// A token kind together with the bytes of the source that it occupies.
#[derive(Debug, Clone)]
pub struct Token {
    pub kind: TokenKind,
    pub span: Span,
}

/// The mathematical value of a [`Token`].
pub struct TokenView {
    pub kind: TokenKindView,
    pub span: Span,
}

impl View for TokenKind {
    type V = TokenKindView;

    open spec fn view(&self) -> TokenKindView {
        match self {
            TokenKind::Identifier(name) => TokenKindView::Identifier(name@),
            TokenKind::Constant(c) => TokenKindView::Constant(*c),
            TokenKind::Keyword(k) => TokenKindView::Keyword(*k),
            TokenKind::OpenParenthesis => TokenKindView::OpenParenthesis,
            TokenKind::CloseParenthesis => TokenKindView::CloseParenthesis,
            TokenKind::OpenBrace => TokenKindView::OpenBrace,
            TokenKind::CloseBrace => TokenKindView::CloseBrace,
            TokenKind::Semicolon => TokenKindView::Semicolon,
        }
    }
}

impl View for Token {
    type V = TokenView;

    open spec fn view(&self) -> TokenView {
        TokenView { kind: self.kind@, span: self.span }
    }
}

impl PartialEq for TokenKind {
    fn eq(&self, other: &TokenKind) -> (same: bool) {
        match self {
            TokenKind::Identifier(a) => match other {
                TokenKind::Identifier(b) => *a == *b,
                _ => false,
            },
            TokenKind::Constant(a) => match other {
                TokenKind::Constant(b) => *a == *b,
                _ => false,
            },
            TokenKind::Keyword(a) => match other {
                TokenKind::Keyword(b) => *a == *b,
                _ => false,
            },
            TokenKind::OpenParenthesis => matches!(other, TokenKind::OpenParenthesis),
            TokenKind::CloseParenthesis => matches!(other, TokenKind::CloseParenthesis),
            TokenKind::OpenBrace => matches!(other, TokenKind::OpenBrace),
            TokenKind::CloseBrace => matches!(other, TokenKind::CloseBrace),
            TokenKind::Semicolon => matches!(other, TokenKind::Semicolon),
        }
    }
}

impl vstd::std_specs::cmp::PartialEqSpecImpl for TokenKind {
    open spec fn obeys_eq_spec() -> bool {
        true
    }

    open spec fn eq_spec(&self, other: &TokenKind) -> bool {
        self@ == other@
    }
}

impl PartialEq for Token {
    fn eq(&self, other: &Token) -> (same: bool) {
        self.kind == other.kind && self.span == other.span
    }
}

impl vstd::std_specs::cmp::PartialEqSpecImpl for Token {
    open spec fn obeys_eq_spec() -> bool {
        true
    }

    open spec fn eq_spec(&self, other: &Token) -> bool {
        self@ == other@
    }
}


impl Keyword {
    /// The keyword as it is written in the source.
    pub open spec fn display_text(self) -> Seq<char> {
        match self {
            Keyword::Int => "int"@,
            Keyword::Void => "void"@,
            Keyword::Return => "return"@,
        }
    }

    /// The keyword's name.
    pub open spec fn debug_text(self) -> Seq<char> {
        match self {
            Keyword::Int => "Int"@,
            Keyword::Void => "Void"@,
            Keyword::Return => "Return"@,
        }
    }

    /// Appends the keyword to `out` as it is written in the source.
    pub fn display(&self, out: &mut String)
        ensures
            final(out)@ == old(out)@ + self.display_text(),
    {
        match self {
            Keyword::Int => out.append("int"),
            Keyword::Void => out.append("void"),
            Keyword::Return => out.append("return"),
        }
    }

    /// Appends the keyword's name to `out`.
    pub fn debug(&self, out: &mut String)
        ensures
            final(out)@ == old(out)@ + self.debug_text(),
    {
        match self {
            Keyword::Int => out.append("Int"),
            Keyword::Void => out.append("Void"),
            Keyword::Return => out.append("Return"),
        }
    }

    /// The keyword as it is written in the source.
    pub fn to_text(&self) -> (out: String)
        ensures
            out@ == self.display_text(),
    {
        let mut out = String::new();
        self.display(&mut out);
        assert(out@ =~= self.display_text());
        out
    }
}

impl Const {
    /// The constant as a decimal numeral.
    pub open spec fn display_text(self) -> Seq<char> {
        match self {
            Const::Int(n) => signed_decimal(n as int),
        }
    }

    /// The constant's variant, with its value in brackets.
    pub open spec fn debug_text(self) -> Seq<char> {
        match self {
            Const::Int(n) => "Int("@ + signed_decimal(n as int) + ")"@,
        }
    }

    /// Appends the constant to `out` as a decimal numeral.
    pub fn display(&self, out: &mut String)
        ensures
            final(out)@ == old(out)@ + self.display_text(),
    {
        match self {
            Const::Int(n) => push_signed_decimal(out, *n),
        }
    }

    /// Appends the constant's variant and value to `out`.
    pub fn debug(&self, out: &mut String)
        ensures
            final(out)@ == old(out)@ + self.debug_text(),
    {
        match self {
            Const::Int(n) => {
                out.append("Int(");
                push_signed_decimal(out, *n);
                out.append(")");
            },
        }
        assert(out@ =~= old(out)@ + self.debug_text());
    }

    /// The constant as a decimal numeral.
    pub fn to_text(&self) -> (out: String)
        ensures
            out@ == self.display_text(),
    {
        let mut out = String::new();
        self.display(&mut out);
        assert(out@ =~= self.display_text());
        out
    }
}

impl TokenKindView {
    /// The token as it is written in the source.
    pub open spec fn display_text(self) -> Seq<char> {
        match self {
            TokenKindView::Identifier(name) => name,
            TokenKindView::Constant(c) => c.display_text(),
            TokenKindView::Keyword(k) => k.display_text(),
            TokenKindView::OpenParenthesis => "("@,
            TokenKindView::CloseParenthesis => ")"@,
            TokenKindView::OpenBrace => "{"@,
            TokenKindView::CloseBrace => "}"@,
            TokenKindView::Semicolon => ";"@,
        }
    }

    /// The kind's variant, with what it holds in brackets; an identifier
    /// stands between quotes.
    pub open spec fn debug_text(self) -> Seq<char> {
        match self {
            TokenKindView::Identifier(name) => "Identifier("@ + str_debug(name) + ")"@,
            TokenKindView::Constant(c) => "Constant("@ + c.debug_text() + ")"@,
            TokenKindView::Keyword(k) => "Keyword("@ + k.debug_text() + ")"@,
            TokenKindView::OpenParenthesis => "OpenParenthesis"@,
            TokenKindView::CloseParenthesis => "CloseParenthesis"@,
            TokenKindView::OpenBrace => "OpenBrace"@,
            TokenKindView::CloseBrace => "CloseBrace"@,
            TokenKindView::Semicolon => "Semicolon"@,
        }
    }
}

impl TokenKind {
    /// Appends the token to `out` as it is written in the source.
    pub fn display(&self, out: &mut String)
        ensures
            final(out)@ == old(out)@ + self@.display_text(),
    {
        match self {
            TokenKind::Identifier(name) => out.append(name.as_str()),
            TokenKind::Constant(c) => c.display(out),
            TokenKind::Keyword(k) => k.display(out),
            TokenKind::OpenParenthesis => out.append("("),
            TokenKind::CloseParenthesis => out.append(")"),
            TokenKind::OpenBrace => out.append("{"),
            TokenKind::CloseBrace => out.append("}"),
            TokenKind::Semicolon => out.append(";"),
        }
    }

    /// Appends the kind's variant, and what it holds, to `out`.
    pub fn debug(&self, out: &mut String)
        ensures
            final(out)@ == old(out)@ + self@.debug_text(),
    {
        match self {
            TokenKind::Identifier(name) => {
                out.append("Identifier(");
                let quoted = debug_quoted(name.as_str());
                out.append(quoted.as_str());
                out.append(")");
            },
            TokenKind::Constant(c) => {
                out.append("Constant(");
                c.debug(out);
                out.append(")");
            },
            TokenKind::Keyword(k) => {
                out.append("Keyword(");
                k.debug(out);
                out.append(")");
            },
            TokenKind::OpenParenthesis => out.append("OpenParenthesis"),
            TokenKind::CloseParenthesis => out.append("CloseParenthesis"),
            TokenKind::OpenBrace => out.append("OpenBrace"),
            TokenKind::CloseBrace => out.append("CloseBrace"),
            TokenKind::Semicolon => out.append("Semicolon"),
        }
        assert(out@ =~= old(out)@ + self@.debug_text());
    }

    /// The token as it is written in the source.
    pub fn to_text(&self) -> (out: String)
        ensures
            out@ == self@.display_text(),
    {
        let mut out = String::new();
        self.display(&mut out);
        assert(out@ =~= self@.display_text());
        out
    }
}

/// A span with its two offsets by name.
pub open spec fn span_debug_text(span: Span) -> Seq<char> {
    "Span { start: "@ + decimal(span.start as nat) + ", end: "@ + decimal(span.end as nat)
        + " }"@
}

/// Appends a span, with its two offsets by name, to `out`.
pub fn span_debug(span: &Span, out: &mut String)
    ensures
        final(out)@ == old(out)@ + span_debug_text(*span),
{
    out.append("Span { start: ");
    push_decimal(out, span.start as u64);
    out.append(", end: ");
    push_decimal(out, span.end as u64);
    out.append(" }");
    assert(out@ =~= old(out)@ + span_debug_text(*span));
}

impl TokenView {
    /// The token with its kind and its span by name.
    pub open spec fn debug_text(self) -> Seq<char> {
        "Token { kind: "@ + self.kind.debug_text() + ", span: "@ + span_debug_text(self.span)
            + " }"@
    }
}

impl Token {
    /// Appends the token, with its kind and its span by name, to `out`.
    pub fn debug(&self, out: &mut String)
        ensures
            final(out)@ == old(out)@ + self@.debug_text(),
    {
        out.append("Token { kind: ");
        self.kind.debug(out);
        out.append(", span: ");
        span_debug(&self.span, out);
        out.append(" }");
        assert(out@ =~= old(out)@ + self@.debug_text());
    }
}

} // verus!
