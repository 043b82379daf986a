use rcc::diagnostic::render_diagnostic;
use rcc::error::{LexerError, LexerErrorKind, ParseError};
use rcc::lexer::{tokenize, Lexer};
use rcc::parser::Parser;
use rcc::span::Span;
use rcc::token::{Const, Keyword, Token, TokenKind};

fn underline_of(rendered: &str) -> String {
    let third = rendered.lines().nth(2).unwrap();
    third.chars().filter(|c| *c == '^').collect()
}

#[test]
fn missing_semicolon_is_shown_below_the_brace() {
    let src = "int main(void) { return 2\n}";
    let err = Parser::new(Lexer::new(src)).parse().unwrap_err();
    assert_eq!(
        err.render(src),
        "line 2, col 1\n}\n^ expected 'Semicolon' but found CloseBrace\n"
    );
}

#[test]
fn end_of_source_is_shown_behind_the_text() {
    let src = "return 2";
    let err = Parser::new(Lexer::new(src)).parse_statement().unwrap_err();
    assert_eq!(
        err.render(src),
        "line 1, col 8\nreturn 2\n        ^ unexpected end of file\n"
    );
}

#[test]
fn lexical_error_is_shown_at_its_character() {
    let src = "int main(void) {\n    return 2 @;\n}";
    let err = tokenize(src).unwrap_err();
    assert_eq!(err.span, Span { start: 30, end: 31 });
    assert_eq!(
        err.render(src),
        "line 2, col 13\n    return 2 @;\n             ^ unexpected token '@'\n"
    );
}

#[test]
fn tabs_are_expanded_in_line_padding_and_underline() {
    let src = "a\n\tbc\td\n";
    let out = render_diagnostic(src, &Span { start: 3, end: 6 }, "msg");
    assert_eq!(out, "line 2, col 1\n    bc    d\n    ^^^^^^ msg\n");
    assert_eq!(underline_of(&out).len(), 6);
}

#[test]
fn underline_counts_characters_not_bytes() {
    let src = "ab\u{20ac}\u{20ac}c";
    let out = render_diagnostic(src, &Span { start: 2, end: 8 }, "m");
    assert_eq!(out, "line 1, col 2\nab\u{20ac}\u{20ac}c\n  ^^ m\n");
    assert_eq!(underline_of(&out), "^^");
}

#[test]
fn column_counts_characters_not_bytes() {
    let src = "\u{e9} = 1;";
    let out = render_diagnostic(src, &Span { start: 3, end: 4 }, "m");
    assert_eq!(out, "line 1, col 2\n\u{e9} = 1;\n  ^ m\n");
}

#[test]
fn empty_and_one_byte_spans_get_one_caret() {
    let src = "int x";
    for span in [Span { start: 4, end: 4 }, Span { start: 4, end: 5 }, Span { start: 5, end: 6 }] {
        let out = render_diagnostic(src, &span, "m");
        assert_eq!(underline_of(&out), "^");
    }
    assert_eq!(
        render_diagnostic(src, &Span { start: 4, end: 4 }, "m"),
        "line 1, col 4\nint x\n    ^ m\n"
    );
    assert_eq!(
        render_diagnostic(src, &Span { start: 0, end: 1 }, "m"),
        "line 1, col 1\nint x\n^ m\n"
    );
}

#[test]
fn one_byte_span_over_a_tab_gets_four_carets() {
    let out = render_diagnostic("\t", &Span { start: 0, end: 1 }, "m");
    assert_eq!(out, "line 1, col 1\n    \n^^^^ m\n");
}

#[test]
fn span_over_several_lines_shows_them_all() {
    let src = "ab\ncd\nef";
    let out = render_diagnostic(src, &Span { start: 4, end: 7 }, "m");
    assert_eq!(out, "line 2, col 1\ncd\nef\n ^^^ m\n");
}

#[test]
fn span_behind_the_text_is_brought_to_its_end() {
    let out = render_diagnostic("ab\ncd", &Span { start: 40, end: 50 }, "m");
    assert_eq!(out, "line 2, col 2\ncd\n  ^ m\n");
    let out = render_diagnostic("", &Span { start: 0, end: 1 }, "m");
    assert_eq!(out, "line 1, col 1\n\n^ m\n");
}

#[test]
fn span_that_ends_before_it_starts_covers_nothing() {
    let out = render_diagnostic("abcdef", &Span { start: 4, end: 2 }, "m");
    assert_eq!(out, "line 1, col 4\nabcdef\n    ^ m\n");
}

#[test]
fn lexer_error_messages() {
    let at = Span { start: 0, end: 1 };
    let message = |kind| LexerError { kind, span: at }.message();
    assert_eq!(message(LexerErrorKind::UnexpectedCharacter('@')), "unexpected token '@'");
    assert_eq!(message(LexerErrorKind::InvalidConstSuffix), "invalid const suffic");
    assert_eq!(
        message(LexerErrorKind::InvalidIntegerLiteral),
        "unable to convert integer literal value to int"
    );
}

#[test]
fn parse_error_messages() {
    let at = Span { start: 29, end: 32 };
    assert_eq!(ParseError::UnexpectedEof(at).message(), "unexpected end of file");
    let found = Token { kind: TokenKind::Identifier(String::from("x")), span: at };
    assert_eq!(
        ParseError::UnexpectedToken(found, TokenKind::Constant(Const::Int(0))).message(),
        "expected 'Constant(Int(0))' but found Identifier(\"x\")"
    );
    let found = Token { kind: TokenKind::Keyword(Keyword::Int), span: at };
    assert_eq!(
        ParseError::UnexpectedTrailing(found).message(),
        "unexpected trailing 'Token { kind: Keyword(Int), span: Span { start: 29, end: 32 } }'"
    );
    let inner = LexerError { kind: LexerErrorKind::InvalidConstSuffix, span: at };
    assert_eq!(ParseError::Lexer(inner).message(), inner.message());
}

#[test]
fn messages_name_tokens_as_debug_does() {
    let kinds = vec![
        TokenKind::Identifier(String::from("main")),
        TokenKind::Identifier(String::from("a\"b\\c\n")),
        TokenKind::Identifier(String::new()),
        TokenKind::Constant(Const::Int(i64::MIN)),
        TokenKind::Constant(Const::Int(i64::MAX)),
        TokenKind::Keyword(Keyword::Int),
        TokenKind::Keyword(Keyword::Void),
        TokenKind::Keyword(Keyword::Return),
        TokenKind::OpenParenthesis,
        TokenKind::CloseParenthesis,
        TokenKind::OpenBrace,
        TokenKind::CloseBrace,
        TokenKind::Semicolon,
    ];
    for kind in kinds {
        let token = Token { kind: kind.clone(), span: Span { start: 7, end: 1234567 } };
        assert_eq!(
            ParseError::UnexpectedToken(token.clone(), kind.clone()).message(),
            format!("expected '{:?}' but found {:?}", kind, token.kind)
        );
        assert_eq!(
            ParseError::UnexpectedTrailing(token.clone()).message(),
            format!("unexpected trailing '{:?}'", token)
        );
    }
}
