use rcc::error::{LexerError, LexerErrorKind};
use rcc::lexer::{tokenize, Lexer};
use rcc::span::Span;
use rcc::token::{Const, Keyword, Token, TokenKind};

fn kinds(src: &str) -> Result<Vec<TokenKind>, LexerError> {
    let mut lexer = Lexer::new(src);
    let mut out = Vec::new();
    while let Some(item) = lexer.next() {
        out.push(item?.kind);
    }
    Ok(out)
}

#[test]
fn identifier() {
    let tokens = kinds("foo").unwrap();
    assert!(matches!(tokens.as_slice(), [TokenKind::Identifier(s)] if s == "foo"));
}

#[test]
fn invalid_identifier() {
    let tokens = kinds("123bar");
    assert!(tokens.is_err());
}

#[test]
fn constant() {
    let tokens = kinds("42").unwrap();
    assert!(matches!(
        tokens.as_slice(),
        [TokenKind::Constant(Const::Int(42))]
    ));
}

#[test]
fn open_parenthesis() {
    let tokens = kinds("(").unwrap();
    assert!(matches!(tokens.as_slice(), [TokenKind::OpenParenthesis]));
}

#[test]
fn close_parenthesis() {
    let tokens = kinds(")").unwrap();
    assert!(matches!(tokens.as_slice(), [TokenKind::CloseParenthesis]));
}

#[test]
fn open_brace() {
    let tokens = kinds("{").unwrap();
    assert!(matches!(tokens.as_slice(), [TokenKind::OpenBrace]));
}

#[test]
fn close_brace() {
    let tokens = kinds("}").unwrap();
    assert!(matches!(tokens.as_slice(), [TokenKind::CloseBrace]));
}

#[test]
fn semicolon() {
    let tokens = kinds(";").unwrap();
    assert!(matches!(tokens.as_slice(), [TokenKind::Semicolon]));
}

#[test]
fn simple_main() {
    let file = "int main(void) {
            return 2;
        }";
    let tokens = kinds(file).unwrap();
    assert!(matches!(
        tokens.as_slice(),
        [
            TokenKind::Keyword(Keyword::Int),
            TokenKind::Identifier(identifier),
            TokenKind::OpenParenthesis,
            TokenKind::Keyword(Keyword::Void),
            TokenKind::CloseParenthesis,
            TokenKind::OpenBrace,
            TokenKind::Keyword(Keyword::Return),
            TokenKind::Constant(Const::Int(2)),
            TokenKind::Semicolon,
            TokenKind::CloseBrace,
        ] if identifier == "main"
    ));
}

#[test]
fn invalid_suffix_points_at_the_suffix() {
    let mut lexer = Lexer::new("123bar");
    let item = lexer.next();
    assert_eq!(
        item,
        Some(Err(LexerError {
            kind: LexerErrorKind::InvalidConstSuffix,
            span: Span { start: 3, end: 4 },
        }))
    );
    assert_eq!(lexer.pos(), 3);
}

#[test]
fn underscore_behind_digits_is_a_suffix() {
    let err = tokenize("7_").unwrap_err();
    assert_eq!(err.kind, LexerErrorKind::InvalidConstSuffix);
    assert_eq!(err.span, Span { start: 1, end: 2 });
}

#[test]
fn letter_outside_ascii_behind_digits_is_a_suffix() {
    let err = tokenize("12\u{e9}").unwrap_err();
    assert_eq!(err.kind, LexerErrorKind::InvalidConstSuffix);
    assert_eq!(err.span, Span { start: 2, end: 3 });
}

#[test]
fn largest_constant_is_read() {
    let tokens = tokenize("9223372036854775807").unwrap();
    assert_eq!(tokens.len(), 1);
    assert_eq!(tokens[0].kind, TokenKind::Constant(Const::Int(i64::MAX)));
    assert_eq!(tokens[0].span, Span { start: 0, end: 19 });
}

#[test]
fn constant_behind_the_largest_is_refused() {
    let err = tokenize(" 9223372036854775808").unwrap_err();
    assert_eq!(err.kind, LexerErrorKind::InvalidIntegerLiteral);
    assert_eq!(err.span, Span { start: 1, end: 20 });
}

#[test]
fn very_long_constant_is_refused() {
    let err = tokenize("100000000000000000000000000000000000000").unwrap_err();
    assert_eq!(err.kind, LexerErrorKind::InvalidIntegerLiteral);
    assert_eq!(err.span, Span { start: 0, end: 39 });
}

#[test]
fn leading_zeros_do_not_count() {
    let tokens = tokenize("000000000000000000000000000000042").unwrap();
    assert_eq!(tokens[0].kind, TokenKind::Constant(Const::Int(42)));
}

#[test]
fn unexpected_character_is_named_and_passed_over() {
    let mut lexer = Lexer::new("  @;");
    assert_eq!(
        lexer.next(),
        Some(Err(LexerError {
            kind: LexerErrorKind::UnexpectedCharacter('@'),
            span: Span { start: 2, end: 3 },
        }))
    );
    assert_eq!(lexer.pos(), 3);
    assert_eq!(
        lexer.next(),
        Some(Ok(Token { kind: TokenKind::Semicolon, span: Span { start: 3, end: 4 } }))
    );
    assert_eq!(lexer.next(), None);
    let mut lexer = Lexer::new("@");
    assert!(matches!(lexer.next(), Some(Err(_))));
    assert_eq!(lexer.next(), None);
    assert_eq!(lexer.pos(), 1);
}

#[test]
fn lexing_ends_whatever_the_text() {
    for src in ["", "@", "@@@", "\u{1F600}#$", "1a 2b 3c", "int main(void) { return 2; }", " \n\t", "99999999999999999999 ?"] {
        let mut lexer = Lexer::new(src);
        let mut calls = 1;
        while lexer.next().is_some() {
            calls += 1;
        }
        assert!(calls <= src.chars().count() + 1);
        assert_eq!(lexer.pos(), src.len());
        assert_eq!(lexer.next(), None);
    }
}

#[test]
fn spans_are_byte_offsets() {
    let tokens = tokenize("int\u{a0}\u{2003}main ;").unwrap();
    assert_eq!(
        tokens,
        vec![
            Token { kind: TokenKind::Keyword(Keyword::Int), span: Span { start: 0, end: 3 } },
            Token {
                kind: TokenKind::Identifier(String::from("main")),
                span: Span { start: 8, end: 12 },
            },
            Token { kind: TokenKind::Semicolon, span: Span { start: 13, end: 14 } },
        ]
    );
}

#[test]
fn character_outside_ascii_is_unexpected() {
    let err = tokenize("a \u{1F600}").unwrap_err();
    assert_eq!(err.kind, LexerErrorKind::UnexpectedCharacter('\u{1F600}'));
    assert_eq!(err.span, Span { start: 2, end: 3 });
}

#[test]
fn identifier_stops_at_a_letter_outside_ascii() {
    let mut lexer = Lexer::new("caf\u{e9}");
    assert_eq!(
        lexer.next(),
        Some(Ok(Token {
            kind: TokenKind::Identifier(String::from("caf")),
            span: Span { start: 0, end: 3 },
        }))
    );
    assert_eq!(
        lexer.next(),
        Some(Err(LexerError {
            kind: LexerErrorKind::UnexpectedCharacter('\u{e9}'),
            span: Span { start: 3, end: 4 },
        }))
    );
}

#[test]
fn keywords_are_whole_words() {
    let tokens = kinds("int integer void voids return _return int1").unwrap();
    assert_eq!(
        tokens,
        vec![
            TokenKind::Keyword(Keyword::Int),
            TokenKind::Identifier(String::from("integer")),
            TokenKind::Keyword(Keyword::Void),
            TokenKind::Identifier(String::from("voids")),
            TokenKind::Keyword(Keyword::Return),
            TokenKind::Identifier(String::from("_return")),
            TokenKind::Identifier(String::from("int1")),
        ]
    );
}

#[test]
fn empty_and_blank_sources_have_no_token() {
    assert_eq!(tokenize("").unwrap(), vec![]);
    assert_eq!(tokenize(" \t\r\n ").unwrap(), vec![]);
    let mut lexer = Lexer::new(" \n");
    assert_eq!(lexer.next(), None);
    assert_eq!(lexer.pos(), 2);
    assert_eq!(lexer.next(), None);
}

#[test]
fn lexing_twice_gives_the_same_tokens() {
    let src = "int main(void) { return 2; } 12ab";
    assert_eq!(tokenize(src), tokenize(src));
    let src = "int main(void) { return 2; }";
    let first = tokenize(src);
    assert!(first.is_ok());
    assert_eq!(first, tokenize(src));
}

#[test]
fn tokenize_agrees_with_the_lexer() {
    let src = "int main(void) {\n\treturn 2;\n}\n";
    let mut lexer = Lexer::new(src);
    let mut pulled = Vec::new();
    while let Some(item) = lexer.next() {
        pulled.push(item.unwrap());
    }
    assert_eq!(pulled.len(), 10);
    assert_eq!(tokenize(src).unwrap(), pulled);
}

#[test]
fn token_texts() {
    assert_eq!(Keyword::Int.to_text(), "int");
    assert_eq!(Keyword::Void.to_text(), "void");
    assert_eq!(Keyword::Return.to_text(), "return");
    assert_eq!(Const::Int(-17).to_text(), "-17");
    assert_eq!(Const::Int(i64::MIN).to_text(), "-9223372036854775808");
    assert_eq!(Const::Int(0).to_text(), "0");
    assert_eq!(TokenKind::Identifier(String::from("main")).to_text(), "main");
    assert_eq!(TokenKind::Constant(Const::Int(120)).to_text(), "120");
    assert_eq!(TokenKind::Keyword(Keyword::Void).to_text(), "void");
    assert_eq!(TokenKind::OpenParenthesis.to_text(), "(");
    assert_eq!(TokenKind::CloseParenthesis.to_text(), ")");
    assert_eq!(TokenKind::OpenBrace.to_text(), "{");
    assert_eq!(TokenKind::CloseBrace.to_text(), "}");
    assert_eq!(TokenKind::Semicolon.to_text(), ";");
}

#[test]
fn span_constructors() {
    assert_eq!(Span::new(3, 9), Span { start: 3, end: 9 });
    assert_eq!(Span::single(8), Span { start: 8, end: 9 });
}

#[test]
fn spans_follow_one_another_within_the_text() {
    let src = "  int\u{2003}main(void)\t{ return 42 ; }\n";
    let tokens = tokenize(src).unwrap();
    assert_eq!(tokens.len(), 10);
    let mut end = 0;
    for token in &tokens {
        assert!(end <= token.span.start);
        assert!(token.span.start < token.span.end);
        assert!(token.span.end <= src.len());
        assert_eq!(&src[token.span.start..token.span.end], token.kind.to_text());
        end = token.span.end;
    }
}

#[test]
fn every_ascii_character_behind_a_digit() {
    for code in 0u8..128 {
        let c = code as char;
        let src = format!("1{}", c);
        let got = tokenize(&src);
        let one = Token { kind: TokenKind::Constant(Const::Int(1)), span: Span { start: 0, end: 1 } };
        let at = Span { start: 1, end: 2 };
        let punctuation = match c {
            '(' => Some(TokenKind::OpenParenthesis),
            ')' => Some(TokenKind::CloseParenthesis),
            '{' => Some(TokenKind::OpenBrace),
            '}' => Some(TokenKind::CloseBrace),
            ';' => Some(TokenKind::Semicolon),
            _ => None,
        };
        if c == ' ' || (9..=13).contains(&code) {
            assert_eq!(got, Ok(vec![one]), "{:?}", c);
        } else if c == '_' || c.is_ascii_lowercase() || c.is_ascii_uppercase() {
            assert_eq!(
                got,
                Err(LexerError { kind: LexerErrorKind::InvalidConstSuffix, span: at }),
                "{:?}",
                c
            );
        } else if c.is_ascii_digit() {
            let value = 10 + i64::from(code - b'0');
            assert_eq!(
                got,
                Ok(vec![Token {
                    kind: TokenKind::Constant(Const::Int(value)),
                    span: Span { start: 0, end: 2 },
                }]),
                "{:?}",
                c
            );
        } else if let Some(kind) = punctuation {
            assert_eq!(got, Ok(vec![one, Token { kind, span: at }]), "{:?}", c);
        } else {
            assert_eq!(
                got,
                Err(LexerError { kind: LexerErrorKind::UnexpectedCharacter(c), span: at }),
                "{:?}",
                c
            );
        }
    }
}
