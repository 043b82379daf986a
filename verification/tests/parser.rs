use rcc::ast::{Exp, Function, Program, Statement};
use rcc::error::{LexerError, LexerErrorKind, ParseError};
use rcc::lexer::Lexer;
use rcc::parser::Parser;
use rcc::span::Span;
use rcc::token::{Const, Keyword, Token, TokenKind};

#[test]
fn exp_parse_const_int() {
    let lexer = Lexer::new("5");
    let mut parser = Parser::new(lexer);
    assert!(matches!(Exp::parse(&mut parser), Ok(Exp::ConstantInt(5))));
}

#[test]
fn function_parse_return() {
    let file = "int main(void) {
            return 2;
        }";
    let lexer = Lexer::new(file);
    let mut parser = Parser::new(lexer);
    assert!(matches!(
        Function::parse(&mut parser),
        Ok(Function::Function {
            name: identifier,
            body: Statement::Return(Exp::ConstantInt(2))
        }) if identifier == "main"
    ));
}

#[test]
fn expect_semicolon() {
    let lexer = Lexer::new(";");
    let mut parser = Parser::new(lexer);
    assert!(matches!(parser.expect(TokenKind::Semicolon), Ok(())));
}

#[test]
fn mod_return_int() {
    let file = "int main(void) {
                return 2;
            }";
    let lexer = Lexer::new(file);
    let mut parser = Parser::new(lexer);
    assert!(matches!(
        parser.parse_program(),
        Ok(Program::FunctionDefinition(Function::Function {
            name: identifier,
            body: Statement::Return(Exp::ConstantInt(2))
        })) if identifier == "main"
    ));
}

#[test]
fn mod_return_int_missing_semicolon() {
    let file = "int main(void) {
                return 2
            }";
    let lexer = Lexer::new(file);
    let mut parser = Parser::new(lexer);
    assert!(matches!(
        parser.parse_program(),
        Err(ParseError::UnexpectedToken(Token { kind, span: _ }, TokenKind::Semicolon ))
        if kind == TokenKind::CloseBrace
    ));
}

#[test]
fn mod_parse_return() {
    let file = "int main(void) {
                return 2;
            }";
    let lexer = Lexer::new(file);
    let mut parser = Parser::new(lexer);
    assert!(matches!(
        parser.parse_function(),
        Ok(Function::Function {
            name: identifier,
            body: Statement::Return(Exp::ConstantInt(2))
        }) if identifier == "main"
    ));
}

#[test]
fn parse_return() {
    let lexer = Lexer::new("return 2;");
    let mut parser = Parser::new(lexer);
    assert!(matches!(
        parser.parse_statement(),
        Ok(Statement::Return(Exp::ConstantInt(2)))
    ));
}

#[test]
fn mod_parse_missing_semicolon() {
    let lexer = Lexer::new("return 2 2");
    let mut parser = Parser::new(lexer);
    assert!(matches!(
        parser.parse_statement(),
        Err(ParseError::UnexpectedToken(
            Token {
                kind,
                span: _
            },
            TokenKind::Semicolon
        ))
        if kind == TokenKind::Constant(Const::Int(2))));
}

#[test]
fn mod_parse_missing_semicolon_eof() {
    let lexer = Lexer::new("return 2");
    let mut parser = Parser::new(lexer);
    assert!(matches!(
        parser.parse_statement(),
        Err(ParseError::UnexpectedEof(Span { start, end }))
        if start == 8 && end == 9
    ));
}

#[test]
fn mod_parse_const_int() {
    let lexer = Lexer::new("5");
    let mut parser = Parser::new(lexer);
    assert!(matches!(parser.parse_exp(), Ok(Exp::ConstantInt(5))));
}

#[test]
fn program_return_int() {
    let file = "int main(void) {
            return 2;
        }";
    let lexer = Lexer::new(file);
    let mut parser = Parser::new(lexer);
    assert!(matches!(
        Program::parse(&mut parser),
        Ok(Program::FunctionDefinition(Function::Function {
            name: identifier,
            body: Statement::Return(Exp::ConstantInt(2))
        })) if identifier == "main"
    ));
}

#[test]
fn program_return_int_missing_semicolon() {
    let file = "int main(void) {
            return 2
        }";
    let lexer = Lexer::new(file);
    let mut parser = Parser::new(lexer);
    assert!(matches!(
        Program::parse(&mut parser),
        Err(ParseError::UnexpectedToken(Token { kind: TokenKind::CloseBrace, span: _ }, _))
    ));
}

#[test]
fn statement_parse_return() {
    let lexer = Lexer::new("return 2;");
    let mut parser = Parser::new(lexer);
    assert!(matches!(
        Statement::parse(&mut parser),
        Ok(Statement::Return(Exp::ConstantInt(2)))
    ));
}

#[test]
fn statement_parse_missing_semicolon() {
    let lexer = Lexer::new("return 2 2");
    let mut parser = Parser::new(lexer);
    assert!(matches!(
        Statement::parse(&mut parser),
        Err(ParseError::UnexpectedToken(
            Token { kind: TokenKind::Constant(Const::Int(2)), span: _ },
            _
        ))
    ));
}

#[test]
fn statement_parse_missing_semicolon_eof() {
    let lexer = Lexer::new("return 2");
    let mut parser = Parser::new(lexer);
    assert!(matches!(
        Statement::parse(&mut parser),
        Err(ParseError::UnexpectedEof(_))
    ));
}

fn parse(src: &str) -> Result<Program, ParseError> {
    Parser::new(Lexer::new(src)).parse()
}

fn main_returning(n: i64) -> Program {
    Program::FunctionDefinition(Function::Function {
        name: String::from("main"),
        body: Statement::Return(Exp::ConstantInt(n)),
    })
}

#[test]
fn one_line_program_parses() {
    assert_eq!(parse("int main(void) { return 2; }").unwrap(), main_returning(2));
}

#[test]
fn missing_semicolon_names_what_was_found_and_what_was_needed() {
    let err = parse("int main(void) { return 2\n}").unwrap_err();
    assert_eq!(
        err,
        ParseError::UnexpectedToken(
            Token { kind: TokenKind::CloseBrace, span: Span { start: 26, end: 27 } },
            TokenKind::Semicolon,
        )
    );
    assert_eq!(*err.span(), Span { start: 26, end: 27 });
}

#[test]
fn truncated_statement_ends_one_byte_behind_the_text() {
    let mut parser = Parser::new(Lexer::new("return 2"));
    let err = parser.parse_statement().unwrap_err();
    assert_eq!(err, ParseError::UnexpectedEof(Span { start: 8, end: 9 }));
}

#[test]
fn end_of_source_lies_behind_trailing_whitespace() {
    let mut parser = Parser::new(Lexer::new("return 2 \n"));
    let err = parser.parse_statement().unwrap_err();
    assert_eq!(err, ParseError::UnexpectedEof(Span { start: 10, end: 11 }));
}

#[test]
fn empty_source_ends_at_once() {
    assert_eq!(parse("").unwrap_err(), ParseError::UnexpectedEof(Span { start: 0, end: 1 }));
}

#[test]
fn trailing_token_is_refused() {
    let err = parse("int main(void) { return 2; } int").unwrap_err();
    assert_eq!(
        err,
        ParseError::UnexpectedTrailing(Token {
            kind: TokenKind::Keyword(Keyword::Int),
            span: Span { start: 29, end: 32 },
        })
    );
}

#[test]
fn trailing_whitespace_is_accepted() {
    assert_eq!(parse("int f(void){return 0;}\n\n").unwrap(), {
        Program::FunctionDefinition(Function::Function {
            name: String::from("f"),
            body: Statement::Return(Exp::ConstantInt(0)),
        })
    });
}

#[test]
fn lexical_error_is_handed_on() {
    let err = parse("int main(void) { return 2x; }").unwrap_err();
    let inner = LexerError {
        kind: LexerErrorKind::InvalidConstSuffix,
        span: Span { start: 25, end: 26 },
    };
    assert_eq!(err, ParseError::Lexer(inner));
    assert_eq!(*err.span(), Span { start: 25, end: 26 });
    assert_eq!(*inner.span(), Span { start: 25, end: 26 });
}

#[test]
fn lexical_error_behind_the_program_is_handed_on() {
    let err = parse("int main(void) { return 2; } $").unwrap_err();
    assert_eq!(
        err,
        ParseError::Lexer(LexerError {
            kind: LexerErrorKind::UnexpectedCharacter('$'),
            span: Span { start: 29, end: 30 },
        })
    );
}

#[test]
fn keyword_in_place_of_the_name_is_refused() {
    let err = parse("int return(void) { return 2; }").unwrap_err();
    assert_eq!(
        err,
        ParseError::UnexpectedToken(
            Token { kind: TokenKind::Keyword(Keyword::Return), span: Span { start: 4, end: 10 } },
            TokenKind::Identifier(String::new()),
        )
    );
}

#[test]
fn identifier_in_place_of_the_constant_is_refused() {
    let err = parse("int main(void) { return x; }").unwrap_err();
    assert_eq!(
        err,
        ParseError::UnexpectedToken(
            Token {
                kind: TokenKind::Identifier(String::from("x")),
                span: Span { start: 24, end: 25 },
            },
            TokenKind::Constant(Const::Int(0)),
        )
    );
}

#[test]
fn each_token_of_the_head_is_needed() {
    let expected = |src: &str| match parse(src).unwrap_err() {
        ParseError::UnexpectedToken(_, expected) => expected,
        other => panic!("{:?}", other),
    };
    assert_eq!(expected("void main(void) { return 2; }"), TokenKind::Keyword(Keyword::Int));
    assert_eq!(expected("int main{void) { return 2; }"), TokenKind::OpenParenthesis);
    assert_eq!(expected("int main() { return 2; }"), TokenKind::Keyword(Keyword::Void));
    assert_eq!(expected("int main(void { return 2; }"), TokenKind::CloseParenthesis);
    assert_eq!(expected("int main(void) return 2; }"), TokenKind::OpenBrace);
    assert_eq!(expected("int main(void) { 2; }"), TokenKind::Keyword(Keyword::Return));
    assert_eq!(expected("int main(void) { return 2; ;"), TokenKind::CloseBrace);
}

#[test]
fn parsing_twice_gives_the_same_result() {
    for src in ["int main(void) { return 2; }", "int main(void) { return 2 }", "int 1x"] {
        assert_eq!(parse(src), parse(src));
    }
}

#[test]
fn parser_pulls_tokens_one_at_a_time() {
    let mut parser = Parser::new(Lexer::new("int @"));
    assert_eq!(
        parser.next(),
        Ok(Token { kind: TokenKind::Keyword(Keyword::Int), span: Span { start: 0, end: 3 } })
    );
    assert!(matches!(parser.next(), Err(ParseError::Lexer(_))));
    let mut parser = Parser::new(Lexer::new(" "));
    assert_eq!(parser.expect_eof(), Ok(()));
    let mut parser = Parser::new(Lexer::new(" ;"));
    assert!(matches!(parser.expect_eof(), Err(ParseError::UnexpectedTrailing(_))));
}

#[test]
fn lexical_error_becomes_a_parse_error() {
    let inner = LexerError {
        kind: LexerErrorKind::InvalidIntegerLiteral,
        span: Span { start: 1, end: 30 },
    };
    assert_eq!(ParseError::from(inner), ParseError::Lexer(inner));
}
