//! The parser: recursive descent over the tokens that the lexer hands out,
//! one rule of the grammar for each kind of node.
//!
//! ```text
//! Program    := Function EOF
//! Function   := "int" Identifier "(" "void" ")" "{" Statement "}"
//! Statement  := "return" Expression ";"
//! Expression := IntegerConstant
//! ```
use vstd::prelude::*;
use crate::ast::{
    name_of, program_of, value_of, Exp, Function, FunctionView, Program, ProgramView, Statement,
};
use crate::error::{LexerError, ParseError, ParseErrorView};
use crate::lexer::{lemma_step_advances, point_at, step, tokens_from, tokens_of, Lexer};
use crate::span::Span;
use crate::text::{byte_len, lemma_byte_offset_bound};
use crate::token::{Const, Keyword, Token, TokenKind, TokenKindView, TokenView};

verus! {

/// What one rule of the grammar gives from some index on: the node or the
/// error, and the index at which reading goes on.
pub struct Parsed<T> {
    pub result: Result<T, ParseErrorView>,
    pub next: int,
}

/// The next token from index `i` on. The end of the source is an error at the
/// byte just behind the text; a lexical error is handed on.
pub open spec fn token_at(s: Seq<char>, i: int) -> Parsed<TokenView> {
    let st = step(s, i);
    Parsed {
        result: match st.item {
            None => Err(ParseErrorView::UnexpectedEof(point_at(s, st.next))),
            Some(Ok(token)) => Ok(token),
            Some(Err(e)) => Err(ParseErrorView::Lexer(e)),
        },
        next: st.next,
    }
}

/// The next token from index `i` on must be of kind `expected`.
pub open spec fn expect_at(s: Seq<char>, i: int, expected: TokenKindView) -> Parsed<()> {
    let t = token_at(s, i);
    Parsed {
        result: match t.result {
            Ok(token) => if token.kind == expected {
                Ok(())
            } else {
                Err(ParseErrorView::UnexpectedToken(token, expected))
            },
            Err(e) => Err(e),
        },
        next: t.next,
    }
}

/// From index `i` on there must be no token.
pub open spec fn eof_at(s: Seq<char>, i: int) -> Parsed<()> {
    let st = step(s, i);
    Parsed {
        result: match st.item {
            None => Ok(()),
            Some(Ok(token)) => Err(ParseErrorView::UnexpectedTrailing(token)),
            Some(Err(e)) => Err(ParseErrorView::Lexer(e)),
        },
        next: st.next,
    }
}

/// `Expression := IntegerConstant`
pub open spec fn exp_at(s: Seq<char>, i: int) -> Parsed<Exp> {
    let t = token_at(s, i);
    Parsed {
        result: match t.result {
            Ok(token) => match token.kind {
                TokenKindView::Constant(Const::Int(n)) => Ok(Exp::ConstantInt(n)),
                _ => Err(
                    ParseErrorView::UnexpectedToken(
                        token,
                        TokenKindView::Constant(Const::Int(0)),
                    ),
                ),
            },
            Err(e) => Err(e),
        },
        next: t.next,
    }
}

/// `Statement := "return" Expression ";"`
pub open spec fn statement_at(s: Seq<char>, i: int) -> Parsed<Statement> {
    let a = expect_at(s, i, TokenKindView::Keyword(Keyword::Return));
    match a.result {
        Err(e) => Parsed { result: Err(e), next: a.next },
        Ok(_) => {
            let b = exp_at(s, a.next);
            match b.result {
                Err(e) => Parsed { result: Err(e), next: b.next },
                Ok(exp) => {
                    let c = expect_at(s, b.next, TokenKindView::Semicolon);
                    match c.result {
                        Err(e) => Parsed { result: Err(e), next: c.next },
                        Ok(_) => Parsed { result: Ok(Statement::Return(exp)), next: c.next },
                    }
                },
            }
        },
    }
}

/// The name of a function: the next token must be an identifier.
pub open spec fn name_at(s: Seq<char>, i: int) -> Parsed<Seq<char>> {
    let t = token_at(s, i);
    Parsed {
        result: match t.result {
            Ok(token) => match token.kind {
                TokenKindView::Identifier(name) => Ok(name),
                _ => Err(
                    ParseErrorView::UnexpectedToken(
                        token,
                        TokenKindView::Identifier(Seq::empty()),
                    ),
                ),
            },
            Err(e) => Err(e),
        },
        next: t.next,
    }
}

/// `"int" Identifier`: the head of a function, up to its name.
pub open spec fn head_at(s: Seq<char>, i: int) -> Parsed<Seq<char>> {
    let a = expect_at(s, i, TokenKindView::Keyword(Keyword::Int));
    match a.result {
        Err(e) => Parsed { result: Err(e), next: a.next },
        Ok(_) => name_at(s, a.next),
    }
}

/// `"(" "void" ")" "{"`: from behind the name to the start of the body.
pub open spec fn parameters_at(s: Seq<char>, i: int) -> Parsed<()> {
    let a = expect_at(s, i, TokenKindView::OpenParenthesis);
    match a.result {
        Err(e) => Parsed { result: Err(e), next: a.next },
        Ok(_) => {
            let b = expect_at(s, a.next, TokenKindView::Keyword(Keyword::Void));
            match b.result {
                Err(e) => Parsed { result: Err(e), next: b.next },
                Ok(_) => {
                    let c = expect_at(s, b.next, TokenKindView::CloseParenthesis);
                    match c.result {
                        Err(e) => Parsed { result: Err(e), next: c.next },
                        Ok(_) => expect_at(s, c.next, TokenKindView::OpenBrace),
                    }
                },
            }
        },
    }
}

/// `Function := "int" Identifier "(" "void" ")" "{" Statement "}"`
pub open spec fn function_at(s: Seq<char>, i: int) -> Parsed<FunctionView> {
    let a = head_at(s, i);
    match a.result {
        Err(e) => Parsed { result: Err(e), next: a.next },
        Ok(name) => {
            let b = parameters_at(s, a.next);
            match b.result {
                Err(e) => Parsed { result: Err(e), next: b.next },
                Ok(_) => {
                    let c = statement_at(s, b.next);
                    match c.result {
                        Err(e) => Parsed { result: Err(e), next: c.next },
                        Ok(body) => {
                            let d = expect_at(s, c.next, TokenKindView::CloseBrace);
                            match d.result {
                                Err(e) => Parsed { result: Err(e), next: d.next },
                                Ok(_) => Parsed {
                                    result: Ok(FunctionView { name, body }),
                                    next: d.next,
                                },
                            }
                        },
                    }
                },
            }
        },
    }
}

/// `Program := Function EOF`
pub open spec fn program_at(s: Seq<char>, i: int) -> Parsed<ProgramView> {
    let a = function_at(s, i);
    match a.result {
        Err(e) => Parsed { result: Err(e), next: a.next },
        Ok(function) => {
            let b = eof_at(s, a.next);
            match b.result {
                Err(e) => Parsed { result: Err(e), next: b.next },
                Ok(_) => Parsed {
                    result: Ok(ProgramView::FunctionDefinition(function)),
                    next: b.next,
                },
            }
        },
    }
}

/// The program that a source text is, or the first error in it.
pub open spec fn parse_source(s: Seq<char>) -> Result<ProgramView, ParseErrorView> {
    program_at(s, 0).result
}

/// The mathematical value of what a rule of the parser returns.
pub open spec fn result_view<T: View>(r: Result<T, ParseError>) -> Result<T::V, ParseErrorView> {
    match r {
        Ok(node) => Ok(node@),
        Err(e) => Err(e@),
    }
}

/// A parser over the tokens of one lexer, which it pulls one at a time.
pub struct Parser<'a> {
    lexer: Lexer<'a>,
}

impl<'a> Parser<'a> {
    /// The text that is parsed.
    pub closed spec fn source(&self) -> Seq<char> {
        self.lexer.source()
    }

    /// The index of the next character that the lexer will read.
    pub closed spec fn cursor(&self) -> int {
        self.lexer.cursor()
    }

    /// The lexer underneath is well formed.
    pub closed spec fn wf(&self) -> bool {
        self.lexer.wf()
    }

    /// The cursor of a well-formed parser lies within its text, and the
    /// text's bytes can be counted.
    pub proof fn lemma_cursor_in_source(&self)
        requires
            self.wf(),
        ensures
            0 <= self.cursor() <= self.source().len(),
            byte_len(self.source()) < usize::MAX,
    {
        self.lexer.lemma_cursor_in_source();
    }

    /// A parser that pulls its tokens from `lexer`.
    pub fn new(lexer: Lexer<'a>) -> (parser: Self)
        ensures
            parser.source() == lexer.source(),
            parser.cursor() == lexer.cursor(),
            parser.wf() == lexer.wf(),
    {
        Self { lexer }
    }

    /// Parses a whole program.
    pub fn parse(&mut self) -> (r: Result<Program, ParseError>)
        requires
            old(self).wf(),
        ensures
            final(self).wf(),
            final(self).source() == old(self).source(),
            final(self).cursor() == program_at(old(self).source(), old(self).cursor()).next,
            result_view(r) == program_at(old(self).source(), old(self).cursor()).result,
    {
        self.parse_program()
    }

    /// Pulls the next token, which must be of kind `expected`.
    pub fn expect(&mut self, expected: TokenKind) -> (r: Result<(), ParseError>)
        requires
            old(self).wf(),
        ensures
            final(self).wf(),
            final(self).source() == old(self).source(),
            final(self).cursor() == expect_at(
                old(self).source(),
                old(self).cursor(),
                expected@,
            ).next,
            result_view(r) == expect_at(old(self).source(), old(self).cursor(), expected@).result,
    {
        match self.next() {
            Ok(token) => {
                if token.kind == expected {
                    Ok(())
                } else {
                    Err(ParseError::UnexpectedToken(token, expected))
                }
            },
            Err(e) => Err(e),
        }
    }

    /// Checks that no token is left.
    pub fn expect_eof(&mut self) -> (r: Result<(), ParseError>)
        requires
            old(self).wf(),
        ensures
            final(self).wf(),
            final(self).source() == old(self).source(),
            final(self).cursor() == eof_at(old(self).source(), old(self).cursor()).next,
            result_view(r) == eof_at(old(self).source(), old(self).cursor()).result,
    {
        match self.lexer.next() {
            None => Ok(()),
            Some(Ok(token)) => Err(ParseError::UnexpectedTrailing(token)),
            Some(Err(e)) => Err(ParseError::Lexer(e)),
        }
    }

    /// Pulls the next token. Where the source has ended, the error's span is
    /// the one byte just behind the text.
    pub fn next(&mut self) -> (r: Result<Token, ParseError>)
        requires
            old(self).wf(),
        ensures
            final(self).wf(),
            final(self).source() == old(self).source(),
            final(self).cursor() == token_at(old(self).source(), old(self).cursor()).next,
            result_view(r) == token_at(old(self).source(), old(self).cursor()).result,
            r is Err && r->Err_0 is UnexpectedEof ==> r->Err_0->UnexpectedEof_0.start == byte_len(
                final(self).source(),
            ) && r->Err_0->UnexpectedEof_0.end == byte_len(final(self).source()) + 1,
    {
        proof {
            self.lexer.lemma_cursor_in_source();
            lemma_step_advances(self.lexer.source(), self.lexer.cursor());
            if token_at(self.source(), self.cursor()).result is Err && token_at(
                self.source(),
                self.cursor(),
            ).result->Err_0 is UnexpectedEof {
                lemma_eof_span(self.source(), self.cursor());
            }
        }
        match self.lexer.next() {
            None => Err(ParseError::UnexpectedEof(Span::single(self.lexer.pos()))),
            Some(Ok(token)) => Ok(token),
            Some(Err(e)) => Err(ParseError::Lexer(e)),
        }
    }

    /// `Program := Function EOF`
    pub fn parse_program(&mut self) -> (r: Result<Program, ParseError>)
        requires
            old(self).wf(),
        ensures
            final(self).wf(),
            final(self).source() == old(self).source(),
            final(self).cursor() == program_at(old(self).source(), old(self).cursor()).next,
            result_view(r) == program_at(old(self).source(), old(self).cursor()).result,
    {
        let function = match self.parse_function() {
            Ok(function) => function,
            Err(e) => {
                return Err(e);
            },
        };
        match self.expect_eof() {
            Ok(_) => Ok(Program::FunctionDefinition(function)),
            Err(e) => Err(e),
        }
    }

    /// `Function := "int" Identifier "(" "void" ")" "{" Statement "}"`
    pub fn parse_function(&mut self) -> (r: Result<Function, ParseError>)
        requires
            old(self).wf(),
        ensures
            final(self).wf(),
            final(self).source() == old(self).source(),
            final(self).cursor() == function_at(old(self).source(), old(self).cursor()).next,
            result_view(r) == function_at(old(self).source(), old(self).cursor()).result,
    {
        self.expect(TokenKind::Keyword(Keyword::Int))?;
        let token = self.next()?;
        let name = match token.kind {
            TokenKind::Identifier(name) => name,
            _ => {
                return Err(
                    ParseError::UnexpectedToken(token, TokenKind::Identifier(String::new())),
                );
            },
        };
        self.expect(TokenKind::OpenParenthesis)?;
        self.expect(TokenKind::Keyword(Keyword::Void))?;
        self.expect(TokenKind::CloseParenthesis)?;
        self.expect(TokenKind::OpenBrace)?;
        let body = self.parse_statement()?;
        self.expect(TokenKind::CloseBrace)?;
        Ok(Function::Function { name, body })
    }

    /// `Statement := "return" Expression ";"`
    pub fn parse_statement(&mut self) -> (r: Result<Statement, ParseError>)
        requires
            old(self).wf(),
        ensures
            final(self).wf(),
            final(self).source() == old(self).source(),
            final(self).cursor() == statement_at(old(self).source(), old(self).cursor()).next,
            result_view(r) == statement_at(old(self).source(), old(self).cursor()).result,
    {
        self.expect(TokenKind::Keyword(Keyword::Return))?;
        let exp = self.parse_exp()?;
        self.expect(TokenKind::Semicolon)?;
        Ok(Statement::Return(exp))
    }

    /// `Expression := IntegerConstant`
    pub fn parse_exp(&mut self) -> (r: Result<Exp, ParseError>)
        requires
            old(self).wf(),
        ensures
            final(self).wf(),
            final(self).source() == old(self).source(),
            final(self).cursor() == exp_at(old(self).source(), old(self).cursor()).next,
            result_view(r) == exp_at(old(self).source(), old(self).cursor()).result,
    {
        let token = self.next()?;
        match token.kind {
            TokenKind::Constant(Const::Int(n)) => Ok(Exp::ConstantInt(n)),
            _ => Err(ParseError::UnexpectedToken(token, TokenKind::Constant(Const::Int(0)))),
        }
    }
}

impl Exp {
    /// `Expression := IntegerConstant`
    pub fn parse(parser: &mut Parser) -> (r: Result<Exp, ParseError>)
        requires
            old(parser).wf(),
        ensures
            final(parser).wf(),
            final(parser).source() == old(parser).source(),
            final(parser).cursor() == exp_at(old(parser).source(), old(parser).cursor()).next,
            result_view(r) == exp_at(old(parser).source(), old(parser).cursor()).result,
    {
        parser.parse_exp()
    }
}

impl Statement {
    /// `Statement := "return" Expression ";"`
    pub fn parse(parser: &mut Parser) -> (r: Result<Statement, ParseError>)
        requires
            old(parser).wf(),
        ensures
            final(parser).wf(),
            final(parser).source() == old(parser).source(),
            final(parser).cursor() == statement_at(
                old(parser).source(),
                old(parser).cursor(),
            ).next,
            result_view(r) == statement_at(old(parser).source(), old(parser).cursor()).result,
    {
        parser.parse_statement()
    }
}

impl Function {
    /// `Function := "int" Identifier "(" "void" ")" "{" Statement "}"`
    pub fn parse(parser: &mut Parser) -> (r: Result<Function, ParseError>)
        requires
            old(parser).wf(),
        ensures
            final(parser).wf(),
            final(parser).source() == old(parser).source(),
            final(parser).cursor() == function_at(
                old(parser).source(),
                old(parser).cursor(),
            ).next,
            result_view(r) == function_at(old(parser).source(), old(parser).cursor()).result,
    {
        parser.parse_function()
    }
}

impl Program {
    /// `Program := Function EOF`
    pub fn parse(parser: &mut Parser) -> (r: Result<Program, ParseError>)
        requires
            old(parser).wf(),
        ensures
            final(parser).wf(),
            final(parser).source() == old(parser).source(),
            final(parser).cursor() == program_at(old(parser).source(), old(parser).cursor()).next,
            result_view(r) == program_at(old(parser).source(), old(parser).cursor()).result,
    {
        parser.parse_program()
    }
}

/// The kinds of the tokens of a program whose function is called `name` and
/// returns `n`, in order.
pub open spec fn program_kinds(name: Seq<char>, n: i64) -> Seq<TokenKindView> {
    seq![
        TokenKindView::Keyword(Keyword::Int),
        TokenKindView::Identifier(name),
        TokenKindView::OpenParenthesis,
        TokenKindView::Keyword(Keyword::Void),
        TokenKindView::CloseParenthesis,
        TokenKindView::OpenBrace,
        TokenKindView::Keyword(Keyword::Return),
        TokenKindView::Constant(Const::Int(n)),
        TokenKindView::Semicolon,
        TokenKindView::CloseBrace,
    ]
}

/// The kinds of a list of tokens, in order.
pub open spec fn kinds_of(tokens: Seq<TokenView>) -> Seq<TokenKindView> {
    tokens.map_values(|t: TokenView| t.kind)
}

/// Where the tokens from index `i` on are `tokens`, the first step from `i`
/// hands out the first of them and the rest follow from where it ends; where
/// there are none, the step finds the end of the source.
pub proof fn lemma_tokens_unfold(s: Seq<char>, i: int, tokens: Seq<TokenView>)
    requires
        0 <= i <= s.len(),
        tokens_from(s, i) == Ok::<Seq<TokenView>, LexerError>(tokens),
    ensures
        0 <= step(s, i).next <= s.len(),
        tokens.len() == 0 ==> step(s, i).item is None,
        tokens.len() > 0 ==> step(s, i).item == Some(Ok::<TokenView, LexerError>(tokens[0]))
            && tokens_from(s, step(s, i).next) == Ok::<Seq<TokenView>, LexerError>(
            tokens.drop_first(),
        ),
{
    lemma_step_advances(s, i);
    match step(s, i).item {
        Some(Ok(token)) => {
            let rest = tokens_from(s, step(s, i).next)->Ok_0;
            assert(tokens == seq![token] + rest);
            assert(tokens.drop_first() =~= rest);
        },
        _ => {},
    }
}

/// A source whose tokens are those of a program, and no more, parses to
/// that program.
#[verifier::rlimit(60)]
pub proof fn lemma_program_tokens_parse(s: Seq<char>, name: Seq<char>, n: i64)
    requires
        tokens_of(s) is Ok,
        kinds_of(tokens_of(s)->Ok_0) == program_kinds(name, n),
    ensures
        parse_source(s) == Ok::<ProgramView, ParseErrorView>(program_of(name, n)),
{
    let t0 = tokens_of(s)->Ok_0;
    let kinds = program_kinds(name, n);
    assert(t0.len() == 10) by {
        assert(kinds_of(t0).len() == kinds.len());
    }
    assert forall|k: int| 0 <= k < 10 implies (#[trigger] t0[k]).kind == kinds[k] by {
        assert(kinds_of(t0)[k] == t0[k].kind);
    }
    let i0 = 0int;
    lemma_tokens_unfold(s, i0, t0);
    let i1 = step(s, i0).next;
    let t1 = t0.drop_first();
    lemma_tokens_unfold(s, i1, t1);
    let i2 = step(s, i1).next;
    let t2 = t1.drop_first();
    lemma_tokens_unfold(s, i2, t2);
    let i3 = step(s, i2).next;
    let t3 = t2.drop_first();
    lemma_tokens_unfold(s, i3, t3);
    let i4 = step(s, i3).next;
    let t4 = t3.drop_first();
    lemma_tokens_unfold(s, i4, t4);
    let i5 = step(s, i4).next;
    let t5 = t4.drop_first();
    lemma_tokens_unfold(s, i5, t5);
    let i6 = step(s, i5).next;
    let t6 = t5.drop_first();
    lemma_tokens_unfold(s, i6, t6);
    let i7 = step(s, i6).next;
    let t7 = t6.drop_first();
    lemma_tokens_unfold(s, i7, t7);
    let i8 = step(s, i7).next;
    let t8 = t7.drop_first();
    lemma_tokens_unfold(s, i8, t8);
    let i9 = step(s, i8).next;
    let t9 = t8.drop_first();
    lemma_tokens_unfold(s, i9, t9);
    let i10 = step(s, i9).next;
    let t10 = t9.drop_first();
    lemma_tokens_unfold(s, i10, t10);
    assert(t1[0] == t0[1] && t2[0] == t0[2] && t3[0] == t0[3] && t4[0] == t0[4] && t5[0] == t0[5]
        && t6[0] == t0[6] && t7[0] == t0[7] && t8[0] == t0[8] && t9[0] == t0[9]);
    assert(head_at(s, i0) == Parsed { result: Ok::<Seq<char>, ParseErrorView>(name), next: i2 });
    assert(parameters_at(s, i2) == Parsed { result: Ok::<(), ParseErrorView>(()), next: i6 });
    assert(statement_at(s, i6) == Parsed {
        result: Ok::<Statement, ParseErrorView>(Statement::Return(Exp::ConstantInt(n))),
        next: i9,
    });
    assert(function_at(s, i0).next == i10);
    assert(eof_at(s, i10).result == Ok::<(), ParseErrorView>(()));
}

/// A source that parses has no lexical error, and its tokens are those of
/// the program it parses to, and no more.
pub proof fn lemma_parsed_source_tokens(s: Seq<char>)
    requires
        parse_source(s) is Ok,
    ensures
        tokens_of(s) is Ok,
        kinds_of(tokens_of(s)->Ok_0) == program_kinds(
            name_of(parse_source(s)->Ok_0),
            value_of(parse_source(s)->Ok_0),
        ),
        parse_source(s)->Ok_0 == program_of(
            name_of(parse_source(s)->Ok_0),
            value_of(parse_source(s)->Ok_0),
        ),
{
    let program = parse_source(s)->Ok_0;
    let name = name_of(program);
    let n = value_of(program);
    let i0 = 0int;
    lemma_step_advances(s, i0);
    let i1 = step(s, i0).next;
    lemma_step_advances(s, i1);
    let i2 = step(s, i1).next;
    assert(head_at(s, i0).result is Ok && head_at(s, i0).next == i2);
    lemma_step_advances(s, i2);
    let i3 = step(s, i2).next;
    lemma_step_advances(s, i3);
    let i4 = step(s, i3).next;
    lemma_step_advances(s, i4);
    let i5 = step(s, i4).next;
    lemma_step_advances(s, i5);
    let i6 = step(s, i5).next;
    assert(parameters_at(s, i2).result is Ok && parameters_at(s, i2).next == i6);
    lemma_step_advances(s, i6);
    let i7 = step(s, i6).next;
    lemma_step_advances(s, i7);
    let i8 = step(s, i7).next;
    lemma_step_advances(s, i8);
    let i9 = step(s, i8).next;
    assert(statement_at(s, i6).result is Ok && statement_at(s, i6).next == i9);
    lemma_step_advances(s, i9);
    let i10 = step(s, i9).next;
    assert(function_at(s, i0).result is Ok && function_at(s, i0).next == i10);
    lemma_step_advances(s, i10);
    assert(eof_at(s, i10).result is Ok);
    let k0 = step(s, i0).item->0->Ok_0;
    let k1 = step(s, i1).item->0->Ok_0;
    let k2 = step(s, i2).item->0->Ok_0;
    let k3 = step(s, i3).item->0->Ok_0;
    let k4 = step(s, i4).item->0->Ok_0;
    let k5 = step(s, i5).item->0->Ok_0;
    let k6 = step(s, i6).item->0->Ok_0;
    let k7 = step(s, i7).item->0->Ok_0;
    let k8 = step(s, i8).item->0->Ok_0;
    let k9 = step(s, i9).item->0->Ok_0;
    let e = Seq::<TokenView>::empty();
    assert(tokens_from(s, i10) == Ok::<Seq<TokenView>, LexerError>(e));
    assert(tokens_from(s, i9) == Ok::<Seq<TokenView>, LexerError>(seq![k9] + e));
    assert(tokens_from(s, i8) == Ok::<Seq<TokenView>, LexerError>(seq![k8] + (seq![k9] + e)));
    let r8 = seq![k8] + (seq![k9] + e);
    assert(tokens_from(s, i7) == Ok::<Seq<TokenView>, LexerError>(seq![k7] + r8));
    let r7 = seq![k7] + r8;
    assert(tokens_from(s, i6) == Ok::<Seq<TokenView>, LexerError>(seq![k6] + r7));
    let r6 = seq![k6] + r7;
    assert(tokens_from(s, i5) == Ok::<Seq<TokenView>, LexerError>(seq![k5] + r6));
    let r5 = seq![k5] + r6;
    assert(tokens_from(s, i4) == Ok::<Seq<TokenView>, LexerError>(seq![k4] + r5));
    let r4 = seq![k4] + r5;
    assert(tokens_from(s, i3) == Ok::<Seq<TokenView>, LexerError>(seq![k3] + r4));
    let r3 = seq![k3] + r4;
    assert(tokens_from(s, i2) == Ok::<Seq<TokenView>, LexerError>(seq![k2] + r3));
    let r2 = seq![k2] + r3;
    assert(tokens_from(s, i1) == Ok::<Seq<TokenView>, LexerError>(seq![k1] + r2));
    let r1 = seq![k1] + r2;
    assert(tokens_from(s, i0) == Ok::<Seq<TokenView>, LexerError>(seq![k0] + r1));
    let r0 = seq![k0] + r1;
    assert(r0 =~= seq![k0, k1, k2, k3, k4, k5, k6, k7, k8, k9]);
    assert(kinds_of(r0) =~= program_kinds(name, n));
}

/// Where the source ends in place of a token, the span of the error is the
/// one byte just behind the text.
pub proof fn lemma_eof_span(s: Seq<char>, i: int)
    requires
        0 <= i <= s.len(),
        token_at(s, i).result is Err,
        token_at(s, i).result->Err_0 is UnexpectedEof,
    ensures
        token_at(s, i).result->Err_0 == ParseErrorView::UnexpectedEof(
            Span { start: byte_len(s) as usize, end: (byte_len(s) + 1) as usize },
        ),
        byte_len(s) < usize::MAX ==> token_at(s, i).result->Err_0.span().start == byte_len(s)
            && token_at(s, i).result->Err_0.span().end == byte_len(s) + 1,
{
    lemma_step_advances(s, i);
    lemma_byte_offset_bound(s, i);
}

/// Parsing is a function of the text alone: whatever two runs of
/// [`Parser::parse`] from the start of equal texts return, it is the same
/// program or the same error.
pub proof fn lemma_parse_deterministic(
    first_src: Seq<char>,
    second_src: Seq<char>,
    first: Result<Program, ParseError>,
    second: Result<Program, ParseError>,
)
    requires
        first_src == second_src,
        result_view(first) == parse_source(first_src),
        result_view(second) == parse_source(second_src),
    ensures
        result_view(first) == result_view(second),
{
}

} // verus!
