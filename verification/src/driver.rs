//! The pipeline as a whole: from source text to assembly text, or as far
//! as the caller asks.
use vstd::prelude::*;
use crate::assembly::{lower_program, Instr, Operand, Program};
use crate::ast::{name_of, program_of, value_of};
use crate::emit::{
    epilogue, export_line, instr_text, label_line, lemma_emitted_lines, program_text, symbol,
    Target,
};
use crate::error::{CompilerError, CompilerErrorView, ParseError, ParseErrorView};
use crate::lexer::{tokenize, tokens_of, Lexer};
use crate::parser::{
    kinds_of, lemma_program_tokens_parse, parse_source, program_kinds, Parser,
};
use crate::text::byte_len;

verus! {

/// How far the pipeline runs.
#[derive(Debug, Clone, Copy, PartialEq, Eq, Structural)]
pub enum Stage {
    /// Read the tokens, and stop.
    Lex,
    /// Read the tokens and parse them, and stop.
    Parse,
    /// Lex, parse and lower to the assembly model, and stop.
    Codegen,
    /// Run to the end and hand out the assembly text.
    Emit,
}

/// The assembly text of a source text for `target`, or the first error in
/// the source.
pub open spec fn compiled(s: Seq<char>, target: Target) -> Result<Seq<char>, ParseErrorView> {
    match parse_source(s) {
        Ok(program) => Ok(program_text(lower_program(program), target)),
        Err(e) => Err(e),
    }
}

/// What a run up to `stage` gives: the assembly text where it runs to the
/// end, nothing where it stops before, and the first error met on the way.
pub open spec fn outcome(stage: Stage, target: Target, s: Seq<char>) -> Result<
    Option<Seq<char>>,
    CompilerErrorView,
> {
    match stage {
        Stage::Lex => match tokens_of(s) {
            Ok(_) => Ok(None),
            Err(e) => Err(CompilerErrorView::Lexer(e)),
        },
        Stage::Parse | Stage::Codegen => match parse_source(s) {
            Ok(_) => Ok(None),
            Err(e) => Err(CompilerErrorView::Parser(e)),
        },
        Stage::Emit => match compiled(s, target) {
            Ok(text) => Ok(Some(text)),
            Err(e) => Err(CompilerErrorView::Parser(e)),
        },
    }
}

/// The mathematical value of what a run returns.
pub open spec fn outcome_view(r: Result<Option<String>, CompilerError>) -> Result<
    Option<Seq<char>>,
    CompilerErrorView,
> {
    match r {
        Ok(None) => Ok(None),
        Ok(Some(text)) => Ok(Some(text@)),
        Err(e) => Err(e@),
    }
}

/// Parses `src` and lowers it to the assembly model.
pub fn codegen(src: &str) -> (r: Result<Program, ParseError>)
    requires
        byte_len(src@) < usize::MAX,
    ensures
        match r {
            Ok(program) => parse_source(src@) is Ok && program@ == lower_program(
                parse_source(src@)->Ok_0,
            ),
            Err(e) => parse_source(src@) == Err::<crate::ast::ProgramView, ParseErrorView>(e@),
        },
{
    let lexer = Lexer::new(src);
    let mut parser = Parser::new(lexer);
    match parser.parse() {
        Ok(tree) => Ok(Program::lower(tree)),
        Err(e) => Err(e),
    }
}

/// Compiles `src` to assembly text for `target`. The text of a source that
/// parses is one line that exports the symbol, one label with the same
/// symbol, one move of the constant, one `ret`, and what ends the text for
/// the target, in this order and with nothing in between.
pub fn compile(src: &str, target: Target) -> (r: Result<String, ParseError>)
    requires
        byte_len(src@) < usize::MAX,
    ensures
        match r {
            Ok(text) => compiled(src@, target) == Ok::<Seq<char>, ParseErrorView>(text@),
            Err(e) => compiled(src@, target) == Err::<Seq<char>, ParseErrorView>(e@),
        },
        r is Ok ==> parse_source(src@) is Ok && r->Ok_0@ == export_line(
            symbol(name_of(parse_source(src@)->Ok_0), target),
        ) + label_line(symbol(name_of(parse_source(src@)->Ok_0), target)) + instr_text(
            Instr::Mov {
                src: Operand::Register,
                dst: Operand::Imm(value_of(parse_source(src@)->Ok_0)),
            },
            1,
        ) + instr_text(Instr::Ret, 1) + epilogue(target),
{
    proof {
        if parse_source(src@) is Ok {
            lemma_compiled_lines(src@, target);
        }
    }
    match codegen(src) {
        Ok(program) => Ok(program.to_text(target)),
        Err(e) => Err(e),
    }
}

/// Runs the pipeline on `src` up to `stage`.
pub fn run_compiler(stage: Stage, target: Target, src: &str) -> (r: Result<
    Option<String>,
    CompilerError,
>)
    requires
        byte_len(src@) < usize::MAX,
    ensures
        outcome_view(r) == outcome(stage, target, src@),
{
    match stage {
        Stage::Lex => match tokenize(src) {
            Ok(_) => Ok(None),
            Err(e) => Err(CompilerError::Lexer(e)),
        },
        Stage::Parse => {
            let lexer = Lexer::new(src);
            let mut parser = Parser::new(lexer);
            match parser.parse() {
                Ok(_) => Ok(None),
                Err(e) => Err(CompilerError::Parser(e)),
            }
        },
        Stage::Codegen => match codegen(src) {
            Ok(_) => Ok(None),
            Err(e) => Err(CompilerError::Parser(e)),
        },
        Stage::Emit => match compile(src, target) {
            Ok(text) => Ok(Some(text)),
            Err(e) => Err(CompilerError::Parser(e)),
        },
    }
}

/// A source whose tokens are those of a program whose function is called
/// `name` and returns `n`, and no more, compiles, and to the text of that
/// program.
pub proof fn lemma_program_compiles(s: Seq<char>, name: Seq<char>, n: i64, target: Target)
    requires
        tokens_of(s) is Ok,
        kinds_of(tokens_of(s)->Ok_0) == program_kinds(name, n),
    ensures
        compiled(s, target) == Ok::<Seq<char>, ParseErrorView>(
            program_text(lower_program(program_of(name, n)), target),
        ),
{
    lemma_program_tokens_parse(s, name, n);
}

/// The assembly text of every source that parses is, in this order and with
/// nothing in between: one line that exports the symbol, one label, one move
/// of the constant, one `ret`, and what ends the text for the target.
pub proof fn lemma_compiled_lines(s: Seq<char>, target: Target)
    requires
        parse_source(s) is Ok,
    ensures
        compiled(s, target) == Ok::<Seq<char>, ParseErrorView>(
            export_line(symbol(name_of(parse_source(s)->Ok_0), target)) + label_line(
                symbol(name_of(parse_source(s)->Ok_0), target),
            ) + instr_text(
                Instr::Mov {
                    src: Operand::Register,
                    dst: Operand::Imm(value_of(parse_source(s)->Ok_0)),
                },
                1,
            ) + instr_text(Instr::Ret, 1) + epilogue(target),
        ),
{
    lemma_emitted_lines(parse_source(s)->Ok_0, target);
}

} // verus!
