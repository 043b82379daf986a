//! The assembly model: what a program is one level below the syntax tree,
//! and how the tree is lowered to it.
use vstd::prelude::*;
use crate::ast;

verus! {

/// An operand of an instruction.
#[derive(Debug, Clone, Copy, PartialEq, Eq, Structural)]
pub enum Operand {
    /// An immediate value.
    Imm(i64),
    /// The register that holds a function's return value.
    Register,
}

/// An instruction.
#[derive(Debug, Clone, Copy, PartialEq, Eq, Structural)]
pub enum Instr {
    Mov { src: Operand, dst: Operand },
    Ret,
}

/// The instructions of one function, in order.
#[derive(Debug, Clone, PartialEq, Eq)]
pub struct InstrSeq(pub Vec<Instr>);

/// A function: its name and its instructions.
#[derive(Debug, Clone, PartialEq, Eq)]
pub enum Function {
    Function { name: String, instructions: InstrSeq },
}

/// A whole program.
#[derive(Debug, Clone, PartialEq, Eq)]
pub enum Program {
    Program(Function),
}

/// The mathematical value of a [`Function`].
pub struct FunctionView {
    pub name: Seq<char>,
    pub instructions: Seq<Instr>,
}

/// The mathematical value of a [`Program`].
pub enum ProgramView {
    Program(FunctionView),
}

impl View for InstrSeq {
    type V = Seq<Instr>;

    open spec fn view(&self) -> Seq<Instr> {
        self.0@
    }
}

impl View for Function {
    type V = FunctionView;

    open spec fn view(&self) -> FunctionView {
        match self {
            Function::Function { name, instructions } => FunctionView {
                name: name@,
                instructions: instructions@,
            },
        }
    }
}

impl View for Program {
    type V = ProgramView;

    open spec fn view(&self) -> ProgramView {
        match self {
            Program::Program(function) => ProgramView::Program(function@),
        }
    }
}

/// A constant is lowered to an immediate operand.
pub open spec fn lower_exp(exp: ast::Exp) -> Operand {
    match exp {
        ast::Exp::ConstantInt(n) => Operand::Imm(n),
    }
}

/// A `return` is lowered to a move that brings the value and the
/// return-value register together, and a `ret`.
pub open spec fn lower_statement(statement: ast::Statement) -> Seq<Instr> {
    match statement {
        ast::Statement::Return(exp) => seq![
            Instr::Mov { src: Operand::Register, dst: lower_exp(exp) },
            Instr::Ret,
        ],
    }
}

/// A function keeps its name; its body is lowered.
pub open spec fn lower_function(function: ast::FunctionView) -> FunctionView {
    FunctionView { name: function.name, instructions: lower_statement(function.body) }
}

/// A program is lowered function by function.
pub open spec fn lower_program(program: ast::ProgramView) -> ProgramView {
    match program {
        ast::ProgramView::FunctionDefinition(function) => ProgramView::Program(
            lower_function(function),
        ),
    }
}

/// Every body is lowered to exactly one move, which brings the constant and
/// the return-value register together, followed by exactly one `ret`.
pub proof fn lemma_lowered_body(statement: ast::Statement)
    ensures
        lower_statement(statement).len() == 2,
        lower_statement(statement)[0] is Mov,
        lower_statement(statement)[0]->src == Operand::Register,
        lower_statement(statement)[0]->dst is Imm,
        lower_statement(statement)[1] == Instr::Ret,
{
}

impl From<ast::Exp> for Operand {
    fn from(exp: ast::Exp) -> (operand: Operand) {
        match exp {
            ast::Exp::ConstantInt(n) => Operand::Imm(n),
        }
    }
}

impl vstd::std_specs::convert::FromSpecImpl<ast::Exp> for Operand {
    open spec fn obeys_from_spec() -> bool {
        true
    }

    open spec fn from_spec(exp: ast::Exp) -> Operand {
        lower_exp(exp)
    }
}

/// The conversions from the syntax tree state what they return on `from`
/// itself, over views: a `from_spec` would have to name the very string and
/// vector that come out, which a view cannot tell apart from their equals.
impl From<ast::Statement> for InstrSeq {
    fn from(statement: ast::Statement) -> (instructions: InstrSeq)
        ensures
            instructions@ == lower_statement(statement),
    {
        InstrSeq::lower(statement)
    }
}

impl vstd::std_specs::convert::FromSpecImpl<ast::Statement> for InstrSeq {
    open spec fn obeys_from_spec() -> bool {
        false
    }

    open spec fn from_spec(statement: ast::Statement) -> InstrSeq {
        choose|instructions: InstrSeq| instructions@ == lower_statement(statement)
    }
}

impl From<ast::Function> for Function {
    fn from(function: ast::Function) -> (lowered: Function)
        ensures
            lowered@ == lower_function(function@),
    {
        Function::lower(function)
    }
}

impl vstd::std_specs::convert::FromSpecImpl<ast::Function> for Function {
    open spec fn obeys_from_spec() -> bool {
        false
    }

    open spec fn from_spec(function: ast::Function) -> Function {
        choose|lowered: Function| lowered@ == lower_function(function@)
    }
}

impl From<ast::Program> for Program {
    fn from(program: ast::Program) -> (lowered: Program)
        ensures
            lowered@ == lower_program(program@),
    {
        Program::lower(program)
    }
}

impl vstd::std_specs::convert::FromSpecImpl<ast::Program> for Program {
    open spec fn obeys_from_spec() -> bool {
        false
    }

    open spec fn from_spec(program: ast::Program) -> Program {
        choose|lowered: Program| lowered@ == lower_program(program@)
    }
}

impl InstrSeq {
    /// The instructions that `statement` is lowered to.
    pub fn lower(statement: ast::Statement) -> (instructions: InstrSeq)
        ensures
            instructions@ == lower_statement(statement),
    {
        match statement {
            ast::Statement::Return(exp) => {
                let mut instructions: Vec<Instr> = Vec::new();
                instructions.push(Instr::Mov { src: Operand::Register, dst: Operand::from(exp) });
                instructions.push(Instr::Ret);
                assert(instructions@ =~= lower_statement(statement));
                InstrSeq(instructions)
            },
        }
    }
}

impl Function {
    /// The function that `function` is lowered to.
    pub fn lower(function: ast::Function) -> (lowered: Function)
        ensures
            lowered@ == lower_function(function@),
    {
        match function {
            ast::Function::Function { name, body } => {
                let instructions = InstrSeq::lower(body);
                Function::Function { name, instructions }
            },
        }
    }
}

impl Program {
    /// The program that `program` is lowered to.
    pub fn lower(program: ast::Program) -> (lowered: Program)
        ensures
            lowered@ == lower_program(program@),
    {
        match program {
            ast::Program::FunctionDefinition(function) => Program::Program(
                Function::lower(function),
            ),
        }
    }
}

} // verus!
