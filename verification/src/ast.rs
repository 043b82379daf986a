//! The abstract syntax tree: one program is one function, whose body is one
//! `return` of an integer constant.
use vstd::prelude::*;

verus! {

/// An expression.
#[derive(Debug, Clone, Copy, PartialEq, Eq, Structural)]
pub enum Exp {
    ConstantInt(i64),
}

/// A statement.
#[derive(Debug, Clone, Copy, PartialEq, Eq, Structural)]
pub enum Statement {
    Return(Exp),
}

/// A function definition.
#[derive(Debug, Clone, PartialEq, Eq)]
pub enum Function {
    Function { name: String, body: Statement },
}

/// A whole program.
#[derive(Debug, Clone, PartialEq, Eq)]
pub enum Program {
    FunctionDefinition(Function),
}

/// The mathematical value of a [`Function`].
pub struct FunctionView {
    pub name: Seq<char>,
    pub body: Statement,
}

/// The mathematical value of a [`Program`].
pub enum ProgramView {
    FunctionDefinition(FunctionView),
}

impl View for Exp {
    type V = Exp;

    open spec fn view(&self) -> Exp {
        *self
    }
}

impl View for Statement {
    type V = Statement;

    open spec fn view(&self) -> Statement {
        *self
    }
}

impl View for Function {
    type V = FunctionView;

    open spec fn view(&self) -> FunctionView {
        match self {
            Function::Function { name, body } => FunctionView { name: name@, body: *body },
        }
    }
}

impl View for Program {
    type V = ProgramView;

    open spec fn view(&self) -> ProgramView {
        match self {
            Program::FunctionDefinition(function) => ProgramView::FunctionDefinition(function@),
        }
    }
}

/// The program whose function is called `name` and returns `n`.
pub open spec fn program_of(name: Seq<char>, n: i64) -> ProgramView {
    ProgramView::FunctionDefinition(
        FunctionView { name, body: Statement::Return(Exp::ConstantInt(n)) },
    )
}

/// The name of the function of a program.
pub open spec fn name_of(program: ProgramView) -> Seq<char> {
    match program {
        ProgramView::FunctionDefinition(function) => function.name,
    }
}

/// The constant that the function of a program returns.
pub open spec fn value_of(program: ProgramView) -> i64 {
    match program {
        ProgramView::FunctionDefinition(function) => match function.body {
            Statement::Return(Exp::ConstantInt(n)) => n,
        },
    }
}

} // verus!
