//! Indented text: the indentation itself, and the syntax tree written out
//! node by node for a reader.
use vstd::prelude::*;
use vstd::string::StringExecFns;
use crate::ast::{Exp, Function, FunctionView, Program, ProgramView, Statement};
use crate::text::{push_repeated, push_signed_decimal, repeated, signed_decimal};

verus! {

/// The indentation of `depth` levels: four spaces for each.
pub open spec fn indentation(depth: nat) -> Seq<char> {
    repeated(' ', 4 * depth)
}

/// Appends the indentation of `depth` levels to `out`.
pub fn indent(out: &mut String, depth: usize)
    ensures
        final(out)@ == old(out)@ + indentation(depth as nat),
{
    let mut i: usize = 0;
    assert(out@ =~= old(out)@ + indentation(0));
    while i < depth
        invariant
            i <= depth,
            out@ == old(out)@ + indentation(i as nat),
        decreases depth - i,
    {
        push_repeated(out, ' ', 4);
        i += 1;
        assert(out@ =~= old(out)@ + indentation(i as nat));
    }
}

/// A node that can be written out as indented text.
pub trait Pretty {
    /// The number of levels that the node opens below its own.
    spec fn height(&self) -> nat;

    /// The node as text, for a node that stands `depth` levels deep. The
    /// text starts on the current line, ends with a newline, and indents
    /// the lines in between by their depth.
    spec fn pretty_text(&self, depth: nat) -> Seq<char>;

    /// Appends the node to `out` as indented text.
    fn fmt_with(&self, out: &mut String, depth: usize)
        requires
            depth + self.height() <= usize::MAX,
        ensures
            final(out)@ == old(out)@ + self.pretty_text(depth as nat),
    ;
}

/// An expression as text.
pub open spec fn exp_text(exp: Exp) -> Seq<char> {
    match exp {
        Exp::ConstantInt(n) => "ConstantInt("@ + signed_decimal(n as int) + ")\n"@,
    }
}

/// A statement as text.
pub open spec fn statement_text(statement: Statement, depth: nat) -> Seq<char> {
    match statement {
        Statement::Return(exp) => "Return(\n"@ + indentation(depth + 1) + exp_text(exp)
            + indentation(depth) + ")\n"@,
    }
}

/// A function as text.
pub open spec fn function_text(function: FunctionView, depth: nat) -> Seq<char> {
    "Function(\n"@ + indentation(depth + 1) + "name="@ + function.name + ",\n"@ + indentation(
        depth + 1,
    ) + "body="@ + statement_text(function.body, depth + 1) + indentation(depth) + ")\n"@
}

/// A program as text.
pub open spec fn program_text(program: ProgramView, depth: nat) -> Seq<char> {
    match program {
        ProgramView::FunctionDefinition(function) => "Program(\n"@ + indentation(depth + 1)
            + function_text(function, depth + 1) + indentation(depth) + ")\n"@,
    }
}

impl Pretty for Exp {
    open spec fn height(&self) -> nat {
        0
    }

    open spec fn pretty_text(&self, depth: nat) -> Seq<char> {
        exp_text(*self)
    }

    fn fmt_with(&self, out: &mut String, depth: usize) {
        match self {
            Exp::ConstantInt(n) => {
                out.append("ConstantInt(");
                push_signed_decimal(out, *n);
                out.append(")\n");
            },
        }
        assert(out@ =~= old(out)@ + exp_text(*self));
    }
}

impl Pretty for Statement {
    open spec fn height(&self) -> nat {
        1
    }

    open spec fn pretty_text(&self, depth: nat) -> Seq<char> {
        statement_text(*self, depth)
    }

    fn fmt_with(&self, out: &mut String, depth: usize) {
        match self {
            Statement::Return(exp) => {
                out.append("Return(\n");
                indent(out, depth + 1);
                exp.fmt_with(out, depth + 1);
                indent(out, depth);
                out.append(")\n");
            },
        }
        assert(out@ =~= old(out)@ + statement_text(*self, depth as nat));
    }
}

impl Pretty for Function {
    open spec fn height(&self) -> nat {
        2
    }

    open spec fn pretty_text(&self, depth: nat) -> Seq<char> {
        function_text(self@, depth)
    }

    fn fmt_with(&self, out: &mut String, depth: usize) {
        match self {
            Function::Function { name, body } => {
                out.append("Function(\n");
                indent(out, depth + 1);
                out.append("name=");
                out.append(name.as_str());
                out.append(",\n");
                indent(out, depth + 1);
                out.append("body=");
                body.fmt_with(out, depth + 1);
                indent(out, depth);
                out.append(")\n");
            },
        }
        assert(out@ =~= old(out)@ + function_text(self@, depth as nat));
    }
}

impl Pretty for Program {
    open spec fn height(&self) -> nat {
        3
    }

    open spec fn pretty_text(&self, depth: nat) -> Seq<char> {
        program_text(self@, depth)
    }

    fn fmt_with(&self, out: &mut String, depth: usize) {
        match self {
            Program::FunctionDefinition(function) => {
                out.append("Program(\n");
                indent(out, depth + 1);
                function.fmt_with(out, depth + 1);
                indent(out, depth);
                out.append(")\n");
            },
        }
        assert(out@ =~= old(out)@ + program_text(self@, depth as nat));
    }
}

impl Program {
    /// The program written out as indented text, from the left margin.
    pub fn pretty(&self) -> (out: String)
        ensures
            out@ == program_text(self@, 0),
    {
        let mut out = String::new();
        self.fmt_with(&mut out, 0);
        assert(out@ =~= program_text(self@, 0));
        out
    }
}

} // verus!
