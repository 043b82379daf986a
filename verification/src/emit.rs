//! Emission: the assembly model as text for a chosen target platform.
use vstd::prelude::*;
use vstd::string::StringExecFns;
use crate::assembly::{
    lower_program, Function, FunctionView, Instr, Operand, Program, ProgramView,
};
use crate::ast::{name_of, value_of};
use crate::pretty::{indent, indentation};
use crate::text::{push_signed_decimal, signed_decimal};

verus! {

/// The platform that the assembly text is written for. It decides how a
/// symbol is spelled and whether a stack note ends the text.
#[derive(Debug, Clone, Copy, PartialEq, Eq, Structural)]
pub enum Target {
    /// Symbols get a leading underscore; no stack note.
    MacOs,
    /// Symbols stay as they are; a stack note ends the text.
    Linux,
}

/// The symbol under which a function of the given name is emitted.
pub open spec fn symbol(name: Seq<char>, target: Target) -> Seq<char> {
    match target {
        Target::MacOs => "_"@ + name,
        Target::Linux => name,
    }
}

/// What ends the text of a program: on Linux the note that the stack need
/// not be executable, elsewhere nothing.
pub open spec fn epilogue(target: Target) -> Seq<char> {
    match target {
        Target::MacOs => Seq::empty(),
        Target::Linux => "\n"@ + indentation(1) + ".section .note.GNU-stack,\"\",@progbits\n"@,
    }
}

/// An operand as text.
pub open spec fn operand_text(operand: Operand) -> Seq<char> {
    match operand {
        Operand::Imm(n) => "$"@ + signed_decimal(n as int),
        Operand::Register => "%eax"@,
    }
}

/// An instruction as one line of text, behind `depth` levels of
/// indentation. A move names its `dst` operand first.
pub open spec fn instr_text(instr: Instr, depth: nat) -> Seq<char> {
    match instr {
        Instr::Mov { src, dst } => indentation(depth) + "movl  "@ + operand_text(dst) + ", "@
            + operand_text(src) + "\n"@,
        Instr::Ret => indentation(depth) + "ret\n"@,
    }
}

/// Instructions as lines of text, in order.
pub open spec fn instrs_text(instrs: Seq<Instr>, depth: nat) -> Seq<char>
    decreases instrs.len(),
{
    if instrs.len() == 0 {
        Seq::empty()
    } else {
        instrs_text(instrs.drop_last(), depth) + instr_text(instrs.last(), depth)
    }
}

/// The line that exports a symbol.
pub open spec fn export_line(sym: Seq<char>) -> Seq<char> {
    indentation(1) + ".globl "@ + sym + "\n"@
}

/// The line that labels what follows with a symbol.
pub open spec fn label_line(sym: Seq<char>) -> Seq<char> {
    sym + ":\n"@
}

/// A function as text: the directive that exports its symbol, its label,
/// and its instructions.
pub open spec fn function_text(function: FunctionView, target: Target) -> Seq<char> {
    export_line(symbol(function.name, target)) + label_line(symbol(function.name, target))
        + instrs_text(function.instructions, 1)
}

/// A program as text.
pub open spec fn program_text(program: ProgramView, target: Target) -> Seq<char> {
    match program {
        ProgramView::Program(function) => function_text(function, target) + epilogue(target),
    }
}

/// The symbol under which a function named `name` is emitted for `target`.
pub fn function_name(name: &str, target: Target) -> (out: String)
    ensures
        out@ == symbol(name@, target),
{
    let mut out = String::new();
    match target {
        Target::MacOs => {
            out.append("_");
        },
        Target::Linux => {},
    }
    out.append(name);
    assert(out@ =~= symbol(name@, target));
    out
}

/// Appends to `out` what ends the text of a program for `target`.
pub fn prolog(out: &mut String, target: Target)
    ensures
        final(out)@ == old(out)@ + epilogue(target),
{
    match target {
        Target::MacOs => {},
        Target::Linux => {
            out.append("\n");
            indent(out, 1);
            out.append(".section .note.GNU-stack,\"\",@progbits\n");
        },
    }
    assert(out@ =~= old(out)@ + epilogue(target));
}

impl Operand {
    /// Appends the operand to `out`.
    pub fn fmt_with(&self, out: &mut String)
        ensures
            final(out)@ == old(out)@ + operand_text(*self),
    {
        match self {
            Operand::Imm(n) => {
                out.append("$");
                push_signed_decimal(out, *n);
            },
            Operand::Register => {
                out.append("%eax");
            },
        }
        assert(out@ =~= old(out)@ + operand_text(*self));
    }
}

impl Instr {
    /// Appends the instruction to `out`, as one line behind `depth` levels
    /// of indentation.
    pub fn fmt_with(&self, out: &mut String, depth: usize)
        ensures
            final(out)@ == old(out)@ + instr_text(*self, depth as nat),
    {
        indent(out, depth);
        match self {
            Instr::Mov { src, dst } => {
                out.append("movl  ");
                dst.fmt_with(out);
                out.append(", ");
                src.fmt_with(out);
                out.append("\n");
            },
            Instr::Ret => {
                out.append("ret\n");
            },
        }
        assert(out@ =~= old(out)@ + instr_text(*self, depth as nat));
    }
}

impl Function {
    /// Appends the function to `out`, as text for `target`.
    pub fn fmt_with(&self, out: &mut String, target: Target)
        ensures
            final(out)@ == old(out)@ + function_text(self@, target),
    {
        match self {
            Function::Function { name, instructions } => {
                let sym = function_name(name.as_str(), target);
                indent(out, 1);
                out.append(".globl ");
                out.append(sym.as_str());
                out.append("\n");
                out.append(sym.as_str());
                out.append(":\n");
                let ghost head = out@;
                let n: usize = instructions.0.len();
                let mut i: usize = 0;
                assert(instructions@.take(0) =~= Seq::<Instr>::empty());
                while i < n
                    invariant
                        i <= n,
                        n == instructions@.len(),
                        out@ == head + instrs_text(instructions@.take(i as int), 1),
                    decreases n - i,
                {
                    let ghost before = out@;
                    instructions.0[i].fmt_with(out, 1);
                    proof {
                        let longer = instructions@.take(i + 1);
                        assert(longer.drop_last() =~= instructions@.take(i as int));
                        assert(longer.last() == instructions@[i as int]);
                        assert(out@ =~= head + instrs_text(longer, 1));
                    }
                    i += 1;
                }
                assert(instructions@.take(n as int) =~= instructions@);
                assert(out@ =~= old(out)@ + function_text(self@, target));
            },
        }
    }
}

impl Program {
    /// Appends the program to `out`, as text for `target`.
    pub fn fmt_with(&self, out: &mut String, target: Target)
        ensures
            final(out)@ == old(out)@ + program_text(self@, target),
    {
        match self {
            Program::Program(function) => {
                function.fmt_with(out, target);
                prolog(out, target);
            },
        }
        assert(out@ =~= old(out)@ + program_text(self@, target));
    }

    /// The program as text for `target`.
    pub fn to_text(&self, target: Target) -> (out: String)
        ensures
            out@ == program_text(self@, target),
    {
        let mut out = String::new();
        self.fmt_with(&mut out, target);
        assert(out@ =~= program_text(self@, target));
        out
    }
}

/// The text of every lowered program is, in this order and with nothing in
/// between: one line that exports the symbol, one label, one move of the
/// constant, one `ret`, and what ends the text for the target.
pub proof fn lemma_emitted_lines(program: crate::ast::ProgramView, target: Target)
    ensures
        program_text(lower_program(program), target) == export_line(
            symbol(name_of(program), target),
        ) + label_line(symbol(name_of(program), target)) + instr_text(
            Instr::Mov { src: Operand::Register, dst: Operand::Imm(value_of(program)) },
            1,
        ) + instr_text(Instr::Ret, 1) + epilogue(target),
{
    let mov = Instr::Mov { src: Operand::Register, dst: Operand::Imm(value_of(program)) };
    let instrs = seq![mov, Instr::Ret];
    reveal_with_fuel(instrs_text, 3);
    assert(instrs.drop_last() =~= seq![mov]);
    assert(seq![mov].drop_last() =~= Seq::<Instr>::empty());
    assert(instrs_text(seq![mov], 1) =~= instr_text(mov, 1));
    assert(instrs_text(instrs, 1) =~= instr_text(mov, 1) + instr_text(Instr::Ret, 1));
    let sym = symbol(name_of(program), target);
    assert(program_text(lower_program(program), target) =~= export_line(sym) + label_line(sym)
        + instr_text(mov, 1) + instr_text(Instr::Ret, 1) + epilogue(target));
}

} // verus!
