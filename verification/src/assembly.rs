//! The Hack assembly that each command translates to.

use vstd::prelude::*;
use crate::command::{
    ArithmeticCommand, BranchingCommand, FunctionCommand, PossibleCommands, BranchingSpec, CommandSpec, FunctionSpec, MemoryCommand, MemoryLocation,
};
use crate::number::{int_dec, nat_dec, push_i32, push_usize};

verus! {

/// A memory command that translates without failing: no `pop` into
/// `constant`, a `temp` index of at most 7, a `pointer` index of 0 or 1.
pub open spec fn memory_valid(m: MemoryCommand) -> bool {
    match m {
        MemoryCommand::Pop(MemoryLocation::Constant(_)) => false,
        MemoryCommand::Pop(MemoryLocation::Temp(d)) => d <= 7,
        MemoryCommand::Push(MemoryLocation::Temp(d)) => d <= 7,
        MemoryCommand::Pop(MemoryLocation::Pointer(p)) => p == 0 || p == 1,
        MemoryCommand::Push(MemoryLocation::Pointer(p)) => p == 0 || p == 1,
        _ => true,
    }
}

/// Decides `memory_valid`.
pub fn memory_command_valid(m: &MemoryCommand) -> (r: bool)
    ensures
        r == memory_valid(*m),
{
    match m {
        MemoryCommand::Pop(MemoryLocation::Constant(_)) => false,
        MemoryCommand::Pop(MemoryLocation::Temp(d)) => *d <= 7,
        MemoryCommand::Push(MemoryLocation::Temp(d)) => *d <= 7,
        MemoryCommand::Pop(MemoryLocation::Pointer(p)) => *p == 0 || *p == 1,
        MemoryCommand::Push(MemoryLocation::Pointer(p)) => *p == 0 || *p == 1,
        _ => true,
    }
}

/// A command that translates without failing (for `call`, `n_args + 5` fits
/// in a `usize`).
pub open spec fn command_valid(c: CommandSpec) -> bool {
    match c {
        CommandSpec::Memory(m) => memory_valid(m),
        CommandSpec::Functions(FunctionSpec::Call { name, n_args }) => n_args + 5 <= usize::MAX,
        _ => true,
    }
}

/// The base register of the segments addressed through a pointer.
pub open spec fn segment_base(l: MemoryLocation) -> Seq<char> {
    match l {
        MemoryLocation::Local(_) => "LCL"@,
        MemoryLocation::This(_) => "THIS"@,
        MemoryLocation::That(_) => "THAT"@,
        _ => "ARG"@,
    }
}

/// The index of a location.
pub open spec fn location_index(l: MemoryLocation) -> i16 {
    match l {
        MemoryLocation::Static(n) => n,
        MemoryLocation::Constant(n) => n,
        MemoryLocation::Local(n) => n,
        MemoryLocation::Temp(n) => n,
        MemoryLocation::Pointer(n) => n,
        MemoryLocation::Argument(n) => n,
        MemoryLocation::This(n) => n,
        MemoryLocation::That(n) => n,
    }
}

/// What every `pop` into a fixed address starts with: the top of the stack
/// moves into `D`.
pub open spec fn pop_signature() -> Seq<char> {
    "@SP\nM=M-1\nA=M\nD=M\n"@
}

/// The assembly of a `pop` or `push`; `file` names the static variables.
pub open spec fn memory_asm(m: MemoryCommand, file: Seq<char>) -> Seq<char> {
    match m {
        MemoryCommand::Pop(l) => match l {
            MemoryLocation::Temp(d) => pop_signature() + "@"@ + int_dec(d + 5) + "\nM=D\n"@,
            MemoryLocation::Static(n) => pop_signature() + "@"@ + file + "."@ + int_dec(n as int)
                + "\nM=D\n"@,
            MemoryLocation::Pointer(p) => if p == 0 {
                pop_signature() + "@THIS\nM=D\n"@
            } else {
                pop_signature() + "@THAT\nM=D\n"@
            },
            MemoryLocation::Constant(_) => Seq::empty(),
            _ => "@"@ + int_dec(location_index(l) as int) + "\nD=A\n@"@ + segment_base(l)
                + "\nD=D+M\n@SP\nM=M-1\nA=M\nA=M\nA=A+D\nD=D-A\nA=A+D\nD=-D\nM=D"@,
        },
        MemoryCommand::Push(l) => match l {
            MemoryLocation::Constant(c) => "@"@ + int_dec(c as int) + "\nD=A\n@SP\nA=M\nM=D\n@SP\nM=M+1"@,
            MemoryLocation::Temp(d) => "@"@ + int_dec(d + 5) + "\nD=M\n@SP\nA=M\nM=D\n@SP\nM=M+1"@,
            MemoryLocation::Static(n) => "@"@ + file + "."@ + int_dec(n as int)
                + "\nD=M\n@SP\nA=M\nM=D\n@SP\nM=M+1"@,
            MemoryLocation::Pointer(p) => if p == 0 {
                "@THIS\nD=M\n@SP\nA=M\nM=D\n@SP\nM=M+1"@
            } else {
                "@THAT\nD=M\n@SP\nA=M\nM=D\n@SP\nM=M+1"@
            },
            _ => "@"@ + int_dec(location_index(l) as int) + "\nD=A\n@"@ + segment_base(l)
                + "\nA=M+D\nD=M\n@SP\nA=M\nM=D\n@SP\nM=M+1"@,
        },
    }
}

/// The assembly of `eq`, `gt` or `lt` (jump `jump`), command number `idx` of
/// its file: its two internal labels end in `idx`.
pub open spec fn comparison_asm(jump: Seq<char>, idx: nat) -> Seq<char> {
    "@SP\nM=M-1\nA=M\nD=M\nA=A-1\nD=M-D\n@ETIQUETAINTERNAINICIAL"@ + nat_dec(idx) + "\nD;"@ + jump
        + "\n@SP\nA=M-1\nM=0\n@ETIQUETAFINALSALIDA"@ + nat_dec(idx) + "\n0;JMP\n(ETIQUETAINTERNAINICIAL"@
        + nat_dec(idx) + ")\n@SP\nA=M-1\nM=-1\n(ETIQUETAFINALSALIDA"@ + nat_dec(idx) + ")"@
}

/// The assembly of an arithmetic command, command number `idx` of its file.
pub open spec fn arithmetic_asm(a: ArithmeticCommand, idx: nat) -> Seq<char> {
    match a {
        ArithmeticCommand::Add => "@SP\nM=M-1\nA=M\nD=M\n@SP\nA=M-1\nM=M+D"@,
        ArithmeticCommand::Sub => "@SP\nM=M-1\nA=M\nD=M\n@SP\nA=M-1\nM=M-D"@,
        ArithmeticCommand::And => "@SP\nM=M-1\nA=M\nD=M\n@SP\nA=M-1\nM=M&D"@,
        ArithmeticCommand::Or => "@SP\nM=M-1\nA=M\nD=M\n@SP\nA=M-1\nM=M|D"@,
        ArithmeticCommand::Neg => "@SP\nA=M-1\nM=-M"@,
        ArithmeticCommand::Not => "@SP\nA=M-1\nM=!M"@,
        ArithmeticCommand::Eq => comparison_asm("JEQ"@, idx),
        ArithmeticCommand::Gt => comparison_asm("JGT"@, idx),
        ArithmeticCommand::Lt => comparison_asm("JLT"@, idx),
    }
}

/// The assembly of a branching command.
pub open spec fn branching_asm(b: BranchingSpec) -> Seq<char> {
    match b {
        BranchingSpec::Goto(l) => "@"@ + l + "\n0;JMP"@,
        BranchingSpec::IfGoto(l) => "@SP\nM=M-1\nA=M\nD=M\n@"@ + l + "\nD;JNE"@,
        BranchingSpec::Label(l) => "("@ + l + ")"@,
    }
}

/// The return address label of call number `id` of the function `name`.
pub open spec fn call_label(name: Seq<char>, id: nat) -> Seq<char> {
    name + ":::CALLID:::"@ + nat_dec(id)
}

/// The name of the internal labels of the function `name`.
pub open spec fn function_label(name: Seq<char>) -> Seq<char> {
    "MANGLED::::"@ + name + "::::NaMe"@
}

/// The assembly of a function command; a `call` is call number `id`.
pub open spec fn function_asm(f: FunctionSpec, id: nat) -> Seq<char> {
    match f {
        FunctionSpec::Function { name, n_locals } => {
            let m = function_label(name);
            "("@ + name + ")\n@"@ + nat_dec(n_locals as nat) + "\nD=A\n("@ + m + "START)\n@"@ + m
                + "END\nD;JEQ\n@SP\nA=M\nM=0\n@SP\nM=M+1\nD=D-1\n@"@ + m + "START\n0;JMP\n("@ + m
                + "END)"@
        },
        FunctionSpec::Call { name, n_args } => {
            let l = call_label(name, id);
            "@"@ + l
                + "\nD=A\n@SP\nA=M\nM=D\n@SP\nM=M+1\n@LCL\nD=M\n@SP\nA=M\nM=D\n@SP\nM=M+1\n@ARG\nD=M\n@SP\nA=M\nM=D\n@SP\nM=M+1\n@THIS\nD=M\n@SP\nA=M\nM=D\n@SP\nM=M+1\n@THAT\nD=M\n@SP\nA=M\nM=D\n@SP\nM=M+1\n@"@
                + nat_dec((n_args + 5) as nat) + "\nD=A\n@SP\nD=M-D\n@ARG\nM=D\n@SP\nD=M\n@LCL\nM=D\n@"@ + name
                + "\n0;JMP\n("@ + l + ")"@
        },
        FunctionSpec::Return => "@LCL\nD=M\n@R13\nM=D\n@5\nD=D-A\n@R14\nM=D\n@SP\nA=M-1\nD=M\n@ARG\nA=M\nM=D\n@ARG\nD=M+1\n@SP\nM=D\n@R13\nM=M-1\nA=M\nD=M\n@THAT\nM=D\n@R13\nM=M-1\nA=M\nD=M\n@THIS\nM=D\n@R13\nM=M-1\nA=M\nD=M\n@ARG\nM=D\n@R13\nM=M-1\nA=M\nD=M\n@LCL\nM=D\n@R14\nA=M\n0;JMP"@,
    }
}

/// The assembly of a command, command number `idx` of the file `file`; a
/// `call` is call number `id`.
pub open spec fn command_asm(c: CommandSpec, file: Seq<char>, idx: nat, id: nat) -> Seq<char> {
    match c {
        CommandSpec::Memory(m) => memory_asm(m, file),
        CommandSpec::Arithmetic(a) => arithmetic_asm(a, idx),
        CommandSpec::Branching(b) => branching_asm(b),
        CommandSpec::Functions(f) => function_asm(f, id),
    }
}

/// What a command's assembly depends on: the file name only for `static`
/// memory commands, the command's index only for `eq`, `gt` and `lt`, and the
/// call number only for `call`.
pub proof fn lemma_command_asm_depends(
    c: CommandSpec,
    f1: Seq<char>,
    f2: Seq<char>,
    i1: nat,
    i2: nat,
    id1: nat,
    id2: nat,
)
    requires
        f1 == f2 || !(c matches CommandSpec::Memory(
            MemoryCommand::Pop(MemoryLocation::Static(_)) | MemoryCommand::Push(MemoryLocation::Static(_)),
        )),
        i1 == i2 || !(c matches CommandSpec::Arithmetic(
            ArithmeticCommand::Eq | ArithmeticCommand::Gt | ArithmeticCommand::Lt,
        )),
        id1 == id2 || !(c matches CommandSpec::Functions(FunctionSpec::Call { .. })),
    ensures
        command_asm(c, f1, i1, id1) == command_asm(c, f2, i2, id2),
{
}

/// Appends the numeral of `x` to `s`.
fn push_index(s: &mut String, x: i16)
    ensures
        final(s)@ == old(s)@ + int_dec(x as int),
{
    push_i32(s, x as i32);
}

impl MemoryCommand {
    /// The assembly of this `pop` or `push`; `file_name` names the static
    /// variables.
    pub fn to_asm(&self, file_name: &str) -> (r: String)
        requires
            memory_valid(*self),
        ensures
            r@ == memory_asm(*self, file_name@),
    {
        match self {
            MemoryCommand::Pop(value) => {
                let mut s = String::from_str("@SP\nM=M-1\nA=M\nD=M\n");
                match value {
                    MemoryLocation::Temp(d) => {
                        s.append("@");
                        push_i32(&mut s, (*d as i32) + 5);
                        s.append("\nM=D\n");
                    },
                    MemoryLocation::Static(n) => {
                        s.append("@");
                        s.append(file_name);
                        s.append(".");
                        push_index(&mut s, *n);
                        s.append("\nM=D\n");
                    },
                    MemoryLocation::Pointer(p) => {
                        if *p == 0 {
                            s.append("@THIS\nM=D\n");
                        } else {
                            s.append("@THAT\nM=D\n");
                        }
                    },
                    _ => {
                        let (n, base) = match value {
                            MemoryLocation::Local(n) => (*n, "LCL"),
                            MemoryLocation::This(n) => (*n, "THIS"),
                            MemoryLocation::That(n) => (*n, "THAT"),
                            MemoryLocation::Argument(n) => (*n, "ARG"),
                            _ => (0, ""),
                        };
                        s = String::from_str("@");
                        push_index(&mut s, n);
                        s.append("\nD=A\n@");
                        s.append(base);
                        s.append("\nD=D+M\n@SP\nM=M-1\nA=M\nA=M\nA=A+D\nD=D-A\nA=A+D\nD=-D\nM=D");
                    },
                }
                s
            },
            MemoryCommand::Push(value) => {
                let mut s = String::from_str("@");
                match value {
                    MemoryLocation::Constant(c) => {
                        push_index(&mut s, *c);
                        s.append("\nD=A\n@SP\nA=M\nM=D\n@SP\nM=M+1");
                    },
                    MemoryLocation::Temp(d) => {
                        push_i32(&mut s, (*d as i32) + 5);
                        s.append("\nD=M\n@SP\nA=M\nM=D\n@SP\nM=M+1");
                    },
                    MemoryLocation::Static(n) => {
                        s.append(file_name);
                        s.append(".");
                        push_index(&mut s, *n);
                        s.append("\nD=M\n@SP\nA=M\nM=D\n@SP\nM=M+1");
                    },
                    MemoryLocation::Pointer(p) => {
                        if *p == 0 {
                            s = String::from_str("@THIS\nD=M\n@SP\nA=M\nM=D\n@SP\nM=M+1");
                        } else {
                            s = String::from_str("@THAT\nD=M\n@SP\nA=M\nM=D\n@SP\nM=M+1");
                        }
                    },
                    _ => {
                        let (n, base) = match value {
                            MemoryLocation::Local(n) => (*n, "LCL"),
                            MemoryLocation::This(n) => (*n, "THIS"),
                            MemoryLocation::That(n) => (*n, "THAT"),
                            MemoryLocation::Argument(n) => (*n, "ARG"),
                            _ => (0, ""),
                        };
                        push_index(&mut s, n);
                        s.append("\nD=A\n@");
                        s.append(base);
                        s.append("\nA=M+D\nD=M\n@SP\nA=M\nM=D\n@SP\nM=M+1");
                    },
                }
                s
            },
        }
    }
}


fn comparison_to_asm(jump: &str, current_command: usize) -> (r: String)
    ensures
        r@ == comparison_asm(jump@, current_command as nat),
{
    let mut s = String::from_str("@SP\nM=M-1\nA=M\nD=M\nA=A-1\nD=M-D\n@ETIQUETAINTERNAINICIAL");
    push_usize(&mut s, current_command);
    s.append("\nD;");
    s.append(jump);
    s.append("\n@SP\nA=M-1\nM=0\n@ETIQUETAFINALSALIDA");
    push_usize(&mut s, current_command);
    s.append("\n0;JMP\n(ETIQUETAINTERNAINICIAL");
    push_usize(&mut s, current_command);
    s.append(")\n@SP\nA=M-1\nM=-1\n(ETIQUETAFINALSALIDA");
    push_usize(&mut s, current_command);
    s.append(")");
    s
}

impl ArithmeticCommand {
    /// The assembly of this command, command number `current_command` of its
    /// file.
    pub fn to_asm(&self, current_command: usize) -> (r: String)
        ensures
            r@ == arithmetic_asm(*self, current_command as nat),
    {
        match self {
            ArithmeticCommand::Add => String::from_str("@SP\nM=M-1\nA=M\nD=M\n@SP\nA=M-1\nM=M+D"),
            ArithmeticCommand::Sub => String::from_str("@SP\nM=M-1\nA=M\nD=M\n@SP\nA=M-1\nM=M-D"),
            ArithmeticCommand::And => String::from_str("@SP\nM=M-1\nA=M\nD=M\n@SP\nA=M-1\nM=M&D"),
            ArithmeticCommand::Or => String::from_str("@SP\nM=M-1\nA=M\nD=M\n@SP\nA=M-1\nM=M|D"),
            ArithmeticCommand::Neg => String::from_str("@SP\nA=M-1\nM=-M"),
            ArithmeticCommand::Not => String::from_str("@SP\nA=M-1\nM=!M"),
            ArithmeticCommand::Eq => comparison_to_asm("JEQ", current_command),
            ArithmeticCommand::Gt => comparison_to_asm("JGT", current_command),
            ArithmeticCommand::Lt => comparison_to_asm("JLT", current_command),
        }
    }
}

impl BranchingCommand {
    /// The assembly of this command.
    pub fn to_asm(&self) -> (r: String)
        ensures
            r@ == branching_asm(self@),
    {
        match self {
            BranchingCommand::Goto(label) => {
                let mut s = String::from_str("@");
                s.append(label.as_str());
                s.append("\n0;JMP");
                s
            },
            BranchingCommand::IfGoto(label) => {
                let mut s = String::from_str("@SP\nM=M-1\nA=M\nD=M\n@");
                s.append(label.as_str());
                s.append("\nD;JNE");
                s
            },
            BranchingCommand::Label(label) => {
                let mut s = String::from_str("(");
                s.append(label.as_str());
                s.append(")");
                s
            },
        }
    }
}

impl FunctionCommand {
    /// The assembly of this command; a `call` is call number `call_id`.
    pub fn to_asm(&self, call_id: usize) -> (r: String)
        requires
            self matches FunctionCommand::Call { n_args, .. } ==> n_args + 5 <= usize::MAX,
        ensures
            r@ == function_asm(self@, call_id as nat),
    {
        match self {
            FunctionCommand::Function { name, n_locals } => {
                let mut m = String::from_str("MANGLED::::");
                m.append(name.as_str());
                m.append("::::NaMe");
                let mut s = String::from_str("(");
                s.append(name.as_str());
                s.append(")\n@");
                push_usize(&mut s, *n_locals);
                s.append("\nD=A\n(");
                s.append(m.as_str());
                s.append("START)\n@");
                s.append(m.as_str());
                s.append("END\nD;JEQ\n@SP\nA=M\nM=0\n@SP\nM=M+1\nD=D-1\n@");
                s.append(m.as_str());
                s.append("START\n0;JMP\n(");
                s.append(m.as_str());
                s.append("END)");
                s
            },
            FunctionCommand::Call { name, n_args } => {
                let mut l = name.clone();
                l.append(":::CALLID:::");
                push_usize(&mut l, call_id);
                let mut s = String::from_str("@");
                s.append(l.as_str());
                s.append(
                    "\nD=A\n@SP\nA=M\nM=D\n@SP\nM=M+1\n@LCL\nD=M\n@SP\nA=M\nM=D\n@SP\nM=M+1\n@ARG\nD=M\n@SP\nA=M\nM=D\n@SP\nM=M+1\n@THIS\nD=M\n@SP\nA=M\nM=D\n@SP\nM=M+1\n@THAT\nD=M\n@SP\nA=M\nM=D\n@SP\nM=M+1\n@",
                );
                push_usize(&mut s, *n_args + 5);
                s.append("\nD=A\n@SP\nD=M-D\n@ARG\nM=D\n@SP\nD=M\n@LCL\nM=D\n@");
                s.append(name.as_str());
                s.append("\n0;JMP\n(");
                s.append(l.as_str());
                s.append(")");
                s
            },
            FunctionCommand::Return => String::from_str(
                "@LCL\nD=M\n@R13\nM=D\n@5\nD=D-A\n@R14\nM=D\n@SP\nA=M-1\nD=M\n@ARG\nA=M\nM=D\n@ARG\nD=M+1\n@SP\nM=D\n@R13\nM=M-1\nA=M\nD=M\n@THAT\nM=D\n@R13\nM=M-1\nA=M\nD=M\n@THIS\nM=D\n@R13\nM=M-1\nA=M\nD=M\n@ARG\nM=D\n@R13\nM=M-1\nA=M\nD=M\n@LCL\nM=D\n@R14\nA=M\n0;JMP",
            ),
        }
    }
}

impl PossibleCommands {
    /// The assembly of this command, command number `current_command` of the
    /// file `file_name`; a `call` is call number `call_id`.
    pub fn to_asm(&self, file_name: &str, current_command: usize, call_id: usize) -> (r: String)
        requires
            command_valid(self@),
        ensures
            r@ == command_asm(self@, file_name@, current_command as nat, call_id as nat),
    {
        match self {
            PossibleCommands::Memory(inner) => inner.to_asm(file_name),
            PossibleCommands::Arithmetic(inner) => inner.to_asm(current_command),
            PossibleCommands::Branching(inner) => inner.to_asm(),
            PossibleCommands::Functions(inner) => inner.to_asm(call_id),
        }
    }
}

} // verus!
