//! The commands of the VM language, and how one line of tokens reads as a
//! command.

use vstd::prelude::*;
use crate::error::CompilationError;
use crate::labels::LabelMap;
use crate::assembly::location_index;
use crate::number::{int_dec, lemma_i16_roundtrip, parse_i16, parse_i16_spec, parse_usize, parse_usize_spec};
use crate::text::{chars_eq, string_of, lemma_chars_deep_view};

verus! {

/// A memory segment with an index into it.
#[derive(Clone, Copy, Debug, PartialEq, Eq, Structural)]
pub enum MemoryLocation {
    Static(i16),
    Constant(i16),
    Local(i16),
    Temp(i16),
    Pointer(i16),
    Argument(i16),
    This(i16),
    That(i16),
}

/// `pop` and `push`.
#[derive(Clone, Copy, Debug, PartialEq, Eq, Structural)]
pub enum MemoryCommand {
    Pop(MemoryLocation),
    Push(MemoryLocation),
}

/// The arithmetic and logical commands.
#[derive(Clone, Copy, Debug, PartialEq, Eq, Structural)]
pub enum ArithmeticCommand {
    Add,
    Sub,
    Neg,
    Eq,
    Gt,
    Lt,
    And,
    Or,
    Not,
}

/// `goto`, `if-goto` and `label`, with the qualified label.
#[derive(Debug)]
pub enum BranchingCommand {
    Goto(String),
    IfGoto(String),
    Label(String),
}

/// `function`, `call` and `return`.
#[derive(Debug)]
pub enum FunctionCommand {
    Function { name: String, n_locals: usize },
    Call { name: String, n_args: usize },
    Return,
}

/// A command of the VM language.
#[derive(Debug)]
pub enum PossibleCommands {
    Memory(MemoryCommand),
    Arithmetic(ArithmeticCommand),
    Branching(BranchingCommand),
    Functions(FunctionCommand),
}

/// A branching command, its label as characters.
pub enum BranchingSpec {
    Goto(Seq<char>),
    IfGoto(Seq<char>),
    Label(Seq<char>),
}

/// A function command, its name as characters.
pub enum FunctionSpec {
    Function { name: Seq<char>, n_locals: usize },
    Call { name: Seq<char>, n_args: usize },
    Return,
}

/// A command, its strings as characters.
pub enum CommandSpec {
    Memory(MemoryCommand),
    Arithmetic(ArithmeticCommand),
    Branching(BranchingSpec),
    Functions(FunctionSpec),
}

impl View for BranchingCommand {
    type V = BranchingSpec;

    open spec fn view(&self) -> BranchingSpec {
        match self {
            BranchingCommand::Goto(l) => BranchingSpec::Goto(l@),
            BranchingCommand::IfGoto(l) => BranchingSpec::IfGoto(l@),
            BranchingCommand::Label(l) => BranchingSpec::Label(l@),
        }
    }
}

impl View for FunctionCommand {
    type V = FunctionSpec;

    open spec fn view(&self) -> FunctionSpec {
        match self {
            FunctionCommand::Function { name, n_locals } => FunctionSpec::Function {
                name: name@,
                n_locals: *n_locals,
            },
            FunctionCommand::Call { name, n_args } => FunctionSpec::Call {
                name: name@,
                n_args: *n_args,
            },
            FunctionCommand::Return => FunctionSpec::Return,
        }
    }
}

impl View for PossibleCommands {
    type V = CommandSpec;

    open spec fn view(&self) -> CommandSpec {
        match self {
            PossibleCommands::Memory(m) => CommandSpec::Memory(*m),
            PossibleCommands::Arithmetic(a) => CommandSpec::Arithmetic(*a),
            PossibleCommands::Branching(b) => CommandSpec::Branching(b@),
            PossibleCommands::Functions(f) => CommandSpec::Functions(f@),
        }
    }
}

/// The location that the segment name `seg` with index `x` denotes, if `seg`
/// names a segment.
pub open spec fn segment_spec(seg: Seq<char>, x: i16) -> Option<MemoryLocation> {
    if seg == "static"@ {
        Some(MemoryLocation::Static(x))
    } else if seg == "constant"@ {
        Some(MemoryLocation::Constant(x))
    } else if seg == "local"@ {
        Some(MemoryLocation::Local(x))
    } else if seg == "argument"@ {
        Some(MemoryLocation::Argument(x))
    } else if seg == "pointer"@ {
        Some(MemoryLocation::Pointer(x))
    } else if seg == "temp"@ {
        Some(MemoryLocation::Temp(x))
    } else if seg == "this"@ {
        Some(MemoryLocation::This(x))
    } else if seg == "that"@ {
        Some(MemoryLocation::That(x))
    } else {
        None
    }
}

/// The location of a `push` or `pop` line `line` (three tokens: the
/// command, a segment, an index), or the error of line number `n`.
pub open spec fn memory_location_spec(line: Seq<Seq<char>>, n: usize) -> Result<
    MemoryLocation,
    CompilationError,
> {
    if line.len() != 3 {
        Err(CompilationError::SintaxError { line: n })
    } else {
        match segment_spec(line[1], 0) {
            None => Err(CompilationError::UnknownMemorySegment { line: n }),
            Some(_) => match parse_i16_spec(line[2]) {
                None => Err(CompilationError::SintaxError { line: n }),
                Some(x) => Ok(segment_spec(line[1], x).unwrap()),
            },
        }
    }
}

/// The arithmetic command that the word `k` names, if any.
pub open spec fn arithmetic_spec(k: Seq<char>) -> Option<ArithmeticCommand> {
    if k == "add"@ {
        Some(ArithmeticCommand::Add)
    } else if k == "sub"@ {
        Some(ArithmeticCommand::Sub)
    } else if k == "neg"@ {
        Some(ArithmeticCommand::Neg)
    } else if k == "eq"@ {
        Some(ArithmeticCommand::Eq)
    } else if k == "gt"@ {
        Some(ArithmeticCommand::Gt)
    } else if k == "lt"@ {
        Some(ArithmeticCommand::Lt)
    } else if k == "and"@ {
        Some(ArithmeticCommand::And)
    } else if k == "or"@ {
        Some(ArithmeticCommand::Or)
    } else if k == "not"@ {
        Some(ArithmeticCommand::Not)
    } else {
        None
    }
}

/// The branching command that the word `k` names with target `l`, if any.
pub open spec fn branching_spec(k: Seq<char>, l: Seq<char>) -> Option<BranchingSpec> {
    if k == "label"@ {
        Some(BranchingSpec::Label(l))
    } else if k == "if-goto"@ {
        Some(BranchingSpec::IfGoto(l))
    } else if k == "goto"@ {
        Some(BranchingSpec::Goto(l))
    } else {
        None
    }
}

/// How a line of tokens `line`, line number `n`, reads as a command, with the
/// labels of the text in `labels`.
pub open spec fn parse_command_spec(
    line: Seq<Seq<char>>,
    n: usize,
    labels: Map<Seq<char>, Seq<char>>,
) -> Result<CommandSpec, CompilationError> {
    let k = line[0];
    if k == "pop"@ {
        match memory_location_spec(line, n) {
            Ok(l) => Ok(CommandSpec::Memory(MemoryCommand::Pop(l))),
            Err(e) => Err(e),
        }
    } else if k == "push"@ {
        match memory_location_spec(line, n) {
            Ok(l) => Ok(CommandSpec::Memory(MemoryCommand::Push(l))),
            Err(e) => Err(e),
        }
    } else if arithmetic_spec(k) is Some {
        Ok(CommandSpec::Arithmetic(arithmetic_spec(k).unwrap()))
    } else if branching_spec(k, seq![]) is Some {
        if line.len() < 2 {
            Err(CompilationError::SintaxError { line: n })
        } else if !labels.contains_key(line[1]) {
            Err(CompilationError::UnknownLabel { line: n })
        } else {
            Ok(CommandSpec::Branching(branching_spec(k, labels[line[1]]).unwrap()))
        }
    } else if k == "function"@ || k == "call"@ {
        if line.len() < 3 {
            Err(CompilationError::SintaxError { line: n })
        } else {
            match parse_usize_spec(line[2]) {
                None => Err(CompilationError::SintaxError { line: n }),
                Some(v) => Ok(
                    CommandSpec::Functions(
                        if k == "function"@ {
                            FunctionSpec::Function { name: line[1], n_locals: v }
                        } else {
                            FunctionSpec::Call { name: line[1], n_args: v }
                        },
                    ),
                ),
            }
        }
    } else if k == "return"@ {
        Ok(CommandSpec::Functions(FunctionSpec::Return))
    } else {
        Err(CompilationError::UnknownCommand { line: n })
    }
}

fn segment(seg: &Vec<char>, x: i16) -> (r: Option<MemoryLocation>)
    ensures
        r == segment_spec(seg@, x),
{
    if chars_eq(seg, "static") {
        Some(MemoryLocation::Static(x))
    } else if chars_eq(seg, "constant") {
        Some(MemoryLocation::Constant(x))
    } else if chars_eq(seg, "local") {
        Some(MemoryLocation::Local(x))
    } else if chars_eq(seg, "argument") {
        Some(MemoryLocation::Argument(x))
    } else if chars_eq(seg, "pointer") {
        Some(MemoryLocation::Pointer(x))
    } else if chars_eq(seg, "temp") {
        Some(MemoryLocation::Temp(x))
    } else if chars_eq(seg, "this") {
        Some(MemoryLocation::This(x))
    } else if chars_eq(seg, "that") {
        Some(MemoryLocation::That(x))
    } else {
        None
    }
}

fn arithmetic(k: &Vec<char>) -> (r: Option<ArithmeticCommand>)
    ensures
        r == arithmetic_spec(k@),
{
    if chars_eq(k, "add") {
        Some(ArithmeticCommand::Add)
    } else if chars_eq(k, "sub") {
        Some(ArithmeticCommand::Sub)
    } else if chars_eq(k, "neg") {
        Some(ArithmeticCommand::Neg)
    } else if chars_eq(k, "eq") {
        Some(ArithmeticCommand::Eq)
    } else if chars_eq(k, "gt") {
        Some(ArithmeticCommand::Gt)
    } else if chars_eq(k, "lt") {
        Some(ArithmeticCommand::Lt)
    } else if chars_eq(k, "and") {
        Some(ArithmeticCommand::And)
    } else if chars_eq(k, "or") {
        Some(ArithmeticCommand::Or)
    } else if chars_eq(k, "not") {
        Some(ArithmeticCommand::Not)
    } else {
        None
    }
}

/// The word that names the segment of `l` on a `push` or `pop` line.
pub open spec fn segment_word(l: MemoryLocation) -> Seq<char> {
    match l {
        MemoryLocation::Static(_) => "static"@,
        MemoryLocation::Constant(_) => "constant"@,
        MemoryLocation::Local(_) => "local"@,
        MemoryLocation::Temp(_) => "temp"@,
        MemoryLocation::Pointer(_) => "pointer"@,
        MemoryLocation::Argument(_) => "argument"@,
        MemoryLocation::This(_) => "this"@,
        MemoryLocation::That(_) => "that"@,
    }
}

/// Each segment word names its own segment: the line `push w i` (or
/// `pop w i`), where `w` is the word of the segment of `l` and `i` the numeral
/// of its index, reads as that command on `l` itself.
pub proof fn lemma_memory_line_reads_back(
    l: MemoryLocation,
    n: usize,
    labels: Map<Seq<char>, Seq<char>>,
)
    ensures
        parse_command_spec(
            seq!["push"@, segment_word(l), int_dec(location_index(l) as int)],
            n,
            labels,
        ) == Ok::<CommandSpec, CompilationError>(CommandSpec::Memory(MemoryCommand::Push(l))),
        parse_command_spec(
            seq!["pop"@, segment_word(l), int_dec(location_index(l) as int)],
            n,
            labels,
        ) == Ok::<CommandSpec, CompilationError>(CommandSpec::Memory(MemoryCommand::Pop(l))),
{
    reveal_strlit("push");
    reveal_strlit("pop");
    reveal_strlit("static");
    reveal_strlit("constant");
    reveal_strlit("local");
    reveal_strlit("temp");
    reveal_strlit("pointer");
    reveal_strlit("argument");
    reveal_strlit("this");
    reveal_strlit("that");
    let x = location_index(l);
    lemma_i16_roundtrip(x);
    let w = segment_word(l);
    assert("push"@.len() == 4 && "pop"@.len() == 3);
    assert("static"@.len() == 6 && "constant"@.len() == 8 && "local"@.len() == 5);
    assert("pointer"@.len() == 7 && "argument"@.len() == 8);
    assert("temp"@.len() == 4 && "this"@.len() == 4 && "that"@.len() == 4);
    assert("temp"@[1] == 'e' && "this"@[1] == 'h' && "that"@[1] == 'h');
    assert("this"@[2] == 'i' && "that"@[2] == 'a');
    assert("constant"@[0] == 'c' && "argument"@[0] == 'a');
    assert(segment_spec(w, x) == Some(l));
    assert(segment_spec(w, 0) is Some);
}

/// The word of an arithmetic or logical command.
pub open spec fn arithmetic_word(a: ArithmeticCommand) -> Seq<char> {
    match a {
        ArithmeticCommand::Add => "add"@,
        ArithmeticCommand::Sub => "sub"@,
        ArithmeticCommand::Neg => "neg"@,
        ArithmeticCommand::Eq => "eq"@,
        ArithmeticCommand::Gt => "gt"@,
        ArithmeticCommand::Lt => "lt"@,
        ArithmeticCommand::And => "and"@,
        ArithmeticCommand::Or => "or"@,
        ArithmeticCommand::Not => "not"@,
    }
}

proof fn lemma_command_words()
    ensures
        "add"@.len() == 3 && "sub"@.len() == 3 && "neg"@.len() == 3 && "and"@.len() == 3
            && "not"@.len() == 3,
        "eq"@.len() == 2 && "gt"@.len() == 2 && "lt"@.len() == 2 && "or"@.len() == 2,
        "add"@[0] == 'a' && "and"@[0] == 'a' && "add"@[1] == 'd' && "and"@[1] == 'n',
        "sub"@[0] == 's' && "neg"@[0] == 'n' && "not"@[0] == 'n' && "neg"@[1] == 'e'
            && "not"@[1] == 'o',
        "eq"@[0] == 'e' && "gt"@[0] == 'g' && "lt"@[0] == 'l' && "or"@[0] == 'o',
        "push"@.len() == 4 && "pop"@.len() == 3 && "label"@.len() == 5 && "if-goto"@.len() == 7
            && "goto"@.len() == 4,
        "function"@.len() == 8 && "call"@.len() == 4 && "return"@.len() == 6,
        "push"@[0] == 'p' && "pop"@[0] == 'p' && "goto"@[0] == 'g' && "call"@[0] == 'c',
        "pop"@[1] == 'o' && "push"@[1] == 'u',
{
    reveal_strlit("add");
    reveal_strlit("sub");
    reveal_strlit("neg");
    reveal_strlit("eq");
    reveal_strlit("gt");
    reveal_strlit("lt");
    reveal_strlit("and");
    reveal_strlit("or");
    reveal_strlit("not");
    reveal_strlit("push");
    reveal_strlit("pop");
    reveal_strlit("label");
    reveal_strlit("if-goto");
    reveal_strlit("goto");
    reveal_strlit("function");
    reveal_strlit("call");
    reveal_strlit("return");
}

/// Each command word names its own command: the line holding only the word
/// of an arithmetic or logical command reads as that command; the lines
/// `function f k` and `call f k`, with `k` written as a numeral, read as a
/// `function` of `k` locals and a `call` with `k` arguments of the function
/// `f`; and the line `return` reads as `return`.
pub proof fn lemma_command_line_reads_back(
    a: ArithmeticCommand,
    f: Seq<char>,
    k: usize,
    n: usize,
    labels: Map<Seq<char>, Seq<char>>,
)
    ensures
        parse_command_spec(seq![arithmetic_word(a)], n, labels) == Ok::<
            CommandSpec,
            CompilationError,
        >(CommandSpec::Arithmetic(a)),
        parse_command_spec(seq!["function"@, f, crate::number::nat_dec(k as nat)], n, labels)
            == Ok::<CommandSpec, CompilationError>(
            CommandSpec::Functions(FunctionSpec::Function { name: f, n_locals: k }),
        ),
        parse_command_spec(seq!["call"@, f, crate::number::nat_dec(k as nat)], n, labels) == Ok::<
            CommandSpec,
            CompilationError,
        >(CommandSpec::Functions(FunctionSpec::Call { name: f, n_args: k })),
        parse_command_spec(seq!["return"@], n, labels) == Ok::<CommandSpec, CompilationError>(
            CommandSpec::Functions(FunctionSpec::Return),
        ),
{
    lemma_command_words();
    crate::number::lemma_usize_roundtrip(k);
    assert(arithmetic_spec(arithmetic_word(a)) == Some(a));
    assert(arithmetic_spec("function"@) is None);
    assert(arithmetic_spec("call"@) is None);
    assert(arithmetic_spec("return"@) is None);
    assert(branching_spec("function"@, seq![]) is None);
    assert(branching_spec("call"@, seq![]) is None);
    assert(branching_spec("return"@, seq![]) is None);
    assert(branching_spec(arithmetic_word(a), seq![]) is None);
}

impl PossibleCommands {
    /// Reads the location of a `push` or `pop` line.
    pub fn memory_location(line: &Vec<Vec<char>>, line_number: usize) -> (r: Result<
        MemoryLocation,
        CompilationError,
    >)
        ensures
            r == memory_location_spec(line.deep_view(), line_number),
    {
        if line.len() != 3 {
            return Err(CompilationError::SintaxError { line: line_number });
        }
        proof {
            lemma_chars_deep_view(line[1]);
            lemma_chars_deep_view(line[2]);
        }
        if segment(&line[1], 0).is_none() {
            return Err(CompilationError::UnknownMemorySegment { line: line_number });
        }
        match parse_i16(&line[2]) {
            None => Err(CompilationError::SintaxError { line: line_number }),
            Some(x) => match segment(&line[1], x) {
                Some(l) => Ok(l),
                None => Err(CompilationError::UnknownMemorySegment { line: line_number }),
            },
        }
    }

    /// Reads the tokens of one line, number `line_number`, as a command;
    /// branching commands take their qualified label from `labels_on_scope`.
    pub fn parse_command(
        line: &Vec<Vec<char>>,
        line_number: usize,
        labels_on_scope: &LabelMap,
    ) -> (r: Result<PossibleCommands, CompilationError>)
        requires
            line.len() >= 1,
        ensures
            match r {
                Ok(c) => parse_command_spec(line.deep_view(), line_number, labels_on_scope.view())
                    == Ok::<CommandSpec, CompilationError>(c@),
                Err(e) => parse_command_spec(line.deep_view(), line_number, labels_on_scope.view())
                    == Err::<CommandSpec, CompilationError>(e),
            },
    {
        let k = &line[0];
        proof {
            lemma_chars_deep_view(line[0]);
        }
        if chars_eq(k, "pop") {
            match PossibleCommands::memory_location(line, line_number) {
                Ok(l) => Ok(PossibleCommands::Memory(MemoryCommand::Pop(l))),
                Err(e) => Err(e),
            }
        } else if chars_eq(k, "push") {
            match PossibleCommands::memory_location(line, line_number) {
                Ok(l) => Ok(PossibleCommands::Memory(MemoryCommand::Push(l))),
                Err(e) => Err(e),
            }
        } else if let Some(a) = arithmetic(k) {
            Ok(PossibleCommands::Arithmetic(a))
        } else if chars_eq(k, "label") || chars_eq(k, "if-goto") || chars_eq(k, "goto") {
            if line.len() < 2 {
                return Err(CompilationError::SintaxError { line: line_number });
            }
            proof {
                lemma_chars_deep_view(line[1]);
            }
            match labels_on_scope.get(&line[1]) {
                None => Err(CompilationError::UnknownLabel { line: line_number }),
                Some(mangled) => {
                    let l = string_of(&mangled);
                    if chars_eq(k, "label") {
                        Ok(PossibleCommands::Branching(BranchingCommand::Label(l)))
                    } else if chars_eq(k, "if-goto") {
                        Ok(PossibleCommands::Branching(BranchingCommand::IfGoto(l)))
                    } else {
                        Ok(PossibleCommands::Branching(BranchingCommand::Goto(l)))
                    }
                },
            }
        } else if chars_eq(k, "function") || chars_eq(k, "call") {
            if line.len() < 3 {
                return Err(CompilationError::SintaxError { line: line_number });
            }
            proof {
                lemma_chars_deep_view(line[1]);
                lemma_chars_deep_view(line[2]);
            }
            match parse_usize(&line[2]) {
                None => Err(CompilationError::SintaxError { line: line_number }),
                Some(v) => {
                    let name = string_of(&line[1]);
                    if chars_eq(k, "function") {
                        Ok(
                            PossibleCommands::Functions(
                                FunctionCommand::Function { name, n_locals: v },
                            ),
                        )
                    } else {
                        Ok(PossibleCommands::Functions(FunctionCommand::Call { name, n_args: v }))
                    }
                },
            }
        } else if chars_eq(k, "return") {
            Ok(PossibleCommands::Functions(FunctionCommand::Return))
        } else {
            Err(CompilationError::UnknownCommand { line: line_number })
        }
    }
}

} // verus!
