use lib::assembly::memory_command_valid;
use lib::command::{
    ArithmeticCommand, BranchingCommand, FunctionCommand, MemoryCommand, MemoryLocation,
    PossibleCommands,
};
use lib::labels::LabelMap;
use lib::number::{parse_i16, parse_usize, push_i32, push_usize};
use lib::text::{chars_of, split_lines, split_whitespace, string_of, strip_command};
use lib::{ComandosParseados, CompilationError, Compiler};

fn chars(s: &str) -> Vec<char> {
    s.chars().collect()
}

fn toks(s: &str) -> Vec<Vec<char>> {
    s.split_whitespace().map(chars).collect()
}

const CALL_BODY: &str = "\nD=A\n@SP\nA=M\nM=D\n@SP\nM=M+1\n@LCL\nD=M\n@SP\nA=M\nM=D\n@SP\nM=M+1\n@ARG\nD=M\n@SP\nA=M\nM=D\n@SP\nM=M+1\n@THIS\nD=M\n@SP\nA=M\nM=D\n@SP\nM=M+1\n@THAT\nD=M\n@SP\nA=M\nM=D\n@SP\nM=M+1\n@";

fn call_text(name: &str, n_args: usize, id: usize) -> String {
    let label = format!("{}:::CALLID:::{}", name, id);
    format!(
        "@{}{}{}\nD=A\n@SP\nD=M-D\n@ARG\nM=D\n@SP\nD=M\n@LCL\nM=D\n@{}\n0;JMP\n({})",
        label,
        CALL_BODY,
        n_args + 5,
        name,
        label
    )
}

fn booting() -> String {
    format!("@256\nD=A\n@SP\nM=D\n{}\n", call_text("Sys.init", 0, 0))
}

fn parse(text: &str, verbose: bool) -> Result<ComandosParseados, CompilationError> {
    ComandosParseados::parse_commands(text.to_string(), verbose)
}

#[test]
fn strip_command_trims_and_cuts_comments() {
    assert_eq!(strip_command(&chars("  push constant 7  ")), Some(chars("push constant 7")));
    assert_eq!(strip_command(&chars("push constant 7 // seven")), Some(chars("push constant 7 ")));
    assert_eq!(strip_command(&chars("   // only a comment")), None);
    assert_eq!(strip_command(&chars("\t \r")), None);
    assert_eq!(strip_command(&chars("")), None);
    assert_eq!(strip_command(&chars("add//x")), Some(chars("add")));
    assert_eq!(strip_command(&chars("a / b")), Some(chars("a / b")));
    assert_eq!(strip_command(&chars("\u{3000}neg\u{a0}")), Some(chars("neg")));
}

#[test]
fn split_whitespace_gives_tokens() {
    assert_eq!(split_whitespace(&chars("  push\tconstant   7 ")), toks("push constant 7"));
    assert_eq!(split_whitespace(&chars("")), Vec::<Vec<char>>::new());
    assert_eq!(split_whitespace(&chars("a\u{2003}b")), vec![chars("a"), chars("b")]);
}

#[test]
fn split_lines_splits_at_newlines() {
    assert_eq!(split_lines(&chars("a\nb\r\n\nc")), vec![chars("a"), chars("b\r"), chars(""), chars("c")]);
    assert_eq!(split_lines(&chars("")), vec![chars("")]);
    assert_eq!(split_lines(&chars("x\n")), vec![chars("x"), chars("")]);
}

#[test]
fn chars_and_strings_convert() {
    assert_eq!(chars_of("héllo"), vec!['h', 'é', 'l', 'l', 'o']);
    assert_eq!(string_of(&chars("abc")), "abc".to_string());
    assert_eq!(string_of(&Vec::new()), String::new());
}

#[test]
fn numbers_are_written_in_decimal() {
    let mut s = String::from("x");
    push_usize(&mut s, 0);
    push_usize(&mut s, 1234567);
    assert_eq!(s, "x01234567");
    let mut s = String::new();
    push_i32(&mut s, -32768);
    assert_eq!(s, "-32768");
    let mut s = String::new();
    push_usize(&mut s, usize::MAX);
    assert_eq!(s, usize::MAX.to_string());
}

#[test]
fn numbers_read_as_str_parse() {
    for t in ["0", "7", "+7", "-7", "32767", "-32768", "32768", "-32769", "", "+", "-", "7a", "007", "-0", "+-1"] {
        assert_eq!(parse_i16(&chars(t)), t.parse::<i16>().ok(), "{}", t);
        assert_eq!(parse_usize(&chars(t)), t.parse::<usize>().ok(), "{}", t);
    }
    let big = usize::MAX.to_string();
    assert_eq!(parse_usize(&chars(&big)), Some(usize::MAX));
    let over = format!("{}0", usize::MAX);
    assert_eq!(parse_usize(&chars(&over)), None);
}

#[test]
fn numbers_read_back_what_is_written() {
    for v in [i16::MIN, -1, 0, 5, i16::MAX] {
        let mut s = String::new();
        push_i32(&mut s, v as i32);
        assert_eq!(parse_i16(&chars(&s)), Some(v));
    }
    for n in [0usize, 9, 10, 99999, usize::MAX] {
        let mut s = String::new();
        push_usize(&mut s, n);
        assert_eq!(parse_usize(&chars(&s)), Some(n));
    }
}

#[test]
fn label_map_keeps_last_insert() {
    let mut m = LabelMap::new();
    assert_eq!(m.get(&chars("x")), None);
    m.insert(chars("x"), chars("f$x"));
    m.insert(chars("y"), chars("$y"));
    m.insert(chars("x"), chars("g$x"));
    assert_eq!(m.get(&chars("x")), Some(chars("g$x")));
    assert_eq!(m.get(&chars("y")), Some(chars("$y")));
    assert_eq!(BranchingCommand::mangle(&chars("Main.loop"), &chars("END")), chars("Main.loop$END"));
}

#[test]
fn parse_command_reads_each_kind() {
    let labels = LabelMap::new();
    let c = PossibleCommands::parse_command(&toks("push local 3"), 1, &labels).unwrap();
    assert!(matches!(c, PossibleCommands::Memory(MemoryCommand::Push(MemoryLocation::Local(3)))));
    let c = PossibleCommands::parse_command(&toks("pop temp -2"), 1, &labels).unwrap();
    assert!(matches!(c, PossibleCommands::Memory(MemoryCommand::Pop(MemoryLocation::Temp(-2)))));
    let c = PossibleCommands::parse_command(&toks("lt"), 1, &labels).unwrap();
    assert!(matches!(c, PossibleCommands::Arithmetic(ArithmeticCommand::Lt)));
    let c = PossibleCommands::parse_command(&toks("function Main.f 2"), 1, &labels).unwrap();
    assert!(matches!(c, PossibleCommands::Functions(FunctionCommand::Function { ref name, n_locals: 2 }) if name == "Main.f"));
    let c = PossibleCommands::parse_command(&toks("call Main.f 1 extra"), 1, &labels).unwrap();
    assert!(matches!(c, PossibleCommands::Functions(FunctionCommand::Call { ref name, n_args: 1 }) if name == "Main.f"));
    let c = PossibleCommands::parse_command(&toks("return"), 1, &labels).unwrap();
    assert!(matches!(c, PossibleCommands::Functions(FunctionCommand::Return)));
}

#[test]
fn memory_location_errors() {
    let l = PossibleCommands::memory_location(&toks("push constant"), 4);
    assert!(matches!(l, Err(CompilationError::SintaxError { line: 4 })));
    let l = PossibleCommands::memory_location(&toks("push heap 1"), 5);
    assert!(matches!(l, Err(CompilationError::UnknownMemorySegment { line: 5 })));
    let l = PossibleCommands::memory_location(&toks("push heap x"), 5);
    assert!(matches!(l, Err(CompilationError::UnknownMemorySegment { line: 5 })));
    let l = PossibleCommands::memory_location(&toks("push static x"), 6);
    assert!(matches!(l, Err(CompilationError::SintaxError { line: 6 })));
    let l = PossibleCommands::memory_location(&toks("push that 40000"), 7);
    assert!(matches!(l, Err(CompilationError::SintaxError { line: 7 })));
}

#[test]
fn parse_commands_counts_lines_and_keeps_texts() {
    let p = parse("// header\n\npush constant 1 // one\n  add\n", true).unwrap();
    assert_eq!(p.comandos.len(), 2);
    assert!(matches!(p.comandos[0], PossibleCommands::Memory(MemoryCommand::Push(MemoryLocation::Constant(1)))));
    assert!(matches!(p.comandos[1], PossibleCommands::Arithmetic(ArithmeticCommand::Add)));
    assert_eq!(p.comandos_str, Some(vec!["push constant 1 ".to_string(), "add".to_string()]));
    let q = parse("push constant 1\nadd", false).unwrap();
    assert_eq!(q.comandos.len(), 2);
    assert!(q.comandos_str.is_none());
}

#[test]
fn parse_commands_reports_each_error() {
    assert!(matches!(parse("push constant 1\n\nfoo", false), Err(CompilationError::UnknownCommand { line: 3 })));
    assert!(matches!(parse("add\npop local", false), Err(CompilationError::SintaxError { line: 2 })));
    assert!(matches!(parse("\npush nowhere 1", false), Err(CompilationError::UnknownMemorySegment { line: 2 })));
    assert!(matches!(parse("goto END", false), Err(CompilationError::UnknownLabel { line: 1 })));
    assert!(matches!(parse("call f x", false), Err(CompilationError::SintaxError { line: 1 })));
    // A `function` without a name fails in the label scan, which counts only
    // the lines that hold a command.
    assert!(matches!(parse("\n\nadd\n// c\nfunction", false), Err(CompilationError::SintaxError { line: 2 })));
}

#[test]
fn labels_are_qualified_by_their_function() {
    let p = parse("function Main.f 0\nlabel LOOP\ngoto LOOP\nif-goto LOOP\nreturn\nlabel TOP\ngoto TOP", false).unwrap();
    match (&p.comandos[1], &p.comandos[2], &p.comandos[3]) {
        (
            PossibleCommands::Branching(BranchingCommand::Label(a)),
            PossibleCommands::Branching(BranchingCommand::Goto(b)),
            PossibleCommands::Branching(BranchingCommand::IfGoto(c)),
        ) => {
            assert_eq!(a, "Main.f$LOOP");
            assert_eq!(a, b);
            assert_eq!(a, c);
        },
        _ => panic!("not branching commands"),
    }
    match (&p.comandos[5], &p.comandos[6]) {
        (
            PossibleCommands::Branching(BranchingCommand::Label(a)),
            PossibleCommands::Branching(BranchingCommand::Goto(b)),
        ) => {
            assert_eq!(a, "$TOP");
            assert_eq!(a, b);
        },
        _ => panic!("not branching commands"),
    }
}

#[test]
fn a_jump_before_its_label_and_a_redeclared_label() {
    // Labels are collected before the commands are read; a later declaration
    // of a name replaces an earlier one.
    let p = parse("goto X\nfunction A 0\nlabel X\nfunction B 0\nlabel X", false).unwrap();
    match (&p.comandos[0], &p.comandos[2], &p.comandos[4]) {
        (
            PossibleCommands::Branching(BranchingCommand::Goto(a)),
            PossibleCommands::Branching(BranchingCommand::Label(b)),
            PossibleCommands::Branching(BranchingCommand::Label(c)),
        ) => {
            assert_eq!(a, "B$X");
            assert_eq!(b, "B$X");
            assert_eq!(c, "B$X");
        },
        _ => panic!("not branching commands"),
    }
}

#[test]
fn can_parse_rejects_a_nameless_label() {
    assert!(!ComandosParseados::can_parse(&"add\nlabel\n".to_string()));
    assert!(ComandosParseados::can_parse(&"function\nlabel\n".to_string()));
    assert!(ComandosParseados::can_parse(&"label A\n".to_string()));
}

#[test]
fn memory_commands_translate() {
    let f = "Main.vm";
    let cases: Vec<(MemoryCommand, &str)> = vec![
        (MemoryCommand::Push(MemoryLocation::Constant(-3)), "@-3\nD=A\n@SP\nA=M\nM=D\n@SP\nM=M+1"),
        (MemoryCommand::Push(MemoryLocation::Temp(2)), "@7\nD=M\n@SP\nA=M\nM=D\n@SP\nM=M+1"),
        (MemoryCommand::Push(MemoryLocation::Static(4)), "@Main.vm.4\nD=M\n@SP\nA=M\nM=D\n@SP\nM=M+1"),
        (MemoryCommand::Push(MemoryLocation::Pointer(1)), "@THAT\nD=M\n@SP\nA=M\nM=D\n@SP\nM=M+1"),
        (MemoryCommand::Push(MemoryLocation::Argument(2)), "@2\nD=A\n@ARG\nA=M+D\nD=M\n@SP\nA=M\nM=D\n@SP\nM=M+1"),
        (MemoryCommand::Pop(MemoryLocation::Temp(0)), "@SP\nM=M-1\nA=M\nD=M\n@5\nM=D\n"),
        (MemoryCommand::Pop(MemoryLocation::Static(1)), "@SP\nM=M-1\nA=M\nD=M\n@Main.vm.1\nM=D\n"),
        (MemoryCommand::Pop(MemoryLocation::Pointer(0)), "@SP\nM=M-1\nA=M\nD=M\n@THIS\nM=D\n"),
        (
            MemoryCommand::Pop(MemoryLocation::Local(6)),
            "@6\nD=A\n@LCL\nD=D+M\n@SP\nM=M-1\nA=M\nA=M\nA=A+D\nD=D-A\nA=A+D\nD=-D\nM=D",
        ),
        (
            MemoryCommand::Pop(MemoryLocation::That(0)),
            "@0\nD=A\n@THAT\nD=D+M\n@SP\nM=M-1\nA=M\nA=M\nA=A+D\nD=D-A\nA=A+D\nD=-D\nM=D",
        ),
    ];
    for (m, want) in cases {
        assert_eq!(m.to_asm(f), want);
    }
}

#[test]
fn invalid_memory_commands_are_detected() {
    assert!(!memory_command_valid(&MemoryCommand::Pop(MemoryLocation::Constant(1))));
    assert!(!memory_command_valid(&MemoryCommand::Push(MemoryLocation::Temp(8))));
    assert!(!memory_command_valid(&MemoryCommand::Pop(MemoryLocation::Pointer(2))));
    assert!(memory_command_valid(&MemoryCommand::Push(MemoryLocation::Temp(7))));
    assert!(memory_command_valid(&MemoryCommand::Push(MemoryLocation::Constant(1))));
}

#[test]
fn arithmetic_and_branching_translate() {
    assert_eq!(ArithmeticCommand::Add.to_asm(0), "@SP\nM=M-1\nA=M\nD=M\n@SP\nA=M-1\nM=M+D");
    assert_eq!(ArithmeticCommand::Not.to_asm(0), "@SP\nA=M-1\nM=!M");
    let template = "@SP\nM=M-1\nA=M\nD=M\nA=A-1\nD=M-D\n@ETIQUETAINTERNAINICIAL*\nD;<\n@SP\nA=M-1\nM=0\n@ETIQUETAFINALSALIDA*\n0;JMP\n(ETIQUETAINTERNAINICIAL*)\n@SP\nA=M-1\nM=-1\n(ETIQUETAFINALSALIDA*)";
    assert_eq!(ArithmeticCommand::Gt.to_asm(12), template.replace('*', "12").replace('<', "JGT"));
    assert_eq!(ArithmeticCommand::Eq.to_asm(0), template.replace('*', "0").replace('<', "JEQ"));
    assert_eq!(BranchingCommand::Goto("f$A".to_string()).to_asm(), "@f$A\n0;JMP");
    assert_eq!(BranchingCommand::IfGoto("f$A".to_string()).to_asm(), "@SP\nM=M-1\nA=M\nD=M\n@f$A\nD;JNE");
    assert_eq!(BranchingCommand::Label("f$A".to_string()).to_asm(), "(f$A)");
}

#[test]
fn function_commands_translate() {
    let f = FunctionCommand::Function { name: "Main.f".to_string(), n_locals: 2 };
    let m = "MANGLED::::Main.f::::NaMe";
    let want = format!("(Main.f)\n@2\nD=A\n({m}START)\n@{m}END\nD;JEQ\n@SP\nA=M\nM=0\n@SP\nM=M+1\nD=D-1\n@{m}START\n0;JMP\n({m}END)");
    assert_eq!(f.to_asm(0), want);
    let c = FunctionCommand::Call { name: "Main.f".to_string(), n_args: 3 };
    assert_eq!(c.to_asm(9), call_text("Main.f", 3, 9));
    assert!(FunctionCommand::Return.to_asm(0).starts_with("@LCL\nD=M\n@R13\nM=D\n@5\nD=D-A\n"));
}

#[test]
fn new_compiler_holds_the_bootstrap_code() {
    let c = Compiler::new(false);
    assert_eq!(c.booting_code, booting());
    assert_eq!(c.compile(), booting());
}

#[test]
fn compile_translates_files_in_order() {
    let mut c = Compiler::new(false);
    c.parse_source("dir/A.vm".to_string(), "A.vm".to_string(), Some("push constant 7\npush constant 8\nadd\n".to_string())).unwrap();
    c.parse_source("dir/B.vm".to_string(), "B.vm".to_string(), Some("push static 2\n".to_string())).unwrap();
    assert!(c.can_compile());
    let want = format!(
        "{}@7\nD=A\n@SP\nA=M\nM=D\n@SP\nM=M+1\n@8\nD=A\n@SP\nA=M\nM=D\n@SP\nM=M+1\n@SP\nM=M-1\nA=M\nD=M\n@SP\nA=M-1\nM=M+D\n@B.vm.2\nD=M\n@SP\nA=M\nM=D\n@SP\nM=M+1\n",
        booting()
    );
    assert_eq!(c.compile(), want);
}

#[test]
fn verbose_compile_writes_each_line_as_a_comment() {
    let mut c = Compiler::new(true);
    c.parse_source("X.vm".to_string(), "X.vm".to_string(), Some("  neg  // negate\n".to_string())).unwrap();
    let want = format!("{}//neg  \n@SP\nA=M-1\nM=-M\n", booting());
    assert_eq!(c.compile(), want);
}

#[test]
fn calls_are_numbered_in_order_across_files() {
    let mut c = Compiler::new(false);
    c.parse_source("A.vm".to_string(), "A.vm".to_string(), Some("call f 0\ncall g 2".to_string())).unwrap();
    c.parse_source("B.vm".to_string(), "B.vm".to_string(), Some("call f 0".to_string())).unwrap();
    let want = format!("{}{}\n{}\n{}\n", booting(), call_text("f", 0, 1), call_text("g", 2, 2), call_text("f", 0, 3));
    assert_eq!(c.compile(), want);
}

#[test]
fn comparisons_use_their_index_in_the_file() {
    let mut c = Compiler::new(false);
    c.parse_source("A.vm".to_string(), "A.vm".to_string(), Some("push constant 1\neq".to_string())).unwrap();
    let out = c.compile();
    assert!(out.contains("(ETIQUETAINTERNAINICIAL1)"));
    assert!(out.contains("D;JEQ"));
}

#[test]
fn parse_source_reports_errors_with_the_path() {
    let mut c = Compiler::new(false);
    let e = c.parse_source("d/Missing.vm".to_string(), "Missing.vm".to_string(), None).unwrap_err();
    assert_eq!(e.file_str(), "d/Missing.vm");
    assert!(matches!(e.compilation_error(), CompilationError::FileAccessing { file } if file == "d/Missing.vm"));
    let e = c.parse_source("d/Bad.vm".to_string(), "Bad.vm".to_string(), Some("add\nwhat".to_string())).unwrap_err();
    assert_eq!(e.file_str(), "d/Bad.vm");
    assert!(matches!(e.compilation_error(), CompilationError::UnknownCommand { line: 2 }));
    assert_eq!(c.compile(), booting());
}

#[test]
fn can_compile_rejects_what_would_fail() {
    let mut c = Compiler::new(false);
    c.parse_source("A.vm".to_string(), "A.vm".to_string(), Some("pop constant 1".to_string())).unwrap();
    assert!(!c.can_compile());
    let mut c = Compiler::new(false);
    c.parse_source("A.vm".to_string(), "A.vm".to_string(), Some("push pointer 2".to_string())).unwrap();
    assert!(!c.can_compile());
    let mut c = Compiler::new(false);
    c.parse_source("A.vm".to_string(), "A.vm".to_string(), Some(format!("call f {}", usize::MAX))).unwrap();
    assert!(!c.can_compile());
}
