//! What the translated code does on the Hack machine: each command's text is
//! the text of a Hack program, and running that program does what the
//! command means.

use vstd::prelude::*;
use crate::assembly::{arithmetic_asm, memory_asm, memory_valid, pop_signature, location_index};
use crate::command::{ArithmeticCommand, MemoryCommand, MemoryLocation};
use crate::hack::{
    Comp, Hack, Instr, Jump, Reg, instr_text, lemma_run_add, render, run, step, symbol, sym_sp,
};
use crate::number::int_dec;

verus! {

/// `@SP`, `A=M`, `M=D`, `@SP`, `M=M+1`: push `D`.
pub open spec fn push_d() -> Seq<Instr> {
    seq![
        Instr::At(sym_sp()),
        Instr::Assign(Reg::A, Comp::Get(Reg::M)),
        Instr::Assign(Reg::M, Comp::Get(Reg::D)),
        Instr::At(sym_sp()),
        Instr::Assign(Reg::M, Comp::Inc(Reg::M)),
    ]
}

/// The name of the base pointer of `local`, `argument`, `this` and `that`.
pub open spec fn base_sym(l: MemoryLocation) -> Seq<char> {
    match l {
        MemoryLocation::Local(_) => seq!['L', 'C', 'L'],
        MemoryLocation::This(_) => seq!['T', 'H', 'I', 'S'],
        MemoryLocation::That(_) => seq!['T', 'H', 'A', 'T'],
        _ => seq!['A', 'R', 'G'],
    }
}

/// The address of the base pointer of `local`, `argument`, `this` and `that`.
pub open spec fn base_addr(l: MemoryLocation) -> int {
    match l {
        MemoryLocation::Local(_) => 1,
        MemoryLocation::This(_) => 3,
        MemoryLocation::That(_) => 4,
        _ => 2,
    }
}

/// The variable that `static n` of the file `file` names: `file.n`.
pub open spec fn static_sym(file: Seq<char>, n: i16) -> Seq<char> {
    file + seq!['.'] + int_dec(n as int)
}

/// `THIS` for pointer 0, `THAT` for pointer 1.
pub open spec fn pointer_sym(p: i16) -> Seq<char> {
    if p == 0 {
        seq!['T', 'H', 'I', 'S']
    } else {
        seq!['T', 'H', 'A', 'T']
    }
}

/// The program of a `push`.
pub open spec fn push_prog(l: MemoryLocation, file: Seq<char>) -> Seq<Instr> {
    match l {
        MemoryLocation::Constant(c) => seq![
            Instr::AtNum(c as int),
            Instr::Assign(Reg::D, Comp::Get(Reg::A)),
        ] + push_d(),
        MemoryLocation::Temp(t) => seq![
            Instr::AtNum(t + 5),
            Instr::Assign(Reg::D, Comp::Get(Reg::M)),
        ] + push_d(),
        MemoryLocation::Static(n) => seq![
            Instr::At(static_sym(file, n)),
            Instr::Assign(Reg::D, Comp::Get(Reg::M)),
        ] + push_d(),
        MemoryLocation::Pointer(q) => seq![
            Instr::At(pointer_sym(q)),
            Instr::Assign(Reg::D, Comp::Get(Reg::M)),
        ] + push_d(),
        _ => seq![
            Instr::AtNum(location_index(l) as int),
            Instr::Assign(Reg::D, Comp::Get(Reg::A)),
            Instr::At(base_sym(l)),
            Instr::Assign(Reg::A, Comp::Add(Reg::M, Reg::D)),
            Instr::Assign(Reg::D, Comp::Get(Reg::M)),
        ] + push_d(),
    }
}

/// The text of a program of `n >= 1` lines followed by another program of
/// at least one line.
pub proof fn lemma_render_append(p: Seq<Instr>, q: Seq<Instr>)
    requires
        p.len() >= 1,
        q.len() >= 1,
    ensures
        render(p + q) == render(p) + seq!['\n'] + render(q),
    decreases q.len(),
{
    if q.len() == 1 {
        assert((p + q).drop_last() =~= p);
    } else {
        lemma_render_append(p, q.drop_last());
        assert((p + q).drop_last() =~= p + q.drop_last());
        assert(render(p + q) =~= render(p) + seq!['\n'] + render(q));
    }
}

pub proof fn lemma_push_d_text()
    ensures
        render(push_d()) == push_d_chars(),
{
    let p = push_d();
    lemma_five(p[0], p[1], p[2], p[3], p[4]);
    assert(p =~= seq![p[0], p[1], p[2], p[3], p[4]]);
    assert(render(push_d()) =~= push_d_chars());
}

/// The text of a program of two lines.
pub proof fn lemma_two(a: Instr, b: Instr)
    ensures
        render(seq![a, b]) == instr_text(a) + seq!['\n'] + instr_text(b),
{
    reveal_with_fuel(render, 2);
    assert(seq![a, b].drop_last() =~= seq![a]);
}

/// The text of a program of three lines.
pub proof fn lemma_three(a: Instr, b: Instr, c: Instr)
    ensures
        render(seq![a, b, c]) == instr_text(a) + seq!['\n'] + instr_text(b) + seq!['\n']
            + instr_text(c),
{
    reveal_with_fuel(render, 3);
    let p = seq![a, b, c];
    assert(p.drop_last().drop_last() =~= seq![a]);
    assert(p.drop_last() =~= seq![a, b]);
}

/// The text of a program of four lines.
pub proof fn lemma_four(a: Instr, b: Instr, c: Instr, d: Instr)
    ensures
        render(seq![a, b, c, d]) == instr_text(a) + seq!['\n'] + instr_text(b) + seq!['\n']
            + instr_text(c) + seq!['\n'] + instr_text(d),
{
    reveal_with_fuel(render, 4);
    let p = seq![a, b, c, d];
    assert(p.drop_last().drop_last().drop_last() =~= seq![a]);
    assert(p.drop_last().drop_last() =~= seq![a, b]);
    assert(p.drop_last() =~= seq![a, b, c]);
}

/// The text of a program of five lines.
pub proof fn lemma_five(a: Instr, b: Instr, c: Instr, d: Instr, e: Instr)
    ensures
        render(seq![a, b, c, d, e]) == instr_text(a) + seq!['\n'] + instr_text(b) + seq!['\n']
            + instr_text(c) + seq!['\n'] + instr_text(d) + seq!['\n'] + instr_text(e),
{
    reveal_with_fuel(render, 5);
    let p = seq![a, b, c, d, e];
    assert(p.drop_last().drop_last().drop_last().drop_last() =~= seq![a]);
    assert(p.drop_last().drop_last().drop_last() =~= seq![a, b]);
    assert(p.drop_last().drop_last() =~= seq![a, b, c]);
    assert(p.drop_last() =~= seq![a, b, c, d]);
}

/// The characters of `@SP\nA=M\nM=D\n@SP\nM=M+1`.
pub open spec fn push_d_chars() -> Seq<char> {
    seq!['@', 'S', 'P', '\n', 'A', '=', 'M', '\n', 'M', '=', 'D', '\n', '@', 'S', 'P', '\n', 'M', '=', 'M', '+', '1']
}

proof fn lemma_lit_d_a_push() ensures "\nD=A\n@SP\nA=M\nM=D\n@SP\nM=M+1"@ == seq!['\n', 'D', '=', 'A', '\n'] + push_d_chars() {
    reveal_strlit("\nD=A\n@SP\nA=M\nM=D\n@SP\nM=M+1");
    assert("\nD=A\n@SP\nA=M\nM=D\n@SP\nM=M+1"@ =~= seq!['\n', 'D', '=', 'A', '\n'] + push_d_chars());
}

proof fn lemma_lit_d_m_push() ensures "\nD=M\n@SP\nA=M\nM=D\n@SP\nM=M+1"@ == seq!['\n', 'D', '=', 'M', '\n'] + push_d_chars() {
    reveal_strlit("\nD=M\n@SP\nA=M\nM=D\n@SP\nM=M+1");
    assert("\nD=M\n@SP\nA=M\nM=D\n@SP\nM=M+1"@ =~= seq!['\n', 'D', '=', 'M', '\n'] + push_d_chars());
}

proof fn lemma_lit_pointer_push()
    ensures
        "@THIS\nD=M\n@SP\nA=M\nM=D\n@SP\nM=M+1"@ == seq!['@', 'T', 'H', 'I', 'S', '\n', 'D', '=', 'M', '\n'] + push_d_chars(),
        "@THAT\nD=M\n@SP\nA=M\nM=D\n@SP\nM=M+1"@ == seq!['@', 'T', 'H', 'A', 'T', '\n', 'D', '=', 'M', '\n'] + push_d_chars(),
{
    reveal_strlit("@THIS\nD=M\n@SP\nA=M\nM=D\n@SP\nM=M+1");
    reveal_strlit("@THAT\nD=M\n@SP\nA=M\nM=D\n@SP\nM=M+1");
    assert("@THIS\nD=M\n@SP\nA=M\nM=D\n@SP\nM=M+1"@ =~= seq!['@', 'T', 'H', 'I', 'S', '\n', 'D', '=', 'M', '\n'] + push_d_chars());
    assert("@THAT\nD=M\n@SP\nA=M\nM=D\n@SP\nM=M+1"@ =~= seq!['@', 'T', 'H', 'A', 'T', '\n', 'D', '=', 'M', '\n'] + push_d_chars());
}

proof fn lemma_lit_segment_push()
    ensures
        "\nA=M+D\nD=M\n@SP\nA=M\nM=D\n@SP\nM=M+1"@ == seq!['\n', 'A', '=', 'M', '+', 'D', '\n', 'D', '=', 'M', '\n'] + push_d_chars(),
        "\nD=A\n@"@ == seq!['\n', 'D', '=', 'A', '\n', '@'],
        "LCL"@ == seq!['L', 'C', 'L'],
        "ARG"@ == seq!['A', 'R', 'G'],
        "THIS"@ == seq!['T', 'H', 'I', 'S'],
        "THAT"@ == seq!['T', 'H', 'A', 'T'],
        "@"@ == seq!['@'],
        "."@ == seq!['.'],
{
    reveal_strlit("\nA=M+D\nD=M\n@SP\nA=M\nM=D\n@SP\nM=M+1");
    reveal_strlit("\nD=A\n@");
    reveal_strlit("LCL");
    reveal_strlit("ARG");
    reveal_strlit("THIS");
    reveal_strlit("THAT");
    reveal_strlit("@");
    reveal_strlit(".");
    assert("\nA=M+D\nD=M\n@SP\nA=M\nM=D\n@SP\nM=M+1"@ =~= seq!['\n', 'A', '=', 'M', '+', 'D', '\n', 'D', '=', 'M', '\n'] + push_d_chars());
    assert("\nD=A\n@"@ =~= seq!['\n', 'D', '=', 'A', '\n', '@']);
    assert("LCL"@ =~= seq!['L', 'C', 'L']);
    assert("ARG"@ =~= seq!['A', 'R', 'G']);
    assert("THIS"@ =~= seq!['T', 'H', 'I', 'S']);
    assert("THAT"@ =~= seq!['T', 'H', 'A', 'T']);
    assert("@"@ =~= seq!['@']);
    assert("."@ =~= seq!['.']);
}

proof fn lemma_push_text_short(l: MemoryLocation, file: Seq<char>, first: Seq<char>, second: Seq<char>)
    requires
        push_prog(l, file).len() == 7,
        instr_text(push_prog(l, file)[0]) == first,
        instr_text(push_prog(l, file)[1]) == second,
    ensures
        render(push_prog(l, file)) == first + seq!['\n'] + second + seq!['\n'] + push_d_chars(),
{
    let p = push_prog(l, file);
    let head = seq![p[0], p[1]];
    assert(p =~= head + push_d()) by {
        assert(p.subrange(2, 7) =~= push_d());
    }
    lemma_render_append(head, push_d());
    lemma_push_d_text();
    lemma_two(p[0], p[1]);
}

/// The text of a `push` is the text of its program.
#[verifier::spinoff_prover]
#[verifier::rlimit(60)]
pub proof fn lemma_push_text(l: MemoryLocation, file: Seq<char>)
    requires
        memory_valid(MemoryCommand::Push(l)),
    ensures
        memory_asm(MemoryCommand::Push(l), file) == render(push_prog(l, file)),
{
    let p = push_prog(l, file);
    let t = memory_asm(MemoryCommand::Push(l), file);
    lemma_lit_segment_push();
    match l {
        MemoryLocation::Constant(c) => {
            let first = seq!['@'] + int_dec(c as int);
            assert(instr_text(p[1]) =~= seq!['D', '=', 'A']);
            lemma_push_text_short(l, file, first, seq!['D', '=', 'A']);
            lemma_lit_d_a_push();
            assert(t =~= render(p));
        },
        MemoryLocation::Temp(c) => {
            let first = seq!['@'] + int_dec(c + 5);
            assert(instr_text(p[1]) =~= seq!['D', '=', 'M']);
            lemma_push_text_short(l, file, first, seq!['D', '=', 'M']);
            lemma_lit_d_m_push();
            assert(t =~= render(p));
        },
        MemoryLocation::Static(c) => {
            let first = seq!['@'] + static_sym(file, c);
            assert(instr_text(p[1]) =~= seq!['D', '=', 'M']);
            lemma_push_text_short(l, file, first, seq!['D', '=', 'M']);
            lemma_lit_d_m_push();
            assert(t =~= render(p));
        },
        MemoryLocation::Pointer(q) => {
            let first = seq!['@'] + pointer_sym(q);
            assert(instr_text(p[1]) =~= seq!['D', '=', 'M']);
            lemma_push_text_short(l, file, first, seq!['D', '=', 'M']);
            lemma_lit_pointer_push();
            assert(t =~= render(p));
        },
        _ => {
            lemma_push_text_segment(l, file);
        },
    }
}

#[verifier::spinoff_prover]
#[verifier::rlimit(60)]
proof fn lemma_push_text_segment(l: MemoryLocation, file: Seq<char>)
    requires
        l is Local || l is Argument || l is This || l is That,
    ensures
        memory_asm(MemoryCommand::Push(l), file) == render(push_prog(l, file)),
{
    let p = push_prog(l, file);
    let head = seq![p[0], p[1], p[2], p[3], p[4]];
    assert(p =~= head + push_d()) by {
        assert(p.subrange(5, 10) =~= push_d());
    }
    lemma_render_append(head, push_d());
    lemma_push_d_text();
    lemma_five(p[0], p[1], p[2], p[3], p[4]);
    lemma_lit_segment_push();
    let t = memory_asm(MemoryCommand::Push(l), file);
    assert(t =~= render(p));
}


/// The value that a `push` puts on the stack, in the machine state `m`.
pub open spec fn push_value(
    l: MemoryLocation,
    file: Seq<char>,
    vars: spec_fn(Seq<char>) -> int,
    m: Hack,
) -> i16 {
    match l {
        MemoryLocation::Constant(c) => c,
        MemoryLocation::Temp(t) => (m.ram)(t + 5),
        MemoryLocation::Static(n) => (m.ram)(
            (symbol(push_prog(l, file), vars, static_sym(file, n)) as i16) as int,
        ),
        MemoryLocation::Pointer(q) => (m.ram)(
            if q == 0 {
                3
            } else {
                4
            },
        ),
        _ => (m.ram)((((m.ram)(base_addr(l)) + location_index(l)) as i16) as int),
    }
}

/// Running the last five lines of a `push` (push `D`) from line `i`.
#[verifier::spinoff_prover]
#[verifier::rlimit(60)]
proof fn lemma_push_d_runs(p: Seq<Instr>, vars: spec_fn(Seq<char>) -> int, m: Hack, i: int)
    requires
        0 <= i,
        p.len() == i + 5,
        p.subrange(i, i + 5) == push_d(),
        m.pc == i,
        1 <= (m.ram)(0) < 32767,
    ensures
        ({
            let r = run(p, vars, m, 5);
            &&& r.pc == p.len()
            &&& (r.ram)(0) == (m.ram)(0) + 1
            &&& (r.ram)((m.ram)(0) as int) == m.d
            &&& forall|k: int| k != 0 && k != (m.ram)(0) ==> #[trigger] (r.ram)(k) == (m.ram)(k)
        }),
{
    assert(p[i] == push_d()[0]);
    assert(p[i + 1] == push_d()[1]);
    assert(p[i + 2] == push_d()[2]);
    assert(p[i + 3] == push_d()[3]);
    assert(p[i + 4] == push_d()[4]);
    assert(crate::hack::predefined(sym_sp()) == Some(0int));
    assert(symbol(p, vars, sym_sp()) == 0);
    let m1 = step(p, vars, m);
    let m2 = step(p, vars, m1);
    let m3 = step(p, vars, m2);
    let m4 = step(p, vars, m3);
    let m5 = step(p, vars, m4);
    assert(m1.a == 0 && m1.pc == i + 1);
    assert(m2.a == (m.ram)(0) && m2.pc == i + 2);
    assert(m3.pc == i + 3 && (m3.ram)((m.ram)(0) as int) == m.d);
    assert(m4.a == 0 && m4.pc == i + 4);
    assert(m5.pc == i + 5);
    assert((m5.ram)(0) == (m.ram)(0) + 1);
    reveal_with_fuel(run, 6);
    assert(run(p, vars, m, 5) == m5);
}


/// A `push` on the Hack machine: from a state whose stack pointer `sp` lies
/// in `1..32766`, running the `push`'s program to its end stores the pushed
/// value (see `push_value`) at `RAM[sp]`, moves the stack pointer to `sp + 1`
/// and leaves every other cell of the memory as it was; and the `push`'s text
/// is that program's text.
#[verifier::spinoff_prover]
#[verifier::rlimit(60)]
pub proof fn lemma_push_runs(l: MemoryLocation, file: Seq<char>, vars: spec_fn(Seq<char>) -> int, m: Hack)
    requires
        memory_valid(MemoryCommand::Push(l)),
        m.pc == 0,
        1 <= (m.ram)(0) < 32767,
    ensures
        memory_asm(MemoryCommand::Push(l), file) == render(push_prog(l, file)),
        ({
            let p = push_prog(l, file);
            let r = run(p, vars, m, p.len());
            &&& r.pc == p.len()
            &&& (r.ram)(0) == (m.ram)(0) + 1
            &&& (r.ram)((m.ram)(0) as int) == push_value(l, file, vars, m)
            &&& forall|k: int| k != 0 && k != (m.ram)(0) ==> #[trigger] (r.ram)(k) == (m.ram)(k)
        }),
{
    lemma_push_text(l, file);
    let p = push_prog(l, file);
    let n = (p.len() - 5) as nat;
    assert(p.subrange(n as int, n as int + 5) =~= push_d());
    let m1 = step(p, vars, m);
    let m2 = step(p, vars, m1);
    match l {
        MemoryLocation::Pointer(q) => {
            assert(crate::hack::predefined(pointer_sym(q)) == Some(if q == 0 { 3int } else { 4int }));
        },
        _ => {},
    }
    if n == 2 {
        reveal_with_fuel(run, 3);
        assert(run(p, vars, m, 2) == m2);
        assert(m2.pc == 2 && m2.ram == m.ram && m2.d == push_value(l, file, vars, m));
        lemma_push_d_runs(p, vars, m2, 2);
        lemma_run_add(p, vars, m, 2, 5);
    } else {
        let m3 = step(p, vars, m2);
        let m4 = step(p, vars, m3);
        let m5 = step(p, vars, m4);
        assert(crate::hack::predefined(base_sym(l)) == Some(base_addr(l)));
        reveal_with_fuel(run, 6);
        assert(run(p, vars, m, 5) == m5);
        assert(m5.pc == 5 && m5.ram == m.ram && m5.d == push_value(l, file, vars, m));
        lemma_push_d_runs(p, vars, m5, 5);
        lemma_run_add(p, vars, m, 5, 5);
    }
}


/// `@SP`, `M=M-1`, `A=M`, `D=M`: pop into `D`.
pub open spec fn pop_d() -> Seq<Instr> {
    seq![
        Instr::At(sym_sp()),
        Instr::Assign(Reg::M, Comp::Dec(Reg::M)),
        Instr::Assign(Reg::A, Comp::Get(Reg::M)),
        Instr::Assign(Reg::D, Comp::Get(Reg::M)),
    ]
}

/// The program of a `pop` (not into `constant`).
pub open spec fn pop_prog(l: MemoryLocation, file: Seq<char>) -> Seq<Instr> {
    match l {
        MemoryLocation::Temp(t) => pop_d() + seq![
            Instr::AtNum(t + 5),
            Instr::Assign(Reg::M, Comp::Get(Reg::D)),
        ],
        MemoryLocation::Static(n) => pop_d() + seq![
            Instr::At(static_sym(file, n)),
            Instr::Assign(Reg::M, Comp::Get(Reg::D)),
        ],
        MemoryLocation::Pointer(q) => pop_d() + seq![
            Instr::At(pointer_sym(q)),
            Instr::Assign(Reg::M, Comp::Get(Reg::D)),
        ],
        _ => seq![
            Instr::AtNum(location_index(l) as int),
            Instr::Assign(Reg::D, Comp::Get(Reg::A)),
            Instr::At(base_sym(l)),
        ] + pop_indirect(),
    }
}

/// The tail of a `pop` through a base pointer: with the target address in
/// `D`, pop into it.
pub open spec fn pop_indirect() -> Seq<Instr> {
    seq![
        Instr::Assign(Reg::D, Comp::Add(Reg::D, Reg::M)),
        Instr::At(sym_sp()),
        Instr::Assign(Reg::M, Comp::Dec(Reg::M)),
        Instr::Assign(Reg::A, Comp::Get(Reg::M)),
        Instr::Assign(Reg::A, Comp::Get(Reg::M)),
        Instr::Assign(Reg::A, Comp::Add(Reg::A, Reg::D)),
        Instr::Assign(Reg::D, Comp::Sub(Reg::D, Reg::A)),
        Instr::Assign(Reg::A, Comp::Add(Reg::A, Reg::D)),
        Instr::Assign(Reg::D, Comp::Neg(Reg::D)),
        Instr::Assign(Reg::M, Comp::Get(Reg::D)),
    ]
}

/// What the text of a `pop` has after its program's text: a line end, but
/// for `local`, `argument`, `this` and `that`.
pub open spec fn pop_text_end(l: MemoryLocation) -> Seq<char> {
    match l {
        MemoryLocation::Temp(_) | MemoryLocation::Static(_) | MemoryLocation::Pointer(_) => seq!['\n'],
        _ => Seq::empty(),
    }
}

/// The cell that a `pop` writes, in the machine state `m`.
pub open spec fn pop_target(
    l: MemoryLocation,
    file: Seq<char>,
    vars: spec_fn(Seq<char>) -> int,
    m: Hack,
) -> int {
    match l {
        MemoryLocation::Temp(t) => t + 5,
        MemoryLocation::Static(n) => (symbol(pop_prog(l, file), vars, static_sym(file, n)) as i16) as int,
        MemoryLocation::Pointer(q) => if q == 0 {
            3
        } else {
            4
        },
        _ => ((location_index(l) + (m.ram)(base_addr(l))) as i16) as int,
    }
}

/// The characters of `@SP\nM=M-1\nA=M\nD=M`.
pub open spec fn pop_d_chars() -> Seq<char> {
    seq!['@', 'S', 'P', '\n', 'M', '=', 'M', '-', '1', '\n', 'A', '=', 'M', '\n', 'D', '=', 'M']
}

/// The text of `pop_indirect`.
pub open spec fn pop_indirect_chars() -> Seq<char> {
    seq!['D', '=', 'D', '+', 'M', '\n', '@', 'S', 'P', '\n', 'M', '=', 'M', '-', '1', '\n', 'A', '=', 'M', '\n', 'A', '=', 'M', '\n',
        'A', '=', 'A', '+', 'D', '\n', 'D', '=', 'D', '-', 'A', '\n', 'A', '=', 'A', '+', 'D', '\n', 'D', '=', '-', 'D', '\n', 'M', '=', 'D']
}

proof fn lemma_lit_pop()
    ensures
        pop_signature() == pop_d_chars() + seq!['\n'],
        "\nM=D\n"@ == seq!['\n', 'M', '=', 'D', '\n'],
        "@THIS\nM=D\n"@ == seq!['@', 'T', 'H', 'I', 'S', '\n', 'M', '=', 'D', '\n'],
        "@THAT\nM=D\n"@ == seq!['@', 'T', 'H', 'A', 'T', '\n', 'M', '=', 'D', '\n'],
        "\nD=D+M\n@SP\nM=M-1\nA=M\nA=M\nA=A+D\nD=D-A\nA=A+D\nD=-D\nM=D"@ == seq!['\n'] + pop_indirect_chars(),
{
    reveal_strlit("@SP\nM=M-1\nA=M\nD=M\n");
    reveal_strlit("\nM=D\n");
    reveal_strlit("@THIS\nM=D\n");
    reveal_strlit("@THAT\nM=D\n");
    reveal_strlit("\nD=D+M\n@SP\nM=M-1\nA=M\nA=M\nA=A+D\nD=D-A\nA=A+D\nD=-D\nM=D");
    assert(pop_signature() =~= pop_d_chars() + seq!['\n']);
    assert("\nM=D\n"@ =~= seq!['\n', 'M', '=', 'D', '\n']);
    assert("@THIS\nM=D\n"@ =~= seq!['@', 'T', 'H', 'I', 'S', '\n', 'M', '=', 'D', '\n']);
    assert("@THAT\nM=D\n"@ =~= seq!['@', 'T', 'H', 'A', 'T', '\n', 'M', '=', 'D', '\n']);
    assert("\nD=D+M\n@SP\nM=M-1\nA=M\nA=M\nA=A+D\nD=D-A\nA=A+D\nD=-D\nM=D"@ =~= seq!['\n'] + pop_indirect_chars());
}

/// The text of `pop_d`.
pub proof fn lemma_pop_d_text()
    ensures
        render(pop_d()) == pop_d_chars(),
{
    let p = pop_d();
    assert(p =~= seq![p[0], p[1], p[2], p[3]]);
    lemma_four(p[0], p[1], p[2], p[3]);
    assert(render(p) =~= pop_d_chars());
}

proof fn lemma_pop_indirect_text()
    ensures
        render(pop_indirect()) == pop_indirect_chars(),
{
    let p = pop_indirect();
    let x = seq![p[0], p[1], p[2], p[3], p[4]];
    let y = seq![p[5], p[6], p[7], p[8], p[9]];
    assert(p =~= x + y);
    lemma_five(p[0], p[1], p[2], p[3], p[4]);
    lemma_five(p[5], p[6], p[7], p[8], p[9]);
    lemma_render_append(x, y);
    assert(render(p) =~= pop_indirect_chars());
}

/// The text of a `pop` is the text of its program, followed by `pop_text_end`.
#[verifier::spinoff_prover]
#[verifier::rlimit(60)]
pub proof fn lemma_pop_text(l: MemoryLocation, file: Seq<char>)
    requires
        memory_valid(MemoryCommand::Pop(l)),
    ensures
        memory_asm(MemoryCommand::Pop(l), file) == render(pop_prog(l, file)) + pop_text_end(l),
{
    let p = pop_prog(l, file);
    let t = memory_asm(MemoryCommand::Pop(l), file);
    lemma_lit_pop();
    lemma_lit_segment_push();
    match l {
        MemoryLocation::Temp(_) | MemoryLocation::Static(_) | MemoryLocation::Pointer(_) => {
            let tail = seq![p[4], p[5]];
            assert(p =~= pop_d() + tail);
            lemma_render_append(pop_d(), tail);
            lemma_pop_d_text();
            lemma_two(p[4], p[5]);
            assert(instr_text(p[5]) =~= seq!['M', '=', 'D']);
            assert(t =~= render(p) + pop_text_end(l));
        },
        _ => {
            let head = seq![p[0], p[1], p[2]];
            assert(p =~= head + pop_indirect());
            lemma_render_append(head, pop_indirect());
            lemma_pop_indirect_text();
            lemma_three(p[0], p[1], p[2]);
            assert(instr_text(p[1]) =~= seq!['D', '=', 'A']);
            assert(t =~= render(p) + pop_text_end(l));
        },
    }
}


/// Running the four lines of `pop_d` from line `i`: the stack pointer
/// moves down by one and its top lands in `D` (and its address in `A`).
#[verifier::spinoff_prover]
#[verifier::rlimit(60)]
pub proof fn lemma_pop_d_runs(p: Seq<Instr>, vars: spec_fn(Seq<char>) -> int, m: Hack, i: int)
    requires
        0 <= i,
        p.len() >= i + 4,
        p.subrange(i, i + 4) == pop_d(),
        m.pc == i,
        2 <= (m.ram)(0),
    ensures
        ({
            let r = run(p, vars, m, 4);
            &&& r.pc == i + 4
            &&& r.a == (m.ram)(0) - 1
            &&& r.d == (m.ram)((m.ram)(0) - 1)
            &&& r.ram == crate::hack::write(m.ram, 0, ((m.ram)(0) - 1) as i16)
        }),
{
    assert(p[i] == pop_d()[0]);
    assert(p[i + 1] == pop_d()[1]);
    assert(p[i + 2] == pop_d()[2]);
    assert(p[i + 3] == pop_d()[3]);
    assert(crate::hack::predefined(sym_sp()) == Some(0int));
    let m1 = step(p, vars, m);
    let m2 = step(p, vars, m1);
    let m3 = step(p, vars, m2);
    let m4 = step(p, vars, m3);
    assert(m1.a == 0 && m1.pc == i + 1);
    assert(m2.pc == i + 2 && m2.ram == crate::hack::write(m.ram, 0, ((m.ram)(0) - 1) as i16));
    assert(m3.a == (m.ram)(0) - 1 && m3.pc == i + 3);
    assert(m4.d == (m.ram)((m.ram)(0) - 1) && m4.pc == i + 4);
    reveal_with_fuel(run, 5);
    assert(run(p, vars, m, 4) == m4);
}

/// A `pop` on the Hack machine: from a state whose stack pointer `sp` is at
/// least 2, running the `pop`'s program to its end moves the stack pointer to
/// `sp - 1` and stores the value that was on top of the stack, `RAM[sp - 1]`,
/// into the target cell (see `pop_target`; a target of cell 0 overwrites the
/// stack pointer), leaving every other cell as it was; and the `pop`'s text
/// is that program's text (and a line end for `temp`, `static` and `pointer`).
#[verifier::spinoff_prover]
#[verifier::rlimit(60)]
pub proof fn lemma_pop_runs(l: MemoryLocation, file: Seq<char>, vars: spec_fn(Seq<char>) -> int, m: Hack)
    requires
        memory_valid(MemoryCommand::Pop(l)),
        m.pc == 0,
        2 <= (m.ram)(0),
    ensures
        memory_asm(MemoryCommand::Pop(l), file) == render(pop_prog(l, file)) + pop_text_end(l),
        ({
            let p = pop_prog(l, file);
            let r = run(p, vars, m, p.len());
            let a = pop_target(l, file, vars, m);
            let sp = (m.ram)(0);
            &&& r.pc == p.len()
            &&& (r.ram)(a) == (m.ram)(sp - 1)
            &&& (r.ram)(0) == if a == 0 { (m.ram)(sp - 1) } else { (sp - 1) as i16 }
            &&& forall|k: int| k != 0 && k != a ==> #[trigger] (r.ram)(k) == (m.ram)(k)
        }),
{
    lemma_pop_text(l, file);
    let p = pop_prog(l, file);
    let sp = (m.ram)(0);
    let y = (m.ram)(sp - 1);
    match l {
        MemoryLocation::Temp(_) | MemoryLocation::Static(_) | MemoryLocation::Pointer(_) => {
            assert(p.subrange(0, 4) =~= pop_d());
            lemma_pop_d_runs(p, vars, m, 0);
            let m4 = run(p, vars, m, 4);
            if let MemoryLocation::Pointer(q) = l {
                assert(crate::hack::predefined(pointer_sym(q)) == Some(if q == 0 { 3int } else { 4int }));
            }
            let m5 = step(p, vars, m4);
            let m6 = step(p, vars, m5);
            assert(m5.a as int == pop_target(l, file, vars, m) && m5.pc == 5);
            assert(m6.pc == 6 && m6.ram == crate::hack::write(m4.ram, pop_target(l, file, vars, m), y));
            reveal_with_fuel(run, 3);
            assert(run(p, vars, m4, 2) == m6);
            lemma_run_add(p, vars, m, 4, 2);
        },
        _ => {
            lemma_pop_indirect_runs(l, file, vars, m);
        },
    }
}

#[verifier::spinoff_prover]
#[verifier::rlimit(60)]
proof fn lemma_pop_indirect_runs(l: MemoryLocation, file: Seq<char>, vars: spec_fn(Seq<char>) -> int, m: Hack)
    requires
        l is Local || l is Argument || l is This || l is That,
        m.pc == 0,
        2 <= (m.ram)(0),
    ensures
        ({
            let p = pop_prog(l, file);
            let r = run(p, vars, m, p.len());
            let a = pop_target(l, file, vars, m);
            let sp = (m.ram)(0);
            &&& r.pc == p.len()
            &&& (r.ram)(a) == (m.ram)(sp - 1)
            &&& (r.ram)(0) == if a == 0 { (m.ram)(sp - 1) } else { (sp - 1) as i16 }
            &&& forall|k: int| k != 0 && k != a ==> #[trigger] (r.ram)(k) == (m.ram)(k)
        }),
{
    let p = pop_prog(l, file);
    let sp = (m.ram)(0);
    let y: i16 = (m.ram)(sp - 1);
    assert(crate::hack::predefined(base_sym(l)) == Some(base_addr(l)));
    assert(crate::hack::predefined(sym_sp()) == Some(0int));
    let m1 = step(p, vars, m);
    let m2 = step(p, vars, m1);
    let m3 = step(p, vars, m2);
    let m4 = step(p, vars, m3);
    let addr: i16 = m4.d;
    assert(addr == ((location_index(l) + (m.ram)(base_addr(l))) as i16));
    let m5 = step(p, vars, m4);
    let m6 = step(p, vars, m5);
    let m7 = step(p, vars, m6);
    let m8 = step(p, vars, m7);
    assert(m8.a == y && m8.d == addr && m8.pc == 8);
    assert(m8.ram == crate::hack::write(m.ram, 0, (sp - 1) as i16));
    let m9 = step(p, vars, m8);
    let m10 = step(p, vars, m9);
    let m11 = step(p, vars, m10);
    let m12 = step(p, vars, m11);
    let m13 = step(p, vars, m12);
    let u: i16 = m9.a;
    let w: i16 = m10.d;
    assert(u == (y + addr) as i16);
    assert(w == (addr - u) as i16);
    assert(((u + w) as i16) == addr && ((0 - w) as i16) == y) by (bit_vector)
        requires
            u == (y + addr) as i16,
            w == (addr - u) as i16,
    ;
    assert(m11.a == addr);
    assert(m12.d == y);
    assert(m13.pc == 13 && m13.ram == crate::hack::write(m8.ram, addr as int, y));
    reveal_with_fuel(run, 14);
    assert(run(p, vars, m, 13) == m13);
}


/// The computation of a binary arithmetic command: `M` (the operand below
/// the top) with `D` (the top).
pub open spec fn binary_comp(a: ArithmeticCommand) -> Comp {
    match a {
        ArithmeticCommand::Add => Comp::Add(Reg::M, Reg::D),
        ArithmeticCommand::Sub => Comp::Sub(Reg::M, Reg::D),
        ArithmeticCommand::And => Comp::And(Reg::M, Reg::D),
        _ => Comp::Or(Reg::M, Reg::D),
    }
}

/// `add`, `sub`, `and` and `or`.
pub open spec fn is_binary(a: ArithmeticCommand) -> bool {
    a is Add || a is Sub || a is And || a is Or
}

/// The program of `add`, `sub`, `and` or `or`.
pub open spec fn binary_prog(a: ArithmeticCommand) -> Seq<Instr> {
    pop_d() + seq![
        Instr::At(sym_sp()),
        Instr::Assign(Reg::A, Comp::Dec(Reg::M)),
        Instr::Assign(Reg::M, binary_comp(a)),
    ]
}

/// The program of `neg` or `not`.
pub open spec fn unary_prog(a: ArithmeticCommand) -> Seq<Instr> {
    seq![
        Instr::At(sym_sp()),
        Instr::Assign(Reg::A, Comp::Dec(Reg::M)),
        Instr::Assign(
            Reg::M,
            if a is Neg {
                Comp::Neg(Reg::M)
            } else {
                Comp::Not(Reg::M)
            },
        ),
    ]
}

/// What a binary command computes of `x` (below the top) and `y` (the top),
/// in 16-bit arithmetic.
pub open spec fn binary_value(a: ArithmeticCommand, x: i16, y: i16) -> i16 {
    match a {
        ArithmeticCommand::Add => (x + y) as i16,
        ArithmeticCommand::Sub => (x - y) as i16,
        ArithmeticCommand::And => x & y,
        _ => x | y,
    }
}

proof fn lemma_lit_arith()
    ensures
        "@SP\nM=M-1\nA=M\nD=M\n@SP\nA=M-1\nM=M+D"@ == pop_d_chars() + seq!['\n', '@', 'S', 'P', '\n', 'A', '=', 'M', '-', '1', '\n', 'M', '=', 'M', '+', 'D'],
        "@SP\nM=M-1\nA=M\nD=M\n@SP\nA=M-1\nM=M-D"@ == pop_d_chars() + seq!['\n', '@', 'S', 'P', '\n', 'A', '=', 'M', '-', '1', '\n', 'M', '=', 'M', '-', 'D'],
        "@SP\nM=M-1\nA=M\nD=M\n@SP\nA=M-1\nM=M&D"@ == pop_d_chars() + seq!['\n', '@', 'S', 'P', '\n', 'A', '=', 'M', '-', '1', '\n', 'M', '=', 'M', '&', 'D'],
        "@SP\nM=M-1\nA=M\nD=M\n@SP\nA=M-1\nM=M|D"@ == pop_d_chars() + seq!['\n', '@', 'S', 'P', '\n', 'A', '=', 'M', '-', '1', '\n', 'M', '=', 'M', '|', 'D'],
        "@SP\nA=M-1\nM=-M"@ == seq!['@', 'S', 'P', '\n', 'A', '=', 'M', '-', '1', '\n', 'M', '=', '-', 'M'],
        "@SP\nA=M-1\nM=!M"@ == seq!['@', 'S', 'P', '\n', 'A', '=', 'M', '-', '1', '\n', 'M', '=', '!', 'M'],
{
    reveal_strlit("@SP\nM=M-1\nA=M\nD=M\n@SP\nA=M-1\nM=M+D");
    reveal_strlit("@SP\nM=M-1\nA=M\nD=M\n@SP\nA=M-1\nM=M-D");
    reveal_strlit("@SP\nM=M-1\nA=M\nD=M\n@SP\nA=M-1\nM=M&D");
    reveal_strlit("@SP\nM=M-1\nA=M\nD=M\n@SP\nA=M-1\nM=M|D");
    reveal_strlit("@SP\nA=M-1\nM=-M");
    reveal_strlit("@SP\nA=M-1\nM=!M");
    assert("@SP\nM=M-1\nA=M\nD=M\n@SP\nA=M-1\nM=M+D"@ =~= pop_d_chars() + seq!['\n', '@', 'S', 'P', '\n', 'A', '=', 'M', '-', '1', '\n', 'M', '=', 'M', '+', 'D']);
    assert("@SP\nM=M-1\nA=M\nD=M\n@SP\nA=M-1\nM=M-D"@ =~= pop_d_chars() + seq!['\n', '@', 'S', 'P', '\n', 'A', '=', 'M', '-', '1', '\n', 'M', '=', 'M', '-', 'D']);
    assert("@SP\nM=M-1\nA=M\nD=M\n@SP\nA=M-1\nM=M&D"@ =~= pop_d_chars() + seq!['\n', '@', 'S', 'P', '\n', 'A', '=', 'M', '-', '1', '\n', 'M', '=', 'M', '&', 'D']);
    assert("@SP\nM=M-1\nA=M\nD=M\n@SP\nA=M-1\nM=M|D"@ =~= pop_d_chars() + seq!['\n', '@', 'S', 'P', '\n', 'A', '=', 'M', '-', '1', '\n', 'M', '=', 'M', '|', 'D']);
    assert("@SP\nA=M-1\nM=-M"@ =~= seq!['@', 'S', 'P', '\n', 'A', '=', 'M', '-', '1', '\n', 'M', '=', '-', 'M']);
    assert("@SP\nA=M-1\nM=!M"@ =~= seq!['@', 'S', 'P', '\n', 'A', '=', 'M', '-', '1', '\n', 'M', '=', '!', 'M']);
}

/// `add`, `sub`, `and`, `or` on the Hack machine: from a state whose stack
/// pointer `sp` is at least 3, with `x = RAM[sp - 2]` and `y = RAM[sp - 1]`,
/// running the command's program to its end leaves `x + y`, `x - y`,
/// `x & y` or `x | y` (16-bit) in `RAM[sp - 2]`, moves the stack pointer to
/// `sp - 1` and leaves every other cell as it was; and the command's text
/// is that program's text.
#[verifier::spinoff_prover]
#[verifier::rlimit(60)]
pub proof fn lemma_binary_runs(a: ArithmeticCommand, idx: nat, vars: spec_fn(Seq<char>) -> int, m: Hack)
    requires
        is_binary(a),
        m.pc == 0,
        3 <= (m.ram)(0),
    ensures
        arithmetic_asm(a, idx) == render(binary_prog(a)),
        ({
            let p = binary_prog(a);
            let r = run(p, vars, m, p.len());
            let sp = (m.ram)(0);
            &&& r.pc == p.len()
            &&& (r.ram)(0) == sp - 1
            &&& (r.ram)(sp - 2) == binary_value(a, (m.ram)(sp - 2), (m.ram)(sp - 1))
            &&& forall|k: int| k != 0 && k != sp - 2 ==> #[trigger] (r.ram)(k) == (m.ram)(k)
        }),
{
    let p = binary_prog(a);
    let tail = seq![p[4], p[5], p[6]];
    assert(p =~= pop_d() + tail);
    lemma_render_append(pop_d(), tail);
    lemma_pop_d_text();
    lemma_three(p[4], p[5], p[6]);
    lemma_lit_arith();
    assert(arithmetic_asm(a, idx) =~= render(p));
    let sp = (m.ram)(0);
    assert(p.subrange(0, 4) =~= pop_d());
    lemma_pop_d_runs(p, vars, m, 0);
    let m4 = run(p, vars, m, 4);
    assert(crate::hack::predefined(sym_sp()) == Some(0int));
    let m5 = step(p, vars, m4);
    let m6 = step(p, vars, m5);
    let m7 = step(p, vars, m6);
    assert(m6.a == sp - 2);
    assert(m7.pc == 7 && m7.ram == crate::hack::write(m4.ram, sp - 2, binary_value(a, (m.ram)(sp - 2), (m.ram)(sp - 1))));
    reveal_with_fuel(run, 4);
    assert(run(p, vars, m4, 3) == m7);
    lemma_run_add(p, vars, m, 4, 3);
}

/// `neg` and `not` on the Hack machine: from a state whose stack pointer
/// `sp` is at least 2, with `y = RAM[sp - 1]`, running the command's program
/// to its end leaves `-y` or `!y` (16-bit) in `RAM[sp - 1]` and every other
/// cell as it was; and the command's text is that program's text.
#[verifier::spinoff_prover]
#[verifier::rlimit(60)]
pub proof fn lemma_unary_runs(a: ArithmeticCommand, idx: nat, vars: spec_fn(Seq<char>) -> int, m: Hack)
    requires
        a is Neg || a is Not,
        m.pc == 0,
        2 <= (m.ram)(0),
    ensures
        arithmetic_asm(a, idx) == render(unary_prog(a)),
        ({
            let p = unary_prog(a);
            let r = run(p, vars, m, p.len());
            let sp = (m.ram)(0);
            let y = (m.ram)(sp - 1);
            &&& r.pc == p.len()
            &&& (r.ram)(sp - 1) == if a is Neg { (0 - y) as i16 } else { !y }
            &&& forall|k: int| k != sp - 1 ==> #[trigger] (r.ram)(k) == (m.ram)(k)
        }),
{
    let p = unary_prog(a);
    assert(p =~= seq![p[0], p[1], p[2]]);
    lemma_three(p[0], p[1], p[2]);
    lemma_lit_arith();
    assert(arithmetic_asm(a, idx) =~= render(p));
    assert(crate::hack::predefined(sym_sp()) == Some(0int));
    let m1 = step(p, vars, m);
    let m2 = step(p, vars, m1);
    let m3 = step(p, vars, m2);
    reveal_with_fuel(run, 4);
    assert(run(p, vars, m, 3) == m3);
}

} // verus!
