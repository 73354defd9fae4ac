//! A model of the Hack machine and of its assembly language, enough to say
//! what the translated code does when it runs.
//!
//! A program is a sequence of lines; line `i` sits at ROM address `i`. A
//! label line `(X)` does nothing when run, and `@X` loads the address of that
//! line. Symbols resolve as the Hack assembler resolves them: predefined
//! symbols first, then the program's labels, then the variables, whose
//! addresses `vars` gives.

use vstd::prelude::*;
use crate::number::int_dec;

verus! {

/// A register that a computation reads or writes; `M` is `RAM[A]`.
pub enum Reg {
    A,
    D,
    M,
}

/// The computations that the translated code uses.
pub enum Comp {
    Zero,
    MinusOne,
    Get(Reg),
    Not(Reg),
    Neg(Reg),
    Inc(Reg),
    Dec(Reg),
    Add(Reg, Reg),
    Sub(Reg, Reg),
    And(Reg, Reg),
    Or(Reg, Reg),
}

/// The jump conditions that the translated code uses.
pub enum Jump {
    Eq,
    Gt,
    Lt,
    Ne,
    Always,
}

/// A line of Hack assembly.
pub enum Instr {
    /// `@n`
    AtNum(int),
    /// `@symbol`
    At(Seq<char>),
    /// `dest=comp`
    Assign(Reg, Comp),
    /// `comp;jump`
    Branch(Comp, Jump),
    /// `(symbol)`
    Label(Seq<char>),
}

/// The text of a register.
pub open spec fn reg_text(r: Reg) -> Seq<char> {
    match r {
        Reg::A => seq!['A'],
        Reg::D => seq!['D'],
        Reg::M => seq!['M'],
    }
}

/// The text of a computation.
pub open spec fn comp_text(c: Comp) -> Seq<char> {
    match c {
        Comp::Zero => seq!['0'],
        Comp::MinusOne => seq!['-', '1'],
        Comp::Get(r) => reg_text(r),
        Comp::Not(r) => seq!['!'] + reg_text(r),
        Comp::Neg(r) => seq!['-'] + reg_text(r),
        Comp::Inc(r) => reg_text(r) + seq!['+', '1'],
        Comp::Dec(r) => reg_text(r) + seq!['-', '1'],
        Comp::Add(x, y) => reg_text(x) + seq!['+'] + reg_text(y),
        Comp::Sub(x, y) => reg_text(x) + seq!['-'] + reg_text(y),
        Comp::And(x, y) => reg_text(x) + seq!['&'] + reg_text(y),
        Comp::Or(x, y) => reg_text(x) + seq!['|'] + reg_text(y),
    }
}

/// The text of a jump condition.
pub open spec fn jump_text(j: Jump) -> Seq<char> {
    match j {
        Jump::Eq => seq!['J', 'E', 'Q'],
        Jump::Gt => seq!['J', 'G', 'T'],
        Jump::Lt => seq!['J', 'L', 'T'],
        Jump::Ne => seq!['J', 'N', 'E'],
        Jump::Always => seq!['J', 'M', 'P'],
    }
}

/// The text of a line.
pub open spec fn instr_text(i: Instr) -> Seq<char> {
    match i {
        Instr::AtNum(n) => seq!['@'] + int_dec(n),
        Instr::At(s) => seq!['@'] + s,
        Instr::Assign(r, c) => reg_text(r) + seq!['='] + comp_text(c),
        Instr::Branch(c, j) => comp_text(c) + seq![';'] + jump_text(j),
        Instr::Label(s) => seq!['('] + s + seq![')'],
    }
}

/// The text of a program: its lines, separated by line ends.
pub open spec fn render(p: Seq<Instr>) -> Seq<char>
    decreases p.len(),
{
    if p.len() == 0 {
        Seq::empty()
    } else if p.len() == 1 {
        instr_text(p[0])
    } else {
        render(p.drop_last()) + seq!['\n'] + instr_text(p.last())
    }
}

/// The symbol `SP`.
pub open spec fn sym_sp() -> Seq<char> {
    seq!['S', 'P']
}

/// The address of a predefined symbol.
pub open spec fn predefined(s: Seq<char>) -> Option<int> {
    if s == seq!['S', 'P'] || s == seq!['R', '0'] {
        Some(0)
    } else if s == seq!['L', 'C', 'L'] || s == seq!['R', '1'] {
        Some(1)
    } else if s == seq!['A', 'R', 'G'] || s == seq!['R', '2'] {
        Some(2)
    } else if s == seq!['T', 'H', 'I', 'S'] || s == seq!['R', '3'] {
        Some(3)
    } else if s == seq!['T', 'H', 'A', 'T'] || s == seq!['R', '4'] {
        Some(4)
    } else if s.len() == 2 && s[0] == 'R' && '5' <= s[1] && s[1] <= '9' {
        Some((s[1] as int) - ('0' as int))
    } else if s.len() == 3 && s[0] == 'R' && s[1] == '1' && '0' <= s[2] && s[2] <= '5' {
        Some(10 + (s[2] as int) - ('0' as int))
    } else if s == seq!['S', 'C', 'R', 'E', 'E', 'N'] {
        Some(16384)
    } else if s == seq!['K', 'B', 'D'] {
        Some(24576)
    } else {
        None
    }
}

/// The address of the first label line `(s)` at or after line `i`.
pub open spec fn label_from(p: Seq<Instr>, s: Seq<char>, i: int) -> Option<int>
    decreases p.len() - i,
{
    if i < 0 || i >= p.len() {
        None
    } else if p[i] == Instr::Label(s) {
        Some(i)
    } else {
        label_from(p, s, i + 1)
    }
}

/// The value of the symbol `s` in the program `p`.
pub open spec fn symbol(p: Seq<Instr>, vars: spec_fn(Seq<char>) -> int, s: Seq<char>) -> int {
    match predefined(s) {
        Some(a) => a,
        None => match label_from(p, s, 0) {
            Some(a) => a,
            None => vars(s),
        },
    }
}

/// The state of the machine: the registers, the program counter and the
/// data memory.
pub struct Hack {
    pub a: i16,
    pub d: i16,
    pub pc: int,
    pub ram: spec_fn(int) -> i16,
}

/// The value of a register.
pub open spec fn reg_val(m: Hack, r: Reg) -> i16 {
    match r {
        Reg::A => m.a,
        Reg::D => m.d,
        Reg::M => (m.ram)(m.a as int),
    }
}

/// What a computation gives, in 16-bit arithmetic.
pub open spec fn comp_val(m: Hack, c: Comp) -> i16 {
    match c {
        Comp::Zero => 0i16,
        Comp::MinusOne => -1i16,
        Comp::Get(r) => reg_val(m, r),
        Comp::Not(r) => !reg_val(m, r),
        Comp::Neg(r) => (0 - reg_val(m, r)) as i16,
        Comp::Inc(r) => (reg_val(m, r) + 1) as i16,
        Comp::Dec(r) => (reg_val(m, r) - 1) as i16,
        Comp::Add(x, y) => (reg_val(m, x) + reg_val(m, y)) as i16,
        Comp::Sub(x, y) => (reg_val(m, x) - reg_val(m, y)) as i16,
        Comp::And(x, y) => reg_val(m, x) & reg_val(m, y),
        Comp::Or(x, y) => reg_val(m, x) | reg_val(m, y),
    }
}

/// Whether a jump with condition `j` is taken on the value `v`.
pub open spec fn jumps(j: Jump, v: i16) -> bool {
    match j {
        Jump::Eq => v == 0,
        Jump::Gt => v > 0,
        Jump::Lt => v < 0,
        Jump::Ne => v != 0,
        Jump::Always => true,
    }
}

/// `ram` with `v` written at address `at`.
pub open spec fn write(ram: spec_fn(int) -> i16, at: int, v: i16) -> spec_fn(int) -> i16 {
    |k: int| if k == at { v } else { ram(k) }
}

/// One step: the line at `m.pc` runs.
pub open spec fn step(p: Seq<Instr>, vars: spec_fn(Seq<char>) -> int, m: Hack) -> Hack {
    let next = m.pc + 1;
    match p[m.pc] {
        Instr::AtNum(n) => Hack { a: n as i16, d: m.d, pc: next, ram: m.ram },
        Instr::At(s) => Hack { a: symbol(p, vars, s) as i16, d: m.d, pc: next, ram: m.ram },
        Instr::Assign(r, c) => {
            let v = comp_val(m, c);
            match r {
                Reg::A => Hack { a: v, d: m.d, pc: next, ram: m.ram },
                Reg::D => Hack { a: m.a, d: v, pc: next, ram: m.ram },
                Reg::M => Hack { a: m.a, d: m.d, pc: next, ram: write(m.ram, m.a as int, v) },
            }
        },
        Instr::Branch(c, j) => Hack {
            a: m.a,
            d: m.d,
            pc: if jumps(j, comp_val(m, c)) {
                m.a as int
            } else {
                next
            },
            ram: m.ram,
        },
        Instr::Label(_) => Hack { a: m.a, d: m.d, pc: next, ram: m.ram },
    }
}

/// `k` steps, stopping once the program counter leaves the program.
pub open spec fn run(p: Seq<Instr>, vars: spec_fn(Seq<char>) -> int, m: Hack, k: nat) -> Hack
    decreases k,
{
    if k == 0 || m.pc < 0 || m.pc >= p.len() {
        m
    } else {
        run(p, vars, step(p, vars, m), (k - 1) as nat)
    }
}

/// Running `a` steps and then `b` more is running `a + b` steps.
pub proof fn lemma_run_add(p: Seq<Instr>, vars: spec_fn(Seq<char>) -> int, m: Hack, a: nat, b: nat)
    ensures
        run(p, vars, m, a + b) == run(p, vars, run(p, vars, m, a), b),
    decreases a,
{
    if a > 0 && 0 <= m.pc < p.len() {
        lemma_run_add(p, vars, step(p, vars, m), (a - 1) as nat, b);
        assert((a + b - 1) as nat == ((a - 1) as nat + b) as nat);
    } else if a > 0 {
        lemma_run_halted(p, vars, m, b);
        lemma_run_halted(p, vars, m, a + b);
    }
}

proof fn lemma_run_halted(p: Seq<Instr>, vars: spec_fn(Seq<char>) -> int, m: Hack, k: nat)
    requires
        m.pc < 0 || m.pc >= p.len(),
    ensures
        run(p, vars, m, k) == m,
{
}

} // verus!
