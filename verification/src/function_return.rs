//! What the code of `return` does on the Hack machine.

use vstd::prelude::*;
use crate::assembly::function_asm;
use crate::command::FunctionSpec;
use crate::hack::{Comp, Hack, Instr, Jump, Reg, lemma_run_add, predefined, render, run, step};
use crate::semantics::{lemma_five, lemma_four, lemma_render_append, lemma_three};

verus! {

/// `R13`
pub open spec fn sym_r13() -> Seq<char> {
    seq!['R', '1', '3']
}

/// `R14`
pub open spec fn sym_r14() -> Seq<char> {
    seq!['R', '1', '4']
}

/// The first part of `return`: `R13` gets `LCL` (the frame), `R14` gets
/// `LCL - 5`.
pub open spec fn save_frame() -> Seq<Instr> {
    seq![
        Instr::At(seq!['L', 'C', 'L']),
        Instr::Assign(Reg::D, Comp::Get(Reg::M)),
        Instr::At(sym_r13()),
        Instr::Assign(Reg::M, Comp::Get(Reg::D)),
        Instr::AtNum(5),
        Instr::Assign(Reg::D, Comp::Sub(Reg::D, Reg::A)),
        Instr::At(sym_r14()),
        Instr::Assign(Reg::M, Comp::Get(Reg::D)),
    ]
}

/// The second part of `return`: the top of the stack moves to `RAM[ARG]`,
/// and the stack pointer to `ARG + 1`.
pub open spec fn move_result() -> Seq<Instr> {
    seq![
        Instr::At(seq!['S', 'P']),
        Instr::Assign(Reg::A, Comp::Dec(Reg::M)),
        Instr::Assign(Reg::D, Comp::Get(Reg::M)),
        Instr::At(seq!['A', 'R', 'G']),
        Instr::Assign(Reg::A, Comp::Get(Reg::M)),
        Instr::Assign(Reg::M, Comp::Get(Reg::D)),
        Instr::At(seq!['A', 'R', 'G']),
        Instr::Assign(Reg::D, Comp::Inc(Reg::M)),
        Instr::At(seq!['S', 'P']),
        Instr::Assign(Reg::M, Comp::Get(Reg::D)),
    ]
}

/// `@R13`, `M=M-1`, `A=M`, `D=M`, `@dst`, `M=D`: step the frame pointer in
/// `R13` down and copy the cell it then points at into `dst`.
pub open spec fn restore(dst: Seq<char>) -> Seq<Instr> {
    seq![
        Instr::At(sym_r13()),
        Instr::Assign(Reg::M, Comp::Dec(Reg::M)),
        Instr::Assign(Reg::A, Comp::Get(Reg::M)),
        Instr::Assign(Reg::D, Comp::Get(Reg::M)),
        Instr::At(dst),
        Instr::Assign(Reg::M, Comp::Get(Reg::D)),
    ]
}

/// The last part of `return`: a jump to the address in `R14`.
pub open spec fn jump_back() -> Seq<Instr> {
    seq![
        Instr::At(sym_r14()),
        Instr::Assign(Reg::A, Comp::Get(Reg::M)),
        Instr::Branch(Comp::Zero, Jump::Always),
    ]
}

/// The program of `return`.
pub open spec fn return_prog() -> Seq<Instr> {
    save_frame() + move_result() + restore(seq!['T', 'H', 'A', 'T']) + restore(
        seq!['T', 'H', 'I', 'S'],
    ) + restore(seq!['A', 'R', 'G']) + restore(seq!['L', 'C', 'L']) + jump_back()
}

proof fn lemma_save_frame_text()
    ensures
        render(save_frame()) == "@LCL\nD=M\n@R13\nM=D\n@5\nD=D-A\n@R14\nM=D"@,
{
    let p = save_frame();
    let a = seq![p[0], p[1], p[2], p[3]];
    let b = seq![p[4], p[5], p[6], p[7]];
    assert(p =~= a + b);
    lemma_render_append(a, b);
    lemma_four(p[0], p[1], p[2], p[3]);
    lemma_four(p[4], p[5], p[6], p[7]);
    reveal_strlit("@LCL\nD=M\n@R13\nM=D\n@5\nD=D-A\n@R14\nM=D");
    assert(crate::number::nat_dec(5) =~= seq!['5']);
    assert(render(p) =~= "@LCL\nD=M\n@R13\nM=D\n@5\nD=D-A\n@R14\nM=D"@);
}

proof fn lemma_move_result_text()
    ensures
        render(move_result()) == "@SP\nA=M-1\nD=M\n@ARG\nA=M\nM=D\n@ARG\nD=M+1\n@SP\nM=D"@,
{
    let p = move_result();
    let a = seq![p[0], p[1], p[2], p[3], p[4]];
    let b = seq![p[5], p[6], p[7], p[8], p[9]];
    assert(p =~= a + b);
    lemma_render_append(a, b);
    lemma_five(p[0], p[1], p[2], p[3], p[4]);
    lemma_five(p[5], p[6], p[7], p[8], p[9]);
    reveal_strlit("@SP\nA=M-1\nD=M\n@ARG\nA=M\nM=D\n@ARG\nD=M+1\n@SP\nM=D");
    assert(render(p) =~= "@SP\nA=M-1\nD=M\n@ARG\nA=M\nM=D\n@ARG\nD=M+1\n@SP\nM=D"@);
}

proof fn lemma_restore_text(dst: Seq<char>)
    ensures
        render(restore(dst)) == "@R13\nM=M-1\nA=M\nD=M\n@"@ + dst + "\nM=D"@,
{
    let p = restore(dst);
    let a = seq![p[0], p[1], p[2]];
    let b = seq![p[3], p[4], p[5]];
    assert(p =~= a + b);
    lemma_render_append(a, b);
    lemma_three(p[0], p[1], p[2]);
    lemma_three(p[3], p[4], p[5]);
    reveal_strlit("@R13\nM=M-1\nA=M\nD=M\n@");
    reveal_strlit("\nM=D");
    assert(render(p) =~= "@R13\nM=M-1\nA=M\nD=M\n@"@ + dst + "\nM=D"@);
}

proof fn lemma_jump_back_text()
    ensures
        render(jump_back()) == "@R14\nA=M\n0;JMP"@,
{
    let p = jump_back();
    lemma_three(p[0], p[1], p[2]);
    assert(p =~= seq![p[0], p[1], p[2]]);
    reveal_strlit("@R14\nA=M\n0;JMP");
    assert(render(p) =~= "@R14\nA=M\n0;JMP"@);
}

proof fn lemma_return_text(id: nat)
    ensures
        function_asm(FunctionSpec::Return, id) == render(return_prog()),
{
    let s = save_frame();
    let m = move_result();
    let r1 = restore(seq!['T', 'H', 'A', 'T']);
    let r2 = restore(seq!['T', 'H', 'I', 'S']);
    let r3 = restore(seq!['A', 'R', 'G']);
    let r4 = restore(seq!['L', 'C', 'L']);
    let j = jump_back();
    lemma_render_append(r4, j);
    lemma_render_append(r3, r4 + j);
    lemma_render_append(r2, r3 + (r4 + j));
    lemma_render_append(r1, r2 + (r3 + (r4 + j)));
    lemma_render_append(m, r1 + (r2 + (r3 + (r4 + j))));
    lemma_render_append(s, m + (r1 + (r2 + (r3 + (r4 + j)))));
    assert(return_prog() =~= s + (m + (r1 + (r2 + (r3 + (r4 + j))))));
    lemma_save_frame_text();
    lemma_move_result_text();
    lemma_restore_text(seq!['T', 'H', 'A', 'T']);
    lemma_restore_text(seq!['T', 'H', 'I', 'S']);
    lemma_restore_text(seq!['A', 'R', 'G']);
    lemma_restore_text(seq!['L', 'C', 'L']);
    lemma_jump_back_text();
    reveal_strlit("@LCL\nD=M\n@R13\nM=D\n@5\nD=D-A\n@R14\nM=D\n@SP\nA=M-1\nD=M\n@ARG\nA=M\nM=D\n@ARG\nD=M+1\n@SP\nM=D\n@R13\nM=M-1\nA=M\nD=M\n@THAT\nM=D\n@R13\nM=M-1\nA=M\nD=M\n@THIS\nM=D\n@R13\nM=M-1\nA=M\nD=M\n@ARG\nM=D\n@R13\nM=M-1\nA=M\nD=M\n@LCL\nM=D\n@R14\nA=M\n0;JMP");
    reveal_strlit("@LCL\nD=M\n@R13\nM=D\n@5\nD=D-A\n@R14\nM=D");
    reveal_strlit("@SP\nA=M-1\nD=M\n@ARG\nA=M\nM=D\n@ARG\nD=M+1\n@SP\nM=D");
    reveal_strlit("@R13\nM=M-1\nA=M\nD=M\n@");
    reveal_strlit("\nM=D");
    reveal_strlit("@R14\nA=M\n0;JMP");
    assert(function_asm(FunctionSpec::Return, id) =~= render(return_prog()));
}

proof fn lemma_return_parts()
    ensures
        return_prog().len() == 45,
        return_prog().subrange(0, 8) == save_frame(),
        return_prog().subrange(8, 18) == move_result(),
        return_prog().subrange(18, 24) == restore(seq!['T', 'H', 'A', 'T']),
        return_prog().subrange(24, 30) == restore(seq!['T', 'H', 'I', 'S']),
        return_prog().subrange(30, 36) == restore(seq!['A', 'R', 'G']),
        return_prog().subrange(36, 42) == restore(seq!['L', 'C', 'L']),
        return_prog().subrange(42, 45) == jump_back(),
{
    let p = return_prog();
    assert(p.subrange(0, 8) =~= save_frame());
    assert(p.subrange(8, 18) =~= move_result());
    assert(p.subrange(18, 24) =~= restore(seq!['T', 'H', 'A', 'T']));
    assert(p.subrange(24, 30) =~= restore(seq!['T', 'H', 'I', 'S']));
    assert(p.subrange(30, 36) =~= restore(seq!['A', 'R', 'G']));
    assert(p.subrange(36, 42) =~= restore(seq!['L', 'C', 'L']));
    assert(p.subrange(42, 45) =~= jump_back());
}

pub proof fn lemma_registers()
    ensures
        predefined(seq!['S', 'P']) == Some(0int),
        predefined(seq!['L', 'C', 'L']) == Some(1int),
        predefined(seq!['A', 'R', 'G']) == Some(2int),
        predefined(seq!['T', 'H', 'I', 'S']) == Some(3int),
        predefined(seq!['T', 'H', 'A', 'T']) == Some(4int),
        predefined(sym_r13()) == Some(13int),
        predefined(sym_r14()) == Some(14int),
{
    assert(seq!['R', '1', '3'] != seq!['S', 'P']);
    assert(seq!['R', '1', '3'] != seq!['R', '0']);
    assert(seq!['R', '1', '3'] != seq!['L', 'C', 'L']);
    assert(seq!['R', '1'].len() == 2 && sym_r13().len() == 3 && sym_r14().len() == 3);
    assert(seq!['R', '1', '3'] != seq!['R', '1']);
    assert(seq!['R', '1', '3'] != seq!['A', 'R', 'G']);
    assert(seq!['R', '1', '3'] != seq!['R', '2']);
    assert(seq!['R', '1', '3'] != seq!['T', 'H', 'I', 'S']);
    assert(seq!['R', '1', '3'] != seq!['R', '3']);
    assert(seq!['R', '1', '3'] != seq!['T', 'H', 'A', 'T']);
    assert(seq!['R', '1', '3'] != seq!['R', '4']);
    assert(seq!['R', '1', '4'] != seq!['S', 'P']);
    assert(seq!['R', '1', '4'] != seq!['R', '0']);
    assert(seq!['R', '1', '4'] != seq!['L', 'C', 'L']);
    assert(seq!['R', '1', '4'] != seq!['R', '1']);
    assert(seq!['R', '1', '4'] != seq!['A', 'R', 'G']);
    assert(seq!['R', '1', '4'] != seq!['R', '2']);
    assert(seq!['R', '1', '4'] != seq!['T', 'H', 'I', 'S']);
    assert(seq!['R', '1', '4'] != seq!['R', '3']);
    assert(seq!['R', '1', '4'] != seq!['T', 'H', 'A', 'T']);
    assert(seq!['R', '1', '4'] != seq!['R', '4']);
    assert(seq!['L', 'C', 'L'] != seq!['S', 'P']);
    assert(seq!['L', 'C', 'L'] != seq!['R', '0']);
    assert(seq!['A', 'R', 'G'] != seq!['S', 'P']);
    assert(seq!['A', 'R', 'G'] != seq!['R', '0']);
    assert(seq!['A', 'R', 'G'] != seq!['L', 'C', 'L']);
    assert(seq!['A', 'R', 'G'] != seq!['R', '1']);
    assert(seq!['T', 'H', 'I', 'S'] != seq!['S', 'P']);
    assert(seq!['T', 'H', 'I', 'S'] != seq!['R', '0']);
    assert(seq!['T', 'H', 'I', 'S'] != seq!['L', 'C', 'L']);
    assert(seq!['T', 'H', 'I', 'S'] != seq!['R', '1']);
    assert(seq!['T', 'H', 'I', 'S'] != seq!['A', 'R', 'G']);
    assert(seq!['T', 'H', 'I', 'S'] != seq!['R', '2']);
    assert(seq!['T', 'H', 'A', 'T'] != seq!['S', 'P']);
    assert(seq!['T', 'H', 'A', 'T'] != seq!['R', '0']);
    assert(seq!['T', 'H', 'A', 'T'] != seq!['L', 'C', 'L']);
    assert(seq!['T', 'H', 'A', 'T'] != seq!['R', '1']);
    assert(seq!['T', 'H', 'A', 'T'] != seq!['A', 'R', 'G']);
    assert(seq!['T', 'H', 'A', 'T'] != seq!['R', '2']);
    assert(seq!['T', 'H', 'A', 'T'] != seq!['T', 'H', 'I', 'S']);
    assert(seq!['T', 'H', 'A', 'T'] != seq!['R', '3']);
}

proof fn lemma_save_frame_runs(p: Seq<Instr>, vars: spec_fn(Seq<char>) -> int, s: Hack)
    requires
        p.len() >= 8,
        p.subrange(0, 8) == save_frame(),
        s.pc == 0,
        5 <= (s.ram)(1),
    ensures
        ({
            let r = run(p, vars, s, 8);
            let lcl = (s.ram)(1);
            &&& r.pc == 8
            &&& forall|c: int|
                #[trigger] (r.ram)(c) == if c == 13 {
                    lcl
                } else if c == 14 {
                    (lcl - 5) as i16
                } else {
                    (s.ram)(c)
                }
        }),
{
    lemma_registers();
    let q = save_frame();
    assert forall|i: int| 0 <= i < 8 implies p[i] == q[i] by {
        assert(p[i] == p.subrange(0, 8)[i]);
    }
    let s1 = step(p, vars, s);
    let s2 = step(p, vars, s1);
    let s3 = step(p, vars, s2);
    let s4 = step(p, vars, s3);
    let s5 = step(p, vars, s4);
    let s6 = step(p, vars, s5);
    let s7 = step(p, vars, s6);
    let s8 = step(p, vars, s7);
    assert(s8.pc == 8);
    reveal_with_fuel(run, 9);
    assert(run(p, vars, s, 8) == s8);
}

proof fn lemma_move_result_runs(p: Seq<Instr>, vars: spec_fn(Seq<char>) -> int, s: Hack)
    requires
        p.len() >= 18,
        p.subrange(8, 18) == move_result(),
        s.pc == 8,
        1 <= (s.ram)(0),
        5 <= (s.ram)(2) < 32767,
    ensures
        ({
            let r = run(p, vars, s, 10);
            let sp = (s.ram)(0);
            let arg = (s.ram)(2);
            &&& r.pc == 18
            &&& forall|c: int|
                #[trigger] (r.ram)(c) == if c == 0 {
                    (arg + 1) as i16
                } else if c == arg {
                    (s.ram)(sp - 1)
                } else {
                    (s.ram)(c)
                }
        }),
{
    lemma_registers();
    let q = move_result();
    assert forall|i: int| 8 <= i < 18 implies p[i] == q[i - 8] by {
        assert(p[i] == p.subrange(8, 18)[i - 8]);
    }
    let s1 = step(p, vars, s);
    let s2 = step(p, vars, s1);
    let s3 = step(p, vars, s2);
    let s4 = step(p, vars, s3);
    let s5 = step(p, vars, s4);
    let s6 = step(p, vars, s5);
    let s7 = step(p, vars, s6);
    let s8 = step(p, vars, s7);
    let s9 = step(p, vars, s8);
    let s10 = step(p, vars, s9);
    assert(s10.pc == 18);
    reveal_with_fuel(run, 11);
    assert(run(p, vars, s, 10) == s10);
}

proof fn lemma_restore_runs(
    p: Seq<Instr>,
    vars: spec_fn(Seq<char>) -> int,
    s: Hack,
    o: int,
    dst: Seq<char>,
    at: int,
)
    requires
        0 <= o,
        o + 6 <= p.len(),
        p.subrange(o, o + 6) == restore(dst),
        predefined(dst) == Some(at),
        0 <= at <= 4,
        s.pc == o,
        16 <= (s.ram)(13),
    ensures
        ({
            let r = run(p, vars, s, 6);
            let f = (s.ram)(13);
            &&& r.pc == o + 6
            &&& forall|c: int|
                #[trigger] (r.ram)(c) == if c == at {
                    (s.ram)(f - 1)
                } else if c == 13 {
                    (f - 1) as i16
                } else {
                    (s.ram)(c)
                }
        }),
{
    lemma_registers();
    let q = restore(dst);
    assert forall|i: int| o <= i < o + 6 implies p[i] == q[i - o] by {
        assert(p[i] == p.subrange(o, o + 6)[i - o]);
    }
    let s1 = step(p, vars, s);
    let s2 = step(p, vars, s1);
    let s3 = step(p, vars, s2);
    let s4 = step(p, vars, s3);
    let s5 = step(p, vars, s4);
    let s6 = step(p, vars, s5);
    assert(s6.pc == o + 6);
    reveal_with_fuel(run, 7);
    assert(run(p, vars, s, 6) == s6);
}

proof fn lemma_jump_back_runs(p: Seq<Instr>, vars: spec_fn(Seq<char>) -> int, s: Hack)
    requires
        p.len() >= 45,
        p.subrange(42, 45) == jump_back(),
        s.pc == 42,
    ensures
        run(p, vars, s, 3).pc == (s.ram)(14),
        run(p, vars, s, 3).ram == s.ram,
{
    lemma_registers();
    let q = jump_back();
    assert forall|i: int| 42 <= i < 45 implies p[i] == q[i - 42] by {
        assert(p[i] == p.subrange(42, 45)[i - 42]);
    }
    let s1 = step(p, vars, s);
    let s2 = step(p, vars, s1);
    let s3 = step(p, vars, s2);
    reveal_with_fuel(run, 4);
    assert(run(p, vars, s, 3) == s3);
}

/// `return` on the Hack machine, from the frame that a `call` built: with
/// `ARG` past the registers (at least 15), `LCL` at least `ARG + 5` (the
/// arguments, then the return address, `LCL`, `ARG`, `THIS` and `THAT` of the
/// caller at `LCL - 5` to `LCL - 1`), and the stack pointer at or above `LCL`.
/// Running the command's program moves the value on top of the stack into
/// `RAM[ARG]` and the stack pointer to `ARG + 1`, so the value is left on top
/// of the caller's stack; it restores `THAT`, `THIS`, `ARG` and `LCL` from
/// `LCL - 1` to `LCL - 4`, leaves `LCL - 4` in `R13` and `LCL - 5` in `R14`,
/// changes no other cell, and jumps to the address `LCL - 5`.
pub proof fn lemma_return_runs(id: nat, vars: spec_fn(Seq<char>) -> int, m: Hack)
    requires
        m.pc == 0,
        15 <= (m.ram)(2),
        (m.ram)(2) + 5 <= (m.ram)(1),
        (m.ram)(1) <= (m.ram)(0),
    ensures
        function_asm(FunctionSpec::Return, id) == render(return_prog()),
        ({
            let r = run(return_prog(), vars, m, 45);
            let sp = (m.ram)(0);
            let lcl = (m.ram)(1);
            let arg = (m.ram)(2);
            &&& r.pc == lcl - 5
            &&& (r.ram)(0) == arg + 1
            &&& (r.ram)(arg as int) == (m.ram)(sp - 1)
            &&& (r.ram)(1) == (m.ram)(lcl - 4)
            &&& (r.ram)(2) == (m.ram)(lcl - 3)
            &&& (r.ram)(3) == (m.ram)(lcl - 2)
            &&& (r.ram)(4) == (m.ram)(lcl - 1)
            &&& (r.ram)(13) == lcl - 4
            &&& (r.ram)(14) == lcl - 5
            &&& forall|c: int|
                c != arg && !(0 <= c <= 4) && c != 13 && c != 14 ==> #[trigger] (r.ram)(c) == (m.ram)(c)
        }),
{
    lemma_return_text(id);
    lemma_return_parts();
    lemma_registers();
    let p = return_prog();
    let sp = (m.ram)(0) as int;
    let lcl = (m.ram)(1) as int;
    let arg = (m.ram)(2) as int;
    lemma_save_frame_runs(p, vars, m);
    let a = run(p, vars, m, 8);
    lemma_move_result_runs(p, vars, a);
    let b = run(p, vars, a, 10);
    lemma_restore_runs(p, vars, b, 18, seq!['T', 'H', 'A', 'T'], 4);
    let c1 = run(p, vars, b, 6);
    lemma_restore_runs(p, vars, c1, 24, seq!['T', 'H', 'I', 'S'], 3);
    let c2 = run(p, vars, c1, 6);
    lemma_restore_runs(p, vars, c2, 30, seq!['A', 'R', 'G'], 2);
    let c3 = run(p, vars, c2, 6);
    lemma_restore_runs(p, vars, c3, 36, seq!['L', 'C', 'L'], 1);
    let c4 = run(p, vars, c3, 6);
    lemma_jump_back_runs(p, vars, c4);
    lemma_run_add(p, vars, m, 8, 10);
    lemma_run_add(p, vars, m, 18, 6);
    lemma_run_add(p, vars, m, 24, 6);
    lemma_run_add(p, vars, m, 30, 6);
    lemma_run_add(p, vars, m, 36, 6);
    lemma_run_add(p, vars, m, 42, 3);
}

/// `return` undoes what `call` set up: run the code of `call name n` (standing
/// at line `i` of the program `p`) from a state whose stack pointer `sp` has
/// room for the frame (`sp + 5` at most 32767) above the `n` arguments, which
/// start past the registers (`sp - n` at least 15); let the callee run to any
/// state `b` that keeps the frame (the cells `sp` to `sp + 4`) and the callee's
/// `LCL` and `ARG`, with its stack pointer at or above `LCL`. Then the code of
/// `return`, run from `b`, restores the caller's `LCL`, `ARG`, `THIS` and
/// `THAT`, leaves the callee's top value in place of the first argument with
/// the stack pointer just above it, and jumps to the address `sp`, the frame's
/// first cell.
pub proof fn lemma_call_then_return(
    name: Seq<char>,
    n: usize,
    id: nat,
    p: Seq<Instr>,
    vars: spec_fn(Seq<char>) -> int,
    m: Hack,
    i: int,
    callee_vars: spec_fn(Seq<char>) -> int,
    b: Hack,
)
    requires
        n + 5 <= 32767,
        0 <= i,
        i + 48 <= p.len(),
        p.subrange(i, i + 48) == crate::function_call::call_prog(name, n, id),
        m.pc == i,
        (m.ram)(0) + 5 <= 32767,
        15 <= (m.ram)(0) - n,
        b.pc == 0,
        forall|c: int|
            (m.ram)(0) <= c < (m.ram)(0) + 5 || c == 1 || c == 2 ==> #[trigger] (b.ram)(c) == (run(
                p,
                vars,
                m,
                47,
            ).ram)(c),
        (m.ram)(0) + 5 <= (b.ram)(0),
    ensures
        ({
            let r = run(return_prog(), callee_vars, b, 45);
            let sp = (m.ram)(0);
            &&& (r.ram)(1) == (m.ram)(1)
            &&& (r.ram)(2) == (m.ram)(2)
            &&& (r.ram)(3) == (m.ram)(3)
            &&& (r.ram)(4) == (m.ram)(4)
            &&& (r.ram)(0) == sp - n + 1
            &&& (r.ram)(sp - n) == (b.ram)((b.ram)(0) - 1)
            &&& r.pc == sp
        }),
{
    crate::function_call::lemma_call_runs(name, n, id, p, vars, m, i);
    let c = run(p, vars, m, 47);
    let sp = (m.ram)(0) as int;
    assert((b.ram)(1) == (c.ram)(1));
    assert((b.ram)(2) == (c.ram)(2));
    assert((b.ram)(sp + 1) == (c.ram)(sp + 1));
    assert((b.ram)(sp + 2) == (c.ram)(sp + 2));
    assert((b.ram)(sp + 3) == (c.ram)(sp + 3));
    assert((b.ram)(sp + 4) == (c.ram)(sp + 4));
    lemma_return_runs(0, callee_vars, b);
}

} // verus!
