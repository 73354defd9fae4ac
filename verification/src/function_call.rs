//! What the code of `call` does on the Hack machine.

use vstd::prelude::*;
use crate::assembly::{call_label, function_asm};
use crate::command::FunctionSpec;
use crate::hack::{Comp, Hack, Instr, Jump, Reg, lemma_run_add, predefined, render, run, step, sym_sp, symbol};
use crate::number::nat_dec;
use crate::semantics::{
    lemma_five, lemma_four, lemma_push_d_text, lemma_render_append, lemma_three, lemma_two, push_d,
    push_d_chars,
};

verus! {

/// Loads the address of the symbol `s` and pushes it.
pub open spec fn push_address(s: Seq<char>) -> Seq<Instr> {
    seq![Instr::At(s), Instr::Assign(Reg::D, Comp::Get(Reg::A))] + push_d()
}

/// Pushes the value of the register named `s`.
pub open spec fn push_register(s: Seq<char>) -> Seq<Instr> {
    seq![Instr::At(s), Instr::Assign(Reg::D, Comp::Get(Reg::M))] + push_d()
}

/// The end of a `call` with `n` arguments to the function `name`, whose
/// return label is `l`: `ARG` gets `SP - n - 5`, `LCL` gets `SP`, a jump to
/// `name`, then the declaration of `l`.
pub open spec fn enter_callee(name: Seq<char>, n: usize, l: Seq<char>) -> Seq<Instr> {
    seq![
        Instr::AtNum(n + 5),
        Instr::Assign(Reg::D, Comp::Get(Reg::A)),
        Instr::At(sym_sp()),
        Instr::Assign(Reg::D, Comp::Sub(Reg::M, Reg::D)),
        Instr::At(seq!['A', 'R', 'G']),
        Instr::Assign(Reg::M, Comp::Get(Reg::D)),
        Instr::At(sym_sp()),
        Instr::Assign(Reg::D, Comp::Get(Reg::M)),
        Instr::At(seq!['L', 'C', 'L']),
        Instr::Assign(Reg::M, Comp::Get(Reg::D)),
        Instr::At(name),
        Instr::Branch(Comp::Zero, Jump::Always),
        Instr::Label(l),
    ]
}

/// The program of `call name n`, call number `id`.
pub open spec fn call_prog(name: Seq<char>, n: usize, id: nat) -> Seq<Instr> {
    let l = call_label(name, id);
    push_address(l) + push_register(seq!['L', 'C', 'L']) + push_register(seq!['A', 'R', 'G'])
        + push_register(seq!['T', 'H', 'I', 'S']) + push_register(seq!['T', 'H', 'A', 'T'])
        + enter_callee(name, n, l)
}

proof fn lemma_push_address_text(s: Seq<char>)
    ensures
        render(push_address(s)) == seq!['@'] + s + seq!['\n', 'D', '=', 'A', '\n'] + push_d_chars(),
{
    let p = push_address(s);
    let a = seq![p[0], p[1]];
    assert(p =~= a + push_d());
    lemma_render_append(a, push_d());
    lemma_two(p[0], p[1]);
    lemma_push_d_text();
    assert(render(p) =~= seq!['@'] + s + seq!['\n', 'D', '=', 'A', '\n'] + push_d_chars());
}

proof fn lemma_push_register_text(s: Seq<char>)
    ensures
        render(push_register(s)) == seq!['@'] + s + seq!['\n', 'D', '=', 'M', '\n'] + push_d_chars(),
{
    let p = push_register(s);
    let a = seq![p[0], p[1]];
    assert(p =~= a + push_d());
    lemma_render_append(a, push_d());
    lemma_two(p[0], p[1]);
    lemma_push_d_text();
    assert(render(p) =~= seq!['@'] + s + seq!['\n', 'D', '=', 'M', '\n'] + push_d_chars());
}

proof fn lemma_enter_a(name: Seq<char>, n: usize, l: Seq<char>)
    ensures
        ({
            let p = enter_callee(name, n, l);
            render(seq![p[0], p[1], p[2], p[3]]) == seq!['@'] + nat_dec((n + 5) as nat) + seq![
                '\n', 'D', '=', 'A', '\n', '@', 'S', 'P', '\n', 'D', '=', 'M', '-', 'D']
        }),
{
    let p = enter_callee(name, n, l);
    lemma_four(p[0], p[1], p[2], p[3]);
    assert(crate::number::int_dec((n + 5) as int) == nat_dec((n + 5) as nat));
    assert(render(seq![p[0], p[1], p[2], p[3]]) =~= seq!['@'] + nat_dec((n + 5) as nat) + seq![
        '\n', 'D', '=', 'A', '\n', '@', 'S', 'P', '\n', 'D', '=', 'M', '-', 'D']);
}

proof fn lemma_enter_b(name: Seq<char>, n: usize, l: Seq<char>)
    ensures
        ({
            let p = enter_callee(name, n, l);
            render(seq![p[4], p[5], p[6], p[7]]) == seq![
                '@', 'A', 'R', 'G', '\n', 'M', '=', 'D', '\n', '@', 'S', 'P', '\n', 'D', '=', 'M']
        }),
{
    let p = enter_callee(name, n, l);
    lemma_four(p[4], p[5], p[6], p[7]);
    assert(render(seq![p[4], p[5], p[6], p[7]]) =~= seq![
        '@', 'A', 'R', 'G', '\n', 'M', '=', 'D', '\n', '@', 'S', 'P', '\n', 'D', '=', 'M']);
}

proof fn lemma_enter_c(name: Seq<char>, n: usize, l: Seq<char>)
    ensures
        ({
            let p = enter_callee(name, n, l);
            render(seq![p[8], p[9], p[10], p[11], p[12]]) == seq![
                '@', 'L', 'C', 'L', '\n', 'M', '=', 'D', '\n', '@'] + name + seq![
                '\n', '0', ';', 'J', 'M', 'P', '\n', '('] + l + seq![')']
        }),
{
    let p = enter_callee(name, n, l);
    lemma_five(p[8], p[9], p[10], p[11], p[12]);
    assert(render(seq![p[8], p[9], p[10], p[11], p[12]]) =~= seq![
        '@', 'L', 'C', 'L', '\n', 'M', '=', 'D', '\n', '@'] + name + seq![
        '\n', '0', ';', 'J', 'M', 'P', '\n', '('] + l + seq![')']);
}

#[verifier::spinoff_prover]
#[verifier::rlimit(60)]
proof fn lemma_enter_callee_text(name: Seq<char>, n: usize, l: Seq<char>)
    ensures
        render(enter_callee(name, n, l)) == seq!['@'] + nat_dec((n + 5) as nat)
            + "\nD=A\n@SP\nD=M-D\n@ARG\nM=D\n@SP\nD=M\n@LCL\nM=D\n@"@ + name + "\n0;JMP\n("@ + l
            + ")"@,
{
    let p = enter_callee(name, n, l);
    let a = seq![p[0], p[1], p[2], p[3]];
    let b = seq![p[4], p[5], p[6], p[7]];
    let c = seq![p[8], p[9], p[10], p[11], p[12]];
    assert(p =~= a + (b + c));
    lemma_render_append(b, c);
    lemma_render_append(a, b + c);
    lemma_enter_a(name, n, l);
    lemma_enter_b(name, n, l);
    lemma_enter_c(name, n, l);
    reveal_strlit("\nD=A\n@SP\nD=M-D\n@ARG\nM=D\n@SP\nD=M\n@LCL\nM=D\n@");
    reveal_strlit("\n0;JMP\n(");
    reveal_strlit(")");
    assert(render(p) =~= seq!['@'] + nat_dec((n + 5) as nat)
        + "\nD=A\n@SP\nD=M-D\n@ARG\nM=D\n@SP\nD=M\n@LCL\nM=D\n@"@ + name + "\n0;JMP\n("@ + l
        + ")"@);
}

#[verifier::spinoff_prover]
#[verifier::rlimit(60)]
proof fn lemma_call_text(name: Seq<char>, n: usize, id: nat)
    requires
        n + 5 <= usize::MAX,
    ensures
        function_asm(FunctionSpec::Call { name, n_args: n }, id) == render(call_prog(name, n, id)),
{
    let l = call_label(name, id);
    let a = push_address(l);
    let b = push_register(seq!['L', 'C', 'L']);
    let c = push_register(seq!['A', 'R', 'G']);
    let d = push_register(seq!['T', 'H', 'I', 'S']);
    let e = push_register(seq!['T', 'H', 'A', 'T']);
    let f = enter_callee(name, n, l);
    assert(call_prog(name, n, id) =~= a + (b + (c + (d + (e + f)))));
    lemma_render_append(e, f);
    lemma_render_append(d, e + f);
    lemma_render_append(c, d + (e + f));
    lemma_render_append(b, c + (d + (e + f)));
    lemma_render_append(a, b + (c + (d + (e + f))));
    lemma_push_address_text(l);
    lemma_push_register_text(seq!['L', 'C', 'L']);
    lemma_push_register_text(seq!['A', 'R', 'G']);
    lemma_push_register_text(seq!['T', 'H', 'I', 'S']);
    lemma_push_register_text(seq!['T', 'H', 'A', 'T']);
    lemma_enter_callee_text(name, n, l);
    reveal_strlit("@");
    reveal_strlit("\nD=A\n@SP\nA=M\nM=D\n@SP\nM=M+1\n@LCL\nD=M\n@SP\nA=M\nM=D\n@SP\nM=M+1\n@ARG\nD=M\n@SP\nA=M\nM=D\n@SP\nM=M+1\n@THIS\nD=M\n@SP\nA=M\nM=D\n@SP\nM=M+1\n@THAT\nD=M\n@SP\nA=M\nM=D\n@SP\nM=M+1\n@");
    assert(function_asm(FunctionSpec::Call { name, n_args: n }, id) =~= render(
        call_prog(name, n, id),
    ));
}

/// Running the five lines of `push_d` from line `o`: `D` goes on the stack.
proof fn lemma_push_d_at(p: Seq<Instr>, vars: spec_fn(Seq<char>) -> int, s: Hack, o: int)
    requires
        0 <= o,
        o + 5 <= p.len(),
        p.subrange(o, o + 5) == push_d(),
        s.pc == o,
        1 <= (s.ram)(0) < 32767,
    ensures
        ({
            let r = run(p, vars, s, 5);
            let sp = (s.ram)(0);
            &&& r.pc == o + 5
            &&& forall|c: int|
                #[trigger] (r.ram)(c) == if c == 0 {
                    (sp + 1) as i16
                } else if c == sp {
                    s.d
                } else {
                    (s.ram)(c)
                }
        }),
{
    assert(predefined(sym_sp()) == Some(0int));
    let q = push_d();
    assert forall|k: int| o <= k < o + 5 implies p[k] == q[k - o] by {
        assert(p[k] == p.subrange(o, o + 5)[k - o]);
    }
    let s1 = step(p, vars, s);
    let s2 = step(p, vars, s1);
    let s3 = step(p, vars, s2);
    let s4 = step(p, vars, s3);
    let s5 = step(p, vars, s4);
    reveal_with_fuel(run, 6);
    assert(run(p, vars, s, 5) == s5);
}

/// Running `push_address(sym)` from line `o`: the address of `sym` goes on
/// the stack.
proof fn lemma_push_address_runs(
    p: Seq<Instr>,
    vars: spec_fn(Seq<char>) -> int,
    s: Hack,
    o: int,
    sym: Seq<char>,
)
    requires
        0 <= o,
        o + 7 <= p.len(),
        p.subrange(o, o + 7) == push_address(sym),
        s.pc == o,
        1 <= (s.ram)(0) < 32767,
    ensures
        ({
            let r = run(p, vars, s, 7);
            let sp = (s.ram)(0);
            &&& r.pc == o + 7
            &&& forall|c: int|
                #[trigger] (r.ram)(c) == if c == 0 {
                    (sp + 1) as i16
                } else if c == sp {
                    symbol(p, vars, sym) as i16
                } else {
                    (s.ram)(c)
                }
        }),
{
    let q = push_address(sym);
    assert(p[o] == p.subrange(o, o + 7)[0]);
    assert(p[o + 1] == p.subrange(o, o + 7)[1]);
    assert(p.subrange(o + 2, o + 7) =~= push_d()) by {
        assert forall|k: int| 0 <= k < 5 implies p.subrange(o + 2, o + 7)[k] == push_d()[k] by {
            assert(p.subrange(o + 2, o + 7)[k] == p.subrange(o, o + 7)[k + 2]);
        }
    }
    let s1 = step(p, vars, s);
    let s2 = step(p, vars, s1);
    reveal_with_fuel(run, 3);
    assert(run(p, vars, s, 2) == s2);
    lemma_push_d_at(p, vars, s2, o + 2);
    lemma_run_add(p, vars, s, 2, 5);
}

/// Running `push_register(sym)` from line `o`, where `sym` names the register
/// at address `at`: the register's value goes on the stack.
proof fn lemma_push_register_runs(
    p: Seq<Instr>,
    vars: spec_fn(Seq<char>) -> int,
    s: Hack,
    o: int,
    sym: Seq<char>,
    at: int,
)
    requires
        0 <= o,
        o + 7 <= p.len(),
        p.subrange(o, o + 7) == push_register(sym),
        predefined(sym) == Some(at),
        0 <= at <= 4,
        s.pc == o,
        1 <= (s.ram)(0) < 32767,
    ensures
        ({
            let r = run(p, vars, s, 7);
            let sp = (s.ram)(0);
            &&& r.pc == o + 7
            &&& forall|c: int|
                #[trigger] (r.ram)(c) == if c == 0 {
                    (sp + 1) as i16
                } else if c == sp {
                    (s.ram)(at)
                } else {
                    (s.ram)(c)
                }
        }),
{
    assert(p[o] == p.subrange(o, o + 7)[0]);
    assert(p[o + 1] == p.subrange(o, o + 7)[1]);
    assert(p.subrange(o + 2, o + 7) =~= push_d()) by {
        assert forall|k: int| 0 <= k < 5 implies p.subrange(o + 2, o + 7)[k] == push_d()[k] by {
            assert(p.subrange(o + 2, o + 7)[k] == p.subrange(o, o + 7)[k + 2]);
        }
    }
    let s1 = step(p, vars, s);
    let s2 = step(p, vars, s1);
    reveal_with_fuel(run, 3);
    assert(run(p, vars, s, 2) == s2);
    lemma_push_d_at(p, vars, s2, o + 2);
    lemma_run_add(p, vars, s, 2, 5);
}

/// Running the first twelve lines of `enter_callee(name, n, l)` from line
/// `o`: `ARG` gets `SP - n - 5`, `LCL` gets `SP`, and the machine jumps to
/// `name`.
proof fn lemma_enter_callee_runs(
    p: Seq<Instr>,
    vars: spec_fn(Seq<char>) -> int,
    s: Hack,
    o: int,
    name: Seq<char>,
    n: usize,
    l: Seq<char>,
)
    requires
        0 <= o,
        o + 13 <= p.len(),
        p.subrange(o, o + 13) == enter_callee(name, n, l),
        s.pc == o,
        n + 5 <= 32767,
        1 <= (s.ram)(0),
    ensures
        ({
            let r = run(p, vars, s, 12);
            let sp = (s.ram)(0);
            &&& r.pc == (symbol(p, vars, name) as i16) as int
            &&& forall|c: int|
                #[trigger] (r.ram)(c) == if c == 2 {
                    (sp - (n + 5)) as i16
                } else if c == 1 {
                    sp
                } else {
                    (s.ram)(c)
                }
        }),
{
    crate::function_return::lemma_registers();
    let q = enter_callee(name, n, l);
    assert forall|k: int| o <= k < o + 13 implies p[k] == q[k - o] by {
        assert(p[k] == p.subrange(o, o + 13)[k - o]);
    }
    let s1 = step(p, vars, s);
    let s2 = step(p, vars, s1);
    let s3 = step(p, vars, s2);
    let s4 = step(p, vars, s3);
    let s5 = step(p, vars, s4);
    let s6 = step(p, vars, s5);
    let s7 = step(p, vars, s6);
    let s8 = step(p, vars, s7);
    let s9 = step(p, vars, s8);
    let s10 = step(p, vars, s9);
    let s11 = step(p, vars, s10);
    let s12 = step(p, vars, s11);
    reveal_with_fuel(run, 13);
    assert(run(p, vars, s, 12) == s12);
}

proof fn lemma_call_parts(name: Seq<char>, n: usize, id: nat)
    ensures
        ({
            let c = call_prog(name, n, id);
            &&& c.len() == 48
            &&& c.subrange(0, 7) == push_address(call_label(name, id))
            &&& c.subrange(7, 14) == push_register(seq!['L', 'C', 'L'])
            &&& c.subrange(14, 21) == push_register(seq!['A', 'R', 'G'])
            &&& c.subrange(21, 28) == push_register(seq!['T', 'H', 'I', 'S'])
            &&& c.subrange(28, 35) == push_register(seq!['T', 'H', 'A', 'T'])
            &&& c.subrange(35, 48) == enter_callee(name, n, call_label(name, id))
        }),
{
    let c = call_prog(name, n, id);
    assert(c.subrange(0, 7) =~= push_address(call_label(name, id)));
    assert(c.subrange(7, 14) =~= push_register(seq!['L', 'C', 'L']));
    assert(c.subrange(14, 21) =~= push_register(seq!['A', 'R', 'G']));
    assert(c.subrange(21, 28) =~= push_register(seq!['T', 'H', 'I', 'S']));
    assert(c.subrange(28, 35) =~= push_register(seq!['T', 'H', 'A', 'T']));
    assert(c.subrange(35, 48) =~= enter_callee(name, n, call_label(name, id)));
}

proof fn lemma_part_at(p: Seq<Instr>, c: Seq<Instr>, i: int, a: int, b: int)
    requires
        0 <= i,
        i + c.len() <= p.len(),
        p.subrange(i, i + c.len()) == c,
        0 <= a <= b <= c.len(),
    ensures
        p.subrange(i + a, i + b) == c.subrange(a, b),
{
    assert forall|k: int| 0 <= k < b - a implies p.subrange(i + a, i + b)[k] == c.subrange(a, b)[k] by {
        assert(p.subrange(i, i + c.len())[a + k] == p[i + a + k]);
    }
    assert(p.subrange(i + a, i + b) =~= c.subrange(a, b));
}

/// `call name n` on the Hack machine, its code standing at line `i` of a
/// program `p`: from a state whose stack pointer `sp` is at least 5 (above
/// the registers) and at most 32762, with `n + 5` at most 32767, running the
/// code pushes the address of the call's return label, then `LCL`, `ARG`,
/// `THIS` and `THAT` (the cells `sp` to `sp + 4`), sets `ARG` to `sp - n` (where
/// the `n` arguments start) and the stack pointer and `LCL` to `sp + 5`, changes
/// no other cell, and jumps to the function `name`. The return label is
/// declared on the line right after the jump, and where no earlier line
/// declares it, the address pushed is that line's.
#[verifier::spinoff_prover]
#[verifier::rlimit(80)]
pub proof fn lemma_call_runs(
    name: Seq<char>,
    n: usize,
    id: nat,
    p: Seq<Instr>,
    vars: spec_fn(Seq<char>) -> int,
    m: Hack,
    i: int,
)
    requires
        n + 5 <= 32767,
        0 <= i,
        i + 48 <= p.len(),
        p.subrange(i, i + 48) == call_prog(name, n, id),
        m.pc == i,
        5 <= (m.ram)(0),
        (m.ram)(0) + 5 <= 32767,
    ensures
        function_asm(FunctionSpec::Call { name, n_args: n }, id) == render(call_prog(name, n, id)),
        p[i + 47] == Instr::Label(call_label(name, id)),
        (forall|k: int| 0 <= k < i + 47 ==> p[k] != Instr::Label(call_label(name, id)))
            ==> symbol(p, vars, call_label(name, id)) == i + 47,
        ({
            let r = run(p, vars, m, 47);
            let sp = (m.ram)(0);
            &&& r.pc == (symbol(p, vars, name) as i16) as int
            &&& (r.ram)(sp as int) == symbol(p, vars, call_label(name, id)) as i16
            &&& (r.ram)(sp + 1) == (m.ram)(1)
            &&& (r.ram)(sp + 2) == (m.ram)(2)
            &&& (r.ram)(sp + 3) == (m.ram)(3)
            &&& (r.ram)(sp + 4) == (m.ram)(4)
            &&& (r.ram)(0) == sp + 5
            &&& (r.ram)(1) == sp + 5
            &&& (r.ram)(2) == sp - n
            &&& forall|c: int|
                !(0 <= c <= 2) && !(sp <= c < sp + 5) ==> #[trigger] (r.ram)(c) == (m.ram)(c)
        }),
{
    lemma_call_text(name, n, id);
    lemma_call_parts(name, n, id);
    crate::function_return::lemma_registers();
    let c = call_prog(name, n, id);
    let l = call_label(name, id);
    lemma_part_at(p, c, i, 0, 7);
    lemma_part_at(p, c, i, 7, 14);
    lemma_part_at(p, c, i, 14, 21);
    lemma_part_at(p, c, i, 21, 28);
    lemma_part_at(p, c, i, 28, 35);
    lemma_part_at(p, c, i, 35, 48);
    assert(p[i + 47] == c[47]);
    assert(c[47] == enter_callee(name, n, l)[12]);
    lemma_return_label_not_predefined(name, id);
    if forall|k: int| 0 <= k < i + 47 ==> p[k] != Instr::Label(l) {
        lemma_label_first(p, l, 0, i + 47);
    }
    let sp = (m.ram)(0) as int;
    lemma_push_address_runs(p, vars, m, i, l);
    let s1 = run(p, vars, m, 7);
    lemma_push_register_runs(p, vars, s1, i + 7, seq!['L', 'C', 'L'], 1);
    let s2 = run(p, vars, s1, 7);
    lemma_push_register_runs(p, vars, s2, i + 14, seq!['A', 'R', 'G'], 2);
    let s3 = run(p, vars, s2, 7);
    lemma_push_register_runs(p, vars, s3, i + 21, seq!['T', 'H', 'I', 'S'], 3);
    let s4 = run(p, vars, s3, 7);
    lemma_push_register_runs(p, vars, s4, i + 28, seq!['T', 'H', 'A', 'T'], 4);
    let s5 = run(p, vars, s4, 7);
    lemma_enter_callee_runs(p, vars, s5, i + 35, name, n, l);
    lemma_run_add(p, vars, m, 7, 7);
    lemma_run_add(p, vars, m, 14, 7);
    lemma_run_add(p, vars, m, 21, 7);
    lemma_run_add(p, vars, m, 28, 7);
    lemma_run_add(p, vars, m, 35, 12);
}

proof fn lemma_return_label_not_predefined(name: Seq<char>, id: nat)
    ensures
        predefined(call_label(name, id)) is None,
{
    reveal_strlit(":::CALLID:::");
    assert(":::CALLID:::"@.len() == 12);
    assert(call_label(name, id).len() >= 12);
}

proof fn lemma_label_first(p: Seq<Instr>, l: Seq<char>, k: int, j: int)
    requires
        0 <= k <= j < p.len(),
        p[j] == Instr::Label(l),
        forall|q: int| 0 <= q < j ==> p[q] != Instr::Label(l),
    ensures
        crate::hack::label_from(p, l, k) == Some(j),
    decreases j - k,
{
    if k < j {
        lemma_label_first(p, l, k + 1, j);
    }
}

/// The program of the bootstrap code: the stack pointer is set to 256, then
/// `Sys.init` is called with no arguments, as call number 0.
pub open spec fn boot_prog() -> Seq<Instr> {
    seq![
        Instr::AtNum(256),
        Instr::Assign(Reg::D, Comp::Get(Reg::A)),
        Instr::At(sym_sp()),
        Instr::Assign(Reg::M, Comp::Get(Reg::D)),
    ] + call_prog(seq!['S', 'y', 's', '.', 'i', 'n', 'i', 't'], 0, 0)
}

proof fn lemma_boot_text()
    ensures
        crate::compiler::booting_spec() == render(boot_prog()) + "\n"@,
{
    let init = seq!['S', 'y', 's', '.', 'i', 'n', 'i', 't'];
    let b = boot_prog();
    let head = seq![b[0], b[1], b[2], b[3]];
    let c = call_prog(init, 0, 0);
    assert(b =~= head + c);
    lemma_render_append(head, c);
    lemma_four(b[0], b[1], b[2], b[3]);
    lemma_call_text(init, 0, 0);
    reveal_strlit("@256\nD=A\n@SP\nM=D\n");
    reveal_strlit("Sys.init");
    reveal_strlit("\n");
    assert("Sys.init"@ =~= init);
    assert(crate::number::int_dec(256) =~= seq!['2', '5', '6']) by {
        reveal_with_fuel(nat_dec, 3);
    }
    assert(crate::compiler::booting_spec() =~= render(b) + "\n"@);
}

/// The bootstrap code on the Hack machine: its text is the text of
/// `boot_prog` and a line end, and run from its first line at the start of a
/// program `p`, it sets the stack pointer to 256 and calls `Sys.init`: the
/// address of the call's return label at 256, the old `LCL`, `ARG`, `THIS` and
/// `THAT` at 257 to 260, `ARG` at 256, `LCL` and the stack pointer at 261, no
/// other cell changed, and a jump to `Sys.init`.
pub proof fn lemma_boot_runs(p: Seq<Instr>, vars: spec_fn(Seq<char>) -> int, m: Hack)
    requires
        52 <= p.len(),
        p.subrange(0, 52) == boot_prog(),
        m.pc == 0,
    ensures
        crate::compiler::booting_spec() == render(boot_prog()) + "\n"@,
        ({
            let init = seq!['S', 'y', 's', '.', 'i', 'n', 'i', 't'];
            let r = run(p, vars, m, 51);
            &&& r.pc == (symbol(p, vars, init) as i16) as int
            &&& (r.ram)(256) == symbol(p, vars, call_label(init, 0)) as i16
            &&& (r.ram)(257) == (m.ram)(1)
            &&& (r.ram)(258) == (m.ram)(2)
            &&& (r.ram)(259) == (m.ram)(3)
            &&& (r.ram)(260) == (m.ram)(4)
            &&& (r.ram)(0) == 261
            &&& (r.ram)(1) == 261
            &&& (r.ram)(2) == 256
            &&& forall|c: int|
                !(0 <= c <= 2) && !(256 <= c < 261) ==> #[trigger] (r.ram)(c) == (m.ram)(c)
        }),
{
    let init = seq!['S', 'y', 's', '.', 'i', 'n', 'i', 't'];
    let c = call_prog(init, 0, 0);
    lemma_boot_text();
    assert forall|k: int| 0 <= k < 52 implies p[k] == boot_prog()[k] by {
        assert(p[k] == p.subrange(0, 52)[k]);
    }
    assert(predefined(sym_sp()) == Some(0int));
    let m1 = step(p, vars, m);
    let m2 = step(p, vars, m1);
    let m3 = step(p, vars, m2);
    let m4 = step(p, vars, m3);
    assert(m4.pc == 4 && (m4.ram)(0) == 256);
    reveal_with_fuel(run, 5);
    assert(run(p, vars, m, 4) == m4);
    assert(p.subrange(4, 52) =~= c);
    lemma_call_runs(init, 0, 0, p, vars, m4, 4);
    lemma_run_add(p, vars, m, 4, 47);
}

} // verus!
