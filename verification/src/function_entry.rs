//! What the entry code of a function does on the Hack machine, and the
//! return labels of calls.

use vstd::prelude::*;
use crate::assembly::{call_label, function_asm, function_label};
use crate::command::FunctionSpec;
use crate::hack::{Comp, Hack, Instr, Jump, Reg, instr_text, lemma_run_add, render, run, step, sym_sp};
use crate::number::{all_digits, lemma_nat_dec_digits, lemma_nat_dec_injective, nat_dec};
use crate::semantics::{lemma_five, lemma_four, lemma_render_append, lemma_three, lemma_two};

verus! {

/// `START`
pub open spec fn start_chars() -> Seq<char> {
    seq!['S', 'T', 'A', 'R', 'T']
}

/// `END`
pub open spec fn end_chars() -> Seq<char> {
    seq!['E', 'N', 'D']
}

/// The program of `function name k`.
pub open spec fn function_prog(name: Seq<char>, k: usize) -> Seq<Instr> {
    let ms = function_label(name) + start_chars();
    let me = function_label(name) + end_chars();
    seq![
        Instr::Label(name),
        Instr::AtNum(k as int),
        Instr::Assign(Reg::D, Comp::Get(Reg::A)),
        Instr::Label(ms),
        Instr::At(me),
        Instr::Branch(Comp::Get(Reg::D), Jump::Eq),
        Instr::At(sym_sp()),
        Instr::Assign(Reg::A, Comp::Get(Reg::M)),
        Instr::Assign(Reg::M, Comp::Zero),
        Instr::At(sym_sp()),
        Instr::Assign(Reg::M, Comp::Inc(Reg::M)),
        Instr::Assign(Reg::D, Comp::Dec(Reg::D)),
        Instr::At(ms),
        Instr::Branch(Comp::Zero, Jump::Always),
        Instr::Label(me),
    ]
}

proof fn lemma_lit_function()
    ensures
        "("@ == seq!['('],
        ")\n@"@ == seq![')', '\n', '@'],
        "\nD=A\n("@ == seq!['\n', 'D', '=', 'A', '\n', '('],
        "START)\n@"@ == start_chars() + seq![')', '\n', '@'],
        "END\nD;JEQ\n@SP\nA=M\nM=0\n@SP\nM=M+1\nD=D-1\n@"@ == end_chars() + seq![
            '\n', 'D', ';', 'J', 'E', 'Q', '\n', '@', 'S', 'P', '\n', 'A', '=', 'M', '\n', 'M', '=', '0',
            '\n', '@', 'S', 'P', '\n', 'M', '=', 'M', '+', '1', '\n', 'D', '=', 'D', '-', '1', '\n', '@'],
        "START\n0;JMP\n("@ == start_chars() + seq!['\n', '0', ';', 'J', 'M', 'P', '\n', '('],
        "END)"@ == end_chars() + seq![')'],
{
    reveal_strlit("(");
    reveal_strlit(")\n@");
    reveal_strlit("\nD=A\n(");
    reveal_strlit("START)\n@");
    reveal_strlit("END\nD;JEQ\n@SP\nA=M\nM=0\n@SP\nM=M+1\nD=D-1\n@");
    reveal_strlit("START\n0;JMP\n(");
    reveal_strlit("END)");
    assert("("@ =~= seq!['(']);
    assert(")\n@"@ =~= seq![')', '\n', '@']);
    assert("\nD=A\n("@ =~= seq!['\n', 'D', '=', 'A', '\n', '(']);
    assert("START)\n@"@ =~= start_chars() + seq![')', '\n', '@']);
    assert("END\nD;JEQ\n@SP\nA=M\nM=0\n@SP\nM=M+1\nD=D-1\n@"@ =~= end_chars() + seq![
        '\n', 'D', ';', 'J', 'E', 'Q', '\n', '@', 'S', 'P', '\n', 'A', '=', 'M', '\n', 'M', '=', '0',
        '\n', '@', 'S', 'P', '\n', 'M', '=', 'M', '+', '1', '\n', 'D', '=', 'D', '-', '1', '\n', '@']);
    assert("START\n0;JMP\n("@ =~= start_chars() + seq!['\n', '0', ';', 'J', 'M', 'P', '\n', '(']);
    assert("END)"@ =~= end_chars() + seq![')']);
}

/// The text of `function name k`, flat.
pub open spec fn function_chars(name: Seq<char>, k: usize) -> Seq<char> {
    let m = function_label(name);
    seq!['('] + name + seq![')', '\n', '@'] + nat_dec(k as nat) + seq!['\n', 'D', '=', 'A', '\n', '(']
        + m + start_chars() + seq![')', '\n', '@'] + m + end_chars() + seq![
        '\n', 'D', ';', 'J', 'E', 'Q', '\n', '@', 'S', 'P', '\n', 'A', '=', 'M', '\n', 'M', '=', '0',
        '\n', '@', 'S', 'P', '\n', 'M', '=', 'M', '+', '1', '\n', 'D', '=', 'D', '-', '1', '\n', '@'] + m
        + start_chars() + seq!['\n', '0', ';', 'J', 'M', 'P', '\n', '('] + m + end_chars() + seq![')']
}

proof fn lemma_q1(name: Seq<char>, k: usize)
    ensures
        ({
            let p = function_prog(name, k);
            render(seq![p[0], p[1], p[2]]) == seq!['('] + name + seq![')', '\n', '@'] + nat_dec(k as nat) + seq!['\n', 'D', '=', 'A']
        }),
{
    let p = function_prog(name, k);
    lemma_three(p[0], p[1], p[2]);
    assert(render(seq![p[0], p[1], p[2]]) =~= seq!['('] + name + seq![')', '\n', '@'] + nat_dec(k as nat) + seq!['\n', 'D', '=', 'A']);
}

proof fn lemma_q2(name: Seq<char>, k: usize)
    ensures
        ({
            let p = function_prog(name, k);
            let m = function_label(name);
            render(seq![p[3], p[4], p[5]]) == seq!['('] + m + start_chars() + seq![')', '\n', '@'] + m + end_chars() + seq!['\n', 'D', ';', 'J', 'E', 'Q']
        }),
{
    let p = function_prog(name, k);
    let m = function_label(name);
    lemma_three(p[3], p[4], p[5]);
    assert(render(seq![p[3], p[4], p[5]]) =~= seq!['('] + m + start_chars() + seq![')', '\n', '@'] + m + end_chars() + seq!['\n', 'D', ';', 'J', 'E', 'Q']);
}

proof fn lemma_q3(name: Seq<char>, k: usize)
    ensures
        ({
            let p = function_prog(name, k);
            render(seq![p[6], p[7], p[8], p[9], p[10]]) == seq!['@', 'S', 'P', '\n', 'A', '=', 'M', '\n', 'M', '=', '0', '\n', '@', 'S', 'P', '\n', 'M', '=', 'M', '+', '1']
        }),
{
    let p = function_prog(name, k);
    lemma_five(p[6], p[7], p[8], p[9], p[10]);
    assert(render(seq![p[6], p[7], p[8], p[9], p[10]]) =~= seq!['@', 'S', 'P', '\n', 'A', '=', 'M', '\n', 'M', '=', '0', '\n', '@', 'S', 'P', '\n', 'M', '=', 'M', '+', '1']);
}

proof fn lemma_q4(name: Seq<char>, k: usize)
    ensures
        ({
            let p = function_prog(name, k);
            let m = function_label(name);
            render(seq![p[11], p[12], p[13], p[14]]) == seq!['D', '=', 'D', '-', '1', '\n', '@'] + m + start_chars() + seq!['\n', '0', ';', 'J', 'M', 'P', '\n', '('] + m + end_chars() + seq![')']
        }),
{
    let p = function_prog(name, k);
    let m = function_label(name);
    lemma_four(p[11], p[12], p[13], p[14]);
    assert(render(seq![p[11], p[12], p[13], p[14]]) =~= seq!['D', '=', 'D', '-', '1', '\n', '@'] + m + start_chars() + seq!['\n', '0', ';', 'J', 'M', 'P', '\n', '('] + m + end_chars() + seq![')']);
}

#[verifier::spinoff_prover]
#[verifier::rlimit(80)]
proof fn lemma_function_render(name: Seq<char>, k: usize)
    ensures
        render(function_prog(name, k)) == function_chars(name, k),
{
    let p = function_prog(name, k);
    let q1 = seq![p[0], p[1], p[2]];
    let q2 = seq![p[3], p[4], p[5]];
    let q3 = seq![p[6], p[7], p[8], p[9], p[10]];
    let q4 = seq![p[11], p[12], p[13], p[14]];
    assert(p =~= q1 + (q2 + (q3 + q4)));
    lemma_render_append(q3, q4);
    lemma_render_append(q2, q3 + q4);
    lemma_render_append(q1, q2 + (q3 + q4));
    lemma_q1(name, k);
    lemma_q2(name, k);
    lemma_q3(name, k);
    lemma_q4(name, k);
    assert(render(p) =~= function_chars(name, k));
}

#[verifier::spinoff_prover]
#[verifier::rlimit(80)]
proof fn lemma_function_text(name: Seq<char>, k: usize)
    ensures
        function_asm(FunctionSpec::Function { name, n_locals: k }, 0) == render(function_prog(name, k)),
{
    lemma_function_render(name, k);
    lemma_lit_function();
    assert(function_asm(FunctionSpec::Function { name, n_locals: k }, 0) =~= function_chars(name, k));
}


/// The memory after `j` rounds of the entry loop of a function called with
/// the stack pointer at `sp`: `j` cells from `sp` on set to 0 and the stack
/// pointer at `sp + j`.
pub open spec fn entry_ram(ram0: spec_fn(int) -> i16, sp: int, j: int) -> spec_fn(int) -> i16 {
    |c: int|
        if c == 0 {
            (sp + j) as i16
        } else if sp <= c < sp + j {
            0i16
        } else {
            ram0(c)
        }
}

proof fn lemma_entry_labels(name: Seq<char>, k: usize, vars: spec_fn(Seq<char>) -> int)
    ensures
        crate::hack::symbol(function_prog(name, k), vars, function_label(name) + start_chars()) == 3,
        crate::hack::symbol(function_prog(name, k), vars, function_label(name) + end_chars()) == 14,
        crate::hack::symbol(function_prog(name, k), vars, sym_sp()) == 0,
{
    reveal_strlit("MANGLED::::");
    reveal_strlit("::::NaMe");
    let p = function_prog(name, k);
    let ms = function_label(name) + start_chars();
    let me = function_label(name) + end_chars();
    assert(ms.len() == name.len() + 24);
    assert(me.len() == name.len() + 22);
    assert(ms != name && me != name && ms != me);
    assert(crate::hack::predefined(ms).is_none());
    assert(crate::hack::predefined(me).is_none());
    assert(crate::hack::predefined(sym_sp()) == Some(0int));
    reveal_with_fuel(crate::hack::label_from, 16);
    assert(crate::hack::label_from(p, ms, 0) == Some(3int));
    assert(crate::hack::label_from(p, me, 0) == Some(14int));
}

#[verifier::spinoff_prover]
#[verifier::rlimit(80)]
proof fn lemma_entry_loop(
    name: Seq<char>,
    k: usize,
    vars: spec_fn(Seq<char>) -> int,
    s: Hack,
    ram0: spec_fn(int) -> i16,
    sp: int,
    j: int,
)
    requires
        s.pc == 3,
        0 <= j <= k,
        k <= 32767,
        1 <= sp,
        sp + k <= 32767,
        s.d == (k - j) as i16,
        s.ram == entry_ram(ram0, sp, j),
    ensures
        run(function_prog(name, k), vars, s, (11 * (k - j) + 4) as nat).pc == 15,
        run(function_prog(name, k), vars, s, (11 * (k - j) + 4) as nat).ram == entry_ram(ram0, sp, k as int),
    decreases k - j,
{
    let p = function_prog(name, k);
    lemma_entry_labels(name, k, vars);
    let s4 = step(p, vars, s);
    let s5 = step(p, vars, s4);
    let s6 = step(p, vars, s5);
    if j == k {
        let s7 = step(p, vars, s6);
        assert(s6.pc == 14);
        reveal_with_fuel(run, 5);
        assert(run(p, vars, s, 4) == s7);
    } else {
        assert(s6.pc == 6);
        let s7 = step(p, vars, s6);
        let s8 = step(p, vars, s7);
        let s9 = step(p, vars, s8);
        let s10 = step(p, vars, s9);
        let s11 = step(p, vars, s10);
        let s12 = step(p, vars, s11);
        let s13 = step(p, vars, s12);
        let s14 = step(p, vars, s13);
        assert(s8.a == sp + j);
        assert(s14.pc == 3);
        assert(s14.d == (k - (j + 1)) as i16);
        assert(s14.ram =~= entry_ram(ram0, sp, j + 1));
        reveal_with_fuel(run, 12);
        assert(run(p, vars, s, 11) == s14);
        lemma_entry_loop(name, k, vars, s14, ram0, sp, j + 1);
        lemma_run_add(p, vars, s, 11, (11 * (k - (j + 1)) + 4) as nat);
        assert((11 * (k - j) + 4) as nat == 11 + (11 * (k - (j + 1)) + 4) as nat);
    }
}

/// `function name k` on the Hack machine: from a state whose stack pointer
/// `sp` is at least 1, with `k` at most 32767 and `sp + k` at most 32767,
/// running the function's entry code ends at its end with the `k` cells from
/// `sp` on set to 0 (the function's locals), the stack pointer at `sp + k`, and
/// every other cell as it was; and the command's text is that program's
/// text, which starts with the label `(name)`.
pub proof fn lemma_function_runs(name: Seq<char>, k: usize, vars: spec_fn(Seq<char>) -> int, m: Hack)
    requires
        m.pc == 0,
        k <= 32767,
        1 <= (m.ram)(0),
        (m.ram)(0) + k <= 32767,
    ensures
        function_asm(FunctionSpec::Function { name, n_locals: k }, 0) == render(function_prog(name, k)),
        function_prog(name, k)[0] == Instr::Label(name),
        ({
            let p = function_prog(name, k);
            let r = run(p, vars, m, (11 * k + 7) as nat);
            let sp = (m.ram)(0);
            &&& r.pc == p.len()
            &&& (r.ram)(0) == sp + k
            &&& forall|c: int| sp <= c < sp + k ==> #[trigger] (r.ram)(c) == 0
            &&& forall|c: int| c != 0 && !(sp <= c < sp + k) ==> #[trigger] (r.ram)(c) == (m.ram)(c)
        }),
{
    lemma_function_text(name, k);
    let p = function_prog(name, k);
    let sp = (m.ram)(0) as int;
    let m1 = step(p, vars, m);
    let m2 = step(p, vars, m1);
    let m3 = step(p, vars, m2);
    assert(m3.pc == 3 && m3.d == k as i16);
    assert(m3.ram =~= entry_ram(m.ram, sp, 0));
    reveal_with_fuel(run, 4);
    assert(run(p, vars, m, 3) == m3);
    lemma_entry_loop(name, k, vars, m3, m.ram, sp, 0);
    lemma_run_add(p, vars, m, 3, (11 * k + 4) as nat);
    assert((11 * k + 7) as nat == 3 + (11 * (k - 0) + 4) as nat);
}


proof fn lemma_call_labels_order(n1: Seq<char>, n2: Seq<char>, i: nat, j: nat)
    requires
        nat_dec(i).len() <= nat_dec(j).len(),
        call_label(n1, i) == call_label(n2, j),
    ensures
        i == j,
{
    reveal_strlit(":::CALLID:::");
    let c = ":::CALLID:::"@;
    assert(c.len() == 12 && c[11] == ':');
    let d1 = nat_dec(i);
    let d2 = nat_dec(j);
    lemma_nat_dec_digits(i);
    lemma_nat_dec_digits(j);
    let s = call_label(n1, i);
    assert(s == n1 + c + d1);
    assert(s == n2 + c + d2);
    if d1.len() == d2.len() {
        assert(s.skip(s.len() - d1.len()) =~= d1);
        assert(call_label(n2, j).skip(s.len() - d2.len()) =~= d2);
        lemma_nat_dec_injective(i, j);
    } else {
        let at = s.len() - d1.len() - 1;
        assert(s[at] == c[11]);
        let k = d2.len() - d1.len() - 1;
        assert(call_label(n2, j)[at] == d2[k]);
        assert(crate::number::is_digit(d2[k]));
    }
}

/// Return labels never repeat: calls with different numbers get different
/// return labels, whatever the names of the functions they call. A call's
/// code loads the address of its return label first and declares the label
/// last.
pub proof fn lemma_call_labels_distinct(n1: Seq<char>, n2: Seq<char>, i: nat, j: nat, n_args: usize)
    ensures
        i != j ==> call_label(n1, i) != call_label(n2, j),
        ({
            let t = function_asm(FunctionSpec::Call { name: n1, n_args }, i);
            let l = call_label(n1, i);
            &&& t.take(l.len() + 1int) == seq!['@'] + l
            &&& t.skip(t.len() - l.len() - 2) == seq!['('] + l + seq![')']
        }),
{
    if i != j && call_label(n1, i) == call_label(n2, j) {
        if nat_dec(i).len() <= nat_dec(j).len() {
            lemma_call_labels_order(n1, n2, i, j);
        } else {
            lemma_call_labels_order(n2, n1, j, i);
        }
    }
    reveal_strlit("@");
    reveal_strlit(")");
    reveal_strlit("\n0;JMP\n(");
    let t = function_asm(FunctionSpec::Call { name: n1, n_args }, i);
    let l = call_label(n1, i);
    assert("@"@ =~= seq!['@']);
    assert(")"@ =~= seq![')']);
    assert("\n0;JMP\n("@.len() == 8 && "\n0;JMP\n("@[7] == '(');
    assert(t.take(l.len() + 1int) =~= seq!['@'] + l);
    assert(t.skip(t.len() - l.len() - 2) =~= seq!['('] + l + seq![')']);
}

} // verus!
