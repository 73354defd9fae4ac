//! What `eq`, `gt` and `lt` do on the Hack machine, and the labels their
//! code declares.

use vstd::prelude::*;
use crate::assembly::arithmetic_asm;
use crate::command::ArithmeticCommand;
use crate::hack::{Comp, Hack, Instr, Jump, Reg, instr_text, lemma_run_add, render, run, step, sym_sp};
use crate::number::{lemma_nat_dec_injective, nat_dec};
use crate::semantics::{
    lemma_five, lemma_four, lemma_pop_d_runs, lemma_pop_d_text, lemma_render_append, lemma_three,
    lemma_two, pop_d, pop_d_chars,
};

verus! {

/// `ETIQUETAINTERNAINICIAL`
pub open spec fn internal_prefix() -> Seq<char> {
    seq!['E', 'T', 'I', 'Q', 'U', 'E', 'T', 'A', 'I', 'N', 'T', 'E', 'R', 'N', 'A', 'I', 'N', 'I', 'C', 'I', 'A', 'L']
}

/// `ETIQUETAFINALSALIDA`
pub open spec fn final_prefix() -> Seq<char> {
    seq!['E', 'T', 'I', 'Q', 'U', 'E', 'T', 'A', 'F', 'I', 'N', 'A', 'L', 'S', 'A', 'L', 'I', 'D', 'A']
}

/// The label that a comparison, command number `idx` of its file, jumps to
/// when the comparison holds.
pub open spec fn internal_label(idx: nat) -> Seq<char> {
    internal_prefix() + nat_dec(idx)
}

/// The label at the end of a comparison, command number `idx` of its file.
pub open spec fn final_label(idx: nat) -> Seq<char> {
    final_prefix() + nat_dec(idx)
}

/// The jump of `eq`, `gt` and `lt`.
pub open spec fn comparison_jump(a: ArithmeticCommand) -> Jump {
    match a {
        ArithmeticCommand::Eq => Jump::Eq,
        ArithmeticCommand::Gt => Jump::Gt,
        _ => Jump::Lt,
    }
}

/// `x == y`, `x > y` or `x < y`.
pub open spec fn comparison_holds(a: ArithmeticCommand, x: int, y: int) -> bool {
    match a {
        ArithmeticCommand::Eq => x == y,
        ArithmeticCommand::Gt => x > y,
        _ => x < y,
    }
}

/// The program of `eq`, `gt` or `lt`, command number `idx` of its file.
pub open spec fn comparison_prog(a: ArithmeticCommand, idx: nat) -> Seq<Instr> {
    pop_d() + seq![
        Instr::Assign(Reg::A, Comp::Dec(Reg::A)),
        Instr::Assign(Reg::D, Comp::Sub(Reg::M, Reg::D)),
        Instr::At(internal_label(idx)),
        Instr::Branch(Comp::Get(Reg::D), comparison_jump(a)),
        Instr::At(sym_sp()),
        Instr::Assign(Reg::A, Comp::Dec(Reg::M)),
        Instr::Assign(Reg::M, Comp::Zero),
        Instr::At(final_label(idx)),
        Instr::Branch(Comp::Zero, Jump::Always),
        Instr::Label(internal_label(idx)),
        Instr::At(sym_sp()),
        Instr::Assign(Reg::A, Comp::Dec(Reg::M)),
        Instr::Assign(Reg::M, Comp::MinusOne),
        Instr::Label(final_label(idx)),
    ]
}


proof fn lemma_lit_comparison()
    ensures
        "@SP\nM=M-1\nA=M\nD=M\nA=A-1\nD=M-D\n@ETIQUETAINTERNAINICIAL"@ == pop_d_chars() + seq!['\n', 'A', '=', 'A', '-', '1', '\n', 'D', '=', 'M', '-', 'D', '\n', '@'] + internal_prefix(),
        "\nD;"@ == seq!['\n', 'D', ';'],
        "\n@SP\nA=M-1\nM=0\n@ETIQUETAFINALSALIDA"@ == seq!['\n', '@', 'S', 'P', '\n', 'A', '=', 'M', '-', '1', '\n', 'M', '=', '0', '\n', '@'] + final_prefix(),
        "\n0;JMP\n(ETIQUETAINTERNAINICIAL"@ == seq!['\n', '0', ';', 'J', 'M', 'P', '\n', '('] + internal_prefix(),
        ")\n@SP\nA=M-1\nM=-1\n(ETIQUETAFINALSALIDA"@ == seq![')', '\n', '@', 'S', 'P', '\n', 'A', '=', 'M', '-', '1', '\n', 'M', '=', '-', '1', '\n', '('] + final_prefix(),
        ")"@ == seq![')'],
        "JEQ"@ == seq!['J', 'E', 'Q'],
        "JGT"@ == seq!['J', 'G', 'T'],
        "JLT"@ == seq!['J', 'L', 'T'],
{
    reveal_strlit("@SP\nM=M-1\nA=M\nD=M\nA=A-1\nD=M-D\n@ETIQUETAINTERNAINICIAL");
    reveal_strlit("\nD;");
    reveal_strlit("\n@SP\nA=M-1\nM=0\n@ETIQUETAFINALSALIDA");
    reveal_strlit("\n0;JMP\n(ETIQUETAINTERNAINICIAL");
    reveal_strlit(")\n@SP\nA=M-1\nM=-1\n(ETIQUETAFINALSALIDA");
    reveal_strlit(")");
    reveal_strlit("JEQ");
    reveal_strlit("JGT");
    reveal_strlit("JLT");
    assert("@SP\nM=M-1\nA=M\nD=M\nA=A-1\nD=M-D\n@ETIQUETAINTERNAINICIAL"@ =~= pop_d_chars() + seq!['\n', 'A', '=', 'A', '-', '1', '\n', 'D', '=', 'M', '-', 'D', '\n', '@'] + internal_prefix());
    assert("\nD;"@ =~= seq!['\n', 'D', ';']);
    assert("\n@SP\nA=M-1\nM=0\n@ETIQUETAFINALSALIDA"@ =~= seq!['\n', '@', 'S', 'P', '\n', 'A', '=', 'M', '-', '1', '\n', 'M', '=', '0', '\n', '@'] + final_prefix());
    assert("\n0;JMP\n(ETIQUETAINTERNAINICIAL"@ =~= seq!['\n', '0', ';', 'J', 'M', 'P', '\n', '('] + internal_prefix());
    assert(")\n@SP\nA=M-1\nM=-1\n(ETIQUETAFINALSALIDA"@ =~= seq![')', '\n', '@', 'S', 'P', '\n', 'A', '=', 'M', '-', '1', '\n', 'M', '=', '-', '1', '\n', '('] + final_prefix());
    assert(")"@ =~= seq![')']);
    assert("JEQ"@ =~= seq!['J', 'E', 'Q']);
    assert("JGT"@ =~= seq!['J', 'G', 'T']);
    assert("JLT"@ =~= seq!['J', 'L', 'T']);
}

/// The text of the comparison's lines after `pop_d`.
pub open spec fn comparison_tail_chars(a: ArithmeticCommand, idx: nat) -> Seq<char> {
    let d = nat_dec(idx);
    let j = crate::hack::jump_text(comparison_jump(a));
    seq!['A', '=', 'A', '-', '1', '\n', 'D', '=', 'M', '-', 'D'] + seq!['\n'] + (seq!['@']
        + internal_prefix() + d + seq!['\n', 'D', ';'] + j) + seq!['\n'] + (seq![
        '@',
        'S',
        'P',
        '\n',
        'A',
        '=',
        'M',
        '-',
        '1',
        '\n',
        'M',
        '=',
        '0',
    ]) + seq!['\n'] + (seq!['@'] + final_prefix() + d + seq!['\n', '0', ';', 'J', 'M', 'P'])
        + seq!['\n'] + (seq!['('] + internal_prefix() + d + seq![
        ')',
        '\n',
        '@',
        'S',
        'P',
        '\n',
        'A',
        '=',
        'M',
        '-',
        '1',
        '\n',
        'M',
        '=',
        '-',
        '1',
        '\n',
        '(',
    ] + final_prefix() + d + seq![')'])
}

proof fn lemma_render_q5(idx: nat, a: Instr, b: Instr, c: Instr, d: Instr, e: Instr)
    requires
        a == Instr::Label(internal_label(idx)),
        b == Instr::At(sym_sp()),
        c == Instr::Assign(Reg::A, Comp::Dec(Reg::M)),
        d == Instr::Assign(Reg::M, Comp::MinusOne),
        e == Instr::Label(final_label(idx)),
    ensures
        render(seq![a, b, c, d, e]) == seq!['('] + internal_prefix() + nat_dec(idx) + seq![
            ')',
            '\n',
            '@',
            'S',
            'P',
            '\n',
            'A',
            '=',
            'M',
            '-',
            '1',
            '\n',
            'M',
            '=',
            '-',
            '1',
            '\n',
            '(',
        ] + final_prefix() + nat_dec(idx) + seq![')'],
{
    lemma_five(a, b, c, d, e);
    assert(render(seq![a, b, c, d, e]) =~= seq!['('] + internal_prefix() + nat_dec(idx) + seq![
        ')',
        '\n',
        '@',
        'S',
        'P',
        '\n',
        'A',
        '=',
        'M',
        '-',
        '1',
        '\n',
        'M',
        '=',
        '-',
        '1',
        '\n',
        '(',
    ] + final_prefix() + nat_dec(idx) + seq![')']);
}

#[verifier::spinoff_prover]
#[verifier::rlimit(60)]
proof fn lemma_comparison_render(a: ArithmeticCommand, idx: nat)
    ensures
        render(comparison_prog(a, idx)) == pop_d_chars() + seq!['\n'] + comparison_tail_chars(a, idx),
{
    let p = comparison_prog(a, idx);
    let q = p.subrange(4, 18);
    assert(p =~= pop_d() + q);
    let q1 = seq![q[0], q[1]];
    let q2 = seq![q[2], q[3]];
    let q3 = seq![q[4], q[5], q[6]];
    let q4 = seq![q[7], q[8]];
    let q5 = seq![q[9], q[10], q[11], q[12], q[13]];
    assert(q =~= q1 + (q2 + (q3 + (q4 + q5))));
    lemma_render_append(q4, q5);
    lemma_render_append(q3, q4 + q5);
    lemma_render_append(q2, q3 + (q4 + q5));
    lemma_render_append(q1, q2 + (q3 + (q4 + q5)));
    lemma_render_append(pop_d(), q);
    lemma_pop_d_text();
    lemma_two(q[0], q[1]);
    lemma_two(q[2], q[3]);
    lemma_three(q[4], q[5], q[6]);
    lemma_two(q[7], q[8]);
    lemma_render_q5(idx, q[9], q[10], q[11], q[12], q[13]);
    let d = nat_dec(idx);
    let j = crate::hack::jump_text(comparison_jump(a));
    assert(render(q1) =~= seq!['A', '=', 'A', '-', '1', '\n', 'D', '=', 'M', '-', 'D']);
    assert(render(q2) =~= seq!['@'] + internal_prefix() + d + seq!['\n', 'D', ';'] + j);
    assert(render(q3) =~= seq!['@', 'S', 'P', '\n', 'A', '=', 'M', '-', '1', '\n', 'M', '=', '0']);
    assert(render(q4) =~= seq!['@'] + final_prefix() + d + seq!['\n', '0', ';', 'J', 'M', 'P']);
    assert(render(q) =~= comparison_tail_chars(a, idx));
}

#[verifier::spinoff_prover]
#[verifier::rlimit(80)]
proof fn lemma_comparison_text(a: ArithmeticCommand, idx: nat)
    requires
        a is Eq || a is Gt || a is Lt,
    ensures
        arithmetic_asm(a, idx) == render(comparison_prog(a, idx)),
{
    lemma_comparison_render(a, idx);
    lemma_lit_comparison();
    assert(arithmetic_asm(a, idx) =~= pop_d_chars() + seq!['\n'] + comparison_tail_chars(a, idx));
}


proof fn lemma_labels_resolve(a: ArithmeticCommand, idx: nat, vars: spec_fn(Seq<char>) -> int)
    ensures
        crate::hack::symbol(comparison_prog(a, idx), vars, internal_label(idx)) == 13,
        crate::hack::symbol(comparison_prog(a, idx), vars, final_label(idx)) == 17,
        crate::hack::symbol(comparison_prog(a, idx), vars, sym_sp()) == 0,
{
    let p = comparison_prog(a, idx);
    let l1 = internal_label(idx);
    let l2 = final_label(idx);
    assert(l1[8] == 'I' && l2[8] == 'F');
    assert(l1 != l2);
    assert(l1.len() > 6 && l2.len() > 6);
    assert(crate::hack::predefined(l1).is_none());
    assert(crate::hack::predefined(l2).is_none());
    assert(crate::hack::predefined(sym_sp()) == Some(0int));
    reveal_with_fuel(crate::hack::label_from, 19);
    assert(crate::hack::label_from(p, l1, 0) == Some(13int));
    assert(crate::hack::label_from(p, l2, 0) == Some(17int));
}

/// After `k` steps from `m`, the comparison's program has ended with its
/// result on the stack.
pub open spec fn comparison_done(
    a: ArithmeticCommand,
    idx: nat,
    vars: spec_fn(Seq<char>) -> int,
    m: Hack,
    k: nat,
) -> bool {
    let p = comparison_prog(a, idx);
    let r = run(p, vars, m, k);
    let sp = (m.ram)(0);
    let x = (m.ram)(sp - 2);
    let y = (m.ram)(sp - 1);
    &&& r.pc == p.len()
    &&& (r.ram)(0) == sp - 1
    &&& (r.ram)(sp - 2) == if comparison_holds(a, x as int, y as int) {
        -1i16
    } else {
        0i16
    }
    &&& forall|c: int| c != 0 && c != sp - 2 ==> #[trigger] (r.ram)(c) == (m.ram)(c)
}

/// `eq`, `gt`, `lt` on the Hack machine: from a state whose stack pointer
/// `sp` is at least 3, with `x = RAM[sp - 2]` and `y = RAM[sp - 1]` whose
/// difference fits in 16 bits, running the command's program ends at its end,
/// with -1 (true) or 0 (false) in `RAM[sp - 2]` as `x == y`, `x > y` or
/// `x < y` holds, the stack pointer at `sp - 1`, and every other cell as it
/// was; and the command's text is that program's text.
#[verifier::spinoff_prover]
#[verifier::rlimit(80)]
pub proof fn lemma_comparison_runs(a: ArithmeticCommand, idx: nat, vars: spec_fn(Seq<char>) -> int, m: Hack)
    requires
        a is Eq || a is Gt || a is Lt,
        m.pc == 0,
        3 <= (m.ram)(0),
        i16::MIN <= (m.ram)((m.ram)(0) - 2) - (m.ram)((m.ram)(0) - 1) <= i16::MAX,
    ensures
        arithmetic_asm(a, idx) == render(comparison_prog(a, idx)),
        exists|k: nat| #[trigger] comparison_done(a, idx, vars, m, k),
{
    lemma_comparison_text(a, idx);
    lemma_labels_resolve(a, idx, vars);
    let p = comparison_prog(a, idx);
    let sp = (m.ram)(0);
    let x = (m.ram)(sp - 2);
    let y = (m.ram)(sp - 1);
    assert(p.subrange(0, 4) =~= pop_d());
    lemma_pop_d_runs(p, vars, m, 0);
    let m4 = run(p, vars, m, 4);
    let m5 = step(p, vars, m4);
    let m6 = step(p, vars, m5);
    let m7 = step(p, vars, m6);
    let m8 = step(p, vars, m7);
    assert(m5.a == sp - 2);
    assert(m6.d == x - y);
    assert(m7.a == 13);
    reveal_with_fuel(run, 7);
    assert(run(p, vars, m4, 4) == m8);
    lemma_run_add(p, vars, m, 4, 4);
    if comparison_holds(a, x as int, y as int) {
        assert(m8.pc == 13);
        let m9 = step(p, vars, m8);
        let m10 = step(p, vars, m9);
        let m11 = step(p, vars, m10);
        let m12 = step(p, vars, m11);
        let m13 = step(p, vars, m12);
        assert(m11.a == sp - 2);
        assert(m13.pc == 18 && m13.ram == crate::hack::write(m4.ram, sp - 2, -1i16));
        assert(run(p, vars, m8, 5) == m13);
        lemma_run_add(p, vars, m, 8, 5);
        assert(run(p, vars, m, 13) == m13);
        assert(comparison_done(a, idx, vars, m, 13));
    } else {
        assert(m8.pc == 8);
        let m9 = step(p, vars, m8);
        let m10 = step(p, vars, m9);
        let m11 = step(p, vars, m10);
        let m12 = step(p, vars, m11);
        let m13 = step(p, vars, m12);
        let m14 = step(p, vars, m13);
        assert(m10.a == sp - 2);
        assert(m12.a == 17);
        assert(m13.pc == 17);
        assert(m14.pc == 18 && m14.ram == crate::hack::write(m4.ram, sp - 2, 0i16));
        assert(run(p, vars, m8, 6) == m14);
        lemma_run_add(p, vars, m, 8, 6);
        assert(run(p, vars, m, 14) == m14);
        assert(comparison_done(a, idx, vars, m, 14));
    }
}

/// The labels of a comparison: its code declares exactly two labels,
/// `internal_label(idx)` and `final_label(idx)`, each once; they differ; every
/// symbol that the code loads is `SP` or one of them; and comparisons with
/// different numbers `i != j` declare labels that do not meet.
pub proof fn lemma_comparison_labels(a: ArithmeticCommand, b: ArithmeticCommand, i: nat, j: nat)
    ensures
        ({
            let p = comparison_prog(a, i);
            &&& forall|k: int| 0 <= k < p.len() && #[trigger] p[k] is Label ==> k == 13 || k == 17
            &&& p[13] == Instr::Label(internal_label(i))
            &&& p[17] == Instr::Label(final_label(i))
            &&& internal_label(i) != final_label(i)
            &&& forall|k: int|
                0 <= k < p.len() && #[trigger] p[k] is At ==> p[k]->At_0 == sym_sp()
                    || p[k]->At_0 == internal_label(i) || p[k]->At_0 == final_label(i)
        }),
        internal_label(i) != final_label(j),
        i != j ==> internal_label(i) != internal_label(j) && final_label(i) != final_label(j),
{
    let p = comparison_prog(a, i);
    assert(internal_label(i)[8] == 'I' && final_label(j)[8] == 'F');
    assert(final_label(i)[8] == 'F');
    if internal_label(i) == internal_label(j) {
        assert(internal_label(i).skip(22) =~= nat_dec(i));
        assert(internal_label(j).skip(22) =~= nat_dec(j));
        lemma_nat_dec_injective(i, j);
    }
    if final_label(i) == final_label(j) {
        assert(final_label(i).skip(19) =~= nat_dec(i));
        assert(final_label(j).skip(19) =~= nat_dec(j));
        lemma_nat_dec_injective(i, j);
    }
}

} // verus!
