//! What `label`, `goto` and `if-goto` do on the Hack machine.

use vstd::prelude::*;
use crate::assembly::branching_asm;
use crate::command::BranchingSpec;
use crate::hack::{Comp, Hack, Instr, Jump, Reg, label_from, predefined, render, run, step, sym_sp};
use crate::semantics::{lemma_two, lemma_three};

verus! {

/// The program of `label l`: the one line `(l)`.
pub open spec fn label_prog(l: Seq<char>) -> Seq<Instr> {
    seq![Instr::Label(l)]
}

/// The program of `goto l`.
pub open spec fn goto_prog(l: Seq<char>) -> Seq<Instr> {
    seq![Instr::At(l), Instr::Branch(Comp::Zero, Jump::Always)]
}

/// The program of `if-goto l`.
pub open spec fn if_goto_prog(l: Seq<char>) -> Seq<Instr> {
    seq![
        Instr::At(sym_sp()),
        Instr::Assign(Reg::M, Comp::Dec(Reg::M)),
        Instr::Assign(Reg::A, Comp::Get(Reg::M)),
        Instr::Assign(Reg::D, Comp::Get(Reg::M)),
        Instr::At(l),
        Instr::Branch(Comp::Get(Reg::D), Jump::Ne),
    ]
}

proof fn lemma_branching_text(l: Seq<char>)
    ensures
        branching_asm(BranchingSpec::Label(l)) == render(label_prog(l)),
        branching_asm(BranchingSpec::Goto(l)) == render(goto_prog(l)),
        branching_asm(BranchingSpec::IfGoto(l)) == render(if_goto_prog(l)),
{
    reveal_strlit("(");
    reveal_strlit(")");
    reveal_strlit("@");
    reveal_strlit("\n0;JMP");
    reveal_strlit("@SP\nM=M-1\nA=M\nD=M\n@");
    reveal_strlit("\nD;JNE");
    assert(branching_asm(BranchingSpec::Label(l)) =~= render(label_prog(l)));
    let g = goto_prog(l);
    lemma_two(g[0], g[1]);
    assert(g =~= seq![g[0], g[1]]);
    assert(branching_asm(BranchingSpec::Goto(l)) =~= render(g));
    let f = if_goto_prog(l);
    let a = seq![f[0], f[1], f[2]];
    let b = seq![f[3], f[4], f[5]];
    assert(f =~= a + b);
    crate::semantics::lemma_render_append(a, b);
    lemma_three(f[0], f[1], f[2]);
    lemma_three(f[3], f[4], f[5]);
    assert(branching_asm(BranchingSpec::IfGoto(l)) =~= render(f));
}

/// A jump reaches the declaration of its label: the code of `label l` is the
/// one line `(l)`, and the code of `goto l` loads that same symbol `l`; so in
/// any program (of at most 32768 lines) that declares `l`, where `l` is no
/// predefined symbol, running the code of `goto l` from its first line takes
/// the machine, in two steps and without touching the memory, to the line
/// where `l` is first declared.
pub proof fn lemma_goto_reaches_label(
    l: Seq<char>,
    p: Seq<Instr>,
    vars: spec_fn(Seq<char>) -> int,
    m: Hack,
    i: int,
)
    requires
        predefined(l) is None,
        label_from(p, l, 0) is Some,
        p.len() <= 32768,
        0 <= i,
        i + 2 <= p.len(),
        p.subrange(i, i + 2) == goto_prog(l),
        m.pc == i,
    ensures
        branching_asm(BranchingSpec::Label(l)) == render(label_prog(l)),
        branching_asm(BranchingSpec::Goto(l)) == render(goto_prog(l)),
        run(p, vars, m, 2).pc == label_from(p, l, 0)->0,
        run(p, vars, m, 2).ram == m.ram,
{
    lemma_branching_text(l);
    lemma_label_from_bounds(p, l, 0);
    assert(p[i] == p.subrange(i, i + 2)[0]);
    assert(p[i + 1] == p.subrange(i, i + 2)[1]);
    let m1 = step(p, vars, m);
    let m2 = step(p, vars, m1);
    reveal_with_fuel(run, 3);
    assert(run(p, vars, m, 2) == m2);
}

/// `if-goto l` pops the top of the stack and jumps to the declaration of `l`
/// where that value is not 0: in any program (of at most 32768 lines) that
/// declares `l`, where `l` is no predefined symbol, running its code from its
/// first line with the stack pointer `sp` at least 2 leaves the stack pointer
/// at `sp - 1`, changes no other cell, and ends at the line where `l` is
/// first declared if `RAM[sp - 1]` is not 0, or else just past the code.
pub proof fn lemma_if_goto_reaches_label(
    l: Seq<char>,
    p: Seq<Instr>,
    vars: spec_fn(Seq<char>) -> int,
    m: Hack,
    i: int,
)
    requires
        predefined(l) is None,
        label_from(p, l, 0) is Some,
        p.len() <= 32768,
        0 <= i,
        i + 6 <= p.len(),
        p.subrange(i, i + 6) == if_goto_prog(l),
        m.pc == i,
        2 <= (m.ram)(0),
    ensures
        branching_asm(BranchingSpec::Label(l)) == render(label_prog(l)),
        branching_asm(BranchingSpec::IfGoto(l)) == render(if_goto_prog(l)),
        ({
            let r = run(p, vars, m, 6);
            let sp = (m.ram)(0);
            &&& r.pc == if (m.ram)(sp - 1) != 0 {
                label_from(p, l, 0)->0
            } else {
                i + 6
            }
            &&& (r.ram)(0) == sp - 1
            &&& forall|c: int| c != 0 ==> #[trigger] (r.ram)(c) == (m.ram)(c)
        }),
{
    lemma_branching_text(l);
    lemma_label_from_bounds(p, l, 0);
    assert(predefined(sym_sp()) == Some(0int));
    let q = if_goto_prog(l);
    assert forall|k: int| i <= k < i + 6 implies p[k] == q[k - i] by {
        assert(p[k] == p.subrange(i, i + 6)[k - i]);
    }
    let m1 = step(p, vars, m);
    let m2 = step(p, vars, m1);
    let m3 = step(p, vars, m2);
    let m4 = step(p, vars, m3);
    let m5 = step(p, vars, m4);
    let m6 = step(p, vars, m5);
    reveal_with_fuel(run, 7);
    assert(run(p, vars, m, 6) == m6);
}

proof fn lemma_label_from_bounds(p: Seq<Instr>, l: Seq<char>, i: int)
    ensures
        label_from(p, l, i) matches Some(j) ==> i <= j < p.len() && p[j] == Instr::Label(l),
    decreases p.len() - i,
{
    if 0 <= i < p.len() && p[i] != Instr::Label(l) {
        lemma_label_from_bounds(p, l, i + 1);
    }
}

} // verus!
