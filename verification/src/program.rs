//! A whole source text: the labels it declares, and the commands it holds.

use vstd::prelude::*;
use crate::command::{
    BranchingCommand, BranchingSpec, CommandSpec, PossibleCommands, parse_command_spec,
};
use crate::error::CompilationError;
use crate::labels::{LabelMap, mangle_spec};
use crate::text::{
    chars_eq, chars_of, lemma_chars_deep_view, lemma_strip_shape, lemma_tokens_nonempty, lines,
    split_lines, split_whitespace, string_of, strip_command, strip_spec, tokens,
};

verus! {

/// The state of the scan for label declarations.
pub enum LabelScan {
    /// Still scanning: the labels declared so far (each mapped to its name
    /// qualified by its function), the function being declared, and the
    /// number of the next line that holds a command, counting only such lines.
    Scanning { labels: Map<Seq<char>, Seq<char>>, function: Seq<char>, count: nat },
    /// A `function` without a name, on the command line numbered `line`.
    Failed { line: nat },
    /// A `label` without a name: no result.
    Panicked,
}

/// The label scan over the first `n` lines of `ls`.
pub open spec fn label_scan(ls: Seq<Seq<char>>, n: nat) -> LabelScan
    decreases n,
{
    if n == 0 {
        LabelScan::Scanning { labels: Map::empty(), function: Seq::empty(), count: 1 }
    } else {
        match label_scan(ls, (n - 1) as nat) {
            LabelScan::Scanning { labels, function, count } => match strip_spec(ls[n - 1]) {
                None => LabelScan::Scanning { labels, function, count },
                Some(c) => {
                    let t = tokens(c);
                    if t[0] == "label"@ {
                        if t.len() < 2 {
                            LabelScan::Panicked
                        } else {
                            LabelScan::Scanning {
                                labels: labels.insert(t[1], mangle_spec(function, t[1])),
                                function,
                                count: count + 1,
                            }
                        }
                    } else if t[0] == "function"@ {
                        if t.len() < 2 {
                            LabelScan::Failed { line: count }
                        } else {
                            LabelScan::Scanning { labels, function: t[1], count: count + 1 }
                        }
                    } else if t[0] == "return"@ {
                        LabelScan::Scanning { labels, function: Seq::empty(), count: count + 1 }
                    } else {
                        LabelScan::Scanning { labels, function, count: count + 1 }
                    }
                },
            },
            other => other,
        }
    }
}

/// The label scan over all of the text `text`.
pub open spec fn labels_of(text: Seq<char>) -> LabelScan {
    label_scan(lines(text), lines(text).len())
}

/// The commands of the first `n` lines of `ls`, each with the text that it
/// was read from, or the first error; line `i` (from 1) is line number `i`.
pub open spec fn parse_prefix(
    ls: Seq<Seq<char>>,
    n: nat,
    labels: Map<Seq<char>, Seq<char>>,
) -> Result<Seq<(CommandSpec, Seq<char>)>, CompilationError>
    decreases n,
{
    if n == 0 {
        Ok(Seq::empty())
    } else {
        match parse_prefix(ls, (n - 1) as nat, labels) {
            Err(e) => Err(e),
            Ok(cs) => match strip_spec(ls[n - 1]) {
                None => Ok(cs),
                Some(c) => match parse_command_spec(tokens(c), n as usize, labels) {
                    Err(e) => Err(e),
                    Ok(cmd) => Ok(cs.push((cmd, c))),
                },
            },
        }
    }
}

/// The commands of the text `text`, each with the text of its line as it
/// was read, or the first error; `None` for a text whose label scan panics
/// (a `label` line without a name), which has no result.
pub open spec fn parse_commands_spec(text: Seq<char>) -> Option<
    Result<Seq<(CommandSpec, Seq<char>)>, CompilationError>,
> {
    match labels_of(text) {
        LabelScan::Scanning { labels, .. } => Some(
            parse_prefix(lines(text), lines(text).len(), labels),
        ),
        LabelScan::Failed { line } => Some(Err(CompilationError::SintaxError { line: line as usize })),
        LabelScan::Panicked => None,
    }
}

/// Labels are private to their function: every label name that the scan
/// maps, it maps to the name qualified by a function, `function$label`.
pub proof fn lemma_labels_mangled(ls: Seq<Seq<char>>, n: nat)
    ensures
        label_scan(ls, n) matches LabelScan::Scanning { labels, .. } ==> forall|k: Seq<char>|
            #[trigger] labels.contains_key(k) ==> exists|f: Seq<char>|
                labels[k] == mangle_spec(f, k),
    decreases n,
{
    if n > 0 {
        lemma_label_scan_stops_or_steps(ls, n);
        lemma_labels_mangled(ls, (n - 1) as nat);
        if let LabelScan::Scanning { labels, function, .. } = label_scan(ls, (n - 1) as nat) {
            if let LabelScan::Scanning { labels: after, .. } = label_scan(ls, n) {
                assert forall|k: Seq<char>| #[trigger] after.contains_key(k) implies exists|
                    f: Seq<char>,
                | after[k] == mangle_spec(f, k) by {
                    if labels.contains_key(k) && after[k] == labels[k] {
                    } else {
                        assert(after[k] == mangle_spec(function, k));
                    }
                }
            }
        }
    }
}

proof fn lemma_label_scan_stops_or_steps(ls: Seq<Seq<char>>, n: nat)
    requires
        n > 0,
    ensures
        label_scan(ls, n) matches LabelScan::Scanning { labels: after, .. } ==> (label_scan(
            ls,
            (n - 1) as nat,
        ) matches LabelScan::Scanning { labels, function, .. } && forall|k: Seq<char>|
            #[trigger] after.contains_key(k) ==> (labels.contains_key(k) && after[k] == labels[k])
                || after[k] == mangle_spec(function, k)),
{
}

/// A jump reaches its label: the lines `label x` and `goto x` (or
/// `if-goto x`) of one text read as commands that carry the same qualified
/// label, so the label that the jump's assembly names is the one that the
/// label's assembly declares; where no line declares `x`, both fail.
pub proof fn lemma_jump_reaches_label(
    decl: Seq<Seq<char>>,
    jump: Seq<Seq<char>>,
    n1: usize,
    n2: usize,
    labels: Map<Seq<char>, Seq<char>>,
)
    requires
        decl.len() >= 2,
        jump.len() >= 2,
        decl[0] == "label"@,
        jump[0] == "goto"@ || jump[0] == "if-goto"@,
        decl[1] == jump[1],
    ensures
        labels.contains_key(decl[1]) ==> {
            &&& parse_command_spec(decl, n1, labels) == Ok::<CommandSpec, CompilationError>(
                CommandSpec::Branching(BranchingSpec::Label(labels[decl[1]])),
            )
            &&& parse_command_spec(jump, n2, labels) == Ok::<CommandSpec, CompilationError>(
                CommandSpec::Branching(
                    if jump[0] == "goto"@ {
                        BranchingSpec::Goto(labels[decl[1]])
                    } else {
                        BranchingSpec::IfGoto(labels[decl[1]])
                    },
                ),
            )
        },
        !labels.contains_key(decl[1]) ==> {
            &&& parse_command_spec(decl, n1, labels) == Err::<CommandSpec, CompilationError>(
                CompilationError::UnknownLabel { line: n1 },
            )
            &&& parse_command_spec(jump, n2, labels) == Err::<CommandSpec, CompilationError>(
                CompilationError::UnknownLabel { line: n2 },
            )
        },
{
    reveal_strlit("pop");
    reveal_strlit("push");
    reveal_strlit("add");
    reveal_strlit("sub");
    reveal_strlit("neg");
    reveal_strlit("eq");
    reveal_strlit("gt");
    reveal_strlit("lt");
    reveal_strlit("and");
    reveal_strlit("or");
    reveal_strlit("not");
    reveal_strlit("label");
    reveal_strlit("if-goto");
    reveal_strlit("goto");
    assert("label"@.len() == 5);
    assert("if-goto"@.len() == 7);
    assert("goto"@.len() == 4);
    assert("pop"@.len() == 3);
    assert("push"@.len() == 4);
    assert("push"@[0] == 'p' && "goto"@[0] == 'g');
    assert("add"@.len() == 3 && "sub"@.len() == 3 && "neg"@.len() == 3 && "eq"@.len() == 2);
    assert("gt"@.len() == 2 && "lt"@.len() == 2 && "and"@.len() == 3 && "or"@.len() == 2);
    assert("not"@.len() == 3);
    assert(decl[0] != "pop"@ && decl[0] != "push"@);
    assert(jump[0] != "pop"@ && jump[0] != "push"@);
    assert(crate::command::arithmetic_spec(decl[0]) is None);
    assert(crate::command::arithmetic_spec(jump[0]) is None);
}

/// The words of the line `l`, where it holds a command (none otherwise).
pub open spec fn line_words(l: Seq<char>) -> Seq<Seq<char>> {
    match strip_spec(l) {
        Some(c) => tokens(c),
        None => Seq::empty(),
    }
}

/// The line `l` holds a command whose first word is `w`.
pub open spec fn line_is(l: Seq<char>, w: Seq<char>) -> bool {
    line_words(l).len() > 0 && line_words(l)[0] == w
}

/// The line `l` declares the label `x`.
pub open spec fn declares_label(l: Seq<char>, x: Seq<char>) -> bool {
    line_is(l, "label"@) && line_words(l).len() >= 2 && line_words(l)[1] == x
}

/// The function whose body starts after line `j` of `ls`: the name on a
/// `function` line; none after a `return` line, or before the first line
/// (`j == -1`).
pub open spec fn scope_after(ls: Seq<Seq<char>>, j: int) -> Seq<char> {
    if 0 <= j && line_is(ls[j], "function"@) && line_words(ls[j]).len() >= 2 {
        line_words(ls[j])[1]
    } else {
        Seq::empty()
    }
}

/// Labels belong to the function in whose body they are declared: where
/// line `k` declares the label `x`, the last line before it that is a
/// `function` or `return` line is line `j` (or there is none, `j == -1`), and
/// no later line of the first `n` declares `x` again, a scan of the first `n`
/// lines that succeeds maps `x` to `x` qualified by the function that line `j`
/// opens (by no function after a `return` or before any `function`). Lines of
/// other commands, `call` among them, leave the function as it is.
pub proof fn lemma_label_scope(ls: Seq<Seq<char>>, n: nat, j: int, k: int, x: Seq<char>)
    requires
        -1 <= j < k < n <= ls.len(),
        j >= 0 ==> line_is(ls[j], "function"@) || line_is(ls[j], "return"@),
        forall|m: int|
            j < m < k ==> !line_is(#[trigger] ls[m], "function"@) && !line_is(ls[m], "return"@),
        declares_label(ls[k], x),
        forall|m: int| k < m < n ==> !declares_label(#[trigger] ls[m], x),
        label_scan(ls, n) is Scanning,
    ensures
        label_scan(ls, n)->labels.contains_key(x),
        label_scan(ls, n)->labels[x] == mangle_spec(scope_after(ls, j), x),
{
    lemma_scanning_before(ls, (k + 1) as nat, n);
    lemma_scanning_before(ls, k as nat, n);
    lemma_scan_function(ls, j, k);
    lemma_line_shape(ls[k]);
    reveal_strlit("label");
    lemma_scan_keeps_label(ls, k, n as int, x);
}

proof fn lemma_line_shape(l: Seq<char>)
    ensures
        strip_spec(l) matches Some(c) ==> line_words(l) == tokens(c) && tokens(c).len() > 0,
        strip_spec(l) is None ==> line_words(l).len() == 0,
{
    lemma_strip_shape(l);
    if let Some(c) = strip_spec(l) {
        lemma_tokens_nonempty(c);
    }
}

proof fn lemma_scanning_before(ls: Seq<Seq<char>>, a: nat, b: nat)
    requires
        a <= b,
        label_scan(ls, b) is Scanning,
    ensures
        label_scan(ls, a) is Scanning,
{
    if !(label_scan(ls, a) is Scanning) {
        lemma_label_scan_stops(ls, a, b);
    }
}

proof fn lemma_words_differ()
    ensures
        "label"@ != "function"@,
        "label"@ != "return"@,
        "function"@ != "return"@,
{
    reveal_strlit("label");
    reveal_strlit("function");
    reveal_strlit("return");
    assert("label"@.len() == 5 && "function"@.len() == 8 && "return"@.len() == 6);
}

/// After the first `m` lines, where `j < m` and no line after line `j` is a
/// `function` or `return` line, the scan is in the function that line `j`
/// opens.
proof fn lemma_scan_function(ls: Seq<Seq<char>>, j: int, m: int)
    requires
        -1 <= j < m <= ls.len(),
        j >= 0 ==> line_is(ls[j], "function"@) || line_is(ls[j], "return"@),
        forall|q: int|
            j < q < m ==> !line_is(#[trigger] ls[q], "function"@) && !line_is(ls[q], "return"@),
        label_scan(ls, m as nat) is Scanning,
    ensures
        label_scan(ls, m as nat)->function == scope_after(ls, j),
    decreases m - j,
{
    lemma_words_differ();
    if m > 0 {
        lemma_scanning_before(ls, (m - 1) as nat, m as nat);
        lemma_line_shape(ls[m - 1]);
    }
    if m > j + 1 {
        lemma_scan_function(ls, j, m - 1);
        assert(!line_is(ls[m - 1], "function"@) && !line_is(ls[m - 1], "return"@));
    }
}

/// A scan that goes on past the line `k` declaring `x`, through lines none of
/// which declares `x` again, maps `x` as the line `k` did.
proof fn lemma_scan_keeps_label(ls: Seq<Seq<char>>, k: int, m: int, x: Seq<char>)
    requires
        0 <= k < m <= ls.len(),
        declares_label(ls[k], x),
        forall|q: int| k < q < m ==> !declares_label(#[trigger] ls[q], x),
        label_scan(ls, m as nat) is Scanning,
    ensures
        label_scan(ls, m as nat)->labels.contains_key(x),
        label_scan(ls, m as nat)->labels[x] == mangle_spec(label_scan(ls, k as nat)->function, x),
    decreases m - k,
{
    lemma_words_differ();
    lemma_scanning_before(ls, (m - 1) as nat, m as nat);
    lemma_line_shape(ls[m - 1]);
    if m > k + 1 {
        lemma_scan_keeps_label(ls, k, m - 1, x);
        assert(!declares_label(ls[m - 1], x));
    }
}

/// The number of the first `m` lines of `ls` that hold a command.
pub open spec fn command_lines(ls: Seq<Seq<char>>, m: nat) -> nat
    decreases m,
{
    if m == 0 {
        0
    } else {
        command_lines(ls, (m - 1) as nat) + if strip_spec(ls[m - 1]) is Some {
            1nat
        } else {
            0nat
        }
    }
}

/// The line `l` is a `w` line without a name.
pub open spec fn nameless(l: Seq<char>, w: Seq<char>) -> bool {
    line_is(l, w) && line_words(l).len() < 2
}

/// The scan runs through lines that hold no `label` or `function` without a
/// name, counting the lines that hold commands.
proof fn lemma_scan_runs(ls: Seq<Seq<char>>, m: nat)
    requires
        m <= ls.len(),
        forall|q: int|
            0 <= q < m ==> !nameless(#[trigger] ls[q], "label"@) && !nameless(ls[q], "function"@),
    ensures
        label_scan(ls, m) is Scanning,
        label_scan(ls, m)->count == command_lines(ls, m) + 1,
    decreases m,
{
    if m > 0 {
        lemma_scan_runs(ls, (m - 1) as nat);
        lemma_line_shape(ls[m - 1]);
        lemma_words_differ();
        assert(!nameless(ls[m - 1], "label"@) && !nameless(ls[m - 1], "function"@));
    }
}

/// A `label` or `function` line without a name ends the scan: where line `k`
/// is the first such line, the scan of any `n > k` lines fails on a nameless
/// `function`, with the number of that line counted among the lines that hold
/// commands (comment and blank lines do not count), and has no result on a
/// nameless `label`.
pub proof fn lemma_scan_stops_at_nameless(ls: Seq<Seq<char>>, k: int, n: nat)
    requires
        0 <= k < n <= ls.len(),
        nameless(ls[k], "label"@) || nameless(ls[k], "function"@),
        forall|q: int|
            0 <= q < k ==> !nameless(#[trigger] ls[q], "label"@) && !nameless(ls[q], "function"@),
    ensures
        nameless(ls[k], "function"@) ==> label_scan(ls, n) == (LabelScan::Failed {
            line: command_lines(ls, k as nat) + 1,
        }),
        nameless(ls[k], "label"@) ==> label_scan(ls, n) == LabelScan::Panicked,
{
    lemma_scan_runs(ls, k as nat);
    lemma_line_shape(ls[k]);
    lemma_words_differ();
    lemma_label_scan_stops(ls, (k + 1) as nat, n);
}

proof fn lemma_label_scan_stops(ls: Seq<Seq<char>>, k: nat, n: nat)
    requires
        k <= n,
        !(label_scan(ls, k) is Scanning),
    ensures
        label_scan(ls, n) == label_scan(ls, k),
    decreases n,
{
    if n > k {
        lemma_label_scan_stops(ls, k, (n - 1) as nat);
    }
}

proof fn lemma_label_scan_count(ls: Seq<Seq<char>>, n: nat)
    ensures
        label_scan(ls, n) matches LabelScan::Scanning { count, .. } ==> count <= n + 1,
        label_scan(ls, n) matches LabelScan::Failed { line } ==> line <= n,
    decreases n,
{
    if n > 0 {
        lemma_label_scan_count(ls, (n - 1) as nat);
    }
}

proof fn lemma_parse_prefix_stops(
    ls: Seq<Seq<char>>,
    k: nat,
    n: nat,
    labels: Map<Seq<char>, Seq<char>>,
)
    requires
        k <= n,
        parse_prefix(ls, k, labels) is Err,
    ensures
        parse_prefix(ls, n, labels) == parse_prefix(ls, k, labels),
    decreases n,
{
    if n > k {
        lemma_parse_prefix_stops(ls, k, (n - 1) as nat, labels);
    }
}

/// The commands read from one source text.
pub struct ComandosParseados {
    /// The commands, in order.
    pub comandos: Vec<PossibleCommands>,
    /// Where the text was read verbosely: the text of each command's line,
    /// trimmed and without its comment.
    pub comandos_str: Option<Vec<String>>,
}

impl ComandosParseados {
    /// The commands.
    pub open spec fn commands_view(&self) -> Seq<CommandSpec> {
        self.comandos@.map_values(|c: PossibleCommands| c@)
    }

    /// The texts of the commands, where kept.
    pub open spec fn texts_view(&self) -> Option<Seq<Seq<char>>> {
        match self.comandos_str {
            Some(v) => Some(v@.map_values(|s: String| s@)),
            None => None,
        }
    }

    /// Scans the lines `ls` for label declarations: each label maps to its
    /// name qualified by the function that declares it (a later declaration
    /// of a name replaces an earlier one). `None` where a `label` line without
    /// a name comes first.
    fn label_parser(ls: &Vec<Vec<char>>) -> (r: Option<Result<LabelMap, CompilationError>>)
        requires
            ls.len() + 1 < usize::MAX,
        ensures
            match r {
                Some(Ok(m)) => label_scan(ls.deep_view(), ls.len() as nat) matches LabelScan::Scanning {
                    labels,
                    ..
                } && m.view() == labels,
                Some(Err(e)) => label_scan(ls.deep_view(), ls.len() as nat) matches LabelScan::Failed {
                    line,
                } && e == CompilationError::SintaxError { line: line as usize },
                None => label_scan(ls.deep_view(), ls.len() as nat) is Panicked,
            },
    {
        let ghost lv = ls.deep_view();
        let mut mapa = LabelMap::new();
        let mut current_function: Vec<char> = Vec::new();
        let mut i: usize = 1;
        let mut k: usize = 0;
        while k < ls.len()
            invariant
                k <= ls.len(),
                ls.len() + 1 < usize::MAX,
                lv == ls.deep_view(),
                label_scan(lv, k as nat) == (LabelScan::Scanning {
                    labels: mapa.view(),
                    function: current_function@,
                    count: i as nat,
                }),
            decreases ls.len() - k,
        {
            proof {
                lemma_chars_deep_view(ls[k as int]);
                lemma_label_scan_count(lv, k as nat);
            }
            if let Some(valor) = strip_command(&ls[k]) {
                let valor = split_whitespace(&valor);
                proof {
                    lemma_strip_shape(lv[k as int]);
                    lemma_tokens_nonempty(strip_spec(lv[k as int])->0);
                    lemma_chars_deep_view(valor[0]);
                }
                if chars_eq(&valor[0], "label") {
                    if valor.len() < 2 {
                        proof {
                            lemma_label_scan_stops(lv, (k + 1) as nat, ls.len() as nat);
                        }
                        return None;
                    }
                    proof {
                        lemma_chars_deep_view(valor[1]);
                    }
                    let name = copy_chars(&valor[1]);
                    let mangled = BranchingCommand::mangle(&current_function, &valor[1]);
                    mapa.insert(name, mangled);
                } else if chars_eq(&valor[0], "function") {
                    if valor.len() < 2 {
                        proof {
                            lemma_label_scan_stops(lv, (k + 1) as nat, ls.len() as nat);
                        }
                        return Some(Err(CompilationError::SintaxError { line: i }));
                    }
                    proof {
                        lemma_chars_deep_view(valor[1]);
                    }
                    current_function = copy_chars(&valor[1]);
                } else if chars_eq(&valor[0], "return") {
                    current_function = Vec::new();
                }
                i = i + 1;
            }
            k = k + 1;
        }
        Some(Ok(mapa))
    }

    /// Reads the commands of the source text `texto`, keeping the text of each
    /// command's line where `verbose` is set.
    pub fn parse_commands(texto: String, verbose: bool) -> (r: Result<
        ComandosParseados,
        CompilationError,
    >)
        requires
            texto@.len() + 2 < usize::MAX,
            !(labels_of(texto@) is Panicked),
        ensures
            match r {
                Ok(p) => parse_commands_spec(texto@) matches Some(Ok(cs)) && p.commands_view()
                    == cs.map_values(|x: (CommandSpec, Seq<char>)| x.0) && (if verbose {
                    p.texts_view() == Some(cs.map_values(|x: (CommandSpec, Seq<char>)| x.1))
                } else {
                    p.texts_view().is_none()
                }),
                Err(e) => parse_commands_spec(texto@) == Some(
                    Err::<Seq<(CommandSpec, Seq<char>)>, CompilationError>(e),
                ),
            },
    {
        let t = chars_of(texto.as_str());
        let ls = split_lines(&t);
        let ghost lv = ls.deep_view();
        proof {
            crate::text::lemma_lines_len(t@);
        }
        let labels_on_scope = match ComandosParseados::label_parser(&ls) {
            Some(Ok(m)) => m,
            Some(Err(e)) => return Err(e),
            None => {
                assert(false);
                return Err(CompilationError::UnknownCommand { line: 0 });
            },
        };
        let ghost labels = labels_on_scope.view();
        let mut comandos: Vec<PossibleCommands> = Vec::new();
        let mut comandos_str: Vec<String> = Vec::new();
        let ghost mut done: Seq<(CommandSpec, Seq<char>)> = Seq::empty();
        let mut k: usize = 0;
        while k < ls.len()
            invariant
                k <= ls.len(),
                ls.len() + 1 < usize::MAX,
                lv == ls.deep_view(),
                lv == lines(texto@),
                labels_of(texto@) matches LabelScan::Scanning { labels: l, .. } && l == labels,
                labels == labels_on_scope.view(),
                parse_prefix(lv, k as nat, labels) == Ok::<
                    Seq<(CommandSpec, Seq<char>)>,
                    CompilationError,
                >(done),
                comandos.len() == done.len(),
                forall|j: int| 0 <= j < done.len() ==> comandos@[j]@ == (#[trigger] done[j]).0,
                verbose ==> comandos_str.len() == done.len(),
                verbose ==> forall|j: int|
                    0 <= j < done.len() ==> comandos_str@[j]@ == (#[trigger] done[j]).1,
            decreases ls.len() - k,
        {
            proof {
                lemma_chars_deep_view(ls[k as int]);
            }
            if let Some(line) = strip_command(&ls[k]) {
                if verbose {
                    comandos_str.push(string_of(&line));
                }
                let toks = split_whitespace(&line);
                proof {
                    lemma_strip_shape(lv[k as int]);
                    lemma_tokens_nonempty(line@);
                }
                match PossibleCommands::parse_command(&toks, k + 1, &labels_on_scope) {
                    Ok(c) => {
                        proof {
                            done = done.push((c@, line@));
                        }
                        comandos.push(c);
                    },
                    Err(e) => {
                        proof {
                            assert(parse_prefix(lv, (k + 1) as nat, labels) == Err::<
                                Seq<(CommandSpec, Seq<char>)>,
                                CompilationError,
                            >(e));
                            lemma_parse_prefix_stops(lv, (k + 1) as nat, ls.len() as nat, labels);
                            assert(parse_commands_spec(texto@) == Some(
                                Err::<Seq<(CommandSpec, Seq<char>)>, CompilationError>(e),
                            ));
                        }
                        return Err(e);
                    },
                }
            }
            k = k + 1;
        }
        assert(comandos@.map_values(|c: PossibleCommands| c@) =~= done.map_values(
            |x: (CommandSpec, Seq<char>)| x.0,
        ));
        assert(verbose ==> comandos_str@.map_values(|s: String| s@) =~= done.map_values(
            |x: (CommandSpec, Seq<char>)| x.1,
        ));
        Ok(
            ComandosParseados {
                comandos,
                comandos_str: if verbose {
                    Some(comandos_str)
                } else {
                    None
                },
            },
        )
    }
}

impl ComandosParseados {
    /// Whether `parse_commands` accepts the text `texto`: it is short enough
    /// to count its lines in a `usize`, and no `label` line without a name
    /// comes before an error of the label scan.
    pub fn can_parse(texto: &String) -> (r: bool)
        ensures
            r == (texto@.len() + 2 < usize::MAX && !(labels_of(texto@) is Panicked)),
    {
        let t = chars_of(texto.as_str());
        if t.len() >= usize::MAX - 2 {
            return false;
        }
        let ls = split_lines(&t);
        proof {
            crate::text::lemma_lines_len(t@);
        }
        ComandosParseados::label_parser(&ls).is_some()
    }
}

fn copy_chars(v: &Vec<char>) -> (r: Vec<char>)
    ensures
        r@ == v@,
{
    crate::text::copy_range(v, 0, v.len())
}

} // verus!
