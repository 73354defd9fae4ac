//! The translator: it reads source files one at a time, then writes the
//! assembly of all of them behind the bootstrap code.

use vstd::prelude::*;
use crate::assembly::{command_asm, command_valid, function_asm};
use crate::command::{CommandSpec, FunctionCommand, FunctionSpec, PossibleCommands};
use crate::error::{CompError, CompilationError};
use crate::program::{ComandosParseados, labels_of, parse_commands_spec};

verus! {

/// One parsed source file: its name, its commands, and (when read verbosely)
/// the text of each command's line.
pub struct FileSpec {
    pub name: Seq<char>,
    pub commands: Seq<CommandSpec>,
    pub texts: Seq<Seq<char>>,
}

/// `c` is a `call`.
pub open spec fn is_call(c: CommandSpec) -> bool {
    c matches CommandSpec::Functions(FunctionSpec::Call { .. })
}

/// The number of `call`s among `cs`.
pub open spec fn calls_in(cs: Seq<CommandSpec>) -> nat
    decreases cs.len(),
{
    if cs.len() == 0 {
        0
    } else {
        calls_in(cs.drop_last()) + if is_call(cs.last()) {
            1nat
        } else {
            0nat
        }
    }
}

/// The number of `call`s in the files `fs`.
pub open spec fn calls_in_files(fs: Seq<FileSpec>) -> nat
    decreases fs.len(),
{
    if fs.len() == 0 {
        0
    } else {
        calls_in_files(fs.drop_last()) + calls_in(fs.last().commands)
    }
}

/// The assembly of the commands `cs` of the file `name`: for each command,
/// a comment with its text where `verbose` is set, then its assembly and a
/// line end. The first `call` is call number `id`, the next one `id + 1`, and so
/// on.
pub open spec fn file_asm(
    name: Seq<char>,
    cs: Seq<CommandSpec>,
    texts: Seq<Seq<char>>,
    verbose: bool,
    id: nat,
) -> Seq<char>
    decreases cs.len(),
{
    if cs.len() == 0 {
        Seq::empty()
    } else {
        let i: int = cs.len() - 1;
        file_asm(name, cs.drop_last(), texts, verbose, id) + (if verbose {
            "//"@ + texts[i] + "\n"@
        } else {
            Seq::empty()
        }) + command_asm(cs.last(), name, i as nat, id + calls_in(cs.drop_last())) + "\n"@
    }
}

/// The assembly of the files `fs`, in order; the first `call` is call number
/// `id`.
pub open spec fn files_asm(fs: Seq<FileSpec>, verbose: bool, id: nat) -> Seq<char>
    decreases fs.len(),
{
    if fs.len() == 0 {
        Seq::empty()
    } else {
        let f = fs.last();
        files_asm(fs.drop_last(), verbose, id) + file_asm(
            f.name,
            f.commands,
            f.texts,
            verbose,
            id + calls_in_files(fs.drop_last()),
        )
    }
}

/// The bootstrap code: the stack starts at 256, then `Sys.init` is called
/// (as call number 0).
pub open spec fn booting_spec() -> Seq<char> {
    "@256\nD=A\n@SP\nM=D\n"@ + function_asm(
        FunctionSpec::Call { name: "Sys.init"@, n_args: 0 },
        0,
    ) + "\n"@
}

proof fn lemma_calls_prefix(cs: Seq<CommandSpec>, k: int)
    requires
        0 <= k <= cs.len(),
    ensures
        calls_in(cs.take(k)) <= calls_in(cs),
    decreases cs.len(),
{
    if k < cs.len() {
        lemma_calls_prefix(cs.drop_last(), k);
        assert(cs.drop_last().take(k) =~= cs.take(k));
    } else {
        assert(cs.take(k) =~= cs);
    }
}

proof fn lemma_calls_files_prefix(fs: Seq<FileSpec>, k: int)
    requires
        0 <= k <= fs.len(),
    ensures
        calls_in_files(fs.take(k)) <= calls_in_files(fs),
    decreases fs.len(),
{
    if k < fs.len() {
        lemma_calls_files_prefix(fs.drop_last(), k);
        assert(fs.drop_last().take(k) =~= fs.take(k));
    } else {
        assert(fs.take(k) =~= fs);
    }
}

/// The number, counted from the first `call` of the files `fs`, that command
/// `i` of file `a` gets if it is a `call`: the number of `call`s before it.
pub open spec fn call_number(fs: Seq<FileSpec>, a: int, i: int) -> nat {
    calls_in_files(fs.take(a)) + calls_in(fs[a].commands.take(i))
}

/// Every `call` gets a number of its own: a `call` gets a smaller number than
/// every command after it, in its file and in the files after it, so no two
/// `call`s share a return label.
pub proof fn lemma_call_numbers_increase(fs: Seq<FileSpec>, a: int, i: int, b: int, j: int)
    requires
        0 <= a < fs.len(),
        0 <= i < fs[a].commands.len(),
        is_call(fs[a].commands[i]),
        0 <= b < fs.len(),
        0 <= j <= fs[b].commands.len(),
        a < b || (a == b && i < j),
    ensures
        call_number(fs, a, i) < call_number(fs, b, j),
{
    let cs = fs[a].commands;
    assert(cs.take(i + 1).drop_last() =~= cs.take(i));
    if a == b {
        lemma_calls_prefix(cs.take(j), i + 1);
        assert(cs.take(j).take(i + 1) =~= cs.take(i + 1));
    } else {
        lemma_calls_prefix(cs, i + 1);
        assert(fs.take(a + 1).drop_last() =~= fs.take(a));
        lemma_calls_files_prefix(fs.take(b), a + 1);
        assert(fs.take(b).take(a + 1) =~= fs.take(a + 1));
    }
}

proof fn lemma_file_asm_prefix(
    name: Seq<char>,
    cs: Seq<CommandSpec>,
    texts: Seq<Seq<char>>,
    verbose: bool,
    id: nat,
    k: int,
)
    requires
        0 <= k <= cs.len(),
    ensures
        file_asm(name, cs.take(k), texts, verbose, id).len() <= file_asm(
            name,
            cs,
            texts,
            verbose,
            id,
        ).len(),
        file_asm(name, cs, texts, verbose, id).take(
            file_asm(name, cs.take(k), texts, verbose, id).len() as int,
        ) == file_asm(name, cs.take(k), texts, verbose, id),
    decreases cs.len(),
{
    if k == cs.len() {
        assert(cs.take(k) =~= cs);
    } else {
        lemma_file_asm_prefix(name, cs.drop_last(), texts, verbose, id, k);
        assert(cs.drop_last().take(k) =~= cs.take(k));
        let whole = file_asm(name, cs, texts, verbose, id);
        let front = file_asm(name, cs.drop_last(), texts, verbose, id);
        let pre = file_asm(name, cs.take(k), texts, verbose, id);
        assert(whole.take(front.len() as int) =~= front);
        assert(whole.take(pre.len() as int) =~= front.take(pre.len() as int));
    }
}

proof fn lemma_files_asm_prefix(fs: Seq<FileSpec>, verbose: bool, id: nat, a: int)
    requires
        0 <= a <= fs.len(),
    ensures
        files_asm(fs.take(a), verbose, id).len() <= files_asm(fs, verbose, id).len(),
        files_asm(fs, verbose, id).take(files_asm(fs.take(a), verbose, id).len() as int)
            == files_asm(fs.take(a), verbose, id),
    decreases fs.len(),
{
    if a == fs.len() {
        assert(fs.take(a) =~= fs);
    } else {
        lemma_files_asm_prefix(fs.drop_last(), verbose, id, a);
        assert(fs.drop_last().take(a) =~= fs.take(a));
        let whole = files_asm(fs, verbose, id);
        let front = files_asm(fs.drop_last(), verbose, id);
        let pre = files_asm(fs.take(a), verbose, id);
        assert(whole.take(front.len() as int) =~= front);
        assert(whole.take(pre.len() as int) =~= front.take(pre.len() as int));
    }
}

/// The code of command `i` of the file `f`, a `call` being call number `id`:
/// where the file is written verbosely, a comment holding the text of that
/// command's own line and a line end; then the command's assembly and a line
/// end.
pub open spec fn command_block(f: FileSpec, i: int, id: nat, verbose: bool) -> Seq<char> {
    (if verbose {
        "//"@ + f.texts[i] + "\n"@
    } else {
        Seq::empty()
    }) + command_asm(f.commands[i], f.name, i as nat, id) + "\n"@
}

/// The files' code holds each command's code in order: in the assembly of
/// the files `fs` (whose first `call` is number `id`), right where the code of
/// the files before file `a` and of the commands of file `a` before command
/// `i` ends, stands the code of command `i` of file `a`: written verbosely, the
/// comment of that command's own line first; and a `call` there has number
/// `id + call_number(fs, a, i)`.
#[verifier::spinoff_prover]
#[verifier::rlimit(40)]
pub proof fn lemma_command_blocks(fs: Seq<FileSpec>, verbose: bool, id: nat, a: int, i: int)
    requires
        0 <= a < fs.len(),
        0 <= i < fs[a].commands.len(),
    ensures
        ({
            let out = files_asm(fs, verbose, id);
            let f = fs[a];
            let first = id + calls_in_files(fs.take(a));
            let at = files_asm(fs.take(a), verbose, id).len() + file_asm(
                f.name,
                f.commands.take(i),
                f.texts,
                verbose,
                first,
            ).len();
            let block = command_block(f, i, id + call_number(fs, a, i), verbose);
            out.subrange(at as int, (at + block.len()) as int) == block
        }),
{
    let f = fs[a];
    let first = id + calls_in_files(fs.take(a));
    let cs = f.commands;
    let pre = file_asm(f.name, cs.take(i), f.texts, verbose, first);
    let upto = file_asm(f.name, cs.take(i + 1), f.texts, verbose, first);
    let block = command_block(f, i, id + call_number(fs, a, i), verbose);
    assert(cs.take(i + 1).drop_last() =~= cs.take(i));
    assert(cs.take(i + 1).last() == cs[i]);
    assert(id + call_number(fs, a, i) == first + calls_in(cs.take(i)));
    assert(upto =~= pre + block);
    let fa = file_asm(f.name, cs, f.texts, verbose, first);
    lemma_file_asm_prefix(f.name, cs, f.texts, verbose, first, i + 1);
    let before = files_asm(fs.take(a), verbose, id);
    let through = files_asm(fs.take(a + 1), verbose, id);
    assert(fs.take(a + 1).drop_last() =~= fs.take(a));
    assert(through == before + fa);
    lemma_files_asm_prefix(fs, verbose, id, a + 1);
    let out = files_asm(fs, verbose, id);
    let at = before.len() + pre.len();
    assert(out.subrange(at as int, (at + block.len()) as int) =~= block) by {
        assert forall|k: int| 0 <= k < block.len() implies out[at + k] == block[k] by {
            assert(out[at + k] == through[at + k]);
            assert(through[at + k] == fa[pre.len() + k]);
            assert(fa[pre.len() + k] == upto[pre.len() + k]);
        }
    }
}

/// The translator's state.
pub struct Compiler {
    comandos: Vec<(String, ComandosParseados)>,
    verboso: bool,
    /// The code put before the translated files.
    pub booting_code: String,
    next_call: usize,
}

impl Compiler {
    /// The files read so far, in order.
    pub closed spec fn files(&self) -> Seq<FileSpec> {
        self.comandos@.map_values(
            |p: (String, ComandosParseados)|
                FileSpec {
                    name: p.0@,
                    commands: p.1.commands_view(),
                    texts: match p.1.texts_view() {
                        Some(t) => t,
                        None => Seq::empty(),
                    },
                },
        )
    }

    /// The bootstrap code.
    pub closed spec fn booting(&self) -> Seq<char> {
        self.booting_code@
    }

    /// Whether files are read and written verbosely.
    pub closed spec fn verbose(&self) -> bool {
        self.verboso
    }

    /// The number that the next `call` gets.
    pub closed spec fn next_call_id(&self) -> nat {
        self.next_call as nat
    }

    /// A verbose translator kept the text of every command, and only a
    /// verbose one kept texts.
    pub closed spec fn wf(&self) -> bool {
        forall|i: int|
            0 <= i < self.comandos.len() ==> {
                let p = #[trigger] self.comandos@[i];
                &&& (p.1.comandos_str is Some) == self.verboso
                &&& self.verboso ==> p.1.comandos_str->0.len() == p.1.comandos.len()
            }
    }

    /// Every file read verbosely has one text per command; a file read
    /// otherwise has none.
    pub open spec fn texts_kept(&self) -> bool {
        forall|i: int|
            0 <= i < self.files().len() ==> (#[trigger] self.files()[i]).texts.len() == if self.verbose() {
                self.files()[i].commands.len()
            } else {
                0
            }
    }

    proof fn lemma_texts_kept(&self)
        requires
            self.wf(),
        ensures
            self.texts_kept(),
    {
        assert forall|i: int| 0 <= i < self.files().len() implies (#[trigger] self.files()[i]).texts.len() == if self.verbose() {
            self.files()[i].commands.len()
        } else {
            0
        } by {
            let p = self.comandos@[i];
            assert(self.files()[i].commands == p.1.commands_view());
        }
    }

    /// Every command translates, and every `call` gets a number that fits in
    /// a `usize`.
    pub open spec fn compilable(&self) -> bool {
        &&& forall|i: int, j: int|
            0 <= i < self.files().len() && 0 <= j < self.files()[i].commands.len()
                ==> command_valid(#[trigger] self.files()[i].commands[j])
        &&& self.next_call_id() + calls_in_files(self.files()) <= usize::MAX
    }

    /// A translator with no files, writing verbosely where `verboso` is set.
    pub fn new(verboso: bool) -> (r: Compiler)
        ensures
            r.wf(),
            r.texts_kept(),
            r.files() == Seq::<FileSpec>::empty(),
            r.verbose() == verboso,
            r.booting() == booting_spec(),
            r.next_call_id() == 1,
    {
        let r = Compiler {
            comandos: Vec::new(),
            verboso,
            booting_code: Compiler::booting_code(),
            next_call: 1,
        };
        assert(r.files() =~= Seq::<FileSpec>::empty());
        proof {
            r.lemma_texts_kept();
        }
        r
    }

    /// Reads the source file at `path`, named `name`, whose text is `contents`
    /// (`None` where the file could not be read), and adds its commands.
    pub fn parse_source(&mut self, path: String, name: String, contents: Option<String>) -> (r:
        Result<(), CompError>)
        requires
            old(self).wf(),
            contents matches Some(t) ==> t@.len() + 2 < usize::MAX && !(labels_of(t@) is Panicked),
        ensures
            final(self).wf(),
            final(self).texts_kept(),
            final(self).verbose() == old(self).verbose(),
            final(self).booting() == old(self).booting(),
            final(self).next_call_id() == old(self).next_call_id(),
            match contents {
                None => {
                    &&& r matches Err(e) && e.file_spec() == path@ && (e.error_spec() matches CompilationError::FileAccessing {
                        file,
                    } && file@ == path@)
                    &&& final(self).files() == old(self).files()
                },
                Some(t) => match parse_commands_spec(t@) {
                    Some(Ok(cs)) => {
                        &&& r is Ok
                        &&& final(self).files() == old(self).files().push(
                            FileSpec {
                                name: name@,
                                commands: cs.map_values(|x: (CommandSpec, Seq<char>)| x.0),
                                texts: if old(self).verbose() {
                                    cs.map_values(|x: (CommandSpec, Seq<char>)| x.1)
                                } else {
                                    Seq::empty()
                                },
                            },
                        )
                    },
                    Some(Err(e)) => {
                        &&& r matches Err(x) && x.error_spec() == e && x.file_spec() == path@
                        &&& final(self).files() == old(self).files()
                    },
                    // ruled out by `requires`
                    None => true,
                },
            },
    {
        let texto = match contents {
            Some(t) => t,
            None => {
                let file = path.clone();
                proof {
                    self.lemma_texts_kept();
                }
                return Err(CompError::new(CompilationError::FileAccessing { file }, path));
            },
        };
        match ComandosParseados::parse_commands(texto, self.verboso) {
            Ok(p) => {
                let ghost old_comandos = self.comandos@;
                self.comandos.push((name, p));
                proof {
                    assert(self.comandos@ == old_comandos.push((name, p)));
                    assert(self.files() =~= old(self).files().push(
                        FileSpec {
                            name: name@,
                            commands: p.commands_view(),
                            texts: match p.texts_view() {
                                Some(t) => t,
                                None => Seq::empty(),
                            },
                        },
                    ));
                    assert forall|i: int| 0 <= i < self.comandos.len() implies {
                        let q = #[trigger] self.comandos@[i];
                        &&& (q.1.comandos_str is Some) == self.verboso
                        &&& self.verboso ==> q.1.comandos_str->0.len() == q.1.comandos.len()
                    } by {
                        if i < old_comandos.len() {
                            assert(self.comandos@[i] == old_comandos[i]);
                        } else {
                            if self.verboso {
                                assert(p.texts_view()->0.len() == p.commands_view().len());
                            }
                        }
                    }
                    self.lemma_texts_kept();
                }
                Ok(())
            },
            Err(e) => {
                proof {
                    self.lemma_texts_kept();
                }
                Err(CompError::new(e, path))
            },
        }
    }

    /// The bootstrap code followed by the assembly of every file read, in the
    /// order they were read.
    pub fn compile(self) -> (r: String)
        requires
            self.wf(),
            self.compilable(),
        ensures
            r@ == self.booting() + files_asm(self.files(), self.verbose(), self.next_call_id()),
    {
        let ghost fs = self.files();
        let ghost v = self.verboso;
        let ghost id0 = self.next_call as nat;
        let mut compilado = self.booting_code.clone();
        let mut id: usize = self.next_call;
        let n: usize = self.comandos.len();
        let mut fi: usize = 0;
        assert(fs.take(0) =~= Seq::<FileSpec>::empty());
        while fi < n
            invariant
                fi <= n == self.comandos.len() == fs.len(),
                fs == self.files(),
                v == self.verboso,
                id0 == self.next_call,
                self.wf(),
                self.compilable(),
                compilado@ == self.booting_code@ + files_asm(fs.take(fi as int), v, id0),
                id == id0 + calls_in_files(fs.take(fi as int)),
            decreases n - fi,
        {
            let (current_file, comandos) = &self.comandos[fi];
            let ghost f = fs[fi as int];
            assert(f.commands == comandos.comandos@.map_values(|c: PossibleCommands| c@));
            let ghost file_start = compilado@;
            let ghost id_start = id as nat;
            let m: usize = comandos.comandos.len();
            let mut i: usize = 0;
            proof {
                lemma_calls_files_prefix(fs, fi + 1);
                assert(fs.take(fi + 1).drop_last() =~= fs.take(fi as int));
                assert(f.commands.take(0) =~= Seq::<CommandSpec>::empty());
            }
            while i < m
                invariant
                    fi < n == self.comandos.len() == fs.len(),
                    fs == self.files(),
                    v == self.verboso,
                    self.wf(),
                    self.compilable(),
                    f == fs[fi as int],
                    *comandos == self.comandos@[fi as int].1,
                    current_file@ == f.name,
                    m == comandos.comandos.len() == f.commands.len(),
                    f.commands == comandos.comandos@.map_values(|c: PossibleCommands| c@),
                    i <= m,
                    id_start == id0 + calls_in_files(fs.take(fi as int)),
                    id_start + calls_in(f.commands) <= id0 + calls_in_files(fs.take(fi + 1)),
                    id0 + calls_in_files(fs.take(fi + 1)) <= usize::MAX,
                    compilado@ == file_start + file_asm(
                        f.name,
                        f.commands.take(i as int),
                        f.texts,
                        v,
                        id_start,
                    ),
                    id == id_start + calls_in(f.commands.take(i as int)),
                decreases m - i,
            {
                let ghost before = compilado@;
                let ghost cs1 = f.commands.take(i + 1);
                assert(cs1.drop_last() =~= f.commands.take(i as int));
                if self.verboso {
                    match &comandos.comandos_str {
                        Some(texts) => {
                            assert(f.texts == texts@.map_values(|s: String| s@));
                            compilado.append("//");
                            compilado.append(texts[i].as_str());
                            compilado.append("\n");
                        },
                        None => {
                            assert(false);
                        },
                    }
                }
                let c = &comandos.comandos[i];
                assert(c@ == f.commands[i as int]);
                assert(command_valid(self.files()[fi as int].commands[i as int]));
                proof {
                    lemma_calls_prefix(f.commands, i + 1);
                }
                let code = c.to_asm(current_file.as_str(), i, id);
                compilado.append(code.as_str());
                compilado.append("\n");
                let call = match c {
                    PossibleCommands::Functions(FunctionCommand::Call { .. }) => true,
                    _ => false,
                };
                if call {
                    id = id + 1;
                }
                i = i + 1;
                assert(compilado@ =~= file_start + file_asm(
                    f.name,
                    f.commands.take(i as int),
                    f.texts,
                    v,
                    id_start,
                ));
            }
            assert(f.commands.take(m as int) =~= f.commands);
            fi = fi + 1;
            assert(compilado@ =~= self.booting_code@ + files_asm(fs.take(fi as int), v, id0));
        }
        assert(fs.take(n as int) =~= fs);
        compilado
    }

    /// Whether `compile` accepts this translator (see `compilable`).
    pub fn can_compile(&self) -> (r: bool)
        requires
            self.wf(),
        ensures
            r == self.compilable(),
    {
        let ghost fs = self.files();
        let mut total: usize = self.next_call;
        let n: usize = self.comandos.len();
        let mut fi: usize = 0;
        assert(fs.take(0) =~= Seq::<FileSpec>::empty());
        while fi < n
            invariant
                fi <= n == self.comandos.len() == fs.len(),
                fs == self.files(),
                total == self.next_call + calls_in_files(fs.take(fi as int)),
                forall|a: int, b: int|
                    0 <= a < fi && 0 <= b < fs[a].commands.len() ==> command_valid(
                        #[trigger] fs[a].commands[b],
                    ),
            decreases n - fi,
        {
            let comandos = &self.comandos[fi].1;
            let ghost f = fs[fi as int];
            assert(f.commands == comandos.comandos@.map_values(|c: PossibleCommands| c@));
            let m: usize = comandos.comandos.len();
            let mut i: usize = 0;
            assert(f.commands.take(0) =~= Seq::<CommandSpec>::empty());
            while i < m
                invariant
                    fi < n == self.comandos.len() == fs.len(),
                    fs == self.files(),
                    total == self.next_call + calls_in_files(fs.take(fi as int)) + calls_in(
                        f.commands.take(i as int),
                    ),
                    f == fs[fi as int],
                    m == comandos.comandos.len() == f.commands.len(),
                    f.commands == comandos.comandos@.map_values(|c: PossibleCommands| c@),
                    i <= m,
                    forall|b: int| 0 <= b < i ==> command_valid(#[trigger] f.commands[b]),
                decreases m - i,
            {
                let c = &comandos.comandos[i];
                assert(c@ == f.commands[i as int]);
                assert(f.commands.take(i + 1).drop_last() =~= f.commands.take(i as int));
                let ok = match c {
                    PossibleCommands::Memory(mc) => crate::assembly::memory_command_valid(mc),
                    PossibleCommands::Functions(FunctionCommand::Call { n_args, .. }) => {
                        *n_args <= usize::MAX - 5
                    },
                    _ => true,
                };
                if !ok {
                    proof {
                        assert(!command_valid(self.files()[fi as int].commands[i as int]));
                    }
                    return false;
                }
                let call = match c {
                    PossibleCommands::Functions(FunctionCommand::Call { .. }) => true,
                    _ => false,
                };
                if call {
                    if total == usize::MAX {
                        proof {
                            lemma_calls_prefix(f.commands, i + 1);
                            lemma_calls_files_prefix(fs, fi + 1);
                            assert(fs.take(fi + 1).drop_last() =~= fs.take(fi as int));
                            assert(self.next_call_id() + calls_in_files(self.files()) > usize::MAX);
                        }
                        return false;
                    }
                    total = total + 1;
                }
                i = i + 1;
            }
            assert(f.commands.take(m as int) =~= f.commands);
            assert(fs.take(fi + 1).drop_last() =~= fs.take(fi as int));
            fi = fi + 1;
        }
        assert(fs.take(n as int) =~= fs);
        true
    }

    /// The bootstrap code.
    fn booting_code() -> (r: String)
        ensures
            r@ == booting_spec(),
    {
        let mut s = String::from_str("@256\nD=A\n@SP\nM=D\n");
        let init = FunctionCommand::Call { name: String::from_str("Sys.init"), n_args: 0 };
        let call = init.to_asm(0);
        s.append(call.as_str());
        s.append("\n");
        s
    }
}

} // verus!
