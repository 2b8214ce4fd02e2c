//! The middle end: how LLVM's `opt` is found and called.
use crate::ast::name_pos;
use crate::emit::black_end;
use crate::numbering::{black_from, find_black, is_white};
use crate::paths::{joined, tie_path_join};
use crate::text::{cat2, chars_of, lit, same, string_of, views};
use vstd::prelude::*;

verus! {

/// An error of the optimizer.
#[derive(Debug)]
pub enum OptError {
    NotFound,
    RunFailed(String),
}

/// What an `OptError` is, as characters.
pub enum OptErrorV {
    NotFound,
    RunFailed(Seq<char>),
}

impl View for OptError {
    type V = OptErrorV;

    open spec fn view(&self) -> OptErrorV {
        match *self {
            OptError::NotFound => OptErrorV::NotFound,
            OptError::RunFailed(m) => OptErrorV::RunFailed(m@),
        }
    }
}

impl OptError {
    pub open spec fn shown(self) -> Seq<char> {
        match self {
            OptError::NotFound => "未找到 LLVM opt，请确认 LLVM 已安装并在 PATH 中"@,
            OptError::RunFailed(msg) => "opt 优化失败: "@ + msg@,
        }
    }

    /// The error as it is shown.
    pub fn display(&self) -> (r: String)
        ensures
            r@ == self.shown(),
    {
        match self {
            OptError::NotFound => lit("未找到 LLVM opt，请确认 LLVM 已安装并在 PATH 中"),
            OptError::RunFailed(msg) => cat2("opt 优化失败: ", msg.as_str()),
        }
    }
}

/// How much is optimized.
#[derive(Clone, Copy, Debug, PartialEq, Eq, Structural)]
pub enum OptLevel {
    O0,
    O1,
    O2,
    O3,
}

impl Default for OptLevel {
    fn default() -> (r: OptLevel)
        ensures
            r == OptLevel::O2,
    {
        OptLevel::O2
    }
}

impl OptLevel {
    pub open spec fn spec_flag(self) -> Seq<char> {
        match self {
            OptLevel::O0 => "-O0"@,
            OptLevel::O1 => "-O1"@,
            OptLevel::O2 => "-O2"@,
            OptLevel::O3 => "-O3"@,
        }
    }

    /// The command line argument for a level.
    pub fn flag(self) -> (r: &'static str)
        ensures
            r@ == self.spec_flag(),
    {
        match self {
            OptLevel::O0 => "-O0",
            OptLevel::O1 => "-O1",
            OptLevel::O2 => "-O2",
            OptLevel::O3 => "-O3",
        }
    }
}

/// A program to run, with its arguments.
#[derive(Debug)]
pub struct Command {
    pub program: String,
    pub args: Vec<String>,
}

/// What a `Command` is, as characters.
pub struct CommandV {
    pub program: Seq<char>,
    pub args: Seq<Seq<char>>,
}

impl View for Command {
    type V = CommandV;

    open spec fn view(&self) -> CommandV {
        CommandV { program: self.program@, args: views(self.args@) }
    }
}

/// What came of running a program.
#[derive(Debug)]
pub enum Run {
    Success,
    /// It ended with an error and wrote this to standard error.
    Failed(String),
    /// It could not be started, for this reason.
    NotStarted(String),
}

/// Text without the white space at its ends.
pub open spec fn trimmed(s: Seq<char>) -> Seq<char> {
    let e = black_end(s, s.len() as int);
    s.subrange(black_from(s, 0, e), e)
}

pub fn trim(s: &str) -> (r: String)
    ensures
        r@ == trimmed(s@),
{
    let v = chars_of(s);
    let mut e: usize = v.len();
    while e > 0 && is_white(v[e - 1])
        invariant
            e <= v@.len(),
            v@ == s@,
            black_end(s@, s@.len() as int) == black_end(s@, e as int),
        decreases e,
    {
        e = e - 1;
    }
    let b = find_black(&v, 0, e);
    string_of(&v, b, e)
}

/// Why a run counts as failed: what the program wrote, or why it did not start.
pub open spec fn run_error(run: Run) -> Option<Seq<char>> {
    match run {
        Run::Success => None,
        Run::Failed(stderr) => Some(trimmed(stderr@)),
        Run::NotStarted(reason) => Some(reason@),
    }
}

pub fn run_error_of(run: &Run) -> (r: Option<String>)
    ensures
        match r {
            Some(m) => run_error(*run) == Some(m@),
            None => run_error(*run) is None,
        },
{
    match run {
        Run::Success => None,
        Run::Failed(stderr) => Some(trim(stderr.as_str())),
        Run::NotStarted(reason) => Some(reason.clone()),
    }
}

// ---------- finding tools ----------
/// The places where LLVM is commonly installed.
pub open spec fn install_dirs() -> Seq<Seq<char>> {
    seq!["D:\\LLVM\\bin"@, "C:\\Program Files\\LLVM\\bin"@, "C:\\LLVM\\bin"@]
}

/// The files that `tool` may be among the first `n` directories of the search path.
pub open spec fn on_path(tool: Seq<char>, dirs: Seq<Seq<char>>, n: nat, windows: bool) -> Seq<
    Seq<char>,
>
    decreases n,
{
    if n == 0 || n > dirs.len() {
        Seq::empty()
    } else {
        on_path(tool, dirs, (n - 1) as nat, windows).push(
            joined(dirs[n - 1], tool + ".exe"@, windows),
        ).push(joined(dirs[n - 1], tool, windows))
    }
}

/// The files that `tool` may be in the common places.
pub open spec fn installed(tool: Seq<char>, windows: bool) -> Seq<Seq<char>> {
    install_dirs().map_values(|d: Seq<char>| joined(d, tool + ".exe"@, windows))
}

/// The files that `tool` may be, in the order in which they are tried: in the search path
/// `dirs`, then in the common places.
pub open spec fn candidates(tool: Seq<char>, dirs: Seq<Seq<char>>, windows: bool) -> Seq<Seq<char>> {
    on_path(tool, dirs, dirs.len(), windows) + installed(tool, windows)
}

/// The files that `tool` may be, in the order in which they are tried.
pub fn tool_candidates(tool: &str, dirs: &Vec<String>, windows: bool) -> (r: Vec<String>)
    ensures
        views(r@) == candidates(tool@, views(dirs@), windows),
{
    let exe = cat2(tool, ".exe");
    let mut list: Vec<String> = Vec::new();
    assert(views(list@) =~= Seq::<Seq<char>>::empty());
    let mut i: usize = 0;
    while i < dirs.len()
        invariant
            i <= dirs@.len(),
            exe@ == tool@ + ".exe"@,
            views(list@) == on_path(tool@, views(dirs@), i as nat, windows),
        decreases dirs@.len() - i,
    {
        let ghost before = views(list@);
        let a = tie_path_join(dirs[i].as_str(), exe.as_str(), windows);
        let b = tie_path_join(dirs[i].as_str(), tool, windows);
        list.push(a);
        list.push(b);
        assert(views(list@) =~= before.push(a@).push(b@));
        i = i + 1;
    }
    let ghost before = views(list@);
    let a = tie_path_join("D:\\LLVM\\bin", exe.as_str(), windows);
    let b = tie_path_join("C:\\Program Files\\LLVM\\bin", exe.as_str(), windows);
    let c = tie_path_join("C:\\LLVM\\bin", exe.as_str(), windows);
    list.push(a);
    list.push(b);
    list.push(c);
    assert(views(list@) =~= before + installed(tool@, windows));
    list
}

/// The first of `files` from `i` on that is among `present`.
pub open spec fn first_present(files: Seq<Seq<char>>, present: Seq<Seq<char>>, i: int) -> Option<
    Seq<char>,
>
    decreases files.len() - i,
{
    if i < 0 || i >= files.len() {
        None
    } else if name_pos(present, files[i], 0) is Some {
        Some(files[i])
    } else {
        first_present(files, present, i + 1)
    }
}

fn is_present(present: &Vec<String>, file: &str) -> (r: bool)
    ensures
        r == (name_pos(views(present@), file@, 0) is Some),
{
    for i in 0..present.len()
        invariant
            name_pos(views(present@), file@, 0) == name_pos(views(present@), file@, i as int),
    {
        if same(present[i].as_str(), file) {
            return true;
        }
    }
    false
}

/// The first of `files` that is among `present`.
pub fn pick_present(files: &Vec<String>, present: &Vec<String>) -> (r: Option<String>)
    ensures
        match r {
            Some(f) => first_present(views(files@), views(present@), 0) == Some(f@),
            None => first_present(views(files@), views(present@), 0) is None,
        },
{
    for i in 0..files.len()
        invariant
            first_present(views(files@), views(present@), 0) == first_present(
                views(files@),
                views(present@),
                i as int,
            ),
    {
        if is_present(present, files[i].as_str()) {
            return Some(files[i].clone());
        }
    }
    None
}

/// The `opt` to use, among the files that are `present`.
pub fn find_opt(dirs: &Vec<String>, present: &Vec<String>, windows: bool) -> (r: Option<String>)
    ensures
        match r {
            Some(f) => first_present(candidates("opt"@, views(dirs@), windows), views(present@), 0)
                == Some(f@),
            None => first_present(candidates("opt"@, views(dirs@), windows), views(present@), 0)
                is None,
        },
{
    let files = tool_candidates("opt", dirs, windows);
    pick_present(&files, present)
}

/// The arguments of `opt`.
pub open spec fn opt_args(input: Seq<char>, output: Seq<char>, level: OptLevel) -> Seq<Seq<char>> {
    seq![level.spec_flag(), "-S"@, input, "-o"@, output]
}

/// The command that optimizes `input` into `output`.
pub fn optimize(opt: &Option<String>, input: &str, output: &str, level: OptLevel) -> (r: Result<
    Command,
    OptError,
>)
    ensures
        match r {
            Ok(c) => *opt matches Some(p) && c@ == (CommandV {
                program: p@,
                args: opt_args(input@, output@, level),
            }),
            Err(e) => *opt is None && e == OptError::NotFound,
        },
{
    match opt {
        Some(p) => {
            let args = vec![lit(level.flag()), lit("-S"), lit(input), lit("-o"), lit(output)];
            assert(views(args@) =~= opt_args(input@, output@, level));
            Ok(Command { program: p.clone(), args })
        },
        None => Err(OptError::NotFound),
    }
}

/// What the run of `opt` means.
pub fn opt_result(run: &Run) -> (r: Result<(), OptError>)
    ensures
        match r {
            Ok(_) => run_error(*run) is None,
            Err(e) => e matches OptError::RunFailed(m) && run_error(*run) == Some(m@),
        },
{
    match run_error_of(run) {
        None => Ok(()),
        Some(m) => Err(OptError::RunFailed(m)),
    }
}

// ---------- laws ----------
/// What is found is among the candidates and present, and no candidate before it is.
pub proof fn law_first_present(files: Seq<Seq<char>>, present: Seq<Seq<char>>, i: int)
    requires
        0 <= i,
    ensures
        match first_present(files, present, i) {
            Some(f) => exists|k: int|
                i <= k < files.len() && #[trigger] files[k] == f && name_pos(present, f, 0) is Some
                    && forall|j: int|
                    i <= j < k ==> name_pos(present, #[trigger] files[j], 0) is None,
            None => forall|j: int|
                i <= j < files.len() ==> name_pos(present, #[trigger] files[j], 0) is None,
        },
    decreases files.len() - i,
{
    if i < files.len() {
        if name_pos(present, files[i], 0) is Some {
            assert(files[i] == files[i]);
        } else {
            law_first_present(files, present, i + 1);
        }
    }
}

} // verus!
