//! The driver: what is done with a source file, and the commands that make a program or a
//! library of it.
use crate::ast::{sig_of, Program, Sem};
use crate::backend::{
    archive, archive_args, archive_result, clang_result, compile_object, link, link_args,
    object_args, view_opt, BackendError, BackendErrorV,
};
use crate::emit::opt_view;
use crate::ir::{gen_ir, IrError, IrOutput};
use crate::lower::module_code;
use crate::numbering::renumbered;
use crate::optimizer::{
    first_present, opt_args, opt_result, optimize, pick_present, run_error, trim, trimmed, Command,
    CommandV, OptError, OptErrorV, OptLevel, Run,
};
use crate::paths::{extended, joined, tie_path_join, with_extension};
use crate::text::{cat2, cat5, cat7, lit, same, views};
use vstd::prelude::*;

verus! {

/// What the compiler is asked to do.
#[derive(Clone, Debug)]
pub struct CompileOptions {
    pub input: String,
    pub output: Option<String>,
    /// The level of optimization; `O2` where none is given.
    pub opt_level: Option<OptLevel>,
    pub emit_ir_only: bool,
    pub keep_intermediate: bool,
    pub target: Option<String>,
}

/// What the compiler made.
#[derive(Debug)]
pub struct CompileOutcome {
    pub message: String,
    pub artifact: Option<String>,
}

/// What a `CompileOutcome` is, as characters.
pub struct OutcomeV {
    pub message: Seq<char>,
    pub artifact: Option<Seq<char>>,
}

impl View for CompileOutcome {
    type V = OutcomeV;

    open spec fn view(&self) -> OutcomeV {
        OutcomeV { message: self.message@, artifact: opt_view(self.artifact) }
    }
}

/// An error, by the stage in which it came. What the front end reports is kept as it is
/// shown.
#[derive(Debug)]
pub enum CompileError {
    Read(String),
    Lex(String),
    Parse(String),
    Semantic(String),
    Import(String),
    Ir(IrError),
    Optimize(OptError),
    Backend(BackendError),
    Io(String),
}

/// What a `CompileError` is, as characters.
pub enum CompileErrorV {
    Read(Seq<char>),
    Lex(Seq<char>),
    Parse(Seq<char>),
    Semantic(Seq<char>),
    Import(Seq<char>),
    Ir(Seq<char>),
    Optimize(OptErrorV),
    Backend(BackendErrorV),
    Io(Seq<char>),
}

impl View for CompileError {
    type V = CompileErrorV;

    open spec fn view(&self) -> CompileErrorV {
        match *self {
            CompileError::Read(m) => CompileErrorV::Read(m@),
            CompileError::Lex(m) => CompileErrorV::Lex(m@),
            CompileError::Parse(m) => CompileErrorV::Parse(m@),
            CompileError::Semantic(m) => CompileErrorV::Semantic(m@),
            CompileError::Import(m) => CompileErrorV::Import(m@),
            CompileError::Ir(e) => CompileErrorV::Ir(e.message@),
            CompileError::Optimize(e) => CompileErrorV::Optimize(e@),
            CompileError::Backend(e) => CompileErrorV::Backend(e@),
            CompileError::Io(m) => CompileErrorV::Io(m@),
        }
    }
}

impl CompileError {
    pub open spec fn shown(self) -> Seq<char> {
        match self {
            CompileError::Read(msg) => "读取源码失败: "@ + msg@,
            CompileError::Lex(e) => e@,
            CompileError::Parse(e) => e@,
            CompileError::Semantic(e) => e@,
            CompileError::Import(e) => e@,
            CompileError::Ir(e) => "IR 生成错误: "@ + e.message@,
            CompileError::Optimize(e) => "[中间优化] "@ + e.shown(),
            CompileError::Backend(e) => "[后端] "@ + e.shown(),
            CompileError::Io(msg) => "文件操作失败: "@ + msg@,
        }
    }

    /// The error as it is shown.
    pub fn display(&self) -> (r: String)
        ensures
            r@ == self.shown(),
    {
        match self {
            CompileError::Read(msg) => cat2("读取源码失败: ", msg.as_str()),
            CompileError::Lex(e) => e.clone(),
            CompileError::Parse(e) => e.clone(),
            CompileError::Semantic(e) => e.clone(),
            CompileError::Import(e) => e.clone(),
            CompileError::Ir(e) => e.display(),
            CompileError::Optimize(e) => cat2("[中间优化] ", e.display().as_str()),
            CompileError::Backend(e) => cat2("[后端] ", e.display().as_str()),
            CompileError::Io(msg) => cat2("文件操作失败: ", msg.as_str()),
        }
    }
}

// ---------- roles ----------
/// What a source file is for.
#[derive(Clone, Copy, Debug, PartialEq, Eq, Structural)]
pub enum FileRole {
    Logic,
    Script,
    Class,
    Type,
    Data,
    Ui,
    Db,
    Port,
}

/// The tools that a source file goes to.
#[derive(Clone, Copy, Debug, PartialEq, Eq, Structural)]
pub enum Dispatch {
    Compile,
    CompileLib,
    Data,
    Ui,
    Db,
    Port,
}

pub open spec fn tools_for(role: FileRole) -> Dispatch {
    match role {
        FileRole::Logic | FileRole::Script => Dispatch::Compile,
        FileRole::Class | FileRole::Type => Dispatch::CompileLib,
        FileRole::Data => Dispatch::Data,
        FileRole::Ui => Dispatch::Ui,
        FileRole::Db => Dispatch::Db,
        FileRole::Port => Dispatch::Port,
    }
}

/// The tools for a role.
pub fn dispatch(role: FileRole) -> (r: Dispatch)
    ensures
        r == tools_for(role),
{
    match role {
        FileRole::Logic | FileRole::Script => Dispatch::Compile,
        FileRole::Class | FileRole::Type => Dispatch::CompileLib,
        FileRole::Data => Dispatch::Data,
        FileRole::Ui => Dispatch::Ui,
        FileRole::Db => Dispatch::Db,
        FileRole::Port => Dispatch::Port,
    }
}

/// What is said of a file that goes to other tools than the compiler.
pub open spec fn handed_over(d: Dispatch) -> Option<Seq<char>> {
    match d {
        Dispatch::Compile | Dispatch::CompileLib => None,
        Dispatch::Data => Some(
            "[预处理] 识别为 data 数据交换文件，已转交数据解析工具链 —— v0.1 数据交换工具链尚未实现"@,
        ),
        Dispatch::Ui => Some("[预处理] 识别为 ui 界面文件，已转交 UI 工具链 —— v0.1 UI 工具链尚未实现"@),
        Dispatch::Db => Some(
            "[预处理] 识别为 db 数据库文件，已转交数据库工具链 —— v0.1 数据库工具链尚未实现"@,
        ),
        Dispatch::Port => Some(
            "[预处理] 识别为 port 接口文件，已转交端口工具链 —— v0.1 端口工具链尚未实现"@,
        ),
    }
}

/// Decides what is done with a file of a role: an outcome for one that goes to other tools,
/// nothing for one that is compiled.
pub fn compile(role: FileRole) -> (r: Option<CompileOutcome>)
    ensures
        match r {
            Some(o) => handed_over(tools_for(role)) == Some(o@.message) && o@.artifact is None,
            None => handed_over(tools_for(role)) is None,
        },
{
    let message = match dispatch(role) {
        Dispatch::Compile | Dispatch::CompileLib => {
            return None;
        },
        Dispatch::Data => "[预处理] 识别为 data 数据交换文件，已转交数据解析工具链 —— v0.1 数据交换工具链尚未实现",
        Dispatch::Ui => "[预处理] 识别为 ui 界面文件，已转交 UI 工具链 —— v0.1 UI 工具链尚未实现",
        Dispatch::Db => "[预处理] 识别为 db 数据库文件，已转交数据库工具链 —— v0.1 数据库工具链尚未实现",
        Dispatch::Port => "[预处理] 识别为 port 接口文件，已转交端口工具链 —— v0.1 端口工具链尚未实现",
    };
    Some(CompileOutcome { message: lit(message), artifact: None })
}

/// What is said where a file's name gives it another role than its head. The head counts.
pub fn role_warning(
    path: &str,
    name_role: Option<FileRole>,
    head_role: FileRole,
    name_text: &str,
    head_text: &str,
) -> (r: Option<String>)
    ensures
        match r {
            Some(m) => name_role is Some && name_role != Some(head_role) && m@ == "警告: 文件 "@
                + path@ + " 名称声明为 "@ + name_text@ + "，与头部声明 "@ + head_text@
                + " 不一致，已采用头部声明"@,
            None => name_role is None || name_role == Some(head_role),
        },
{
    match name_role {
        Some(role) => if role != head_role {
            Some(
                cat7(
                    "警告: 文件 ",
                    path,
                    " 名称声明为 ",
                    name_text,
                    "，与头部声明 ",
                    head_text,
                    " 不一致，已采用头部声明",
                ),
            )
        } else {
            None
        },
        None => None,
    }
}

// ---------- from a program to its code ----------
/// An error at a place in the source.
#[derive(Debug)]
pub struct SemanticError {
    pub line: usize,
    pub col: usize,
    pub message: String,
}

/// Why a program has no code.
#[derive(Debug)]
pub enum ProgramError {
    Semantic(SemanticError),
    Ir(IrError),
}

/// The code of a program, the file it goes to, and the outcome where nothing else is asked.
#[derive(Debug)]
pub struct Written {
    pub ir: IrOutput,
    pub ir_path: String,
    pub outcome: Option<CompileOutcome>,
}

/// Whether a program lacks the entry that its role needs.
pub open spec fn lacks_main(opts: CompileOptions, role: FileRole, sem: Sem) -> bool {
    !opts.emit_ir_only && (role == FileRole::Logic || role == FileRole::Script) && sig_of(
        sem,
        "main"@,
    ) is None
}

/// Makes the code of a program that passed semantic analysis.
pub fn compile_program(
    opts: &CompileOptions,
    role: FileRole,
    program: &Program,
    sem: &Sem,
    windows: bool,
) -> (r: Result<Written, ProgramError>)
    ensures
        match r {
            Ok(w) => {
                let path = extended(opts.input@, "ll"@, windows);
                &&& !lacks_main(*opts, role, *sem)
                &&& module_code(*sem, *program).error is None
                &&& w.ir.ir@ == renumbered(module_code(*sem, *program).out)
                &&& views(w.ir.used_externs@) == module_code(*sem, *program).used
                &&& w.ir_path@ == path
                &&& match w.outcome {
                    Some(o) => opts.emit_ir_only && o@ == (OutcomeV {
                        message: "已生成 LLVM IR: "@ + path,
                        artifact: Some(path),
                    }),
                    None => !opts.emit_ir_only,
                }
            },
            Err(ProgramError::Semantic(e)) => lacks_main(*opts, role, *sem) && e.line == 1 && e.col
                == 1 && e.message@ == "文件角色为 logic/script，必须定义入口函数 main"@,
            Err(ProgramError::Ir(e)) => !lacks_main(*opts, role, *sem) && module_code(
                *sem,
                *program,
            ).error == Some(e.message@),
        },
{
    if !opts.emit_ir_only && (role == FileRole::Logic || role == FileRole::Script) && sem.sig_of(
        "main",
    ).is_none() {
        return Err(
            ProgramError::Semantic(
                SemanticError {
                    line: 1,
                    col: 1,
                    message: lit("文件角色为 logic/script，必须定义入口函数 main"),
                },
            ),
        );
    }
    match gen_ir(program, sem) {
        Err(e) => Err(ProgramError::Ir(e)),
        Ok(ir) => {
            let ir_path = with_extension(opts.input.as_str(), "ll", windows);
            let outcome = if opts.emit_ir_only {
                Some(
                    CompileOutcome {
                        message: cat2("已生成 LLVM IR: ", ir_path.as_str()),
                        artifact: Some(ir_path.clone()),
                    },
                )
            } else {
                None
            };
            Ok(Written { ir, ir_path, outcome })
        },
    }
}

// ---------- targets ----------
/// The target triple that a platform's short name stands for.
pub open spec fn triple(name: Seq<char>) -> Seq<char> {
    if name == "win-x64"@ || name == "windows-x64"@ {
        "x86_64-pc-windows-msvc"@
    } else if name == "win-x86"@ || name == "windows-x86"@ {
        "i686-pc-windows-msvc"@
    } else if name == "win-arm64"@ || name == "windows-arm64"@ {
        "aarch64-pc-windows-msvc"@
    } else if name == "linux-x64"@ || name == "linux-x86_64"@ {
        "x86_64-unknown-linux-gnu"@
    } else if name == "linux-arm64"@ || name == "linux-aarch64"@ {
        "aarch64-unknown-linux-gnu"@
    } else if name == "macos-x64"@ || name == "darwin-x64"@ {
        "x86_64-apple-darwin"@
    } else if name == "macos-arm64"@ || name == "darwin-arm64"@ {
        "arm64-apple-darwin"@
    } else {
        name
    }
}

/// The target triple of a platform; a name without a meaning of its own stays.
pub fn normalize_target(name: &str) -> (r: String)
    ensures
        r@ == triple(name@),
{
    if same(name, "win-x64") || same(name, "windows-x64") {
        lit("x86_64-pc-windows-msvc")
    } else if same(name, "win-x86") || same(name, "windows-x86") {
        lit("i686-pc-windows-msvc")
    } else if same(name, "win-arm64") || same(name, "windows-arm64") {
        lit("aarch64-pc-windows-msvc")
    } else if same(name, "linux-x64") || same(name, "linux-x86_64") {
        lit("x86_64-unknown-linux-gnu")
    } else if same(name, "linux-arm64") || same(name, "linux-aarch64") {
        lit("aarch64-unknown-linux-gnu")
    } else if same(name, "macos-x64") || same(name, "darwin-x64") {
        lit("x86_64-apple-darwin")
    } else if same(name, "macos-arm64") || same(name, "darwin-arm64") {
        lit("arm64-apple-darwin")
    } else {
        lit(name)
    }
}

/// The target triple of an operating system on an architecture.
pub open spec fn host_triple(os: Seq<char>, arch: Seq<char>) -> Seq<char> {
    if os == "windows"@ && arch == "x86_64"@ {
        "x86_64-pc-windows-msvc"@
    } else if os == "windows"@ && arch == "aarch64"@ {
        "aarch64-pc-windows-msvc"@
    } else if os == "linux"@ && arch == "x86_64"@ {
        "x86_64-unknown-linux-gnu"@
    } else if os == "linux"@ && arch == "aarch64"@ {
        "aarch64-unknown-linux-gnu"@
    } else if os == "macos"@ && arch == "x86_64"@ {
        "x86_64-apple-darwin"@
    } else if os == "macos"@ && arch == "aarch64"@ {
        "arm64-apple-darwin"@
    } else {
        "unknown-target"@
    }
}

/// The target triple of the machine that the compiler runs on.
pub fn host_target(os: &str, arch: &str) -> (r: &'static str)
    ensures
        r@ == host_triple(os@, arch@),
{
    if same(os, "windows") && same(arch, "x86_64") {
        "x86_64-pc-windows-msvc"
    } else if same(os, "windows") && same(arch, "aarch64") {
        "aarch64-pc-windows-msvc"
    } else if same(os, "linux") && same(arch, "x86_64") {
        "x86_64-unknown-linux-gnu"
    } else if same(os, "linux") && same(arch, "aarch64") {
        "aarch64-unknown-linux-gnu"
    } else if same(os, "macos") && same(arch, "x86_64") {
        "x86_64-apple-darwin"
    } else if same(os, "macos") && same(arch, "aarch64") {
        "arm64-apple-darwin"
    } else {
        "unknown-target"
    }
}

/// The file that a library goes to where none is named.
pub fn lib_output_path(input: &str, windows: bool) -> (r: String)
    ensures
        r@ == extended(input@, "a"@, windows),
{
    with_extension(input, "a", windows)
}

pub open spec fn lib_name(windows: bool) -> Seq<char> {
    if windows {
        "tie_interp.lib"@
    } else {
        "libtie_interp.a"@
    }
}

/// The files that the run-time library may be: the one that the environment names, those of
/// a build, and the one beside the program.
pub open spec fn lib_files(env: Option<Seq<char>>, exe_dir: Option<Seq<char>>, windows: bool) -> Seq<
    Seq<char>,
> {
    (match env {
        Some(p) => seq![p],
        None => Seq::<Seq<char>>::empty(),
    }) + seq![
        joined("target/release"@, lib_name(windows), windows),
        joined("target/debug"@, lib_name(windows), windows),
    ] + (match exe_dir {
        Some(d) => seq![joined(d, lib_name(windows), windows)],
        None => Seq::<Seq<char>>::empty(),
    })
}

/// The files that the run-time library may be, in the order in which they are tried.
pub fn interp_lib_candidates(env: Option<&str>, exe_dir: Option<&str>, windows: bool) -> (r: Vec<
    String,
>)
    ensures
        views(r@) == lib_files(view_opt(env), view_opt(exe_dir), windows),
{
    let name: &str = if windows {
        "tie_interp.lib"
    } else {
        "libtie_interp.a"
    };
    let mut list: Vec<String> = Vec::new();
    match env {
        Some(p) => {
            list.push(lit(p));
        },
        None => {},
    }
    list.push(tie_path_join("target/release", name, windows));
    list.push(tie_path_join("target/debug", name, windows));
    match exe_dir {
        Some(d) => {
            list.push(tie_path_join(d, name, windows));
        },
        None => {},
    }
    assert(views(list@) =~= lib_files(view_opt(env), view_opt(exe_dir), windows));
    list
}

/// The run-time library, among the files that are `present`.
pub fn resolve_interp_lib(
    env: Option<&str>,
    exe_dir: Option<&str>,
    present: &Vec<String>,
    windows: bool,
) -> (r: Option<String>)
    ensures
        match r {
            Some(f) => first_present(
                lib_files(view_opt(env), view_opt(exe_dir), windows),
                views(present@),
                0,
            ) == Some(f@),
            None => first_present(
                lib_files(view_opt(env), view_opt(exe_dir), windows),
                views(present@),
                0,
            ) is None,
        },
{
    let files = interp_lib_candidates(env, exe_dir, windows);
    pick_present(&files, present)
}

// ---------- from code to a program or a library ----------
/// The tools of a machine, each where it was found.
#[derive(Debug)]
pub struct Tools {
    pub opt: Option<String>,
    pub clang: Option<String>,
    pub llvm_ar: Option<String>,
    /// Whether `clang` is the one that comes with the compiler.
    pub clang_bundled: bool,
    /// Whether the linker `lld` comes with the compiler.
    pub lld_present: bool,
    pub interp_lib: Option<String>,
    /// The machine's target triple.
    pub host: String,
    pub windows: bool,
}

/// One step of a build.
#[derive(Debug)]
pub enum Step {
    Optimize(Command),
    Link(Command),
    Object(Command),
    Archive(Command),
    Remove(String),
}

/// What a `Step` is, as characters.
pub enum StepV {
    Optimize(CommandV),
    Link(CommandV),
    Object(CommandV),
    Archive(CommandV),
    Remove(Seq<char>),
}

impl View for Step {
    type V = StepV;

    open spec fn view(&self) -> StepV {
        match *self {
            Step::Optimize(c) => StepV::Optimize(c@),
            Step::Link(c) => StepV::Link(c@),
            Step::Object(c) => StepV::Object(c@),
            Step::Archive(c) => StepV::Archive(c@),
            Step::Remove(f) => StepV::Remove(f@),
        }
    }
}

pub open spec fn step_views(s: Seq<Step>) -> Seq<StepV> {
    s.map_values(|x: Step| x@)
}

/// The steps of a build, taken one after the other until one fails, and its end.
#[derive(Debug)]
pub struct Plan {
    pub steps: Vec<Step>,
    pub end: Result<CompileOutcome, CompileError>,
}

/// What a `Plan` is: its steps, and its outcome or its error.
pub struct PlanV {
    pub steps: Seq<StepV>,
    pub end: Result<OutcomeV, CompileErrorV>,
}

impl View for Plan {
    type V = PlanV;

    open spec fn view(&self) -> PlanV {
        PlanV {
            steps: step_views(self.steps@),
            end: match self.end {
                Ok(o) => Ok(o@),
                Err(e) => Err(e@),
            },
        }
    }
}

/// The target of a build.
pub open spec fn target_of(opts: CompileOptions) -> Option<Seq<char>> {
    match opts.target {
        Some(t) => Some(triple(trimmed(t@))),
        None => None,
    }
}

pub open spec fn level(opts: CompileOptions) -> OptLevel {
    match opts.opt_level {
        Some(l) => l,
        None => OptLevel::O2,
    }
}

/// The step that optimizes the code.
pub open spec fn optimize_step(opts: CompileOptions, opt: Seq<char>, ir: Seq<char>, windows: bool) -> StepV {
    StepV::Optimize(
        CommandV {
            program: opt,
            args: opt_args(ir, extended(ir, "opt.ll"@, windows), level(opts)),
        },
    )
}

/// The steps that remove what a build leaves behind.
pub open spec fn cleanup(opts: CompileOptions, ir: Seq<char>, windows: bool) -> Seq<StepV> {
    if opts.keep_intermediate {
        Seq::empty()
    } else {
        seq![StepV::Remove(ir), StepV::Remove(extended(ir, "opt.ll"@, windows))]
    }
}

/// Why a program that calls the run-time library cannot be linked.
pub open spec fn lib_problem(opts: CompileOptions, used: bool, tools: Tools) -> Option<Seq<char>> {
    if !used {
        None
    } else {
        match target_of(opts) {
            Some(t) => if t != tools.host@ {
                Some(
                    "程序使用了 REPL 内置函数（read_line/eval），但目标 '"@ + t + "' 与本机 "@
                        + tools.host@
                        + " 不同：tie-interp 静态库仅本机构建，暂不支持带 interp 依赖的交叉编译"@,
                )
            } else {
                no_lib(tools)
            },
            None => no_lib(tools),
        }
    }
}

pub open spec fn no_lib(tools: Tools) -> Option<Seq<char>> {
    match tools.interp_lib {
        Some(_) => None,
        None => Some(
            "程序使用了 REPL 内置函数（read_line/eval），但未找到 tie-interp 静态库。请先构建 tie-interp（cargo build -p tie-interp --release），或设置环境变量 TIE_INTERP_LIB 指向 tie_interp.lib"@,
        ),
    }
}

/// The libraries that a program is linked with.
pub open spec fn libs(used: bool, tools: Tools) -> Seq<Seq<char>> {
    match tools.interp_lib {
        Some(l) => if used {
            seq![l@]
        } else {
            Seq::empty()
        },
        None => Seq::empty(),
    }
}

pub open spec fn output_or(opts: CompileOptions, ext: Seq<char>, windows: bool) -> Seq<char> {
    match opts.output {
        Some(o) => o@,
        None => extended(opts.input@, ext, windows),
    }
}

/// How a program is built from its code.
pub open spec fn program_plan(opts: CompileOptions, ir: Seq<char>, used: bool, tools: Tools) -> PlanV {
    match tools.opt {
        None => PlanV {
            steps: Seq::empty(),
            end: Err(CompileErrorV::Optimize(OptErrorV::NotFound)),
        },
        Some(opt) => {
            let first = seq![optimize_step(opts, opt@, ir, tools.windows)];
            let exe = output_or(opts, "exe"@, tools.windows);
            match (lib_problem(opts, used, tools), tools.clang) {
                (Some(msg), _) => PlanV {
                    steps: first,
                    end: Err(CompileErrorV::Backend(BackendErrorV::RunFailed(msg))),
                },
                (None, None) => PlanV {
                    steps: first,
                    end: Err(CompileErrorV::Backend(BackendErrorV::NotFound)),
                },
                (None, Some(clang)) => PlanV {
                    steps: first.push(
                        StepV::Link(
                            CommandV {
                                program: clang@,
                                args: link_args(
                                    extended(ir, "opt.ll"@, tools.windows),
                                    exe,
                                    tools.clang_bundled && tools.lld_present,
                                    target_of(opts),
                                    libs(used, tools),
                                ),
                            },
                        ),
                    ) + cleanup(opts, ir, tools.windows),
                    end: Ok(OutcomeV { message: "编译成功: "@ + exe, artifact: Some(exe) }),
                },
            }
        },
    }
}

/// How a library is built from its code.
pub open spec fn library_plan(opts: CompileOptions, ir: Seq<char>, tools: Tools) -> PlanV {
    match tools.opt {
        None => PlanV {
            steps: Seq::empty(),
            end: Err(CompileErrorV::Optimize(OptErrorV::NotFound)),
        },
        Some(opt) => {
            let first = seq![optimize_step(opts, opt@, ir, tools.windows)];
            let lib = output_or(opts, "a"@, tools.windows);
            let obj = extended(opts.input@, "o"@, tools.windows);
            match tools.clang {
                None => PlanV {
                    steps: first,
                    end: Err(CompileErrorV::Backend(BackendErrorV::NotFound)),
                },
                Some(clang) => {
                    let second = first.push(
                        StepV::Object(
                            CommandV {
                                program: clang@,
                                args: object_args(
                                    extended(ir, "opt.ll"@, tools.windows),
                                    obj,
                                    target_of(opts),
                                ),
                            },
                        ),
                    );
                    match tools.llvm_ar {
                        None => PlanV {
                            steps: second,
                            end: Err(CompileErrorV::Backend(BackendErrorV::ArNotFound)),
                        },
                        Some(ar) => PlanV {
                            steps: (second.push(
                                StepV::Archive(
                                    CommandV { program: ar@, args: archive_args(obj, lib) },
                                ),
                            ) + cleanup(opts, ir, tools.windows)).push(StepV::Remove(obj)),
                            end: Ok(
                                OutcomeV { message: "库编译成功: "@ + lib, artifact: Some(lib) },
                            ),
                        },
                    }
                },
            }
        },
    }
}

/// Why a program that calls the run-time library cannot be linked.
fn find_lib_problem(target: Option<&str>, tools: &Tools, Ghost(opts): Ghost<CompileOptions>) -> (r:
    Option<String>)
    requires
        view_opt(target) == target_of(opts),
    ensures
        match r {
            Some(m) => lib_problem(opts, true, *tools) == Some(m@),
            None => lib_problem(opts, true, *tools) is None,
        },
{
    match target {
        Some(t) => {
            if !same(t, tools.host.as_str()) {
                return Some(
                    cat5(
                        "程序使用了 REPL 内置函数（read_line/eval），但目标 '",
                        t,
                        "' 与本机 ",
                        tools.host.as_str(),
                        " 不同：tie-interp 静态库仅本机构建，暂不支持带 interp 依赖的交叉编译",
                    ),
                );
            }
        },
        None => {},
    }
    match &tools.interp_lib {
        Some(_) => None,
        None => Some(
            lit(
                "程序使用了 REPL 内置函数（read_line/eval），但未找到 tie-interp 静态库。请先构建 tie-interp（cargo build -p tie-interp --release），或设置环境变量 TIE_INTERP_LIB 指向 tie_interp.lib",
            ),
        ),
    }
}

fn add_step(steps: &mut Vec<Step>, s: Step)
    ensures
        step_views(final(steps)@) == step_views(old(steps)@).push(s@),
{
    let ghost before = step_views(steps@);
    let ghost sv = s@;
    steps.push(s);
    assert(step_views(steps@) =~= before.push(sv));
}

fn add_cleanup(steps: &mut Vec<Step>, opts: &CompileOptions, ir: &str, opt_ir: &str, windows: bool)
    requires
        opt_ir@ == extended(ir@, "opt.ll"@, windows),
    ensures
        step_views(final(steps)@) == step_views(old(steps)@) + cleanup(*opts, ir@, windows),
{
    let ghost before = step_views(steps@);
    if !opts.keep_intermediate {
        add_step(steps, Step::Remove(lit(ir)));
        add_step(steps, Step::Remove(lit(opt_ir)));
    }
    assert(step_views(steps@) =~= before + cleanup(*opts, ir@, windows));
}

fn opt_str(s: &Option<String>) -> (r: Option<&str>)
    ensures
        view_opt(r) == opt_view(*s),
{
    match s {
        Some(x) => Some(x.as_str()),
        None => None,
    }
}

/// Plans how a program or a library is built from the code in the file `ir_path`, which
/// calls the library functions `used_externs`.
pub fn compile_from_ir(
    ir_path: &str,
    used_externs: &Vec<String>,
    role: FileRole,
    opts: &CompileOptions,
    tools: &Tools,
) -> (r: Plan)
    requires
        tools_for(role) == Dispatch::Compile || tools_for(role) == Dispatch::CompileLib,
    ensures
        r@ == (if tools_for(role) == Dispatch::Compile {
            program_plan(*opts, ir_path@, used_externs@.len() > 0, *tools)
        } else {
            library_plan(*opts, ir_path@, *tools)
        }),
{
    let level: OptLevel = match opts.opt_level {
        Some(l) => l,
        None => OptLevel::default(),
    };
    let target: Option<String> = match &opts.target {
        Some(t) => Some(normalize_target(trim(t.as_str()).as_str())),
        None => None,
    };
    let opt_ir = with_extension(ir_path, "opt.ll", tools.windows);
    let mut steps: Vec<Step> = Vec::new();
    assert(step_views(steps@) =~= Seq::<StepV>::empty());
    match optimize(&tools.opt, ir_path, opt_ir.as_str(), level) {
        Ok(c) => {
            add_step(&mut steps, Step::Optimize(c));
        },
        Err(e) => {
            return Plan { steps, end: Err(CompileError::Optimize(e)) };
        },
    }
    let ghost first = step_views(steps@);
    assert(first =~= seq![
        optimize_step(*opts, tools.opt->0@, ir_path@, tools.windows),
    ]);
    if role == FileRole::Logic || role == FileRole::Script {
        let exe = match &opts.output {
            Some(o) => o.clone(),
            None => with_extension(opts.input.as_str(), "exe", tools.windows),
        };
        let used = used_externs.len() > 0;
        let mut extra: Vec<String> = Vec::new();
        if used {
            match find_lib_problem(opt_str(&target), tools, Ghost(*opts)) {
                Some(m) => {
                    return Plan {
                        steps,
                        end: Err(CompileError::Backend(BackendError::RunFailed(m))),
                    };
                },
                None => {},
            }
            match &tools.interp_lib {
                Some(l) => {
                    extra.push(l.clone());
                },
                None => {},
            }
        }
        assert(views(extra@) =~= libs(used, *tools));
        match link(
            opt_str(&tools.clang),
            opt_ir.as_str(),
            exe.as_str(),
            tools.clang_bundled,
            tools.lld_present,
            opt_str(&target),
            &extra,
        ) {
            Ok(c) => {
                add_step(&mut steps, Step::Link(c));
                add_cleanup(&mut steps, opts, ir_path, opt_ir.as_str(), tools.windows);
                let outcome = CompileOutcome {
                    message: cat2("编译成功: ", exe.as_str()),
                    artifact: Some(exe),
                };
                Plan { steps, end: Ok(outcome) }
            },
            Err(e) => Plan { steps, end: Err(CompileError::Backend(e)) },
        }
    } else {
        let lib = match &opts.output {
            Some(o) => o.clone(),
            None => lib_output_path(opts.input.as_str(), tools.windows),
        };
        let obj = with_extension(opts.input.as_str(), "o", tools.windows);
        match compile_object(
            opt_str(&tools.clang),
            opt_ir.as_str(),
            obj.as_str(),
            opt_str(&target),
        ) {
            Ok(c) => {
                add_step(&mut steps, Step::Object(c));
            },
            Err(e) => {
                return Plan { steps, end: Err(CompileError::Backend(e)) };
            },
        }
        match archive(opt_str(&tools.llvm_ar), obj.as_str(), lib.as_str()) {
            Ok(c) => {
                add_step(&mut steps, Step::Archive(c));
                add_cleanup(&mut steps, opts, ir_path, opt_ir.as_str(), tools.windows);
                add_step(&mut steps, Step::Remove(obj));
                let outcome = CompileOutcome {
                    message: cat2("库编译成功: ", lib.as_str()),
                    artifact: Some(lib),
                };
                Plan { steps, end: Ok(outcome) }
            },
            Err(e) => Plan { steps, end: Err(CompileError::Backend(e)) },
        }
    }
}

/// What came of a step that runs a program; a file that cannot be removed stays.
pub fn step_result(step: &Step, run: &Run) -> (r: Result<(), CompileError>)
    ensures
        match r {
            Ok(_) => run_error(*run) is None || *step is Remove,
            Err(e) => !(*step is Remove) && run_error(*run) is Some && match *step {
                Step::Optimize(_) => e matches CompileError::Optimize(OptError::RunFailed(m)) && m@
                    == run_error(*run)->0,
                Step::Archive(_) => e matches CompileError::Backend(BackendError::ArFailed(m)) && m@
                    == run_error(*run)->0,
                _ => e matches CompileError::Backend(BackendError::RunFailed(m)) && m@ == run_error(
                    *run,
                )->0,
            },
        },
{
    match step {
        Step::Optimize(_) => match opt_result(run) {
            Ok(_) => Ok(()),
            Err(e) => Err(CompileError::Optimize(e)),
        },
        Step::Link(_) | Step::Object(_) => match clang_result(run) {
            Ok(_) => Ok(()),
            Err(e) => Err(CompileError::Backend(e)),
        },
        Step::Archive(_) => match archive_result(run) {
            Ok(_) => Ok(()),
            Err(e) => Err(CompileError::Backend(e)),
        },
        Step::Remove(_) => Ok(()),
    }
}

// ---------- laws ----------
/// A triple is its own meaning.
pub proof fn law_normalize_twice(name: Seq<char>)
    ensures
        triple(triple(name)) == triple(name),
{
    assert("win-x64"@.len() == 7) by {
        reveal_strlit("win-x64");
    }
    assert("windows-x64"@.len() == 11) by {
        reveal_strlit("windows-x64");
    }
    assert("win-x86"@.len() == 7) by {
        reveal_strlit("win-x86");
    }
    assert("windows-x86"@.len() == 11) by {
        reveal_strlit("windows-x86");
    }
    assert("win-arm64"@.len() == 9) by {
        reveal_strlit("win-arm64");
    }
    assert("windows-arm64"@.len() == 13) by {
        reveal_strlit("windows-arm64");
    }
    assert("linux-x64"@.len() == 9) by {
        reveal_strlit("linux-x64");
    }
    assert("linux-x86_64"@.len() == 12) by {
        reveal_strlit("linux-x86_64");
    }
    assert("linux-arm64"@.len() == 11) by {
        reveal_strlit("linux-arm64");
    }
    assert("linux-aarch64"@.len() == 13) by {
        reveal_strlit("linux-aarch64");
    }
    assert("macos-x64"@.len() == 9) by {
        reveal_strlit("macos-x64");
    }
    assert("darwin-x64"@.len() == 10) by {
        reveal_strlit("darwin-x64");
    }
    assert("macos-arm64"@.len() == 11) by {
        reveal_strlit("macos-arm64");
    }
    assert("darwin-arm64"@.len() == 12) by {
        reveal_strlit("darwin-arm64");
    }
    assert("x86_64-pc-windows-msvc"@.len() == 22) by {
        reveal_strlit("x86_64-pc-windows-msvc");
    }
    assert("i686-pc-windows-msvc"@.len() == 20) by {
        reveal_strlit("i686-pc-windows-msvc");
    }
    assert("aarch64-pc-windows-msvc"@.len() == 23) by {
        reveal_strlit("aarch64-pc-windows-msvc");
    }
    assert("x86_64-unknown-linux-gnu"@.len() == 24) by {
        reveal_strlit("x86_64-unknown-linux-gnu");
    }
    assert("aarch64-unknown-linux-gnu"@.len() == 25) by {
        reveal_strlit("aarch64-unknown-linux-gnu");
    }
    assert("x86_64-apple-darwin"@.len() == 19) by {
        reveal_strlit("x86_64-apple-darwin");
    }
    assert("arm64-apple-darwin"@.len() == 18) by {
        reveal_strlit("arm64-apple-darwin");
    }
}

/// A program that calls no library function is linked with none and built for any target.
pub proof fn law_plain_programs_cross_compile(
    opts: CompileOptions,
    ir: Seq<char>,
    tools: Tools,
)
    requires
        tools.opt is Some,
        tools.clang is Some,
    ensures
        libs(false, tools).len() == 0,
        program_plan(opts, ir, false, tools).end == Ok::<OutcomeV, CompileErrorV>(
            OutcomeV {
                message: "编译成功: "@ + output_or(opts, "exe"@, tools.windows),
                artifact: Some(output_or(opts, "exe"@, tools.windows)),
            },
        ),
{
}

/// Every build begins with the optimizer, and a build that succeeds leaves no intermediate
/// file behind unless it is asked to.
pub proof fn law_builds_clean_up(opts: CompileOptions, ir: Seq<char>, used: bool, tools: Tools)
    requires
        !opts.keep_intermediate,
    ensures
        ({
            let p = program_plan(opts, ir, used, tools);
            &&& p.end is Ok ==> p.steps.contains(StepV::Remove(ir)) && p.steps.contains(
                StepV::Remove(extended(ir, "opt.ll"@, tools.windows)),
            )
            &&& p.steps.len() > 0 ==> p.steps[0] is Optimize
        }),
        ({
            let p = library_plan(opts, ir, tools);
            &&& p.end is Ok ==> p.steps.contains(StepV::Remove(ir)) && p.steps.contains(
                StepV::Remove(extended(ir, "opt.ll"@, tools.windows)),
            ) && p.steps.contains(StepV::Remove(extended(opts.input@, "o"@, tools.windows)))
            &&& p.steps.len() > 0 ==> p.steps[0] is Optimize
        }),
{
    let opt_ir = extended(ir, "opt.ll"@, tools.windows);
    let p = program_plan(opts, ir, used, tools);
    if p.end is Ok {
        assert(p.steps[2] == StepV::Remove(ir));
        assert(p.steps[3] == StepV::Remove(opt_ir));
    }
    let l = library_plan(opts, ir, tools);
    if l.end is Ok {
        assert(l.steps[3] == StepV::Remove(ir));
        assert(l.steps[4] == StepV::Remove(opt_ir));
        assert(l.steps[5] == StepV::Remove(extended(opts.input@, "o"@, tools.windows)));
    }
}

} // verus!
