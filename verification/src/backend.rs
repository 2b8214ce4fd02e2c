//! The back end: how `clang` and `llvm-ar` are found and called.
use crate::optimizer::{
    candidates, first_present, pick_present, run_error, run_error_of, tool_candidates, Command,
    CommandV, Run,
};
use crate::paths::{is_in, joined, lies_in, tie_path_join};
use crate::text::{cat2, lit, views};
use vstd::prelude::*;

verus! {

/// An error of the back end.
#[derive(Debug)]
pub enum BackendError {
    NotFound,
    RunFailed(String),
    ArNotFound,
    ArFailed(String),
}

/// What a `BackendError` is, as characters.
pub enum BackendErrorV {
    NotFound,
    RunFailed(Seq<char>),
    ArNotFound,
    ArFailed(Seq<char>),
}

impl View for BackendError {
    type V = BackendErrorV;

    open spec fn view(&self) -> BackendErrorV {
        match *self {
            BackendError::NotFound => BackendErrorV::NotFound,
            BackendError::RunFailed(m) => BackendErrorV::RunFailed(m@),
            BackendError::ArNotFound => BackendErrorV::ArNotFound,
            BackendError::ArFailed(m) => BackendErrorV::ArFailed(m@),
        }
    }
}

impl BackendError {
    pub open spec fn shown(self) -> Seq<char> {
        match self {
            BackendError::NotFound => "未找到 clang，请确认 LLVM 已安装并在 PATH 中"@,
            BackendError::RunFailed(msg) => "后端编译失败: "@ + msg@,
            BackendError::ArNotFound => "未找到 llvm-ar，请确认 LLVM 已安装并在 PATH 中"@,
            BackendError::ArFailed(msg) => "静态库打包失败: "@ + msg@,
        }
    }

    /// The error as it is shown.
    pub fn display(&self) -> (r: String)
        ensures
            r@ == self.shown(),
    {
        match self {
            BackendError::NotFound => lit("未找到 clang，请确认 LLVM 已安装并在 PATH 中"),
            BackendError::RunFailed(msg) => cat2("后端编译失败: ", msg.as_str()),
            BackendError::ArNotFound => lit("未找到 llvm-ar，请确认 LLVM 已安装并在 PATH 中"),
            BackendError::ArFailed(msg) => cat2("静态库打包失败: ", msg.as_str()),
        }
    }
}

fn add_arg(args: &mut Vec<String>, a: &str)
    ensures
        views(final(args)@) == views(old(args)@).push(a@),
{
    let ghost before = views(args@);
    args.push(lit(a));
    assert(views(args@) =~= before.push(a@));
}

/// The directories that may hold the LLVM that comes with the compiler: the one that the
/// environment names, then the one beside the program.
pub open spec fn bundled_dirs(
    home: Option<Seq<char>>,
    exe_dir: Option<Seq<char>>,
    windows: bool,
) -> Seq<Seq<char>> {
    (match home {
        Some(h) => seq![joined(h, "bin"@, windows)],
        None => Seq::<Seq<char>>::empty(),
    }) + (match exe_dir {
        Some(d) => seq![joined(joined(d, "llvm"@, windows), "bin"@, windows)],
        None => Seq::<Seq<char>>::empty(),
    })
}

pub open spec fn view_opt(s: Option<&str>) -> Option<Seq<char>> {
    match s {
        Some(x) => Some(x@),
        None => None,
    }
}

/// The directories that may hold the LLVM that comes with the compiler.
pub fn bundled_candidates(home: Option<&str>, exe_dir: Option<&str>, windows: bool) -> (r: Vec<
    String,
>)
    ensures
        views(r@) == bundled_dirs(view_opt(home), view_opt(exe_dir), windows),
{
    let mut list: Vec<String> = Vec::new();
    match home {
        Some(h) => {
            list.push(tie_path_join(h, "bin", windows));
        },
        None => {},
    }
    match exe_dir {
        Some(d) => {
            list.push(tie_path_join(tie_path_join(d, "llvm", windows).as_str(), "bin", windows));
        },
        None => {},
    }
    assert(views(list@) =~= bundled_dirs(view_opt(home), view_opt(exe_dir), windows));
    list
}

/// The directory of the LLVM that comes with the compiler, among the directories that are
/// `present`.
pub fn bundled_llvm_bin(
    home: Option<&str>,
    exe_dir: Option<&str>,
    present: &Vec<String>,
    windows: bool,
) -> (r: Option<String>)
    ensures
        match r {
            Some(d) => first_present(
                bundled_dirs(view_opt(home), view_opt(exe_dir), windows),
                views(present@),
                0,
            ) == Some(d@),
            None => first_present(
                bundled_dirs(view_opt(home), view_opt(exe_dir), windows),
                views(present@),
                0,
            ) is None,
        },
{
    let dirs = bundled_candidates(home, exe_dir, windows);
    pick_present(&dirs, present)
}

/// The files that a tool may be: in the bundled directory, then as for `opt`.
pub open spec fn bundled_first(
    tool: Seq<char>,
    bundled: Option<Seq<char>>,
    dirs: Seq<Seq<char>>,
    windows: bool,
) -> Seq<Seq<char>> {
    (match bundled {
        Some(bin) => seq![joined(bin, tool + ".exe"@, windows)],
        None => Seq::<Seq<char>>::empty(),
    }) + candidates(tool, dirs, windows)
}

/// The files that a tool may be, in the order in which they are tried.
pub fn bundled_first_candidates(
    tool: &str,
    bundled: Option<&str>,
    dirs: &Vec<String>,
    windows: bool,
) -> (r: Vec<String>)
    ensures
        views(r@) == bundled_first(tool@, view_opt(bundled), views(dirs@), windows),
{
    let mut list: Vec<String> = Vec::new();
    match bundled {
        Some(bin) => {
            list.push(tie_path_join(bin, cat2(tool, ".exe").as_str(), windows));
        },
        None => {},
    }
    let mut rest = tool_candidates(tool, dirs, windows);
    let ghost first = views(list@);
    let ghost tail = views(rest@);
    list.append(&mut rest);
    assert(views(list@) =~= first + tail);
    assert(views(list@) =~= bundled_first(tool@, view_opt(bundled), views(dirs@), windows));
    list
}

/// The `clang` to use, among the files that are `present`.
pub fn find_clang(
    bundled: Option<&str>,
    dirs: &Vec<String>,
    present: &Vec<String>,
    windows: bool,
) -> (r: Option<String>)
    ensures
        match r {
            Some(f) => first_present(
                bundled_first("clang"@, view_opt(bundled), views(dirs@), windows),
                views(present@),
                0,
            ) == Some(f@),
            None => first_present(
                bundled_first("clang"@, view_opt(bundled), views(dirs@), windows),
                views(present@),
                0,
            ) is None,
        },
{
    let files = bundled_first_candidates("clang", bundled, dirs, windows);
    pick_present(&files, present)
}

/// The `llvm-ar` to use, among the files that are `present`.
pub fn find_llvm_ar(
    bundled: Option<&str>,
    dirs: &Vec<String>,
    present: &Vec<String>,
    windows: bool,
) -> (r: Option<String>)
    ensures
        match r {
            Some(f) => first_present(
                bundled_first("llvm-ar"@, view_opt(bundled), views(dirs@), windows),
                views(present@),
                0,
            ) == Some(f@),
            None => first_present(
                bundled_first("llvm-ar"@, view_opt(bundled), views(dirs@), windows),
                views(present@),
                0,
            ) is None,
        },
{
    let files = bundled_first_candidates("llvm-ar", bundled, dirs, windows);
    pick_present(&files, present)
}

pub open spec fn target_args(target: Option<Seq<char>>) -> Seq<Seq<char>> {
    match target {
        Some(t) => seq!["--target="@ + t],
        None => Seq::empty(),
    }
}

/// Whether `clang` is one of the tools in the bundled directory `bin`.
pub open spec fn bundled_clang(
    clang: Option<Seq<char>>,
    bin: Option<Seq<char>>,
    windows: bool,
) -> bool {
    clang matches Some(c) && bin matches Some(b) && lies_in(c, b, windows)
}

pub fn is_bundled_clang(clang: Option<&str>, bin: Option<&str>, windows: bool) -> (r: bool)
    ensures
        r == bundled_clang(view_opt(clang), view_opt(bin), windows),
{
    match (clang, bin) {
        (Some(c), Some(b)) => is_in(c, b, windows),
        _ => false,
    }
}

/// The linker that stands beside the bundled `clang`.
pub fn bundled_linker(bin: &str, windows: bool) -> (r: String)
    ensures
        r@ == joined(bin@, "lld-link.exe"@, windows),
{
    tie_path_join(bin, "lld-link.exe", windows)
}

/// The system libraries that the run-time library needs.
pub open spec fn system_libs() -> Seq<Seq<char>> {
    seq![
        "-lws2_32"@,
        "-luserenv"@,
        "-lntdll"@,
        "-lbcrypt"@,
        "-ladvapi32"@,
        "-lole32"@,
        "-lshell32"@,
    ]
}

/// The arguments with which `clang` links a program. The linker beside `clang` is used
/// where `clang` is the bundled one and has it.
pub open spec fn link_args(
    input: Seq<char>,
    output: Seq<char>,
    lld: bool,
    target: Option<Seq<char>>,
    libs: Seq<Seq<char>>,
) -> Seq<Seq<char>> {
    seq![input, "-o"@, output] + (if lld {
        seq!["-fuse-ld=lld"@]
    } else {
        Seq::<Seq<char>>::empty()
    }) + target_args(target) + libs + (if libs.len() > 0 {
        system_libs()
    } else {
        Seq::<Seq<char>>::empty()
    })
}

/// The command that links a program.
pub fn link(
    clang: Option<&str>,
    input: &str,
    output: &str,
    clang_bundled: bool,
    lld_present: bool,
    target: Option<&str>,
    extra_libs: &Vec<String>,
) -> (r: Result<Command, BackendError>)
    ensures
        match r {
            Ok(c) => clang matches Some(p) && c@ == (CommandV {
                program: p@,
                args: link_args(
                    input@,
                    output@,
                    clang_bundled && lld_present,
                    view_opt(target),
                    views(extra_libs@),
                ),
            }),
            Err(e) => clang is None && e == BackendError::NotFound,
        },
{
    match clang {
        Some(p) => {
            let mut args: Vec<String> = Vec::new();
            assert(views(args@) =~= Seq::<Seq<char>>::empty());
            add_arg(&mut args, input);
            add_arg(&mut args, "-o");
            add_arg(&mut args, output);
            if clang_bundled && lld_present {
                add_arg(&mut args, "-fuse-ld=lld");
            }
            match target {
                Some(t) => {
                    add_arg(&mut args, cat2("--target=", t).as_str());
                },
                None => {},
            }
            let ghost head = views(args@);
            assert(head + views(extra_libs@).take(0) =~= head);
            for i in 0..extra_libs.len()
                invariant
                    views(args@) == head + views(extra_libs@).take(i as int),
            {
                add_arg(&mut args, extra_libs[i].as_str());
                assert(head + views(extra_libs@).take(i + 1) =~= (head + views(extra_libs@).take(
                    i as int,
                )).push(views(extra_libs@)[i as int]));
            }
            if extra_libs.len() > 0 {
                add_arg(&mut args, "-lws2_32");
                add_arg(&mut args, "-luserenv");
                add_arg(&mut args, "-lntdll");
                add_arg(&mut args, "-lbcrypt");
                add_arg(&mut args, "-ladvapi32");
                add_arg(&mut args, "-lole32");
                add_arg(&mut args, "-lshell32");
            }
            assert(views(args@) =~= link_args(
                input@,
                output@,
                clang_bundled && lld_present,
                view_opt(target),
                views(extra_libs@),
            ));
            Ok(Command { program: lit(p), args })
        },
        None => Err(BackendError::NotFound),
    }
}

/// The arguments with which `clang` makes an object file.
pub open spec fn object_args(
    input: Seq<char>,
    output: Seq<char>,
    target: Option<Seq<char>>,
) -> Seq<Seq<char>> {
    seq!["-c"@, input, "-o"@, output] + target_args(target)
}

/// The command that makes an object file.
pub fn compile_object(clang: Option<&str>, input: &str, output: &str, target: Option<&str>) -> (r:
    Result<Command, BackendError>)
    ensures
        match r {
            Ok(c) => clang matches Some(p) && c@ == (CommandV {
                program: p@,
                args: object_args(input@, output@, view_opt(target)),
            }),
            Err(e) => clang is None && e == BackendError::NotFound,
        },
{
    match clang {
        Some(p) => {
            let mut args: Vec<String> = Vec::new();
            assert(views(args@) =~= Seq::<Seq<char>>::empty());
            add_arg(&mut args, "-c");
            add_arg(&mut args, input);
            add_arg(&mut args, "-o");
            add_arg(&mut args, output);
            match target {
                Some(t) => {
                    add_arg(&mut args, cat2("--target=", t).as_str());
                },
                None => {},
            }
            assert(views(args@) =~= object_args(input@, output@, view_opt(target)));
            Ok(Command { program: lit(p), args })
        },
        None => Err(BackendError::NotFound),
    }
}

/// The arguments with which `llvm-ar` makes a library.
pub open spec fn archive_args(object: Seq<char>, library: Seq<char>) -> Seq<Seq<char>> {
    seq!["rcs"@, library, object]
}

/// The command that makes a library of an object file.
pub fn archive(ar: Option<&str>, object: &str, library: &str) -> (r: Result<Command, BackendError>)
    ensures
        match r {
            Ok(c) => ar matches Some(p) && c@ == (CommandV {
                program: p@,
                args: archive_args(object@, library@),
            }),
            Err(e) => ar is None && e == BackendError::ArNotFound,
        },
{
    match ar {
        Some(p) => {
            let args = vec![lit("rcs"), lit(library), lit(object)];
            assert(views(args@) =~= archive_args(object@, library@));
            Ok(Command { program: lit(p), args })
        },
        None => Err(BackendError::ArNotFound),
    }
}

/// What a run of `clang` means.
pub fn clang_result(run: &Run) -> (r: Result<(), BackendError>)
    ensures
        match r {
            Ok(_) => run_error(*run) is None,
            Err(e) => e matches BackendError::RunFailed(m) && run_error(*run) == Some(m@),
        },
{
    match run_error_of(run) {
        None => Ok(()),
        Some(m) => Err(BackendError::RunFailed(m)),
    }
}

/// What a run of `llvm-ar` means.
pub fn archive_result(run: &Run) -> (r: Result<(), BackendError>)
    ensures
        match r {
            Ok(_) => run_error(*run) is None,
            Err(e) => e matches BackendError::ArFailed(m) && run_error(*run) == Some(m@),
        },
{
    match run_error_of(run) {
        None => Ok(()),
        Some(m) => Err(BackendError::ArFailed(m)),
    }
}

// ---------- laws ----------
/// A bundled tool that is present comes before every other one.
pub proof fn law_bundled_comes_first(
    tool: Seq<char>,
    bin: Seq<char>,
    dirs: Seq<Seq<char>>,
    present: Seq<Seq<char>>,
    windows: bool,
)
    requires
        crate::ast::name_pos(present, joined(bin, tool + ".exe"@, windows), 0) is Some,
    ensures
        first_present(bundled_first(tool, Some(bin), dirs, windows), present, 0) == Some(
            joined(bin, tool + ".exe"@, windows),
        ),
{
    assert(bundled_first(tool, Some(bin), dirs, windows)[0] == joined(
        bin,
        tool + ".exe"@,
        windows,
    ));
}

} // verus!
