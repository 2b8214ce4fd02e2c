//! What a build is for: every tool gets what the one before it made, the last one writes the
//! file that was asked for, and each word of the command line says one thing.
use crate::args::{parse_from, ArgsV, ParsedV};
use crate::ast::{lemma_name_pos, name_pos};
use crate::backend::{bundled_dirs, BackendErrorV};
use crate::driver::{
    handed_over, host_triple, lib_files, lib_name, library_plan, program_plan, tools_for, triple,
    CompileErrorV, CompileOptions, Dispatch, FileRole, OutcomeV, StepV, Tools,
};
use crate::emit::black_end;
use crate::numbering::{black_from, white};
use crate::optimizer::{
    candidates, first_present, run_error, trimmed, CommandV, OptErrorV, OptLevel, Run,
};
use crate::paths::{extended, joined};
use crate::text::starts_with;
use vstd::prelude::*;

verus! {

/// Whether `x` stands right behind `flag` among some arguments.
pub open spec fn follows(args: Seq<Seq<char>>, flag: Seq<char>, x: Seq<char>) -> bool {
    exists|i: int| 0 <= i && i + 1 < args.len() && #[trigger] args[i] == flag && args[i + 1] == x
}

/// Whether `c` runs `program` so that it reads `from` and writes `to`.
pub open spec fn turns(c: CommandV, program: Seq<char>, from: Seq<char>, to: Seq<char>) -> bool {
    c.program == program && c.args.contains(from) && follows(c.args, "-o"@, to)
}

/// The file that the options ask for: the one they name, else the input with another extension.
pub open spec fn asked_for(opts: CompileOptions, ext: Seq<char>, windows: bool) -> Seq<char> {
    if opts.output is Some {
        opts.output->0@
    } else {
        extended(opts.input@, ext, windows)
    }
}

// ---------- programs and libraries ----------
/// A program that is built is written where the options say, else beside its source: `opt`
/// turns the code into another file, and `clang` turns that into the program.
pub proof fn law_programs_go_where_asked(
    opts: CompileOptions,
    ir: Seq<char>,
    used: bool,
    tools: Tools,
)
    ensures
        program_plan(opts, ir, used, tools).end matches Ok(o) ==> {
            let file = asked_for(opts, "exe"@, tools.windows);
            let steps = program_plan(opts, ir, used, tools).steps;
            &&& o.artifact == Some(file)
            &&& tools.opt is Some && tools.clang is Some
            &&& steps.len() == (if opts.keep_intermediate {
                2nat
            } else {
                4nat
            })
            &&& exists|mid: Seq<char>|
                {
                    &&& #[trigger] extended(ir, "opt.ll"@, tools.windows) == mid
                    &&& steps[0] matches StepV::Optimize(c) && turns(c, tools.opt->0@, ir, mid)
                    &&& steps[1] matches StepV::Link(c) && turns(c, tools.clang->0@, mid, file)
                    &&& !opts.keep_intermediate ==> steps[2] == StepV::Remove(ir) && steps[3]
                        == StepV::Remove(mid)
                }
        },
{
    let p = program_plan(opts, ir, used, tools);
    if p.end is Ok {
        let file = asked_for(opts, "exe"@, tools.windows);
        let mid = extended(ir, "opt.ll"@, tools.windows);
        let c = p.steps[0]->Optimize_0;
        assert(c.args[2] == ir && c.args[3] == "-o"@ && c.args[4] == mid);
        let d = p.steps[1]->Link_0;
        assert(d.args[0] == mid && d.args[1] == "-o"@ && d.args[2] == file);
    }
}

/// So is a library: `opt` turns the code into another file, `clang` turns that into an object
/// file, and `llvm-ar` puts the object file into the library.
pub proof fn law_libraries_go_where_asked(opts: CompileOptions, ir: Seq<char>, tools: Tools)
    ensures
        library_plan(opts, ir, tools).end matches Ok(o) ==> {
            let file = asked_for(opts, "a"@, tools.windows);
            let steps = library_plan(opts, ir, tools).steps;
            &&& o.artifact == Some(file)
            &&& tools.opt is Some && tools.clang is Some && tools.llvm_ar is Some
            &&& steps.len() == (if opts.keep_intermediate {
                4nat
            } else {
                6nat
            })
            &&& exists|mid: Seq<char>, obj: Seq<char>|
                {
                    &&& #[trigger] extended(ir, "opt.ll"@, tools.windows) == mid
                    &&& #[trigger] extended(opts.input@, "o"@, tools.windows) == obj
                    &&& steps[0] matches StepV::Optimize(c) && turns(c, tools.opt->0@, ir, mid)
                    &&& steps[1] matches StepV::Object(c) && turns(c, tools.clang->0@, mid, obj)
                        && c.args.contains("-c"@)
                    &&& steps[2] matches StepV::Archive(c) && c.program == tools.llvm_ar->0@
                        && c.args.len() == 3 && c.args[0] == "rcs"@ && c.args[1] == file
                        && c.args[2] == obj
                    &&& !opts.keep_intermediate ==> steps[3] == StepV::Remove(ir) && steps[4]
                        == StepV::Remove(mid)
                    &&& steps.last() == StepV::Remove(obj)
                }
        },
{
    let p = library_plan(opts, ir, tools);
    if p.end is Ok {
        let mid = extended(ir, "opt.ll"@, tools.windows);
        let obj = extended(opts.input@, "o"@, tools.windows);
        let c = p.steps[0]->Optimize_0;
        assert(c.args[2] == ir && c.args[3] == "-o"@ && c.args[4] == mid);
        let d = p.steps[1]->Object_0;
        assert(d.args[0] == "-c"@ && d.args[1] == mid && d.args[2] == "-o"@ && d.args[3] == obj);
    }
}

/// A build ends with the name of the file that it made.
pub proof fn law_outcomes_name_the_file(
    opts: CompileOptions,
    ir: Seq<char>,
    used: bool,
    tools: Tools,
)
    ensures
        program_plan(opts, ir, used, tools).end matches Ok(o) ==> o.artifact matches Some(f)
            && ends_with(o.message, f),
        library_plan(opts, ir, tools).end matches Ok(o) ==> o.artifact matches Some(f)
            && ends_with(o.message, f),
{
    let f = asked_for(opts, "exe"@, tools.windows);
    let g = asked_for(opts, "a"@, tools.windows);
    assert(("编译成功: "@ + f).skip("编译成功: "@.len() as int) =~= f);
    assert(("库编译成功: "@ + g).skip("库编译成功: "@.len() as int) =~= g);
}

pub open spec fn ends_with(s: Seq<char>, t: Seq<char>) -> bool {
    t.len() <= s.len() && s.skip(s.len() - t.len()) == t
}

/// A build fails by the first tool that is missing, and does what comes before it.
pub proof fn law_missing_tools_are_reported(
    opts: CompileOptions,
    ir: Seq<char>,
    used: bool,
    tools: Tools,
)
    ensures
        tools.opt is None ==> program_plan(opts, ir, used, tools) == library_plan(opts, ir, tools)
            && program_plan(opts, ir, used, tools).steps.len() == 0 && program_plan(
            opts,
            ir,
            used,
            tools,
        ).end == Err::<OutcomeV, CompileErrorV>(CompileErrorV::Optimize(OptErrorV::NotFound)),
        tools.opt is Some && tools.clang is None ==> library_plan(opts, ir, tools).steps.len() == 1
            && library_plan(opts, ir, tools).end == Err::<OutcomeV, CompileErrorV>(
            CompileErrorV::Backend(BackendErrorV::NotFound),
        ),
        tools.opt is Some && tools.clang is None && !used ==> program_plan(
            opts,
            ir,
            used,
            tools,
        ).steps.len() == 1 && program_plan(opts, ir, used, tools).end == Err::<
            OutcomeV,
            CompileErrorV,
        >(CompileErrorV::Backend(BackendErrorV::NotFound)),
        tools.opt is Some && tools.clang is Some && tools.llvm_ar is None ==> library_plan(
            opts,
            ir,
            tools,
        ).steps.len() == 2 && library_plan(opts, ir, tools).end == Err::<OutcomeV, CompileErrorV>(
            CompileErrorV::Backend(BackendErrorV::ArNotFound),
        ),
        tools.opt is Some && tools.clang is Some && tools.llvm_ar is Some ==> library_plan(
            opts,
            ir,
            tools,
        ).end is Ok,
{
}

/// The target that the options name, as its triple.
pub open spec fn named_target(opts: CompileOptions) -> Option<Seq<char>> {
    if opts.target is Some {
        Some(triple(trimmed(opts.target->0@)))
    } else {
        None
    }
}

/// A program that calls the run-time library is linked with it, and only where that library is
/// there and made for the target; one that does not is linked without.
pub proof fn law_the_library_is_linked_where_needed(
    opts: CompileOptions,
    ir: Seq<char>,
    used: bool,
    tools: Tools,
)
    requires
        tools.opt is Some,
        tools.clang is Some,
    ensures
        program_plan(opts, ir, used, tools).end is Ok <==> (used ==> tools.interp_lib is Some && (
        named_target(opts) is None || named_target(opts) == Some(tools.host@))),
        program_plan(opts, ir, used, tools).end is Ok ==> {
            let args = program_plan(opts, ir, used, tools).steps[1]->Link_0.args;
            let fixed: nat = 3 + (if tools.clang_bundled && tools.lld_present {
                1nat
            } else {
                0nat
            }) + (if opts.target is Some {
                1nat
            } else {
                0nat
            });
            &&& used ==> args.len() == fixed + 8 && args[fixed as int] == tools.interp_lib->0@
            &&& !used ==> args.len() == fixed
            &&& tools.clang_bundled && tools.lld_present ==> args.contains("-fuse-ld=lld"@)
            &&& named_target(opts) matches Some(t) ==> args.contains("--target="@ + t)
        },
        !(program_plan(opts, ir, used, tools).end is Ok) ==> {
            &&& program_plan(opts, ir, used, tools).steps.len() == 1
            &&& program_plan(opts, ir, used, tools).end matches Err(CompileErrorV::Backend(b))
            &&& b is RunFailed
        },
{
    let p = program_plan(opts, ir, used, tools);
    if p.end is Ok {
        let args = p.steps[1]->Link_0.args;
        let lld = tools.clang_bundled && tools.lld_present;
        if lld {
            assert(args[3] == "-fuse-ld=lld"@);
        }
        if opts.target is Some {
            let t = triple(trimmed(opts.target->0@));
            if lld {
                assert(args[4] == "--target="@ + t);
            } else {
                assert(args[3] == "--target="@ + t);
            }
        }
    }
}

/// The object file of a library is made for the target too.
pub proof fn law_libraries_are_made_for_the_target(
    opts: CompileOptions,
    ir: Seq<char>,
    tools: Tools,
)
    ensures
        library_plan(opts, ir, tools).end is Ok ==> {
            let args = library_plan(opts, ir, tools).steps[1]->Object_0.args;
            match named_target(opts) {
                Some(t) => args.len() == 5 && args[4] == "--target="@ + t,
                None => args.len() == 4,
            }
        },
{
}

/// The optimizer gets the level that was asked for, as the digit behind `-O`; 2 where none was.
pub proof fn law_levels_are_passed_on(
    opts: CompileOptions,
    ir: Seq<char>,
    used: bool,
    tools: Tools,
)
    requires
        tools.opt is Some,
    ensures
        ({
            let digit = match opts.opt_level {
                Some(OptLevel::O0) => '0',
                Some(OptLevel::O1) => '1',
                Some(OptLevel::O2) => '2',
                Some(OptLevel::O3) => '3',
                None => '2',
            };
            let flag = Seq::<char>::empty().push('-').push('O').push(digit);
            let p = program_plan(opts, ir, used, tools);
            let l = library_plan(opts, ir, tools);
            &&& p.steps[0] matches StepV::Optimize(c) && c.args.len() == 5 && c.args[0] == flag
                && c.args.contains("-S"@)
            &&& l.steps[0] == p.steps[0]
        }),
{
    reveal_strlit("-O0");
    reveal_strlit("-O1");
    reveal_strlit("-O2");
    reveal_strlit("-O3");
    let p = program_plan(opts, ir, used, tools);
    let c = p.steps[0]->Optimize_0;
    assert("-O0"@ =~= Seq::<char>::empty().push('-').push('O').push('0'));
    assert("-O1"@ =~= Seq::<char>::empty().push('-').push('O').push('1'));
    assert("-O2"@ =~= Seq::<char>::empty().push('-').push('O').push('2'));
    assert("-O3"@ =~= Seq::<char>::empty().push('-').push('O').push('3'));
    assert(c.args[1] == "-S"@);
}

/// Logic and scripts become programs, classes and types libraries; every other role goes to
/// other tools, which are named.
pub proof fn law_roles(role: FileRole)
    ensures
        role == FileRole::Logic || role == FileRole::Script <==> tools_for(role)
            == Dispatch::Compile,
        role == FileRole::Class || role == FileRole::Type <==> tools_for(role)
            == Dispatch::CompileLib,
        handed_over(tools_for(role)) is None <==> role == FileRole::Logic || role
            == FileRole::Script || role == FileRole::Class || role == FileRole::Type,
        role == FileRole::Data ==> tools_for(role) == Dispatch::Data,
        role == FileRole::Ui ==> tools_for(role) == Dispatch::Ui,
        role == FileRole::Db ==> tools_for(role) == Dispatch::Db,
        role == FileRole::Port ==> tools_for(role) == Dispatch::Port,
{
}

/// The two short names of a platform stand for one triple, and a machine has the triple of its
/// platform's name.
pub proof fn law_platforms(name: Seq<char>)
    ensures
        triple("win-x64"@) == triple("windows-x64"@),
        triple("win-x86"@) == triple("windows-x86"@),
        triple("win-arm64"@) == triple("windows-arm64"@),
        triple("linux-x64"@) == triple("linux-x86_64"@),
        triple("linux-arm64"@) == triple("linux-aarch64"@),
        triple("macos-x64"@) == triple("darwin-x64"@),
        triple("macos-arm64"@) == triple("darwin-arm64"@),
        host_triple("windows"@, "x86_64"@) == triple("win-x64"@),
        host_triple("windows"@, "aarch64"@) == triple("win-arm64"@),
        host_triple("linux"@, "x86_64"@) == triple("linux-x64"@),
        host_triple("linux"@, "aarch64"@) == triple("linux-arm64"@),
        host_triple("macos"@, "x86_64"@) == triple("macos-x64"@),
        host_triple("macos"@, "aarch64"@) == triple("macos-arm64"@),
        triple("win-x64"@) == "x86_64-pc-windows-msvc"@,
        triple("win-x86"@) == "i686-pc-windows-msvc"@,
        triple("win-arm64"@) == "aarch64-pc-windows-msvc"@,
        triple("linux-x64"@) == "x86_64-unknown-linux-gnu"@,
        triple("linux-arm64"@) == "aarch64-unknown-linux-gnu"@,
        triple("macos-x64"@) == "x86_64-apple-darwin"@,
        triple("macos-arm64"@) == "arm64-apple-darwin"@,
        triple(name) != name ==> exists|i: int| 0 <= i < name.len() && #[trigger] name[i] == '-',
{
    reveal_strlit("win-x64");
    reveal_strlit("windows-x64");
    reveal_strlit("win-x86");
    reveal_strlit("windows-x86");
    reveal_strlit("win-arm64");
    reveal_strlit("windows-arm64");
    reveal_strlit("linux-x64");
    reveal_strlit("linux-x86_64");
    reveal_strlit("linux-arm64");
    reveal_strlit("linux-aarch64");
    reveal_strlit("macos-x64");
    reveal_strlit("darwin-x64");
    reveal_strlit("macos-arm64");
    reveal_strlit("darwin-arm64");
    reveal_strlit("windows");
    reveal_strlit("linux");
    reveal_strlit("macos");
    reveal_strlit("x86_64");
    reveal_strlit("aarch64");
    assert("win-x64"@.len() == 7);
    assert("windows-x64"@.len() == 11);
    assert("win-x86"@.len() == 7);
    assert("windows-x86"@.len() == 11);
    assert("win-arm64"@.len() == 9);
    assert("windows-arm64"@.len() == 13);
    assert("linux-x64"@.len() == 9);
    assert("linux-x86_64"@.len() == 12);
    assert("linux-arm64"@.len() == 11);
    assert("linux-aarch64"@.len() == 13);
    assert("macos-x64"@.len() == 9);
    assert("darwin-x64"@.len() == 10);
    assert("macos-arm64"@.len() == 11);
    assert("darwin-arm64"@.len() == 12);
    assert("win-x64"@[5] == '6' && "win-x86"@[5] == '8');
    assert("windows-x64"@[9] == '6' && "windows-x86"@[9] == '8');
    assert("win-arm64"@[0] == 'w' && "linux-x64"@[0] == 'l');
    assert("windows-x64"@[0] == 'w' && "linux-arm64"@[0] == 'l');
    assert("windows-x86"@[0] == 'w' && "linux-arm64"@[0] == 'l');
    assert("windows-arm64"@[0] == 'w' && "linux-aarch64"@[0] == 'l');
    assert("win-arm64"@[0] == 'w' && "macos-x64"@[0] == 'm');
    assert("linux-x64"@[0] == 'l' && "macos-x64"@[0] == 'm');
    assert("windows-x64"@[0] == 'w' && "macos-arm64"@[0] == 'm');
    assert("windows-x86"@[0] == 'w' && "macos-arm64"@[0] == 'm');
    assert("linux-arm64"@[0] == 'l' && "macos-arm64"@[0] == 'm');
    assert("linux-x86_64"@[0] == 'l' && "darwin-arm64"@[0] == 'd');
    assert("windows"@.len() == 7 && "linux"@.len() == 5 && "macos"@.len() == 5);
    assert("linux"@[0] != "macos"@[0]);
    assert("x86_64"@.len() != "aarch64"@.len());
    if triple(name) != name {
        if name.len() > 3 && name[3] == '-' {
        } else if name.len() > 5 && name[5] == '-' {
        } else if name.len() > 6 && name[6] == '-' {
        } else {
            assert(name[7] == '-');
        }
    }
}

// ---------- files ----------
/// Where a file's name has an extension, another one takes its place; where it has none, it is
/// added. What stands before the name stays.
pub proof fn law_extensions_are_replaced(
    dir: Seq<char>,
    stem: Seq<char>,
    old_ext: Seq<char>,
    ext: Seq<char>,
)
    requires
        dir.len() == 0 || dir.last() == '/',
        stem.len() > 0,
        stem[0] != '.',
        forall|i: int| 0 <= i < stem.len() ==> #[trigger] stem[i] != '/',
        old_ext.len() > 0,
        forall|i: int| 0 <= i < old_ext.len() ==> #[trigger] old_ext[i] != '/' && old_ext[i] != '.',
    ensures
        extended(dir + stem + "."@ + old_ext, ext, false) == dir + stem + "."@ + ext,
        (forall|i: int| 0 <= i < stem.len() ==> #[trigger] stem[i] != '.') ==> extended(
            dir + stem,
            ext,
            false,
        ) == dir + stem + "."@ + ext,
{
    reveal_strlit(".");
    reveal_strlit("..");
    let s = dir + stem + "."@ + old_ext;
    let b = dir.len() as int;
    let k = b + stem.len();
    assert(s[k] == '.');
    assert forall|i: int| b <= i < s.len() implies #[trigger] s[i] != '/' by {
        if i < k {
            assert(s[i] == stem[i - b]);
        } else if i > k {
            assert(s[i] == old_ext[i - k - 1]);
        }
    }
    assert(s[b] == stem[0]);
    assert(b > 0 ==> s[b - 1] == dir.last());
    assert(s.last() == old_ext.last());
    lemma_name_found(s, b);
    lemma_dot_found(s, b, k, s.len() as int);
    assert(s.take(k) =~= dir + stem);
    if forall|i: int| 0 <= i < stem.len() ==> #[trigger] stem[i] != '.' {
        let t = dir + stem;
        assert forall|i: int| b <= i < t.len() implies #[trigger] t[i] != '/' && t[i] != '.' by {
            assert(t[i] == stem[i - b]);
        }
        assert(b > 0 ==> t[b - 1] == dir.last());
        lemma_name_found(t, b);
        lemma_no_dot(t, b, t.len() as int);
        assert(t.take(t.len() as int) =~= t);
    }
}

proof fn lemma_name_found(s: Seq<char>, b: int)
    requires
        0 <= b < s.len(),
        s[b] != '.',
        b == 0 || s[b - 1] == '/',
        forall|i: int| b <= i < s.len() ==> #[trigger] s[i] != '/',
        s.last() != '.',
    ensures
        crate::paths::file_name(s, false) == Some((b, s.len() as int)),
{
    reveal_strlit(".");
    reveal_strlit("..");
    let lo = crate::paths::body(s, false);
    assert(lo <= b);
    lemma_part_start(s, s.len() as int, lo, b);
    assert(s.subrange(b, s.len() as int)[0] == s[b]);
}

proof fn lemma_part_start(s: Seq<char>, e: int, lo: int, b: int)
    requires
        0 <= lo <= b < e <= s.len() || (0 <= lo <= b == e && e <= s.len()),
        b == lo || s[b - 1] == '/',
        forall|i: int| b <= i < e ==> #[trigger] s[i] != '/',
    ensures
        crate::paths::part_start(s, e, lo, crate::paths::Style::Unix) == b,
    decreases e,
{
    if b < e {
        lemma_part_start(s, e - 1, lo, b);
    }
}

proof fn lemma_dot_found(s: Seq<char>, b: int, k: int, e: int)
    requires
        0 <= b < k < e <= s.len(),
        s[k] == '.',
        forall|i: int| k < i < e ==> #[trigger] s[i] != '.',
    ensures
        crate::paths::last_dot(s, b, e) == Some(k),
    decreases e,
{
    if k + 1 < e {
        lemma_dot_found(s, b, k, e - 1);
    }
}

proof fn lemma_no_dot(s: Seq<char>, b: int, e: int)
    requires
        0 <= b <= e <= s.len(),
        forall|i: int| b <= i < e ==> #[trigger] s[i] != '.',
    ensures
        crate::paths::last_dot(s, b, e) is None,
    decreases e,
{
    if b + 1 < e {
        lemma_no_dot(s, b, e - 1);
    }
}

/// A file is present where its name is among the names of what is there.
pub proof fn law_present(present: Seq<Seq<char>>, f: Seq<char>)
    ensures
        name_pos(present, f, 0) is Some <==> present.contains(f),
{
    lemma_name_pos(present, f, 0);
    if present.contains(f) {
        let k = choose|k: int| 0 <= k < present.len() && present[k] == f;
        lemma_pos(present, f, 0, k);
    }
}

proof fn lemma_pos(names: Seq<Seq<char>>, f: Seq<char>, i: int, k: int)
    requires
        0 <= i <= k < names.len(),
        names[k] == f,
    ensures
        name_pos(names, f, i) matches Some(j) && i <= j <= k && names[j] == f,
    decreases k - i,
{
    if names[i] != f {
        lemma_pos(names, f, i + 1, k);
    }
}

/// The run-time library that the environment names comes before every other one; then come
/// those of a build, and last the one beside the program.
pub proof fn law_the_named_library_comes_first(
    env: Seq<char>,
    exe_dir: Option<Seq<char>>,
    present: Seq<Seq<char>>,
    windows: bool,
)
    ensures
        present.contains(env) ==> first_present(
            lib_files(Some(env), exe_dir, windows),
            present,
            0,
        ) == Some(env),
        lib_files(None, exe_dir, windows).len() == (if exe_dir is Some {
            3nat
        } else {
            2nat
        }),
        lib_files(Some(env), exe_dir, windows).skip(1) == lib_files(None, exe_dir, windows),
        lib_files(None, exe_dir, windows)[0] == joined("target/release"@, lib_name(windows), windows),
        lib_files(None, exe_dir, windows)[1] == joined("target/debug"@, lib_name(windows), windows),
        exe_dir matches Some(d) ==> lib_files(None, exe_dir, windows)[2] == joined(
            d,
            lib_name(windows),
            windows,
        ),
        lib_name(true) == "tie_interp.lib"@,
        lib_name(false) == "libtie_interp.a"@,
{
    law_present(present, env);
    assert(lib_files(Some(env), exe_dir, windows)[0] == env);
    assert(lib_files(Some(env), exe_dir, windows).skip(1) =~= lib_files(None, exe_dir, windows));
}

/// The LLVM that the environment names comes before the one beside the program; both keep
/// their programs in `bin`.
pub proof fn law_bundled_places(home: Seq<char>, dir: Seq<char>, windows: bool)
    ensures
        bundled_dirs(Some(home), Some(dir), windows).len() == 2,
        bundled_dirs(Some(home), Some(dir), windows)[0] == joined(home, "bin"@, windows),
        bundled_dirs(Some(home), Some(dir), windows)[1] == joined(
            joined(dir, "llvm"@, windows),
            "bin"@,
            windows,
        ),
        bundled_dirs(Some(home), None, windows) == seq![joined(home, "bin"@, windows)],
        bundled_dirs(None, None, windows).len() == 0,
{
    assert(bundled_dirs(Some(home), None, windows) =~= seq![joined(home, "bin"@, windows)]);
}

/// A tool is looked for in every directory of the search path, first with `.exe`, then without,
/// in the order of the path, and then in the common places.
pub proof fn law_the_path_is_searched_in_order(
    tool: Seq<char>,
    dirs: Seq<Seq<char>>,
    i: int,
    windows: bool,
)
    requires
        0 <= i < dirs.len(),
    ensures
        candidates(tool, dirs, windows).len() == 2 * dirs.len() + 3,
        candidates(tool, dirs, windows)[2 * i] == joined(dirs[i], tool + ".exe"@, windows),
        candidates(tool, dirs, windows)[2 * i + 1] == joined(dirs[i], tool, windows),
        candidates(tool, dirs, windows)[2 * dirs.len() as int] == joined(
            "D:\\LLVM\\bin"@,
            tool + ".exe"@,
            windows,
        ),
        candidates(tool, dirs, windows)[2 * dirs.len() as int + 1] == joined(
            "C:\\Program Files\\LLVM\\bin"@,
            tool + ".exe"@,
            windows,
        ),
        candidates(tool, dirs, windows)[2 * dirs.len() as int + 2] == joined(
            "C:\\LLVM\\bin"@,
            tool + ".exe"@,
            windows,
        ),
{
    lemma_on_path(tool, dirs, dirs.len(), windows);
}

proof fn lemma_on_path(tool: Seq<char>, dirs: Seq<Seq<char>>, n: nat, windows: bool)
    requires
        n <= dirs.len(),
    ensures
        crate::optimizer::on_path(tool, dirs, n, windows).len() == 2 * n,
        forall|i: int|
            0 <= i < n ==> {
                &&& crate::optimizer::on_path(tool, dirs, n, windows)[2 * i] == joined(
                    #[trigger] dirs[i],
                    tool + ".exe"@,
                    windows,
                )
                &&& crate::optimizer::on_path(tool, dirs, n, windows)[2 * i + 1] == joined(
                    dirs[i],
                    tool,
                    windows,
                )
            },
    decreases n,
{
    if n > 0 {
        lemma_on_path(tool, dirs, (n - 1) as nat, windows);
    }
}

/// What a program that failed has written counts without the white space around it; one that
/// could not be started fails for that reason.
pub proof fn law_runs(err: String)
    ensures
        run_error(Run::Success) is None,
        run_error(Run::NotStarted(err)) == Some(err@),
        run_error(Run::Failed(err)) matches Some(m) && m == trimmed(err@),
{
}

proof fn lemma_black_end(s: Seq<char>, e: int)
    requires
        0 <= e <= s.len(),
    ensures
        0 <= black_end(s, e) <= e,
        forall|i: int| black_end(s, e) <= i < e ==> white(#[trigger] s[i]),
        black_end(s, e) > 0 ==> !white(s[black_end(s, e) - 1]),
    decreases e,
{
    if e > 0 && white(s[e - 1]) {
        lemma_black_end(s, e - 1);
    }
}

proof fn lemma_black_from(s: Seq<char>, i: int, e: int)
    requires
        0 <= i <= e <= s.len(),
    ensures
        i <= black_from(s, i, e) <= e,
        forall|k: int| i <= k < black_from(s, i, e) ==> white(#[trigger] s[k]),
        black_from(s, i, e) < e ==> !white(s[black_from(s, i, e)]),
    decreases e - i,
{
    if i < e && white(s[i]) {
        lemma_black_from(s, i + 1, e);
    }
}

/// Trimming takes white space away at both ends, all of it, and nothing else.
pub proof fn law_trimmed(s: Seq<char>)
    ensures
        exists|b: int, e: int|
            {
                &&& 0 <= b <= e <= s.len()
                &&& trimmed(s) == #[trigger] s.subrange(b, e)
                &&& forall|i: int| 0 <= i < b || e <= i < s.len() ==> white(#[trigger] s[i])
                &&& b < e ==> !white(s[b]) && !white(s[e - 1])
            },
{
    lemma_black_end(s, s.len() as int);
    let e = black_end(s, s.len() as int);
    lemma_black_from(s, 0, e);
    let b = black_from(s, 0, e);
    assert(trimmed(s) == s.subrange(b, e));
}

// ---------- the command line ----------
/// `-o` takes the word behind it for the output file.
pub proof fn law_output_is_read(f: Seq<char>, rest: Seq<Seq<char>>, a: ArgsV)
    ensures
        parse_from(seq!["-o"@, f] + rest, 0, a) == parse_from(
            rest,
            0,
            ArgsV { output: Some(f), ..a },
        ),
        parse_from(seq!["-o"@], 0, a) is Wrong,
        parse_from(seq!["--target"@], 0, a) is Wrong,
{
    lemma_words();
    let head = seq!["-o"@, f];
    assert((head + rest)[0] == "-o"@ && (head + rest)[1] == f);
    crate::args::lemma_rest(head, rest, 0, ArgsV { output: Some(f), ..a });
    assert(seq!["-o"@][0] == "-o"@);
    assert(seq!["--target"@][0] == "--target"@);
}

/// `-O` and a digit set the level, `--emit-ir` and `--keep-ir` their switches; the last word of
/// a kind counts.
pub proof fn law_switches_are_read(rest: Seq<Seq<char>>, a: ArgsV)
    ensures
        parse_from(seq!["-O0"@] + rest, 0, a) == parse_from(
            rest,
            0,
            ArgsV { opt_level: Some(OptLevel::O0), ..a },
        ),
        parse_from(seq!["-O1"@] + rest, 0, a) == parse_from(
            rest,
            0,
            ArgsV { opt_level: Some(OptLevel::O1), ..a },
        ),
        parse_from(seq!["-O2"@] + rest, 0, a) == parse_from(
            rest,
            0,
            ArgsV { opt_level: Some(OptLevel::O2), ..a },
        ),
        parse_from(seq!["-O3"@] + rest, 0, a) == parse_from(
            rest,
            0,
            ArgsV { opt_level: Some(OptLevel::O3), ..a },
        ),
        parse_from(seq!["--emit-ir"@] + rest, 0, a) == parse_from(
            rest,
            0,
            ArgsV { emit_ir_only: true, ..a },
        ),
        parse_from(seq!["--keep-ir"@] + rest, 0, a) == parse_from(
            rest,
            0,
            ArgsV { keep_ir: true, ..a },
        ),
{
    lemma_words();
    assert((seq!["-O0"@] + rest)[0] == "-O0"@);
    assert((seq!["-O1"@] + rest)[0] == "-O1"@);
    assert((seq!["-O2"@] + rest)[0] == "-O2"@);
    assert((seq!["-O3"@] + rest)[0] == "-O3"@);
    assert((seq!["--emit-ir"@] + rest)[0] == "--emit-ir"@);
    assert((seq!["--keep-ir"@] + rest)[0] == "--keep-ir"@);
    crate::args::lemma_rest(seq!["-O0"@], rest, 0, ArgsV { opt_level: Some(OptLevel::O0), ..a });
    crate::args::lemma_rest(seq!["-O1"@], rest, 0, ArgsV { opt_level: Some(OptLevel::O1), ..a });
    crate::args::lemma_rest(seq!["-O2"@], rest, 0, ArgsV { opt_level: Some(OptLevel::O2), ..a });
    crate::args::lemma_rest(seq!["-O3"@], rest, 0, ArgsV { opt_level: Some(OptLevel::O3), ..a });
    crate::args::lemma_rest(seq!["--emit-ir"@], rest, 0, ArgsV { emit_ir_only: true, ..a });
    crate::args::lemma_rest(seq!["--keep-ir"@], rest, 0, ArgsV { keep_ir: true, ..a });
}

/// A word that does not begin with `-` is the input file; there must be one, and only one. Any
/// other word that begins with `-` is refused.
pub proof fn law_inputs_are_read(word: Seq<char>, rest: Seq<Seq<char>>, a: ArgsV)
    requires
        word.len() == 0 || word[0] != '-',
    ensures
        a.input is None ==> parse_from(seq![word] + rest, 0, a) == parse_from(
            rest,
            0,
            ArgsV { input: Some(word), ..a },
        ),
        a.input is Some ==> parse_from(seq![word] + rest, 0, a) is Wrong,
        parse_from(Seq::empty(), 0, a) == (match a.input {
            Some(_) => ParsedV::Compile(a),
            None => parse_from(Seq::empty(), 0, a),
        }),
        a.input is None ==> parse_from(Seq::empty(), 0, a) is Wrong,
        parse_from(seq!["-"@ + word] + rest, 0, a) is Wrong || word == "h"@ || word == "o"@
            || starts_with(word, "O"@),
{
    lemma_words();
    reveal_strlit("-");
    reveal_strlit("h");
    reveal_strlit("o");
    reveal_strlit("O");
    assert((seq![word] + rest)[0] == word);
    if word.len() > 0 && starts_with(word, "-"@) {
        assert(word.take(1)[0] == word[0]);
    }
    if starts_with(word, "--target="@) {
        assert(word.take(9)[0] == word[0]);
    }
    crate::args::lemma_rest(seq![word], rest, 0, ArgsV { input: Some(word), ..a });
    let odd = "-"@ + word;
    assert((seq![odd] + rest)[0] == odd);
    assert(odd[0] == '-');
    assert(word.len() > 0 ==> odd[1] == word[0]);
    assert(odd.take(1) =~= "-"@);
    if odd == "-h"@ {
        assert(word =~= "h"@) by {
            assert(odd.len() == 2 && odd[1] == 'h');
        }
    }
    if odd == "-o"@ {
        assert(word =~= "o"@) by {
            assert(odd.len() == 2 && odd[1] == 'o');
        }
    }
    if odd.len() > 1 && odd[1] == 'O' {
        assert(word.take(1) =~= "O"@);
    }
    if starts_with(odd, "--target="@) {
        assert(odd.take(9)[1] == odd[1]);
    }
}

proof fn lemma_words()
    ensures
        "-h"@.len() == 2 && "-h"@[0] == '-' && "-h"@[1] == 'h',
        "-o"@.len() == 2 && "-o"@[0] == '-' && "-o"@[1] == 'o',
        "--help"@.len() == 6 && "--help"@[0] == '-' && "--help"@[1] == '-' && "--help"@[2] == 'h',
        "-O0"@.len() == 3 && "-O0"@[0] == '-' && "-O0"@[1] == 'O' && "-O0"@[2] == '0',
        "-O1"@.len() == 3 && "-O1"@[0] == '-' && "-O1"@[1] == 'O' && "-O1"@[2] == '1',
        "-O2"@.len() == 3 && "-O2"@[0] == '-' && "-O2"@[1] == 'O' && "-O2"@[2] == '2',
        "-O3"@.len() == 3 && "-O3"@[0] == '-' && "-O3"@[1] == 'O' && "-O3"@[2] == '3',
        "--target"@.len() == 8 && "--target"@[0] == '-' && "--target"@[1] == '-' && "--target"@[2]
            == 't',
        "--target="@.len() == 9 && "--target="@[0] == '-' && "--target="@[1] == '-'
            && "--target="@[2] == 't',
        "--emit-ir"@.len() == 9 && "--emit-ir"@[0] == '-' && "--emit-ir"@[1] == '-'
            && "--emit-ir"@[2] == 'e',
        "--keep-ir"@.len() == 9 && "--keep-ir"@[0] == '-' && "--keep-ir"@[1] == '-'
            && "--keep-ir"@[2] == 'k',
        !starts_with("--emit-ir"@, "--target="@),
        !starts_with("--keep-ir"@, "--target="@),
{
    reveal_strlit("-h");
    reveal_strlit("-o");
    reveal_strlit("--help");
    reveal_strlit("-O0");
    reveal_strlit("-O1");
    reveal_strlit("-O2");
    reveal_strlit("-O3");
    reveal_strlit("--target");
    reveal_strlit("--target=");
    reveal_strlit("--emit-ir");
    reveal_strlit("--keep-ir");
    if starts_with("--emit-ir"@, "--target="@) {
        assert("--emit-ir"@.take(9)[2] == "--emit-ir"@[2]);
    }
    if starts_with("--keep-ir"@, "--target="@) {
        assert("--keep-ir"@.take(9)[2] == "--keep-ir"@[2]);
    }
}

} // verus!
