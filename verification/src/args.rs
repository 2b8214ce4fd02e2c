//! The command line of the compiler.
use crate::driver::CompileOptions;
use crate::emit::opt_view;
use crate::optimizer::OptLevel;
use crate::text::{cat2, cat4, chars_of, has_prefix, lit, same, starts_with, string_of, views};
use vstd::prelude::*;

verus! {

/// How the compiler is used.
pub open spec fn usage_text() -> Seq<char> {
    "tie 语言编译器（前端自研 + LLVM 中后端）\n\n用法:\n  tie-llvm <input.tie> [选项]\n\n选项:\n  -o <file>      指定输出文件路径（默认: 输入同名 .exe；library 角色默认 .a）\n  -O0|-O1|-O2|-O3\n                 优化级别（默认: -O2）\n  --target <三元组>\n                 交叉编译目标（如 x86_64-pc-windows-msvc / win-x64，默认: 本机）\n  --emit-ir      只生成 LLVM IR（.ll），不继续编译\n  --keep-ir      保留中间 IR 文件\n  -h, --help     显示本帮助\n"@
}

/// How the compiler is used.
pub fn usage() -> (r: &'static str)
    ensures
        r@ == usage_text(),
{
    "tie 语言编译器（前端自研 + LLVM 中后端）\n\n用法:\n  tie-llvm <input.tie> [选项]\n\n选项:\n  -o <file>      指定输出文件路径（默认: 输入同名 .exe；library 角色默认 .a）\n  -O0|-O1|-O2|-O3\n                 优化级别（默认: -O2）\n  --target <三元组>\n                 交叉编译目标（如 x86_64-pc-windows-msvc / win-x64，默认: 本机）\n  --emit-ir      只生成 LLVM IR（.ll），不继续编译\n  --keep-ir      保留中间 IR 文件\n  -h, --help     显示本帮助\n"
}

/// What a command line asks for.
#[derive(Debug)]
pub enum Parsed {
    Help,
    Wrong(String),
    Compile(CompileOptions),
}

/// A command line as far as it was read.
pub struct ArgsV {
    pub input: Option<Seq<char>>,
    pub output: Option<Seq<char>>,
    pub opt_level: Option<OptLevel>,
    pub emit_ir_only: bool,
    pub keep_ir: bool,
    pub target: Option<Seq<char>>,
}

pub enum ParsedV {
    Help,
    Wrong(Seq<char>),
    Compile(ArgsV),
}

pub open spec fn options_view(o: CompileOptions) -> ArgsV {
    ArgsV {
        input: Some(o.input@),
        output: opt_view(o.output),
        opt_level: o.opt_level,
        emit_ir_only: o.emit_ir_only,
        keep_ir: o.keep_intermediate,
        target: opt_view(o.target),
    }
}

impl View for Parsed {
    type V = ParsedV;

    open spec fn view(&self) -> ParsedV {
        match *self {
            Parsed::Help => ParsedV::Help,
            Parsed::Wrong(m) => ParsedV::Wrong(m@),
            Parsed::Compile(o) => ParsedV::Compile(options_view(o)),
        }
    }
}

pub open spec fn level_of(arg: Seq<char>) -> Option<OptLevel> {
    if arg == "-O0"@ {
        Some(OptLevel::O0)
    } else if arg == "-O1"@ {
        Some(OptLevel::O1)
    } else if arg == "-O2"@ {
        Some(OptLevel::O2)
    } else if arg == "-O3"@ {
        Some(OptLevel::O3)
    } else {
        None
    }
}

/// What the arguments from `i` on ask for, when those before them said `a`.
pub open spec fn parse_from(args: Seq<Seq<char>>, i: int, a: ArgsV) -> ParsedV
    decreases args.len() - i,
{
    if i < 0 || i >= args.len() {
        match a.input {
            Some(_) => ParsedV::Compile(a),
            None => ParsedV::Wrong("缺少输入文件，使用 --help 查看用法"@),
        }
    } else if args[i] == "-h"@ || args[i] == "--help"@ {
        ParsedV::Help
    } else if args[i] == "-o"@ {
        if i + 1 < args.len() {
            parse_from(args, i + 2, ArgsV { output: Some(args[i + 1]), ..a })
        } else {
            ParsedV::Wrong("-o 后缺少输出文件路径"@)
        }
    } else if level_of(args[i]) is Some {
        parse_from(args, i + 1, ArgsV { opt_level: level_of(args[i]), ..a })
    } else if args[i] == "--target"@ {
        if i + 1 < args.len() {
            parse_from(args, i + 2, ArgsV { target: Some(args[i + 1]), ..a })
        } else {
            ParsedV::Wrong("--target 后缺少目标三元组"@)
        }
    } else if starts_with(args[i], "--target="@) {
        parse_from(
            args,
            i + 1,
            ArgsV { target: Some(args[i].skip("--target="@.len() as int)), ..a },
        )
    } else if args[i] == "--emit-ir"@ {
        parse_from(args, i + 1, ArgsV { emit_ir_only: true, ..a })
    } else if args[i] == "--keep-ir"@ {
        parse_from(args, i + 1, ArgsV { keep_ir: true, ..a })
    } else if starts_with(args[i], "-"@) {
        ParsedV::Wrong("未知选项: "@ + args[i])
    } else if a.input is Some {
        ParsedV::Wrong("只能指定一个输入文件"@)
    } else {
        parse_from(args, i + 1, ArgsV { input: Some(args[i]), ..a })
    }
}

/// A command line with nothing on it.
pub open spec fn no_args() -> ArgsV {
    ArgsV {
        input: None,
        output: None,
        opt_level: None,
        emit_ir_only: false,
        keep_ir: false,
        target: None,
    }
}

fn level_arg(arg: &str) -> (r: Option<OptLevel>)
    ensures
        r == level_of(arg@),
{
    if same(arg, "-O0") {
        Some(OptLevel::O0)
    } else if same(arg, "-O1") {
        Some(OptLevel::O1)
    } else if same(arg, "-O2") {
        Some(OptLevel::O2)
    } else if same(arg, "-O3") {
        Some(OptLevel::O3)
    } else {
        None
    }
}

/// Reads the arguments of the compiler, without the program's name.
pub fn parse_args(args: &Vec<String>) -> (r: Parsed)
    ensures
        r@ == parse_from(views(args@), 0, no_args()),
{
    let mut input: Option<String> = None;
    let mut output: Option<String> = None;
    let mut opt_level: Option<OptLevel> = None;
    let mut emit_ir_only = false;
    let mut keep_ir = false;
    let mut target: Option<String> = None;
    let n: usize = args.len();
    let mut i: usize = 0;
    while i < n
        invariant
            n == args@.len(),
            i <= n,
            parse_from(views(args@), 0, no_args()) == parse_from(
                views(args@),
                i as int,
                ArgsV {
                    input: opt_view(input),
                    output: opt_view(output),
                    opt_level,
                    emit_ir_only,
                    keep_ir,
                    target: opt_view(target),
                },
            ),
        decreases n - i,
    {
        let arg = args[i].as_str();
        assert(arg@ == views(args@)[i as int]);
        if same(arg, "-h") || same(arg, "--help") {
            return Parsed::Help;
        }
        if same(arg, "-o") {
            if n - i < 2 {
                return Parsed::Wrong(lit("-o 后缺少输出文件路径"));
            }
            output = Some(args[i + 1].clone());
            i = i + 2;
        } else if let Some(l) = level_arg(arg) {
            opt_level = Some(l);
            i = i + 1;
        } else if same(arg, "--target") {
            if n - i < 2 {
                return Parsed::Wrong(lit("--target 后缺少目标三元组"));
            }
            target = Some(args[i + 1].clone());
            i = i + 2;
        } else if has_prefix(arg, "--target=") {
            proof {
                reveal_strlit("--target=");
            }
            let v = chars_of(arg);
            let t = string_of(&v, 9, v.len());
            assert(t@ =~= arg@.skip(9));
            target = Some(t);
            i = i + 1;
        } else if same(arg, "--emit-ir") {
            emit_ir_only = true;
            i = i + 1;
        } else if same(arg, "--keep-ir") {
            keep_ir = true;
            i = i + 1;
        } else if has_prefix(arg, "-") {
            return Parsed::Wrong(cat2("未知选项: ", arg));
        } else {
            if input.is_some() {
                return Parsed::Wrong(lit("只能指定一个输入文件"));
            }
            input = Some(lit(arg));
            i = i + 1;
        }
    }
    match input {
        Some(f) => Parsed::Compile(
            CompileOptions {
                input: f,
                output,
                opt_level,
                emit_ir_only,
                keep_intermediate: keep_ir,
                target,
            },
        ),
        None => Parsed::Wrong(lit("缺少输入文件，使用 --help 查看用法")),
    }
}

/// What is shown for a wrong command line.
pub fn wrong_usage(msg: &str) -> (r: String)
    ensures
        r@ == "错误: "@ + msg@ + "\n\n"@ + usage_text(),
{
    cat4("错误: ", msg, "\n\n", usage())
}

// ---------- laws ----------
/// What follows `head` is read as if it stood alone.
pub proof fn lemma_rest(head: Seq<Seq<char>>, rest: Seq<Seq<char>>, i: int, a: ArgsV)
    requires
        0 <= i,
    ensures
        parse_from(head + rest, head.len() + i, a) == parse_from(rest, i, a),
    decreases rest.len() - i,
{
    let all = head + rest;
    if i < rest.len() {
        assert(all[head.len() + i] == rest[i]);
        let one = rest[i];
        if i + 1 < rest.len() {
            assert(all[head.len() + i + 1] == rest[i + 1]);
            lemma_rest(head, rest, i + 2, ArgsV { output: Some(rest[i + 1]), ..a });
            lemma_rest(head, rest, i + 2, ArgsV { target: Some(rest[i + 1]), ..a });
        }
        lemma_rest(head, rest, i + 1, ArgsV { opt_level: level_of(one), ..a });
        lemma_rest(
            head,
            rest,
            i + 1,
            ArgsV { target: Some(one.skip("--target="@.len() as int)), ..a },
        );
        lemma_rest(head, rest, i + 1, ArgsV { emit_ir_only: true, ..a });
        lemma_rest(head, rest, i + 1, ArgsV { keep_ir: true, ..a });
        lemma_rest(head, rest, i + 1, ArgsV { input: Some(one), ..a });
    }
}

/// The two ways to name a target mean the same, whatever stands before and behind them.
pub proof fn law_target_spellings_agree(target: Seq<char>, rest: Seq<Seq<char>>, a: ArgsV)
    ensures
        parse_from(seq!["--target="@ + target] + rest, 0, a) == parse_from(
            seq!["--target"@, target] + rest,
            0,
            a,
        ),
        parse_from(seq!["--target"@, target] + rest, 0, a) == parse_from(
            rest,
            0,
            ArgsV { target: Some(target), ..a },
        ),
{
    reveal_strlit("--target=");
    reveal_strlit("--target");
    reveal_strlit("-h");
    reveal_strlit("--help");
    reveal_strlit("-o");
    reveal_strlit("-O0");
    reveal_strlit("-O1");
    reveal_strlit("-O2");
    reveal_strlit("-O3");
    let one = "--target="@ + target;
    assert(one[2] == 't');
    assert(one.subrange(0, "--target="@.len() as int) =~= "--target="@);
    assert(one.take("--target="@.len() as int) =~= "--target="@);
    assert(one.skip("--target="@.len() as int) =~= target);
    assert((seq![one] + rest)[0] == one);
    assert("--target"@[2] == 't');
    assert((seq!["--target"@, target] + rest)[0] == "--target"@);
    assert((seq!["--target"@, target] + rest)[1] == target);
    assert("--help"@[2] == 'h');
    assert(one != "--target"@) by {
        assert(one[8] == '=');
    }
    lemma_rest(seq![one], rest, 0, ArgsV { target: Some(target), ..a });
    lemma_rest(seq!["--target"@, target], rest, 0, ArgsV { target: Some(target), ..a });
}

/// A command line that begins with a request for help asks for help, whatever follows.
pub proof fn law_help_comes_first(rest: Seq<Seq<char>>, a: ArgsV)
    ensures
        parse_from(seq!["-h"@] + rest, 0, a) is Help,
        parse_from(seq!["--help"@] + rest, 0, a) is Help,
{
    assert((seq!["-h"@] + rest)[0] == "-h"@);
    assert((seq!["--help"@] + rest)[0] == "--help"@);
}

} // verus!
