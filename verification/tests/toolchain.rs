//! From the command line to the commands that build a program.
use std::path::Path;
use tie::args::{parse_args, usage, wrong_usage, Parsed};
use tie::ast::{FuncSig, Program, Sem, TyKw, TypeSpec};
use tie::backend::{
    archive, archive_result, bundled_candidates, bundled_linker, bundled_llvm_bin, clang_result,
    compile_object, find_clang, find_llvm_ar, is_bundled_clang, link, BackendError,
};
use tie::driver::{
    compile, compile_from_ir, compile_program, dispatch, host_target, interp_lib_candidates,
    lib_output_path, normalize_target, resolve_interp_lib, role_warning, step_result, CompileError,
    CompileOptions, Dispatch, FileRole, ProgramError, Step, Tools,
};
use tie::http::{http_body, parse_url, request_text};
use tie::ir::IrError;
use tie::irtext::{
    escape_ir_string, mangle, ns_symbol, parse_array_elem_ty, parse_array_shape, parse_u16,
    parse_u32, table_elem_suffix, table_new_elem_size, tuple_field_index, zero_value,
};
use tie::numbering::renumber_ir;
use tie::optimizer::{
    find_opt, opt_result, optimize, tool_candidates, trim, OptError, OptLevel, Run,
};
use tie::paths::{
    is_in, normalize_path, tie_path_basename, tie_path_dirname, tie_path_join, with_extension,
};

fn strings(v: &[&str]) -> Vec<String> {
    v.iter().map(|s| s.to_string()).collect()
}

fn parsed(v: &[&str]) -> Parsed {
    parse_args(&strings(v))
}

fn options(v: &[&str]) -> CompileOptions {
    match parsed(v) {
        Parsed::Compile(o) => o,
        other => panic!("{other:?}"),
    }
}

fn wrong(v: &[&str]) -> String {
    match parsed(v) {
        Parsed::Wrong(m) => m,
        other => panic!("{other:?}"),
    }
}

// ---------- the command line ----------
#[test]
fn command_lines_are_read() {
    let o = options(&["a.tie"]);
    assert_eq!(o.input, "a.tie");
    assert!(o.output.is_none() && o.opt_level.is_none() && o.target.is_none());
    assert!(!o.emit_ir_only && !o.keep_intermediate);
    let o = options(&["-O3", "a.tie", "-o", "b.exe", "--emit-ir", "--keep-ir", "-O0"]);
    assert_eq!(o.output.as_deref(), Some("b.exe"));
    assert_eq!(o.opt_level, Some(OptLevel::O0));
    assert!(o.emit_ir_only && o.keep_intermediate);
    assert!(matches!(parsed(&["-h", "x", "y"]), Parsed::Help));
    assert!(matches!(parsed(&["x", "--help"]), Parsed::Help));
}

#[test]
fn both_spellings_of_a_target_agree() {
    let a = options(&["x.tie", "--target", "win-x64", "-O1"]);
    let b = options(&["x.tie", "--target=win-x64", "-O1"]);
    assert_eq!(a.target, b.target);
    assert_eq!(a.target.as_deref(), Some("win-x64"));
}

#[test]
fn wrong_command_lines_are_refused() {
    assert_eq!(wrong(&[]), "缺少输入文件，使用 --help 查看用法");
    assert_eq!(wrong(&["a", "b"]), "只能指定一个输入文件");
    assert_eq!(wrong(&["a", "-o"]), "-o 后缺少输出文件路径");
    assert_eq!(wrong(&["a", "--target"]), "--target 后缺少目标三元组");
    assert_eq!(wrong(&["a", "-x"]), "未知选项: -x");
    assert_eq!(wrong_usage("m"), format!("错误: m\n\n{}", usage()));
    assert!(usage().starts_with("tie 语言编译器"));
}

// ---------- roles and targets ----------
#[test]
fn files_go_to_their_tools() {
    assert_eq!(dispatch(FileRole::Script), Dispatch::Compile);
    assert_eq!(dispatch(FileRole::Type), Dispatch::CompileLib);
    assert!(compile(FileRole::Logic).is_none() && compile(FileRole::Class).is_none());
    for (role, word) in [
        (FileRole::Data, "data"),
        (FileRole::Ui, "ui"),
        (FileRole::Db, "db"),
        (FileRole::Port, "port"),
    ] {
        let o = compile(role).unwrap();
        assert!(o.message.contains(word) && o.artifact.is_none());
    }
    assert_eq!(
        role_warning("a", Some(FileRole::Ui), FileRole::Db, "ui", "db").unwrap(),
        "警告: 文件 a 名称声明为 ui，与头部声明 db 不一致，已采用头部声明"
    );
    assert!(role_warning("a", Some(FileRole::Db), FileRole::Db, "db", "db").is_none());
    assert!(role_warning("a", None, FileRole::Db, "", "db").is_none());
}

#[test]
fn short_names_of_targets_become_triples() {
    for (short, triple) in [
        ("win-x64", "x86_64-pc-windows-msvc"),
        ("windows-x86", "i686-pc-windows-msvc"),
        ("win-arm64", "aarch64-pc-windows-msvc"),
        ("linux-x86_64", "x86_64-unknown-linux-gnu"),
        ("linux-aarch64", "aarch64-unknown-linux-gnu"),
        ("darwin-x64", "x86_64-apple-darwin"),
        ("macos-arm64", "arm64-apple-darwin"),
        ("riscv64", "riscv64"),
    ] {
        assert_eq!(normalize_target(short), triple);
        assert_eq!(normalize_target(triple), triple);
    }
    assert_eq!(host_target("linux", "x86_64"), "x86_64-unknown-linux-gnu");
    assert_eq!(host_target("macos", "aarch64"), "arm64-apple-darwin");
    assert_eq!(host_target("plan9", "x86_64"), "unknown-target");
}

// ---------- paths ----------
#[test]
fn extensions_are_replaced() {
    assert_eq!(with_extension("a/b.tie", "ll", false), "a/b.ll");
    assert_eq!(with_extension("a.b/c", "ll", false), "a.b/c.ll");
    assert_eq!(with_extension("b.ll", "opt.ll", false), "b.opt.ll");
    assert_eq!(with_extension(".hidden", "ll", false), ".hidden.ll");
    assert_eq!(lib_output_path("x.tie", false), "x.a");
    assert_eq!(with_extension("a\\b.tie", "ll", true), "a\\b.ll");
    assert_eq!(tie_path_join("a", "b", false), "a/b");
    assert_eq!(tie_path_join("a/", "b", false), "a/b");
    assert_eq!(tie_path_join("a", "b", true), "a\\b");
}

#[test]
fn dots_are_resolved() {
    for (path, normal) in [
        ("a/./b/../c", "a/c"),
        ("a//b/", "a/b"),
        ("a/..", "."),
        ("../../x", "x"),
        ("", "."),
        ("./", "."),
        ("/", "/"),
        ("//a//", "/a"),
        ("/../a", "/a"),
        ("/a/../..", "/"),
        ("...", "..."),
    ] {
        assert_eq!(normalize_path(path, false), normal, "{}", path);
        assert_eq!(normalize_path(normal, false), normal);
    }
    assert_eq!(normalize_path("c:\\..\\a/b", true), "c:\\a\\b");
    assert_eq!(normalize_path("c:a\\.\\b", true), "c:a\\b");
    assert_eq!(normalize_path("c:", true), "c:");
}

#[test]
fn paths_behave_as_those_of_the_machine() {
    let all = [
        "", ".", "..", "/", "//", "/.", "/..", "./", "../", "a", "a/", "a//", "/a", "//a", "./a",
        "a/.", "a/./", "a/..", "a/b", "a//b", "a/./b", "a/b/.", "/a/b", "/a/./b//", "./.", "././a",
        "../a", ".a", "a.b", "a/.b.c", "...", "a/...", "/./a", "é/ü.x",
    ];
    let text = |p: &Path| p.to_string_lossy().into_owned();
    for p in all {
        let path = Path::new(p);
        let name = path.file_name().map(|n| n.to_string_lossy().into_owned());
        assert_eq!(tie_path_basename(p, false), name.unwrap_or(p.to_string()), "{}", p);
        assert_eq!(tie_path_dirname(p, false), path.parent().map(text).unwrap_or_default(), "{}", p);
        assert_eq!(with_extension(p, "ll", false), text(&path.with_extension("ll")), "{}", p);
        for q in all {
            assert_eq!(tie_path_join(p, q, false), text(&path.join(q)), "{} {}", p, q);
        }
    }
    for p in all {
        for q in all {
            let under = std::path::Path::new(p).starts_with(q);
            assert_eq!(is_in(p, q, false), under, "{} {}", p, q);
        }
    }
    assert_eq!(tie_path_join("c:", "a", true), "c:a");
    assert_eq!(tie_path_join("c:\\b", "\\a", true), "c:\\a");
    assert_eq!(tie_path_join("c:\\b", "d:a", true), "d:a");
    assert_eq!(tie_path_basename("c:\\b/d", true), "d");
    assert_eq!(tie_path_basename("c:", true), "c:");
    assert_eq!(tie_path_dirname("c:\\b", true), "c:\\");
}

// ---------- finding tools ----------
#[test]
fn the_first_candidate_that_is_present_is_taken() {
    let dirs = strings(&["/usr/bin", "/opt/bin"]);
    let all = tool_candidates("opt", &dirs, false);
    assert!(all.len() >= 2);
    let present = vec![all[1].clone(), all[0].clone()];
    assert_eq!(find_opt(&dirs, &present, false), Some(all[0].clone()));
    assert_eq!(find_opt(&dirs, &strings(&[]), false), None);
}

#[test]
fn bundled_tools_come_first() {
    let homes = bundled_candidates(Some("/h"), Some("/e"), false);
    assert_eq!(homes, ["/h/bin", "/e/llvm/bin"]);
    let bin = bundled_llvm_bin(Some("/h"), Some("/e"), &strings(&["/e/llvm/bin"]), false).unwrap();
    assert_eq!(bin, "/e/llvm/bin");
    assert_eq!(bundled_llvm_bin(None, None, &strings(&["/h/bin"]), false), None);
    let dirs = strings(&["/usr/bin"]);
    let mut present = tool_candidates("clang", &dirs, false);
    present.push("/e/llvm/bin/clang.exe".to_string());
    present.push("/e/llvm/bin/llvm-ar.exe".to_string());
    assert_eq!(
        find_clang(Some(&bin), &dirs, &present, false).as_deref(),
        Some("/e/llvm/bin/clang.exe")
    );
    assert_eq!(
        find_llvm_ar(Some(&bin), &dirs, &present, false).as_deref(),
        Some("/e/llvm/bin/llvm-ar.exe")
    );
    assert_eq!(find_llvm_ar(None, &dirs, &present, false), None);
}

#[test]
fn the_library_is_looked_for_in_order() {
    let all = interp_lib_candidates(Some("/my.a"), Some("/e"), false);
    assert_eq!(
        all,
        [
            "/my.a",
            "target/release/libtie_interp.a",
            "target/debug/libtie_interp.a",
            "/e/libtie_interp.a"
        ]
    );
    let present = strings(&["/e/libtie_interp.a", "target/debug/libtie_interp.a"]);
    assert_eq!(
        resolve_interp_lib(Some("/my.a"), Some("/e"), &present, false).as_deref(),
        Some("target/debug/libtie_interp.a")
    );
    assert_eq!(resolve_interp_lib(None, None, &strings(&[]), true), None);
}

// ---------- commands ----------
#[test]
fn commands_carry_their_arguments() {
    let c = optimize(&Some("opt".to_string()), "a.ll", "b.ll", OptLevel::O3).unwrap();
    assert_eq!(c.program, "opt");
    assert_eq!(c.args, ["-O3", "-S", "a.ll", "-o", "b.ll"]);
    assert!(matches!(optimize(&None, "a", "b", OptLevel::O0), Err(OptError::NotFound)));
    let c = link(Some("clang"), "a", "b", true, true, Some("t"), &strings(&["l.a"])).unwrap();
    assert_eq!(
        c.args,
        [
            "a", "-o", "b", "-fuse-ld=lld", "--target=t", "l.a", "-lws2_32", "-luserenv",
            "-lntdll", "-lbcrypt", "-ladvapi32", "-lole32", "-lshell32"
        ]
    );
    let c = link(Some("clang"), "a", "b", false, true, None, &strings(&[])).unwrap();
    assert_eq!(c.args, ["a", "-o", "b"]);
    assert!(matches!(
        link(None, "a", "b", false, false, None, &strings(&[])),
        Err(BackendError::NotFound)
    ));
    let c = compile_object(Some("clang"), "a", "b", Some("t")).unwrap();
    assert_eq!(c.args, ["-c", "a", "-o", "b", "--target=t"]);
    assert!(matches!(compile_object(None, "a", "b", None), Err(BackendError::NotFound)));
    let c = archive(Some("ar"), "o", "l").unwrap();
    assert_eq!(c.args, ["rcs", "l", "o"]);
    assert!(matches!(archive(None, "o", "l"), Err(BackendError::ArNotFound)));
    for (l, f) in [
        (OptLevel::O0, "-O0"),
        (OptLevel::O1, "-O1"),
        (OptLevel::O2, "-O2"),
        (OptLevel::O3, "-O3"),
    ] {
        assert_eq!(l.flag(), f);
    }
    assert_eq!(OptLevel::default(), OptLevel::O2);
}

#[test]
fn failed_runs_are_told() {
    let failed = Run::Failed(" no such thing \n".to_string());
    let missing = Run::NotStarted("gone".to_string());
    assert_eq!(opt_result(&failed).unwrap_err().display(), "opt 优化失败: no such thing");
    assert_eq!(opt_result(&missing).unwrap_err().display(), "opt 优化失败: gone");
    assert!(opt_result(&Run::Success).is_ok());
    assert_eq!(clang_result(&failed).unwrap_err().display(), "后端编译失败: no such thing");
    assert!(matches!(archive_result(&failed), Err(BackendError::ArFailed(m)) if m == "no such thing"));
    assert!(clang_result(&Run::Success).is_ok() && archive_result(&Run::Success).is_ok());
    assert_eq!(trim("\u{3000}a b\t\n"), "a b");
    assert_eq!(trim(" \n"), "");
    assert_eq!(OptError::NotFound.display(), "未找到 LLVM opt，请确认 LLVM 已安装并在 PATH 中");
}

#[test]
fn errors_show_their_stage() {
    let s = |t: &str| t.to_string();
    assert_eq!(CompileError::Read(s("x")).display(), "读取源码失败: x");
    assert_eq!(CompileError::Lex(s("x")).display(), "x");
    assert_eq!(CompileError::Parse(s("x")).display(), "x");
    assert_eq!(CompileError::Semantic(s("x")).display(), "x");
    assert_eq!(CompileError::Import(s("x")).display(), "x");
    assert_eq!(CompileError::Ir(IrError { message: s("x") }).display(), "IR 生成错误: x");
    assert_eq!(
        CompileError::Optimize(OptError::RunFailed(s("x"))).display(),
        "[中间优化] opt 优化失败: x"
    );
    assert_eq!(
        CompileError::Backend(BackendError::RunFailed(s("x"))).display(),
        "[后端] 后端编译失败: x"
    );
    assert_eq!(CompileError::Io(s("x")).display(), "文件操作失败: x");
}

// ---------- builds ----------
fn tools() -> Tools {
    Tools {
        opt: Some("opt".to_string()),
        clang: Some("clang".to_string()),
        llvm_ar: Some("ar".to_string()),
        clang_bundled: false,
        lld_present: false,
        interp_lib: Some("lib.a".to_string()),
        host: "x86_64-unknown-linux-gnu".to_string(),
        windows: false,
    }
}

fn words(steps: &[Step]) -> Vec<String> {
    steps
        .iter()
        .map(|s| match s {
            Step::Optimize(c) => format!("optimize {}", c.args.join(" ")),
            Step::Link(c) => format!("link {}", c.args.join(" ")),
            Step::Object(c) => format!("object {}", c.args.join(" ")),
            Step::Archive(c) => format!("archive {}", c.args.join(" ")),
            Step::Remove(f) => format!("remove {f}"),
        })
        .collect()
}

#[test]
fn a_program_is_built() {
    let plan = compile_from_ir("m.ll", &strings(&[]), FileRole::Logic, &options(&["m.tie"]), &tools());
    assert_eq!(
        words(&plan.steps),
        [
            "optimize -O2 -S m.ll -o m.opt.ll",
            "link m.opt.ll -o m.exe",
            "remove m.ll",
            "remove m.opt.ll"
        ]
    );
    let o = plan.end.unwrap();
    assert_eq!(o.message, "编译成功: m.exe");
    assert_eq!(o.artifact.as_deref(), Some("m.exe"));
}

#[test]
fn a_library_is_built() {
    let opts = options(&["m.tie", "--keep-ir", "--target= linux-arm64 "]);
    let plan = compile_from_ir("m.ll", &strings(&["tie_eval_expr"]), FileRole::Class, &opts, &tools());
    assert_eq!(
        words(&plan.steps),
        [
            "optimize -O2 -S m.ll -o m.opt.ll",
            "object -c m.opt.ll -o m.o --target=aarch64-unknown-linux-gnu",
            "archive rcs m.a m.o",
            "remove m.o"
        ]
    );
    assert_eq!(plan.end.unwrap().message, "库编译成功: m.a");
}

#[test]
fn a_program_that_evaluates_needs_the_library() {
    let used = strings(&["tie_eval_expr"]);
    let plan = compile_from_ir("m.ll", &used, FileRole::Script, &options(&["m.tie", "-o", "p"]), &tools());
    assert!(words(&plan.steps)[1].starts_with("link m.opt.ll -o p lib.a -lws2_32"));
    let cross = options(&["m.tie", "--target", "win-x64"]);
    let plan = compile_from_ir("m.ll", &used, FileRole::Script, &cross, &tools());
    assert_eq!(plan.steps.len(), 1);
    assert!(plan.end.unwrap_err().display().contains("暂不支持带 interp 依赖的交叉编译"));
    let plan = compile_from_ir("m.ll", &strings(&[]), FileRole::Script, &cross, &tools());
    assert!(plan.end.is_ok());
    let mut t = tools();
    t.interp_lib = None;
    let plan = compile_from_ir("m.ll", &used, FileRole::Script, &options(&["m.tie"]), &t);
    assert!(plan.end.unwrap_err().display().contains("未找到 tie-interp 静态库"));
}

#[test]
fn a_build_stops_at_a_missing_tool() {
    let mut t = tools();
    t.llvm_ar = None;
    let opts = options(&["m.tie"]);
    let plan = compile_from_ir("m.ll", &strings(&[]), FileRole::Type, &opts, &t);
    assert_eq!(plan.steps.len(), 2);
    assert!(matches!(plan.end, Err(CompileError::Backend(BackendError::ArNotFound))));
    t.clang = None;
    let plan = compile_from_ir("m.ll", &strings(&[]), FileRole::Logic, &opts, &t);
    assert!(matches!(plan.end, Err(CompileError::Backend(BackendError::NotFound))));
    t.opt = None;
    let plan = compile_from_ir("m.ll", &strings(&[]), FileRole::Logic, &opts, &t);
    assert!(plan.steps.is_empty());
    assert!(matches!(plan.end, Err(CompileError::Optimize(OptError::NotFound))));
}

#[test]
fn failed_steps_become_errors() {
    let plan = compile_from_ir("m.ll", &strings(&[]), FileRole::Class, &options(&["m.tie"]), &tools());
    let failed = Run::Failed("x".to_string());
    let shown: Vec<String> = plan
        .steps
        .iter()
        .map(|s| match step_result(s, &failed) {
            Ok(()) => "ok".to_string(),
            Err(e) => e.display(),
        })
        .collect();
    assert_eq!(shown[0], "[中间优化] opt 优化失败: x");
    assert_eq!(shown[1], "[后端] 后端编译失败: x");
    assert!(shown[2].starts_with("[后端] "));
    assert_eq!(shown[3], "ok");
}

fn no_program() -> (Program, Sem) {
    (
        Program { stmts: std::rc::Rc::new(Vec::new()) },
        Sem {
            globals: Vec::new(),
            classes: Vec::new(),
            funcs: Vec::new(),
            table_vars: Vec::new(),
            table_rets: Vec::new(),
        },
    )
}

#[test]
fn a_program_needs_an_entry() {
    let (program, mut sem) = no_program();
    let opts = options(&["m.tie"]);
    match compile_program(&opts, FileRole::Logic, &program, &sem, false) {
        Err(ProgramError::Semantic(e)) => {
            assert_eq!((e.line, e.col), (1, 1));
            assert_eq!(e.message, "文件角色为 logic/script，必须定义入口函数 main");
        }
        other => panic!("{other:?}"),
    }
    let w = compile_program(&opts, FileRole::Class, &program, &sem, false).unwrap();
    assert_eq!(w.ir_path, "m.ll");
    assert!(w.outcome.is_none() && w.ir.used_externs.is_empty());
    let ir_only = options(&["m.tie", "--emit-ir"]);
    let w = compile_program(&ir_only, FileRole::Logic, &program, &sem, false).unwrap();
    let o = w.outcome.unwrap();
    assert_eq!(o.message, "已生成 LLVM IR: m.ll");
    assert_eq!(o.artifact.as_deref(), Some("m.ll"));
    sem.funcs.push(FuncSig {
        name: "main".to_string(),
        param_tys: Vec::new(),
        param_defaults: Vec::new(),
        ret_ty: TypeSpec::Named(TyKw::Void),
    });
    assert!(compile_program(&opts, FileRole::Logic, &program, &sem, false).is_ok());
}

// ---------- HTTP ----------
#[test]
fn urls_are_taken_apart() {
    let t = parse_url("http://example.com:8080/a/b?c").unwrap();
    assert_eq!((t.host.as_str(), t.port, t.path.as_str()), ("example.com", 8080, "/a/b?c"));
    assert_eq!(
        request_text(&t),
        "GET /a/b?c HTTP/1.1\r\nHost: example.com:8080\r\nConnection: close\r\n\r\n"
    );
    let t = parse_url("http://example.com").unwrap();
    assert_eq!((t.host.as_str(), t.port, t.path.as_str()), ("example.com", 80, "/"));
    let t = parse_url("http://h:99999/").unwrap();
    assert_eq!(t.port, 80);
    assert!(parse_url("https://example.com").is_none());
    assert!(parse_url("ftp://x").is_none());
}

#[test]
fn bodies_come_back_byte_for_byte() {
    let payload: Vec<u8> = vec![0x1f, 0x8b, 0x00, 0xff, 13, 10, 13, 10, b'a'];
    let mut resp = b"HTTP/1.1 200 OK\r\nContent-Length: 9\r\n\r\n".to_vec();
    resp.extend_from_slice(&payload);
    assert_eq!(http_body(&resp), Some(payload));
    assert_eq!(http_body(&b"HTTP/1.0 200 OK\r\n\r\n".to_vec()), Some(Vec::new()));
    assert_eq!(http_body(&b"HTTP/1.1 404 Not Found\r\n\r\nx".to_vec()), None);
    assert_eq!(http_body(&b"HTTP/1.1 200 OK\r\n".to_vec()), None);
    assert_eq!(http_body(&Vec::new()), None);
}

// ---------- the text of IR ----------
#[test]
fn constants_are_escaped() {
    assert_eq!(escape_ir_string("hi"), (3, "hi\\00".to_string()));
    assert_eq!(escape_ir_string("a\"\\\n\t\r"), (7, "a\\22\\5C\\0A\\09\\0D\\00".to_string()));
    assert_eq!(escape_ir_string("é\u{7f}"), (4, "\\C3\\A9\\7F\\00".to_string()));
}

#[test]
fn names_of_symbols_and_types() {
    assert_eq!(ns_symbol("a::b::c"), "a$b$c");
    assert_eq!(ns_symbol("main"), "main");
    assert_eq!(ns_symbol(":::"), "$:");
    assert_eq!(mangle("x"), "%x");
    assert_eq!(table_elem_suffix("double"), "f64");
    assert_eq!(table_elem_suffix("i8"), "i64");
    assert_eq!(table_new_elem_size("table_new_bool"), Some(1));
    assert_eq!(table_new_elem_size("table_new_string"), Some(8));
    assert_eq!(table_new_elem_size("table_at"), None);
    assert_eq!((zero_value("ptr"), zero_value("double"), zero_value("i1"), zero_value("i8")), ("null", "0.0", "false", "0"));
    assert_eq!(parse_array_shape("[3 x i64]"), Some((3, "i64".to_string())));
    assert_eq!(parse_array_shape("i64"), None);
    assert_eq!(parse_array_elem_ty("[2 x double]").as_deref(), Some("double"));
    assert_eq!(parse_array_elem_ty("[2 x [3 x i8]]"), None);
    assert_eq!((parse_u16("65535"), parse_u16("65536"), parse_u32("x")), (Some(65535), None, None));
    let pair = TypeSpec::Tuple(std::rc::Rc::new(vec![
        tie::ast::TupleField { name: Some("left".to_string()), ty: TypeSpec::Named(TyKw::I64) },
        tie::ast::TupleField { name: None, ty: TypeSpec::Named(TyKw::I64) },
    ]));
    assert_eq!(tuple_field_index(&pair, "left"), Some(0));
    assert_eq!(tuple_field_index(&pair, "Item2"), Some(1));
    assert_eq!(tuple_field_index(&pair, "Item3"), None);
}

fn renumbered(s: &str) -> String {
    renumber_ir(&s.chars().collect())
}

#[test]
fn registers_are_numbered_in_order() {
    assert_eq!(
        renumbered("define void @f() {\nentry:\n  %54 = alloca i1\n  %1 = load i1, ptr %54\n}\n"),
        "define void @f() {\nentry:\n%1 = alloca i1\n%2 = load i1, ptr %1\n}\n"
    );
    assert_eq!(
        renumbered("define i64 @g() {\n  %9 = add i64 1, 2\n}\ndefine i64 @h() {\n  %7 = add i64 1, 2"),
        "define i64 @g() {\n%1 = add i64 1, 2\n}\ndefine i64 @h() {\n%1 = add i64 1, 2\n"
    );
    assert_eq!(
        renumbered("call i32 (ptr, ...) @printf(ptr @a)\n%4 = add i64 %3, 1\n"),
        "%1 = call i32 (ptr, ...) @printf(ptr @a)\n%3 = add i64 %4, 1\n"
    );
    assert_eq!(renumbered("; %9\ndeclare i32 @p(ptr)\n"), "; %9\ndeclare i32 @p(ptr)\n");
}

#[test]
fn windows_prefixes_stay_whole() {
    for p in [
        "\\\\s\\h", "//s/h", "\\\\s\\h\\", "\\\\.\\COM1", "\\\\?\\name", "\\\\?\\C:", "\\\\?\\C:\\",
        "\\\\?\\UNC\\s\\h", "C:", "C:\\",
    ] {
        assert_eq!(tie_path_basename(p, true), p);
        assert_eq!(tie_path_dirname(p, true), "");
    }
    assert_eq!(tie_path_basename("\\\\s\\h\\a", true), "a");
    assert_eq!(tie_path_dirname("\\\\s\\h\\a", true), "\\\\s\\h\\");
    assert_eq!(tie_path_dirname("\\\\?\\C:\\a\\b", true), "\\\\?\\C:\\a");
    assert_eq!(tie_path_basename("\\\\?\\C:\\a/b", true), "a/b");
    assert_eq!(tie_path_basename("\\\\s", true), "s");

    assert_eq!(tie_path_join("\\\\s\\h\\a", "\\b", true), "\\\\s\\h\\b");
    assert_eq!(tie_path_join("\\\\s\\h", "b", true), "\\\\s\\h\\b");
    assert_eq!(tie_path_join("a", "\\\\s\\h", true), "\\\\s\\h");
    assert_eq!(tie_path_join("\\\\?\\C:\\a", "..\\b/./c", true), "\\\\?\\C:\\b\\c");
    assert_eq!(tie_path_join("\\\\?\\C:\\a", "/b", true), "\\\\?\\C:\\b");
    assert_eq!(tie_path_join("\\\\?\\C:", "b", true), "\\\\?\\C:\\b");

    assert_eq!(normalize_path("\\\\s\\h\\a\\..\\..\\b", true), "\\\\s\\h\\b");
    assert_eq!(normalize_path("\\\\s\\h", true), "\\\\s\\h\\");
    assert_eq!(normalize_path("\\\\?\\C:\\.\\a\\..\\b", true), "\\\\?\\C:\\b");
    assert_eq!(normalize_path("c:/a//b/", true), "c:\\a\\b");

    assert!(is_in("c:\\llvm\\bin\\clang.exe", "C:/llvm/bin", true));
    assert!(!is_in("c:\\llvm\\bin2\\clang.exe", "C:/llvm/bin", true));
    assert!(is_in("//s/h/a", "\\\\s\\h", true));
    assert!(is_in("C:\\a", "c:", true));
}

#[test]
fn the_bundled_compiler_is_known_by_its_directory() {
    assert!(is_bundled_clang(Some("/o/llvm/bin/clang"), Some("/o/llvm/bin"), false));
    assert!(!is_bundled_clang(Some("/usr/bin/clang"), Some("/o/llvm/bin"), false));
    assert!(!is_bundled_clang(None, Some("/o/llvm/bin"), false));
    assert!(!is_bundled_clang(Some("clang"), None, false));
    assert_eq!(bundled_linker("D:\\LLVM\\bin", true), "D:\\LLVM\\bin\\lld-link.exe");
}
