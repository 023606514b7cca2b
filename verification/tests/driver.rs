use std::path::Path;
use std::str::FromStr;

use fib::diagnostics::ErrorKind;
use fib::driver::imports::{FileEvent, ImportResolver};
use fib::driver::{
    analyze_entry, compile, decl_key, dedupe_declarations, default_binary_path, default_llvm_path, lex_source, llvm_output_path,
    parse_source, validate_opt_level, validate_path, CompilationOptions, CompileOutput, DriverError, EmitKind,
    FrontendResponse, FrontendRun,
};
use fib::frontend::typed_ast::TypedDecl;

fn test_opts(source: &str) -> CompilationOptions {
    CompilationOptions {
        project_path: "test.fib".to_string(),
        source_override: Some(source.to_string()),
        include_paths: Vec::new(),
        output: None,
        emit: EmitKind::Bin,
        check_only: false,
        emit_llvm: false,
        llvm_out: None,
        cc: None,
        opt_level: None,
    }
}

/// Answer the frontend's file requests from an in-memory set of files.
fn answer(path: &str, files: &[(&str, &str)]) -> FileEvent {
    match files.iter().find(|(p, _)| *p == path) {
        Some((_, content)) => FileEvent::Read { content: content.to_string(), canonical: path.to_string() },
        None => FileEvent::NotFound { message: "No such file or directory".to_string() },
    }
}

/// Run the frontend on the options' source, with `files` as the disk.
fn run_frontend_with(opts: &CompilationOptions, files: &[(&str, &str)]) -> Result<FrontendResponse, DriverError> {
    let source = opts.source_override.clone().expect("tests give the source in memory");
    let mut run = FrontendRun::start(opts, source)?;
    while let Some(path) = run.next_file()? {
        run.file_read(answer(&path, files))?;
    }
    run.finish()
}

fn run_frontend(opts: &CompilationOptions) -> Result<FrontendResponse, DriverError> {
    run_frontend_with(opts, &[])
}

fn check_project(opts: &CompilationOptions) -> Result<FrontendResponse, DriverError> {
    run_frontend(opts)
}

fn compile_in_memory(opts: &CompilationOptions) -> Result<CompileOutput, fib::diagnostics::CompilerError> {
    let frontend = run_frontend(opts);
    compile(opts, frontend, opts.source_override.as_deref())
}

fn resolve_with(src: &str, roots: Vec<String>, files: &[(&str, &str)]) -> Result<Vec<(Vec<String>, fib::frontend::typed_ast::TypedModule)>, DriverError> {
    let tokens = lex_source(src);
    let ast = parse_source(tokens, "t.fib", src).expect("parse");
    let mut resolver = ImportResolver::new(&ast, roots)?;
    while let Some(path) = resolver.request()? {
        resolver.supply(answer(&path, files))?;
    }
    Ok(resolver.into_resolved())
}

#[test]
fn validate_rejects_non_fib_extension() {
    let err = validate_path("main.c", false, Path::new("main.c").is_file()).unwrap_err();
    assert!(matches!(err, DriverError::NotFibFile(_)));
}

#[test]
fn validate_missing_file_errors() {
    let err = validate_path("does-not-exist.fib", false, Path::new("does-not-exist.fib").is_file()).unwrap_err();
    assert!(matches!(err, DriverError::NotAFile(_)));
}

#[test]
fn validate_source_override_skips_existence_check() {
    assert!(validate_path("virtual.fib", true, false).is_ok());
}

#[test]
fn frontend_runs_without_files_via_override() {
    let opts = test_opts("fn main() @int { return 0; }");
    let frontend = run_frontend(&opts).expect("frontend");
    assert_eq!(frontend.typed_program.declarations.len(), 1);
    assert!(!frontend.tokens.is_empty());
}

#[test]
fn frontend_preserves_parse_error_structurally() {
    let opts = test_opts("fn broken( @int { return 0; }");
    let err = run_frontend(&opts).unwrap_err();
    match err {
        DriverError::Parse(pe) => {
            assert!(!pe.message.is_empty());
            assert_eq!(pe.filename, "test.fib");
        }
        other => panic!("expected Parse, got {:?}", other),
    }
}

#[test]
fn frontend_reports_analysis_error() {
    let opts = test_opts("fn main() @int { return undefined_var; }");
    let err = run_frontend(&opts).unwrap_err();
    assert!(matches!(err, DriverError::Analysis(_)));
}

#[test]
fn compile_promotes_analysis_error_to_compiler_error_panel() {
    let src = "fn main() @int { return undefined_var; }";
    let mut opts = test_opts(src);
    opts.check_only = true;
    let err = compile_in_memory(&opts).unwrap_err();
    assert_eq!(err.kind, ErrorKind::Type);
    let text = err.render();
    assert!(text.starts_with("error[type]:"), "got: {}", text);
    assert!(text.contains("--> test.fib:1:"), "no location: {}", text);
    assert!(text.contains(src), "source line missing: {}", text);
    assert!(text.contains("^"), "caret missing: {}", text);
}

#[test]
fn check_project_succeeds_on_valid_source() {
    let opts = test_opts("fn main() @int { return 0; }");
    let frontend = check_project(&opts).expect("check");
    assert_eq!(frontend.ast.declarations.len(), 1);
}

#[test]
fn missing_import_fails_with_structured_error() {
    let opts = test_opts("import nosuch::definitely_missing_xyz\nfn main() @int { return 0; }");
    let err = run_frontend(&opts).unwrap_err();
    assert!(matches!(err, DriverError::ImportNotFound { .. }), "got {:?}", err);
}

#[test]
fn resolve_imports_missing_module_reports_searched_roots() {
    let err = resolve_with("import nosuch::mod\nfn main() @int { return 0; }", vec!["/nonexistent".to_string()], &[])
        .unwrap_err();
    match err {
        DriverError::ImportNotFound { module, .. } => assert_eq!(module, "nosuch::mod"),
        other => panic!("expected ImportNotFound, got {:?}", other),
    }
}

#[test]
fn resolve_imports_diamond_is_deduped() {
    // main -> {a, b}, a -> c, b -> c. c's decls must appear once after merge.
    let files = [
        ("proj/c.fib", "fn shared() @int { return 1; }"),
        ("proj/a.fib", "import c\nfn fa() @int { return c::shared(); }"),
        ("proj/b.fib", "import c\nfn fb() @int { return c::shared(); }"),
    ];
    let src = "import a\nimport b\nfn main() @int { return 0; }";
    let resolved = resolve_with(src, vec!["proj".to_string()], &files).expect("resolve");
    let has = |k: &str| resolved.iter().any(|(key, _)| key.join("::") == k);
    assert!(has("a"));
    assert!(has("b"));
    assert!(has("c"));

    let entry_ast = parse_source(lex_source(src), "main.fib", src).expect("parse");
    let entry_typed = analyze_entry(entry_ast, &resolved).expect("analyze");
    let merged = dedupe_declarations(
        entry_typed.imported_declarations.iter().map(|d| d.clone()).collect(),
        entry_typed.declarations.iter().map(|d| d.clone()).collect(),
    );
    let shared_count = merged.iter().filter(|d| decl_key(d) == "fn:shared").count();
    assert_eq!(
        shared_count,
        1,
        "diamond import emitted twice: {:?}",
        merged.iter().map(decl_key).collect::<Vec<_>>()
    );
}

#[test]
fn resolve_imports_circular_reports_full_stack() {
    let files = [
        ("proj/a.fib", "import b\nfn fa() @int { return 1; }"),
        ("proj/b.fib", "import a\nfn fb() @int { return 1; }"),
    ];
    let err = resolve_with("import a\nfn main() @int { return 0; }", vec!["proj".to_string()], &files).unwrap_err();
    match err {
        DriverError::CircularImport { stack } => assert_eq!(stack, vec!["a", "b", "a"]),
        other => panic!("expected CircularImport, got {:?}", other),
    }
}

#[test]
fn dedupe_local_shadows_imported() {
    let src = "fn main() @int { return 0; }";
    let mk = |name: &str| -> TypedDecl {
        let tokens = lex_source(&format!("fn {}() @int {{ return 1; }}", name));
        let ast = parse_source(tokens, "m.fib", src).expect("parse");
        let typed = analyze_entry(ast, &Vec::new()).expect("analyze");
        typed.declarations.into_iter().next().unwrap()
    };
    let imported_fn = mk("foo");
    let local_fn = mk("foo");
    let merged = dedupe_declarations(vec![imported_fn], vec![local_fn]);
    assert_eq!(merged.len(), 1);
}

#[test]
fn emit_kind_from_str() {
    assert_eq!(EmitKind::from_str("lex").unwrap(), EmitKind::Lex);
    assert_eq!(EmitKind::from_str("LLVM").unwrap(), EmitKind::Llvm);
    assert!(EmitKind::from_str("nope").is_err());
    assert!(EmitKind::Bin.needs_backend());
    assert!(!EmitKind::Typed.needs_backend());
}

#[test]
fn default_paths_derive_from_stem() {
    assert_eq!(default_binary_path("samples/hello.fib"), "out/hello");
    assert_eq!(default_llvm_path("samples/hello.fib"), "out/hello.ll");
}

#[test]
fn llvm_path_selection() {
    let input = "src.fib";
    let bin = "build/prog";
    let base = CompilationOptions::new(input.to_string());
    assert_eq!(llvm_output_path(&base, EmitKind::Llvm, bin, input).unwrap(), default_llvm_path(input));
    assert!(llvm_output_path(&base, EmitKind::Bin, bin, input).is_none());
    let mut keep = base.clone();
    keep.emit_llvm = true;
    assert_eq!(llvm_output_path(&keep, EmitKind::Bin, bin, input).unwrap(), "build/prog.ll");
    let mut explicit = base.clone();
    explicit.llvm_out = Some("x/y.ll".to_string());
    assert_eq!(llvm_output_path(&explicit, EmitKind::Bin, bin, input).unwrap(), "x/y.ll");
}

#[test]
fn invalid_opt_level_rejected() {
    let err = validate_opt_level("fast").unwrap_err();
    assert!(matches!(err, DriverError::InvalidOptLevel(_)));
    assert_eq!(validate_opt_level("2").unwrap(), "-O2");
}

#[test]
fn compile_frontend_emits_need_no_backend() {
    for emit in [EmitKind::Lex, EmitKind::Parse, EmitKind::Typed] {
        let mut opts = test_opts("fn main() @int { return 0; }");
        opts.emit = emit;
        let out = compile_in_memory(&opts).expect("frontend emit");
        match out {
            CompileOutput::Frontend { emit: e, .. } => assert_eq!(e, emit),
            _ => panic!("expected Frontend"),
        }
    }
}

#[test]
fn compile_check_only_overrides_emit() {
    let mut opts = test_opts("fn main() @int { return 0; }");
    opts.emit = EmitKind::Bin;
    opts.check_only = true;
    let out = compile_in_memory(&opts).expect("check");
    match out {
        CompileOutput::Frontend { emit, .. } => assert_eq!(emit, EmitKind::Typed),
        _ => panic!("expected Frontend"),
    }
}
