use fib::driver::imports::{FileEvent, ImportResolver};
use fib::driver::{
    analyze_entry, decl_key, dedupe_declarations, lex_source, parse_source, CompilationOptions, DriverError, EmitKind,
    FrontendResponse, FrontendRun,
};
use fib::frontend::typed_ast::TypedModule;

/// A file on an in-memory disk: its path, text, and canonical path.
type File<'a> = (&'a str, &'a str, &'a str);

fn answer(path: &str, files: &[File]) -> FileEvent {
    match files.iter().find(|(p, _, _)| *p == path) {
        Some((_, content, canonical)) => FileEvent::Read { content: content.to_string(), canonical: canonical.to_string() },
        None => FileEvent::NotFound { message: "No such file or directory".to_string() },
    }
}

fn resolve(src: &str, roots: &[&str], files: &[File]) -> Result<Vec<(Vec<String>, TypedModule)>, DriverError> {
    let ast = parse_source(lex_source(src), "main.fib", src).expect("parse");
    let mut resolver = ImportResolver::new(&ast, roots.iter().map(|r| r.to_string()).collect())?;
    while let Some(path) = resolver.request()? {
        resolver.supply(answer(&path, files))?;
    }
    Ok(resolver.into_resolved())
}

fn module<'a>(resolved: &'a [(Vec<String>, TypedModule)], key: &str) -> &'a TypedModule {
    &resolved.iter().find(|(k, _)| k.join("::") == key).unwrap_or_else(|| panic!("{} not resolved", key)).1
}

fn frontend(main: &str, roots: &[&str], files: &[File]) -> Result<FrontendResponse, DriverError> {
    let mut opts = CompilationOptions::new("proj/main.fib".to_string());
    opts.include_paths = roots.iter().map(|r| r.to_string()).collect();
    opts.emit = EmitKind::Typed;
    let mut run = FrontendRun::start(&opts, main.to_string())?;
    while let Some(path) = run.next_file()? {
        run.file_read(answer(&path, files))?;
    }
    run.finish()
}

#[test]
fn roots_are_searched_in_order() {
    let files = [
        ("a/mymod.fib", "fn a() @int { return 1; }", "a/mymod.fib"),
        ("b/mymod.fib", "fn b() @int { return 2; }", "b/mymod.fib"),
    ];
    let resolved = resolve("import mymod\nfn main() @int { return 0; }", &["a", "b"], &files).expect("resolve");
    let m = module(&resolved, "mymod");
    assert_eq!(m.declarations.len(), 1);
    assert_eq!(decl_key(&m.declarations[0]), "fn:a");
}

#[test]
fn path_without_first_name_is_tried_next() {
    // `import std::io` with the std directory as a root finds `<std>/io.fib`.
    let files = [("stdroot/io.fib", "fn x() @int { return 1; }", "stdroot/io.fib")];
    let resolved = resolve("import std::io\nfn main() @int { return 0; }", &["stdroot"], &files).expect("resolve");
    assert_eq!(decl_key(&module(&resolved, "std::io").declarations[0]), "fn:x");
}

#[test]
fn two_spellings_of_one_file_share_its_module() {
    let files = [("proj/top/m.fib", "fn shared() @int { return 1; }", "/abs/proj/top/m.fib")];
    let src = "import top::m\nimport m\nfn main() @int { return 0; }";
    let resolved = resolve(src, &["proj", "proj/top"], &files).expect("resolve");
    let full: Vec<String> = module(&resolved, "top::m").declarations.iter().map(decl_key).collect();
    let short: Vec<String> = module(&resolved, "m").declarations.iter().map(decl_key).collect();
    assert_eq!(full, short);

    let entry_ast = parse_source(lex_source(src), "main.fib", src).expect("parse");
    let entry_typed = analyze_entry(entry_ast, &resolved).expect("analyze");
    let merged = dedupe_declarations(
        entry_typed.imported_declarations.iter().map(|d| d.clone()).collect(),
        entry_typed.declarations.iter().map(|d| d.clone()).collect(),
    );
    assert_eq!(merged.iter().filter(|d| decl_key(d) == "fn:shared").count(), 1);
}

#[test]
fn unreadable_first_candidate_is_an_import_read_error() {
    let src = "import broken\nfn main() @int { return 0; }";
    let ast = parse_source(lex_source(src), "main.fib", src).expect("parse");
    let mut resolver = ImportResolver::new(&ast, vec!["proj".to_string()]).expect("resolver");
    let path = resolver.request().expect("request").expect("a file is requested");
    assert_eq!(path, "proj/broken.fib");
    match resolver.supply(FileEvent::Failed { message: "Is a directory".to_string() }) {
        Err(DriverError::ImportRead { module, path, message }) => {
            assert_eq!(module, "broken");
            assert_eq!(path, "proj/broken.fib");
            assert_eq!(message, "Is a directory");
        }
        Ok(()) => match resolver.request() {
            Err(DriverError::ImportRead { module, .. }) => assert_eq!(module, "broken"),
            other => panic!("expected ImportRead, got {:?}", other),
        },
        Err(other) => panic!("expected ImportRead, got {:?}", other),
    }
}

#[test]
fn diamond_imports_merge_to_one_definition() {
    let files = [
        ("proj/c.fib", "fn shared() @int { return 1; }", "proj/c.fib"),
        ("proj/a.fib", "import c\nfn fa() @int { return c::shared(); }", "proj/a.fib"),
        ("proj/b.fib", "import c\nfn fb() @int { return c::shared(); }", "proj/b.fib"),
    ];
    let f = frontend("import a\nimport b\nfn main() @int { return a::fa() + b::fb(); }", &[], &files)
        .expect("frontend");
    let pre = f.typed_program.imported_declarations.iter().filter(|d| decl_key(d) == "fn:shared").count();
    assert_eq!(pre, 2, "the diamond duplicates `shared` before merging");
    let merged = dedupe_declarations(
        f.typed_program.imported_declarations.iter().map(|d| d.clone()).collect(),
        f.typed_program.declarations.iter().map(|d| d.clone()).collect(),
    );
    let mut keys: Vec<String> = merged.iter().map(decl_key).collect();
    let n = keys.len();
    keys.sort();
    keys.dedup();
    assert_eq!(keys.len(), n, "a key survives twice");
    assert_eq!(merged.iter().filter(|d| decl_key(d) == "fn:shared").count(), 1);
}

#[test]
fn each_module_is_resolved_once() {
    let files = [
        ("proj/c.fib", "fn shared() @int { return 1; }", "proj/c.fib"),
        ("proj/a.fib", "import c\nfn fa() @int { return 1; }", "proj/a.fib"),
        ("proj/b.fib", "import c\nimport a\nfn fb() @int { return 1; }", "proj/b.fib"),
    ];
    let resolved = resolve("import a\nimport b\nimport c\nfn main() @int { return 0; }", &["proj"], &files)
        .expect("resolve");
    let mut keys: Vec<String> = resolved.iter().map(|(k, _)| k.join("::")).collect();
    keys.sort();
    assert_eq!(keys, vec!["a", "b", "c"]);
}
