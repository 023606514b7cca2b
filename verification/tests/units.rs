use fib::backend::lowering::error::LowerError;
use fib::diagnostics::ErrorKind;
use fib::driver::paths::{file_stem_or_default, join_path, module_candidate_paths, set_extension};
use fib::driver::{
    binary_output_path, cc_candidates, dedupe_declarations, decl_key, validate_opt_level, CompilationOptions, DriverError, EmitKind,
};
use fib::frontend::analyze::analyze;
use fib::frontend::analyze::coerce::describe_type;
use fib::frontend::analyze::escapes::process_escape_sequences;
use fib::frontend::lexer::lex;
use fib::frontend::parser::Parser;
use fib::frontend::tokens::{BuiltinType, Identifier};
use fib::frontend::typed_ast::{Ty, TypedDecl, TypedProgram, TypedTypeDecl};

fn typed(source: &str) -> Result<TypedProgram, String> {
    let tokens = lex(source);
    let mut parser = Parser::new(tokens, "test", source.to_string());
    let ast = parser.parse().expect("parse failed");
    analyze(ast, &Vec::new()).map_err(|e| e.message)
}

// ── escape sequences ─────────────────────────────────────────────────────

#[test]
fn escapes_stand_for_their_characters() {
    assert_eq!(process_escape_sequences("hello").unwrap(), "hello");
    assert_eq!(process_escape_sequences("a\\nb").unwrap(), "a\nb");
    assert_eq!(process_escape_sequences("\\t\\r\\0").unwrap(), "\t\r\0");
    assert_eq!(process_escape_sequences("\\\\ \\' \\\"").unwrap(), "\\ ' \"");
    assert_eq!(process_escape_sequences("\\x41\\x7a").unwrap(), "Az");
    assert_eq!(process_escape_sequences("\\u{48}\\u{1F600}").unwrap(), "H\u{1F600}");
    assert_eq!(process_escape_sequences("").unwrap(), "");
}

#[test]
fn malformed_escapes_are_rejected() {
    assert!(process_escape_sequences("\\q").is_err());
    assert!(process_escape_sequences("trailing \\").is_err());
    assert!(process_escape_sequences("\\x4").is_err());
    assert!(process_escape_sequences("\\xzz").is_err());
    assert!(process_escape_sequences("\\u{}").is_err());
    assert!(process_escape_sequences("\\u{D800}").is_err());
    assert!(process_escape_sequences("\\u{110000}").is_err());
    assert!(process_escape_sequences("\\u{41").is_err());
    assert!(process_escape_sequences("\\u41").is_err());
}

// ── type descriptions and coercion ───────────────────────────────────────

#[test]
fn types_are_described_as_written() {
    let int4 = || Ty::Builtin(BuiltinType::Int4);
    assert_eq!(describe_type(&int4()), "@int4");
    assert_eq!(describe_type(&Ty::Pointer(Box::new(int4()))), "*@int4");
    assert_eq!(describe_type(&Ty::Array { element_type: Box::new(int4()), size: 2 }), "@int4[2]");
    assert_eq!(
        describe_type(&Ty::Tuple { elements: vec![int4(), Ty::Builtin(BuiltinType::Boolean)] }),
        "(@int4, @bool)"
    );
    assert_eq!(describe_type(&Ty::Identifier(Identifier::from_str("Point"))), "Point");
}

#[test]
fn integer_literals_coerce_to_declared_integer_types() {
    assert!(typed("fn f() { var @int8 x = 1 }").is_ok());
    assert!(typed("fn f() { var @uint2 x = 7 }").is_ok());
    let err = typed("fn f() { var @bool b = 1 }").unwrap_err();
    assert!(err.contains("@bool"), "message names the target type: {}", err);
}

#[test]
fn generic_instantiations_follow_in_name_order() {
    let cu = typed(
        "fn id(T: type, x: T) T { return x }\nfn main() @int4 { a := id(@int8, 1)\n b := id(@int2, 2)\n c := id(@int8, 3)\n return 0 }",
    )
    .expect("analysis");
    let names: Vec<String> = cu
        .declarations
        .iter()
        .filter_map(|d| match d {
            TypedDecl::Function(f) if f.name.value != "main" => Some(f.name.value.clone()),
            _ => None,
        })
        .collect();
    assert_eq!(names.len(), 2, "one instantiation per distinct type: {:?}", names);
    let mut sorted = names.clone();
    sorted.sort();
    assert_eq!(names, sorted);
}

// ── declaration merging ──────────────────────────────────────────────────

fn type_decl(name: &str) -> TypedDecl {
    TypedDecl::Type(TypedTypeDecl { name: Identifier::from_str(name), ty: Ty::Builtin(BuiltinType::Int4) })
}

#[test]
fn merged_declarations_have_distinct_keys() {
    let imported = vec![type_decl("a"), type_decl("b"), type_decl("a"), type_decl("c")];
    let local = vec![type_decl("b"), type_decl("d")];
    let merged = dedupe_declarations(imported, local);
    let keys: Vec<String> = merged.iter().map(decl_key).collect();
    assert_eq!(keys, vec!["type:a", "type:c", "type:b", "type:d"]);
}

// ── paths and options ────────────────────────────────────────────────────

#[test]
fn module_candidates_try_full_path_then_last_names() {
    let path = vec!["std".to_string(), "io".to_string()];
    let roots = vec!["lib".to_string(), "/usr/fib".to_string()];
    assert_eq!(
        module_candidate_paths(&path, &roots),
        vec!["lib/std/io.fib", "lib/io.fib", "/usr/fib/std/io.fib", "/usr/fib/io.fib"]
    );
    assert_eq!(module_candidate_paths(&vec!["m".to_string()], &vec!["src".to_string()]), vec!["src/m.fib"]);
}

#[test]
fn path_pieces() {
    assert_eq!(file_stem_or_default("dir/main.fib"), "main");
    assert_eq!(file_stem_or_default("dir/"), "dir");
    assert_eq!(file_stem_or_default("a/."), "a");
    assert_eq!(file_stem_or_default(".."), "a");
    assert_eq!(file_stem_or_default(""), "a");
    assert_eq!(file_stem_or_default(".hidden"), ".hidden");
    assert_eq!(set_extension("dir/prog/", "ll"), "dir/prog.ll");
    assert_eq!(set_extension("out/prog", "ll"), "out/prog.ll");
    assert_eq!(set_extension("out/prog.bin", "ll"), "out/prog.ll");
    assert_eq!(join_path("root", "x.fib"), "root/x.fib");
}

#[test]
fn output_path_prefers_explicit_output() {
    let mut opts = CompilationOptions::new("src/main.fib".to_string());
    assert_eq!(binary_output_path(&opts, "src/main.fib"), "out/main");
    opts.output = Some("build/app".to_string());
    assert_eq!(binary_output_path(&opts, "src/main.fib"), "build/app");
}

#[test]
fn opt_levels_become_clang_flags() {
    for (level, flag) in [("0", "-O0"), ("1", "-O1"), ("2", "-O2"), ("3", "-O3"), ("s", "-Os"), ("z", "-Oz")] {
        assert_eq!(validate_opt_level(level).unwrap(), flag);
    }
    for bad in ["4", "fast", "", "O2"] {
        match validate_opt_level(bad) {
            Err(DriverError::InvalidOptLevel(l)) => assert_eq!(l, bad),
            other => panic!("expected InvalidOptLevel for {:?}, got {:?}", bad, other),
        }
    }
}

#[test]
fn emit_kinds_round_trip_through_their_names() {
    for kind in [EmitKind::Lex, EmitKind::Parse, EmitKind::Typed, EmitKind::Llvm, EmitKind::Bin] {
        assert_eq!(EmitKind::parse_name(kind.name()).unwrap(), kind);
    }
    assert_eq!(EmitKind::parse_name("LLVM").unwrap(), EmitKind::Llvm);
    assert!(EmitKind::parse_name("nope").is_err());
    assert!(EmitKind::Llvm.needs_backend());
    assert!(!EmitKind::Typed.needs_backend());
}

#[test]
fn driver_errors_report_their_stage() {
    let c = DriverError::CircularImport { stack: vec!["a".to_string(), "b".to_string(), "a".to_string()] }
        .into_compiler_error();
    assert_eq!(c.kind, ErrorKind::Name);
    assert!(c.message.contains("a -> b -> a"), "{}", c.message);
    let c = DriverError::InvalidOptLevel("9".to_string()).into_compiler_error();
    assert_eq!(c.kind, ErrorKind::Toolchain);
}

// ── lowering errors ──────────────────────────────────────────────────────

#[test]
fn lowering_errors_render_each_form() {
    assert_eq!(
        LowerError::missing_block("call", Some("f".to_string()), Some(7)).render(),
        "lowering 'call' in function 'f' at line 7: no insert block"
    );
    assert_eq!(
        LowerError::missing_block("call", Some("f".to_string()), None).render(),
        "lowering 'call' in function 'f': no insert block"
    );
    assert_eq!(
        LowerError::missing_block("call", None, Some(12)).render(),
        "lowering 'call' at line 12: no insert block"
    );
    assert_eq!(LowerError::unknown_layout("Missing").render(), "UnknownLayout: Missing");
    assert_eq!(LowerError::unsupported("no slices").render(), "no slices");
    assert_eq!(LowerError::llvm("builder failed").render(), "builder failed");
}

// ── toolchain and error texts ────────────────────────────────────────────

#[test]
fn cc_candidates_respect_explicit_and_env() {
    // Explicit --cc wins over everything.
    assert_eq!(cc_candidates(Some("/opt/clang"), Some("gcc")), vec!["/opt/clang"]);
    // Default falls back clang-17 -> clang.
    assert_eq!(cc_candidates(None, None), vec!["clang-17", "clang"]);
    // `$CC` contributes its program name only.
    assert_eq!(cc_candidates(None, Some("  gcc-13 -O2")), vec!["gcc-13"]);
    assert_eq!(cc_candidates(None, Some(" \t ")), vec!["clang-17", "clang"]);
}

#[test]
fn driver_errors_read_as_the_command_line_shows_them() {
    assert_eq!(DriverError::NotFibFile("main.c".to_string()).describe(), "Not a fib file: \"main.c\"");
    assert_eq!(DriverError::NotAFile("a b.fib".to_string()).describe(), "Not a file: \"a b.fib\"");
    assert_eq!(
        DriverError::CircularImport { stack: vec!["a".to_string(), "b".to_string(), "a".to_string()] }.describe(),
        "circular import detected: a -> b -> a"
    );
    assert_eq!(
        DriverError::ImportNotFound { module: "std::io".to_string(), searched: vec!["src".to_string(), "lib".to_string()] }
            .describe(),
        "cannot read module 'std::io': No such file or directory (searched: src, lib)"
    );
    assert_eq!(
        DriverError::Link { status: "exit status: 1".to_string(), stdout: " \n".to_string(), stderr: "boom".to_string() }
            .describe(),
        "clang failed with status exit status: 1\n--- stderr ---\nboom"
    );
    assert_eq!(
        DriverError::InvalidOptLevel("9".to_string()).describe(),
        "Invalid opt level '9': expected one of 0,1,2,3,s,z"
    );
    let ae = fib::frontend::analyze::AnalysisError::from_str("undefined identifier 'x'").with_line(3);
    assert_eq!(ae.describe(), "AnalysisError at line 3: undefined identifier 'x'");
    assert_eq!(DriverError::Analysis(ae).describe(), "Analysis failed: AnalysisError at line 3: undefined identifier 'x'");
}

#[test]
fn parse_errors_point_at_their_column() {
    let pe = fib::frontend::parser::ParseError {
        filename: "main.fib".to_string(),
        message: "expected ')'".to_string(),
        line: 2,
        column: 5,
        source_line: "foo(1".to_string(),
    };
    assert_eq!(pe.describe(), "\"main.fib\":2:5:\nexpected ')'\n\tfoo(1\n\t    ^\n");
    let far = fib::frontend::parser::ParseError { column: 40, ..pe };
    assert!(far.describe().ends_with("\n\tfoo(1\n\t     ^\n"));
}

#[test]
fn stage_messages_of_driver_errors() {
    let c = DriverError::NotFibFile("main.c".to_string()).into_compiler_error();
    assert_eq!(c.message, "not a fib file: main.c");
    assert_eq!(c.kind, ErrorKind::Io);
    let c = DriverError::Link { status: "1".to_string(), stdout: "out".to_string(), stderr: "".to_string() }
        .into_compiler_error();
    assert_eq!(c.message, "clang failed with status 1\n--- stdout ---\nout");
}

// ── expressions: enums, structs and calls ────────────────────────────────

#[test]
fn enum_variants_read_as_literals() {
    let cu = typed("type Color enum { Red, Green, Blue }\nfn f() { c: Color = Color.Green }").expect("analysis");
    let f = cu
        .declarations
        .iter()
        .find_map(|d| match d {
            TypedDecl::Function(f) if f.name.value == "f" => Some(f),
            _ => None,
        })
        .expect("f");
    match &f.body[0] {
        fib::frontend::typed_ast::TypedStatement::Binding(b) => match &b.init {
            Some(init) => match &init.expression {
                fib::frontend::typed_ast::TypedExprKind::EnumLiteral { enum_name, variant, discriminant } => {
                    assert_eq!(enum_name, "Color");
                    assert_eq!(variant, "Green");
                    assert_eq!(*discriminant, 1);
                }
                other => panic!("expected an enum literal, got {:?}", other),
            },
            None => panic!("expected an initializer"),
        },
        other => panic!("expected a binding, got {:?}", other),
    }
    let err = typed("type Color enum { Red }\nfn f() { c: Color = Color.Purple }").unwrap_err();
    assert!(err.contains("no variant"), "{}", err);
}

#[test]
fn struct_construction_needs_every_declared_field() {
    let src = "type Point struct { x: @int4, y: @int4 }\nfn f() { p: Point = Point { y: 2, x: 1 } }";
    assert!(typed(src).is_ok());
    let err = typed("type Point struct { x: @int4, y: @int4 }\nfn f() { p: Point = Point { x: 1 } }").unwrap_err();
    assert!(err.contains("missing field"), "{}", err);
    let err = typed("fn f() { p := Nope { x: 1 } }").unwrap_err();
    assert!(err.contains("Nope"), "{}", err);
}

#[test]
fn generic_calls_name_their_instance() {
    let cu = typed("fn id(T: type, x: T) T { return x }\nfn main() @int4 { a := id(@int8, 1)\n return 0 }")
        .expect("analysis");
    let names: Vec<String> = cu
        .declarations
        .iter()
        .filter_map(|d| match d {
            TypedDecl::Function(f) => Some(f.name.value.clone()),
            _ => None,
        })
        .collect();
    assert!(names.contains(&"id__@int8".to_string()), "{:?}", names);
}

#[test]
fn payload_variants_are_built_field_by_field() {
    let src = "type Shape enum { Circle { r: @int4 }, Empty }\nfn f() { s: Shape = Shape.Circle { r: 1 } }";
    let cu = typed(src).expect("analysis");
    let f = cu
        .declarations
        .iter()
        .find_map(|d| match d {
            TypedDecl::Function(f) if f.name.value == "f" => Some(f),
            _ => None,
        })
        .expect("f");
    match &f.body[0] {
        fib::frontend::typed_ast::TypedStatement::Binding(b) => match &b.init {
            Some(init) => match &init.expression {
                fib::frontend::typed_ast::TypedExprKind::EnumVariantConstruct { enum_name, variant, discriminant, fields, .. } => {
                    assert_eq!(enum_name, "Shape");
                    assert_eq!(variant, "Circle");
                    assert_eq!(*discriminant, 0);
                    assert_eq!(fields.len(), 1);
                    assert_eq!(fields[0].0, "r");
                }
                other => panic!("expected a variant construction, got {:?}", other),
            },
            None => panic!("expected an initializer"),
        },
        other => panic!("expected a binding, got {:?}", other),
    }
    let err = typed("type Shape enum { Circle { r: @int4 }, Empty }\nfn f() { s: Shape = Shape.Circle { q: 1 } }").unwrap_err();
    assert!(err.contains("no payload field"), "{}", err);
}

#[test]
fn switch_over_an_enum_must_cover_every_variant() {
    let err = typed("type Color enum { Red, Green, Blue }\nfn f(c: Color) { switch c { when .Red {} } }").unwrap_err();
    assert_eq!(err, "switch on enum is not exhaustive: missing variant(s) Green, Blue (add `when _` or cover them)");
    assert!(typed("type Color enum { Red, Green }\nfn f(c: Color) { switch c { when .Red {} when .Green {} } }").is_ok());
    assert!(typed("type Color enum { Red, Green }\nfn f(c: Color) { switch c { when .Red {} when _ {} } }").is_ok());
}

#[test]
fn escape_errors_name_the_escape() {
    let err = typed("fn f() { s := \"a\\qb\" }").unwrap_err();
    assert_eq!(err, "unknown escape sequence \\q");
    let err = typed("fn f() { s := \"\\xZZ\" }").unwrap_err();
    assert_eq!(err, "invalid hex escape \\xZZ");
}

#[test]
fn loops_and_assignments_report_their_errors() {
    let err = typed("fn f() { break }").unwrap_err();
    assert_eq!(err, "`break` is only allowed inside a loop");
    let err = typed("fn f() { x = 1 }").unwrap_err();
    assert_eq!(err, "assignment to undeclared variable 'x'");
    assert!(typed("fn f() { for (;;) { break continue } }").is_ok());
}

#[test]
fn functions_with_plain_bodies_analyze() {
    assert!(typed("fn add(a: @int4, b: @int4) @int4 { return a }").is_ok());
    let err = typed("fn f() @int4 { return undefined_var }").unwrap_err();
    assert_eq!(err, "expr_to_typed: identifier undefined_var not found in scope");
    let err = typed("fn f() @int4 { return }").unwrap_err();
    assert_eq!(err, "return type mismatch: function returns @int4 but `return` has no value");
}

#[test]
fn operator_errors_name_the_operator() {
    let err = typed("fn f() { a: @bool = true\n b := a + 1 }").unwrap_err();
    assert_eq!(err, "operator Plus requires numeric operands, got @bool");
    let err = typed("fn f() { b := @str_len(5) }").unwrap_err();
    assert_eq!(err, "@str_len: argument 1 expects type @string, but found @int4");
}

#[test]
fn calls_of_declared_functions_are_typed() {
    assert!(typed("fn add(a: @int4, b: @int4) @int4 { return a }\nfn g() @int4 { return add(1, 2) }").is_ok());
    let err = typed("fn add(a: @int4, b: @int4) @int4 { return a }\nfn g() @int4 { return add(1) }").unwrap_err();
    assert!(err.contains("add"), "{}", err);
}

#[test]
fn a_jump_outside_a_loop_fails_at_its_line() {
    let source = "fn g() @int4 { return 0 }\nfn f() {\n\nbreak\n}";
    let tokens = lex(source);
    let mut parser = Parser::new(tokens, "test", source.to_string());
    let ast = parser.parse().expect("parse failed");
    let err = analyze(ast, &Vec::new()).unwrap_err();
    assert_eq!(err.message, "`break` is only allowed inside a loop");
    assert_eq!(err.span.map(|s| s.line), Some(4));
}

fn first_function(source: &str) -> fib::frontend::ast::FunctionDeclaration {
    let tokens = lex(source);
    let mut parser = Parser::new(tokens, "test", source.to_string());
    let ast = parser.parse().expect("parse failed");
    for d in ast.declarations {
        if let fib::frontend::ast::DeclarationNode::FunctionDeclaration(f) = d {
            return f;
        }
    }
    panic!("no function in {}", source)
}

#[test]
fn a_failing_function_leaves_the_scope_as_it_was() {
    let f = first_function("fn f(a: @int4) @int4 { return zz }");
    let mut scope = fib::frontend::typed_ast::SymbolTable::new();
    let mut cache = fib::frontend::analyze::cache::GenericCache::new();
    let r = fib::frontend::analyze::functions::func_to_typed(f, &mut scope, &mut cache, 64);
    assert!(r.is_err());
    assert_eq!(scope.scopes.len(), 1);
    assert!(scope.lookup(&Identifier { value: "a".to_string() }).is_none());
}

#[test]
fn loops_keep_their_condition_and_bindings_their_types() {
    let p = typed("fn f() { for (i := 0; i < 3; i = i + 1) { break } }").unwrap();
    let mut saw_for = false;
    for d in &p.declarations {
        if let TypedDecl::Function(func) = d {
            for s in &func.body {
                if let fib::frontend::typed_ast::TypedStatement::For { init, cond, post, body } = s {
                    saw_for = true;
                    assert!(init.is_some());
                    assert!(cond.is_some());
                    assert!(post.is_some());
                    assert_eq!(body.len(), 1);
                }
            }
        }
    }
    assert!(saw_for);
    assert!(typed("fn f() { x: @int8 = 5 }").is_ok());
    let err = typed("fn f() { x: @bool = 5 }").unwrap_err();
    assert!(err.contains("does not match declared type"), "{}", err);
}

#[test]
fn field_reads_have_the_field_type() {
    assert!(typed("type Point struct { x: @int4, y: @int4 }\nfn f() @int4 { p: Point = Point { x: 1, y: 2 }\nreturn p.y }").is_ok());
    let err = typed("type Point struct { x: @int4, y: @int4 }\nfn f() @bool { p: Point = Point { x: 1, y: 2 }\nreturn p.y }")
        .unwrap_err();
    assert!(err.contains("return type mismatch"), "{}", err);
}

#[test]
fn arrays_of_enum_values_and_field_reads_type() {
    assert!(typed("type Color enum { Red, Green, Blue }\nfn f() { c := [Color.Red, Color.Blue] }").is_ok());
    assert!(typed("type Point struct { x: @int4, y: @int4 }\nfn f() { p: Point = Point { x: 1, y: 2 }\nv := [p.x, p.y, 3] }").is_ok());
    let err = typed("type Point struct { x: @int4, y: @int4 }\nfn f() { p: Point = Point { x: 1, y: 2 }\nv := [p.x, \"s\"] }")
        .unwrap_err();
    assert!(err.contains("incompatible type"), "{}", err);
}
