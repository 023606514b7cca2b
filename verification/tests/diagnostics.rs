use fib::diagnostics::{source_line_at, CompilerError, ErrorKind, Span};
use fib::frontend::analyze::AnalysisError;
use fib::frontend::parser::ParseError;

fn parse_err() -> ParseError {
    ParseError {
        filename: "broken.fib".to_string(),
        message: "expected an atom".to_string(),
        line: 3,
        column: 9,
        source_line: "  x := * 1".to_string(),
    }
}

#[test]
fn converts_parse_error_to_compiler_error() {
    let ce = CompilerError::from(parse_err());
    assert_eq!(ce.kind, ErrorKind::Parse);
    assert_eq!(ce.kind.tag(), "parse");
    assert_eq!(ce.span, Some(Span::new(3, 9)));
    assert_eq!(ce.filename.as_deref().unwrap(), "broken.fib");
    assert_eq!(ce.source_line.as_deref(), Some("  x := * 1"));
}

#[test]
fn converts_analysis_error_keeping_kind_and_hint() {
    let ae = AnalysisError::from("cannot assign to constant 'x'".to_string())
        .with_hint("declare the binding with `var` to make it mutable")
        .with_span(Span::new(7, 3));
    let ce = CompilerError::from(ae);
    assert_eq!(ce.kind, ErrorKind::Type);
    assert_eq!(ce.message, "cannot assign to constant 'x'");
    assert_eq!(ce.span, Some(Span::new(7, 3)));
    assert_eq!(ce.hint.as_deref(), Some("declare the binding with `var` to make it mutable"));
    assert!(ce.filename.is_none());
}

#[test]
fn renders_rustc_style_panel_with_caret_and_help() {
    let ce = CompilerError::from(parse_err()).with_hint("add a primary expression after the operator");
    let text = ce.render();
    assert!(text.starts_with("error[parse]: expected an atom"));
    assert!(text.contains("--> broken.fib:3:9"));
    assert!(text.contains("3 |   x := * 1"));
    assert!(text.contains("^"));
    assert!(text.contains("= help: add a primary expression after the operator"));
}

#[test]
fn renders_plain_when_no_span() {
    let ce = CompilerError::new(ErrorKind::Backend, "lowering failed: unhandled node".to_string())
        .with_hint("this construct is not supported by the IR backend yet");
    assert_eq!(
        ce.render(),
        "error[backend]: lowering failed: unhandled node\n  = help: this construct is not supported by the IR backend yet"
    );
}

#[test]
fn extracts_one_based_source_lines() {
    let src = "one\n  two\n\tthree\n";
    assert_eq!(source_line_at(src, 1).as_deref(), Some("one"));
    assert_eq!(source_line_at(src, 2).as_deref(), Some("  two"));
    assert_eq!(source_line_at(src, 3).as_deref(), Some("\tthree"));
    assert_eq!(source_line_at(src, 0), None);
    assert_eq!(source_line_at(src, 4), None);
}

#[test]
fn display_matches_render() {
    // The rendering is the error's text: rendering twice gives the same text.
    let ce = CompilerError::from(parse_err());
    assert_eq!(ce.render(), ce.clone().render());
}
