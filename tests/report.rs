use gladest::needs_inplace_modification;
use gladest::pipeline::{FormulaError, RenderError};
use gladest::report::{push_indented, render_error_span, CompileError, Diagnostic, TracePoint};
use gladest::{extract_detailed_error, format_formula_error};

fn chain() -> RenderError {
    RenderError {
        message: "Failed to encode PNG for formula: x".to_string(),
        causes: vec!["out of memory".to_string(), "allocator\nrefused".to_string()],
    }
}

#[test]
fn detailed_error_lists_causes() {
    assert_eq!(
        extract_detailed_error(&chain()),
        "Main error: Failed to encode PNG for formula: x\n  Cause 1: out of memory\n  Cause 2: allocator\nrefused"
    );
    let bare = RenderError { message: "m".to_string(), causes: vec![] };
    assert_eq!(extract_detailed_error(&bare), "Main error: m");
}

#[test]
fn formula_error_report_short_and_verbose() {
    let e = FormulaError { formula: "x^".to_string(), error: chain(), formula_index: 4 };
    assert_eq!(
        format_formula_error(&e, false),
        "❌ Formula #5 failed to render:\n   Formula: x^\n   Error: Failed to encode PNG for formula: x\n"
    );
    assert_eq!(
        format_formula_error(&e, true),
        "❌ Formula #5 failed to render:\n   Formula: x^\n   Error details:\n     Main error: Failed to encode PNG for formula: x\n       Cause 1: out of memory\n       Cause 2: allocator\n     refused\n"
    );
}

#[test]
fn formula_error_report_cuts_long_formula() {
    let formula = "y".repeat(120);
    let e = FormulaError {
        formula: formula.clone(),
        error: RenderError { message: "m".to_string(), causes: vec![] },
        formula_index: 0,
    };
    let text = format_formula_error(&e, false);
    assert!(text.contains(&format!("   Formula: {}...\n", "y".repeat(97))));
}

#[test]
fn indented_lines_follow_line_ends() {
    let mut out = String::new();
    push_indented(&mut out, "a\r\nb\n\nc", "> ");
    assert_eq!(out, "> a\n> b\n> \n> c\n");
    let mut out = String::new();
    push_indented(&mut out, "one\n", "-");
    assert_eq!(out, "-one\n");
    let mut out = String::from("x");
    push_indented(&mut out, "", "-");
    assert_eq!(out, "x");
}

#[test]
fn compile_diagnostics_keep_trace_and_hints() {
    let e = CompileError::Diagnostics(vec![
        Diagnostic {
            severity: "Error".to_string(),
            message: "unknown variable: foo".to_string(),
            location: Some("main.typ".to_string()),
            trace: vec![
                TracePoint { description: "error occurred in this call".to_string(), location: Some("lib.typ".to_string()) },
                TracePoint { description: "while showing".to_string(), location: None },
            ],
            hints: vec!["check the spelling".to_string()],
        },
        Diagnostic {
            severity: "Warning".to_string(),
            message: "unused".to_string(),
            location: None,
            trace: vec![],
            hints: vec![],
        },
    ]);
    assert_eq!(
        e.describe("foo"),
        "Failed to compile the formula\n\nError #1: unknown variable: foo\n  Location: main.typ\n  Trace:\n    - error occurred in this call: at lib.typ\n    - while showing: at detached span or nil FileId\n  Hints:\n    - check the spelling\n\nWarning #2: unused\n  Location: No specific source file associated (detached span or nil FileId).\n"
    );
    assert_eq!(
        CompileError::Diagnostics(vec![]).describe("f"),
        "Failed to compile the formula\nCompilation failed with unspecified diagnostics.\n"
    );
}

#[test]
fn compile_errors_of_other_kinds() {
    assert_eq!(
        CompileError::FileError("not found".to_string()).describe("x"),
        "File Error while processing formula 'x': not found\n"
    );
    assert_eq!(
        CompileError::MainSourceMissing("FileId(1)".to_string(), "main.typ".to_string()).describe("x"),
        "Main source file not found for formula 'x': FileId(1).\n  Path (vpath): main.typ\n"
    );
    assert_eq!(
        CompileError::Hinted("bad".to_string(), vec!["h1".to_string(), "h2".to_string()]).describe("x"),
        "Error processing formula 'x': bad\n  Hints:\n    - h1\n    - h2\n"
    );
    assert_eq!(
        CompileError::Hinted("bad".to_string(), vec![]).describe("x"),
        "Error processing formula 'x': bad\n"
    );
    assert_eq!(
        CompileError::Unspecified("?".to_string()).describe("x"),
        "Unspecified error for formula 'x': ?\n"
    );
}

#[test]
fn binding_error_span_escapes() {
    assert_eq!(
        render_error_span("a<b", "x & \"y\""),
        "<span class=\"gladst-error\" title=\"x &amp; &quot;y&quot;\">Gladst Error: Failed to render formula. Check console. Formula: a&lt;b</span>"
    );
}

#[test]
fn html_documents_are_rewritten_in_place() {
    assert!(needs_inplace_modification("docs/page.html"));
    assert!(needs_inplace_modification("page.htm"));
    assert!(needs_inplace_modification("a/b.xhtml"));
    assert!(!needs_inplace_modification("doc.htex"));
    assert!(!needs_inplace_modification("README"));
    assert!(!needs_inplace_modification("page.HTML"));
}

#[test]
fn formula_error_report_cuts_at_byte_limit() {
    let formula = format!("é{}", "a".repeat(99));
    let e = FormulaError {
        formula,
        error: RenderError { message: "m".to_string(), causes: vec![] },
        formula_index: 1,
    };
    let text = format_formula_error(&e, false);
    assert!(text.contains(&format!("   Formula: é{}...\n", "a".repeat(95))));
}
