use agiworkforce::code_editing::{generate_diff, get_file_diff};
use agiworkforce::debugging::{
    extract_json, fix_prompt, parse_error_text, parse_python_error, parse_rust_error,
    stack_trace_prompt, ErrorSeverity, ParsedError, StackFrame,
};
use agiworkforce::design::{
    accessibility_prompt, build_css_generation_prompt, color_scheme_prompt,
    design_tokens_to_css, extract_json_from_response, generate_accessibility_notes,
    improvements_prompt, parse_css_response, DesignConstraints, DesignContext, DesignRequest,
    DesignTokens,
};
use agiworkforce::diff::{apply_diff, compute_diff};

#[test]
fn rust_error_is_parsed() {
    let text = "error[E0425]: cannot find value `x` in this scope\n --> src/main.rs:10:5\n";
    let p = parse_rust_error(text).unwrap();
    assert_eq!(p.error_type, "E0425");
    assert_eq!(p.message, "cannot find value `x` in this scope");
    assert_eq!(p.file_path, Some("src/main.rs".to_string()));
    assert_eq!(p.line, Some(10));
    assert_eq!(p.column, Some(5));
    assert!(p.stack_trace.is_empty());
    assert!(matches!(p.severity, ErrorSeverity::High));
}

#[test]
fn python_traceback_is_parsed() {
    let text = "Traceback (most recent call last):\n  File \"app.py\", line 10, in main\n    foo()\nNameError: name 'foo' is not defined";
    let p = parse_python_error(text).unwrap();
    assert_eq!(p.error_type, "NameError");
    assert_eq!(p.message, "name 'foo' is not defined");
    assert_eq!(p.file_path, Some("app.py".to_string()));
    assert_eq!(p.line, Some(10));
    assert_eq!(p.stack_trace.len(), 1);
    assert_eq!(p.stack_trace[0].function, "main");
    assert_eq!(p.stack_trace[0].file, "app.py");
    assert_eq!(p.stack_trace[0].line, 10);
}

#[test]
fn unknown_errors_are_kept_whole() {
    let p = parse_error_text("something went wrong".to_string()).unwrap();
    assert_eq!(p.error_type, "Unknown");
    assert_eq!(p.message, "something went wrong");
    assert_eq!(p.file_path, None);
    assert!(matches!(p.severity, ErrorSeverity::Medium));
}

#[test]
fn error_dispatch_prefers_typescript() {
    let p = parse_error_text("src/a.ts(3,7): error TS1005: ';' expected.".to_string()).unwrap();
    assert_eq!(p.error_type, "TS1005");
    assert_eq!(p.line, Some(3));
    let p = parse_error_text("error[E0308]: mismatched types\n --> lib.rs:2:1".to_string()).unwrap();
    assert_eq!(p.error_type, "E0308");
    assert_eq!(p.file_path, Some("lib.rs".to_string()));
}

#[test]
fn json_is_cut_out_of_answers() {
    assert_eq!(extract_json("x {\"a\": 1} y").unwrap(), "{\"a\": 1}");
    assert_eq!(extract_json("list: [1, 2] and {\"b\": [3]}").unwrap(), "[1, 2] and {\"b\": [3]");
    assert_eq!(extract_json("no json here").unwrap_err(), "No JSON found in response");
}

#[test]
fn json_from_design_answers() {
    assert_eq!(extract_json_from_response("Here: {\"k\": 1} ok").unwrap(), "{\"k\": 1}");
    assert_eq!(
        extract_json_from_response("nothing").unwrap_err(),
        "No valid JSON found in response"
    );
}

#[test]
fn css_answers() {
    let (css, explanation) = parse_css_response("```\n.a { margin: 0; }\n```\nPlain block.").unwrap();
    assert_eq!(css, ".a { margin: 0; }");
    assert_eq!(explanation, "Plain block.");
    assert_eq!(parse_css_response("```css\n.a {}").unwrap_err(), "Malformed CSS code block");
    assert_eq!(parse_css_response("no code").unwrap_err(), "No CSS code found in response");
}

#[test]
fn css_prompt_with_defaults() {
    let req = DesignRequest {
        description: "A red button".to_string(),
        selector: Some(".btn".to_string()),
        context: None,
        constraints: None,
    };
    let prompt = build_css_generation_prompt(&req).unwrap();
    assert_eq!(
        prompt,
        "You are an expert CSS developer. Generate CSS code based on this description.\n\n\
Description: A red button\n\nTarget selector: .btn\n\nRequirements:\n\
- Must be responsive (use relative units, media queries)\n\
- Must meet WCAG AA standards (contrast, focus states)\n\
\nReturn:\n1. CSS code (clean, well-commented)\n2. Brief explanation of design choices\n\
\nFormat:\n```css\n[CSS CODE]\n```\n\n[EXPLANATION]"
    );
}

#[test]
fn css_prompt_with_context_and_constraints() {
    let req = DesignRequest {
        description: "Card".to_string(),
        selector: None,
        context: Some(DesignContext {
            current_styles: Some("color: red".to_string()),
            element_type: None,
            parent_styles: None,
            viewport_width: Some(800),
            viewport_height: None,
        }),
        constraints: Some(DesignConstraints {
            color_scheme: Some("dark".to_string()),
            max_width: None,
            responsive: false,
            accessibility: true,
        }),
    };
    let prompt = build_css_generation_prompt(&req).unwrap();
    assert!(prompt.contains("Context:\nCurrent styles: color: red\n\nRequirements:\n"));
    assert!(!prompt.contains("responsive"));
    assert!(prompt.contains("- Color scheme: dark\n"));
}

#[test]
fn accessibility_notes() {
    assert_eq!(
        generate_accessibility_notes("a:hover { color: red; }"),
        "• Ensure text colors have sufficient contrast (4.5:1 ratio minimum)\n\
• Add :focus styles to match :hover for keyboard accessibility"
    );
    assert_eq!(
        generate_accessibility_notes("div { margin: 0 }"),
        "No specific accessibility concerns detected. Always test with real users."
    );
}

#[test]
fn tokens_become_custom_properties() {
    let tokens = DesignTokens {
        colors: vec![("primary".to_string(), "#fff".to_string())],
        spacing: vec![("sm".to_string(), "4px".to_string()), ("md".to_string(), "8px".to_string())],
        typography: vec![],
        shadows: vec![],
        radii: vec![("lg".to_string(), "12px".to_string())],
    };
    assert_eq!(
        design_tokens_to_css(&tokens).unwrap(),
        ":root {\n  --color-primary: #fff;\n  --spacing-sm: 4px;\n  --spacing-md: 8px;\n  --radius-lg: 12px;\n}\n"
    );
}

#[test]
fn design_prompts() {
    let p = color_scheme_prompt("dark", "#123456");
    assert!(p.starts_with(
        "Generate a complete, professional dark color scheme based on the primary color #123456.\n\nProvide colors"
    ));
    assert!(p.ends_with("- Text on surface: at least 4.5:1"));
    let p = improvements_prompt(&vec!["contrast".to_string(), "modern".to_string()], "a{}");
    assert!(p.starts_with(
        "Analyze this CSS and suggest specific improvements to achieve these goals: contrast, modern\n\nCurrent CSS:\n```css\na{}\n```\n"
    ));
    let p = accessibility_prompt("b{}");
    assert!(p.contains("CSS:\n```css\nb{}\n```\n\nCheck for:"));
    assert!(p.ends_with("\"summary\": \"Overall assessment\"\n}"));
}

#[test]
fn diff_preview_and_hunks() {
    let d = compute_diff("a\nb\nc\n", "a\nx\nc\nd\n");
    assert_eq!(d.preview, "  a\n- b\n+ x\n  c\n+ d\n");
    assert_eq!(d.hunks.len(), 2);
    assert_eq!(d.hunks[0].old_start, 1);
    assert_eq!(d.hunks[0].new_start, 1);
    assert_eq!(d.hunks[1].old_start, 3);
    assert_eq!(d.hunks[1].new_lines, vec!["d"]);
}

#[test]
fn applying_a_diff_gives_the_new_text() {
    let old = "line1\nline2\nline3";
    let new = "line1\nmodified\nline3\nline4";
    let d = compute_diff(old, new);
    assert_eq!(apply_diff(old.to_string(), d.hunks).unwrap(), new);
}

#[test]
fn simple_line_diff() {
    assert_eq!(generate_diff("a\nb", "a\nc\nd"), "-b\n+c\n+d\n");
    assert_eq!(generate_diff("x\ny", "x"), "-y\n");
    assert_eq!(generate_diff("same", "same"), "");
}

#[test]
fn file_diff_hunks_and_stats() {
    let d = get_file_diff("f.txt".to_string(), "a\nb".to_string(), "a\nc\nd".to_string()).unwrap();
    assert_eq!(d.file_path, "f.txt");
    assert_eq!(d.stats.additions, 2);
    assert_eq!(d.stats.deletions, 1);
    assert_eq!(d.stats.changes, 3);
    assert_eq!(d.hunks.len(), 1);
    let h = &d.hunks[0];
    assert_eq!((h.old_start, h.old_lines, h.new_start, h.new_lines), (1, 2, 1, 3));
    let kinds: Vec<&str> = h.changes.iter().map(|c| c.change_type.as_str()).collect();
    assert_eq!(kinds, vec!["context", "delete", "add", "add"]);
    assert_eq!(h.changes[3].new_line_number, Some(3));
    assert_eq!(h.changes[3].old_line_number, None);

    let empty = get_file_diff("e".to_string(), String::new(), String::new()).unwrap();
    assert_eq!(empty.hunks.len(), 1);
    assert!(empty.hunks[0].changes.is_empty());
    assert_eq!(empty.stats.changes, 0);
}

#[test]
fn fix_and_trace_prompts() {
    let e = ParsedError {
        error_type: "E0425".to_string(),
        message: "cannot find value".to_string(),
        file_path: Some("src/main.rs".to_string()),
        line: Some(3),
        column: None,
        stack_trace: vec![],
        severity: ErrorSeverity::High,
    };
    let p = fix_prompt(&e, Some("let y = x;"));
    assert!(p.starts_with(
        "Analyze this error and provide 2-3 specific fix suggestions.\n\nError Type: E0425\nMessage: cannot find value\nFile: src/main.rs\n\n\nRelevant source code:\n```\nlet y = x;\n```\n\nProvide solutions in JSON format:"
    ));
    let p = fix_prompt(&ParsedError { file_path: None, ..e }, None);
    assert!(p.contains("Message: cannot find value\n\n\nProvide solutions"));

    let frames = vec![
        StackFrame { function: "main".to_string(), file: "app.py".to_string(), line: 10, column: None },
        StackFrame { function: "run".to_string(), file: "lib.py".to_string(), line: 3, column: Some(1) },
    ];
    let p = stack_trace_prompt(&frames);
    assert!(p.starts_with(
        "Analyze this stack trace and identify the root cause of the error.\n\nStack Trace:\n1. main at app.py:10\n2. run at lib.py:3\n\nProvide analysis in JSON format:"
    ));
}
