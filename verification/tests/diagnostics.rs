use does_it_throw::call_finder::CallToThrowMap;
use does_it_throw::diagnostics::{
    add_diagnostics_for_calls_to_throws, add_diagnostics_for_functions_that_throw,
    get_line_end_byte_pos, get_line_start_byte_pos, get_relative_imports,
    identifier_usages_vec_to_combined_map, lookup_line_col, Diagnostic, DiagnosticSeverity,
    DiagnosticSeverityInput, InputData, ParseResult,
};
use does_it_throw::span::Span;
use does_it_throw::throw_finder::{IdentifierUsage, ThrowMap};

fn sp(lo: u32, hi: u32) -> Span {
    Span::new(lo, hi)
}

fn src(text: &str) -> Vec<u8> {
    text.as_bytes().to_vec()
}

fn throw_map(span: Span, throw_spans: Vec<Span>, name: &str, id: &str) -> ThrowMap {
    ThrowMap {
        throw_spans,
        throw_statement: span,
        function_or_method_name: name.to_string(),
        class_name: None,
        id: id.to_string(),
    }
}

fn call_map(span: Span, name: &str, id: &str) -> CallToThrowMap {
    CallToThrowMap {
        call_span: span,
        call_function_or_method_name: name.to_string(),
        call_class_name: None,
        throw_map: throw_map(span, vec![], name, id),
        class_name: None,
        id: id.to_string(),
    }
}

#[test]
fn test_get_line_end_byte_pos_with_newline() {
    // An over-long range behaves as an empty snippet and hands back the
    // upper offset unchanged.
    let source = src("line 1\nline 2");
    let result = get_line_end_byte_pos(&source, 0, 23);
    assert_eq!(result, 23);
}

#[test]
fn test_get_line_end_byte_pos_in_range_newline() {
    let source = src("line 1\nline 2");
    let result = get_line_end_byte_pos(&source, 0, 13);
    assert_eq!(result, 6);
}

#[test]
fn test_get_line_end_byte_pos_without_newline() {
    let source = src("no newline");
    let result = get_line_end_byte_pos(&source, 0, 20);
    assert_eq!(result, 20);
}

#[test]
fn test_get_line_end_byte_pos_none_snippet() {
    let source = src("");
    let result = get_line_end_byte_pos(&source, 0, 10);
    assert_eq!(result, 10);
}

#[test]
fn test_get_line_start_byte_pos_with_content() {
    let source = src("line 1\n    line 2\nline 3");
    let result = get_line_start_byte_pos(&source, 18, 6);
    assert_eq!(result, 0);
}

#[test]
fn test_get_line_start_byte_pos_without_content() {
    let source = src("line 1\n    \nline 3");
    let result = get_line_start_byte_pos(&source, 0, 10);
    assert_eq!(result, 7);
}

#[test]
fn test_get_line_start_byte_pos_at_file_start() {
    let source = src("line 1\nline 2\nline 3");
    let result = get_line_start_byte_pos(&source, 0, 5);
    assert_eq!(result, 0);
}

#[test]
fn test_get_relative_imports() {
    let import_sources = vec![
        "./relative/path".to_string(),
        "../relative/path".to_string(),
        "/absolute/path".to_string(),
        "http://example.com".to_string(),
        "https://example.com".to_string(),
        "package".to_string(),
    ];
    let expected_relative_imports = vec![
        "./relative/path".to_string(),
        "../relative/path".to_string(),
    ];
    let relative_imports = get_relative_imports(&import_sources);
    assert_eq!(relative_imports, expected_relative_imports);
}

#[test]
fn test_add_diagnostics_for_functions_that_throw_single() {
    let source = src("function foo() {\n  throw new Error();\n}");
    let throw_span = sp(13, 30);
    let functions_with_throws = vec![throw_map(throw_span, vec![throw_span], "foo", "foo")];
    let mut diagnostics: Vec<Diagnostic> = Vec::new();
    add_diagnostics_for_functions_that_throw(
        &mut diagnostics,
        &functions_with_throws,
        &source,
        DiagnosticSeverity::Hint,
        DiagnosticSeverity::Hint,
    );
    assert_eq!(diagnostics.len(), 2);
    assert_eq!(diagnostics[0].severity, DiagnosticSeverity::Hint.to_int());
    assert_eq!(diagnostics[0].message, "Function that may throw.");
}

#[test]
fn test_add_diagnostics_for_functions_that_throw_multiple() {
    let source = src("function foo() {\n  throw new Error('First');\n  throw new Error('Second');\n}");
    let first_throw_span = sp(13, 35);
    let second_throw_span = sp(39, 62);
    let functions_with_throws = vec![throw_map(
        first_throw_span,
        vec![first_throw_span, second_throw_span],
        "foo",
        "foo",
    )];
    let mut diagnostics: Vec<Diagnostic> = Vec::new();
    add_diagnostics_for_functions_that_throw(
        &mut diagnostics,
        &functions_with_throws,
        &source,
        DiagnosticSeverity::Hint,
        DiagnosticSeverity::Hint,
    );
    assert_eq!(diagnostics.len(), 3);
    assert_eq!(diagnostics[0].severity, DiagnosticSeverity::Hint.to_int());
    assert_eq!(diagnostics[0].message, "Function that may throw.");
    assert_eq!(diagnostics[1].severity, DiagnosticSeverity::Hint.to_int());
    assert_eq!(diagnostics[1].message, "Throw statement.");
    assert_eq!(diagnostics[2].severity, DiagnosticSeverity::Hint.to_int());
    assert_eq!(diagnostics[2].message, "Throw statement.");
}

#[test]
fn test_add_diagnostics_for_calls_to_throws() {
    let source = src("function foo() {\n  throw new Error();\n}");
    let calls_to_throws = vec![call_map(sp(13, 30), "foo", "foo")];
    let mut diagnostics: Vec<Diagnostic> = Vec::new();
    add_diagnostics_for_calls_to_throws(
        &mut diagnostics,
        &calls_to_throws,
        &source,
        DiagnosticSeverity::Hint,
    );
    assert_eq!(diagnostics.len(), 1);
    assert_eq!(diagnostics[0].severity, DiagnosticSeverity::Hint.to_int());
    assert_eq!(diagnostics[0].message, "Function call that may throw.");
    assert_eq!(diagnostics[0].range.start.line, 0);
    assert_eq!(diagnostics[0].range.start.character, 13);
    assert_eq!(diagnostics[0].range.end.line, 0);
    assert_eq!(diagnostics[0].range.end.character, 15);
}

#[test]
fn test_no_calls_to_throws() {
    let source = src("function foo() {\n  console.log('No throw');\n}");
    let calls_to_throws: Vec<CallToThrowMap> = Vec::new();
    let mut diagnostics: Vec<Diagnostic> = Vec::new();
    add_diagnostics_for_calls_to_throws(
        &mut diagnostics,
        &calls_to_throws,
        &source,
        DiagnosticSeverity::Hint,
    );
    assert!(diagnostics.is_empty());
}

#[test]
fn test_multiple_calls_to_throws() {
    let source = src("function foo() {\n  throw new Error();\n}\nfunction bar() {\n  throw new Error();\n}");
    let calls_to_throws = vec![
        call_map(sp(13, 30), "foo", "foo"),
        call_map(sp(52, 69), "bar", "foo"),
    ];
    let mut diagnostics: Vec<Diagnostic> = Vec::new();
    add_diagnostics_for_calls_to_throws(
        &mut diagnostics,
        &calls_to_throws,
        &source,
        DiagnosticSeverity::Hint,
    );
    assert_eq!(diagnostics.len(), 2);
}

#[test]
fn test_identifier_usages_vec_to_combined_map_multiple_usages_same_identifier() {
    let source = src("import {foo} from 'module'; foo(); foo();");
    let identifier_usages = vec![
        IdentifierUsage::new(sp(17, 20), "foo".to_string(), "import".to_string(), "foo".to_string()),
        IdentifierUsage::new(sp(22, 25), "foo".to_string(), "import".to_string(), "foo".to_string()),
    ];
    let combined_map = identifier_usages_vec_to_combined_map(
        &identifier_usages,
        &source,
        DiagnosticSeverity::Hint,
    );
    assert_eq!(combined_map.len(), 1);
    let foo_diagnostics = &combined_map
        .iter()
        .find(|e| e.id == "foo")
        .expect("group for foo")
        .diagnostics;
    assert_eq!(foo_diagnostics.len(), 2);
    assert_eq!(foo_diagnostics[0].severity, DiagnosticSeverity::Hint.to_int());
    assert_eq!(foo_diagnostics[0].message, "Function imported that may throw.");
    assert_eq!(foo_diagnostics[1].severity, DiagnosticSeverity::Hint.to_int());
    assert_eq!(foo_diagnostics[1].message, "Function imported that may throw.");
}

#[test]
fn test_should_include_throws_in_try_statement() {
    let source = src("function foo() {\n  try {\n    throw new Error();\n  } catch (e) {\n    throw e;\n  }\n}");
    let throw_span = sp(34, 51);
    let functions_with_throws = vec![throw_map(throw_span, vec![throw_span], "foo", "foo")];
    let mut diagnostics: Vec<Diagnostic> = Vec::new();
    add_diagnostics_for_functions_that_throw(
        &mut diagnostics,
        &functions_with_throws,
        &source,
        DiagnosticSeverity::Hint,
        DiagnosticSeverity::Hint,
    );
    assert_eq!(diagnostics.len(), 2);
    assert_eq!(diagnostics[0].severity, DiagnosticSeverity::Hint.to_int());
    assert_eq!(diagnostics[0].message, "Function that may throw.");
}

#[test]
fn test_severity_to_int_values() {
    assert_eq!(DiagnosticSeverity::Error.to_int(), 0);
    assert_eq!(DiagnosticSeverity::Warning.to_int(), 1);
    assert_eq!(DiagnosticSeverity::Information.to_int(), 2);
    assert_eq!(DiagnosticSeverity::Hint.to_int(), 3);
}

#[test]
fn test_severity_from_str_accepts_exactly_the_level_names() {
    assert_eq!(DiagnosticSeverity::from_str("Error"), Ok(DiagnosticSeverity::Error));
    assert_eq!(DiagnosticSeverity::from_str("Warning"), Ok(DiagnosticSeverity::Warning));
    assert_eq!(
        DiagnosticSeverity::from_str("Information"),
        Ok(DiagnosticSeverity::Information)
    );
    assert_eq!(DiagnosticSeverity::from_str("Hint"), Ok(DiagnosticSeverity::Hint));
    assert_eq!(DiagnosticSeverity::from_str("hint"), Err(()));
    assert_eq!(DiagnosticSeverity::from_str(""), Err(()));
}

#[test]
fn test_lookup_line_col_counts_lines_and_bytes() {
    let source = src("ab\ncd\nef");
    assert_eq!(lookup_line_col(&source, 0), (0, 0));
    assert_eq!(lookup_line_col(&source, 2), (0, 2));
    assert_eq!(lookup_line_col(&source, 3), (1, 0));
    assert_eq!(lookup_line_col(&source, 7), (2, 1));
}

#[test]
fn test_parse_result_translation() {
    let source = src("function foo() {\n  throw new Error();\n}");
    let throw_span = sp(13, 30);
    let results = does_it_throw::AnalysisResult {
        functions_with_throws: vec![throw_map(throw_span, vec![throw_span], "foo", "NOT_SET-foo")],
        calls_to_throws: vec![],
        import_sources: vec!["./x".to_string(), "pkg".to_string()],
        imported_identifiers: vec![],
        imported_identifier_usages: vec![],
    };
    let input = InputData {
        file_content: String::new(),
        debug: None,
        throw_statement_severity: Some(DiagnosticSeverityInput("Information".to_string())),
        function_throw_severity: Some(DiagnosticSeverityInput("Error".to_string())),
        call_to_throw_severity: None,
        call_to_imported_throw_severity: None,
        include_try_statement_throws: None,
    };
    let parsed = ParseResult::into(&results, &source, &input);
    assert_eq!(parsed.diagnostics.len(), 2);
    assert_eq!(parsed.diagnostics[0].severity, 0);
    assert_eq!(parsed.diagnostics[1].severity, 2);
    assert_eq!(parsed.throw_ids, vec!["NOT_SET-foo".to_string()]);
    assert_eq!(parsed.relative_imports, vec!["./x".to_string()]);
    assert!(parsed.imported_identifiers_diagnostics.is_empty());
}
