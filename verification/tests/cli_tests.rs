use hielements::cli::{
    check_output_path, initial_specification, is_valid_project_name, library_filter_names, print_checks_dry_run,
    retain_libraries, run_exit_code, run_json, skipped_suffix, sort_libraries, validation_exit_code, validation_summary,
    workspace_for, DryRunItem, OutputPathError, ValidationSummary,
};
use hielements::diagnostics::{Diagnostic, Diagnostics};
use hielements::doc::LibraryDoc;
use hielements::interpreter::{CheckOutput, SingleCheckResult};
use hielements::parser::Parser;
use hielements::stdlib::json::Json;
use hielements::stdlib::CheckResult;

fn diagnostics(errors: usize, warnings: usize) -> Diagnostics {
    let mut d = Diagnostics::new();
    for _ in 0..errors {
        d.push(Diagnostic::error("E001", "bad").build());
    }
    for _ in 0..warnings {
        d.push(Diagnostic::warning("W001", "odd").build());
    }
    d
}

#[test]
fn summary_of_failed_validation() {
    let s = validation_summary("a.hie", &diagnostics(1, 0), true);
    assert_eq!(s, Some(ValidationSummary::Failed("could not validate `a.hie` due to 1 previous error".to_string())));
    let s = validation_summary("a.hie", &diagnostics(2, 1), false);
    assert_eq!(
        s,
        Some(ValidationSummary::Failed("could not validate `a.hie` due to 2 previous errors; 1 warning emitted".to_string()))
    );
    let s = validation_summary("a.hie", &diagnostics(1, 3), true);
    assert_eq!(
        s,
        Some(ValidationSummary::Failed("could not validate `a.hie` due to 1 previous error; 3 warnings emitted".to_string()))
    );
}

#[test]
fn summary_of_successful_validation() {
    assert_eq!(
        validation_summary("a.hie", &diagnostics(0, 0), true),
        Some(ValidationSummary::Finished("`a.hie` validated successfully".to_string()))
    );
    assert_eq!(
        validation_summary("a.hie", &diagnostics(0, 2), true),
        Some(ValidationSummary::Finished("`a.hie` validated with 2 warnings".to_string()))
    );
    assert_eq!(validation_summary("a.hie", &diagnostics(0, 1), false), None);
}

#[test]
fn exit_codes() {
    assert_eq!(validation_exit_code(&diagnostics(1, 0)), 1);
    assert_eq!(validation_exit_code(&diagnostics(0, 4)), 0);
    let ok = CheckOutput { total: 1, passed: 1, failed: 0, errors: 0, results: vec![], skipped: 0 };
    assert_eq!(run_exit_code(&ok), 0);
    let bad = CheckOutput { total: 1, passed: 0, failed: 0, errors: 1, results: vec![], skipped: 0 };
    assert_eq!(run_exit_code(&bad), 1);
}

#[test]
fn skipped_suffix_texts() {
    assert_eq!(skipped_suffix(0), "");
    assert_eq!(skipped_suffix(12), ", 12 skipped");
}

#[test]
fn workspace_defaults() {
    assert_eq!(workspace_for(Some("/given"), "dir/a.hie"), "/given");
    assert_eq!(workspace_for(None, "dir/sub/a.hie"), "dir/sub");
    assert_eq!(workspace_for(None, "a.hie"), ".");
}

#[test]
fn run_json_report() {
    let output = CheckOutput {
        total: 1,
        passed: 0,
        failed: 1,
        errors: 0,
        skipped: 0,
        results: vec![SingleCheckResult {
            element_path: "x".to_string(),
            check_expr: "files.exists(s, 'a')".to_string(),
            result: CheckResult::Fail("gone".to_string()),
        }],
    };
    match run_json(&output) {
        Json::Object(m) => {
            let keys: Vec<&str> = m.iter().map(|(k, _)| k.as_str()).collect();
            assert_eq!(keys, vec!["version", "status", "summary", "results"]);
            assert!(matches!(&m[0].1, Json::Str(v) if v == "1.0"));
            assert!(matches!(&m[1].1, Json::Str(v) if v == "error"));
        }
        other => panic!("expected an object, got {:?}", other),
    }
}

#[test]
fn dry_run_outline() {
    let source = "element outer:\n    scope src = files.folder_selector('src')\n    check files.exists(src, 'a')\n    element inner:\n        check files.exists(src, 'b')\n";
    let (program, diagnostics) = Parser::new(source, "d.hie").parse();
    assert!(!diagnostics.has_errors(), "{:?}", diagnostics);
    let lines = print_checks_dry_run(&program.unwrap(), 0);
    assert_eq!(lines.len(), 5);
    assert_eq!(lines[0].indent, 0);
    assert_eq!(lines[0].item, DryRunItem::Element("outer".to_string()));
    assert_eq!(lines[1].item, DryRunItem::Scope("src".to_string()));
    assert_eq!(lines[2].item, DryRunItem::Check);
    assert_eq!(lines[3].indent, 1);
    assert_eq!(lines[3].item, DryRunItem::Element("inner".to_string()));
    assert_eq!(lines[4].item, DryRunItem::Check);
}

#[test]
fn project_names() {
    assert!(is_valid_project_name("my_project2"));
    assert!(is_valid_project_name("café"));
    assert!(!is_valid_project_name("my-project"));
    assert!(!is_valid_project_name("a b"));
}

#[test]
fn initial_specification_mentions_the_project() {
    let t = initial_specification("shop");
    assert!(t.starts_with("# shop Architecture Specification\n"));
    assert!(t.contains("# - Run 'hielements check shop.hie' to validate this specification\n"));
    assert!(t.contains("## The shop project\nelement shop {\n"));
    assert!(t.ends_with("    # Add more elements, scopes, and checks here to describe your architecture\n}\n"));
    let (program, diagnostics) = Parser::new(&t, "shop.hie").parse();
    assert!(!diagnostics.has_errors(), "{:?}", diagnostics);
    assert_eq!(program.unwrap().elements[0].name.name, "shop");
}

#[test]
fn library_filter() {
    assert_eq!(library_filter_names(" files, rust ,"), vec!["files".to_string(), "rust".to_string(), "".to_string()]);
    let libs = vec![LibraryDoc::new("rust"), LibraryDoc::new("files"), LibraryDoc::new("python")];
    let kept = retain_libraries(libs, &library_filter_names("python,rust"));
    let names: Vec<&str> = kept.iter().map(|l| l.name.as_str()).collect();
    assert_eq!(names, vec!["rust", "python"]);
}

#[test]
fn libraries_sorted_by_name() {
    let libs = vec![LibraryDoc::new("rust"), LibraryDoc::new("files"), LibraryDoc::new("python"), LibraryDoc::new("files")];
    let sorted = sort_libraries(libs);
    let names: Vec<&str> = sorted.iter().map(|l| l.name.as_str()).collect();
    assert_eq!(names, vec!["files", "files", "python", "rust"]);
}

#[test]
fn output_paths() {
    assert_eq!(check_output_path("docs/lib.md"), None);
    assert_eq!(check_output_path("/etc/lib.md"), Some(OutputPathError::Absolute));
    assert_eq!(check_output_path("docs/../../x.md"), Some(OutputPathError::ParentReference));
    assert_eq!(check_output_path("a..b/x.md"), None);
}
