use hielements::interpreter::{answer_outcome, expression_text, Interpreter, RunOptions};
use hielements::parser::Parser;
use hielements::stdlib::{CheckResult, Library, LibraryError, LibraryRegistry, Scope, ScopeKind, Value};

/// A files library over a fixed list of paths, for the tests.
struct FakeFiles {
    present: Vec<String>,
}

impl Library for FakeFiles {
    fn name(&self) -> String {
        "files".to_string()
    }

    fn call(&mut self, function: &str, args: Vec<Value>, _workspace: &str) -> Result<Value, LibraryError> {
        match (function, args.first()) {
            ("folder_selector", Some(Value::String(p))) => {
                let paths: Vec<String> = self.present.iter().filter(|f| f.starts_with(p.as_str())).cloned().collect();
                Ok(Value::Scope(Scope::new(ScopeKind::Folder(p.clone())).with_paths(paths)))
            }
            _ => Err(LibraryError::new("E500", "Unknown function")),
        }
    }

    fn check(&mut self, function: &str, args: Vec<Value>, _workspace: &str) -> Result<CheckResult, LibraryError> {
        match (function, args.get(0), args.get(1)) {
            ("exists", Some(Value::Scope(s)), Some(Value::String(name))) => {
                if s.paths.iter().any(|p| p.ends_with(name.as_str())) {
                    Ok(CheckResult::Pass)
                } else {
                    Ok(CheckResult::Fail(format!("File not found: {}", name)))
                }
            }
            ("broken", _, _) => Ok(CheckResult::Error("cannot tell".to_string())),
            _ => Err(LibraryError::new("E501", "Unknown check")),
        }
    }
}

fn interpreter(present: &[&str]) -> Interpreter<FakeFiles> {
    let mut registry = LibraryRegistry::new();
    registry.register(FakeFiles { present: present.iter().map(|s| s.to_string()).collect() });
    Interpreter::new(".", registry)
}

#[test]
fn test_validate_simple() {
    let source = r#"import files

element test:
    scope src = files.folder_selector('src')
"#;
    let mut interpreter = interpreter(&[]);
    let (program, _diagnostics) = interpreter.validate(source, "test.hie");

    assert!(program.is_some());
}

#[test]
fn test_run_file_check() {
    let source = r#"import files

element test:
    scope src = files.folder_selector('src')
    check files.exists(src, 'main.py')
"#;
    let mut interpreter = interpreter(&["src/main.py"]);
    let (program, _diagnostics) = interpreter.validate(source, "test.hie");

    assert!(program.is_some());
    let output = interpreter.run(&program.unwrap());

    assert_eq!(output.total, 1);
    assert_eq!(output.passed, 1);
}

const TWO_ELEMENTS: &str = r#"import files

element api:
    scope src = files.folder_selector('api')
    check files.exists(src, 'main.py')
    check files.exists(src, 'missing.py')

element db:
    scope src = files.folder_selector('db')
    check files.broken(src)
"#;

#[test]
fn run_counts_every_outcome() {
    let mut interpreter = interpreter(&["api/main.py", "db/schema.sql"]);
    let (program, diagnostics) = interpreter.validate(TWO_ELEMENTS, "two.hie");
    assert!(!diagnostics.has_errors());
    let output = interpreter.run(&program.unwrap());
    assert_eq!(output.total, 3);
    assert_eq!(output.passed, 1);
    assert_eq!(output.failed, 1);
    assert_eq!(output.errors, 1);
    assert_eq!(output.skipped, 0);
    assert_eq!(output.results.len(), 3);
    assert_eq!(output.results[0].element_path, "api");
    assert!(output.results[0].result.is_pass());
    assert!(matches!(&output.results[1].result, CheckResult::Fail(m) if m == "File not found: missing.py"));
    assert_eq!(output.results[2].element_path, "db");
    assert!(matches!(&output.results[2].result, CheckResult::Error(_)));
}

#[test]
fn run_with_filter_keeps_matching_elements() {
    let mut interpreter = interpreter(&["api/main.py"]);
    let (program, _) = interpreter.validate(TWO_ELEMENTS, "two.hie");
    let options = RunOptions { filter: Some("db".to_string()), limit: None, verbose: false };
    let output = interpreter.run_with_options(&program.unwrap(), &options);
    assert_eq!(output.total, 1);
    assert!(output.results.iter().all(|r| r.element_path.contains("db")));
    assert_eq!(output.skipped, 2);
}

#[test]
fn run_with_limit_stops_early() {
    let mut interpreter = interpreter(&["api/main.py"]);
    let (program, _) = interpreter.validate(TWO_ELEMENTS, "two.hie");
    let options = RunOptions { filter: None, limit: Some(2), verbose: false };
    let output = interpreter.run_with_options(&program.unwrap(), &options);
    assert_eq!(output.total, 2);
    assert_eq!(output.passed + output.failed + output.errors, 2);
}

#[test]
fn unknown_library_is_warned() {
    let source = "import docker\n\nelement x:\n    scope s = docker.image('a')\n";
    let mut interpreter = interpreter(&[]);
    let (program, diagnostics) = interpreter.validate(source, "x.hie");
    assert!(program.is_some());
    let warnings = diagnostics.warnings();
    assert_eq!(warnings.len(), 1);
    assert_eq!(warnings[0].code, "W001");
    assert_eq!(warnings[0].message, "Unknown library 'docker' (will be resolved at runtime)");
    assert_eq!(warnings[0].file, "x.hie");
}

#[test]
fn registered_library_is_known() {
    let interpreter = interpreter(&[]);
    assert!(interpreter.has_library("files"));
    assert!(!interpreter.has_library("rust"));
}

#[test]
fn expression_text_shows_calls() {
    let source = "element x:\n    check files.exists(src, 'main.py')\n";
    let (program, diagnostics) = Parser::new(source, "x.hie").parse();
    assert!(!diagnostics.has_errors());
    let program = program.unwrap();
    let text = expression_text(&program.elements[0].checks[0].expression);
    assert_eq!(text, "files.exists(src, 'main.py')");
}

#[test]
fn library_answers_become_outcomes() {
    match answer_outcome("docker", None) {
        CheckResult::Error(m) => assert_eq!(m, "Unknown library: docker"),
        other => panic!("expected an error, got {:?}", other),
    }
    let e = LibraryError { message: "bad argument".to_string(), code: "E300".to_string() };
    match answer_outcome("files", Some(Err(e))) {
        CheckResult::Error(m) => assert_eq!(m, "bad argument"),
        other => panic!("expected an error, got {:?}", other),
    }
    assert!(matches!(answer_outcome("files", Some(Ok(CheckResult::Pass))), CheckResult::Pass));
    match answer_outcome("files", Some(Ok(CheckResult::Fail("no".to_string())))) {
        CheckResult::Fail(m) => assert_eq!(m, "no"),
        other => panic!("expected a failure, got {:?}", other),
    }
}

#[test]
fn progress_lines_show_each_outcome() {
    use_progress_lines();
}

fn use_progress_lines() {
    let output = hielements::interpreter::CheckOutput {
        total: 3,
        passed: 1,
        failed: 1,
        errors: 1,
        skipped: 0,
        results: vec![
            hielements::interpreter::SingleCheckResult {
                element_path: "app".to_string(),
                check_expr: "files.exists(src, 'a')".to_string(),
                result: CheckResult::Pass,
            },
            hielements::interpreter::SingleCheckResult {
                element_path: "app.core".to_string(),
                check_expr: "x.y()".to_string(),
                result: CheckResult::Fail("missing".to_string()),
            },
            hielements::interpreter::SingleCheckResult {
                element_path: "app".to_string(),
                check_expr: "z.w()".to_string(),
                result: CheckResult::Error("Unknown library: z".to_string()),
            },
        ],
    };
    let lines = hielements::interpreter::progress_lines(&output);
    assert_eq!(lines, vec![
        "[verbose] Running: app :: files.exists(src, 'a') ... PASS".to_string(),
        "[verbose] Running: app.core :: x.y() ... FAIL: missing".to_string(),
        "[verbose] Running: app :: z.w() ... ERROR: Unknown library: z".to_string(),
    ]);
}

fn first_scope_expression(source: &str) -> hielements::ast::Expression {
    let (program, diagnostics) = Parser::new(source, "x.hie").parse();
    assert!(!diagnostics.has_errors());
    let mut program = program.unwrap();
    program.elements.remove(0).scopes.remove(0).expression.unwrap()
}

#[test]
fn calls_hand_evaluated_arguments_to_the_library() {
    let mut interpreter = interpreter(&["src/a.rs", "src/b.rs", "lib/c.rs"]);
    let e = first_scope_expression("element x:\n    scope s = files.folder_selector('src')\n");
    match interpreter.evaluate_expression(&e) {
        Ok(Value::Scope(s)) => assert_eq!(s.paths, vec!["src/a.rs".to_string(), "src/b.rs".to_string()]),
        other => panic!("expected a scope, got {:?}", other),
    }
    let e = first_scope_expression("element x:\n    scope s = files.nothing('src')\n");
    match interpreter.evaluate_expression(&e) {
        Err(d) => {
            assert_eq!(d.code, "E500");
            assert_eq!(d.message, "Unknown function");
        }
        other => panic!("expected an error, got {:?}", other),
    }
    let e = first_scope_expression("element x:\n    scope s = docker.image('x')\n");
    match interpreter.evaluate_expression(&e) {
        Err(d) => {
            assert_eq!(d.code, "E203");
            assert_eq!(d.message, "Unknown library: docker");
        }
        other => panic!("expected an error, got {:?}", other),
    }
}
