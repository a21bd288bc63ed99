use hielements::interpreter::{CheckOutput, SingleCheckResult};
use hielements::mcp::prompts::PromptHandler;
use hielements::mcp::resources::{ResourceHandler, ResourceRequest, LANGUAGE_REFERENCE};
use hielements::mcp::tools::{PatternCategory, ToolHandler};
use hielements::stdlib::json::Json;
use hielements::stdlib::CheckResult;

fn member<'a>(j: &'a Json, key: &str) -> &'a Json {
    match j {
        Json::Object(m) => &m.iter().find(|(k, _)| k == key).unwrap_or_else(|| panic!("no member {}", key)).1,
        other => panic!("expected an object, got {:?}", other),
    }
}

fn text(j: &Json) -> &str {
    match j {
        Json::Str(s) => s.as_str(),
        other => panic!("expected a string, got {:?}", other),
    }
}

#[test]
fn explain_known_error_code() {
    let tools = ToolHandler::new(".");
    let j = tools.explain_error("E204");
    assert_eq!(text(member(&j, "code")), "E204");
    assert_eq!(text(member(&j, "explanation")), "Check must be a function call.");
    assert_eq!(text(member(&j, "severity")), "error");
}

#[test]
fn explain_warning_and_unknown_codes() {
    let tools = ToolHandler::new(".");
    let j = tools.explain_error("W001");
    assert_eq!(text(member(&j, "severity")), "warning");
    let j = tools.explain_error("X999");
    assert_eq!(text(member(&j, "explanation")), "Unknown error code. Check the Hielements documentation for more information.");
    assert_eq!(text(member(&j, "severity")), "warning");
}

#[test]
fn generate_python_element() {
    let tools = ToolHandler::new(".");
    let j = tools.generate_element("orders", Some("microservice"), "python");
    assert_eq!(
        text(member(&j, "generated")),
        "import files\nimport python\n\nelement orders implements microservice {\n    scope src<python> = python.module_selector('orders')\n    check python.function_exists(src, '__init__')\n}\n"
    );
    assert!(matches!(member(&j, "pattern"), Json::Str(p) if p == "microservice"));
}

#[test]
fn generate_plain_element() {
    let tools = ToolHandler::new(".");
    let j = tools.generate_element("web", None, "go");
    assert_eq!(
        text(member(&j, "generated")),
        "import files\n\nelement web {\n    scope src = files.folder_selector('src/web')\n    check files.exists(src, 'main.py')\n}\n"
    );
    assert!(matches!(member(&j, "pattern"), Json::Null));
}

#[test]
fn safe_names_have_no_parent_reference() {
    let tools = ToolHandler::new("/ws");
    assert!(tools.is_safe_name("spec.hie"));
    assert!(!tools.is_safe_name("../secret.hie"));
    assert_eq!(tools.workspace_str(), "/ws");
}

#[test]
fn run_report_counts() {
    let tools = ToolHandler::new(".");
    let output = CheckOutput {
        total: 2,
        passed: 1,
        failed: 1,
        errors: 0,
        skipped: 3,
        results: vec![
            SingleCheckResult { element_path: "a".to_string(), check_expr: "files.exists(s, 'x')".to_string(), result: CheckResult::Pass },
            SingleCheckResult { element_path: "a.b".to_string(), check_expr: "files.exists(s, 'y')".to_string(), result: CheckResult::Fail("missing".to_string()) },
        ],
    };
    let j = tools.run_report(&output);
    assert_eq!(text(member(&j, "status")), "failed");
    let summary = member(&j, "summary");
    assert!(matches!(member(summary, "skipped"), Json::Int(3)));
    assert!(matches!(member(summary, "failed"), Json::Int(1)));
    match member(&j, "results") {
        Json::Array(a) => {
            assert_eq!(a.len(), 2);
            assert!(matches!(member(&a[0], "message"), Json::Null));
            assert_eq!(text(member(&a[1], "status")), "fail");
            assert_eq!(text(member(&a[1], "message")), "missing");
        }
        other => panic!("expected results, got {:?}", other),
    }
}

#[test]
fn run_options_from_arguments() {
    let tools = ToolHandler::new(".");
    let args = vec![("filter".to_string(), Json::Str("api".to_string())), ("limit".to_string(), Json::Int(5))];
    let o = tools.run_options(&args);
    assert_eq!(o.filter.as_deref(), Some("api"));
    assert_eq!(o.limit, Some(5));
    let o = tools.run_options(&vec![]);
    assert!(o.filter.is_none() && o.limit.is_none());
}

#[test]
fn resource_uris() {
    let res = ResourceHandler::new("/ws");
    assert_eq!(res.resource_request("hielements://patterns/catalog"), Ok(ResourceRequest::PatternCatalog));
    assert_eq!(res.resource_request("hielements://workspace/file/a.hie"), Ok(ResourceRequest::File("a.hie".to_string())));
    assert_eq!(res.resource_request("hielements://nothing"), Err("Resource not found: hielements://nothing".to_string()));
}

#[test]
fn resource_file_names() {
    let res = ResourceHandler::new("/ws");
    assert!(res.is_valid_filename("a.hie"));
    assert!(!res.is_valid_filename("../a.hie"));
    assert!(!res.is_valid_filename("dir/a.hie"));
    assert!(!res.is_valid_filename("dir\\a.hie"));
    assert_eq!(res.file_uri("a.hie"), "hielements://workspace/file/a.hie");
}

#[test]
fn resources_listed_in_order() {
    let res = ResourceHandler::new("/ws");
    let list = res.list_resources(&vec!["a.hie".to_string(), "b.hie".to_string()]);
    assert_eq!(list.len(), 6);
    assert_eq!(list[0].uri, "hielements://workspace/specifications");
    assert_eq!(list[3].uri, "hielements://docs/language-reference");
    assert_eq!(list[5].uri, "hielements://workspace/file/b.hie");
    assert!(res.default_language_reference().starts_with("# Hielements Language Reference"));
    assert_eq!(res.default_language_reference(), LANGUAGE_REFERENCE);
}

#[test]
fn prompts_fill_defaults_and_arguments() {
    let prompts = PromptHandler::new();
    let (desc, body) = prompts.prompt("fix_violations", &vec![("violations".to_string(), "E204 at line 3".to_string())]).unwrap();
    assert_eq!(desc, "Violation fix guide");
    assert!(body.contains("E204 at line 3"));
    let (desc, body) = prompts.prompt("architect_system", &vec![]).unwrap();
    assert_eq!(desc, "System architecture design guide");
    assert!(body.contains("a software system"));
    assert_eq!(prompts.prompt("nope", &vec![]), Err("Unknown prompt: nope".to_string()));
}

fn sample_categories() -> Vec<PatternCategory> {
    vec![
        PatternCategory {
            name: "structural".to_string(),
            patterns: vec![
                ("layered".to_string(), "patterns/structural/layered.hie".to_string()),
                ("hexagonal".to_string(), "patterns/structural/hexagonal.hie".to_string()),
            ],
        },
        PatternCategory { name: "empty".to_string(), patterns: vec![] },
        PatternCategory {
            name: "behavioral".to_string(),
            patterns: vec![("pipeline".to_string(), "patterns/behavioral/pipeline.hie".to_string())],
        },
    ]
}

#[test]
fn pattern_list_drops_empty_categories_and_counts_patterns() {
    let tools = ToolHandler::new("/ws");
    let j = tools.pattern_list_report(&sample_categories(), None);
    match member(&j, "pattern_library") {
        Json::Array(a) => {
            assert_eq!(a.len(), 2);
            assert_eq!(text(member(&a[0], "category")), "structural");
            assert_eq!(text(member(&a[1], "category")), "behavioral");
            match member(&a[0], "patterns") {
                Json::Array(ps) => {
                    assert_eq!(ps.len(), 2);
                    assert_eq!(text(member(&ps[1], "name")), "hexagonal");
                    assert_eq!(text(member(&ps[1], "file")), "patterns/structural/hexagonal.hie");
                }
                other => panic!("expected an array, got {:?}", other),
            }
        }
        other => panic!("expected an array, got {:?}", other),
    }
    assert!(matches!(member(&j, "total_patterns"), Json::Int(3)));
}

#[test]
fn pattern_list_keeps_only_the_category_asked_for() {
    let tools = ToolHandler::new("/ws");
    let j = tools.pattern_list_report(&sample_categories(), Some("behavioral"));
    match member(&j, "pattern_library") {
        Json::Array(a) => {
            assert_eq!(a.len(), 1);
            assert_eq!(text(member(&a[0], "category")), "behavioral");
        }
        other => panic!("expected an array, got {:?}", other),
    }
    assert!(matches!(member(&j, "total_patterns"), Json::Int(1)));
}

#[test]
fn pattern_catalog_keeps_empty_categories() {
    let tools = ToolHandler::new("/ws");
    let j = tools.pattern_catalog(&sample_categories());
    match member(&j, "pattern_library") {
        Json::Array(a) => assert_eq!(a.len(), 3),
        other => panic!("expected an array, got {:?}", other),
    }
    assert_eq!(text(member(&j, "description")), "Reusable architectural patterns for Hielements");
}
