use hielements::stdlib::files::FilesLibrary;
use hielements::stdlib::python::PythonLibrary;
use hielements::stdlib::rust::RustLibrary;
use hielements::stdlib::source::{sorted_unique, SourceFile};
use hielements::stdlib::{CheckResult, Scope, ScopeKind, Value};

fn file(path: &str, content: &str) -> SourceFile {
    SourceFile::new(path, Some(content.to_string()))
}

fn paths_of(v: &Value) -> Vec<String> {
    match v {
        Value::Scope(s) => s.paths.clone(),
        other => panic!("Expected Scope value, got {:?}", other),
    }
}

#[test]
fn python_test_function_selector() {
    let files = vec![file("/w/main.py", "\ndef hello_world():\n    print(\"Hello!\")\n\ndef another_func():\n    pass\n")];
    let lib = PythonLibrary::new();
    let result = lib.function_selector("hello_world", &files);
    assert_eq!(paths_of(&result), vec!["/w/main.py".to_string()]);
    assert!(paths_of(&lib.function_selector("missing", &files)).is_empty());
}

#[test]
fn test_class_selector() {
    let files = vec![file(
        "/w/models.py",
        "\nclass MyClass:\n    def __init__(self):\n        pass\n\nclass AnotherClass(BaseClass):\n    pass\n",
    )];
    let lib = PythonLibrary::new();
    assert!(!paths_of(&lib.class_selector("MyClass", &files)).is_empty());
    assert!(!paths_of(&lib.class_selector("AnotherClass", &files)).is_empty());
    assert!(paths_of(&lib.class_selector("Other", &files)).is_empty());
}

#[test]
fn test_module_selector() {
    let lib = PythonLibrary::new();
    let result = lib.module_selector("api", &vec!["/w/api/__init__.py".to_string(), "/w/web/views.py".to_string()]);
    assert_eq!(paths_of(&result), vec!["/w/api/__init__.py".to_string()]);
}

#[test]
fn test_imports_check() {
    let files = vec![file("/w/main.py", "\nimport os\nfrom typing import List\nimport requests\n")];
    let lib = PythonLibrary::new();
    assert!(lib.check_imports(&files, "typing").is_pass());
    assert!(lib.check_imports(&files, "requests").is_pass());
    assert!(lib.check_imports(&files, "nonexistent").is_fail());
}

#[test]
fn test_no_import_check() {
    let files = vec![file("/w/main.py", "\nimport os\nfrom typing import List\n")];
    let lib = PythonLibrary::new();
    assert!(lib.check_no_import(&files, "requests").is_pass());
    match lib.check_no_import(&files, "typing") {
        CheckResult::Fail(m) => assert_eq!(m, "Scope imports 'typing' but should not"),
        other => panic!("expected a failure, got {:?}", other),
    }
}

#[test]
fn test_returns_type_check() {
    let files = vec![file(
        "/w/api.py",
        "\ndef get_user() -> User:\n    return User()\n\ndef get_list() -> List[str]:\n    return []\n\nasync def fetch_data() -> Dict[str, Any]:\n    return {}\n",
    )];
    let lib = PythonLibrary::new();
    assert!(lib.check_returns_type(&files, "User").is_pass());
    assert!(lib.check_returns_type(&files, "List").is_pass());
    assert!(lib.check_returns_type(&files, "Dict").is_pass());
    assert!(lib.check_returns_type(&files, "NonExistent").is_fail());
}

#[test]
fn test_function_returns_type_check() {
    let files = vec![file(
        "/w/service.py",
        "\ndef process_data() -> Result:\n    return Result()\n\ndef calculate() -> int:\n    return 42\n\nasync def fetch() -> Response:\n    return Response()\n",
    )];
    let lib = PythonLibrary::new();
    assert!(lib.check_function_returns_type(&files, "process_data", "Result").is_pass());
    assert!(lib.check_function_returns_type(&files, "calculate", "int").is_pass());
    assert!(lib.check_function_returns_type(&files, "fetch", "Response").is_pass());
    assert!(lib.check_function_returns_type(&files, "process_data", "WrongType").is_fail());
}

#[test]
fn test_calls_check() {
    let files = vec![file(
        "/w/main.py",
        "\nimport logger\n\ndef main():\n    logger.info(\"Starting\")\n    process_data()\n    result = calculate(10)\n",
    )];
    let lib = PythonLibrary::new();
    assert!(lib.check_calls(&files, "logger").is_pass());
    assert!(lib.check_calls(&files, "process_data").is_pass());
    assert!(lib.check_calls(&files, "calculate").is_pass());
    assert!(lib.check_calls(&files, "nonexistent").is_fail());
}

#[test]
fn test_calls_function_check() {
    let files = vec![file(
        "/w/app.py",
        "\nimport database\n\ndef run():\n    database.connect()\n    user = database.query(\"SELECT * FROM users\")\n",
    )];
    let lib = PythonLibrary::new();
    assert!(lib.check_calls_function(&files, "database", "connect").is_pass());
    assert!(lib.check_calls_function(&files, "database", "query").is_pass());
    match lib.check_calls_function(&files, "database", "disconnect") {
        CheckResult::Fail(m) => assert_eq!(m, "Scope does not call 'database.disconnect'"),
        other => panic!("expected a failure, got {:?}", other),
    }
}

#[test]
fn test_calls_scope_check() {
    let target = vec![file(
        "/w/utils.py",
        "\ndef helper_function():\n    pass\n\nclass HelperClass:\n    def method(self):\n        pass\n",
    )];
    let source = vec![file(
        "/w/main.py",
        "\nfrom utils import helper_function, HelperClass\n\ndef main():\n    helper_function()\n    obj = HelperClass()\n",
    )];
    let lib = PythonLibrary::new();
    assert!(lib.check_calls_scope(&source, &target).is_pass());
}

#[test]
fn rust_test_function_selector() {
    let files = vec![file("/w/src/lib.rs", "\npub fn hello_world() {\n    println!(\"Hello!\");\n}\n\nfn private_func() {}\n")];
    let lib = RustLibrary::new();
    assert!(!paths_of(&lib.function_selector("hello_world", &files)).is_empty());
    assert!(paths_of(&lib.function_selector("goodbye", &files)).is_empty());
}

#[test]
fn test_struct_selector() {
    let files = vec![file("/w/src/lib.rs", "\npub struct MyStruct {\n    field: i32,\n}\n\nstruct PrivateStruct;\n")];
    let lib = RustLibrary::new();
    assert!(!paths_of(&lib.struct_selector("MyStruct", &files)).is_empty());
    assert!(!paths_of(&lib.struct_selector("PrivateStruct", &files)).is_empty());
    assert!(lib.check_struct_exists("MyStruct", &files).is_pass());
    assert!(lib.check_struct_exists("Nope", &files).is_fail());
}

#[test]
fn test_check_has_tests() {
    let files = vec![file(
        "/w/src/lib.rs",
        "\npub fn add(a: i32, b: i32) -> i32 { a + b }\n\n#[cfg(test)]\nmod tests {\n    use super::*;\n\n    #[test]\n    fn test_add() {\n        assert_eq!(add(1, 2), 3);\n    }\n}\n",
    )];
    let lib = RustLibrary::new();
    assert!(lib.check_has_tests(&files).is_pass());
    assert!(lib.check_has_tests(&vec![file("/w/src/a.rs", "fn a() {}\n")]).is_fail());
}

#[test]
fn rust_crate_manifest_and_modules() {
    let lib = RustLibrary::new();
    assert!(lib.manifest_names_crate("[package]\nname = \"core\"\n", "core"));
    assert!(!lib.manifest_names_crate("[package]\nname = \"core2\"\n", "core"));
    assert_eq!(RustLibrary::extract_module_name("src/parser/mod.rs"), Some("parser".to_string()));
}

#[test]
fn test_file_selector() {
    let lib = FilesLibrary::new();
    let scope = Scope::new(ScopeKind::File("main.py".to_string()));
    assert!(lib.check_exists(&scope, "main.py", true).is_pass());
    match lib.check_exists(&scope, "main.py", false) {
        CheckResult::Fail(m) => assert_eq!(m, "File 'main.py' does not exist"),
        other => panic!("expected a failure, got {:?}", other),
    }
}

#[test]
fn test_folder_selector() {
    let lib = FilesLibrary::new();
    let scope = Scope::new(ScopeKind::Folder("src".to_string()));
    match lib.check_exists(&scope, "main.py", false) {
        CheckResult::Fail(m) => assert_eq!(m, "File 'main.py' does not exist in folder 'src'"),
        other => panic!("expected a failure, got {:?}", other),
    }
    let target = lib.exists_target(&scope, "main.py", "/w").unwrap();
    assert_eq!(target, "/w/src/main.py");
}

#[test]
fn test_check_exists() {
    let lib = FilesLibrary::new();
    let scope = Scope::new(ScopeKind::Glob("**/*.py".to_string())).with_paths(vec!["/w/a/main.py".to_string()]);
    assert!(lib.check_exists(&scope, "main.py", false).is_pass());
    assert!(lib.check_exists(&scope, "other.py", false).is_fail());
}

#[test]
fn files_no_files_matching() {
    let lib = FilesLibrary::new();
    assert!(lib.check_no_files_matching("*.pyc", Some(vec![])).is_pass());
    match lib.check_no_files_matching("*.pyc", Some(vec!["a.pyc".to_string(), "b.pyc".to_string()])) {
        CheckResult::Fail(m) => assert_eq!(m, "Found 2 files matching pattern '*.pyc': [\"a.pyc\", \"b.pyc\"]"),
        other => panic!("expected a failure, got {:?}", other),
    }
    assert!(matches!(lib.check_no_files_matching("[", None), CheckResult::Error(m) if m == "Invalid glob pattern: ["));
}

#[test]
fn files_max_size() {
    let lib = FilesLibrary::new();
    let scope = Scope::new(ScopeKind::Folder("src".to_string())).with_paths(vec!["a".to_string(), "b".to_string()]);
    assert!(lib.check_max_size(&scope, &vec![Some(10), None], 10).is_pass());
    match lib.check_max_size(&scope, &vec![Some(10), Some(11)], 10) {
        CheckResult::Fail(m) => assert_eq!(m, "File 'b' exceeds maximum size (11 > 10 bytes)"),
        other => panic!("expected a failure, got {:?}", other),
    }
}

#[test]
fn sorted_unique_paths() {
    let v = vec!["b".to_string(), "a".to_string(), "b".to_string(), "ab".to_string()];
    assert_eq!(sorted_unique(v), vec!["a".to_string(), "ab".to_string(), "b".to_string()]);
}

#[test]
fn python_skips_egg_info_directories() {
    assert!(hielements::stdlib::python::is_excluded_dir("mypkg.egg-info"));
    assert!(hielements::stdlib::python::is_excluded_dir(".egg-info"));
    assert!(hielements::stdlib::python::is_excluded_dir("__pycache__"));
    assert!(!hielements::stdlib::python::is_excluded_dir("egg-info"));
    assert!(!hielements::stdlib::python::is_excluded_dir("src"));
}

#[test]
fn escaping_matches_the_regex_crate() {
    use_escape("a.b(c)", "a\\.b\\(c\\)");
    use_escape("my-mod~x#1&$", "my\\-mod\\~x\\#1\\&\\$");
    use_escape("plain_name", "plain_name");
    for s in ["a.b", "[x]{y}", "^\\|*+?", "", "naïve-ü"] {
        assert_eq!(hielements::stdlib::pattern::escape_regex(s), regex::escape(s));
    }
}

fn use_escape(s: &str, expected: &str) {
    assert_eq!(hielements::stdlib::pattern::escape_regex(s), expected);
}

#[test]
fn crate_manifests_in_search_order() {
    let lib = RustLibrary::new();
    let (manifests, glob) = lib.manifest_candidates("/ws", "core");
    assert_eq!(manifests, vec![
        "/ws/Cargo.toml".to_string(),
        "/ws/crates/core/Cargo.toml".to_string(),
        "/ws/core/Cargo.toml".to_string(),
    ]);
    assert_eq!(glob, "/ws/crates/*/Cargo.toml");
}
