use hielements::doc::{generate_function_markdown, generate_library_markdown, DocumentationCatalog, FunctionDoc, LibraryDoc};

#[test]
fn test_function_doc_builder() {
    let func = FunctionDoc::new("file_selector", "Select a file by path")
        .with_param("path", "string", "Path to the file")
        .with_return_type("Scope")
        .with_example("scope main = files.file_selector('main.rs')");

    assert_eq!(func.name, "file_selector");
    assert_eq!(func.parameters.len(), 1);
    assert_eq!(func.return_type, "Scope");
    assert!(func.example.is_some());
}

#[test]
fn test_library_doc_builder() {
    let lib = LibraryDoc::new("files")
        .with_description("File system operations")
        .with_version("1.0.0")
        .with_function(FunctionDoc::new("file_selector", "Select a file"));

    assert_eq!(lib.name, "files");
    assert_eq!(lib.functions.len(), 1);
}

#[test]
fn test_catalog_markdown() {
    let mut catalog = DocumentationCatalog::new();
    catalog.add_library(
        LibraryDoc::new("files")
            .with_description("File operations")
            .with_function(
                FunctionDoc::new("file_selector", "Select files")
                    .with_param("path", "string", "File path")
                    .with_return_type("Scope")
            )
    );

    let md = catalog.to_markdown();
    assert!(md.contains("# Hielements Library Documentation"));
    assert!(md.contains("## files"));
    assert!(md.contains("file_selector"));
}

#[test]
fn catalog_markdown_starts_with_title() {
    let catalog = DocumentationCatalog::new();
    let md = catalog.to_markdown();
    assert!(md.starts_with("# Hielements Library Documentation"));
}

#[test]
fn function_markdown_lists_parameters() {
    let func = FunctionDoc::new("exists", "Check that a file exists")
        .with_param("scope", "Scope", "Where to look")
        .with_param("name", "string", "File name")
        .with_return_type("bool");
    let md = generate_function_markdown(&func, "files");
    assert!(md.contains("files.exists"));
    assert!(md.contains("scope"));
    assert!(md.contains("File name"));
}

#[test]
fn library_markdown_names_the_library() {
    let lib = LibraryDoc::new("rust")
        .with_description("Rust code analysis")
        .with_version("0.1.0")
        .with_check(FunctionDoc::new("has_tests", "Check for tests"));
    let md = generate_library_markdown(&lib);
    assert!(md.contains("rust"));
    assert!(md.contains("Rust code analysis"));
    assert!(md.contains("has_tests"));
}

#[test]
fn select_libraries_by_name() {
    let mut catalog = DocumentationCatalog::new();
    catalog.add_library(LibraryDoc::new("files"));
    catalog.add_library(LibraryDoc::new("rust"));
    catalog.add_library(LibraryDoc::new("python"));
    assert_eq!(catalog.select_libraries(None), vec![0, 1, 2]);
    assert_eq!(catalog.select_libraries(Some("rust")), vec![1]);
    assert!(catalog.select_libraries(Some("go")).is_empty());
}
