use hielements::ast::{ComponentSpec, RequirementAction};
use hielements::parser::Parser;


    #[test]
    fn test_parse_simple_element() {
        let source = r#"element test:
    scope src = files.folder_selector('src')
    check files.exists(src, 'main.py')
"#;
        let parser = Parser::new(source, "test.hie");
        let (program, diagnostics) = parser.parse();

        assert!(!diagnostics.has_errors(), "Errors: {:?}", diagnostics);
        let program = program.unwrap();
        assert_eq!(program.elements.len(), 1);
        assert_eq!(program.elements[0].name.name, "test");
        assert_eq!(program.elements[0].scopes.len(), 1);
        assert_eq!(program.elements[0].checks.len(), 1);
    }

    #[test]
    fn test_parse_with_imports() {
        let source = r#"import python
import docker as d

element service:
    scope module = python.module_selector('main')
"#;
        let parser = Parser::new(source, "test.hie");
        let (program, diagnostics) = parser.parse();

        assert!(!diagnostics.has_errors(), "Errors: {:?}", diagnostics);
        let program = program.unwrap();
        assert_eq!(program.imports.len(), 2);
        assert_eq!(program.elements.len(), 1);
    }

    #[test]
    fn test_parse_nested_elements() {
        let source = r#"element parent:
    element child:
        scope src = files.folder_selector('src')
"#;
        let parser = Parser::new(source, "test.hie");
        let (program, diagnostics) = parser.parse();

        assert!(!diagnostics.has_errors(), "Errors: {:?}", diagnostics);
        let program = program.unwrap();
        assert_eq!(program.elements.len(), 1);
        assert_eq!(program.elements[0].children.len(), 1);
        assert_eq!(program.elements[0].children[0].name.name, "child");
    }

    #[test]
    fn test_parse_template_declaration() {
        let source = r#"template compiler:
    element lexer:
        connection_point tokens: TokenStream = rust.function_selector('tokenize')
    element parser:
        connection_point ast: AbstractSyntaxTree = rust.function_selector('parse')
    check compiler.lexer.tokens.compatible_with(compiler.parser.input)
"#;
        let parser = Parser::new(source, "test.hie");
        let (program, diagnostics) = parser.parse();

        assert!(!diagnostics.has_errors(), "Errors: {:?}", diagnostics);
        let program = program.unwrap();
        assert_eq!(program.templates.len(), 1);
        assert_eq!(program.templates[0].name.name, "compiler");
        assert_eq!(program.templates[0].elements.len(), 2);
        assert_eq!(program.templates[0].elements[0].name.name, "lexer");
        assert_eq!(program.templates[0].elements[1].name.name, "parser");
        assert_eq!(program.templates[0].checks.len(), 1);
    }

    #[test]
    fn test_parse_template_implementation() {
        let source = r#"element my_compiler implements compiler:
    scope src = files.folder_selector('src')
    compiler.lexer.scope = rust.module_selector('lexer')
    compiler.parser.scope = rust.module_selector('parser')
"#;
        let parser = Parser::new(source, "test.hie");
        let (program, diagnostics) = parser.parse();

        assert!(!diagnostics.has_errors(), "Errors: {:?}", diagnostics);
        let program = program.unwrap();
        assert_eq!(program.elements.len(), 1);
        assert_eq!(program.elements[0].name.name, "my_compiler");
        assert_eq!(program.elements[0].implements.len(), 1);
        assert_eq!(program.elements[0].implements[0].template_name.name, "compiler");
        assert_eq!(program.elements[0].template_bindings.len(), 2);
        
        // Check first binding
        let binding1 = &program.elements[0].template_bindings[0];
        assert_eq!(binding1.path.len(), 3);
        assert_eq!(binding1.path[0].name, "compiler");
        assert_eq!(binding1.path[1].name, "lexer");
        assert_eq!(binding1.path[2].name, "scope");
        
        // Check second binding
        let binding2 = &program.elements[0].template_bindings[1];
        assert_eq!(binding2.path.len(), 3);
        assert_eq!(binding2.path[0].name, "compiler");
        assert_eq!(binding2.path[1].name, "parser");
        assert_eq!(binding2.path[2].name, "scope");
    }

    #[test]
    fn test_parse_multiple_template_implementation() {
        let source = r#"element my_service implements microservice, observable:
    scope config = files.file_selector('config.yaml')
    microservice.api.scope = rust.module_selector('api')
    observable.metrics.scope = rust.module_selector('metrics')
"#;
        let parser = Parser::new(source, "test.hie");
        let (program, diagnostics) = parser.parse();

        assert!(!diagnostics.has_errors(), "Errors: {:?}", diagnostics);
        let program = program.unwrap();
        assert_eq!(program.elements.len(), 1);
        assert_eq!(program.elements[0].implements.len(), 2);
        assert_eq!(program.elements[0].implements[0].template_name.name, "microservice");
        assert_eq!(program.elements[0].implements[1].template_name.name, "observable");
        assert_eq!(program.elements[0].template_bindings.len(), 2);
    }

    #[test]
    fn test_parse_template_with_scopes_and_checks() {
        let source = r#"template microservice:
    scope config = files.file_selector('config.yaml')
    
    element api:
        connection_point endpoint: HttpHandler = rust.function_selector('api_handler')
    
    check microservice.api.endpoint.is_valid()
"#;
        let parser = Parser::new(source, "test.hie");
        let (program, diagnostics) = parser.parse();

        assert!(!diagnostics.has_errors(), "Errors: {:?}", diagnostics);
        let program = program.unwrap();
        assert_eq!(program.templates.len(), 1);
        assert_eq!(program.templates[0].scopes.len(), 1);
        assert_eq!(program.templates[0].elements.len(), 1);
        assert_eq!(program.templates[0].checks.len(), 1);
    }

    #[test]
    fn test_parse_connection_point_with_type() {
        let source = r#"element api_service:
    connection_point port: integer = docker.exposed_port(dockerfile)
    connection_point url: string = config.get_api_url()
    connection_point enabled: boolean = config.get_flag('api_enabled')
"#;
        let parser = Parser::new(source, "test.hie");
        let (program, diagnostics) = parser.parse();

        assert!(!diagnostics.has_errors(), "Errors: {:?}", diagnostics);
        let program = program.unwrap();
        assert_eq!(program.elements.len(), 1);
        let element = &program.elements[0];
        assert_eq!(element.refs.len(), 3);
        
        // Check first connection point with type
        assert_eq!(element.refs[0].name.name, "port");
        assert_eq!(element.refs[0].type_annotation.type_ident.name, "integer");
        
        // Check second connection point with type
        assert_eq!(element.refs[1].name.name, "url");
        assert_eq!(element.refs[1].type_annotation.type_ident.name, "string");
        
        // Check third connection point with type
        assert_eq!(element.refs[2].name.name, "enabled");
        assert_eq!(element.refs[2].type_annotation.type_ident.name, "boolean");
    }

    #[test]
    fn test_parse_connection_point_without_type_fails() {
        let source = r#"element api_service:
    connection_point endpoint = python.public_functions(module)
"#;
        let parser = Parser::new(source, "test.hie");
        let (_program, diagnostics) = parser.parse();

        // Should have errors because type annotation is mandatory
        assert!(diagnostics.has_errors(), "Expected error for missing type annotation");
    }

    #[test]
    fn test_parse_connection_point_with_custom_type() {
        let source = r#"template compiler:
    element lexer:
        connection_point tokens: TokenStream = rust.struct_selector('Token')
    element parser:
        connection_point ast: AbstractSyntaxTree = rust.struct_selector('Program')
"#;
        let parser = Parser::new(source, "test.hie");
        let (program, diagnostics) = parser.parse();

        assert!(!diagnostics.has_errors(), "Errors: {:?}", diagnostics);
        let program = program.unwrap();
        assert_eq!(program.templates.len(), 1);
        let template = &program.templates[0];
        assert_eq!(template.elements.len(), 2);
        
        // Check lexer connection point with custom type
        let lexer = &template.elements[0];
        assert_eq!(lexer.refs[0].name.name, "tokens");
        assert_eq!(lexer.refs[0].type_annotation.type_ident.name, "TokenStream");
        
        // Check parser connection point with custom type
        let parser_elem = &template.elements[1];
        assert_eq!(parser_elem.refs[0].name.name, "ast");
        assert_eq!(parser_elem.refs[0].type_annotation.type_ident.name, "AbstractSyntaxTree");
    }

    // ========================================================================
    // Tests for unified syntax: requires/allows/forbids [descendant] ...
    // ========================================================================

    #[test]
    fn test_parse_requires_descendant_scope() {
        let source = r#"template dockerized:
    requires descendant scope dockerfile = docker.file_selector('Dockerfile')
"#;
        let parser = Parser::new(source, "test.hie");
        let (program, diagnostics) = parser.parse();

        assert!(!diagnostics.has_errors(), "Errors: {:?}", diagnostics);
        let program = program.unwrap();
        assert_eq!(program.templates.len(), 1);
        let template = &program.templates[0];
        assert_eq!(template.component_requirements.len(), 1);
        
        let req = &template.component_requirements[0];
        assert!(matches!(req.action, RequirementAction::Requires));
        assert!(req.is_descendant);
        
        match &req.component {
            ComponentSpec::Scope(scope) => {
                assert_eq!(scope.name.name, "dockerfile");
            }
            _ => panic!("Expected scope component"),
        }
    }

    #[test]
    fn test_parse_requires_descendant_element() {
        let source = r#"template observable:
    requires descendant element metrics_service implements metrics_provider
"#;
        let parser = Parser::new(source, "test.hie");
        let (program, diagnostics) = parser.parse();

        assert!(!diagnostics.has_errors(), "Errors: {:?}", diagnostics);
        let program = program.unwrap();
        assert_eq!(program.templates.len(), 1);
        let template = &program.templates[0];
        assert_eq!(template.component_requirements.len(), 1);
        
        let req = &template.component_requirements[0];
        assert!(matches!(req.action, RequirementAction::Requires));
        assert!(req.is_descendant);
        
        match &req.component {
            ComponentSpec::Element { name, implements, .. } => {
                assert_eq!(name.name, "metrics_service");
                assert_eq!(implements.as_ref().unwrap().name, "metrics_provider");
            }
            _ => panic!("Expected element component"),
        }
    }

    #[test]
    fn test_parse_forbids_descendant_connection_point() {
        let source = r#"template secure_zone:
    forbids descendant connection_point external_api: HttpHandler
"#;
        let parser = Parser::new(source, "test.hie");
        let (program, diagnostics) = parser.parse();

        assert!(!diagnostics.has_errors(), "Errors: {:?}", diagnostics);
        let program = program.unwrap();
        assert_eq!(program.templates.len(), 1);
        let template = &program.templates[0];
        assert_eq!(template.component_requirements.len(), 1);
        
        let req = &template.component_requirements[0];
        assert!(matches!(req.action, RequirementAction::Forbids));
        assert!(req.is_descendant);
        
        match &req.component {
            ComponentSpec::Ref { name, type_annotation, .. } => {
                assert_eq!(name.name, "external_api");
                assert_eq!(type_annotation.type_ident.name, "HttpHandler");
            }
            _ => panic!("Expected connection_point component"),
        }
    }

    #[test]
    fn test_parse_allows_connection() {
        let source = r#"template frontend_zone:
    allows connection to api_gateway.public_api
"#;
        let parser = Parser::new(source, "test.hie");
        let (program, diagnostics) = parser.parse();

        assert!(!diagnostics.has_errors(), "Errors: {:?}", diagnostics);
        let program = program.unwrap();
        assert_eq!(program.templates.len(), 1);
        let template = &program.templates[0];
        assert_eq!(template.component_requirements.len(), 1);
        
        let req = &template.component_requirements[0];
        assert!(matches!(req.action, RequirementAction::Allows));
        assert!(!req.is_descendant);
        
        match &req.component {
            ComponentSpec::Connection(pattern) => {
                assert_eq!(pattern.path.len(), 2);
                assert_eq!(pattern.path[0].name, "api_gateway");
                assert_eq!(pattern.path[1].name, "public_api");
                assert!(!pattern.wildcard);
            }
            _ => panic!("Expected connection component"),
        }
    }

    #[test]
    fn test_parse_forbids_connection_with_wildcard() {
        let source = r#"template secure_zone:
    forbids connection to external.*
"#;
        let parser = Parser::new(source, "test.hie");
        let (program, diagnostics) = parser.parse();

        assert!(!diagnostics.has_errors(), "Errors: {:?}", diagnostics);
        let program = program.unwrap();
        assert_eq!(program.templates.len(), 1);
        let template = &program.templates[0];
        assert_eq!(template.component_requirements.len(), 1);
        
        let req = &template.component_requirements[0];
        assert!(matches!(req.action, RequirementAction::Forbids));
        assert!(!req.is_descendant);
        
        match &req.component {
            ComponentSpec::Connection(pattern) => {
                assert_eq!(pattern.path.len(), 1);
                assert_eq!(pattern.path[0].name, "external");
                assert!(pattern.wildcard);
            }
            _ => panic!("Expected connection component"),
        }
    }

    #[test]
    fn test_parse_requires_element_immediate() {
        // Without 'descendant' modifier - requires immediate child
        let source = r#"template microservice:
    requires element api implements api_handler
"#;
        let parser = Parser::new(source, "test.hie");
        let (program, diagnostics) = parser.parse();

        assert!(!diagnostics.has_errors(), "Errors: {:?}", diagnostics);
        let program = program.unwrap();
        assert_eq!(program.templates.len(), 1);
        let template = &program.templates[0];
        assert_eq!(template.component_requirements.len(), 1);
        
        let req = &template.component_requirements[0];
        assert!(matches!(req.action, RequirementAction::Requires));
        assert!(!req.is_descendant); // Not descendant - immediate child
        
        match &req.component {
            ComponentSpec::Element { name, implements, .. } => {
                assert_eq!(name.name, "api");
                assert_eq!(implements.as_ref().unwrap().name, "api_handler");
            }
            _ => panic!("Expected element component"),
        }
    }

    #[test]
    fn test_parse_requires_descendant_implements_shorthand() {
        // Shorthand: requires descendant implements template_name
        let source = r#"template production_ready:
    requires descendant implements dockerized
"#;
        let parser = Parser::new(source, "test.hie");
        let (program, diagnostics) = parser.parse();

        assert!(!diagnostics.has_errors(), "Errors: {:?}", diagnostics);
        let program = program.unwrap();
        assert_eq!(program.templates.len(), 1);
        let template = &program.templates[0];
        assert_eq!(template.component_requirements.len(), 1);
        
        let req = &template.component_requirements[0];
        assert!(matches!(req.action, RequirementAction::Requires));
        assert!(req.is_descendant);
        
        match &req.component {
            ComponentSpec::Element { implements, .. } => {
                assert_eq!(implements.as_ref().unwrap().name, "dockerized");
            }
            _ => panic!("Expected element component with implements"),
        }
    }

    #[test]
    fn test_parse_all_requirement_types() {
        let source = r#"template complete:
    requires descendant scope config = files.file_selector('config.yaml')
    requires descendant check files.exists(config, 'required.txt')
    allows connection to api.*
    forbids connection to external.*
    requires connection to logging.output
"#;
        let parser = Parser::new(source, "test.hie");
        let (program, diagnostics) = parser.parse();

        assert!(!diagnostics.has_errors(), "Errors: {:?}", diagnostics);
        let program = program.unwrap();
        assert_eq!(program.templates.len(), 1);
        let template = &program.templates[0];
        assert_eq!(template.component_requirements.len(), 5);
    }

    #[test]
    fn test_parse_element_with_body() {
        let source = r#"template observable:
    requires descendant element metrics:
        scope module = rust.module_selector('metrics')
        connection_point handler: MetricsHandler = rust.function_selector(module, 'handler')
"#;
        let parser = Parser::new(source, "test.hie");
        let (program, diagnostics) = parser.parse();

        assert!(!diagnostics.has_errors(), "Errors: {:?}", diagnostics);
        let program = program.unwrap();
        assert_eq!(program.templates.len(), 1);
        let template = &program.templates[0];
        assert_eq!(template.component_requirements.len(), 1);
        
        let req = &template.component_requirements[0];
        assert!(req.is_descendant);
        
        match &req.component {
            ComponentSpec::Element { name, body, .. } => {
                assert_eq!(name.name, "metrics");
                let body = body.as_ref().expect("Expected element body");
                assert_eq!(body.scopes.len(), 1);
                assert_eq!(body.refs.len(), 1);
            }
            _ => panic!("Expected element component with body"),
        }
    }

    #[test]
    fn test_parse_requires_check() {
        let source = r#"template validated:
    requires descendant check files.exists(src, 'README.md')
"#;
        let parser = Parser::new(source, "test.hie");
        let (program, diagnostics) = parser.parse();

        assert!(!diagnostics.has_errors(), "Errors: {:?}", diagnostics);
        let program = program.unwrap();
        assert_eq!(program.templates.len(), 1);
        let template = &program.templates[0];
        assert_eq!(template.component_requirements.len(), 1);
        
        let req = &template.component_requirements[0];
        assert!(matches!(req.action, RequirementAction::Requires));
        assert!(req.is_descendant);
        
        match &req.component {
            ComponentSpec::Check(_) => (),
            _ => panic!("Expected check component"),
        }
    }

    #[test]
    fn test_parse_requires_in_element_fails() {
        // requires/allows/forbids should only be allowed in templates, not elements
        let source = r#"element test_element:
    scope src = files.folder_selector('src')
    requires connection to logging.*
"#;
        let parser = Parser::new(source, "test.hie");
        let (_program, diagnostics) = parser.parse();

        // Should have errors because requires is not allowed in elements
        assert!(diagnostics.has_errors(), "Expected error for 'requires' in element");
        // Check that the error message mentions templates
        let error_msg = diagnostics.iter().next().unwrap().message.clone();
        assert!(error_msg.contains("template"), "Error message should mention templates: {}", error_msg);
    }

    #[test]
    fn test_parse_allows_in_element_fails() {
        // requires/allows/forbids should only be allowed in templates, not elements
        let source = r#"element test_element:
    allows connection to api.*
"#;
        let parser = Parser::new(source, "test.hie");
        let (_program, diagnostics) = parser.parse();

        // Should have errors because allows is not allowed in elements
        assert!(diagnostics.has_errors(), "Expected error for 'allows' in element");
    }

    #[test]
    fn test_parse_forbids_in_element_fails() {
        // requires/allows/forbids should only be allowed in templates, not elements
        let source = r#"element test_element:
    forbids connection to external.*
"#;
        let parser = Parser::new(source, "test.hie");
        let (_program, diagnostics) = parser.parse();

        // Should have errors because forbids is not allowed in elements
        assert!(diagnostics.has_errors(), "Expected error for 'forbids' in element");
    }

    // ========================================================================
    // Tests for language declarations and connection checks
    // ========================================================================

    #[test]
    fn test_parse_simple_language_declaration() {
        let source = r#"language python
"#;
        let parser = Parser::new(source, "test.hie");
        let (program, diagnostics) = parser.parse();

        assert!(!diagnostics.has_errors(), "Errors: {:?}", diagnostics);
        let program = program.unwrap();
        assert_eq!(program.languages.len(), 1);
        assert_eq!(program.languages[0].name.name, "python");
        assert!(program.languages[0].connection_checks.is_empty());
    }

    #[test]
    fn test_parse_multiple_language_declarations() {
        let source = r#"language python
language rust
language java
"#;
        let parser = Parser::new(source, "test.hie");
        let (program, diagnostics) = parser.parse();

        assert!(!diagnostics.has_errors(), "Errors: {:?}", diagnostics);
        let program = program.unwrap();
        assert_eq!(program.languages.len(), 3);
        assert_eq!(program.languages[0].name.name, "python");
        assert_eq!(program.languages[1].name.name, "rust");
        assert_eq!(program.languages[2].name.name, "java");
    }

    #[test]
    fn test_parse_language_with_connection_check() {
        let source = r#"language python:
    connection_check can_import(source: scope[], target: scope[]):
        python.imports_allowed(source, target)
"#;
        let parser = Parser::new(source, "test.hie");
        let (program, diagnostics) = parser.parse();

        assert!(!diagnostics.has_errors(), "Errors: {:?}", diagnostics);
        let program = program.unwrap();
        assert_eq!(program.languages.len(), 1);
        assert_eq!(program.languages[0].name.name, "python");
        assert_eq!(program.languages[0].connection_checks.len(), 1);
        
        let check = &program.languages[0].connection_checks[0];
        assert_eq!(check.name.name, "can_import");
        assert_eq!(check.parameters.len(), 2);
        assert_eq!(check.parameters[0].name.name, "source");
        assert_eq!(check.parameters[1].name.name, "target");
    }

    #[test]
    fn test_parse_scope_with_language() {
        let source = r#"element test:
    scope src : python = python.module_selector('test')
"#;
        let parser = Parser::new(source, "test.hie");
        let (program, diagnostics) = parser.parse();

        assert!(!diagnostics.has_errors(), "Errors: {:?}", diagnostics);
        let program = program.unwrap();
        assert_eq!(program.elements.len(), 1);
        assert_eq!(program.elements[0].scopes.len(), 1);
        
        let scope = &program.elements[0].scopes[0];
        assert_eq!(scope.name.name, "src");
        assert!(scope.language.is_some());
        assert_eq!(scope.language.as_ref().unwrap().name, "python");
    }

    #[test]
    fn test_parse_scope_without_language() {
        // Should still work without language annotation
        let source = r#"element test:
    scope src = files.folder_selector('src')
"#;
        let parser = Parser::new(source, "test.hie");
        let (program, diagnostics) = parser.parse();

        assert!(!diagnostics.has_errors(), "Errors: {:?}", diagnostics);
        let program = program.unwrap();
        assert_eq!(program.elements.len(), 1);
        assert_eq!(program.elements[0].scopes.len(), 1);
        
        let scope = &program.elements[0].scopes[0];
        assert_eq!(scope.name.name, "src");
        assert!(scope.language.is_none());
    }

    #[test]
    fn test_parse_requires_language() {
        let source = r#"template python_only:
    requires language python
"#;
        let parser = Parser::new(source, "test.hie");
        let (program, diagnostics) = parser.parse();

        assert!(!diagnostics.has_errors(), "Errors: {:?}", diagnostics);
        let program = program.unwrap();
        assert_eq!(program.templates.len(), 1);
        let template = &program.templates[0];
        assert_eq!(template.component_requirements.len(), 1);
        
        let req = &template.component_requirements[0];
        assert!(matches!(req.action, RequirementAction::Requires));
        assert!(!req.is_descendant);
        
        match &req.component {
            ComponentSpec::Language(lang) => {
                assert_eq!(lang.name, "python");
            }
            _ => panic!("Expected language component"),
        }
    }

    #[test]
    fn test_parse_forbids_language() {
        let source = r#"template no_rust:
    forbids language rust
"#;
        let parser = Parser::new(source, "test.hie");
        let (program, diagnostics) = parser.parse();

        assert!(!diagnostics.has_errors(), "Errors: {:?}", diagnostics);
        let program = program.unwrap();
        assert_eq!(program.templates.len(), 1);
        let template = &program.templates[0];
        assert_eq!(template.component_requirements.len(), 1);
        
        let req = &template.component_requirements[0];
        assert!(matches!(req.action, RequirementAction::Forbids));
        
        match &req.component {
            ComponentSpec::Language(lang) => {
                assert_eq!(lang.name, "rust");
            }
            _ => panic!("Expected language component"),
        }
    }

    #[test]
    fn test_parse_allows_language() {
        let source = r#"template multilingual:
    allows language python
    allows language rust
"#;
        let parser = Parser::new(source, "test.hie");
        let (program, diagnostics) = parser.parse();

        assert!(!diagnostics.has_errors(), "Errors: {:?}", diagnostics);
        let program = program.unwrap();
        assert_eq!(program.templates.len(), 1);
        let template = &program.templates[0];
        assert_eq!(template.component_requirements.len(), 2);
        
        // Check first requirement
        assert!(matches!(template.component_requirements[0].action, RequirementAction::Allows));
        match &template.component_requirements[0].component {
            ComponentSpec::Language(lang) => assert_eq!(lang.name, "python"),
            _ => panic!("Expected language component"),
        }
        
        // Check second requirement
        assert!(matches!(template.component_requirements[1].action, RequirementAction::Allows));
        match &template.component_requirements[1].component {
            ComponentSpec::Language(lang) => assert_eq!(lang.name, "rust"),
            _ => panic!("Expected language component"),
        }
    }

    #[test]
    fn test_parse_complete_language_example() {
        let source = r#"language python:
    connection_check can_import(source: scope[], target: scope[]):
        python.imports_allowed(source, target)
    connection_check no_circular(scopes: scope[]):
        python.no_circular_imports(scopes)

template python_service:
    requires language python
    forbids language rust

element my_api implements python_service:
    scope src : python = python.module_selector('my_api')
    check python.has_docstrings(src)
"#;
        let parser = Parser::new(source, "test.hie");
        let (program, diagnostics) = parser.parse();

        assert!(!diagnostics.has_errors(), "Errors: {:?}", diagnostics);
        let program = program.unwrap();
        
        // Check language declaration
        assert_eq!(program.languages.len(), 1);
        assert_eq!(program.languages[0].name.name, "python");
        assert_eq!(program.languages[0].connection_checks.len(), 2);
        
        // Check template
        assert_eq!(program.templates.len(), 1);
        assert_eq!(program.templates[0].component_requirements.len(), 2);
        
        // Check element
        assert_eq!(program.elements.len(), 1);
        assert_eq!(program.elements[0].scopes.len(), 1);
        assert!(program.elements[0].scopes[0].language.is_some());
    }

    // ========================================================================
    // Tests for V2 syntax: angular brackets, binds keyword, unbounded scopes
    // ========================================================================

    #[test]
    fn test_parse_v2_angular_bracket_language() {
        let source = r#"element test:
    scope src<rust> = rust.module_selector('test')
"#;
        let parser = Parser::new(source, "test.hie");
        let (program, diagnostics) = parser.parse();

        assert!(!diagnostics.has_errors(), "Errors: {:?}", diagnostics);
        let program = program.unwrap();
        assert_eq!(program.elements.len(), 1);
        assert_eq!(program.elements[0].scopes.len(), 1);
        
        let scope = &program.elements[0].scopes[0];
        assert_eq!(scope.name.name, "src");
        assert!(scope.language.is_some());
        assert_eq!(scope.language.as_ref().unwrap().name, "rust");
        assert!(scope.expression.is_some());
    }

    #[test]
    fn test_parse_v2_unbounded_scope_in_template() {
        let source = r#"template observable:
    element metrics:
        scope module<rust>
        connection_point prometheus: MetricsHandler
"#;
        let parser = Parser::new(source, "test.hie");
        let (program, diagnostics) = parser.parse();

        assert!(!diagnostics.has_errors(), "Errors: {:?}", diagnostics);
        let program = program.unwrap();
        assert_eq!(program.templates.len(), 1);
        let template = &program.templates[0];
        assert_eq!(template.elements.len(), 1);
        
        let metrics = &template.elements[0];
        assert_eq!(metrics.scopes.len(), 1);
        
        let scope = &metrics.scopes[0];
        assert_eq!(scope.name.name, "module");
        assert!(scope.language.is_some());
        assert_eq!(scope.language.as_ref().unwrap().name, "rust");
        // Unbounded scope - no expression
        assert!(scope.expression.is_none());
        
        // Connection point - unbounded
        assert_eq!(metrics.refs.len(), 1);
        let cp = &metrics.refs[0];
        assert_eq!(cp.name.name, "prometheus");
        assert_eq!(cp.type_annotation.type_ident.name, "MetricsHandler");
        assert!(cp.expression.is_none());
    }

    #[test]
    fn test_parse_v2_scope_with_binds() {
        let source = r#"element component implements observable:
    scope main_module<rust> binds observable.metrics.module = rust.module_selector('api')
"#;
        let parser = Parser::new(source, "test.hie");
        let (program, diagnostics) = parser.parse();

        assert!(!diagnostics.has_errors(), "Errors: {:?}", diagnostics);
        let program = program.unwrap();
        assert_eq!(program.elements.len(), 1);
        
        let element = &program.elements[0];
        assert_eq!(element.scopes.len(), 1);
        
        let scope = &element.scopes[0];
        assert_eq!(scope.name.name, "main_module");
        assert!(scope.language.is_some());
        assert_eq!(scope.language.as_ref().unwrap().name, "rust");
        
        // Check binds path
        assert!(scope.binds.is_some());
        let binds = scope.binds.as_ref().unwrap();
        assert_eq!(binds.len(), 3);
        assert_eq!(binds[0].name, "observable");
        assert_eq!(binds[1].name, "metrics");
        assert_eq!(binds[2].name, "module");
        
        // Check expression
        assert!(scope.expression.is_some());
    }

    #[test]
    fn test_parse_v2_connection_point_with_binds() {
        let source = r#"element component implements observable:
    connection_point handler: MetricsHandler binds observable.metrics.prometheus = rust.function_selector(module, 'handler')
"#;
        let parser = Parser::new(source, "test.hie");
        let (program, diagnostics) = parser.parse();

        assert!(!diagnostics.has_errors(), "Errors: {:?}", diagnostics);
        let program = program.unwrap();
        assert_eq!(program.elements.len(), 1);
        
        let element = &program.elements[0];
        assert_eq!(element.refs.len(), 1);
        
        let cp = &element.refs[0];
        assert_eq!(cp.name.name, "handler");
        assert_eq!(cp.type_annotation.type_ident.name, "MetricsHandler");
        
        // Check binds path
        assert!(cp.binds.is_some());
        let binds = cp.binds.as_ref().unwrap();
        assert_eq!(binds.len(), 3);
        assert_eq!(binds[0].name, "observable");
        assert_eq!(binds[1].name, "metrics");
        assert_eq!(binds[2].name, "prometheus");
        
        // Check expression
        assert!(cp.expression.is_some());
    }

    #[test]
    fn test_parse_v2_complete_template_and_implementation() {
        let source = r#"template observable:
    allows language rust
    element metrics:
        scope module<rust>
        connection_point prometheus: MetricsHandler

element observable_component implements observable:
    scope main_module<rust> binds observable.metrics.module = rust.module_selector('payments::api')
    connection_point main_handler: MetricsHandler binds observable.metrics.prometheus = rust.function_selector(main_module, 'handler')
"#;
        let parser = Parser::new(source, "test.hie");
        let (program, diagnostics) = parser.parse();

        assert!(!diagnostics.has_errors(), "Errors: {:?}", diagnostics);
        let program = program.unwrap();
        
        // Check template
        assert_eq!(program.templates.len(), 1);
        let template = &program.templates[0];
        assert_eq!(template.name.name, "observable");
        assert_eq!(template.elements.len(), 1);
        assert_eq!(template.component_requirements.len(), 1); // allows language rust
        
        // Check template element has unbounded scope
        let template_metrics = &template.elements[0];
        assert!(template_metrics.scopes[0].expression.is_none());
        assert!(template_metrics.refs[0].expression.is_none());
        
        // Check element implementation
        assert_eq!(program.elements.len(), 1);
        let element = &program.elements[0];
        assert_eq!(element.name.name, "observable_component");
        assert_eq!(element.implements.len(), 1);
        assert_eq!(element.implements[0].template_name.name, "observable");
        
        // Check element has bound scope
        assert_eq!(element.scopes.len(), 1);
        let scope = &element.scopes[0];
        assert!(scope.binds.is_some());
        assert!(scope.expression.is_some());
        
        // Check element has bound connection point
        assert_eq!(element.refs.len(), 1);
        let cp = &element.refs[0];
        assert!(cp.binds.is_some());
        assert!(cp.expression.is_some());
    }

    #[test]
    fn test_parse_v2_unbounded_scope_in_element_fails() {
        // Unbounded scopes are only allowed in templates, not in regular elements
        let source = r#"element test:
    scope src<rust>
"#;
        let parser = Parser::new(source, "test.hie");
        let (_program, diagnostics) = parser.parse();

        // Should have errors because unbounded scope is not allowed in elements
        assert!(diagnostics.has_errors(), "Expected error for unbounded scope in element");
        let error_msg = diagnostics.iter().next().unwrap().message.clone();
        assert!(error_msg.contains("only allowed in templates"), "Error message should mention templates: {}", error_msg);
    }

    #[test]
    fn test_parse_v2_unbounded_connection_point_in_element_fails() {
        // Unbounded connection points are only allowed in templates, not in regular elements
        let source = r#"element test:
    connection_point api: HttpHandler
"#;
        let parser = Parser::new(source, "test.hie");
        let (_program, diagnostics) = parser.parse();

        // Should have errors because unbounded connection point is not allowed in elements
        assert!(diagnostics.has_errors(), "Expected error for unbounded connection point in element");
        let error_msg = diagnostics.iter().next().unwrap().message.clone();
        assert!(error_msg.contains("only allowed in templates"), "Error message should mention templates: {}", error_msg);
    }

    // ========================================================================
    // Tests for V3 syntax: curly brackets, ref keyword, uses keyword
    // ========================================================================

    #[test]
    fn test_parse_curly_brackets_element() {
        let source = r#"element test {
    scope src = files.folder_selector('src')
    check files.exists(src, 'main.py')
}
"#;
        let parser = Parser::new(source, "test.hie");
        let (program, diagnostics) = parser.parse();

        assert!(!diagnostics.has_errors(), "Errors: {:?}", diagnostics);
        let program = program.unwrap();
        assert_eq!(program.elements.len(), 1);
        assert_eq!(program.elements[0].name.name, "test");
        assert_eq!(program.elements[0].scopes.len(), 1);
        assert_eq!(program.elements[0].checks.len(), 1);
    }

    #[test]
    fn test_parse_curly_brackets_template() {
        let source = r#"template observable {
    element metrics {
        scope module<rust>
        ref prometheus: MetricsHandler
    }
}
"#;
        let parser = Parser::new(source, "test.hie");
        let (program, diagnostics) = parser.parse();

        assert!(!diagnostics.has_errors(), "Errors: {:?}", diagnostics);
        let program = program.unwrap();
        assert_eq!(program.templates.len(), 1);
        assert_eq!(program.templates[0].name.name, "observable");
        assert_eq!(program.templates[0].elements.len(), 1);
        
        let metrics = &program.templates[0].elements[0];
        assert_eq!(metrics.scopes.len(), 1);
        assert_eq!(metrics.refs.len(), 1);
        assert_eq!(metrics.refs[0].name.name, "prometheus");
    }

    #[test]
    fn test_parse_ref_keyword() {
        let source = r#"element api_service {
    ref port: integer = docker.exposed_port(dockerfile)
    ref url: string = config.get_api_url()
}
"#;
        let parser = Parser::new(source, "test.hie");
        let (program, diagnostics) = parser.parse();

        assert!(!diagnostics.has_errors(), "Errors: {:?}", diagnostics);
        let program = program.unwrap();
        assert_eq!(program.elements.len(), 1);
        let element = &program.elements[0];
        assert_eq!(element.refs.len(), 2);
        
        assert_eq!(element.refs[0].name.name, "port");
        assert_eq!(element.refs[0].type_annotation.type_ident.name, "integer");
        
        assert_eq!(element.refs[1].name.name, "url");
        assert_eq!(element.refs[1].type_annotation.type_ident.name, "string");
    }

    #[test]
    fn test_parse_uses_declaration() {
        let source = r#"element core {
    element lexer {
        scope module = rust.module_selector('lexer')
    }
    element parser {
        scope module = rust.module_selector('parser')
        scope lexer_module = rust.module_selector('lexer')
        lexer_module uses lexer
    }
}
"#;
        let parser = Parser::new(source, "test.hie");
        let (program, diagnostics) = parser.parse();

        assert!(!diagnostics.has_errors(), "Errors: {:?}", diagnostics);
        let program = program.unwrap();
        assert_eq!(program.elements.len(), 1);
        
        let core = &program.elements[0];
        assert_eq!(core.children.len(), 2);
        
        let parser_elem = &core.children[1];
        assert_eq!(parser_elem.uses.len(), 1);
        assert_eq!(parser_elem.uses[0].source.name, "lexer_module");
        assert_eq!(parser_elem.uses[0].target.len(), 1);
        assert_eq!(parser_elem.uses[0].target[0].name, "lexer");
    }

    #[test]
    fn test_parse_uses_qualified_target() {
        let source = r#"element parser {
    scope module = rust.module_selector('parser')
    module uses core.lexer
}
"#;
        let parser = Parser::new(source, "test.hie");
        let (program, diagnostics) = parser.parse();

        assert!(!diagnostics.has_errors(), "Errors: {:?}", diagnostics);
        let program = program.unwrap();
        assert_eq!(program.elements.len(), 1);
        
        let parser_elem = &program.elements[0];
        assert_eq!(parser_elem.uses.len(), 1);
        assert_eq!(parser_elem.uses[0].source.name, "module");
        assert_eq!(parser_elem.uses[0].target.len(), 2);
        assert_eq!(parser_elem.uses[0].target[0].name, "core");
        assert_eq!(parser_elem.uses[0].target[1].name, "lexer");
    }

    #[test]
    fn test_parse_mixed_syntax() {
        // Test that curly brackets work within indentation-based templates
        let source = r#"element outer:
    element inner {
        scope src = files.folder_selector('src')
    }
"#;
        let parser = Parser::new(source, "test.hie");
        let (program, diagnostics) = parser.parse();

        assert!(!diagnostics.has_errors(), "Errors: {:?}", diagnostics);
        let program = program.unwrap();
        assert_eq!(program.elements.len(), 1);
        assert_eq!(program.elements[0].children.len(), 1);
        assert_eq!(program.elements[0].children[0].name.name, "inner");
    }

    #[test]
    fn test_parse_nested_curly_brackets() {
        let source = r#"element system {
    element frontend {
        scope src = files.folder_selector('frontend')
    }
    element backend {
        scope src = files.folder_selector('backend')
        element api {
            scope module = rust.module_selector('api')
        }
    }
}
"#;
        let parser = Parser::new(source, "test.hie");
        let (program, diagnostics) = parser.parse();

        assert!(!diagnostics.has_errors(), "Errors: {:?}", diagnostics);
        let program = program.unwrap();
        assert_eq!(program.elements.len(), 1);
        
        let system = &program.elements[0];
        assert_eq!(system.children.len(), 2);
        
        let backend = &system.children[1];
        assert_eq!(backend.children.len(), 1);
        assert_eq!(backend.children[0].name.name, "api");
    }
