use hielements::fastapi::{
    analyze_module, check_all_routes_authenticated, check_auth_dependency, check_authentication,
    check_method_routes_authenticated, extract_route_info, is_auth_decorator, Decorator, Expression, Module, Parameter,
    Statement,
};
use hielements::stdlib::json::Json;
use hielements::stdlib::CheckResult;

fn name(id: &str) -> Expression {
    Expression::Name { id: id.to_string() }
}

fn route_decorator(method: &str, path: &str) -> Decorator {
    Decorator {
        node_type: "Call".to_string(),
        name: String::new(),
        func: Some(Box::new(Expression::Attribute { value: Box::new(name("app")), attr: method.to_string() })),
        args: vec![Expression::Constant { value: Json::Str(path.to_string()) }],
    }
}

fn plain_decorator(n: &str) -> Decorator {
    Decorator { node_type: "Name".to_string(), name: n.to_string(), func: None, args: vec![] }
}

fn depends(f: &str) -> Parameter {
    Parameter {
        name: "user".to_string(),
        annotation: None,
        default: Some(Box::new(Expression::Call { func: Box::new(name("Depends")), args: vec![name(f)] })),
    }
}

fn function(n: &str, decorators: Vec<Decorator>, parameters: Vec<Parameter>, lineno: usize) -> Statement {
    Statement::FunctionDef { name: n.to_string(), decorators, parameters, lineno }
}

fn module() -> Module {
    Module {
        node_type: "Module".to_string(),
        body: vec![
            function("list_items", vec![route_decorator("get", "/items")], vec![], 3),
            function("create_item", vec![route_decorator("post", "/items")], vec![depends("get_current_user")], 7),
            function("helper", vec![], vec![], 11),
            function("delete_item", vec![plain_decorator("requires_auth"), route_decorator("delete", "/items/{id}")], vec![], 14),
            function("update_item", vec![route_decorator("put", "/items/{id}")], vec![depends("get_db")], 20),
            Statement::Other,
        ],
    }
}

#[test]
fn routes_of_a_module() {
    let routes = analyze_module(&module());
    assert_eq!(routes.len(), 4);
    assert_eq!(routes[0].method, "GET");
    assert_eq!(routes[0].path, "/items");
    assert!(!routes[0].authenticated);
    assert_eq!(routes[1].auth_method.as_deref(), Some("dependency_injection"));
    assert_eq!(routes[2].name, "delete_item");
    assert_eq!(routes[2].auth_method.as_deref(), Some("decorator"));
    assert_eq!(routes[2].line_number, 14);
    assert!(!routes[3].authenticated);
}

#[test]
fn all_routes_check_lists_the_unauthenticated() {
    let routes = analyze_module(&module());
    match check_all_routes_authenticated(&routes) {
        CheckResult::Fail(m) => {
            assert_eq!(m, "Found 2 unauthenticated routes: GET /items (line 3), PUT /items/{id} (line 20)")
        }
        other => panic!("expected a failure, got {:?}", other),
    }
    assert!(check_all_routes_authenticated(&vec![]).is_pass());
}

#[test]
fn method_routes_check() {
    let routes = analyze_module(&module());
    assert!(check_method_routes_authenticated(&routes, "POST").is_pass());
    match check_method_routes_authenticated(&routes, "GET") {
        CheckResult::Fail(m) => assert_eq!(m, "Found 1 unauthenticated GET routes: /items (line 3)"),
        other => panic!("expected a failure, got {:?}", other),
    }
    assert!(check_method_routes_authenticated(&routes, "PATCH").is_pass());
}

#[test]
fn route_info_and_authentication() {
    assert_eq!(extract_route_info(&vec![plain_decorator("x"), route_decorator("Patch", "/p")]), Some(("PATCH".to_string(), "/p".to_string())));
    assert_eq!(extract_route_info(&vec![plain_decorator("x")]), None);
    let no_path = Decorator { args: vec![], ..route_decorator("get", "") };
    assert_eq!(extract_route_info(&vec![no_path]), Some(("GET".to_string(), "/".to_string())));
    assert!(is_auth_decorator("login_required"));
    assert!(!is_auth_decorator("cached"));
    assert_eq!(check_authentication(&vec![], &vec![depends("verify_token")]), (true, Some("dependency_injection".to_string())));
    assert_eq!(check_authentication(&vec![], &vec![depends("get_db")]), (false, None));
    let security = Expression::Call { func: Box::new(name("Security")), args: vec![] };
    assert_eq!(check_auth_dependency(&security), Some("security_scheme".to_string()));
}
