//! Authentication of FastAPI routes: the routes of a Python module, given
//! as a simplified syntax tree, and whether they require authentication.

use vstd::prelude::*;
use crate::stdlib::CheckResult;
use crate::stdlib::json::{Json, check_view};
use crate::text::{contains_str, spec_contains, str_eq, to_lowercase, lowercase_of, to_uppercase, uppercase_of,
    u64_text, nat_text};

verus! {

/// A Python module: its statements.
#[derive(Debug)]
pub struct Module {
    pub node_type: String,
    pub body: Vec<Statement>,
}

/// A statement of a module.
#[derive(Debug)]
pub enum Statement {
    FunctionDef { name: String, decorators: Vec<Decorator>, parameters: Vec<Parameter>, lineno: usize },
    Assign { targets: Vec<Target>, value: Box<Expression> },
    Other,
}

/// A decorator: a name, or a call of `func` with `args`.
#[derive(Debug)]
pub struct Decorator {
    pub node_type: String,
    pub name: String,
    pub func: Option<Box<Expression>>,
    pub args: Vec<Expression>,
}

/// A parameter of a function, with its annotation and default.
#[derive(Debug)]
pub struct Parameter {
    pub name: String,
    pub annotation: Option<String>,
    pub default: Option<Box<Expression>>,
}

/// The target of an assignment.
#[derive(Debug)]
pub struct Target {
    pub node_type: String,
    pub name: Option<String>,
}

/// An expression.
#[derive(Debug)]
pub enum Expression {
    Call { func: Box<Expression>, args: Vec<Expression> },
    Attribute { value: Box<Expression>, attr: String },
    Name { id: String },
    Constant { value: Json },
    Other,
}

/// A route of the module.
#[derive(Debug)]
pub struct Route {
    pub name: String,
    pub path: String,
    /// GET, POST, PUT, DELETE, ...
    pub method: String,
    pub authenticated: bool,
    pub auth_method: Option<String>,
    pub line_number: usize,
}

/// Whether `name` is a decorator that requires authentication.
pub open spec fn auth_decorator(name: Seq<char>) -> bool {
    name == "requires_auth"@ || name == "authenticated"@ || name == "login_required"@ || name == "require_auth"@
        || name == "auth_required"@ || name == "protected"@
}

/// The decorators `requires_auth`, `authenticated`, `login_required`,
/// `require_auth`, `auth_required` and `protected` each require
/// authentication.
pub proof fn law_auth_decorators(name: Seq<char>)
    requires
        name == "requires_auth"@ || name == "authenticated"@ || name == "login_required"@ || name == "require_auth"@
            || name == "auth_required"@ || name == "protected"@,
    ensures
        auth_decorator(name),
{
}

/// Whether a decorator named `name` requires authentication.
pub fn is_auth_decorator(name: &str) -> (b: bool)
    ensures
        b == auth_decorator(name@),
{
    str_eq(name, "requires_auth") || str_eq(name, "authenticated") || str_eq(name, "login_required")
        || str_eq(name, "require_auth") || str_eq(name, "auth_required") || str_eq(name, "protected")
}

/// Whether `m` is an HTTP method that routes use.
pub open spec fn http_method(m: Seq<char>) -> bool {
    m == "GET"@ || m == "POST"@ || m == "PUT"@ || m == "DELETE"@ || m == "PATCH"@ || m == "OPTIONS"@ || m == "HEAD"@
}

/// The method and path of a route decorator `func(args)`: an attribute
/// whose name, in upper case, is an HTTP method; the path is the first
/// argument where it is a string constant, else `/`.
pub open spec fn route_of(func: Expression, args: Seq<Expression>) -> Option<(Seq<char>, Seq<char>)> {
    match func {
        Expression::Attribute { attr, .. } => {
            let m = uppercase_of(attr@);
            if http_method(m) {
                Some((m, if args.len() > 0 && (args[0] matches Expression::Constant { value: Json::Str(s) }) {
                    match args[0] { Expression::Constant { value: Json::Str(s) } => s@, _ => "/"@ }
                } else {
                    "/"@
                }))
            } else {
                None
            }
        },
        _ => None,
    }
}

/// The way a dependency `expr` authenticates: `Depends(f)` with `f` a name
/// that mentions auth, user, token or verify (in lower case), or any
/// `Security(...)`.
pub open spec fn auth_dependency(expr: Expression) -> Option<Seq<char>> {
    match expr {
        Expression::Call { func, args } => match *func {
            Expression::Name { id } => {
                if id@ == "Depends"@ && args@.len() > 0 && (args@[0] matches Expression::Name { id: f }
                    && (spec_contains(lowercase_of(f@), "auth"@) || spec_contains(lowercase_of(f@), "user"@)
                        || spec_contains(lowercase_of(f@), "token"@) || spec_contains(lowercase_of(f@), "verify"@))) {
                    Some("dependency_injection"@)
                } else if id@ == "Security"@ {
                    Some("security_scheme"@)
                } else {
                    None
                }
            },
            _ => None,
        },
        _ => None,
    }
}

/// A `Depends(f)` authenticates, by dependency injection, whenever the
/// lower-case name of `f` mentions `auth`, `user`, `token` or `verify`.
pub proof fn law_depends_authenticates(expr: Expression)
    requires
        expr matches Expression::Call { func, args } && (*func matches Expression::Name { id } && id@ == "Depends"@)
            && args@.len() > 0 && (args@[0] matches Expression::Name { id: f }
            && (spec_contains(lowercase_of(f@), "auth"@) || spec_contains(lowercase_of(f@), "user"@)
                || spec_contains(lowercase_of(f@), "token"@) || spec_contains(lowercase_of(f@), "verify"@))),
    ensures
        auth_dependency(expr) == Some("dependency_injection"@),
{
}

/// Any `Security(...)` authenticates by a security scheme.
pub proof fn law_security_authenticates(expr: Expression)
    requires
        expr matches Expression::Call { func, .. } && (*func matches Expression::Name { id } && id@ == "Security"@),
    ensures
        auth_dependency(expr) == Some("security_scheme"@),
{
    reveal_strlit("Security");
    reveal_strlit("Depends");
    assert("Security"@[0] != "Depends"@[0]);
}

/// The method and path of the route that a decorator declares, if any.
pub open spec fn decorator_route(d: Decorator) -> Option<(Seq<char>, Seq<char>)> {
    match d.func {
        Some(f) => route_of(*f, d.args@),
        None => None,
    }
}

/// The method and path of a route decorator (see `route_of`).
fn match_route_decorator(func: &Expression, args: &Vec<Expression>) -> (r: Option<(String, String)>)
    ensures
        match r {
            Some((m, p)) => route_of(*func, args@) == Some((m@, p@)),
            None => route_of(*func, args@) is None,
        },
{
    match func {
        Expression::Attribute { attr, .. } => {
            let method = to_uppercase(attr.as_str());
            let m = method.as_str();
            if str_eq(m, "GET") || str_eq(m, "POST") || str_eq(m, "PUT") || str_eq(m, "DELETE") || str_eq(m, "PATCH")
                || str_eq(m, "OPTIONS") || str_eq(m, "HEAD") {
                let path = if args.len() > 0 {
                    match &args[0] {
                        Expression::Constant { value: Json::Str(s) } => s.clone(),
                        _ => String::from_str("/"),
                    }
                } else {
                    String::from_str("/")
                };
                Some((method, path))
            } else {
                None
            }
        },
        _ => None,
    }
}

/// The method and path of the first decorator of `ds` that declares a
/// route, if any.
pub open spec fn first_route(ds: Seq<Decorator>) -> Option<(Seq<char>, Seq<char>)>
    decreases ds.len(),
{
    if ds.len() == 0 {
        None
    } else if decorator_route(ds[0]) is Some {
        decorator_route(ds[0])
    } else {
        first_route(ds.drop_first())
    }
}

/// The method and path of the first decorator that is a route decorator.
pub fn extract_route_info(decorators: &Vec<Decorator>) -> (r: Option<(String, String)>)
    ensures
        match r {
            Some((m, p)) => first_route(decorators@) == Some((m@, p@)),
            None => first_route(decorators@) is None,
        },
{
    let mut i: usize = 0;
    assert(decorators@.skip(0) =~= decorators@);
    while i < decorators.len()
        invariant
            i <= decorators@.len(),
            first_route(decorators@) == first_route(decorators@.skip(i as int)),
        decreases decorators@.len() - i,
    {
        assert(decorators@.skip(i as int)[0] == decorators@[i as int]);
        assert(decorators@.skip(i as int).drop_first() =~= decorators@.skip(i + 1));
        let d = &decorators[i];
        if let Some(func) = &d.func {
            if let Some((m, p)) = match_route_decorator(func, &d.args) {
                return Some((m, p));
            }
        }
        i = i + 1;
    }
    None
}

/// The way a dependency authenticates (see `auth_dependency`).
pub fn check_auth_dependency(expr: &Expression) -> (r: Option<String>)
    ensures
        match r {
            Some(s) => auth_dependency(*expr) == Some(s@),
            None => auth_dependency(*expr) is None,
        },
{
    if let Expression::Call { func, args } = expr {
        if let Expression::Name { id } = &**func {
            if str_eq(id.as_str(), "Depends") && args.len() > 0 {
                if let Expression::Name { id: f } = &args[0] {
                    let lower = to_lowercase(f.as_str());
                    let l = lower.as_str();
                    if contains_str(l, "auth") || contains_str(l, "user") || contains_str(l, "token") || contains_str(l, "verify") {
                        return Some(String::from_str("dependency_injection"));
                    }
                }
            }
            if str_eq(id.as_str(), "Security") {
                return Some(String::from_str("security_scheme"));
            }
        }
    }
    None
}

/// How a parameter's default authenticates, if it does.
pub open spec fn parameter_auth(p: Parameter) -> Option<Seq<char>> {
    match p.default {
        Some(d) => auth_dependency(*d),
        None => None,
    }
}

/// How the first parameter of `ps` that authenticates does it, if any.
pub open spec fn first_parameter_auth(ps: Seq<Parameter>) -> Option<Seq<char>>
    decreases ps.len(),
{
    if ps.len() == 0 {
        None
    } else if parameter_auth(ps[0]) is Some {
        parameter_auth(ps[0])
    } else {
        first_parameter_auth(ps.drop_first())
    }
}

/// How a route with these decorators and parameters authenticates:
/// `decorator` where a decorator requires it, else by the first parameter
/// whose default is an authenticating dependency.
pub open spec fn authentication(ds: Seq<Decorator>, ps: Seq<Parameter>) -> Option<Seq<char>> {
    if exists|i: int| 0 <= i < ds.len() && auth_decorator(#[trigger] ds[i].name@) {
        Some("decorator"@)
    } else {
        first_parameter_auth(ps)
    }
}

/// Whether a route authenticates, and how (see `authentication`).
pub fn check_authentication(decorators: &Vec<Decorator>, parameters: &Vec<Parameter>) -> (r: (bool, Option<String>))
    ensures
        r.0 == (r.1 is Some),
        match r.1 {
            Some(s) => authentication(decorators@, parameters@) == Some(s@),
            None => authentication(decorators@, parameters@) is None,
        },
{
    let mut i: usize = 0;
    while i < decorators.len()
        invariant
            i <= decorators@.len(),
            forall|j: int| 0 <= j < i ==> !auth_decorator(#[trigger] decorators@[j].name@),
        decreases decorators@.len() - i,
    {
        if is_auth_decorator(decorators[i].name.as_str()) {
            proof {
                reveal_strlit("decorator");
            }
            return (true, Some(String::from_str("decorator")));
        }
        i = i + 1;
    }
    let mut k: usize = 0;
    assert(parameters@.skip(0) =~= parameters@);
    while k < parameters.len()
        invariant
            k <= parameters@.len(),
            forall|j: int| 0 <= j < decorators@.len() ==> !auth_decorator(#[trigger] decorators@[j].name@),
            first_parameter_auth(parameters@) == first_parameter_auth(parameters@.skip(k as int)),
        decreases parameters@.len() - k,
    {
        assert(parameters@.skip(k as int)[0] == parameters@[k as int]);
        assert(parameters@.skip(k as int).drop_first() =~= parameters@.skip(k + 1));
        if let Some(d) = &parameters[k].default {
            if let Some(m) = check_auth_dependency(d) {
                return (true, Some(m));
            }
        }
        k = k + 1;
    }
    (false, None)
}

/// A route as plain values: name, path, method, whether it authenticates,
/// how, and its line.
pub open spec fn route_view(r: Route) -> (Seq<char>, Seq<char>, Seq<char>, bool, Option<Seq<char>>, usize) {
    (r.name@, r.path@, r.method@, r.authenticated, match r.auth_method {
        Some(m) => Some(m@),
        None => None,
    }, r.line_number)
}

/// The route that a statement declares: a function definition with a route
/// decorator.
pub open spec fn statement_route(st: Statement) -> Option<(Seq<char>, Seq<char>, Seq<char>, bool, Option<Seq<char>>, usize)> {
    match st {
        Statement::FunctionDef { name, decorators, parameters, lineno } => match first_route(decorators@) {
            Some((m, p)) => Some((name@, p, m, authentication(decorators@, parameters@) is Some,
                authentication(decorators@, parameters@), lineno)),
            None => None,
        },
        _ => None,
    }
}

/// The routes that the statements `body` declare, in order.
pub open spec fn module_routes(body: Seq<Statement>) -> Seq<(Seq<char>, Seq<char>, Seq<char>, bool, Option<Seq<char>>, usize)>
    decreases body.len(),
{
    if body.len() == 0 {
        Seq::empty()
    } else {
        match statement_route(body.last()) {
            Some(r) => module_routes(body.drop_last()).push(r),
            None => module_routes(body.drop_last()),
        }
    }
}

/// The routes of a module: each function with a route decorator, with its
/// method, path, authentication and line.
pub fn analyze_module(module: &Module) -> (routes: Vec<Route>)
    ensures
        routes@.map_values(|r: Route| route_view(r)) == module_routes(module.body@),
{
    let mut routes: Vec<Route> = Vec::new();
    let mut i: usize = 0;
    while i < module.body.len()
        invariant
            i <= module.body@.len(),
            routes@.map_values(|r: Route| route_view(r)) == module_routes(module.body@.take(i as int)),
        decreases module.body@.len() - i,
    {
        assert(module.body@.take(i + 1).drop_last() =~= module.body@.take(i as int));
        assert(module.body@.take(i + 1).last() == module.body@[i as int]);
        let ghost before = routes@.map_values(|r: Route| route_view(r));
        if let Statement::FunctionDef { name, decorators, parameters, lineno } = &module.body[i] {
            if let Some((method, path)) = extract_route_info(decorators) {
                let (authenticated, auth_method) = check_authentication(decorators, parameters);
                let route = Route { name: name.clone(), path, method, authenticated, auth_method, line_number: *lineno };
                assert(statement_route(module.body@[i as int]) == Some(route_view(route)));
                routes.push(route);
                assert(routes@.map_values(|r: Route| route_view(r)) =~= before.push(route_view(route)));
            }
        }
        i = i + 1;
    }
    assert(module.body@.take(i as int) =~= module.body@);
    routes
}

/// The routes of `routes` that do not authenticate, in order.
pub open spec fn unauthenticated(routes: Seq<Route>) -> Seq<Route> {
    routes.filter(|r: Route| !r.authenticated)
}

/// `METHOD PATH (line N)` for each route, separated by `, `.
pub open spec fn route_list(routes: Seq<Route>, with_method: bool) -> Seq<char>
    decreases routes.len(),
{
    if routes.len() == 0 {
        Seq::empty()
    } else {
        let item = (if with_method { routes.last().method@ + " "@ } else { Seq::empty() }) + routes.last().path@
            + " (line "@ + nat_text(routes.last().line_number as nat) + ")"@;
        if routes.len() == 1 { item } else { route_list(routes.drop_last(), with_method) + ", "@ + item }
    }
}

/// The list of `routes` (see `route_list`).
fn list_routes(routes: &Vec<&Route>, with_method: bool) -> (r: String)
    ensures
        r@ == route_list(routes@.map_values(|x: &Route| *x), with_method),
{
    let ghost rs = routes@.map_values(|x: &Route| *x);
    let mut out = String::new();
    let mut i: usize = 0;
    while i < routes.len()
        invariant
            i <= routes@.len(),
            rs == routes@.map_values(|x: &Route| *x),
            out@ == route_list(rs.take(i as int), with_method),
        decreases routes@.len() - i,
    {
        proof {
            reveal_strlit(" ");
            reveal_strlit(" (line ");
            reveal_strlit(")");
            reveal_strlit(", ");
        }
        assert(rs.take(i + 1).drop_last() =~= rs.take(i as int));
        assert(rs.take(i + 1).last() == *routes@[i as int]);
        let r = routes[i];
        let mut item = String::new();
        if with_method {
            item.append(r.method.as_str());
            item.append(" ");
        }
        item.append(r.path.as_str());
        item.append(" (line ");
        item.append(u64_text(r.line_number as u64).as_str());
        item.append(")");
        if i > 0 {
            out.append(", ");
        }
        out.append(item.as_str());
        i = i + 1;
    }
    assert(rs.take(i as int) =~= rs);
    out
}

/// The routes of `routes` that do not authenticate, in order.
fn unauthenticated_of<'a>(routes: &Vec<&'a Route>) -> (r: Vec<&'a Route>)
    ensures
        r@.map_values(|x: &Route| *x) == unauthenticated(routes@.map_values(|x: &Route| *x)),
{
    let ghost rs = routes@.map_values(|x: &Route| *x);
    let mut out: Vec<&Route> = Vec::new();
    let mut i: usize = 0;
    while i < routes.len()
        invariant
            i <= routes@.len(),
            rs == routes@.map_values(|x: &Route| *x),
            out@.map_values(|x: &Route| *x) == unauthenticated(rs.take(i as int)),
        decreases routes@.len() - i,
    {
        let ghost before = out@.map_values(|x: &Route| *x);
        assert(rs.take(i + 1) =~= rs.take(i as int).push(*routes@[i as int]));
        proof {
            rs.take(i as int).lemma_filter_push(*routes@[i as int], |r: Route| !r.authenticated);
        }
        if !routes[i].authenticated {
            out.push(routes[i]);
            assert(out@.map_values(|x: &Route| *x) =~= before.push(*routes@[i as int]));
        }
        i = i + 1;
    }
    assert(rs.take(i as int) =~= rs);
    out
}

/// Whether every route authenticates: else the failure counts and lists
/// the routes that do not (`METHOD PATH (line N)`).
pub fn check_all_routes_authenticated(routes: &Vec<Route>) -> (r: CheckResult)
    ensures
        check_view(r) == if unauthenticated(routes@).len() == 0 {
            (0int, Seq::<char>::empty())
        } else {
            (1int, "Found "@ + nat_text(unauthenticated(routes@).len()) + " unauthenticated routes: "@
                + route_list(unauthenticated(routes@), true))
        },
{
    let mut all: Vec<&Route> = Vec::new();
    let mut i: usize = 0;
    while i < routes.len()
        invariant
            i <= routes@.len(),
            all@.len() == i,
            forall|k: int| 0 <= k < i ==> *(#[trigger] all@[k]) == routes@[k],
        decreases routes@.len() - i,
    {
        all.push(&routes[i]);
        i = i + 1;
    }
    assert(all@.map_values(|x: &Route| *x) =~= routes@);
    let unauth = unauthenticated_of(&all);
    if unauth.len() == 0 {
        CheckResult::Pass
    } else {
        proof {
            reveal_strlit("Found ");
            reveal_strlit(" unauthenticated routes: ");
        }
        let mut msg = String::from_str("Found ");
        msg.append(u64_text(unauth.len() as u64).as_str());
        msg.append(" unauthenticated routes: ");
        msg.append(list_routes(&unauth, true).as_str());
        CheckResult::Fail(msg)
    }
}

/// The routes of `routes` with the method `method`, in order.
pub open spec fn with_method(routes: Seq<Route>, method: Seq<char>) -> Seq<Route> {
    routes.filter(|r: Route| r.method@ == method)
}

/// Whether every route of the method `method` authenticates: else the
/// failure counts and lists those that do not (`PATH (line N)`).
pub fn check_method_routes_authenticated(routes: &Vec<Route>, method: &str) -> (r: CheckResult)
    ensures
        check_view(r) == if unauthenticated(with_method(routes@, method@)).len() == 0 {
            (0int, Seq::<char>::empty())
        } else {
            (1int, "Found "@ + nat_text(unauthenticated(with_method(routes@, method@)).len()) + " unauthenticated "@
                + method@ + " routes: "@ + route_list(unauthenticated(with_method(routes@, method@)), false))
        },
{
    let ghost pred = |r: Route| r.method@ == method@;
    let mut selected: Vec<&Route> = Vec::new();
    let mut i: usize = 0;
    while i < routes.len()
        invariant
            i <= routes@.len(),
            pred == (|r: Route| r.method@ == method@),
            selected@.map_values(|x: &Route| *x) == routes@.take(i as int).filter(pred),
        decreases routes@.len() - i,
    {
        let ghost before = selected@.map_values(|x: &Route| *x);
        assert(routes@.take(i + 1) =~= routes@.take(i as int).push(routes@[i as int]));
        proof {
            routes@.take(i as int).lemma_filter_push(routes@[i as int], pred);
        }
        if str_eq(routes[i].method.as_str(), method) {
            selected.push(&routes[i]);
            assert(selected@.map_values(|x: &Route| *x) =~= before.push(routes@[i as int]));
        }
        i = i + 1;
    }
    assert(routes@.take(i as int) =~= routes@);
    let unauth = unauthenticated_of(&selected);
    if unauth.len() == 0 {
        CheckResult::Pass
    } else {
        proof {
            reveal_strlit("Found ");
            reveal_strlit(" unauthenticated ");
            reveal_strlit(" routes: ");
        }
        let mut msg = String::from_str("Found ");
        msg.append(u64_text(unauth.len() as u64).as_str());
        msg.append(" unauthenticated ");
        msg.append(method);
        msg.append(" routes: ");
        msg.append(list_routes(&unauth, false).as_str());
        CheckResult::Fail(msg)
    }
}

} // verus!
