//! Tools: what the server computes for agents, as JSON documents.

use vstd::prelude::*;
use crate::diagnostics::{law_severity_filter, Diagnostic, DiagnosticSeverity, Diagnostics};
use crate::interpreter::{CheckOutput, RunOptions, SingleCheckResult};
use crate::stdlib::CheckResult;
use crate::stdlib::json::{Json, str_json, count_json, counts_as, object, member_of, obj_get};
use crate::text::{concat, contains_str, spec_contains, str_eq};

verus! {

/// A category of patterns as the workspace holds it: its name and, for
/// each pattern file, the pattern's name and the file's path.
pub struct PatternCategory {
    pub name: String,
    pub patterns: Vec<(String, String)>,
}

/// Whether `j` lists the patterns `ps`, each with its name and file.
pub open spec fn reports_patterns(ps: Seq<(String, String)>, j: Json) -> bool {
    j matches Json::Array(a) && a@.len() == ps.len() && forall|i: int| 0 <= i < ps.len() ==> (#[trigger] a@[i] matches Json::Object(m)
        && m@.len() == 2 && m@[0].0@ == "name"@ && is_str(m@[0].1, ps[i].0@) && m@[1].0@ == "file"@
        && is_str(m@[1].1, ps[i].1@))
}

/// Whether `j` reports the category `c`: its name and its patterns.
pub open spec fn reports_category(c: PatternCategory, j: Json) -> bool {
    j matches Json::Object(m) && m@.len() == 2 && m@[0].0@ == "category"@ && is_str(m@[0].1, c.name@)
        && m@[1].0@ == "patterns"@ && reports_patterns(c.patterns@, m@[1].1)
}

/// Whether the category `c` is listed: it is the one asked for, if one is,
/// and it has patterns, if empty categories are dropped.
pub open spec fn category_listed(c: PatternCategory, category: Option<Seq<char>>, drop_empty: bool) -> bool {
    (category matches Some(n) ==> c.name@ == n) && !(drop_empty && c.patterns@.len() == 0)
}

/// The categories of `cs` that are listed, in order.
pub open spec fn listed_categories(cs: Seq<PatternCategory>, category: Option<Seq<char>>, drop_empty: bool) -> Seq<PatternCategory>
    decreases cs.len(),
{
    if cs.len() == 0 {
        Seq::empty()
    } else {
        let rest = listed_categories(cs.drop_last(), category, drop_empty);
        if category_listed(cs.last(), category, drop_empty) { rest.push(cs.last()) } else { rest }
    }
}

/// The number of patterns in the categories `cs`.
pub open spec fn pattern_count(cs: Seq<PatternCategory>) -> nat
    decreases cs.len(),
{
    if cs.len() == 0 {
        0
    } else {
        pattern_count(cs.drop_last()) + cs.last().patterns@.len()
    }
}

/// Whether `j` reports each of the categories `cs`, in order.
pub open spec fn reports_categories(cs: Seq<PatternCategory>, j: Json) -> bool {
    j matches Json::Array(a) && a@.len() == cs.len() && forall|i: int| 0 <= i < cs.len() ==> reports_category(#[trigger] cs[i], a@[i])
}

/// The list of the patterns `ps`.
fn patterns_json(ps: &Vec<(String, String)>) -> (j: Json)
    ensures
        reports_patterns(ps@, j),
{
    let mut a: Vec<Json> = Vec::new();
    let mut i: usize = 0;
    while i < ps.len()
        invariant
            i <= ps@.len(),
            a@.len() == i,
            forall|k: int| 0 <= k < i ==> (#[trigger] a@[k] matches Json::Object(m) && m@.len() == 2
                && m@[0].0@ == "name"@ && is_str(m@[0].1, ps@[k].0@) && m@[1].0@ == "file"@ && is_str(m@[1].1, ps@[k].1@)),
        decreases ps@.len() - i,
    {
        let mut m: Vec<(String, Json)> = Vec::new();
        m.push(member_of("name", Json::Str(ps[i].0.clone())));
        m.push(member_of("file", Json::Str(ps[i].1.clone())));
        a.push(object(m));
        i = i + 1;
    }
    Json::Array(a)
}

/// The report of the category `c`.
fn category_json(c: &PatternCategory) -> (j: Json)
    ensures
        reports_category(*c, j),
{
    let mut m: Vec<(String, Json)> = Vec::new();
    m.push(member_of("category", Json::Str(c.name.clone())));
    m.push(member_of("patterns", patterns_json(&c.patterns)));
    object(m)
}

/// The patterns of a prefix of `cs` are no more than those of a longer one,
/// and those that are listed no more than all.
proof fn lemma_count_prefix(cs: Seq<PatternCategory>, i: int)
    requires
        0 <= i < cs.len(),
    ensures
        pattern_count(cs.take(i)) + cs[i].patterns@.len() == pattern_count(cs.take(i + 1)),
        pattern_count(cs.take(i + 1)) <= pattern_count(cs),
{
    assert(cs.take(i + 1).drop_last() == cs.take(i));
    lemma_count_mono(cs, i + 1);
}

proof fn lemma_count_mono(cs: Seq<PatternCategory>, n: int)
    requires
        0 <= n <= cs.len(),
    ensures
        pattern_count(cs.take(n)) <= pattern_count(cs),
    decreases cs.len() - n,
{
    if n < cs.len() {
        lemma_count_mono(cs, n + 1);
        assert(cs.take(n + 1).drop_last() == cs.take(n));
    } else {
        assert(cs.take(n) == cs);
    }
}

/// The tools that the server offers for a workspace.
pub struct ToolHandler {
    pub workspace: String,
}

/// The explanation of an error code.
pub open spec fn explanation_of(code: Seq<char>) -> Seq<char> {
    if code == "E001"@ { "Unknown element type. Use 'element' keyword to declare elements."@ }
    else if code == "E002"@ { "Syntax error in element declaration. Check brackets and colons."@ }
    else if code == "E003"@ { "Invalid scope expression. Scopes must be assigned selector function calls."@ }
    else if code == "E004"@ { "Invalid check expression. Checks must be function calls."@ }
    else if code == "E005"@ { "Unknown pattern. The referenced pattern has not been defined."@ }
    else if code == "E100"@ { "Unknown library. The imported library is not available."@ }
    else if code == "E101"@ { "Unknown function. The called function does not exist in the library."@ }
    else if code == "E200"@ { "Undefined identifier. The referenced name has not been declared."@ }
    else if code == "E201"@ { "Cannot evaluate member access directly."@ }
    else if code == "E202"@ { "Undefined reference. The referenced scope or element does not exist."@ }
    else if code == "E203"@ { "Unknown library in function call."@ }
    else if code == "E204"@ { "Check must be a function call."@ }
    else if code == "E205"@ { "Expected library.function format for function calls."@ }
    else if code == "W001"@ { "Unknown library warning. The library will be resolved at runtime."@ }
    else { "Unknown error code. Check the Hielements documentation for more information."@ }
}

/// The element that `generate_element` writes.
pub open spec fn generated_element(name: Seq<char>, pattern: Option<Seq<char>>, language: Seq<char>) -> Seq<char> {
    let imports = if language == "rust"@ { "import files\nimport rust\n"@ }
        else if language == "python"@ { "import files\nimport python\n"@ }
        else { "import files\n"@ };
    let implements = match pattern { Some(p) => " implements "@ + p, None => Seq::empty() };
    let scope = if language == "rust"@ { "    scope src<rust> = rust.module_selector('"@ + name + "')"@ }
        else if language == "python"@ { "    scope src<python> = python.module_selector('"@ + name + "')"@ }
        else { "    scope src = files.folder_selector('src/"@ + name + "')"@ };
    let checks = if language == "rust"@ { "    check rust.struct_exists('Main')\n    check rust.has_tests(src)"@ }
        else if language == "python"@ { "    check python.function_exists(src, '__init__')"@ }
        else { "    check files.exists(src, 'main.py')"@ };
    imports + "\nelement "@ + name + implements + " {\n"@ + scope + "\n"@ + checks + "\n}\n"@
}

/// Whether `j` is the text `t`.
pub open spec fn is_str(j: Json, t: Seq<char>) -> bool {
    j matches Json::Str(s) && s@ == t
}

/// The status of a check result: `pass`, `fail` or `error`.
pub open spec fn status_text(r: CheckResult) -> Seq<char> {
    match r {
        CheckResult::Pass => "pass"@,
        CheckResult::Fail(_) => "fail"@,
        CheckResult::Error(_) => "error"@,
    }
}

/// Whether `j` reports the check result `r`: its element, its check, its
/// status and its message (null for a pass).
pub open spec fn reports_result(r: SingleCheckResult, j: Json) -> bool {
    j matches Json::Object(m) && m@.len() == 4
        && m@[0].0@ == "element"@ && is_str(m@[0].1, r.element_path@)
        && m@[1].0@ == "check"@ && is_str(m@[1].1, r.check_expr@)
        && m@[2].0@ == "status"@ && is_str(m@[2].1, status_text(r.result))
        && m@[3].0@ == "message"@ && match r.result {
            CheckResult::Pass => m@[3].1 == Json::Null,
            CheckResult::Fail(msg) => is_str(m@[3].1, msg@),
            CheckResult::Error(msg) => is_str(m@[3].1, msg@),
        }
}

/// Whether `j` is the list of the reports of `rs`.
pub open spec fn reports_results(rs: Seq<SingleCheckResult>, j: Json) -> bool {
    j matches Json::Array(a) && a@.len() == rs.len() && forall|i: int| 0 <= i < rs.len() ==> reports_result(#[trigger] rs[i], a@[i])
}

/// The report of one check result.
fn result_json(r: &SingleCheckResult) -> (j: Json)
    ensures
        reports_result(*r, j),
{
    let status = match &r.result {
        CheckResult::Pass => "pass",
        CheckResult::Fail(_) => "fail",
        CheckResult::Error(_) => "error",
    };
    proof {
        reveal_strlit("pass");
        reveal_strlit("fail");
        reveal_strlit("error");
    }
    let message = match &r.result {
        CheckResult::Pass => Json::Null,
        CheckResult::Fail(m) => Json::Str(m.clone()),
        CheckResult::Error(m) => Json::Str(m.clone()),
    };
    let mut m: Vec<(String, Json)> = Vec::new();
    m.push(member_of("element", Json::Str(r.element_path.clone())));
    m.push(member_of("check", Json::Str(r.check_expr.clone())));
    m.push(member_of("status", str_json(status)));
    m.push(member_of("message", message));
    object(m)
}

/// The reports of the results of `output`.
pub fn results_json(results: &Vec<SingleCheckResult>) -> (j: Json)
    ensures
        reports_results(results@, j),
{
    let mut a: Vec<Json> = Vec::new();
    let mut i: usize = 0;
    while i < results.len()
        invariant
            i <= results@.len(),
            a@.len() == i,
            forall|k: int| 0 <= k < i ==> reports_result(#[trigger] results@[k], a@[k]),
        decreases results@.len() - i,
    {
        a.push(result_json(&results[i]));
        i = i + 1;
    }
    Json::Array(a)
}

/// The name of a severity, as `{:?}` shows it.
pub open spec fn severity_name(s: DiagnosticSeverity) -> Seq<char> {
    match s {
        DiagnosticSeverity::Error => "Error"@,
        DiagnosticSeverity::Warning => "Warning"@,
        DiagnosticSeverity::Info => "Info"@,
        DiagnosticSeverity::Hint => "Hint"@,
    }
}

/// The report of one diagnostic.
fn diagnostic_json(d: &Diagnostic) -> (j: Json)
    ensures
        j matches Json::Object(m) && m@.len() == 7 && m@[0].0@ == "severity"@ && is_str(m@[0].1, severity_name(d.severity))
            && m@[1].0@ == "code"@ && is_str(m@[1].1, d.code@) && m@[2].0@ == "message"@ && is_str(m@[2].1, d.message@)
            && m@[3].0@ == "file"@ && is_str(m@[3].1, d.file@)
            && m@[4].0@ == "line"@ && counts_as(m@[4].1, d.span.start.line as nat)
            && m@[5].0@ == "column"@ && counts_as(m@[5].1, d.span.start.column as nat)
            && m@[6].0@ == "help"@ && match d.help { Some(h) => is_str(m@[6].1, h@), None => m@[6].1 == Json::Null },
{
    let severity = match d.severity {
        DiagnosticSeverity::Error => "Error",
        DiagnosticSeverity::Warning => "Warning",
        DiagnosticSeverity::Info => "Info",
        DiagnosticSeverity::Hint => "Hint",
    };
    proof {
        reveal_strlit("Error");
        reveal_strlit("Warning");
        reveal_strlit("Info");
        reveal_strlit("Hint");
    }
    let help = match &d.help {
        Some(h) => Json::Str(h.clone()),
        None => Json::Null,
    };
    let mut m: Vec<(String, Json)> = Vec::new();
    m.push(member_of("severity", str_json(severity)));
    m.push(member_of("code", Json::Str(d.code.clone())));
    m.push(member_of("message", Json::Str(d.message.clone())));
    m.push(member_of("file", Json::Str(d.file.clone())));
    m.push(member_of("line", count_json(d.span.start.line)));
    m.push(member_of("column", count_json(d.span.start.column)));
    m.push(member_of("help", help));
    object(m)
}

impl ToolHandler {
    /// The tools of `workspace`.
    pub fn new(workspace: &str) -> (r: Self)
        ensures
            r.workspace@ == workspace@,
    {
        ToolHandler { workspace: String::from_str(workspace) }
    }

    /// The workspace.
    pub fn workspace_str(&self) -> (r: &str)
        ensures
            r@ == self.workspace@,
    {
        self.workspace.as_str()
    }

    /// Whether a name given by an agent may be used as a path in the
    /// workspace: it has no `..`.
    pub fn is_safe_name(&self, name: &str) -> (b: bool)
        ensures
            b == !spec_contains(name@, ".."@),
    {
        !contains_str(name, "..")
    }

    /// The explanation of an error code: the code, its explanation, and its
    /// severity (`error` for codes that start with `E`, else `warning`).
    pub fn explain_error(&self, code: &str) -> (j: Json)
        ensures
            j matches Json::Object(m) && m@.len() == 3
                && m@[0].0@ == "code"@ && is_str(m@[0].1, code@)
                && m@[1].0@ == "explanation"@ && is_str(m@[1].1, explanation_of(code@))
                && m@[2].0@ == "severity"@ && is_str(m@[2].1,
                    if code@.len() > 0 && code@[0] == 'E' { "error"@ } else { "warning"@ }),
    {
        let explanation = if str_eq(code, "E001") { "Unknown element type. Use 'element' keyword to declare elements." }
            else if str_eq(code, "E002") { "Syntax error in element declaration. Check brackets and colons." }
            else if str_eq(code, "E003") { "Invalid scope expression. Scopes must be assigned selector function calls." }
            else if str_eq(code, "E004") { "Invalid check expression. Checks must be function calls." }
            else if str_eq(code, "E005") { "Unknown pattern. The referenced pattern has not been defined." }
            else if str_eq(code, "E100") { "Unknown library. The imported library is not available." }
            else if str_eq(code, "E101") { "Unknown function. The called function does not exist in the library." }
            else if str_eq(code, "E200") { "Undefined identifier. The referenced name has not been declared." }
            else if str_eq(code, "E201") { "Cannot evaluate member access directly." }
            else if str_eq(code, "E202") { "Undefined reference. The referenced scope or element does not exist." }
            else if str_eq(code, "E203") { "Unknown library in function call." }
            else if str_eq(code, "E204") { "Check must be a function call." }
            else if str_eq(code, "E205") { "Expected library.function format for function calls." }
            else if str_eq(code, "W001") { "Unknown library warning. The library will be resolved at runtime." }
            else { "Unknown error code. Check the Hielements documentation for more information." };
        let chars = crate::text::chars_of(code);
        let is_error = chars.len() > 0 && chars[0] == 'E';
        proof {
            reveal_strlit("error");
            reveal_strlit("warning");
        }
        let mut m: Vec<(String, Json)> = Vec::new();
        m.push(member_of("code", str_json(code)));
        m.push(member_of("explanation", str_json(explanation)));
        m.push(member_of("severity", str_json(if is_error { "error" } else { "warning" })));
        object(m)
    }

    /// A basic element for `name` in `language` (`rust`, `python`, or
    /// files otherwise), implementing `pattern` where given; the result
    /// names the element, the pattern (null where none), the language and
    /// the generated text (see `generated_element`).
    pub fn generate_element(&self, name: &str, pattern: Option<&str>, language: &str) -> (j: Json)
        ensures
            j matches Json::Object(m) && m@.len() == 4
                && m@[0].0@ == "element_name"@ && is_str(m@[0].1, name@)
                && m@[1].0@ == "pattern"@ && match pattern { Some(p) => is_str(m@[1].1, p@), None => m@[1].1 == Json::Null }
                && m@[2].0@ == "language"@ && is_str(m@[2].1, language@)
                && m@[3].0@ == "generated"@ && is_str(m@[3].1,
                    generated_element(name@, match pattern { Some(p) => Some(p@), None => None }, language@)),
    {
        let rust = str_eq(language, "rust");
        let python = str_eq(language, "python");
        let imports = if rust { "import files\nimport rust\n" } else if python { "import files\nimport python\n" } else { "import files\n" };
        let implements = match pattern {
            Some(p) => concat(" implements ", p),
            None => String::new(),
        };
        let mut scope = String::from_str(if rust { "    scope src<rust> = rust.module_selector('" }
            else if python { "    scope src<python> = python.module_selector('" }
            else { "    scope src = files.folder_selector('src/" });
        scope.append(name);
        scope.append("')");
        let checks = if rust { "    check rust.struct_exists('Main')\n    check rust.has_tests(src)" }
            else if python { "    check python.function_exists(src, '__init__')" }
            else { "    check files.exists(src, 'main.py')" };
        let mut generated = String::from_str(imports);
        generated.append("\nelement ");
        generated.append(name);
        generated.append(implements.as_str());
        generated.append(" {\n");
        generated.append(scope.as_str());
        generated.append("\n");
        generated.append(checks);
        generated.append("\n}\n");
        let pattern_json = match pattern {
            Some(p) => str_json(p),
            None => Json::Null,
        };
        let mut m: Vec<(String, Json)> = Vec::new();
        m.push(member_of("element_name", str_json(name)));
        m.push(member_of("pattern", pattern_json));
        m.push(member_of("language", str_json(language)));
        m.push(member_of("generated", Json::Str(generated)));
        object(m)
    }

    /// The report of a validation: `error` where there are errors, else
    /// `ok`; whether a program came out; the counts of errors and warnings;
    /// and every diagnostic.
    pub fn specification_report(&self, has_program: bool, diagnostics: &Diagnostics) -> (j: Json)
        ensures
            j matches Json::Object(m) && m@.len() == 3
                && m@[0].0@ == "status"@ && is_str(m@[0].1, if crate::diagnostics::has_severity(diagnostics@, DiagnosticSeverity::Error) { "error"@ } else { "ok"@ })
                && m@[1].0@ == "has_program"@ && m@[1].1 == Json::Bool(has_program)
                && m@[2].0@ == "diagnostics"@ && (m@[2].1 matches Json::Object(d) && d@.len() == 3
                    && d@[0].0@ == "errors"@ && d@[1].0@ == "warnings"@
                    && counts_as(d@[0].1, diagnostics@.filter(|x: Diagnostic| x.severity == DiagnosticSeverity::Error).len())
                    && counts_as(d@[1].1, diagnostics@.filter(|x: Diagnostic| x.severity == DiagnosticSeverity::Warning).len())
                    && d@[2].0@ == "messages"@ && (d@[2].1 matches Json::Array(a) && a@.len() == diagnostics@.len())),
    {
        proof {
            reveal_strlit("error");
            reveal_strlit("ok");
        }
        let errors = diagnostics.errors();
        let warnings = diagnostics.warnings();
        proof {
            law_severity_filter(diagnostics@, DiagnosticSeverity::Error);
            law_severity_filter(diagnostics@, DiagnosticSeverity::Warning);
        }
        let all = diagnostics.as_slice();
        let mut messages: Vec<Json> = Vec::new();
        let mut i: usize = 0;
        while i < all.len()
            invariant
                i <= all@.len(),
                messages@.len() == i,
            decreases all@.len() - i,
        {
            messages.push(diagnostic_json(&all[i]));
            i = i + 1;
        }
        let mut d: Vec<(String, Json)> = Vec::new();
        d.push(member_of("errors", count_json(errors.len())));
        d.push(member_of("warnings", count_json(warnings.len())));
        d.push(member_of("messages", Json::Array(messages)));
        let mut m: Vec<(String, Json)> = Vec::new();
        m.push(member_of("status", str_json(if diagnostics.has_errors() { "error" } else { "ok" })));
        m.push(member_of("has_program", Json::Bool(has_program)));
        m.push(member_of("diagnostics", object(d)));
        object(m)
    }

    /// The report of a specification that did not validate: its errors,
    /// each with code, message and line.
    pub fn validation_error_report(&self, diagnostics: &Diagnostics) -> (j: Json)
        ensures
            j matches Json::Object(m) && m@.len() == 3
                && m@[0].0@ == "status"@ && is_str(m@[0].1, "validation_error"@)
                && m@[1].0@ == "message"@ && is_str(m@[1].1, "Specification has validation errors"@)
                && m@[2].0@ == "diagnostics"@ && (m@[2].1 matches Json::Array(a)
                    && a@.len() == crate::diagnostics::of_severity(diagnostics@, DiagnosticSeverity::Error).len()),
    {
        let errors = diagnostics.errors();
        let mut items: Vec<Json> = Vec::new();
        let mut i: usize = 0;
        while i < errors.len()
            invariant
                i <= errors@.len(),
                items@.len() == i,
            decreases errors@.len() - i,
        {
            let e = &errors[i];
            let mut m: Vec<(String, Json)> = Vec::new();
            m.push(member_of("code", Json::Str(e.code.clone())));
            m.push(member_of("message", Json::Str(e.message.clone())));
            m.push(member_of("line", count_json(e.span.start.line)));
            items.push(object(m));
            i = i + 1;
        }
        let mut m: Vec<(String, Json)> = Vec::new();
        m.push(member_of("status", str_json("validation_error")));
        m.push(member_of("message", str_json("Specification has validation errors")));
        m.push(member_of("diagnostics", Json::Array(items)));
        object(m)
    }

    /// The categories of `categories` that are listed (the one named
    /// `category`, if given; only those with patterns, if `drop_empty`),
    /// each with its patterns; and how many patterns they hold.
    pub fn pattern_library(&self, categories: &Vec<PatternCategory>, category: Option<&str>, drop_empty: bool) -> (r: (Json, usize))
        requires
            pattern_count(categories@) <= usize::MAX,
        ensures
            reports_categories(listed_categories(categories@, match category { Some(c) => Some(c@), None => None }, drop_empty), r.0),
            r.1 == pattern_count(listed_categories(categories@, match category { Some(c) => Some(c@), None => None }, drop_empty)),
    {
        let ghost want: Option<Seq<char>> = match category { Some(c) => Some(c@), None => None };
        let mut a: Vec<Json> = Vec::new();
        let mut total: usize = 0;
        let mut i: usize = 0;
        while i < categories.len()
            invariant
                i <= categories@.len(),
                want == (match category { Some(c) => Some(c@), None => None::<Seq<char>> }),
                pattern_count(categories@) <= usize::MAX,
                reports_categories(listed_categories(categories@.take(i as int), want, drop_empty), Json::Array(a)),
                total == pattern_count(listed_categories(categories@.take(i as int), want, drop_empty)),
                pattern_count(listed_categories(categories@.take(i as int), want, drop_empty)) <= pattern_count(categories@.take(i as int)),
            decreases categories@.len() - i,
        {
            let c = &categories[i];
            let ghost before = categories@.take(i as int);
            assert(categories@.take(i + 1).drop_last() == before);
            assert(categories@.take(i + 1).last() == *c);
            proof {
                lemma_count_prefix(categories@, i as int);
            }
            let listed = match category {
                Some(n) => str_eq(c.name.as_str(), n),
                None => true,
            } && !(drop_empty && c.patterns.len() == 0);
            let ghost rest = listed_categories(before, want, drop_empty);
            assert(listed ==> rest.push(*c).drop_last() == rest);
            assert(listed ==> listed_categories(categories@.take(i + 1), want, drop_empty) == rest.push(*c));
            assert(!listed ==> listed_categories(categories@.take(i + 1), want, drop_empty) == rest);
            if listed {
                let ghost old_a = a@;
                a.push(category_json(c));
                total = total + c.patterns.len();
                assert forall|k: int| 0 <= k < a@.len() implies reports_category(
                    #[trigger] listed_categories(categories@.take(i + 1), want, drop_empty)[k], a@[k]) by {
                    if k < old_a.len() {
                        assert(a@[k] == old_a[k]);
                    }
                }
            }
            i = i + 1;
        }
        assert(categories@.take(categories@.len() as int) == categories@);
        (Json::Array(a), total)
    }

    /// What the tool that lists patterns answers: the listed categories
    /// with their patterns (empty ones dropped), and how many patterns
    /// they hold.
    pub fn pattern_list_report(&self, categories: &Vec<PatternCategory>, category: Option<&str>) -> (j: Json)
        requires
            pattern_count(categories@) <= usize::MAX,
        ensures
            j matches Json::Object(m) && m@.len() == 2 && m@[0].0@ == "pattern_library"@
                && reports_categories(listed_categories(categories@, match category { Some(c) => Some(c@), None => None }, true), m@[0].1)
                && m@[1].0@ == "total_patterns"@
                && counts_as(m@[1].1, pattern_count(listed_categories(categories@, match category { Some(c) => Some(c@), None => None }, true))),
    {
        let (library, total) = self.pattern_library(categories, category, true);
        let mut m: Vec<(String, Json)> = Vec::new();
        m.push(member_of("pattern_library", library));
        m.push(member_of("total_patterns", count_json(total)));
        object(m)
    }

    /// The pattern catalog resource: every category with its patterns, and
    /// a description.
    pub fn pattern_catalog(&self, categories: &Vec<PatternCategory>) -> (j: Json)
        requires
            pattern_count(categories@) <= usize::MAX,
        ensures
            j matches Json::Object(m) && m@.len() == 2 && m@[0].0@ == "pattern_library"@
                && reports_categories(listed_categories(categories@, None, false), m@[0].1)
                && m@[1].0@ == "description"@ && is_str(m@[1].1, "Reusable architectural patterns for Hielements"@),
    {
        let (library, _total) = self.pattern_library(categories, None, false);
        let mut m: Vec<(String, Json)> = Vec::new();
        m.push(member_of("pattern_library", library));
        m.push(member_of("description", str_json("Reusable architectural patterns for Hielements")));
        object(m)
    }

    /// The report of a run: `ok` where nothing failed or erred, else
    /// `failed`; the counts; and every result.
    pub fn run_report(&self, output: &CheckOutput) -> (j: Json)
        ensures
            j matches Json::Object(m) && m@.len() == 3
                && m@[0].0@ == "status"@ && is_str(m@[0].1, if output.failed == 0 && output.errors == 0 { "ok"@ } else { "failed"@ })
                && m@[1].0@ == "summary"@ && (m@[1].1 matches Json::Object(s) && s@.len() == 5
                    && s@[0].0@ == "total"@ && counts_as(s@[0].1, output.total as nat)
                    && s@[1].0@ == "passed"@ && counts_as(s@[1].1, output.passed as nat)
                    && s@[2].0@ == "failed"@ && counts_as(s@[2].1, output.failed as nat)
                    && s@[3].0@ == "errors"@ && counts_as(s@[3].1, output.errors as nat)
                    && s@[4].0@ == "skipped"@ && counts_as(s@[4].1, output.skipped as nat))
                && m@[2].0@ == "results"@ && reports_results(output.results@, m@[2].1),
    {
        proof {
            reveal_strlit("ok");
            reveal_strlit("failed");
        }
        let mut s: Vec<(String, Json)> = Vec::new();
        s.push(member_of("total", count_json(output.total)));
        s.push(member_of("passed", count_json(output.passed)));
        s.push(member_of("failed", count_json(output.failed)));
        s.push(member_of("errors", count_json(output.errors)));
        s.push(member_of("skipped", count_json(output.skipped)));
        let mut m: Vec<(String, Json)> = Vec::new();
        m.push(member_of("status", str_json(if output.failed == 0 && output.errors == 0 { "ok" } else { "failed" })));
        m.push(member_of("summary", object(s)));
        m.push(member_of("results", results_json(&output.results)));
        object(m)
    }

    /// The options of a run from a tool's arguments: the string `filter`
    /// and the integer `limit`, where given.
    pub fn run_options(&self, args: &Vec<(String, Json)>) -> (o: RunOptions)
        ensures
            o.filter matches Some(f) ==> (obj_get(args@, "filter"@) matches Some(Json::Str(t)) && f@ == t@),
            o.filter is None ==> !(obj_get(args@, "filter"@) matches Some(Json::Str(_))),
            o.limit matches Some(n) ==> (obj_get(args@, "limit"@) matches Some(Json::Int(k)) && n == k as usize),
            o.limit is None ==> !(obj_get(args@, "limit"@) matches Some(Json::Int(_))),
            !o.verbose,
    {
        let filter = match crate::stdlib::json::lookup(args, "filter") {
            Some(Json::Str(t)) => Some(t.clone()),
            _ => None,
        };
        let limit = match crate::stdlib::json::lookup(args, "limit") {
            Some(Json::Int(k)) => Some(*k as usize),
            _ => None,
        };
        RunOptions { filter, limit, verbose: false }
    }
}

} // verus!
