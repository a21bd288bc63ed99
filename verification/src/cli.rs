//! What the command-line tool shows: the outline of a dry run, the
//! closing lines of a validation, the JSON report of a run, and its exit
//! status.

use vstd::prelude::*;
use crate::ast::{Element, Program};
use crate::diagnostics::{DiagnosticSeverity, Diagnostics, has_severity, of_severity};
use crate::interpreter::CheckOutput;
use crate::mcp::tools::{is_str, reports_results, results_json};
use crate::stdlib::json::{Json, counts_as, count_json, member_of, object, str_json};
use crate::doc::LibraryDoc;
use crate::stdlib::source::{lemma_text_lt_irreflexive, lemma_text_lt_total, lemma_text_lt_transitive, parent_of, path_parent, text_less, text_lt};
use crate::text::{alphanumeric_of, chars_of, is_alphanumeric, nat_text, pieces, split_pieces, str_eq, string_from_chars, trim, trimmed, u64_text};

verus! {

/// What a line of a dry run shows.
#[derive(Debug, PartialEq, Eq)]
pub enum DryRunItem {
    /// `element NAME:`
    Element(String),
    /// `scope NAME = ...`
    Scope(String),
    /// `ref NAME: TYPE = ...`
    Ref(String, String),
    /// `SOURCE uses TARGET`
    Uses(String, String),
    /// `→ check ...`
    Check,
}

/// A line of a dry run: how deep it is indented, and what it shows.
#[derive(Debug)]
pub struct DryRunLine {
    pub indent: usize,
    pub item: DryRunItem,
}

/// A dry-run line as its depth, a tag (element, scope, ref, uses, check)
/// and its texts.
pub open spec fn line_view(l: DryRunLine) -> (nat, int, Seq<char>, Seq<char>) {
    match l.item {
        DryRunItem::Element(n) => (l.indent as nat, 0, n@, Seq::empty()),
        DryRunItem::Scope(n) => (l.indent as nat, 1, n@, Seq::empty()),
        DryRunItem::Ref(n, t) => (l.indent as nat, 2, n@, t@),
        DryRunItem::Uses(s, t) => (l.indent as nat, 3, s@, t@),
        DryRunItem::Check => (l.indent as nat, 4, Seq::empty(), Seq::empty()),
    }
}

/// The next depth: one more, at most `usize::MAX`.
pub open spec fn deeper(indent: nat) -> nat {
    if indent < usize::MAX { indent + 1 } else { indent }
}

/// The names of `ids` joined with dots.
pub open spec fn dotted(ids: Seq<crate::ast::Identifier>) -> Seq<char>
    decreases ids.len(),
{
    if ids.len() == 0 {
        Seq::empty()
    } else if ids.len() == 1 {
        ids[0].name@
    } else {
        dotted(ids.drop_last()) + seq!['.'] + ids.last().name@
    }
}

/// The dry-run lines of an element at depth `indent`: the element, its
/// scopes, refs, uses and checks, then its children one level deeper.
pub open spec fn element_lines(e: Element, indent: nat) -> Seq<(nat, int, Seq<char>, Seq<char>)>
    decreases e, 0nat,
{
    seq![(indent, 0int, e.name.name@, Seq::<char>::empty())]
        + Seq::new(e.scopes@.len(), |i: int| (indent, 1int, e.scopes@[i].name.name@, Seq::<char>::empty()))
        + Seq::new(e.refs@.len(), |i: int| (indent, 2int, e.refs@[i].name.name@, e.refs@[i].type_annotation.type_ident.name@))
        + Seq::new(e.uses@.len(), |i: int| (indent, 3int, e.uses@[i].source.name@, dotted(e.uses@[i].target@)))
        + Seq::new(e.checks@.len(), |i: int| (indent, 4int, Seq::<char>::empty(), Seq::<char>::empty()))
        + elements_lines(e.children@, deeper(indent))
}

/// The dry-run lines of the elements `es` at depth `indent`, in order.
pub open spec fn elements_lines(es: Seq<Element>, indent: nat) -> Seq<(nat, int, Seq<char>, Seq<char>)>
    decreases es, 1nat,
{
    if es.len() == 0 { Seq::empty() } else { elements_lines(es.drop_last(), indent) + element_lines(es.last(), indent) }
}

/// The names of `ids` joined with dots.
fn join_dotted(ids: &Vec<crate::ast::Identifier>) -> (r: String)
    ensures
        r@ == dotted(ids@),
{
    let mut out = String::new();
    let mut i: usize = 0;
    while i < ids.len()
        invariant
            i <= ids@.len(),
            out@ == dotted(ids@.take(i as int)),
        decreases ids@.len() - i,
    {
        proof {
            reveal_strlit(".");
        }
        assert(ids@.take(i + 1).drop_last() =~= ids@.take(i as int));
        assert(ids@.take(i + 1).last() == ids@[i as int]);
        if i == 0 {
            assert(ids@.take(1)[0] == ids@[0]);
        } else {
            out.append(".");
        }
        out.append(ids[i].name.as_str());
        i = i + 1;
    }
    assert(ids@.take(i as int) =~= ids@);
    out
}

/// Add the dry-run lines of an element at depth `indent` to `out`.
#[verifier::loop_isolation(false)]
fn print_element_checks(element: &Element, indent: usize, out: &mut Vec<DryRunLine>)
    ensures
        final(out)@.map_values(|l: DryRunLine| line_view(l)) == old(out)@.map_values(|l: DryRunLine| line_view(l))
            + element_lines(*element, indent as nat),
    decreases element, 0nat,
{
    let ghost start = out@.map_values(|l: DryRunLine| line_view(l));
    out.push(DryRunLine { indent, item: DryRunItem::Element(element.name.name.clone()) });
    let ghost after_element = out@.map_values(|l: DryRunLine| line_view(l));
    assert(after_element =~= start + seq![(indent as nat, 0int, element.name.name@, Seq::<char>::empty())]);
    let mut i: usize = 0;
    while i < element.scopes.len()
        invariant
            i <= element.scopes@.len(),
            out@.map_values(|l: DryRunLine| line_view(l)) =~= after_element
                + Seq::new(i as nat, |k: int| (indent as nat, 1int, element.scopes@[k].name.name@, Seq::<char>::empty())),
        decreases element.scopes@.len() - i,
    {
        let ghost before = out@.map_values(|l: DryRunLine| line_view(l));
        let line = DryRunLine { indent, item: DryRunItem::Scope(element.scopes[i].name.name.clone()) };
        assert(line_view(line) == (indent as nat, 1int, element.scopes@[i as int].name.name@, Seq::<char>::empty()));
        out.push(line);
        assert(out@.map_values(|l: DryRunLine| line_view(l)) =~= before.push(line_view(line)));
        i = i + 1;
    }
    let ghost after_scopes = out@.map_values(|l: DryRunLine| line_view(l));
    let mut i: usize = 0;
    while i < element.refs.len()
        invariant
            i <= element.refs@.len(),
            out@.map_values(|l: DryRunLine| line_view(l)) =~= after_scopes
                + Seq::new(i as nat, |k: int| (indent as nat, 2int, element.refs@[k].name.name@, element.refs@[k].type_annotation.type_ident.name@)),
        decreases element.refs@.len() - i,
    {
        let r = &element.refs[i];
        let ghost before = out@.map_values(|l: DryRunLine| line_view(l));
        let line = DryRunLine { indent, item: DryRunItem::Ref(r.name.name.clone(), r.type_annotation.type_ident.name.clone()) };
        assert(line_view(line) == (indent as nat, 2int, element.refs@[i as int].name.name@, element.refs@[i as int].type_annotation.type_ident.name@));
        out.push(line);
        assert(out@.map_values(|l: DryRunLine| line_view(l)) =~= before.push(line_view(line)));
        i = i + 1;
    }
    let ghost after_refs = out@.map_values(|l: DryRunLine| line_view(l));
    let mut i: usize = 0;
    while i < element.uses.len()
        invariant
            i <= element.uses@.len(),
            out@.map_values(|l: DryRunLine| line_view(l)) =~= after_refs
                + Seq::new(i as nat, |k: int| (indent as nat, 3int, element.uses@[k].source.name@, dotted(element.uses@[k].target@))),
        decreases element.uses@.len() - i,
    {
        let u = &element.uses[i];
        let target = join_dotted(&u.target);
        let ghost before = out@.map_values(|l: DryRunLine| line_view(l));
        let line = DryRunLine { indent, item: DryRunItem::Uses(u.source.name.clone(), target) };
        assert(line_view(line) == (indent as nat, 3int, element.uses@[i as int].source.name@, dotted(element.uses@[i as int].target@)));
        out.push(line);
        assert(out@.map_values(|l: DryRunLine| line_view(l)) =~= before.push(line_view(line)));
        i = i + 1;
    }
    let ghost after_uses = out@.map_values(|l: DryRunLine| line_view(l));
    let mut i: usize = 0;
    while i < element.checks.len()
        invariant
            i <= element.checks@.len(),
            out@.map_values(|l: DryRunLine| line_view(l)) =~= after_uses
                + Seq::new(i as nat, |k: int| (indent as nat, 4int, Seq::<char>::empty(), Seq::<char>::empty())),
        decreases element.checks@.len() - i,
    {
        let ghost before = out@.map_values(|l: DryRunLine| line_view(l));
        let line = DryRunLine { indent, item: DryRunItem::Check };
        out.push(line);
        assert(out@.map_values(|l: DryRunLine| line_view(l)) =~= before.push(line_view(line)));
        i = i + 1;
    }
    let ghost after_checks = out@.map_values(|l: DryRunLine| line_view(l));
    let child_indent: usize = if indent < usize::MAX { indent + 1 } else { indent };
    let mut c: usize = 0;
    while c < element.children.len()
        invariant
            c <= element.children@.len(),
            child_indent as nat == deeper(indent as nat),
            out@.map_values(|l: DryRunLine| line_view(l)) == after_checks
                + elements_lines(element.children@.take(c as int), child_indent as nat),
        decreases element.children@.len() - c,
    {
        proof {
            assert(decreases_to!(*element => element.children@[c as int]));
            assert(element.children@.take(c + 1).drop_last() =~= element.children@.take(c as int));
            assert(element.children@.take(c + 1).last() == element.children@[c as int]);
        }
        let ghost before = out@.map_values(|l: DryRunLine| line_view(l));
        print_element_checks(&element.children[c], child_indent, out);
        assert(out@.map_values(|l: DryRunLine| line_view(l)) =~= after_checks
            + elements_lines(element.children@.take(c + 1), child_indent as nat));
        c = c + 1;
    }
    assert(element.children@.take(c as int) =~= element.children@);
    assert(out@.map_values(|l: DryRunLine| line_view(l)) =~= start + element_lines(*element, indent as nat));
}

/// The lines that a dry run shows for a program, its elements starting at
/// depth `indent` (see `element_lines`).
pub fn print_checks_dry_run(program: &Program, indent: usize) -> (r: Vec<DryRunLine>)
    ensures
        r@.map_values(|l: DryRunLine| line_view(l)) == elements_lines(program.elements@, indent as nat),
{
    let mut out: Vec<DryRunLine> = Vec::new();
    let mut e: usize = 0;
    assert(out@.map_values(|l: DryRunLine| line_view(l)) =~= elements_lines(program.elements@.take(0), indent as nat));
    while e < program.elements.len()
        invariant
            e <= program.elements@.len(),
            out@.map_values(|l: DryRunLine| line_view(l)) == elements_lines(program.elements@.take(e as int), indent as nat),
        decreases program.elements@.len() - e,
    {
        assert(program.elements@.take(e + 1).drop_last() =~= program.elements@.take(e as int));
        assert(program.elements@.take(e + 1).last() == program.elements@[e as int]);
        print_element_checks(&program.elements[e], indent, &mut out);
        e = e + 1;
    }
    assert(program.elements@.take(e as int) =~= program.elements@);
    out
}


/// `s`, unless the count is one.
pub open spec fn plural(n: nat) -> Seq<char> {
    if n == 1 { Seq::empty() } else { "s"@ }
}

fn plural_suffix(n: usize) -> (r: &'static str)
    ensures
        r@ == plural(n as nat),
{
    proof {
        reveal_strlit("");
        reveal_strlit("s");
    }
    if n == 1 { "" } else { "s" }
}

/// The closing line of a validation that found errors, after `error: `.
pub open spec fn failure_text(file: Seq<char>, errors: nat, warnings: nat) -> Seq<char> {
    "could not validate `"@ + file + "` due to "@ + nat_text(errors) + " previous error"@ + plural(errors)
        + if warnings > 0 {
            "; "@ + nat_text(warnings) + " warning"@ + plural(warnings) + " emitted"@
        } else {
            Seq::empty()
        }
}

/// The closing line of a validation without errors, after `Finished `.
pub open spec fn success_text(file: Seq<char>, warnings: nat) -> Seq<char> {
    if warnings > 0 {
        "`"@ + file + "` validated with "@ + nat_text(warnings) + " warning"@ + plural(warnings)
    } else {
        "`"@ + file + "` validated successfully"@
    }
}

/// How a validation closes: with the errors it found, or finished.
#[derive(Debug, PartialEq, Eq)]
pub enum ValidationSummary {
    /// Printed after `error: ` on standard error.
    Failed(String),
    /// Printed after `Finished ` on standard output.
    Finished(String),
}

/// The closing line of `hielements check` on `file`: where the
/// diagnostics hold an error, the failure with the counts of errors and
/// warnings; else, where the program was parsed, the success with the
/// count of warnings; else nothing.
pub fn validation_summary(file: &str, diagnostics: &Diagnostics, has_program: bool) -> (r: Option<ValidationSummary>)
    ensures
        has_severity(diagnostics@, DiagnosticSeverity::Error) ==> (r matches Some(ValidationSummary::Failed(t))
            && t@ == failure_text(file@,
                of_severity(diagnostics@, DiagnosticSeverity::Error).len(),
                of_severity(diagnostics@, DiagnosticSeverity::Warning).len())),
        !has_severity(diagnostics@, DiagnosticSeverity::Error) && has_program ==> (r matches Some(ValidationSummary::Finished(t))
            && t@ == success_text(file@, of_severity(diagnostics@, DiagnosticSeverity::Warning).len())),
        !has_severity(diagnostics@, DiagnosticSeverity::Error) && !has_program ==> r is None,
{
    let warnings = diagnostics.warnings().len();
    if diagnostics.has_errors() {
        let errors = diagnostics.errors().len();
        let mut t = String::from_str("could not validate `");
        t.append(file);
        t.append("` due to ");
        t.append(u64_text(errors as u64).as_str());
        t.append(" previous error");
        t.append(plural_suffix(errors));
        if warnings > 0 {
            t.append("; ");
            t.append(u64_text(warnings as u64).as_str());
            t.append(" warning");
            t.append(plural_suffix(warnings));
            t.append(" emitted");
        }
        proof {
            reveal_strlit("could not validate `");
            reveal_strlit("` due to ");
            reveal_strlit(" previous error");
            reveal_strlit("; ");
            reveal_strlit(" warning");
            reveal_strlit(" emitted");
        }
        Some(ValidationSummary::Failed(t))
    } else if has_program {
        let mut t = String::from_str("`");
        t.append(file);
        if warnings > 0 {
            t.append("` validated with ");
            t.append(u64_text(warnings as u64).as_str());
            t.append(" warning");
            t.append(plural_suffix(warnings));
        } else {
            t.append("` validated successfully");
        }
        proof {
            reveal_strlit("`");
            reveal_strlit("` validated with ");
            reveal_strlit(" warning");
            reveal_strlit("` validated successfully");
        }
        Some(ValidationSummary::Finished(t))
    } else {
        None
    }
}

/// The exit status of `hielements check` and `hielements parse`: 1 where
/// the diagnostics hold an error, else 0.
pub fn validation_exit_code(diagnostics: &Diagnostics) -> (code: u8)
    ensures
        code == (if has_severity(diagnostics@, DiagnosticSeverity::Error) { 1u8 } else { 0u8 }),
{
    if diagnostics.has_errors() { 1 } else { 0 }
}

/// The exit status of a run: 1 where a check failed or erred, else 0.
pub fn run_exit_code(output: &CheckOutput) -> (code: u8)
    ensures
        code == (if output.failed > 0 || output.errors > 0 { 1u8 } else { 0u8 }),
{
    if output.failed > 0 || output.errors > 0 { 1 } else { 0 }
}

/// What the summary of a run adds for skipped checks: `, N skipped`
/// where some were skipped, else nothing.
pub fn skipped_suffix(skipped: usize) -> (r: String)
    ensures
        r@ == (if skipped > 0 { ", "@ + nat_text(skipped as nat) + " skipped"@ } else { Seq::empty() }),
{
    if skipped > 0 {
        let mut t = String::from_str(", ");
        t.append(u64_text(skipped as u64).as_str());
        t.append(" skipped");
        proof {
            reveal_strlit(", ");
            reveal_strlit(" skipped");
        }
        t
    } else {
        String::new()
    }
}

/// The workspace of a run: the one given; else the directory of the
/// specification file, where it has a non-empty one; else `.`.
pub open spec fn workspace_of(workspace: Option<Seq<char>>, file: Seq<char>) -> Seq<char> {
    match workspace {
        Some(w) => w,
        None => match parent_of(file) {
            Some(p) if p.len() > 0 => p,
            _ => "."@,
        },
    }
}

/// The workspace of `hielements run` on `file`.
pub fn workspace_for(workspace: Option<&str>, file: &str) -> (r: String)
    ensures
        r@ == workspace_of(
            match workspace {
                Some(w) => Some(w@),
                None => None,
            },
            file@,
        ),
{
    proof {
        reveal_strlit(".");
    }
    match workspace {
        Some(w) => String::from_str(w),
        None => match path_parent(file) {
            Some(p) => {
                if p.as_str().unicode_len() > 0 {
                    p
                } else {
                    String::from_str(".")
                }
            },
            None => String::from_str("."),
        },
    }
}

/// Whether `j` reports the run `output` as the command line does: format
/// version `1.0`; status `ok` where nothing failed or erred, else `error`;
/// the counts; and every result.
pub open spec fn reports_run(output: CheckOutput, j: Json) -> bool {
    j matches Json::Object(m) && m@.len() == 4
        && m@[0].0@ == "version"@ && is_str(m@[0].1, "1.0"@)
        && m@[1].0@ == "status"@ && is_str(m@[1].1, if output.failed == 0 && output.errors == 0 { "ok"@ } else { "error"@ })
        && m@[2].0@ == "summary"@ && (m@[2].1 matches Json::Object(s) && s@.len() == 4
            && s@[0].0@ == "total"@ && counts_as(s@[0].1, output.total as nat)
            && s@[1].0@ == "passed"@ && counts_as(s@[1].1, output.passed as nat)
            && s@[2].0@ == "failed"@ && counts_as(s@[2].1, output.failed as nat)
            && s@[3].0@ == "errors"@ && counts_as(s@[3].1, output.errors as nat))
        && m@[3].0@ == "results"@ && reports_results(output.results@, m@[3].1)
}

/// The JSON report of `hielements run --format json`.
pub fn run_json(output: &CheckOutput) -> (j: Json)
    ensures
        reports_run(*output, j),
{
    proof {
        reveal_strlit("1.0");
        reveal_strlit("ok");
        reveal_strlit("error");
    }
    let mut s: Vec<(String, Json)> = Vec::new();
    s.push(member_of("total", count_json(output.total)));
    s.push(member_of("passed", count_json(output.passed)));
    s.push(member_of("failed", count_json(output.failed)));
    s.push(member_of("errors", count_json(output.errors)));
    let mut m: Vec<(String, Json)> = Vec::new();
    m.push(member_of("version", str_json("1.0")));
    m.push(member_of("status", str_json(if output.failed == 0 && output.errors == 0 { "ok" } else { "error" })));
    m.push(member_of("summary", object(s)));
    m.push(member_of("results", results_json(&output.results)));
    object(m)
}


/// Whether `name` can name a new project: only letters, digits (in the
/// sense of `char::is_alphanumeric`) and underscores.
pub open spec fn valid_project_name(name: Seq<char>) -> bool {
    forall|i: int| 0 <= i < name.len() ==> alphanumeric_of(#[trigger] name[i]) || name[i] == '_'
}

/// Whether `hielements init` accepts `name` as a project name.
pub fn is_valid_project_name(name: &str) -> (b: bool)
    ensures
        b == valid_project_name(name@),
{
    let cs = chars_of(name);
    let mut i: usize = 0;
    while i < cs.len()
        invariant
            i <= cs@.len(),
            cs@ == name@,
            forall|k: int| 0 <= k < i ==> alphanumeric_of(#[trigger] name@[k]) || name@[k] == '_',
        decreases cs@.len() - i,
    {
        let c = cs[i];
        if !(is_alphanumeric(c) || c == '_') {
            assert(!(alphanumeric_of(name@[i as int]) || name@[i as int] == '_'));
            return false;
        }
        i = i + 1;
    }
    true
}

/// The first specification file of a new project named `n`.
pub open spec fn initial_specification_text(n: Seq<char>) -> Seq<char> {
    "# "@ + n + " Architecture Specification\n#\n# This file describes the structure of the "@ + n
        + " project using Hielements.\n# Learn more at: https://github.com/ercasta/hielements\n#\n# For AI agents and quick reference:\n# - See USAGE_GUIDE.md for language syntax and available commands\n# - Run 'hielements check "@
        + n + ".hie' to validate this specification\n# - Run 'hielements run "@ + n
        + ".hie' to execute checks\n\nimport files\n\n## The "@ + n + " project\nelement "@ + n
        + " {\n    # Define the root scope\n    scope root = files.folder_selector('.')\n    \n    # Basic checks\n    check files.exists(root, 'README.md')\n    \n    # Add more elements, scopes, and checks here to describe your architecture\n}\n"@
}

/// The `.hie` file that `hielements init` writes for the project `name`.
pub fn initial_specification(name: &str) -> (r: String)
    ensures
        r@ == initial_specification_text(name@),
{
    let mut t = String::from_str("# ");
    t.append(name);
    t.append(" Architecture Specification\n#\n# This file describes the structure of the ");
    t.append(name);
    t.append(" project using Hielements.\n# Learn more at: https://github.com/ercasta/hielements\n#\n# For AI agents and quick reference:\n# - See USAGE_GUIDE.md for language syntax and available commands\n# - Run 'hielements check ");
    t.append(name);
    t.append(".hie' to validate this specification\n# - Run 'hielements run ");
    t.append(name);
    t.append(".hie' to execute checks\n\nimport files\n\n## The ");
    t.append(name);
    t.append(" project\nelement ");
    t.append(name);
    t.append(" {\n    # Define the root scope\n    scope root = files.folder_selector('.')\n    \n    # Basic checks\n    check files.exists(root, 'README.md')\n    \n    # Add more elements, scopes, and checks here to describe your architecture\n}\n");
    t
}


/// The library names that a `--library` filter lists: the pieces between
/// commas, each trimmed.
pub open spec fn filter_names(filter: Seq<char>) -> Seq<Seq<char>> {
    pieces(filter, ',').map_values(|p: Seq<char>| trimmed(p))
}

/// The names listed in a `--library` filter.
pub fn library_filter_names(filter: &str) -> (r: Vec<String>)
    ensures
        r@.map_values(|n: String| n@) == filter_names(filter@),
{
    let ps = split_pieces(filter, ',');
    let mut out: Vec<String> = Vec::new();
    let mut i: usize = 0;
    while i < ps.len()
        invariant
            i <= ps@.len(),
            ps@.map_values(|p: String| p@) == pieces(filter@, ','),
            out@.len() == i,
            forall|k: int| 0 <= k < i ==> #[trigger] out@[k]@ == trimmed(ps@[k]@),
        decreases ps@.len() - i,
    {
        out.push(trim(ps[i].as_str()));
        i = i + 1;
    }
    assert(out@.map_values(|n: String| n@) =~= filter_names(filter@)) by {
        assert forall|k: int| 0 <= k < out@.len() implies out@.map_values(|n: String| n@)[k] == filter_names(filter@)[k] by {
            assert(ps@.map_values(|p: String| p@)[k] == ps@[k]@);
        }
    }
    out
}

/// Whether `name` is one of `names`.
fn is_listed(names: &Vec<String>, name: &str) -> (b: bool)
    ensures
        b == names@.map_values(|n: String| n@).contains(name@),
{
    let mut i: usize = 0;
    while i < names.len()
        invariant
            i <= names@.len(),
            forall|k: int| 0 <= k < i ==> #[trigger] names@[k]@ != name@,
        decreases names@.len() - i,
    {
        if str_eq(names[i].as_str(), name) {
            assert(names@.map_values(|n: String| n@)[i as int] == name@);
            return true;
        }
        i = i + 1;
    }
    proof {
        if names@.map_values(|n: String| n@).contains(name@) {
            let ns = names@.map_values(|n: String| n@);
            let k = choose|k: int| 0 <= k < ns.len() && #[trigger] ns[k] == name@;
            assert(names@[k]@ == name@);
        }
    }
    false
}

/// The libraries of `libs` whose name is one of `names`, in order.
pub open spec fn libraries_named(libs: Seq<LibraryDoc>, names: Seq<Seq<char>>) -> Seq<LibraryDoc> {
    libs.filter(|l: LibraryDoc| names.contains(l.name@))
}

/// Keep the libraries of `libs` whose name `names` lists, in order.
pub fn retain_libraries(libs: Vec<LibraryDoc>, names: &Vec<String>) -> (r: Vec<LibraryDoc>)
    ensures
        r@ == libraries_named(libs@, names@.map_values(|n: String| n@)),
{
    let ghost ns = names@.map_values(|n: String| n@);
    let ghost all = libs@;
    let total = libs.len();
    let mut libs = libs;
    let mut rest: Vec<LibraryDoc> = Vec::new();
    // Take the libraries from the back, then restore their order.
    while libs.len() > 0
        invariant
            all == libs@ + rest@.reverse(),
            all.len() == total,
            ns == names@.map_values(|n: String| n@),
        decreases libs@.len(),
    {
        let ghost before = libs@;
        let lib = libs.pop().unwrap();
        proof {
            assert(before == libs@.push(lib));
            assert(rest@.push(lib).reverse() =~= seq![lib] + rest@.reverse());
        }
        rest.push(lib);
        assert(all =~= libs@ + rest@.reverse());
    }
    assert(rest@.reverse() =~= all);
    let mut out: Vec<LibraryDoc> = Vec::new();
    let mut taken: usize = 0;
    while rest.len() > 0
        invariant
            taken + rest@.len() == all.len(),
            all.len() == total,
            rest@.reverse() =~= all.skip(taken as int),
            out@ == libraries_named(all.take(taken as int), ns),
            ns == names@.map_values(|n: String| n@),
        decreases rest@.len(),
    {
        let ghost before = rest@;
        let lib = rest.pop().unwrap();
        proof {
            assert(before == rest@.push(lib));
            assert(before.reverse()[0] == lib);
            assert(all[taken as int] == lib) by {
                assert(all.skip(taken as int)[0] == all[taken as int]);
            }
            assert(rest@.reverse() =~= all.skip(taken + 1)) by {
                assert forall|k: int| 0 <= k < rest@.len() implies rest@.reverse()[k] == all.skip(taken + 1)[k] by {
                    assert(before.reverse()[k + 1] == all.skip(taken as int)[k + 1]);
                }
            }
            assert(all.take(taken + 1).drop_last() =~= all.take(taken as int));
            assert(all.take(taken + 1).last() == lib);
            reveal(Seq::filter);
        }
        if is_listed(names, lib.name.as_str()) {
            out.push(lib);
        }
        taken = taken + 1;
    }
    assert(all.take(taken as int) =~= all);
    out
}

/// Whether the libraries `s` are in order of their names.
pub open spec fn sorted_by_name(s: Seq<LibraryDoc>) -> bool {
    forall|i: int, j: int| 0 <= i < j < s.len() ==> !text_lt(s[j].name@, s[i].name@)
}

/// The libraries of `libs` in order of their names.
pub fn sort_libraries(libs: Vec<LibraryDoc>) -> (r: Vec<LibraryDoc>)
    ensures
        sorted_by_name(r@),
        r@.to_multiset() == libs@.to_multiset(),
{
    broadcast use vstd::seq_lib::group_to_multiset_ensures;
    let ghost all = libs@;
    let mut libs = libs;
    let mut out: Vec<LibraryDoc> = Vec::new();
    while libs.len() > 0
        invariant
            sorted_by_name(out@),
            out@.to_multiset().add(libs@.to_multiset()) == all.to_multiset(),
        decreases libs@.len(),
    {
        let ghost before = libs@;
        let lib = libs.pop().unwrap();
        proof {
            assert(before == libs@.push(lib));
        }
        let mut k: usize = 0;
        while k < out.len() && !text_less(lib.name.as_str(), out[k].name.as_str())
            invariant
                k <= out@.len(),
                forall|j: int| 0 <= j < k ==> !text_lt(lib.name@, #[trigger] out@[j].name@),
            decreases out@.len() - k,
        {
            k = k + 1;
        }
        let ghost old_out = out@;
        out.insert(k, lib);
        proof {
            let nv = out@;
            assert(nv =~= old_out.insert(k as int, lib));
            assert forall|a: int, b: int| 0 <= a < b < nv.len() implies !text_lt(nv[b].name@, nv[a].name@) by {
                if b < k {
                    assert(nv[a] == old_out[a] && nv[b] == old_out[b]);
                } else if b == k {
                    assert(nv[a] == old_out[a]);
                } else {
                    assert(nv[b] == old_out[b - 1]);
                    // lib < old_out[k] <= old_out[b - 1]
                    assert(text_lt(lib.name@, old_out[k as int].name@));
                    if b - 1 > k {
                        lemma_text_lt_total(old_out[k as int].name@, old_out[b - 1].name@);
                        if old_out[k as int].name@ != old_out[b - 1].name@ {
                            lemma_text_lt_transitive(lib.name@, old_out[k as int].name@, old_out[b - 1].name@);
                        }
                    }
                    assert(text_lt(lib.name@, old_out[b - 1].name@));
                    if a == k {
                        if text_lt(old_out[b - 1].name@, lib.name@) {
                            lemma_text_lt_transitive(lib.name@, old_out[b - 1].name@, lib.name@);
                            lemma_text_lt_irreflexive(lib.name@);
                        }
                    } else if a < k {
                        assert(nv[a] == old_out[a]);
                    } else {
                        assert(nv[a] == old_out[a - 1]);
                    }
                }
            }
            assert(nv.remove(k as int) =~= old_out);
            assert(nv[k as int] == lib);
            nv.to_multiset_ensures();
            libs@.to_multiset_ensures();
            assert(nv.remove(k as int).to_multiset() =~= nv.to_multiset().remove(lib));
            assert(nv.contains(lib));
            assert(nv.to_multiset().count(lib) > 0);
            assert(nv.to_multiset() =~= old_out.to_multiset().insert(lib));
            assert(before.to_multiset() =~= libs@.to_multiset().insert(lib));
            assert(nv.to_multiset().add(libs@.to_multiset()) =~= old_out.to_multiset().add(before.to_multiset()));
        }
    }
    assert(libs@.to_multiset() =~= vstd::multiset::Multiset::empty());
    assert(out@.to_multiset().add(vstd::multiset::Multiset::empty()) =~= out@.to_multiset());
    out
}


/// Why `hielements doc` refuses an output path.
#[derive(Debug, PartialEq, Eq)]
pub enum OutputPathError {
    /// The path is absolute.
    Absolute,
    /// A component of the path is `..`.
    ParentReference,
}

/// What `hielements doc` finds wrong with the output path `p`, its
/// components separated by `/`: absolute where it starts at the root, a
/// parent reference where a component is `..`.
pub open spec fn output_path_error(p: Seq<char>) -> Option<OutputPathError> {
    if p.len() > 0 && p[0] == '/' {
        Some(OutputPathError::Absolute)
    } else if pieces(p, '/').contains(".."@) {
        Some(OutputPathError::ParentReference)
    } else {
        None
    }
}

/// Check the output path of `hielements doc`: `None` where it may be
/// written.
pub fn check_output_path(p: &str) -> (r: Option<OutputPathError>)
    ensures
        r == output_path_error(p@),
{
    if p.unicode_len() > 0 && p.get_char(0) == '/' {
        return Some(OutputPathError::Absolute);
    }
    let ps = split_pieces(p, '/');
    let ghost pv = ps@.map_values(|q: String| q@);
    let mut i: usize = 0;
    while i < ps.len()
        invariant
            i <= ps@.len(),
            pv == ps@.map_values(|q: String| q@),
            pv == pieces(p@, '/'),
            !(p@.len() > 0 && p@[0] == '/'),
            forall|k: int| 0 <= k < i ==> pv[k] != ".."@,
        decreases ps@.len() - i,
    {
        if str_eq(ps[i].as_str(), "..") {
            assert(pv[i as int] == ".."@);
            return Some(OutputPathError::ParentReference);
        }
        i = i + 1;
    }
    proof {
        if pv.contains(".."@) {
            let k = choose|k: int| 0 <= k < pv.len() && #[trigger] pv[k] == ".."@;
        }
    }
    None
}

} // verus!
