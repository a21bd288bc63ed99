//! The Python library: selectors and checks over Python sources, by
//! regular expressions and textual patterns. The caller reads the files;
//! the library decides.

use vstd::prelude::*;
use crate::stdlib::{CheckResult, LibraryError, Scope, ScopeKind, Value};
use crate::stdlib::json::check_view;
use crate::stdlib::rust::{arg_string, arg_scope, verdict, negated, sorted_selection, selected_scope, error_view, paths_of};
use crate::stdlib::source::{SourceFile, texts, file_stem_of, path_file_stem, sorted_unique, lemma_push_contains};
use crate::stdlib::scan::{file_has, select_paths, some_file};
use crate::stdlib::pattern::{regex_search, regex_escaped, regex_is_match, escape_regex};
use crate::text::{concat, contains_str, ends_with_str, spec_contains, spec_ends_with_str, str_eq, second_piece, split_second, before_any, first_piece,
    lines_of, lines, trimmed, trim};

verus! {

/// Whether `name` is a directory that scans for Python files skip; every
/// `*.egg-info` directory is one.
pub open spec fn python_excluded(name: Seq<char>) -> bool {
    name == ".git"@ || name == "node_modules"@ || name == "__pycache__"@ || name == ".venv"@ || name == "venv"@
        || name == ".tox"@ || name == ".pytest_cache"@ || name == ".mypy_cache"@ || name == "dist"@ || name == "build"@
        || spec_ends_with_str(name, ".egg-info"@)
}

/// Whether a directory named `name` is skipped when scanning for Python files.
pub fn is_excluded_dir(name: &str) -> (b: bool)
    ensures
        b == python_excluded(name@),
{
    str_eq(name, ".git") || str_eq(name, "node_modules") || str_eq(name, "__pycache__") || str_eq(name, ".venv")
        || str_eq(name, "venv") || str_eq(name, ".tox") || str_eq(name, ".pytest_cache") || str_eq(name, ".mypy_cache")
        || str_eq(name, "dist") || str_eq(name, "build") || ends_with_str(name, ".egg-info")
}

/// The Python library.
pub struct PythonLibrary;

/// Whether the regular expression `pattern` matches in `c`, where it
/// compiles, or else whether `c` contains one of `fallback`.
pub open spec fn matches_or(pattern: Seq<char>, c: Seq<char>, fallback: Seq<Seq<char>>) -> bool {
    match regex_search(pattern, c) {
        Some(b) => b,
        None => exists|k: int| 0 <= k < fallback.len() && spec_contains(c, #[trigger] fallback[k]),
    }
}

/// Whether one of the regular expressions `patterns` compiles and matches in `c`.
pub open spec fn any_pattern(patterns: Seq<Seq<char>>, c: Seq<char>) -> bool {
    exists|k: int| 0 <= k < patterns.len() && regex_search(#[trigger] patterns[k], c) == Some(true)
}

/// The regular expression that finds a definition of the function `e`
/// (already escaped).
pub open spec fn def_pattern(e: Seq<char>) -> Seq<char> {
    "\\bdef\\s+"@ + e + "[(]|\\basync\\s+def\\s+"@ + e + "[(]"@
}

/// The regular expression that finds a definition of the class `e`.
pub open spec fn class_pattern(e: Seq<char>) -> Seq<char> {
    "\\bclass\\s+"@ + e + "[:(]"@
}

/// The regular expressions that find an import of the module `e`.
pub open spec fn import_patterns(e: Seq<char>) -> Seq<Seq<char>> {
    seq!["\\bimport\\s+"@ + e + "\\b"@, "\\bfrom\\s+"@ + e + "\\s+import\\b"@, "\\bfrom\\s+"@ + e + "\\..*\\s+import\\b"@]
}

/// The regular expressions that find a call of `e`.
pub open spec fn call_patterns(e: Seq<char>) -> Seq<Seq<char>> {
    seq!["\\b"@ + e + "[(]"@, "\\b"@ + e + "\\."@]
}

/// A file that imports `m` in any of the three ways makes a scope import
/// `m`: `import m`, `from m import ...`, or `from m.<sub> import ...` (as
/// the regular expressions `\bimport\s+m\b`, `\bfrom\s+m\s+import\b` and
/// `\bfrom\s+m\..*\s+import\b` find them, `m` escaped); `check_imports`
/// then passes and `check_no_import` fails.
pub proof fn law_import_forms(files: Seq<SourceFile>, m: Seq<char>, i: int)
    requires
        0 <= i < files.len(),
        files[i].content matches Some(c) && (
            regex_search("\\bimport\\s+"@ + regex_escaped(m) + "\\b"@, c@) == Some(true)
            || regex_search("\\bfrom\\s+"@ + regex_escaped(m) + "\\s+import\\b"@, c@) == Some(true)
            || regex_search("\\bfrom\\s+"@ + regex_escaped(m) + "\\..*\\s+import\\b"@, c@) == Some(true)),
    ensures
        verdict(some_file(files, |c: Seq<char>| any_pattern(import_patterns(regex_escaped(m)), c)),
            "Scope does not import '"@ + m + "'"@) == (0int, Seq::<char>::empty()),
        negated(verdict(some_file(files, |c: Seq<char>| any_pattern(import_patterns(regex_escaped(m)), c)),
            "Scope does not import '"@ + m + "'"@), "Scope imports '"@ + m + "' but should not"@).0 == 1,
{
    let ps = import_patterns(regex_escaped(m));
    let c = files[i].content->0;
    if regex_search(ps[0], c@) == Some(true) {
        assert(any_pattern(ps, c@));
    } else if regex_search(ps[1], c@) == Some(true) {
        assert(any_pattern(ps, c@));
    } else {
        assert(regex_search(ps[2], c@) == Some(true));
        assert(any_pattern(ps, c@));
    }
    assert(file_has(files[i], |c: Seq<char>| any_pattern(import_patterns(regex_escaped(m)), c)));
}

/// A file that calls `t`, as `t(` or `t.` (the regular expressions
/// `\bt[(]` and `\bt\.` with `t` escaped), makes a scope call `t`:
/// `check_calls` passes.
pub proof fn law_call_forms(files: Seq<SourceFile>, t: Seq<char>, i: int)
    requires
        0 <= i < files.len(),
        files[i].content matches Some(c) && (
            regex_search("\\b"@ + regex_escaped(t) + "[(]"@, c@) == Some(true)
            || regex_search("\\b"@ + regex_escaped(t) + "\\."@, c@) == Some(true)),
    ensures
        verdict(some_file(files, |c: Seq<char>| any_pattern(call_patterns(regex_escaped(t)), c)),
            "Scope does not call '"@ + t + "'"@) == (0int, Seq::<char>::empty()),
{
    let ps = call_patterns(regex_escaped(t));
    let c = files[i].content->0;
    if regex_search(ps[0], c@) == Some(true) {
        assert(any_pattern(ps, c@));
    } else {
        assert(regex_search(ps[1], c@) == Some(true));
        assert(any_pattern(ps, c@));
    }
    assert(file_has(files[i], |c: Seq<char>| any_pattern(call_patterns(regex_escaped(t)), c)));
}

/// Whether a Python file at `path` is the module `name` (dotted): its stem
/// is the last part, or it is an `__init__.py` whose path contains it; for
/// a dotted name the path must also contain the parts joined with `/`.
pub open spec fn python_module_matches(path: Seq<char>, name: Seq<char>) -> bool {
    let last = crate::text::last_piece_from(name, "."@, 0);
    let stem = match file_stem_of(path) { Some(t) => t, None => Seq::empty() };
    (stem == last || (stem == "__init__"@ && spec_contains(path, last)))
        && (spec_contains(name, "."@) ==> spec_contains(path, slashed(name)))
}

/// `name` with every `.` replaced by `/`.
pub open spec fn slashed(name: Seq<char>) -> Seq<char> {
    Seq::new(name.len(), |i: int| if name[i] == '.' { '/' } else { name[i] })
}

/// Whether one of the lines of `c` defines a function (`def `) with an
/// arrow (`-> `) whose return part mentions `t`.
pub open spec fn some_line_returns(c: Seq<char>, t: Seq<char>) -> bool {
    exists|i: int| 0 <= i < lines_of(c).len() && spec_contains(#[trigger] lines_of(c)[i], "def "@)
        && spec_contains(lines_of(c)[i], "-> "@)
        && (second_piece(lines_of(c)[i], "-> "@) matches Some(p) && spec_contains(p, t))
}

/// Whether the text `c` shows a function returning `t`.
pub open spec fn returns_type_in(c: Seq<char>, t: Seq<char>) -> bool {
    spec_contains(c, "-> "@ + t + ":"@) || spec_contains(c, "-> "@ + t + "):"@)
        || (spec_contains(c, "-> "@) && spec_contains(c, t) && some_line_returns(c, t))
}

impl PythonLibrary {
    pub fn new() -> (r: Self) {
        PythonLibrary
    }

    /// The files whose text satisfies the regular expression `pattern`
    /// (or, where it does not compile, contains one of `fallback`).
    fn select_by_pattern(files: &Vec<SourceFile>, pattern: &str, fallback: &Vec<String>) -> (r: Vec<String>)
        ensures
            texts(r@) == select_paths(files@, |c: Seq<char>| matches_or(pattern@, c, texts(fallback@))),
    {
        let ghost pred = |c: Seq<char>| matches_or(pattern@, c, texts(fallback@));
        let mut out: Vec<String> = Vec::new();
        let mut i: usize = 0;
        while i < files.len()
            invariant
                i <= files@.len(),
                texts(out@) == select_paths(files@.take(i as int), pred),
                pred == (|c: Seq<char>| matches_or(pattern@, c, texts(fallback@))),
            decreases files@.len() - i,
        {
            assert(files@.take(i + 1).drop_last() =~= files@.take(i as int));
            assert(files@.take(i + 1).last() == files@[i as int]);
            let hit = match &files[i].content {
                Some(c) => match regex_is_match(pattern, c.as_str()) {
                    Some(b) => b,
                    None => crate::stdlib::scan::contains_any(c.as_str(), fallback),
                },
                None => false,
            };
            if hit {
                out.push(files[i].path.clone());
                assert(texts(out@) =~= select_paths(files@.take(i as int), pred).push(files@[i as int].path@));
            }
            i = i + 1;
        }
        assert(files@.take(i as int) =~= files@);
        out
    }

    /// The files that define the function `name` (see `def_pattern`).
    pub fn function_selector(&self, name: &str, files: &Vec<SourceFile>) -> (v: Value)
        ensures
            selected_scope(v, "fn:"@ + name@, select_paths(files@, |c: Seq<char>|
                matches_or(def_pattern(regex_escaped(name@)), c, seq!["def "@ + name@ + "("@, "async def "@ + name@ + "("@]))),
    {
        proof {
            reveal_strlit("\\bdef\\s+");
            reveal_strlit("[(]|\\basync\\s+def\\s+");
            reveal_strlit("[(]");
            reveal_strlit("def ");
            reveal_strlit("async def ");
            reveal_strlit("(");
            reveal_strlit("fn:");
        }
        let e = escape_regex(name);
        let mut pattern = concat("\\bdef\\s+", e.as_str());
        pattern.append("[(]|\\basync\\s+def\\s+");
        pattern.append(e.as_str());
        pattern.append("[(]");
        let mut fallback: Vec<String> = Vec::new();
        let mut a = concat("def ", name);
        a.append("(");
        let mut b = concat("async def ", name);
        b.append("(");
        fallback.push(a);
        fallback.push(b);
        assert(texts(fallback@) =~= seq!["def "@ + name@ + "("@, "async def "@ + name@ + "("@]);
        let paths = Self::select_by_pattern(files, pattern.as_str(), &fallback);
        Value::Scope(Scope::new(ScopeKind::File(concat("fn:", name))).with_paths(paths))
    }

    /// The files that define the class `name` (see `class_pattern`).
    pub fn class_selector(&self, name: &str, files: &Vec<SourceFile>) -> (v: Value)
        ensures
            selected_scope(v, "class:"@ + name@, select_paths(files@, |c: Seq<char>|
                matches_or(class_pattern(regex_escaped(name@)), c, seq!["class "@ + name@ + ":"@, "class "@ + name@ + "("@]))),
    {
        proof {
            reveal_strlit("\\bclass\\s+");
            reveal_strlit("[:(]");
            reveal_strlit("class ");
            reveal_strlit(":");
            reveal_strlit("(");
            reveal_strlit("class:");
        }
        let e = escape_regex(name);
        let mut pattern = concat("\\bclass\\s+", e.as_str());
        pattern.append("[:(]");
        let mut fallback: Vec<String> = Vec::new();
        let mut a = concat("class ", name);
        a.append(":");
        let mut b = concat("class ", name);
        b.append("(");
        fallback.push(a);
        fallback.push(b);
        assert(texts(fallback@) =~= seq!["class "@ + name@ + ":"@, "class "@ + name@ + "("@]);
        let paths = Self::select_by_pattern(files, pattern.as_str(), &fallback);
        Value::Scope(Scope::new(ScopeKind::File(concat("class:", name))).with_paths(paths))
    }

    /// `name` with every `.` replaced by `/`.
    fn slash_name(name: &str) -> (r: String)
        ensures
            r@ == slashed(name@),
    {
        let chars = crate::text::chars_of(name);
        let mut out: Vec<char> = Vec::new();
        let mut i: usize = 0;
        while i < chars.len()
            invariant
                i <= chars@.len(),
                chars@ == name@,
                out@ =~= slashed(name@).take(i as int),
            decreases chars@.len() - i,
        {
            if chars[i] == '.' {
                out.push('/');
            } else {
                out.push(chars[i]);
            }
            i = i + 1;
        }
        crate::text::string_from_chars(out.as_slice(), 0, out.len())
    }

    /// The Python files of `python_paths` that are the module `module_name`
    /// (see `python_module_matches`), sorted and without repetitions.
    pub fn module_selector(&self, module_name: &str, python_paths: &Vec<String>) -> (v: Value)
        ensures
            sorted_selection(v, module_name@, texts(python_paths@), |p: Seq<char>| python_module_matches(p, module_name@)),
    {
        proof {
            reveal_strlit(".");
            reveal_strlit("__init__");
        }
        let last = crate::text::last_piece(module_name, ".");
        let dotted = contains_str(module_name, ".");
        let expected = Self::slash_name(module_name);
        let ghost keep = |p: Seq<char>| python_module_matches(p, module_name@);
        let mut found: Vec<String> = Vec::new();
        let mut i: usize = 0;
        while i < python_paths.len()
            invariant
                i <= python_paths@.len(),
                last@ == crate::text::last_piece_from(module_name@, "."@, 0),
                dotted == spec_contains(module_name@, "."@),
                expected@ == slashed(module_name@),
                keep == (|p: Seq<char>| python_module_matches(p, module_name@)),
                forall|t: Seq<char>| #[trigger] texts(found@).contains(t) <==> (texts(python_paths@.take(i as int)).contains(t) && keep(t)),
            decreases python_paths@.len() - i,
        {
            let path = python_paths[i].as_str();
            let stem = match path_file_stem(path) {
                Some(t) => t,
                None => String::new(),
            };
            let named = str_eq(stem.as_str(), last.as_str()) || (str_eq(stem.as_str(), "__init__") && contains_str(path, last.as_str()));
            let hit = named && (!dotted || contains_str(path, expected.as_str()));
            let ghost before = texts(found@);
            let ghost prev = texts(python_paths@.take(i as int));
            if hit {
                found.push(python_paths[i].clone());
            }
            proof {
                assert(texts(python_paths@.take(i + 1)) =~= prev.push(path@));
                assert(hit == keep(path@));
                if hit {
                    assert(texts(found@) =~= before.push(path@));
                }
                assert forall|t: Seq<char>| #[trigger] texts(found@).contains(t) <==> (prev.push(path@).contains(t) && keep(t)) by {
                    lemma_push_contains(prev, path@, t);
                    lemma_push_contains(before, path@, t);
                }
            }
            i = i + 1;
        }
        assert(python_paths@.take(i as int) =~= python_paths@);
        let sorted = sorted_unique(found);
        Value::Scope(Scope::new(ScopeKind::File(String::from_str(module_name))).with_paths(sorted))
    }

    /// Whether some read file matches one of the regular expressions `patterns`.
    #[verifier::loop_isolation(false)]
    fn some_file_matches(files: &Vec<SourceFile>, patterns: &Vec<String>) -> (b: bool)
        ensures
            b == some_file(files@, |c: Seq<char>| any_pattern(texts(patterns@), c)),
    {
        let ghost pred = |c: Seq<char>| any_pattern(texts(patterns@), c);
        let mut i: usize = 0;
        while i < files.len()
            invariant
                i <= files@.len(),
                forall|j: int| 0 <= j < i ==> !file_has(#[trigger] files@[j], pred),
                pred == (|c: Seq<char>| any_pattern(texts(patterns@), c)),
            decreases files@.len() - i,
        {
            if let Some(c) = &files[i].content {
                let mut k: usize = 0;
                while k < patterns.len()
                    invariant
                        k <= patterns@.len(),
                        forall|q: int| 0 <= q < k ==> regex_search(#[trigger] texts(patterns@)[q], c@) != Some(true),
                    decreases patterns@.len() - k,
                {
                    assert(texts(patterns@)[k as int] == patterns@[k as int]@);
                    if regex_is_match(patterns[k].as_str(), c.as_str()) == Some(true) {
                        assert(any_pattern(texts(patterns@), c@));
                        assert(file_has(files@[i as int], pred));
                        return true;
                    }
                    k = k + 1;
                }
            }
            i = i + 1;
        }
        false
    }

    /// Whether a file of the scope imports the module `module_name` (see
    /// `import_patterns`).
    pub fn check_imports(&self, files: &Vec<SourceFile>, module_name: &str) -> (r: CheckResult)
        ensures
            check_view(r) == verdict(some_file(files@, |c: Seq<char>| any_pattern(import_patterns(regex_escaped(module_name@)), c)),
                "Scope does not import '"@ + module_name@ + "'"@),
    {
        proof {
            reveal_strlit("\\bimport\\s+");
            reveal_strlit("\\b");
            reveal_strlit("\\bfrom\\s+");
            reveal_strlit("\\s+import\\b");
            reveal_strlit("\\..*\\s+import\\b");
        }
        let e = escape_regex(module_name);
        let mut a = concat("\\bimport\\s+", e.as_str());
        a.append("\\b");
        let mut b = concat("\\bfrom\\s+", e.as_str());
        b.append("\\s+import\\b");
        let mut c = concat("\\bfrom\\s+", e.as_str());
        c.append("\\..*\\s+import\\b");
        let patterns = vec![a, b, c];
        assert(texts(patterns@) =~= import_patterns(e@));
        let found = Self::some_file_matches(files, &patterns);
        let mut msg = concat("Scope does not import '", module_name);
        msg.append("'");
        if found { CheckResult::Pass } else { CheckResult::Fail(msg) }
    }

    /// The inverse of `check_imports`: an import fails.
    pub fn check_no_import(&self, files: &Vec<SourceFile>, module_name: &str) -> (r: CheckResult)
        ensures
            check_view(r) == negated(verdict(some_file(files@, |c: Seq<char>| any_pattern(import_patterns(regex_escaped(module_name@)), c)),
                "Scope does not import '"@ + module_name@ + "'"@), "Scope imports '"@ + module_name@ + "' but should not"@),
    {
        match self.check_imports(files, module_name) {
            CheckResult::Pass => {
                let mut msg = concat("Scope imports '", module_name);
                msg.append("' but should not");
                CheckResult::Fail(msg)
            },
            CheckResult::Fail(_) => CheckResult::Pass,
            CheckResult::Error(e) => CheckResult::Error(e),
        }
    }

    /// Whether a file of the scope calls `target`: `target(` or `target.`
    /// as whole words.
    pub fn check_calls(&self, files: &Vec<SourceFile>, target: &str) -> (r: CheckResult)
        ensures
            check_view(r) == verdict(some_file(files@, |c: Seq<char>| any_pattern(call_patterns(regex_escaped(target@)), c)),
                "Scope does not call '"@ + target@ + "'"@),
    {
        proof {
            reveal_strlit("\\b");
            reveal_strlit("[(]");
            reveal_strlit("\\.");
        }
        let e = escape_regex(target);
        let mut a = concat("\\b", e.as_str());
        a.append("[(]");
        let mut b = concat("\\b", e.as_str());
        b.append("\\.");
        let patterns = vec![a, b];
        assert(texts(patterns@) =~= call_patterns(e@));
        let found = Self::some_file_matches(files, &patterns);
        let mut msg = concat("Scope does not call '", target);
        msg.append("'");
        if found { CheckResult::Pass } else { CheckResult::Fail(msg) }
    }

    /// Whether a file of the scope calls `module.function(`.
    pub fn check_calls_function(&self, files: &Vec<SourceFile>, module_name: &str, func_name: &str) -> (r: CheckResult)
        ensures
            check_view(r) == verdict(some_file(files@, |c: Seq<char>|
                any_pattern(seq!["\\b"@ + regex_escaped(module_name@) + "\\.\\s*"@ + regex_escaped(func_name@) + "[(]"@], c)),
                "Scope does not call '"@ + module_name@ + "."@ + func_name@ + "'"@),
    {
        proof {
            reveal_strlit("\\b");
            reveal_strlit("\\.\\s*");
            reveal_strlit("[(]");
        }
        let m = escape_regex(module_name);
        let f = escape_regex(func_name);
        let mut a = concat("\\b", m.as_str());
        a.append("\\.\\s*");
        a.append(f.as_str());
        a.append("[(]");
        let patterns = vec![a];
        assert(texts(patterns@) =~= seq!["\\b"@ + m@ + "\\.\\s*"@ + f@ + "[(]"@]);
        let found = Self::some_file_matches(files, &patterns);
        let mut msg = concat("Scope does not call '", module_name);
        msg.append(".");
        msg.append(func_name);
        msg.append("'");
        if found { CheckResult::Pass } else { CheckResult::Fail(msg) }
    }
}


/// Whether the line `line` defines the function `f` (escaped as `e`).
pub open spec fn defines_function(line: Seq<char>, f: Seq<char>) -> bool {
    matches_or("\\b(async\\s+)?def\\s+"@ + regex_escaped(f) + "[(]"@, line, seq!["def "@ + f + "("@, "async def "@ + f + "("@])
}

/// Where the signature that starts at line `i` ends: after the first of
/// the next four lines that holds a `:`, else after those four lines (or at
/// the end).
pub open spec fn signature_end(ls: Seq<Seq<char>>, i: int, j: int) -> int
    decreases ls.len() - j,
{
    if j >= ls.len() || j >= i + 5 {
        j
    } else if spec_contains(ls[j], ":"@) {
        j + 1
    } else {
        signature_end(ls, i, j + 1)
    }
}

/// The texts `parts` joined with single spaces.
pub open spec fn join_space(parts: Seq<Seq<char>>) -> Seq<char>
    decreases parts.len(),
{
    if parts.len() == 0 {
        Seq::empty()
    } else if parts.len() == 1 {
        parts[0]
    } else {
        join_space(parts.drop_last()) + seq![' '] + parts.last()
    }
}

/// The signature that starts at line `i`.
pub open spec fn signature_at(ls: Seq<Seq<char>>, i: int) -> Seq<char> {
    join_space(ls.subrange(i, signature_end(ls, i, i + 1)))
}

/// Whether a signature returns `t`.
pub open spec fn signature_returns(sig: Seq<char>, t: Seq<char>) -> bool {
    spec_contains(sig, "-> "@ + t + ":"@) || spec_contains(sig, "-> "@ + t + "):"@)
        || (spec_contains(sig, "-> "@) && (second_piece(sig, "-> "@) matches Some(p) && spec_contains(p, t)))
}

/// Whether the text `c` defines the function `f` with a signature that
/// returns `t`.
pub open spec fn function_returns_in(c: Seq<char>, f: Seq<char>, t: Seq<char>) -> bool {
    exists|i: int| 0 <= i < lines_of(c).len() && defines_function(#[trigger] lines_of(c)[i], f)
        && signature_returns(signature_at(lines_of(c), i), t)
}

/// The names that a line defines: after `def ` up to `(`, after `class `
/// up to `:` or `(`, trimmed.
pub open spec fn line_names(line: Seq<char>) -> Seq<Seq<char>> {
    let d = if spec_contains(line, "def "@) {
        match second_piece(line, "def "@) {
            Some(p) => seq![trimmed(before_any(p, seq!['(']))],
            None => Seq::empty(),
        }
    } else {
        Seq::empty()
    };
    let c = if spec_contains(line, "class "@) {
        match second_piece(line, "class "@) {
            Some(p) => seq![trimmed(before_any(p, seq![':', '(']))],
            None => Seq::empty(),
        }
    } else {
        Seq::empty()
    };
    d + c
}

/// The names that the lines `ls` define, in order.
pub open spec fn lines_names(ls: Seq<Seq<char>>) -> Seq<Seq<char>>
    decreases ls.len(),
{
    if ls.len() == 0 { Seq::empty() } else { lines_names(ls.drop_last()) + line_names(ls.last()) }
}

/// The names that the read files of `files` define, in order.
pub open spec fn files_names(files: Seq<SourceFile>) -> Seq<Seq<char>>
    decreases files.len(),
{
    if files.len() == 0 {
        Seq::empty()
    } else {
        files_names(files.drop_last()) + match files.last().content {
            Some(c) => lines_names(lines_of(c@)),
            None => Seq::empty(),
        }
    }
}

/// Whether the text `c` calls or accesses one of `names`.
pub open spec fn calls_one_of(c: Seq<char>, names: Seq<Seq<char>>) -> bool {
    exists|k: int| 0 <= k < names.len() && (spec_contains(c, #[trigger] names[k] + "("@) || spec_contains(c, names[k] + "."@))
}

impl PythonLibrary {
    /// Whether one of the lines defines a function with an arrow whose
    /// return part mentions `t`.
    fn line_returns(c: &str, t: &str) -> (b: bool)
        ensures
            b == some_line_returns(c@, t@),
    {
        proof {
            reveal_strlit("def ");
            reveal_strlit("-> ");
        }
        let ls = lines(c);
        let ghost lv = ls@.map_values(|l: String| l@);
        let mut i: usize = 0;
        while i < ls.len()
            invariant
                i <= ls@.len(),
                lv == ls@.map_values(|l: String| l@),
                lv == lines_of(c@),
                forall|j: int| 0 <= j < i ==> !(spec_contains(#[trigger] lv[j], "def "@) && spec_contains(lv[j], "-> "@)
                    && (second_piece(lv[j], "-> "@) matches Some(p) && spec_contains(p, t@))),
            decreases ls@.len() - i,
        {
            proof {
                reveal_strlit("def ");
                reveal_strlit("-> ");
            }
            let line = ls[i].as_str();
            assert(lv[i as int] == line@);
            if contains_str(line, "def ") && contains_str(line, "-> ") {
                match split_second(line, "-> ") {
                    Some(p) => {
                        if contains_str(p.as_str(), t) {
                            return true;
                        }
                    },
                    None => {},
                }
            }
            i = i + 1;
        }
        false
    }

    /// Whether a file of the scope has a function returning `t` (see
    /// `returns_type_in`).
    pub fn check_returns_type(&self, files: &Vec<SourceFile>, t: &str) -> (r: CheckResult)
        ensures
            check_view(r) == verdict(some_file(files@, |c: Seq<char>| returns_type_in(c, t@)),
                "No function returns type '"@ + t@ + "'"@),
    {
        proof {
            reveal_strlit("-> ");
            reveal_strlit(":");
            reveal_strlit("):");
        }
        let ghost pred = |c: Seq<char>| returns_type_in(c, t@);
        let mut a = concat("-> ", t);
        a.append(":");
        let mut b = concat("-> ", t);
        b.append("):");
        let mut i: usize = 0;
        while i < files.len()
            invariant
                i <= files@.len(),
                a@ == "-> "@ + t@ + ":"@,
                b@ == "-> "@ + t@ + "):"@,
                forall|j: int| 0 <= j < i ==> !file_has(#[trigger] files@[j], pred),
                pred == (|c: Seq<char>| returns_type_in(c, t@)),
            decreases files@.len() - i,
        {
            proof {
                reveal_strlit("-> ");
            }
            if let Some(c) = &files[i].content {
                let hit = contains_str(c.as_str(), a.as_str()) || contains_str(c.as_str(), b.as_str())
                    || (contains_str(c.as_str(), "-> ") && contains_str(c.as_str(), t) && Self::line_returns(c.as_str(), t));
                if hit {
                    assert(file_has(files@[i as int], pred));
                    let ok = CheckResult::Pass;
                    return ok;
                }
            }
            i = i + 1;
        }
        let mut msg = concat("No function returns type '", t);
        msg.append("'");
        CheckResult::Fail(msg)
    }
}


impl PythonLibrary {
    /// Where the signature that starts at line `i` ends (see `signature_end`).
    fn signature_end_of(ls: &Vec<String>, i: usize) -> (e: usize)
        requires
            i < ls@.len(),
        ensures
            e as int == signature_end(ls@.map_values(|l: String| l@), i as int, i + 1),
            i < e <= ls@.len(),
    {
        let ghost lv = ls@.map_values(|l: String| l@);
        let n = ls.len();
        assert(i < n);
        let mut j: usize = i + 1;
        while j < ls.len() && j - i < 5
            invariant
                i < j <= ls@.len(),
                j <= i + 5,
                lv == ls@.map_values(|l: String| l@),
                signature_end(lv, i as int, j as int) == signature_end(lv, i as int, i + 1),
            decreases ls@.len() - j,
        {
            proof {
                reveal_strlit(":");
            }
            assert(lv[j as int] == ls@[j as int]@);
            if contains_str(ls[j].as_str(), ":") {
                return j + 1;
            }
            j = j + 1;
        }
        j
    }

    /// The lines `ls[from..to]` joined with single spaces.
    fn join_lines_space(ls: &Vec<String>, from: usize, to: usize) -> (r: String)
        requires
            from <= to <= ls@.len(),
        ensures
            r@ == join_space(ls@.map_values(|l: String| l@).subrange(from as int, to as int)),
    {
        let ghost lv = ls@.map_values(|l: String| l@).subrange(from as int, to as int);
        let mut out = String::new();
        let mut k: usize = from;
        while k < to
            invariant
                from <= k <= to <= ls@.len(),
                lv == ls@.map_values(|l: String| l@).subrange(from as int, to as int),
                out@ == join_space(lv.take(k - from)),
            decreases to - k,
        {
            proof {
                reveal_strlit(" ");
            }
            assert(lv.take(k - from + 1).drop_last() =~= lv.take(k - from));
            assert(lv.take(k - from + 1).last() == ls@[k as int]@);
            if k == from {
                assert(lv.take(1)[0] == ls@[k as int]@);
            } else {
                out.append(" ");
            }
            out.append(ls[k].as_str());
            k = k + 1;
        }
        assert(lv.take(k - from) =~= lv);
        out
    }

    /// Whether a signature returns `t`.
    fn returns_in_signature(sig: &str, t: &str) -> (b: bool)
        ensures
            b == signature_returns(sig@, t@),
    {
        proof {
            reveal_strlit("-> ");
            reveal_strlit(":");
            reveal_strlit("):");
        }
        let mut a = concat("-> ", t);
        a.append(":");
        let mut b = concat("-> ", t);
        b.append("):");
        if contains_str(sig, a.as_str()) || contains_str(sig, b.as_str()) {
            return true;
        }
        if contains_str(sig, "-> ") {
            match split_second(sig, "-> ") {
                Some(p) => contains_str(p.as_str(), t),
                None => false,
            }
        } else {
            false
        }
    }

    /// Whether a file of the scope defines `func_name` with a signature
    /// returning `t` (see `function_returns_in`).
    #[verifier::loop_isolation(false)]
    pub fn check_function_returns_type(&self, files: &Vec<SourceFile>, func_name: &str, t: &str) -> (r: CheckResult)
        ensures
            check_view(r) == verdict(some_file(files@, |c: Seq<char>| function_returns_in(c, func_name@, t@)),
                "Function '"@ + func_name@ + "' does not return type '"@ + t@ + "'"@),
    {
        proof {
            reveal_strlit("\\b(async\\s+)?def\\s+");
            reveal_strlit("[(]");
            reveal_strlit("def ");
            reveal_strlit("async def ");
            reveal_strlit("(");
        }
        let ghost pred = |c: Seq<char>| function_returns_in(c, func_name@, t@);
        let e = escape_regex(func_name);
        let mut pattern = concat("\\b(async\\s+)?def\\s+", e.as_str());
        pattern.append("[(]");
        let mut fa = concat("def ", func_name);
        fa.append("(");
        let mut fb = concat("async def ", func_name);
        fb.append("(");
        let fallback = vec![fa, fb];
        assert(texts(fallback@) =~= seq!["def "@ + func_name@ + "("@, "async def "@ + func_name@ + "("@]);
        let mut i: usize = 0;
        while i < files.len()
            invariant
                i <= files@.len(),
                forall|j: int| 0 <= j < i ==> !file_has(#[trigger] files@[j], pred),
            decreases files@.len() - i,
        {
            if let Some(c) = &files[i].content {
                let ls = lines(c.as_str());
                let ghost lv = ls@.map_values(|l: String| l@);
                let mut k: usize = 0;
                while k < ls.len()
                    invariant
                        k <= ls@.len(),
                        lv == ls@.map_values(|l: String| l@),
                        lv == lines_of(c@),
                        forall|q: int| 0 <= q < k ==> !(defines_function(#[trigger] lv[q], func_name@)
                            && signature_returns(signature_at(lv, q), t@)),
                    decreases ls@.len() - k,
                {
                    let line = ls[k].as_str();
                    assert(lv[k as int] == line@);
                    let is_def = match regex_is_match(pattern.as_str(), line) {
                        Some(b) => b,
                        None => crate::stdlib::scan::contains_any(line, &fallback),
                    };
                    if is_def {
                        let end = Self::signature_end_of(&ls, k);
                        let sig = Self::join_lines_space(&ls, k, end);
                        if Self::returns_in_signature(sig.as_str(), t) {
                            assert(function_returns_in(c@, func_name@, t@));
                            assert(file_has(files@[i as int], pred));
                            return CheckResult::Pass;
                        }
                    }
                    k = k + 1;
                }
                assert(!function_returns_in(c@, func_name@, t@));
            }
            i = i + 1;
        }
        let mut msg = concat("Function '", func_name);
        msg.append("' does not return type '");
        msg.append(t);
        msg.append("'");
        CheckResult::Fail(msg)
    }
}


impl PythonLibrary {
    /// The names that a line defines (see `line_names`).
    fn names_of_line(line: &str) -> (r: Vec<String>)
        ensures
            texts(r@) == line_names(line@),
    {
        proof {
            reveal_strlit("def ");
            reveal_strlit("class ");
        }
        let mut out: Vec<String> = Vec::new();
        if contains_str(line, "def ") {
            match split_second(line, "def ") {
                Some(p) => {
                    let stops = vec!['('];
                    assert(stops@ =~= seq!['(']);
                    let name = first_piece(p.as_str(), &stops);
                    out.push(trim(name.as_str()));
                },
                None => {},
            }
        }
        let ghost d = texts(out@);
        if contains_str(line, "class ") {
            match split_second(line, "class ") {
                Some(p) => {
                    let stops = vec![':', '('];
                    assert(stops@ =~= seq![':', '(']);
                    let name = first_piece(p.as_str(), &stops);
                    out.push(trim(name.as_str()));
                },
                None => {},
            }
        }
        assert(texts(out@) =~= line_names(line@));
        out
    }

    /// The names that the read files define, in order.
    fn names_of_files(files: &Vec<SourceFile>) -> (r: Vec<String>)
        ensures
            texts(r@) == files_names(files@),
    {
        let mut out: Vec<String> = Vec::new();
        let mut i: usize = 0;
        while i < files.len()
            invariant
                i <= files@.len(),
                texts(out@) == files_names(files@.take(i as int)),
            decreases files@.len() - i,
        {
            assert(files@.take(i + 1).drop_last() =~= files@.take(i as int));
            assert(files@.take(i + 1).last() == files@[i as int]);
            if let Some(c) = &files[i].content {
                let ls = lines(c.as_str());
                let ghost lv = ls@.map_values(|l: String| l@);
                let ghost start = texts(out@);
                let mut k: usize = 0;
                while k < ls.len()
                    invariant
                        k <= ls@.len(),
                        lv == ls@.map_values(|l: String| l@),
                        texts(out@) == start + lines_names(lv.take(k as int)),
                    decreases ls@.len() - k,
                {
                    assert(lv.take(k + 1).drop_last() =~= lv.take(k as int));
                    assert(lv.take(k + 1).last() == ls@[k as int]@);
                    let names = Self::names_of_line(ls[k].as_str());
                    let ghost before = texts(out@);
                    let mut q: usize = 0;
                    while q < names.len()
                        invariant
                            q <= names@.len(),
                            texts(out@) == before + texts(names@).take(q as int),
                        decreases names@.len() - q,
                    {
                        let ghost prev_out = texts(out@);
                        out.push(names[q].clone());
                        assert(texts(out@) =~= prev_out.push(names@[q as int]@));
                        assert(texts(names@).take(q + 1) =~= texts(names@).take(q as int).push(names@[q as int]@));
                        assert(texts(out@) =~= before + texts(names@).take(q + 1));
                        q = q + 1;
                    }
                    assert(texts(names@).take(q as int) =~= texts(names@));
                    assert(texts(out@) =~= start + lines_names(lv.take(k + 1)));
                    k = k + 1;
                }
                assert(lv.take(k as int) =~= lv);
            } else {
                assert(texts(out@) =~= files_names(files@.take(i + 1)));
            }
            i = i + 1;
        }
        assert(files@.take(i as int) =~= files@);
        out
    }

    /// Whether a file of the source scope calls or accesses a name that
    /// the target scope's files define (see `files_names`).
    #[verifier::loop_isolation(false)]
    pub fn check_calls_scope(&self, source_files: &Vec<SourceFile>, target_files: &Vec<SourceFile>) -> (r: CheckResult)
        ensures
            check_view(r) == verdict(some_file(source_files@, |c: Seq<char>| calls_one_of(c, files_names(target_files@))),
                "Source scope does not call anything in target scope"@),
    {
        let names = Self::names_of_files(target_files);
        let ghost nv = texts(names@);
        let ghost pred = |c: Seq<char>| calls_one_of(c, files_names(target_files@));
        let mut i: usize = 0;
        while i < source_files.len()
            invariant
                i <= source_files@.len(),
                nv == texts(names@),
                nv == files_names(target_files@),
                pred == (|c: Seq<char>| calls_one_of(c, files_names(target_files@))),
                forall|j: int| 0 <= j < i ==> !file_has(#[trigger] source_files@[j], pred),
            decreases source_files@.len() - i,
        {
            if let Some(c) = &source_files[i].content {
                let mut k: usize = 0;
                while k < names.len()
                    invariant
                        k <= names@.len(),
                        nv == texts(names@),
                        forall|q: int| 0 <= q < k ==> !(spec_contains(c@, #[trigger] nv[q] + "("@) || spec_contains(c@, nv[q] + "."@)),
                    decreases names@.len() - k,
                {
                    proof {
                        reveal_strlit("(");
                        reveal_strlit(".");
                    }
                    assert(nv[k as int] == names@[k as int]@);
                    let mut a = names[k].clone();
                    a.append("(");
                    let mut b = names[k].clone();
                    b.append(".");
                    if contains_str(c.as_str(), a.as_str()) || contains_str(c.as_str(), b.as_str()) {
                        assert(calls_one_of(c@, nv));
                        assert(file_has(source_files@[i as int], pred));
                        return CheckResult::Pass;
                    }
                    k = k + 1;
                }
                assert(!calls_one_of(c@, nv));
            }
            i = i + 1;
        }
        CheckResult::Fail(String::from_str("Source scope does not call anything in target scope"))
    }
}


/// What the Python library reads for a request, as its caller gathered it.
pub struct PythonInputs {
    /// Every Python file under the workspace, outside the excluded
    /// directories, with its text
    pub workspace_files: Vec<SourceFile>,
    /// For each argument, the files of its scope's paths in order; none for
    /// an argument that is no scope
    pub scope_files: Vec<Vec<SourceFile>>,
}

/// The files gathered for argument `i`.
pub open spec fn python_files_for(inputs: PythonInputs, i: int) -> Seq<SourceFile> {
    if 0 <= i < inputs.scope_files@.len() { inputs.scope_files@[i]@ } else { Seq::empty() }
}

/// What `PythonLibrary::check` answers: an error for a missing or
/// mistyped argument or an unknown check, else the check's outcome.
pub open spec fn python_check_view(function: Seq<char>, args: Seq<Value>, inputs: PythonInputs)
    -> Result<(int, Seq<char>), (Seq<char>, Seq<char>)> {
    let first = python_files_for(inputs, 0);
    if function == "imports"@ {
        match (arg_scope(args, 0), arg_string(args, 1)) {
            (None, _) => Err(("E410"@, "imports requires a scope"@)),
            (_, None) => Err(("E411"@, "imports requires a module name"@)),
            (Some(_), Some(m)) => Ok(verdict(some_file(first, |c: Seq<char>| any_pattern(import_patterns(regex_escaped(m)), c)),
                "Scope does not import '"@ + m + "'"@)),
        }
    } else if function == "no_import"@ {
        match (arg_scope(args, 0), arg_string(args, 1)) {
            (None, _) => Err(("E412"@, "no_import requires a scope"@)),
            (_, None) => Err(("E413"@, "no_import requires a module name"@)),
            (Some(_), Some(m)) => Ok(negated(verdict(some_file(first, |c: Seq<char>| any_pattern(import_patterns(regex_escaped(m)), c)),
                "Scope does not import '"@ + m + "'"@), "Scope imports '"@ + m + "' but should not"@)),
        }
    } else if function == "returns_type"@ {
        match (arg_scope(args, 0), arg_string(args, 1)) {
            (None, _) => Err(("E414"@, "returns_type requires a scope"@)),
            (_, None) => Err(("E415"@, "returns_type requires a type name"@)),
            (Some(_), Some(t)) => Ok(verdict(some_file(first, |c: Seq<char>| returns_type_in(c, t)),
                "No function returns type '"@ + t + "'"@)),
        }
    } else if function == "function_returns_type"@ {
        match (arg_scope(args, 0), arg_string(args, 1), arg_string(args, 2)) {
            (None, _, _) => Err(("E416"@, "function_returns_type requires a scope"@)),
            (_, None, _) => Err(("E417"@, "function_returns_type requires a function name"@)),
            (_, _, None) => Err(("E418"@, "function_returns_type requires a type name"@)),
            (Some(_), Some(f), Some(t)) => Ok(verdict(some_file(first, |c: Seq<char>| function_returns_in(c, f, t)),
                "Function '"@ + f + "' does not return type '"@ + t + "'"@)),
        }
    } else if function == "calls"@ {
        match (arg_scope(args, 0), arg_string(args, 1)) {
            (None, _) => Err(("E419"@, "calls requires a scope"@)),
            (_, None) => Err(("E420"@, "calls requires a target identifier"@)),
            (Some(_), Some(t)) => Ok(verdict(some_file(first, |c: Seq<char>| any_pattern(call_patterns(regex_escaped(t)), c)),
                "Scope does not call '"@ + t + "'"@)),
        }
    } else if function == "calls_function"@ {
        match (arg_scope(args, 0), arg_string(args, 1), arg_string(args, 2)) {
            (None, _, _) => Err(("E421"@, "calls_function requires a scope"@)),
            (_, None, _) => Err(("E422"@, "calls_function requires a module name"@)),
            (_, _, None) => Err(("E423"@, "calls_function requires a function name"@)),
            (Some(_), Some(m), Some(f)) => Ok(verdict(some_file(first, |c: Seq<char>|
                any_pattern(seq!["\\b"@ + regex_escaped(m) + "\\.\\s*"@ + regex_escaped(f) + "[(]"@], c)),
                "Scope does not call '"@ + m + "."@ + f + "'"@)),
        }
    } else if function == "calls_scope"@ {
        match (arg_scope(args, 0), arg_scope(args, 1)) {
            (None, _) => Err(("E424"@, "calls_scope requires a source scope"@)),
            (_, None) => Err(("E425"@, "calls_scope requires a target scope"@)),
            (Some(_), Some(_)) => Ok(verdict(some_file(first, |c: Seq<char>| calls_one_of(c, files_names(python_files_for(inputs, 1)))),
                "Source scope does not call anything in target scope"@)),
        }
    } else {
        Err(("E499"@, "Unknown check: python."@ + function))
    }
}

/// Whether `r` is what `PythonLibrary::call` answers for `function`.
pub open spec fn python_call_answers(function: Seq<char>, args: Seq<Value>, inputs: PythonInputs, r: Result<Value, LibraryError>) -> bool {
    let ws = inputs.workspace_files@;
    if function == "module_selector"@ {
        match arg_string(args, 0) {
            None => r matches Err(e) && e.code@ == "E400"@ && e.message@ == "module_selector requires a module path"@,
            Some(n) => r matches Ok(v) && sorted_selection(v, n, paths_of(ws), |p: Seq<char>| python_module_matches(p, n)),
        }
    } else if function == "function_selector"@ {
        match arg_string(args, 0) {
            None => r matches Err(e) && e.code@ == "E401"@ && e.message@ == "function_selector requires a function name"@,
            Some(n) => r matches Ok(v) && selected_scope(v, "fn:"@ + n, select_paths(ws, |c: Seq<char>|
                matches_or(def_pattern(regex_escaped(n)), c, seq!["def "@ + n + "("@, "async def "@ + n + "("@]))),
        }
    } else if function == "class_selector"@ {
        match arg_string(args, 0) {
            None => r matches Err(e) && e.code@ == "E402"@ && e.message@ == "class_selector requires a class name"@,
            Some(n) => r matches Ok(v) && selected_scope(v, "class:"@ + n, select_paths(ws, |c: Seq<char>|
                matches_or(class_pattern(regex_escaped(n)), c, seq!["class "@ + n + ":"@, "class "@ + n + "("@]))),
        }
    } else {
        r matches Err(e) && e.code@ == "E499"@ && e.message@ == "Unknown function: python."@ + function
    }
}

/// The string argument at `i`.
fn string_arg(args: &Vec<Value>, i: usize) -> (r: Option<&str>)
    ensures
        match r {
            Some(s) => arg_string(args@, i as int) == Some(s@),
            None => arg_string(args@, i as int) is None,
        },
{
    if i < args.len() { args[i].as_string() } else { None }
}

/// The scope argument at `i`.
fn scope_arg(args: &Vec<Value>, i: usize) -> (r: Option<&Scope>)
    ensures
        match r {
            Some(s) => arg_scope(args@, i as int) == Some(*s),
            None => arg_scope(args@, i as int) is None,
        },
{
    if i < args.len() { args[i].as_scope() } else { None }
}

/// `Err` with a library error.
fn fail_with<T>(code: &str, message: &str) -> (r: Result<T, LibraryError>)
    ensures
        r matches Err(e) && e.code@ == code@ && e.message@ == message@,
{
    Err(LibraryError::new(code, message))
}

impl PythonLibrary {
    /// Run the check `function` on `args`, over the files gathered in
    /// `inputs` (see `python_check_view`).
    #[verifier::rlimit(60)]
    pub fn check(&self, function: &str, args: &Vec<Value>, inputs: &PythonInputs) -> (r: Result<CheckResult, LibraryError>)
        ensures
            match r {
                Ok(c) => python_check_view(function@, args@, *inputs) == Ok::<(int, Seq<char>), (Seq<char>, Seq<char>)>(check_view(c)),
                Err(e) => python_check_view(function@, args@, *inputs) == Err::<(int, Seq<char>), (Seq<char>, Seq<char>)>(error_view(e)),
            },
    {
        proof {
            reveal_strlit("imports");
            reveal_strlit("no_import");
            reveal_strlit("returns_type");
            reveal_strlit("function_returns_type");
            reveal_strlit("calls");
            reveal_strlit("calls_function");
            reveal_strlit("calls_scope");
        }
        let empty: Vec<SourceFile> = Vec::new();
        let first = if 0 < inputs.scope_files.len() { &inputs.scope_files[0] } else { &empty };
        let second = if 1 < inputs.scope_files.len() { &inputs.scope_files[1] } else { &empty };
        assert(first@ == python_files_for(*inputs, 0));
        assert(second@ == python_files_for(*inputs, 1));
        if str_eq(function, "imports") {
            match (scope_arg(args, 0), string_arg(args, 1)) {
                (None, _) => fail_with("E410", "imports requires a scope"),
                (_, None) => fail_with("E411", "imports requires a module name"),
                (Some(_), Some(m)) => Ok(self.check_imports(first, m)),
            }
        } else if str_eq(function, "no_import") {
            match (scope_arg(args, 0), string_arg(args, 1)) {
                (None, _) => fail_with("E412", "no_import requires a scope"),
                (_, None) => fail_with("E413", "no_import requires a module name"),
                (Some(_), Some(m)) => Ok(self.check_no_import(first, m)),
            }
        } else if str_eq(function, "returns_type") {
            match (scope_arg(args, 0), string_arg(args, 1)) {
                (None, _) => fail_with("E414", "returns_type requires a scope"),
                (_, None) => fail_with("E415", "returns_type requires a type name"),
                (Some(_), Some(t)) => Ok(self.check_returns_type(first, t)),
            }
        } else if str_eq(function, "function_returns_type") {
            match (scope_arg(args, 0), string_arg(args, 1), string_arg(args, 2)) {
                (None, _, _) => fail_with("E416", "function_returns_type requires a scope"),
                (_, None, _) => fail_with("E417", "function_returns_type requires a function name"),
                (_, _, None) => fail_with("E418", "function_returns_type requires a type name"),
                (Some(_), Some(f), Some(t)) => Ok(self.check_function_returns_type(first, f, t)),
            }
        } else if str_eq(function, "calls") {
            match (scope_arg(args, 0), string_arg(args, 1)) {
                (None, _) => fail_with("E419", "calls requires a scope"),
                (_, None) => fail_with("E420", "calls requires a target identifier"),
                (Some(_), Some(t)) => Ok(self.check_calls(first, t)),
            }
        } else if str_eq(function, "calls_function") {
            match (scope_arg(args, 0), string_arg(args, 1), string_arg(args, 2)) {
                (None, _, _) => fail_with("E421", "calls_function requires a scope"),
                (_, None, _) => fail_with("E422", "calls_function requires a module name"),
                (_, _, None) => fail_with("E423", "calls_function requires a function name"),
                (Some(_), Some(m), Some(f)) => Ok(self.check_calls_function(first, m, f)),
            }
        } else if str_eq(function, "calls_scope") {
            match (scope_arg(args, 0), scope_arg(args, 1)) {
                (None, _) => fail_with("E424", "calls_scope requires a source scope"),
                (_, None) => fail_with("E425", "calls_scope requires a target scope"),
                (Some(_), Some(_)) => Ok(self.check_calls_scope(first, second)),
            }
        } else {
            proof {
                reveal_strlit("Unknown check: python.");
            }
            let msg = concat("Unknown check: python.", function);
            fail_with("E499", msg.as_str())
        }
    }

    /// Call the selector `function` on `args`, over the files gathered in
    /// `inputs` (see `python_call_answers`).
    pub fn call(&self, function: &str, args: &Vec<Value>, inputs: &PythonInputs) -> (r: Result<Value, LibraryError>)
        ensures
            python_call_answers(function@, args@, *inputs, r),
    {
        proof {
            reveal_strlit("module_selector");
            reveal_strlit("function_selector");
            reveal_strlit("class_selector");
            reveal_strlit("Unknown function: python.");
        }
        let ws = &inputs.workspace_files;
        if str_eq(function, "module_selector") {
            match string_arg(args, 0) {
                None => fail_with("E400", "module_selector requires a module path"),
                Some(n) => {
                    let mut paths: Vec<String> = Vec::new();
                    let mut i: usize = 0;
                    while i < ws.len()
                        invariant
                            i <= ws@.len(),
                            paths@.len() == i,
                            forall|k: int| 0 <= k < i ==> (#[trigger] paths@[k])@ == ws@[k].path@,
                        decreases ws@.len() - i,
                    {
                        paths.push(ws[i].path.clone());
                        i = i + 1;
                    }
                    assert(texts(paths@) =~= paths_of(ws@));
                    Ok(self.module_selector(n, &paths))
                },
            }
        } else if str_eq(function, "function_selector") {
            match string_arg(args, 0) {
                None => fail_with("E401", "function_selector requires a function name"),
                Some(n) => Ok(self.function_selector(n, ws)),
            }
        } else if str_eq(function, "class_selector") {
            match string_arg(args, 0) {
                None => fail_with("E402", "class_selector requires a class name"),
                Some(n) => Ok(self.class_selector(n, ws)),
            }
        } else {
            let msg = concat("Unknown function: python.", function);
            fail_with("E499", msg.as_str())
        }
    }
}

} // verus!
