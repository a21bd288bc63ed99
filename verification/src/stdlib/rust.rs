//! The Rust library: selectors and checks over Rust sources, by textual
//! patterns. The caller reads the files; the library decides.

use vstd::prelude::*;
use crate::stdlib::{CheckResult, LibraryError, Scope, ScopeKind, Value};
use crate::stdlib::source::{SourceFile, texts, text_of, file_stem_of, file_name_of, parent_of,
    path_file_stem, path_file_name, path_parent, sorted_unique, strictly_sorted, lemma_push_contains};
use crate::stdlib::scan::{any_needle, file_has, select_paths, some_file, contains_any,
    paths_containing_any, some_file_contains_any, needles_for};
use crate::stdlib::pattern::{regex_search, regex_first_group, regex_is_match, regex_first_capture};
use crate::text::{concat, contains_str, spec_contains, str_eq, last_piece, last_piece_from, spec_starts_with, starts_with_str, chars_of, string_from_chars};
use crate::stdlib::json::check_view;

verus! {

/// Whether `name` is a directory that scans for Rust files skip.
pub open spec fn rust_excluded(name: Seq<char>) -> bool {
    name == "target"@ || name == ".git"@ || name == "node_modules"@ || name == ".cargo"@ || name == "vendor"@
}

/// Whether a directory named `name` is skipped when scanning for Rust files.
pub fn is_excluded_dir(name: &str) -> (b: bool)
    ensures
        b == rust_excluded(name@),
{
    proof {
        reveal_strlit("target");
        reveal_strlit(".git");
        reveal_strlit("node_modules");
        reveal_strlit(".cargo");
        reveal_strlit("vendor");
    }
    str_eq(name, "target") || str_eq(name, ".git") || str_eq(name, "node_modules") || str_eq(name, ".cargo")
        || str_eq(name, "vendor")
}

/// The Rust library.
pub struct RustLibrary;

/// Whether a Rust source declares the struct `name`: the regular expression
/// `(pub\s+)?struct\s+NAME(\s*[<{(;]|\s)` matches, or, where it does not
/// compile, the text contains `struct NAME`.
pub open spec fn declares_struct(c: Seq<char>, name: Seq<char>) -> bool {
    match regex_search("(pub\\s+)?struct\\s+"@ + name + "(\\s*[<{(;]|\\s)"@, c) {
        Some(b) => b,
        None => spec_contains(c, "struct "@ + name),
    }
}

/// Whether a Rust source has an impl block for `name`.
pub open spec fn declares_impl(c: Seq<char>, name: Seq<char>) -> bool {
    spec_contains(c, "impl "@ + name) || (spec_contains(c, "impl<"@) && spec_contains(c, "> "@ + name))
}

/// The scope that a selector finds: a file scope named `label`, resolved to
/// `paths`.
pub open spec fn selected_scope(v: Value, label: Seq<char>, paths: Seq<Seq<char>>) -> bool {
    v matches Value::Scope(s) && s.kind matches ScopeKind::File(k) && k@ == label && s.resolved
        && texts(s.paths@) == paths
}

/// A resolved file scope named `label` with `paths`.
fn file_scope(label: String, paths: Vec<String>) -> (v: Value)
    ensures
        selected_scope(v, label@, texts(paths@)),
{
    Value::Scope(Scope::new(ScopeKind::File(label)).with_paths(paths))
}

impl RustLibrary {
    pub fn new() -> (r: Self) {
        RustLibrary
    }

    /// The files that declare the struct `name` (see `declares_struct`).
    pub fn struct_selector(&self, name: &str, files: &Vec<SourceFile>) -> (v: Value)
        ensures
            selected_scope(v, "struct:"@ + name@, select_paths(files@, |c: Seq<char>| declares_struct(c, name@))),
    {
        proof {
            reveal_strlit("struct:");
            reveal_strlit("(pub\\s+)?struct\\s+");
            reveal_strlit("(\\s*[<{(;]|\\s)");
            reveal_strlit("struct ");
        }
        let ghost pred = |c: Seq<char>| declares_struct(c, name@);
        let mut pattern = String::from_str("(pub\\s+)?struct\\s+");
        pattern.append(name);
        pattern.append("(\\s*[<{(;]|\\s)");
        let fallback = concat("struct ", name);
        let mut out: Vec<String> = Vec::new();
        let mut i: usize = 0;
        while i < files.len()
            invariant
                i <= files@.len(),
                pattern@ == "(pub\\s+)?struct\\s+"@ + name@ + "(\\s*[<{(;]|\\s)"@,
                fallback@ == "struct "@ + name@,
                texts(out@) == select_paths(files@.take(i as int), pred),
                pred == (|c: Seq<char>| declares_struct(c, name@)),
            decreases files@.len() - i,
        {
            assert(files@.take(i + 1).drop_last() =~= files@.take(i as int));
            assert(files@.take(i + 1).last() == files@[i as int]);
            let hit = match &files[i].content {
                Some(c) => match regex_is_match(pattern.as_str(), c.as_str()) {
                    Some(b) => b,
                    None => contains_str(c.as_str(), fallback.as_str()),
                },
                None => false,
            };
            if hit {
                out.push(files[i].path.clone());
                assert(texts(out@) =~= select_paths(files@.take(i as int), pred).push(files@[i as int].path@));
            }
            i = i + 1;
        }
        assert(files@.take(i as int) =~= files@);
        file_scope(concat("struct:", name), out)
    }

    /// The files that contain `enum NAME`, `enum NAME ` or `pub enum NAME`.
    pub fn enum_selector(&self, name: &str, files: &Vec<SourceFile>) -> (v: Value)
        ensures
            selected_scope(v, "enum:"@ + name@, select_paths(files@, |c: Seq<char>|
                any_needle(c, seq!["enum "@ + name@, "enum "@ + name@ + " "@, "pub enum "@ + name@]))),
    {
        proof {
            reveal_strlit("enum:");
            reveal_strlit("enum ");
            reveal_strlit(" ");
            reveal_strlit("pub enum ");
            reveal_strlit("");
        }
        let needles = needles_for(&vec!["enum ", "enum ", "pub enum "], name, &vec!["", " ", ""]);
        assert(texts(needles@) =~= seq!["enum "@ + name@, "enum "@ + name@ + " "@, "pub enum "@ + name@]);
        let paths = paths_containing_any(files, &needles);
        file_scope(concat("enum:", name), paths)
    }

    /// The files that contain `fn NAME`, `fn NAME(` or `fn NAME<`.
    pub fn function_selector(&self, name: &str, files: &Vec<SourceFile>) -> (v: Value)
        ensures
            selected_scope(v, "fn:"@ + name@, select_paths(files@, |c: Seq<char>|
                any_needle(c, seq!["fn "@ + name@, "fn "@ + name@ + "("@, "fn "@ + name@ + "<"@]))),
    {
        proof {
            reveal_strlit("fn:");
            reveal_strlit("fn ");
            reveal_strlit("(");
            reveal_strlit("<");
            reveal_strlit("");
        }
        let needles = needles_for(&vec!["fn ", "fn ", "fn "], name, &vec!["", "(", "<"]);
        assert(texts(needles@) =~= seq!["fn "@ + name@, "fn "@ + name@ + "("@, "fn "@ + name@ + "<"@]);
        let paths = paths_containing_any(files, &needles);
        file_scope(concat("fn:", name), paths)
    }

    /// The files that contain `trait NAME` or `pub trait NAME`.
    pub fn trait_selector(&self, name: &str, files: &Vec<SourceFile>) -> (v: Value)
        ensures
            selected_scope(v, "trait:"@ + name@, select_paths(files@, |c: Seq<char>|
                any_needle(c, seq!["trait "@ + name@, "pub trait "@ + name@]))),
    {
        proof {
            reveal_strlit("trait:");
            reveal_strlit("trait ");
            reveal_strlit("pub trait ");
            reveal_strlit("");
        }
        let needles = needles_for(&vec!["trait ", "pub trait "], name, &vec!["", ""]);
        assert(texts(needles@) =~= seq!["trait "@ + name@, "pub trait "@ + name@]);
        let paths = paths_containing_any(files, &needles);
        file_scope(concat("trait:", name), paths)
    }

    /// The files with an impl block for `name` (see `declares_impl`).
    pub fn impl_selector(&self, name: &str, files: &Vec<SourceFile>) -> (v: Value)
        ensures
            selected_scope(v, "impl:"@ + name@, select_paths(files@, |c: Seq<char>| declares_impl(c, name@))),
    {
        proof {
            reveal_strlit("impl:");
            reveal_strlit("impl ");
            reveal_strlit("impl<");
            reveal_strlit("> ");
        }
        let ghost pred = |c: Seq<char>| declares_impl(c, name@);
        let direct = concat("impl ", name);
        let generic = concat("> ", name);
        let mut out: Vec<String> = Vec::new();
        let mut i: usize = 0;
        while i < files.len()
            invariant
                i <= files@.len(),
                direct@ == "impl "@ + name@,
                generic@ == "> "@ + name@,
                texts(out@) == select_paths(files@.take(i as int), pred),
                pred == (|c: Seq<char>| declares_impl(c, name@)),
            decreases files@.len() - i,
        {
            assert(files@.take(i + 1).drop_last() =~= files@.take(i as int));
            assert(files@.take(i + 1).last() == files@[i as int]);
            let hit = match &files[i].content {
                Some(c) => contains_str(c.as_str(), direct.as_str())
                    || (contains_str(c.as_str(), "impl<") && contains_str(c.as_str(), generic.as_str())),
                None => false,
            };
            if hit {
                out.push(files[i].path.clone());
                assert(texts(out@) =~= select_paths(files@.take(i as int), pred).push(files@[i as int].path@));
            }
            i = i + 1;
        }
        assert(files@.take(i as int) =~= files@);
        file_scope(concat("impl:", name), out)
    }
}


/// Whether the Rust file at `path` is the module `name`: its stem is the
/// name, or it is a `mod.rs` whose path contains the name.
pub open spec fn module_file_matches(path: Seq<char>, name: Seq<char>) -> bool {
    let stem = match file_stem_of(path) { Some(t) => t, None => Seq::empty() };
    stem == name || (stem == "mod"@ && spec_contains(path, name))
}

/// Whether a file scope named `label` holds, sorted and without
/// repetitions, exactly the paths of `candidates` that satisfy `keep`.
pub open spec fn sorted_selection(v: Value, label: Seq<char>, candidates: Seq<Seq<char>>, keep: spec_fn(Seq<char>) -> bool) -> bool {
    v matches Value::Scope(s) && s.kind matches ScopeKind::File(k) && k@ == label && s.resolved
        && strictly_sorted(texts(s.paths@))
        && forall|t: Seq<char>| #[trigger] texts(s.paths@).contains(t) <==> (candidates.contains(t) && keep(t))
}

/// The check result `Pass` where `found`, else a failure with `message`.
pub open spec fn verdict(found: bool, message: Seq<char>) -> (int, Seq<char>) {
    if found { (0, Seq::empty()) } else { (1, message) }
}

/// `Pass` where `found`, else `Fail(message)`.
fn verdict_of(found: bool, message: String) -> (r: CheckResult)
    ensures
        check_view(r) == verdict(found, message@),
{
    if found { CheckResult::Pass } else { CheckResult::Fail(message) }
}

/// `prefix` + `name` + `suffix`.
fn wrap(prefix: &str, name: &str, suffix: &str) -> (r: String)
    ensures
        r@ == prefix@ + name@ + suffix@,
{
    let mut r = String::from_str(prefix);
    r.append(name);
    r.append(suffix);
    r
}

impl RustLibrary {
    /// The Rust files of `rust_paths` that are the module `module_name`
    /// (`a::b` names the module `b`), sorted and without repetitions.
    pub fn module_selector(&self, module_name: &str, rust_paths: &Vec<String>) -> (v: Value)
        ensures
            sorted_selection(v, module_name@, texts(rust_paths@),
                |p: Seq<char>| module_file_matches(p, last_piece_from(module_name@, "::"@, 0))),
    {
        proof {
            reveal_strlit("::");
            reveal_strlit("mod");
        }
        let last = last_piece(module_name, "::");
        let ghost keep = |p: Seq<char>| module_file_matches(p, last_piece_from(module_name@, "::"@, 0));
        let mut found: Vec<String> = Vec::new();
        let mut i: usize = 0;
        while i < rust_paths.len()
            invariant
                i <= rust_paths@.len(),
                last@ == last_piece_from(module_name@, "::"@, 0),
                keep == (|p: Seq<char>| module_file_matches(p, last_piece_from(module_name@, "::"@, 0))),
                forall|t: Seq<char>| #[trigger] texts(found@).contains(t) <==> (texts(rust_paths@.take(i as int)).contains(t) && keep(t)),
            decreases rust_paths@.len() - i,
        {
            let path = rust_paths[i].as_str();
            let stem = match path_file_stem(path) {
                Some(t) => t,
                None => String::new(),
            };
            let hit = str_eq(stem.as_str(), last.as_str()) || (str_eq(stem.as_str(), "mod") && contains_str(path, last.as_str()));
            let ghost before = texts(found@);
            let ghost prev = texts(rust_paths@.take(i as int));
            if hit {
                found.push(rust_paths[i].clone());
            }
            proof {
                assert(texts(rust_paths@.take(i + 1)) =~= prev.push(path@));
                assert(hit == keep(path@));
                if hit {
                    assert(texts(found@) =~= before.push(path@));
                }
                assert forall|t: Seq<char>| #[trigger] texts(found@).contains(t) <==> (prev.push(path@).contains(t) && keep(t)) by {
                    lemma_push_contains(prev, path@, t);
                    lemma_push_contains(before, path@, t);
                }
            }
            i = i + 1;
        }
        assert(rust_paths@.take(i as int) =~= rust_paths@);
        let sorted = sorted_unique(found);
        Value::Scope(Scope::new(ScopeKind::File(String::from_str(module_name))).with_paths(sorted))
    }

    /// The manifests that may name the crate `name` in `workspace`, in the
    /// order in which they are tried: the workspace's own, then
    /// `crates/<name>/Cargo.toml` and `<name>/Cargo.toml`; the glob pattern
    /// for the manifests under `crates/` that are tried after them.
    pub fn manifest_candidates(&self, workspace: &str, name: &str) -> (r: (Vec<String>, String))
        ensures
            r.0@.len() == 3,
            r.0@[0]@ == workspace@ + "/Cargo.toml"@,
            r.0@[1]@ == workspace@ + "/crates/"@ + name@ + "/Cargo.toml"@,
            r.0@[2]@ == workspace@ + "/"@ + name@ + "/Cargo.toml"@,
            r.1@ == workspace@ + "/crates/*/Cargo.toml"@,
    {
        let first = concat(workspace, "/Cargo.toml");
        let mut second = concat(workspace, "/crates/");
        second.append(name);
        second.append("/Cargo.toml");
        let mut third = concat(workspace, "/");
        third.append(name);
        third.append("/Cargo.toml");
        let glob = concat(workspace, "/crates/*/Cargo.toml");
        let mut v: Vec<String> = Vec::new();
        v.push(first);
        v.push(second);
        v.push(third);
        (v, glob)
    }

    /// Whether a `Cargo.toml` with the text `manifest` names the crate
    /// `crate_name`: it contains `name = "CRATE"`.
    pub fn manifest_names_crate(&self, manifest: &str, crate_name: &str) -> (b: bool)
        ensures
            b == spec_contains(manifest@, "name = \""@ + crate_name@ + "\""@),
    {
        let needle = wrap("name = \"", crate_name, "\"");
        contains_str(manifest, needle.as_str())
    }

    /// The folder scope of the crate `crate_name`, resolved to its Rust
    /// files; to none where the crate was not found.
    pub fn crate_selector(&self, crate_name: &str, crate_files: Option<Vec<String>>) -> (v: Value)
        ensures
            v matches Value::Scope(s) && s.kind matches ScopeKind::Folder(k) && k@ == crate_name@ && s.resolved
                && s.paths@ == match crate_files { Some(f) => f@, None => Seq::empty() },
    {
        let paths = match crate_files {
            Some(f) => f,
            None => Vec::new(),
        };
        Value::Scope(Scope::new(ScopeKind::Folder(String::from_str(crate_name))).with_paths(paths))
    }

    /// Whether a struct named `name` is declared somewhere.
    pub fn check_struct_exists(&self, name: &str, files: &Vec<SourceFile>) -> (r: CheckResult)
        ensures
            check_view(r) == verdict(select_paths(files@, |c: Seq<char>| declares_struct(c, name@)).len() > 0,
                "Struct '"@ + name@ + "' not found"@),
    {
        let v = self.struct_selector(name, files);
        let found = match &v { Value::Scope(s) => s.paths.len() > 0, _ => false };
        verdict_of(found, wrap("Struct '", name, "' not found"))
    }

    /// Whether an enum named `name` is declared somewhere.
    pub fn check_enum_exists(&self, name: &str, files: &Vec<SourceFile>) -> (r: CheckResult)
        ensures
            check_view(r) == verdict(select_paths(files@, |c: Seq<char>|
                any_needle(c, seq!["enum "@ + name@, "enum "@ + name@ + " "@, "pub enum "@ + name@])).len() > 0,
                "Enum '"@ + name@ + "' not found"@),
    {
        let v = self.enum_selector(name, files);
        let found = match &v { Value::Scope(s) => s.paths.len() > 0, _ => false };
        verdict_of(found, wrap("Enum '", name, "' not found"))
    }

    /// Whether a function named `name` is declared somewhere.
    pub fn check_function_exists(&self, name: &str, files: &Vec<SourceFile>) -> (r: CheckResult)
        ensures
            check_view(r) == verdict(select_paths(files@, |c: Seq<char>|
                any_needle(c, seq!["fn "@ + name@, "fn "@ + name@ + "("@, "fn "@ + name@ + "<"@])).len() > 0,
                "Function '"@ + name@ + "' not found"@),
    {
        let v = self.function_selector(name, files);
        let found = match &v { Value::Scope(s) => s.paths.len() > 0, _ => false };
        verdict_of(found, wrap("Function '", name, "' not found"))
    }

    /// Whether a trait named `name` is declared somewhere.
    pub fn check_trait_exists(&self, name: &str, files: &Vec<SourceFile>) -> (r: CheckResult)
        ensures
            check_view(r) == verdict(select_paths(files@, |c: Seq<char>|
                any_needle(c, seq!["trait "@ + name@, "pub trait "@ + name@])).len() > 0,
                "Trait '"@ + name@ + "' not found"@),
    {
        let v = self.trait_selector(name, files);
        let found = match &v { Value::Scope(s) => s.paths.len() > 0, _ => false };
        verdict_of(found, wrap("Trait '", name, "' not found"))
    }

    /// Whether an impl block for `name` exists somewhere.
    pub fn check_impl_exists(&self, name: &str, files: &Vec<SourceFile>) -> (r: CheckResult)
        ensures
            check_view(r) == verdict(select_paths(files@, |c: Seq<char>| declares_impl(c, name@)).len() > 0,
                "Impl for '"@ + name@ + "' not found"@),
    {
        let v = self.impl_selector(name, files);
        let found = match &v { Value::Scope(s) => s.paths.len() > 0, _ => false };
        verdict_of(found, wrap("Impl for '", name, "' not found"))
    }
}


/// Whether some file implements the trait `tr` for the type `ty`.
pub open spec fn implements_found(files: Seq<SourceFile>, ty: Seq<char>, tr: Seq<char>) -> bool {
    some_file(files, |c: Seq<char>| spec_contains(c, "impl "@ + tr + " for "@ + ty)
        || (spec_contains(c, "impl<"@) && spec_contains(c, "> "@ + tr + " for "@ + ty)))
}

/// The texts that show a use of the module `m`.
pub open spec fn use_needles(m: Seq<char>) -> Seq<Seq<char>> {
    seq!["use "@ + m, "use "@ + m + "::"@, m + "::"@]
}

/// The module that a Rust file is: its stem, or for `mod.rs` the name of
/// its folder.
pub open spec fn module_name_of(path: Seq<char>) -> Option<Seq<char>> {
    match file_stem_of(path) {
        None => None,
        Some(stem) => if stem == "mod"@ {
            match parent_of(path) {
                None => None,
                Some(p) => file_name_of(p),
            }
        } else {
            Some(stem)
        },
    }
}

impl RustLibrary {
    /// Whether some file has `impl TRAIT for TYPE`, or `impl<` and
    /// `> TRAIT for TYPE`.
    pub fn check_implements(&self, ty_name: &str, trait_name: &str, files: &Vec<SourceFile>) -> (r: CheckResult)
        ensures
            check_view(r) == verdict(implements_found(files@, ty_name@, trait_name@),
                "'"@ + ty_name@ + "' does not implement '"@ + trait_name@ + "'"@),
    {
        proof {
            reveal_strlit("impl ");
            reveal_strlit(" for ");
            reveal_strlit("impl<");
            reveal_strlit("> ");
        }
        let ghost pred = |c: Seq<char>| spec_contains(c, "impl "@ + trait_name@ + " for "@ + ty_name@)
            || (spec_contains(c, "impl<"@) && spec_contains(c, "> "@ + trait_name@ + " for "@ + ty_name@));
        let direct = wrap("impl ", trait_name, " for ");
        let direct = concat(direct.as_str(), ty_name);
        let generic = wrap("> ", trait_name, " for ");
        let generic = concat(generic.as_str(), ty_name);
        let mut found = false;
        let mut i: usize = 0;
        while i < files.len()
            invariant
                i <= files@.len(),
                direct@ == "impl "@ + trait_name@ + " for "@ + ty_name@,
                generic@ == "> "@ + trait_name@ + " for "@ + ty_name@,
                found == exists|j: int| 0 <= j < i && file_has(#[trigger] files@[j], pred),
                pred == (|c: Seq<char>| spec_contains(c, "impl "@ + trait_name@ + " for "@ + ty_name@)
                    || (spec_contains(c, "impl<"@) && spec_contains(c, "> "@ + trait_name@ + " for "@ + ty_name@))),
            decreases files@.len() - i,
        {
            let hit = match &files[i].content {
                Some(c) => contains_str(c.as_str(), direct.as_str())
                    || (contains_str(c.as_str(), "impl<") && contains_str(c.as_str(), generic.as_str())),
                None => false,
            };
            assert(hit == file_has(files@[i as int], pred));
            found = found || hit;
            i = i + 1;
        }
        let msg = wrap("'", ty_name, "' does not implement '");
        let msg = wrap(msg.as_str(), trait_name, "'");
        verdict_of(found, msg)
    }

    /// Whether a file of the scope contains `use M`, `use M::` or `M::`.
    pub fn check_uses(&self, files: &Vec<SourceFile>, module_name: &str) -> (r: CheckResult)
        ensures
            check_view(r) == verdict(some_file(files@, |c: Seq<char>| any_needle(c, use_needles(module_name@))),
                "Module does not use '"@ + module_name@ + "'"@),
    {
        proof {
            reveal_strlit("use ");
            reveal_strlit("::");
            reveal_strlit("");
        }
        let needles = needles_for(&vec!["use ", "use ", ""], module_name, &vec!["", "::", "::"]);
        assert(texts(needles@) =~= use_needles(module_name@));
        let found = some_file_contains_any(files, &needles);
        verdict_of(found, wrap("Module does not use '", module_name, "'"))
    }

    /// Whether a file of the scope contains `#[derive(` and the name.
    pub fn check_has_derive(&self, files: &Vec<SourceFile>, derive_name: &str) -> (r: CheckResult)
        ensures
            check_view(r) == verdict(some_file(files@, |c: Seq<char>| spec_contains(c, "#[derive("@) && spec_contains(c, derive_name@)),
                "No #[derive("@ + derive_name@ + ")] found"@),
    {
        let ghost pred = |c: Seq<char>| spec_contains(c, "#[derive("@) && spec_contains(c, derive_name@);
        let mut found = false;
        let mut i: usize = 0;
        while i < files.len()
            invariant
                i <= files@.len(),
                found == exists|j: int| 0 <= j < i && file_has(#[trigger] files@[j], pred),
                pred == (|c: Seq<char>| spec_contains(c, "#[derive("@) && spec_contains(c, derive_name@)),
            decreases files@.len() - i,
        {
            let hit = match &files[i].content {
                Some(c) => contains_str(c.as_str(), "#[derive(") && contains_str(c.as_str(), derive_name),
                None => false,
            };
            assert(hit == file_has(files@[i as int], pred));
            found = found || hit;
            i = i + 1;
        }
        verdict_of(found, wrap("No #[derive(", derive_name, ")] found"))
    }

    /// Whether a file of the scope has `//!` or `///` comments.
    pub fn check_has_docs(&self, files: &Vec<SourceFile>) -> (r: CheckResult)
        ensures
            check_view(r) == verdict(some_file(files@, |c: Seq<char>| any_needle(c, seq!["//!"@, "///"@])),
                "No documentation comments found"@),
    {
        let needles = vec![String::from_str("//!"), String::from_str("///")];
        assert(texts(needles@) =~= seq!["//!"@, "///"@]);
        let found = some_file_contains_any(files, &needles);
        verdict_of(found, String::from_str("No documentation comments found"))
    }

    /// Whether a file of the scope has `#[test]` or `#[cfg(test)]`.
    pub fn check_has_tests(&self, files: &Vec<SourceFile>) -> (r: CheckResult)
        ensures
            check_view(r) == verdict(some_file(files@, |c: Seq<char>| any_needle(c, seq!["#[test]"@, "#[cfg(test)]"@])),
                "No tests found"@),
    {
        let needles = vec![String::from_str("#[test]"), String::from_str("#[cfg(test)]")];
        assert(texts(needles@) =~= seq!["#[test]"@, "#[cfg(test)]"@]);
        let found = some_file_contains_any(files, &needles);
        verdict_of(found, String::from_str("No tests found"))
    }

    /// The module that a Rust file is (see `module_name_of`).
    pub fn extract_module_name(path: &str) -> (r: Option<String>)
        ensures
            match r {
                Some(m) => module_name_of(path@) == Some(m@),
                None => module_name_of(path@) is None,
            },
    {
        proof {
            reveal_strlit("mod");
        }
        let stem = path_file_stem(path)?;
        if str_eq(stem.as_str(), "mod") {
            let parent = path_parent(path)?;
            path_file_name(parent.as_str())
        } else {
            Some(stem)
        }
    }
}


/// The modules of the paths `paths` that have one, in order.
pub open spec fn path_modules(paths: Seq<String>) -> Seq<Seq<char>>
    decreases paths.len(),
{
    if paths.len() == 0 {
        Seq::empty()
    } else {
        let rest = path_modules(paths.drop_last());
        match module_name_of(paths.last()@) {
            Some(m) => rest.push(m),
            None => rest,
        }
    }
}

/// The module names that a dependency on scope `b` looks for: those of its
/// paths, and for a file scope the last `::` piece of its name, unless
/// already there.
pub open spec fn module_targets(b: Scope) -> Seq<Seq<char>> {
    let base = path_modules(b.paths@);
    match b.kind {
        ScopeKind::File(name) => {
            let last = last_piece_from(name@, "::"@, 0);
            if base.contains(last) { base } else { base.push(last) }
        },
        _ => base,
    }
}

/// The texts that show a dependency on the module `t`.
pub open spec fn dependency_needles(t: Seq<char>) -> Seq<Seq<char>> {
    seq!["use crate::"@ + t, "use super::"@ + t, "mod "@ + t + ";"@, t + "::"@, "crate::"@ + t + "::"@,
        "super::"@ + t + "::"@, "use "@ + t + "::"@]
}

/// Each of the usual ways of naming a module shows a dependency on it:
/// `use crate::t`, `use super::t`, `mod t;`, `t::`, `crate::t::`,
/// `super::t::` and `use t::`.
pub proof fn law_dependency_forms(c: Seq<char>, targets: Seq<Seq<char>>, k: int)
    requires
        0 <= k < targets.len(),
        spec_contains(c, "use crate::"@ + targets[k]) || spec_contains(c, "use super::"@ + targets[k])
            || spec_contains(c, "mod "@ + targets[k] + ";"@) || spec_contains(c, targets[k] + "::"@)
            || spec_contains(c, "crate::"@ + targets[k] + "::"@) || spec_contains(c, "super::"@ + targets[k] + "::"@)
            || spec_contains(c, "use "@ + targets[k] + "::"@),
    ensures
        depends_on_any(c, targets),
{
    let ns = dependency_needles(targets[k]);
    if spec_contains(c, ns[0]) {
    } else if spec_contains(c, ns[1]) {
    } else if spec_contains(c, ns[2]) {
    } else if spec_contains(c, ns[3]) {
    } else if spec_contains(c, ns[4]) {
    } else if spec_contains(c, ns[5]) {
    } else {
        assert(spec_contains(c, ns[6]));
    }
    assert(any_needle(c, ns));
}

/// Whether the text `c` shows a dependency on one of `targets`.
pub open spec fn depends_on_any(c: Seq<char>, targets: Seq<Seq<char>>) -> bool {
    exists|k: int| 0 <= k < targets.len() && any_needle(c, dependency_needles(#[trigger] targets[k]))
}

/// The texts `parts` joined with `, `.
pub open spec fn join_comma(parts: Seq<Seq<char>>) -> Seq<char>
    decreases parts.len(),
{
    if parts.len() == 0 {
        Seq::empty()
    } else if parts.len() == 1 {
        parts[0]
    } else {
        join_comma(parts.drop_last()) + ", "@ + parts.last()
    }
}

/// The outcome of scanning `files` in order for a dependency on `targets`:
/// a file that could not be read is an error, the first file that shows a
/// dependency passes, and none fails.
pub open spec fn dependency_scan(files: Seq<SourceFile>, targets: Seq<Seq<char>>) -> (int, Seq<char>)
    decreases files.len(),
{
    if files.len() == 0 {
        (1, "No dependency found: source does not use '"@ + join_comma(targets) + "'"@)
    } else {
        match files[0].content {
            None => (2, "Could not read file: "@ + files[0].path@),
            Some(c) => if depends_on_any(c@, targets) { (0, Seq::empty()) } else { dependency_scan(files.drop_first(), targets) },
        }
    }
}

/// Scanning finds a dependency in any file, not only the first: where
/// `files[i]` shows a dependency on `targets` and every file before it can
/// be read, the scan passes.
proof fn lemma_scan_finds(files: Seq<SourceFile>, targets: Seq<Seq<char>>, i: int)
    requires
        0 <= i < files.len(),
        forall|j: int| 0 <= j < i ==> (#[trigger] files[j]).content is Some,
        files[i].content matches Some(c) && depends_on_any(c@, targets),
    ensures
        dependency_scan(files, targets) == (0int, Seq::<char>::empty()),
    decreases i,
{
    if i > 0 {
        assert(files[0].content is Some);
        let rest = files.drop_first();
        assert forall|j: int| 0 <= j < i - 1 implies (#[trigger] rest[j]).content is Some by {
            assert(rest[j] == files[j + 1]);
        }
        assert(rest[i - 1] == files[i]);
        lemma_scan_finds(rest, targets, i - 1);
    }
}

/// A scope depends on `b` as soon as one of its files, at any position,
/// shows a dependency on one of `b`'s modules and every file before it can
/// be read: `depends_on` then passes and `no_dependency` fails.
pub proof fn law_dependency_in_any_file(a_files: Seq<SourceFile>, b: Scope, i: int)
    requires
        module_targets(b).len() > 0,
        0 <= i < a_files.len(),
        forall|j: int| 0 <= j < i ==> (#[trigger] a_files[j]).content is Some,
        a_files[i].content matches Some(c) && depends_on_any(c@, module_targets(b)),
    ensures
        depends_on_view(a_files, b) == (0int, Seq::<char>::empty()),
        negated(depends_on_view(a_files, b), "Forbidden dependency detected"@).0 == 1,
{
    lemma_scan_finds(a_files, module_targets(b), i);
}

/// Whether scope `a`, whose files are `a_files`, depends on scope `b`.
pub open spec fn depends_on_view(a_files: Seq<SourceFile>, b: Scope) -> (int, Seq<char>) {
    let targets = module_targets(b);
    if targets.len() == 0 {
        (2, "Could not determine target module names"@)
    } else if a_files.len() == 0 {
        (2, "Source scope has no paths"@)
    } else {
        dependency_scan(a_files, targets)
    }
}

/// The type that a scope is about: named by a `struct:`, `enum:` or
/// `trait:` file scope, or else the first `pub struct` (else `pub enum`) of
/// the first readable file that declares one.
pub open spec fn primary_type(scope: Scope, files: Seq<SourceFile>) -> Option<Seq<char>> {
    match scope.kind {
        ScopeKind::File(name) => {
            if spec_starts_with(name@, "struct:"@) {
                Some(name@.skip(7))
            } else if spec_starts_with(name@, "enum:"@) {
                Some(name@.skip(5))
            } else if spec_starts_with(name@, "trait:"@) {
                Some(name@.skip(6))
            } else {
                declared_type(files)
            }
        },
        _ => declared_type(files),
    }
}

/// The first `pub struct` (else `pub enum`) name of the first readable file
/// of `files` that declares one.
pub open spec fn declared_type(files: Seq<SourceFile>) -> Option<Seq<char>>
    decreases files.len(),
{
    if files.len() == 0 {
        None
    } else {
        match files[0].content {
            Some(c) => match regex_first_group("pub\\s+struct\\s+(\\w+)"@, c@) {
                Some(t) => Some(t),
                None => match regex_first_group("pub\\s+enum\\s+(\\w+)"@, c@) {
                    Some(t) => Some(t),
                    None => declared_type(files.drop_first()),
                },
            },
            None => declared_type(files.drop_first()),
        }
    }
}

/// The inverse of a check's outcome: a pass fails with `message`, a
/// failure passes, and an error stays.
pub open spec fn negated(v: (int, Seq<char>), message: Seq<char>) -> (int, Seq<char>) {
    if v.0 == 0 { (1, message) } else if v.0 == 1 { (0, Seq::empty()) } else { v }
}

impl RustLibrary {
    /// The module names that a dependency on `b` looks for.
    fn targets_of(b: &Scope) -> (r: Vec<String>)
        ensures
            texts(r@) == module_targets(*b),
    {
        proof {
            reveal_strlit("::");
        }
        let mut out: Vec<String> = Vec::new();
        let mut i: usize = 0;
        while i < b.paths.len()
            invariant
                i <= b.paths@.len(),
                texts(out@) == path_modules(b.paths@.take(i as int)),
            decreases b.paths@.len() - i,
        {
            assert(b.paths@.take(i + 1).drop_last() =~= b.paths@.take(i as int));
            assert(b.paths@.take(i + 1).last() == b.paths@[i as int]);
            match Self::extract_module_name(b.paths[i].as_str()) {
                Some(m) => {
                    let ghost before = texts(out@);
                    out.push(m);
                    assert(texts(out@) =~= before.push(m@));
                },
                None => {},
            }
            i = i + 1;
        }
        assert(b.paths@.take(i as int) =~= b.paths@);
        if let ScopeKind::File(name) = &b.kind {
            let last = last_piece(name.as_str(), "::");
            let mut present = false;
            let mut k: usize = 0;
            while k < out.len()
                invariant
                    k <= out@.len(),
                    present == exists|j: int| 0 <= j < k && texts(out@)[j] == last@,
                decreases out@.len() - k,
            {
                assert(texts(out@)[k as int] == out@[k as int]@);
                if str_eq(out[k].as_str(), last.as_str()) {
                    present = true;
                }
                k = k + 1;
            }
            let ghost before = texts(out@);
            if !present {
                out.push(last);
                assert(texts(out@) =~= before.push(last@));
            }
        }
        out
    }

    /// The texts that show a dependency on the module `t`.
    fn dependency_needles_for(t: &str) -> (r: Vec<String>)
        ensures
            texts(r@) == dependency_needles(t@),
    {
        proof {
            reveal_strlit("use crate::");
            reveal_strlit("use super::");
            reveal_strlit("mod ");
            reveal_strlit(";");
            reveal_strlit("::");
            reveal_strlit("crate::");
            reveal_strlit("super::");
            reveal_strlit("use ");
        }
        let mut r: Vec<String> = Vec::new();
        r.push(concat("use crate::", t));
        r.push(concat("use super::", t));
        r.push(wrap("mod ", t, ";"));
        r.push(concat(t, "::"));
        r.push(wrap("crate::", t, "::"));
        r.push(wrap("super::", t, "::"));
        r.push(wrap("use ", t, "::"));
        assert(texts(r@) =~= dependency_needles(t@));
        r
    }

    /// `parts` joined with `, `.
    fn join_names(parts: &Vec<String>) -> (r: String)
        ensures
            r@ == join_comma(texts(parts@)),
    {
        let ghost views = texts(parts@);
        let mut out = String::new();
        let mut i: usize = 0;
        while i < parts.len()
            invariant
                i <= parts@.len(),
                views == texts(parts@),
                out@ == join_comma(views.take(i as int)),
            decreases parts@.len() - i,
        {
            proof {
                reveal_strlit(", ");
            }
            assert(views.take(i + 1).drop_last() =~= views.take(i as int));
            assert(views.take(i + 1).last() == parts@[i as int]@);
            if i == 0 {
                assert(views.take(1)[0] == parts@[0]@);
            }
            if i > 0 {
                out.append(", ");
            }
            out.append(parts[i].as_str());
            i = i + 1;
        }
        assert(views.take(i as int) =~= views);
        out
    }

    /// Whether scope `a` (whose files are `a_files`, in the order of its
    /// paths) depends on scope `b`: uses, declares or names one of `b`'s
    /// modules (see `depends_on_view`).
    #[verifier::loop_isolation(false)]
    pub fn check_depends_on(&self, a_files: &Vec<SourceFile>, b: &Scope) -> (r: CheckResult)
        ensures
            check_view(r) == depends_on_view(a_files@, *b),
    {
        proof {
            reveal_strlit("Could not determine target module names");
            reveal_strlit("Source scope has no paths");
            reveal_strlit("Could not read file: ");
            reveal_strlit("No dependency found: source does not use '");
            reveal_strlit("'");
            reveal_strlit("use crate::");
            reveal_strlit("use super::");
            reveal_strlit("mod ");
            reveal_strlit(";");
            reveal_strlit("::");
            reveal_strlit("crate::");
            reveal_strlit("super::");
            reveal_strlit("use ");
            reveal_strlit("");
        }
        let targets = Self::targets_of(b);
        if targets.len() == 0 {
            return CheckResult::Error(String::from_str("Could not determine target module names"));
        }
        if a_files.len() == 0 {
            return CheckResult::Error(String::from_str("Source scope has no paths"));
        }
        let ghost tv = texts(targets@);
        let mut i: usize = 0;
        assert(a_files@.skip(0) =~= a_files@);
        while i < a_files.len()
            invariant
                i <= a_files@.len(),
                tv == texts(targets@),
                tv.len() > 0,
                a_files@.len() > 0,
                dependency_scan(a_files@.skip(i as int), tv) == depends_on_view(a_files@, *b),
                module_targets(*b) == tv,
            decreases a_files@.len() - i,
        {
            assert(a_files@.skip(i as int)[0] == a_files@[i as int]);
            assert(a_files@.skip(i as int).drop_first() =~= a_files@.skip(i + 1));
            match &a_files[i].content {
                None => {
                    return CheckResult::Error(concat("Could not read file: ", a_files[i].path.as_str()));
                },
                Some(c) => {
                    let mut k: usize = 0;
                    while k < targets.len()
                        invariant
                            k <= targets@.len(),
                            tv == texts(targets@),
                            forall|j: int| 0 <= j < k ==> !any_needle(c@, dependency_needles(#[trigger] tv[j])),
                        decreases targets@.len() - k,
                    {
                        let t = targets[k].as_str();
                        assert(tv[k as int] == t@);
                        proof {
                            reveal_strlit("use crate::");
                            reveal_strlit("use super::");
                            reveal_strlit("mod ");
                            reveal_strlit(";");
                            reveal_strlit("::");
                            reveal_strlit("crate::");
                            reveal_strlit("super::");
                            reveal_strlit("use ");
                            reveal_strlit("");
                        }
                        let needles = Self::dependency_needles_for(t);
                        if contains_any(c.as_str(), &needles) {
                            assert(any_needle(c@, dependency_needles(tv[k as int])));
                            assert(depends_on_any(c@, tv));
                            return CheckResult::Pass;
                        }
                        k = k + 1;
                    }
                    assert(!depends_on_any(c@, tv));
                },
            }
            i = i + 1;
        }
        let names = Self::join_names(&targets);
        let msg = wrap("No dependency found: source does not use '", names.as_str(), "'");
        assert(a_files@.skip(i as int).len() == 0);
        CheckResult::Fail(msg)
    }

    /// The inverse of `check_depends_on`: a dependency fails, its absence
    /// passes, and an error stays an error.
    pub fn check_no_dependency(&self, a_files: &Vec<SourceFile>, b: &Scope) -> (r: CheckResult)
        ensures
            check_view(r) == negated(depends_on_view(a_files@, *b), "Forbidden dependency detected"@),
    {
        proof {
            reveal_strlit("Forbidden dependency detected");
        }
        match self.check_depends_on(a_files, b) {
            CheckResult::Pass => CheckResult::Fail(String::from_str("Forbidden dependency detected")),
            CheckResult::Fail(_) => CheckResult::Pass,
            CheckResult::Error(e) => CheckResult::Error(e),
        }
    }

    /// The text of `s` after its first `n` characters.
    fn skip_chars(s: &str, n: usize) -> (r: String)
        requires
            n <= s@.len(),
        ensures
            r@ == s@.skip(n as int),
    {
        let chars = chars_of(s);
        assert(chars@.skip(n as int) =~= chars@.subrange(n as int, chars@.len() as int));
        string_from_chars(chars.as_slice(), n, chars.len())
    }

    /// The first `pub struct` (else `pub enum`) name of the first readable
    /// file that declares one.
    fn declared_type_of(files: &Vec<SourceFile>) -> (r: Option<String>)
        ensures
            match r {
                Some(t) => declared_type(files@) == Some(t@),
                None => declared_type(files@) is None,
            },
    {
        proof {
            reveal_strlit("pub\\s+struct\\s+(\\w+)");
            reveal_strlit("pub\\s+enum\\s+(\\w+)");
        }
        let mut i: usize = 0;
        assert(files@.skip(0) =~= files@);
        while i < files.len()
            invariant
                i <= files@.len(),
                declared_type(files@.skip(i as int)) == declared_type(files@),
            decreases files@.len() - i,
        {
            assert(files@.skip(i as int)[0] == files@[i as int]);
            assert(files@.skip(i as int).drop_first() =~= files@.skip(i + 1));
            if let Some(c) = &files[i].content {
                if let Some(t) = regex_first_capture("pub\\s+struct\\s+(\\w+)", c.as_str()) {
                    return Some(t);
                }
                if let Some(t) = regex_first_capture("pub\\s+enum\\s+(\\w+)", c.as_str()) {
                    return Some(t);
                }
            }
            i = i + 1;
        }
        assert(files@.skip(i as int).len() == 0);
        None
    }

    /// The type that a scope is about (see `primary_type`).
    pub fn extract_primary_type(&self, scope: &Scope, files: &Vec<SourceFile>) -> (r: Option<String>)
        ensures
            match r {
                Some(t) => primary_type(*scope, files@) == Some(t@),
                None => primary_type(*scope, files@) is None,
            },
    {
        proof {
            reveal_strlit("struct:");
            reveal_strlit("enum:");
            reveal_strlit("trait:");
        }
        if let ScopeKind::File(name) = &scope.kind {
            if starts_with_str(name.as_str(), "struct:") {
                return Some(Self::skip_chars(name.as_str(), 7));
            }
            if starts_with_str(name.as_str(), "enum:") {
                return Some(Self::skip_chars(name.as_str(), 5));
            }
            if starts_with_str(name.as_str(), "trait:") {
                return Some(Self::skip_chars(name.as_str(), 6));
            }
        }
        Self::declared_type_of(files)
    }
}


/// Whether the file at `e` is the same module as one of `paths`.
pub open spec fn related_module(paths: Seq<String>, e: Seq<char>) -> bool {
    exists|k: int| 0 <= k < paths.len() && module_name_of(#[trigger] paths[k]@) is Some
        && module_name_of(paths[k]@) == module_name_of(e)
}

/// Whether the output type of scope `output` is used by scope `input`:
/// one of its files names the type, or a workspace file of one of its
/// modules does.
pub open spec fn pipeline_view(output: Scope, output_files: Seq<SourceFile>, input: Scope, input_files: Seq<SourceFile>,
    workspace_files: Seq<SourceFile>) -> (int, Seq<char>) {
    match primary_type(output, output_files) {
        None => (2, "Could not determine output type"@),
        Some(t) => if some_file(input_files, |c: Seq<char>| spec_contains(c, t)) {
            (0, Seq::empty())
        } else if exists|i: int| 0 <= i < workspace_files.len() && related_module(input.paths@, (#[trigger] workspace_files[i]).path@)
            && file_has(workspace_files[i], |c: Seq<char>| spec_contains(c, t)) {
            (0, Seq::empty())
        } else {
            (1, "Pipeline not connected: '"@ + t + "' is not used by input scope"@)
        },
    }
}

/// Whether the types of scopes `a` and `b` are compatible: the same, or one
/// named in the other's files.
pub open spec fn type_compatible_view(a: Scope, a_files: Seq<SourceFile>, b: Scope, b_files: Seq<SourceFile>) -> (int, Seq<char>) {
    match (primary_type(a, a_files), primary_type(b, b_files)) {
        (Some(x), Some(y)) => if x == y
            || some_file(b_files, |c: Seq<char>| spec_contains(c, x))
            || some_file(a_files, |c: Seq<char>| spec_contains(c, y)) {
            (0, Seq::empty())
        } else {
            (1, "Types '"@ + x + "' and '"@ + y + "' are not compatible"@)
        },
        (None, _) => (2, "Could not determine type from first scope"@),
        (_, None) => (2, "Could not determine type from second scope"@),
    }
}

/// Whether some read file of `files` contains `t`.
fn some_file_contains(files: &Vec<SourceFile>, t: &str) -> (b: bool)
    ensures
        b == some_file(files@, |c: Seq<char>| spec_contains(c, t@)),
{
    let ghost pred = |c: Seq<char>| spec_contains(c, t@);
    let mut i: usize = 0;
    while i < files.len()
        invariant
            i <= files@.len(),
            forall|j: int| 0 <= j < i ==> !file_has(#[trigger] files@[j], pred),
            pred == (|c: Seq<char>| spec_contains(c, t@)),
        decreases files@.len() - i,
    {
        if let Some(c) = &files[i].content {
            if contains_str(c.as_str(), t) {
                assert(file_has(files@[i as int], pred));
                return true;
            }
        }
        i = i + 1;
    }
    false
}

impl RustLibrary {
    /// Whether the file at `e` is the same module as one of `paths`.
    fn is_related(paths: &Vec<String>, e: &str) -> (b: bool)
        ensures
            b == related_module(paths@, e@),
    {
        let em = Self::extract_module_name(e);
        let mut k: usize = 0;
        while k < paths.len()
            invariant
                k <= paths@.len(),
                match em { Some(m) => module_name_of(e@) == Some(m@), None => module_name_of(e@) is None },
                forall|j: int| 0 <= j < k ==> !(module_name_of(#[trigger] paths@[j]@) is Some
                    && module_name_of(paths@[j]@) == module_name_of(e@)),
            decreases paths@.len() - k,
        {
            let pm = Self::extract_module_name(paths[k].as_str());
            let same = match (&pm, &em) {
                (Some(x), Some(y)) => str_eq(x.as_str(), y.as_str()),
                _ => false,
            };
            if same {
                return true;
            }
            k = k + 1;
        }
        false
    }

    /// Whether the output type of `output` is used by `input` (see
    /// `pipeline_view`).
    #[verifier::loop_isolation(false)]
    pub fn check_pipeline_connects(&self, output: &Scope, output_files: &Vec<SourceFile>, input: &Scope,
        input_files: &Vec<SourceFile>, workspace_files: &Vec<SourceFile>) -> (r: CheckResult)
        ensures
            check_view(r) == pipeline_view(*output, output_files@, *input, input_files@, workspace_files@),
    {
        proof {
            reveal_strlit("Could not determine output type");
        }
        let t = match self.extract_primary_type(output, output_files) {
            Some(t) => t,
            None => return CheckResult::Error(String::from_str("Could not determine output type")),
        };
        if some_file_contains(input_files, t.as_str()) {
            return CheckResult::Pass;
        }
        let ghost pred = |c: Seq<char>| spec_contains(c, t@);
        let mut i: usize = 0;
        while i < workspace_files.len()
            invariant
                i <= workspace_files@.len(),
                pred == (|c: Seq<char>| spec_contains(c, t@)),
                forall|j: int| 0 <= j < i ==> !(related_module(input.paths@, (#[trigger] workspace_files@[j]).path@)
                    && file_has(workspace_files@[j], pred)),
            decreases workspace_files@.len() - i,
        {
            let entry = &workspace_files[i];
            if Self::is_related(&input.paths, entry.path.as_str()) {
                if let Some(c) = &entry.content {
                    if contains_str(c.as_str(), t.as_str()) {
                        assert(file_has(workspace_files@[i as int], pred));
                        return CheckResult::Pass;
                    }
                }
            }
            i = i + 1;
        }
        CheckResult::Fail(wrap("Pipeline not connected: '", t.as_str(), "' is not used by input scope"))
    }

    /// Whether the types of scopes `a` and `b` are compatible (see
    /// `type_compatible_view`).
    pub fn check_type_compatible(&self, a: &Scope, a_files: &Vec<SourceFile>, b: &Scope, b_files: &Vec<SourceFile>) -> (r: CheckResult)
        ensures
            check_view(r) == type_compatible_view(*a, a_files@, *b, b_files@),
    {
        proof {
            reveal_strlit("Could not determine type from first scope");
            reveal_strlit("Could not determine type from second scope");
        }
        let ta = self.extract_primary_type(a, a_files);
        let tb = self.extract_primary_type(b, b_files);
        match (ta, tb) {
            (Some(x), Some(y)) => {
                if str_eq(x.as_str(), y.as_str()) || some_file_contains(b_files, x.as_str()) || some_file_contains(a_files, y.as_str()) {
                    CheckResult::Pass
                } else {
                    let m = wrap("Types '", x.as_str(), "' and '");
                    CheckResult::Fail(wrap(m.as_str(), y.as_str(), "' are not compatible"))
                }
            },
            (None, _) => CheckResult::Error(String::from_str("Could not determine type from first scope")),
            (_, None) => CheckResult::Error(String::from_str("Could not determine type from second scope")),
        }
    }
}


/// What the Rust library reads for a request, as its caller gathered it.
pub struct RustInputs {
    /// Every Rust file under the workspace, outside the excluded
    /// directories, with its text
    pub workspace_files: Vec<SourceFile>,
    /// For each argument, the files of its scope's paths in order; none for
    /// an argument that is no scope
    pub scope_files: Vec<Vec<SourceFile>>,
    /// The Rust files of the crate that `crate_selector` asks for, where a
    /// manifest naming it was found
    pub crate_files: Option<Vec<String>>,
}

/// The string argument at `i`, if there is one.
pub open spec fn arg_string(args: Seq<Value>, i: int) -> Option<Seq<char>> {
    if 0 <= i < args.len() {
        match args[i] {
            Value::String(s) => Some(s@),
            _ => None,
        }
    } else {
        None
    }
}

/// The scope argument at `i`, if there is one.
pub open spec fn arg_scope(args: Seq<Value>, i: int) -> Option<Scope> {
    if 0 <= i < args.len() {
        match args[i] {
            Value::Scope(s) => Some(s),
            _ => None,
        }
    } else {
        None
    }
}

/// The files gathered for argument `i`.
pub open spec fn files_for(inputs: RustInputs, i: int) -> Seq<SourceFile> {
    if 0 <= i < inputs.scope_files@.len() { inputs.scope_files@[i]@ } else { Seq::empty() }
}

/// The string argument at `i`.
fn string_arg(args: &Vec<Value>, i: usize) -> (r: Option<&str>)
    ensures
        match r {
            Some(s) => arg_string(args@, i as int) == Some(s@),
            None => arg_string(args@, i as int) is None,
        },
{
    if i < args.len() {
        args[i].as_string()
    } else {
        None
    }
}

/// The scope argument at `i`.
fn scope_arg(args: &Vec<Value>, i: usize) -> (r: Option<&Scope>)
    ensures
        match r {
            Some(s) => arg_scope(args@, i as int) == Some(*s),
            None => arg_scope(args@, i as int) is None,
        },
{
    if i < args.len() {
        args[i].as_scope()
    } else {
        None
    }
}

/// An error with code `code` and message `message`, as a pair of texts.
pub open spec fn arg_error(code: Seq<char>, message: Seq<char>) -> Result<(int, Seq<char>), (Seq<char>, Seq<char>)> {
    Err((code, message))
}

/// What `RustLibrary::check` answers: an error for a missing or mistyped
/// argument or an unknown check, else the check's outcome.
pub open spec fn rust_check_view(function: Seq<char>, args: Seq<Value>, inputs: RustInputs)
    -> Result<(int, Seq<char>), (Seq<char>, Seq<char>)> {
    let ws = inputs.workspace_files@;
    if function == "struct_exists"@ {
        match arg_string(args, 0) {
            None => arg_error("E310"@, "struct_exists requires a struct name"@),
            Some(n) => Ok(verdict(select_paths(ws, |c: Seq<char>| declares_struct(c, n)).len() > 0, "Struct '"@ + n + "' not found"@)),
        }
    } else if function == "enum_exists"@ {
        match arg_string(args, 0) {
            None => arg_error("E311"@, "enum_exists requires an enum name"@),
            Some(n) => Ok(verdict(select_paths(ws, |c: Seq<char>|
                any_needle(c, seq!["enum "@ + n, "enum "@ + n + " "@, "pub enum "@ + n])).len() > 0, "Enum '"@ + n + "' not found"@)),
        }
    } else if function == "function_exists"@ {
        match arg_string(args, 0) {
            None => arg_error("E312"@, "function_exists requires a function name"@),
            Some(n) => Ok(verdict(select_paths(ws, |c: Seq<char>|
                any_needle(c, seq!["fn "@ + n, "fn "@ + n + "("@, "fn "@ + n + "<"@])).len() > 0, "Function '"@ + n + "' not found"@)),
        }
    } else if function == "trait_exists"@ {
        match arg_string(args, 0) {
            None => arg_error("E313"@, "trait_exists requires a trait name"@),
            Some(n) => Ok(verdict(select_paths(ws, |c: Seq<char>|
                any_needle(c, seq!["trait "@ + n, "pub trait "@ + n])).len() > 0, "Trait '"@ + n + "' not found"@)),
        }
    } else if function == "impl_exists"@ {
        match arg_string(args, 0) {
            None => arg_error("E314"@, "impl_exists requires a type name"@),
            Some(n) => Ok(verdict(select_paths(ws, |c: Seq<char>| declares_impl(c, n)).len() > 0, "Impl for '"@ + n + "' not found"@)),
        }
    } else if function == "implements"@ {
        match (arg_string(args, 0), arg_string(args, 1)) {
            (None, _) => arg_error("E315"@, "implements requires a type name"@),
            (_, None) => arg_error("E316"@, "implements requires a trait name"@),
            (Some(t), Some(tr)) => Ok(verdict(implements_found(ws, t, tr), "'"@ + t + "' does not implement '"@ + tr + "'"@)),
        }
    } else if function == "uses"@ {
        match (arg_scope(args, 0), arg_string(args, 1)) {
            (None, _) => arg_error("E317"@, "uses requires a scope"@),
            (_, None) => arg_error("E318"@, "uses requires a module path"@),
            (Some(_), Some(m)) => Ok(verdict(some_file(files_for(inputs, 0), |c: Seq<char>| any_needle(c, use_needles(m))),
                "Module does not use '"@ + m + "'"@)),
        }
    } else if function == "has_derive"@ {
        match (arg_scope(args, 0), arg_string(args, 1)) {
            (None, _) => arg_error("E319"@, "has_derive requires a scope"@),
            (_, None) => arg_error("E320"@, "has_derive requires a derive name"@),
            (Some(_), Some(d)) => Ok(verdict(some_file(files_for(inputs, 0), |c: Seq<char>|
                spec_contains(c, "#[derive("@) && spec_contains(c, d)), "No #[derive("@ + d + ")] found"@)),
        }
    } else if function == "has_docs"@ {
        match arg_scope(args, 0) {
            None => arg_error("E321"@, "has_docs requires a scope"@),
            Some(_) => Ok(verdict(some_file(files_for(inputs, 0), |c: Seq<char>| any_needle(c, seq!["//!"@, "///"@])),
                "No documentation comments found"@)),
        }
    } else if function == "has_tests"@ {
        match arg_scope(args, 0) {
            None => arg_error("E322"@, "has_tests requires a scope"@),
            Some(_) => Ok(verdict(some_file(files_for(inputs, 0), |c: Seq<char>| any_needle(c, seq!["#[test]"@, "#[cfg(test)]"@])),
                "No tests found"@)),
        }
    } else if function == "depends_on"@ {
        match (arg_scope(args, 0), arg_scope(args, 1)) {
            (None, _) => arg_error("E323"@, "depends_on requires a source scope as first argument"@),
            (_, None) => arg_error("E324"@, "depends_on requires a target scope as second argument"@),
            (Some(_), Some(b)) => Ok(depends_on_view(files_for(inputs, 0), b)),
        }
    } else if function == "no_dependency"@ {
        match (arg_scope(args, 0), arg_scope(args, 1)) {
            (None, _) => arg_error("E325"@, "no_dependency requires a source scope as first argument"@),
            (_, None) => arg_error("E326"@, "no_dependency requires a target scope as second argument"@),
            (Some(_), Some(b)) => Ok(negated(depends_on_view(files_for(inputs, 0), b), "Forbidden dependency detected"@)),
        }
    } else if function == "pipeline_connects"@ {
        match (arg_scope(args, 0), arg_scope(args, 1)) {
            (None, _) => arg_error("E327"@, "pipeline_connects requires an output scope as first argument"@),
            (_, None) => arg_error("E328"@, "pipeline_connects requires an input scope as second argument"@),
            (Some(o), Some(i)) => Ok(pipeline_view(o, files_for(inputs, 0), i, files_for(inputs, 1), ws)),
        }
    } else if function == "type_compatible"@ {
        match (arg_scope(args, 0), arg_scope(args, 1)) {
            (None, _) => arg_error("E329"@, "type_compatible requires a scope as first argument"@),
            (_, None) => arg_error("E330"@, "type_compatible requires a scope as second argument"@),
            (Some(a), Some(b)) => Ok(type_compatible_view(a, files_for(inputs, 0), b, files_for(inputs, 1))),
        }
    } else {
        arg_error("E399"@, "Unknown check: rust."@ + function)
    }
}

/// A library error as a pair of texts.
pub open spec fn error_view(e: LibraryError) -> (Seq<char>, Seq<char>) {
    (e.code@, e.message@)
}

/// `Err` with a library error.
fn fail_with<T>(code: &str, message: &str) -> (r: Result<T, LibraryError>)
    ensures
        r matches Err(e) && e.code@ == code@ && e.message@ == message@,
{
    Err(LibraryError::new(code, message))
}

impl RustLibrary {
    /// Whether the function or check `function` reads the workspace's Rust
    /// files.
    pub fn needs_workspace_files(function: &str) -> (b: bool)
        ensures
            b == (function@ == "module_selector"@ || function@ == "struct_selector"@ || function@ == "enum_selector"@
                || function@ == "function_selector"@ || function@ == "trait_selector"@ || function@ == "impl_selector"@
                || function@ == "struct_exists"@ || function@ == "enum_exists"@ || function@ == "function_exists"@
                || function@ == "trait_exists"@ || function@ == "impl_exists"@ || function@ == "implements"@
                || function@ == "pipeline_connects"@),
    {
        str_eq(function, "module_selector") || str_eq(function, "struct_selector") || str_eq(function, "enum_selector")
            || str_eq(function, "function_selector") || str_eq(function, "trait_selector") || str_eq(function, "impl_selector")
            || str_eq(function, "struct_exists") || str_eq(function, "enum_exists") || str_eq(function, "function_exists")
            || str_eq(function, "trait_exists") || str_eq(function, "impl_exists") || str_eq(function, "implements")
            || str_eq(function, "pipeline_connects")
    }

    /// Run the check `function` on `args`, over the files gathered in
    /// `inputs` (see `rust_check_view`).
    #[verifier::rlimit(60)]
    pub fn check(&self, function: &str, args: &Vec<Value>, inputs: &RustInputs) -> (r: Result<CheckResult, LibraryError>)
        ensures
            match r {
                Ok(c) => rust_check_view(function@, args@, *inputs) == Ok::<(int, Seq<char>), (Seq<char>, Seq<char>)>(check_view(c)),
                Err(e) => rust_check_view(function@, args@, *inputs) == Err::<(int, Seq<char>), (Seq<char>, Seq<char>)>(error_view(e)),
            },
    {
        proof {
            reveal_strlit("struct_exists");
            reveal_strlit("enum_exists");
            reveal_strlit("function_exists");
            reveal_strlit("trait_exists");
            reveal_strlit("impl_exists");
            reveal_strlit("implements");
            reveal_strlit("uses");
            reveal_strlit("has_derive");
            reveal_strlit("has_docs");
            reveal_strlit("has_tests");
            reveal_strlit("depends_on");
            reveal_strlit("no_dependency");
            reveal_strlit("pipeline_connects");
            reveal_strlit("type_compatible");
        }
        let empty: Vec<SourceFile> = Vec::new();
        let first = if 0 < inputs.scope_files.len() { &inputs.scope_files[0] } else { &empty };
        let second = if 1 < inputs.scope_files.len() { &inputs.scope_files[1] } else { &empty };
        assert(first@ == files_for(*inputs, 0));
        assert(second@ == files_for(*inputs, 1));
        let ws = &inputs.workspace_files;
        if str_eq(function, "struct_exists") {
            match string_arg(args, 0) {
                None => fail_with("E310", "struct_exists requires a struct name"),
                Some(n) => Ok(self.check_struct_exists(n, ws)),
            }
        } else if str_eq(function, "enum_exists") {
            match string_arg(args, 0) {
                None => fail_with("E311", "enum_exists requires an enum name"),
                Some(n) => Ok(self.check_enum_exists(n, ws)),
            }
        } else if str_eq(function, "function_exists") {
            match string_arg(args, 0) {
                None => fail_with("E312", "function_exists requires a function name"),
                Some(n) => Ok(self.check_function_exists(n, ws)),
            }
        } else if str_eq(function, "trait_exists") {
            match string_arg(args, 0) {
                None => fail_with("E313", "trait_exists requires a trait name"),
                Some(n) => Ok(self.check_trait_exists(n, ws)),
            }
        } else if str_eq(function, "impl_exists") {
            match string_arg(args, 0) {
                None => fail_with("E314", "impl_exists requires a type name"),
                Some(n) => Ok(self.check_impl_exists(n, ws)),
            }
        } else if str_eq(function, "implements") {
            match (string_arg(args, 0), string_arg(args, 1)) {
                (None, _) => fail_with("E315", "implements requires a type name"),
                (_, None) => fail_with("E316", "implements requires a trait name"),
                (Some(t), Some(tr)) => Ok(self.check_implements(t, tr, ws)),
            }
        } else if str_eq(function, "uses") {
            match (scope_arg(args, 0), string_arg(args, 1)) {
                (None, _) => fail_with("E317", "uses requires a scope"),
                (_, None) => fail_with("E318", "uses requires a module path"),
                (Some(_), Some(m)) => Ok(self.check_uses(first, m)),
            }
        } else if str_eq(function, "has_derive") {
            match (scope_arg(args, 0), string_arg(args, 1)) {
                (None, _) => fail_with("E319", "has_derive requires a scope"),
                (_, None) => fail_with("E320", "has_derive requires a derive name"),
                (Some(_), Some(d)) => Ok(self.check_has_derive(first, d)),
            }
        } else if str_eq(function, "has_docs") {
            match scope_arg(args, 0) {
                None => fail_with("E321", "has_docs requires a scope"),
                Some(_) => Ok(self.check_has_docs(first)),
            }
        } else if str_eq(function, "has_tests") {
            match scope_arg(args, 0) {
                None => fail_with("E322", "has_tests requires a scope"),
                Some(_) => Ok(self.check_has_tests(first)),
            }
        } else if str_eq(function, "depends_on") {
            match (scope_arg(args, 0), scope_arg(args, 1)) {
                (None, _) => fail_with("E323", "depends_on requires a source scope as first argument"),
                (_, None) => fail_with("E324", "depends_on requires a target scope as second argument"),
                (Some(_), Some(b)) => Ok(self.check_depends_on(first, b)),
            }
        } else if str_eq(function, "no_dependency") {
            match (scope_arg(args, 0), scope_arg(args, 1)) {
                (None, _) => fail_with("E325", "no_dependency requires a source scope as first argument"),
                (_, None) => fail_with("E326", "no_dependency requires a target scope as second argument"),
                (Some(_), Some(b)) => Ok(self.check_no_dependency(first, b)),
            }
        } else if str_eq(function, "pipeline_connects") {
            match (scope_arg(args, 0), scope_arg(args, 1)) {
                (None, _) => fail_with("E327", "pipeline_connects requires an output scope as first argument"),
                (_, None) => fail_with("E328", "pipeline_connects requires an input scope as second argument"),
                (Some(o), Some(i)) => Ok(self.check_pipeline_connects(o, first, i, second, ws)),
            }
        } else if str_eq(function, "type_compatible") {
            match (scope_arg(args, 0), scope_arg(args, 1)) {
                (None, _) => fail_with("E329", "type_compatible requires a scope as first argument"),
                (_, None) => fail_with("E330", "type_compatible requires a scope as second argument"),
                (Some(a), Some(b)) => Ok(self.check_type_compatible(a, first, b, second)),
            }
        } else {
            proof {
                reveal_strlit("Unknown check: rust.");
            }
            let msg = concat("Unknown check: rust.", function);
            fail_with("E399", msg.as_str())
        }
    }
}


/// The paths of `files`.
pub open spec fn paths_of(files: Seq<SourceFile>) -> Seq<Seq<char>> {
    files.map_values(|f: SourceFile| f.path@)
}

/// The paths of `files`, as strings.
fn path_list(files: &Vec<SourceFile>) -> (r: Vec<String>)
    ensures
        texts(r@) == paths_of(files@),
{
    let mut out: Vec<String> = Vec::new();
    let mut i: usize = 0;
    while i < files.len()
        invariant
            i <= files@.len(),
            out@.len() == i,
            forall|k: int| 0 <= k < i ==> (#[trigger] out@[k])@ == files@[k].path@,
        decreases files@.len() - i,
    {
        out.push(files[i].path.clone());
        i = i + 1;
    }
    assert(texts(out@) =~= paths_of(files@));
    out
}

/// Whether `r` is what `RustLibrary::call` answers for `function`: the
/// selector's scope, or an error for a missing argument or an unknown
/// function.
pub open spec fn rust_call_answers(function: Seq<char>, args: Seq<Value>, inputs: RustInputs, r: Result<Value, LibraryError>) -> bool {
    let ws = inputs.workspace_files@;
    if function == "crate_selector"@ {
        match arg_string(args, 0) {
            None => r matches Err(e) && e.code@ == "E300"@ && e.message@ == "crate_selector requires a crate name"@,
            Some(n) => r matches Ok(v) && v matches Value::Scope(s) && (s.kind matches ScopeKind::Folder(k) && k@ == n)
                && s.resolved && s.paths@ == match inputs.crate_files { Some(f) => f@, None => Seq::empty() },
        }
    } else if function == "module_selector"@ {
        match arg_string(args, 0) {
            None => r matches Err(e) && e.code@ == "E301"@ && e.message@ == "module_selector requires a module path"@,
            Some(n) => r matches Ok(v) && sorted_selection(v, n, paths_of(ws),
                |p: Seq<char>| module_file_matches(p, last_piece_from(n, "::"@, 0))),
        }
    } else if function == "struct_selector"@ {
        match arg_string(args, 0) {
            None => r matches Err(e) && e.code@ == "E302"@ && e.message@ == "struct_selector requires a struct name"@,
            Some(n) => r matches Ok(v) && selected_scope(v, "struct:"@ + n, select_paths(ws, |c: Seq<char>| declares_struct(c, n))),
        }
    } else if function == "enum_selector"@ {
        match arg_string(args, 0) {
            None => r matches Err(e) && e.code@ == "E303"@ && e.message@ == "enum_selector requires an enum name"@,
            Some(n) => r matches Ok(v) && selected_scope(v, "enum:"@ + n, select_paths(ws,
                |c: Seq<char>| any_needle(c, seq!["enum "@ + n, "enum "@ + n + " "@, "pub enum "@ + n]))),
        }
    } else if function == "function_selector"@ {
        match arg_string(args, 0) {
            None => r matches Err(e) && e.code@ == "E304"@ && e.message@ == "function_selector requires a function name"@,
            Some(n) => r matches Ok(v) && selected_scope(v, "fn:"@ + n, select_paths(ws,
                |c: Seq<char>| any_needle(c, seq!["fn "@ + n, "fn "@ + n + "("@, "fn "@ + n + "<"@]))),
        }
    } else if function == "trait_selector"@ {
        match arg_string(args, 0) {
            None => r matches Err(e) && e.code@ == "E305"@ && e.message@ == "trait_selector requires a trait name"@,
            Some(n) => r matches Ok(v) && selected_scope(v, "trait:"@ + n, select_paths(ws,
                |c: Seq<char>| any_needle(c, seq!["trait "@ + n, "pub trait "@ + n]))),
        }
    } else if function == "impl_selector"@ {
        match arg_string(args, 0) {
            None => r matches Err(e) && e.code@ == "E306"@ && e.message@ == "impl_selector requires a type name"@,
            Some(n) => r matches Ok(v) && selected_scope(v, "impl:"@ + n, select_paths(ws, |c: Seq<char>| declares_impl(c, n))),
        }
    } else {
        r matches Err(e) && e.code@ == "E399"@ && e.message@ == "Unknown function: rust."@ + function
    }
}

impl RustLibrary {
    /// Call the selector `function` on `args`, over the files gathered in
    /// `inputs`. A selector asks for a string argument; without it, or for
    /// an unknown function, the call fails.
    #[verifier::rlimit(40)]
    pub fn call(&self, function: &str, args: &Vec<Value>, inputs: &RustInputs) -> (r: Result<Value, LibraryError>)
        ensures
            rust_call_answers(function@, args@, *inputs, r),
    {
        proof {
            reveal_strlit("crate_selector");
            reveal_strlit("module_selector");
            reveal_strlit("struct_selector");
            reveal_strlit("enum_selector");
            reveal_strlit("function_selector");
            reveal_strlit("trait_selector");
            reveal_strlit("impl_selector");
            reveal_strlit("Unknown function: rust.");
        }
        let ws = &inputs.workspace_files;
        if str_eq(function, "crate_selector") {
            match string_arg(args, 0) {
                None => fail_with("E300", "crate_selector requires a crate name"),
                Some(n) => {
                    let files = match &inputs.crate_files {
                        Some(f) => Some(crate::stdlib::clone_strings(f)),
                        None => None,
                    };
                    Ok(self.crate_selector(n, files))
                },
            }
        } else if str_eq(function, "module_selector") {
            match string_arg(args, 0) {
                None => fail_with("E301", "module_selector requires a module path"),
                Some(n) => {
                    let paths = path_list(ws);
                    Ok(self.module_selector(n, &paths))
                },
            }
        } else if str_eq(function, "struct_selector") {
            match string_arg(args, 0) {
                None => fail_with("E302", "struct_selector requires a struct name"),
                Some(n) => Ok(self.struct_selector(n, ws)),
            }
        } else if str_eq(function, "enum_selector") {
            match string_arg(args, 0) {
                None => fail_with("E303", "enum_selector requires an enum name"),
                Some(n) => Ok(self.enum_selector(n, ws)),
            }
        } else if str_eq(function, "function_selector") {
            match string_arg(args, 0) {
                None => fail_with("E304", "function_selector requires a function name"),
                Some(n) => Ok(self.function_selector(n, ws)),
            }
        } else if str_eq(function, "trait_selector") {
            match string_arg(args, 0) {
                None => fail_with("E305", "trait_selector requires a trait name"),
                Some(n) => Ok(self.trait_selector(n, ws)),
            }
        } else if str_eq(function, "impl_selector") {
            match string_arg(args, 0) {
                None => fail_with("E306", "impl_selector requires a type name"),
                Some(n) => Ok(self.impl_selector(n, ws)),
            }
        } else {
            let msg = concat("Unknown function: rust.", function);
            fail_with("E399", msg.as_str())
        }
    }
}

} // verus!
