//! The files library: selectors and checks over files and folders. The
//! library decides what to look at and what the answer is; its caller
//! looks at the file system.

use vstd::prelude::*;
use crate::stdlib::{CheckResult, LibraryError, Scope, ScopeKind, Value};
use crate::stdlib::json::check_view;
use crate::stdlib::rust::{arg_string, arg_scope, verdict};
use crate::stdlib::source::{file_name_of, path_file_name, texts};
use crate::text::{concat, ends_with_str, spec_ends_with_str, str_eq, u64_text, i64_text, nat_text, int_text};

verus! {

/// The files library.
pub struct FilesLibrary;

/// A selection that the files library asks for.
#[derive(Debug)]
pub enum FilesRequest {
    /// The file at a path, relative to the workspace
    File(String),
    /// The files under a folder, relative to the workspace
    Folder(String),
    /// The files that a glob pattern, relative to the workspace, matches
    Glob(String),
}

/// A check that the files library asks for, with its arguments.
#[derive(Debug)]
pub enum FilesCheck {
    Exists(Scope, String),
    Contains(Scope, String),
    NoFilesMatching(Scope, String),
    MaxSize(Scope, i64),
}

/// What `Path::join` gives for `base` and `path`, as text.
pub uninterp spec fn joined(base: Seq<char>, path: Seq<char>) -> Seq<char>;

/// `Path::join`: `path` under `base` (`path` itself where it is absolute).
#[verifier::external_body]
pub(crate) fn path_join(base: &str, path: &str) -> (r: String)
    ensures
        r@ == joined(base@, path@),
{
    std::path::Path::new(base).join(path).to_string_lossy().to_string()
}

/// What the selector request `function(args)` is, or its error.
pub open spec fn files_request_view(function: Seq<char>, args: Seq<Value>) -> Result<(int, Seq<char>), (Seq<char>, Seq<char>)> {
    if function == "file_selector"@ {
        match arg_string(args, 0) {
            None => Err(("E100"@, "file_selector requires a string path argument"@)),
            Some(p) => Ok((0, p)),
        }
    } else if function == "folder_selector"@ {
        match arg_string(args, 0) {
            None => Err(("E101"@, "folder_selector requires a string path argument"@)),
            Some(p) => Ok((1, p)),
        }
    } else if function == "glob_selector"@ {
        match arg_string(args, 0) {
            None => Err(("E102"@, "glob_selector requires a string pattern argument"@)),
            Some(p) => Ok((2, p)),
        }
    } else {
        Err(("E199"@, "Unknown function: files."@ + function))
    }
}

/// A selection request as a tag (file, folder, glob) and its text.
pub open spec fn request_view(r: FilesRequest) -> (int, Seq<char>) {
    match r {
        FilesRequest::File(p) => (0, p@),
        FilesRequest::Folder(p) => (1, p@),
        FilesRequest::Glob(p) => (2, p@),
    }
}

/// A check request as a tag, its scope, and its text or number.
pub open spec fn check_request_view(c: FilesCheck) -> (int, Scope, Seq<char>, i64) {
    match c {
        FilesCheck::Exists(s, n) => (0, s, n@, 0),
        FilesCheck::Contains(s, n) => (1, s, n@, 0),
        FilesCheck::NoFilesMatching(s, p) => (2, s, p@, 0),
        FilesCheck::MaxSize(s, m) => (3, s, Seq::empty(), m),
    }
}

/// What the check request `function(args)` is, or its error.
pub open spec fn files_check_view(function: Seq<char>, args: Seq<Value>) -> Result<(int, Scope, Seq<char>, i64), (Seq<char>, Seq<char>)> {
    if function == "exists"@ {
        match (arg_scope(args, 0), arg_string(args, 1)) {
            (None, _) => Err(("E110"@, "exists requires a scope as first argument"@)),
            (_, None) => Err(("E111"@, "exists requires a filename as second argument"@)),
            (Some(s), Some(n)) => Ok((0, s, n, 0)),
        }
    } else if function == "contains"@ {
        match (arg_scope(args, 0), arg_string(args, 1)) {
            (None, _) => Err(("E112"@, "contains requires a scope as first argument"@)),
            (_, None) => Err(("E113"@, "contains requires a filename as second argument"@)),
            (Some(s), Some(n)) => Ok((1, s, n, 0)),
        }
    } else if function == "no_files_matching"@ {
        match (arg_scope(args, 0), arg_string(args, 1)) {
            (None, _) => Err(("E114"@, "no_files_matching requires a scope as first argument"@)),
            (_, None) => Err(("E115"@, "no_files_matching requires a pattern as second argument"@)),
            (Some(s), Some(p)) => Ok((2, s, p, 0)),
        }
    } else if function == "max_size"@ {
        match (arg_scope(args, 0), arg_int(args, 1)) {
            (None, _) => Err(("E116"@, "max_size requires a scope as first argument"@)),
            (_, None) => Err(("E117"@, "max_size requires a number as second argument"@)),
            (Some(s), Some(m)) => Ok((3, s, Seq::empty(), m)),
        }
    } else {
        Err(("E199"@, "Unknown check function: files."@ + function))
    }
}

/// The integer argument at `i` (a float counts by its integer part).
pub open spec fn arg_int(args: Seq<Value>, i: int) -> Option<i64> {
    if 0 <= i < args.len() {
        match args[i] {
            Value::Int(n) => Some(n),
            Value::Float(f) => Some(f.truncated),
            _ => None,
        }
    } else {
        None
    }
}

/// The string argument at `i`.
fn string_at(args: &Vec<Value>, i: usize) -> (r: Option<String>)
    ensures
        match r {
            Some(s) => arg_string(args@, i as int) == Some(s@),
            None => arg_string(args@, i as int) is None,
        },
{
    if i < args.len() {
        match args[i].as_string() {
            Some(s) => Some(String::from_str(s)),
            None => None,
        }
    } else {
        None
    }
}

/// The scope argument at `i`.
fn scope_at(args: &Vec<Value>, i: usize) -> (r: Option<Scope>)
    ensures
        match r {
            Some(s) => arg_scope(args@, i as int) matches Some(t) && s.kind == t.kind && s.paths@ == t.paths@
                && s.resolved == t.resolved,
            None => arg_scope(args@, i as int) is None,
        },
{
    if i < args.len() {
        match args[i].as_scope() {
            Some(s) => Some(s.clone()),
            None => None,
        }
    } else {
        None
    }
}

/// The integer argument at `i`.
fn int_at(args: &Vec<Value>, i: usize) -> (r: Option<i64>)
    ensures
        r == arg_int(args@, i as int),
{
    if i < args.len() {
        args[i].as_int()
    } else {
        None
    }
}

/// Whether two scopes have the same kind, paths and resolution.
pub open spec fn same_scope(a: Scope, b: Scope) -> bool {
    a.kind == b.kind && a.paths@ == b.paths@ && a.resolved == b.resolved
}

/// A library error.
fn error(code: &str, message: &str) -> (e: LibraryError)
    ensures
        e.code@ == code@,
        e.message@ == message@,
{
    LibraryError::new(code, message)
}

impl FilesLibrary {
    pub fn new() -> (r: Self) {
        FilesLibrary
    }

    /// The selection that `function(args)` asks for (see `files_request_view`).
    pub fn request(&self, function: &str, args: &Vec<Value>) -> (r: Result<FilesRequest, LibraryError>)
        ensures
            match r {
                Ok(q) => files_request_view(function@, args@) == Ok::<(int, Seq<char>), (Seq<char>, Seq<char>)>(request_view(q)),
                Err(e) => files_request_view(function@, args@) == Err::<(int, Seq<char>), (Seq<char>, Seq<char>)>((e.code@, e.message@)),
            },
    {
        proof {
            reveal_strlit("file_selector");
            reveal_strlit("folder_selector");
            reveal_strlit("glob_selector");
        }
        if str_eq(function, "file_selector") {
            match string_at(args, 0) {
                None => Err(error("E100", "file_selector requires a string path argument")),
                Some(p) => Ok(FilesRequest::File(p)),
            }
        } else if str_eq(function, "folder_selector") {
            match string_at(args, 0) {
                None => Err(error("E101", "folder_selector requires a string path argument")),
                Some(p) => Ok(FilesRequest::Folder(p)),
            }
        } else if str_eq(function, "glob_selector") {
            match string_at(args, 0) {
                None => Err(error("E102", "glob_selector requires a string pattern argument")),
                Some(p) => Ok(FilesRequest::Glob(p)),
            }
        } else {
            proof {
                reveal_strlit("Unknown function: files.");
            }
            let msg = concat("Unknown function: files.", function);
            Err(error("E199", msg.as_str()))
        }
    }

    /// The scope that a selection found: of kind file, folder or glob after
    /// the request, resolved to the paths found.
    pub fn selection(&self, request: FilesRequest, found: Vec<String>) -> (v: Value)
        ensures
            v matches Value::Scope(s) && s.resolved && s.paths == found && s.kind == match request {
                FilesRequest::File(p) => ScopeKind::File(p),
                FilesRequest::Folder(p) => ScopeKind::Folder(p),
                FilesRequest::Glob(p) => ScopeKind::Glob(p),
            },
    {
        let kind = match request {
            FilesRequest::File(p) => ScopeKind::File(p),
            FilesRequest::Folder(p) => ScopeKind::Folder(p),
            FilesRequest::Glob(p) => ScopeKind::Glob(p),
        };
        Value::Scope(Scope::new(kind).with_paths(found))
    }

    /// The check that `function(args)` asks for (see `files_check_view`).
    pub fn check_request(&self, function: &str, args: &Vec<Value>) -> (r: Result<FilesCheck, LibraryError>)
        ensures
            match r {
                Ok(c) => files_check_view(function@, args@) matches Ok(w) && w.0 == check_request_view(c).0
                    && same_scope(w.1, check_request_view(c).1) && w.2 == check_request_view(c).2 && w.3 == check_request_view(c).3,
                Err(e) => files_check_view(function@, args@) == Err::<(int, Scope, Seq<char>, i64), (Seq<char>, Seq<char>)>((e.code@, e.message@)),
            },
    {
        proof {
            reveal_strlit("exists");
            reveal_strlit("contains");
            reveal_strlit("no_files_matching");
            reveal_strlit("max_size");
        }
        if str_eq(function, "exists") {
            match (scope_at(args, 0), string_at(args, 1)) {
                (None, _) => Err(error("E110", "exists requires a scope as first argument")),
                (_, None) => Err(error("E111", "exists requires a filename as second argument")),
                (Some(s), Some(n)) => Ok(FilesCheck::Exists(s, n)),
            }
        } else if str_eq(function, "contains") {
            match (scope_at(args, 0), string_at(args, 1)) {
                (None, _) => Err(error("E112", "contains requires a scope as first argument")),
                (_, None) => Err(error("E113", "contains requires a filename as second argument")),
                (Some(s), Some(n)) => Ok(FilesCheck::Contains(s, n)),
            }
        } else if str_eq(function, "no_files_matching") {
            match (scope_at(args, 0), string_at(args, 1)) {
                (None, _) => Err(error("E114", "no_files_matching requires a scope as first argument")),
                (_, None) => Err(error("E115", "no_files_matching requires a pattern as second argument")),
                (Some(s), Some(p)) => Ok(FilesCheck::NoFilesMatching(s, p)),
            }
        } else if str_eq(function, "max_size") {
            match (scope_at(args, 0), int_at(args, 1)) {
                (None, _) => Err(error("E116", "max_size requires a scope as first argument")),
                (_, None) => Err(error("E117", "max_size requires a number as second argument")),
                (Some(s), Some(m)) => Ok(FilesCheck::MaxSize(s, m)),
            }
        } else {
            proof {
                reveal_strlit("Unknown check function: files.");
            }
            let msg = concat("Unknown check function: files.", function);
            Err(error("E199", msg.as_str()))
        }
    }
}


/// Whether one of `paths` has the file name `name`.
pub open spec fn some_file_named(paths: Seq<String>, name: Seq<char>) -> bool {
    exists|i: int| 0 <= i < paths.len() && file_name_of(#[trigger] paths[i]@) == Some(name)
}

/// Whether one of `paths` ends with `name` or has it as file name.
pub open spec fn some_path_ends_with(paths: Seq<String>, name: Seq<char>) -> bool {
    exists|i: int| 0 <= i < paths.len() && (spec_ends_with_str(#[trigger] paths[i]@, name)
        || file_name_of(paths[i]@) == Some(name))
}

/// What `max as u64` is: the two's complement reading of `max`.
pub open spec fn as_unsigned(max: i64) -> int {
    if max < 0 { max + 0x1_0000_0000_0000_0000 } else { max as int }
}

/// The first path of `paths` whose size (in `sizes`, at the same place)
/// exceeds `limit`, with that size.
pub open spec fn first_oversized(paths: Seq<String>, sizes: Seq<Option<u64>>, limit: int, i: int) -> Option<(Seq<char>, u64)>
    decreases paths.len() - i,
{
    if i < 0 || i >= paths.len() {
        None
    } else if i < sizes.len() && (sizes[i] matches Some(n) && n > limit) {
        Some((paths[i]@, sizes[i]->0))
    } else {
        first_oversized(paths, sizes, limit, i + 1)
    }
}

/// The texts of `paths` quoted and listed in brackets: `["a", "b"]`.
pub open spec fn quoted_list(paths: Seq<Seq<char>>) -> Seq<char> {
    seq!['['] + quoted_items(paths) + seq![']']
}

/// The texts of `paths`, each in double quotes, separated by `, `.
pub open spec fn quoted_items(paths: Seq<Seq<char>>) -> Seq<char>
    decreases paths.len(),
{
    if paths.len() == 0 {
        Seq::empty()
    } else if paths.len() == 1 {
        seq!['"'] + paths[0] + seq!['"']
    } else {
        quoted_items(paths.drop_last()) + seq![',', ' ', '"'] + paths.last() + seq!['"']
    }
}

impl FilesLibrary {
    /// The path whose existence decides `exists` on `scope`: the file of a
    /// file scope, or `filename` in the folder of a folder scope, both under
    /// the workspace; none for a glob scope.
    pub fn exists_target(&self, scope: &Scope, filename: &str, workspace: &str) -> (r: Option<String>)
        ensures
            match scope.kind {
                ScopeKind::File(p) => r matches Some(t) && t@ == joined(workspace@, p@),
                ScopeKind::Folder(p) => r matches Some(t) && t@ == joined(joined(workspace@, p@), filename@),
                ScopeKind::Glob(_) => r is None,
            },
    {
        match &scope.kind {
            ScopeKind::File(p) => Some(path_join(workspace, p.as_str())),
            ScopeKind::Folder(p) => {
                let dir = path_join(workspace, p.as_str());
                Some(path_join(dir.as_str(), filename))
            },
            ScopeKind::Glob(_) => None,
        }
    }

    /// Whether `filename` exists in `scope`, given whether the path that
    /// `exists_target` named exists: for a file scope the file itself, for a
    /// folder scope the file in it, for a glob scope a matched path with
    /// that file name.
    #[verifier::loop_isolation(false)]
    pub fn check_exists(&self, scope: &Scope, filename: &str, target_exists: bool) -> (r: CheckResult)
        ensures
            check_view(r) == match scope.kind {
                ScopeKind::File(p) => verdict(target_exists, "File '"@ + p@ + "' does not exist"@),
                ScopeKind::Folder(p) => verdict(target_exists, "File '"@ + filename@ + "' does not exist in folder '"@ + p@ + "'"@),
                ScopeKind::Glob(_) => verdict(some_file_named(scope.paths@, filename@),
                    "No file named '"@ + filename@ + "' found in scope"@),
            },
    {
        match &scope.kind {
            ScopeKind::File(p) => {
                if target_exists {
                    CheckResult::Pass
                } else {
                    CheckResult::Fail(wrap3("File '", p.as_str(), "' does not exist"))
                }
            },
            ScopeKind::Folder(p) => {
                if target_exists {
                    CheckResult::Pass
                } else {
                    let m = wrap3("File '", filename, "' does not exist in folder '");
                    CheckResult::Fail(wrap3(m.as_str(), p.as_str(), "'"))
                }
            },
            ScopeKind::Glob(_) => {
                let mut i: usize = 0;
                while i < scope.paths.len()
                    invariant
                        i <= scope.paths@.len(),
                        forall|j: int| 0 <= j < i ==> file_name_of(#[trigger] scope.paths@[j]@) != Some(filename@),
                    decreases scope.paths@.len() - i,
                {
                    let named = match path_file_name(scope.paths[i].as_str()) {
                        Some(n) => str_eq(n.as_str(), filename),
                        None => false,
                    };
                    if named {
                        return CheckResult::Pass;
                    }
                    i = i + 1;
                }
                CheckResult::Fail(wrap3("No file named '", filename, "' found in scope"))
            },
        }
    }

    /// The path whose existence decides `contains` on a folder scope:
    /// `filename` in the folder, under the workspace; none for other scopes.
    pub fn contains_target(&self, scope: &Scope, filename: &str, workspace: &str) -> (r: Option<String>)
        ensures
            match scope.kind {
                ScopeKind::Folder(p) => r matches Some(t) && t@ == joined(joined(workspace@, p@), filename@),
                _ => r is None,
            },
    {
        match &scope.kind {
            ScopeKind::Folder(p) => {
                let dir = path_join(workspace, p.as_str());
                Some(path_join(dir.as_str(), filename))
            },
            _ => None,
        }
    }

    /// Whether `scope` contains `filename`, given whether the path that
    /// `contains_target` named exists: for a folder scope that file, for
    /// other scopes a resolved path that ends with the name or has it as
    /// file name.
    #[verifier::loop_isolation(false)]
    pub fn check_contains(&self, scope: &Scope, filename: &str, target_exists: bool) -> (r: CheckResult)
        ensures
            check_view(r) == match scope.kind {
                ScopeKind::Folder(p) => verdict(target_exists, "Folder '"@ + p@ + "' does not contain '"@ + filename@ + "'"@),
                _ => verdict(some_path_ends_with(scope.paths@, filename@), "Scope does not contain '"@ + filename@ + "'"@),
            },
    {
        match &scope.kind {
            ScopeKind::Folder(p) => {
                if target_exists {
                    CheckResult::Pass
                } else {
                    let m = wrap3("Folder '", p.as_str(), "' does not contain '");
                    CheckResult::Fail(wrap3(m.as_str(), filename, "'"))
                }
            },
            _ => {
                let mut i: usize = 0;
                while i < scope.paths.len()
                    invariant
                        i <= scope.paths@.len(),
                        forall|j: int| 0 <= j < i ==> !(spec_ends_with_str(#[trigger] scope.paths@[j]@, filename@)
                            || file_name_of(scope.paths@[j]@) == Some(filename@)),
                    decreases scope.paths@.len() - i,
                {
                    let p = scope.paths[i].as_str();
                    let named = match path_file_name(p) {
                        Some(n) => str_eq(n.as_str(), filename),
                        None => false,
                    };
                    if ends_with_str(p, filename) || named {
                        return CheckResult::Pass;
                    }
                    i = i + 1;
                }
                CheckResult::Fail(wrap3("Scope does not contain '", filename, "'"))
            },
        }
    }

    /// The glob pattern that `no_files_matching` searches: `pattern` under
    /// the folder of a folder scope, under the folder of the file of a file
    /// scope (the workspace where it has none), or under the workspace.
    pub fn no_files_pattern(&self, scope: &Scope, pattern: &str, workspace: &str) -> (r: String)
        ensures
            r@ == joined(match scope.kind {
                ScopeKind::Folder(p) => joined(workspace@, p@),
                ScopeKind::File(p) => match crate::stdlib::source::parent_of(joined(workspace@, p@)) {
                    Some(d) => d,
                    None => workspace@,
                },
                ScopeKind::Glob(_) => workspace@,
            }, pattern@),
    {
        let base = match &scope.kind {
            ScopeKind::Folder(p) => path_join(workspace, p.as_str()),
            ScopeKind::File(p) => {
                let f = path_join(workspace, p.as_str());
                match crate::stdlib::source::path_parent(f.as_str()) {
                    Some(d) => d,
                    None => String::from_str(workspace),
                }
            },
            ScopeKind::Glob(_) => String::from_str(workspace),
        };
        path_join(base.as_str(), pattern)
    }

    /// The outcome of `no_files_matching` given the paths that the pattern
    /// matched (`None` where it is no valid glob pattern): no match passes;
    /// otherwise the failure counts the matches and lists the first five.
    pub fn check_no_files_matching(&self, pattern: &str, found: Option<Vec<String>>) -> (r: CheckResult)
        ensures
            check_view(r) == match found {
                None => (2int, "Invalid glob pattern: "@ + pattern@),
                Some(m) => if m@.len() == 0 {
                    (0int, Seq::empty())
                } else {
                    (1int, "Found "@ + nat_text(m@.len()) + " files matching pattern '"@ + pattern@ + "': "@
                        + quoted_list(texts(m@).take(if m@.len() < 5 { m@.len() as int } else { 5 })))
                },
            },
    {
        match found {
            None => {
                proof {
                    reveal_strlit("Invalid glob pattern: ");
                }
                CheckResult::Error(concat("Invalid glob pattern: ", pattern))
            },
            Some(m) => {
                if m.len() == 0 {
                    CheckResult::Pass
                } else {
                    let count = u64_text(m.len() as u64);
                    let mut msg = wrap3("Found ", count.as_str(), " files matching pattern '");
                    msg = wrap3(msg.as_str(), pattern, "': ");
                    let n: usize = if m.len() < 5 { m.len() } else { 5 };
                    let list = quote_paths(&m, n);
                    msg.append(list.as_str());
                    CheckResult::Fail(msg)
                }
            },
        }
    }

    /// The outcome of `max_size` given the sizes of the scope's files (at
    /// the same places as its paths; `None` where a size could not be
    /// read): the first file larger than `max_bytes`, read as unsigned,
    /// fails.
    pub fn check_max_size(&self, scope: &Scope, sizes: &Vec<Option<u64>>, max_bytes: i64) -> (r: CheckResult)
        ensures
            check_view(r) == match first_oversized(scope.paths@, sizes@, as_unsigned(max_bytes), 0) {
                None => (0int, Seq::empty()),
                Some((p, n)) => (1int, "File '"@ + p + "' exceeds maximum size ("@ + nat_text(n as nat) + " > "@
                    + int_text(max_bytes as int) + " bytes)"@),
            },
    {
        let limit: u64 = if max_bytes >= 0 { max_bytes as u64 } else { u64::MAX - ((-(max_bytes + 1)) as u64) };
        assert(limit == as_unsigned(max_bytes));
        let mut i: usize = 0;
        while i < scope.paths.len()
            invariant
                i <= scope.paths@.len(),
                limit == as_unsigned(max_bytes),
                first_oversized(scope.paths@, sizes@, limit as int, i as int) == first_oversized(scope.paths@, sizes@, limit as int, 0),
            decreases scope.paths@.len() - i,
        {
            if i < sizes.len() {
                if let Some(n) = sizes[i] {
                    if n > limit {
                        let m = wrap3("File '", scope.paths[i].as_str(), "' exceeds maximum size (");
                        let m = wrap3(m.as_str(), u64_text(n).as_str(), " > ");
                        let m = wrap3(m.as_str(), i64_text(max_bytes).as_str(), " bytes)");
                        return CheckResult::Fail(m);
                    }
                }
            }
            i = i + 1;
        }
        CheckResult::Pass
    }
}

/// `a` + `b` + `c`.
fn wrap3(a: &str, b: &str, c: &str) -> (r: String)
    ensures
        r@ == a@ + b@ + c@,
{
    let mut r = String::from_str(a);
    r.append(b);
    r.append(c);
    r
}

/// The first `n` of `paths`, quoted and listed in brackets.
fn quote_paths(paths: &Vec<String>, n: usize) -> (r: String)
    requires
        n <= paths@.len(),
    ensures
        r@ == quoted_list(texts(paths@).take(n as int)),
{
    let ghost views = texts(paths@);
    let mut out = String::new();
    let mut i: usize = 0;
    while i < n
        invariant
            i <= n <= paths@.len(),
            views == texts(paths@),
            out@ == quoted_items(views.take(i as int)),
        decreases n - i,
    {
        proof {
            reveal_strlit("\"");
            reveal_strlit(", \"");
        }
        assert(views.take(i + 1).drop_last() =~= views.take(i as int));
        assert(views.take(i + 1).last() == paths@[i as int]@);
        if i == 0 {
            assert(views.take(1)[0] == paths@[0]@);
            out.append("\"");
        } else {
            out.append(", \"");
        }
        out.append(paths[i].as_str());
        out.append("\"");
        i = i + 1;
    }
    assert(views.take(n as int).take(i as int) =~= views.take(i as int));
    let mut r = String::from_str("[");
    r.append(out.as_str());
    r.append("]");
    proof {
        reveal_strlit("[");
        reveal_strlit("]");
    }
    r
}

} // verus!
