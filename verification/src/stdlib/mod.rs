//! Values, scopes and check results that flow between the interpreter and
//! the libraries, the `Library` interface and the registry of libraries.

pub mod json;
pub mod external;
pub mod source;
pub mod scan;
pub mod pattern;
pub mod rust;
pub mod files;
pub mod python;

use vstd::prelude::*;
use crate::text::str_eq;

verus! {

/// Error type for library operations.
#[derive(Debug)]
pub struct LibraryError {
    pub message: String,
    pub code: String,
}

impl LibraryError {
    /// An error with code `code` and message `message`.
    pub fn new(code: &str, message: &str) -> (e: Self)
        ensures
            e.code@ == code@,
            e.message@ == message@,
    {
        LibraryError { code: String::from_str(code), message: String::from_str(message) }
    }
}

impl Clone for LibraryError {
    fn clone(&self) -> (r: Self)
        ensures
            r == *self,
    {
        LibraryError { message: self.message.clone(), code: self.code.clone() }
    }
}

/// A number with a fractional part: its decimal text and the integer it
/// truncates to (saturating at the bounds of `i64`).
#[derive(Debug)]
pub struct FloatValue {
    pub text: String,
    pub truncated: i64,
}

impl Clone for FloatValue {
    fn clone(&self) -> (r: Self)
        ensures
            r == *self,
    {
        FloatValue { text: self.text.clone(), truncated: self.truncated }
    }
}

/// A value that can be passed to and from library functions.
#[derive(Debug)]
pub enum Value {
    /// Null/none value
    Null,
    /// Boolean value
    Bool(bool),
    /// Integer value
    Int(i64),
    /// Number with a fractional part
    Float(FloatValue),
    /// String value
    String(String),
    /// List of values
    List(Vec<Value>),
    /// A scope (set of files/paths)
    Scope(Scope),
    /// A connection point
    ConnectionPoint(ConnectionPoint),
}

/// A copy of a list of strings.
pub fn clone_strings(v: &Vec<String>) -> (r: Vec<String>)
    ensures
        r@ == v@,
{
    let mut out: Vec<String> = Vec::new();
    let mut i: usize = 0;
    while i < v.len()
        invariant
            i <= v@.len(),
            out@ == v@.take(i as int),
        decreases v@.len() - i,
    {
        out.push(v[i].clone());
        assert(v@.take(i + 1) =~= v@.take(i as int).push(v@[i as int]));
        i = i + 1;
    }
    assert(v@.take(i as int) =~= v@);
    out
}

/// Whether `b` is a copy of `a`: the same scalars and texts, the same
/// scope kinds, paths and flags, and copies of the list items and of the
/// connection-point data, item by item.
pub open spec fn same_value(a: Value, b: Value) -> bool
    decreases a,
{
    match a {
        Value::List(items) => b matches Value::List(out) && out@.len() == items@.len()
            && forall|k: int| 0 <= k < items@.len() ==> same_value(#[trigger] items@[k], out@[k]),
        Value::Scope(s) => b matches Value::Scope(t) && t.kind == s.kind && t.paths@ == s.paths@ && t.resolved == s.resolved,
        Value::ConnectionPoint(cp) => b matches Value::ConnectionPoint(c) && c.name == cp.name && c.kind == cp.kind
            && c.data@.len() == cp.data@.len()
            && forall|k: int| 0 <= k < cp.data@.len() ==> c.data@[k].0 == (#[trigger] cp.data@[k]).0
                && same_value(cp.data@[k].1, c.data@[k].1),
        _ => b == a,
    }
}

impl Clone for Value {
    #[verifier::loop_isolation(false)]
    /// A copy of the value (see `same_value`).
    fn clone(&self) -> (r: Self)
        ensures
            same_value(*self, r),
        decreases self,
    {
        match self {
            Value::Null => Value::Null,
            Value::Bool(b) => Value::Bool(*b),
            Value::Int(i) => Value::Int(*i),
            Value::Float(f) => Value::Float(f.clone()),
            Value::String(s) => Value::String(s.clone()),
            Value::List(items) => {
                let mut out: Vec<Value> = Vec::new();
                let mut i: usize = 0;
                while i < items.len()
                    invariant
                        i <= items@.len(),
                        out@.len() == i,
                        forall|k: int| 0 <= k < i ==> same_value(#[trigger] items@[k], out@[k]),
                    decreases items@.len() - i,
                {
                    proof {
                        assert(decreases_to!(*items => items[i as int]));
                    }
                    let v = items[i].clone();
                    out.push(v);
                    i = i + 1;
                }
                Value::List(out)
            },
            Value::Scope(s) => Value::Scope(s.clone()),
            Value::ConnectionPoint(cp) => {
                let mut data: Vec<(String, Value)> = Vec::new();
                let mut i: usize = 0;
                while i < cp.data.len()
                    invariant
                        i <= cp.data@.len(),
                        data@.len() == i,
                        forall|k: int| 0 <= k < i ==> data@[k].0 == (#[trigger] cp.data@[k]).0
                            && same_value(cp.data@[k].1, data@[k].1),
                    decreases cp.data@.len() - i,
                {
                    proof {
                        assert(decreases_to!(cp.data => cp.data[i as int]));
                    }
                    let key = cp.data[i].0.clone();
                    let v = cp.data[i].1.clone();
                    data.push((key, v));
                    i = i + 1;
                }
                Value::ConnectionPoint(ConnectionPoint { name: cp.name.clone(), kind: cp.kind.clone(), data })
            },
        }
    }
}

impl Value {
    /// The string held by a `String` value.
    pub fn as_string(&self) -> (r: Option<&str>)
        ensures
            match self {
                Value::String(s) => r is Some && r.unwrap()@ == s@,
                _ => r is None,
            },
    {
        match self {
            Value::String(s) => Some(s.as_str()),
            _ => None,
        }
    }

    /// The integer held by an `Int` value, or the truncated integer of a
    /// `Float` value.
    pub fn as_int(&self) -> (r: Option<i64>)
        ensures
            match self {
                Value::Int(i) => r == Some(*i),
                Value::Float(f) => r == Some(f.truncated),
                _ => r is None,
            },
    {
        match self {
            Value::Int(i) => Some(*i),
            Value::Float(f) => Some(f.truncated),
            _ => None,
        }
    }

    /// The boolean held by a `Bool` value.
    pub fn as_bool(&self) -> (r: Option<bool>)
        ensures
            match self {
                Value::Bool(b) => r == Some(*b),
                _ => r is None,
            },
    {
        match self {
            Value::Bool(b) => Some(*b),
            _ => None,
        }
    }

    /// The scope held by a `Scope` value.
    pub fn as_scope(&self) -> (r: Option<&Scope>)
        ensures
            match self {
                Value::Scope(s) => r == Some(s),
                _ => r is None,
            },
    {
        match self {
            Value::Scope(s) => Some(s),
            _ => None,
        }
    }
}

/// A scope representing a set of files/paths.
#[derive(Debug)]
pub struct Scope {
    /// Type of scope (file, folder, glob, etc.)
    pub kind: ScopeKind,
    /// Matched paths
    pub paths: Vec<String>,
    /// Whether the scope has been resolved
    pub resolved: bool,
}

impl Clone for Scope {
    fn clone(&self) -> (r: Self)
        ensures
            r.kind == self.kind,
            r.paths@ == self.paths@,
            r.resolved == self.resolved,
    {
        Scope { kind: self.kind.clone(), paths: clone_strings(&self.paths), resolved: self.resolved }
    }
}

impl Scope {
    /// An unresolved scope of kind `kind` with no paths.
    pub fn new(kind: ScopeKind) -> (s: Self)
        ensures
            s.kind == kind,
            s.paths@.len() == 0,
            !s.resolved,
    {
        Scope { kind, paths: Vec::new(), resolved: false }
    }

    /// This scope, resolved to `paths`.
    pub fn with_paths(self, paths: Vec<String>) -> (s: Self)
        ensures
            s.kind == self.kind,
            s.paths == paths,
            s.resolved,
    {
        let mut s = self;
        s.paths = paths;
        s.resolved = true;
        s
    }
}

/// Type of scope selector.
#[derive(Debug)]
pub enum ScopeKind {
    File(String),
    Folder(String),
    Glob(String),
}

impl Clone for ScopeKind {
    fn clone(&self) -> (r: Self)
        ensures
            r == *self,
    {
        match self {
            ScopeKind::File(s) => ScopeKind::File(s.clone()),
            ScopeKind::Folder(s) => ScopeKind::Folder(s.clone()),
            ScopeKind::Glob(s) => ScopeKind::Glob(s.clone()),
        }
    }
}

/// A connection point: a name, a kind and named data.
#[derive(Debug)]
pub struct ConnectionPoint {
    pub name: String,
    pub kind: String,
    pub data: Vec<(String, Value)>,
}

/// Check result.
#[derive(Debug)]
pub enum CheckResult {
    /// Check passed
    Pass,
    /// Check failed with message
    Fail(String),
    /// Check could not be evaluated
    Error(String),
}

impl Clone for CheckResult {
    fn clone(&self) -> (r: Self)
        ensures
            r == *self,
    {
        match self {
            CheckResult::Pass => CheckResult::Pass,
            CheckResult::Fail(m) => CheckResult::Fail(m.clone()),
            CheckResult::Error(m) => CheckResult::Error(m.clone()),
        }
    }
}

impl CheckResult {
    /// Whether the check passed.
    pub fn is_pass(&self) -> (b: bool)
        ensures
            b == (*self is Pass),
    {
        match self {
            CheckResult::Pass => true,
            _ => false,
        }
    }

    /// Whether the check failed.
    pub fn is_fail(&self) -> (b: bool)
        ensures
            b == (*self is Fail),
    {
        match self {
            CheckResult::Fail(_) => true,
            _ => false,
        }
    }
}

/// A library module. Libraries provide selectors (through `call`) and
/// checks (through `check`). Both take `&mut self` so that a library can
/// keep state, such as the connection to an external process.
pub trait Library {
    /// The library's name, as written in `.hie` files.
    fn name(&self) -> String;

    /// Whether `r` is what the library, as it stands, answers to a call of
    /// `function` on `args` in `workspace`. A library may say this for
    /// itself; one that does not allows every answer.
    open spec fn answers_call(&self, function: Seq<char>, args: Seq<Value>, workspace: Seq<char>, r: Result<Value, LibraryError>) -> bool {
        true
    }

    /// Call a function of the library (typically a selector).
    fn call(&mut self, function: &str, args: Vec<Value>, workspace: &str) -> (r: Result<Value, LibraryError>)
        ensures
            old(self).answers_call(function@, args@, workspace@, r);

    /// Whether `r` is what the library, as it stands, answers to the check
    /// `function` on `args` in `workspace`. A library may say this for
    /// itself; one that does not allows every answer.
    open spec fn answers_check(&self, function: Seq<char>, args: Seq<Value>, workspace: Seq<char>, r: Result<CheckResult, LibraryError>) -> bool {
        true
    }

    /// Run a check function of the library.
    fn check(&mut self, function: &str, args: Vec<Value>, workspace: &str) -> (r: Result<CheckResult, LibraryError>)
        ensures
            old(self).answers_check(function@, args@, workspace@, r);
}

/// What a run records for the answer `a` of a library's check: the
/// library's result, or an error with the library's message.
pub open spec fn answer_result(a: Result<CheckResult, LibraryError>) -> CheckResult {
    match a {
        Ok(c) => c,
        Err(e) => CheckResult::Error(e.message),
    }
}

/// How registering `library` under the name `n` at position `i` turns the
/// names `names` and libraries `libs` into `names2` and `libs2`: where `n`
/// is registered already (at `i`), its library is replaced and the names
/// stay; otherwise `n` and `library` are appended (`i` is the old length).
pub open spec fn registers_at<L>(
    names: Seq<Seq<char>>,
    libs: Seq<L>,
    names2: Seq<Seq<char>>,
    libs2: Seq<L>,
    library: L,
    n: Seq<char>,
    i: int,
) -> bool {
    ||| (0 <= i < names.len() && names[i] == n && names2 == names && libs2 == libs.update(i, library))
    ||| (i == names.len() && !names.contains(n) && names2 == names.push(n) && libs2 == libs.push(library))
}

/// A registered library and the name it was registered under.
struct RegistryEntry<L> {
    name: String,
    library: L,
}

/// The registry of the libraries available to a program, each under the
/// name it had when it was registered. No name occurs twice.
pub struct LibraryRegistry<L: Library> {
    entries: Vec<RegistryEntry<L>>,
}

impl<L: Library> LibraryRegistry<L> {
    /// The names of the registered libraries, in registration order.
    pub closed spec fn spec_names(&self) -> Seq<Seq<char>> {
        self.entries@.map_values(|e: RegistryEntry<L>| e.name@)
    }

    /// The registered libraries, in registration order (the library at
    /// each position is registered under the name at that position).
    pub closed spec fn spec_libraries(&self) -> Seq<L> {
        self.entries@.map_values(|e: RegistryEntry<L>| e.library)
    }

    /// The registry's invariant: no name twice.
    pub closed spec fn wf(&self) -> bool {
        forall|i: int, j: int| 0 <= i < j < self.entries@.len() ==> self.entries@[i].name@ != self.entries@[j].name@
    }

    /// An empty registry.
    pub fn new() -> (r: Self)
        ensures
            r.wf(),
            r.spec_names().len() == 0,
    {
        LibraryRegistry { entries: Vec::new() }
    }

    /// The position of the library named `name`.
    fn find(&self, name: &str) -> (r: Option<usize>)
        requires
            self.wf(),
        ensures
            match r {
                Some(i) => i < self.entries@.len() && self.entries@[i as int].name@ == name@
                    && self.spec_names()[i as int] == name@,
                None => !self.spec_names().contains(name@),
            },
    {
        let mut i: usize = 0;
        while i < self.entries.len()
            invariant
                i <= self.entries@.len(),
                forall|k: int| 0 <= k < i ==> self.entries@[k].name@ != name@,
            decreases self.entries@.len() - i,
        {
            if str_eq(self.entries[i].name.as_str(), name) {
                return Some(i);
            }
            i = i + 1;
        }
        proof {
            if self.spec_names().contains(name@) {
                let k = choose|k: int| 0 <= k < self.spec_names().len() && self.spec_names()[k] == name@;
                assert(self.entries@[k].name@ == name@);
            }
        }
        None
    }

    /// Register a library under its name (what its `name` method reports),
    /// replacing any library registered under the same name.
    pub fn register(&mut self, library: L)
        requires
            old(self).wf(),
        ensures
            final(self).wf(),
            exists|n: Seq<char>, i: int| #[trigger] registers_at(old(self).spec_names(), old(self).spec_libraries(),
                final(self).spec_names(), final(self).spec_libraries(), library, n, i),
    {
        let name = library.name();
        let ghost old_libs = self.spec_libraries();
        match self.find(name.as_str()) {
            Some(i) => {
                let ghost old_names = self.spec_names();
                let ghost n = name@;
                let ghost lib = library;
                self.entries.set(i, RegistryEntry { name, library });
                assert(self.spec_names() =~= old_names);
                assert(self.spec_libraries() =~= old_libs.update(i as int, lib));
                assert(registers_at(old_names, old_libs, self.spec_names(), self.spec_libraries(), lib, n, i as int));
            },
            None => {
                let ghost old_names = self.spec_names();
                let ghost n = name@;
                let ghost old_vec = self.entries@;
                let ghost lib = library;
                let e = RegistryEntry { name, library };
                assert(e.name@ == n);
                self.entries.push(e);
                assert(self.entries@ == old_vec.push(e));
                assert(self.entries@.len() == old_vec.len() + 1);
                assert(self.entries@[old_vec.len() as int].name@ == n);
                assert(self.spec_names() =~= old_names.push(n));
                assert forall|i: int, j: int| 0 <= i < j < self.entries@.len() implies self.entries@[i].name@ != self.entries@[j].name@ by {
                    if j == self.entries@.len() - 1 {
                        assert(old_names[i] == old_vec[i].name@);
                    }
                }
                assert(self.spec_libraries() =~= old_libs.push(lib));
                assert(registers_at(old_names, old_libs, self.spec_names(), self.spec_libraries(), lib, n, old_names.len() as int));
            },
        }
    }

    /// Whether a library named `name` is registered.
    pub fn has(&self, name: &str) -> (b: bool)
        requires
            self.wf(),
        ensures
            b == self.spec_names().contains(name@),
    {
        self.find(name).is_some()
    }

    /// The names of all registered libraries.
    pub fn names(&self) -> (r: Vec<String>)
        ensures
            r@.map_values(|s: String| s@) == self.spec_names(),
    {
        let mut out: Vec<String> = Vec::new();
        let mut i: usize = 0;
        while i < self.entries.len()
            invariant
                i <= self.entries@.len(),
                out@.len() == i,
                forall|k: int| 0 <= k < i ==> (#[trigger] out@[k])@ == self.entries@[k].name@,
            decreases self.entries@.len() - i,
        {
            out.push(self.entries[i].name.clone());
            i = i + 1;
        }
        assert(out@.map_values(|s: String| s@) =~= self.spec_names());
        out
    }

    /// Call `function` of the library named `library`; `None` where no such
    /// library is registered.
    pub fn call(&mut self, library: &str, function: &str, args: Vec<Value>, workspace: &str) -> (r: Option<Result<Value, LibraryError>>)
        requires
            old(self).wf(),
        ensures
            final(self).wf(),
            final(self).spec_names() == old(self).spec_names(),
            r is None <==> !old(self).spec_names().contains(library@),
            r matches Some(a) ==> exists|i: int| 0 <= i < old(self).spec_names().len() && old(self).spec_names()[i] == library@
                && (#[trigger] old(self).spec_libraries()[i]).answers_call(function@, args@, workspace@, a),
    {
        let ghost args_v = args@;
        match self.find(library) {
            Some(i) => {
                let ghost old_names = self.spec_names();
                let ghost old_lib = self.spec_libraries()[i as int];
                let mut entry = self.entries.remove(i);
                assert(entry.library == old_lib);
                let r = entry.library.call(function, args, workspace);
                assert(old_lib.answers_call(function@, args_v, workspace@, r));
                self.entries.insert(i, entry);
                assert(self.spec_names() =~= old_names);
                Some(r)
            },
            None => None,
        }
    }

    /// Run the check `function` of the library named `library`; `None` where
    /// no such library is registered.
    pub fn check(&mut self, library: &str, function: &str, args: Vec<Value>, workspace: &str) -> (r: Option<Result<CheckResult, LibraryError>>)
        requires
            old(self).wf(),
        ensures
            final(self).wf(),
            final(self).spec_names() == old(self).spec_names(),
            r is None <==> !old(self).spec_names().contains(library@),
            r matches Some(a) ==> exists|i: int| 0 <= i < old(self).spec_names().len() && old(self).spec_names()[i] == library@
                && (#[trigger] old(self).spec_libraries()[i]).answers_check(function@, args@, workspace@, a),
    {
        let ghost args_v = args@;
        match self.find(library) {
            Some(i) => {
                let ghost old_names = self.spec_names();
                let ghost old_lib = self.spec_libraries()[i as int];
                let mut entry = self.entries.remove(i);
                assert(entry.library == old_lib);
                let r = entry.library.check(function, args, workspace);
                assert(old_lib.answers_check(function@, args_v, workspace@, r));
                self.entries.insert(i, entry);
                assert(self.spec_names() =~= old_names);
                Some(r)
            },
            None => None,
        }
    }
}

} // verus!
