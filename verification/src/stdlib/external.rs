//! Configuration of libraries that run as external processes and answer
//! JSON-RPC requests, as read from a workspace's `hielements.toml`.

use vstd::prelude::*;
use crate::stdlib::clone_strings;
use crate::text::{ends_with_str, spec_ends_with_str, str_eq};

verus! {

/// Configuration for an external library.
#[derive(Debug)]
pub struct ExternalLibraryConfig {
    /// Name of the library as it will be referenced in .hie files
    pub name: String,
    /// Path to the executable
    pub executable: String,
    /// Arguments to pass to the executable
    pub args: Vec<String>,
}

/// Entry in the libraries configuration.
#[derive(Debug)]
pub struct ExternalLibraryConfigEntry {
    /// Path to the executable
    pub executable: String,
    /// Arguments to pass to the executable
    pub args: Vec<String>,
}

/// The contents of `hielements.toml`: the configured libraries, each under
/// its name; no name occurs twice.
#[derive(Debug)]
pub struct HielementsConfig {
    pub libraries: Vec<(String, ExternalLibraryConfigEntry)>,
}

/// Library metadata returned by an external process.
#[derive(Debug)]
pub struct LibraryMetadata {
    pub name: String,
    pub version: String,
    pub functions: Vec<String>,
    pub checks: Vec<String>,
}

impl HielementsConfig {
    /// A configuration without libraries.
    pub fn new() -> (c: Self)
        ensures
            c.libraries@.len() == 0,
    {
        HielementsConfig { libraries: Vec::new() }
    }

    /// The configuration of each library: its name with its entry's
    /// executable and arguments, in the order of the entries.
    pub fn library_configs(&self) -> (r: Vec<ExternalLibraryConfig>)
        ensures
            r@.len() == self.libraries@.len(),
            forall|i: int| 0 <= i < r@.len() ==> {
                &&& (#[trigger] r@[i]).name == self.libraries@[i].0
                &&& r@[i].executable == self.libraries@[i].1.executable
                &&& r@[i].args@ == self.libraries@[i].1.args@
            },
    {
        let mut out: Vec<ExternalLibraryConfig> = Vec::new();
        let mut i: usize = 0;
        while i < self.libraries.len()
            invariant
                i <= self.libraries@.len(),
                out@.len() == i,
                forall|k: int| 0 <= k < i ==> {
                    &&& (#[trigger] out@[k]).name == self.libraries@[k].0
                    &&& out@[k].executable == self.libraries@[k].1.executable
                    &&& out@[k].args@ == self.libraries@[k].1.args@
                },
            decreases self.libraries@.len() - i,
        {
            let entry = &self.libraries[i];
            out.push(ExternalLibraryConfig {
                name: entry.0.clone(),
                executable: entry.1.executable.clone(),
                args: clone_strings(&entry.1.args),
            });
            i = i + 1;
        }
        out
    }
}


/// How a configured library runs.
#[derive(Debug, PartialEq, Eq)]
pub enum PluginKind {
    /// An executable that answers JSON-RPC requests on its standard streams
    Process,
    /// A WebAssembly module run in a sandbox
    Wasm,
}

/// How the configuration entry with these keys runs: a WebAssembly module
/// where its `type` is `wasm` and it has a `path`, or where it has no
/// `type` and no `executable` and its `path` ends in `.wasm`; else a
/// process where it has an `executable`; else it names no library.
pub open spec fn plugin_kind_of(kind: Option<Seq<char>>, executable: bool, path: Option<Seq<char>>) -> Option<PluginKind> {
    if kind == Some("wasm"@) && path is Some {
        Some(PluginKind::Wasm)
    } else if kind is None && !executable && (path matches Some(p) && spec_ends_with_str(p, ".wasm"@)) {
        Some(PluginKind::Wasm)
    } else if executable {
        Some(PluginKind::Process)
    } else {
        None
    }
}

/// How a configuration entry runs (see `plugin_kind_of`).
pub fn plugin_kind(kind: Option<&str>, executable: bool, path: Option<&str>) -> (r: Option<PluginKind>)
    ensures
        r == plugin_kind_of(
            match kind { Some(k) => Some(k@), None => None },
            executable,
            match path { Some(p) => Some(p@), None => None },
        ),
{
    let wasm_type = match kind {
        Some(k) => str_eq(k, "wasm"),
        None => false,
    };
    proof {
        reveal_strlit("wasm");
    }
    if wasm_type && path.is_some() {
        Some(PluginKind::Wasm)
    } else if kind.is_none() && !executable && match path {
        Some(p) => ends_with_str(p, ".wasm"),
        None => false,
    } {
        Some(PluginKind::Wasm)
    } else if executable {
        Some(PluginKind::Process)
    } else {
        None
    }
}

} // verus!
