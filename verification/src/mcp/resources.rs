//! Resources: the data that agents can read, named by URIs.

use vstd::prelude::*;
use crate::text::{concat, contains_str, spec_contains, starts_with_str, spec_starts_with, str_eq, chars_of,
    string_from_chars};

verus! {

/// The resources that the server offers for a workspace.
pub struct ResourceHandler {
    pub workspace: String,
}

/// A resource that a URI names.
#[derive(Debug, PartialEq, Eq)]
pub enum ResourceRequest {
    /// The list of the workspace's specifications
    Specifications,
    /// The catalog of patterns
    PatternCatalog,
    /// The documentation of the libraries
    LibraryDocs,
    /// The language reference
    LanguageReference,
    /// A specification file of the workspace, by name
    File(String),
}

/// A resource as the server lists it.
#[derive(Debug)]
pub struct ResourceInfo {
    pub uri: String,
    pub name: String,
    pub mime_type: String,
    pub description: String,
}

/// The prefix of the URIs of the workspace's specification files.
pub const FILE_URI_PREFIX: &'static str = "hielements://workspace/file/";

/// The language reference given where the workspace has none.
pub const LANGUAGE_REFERENCE: &'static str = "# Hielements Language Reference\n\n## Overview\nHielements is a language for describing and enforcing software architecture.\n\n## Basic Syntax\n\n### Elements\nElements represent logical components:\n```hielements\nelement my_component {\n    # Element content\n}\n```\n\n### Scopes\nScopes define what code/artifacts belong to an element:\n```hielements\nscope src = files.folder_selector('src/')\n```\n\n### Checks\nChecks verify properties of your system:\n```hielements\ncheck files.exists(src, 'main.py')\n```\n\n### Patterns\nDefine reusable architectural blueprints:\n```hielements\npattern microservice {\n    element api {\n        scope module<python>\n    }\n}\n```\n\nFor full documentation, see: https://github.com/ercasta/hielements\n";

/// What the URI `uri` names, or `None` for no resource.
pub open spec fn resource_of(uri: Seq<char>) -> Option<(int, Seq<char>)> {
    if uri == "hielements://workspace/specifications"@ {
        Some((0, Seq::empty()))
    } else if uri == "hielements://patterns/catalog"@ {
        Some((1, Seq::empty()))
    } else if uri == "hielements://libraries/docs"@ {
        Some((2, Seq::empty()))
    } else if uri == "hielements://docs/language-reference"@ {
        Some((3, Seq::empty()))
    } else if spec_starts_with(uri, FILE_URI_PREFIX@) {
        Some((4, uri.skip(FILE_URI_PREFIX@.len() as int)))
    } else {
        None
    }
}

/// A request as a tag and the file name it carries.
pub open spec fn request_view(r: ResourceRequest) -> (int, Seq<char>) {
    match r {
        ResourceRequest::Specifications => (0, Seq::empty()),
        ResourceRequest::PatternCatalog => (1, Seq::empty()),
        ResourceRequest::LibraryDocs => (2, Seq::empty()),
        ResourceRequest::LanguageReference => (3, Seq::empty()),
        ResourceRequest::File(f) => (4, f@),
    }
}

/// A resource description.
fn info(uri: &str, name: &str, mime_type: &str, description: &str) -> (r: ResourceInfo)
    ensures
        r.uri@ == uri@,
        r.name@ == name@,
        r.mime_type@ == mime_type@,
        r.description@ == description@,
{
    ResourceInfo {
        uri: String::from_str(uri),
        name: String::from_str(name),
        mime_type: String::from_str(mime_type),
        description: String::from_str(description),
    }
}

impl ResourceHandler {
    /// The resources of `workspace`.
    pub fn new(workspace: &str) -> (r: Self)
        ensures
            r.workspace@ == workspace@,
    {
        ResourceHandler { workspace: String::from_str(workspace) }
    }

    /// The workspace.
    pub fn workspace(&self) -> (r: &str)
        ensures
            r@ == self.workspace@,
    {
        self.workspace.as_str()
    }

    /// What the URI names (see `resource_of`); an error for no resource.
    pub fn resource_request(&self, uri: &str) -> (r: Result<ResourceRequest, String>)
        ensures
            match r {
                Ok(q) => resource_of(uri@) == Some(request_view(q)),
                Err(e) => resource_of(uri@) is None && e@ == "Resource not found: "@ + uri@,
            },
    {
        if str_eq(uri, "hielements://workspace/specifications") {
            Ok(ResourceRequest::Specifications)
        } else if str_eq(uri, "hielements://patterns/catalog") {
            Ok(ResourceRequest::PatternCatalog)
        } else if str_eq(uri, "hielements://libraries/docs") {
            Ok(ResourceRequest::LibraryDocs)
        } else if str_eq(uri, "hielements://docs/language-reference") {
            Ok(ResourceRequest::LanguageReference)
        } else if starts_with_str(uri, FILE_URI_PREFIX) {
            let chars = chars_of(uri);
            let n = chars_of(FILE_URI_PREFIX).len();
            assert(chars@.skip(n as int) =~= chars@.subrange(n as int, chars@.len() as int));
            Ok(ResourceRequest::File(string_from_chars(chars.as_slice(), n, chars.len())))
        } else {
            Err(concat("Resource not found: ", uri))
        }
    }

    /// Whether `filename` may name a specification file: no `..`, `/` or `\`.
    pub fn is_valid_filename(&self, filename: &str) -> (b: bool)
        ensures
            b == !(spec_contains(filename@, ".."@) || spec_contains(filename@, "/"@) || spec_contains(filename@, "\\"@)),
    {
        !(contains_str(filename, "..") || contains_str(filename, "/") || contains_str(filename, "\\"))
    }

    /// The URI of the specification file `name`.
    pub fn file_uri(&self, name: &str) -> (r: String)
        ensures
            r@ == FILE_URI_PREFIX@ + name@,
    {
        concat(FILE_URI_PREFIX, name)
    }

    /// The resources: the specification list, the pattern catalog, the
    /// library documentation, the language reference, and one per
    /// specification file of `spec_files` (names of `.hie` files).
    pub fn list_resources(&self, spec_files: &Vec<String>) -> (r: Vec<ResourceInfo>)
        ensures
            r@.len() == 4 + spec_files@.len(),
            r@[0].uri@ == "hielements://workspace/specifications"@,
            r@[1].uri@ == "hielements://patterns/catalog"@,
            r@[2].uri@ == "hielements://libraries/docs"@,
            r@[3].uri@ == "hielements://docs/language-reference"@,
            forall|i: int| 0 <= i < spec_files@.len() ==> (#[trigger] r@[4 + i]).uri@ == FILE_URI_PREFIX@ + spec_files@[i]@
                && r@[4 + i].name@ == spec_files@[i]@ && r@[4 + i].mime_type@ == "text/x-hielements"@
                && r@[4 + i].description@ == "Hielements specification: "@ + spec_files@[i]@,
    {
        let mut out: Vec<ResourceInfo> = Vec::new();
        out.push(info("hielements://workspace/specifications", "Workspace Specifications", "application/json",
            "List of all .hie files in the workspace"));
        out.push(info("hielements://patterns/catalog", "Pattern Library", "application/json",
            "Available architectural patterns that can be implemented"));
        out.push(info("hielements://libraries/docs", "Library Documentation", "application/json",
            "Documentation for all available Hielements libraries"));
        out.push(info("hielements://docs/language-reference", "Language Reference", "text/markdown",
            "Hielements language syntax and semantics reference"));
        let mut i: usize = 0;
        while i < spec_files.len()
            invariant
                i <= spec_files@.len(),
                out@.len() == 4 + i,
                out@[0].uri@ == "hielements://workspace/specifications"@,
                out@[1].uri@ == "hielements://patterns/catalog"@,
                out@[2].uri@ == "hielements://libraries/docs"@,
                out@[3].uri@ == "hielements://docs/language-reference"@,
                forall|k: int| 0 <= k < i ==> (#[trigger] out@[4 + k]).uri@ == FILE_URI_PREFIX@ + spec_files@[k]@
                    && out@[4 + k].name@ == spec_files@[k]@ && out@[4 + k].mime_type@ == "text/x-hielements"@
                    && out@[4 + k].description@ == "Hielements specification: "@ + spec_files@[k]@,
            decreases spec_files@.len() - i,
        {
            let name = spec_files[i].as_str();
            let uri = concat(FILE_URI_PREFIX, name);
            let desc = concat("Hielements specification: ", name);
            out.push(ResourceInfo {
                uri,
                name: String::from_str(name),
                mime_type: String::from_str("text/x-hielements"),
                description: desc,
            });
            i = i + 1;
        }
        out
    }

    /// The language reference given where the workspace has none.
    pub fn default_language_reference(&self) -> (r: String)
        ensures
            r@ == LANGUAGE_REFERENCE@,
    {
        String::from_str(LANGUAGE_REFERENCE)
    }
}

} // verus!
