//! Documentation of Hielements libraries, rendered as Markdown.

use vstd::prelude::*;
use vstd::string::*;
use crate::text::{str_eq, dash_spaces, ends_with_char, lowercase_of, spec_dash_spaces, spec_ends_with, to_lowercase};

verus! {

/// Documentation for a library function parameter.
#[derive(Debug)]
pub struct ParameterDoc {
    /// Parameter name
    pub name: String,
    /// Parameter type (e.g., "string", "Scope", "integer")
    pub param_type: String,
    /// Human-readable description
    pub description: String,
}

impl ParameterDoc {
    /// Create a new parameter documentation entry.
    pub fn new(name: &str, param_type: &str, description: &str) -> (p: Self)
        ensures
            p.name@ == name@,
            p.param_type@ == param_type@,
            p.description@ == description@,
    {
        ParameterDoc {
            name: String::from_str(name),
            param_type: String::from_str(param_type),
            description: String::from_str(description),
        }
    }
}

/// Documentation for a library function or check.
#[derive(Debug)]
pub struct FunctionDoc {
    /// Function name
    pub name: String,
    /// Human-readable description
    pub description: String,
    /// Parameter documentation
    pub parameters: Vec<ParameterDoc>,
    /// Return type description
    pub return_type: String,
    /// Optional usage example
    pub example: Option<String>,
}

impl FunctionDoc {
    /// Create a new function documentation entry.
    pub fn new(name: &str, description: &str) -> (f: Self)
        ensures
            f.name@ == name@,
            f.description@ == description@,
            f.parameters@.len() == 0,
            f.return_type@.len() == 0,
            f.example is None,
    {
        FunctionDoc {
            name: String::from_str(name),
            description: String::from_str(description),
            parameters: Vec::new(),
            return_type: String::new(),
            example: None,
        }
    }

    /// Add a parameter.
    pub fn with_param(self, name: &str, param_type: &str, description: &str) -> (f: Self)
        ensures
            f.name == self.name,
            f.description == self.description,
            f.return_type == self.return_type,
            f.example == self.example,
            f.parameters@.len() == self.parameters@.len() + 1,
            f.parameters@.drop_last() == self.parameters@,
            f.parameters@.last().name@ == name@,
            f.parameters@.last().param_type@ == param_type@,
            f.parameters@.last().description@ == description@,
    {
        let mut s = self;
        s.parameters.push(ParameterDoc::new(name, param_type, description));
        assert(s.parameters@.drop_last() =~= self.parameters@);
        s
    }

    /// Set the return type.
    pub fn with_return_type(self, return_type: &str) -> (f: Self)
        ensures
            f.name == self.name,
            f.description == self.description,
            f.parameters == self.parameters,
            f.example == self.example,
            f.return_type@ == return_type@,
    {
        let mut s = self;
        s.return_type = String::from_str(return_type);
        s
    }

    /// Set an example.
    pub fn with_example(self, example: &str) -> (f: Self)
        ensures
            f.name == self.name,
            f.description == self.description,
            f.parameters == self.parameters,
            f.return_type == self.return_type,
            f.example is Some && f.example.unwrap()@ == example@,
    {
        let mut s = self;
        s.example = Some(String::from_str(example));
        s
    }
}

/// Complete documentation for a library.
#[derive(Debug)]
pub struct LibraryDoc {
    /// Library name
    pub name: String,
    /// Human-readable description
    pub description: String,
    /// Library version
    pub version: String,
    /// Selector functions documentation
    pub functions: Vec<FunctionDoc>,
    /// Check functions documentation
    pub checks: Vec<FunctionDoc>,
}

impl LibraryDoc {
    /// Create a new library documentation entry, at version 0.1.0.
    pub fn new(name: &str) -> (l: Self)
        ensures
            l.name@ == name@,
            l.description@.len() == 0,
            l.version@ == "0.1.0"@,
            l.functions@.len() == 0,
            l.checks@.len() == 0,
    {
        LibraryDoc {
            name: String::from_str(name),
            description: String::new(),
            version: String::from_str("0.1.0"),
            functions: Vec::new(),
            checks: Vec::new(),
        }
    }

    /// Set description.
    pub fn with_description(self, description: &str) -> (l: Self)
        ensures
            l.name == self.name,
            l.version == self.version,
            l.functions == self.functions,
            l.checks == self.checks,
            l.description@ == description@,
    {
        let mut s = self;
        s.description = String::from_str(description);
        s
    }

    /// Set version.
    pub fn with_version(self, version: &str) -> (l: Self)
        ensures
            l.name == self.name,
            l.description == self.description,
            l.functions == self.functions,
            l.checks == self.checks,
            l.version@ == version@,
    {
        let mut s = self;
        s.version = String::from_str(version);
        s
    }

    /// Add a selector function.
    pub fn with_function(self, func: FunctionDoc) -> (l: Self)
        ensures
            l.name == self.name,
            l.description == self.description,
            l.version == self.version,
            l.checks == self.checks,
            l.functions@ == self.functions@.push(func),
    {
        let mut s = self;
        s.functions.push(func);
        s
    }

    /// Add a check function.
    pub fn with_check(self, check: FunctionDoc) -> (l: Self)
        ensures
            l.name == self.name,
            l.description == self.description,
            l.version == self.version,
            l.functions == self.functions,
            l.checks@ == self.checks@.push(check),
    {
        let mut s = self;
        s.checks.push(check);
        s
    }
}

/// Full documentation catalog containing all libraries.
#[derive(Debug)]
pub struct DocumentationCatalog {
    /// Catalog format version
    pub version: String,
    /// Documentation for each library
    pub libraries: Vec<LibraryDoc>,
}

/// `name: type` for one parameter.
pub open spec fn spec_param_signature(p: ParameterDoc) -> Seq<char> {
    p.name@ + ": "@ + p.param_type@
}

/// The parameter signatures of `ps`, separated by `", "`.
pub open spec fn spec_join_signatures(ps: Seq<ParameterDoc>) -> Seq<char>
    decreases ps.len(),
{
    if ps.len() == 0 {
        Seq::empty()
    } else if ps.len() == 1 {
        spec_param_signature(ps[0])
    } else {
        spec_join_signatures(ps.drop_last()) + ", "@ + spec_param_signature(ps.last())
    }
}

/// One bullet line per parameter: ``- `name` (type): description``.
pub open spec fn spec_param_lines(ps: Seq<ParameterDoc>) -> Seq<char>
    decreases ps.len(),
{
    if ps.len() == 0 {
        Seq::empty()
    } else {
        spec_param_lines(ps.drop_last()) + "- `"@ + ps.last().name@ + "` ("@ + ps.last().param_type@
            + "): "@ + ps.last().description@ + "\n"@
    }
}

/// The signature heading of function `f` of library `lib_name`.
pub open spec fn spec_function_heading(f: FunctionDoc, lib_name: Seq<char>) -> Seq<char> {
    let ret = if f.return_type@.len() == 0 { Seq::<char>::empty() } else { " -> "@ + f.return_type@ };
    "#### `"@ + lib_name + "."@ + f.name@ + "("@ + spec_join_signatures(f.parameters@) + ")"@ + ret + "`\n\n"@
}

/// The description paragraph of `f`, empty when it has none.
pub open spec fn spec_function_description(f: FunctionDoc) -> Seq<char> {
    if f.description@.len() == 0 { Seq::<char>::empty() } else { f.description@ + "\n\n"@ }
}

/// The parameter list of `f`, empty when it has no parameters.
pub open spec fn spec_function_parameters(f: FunctionDoc) -> Seq<char> {
    if f.parameters@.len() == 0 {
        Seq::<char>::empty()
    } else {
        "**Parameters:**\n\n"@ + spec_param_lines(f.parameters@) + "\n"@
    }
}

/// The example block of `f`, empty when it has none; the example always ends
/// with a line break before the closing fence.
pub open spec fn spec_function_example(f: FunctionDoc) -> Seq<char> {
    match f.example {
        Some(e) => "**Example:**\n\n"@ + "```hielements\n"@ + e@ + (if spec_ends_with(e@, '\n') {
            Seq::<char>::empty()
        } else {
            "\n"@
        }) + "```\n\n"@,
        None => Seq::<char>::empty(),
    }
}

/// The Markdown section of one function of library `lib_name`: its
/// signature heading, description, parameter list and example.
pub open spec fn spec_function_markdown(f: FunctionDoc, lib_name: Seq<char>) -> Seq<char> {
    spec_function_heading(f, lib_name) + spec_function_description(f) + spec_function_parameters(f)
        + spec_function_example(f)
}

/// The sections of the functions `fs` of library `lib_name`, in order.
pub open spec fn spec_functions_markdown(fs: Seq<FunctionDoc>, lib_name: Seq<char>) -> Seq<char>
    decreases fs.len(),
{
    if fs.len() == 0 {
        Seq::empty()
    } else {
        spec_functions_markdown(fs.drop_last(), lib_name) + spec_function_markdown(fs.last(), lib_name)
    }
}

/// The heading, description and version lines of a library section.
pub open spec fn spec_library_head(lib: LibraryDoc) -> Seq<char> {
    "## "@ + lib.name@ + "\n\n"@ + (if lib.description@.len() == 0 {
        Seq::<char>::empty()
    } else {
        lib.description@ + "\n\n"@
    }) + (if lib.version@.len() == 0 {
        Seq::<char>::empty()
    } else {
        "**Version:** "@ + lib.version@ + "\n\n"@
    })
}

/// A titled block of function sections, empty when there are none.
pub open spec fn spec_function_block(title: Seq<char>, fs: Seq<FunctionDoc>, lib_name: Seq<char>) -> Seq<char> {
    if fs.len() == 0 {
        Seq::<char>::empty()
    } else {
        title + spec_functions_markdown(fs, lib_name)
    }
}

/// The Markdown section of one library.
pub open spec fn spec_library_markdown(lib: LibraryDoc) -> Seq<char> {
    spec_library_head(lib) + spec_function_block("### Selectors\n\n"@, lib.functions@, lib.name@)
        + spec_function_block("### Checks\n\n"@, lib.checks@, lib.name@) + "---\n\n"@
}

/// One table-of-contents line per library, linking to its lower-case anchor.
pub open spec fn spec_toc(libs: Seq<LibraryDoc>) -> Seq<char>
    decreases libs.len(),
{
    if libs.len() == 0 {
        Seq::empty()
    } else {
        spec_toc(libs.drop_last()) + "- ["@ + libs.last().name@ + "](#"@
            + spec_dash_spaces(lowercase_of(libs.last().name@)) + ")\n"@
    }
}

/// The sections of the libraries `libs`, in order.
pub open spec fn spec_libraries_markdown(libs: Seq<LibraryDoc>) -> Seq<char>
    decreases libs.len(),
{
    if libs.len() == 0 {
        Seq::empty()
    } else {
        spec_libraries_markdown(libs.drop_last()) + spec_library_markdown(libs.last())
    }
}

/// The title of every catalog rendering.
pub open spec fn spec_catalog_title() -> Seq<char> {
    "# Hielements Library Documentation\n\n"@
}

/// The whole catalog: title, introduction, table of contents, then one
/// section per library.
pub open spec fn spec_catalog_markdown(c: DocumentationCatalog) -> Seq<char> {
    spec_catalog_title() + "This catalog documents all available Hielements libraries, their selectors, and checks.\n\n"@
        + "---\n\n"@ + "## Table of Contents\n\n"@ + spec_toc(c.libraries@) + "\n---\n\n"@
        + spec_libraries_markdown(c.libraries@)
}

/// An optional text as an optional sequence of characters.
pub open spec fn opt_str(o: Option<&str>) -> Option<Seq<char>> {
    match o {
        Some(s) => Some(s@),
        None => None,
    }
}

/// The positions, in order, of the libraries of `libs` that `filter`
/// selects: all of them, or those with the name it gives.
pub open spec fn selected_libraries(libs: Seq<LibraryDoc>, filter: Option<Seq<char>>) -> Seq<int>
    decreases libs.len(),
{
    if libs.len() == 0 {
        Seq::empty()
    } else {
        let r = selected_libraries(libs.drop_last(), filter);
        if filter matches Some(f) && libs.last().name@ != f {
            r
        } else {
            r.push(libs.len() - 1)
        }
    }
}

impl DocumentationCatalog {
    /// The positions, in order, of the libraries that `filter` selects:
    /// all of them, or those named as it says.
    pub fn select_libraries(&self, filter: Option<&str>) -> (r: Vec<usize>)
        ensures
            r@.len() == selected_libraries(self.libraries@, opt_str(filter)).len(),
            forall|i: int| 0 <= i < r@.len() ==> r@[i] as int == #[trigger] selected_libraries(self.libraries@, opt_str(filter))[i],
    {
        let mut out: Vec<usize> = Vec::new();
        let mut i: usize = 0;
        while i < self.libraries.len()
            invariant
                i <= self.libraries@.len(),
                out@.len() == selected_libraries(self.libraries@.take(i as int), opt_str(filter)).len(),
                forall|k: int| 0 <= k < out@.len() ==> out@[k] as int == #[trigger] selected_libraries(self.libraries@.take(i as int), opt_str(filter))[k],
            decreases self.libraries@.len() - i,
        {
            proof {
                assert(self.libraries@.take(i + 1).drop_last() =~= self.libraries@.take(i as int));
            }
            let keep = match filter {
                Some(f) => str_eq(self.libraries[i].name.as_str(), f),
                None => true,
            };
            if keep {
                out.push(i);
            }
            i = i + 1;
        }
        assert(self.libraries@.take(self.libraries@.len() as int) =~= self.libraries@);
        out
    }

    /// Create a new empty catalog, at format version 1.0.
    pub fn new() -> (c: Self)
        ensures
            c.version@ == "1.0"@,
            c.libraries@.len() == 0,
    {
        DocumentationCatalog { version: String::from_str("1.0"), libraries: Vec::new() }
    }

    /// Add a library to the catalog.
    pub fn add_library(&mut self, lib: LibraryDoc)
        ensures
            final(self).version == old(self).version,
            final(self).libraries@ == old(self).libraries@.push(lib),
    {
        self.libraries.push(lib);
    }

    /// Generate Markdown representation of the catalog.
    pub fn to_markdown(&self) -> (md: String)
        ensures
            md@ == spec_catalog_markdown(*self),
    {
        let mut md = String::new();
        md.append("# Hielements Library Documentation\n\n");
        md.append("This catalog documents all available Hielements libraries, their selectors, and checks.\n\n");
        md.append("---\n\n");
        md.append("## Table of Contents\n\n");
        let ghost head = md@;
        let mut i: usize = 0;
        while i < self.libraries.len()
            invariant
                i <= self.libraries@.len(),
                md@ == head + spec_toc(self.libraries@.take(i as int)),
            decreases self.libraries@.len() - i,
        {
            assert(self.libraries@.take(i + 1).drop_last() =~= self.libraries@.take(i as int));
            let lib = &self.libraries[i];
            md.append("- [");
            md.append(lib.name.as_str());
            md.append("](#");
            let lower = to_lowercase(lib.name.as_str());
            let anchor = dash_spaces(lower.as_str());
            md.append(anchor.as_str());
            md.append(")\n");
            i = i + 1;
        }
        assert(self.libraries@.take(i as int) =~= self.libraries@);
        md.append("\n---\n\n");
        let ghost mid = md@;
        let mut j: usize = 0;
        while j < self.libraries.len()
            invariant
                j <= self.libraries@.len(),
                md@ == mid + spec_libraries_markdown(self.libraries@.take(j as int)),
            decreases self.libraries@.len() - j,
        {
            assert(self.libraries@.take(j + 1).drop_last() =~= self.libraries@.take(j as int));
            let part = generate_library_markdown(&self.libraries[j]);
            md.append(part.as_str());
            j = j + 1;
        }
        assert(self.libraries@.take(j as int) =~= self.libraries@);
        md
    }
}

impl Default for DocumentationCatalog {
    fn default() -> (c: Self)
        ensures
            c.version@ == "1.0"@,
            c.libraries@.len() == 0,
    {
        Self::new()
    }
}

/// The sections of `fs` for library `lib_name`, appended to `md`.
fn append_functions_markdown(md: &mut String, fs: &Vec<FunctionDoc>, lib_name: &String)
    ensures
        final(md)@ == old(md)@ + spec_functions_markdown(fs@, lib_name@),
{
    let ghost start = md@;
    let mut i: usize = 0;
    while i < fs.len()
        invariant
            i <= fs@.len(),
            md@ == start + spec_functions_markdown(fs@.take(i as int), lib_name@),
        decreases fs@.len() - i,
    {
        assert(fs@.take(i + 1).drop_last() =~= fs@.take(i as int));
        let part = generate_function_markdown(&fs[i], lib_name.as_str());
        md.append(part.as_str());
        i = i + 1;
    }
    assert(fs@.take(i as int) =~= fs@);
}

/// A titled block of function sections, empty when there are none.
fn function_block(title: &str, fs: &Vec<FunctionDoc>, lib_name: &String) -> (md: String)
    ensures
        md@ == spec_function_block(title@, fs@, lib_name@),
{
    let mut md = String::new();
    if fs.len() != 0 {
        md.append(title);
        append_functions_markdown(&mut md, fs, lib_name);
    }
    md
}

/// The heading, description and version lines of a library section.
fn library_head(lib: &LibraryDoc) -> (md: String)
    ensures
        md@ == spec_library_head(*lib),
{
    let mut md = String::new();
    md.append("## ");
    md.append(lib.name.as_str());
    md.append("\n\n");
    let ghost h = md@;
    let mut d = String::new();
    if !is_empty_string(&lib.description) {
        d.append(lib.description.as_str());
        d.append("\n\n");
    }
    let mut v = String::new();
    if !is_empty_string(&lib.version) {
        v.append("**Version:** ");
        v.append(lib.version.as_str());
        v.append("\n\n");
    }
    md.append(d.as_str());
    md.append(v.as_str());
    md
}

/// Generate Markdown documentation for a single library.
pub fn generate_library_markdown(lib: &LibraryDoc) -> (md: String)
    ensures
        md@ == spec_library_markdown(*lib),
{
    let mut md = library_head(lib);
    let sel = function_block("### Selectors\n\n", &lib.functions, &lib.name);
    let chk = function_block("### Checks\n\n", &lib.checks, &lib.name);
    md.append(sel.as_str());
    md.append(chk.as_str());
    md.append("---\n\n");
    md
}

/// Whether `s` has no characters.
fn is_empty_string(s: &String) -> (b: bool)
    ensures
        b == (s@.len() == 0),
{
    s.as_str().unicode_len() == 0
}

/// The signature heading of `func`.
fn function_heading(func: &FunctionDoc, lib_name: &str) -> (md: String)
    ensures
        md@ == spec_function_heading(*func, lib_name@),
{
    let mut md = String::new();
    md.append("#### `");
    md.append(lib_name);
    md.append(".");
    md.append(func.name.as_str());
    md.append("(");
    let ghost before_params = md@;
    let mut i: usize = 0;
    while i < func.parameters.len()
        invariant
            i <= func.parameters@.len(),
            md@ == before_params + spec_join_signatures(func.parameters@.take(i as int)),
        decreases func.parameters@.len() - i,
    {
        assert(func.parameters@.take(i + 1).drop_last() =~= func.parameters@.take(i as int));
        let ghost pre = md@;
        if i > 0 {
            md.append(", ");
        }
        let p = &func.parameters[i];
        md.append(p.name.as_str());
        md.append(": ");
        md.append(p.param_type.as_str());
        proof {
            let ps = func.parameters@.take(i + 1);
            assert(ps.last() == func.parameters@[i as int]);
            if i == 0 {
                assert(spec_join_signatures(ps) == spec_param_signature(ps[0]));
                assert(md@ =~= before_params + spec_join_signatures(ps));
            } else {
                assert(md@ =~= before_params + spec_join_signatures(ps));
            }
        }
        i = i + 1;
    }
    assert(func.parameters@.take(i as int) =~= func.parameters@);
    md.append(")");
    let mut ret = String::new();
    if !is_empty_string(&func.return_type) {
        ret.append(" -> ");
        ret.append(func.return_type.as_str());
    }
    md.append(ret.as_str());
    md.append("`\n\n");
    md
}

/// The parameter list of `func`.
fn function_parameters(func: &FunctionDoc) -> (md: String)
    ensures
        md@ == spec_function_parameters(*func),
{
    let mut md = String::new();
    if func.parameters.len() != 0 {
        md.append("**Parameters:**\n\n");
        let ghost before_lines = md@;
        let mut j: usize = 0;
        while j < func.parameters.len()
            invariant
                j <= func.parameters@.len(),
                md@ == before_lines + spec_param_lines(func.parameters@.take(j as int)),
            decreases func.parameters@.len() - j,
        {
            assert(func.parameters@.take(j + 1).drop_last() =~= func.parameters@.take(j as int));
            let p = &func.parameters[j];
            md.append("- `");
            md.append(p.name.as_str());
            md.append("` (");
            md.append(p.param_type.as_str());
            md.append("): ");
            md.append(p.description.as_str());
            md.append("\n");
            j = j + 1;
        }
        assert(func.parameters@.take(j as int) =~= func.parameters@);
        md.append("\n");
    }
    md
}

/// The example block of `func`.
fn function_example(func: &FunctionDoc) -> (md: String)
    ensures
        md@ == spec_function_example(*func),
{
    let mut md = String::new();
    match &func.example {
        Some(example) => {
            md.append("**Example:**\n\n");
            md.append("```hielements\n");
            md.append(example.as_str());
            let mut nl = String::new();
            if !ends_with_char(example.as_str(), '\n') {
                nl.append("\n");
            }
            md.append(nl.as_str());
            md.append("```\n\n");
        },
        None => {},
    }
    md
}

/// Generate Markdown documentation for a single function or check.
pub fn generate_function_markdown(func: &FunctionDoc, lib_name: &str) -> (md: String)
    ensures
        md@ == spec_function_markdown(*func, lib_name@),
{
    let mut md = function_heading(func, lib_name);
    let mut desc = String::new();
    if !is_empty_string(&func.description) {
        desc.append(func.description.as_str());
        desc.append("\n\n");
    }
    let params = function_parameters(func);
    let example = function_example(func);
    md.append(desc.as_str());
    md.append(params.as_str());
    md.append(example.as_str());
    md
}

/// Every rendering of a catalog starts with the catalog title.
pub proof fn law_catalog_starts_with_title(c: DocumentationCatalog)
    ensures
        spec_catalog_markdown(c).take(spec_catalog_title().len() as int) == spec_catalog_title(),
{
    let t = spec_catalog_title();
    let rest = spec_catalog_markdown(c).skip(t.len() as int);
    assert(spec_catalog_markdown(c) =~= t + rest);
    assert((t + rest).take(t.len() as int) =~= t);
}

} // verus!
