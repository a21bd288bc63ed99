//! A JSON document model, and the conversions between JSON and library
//! values that external and WebAssembly libraries speak.

use vstd::prelude::*;
use crate::stdlib::{Value, FloatValue, Scope, ScopeKind, CheckResult, LibraryError};
use crate::text::{concat, str_eq, to_lowercase, lowercase_of, int_text, i64_text};

verus! {

/// A JSON document.
#[derive(Debug)]
pub enum Json {
    Null,
    Bool(bool),
    /// A number that fits an `i64`
    Int(i64),
    /// Any other number: its text and the integer it truncates to
    Float(FloatValue),
    Str(String),
    Array(Vec<Json>),
    /// An object's members, in order; no key occurs twice
    Object(Vec<(String, Json)>),
}

/// The value of the first member named `key`.
pub open spec fn obj_get(members: Seq<(String, Json)>, key: Seq<char>) -> Option<Json>
    decreases members.len(),
{
    if members.len() == 0 {
        None
    } else if members[0].0@ == key {
        Some(members[0].1)
    } else {
        obj_get(members.drop_first(), key)
    }
}

/// The text of a JSON string, or the empty text for anything else.
pub open spec fn str_or_empty(j: Option<Json>) -> Seq<char> {
    match j {
        Some(Json::Str(s)) => s@,
        _ => Seq::empty(),
    }
}

/// Whether `j` is an object with the one member `key`, whose value is `inner`.
pub open spec fn tagged(j: Json, key: Seq<char>, inner: Json) -> bool {
    j matches Json::Object(m) && m@.len() == 1 && m@[0].0@ == key && m@[0].1 == inner
}

/// Whether `j` is an object with the one member `key`.
pub open spec fn tagged_any(j: Json, key: Seq<char>) -> bool {
    j matches Json::Object(m) && m@.len() == 1 && m@[0].0@ == key
}

/// The value of the one member of `j`.
pub open spec fn tag_value(j: Json) -> Json
    recommends
        j is Object,
{
    match j {
        Json::Object(m) => m@[0].1,
        _ => Json::Null,
    }
}

/// Whether `j` encodes the scope kind `kind`.
pub open spec fn encodes_kind(kind: ScopeKind, j: Json) -> bool {
    match kind {
        ScopeKind::File(s) => tagged(j, "File"@, Json::Str(s)),
        ScopeKind::Folder(s) => tagged(j, "Folder"@, Json::Str(s)),
        ScopeKind::Glob(s) => tagged(j, "Glob"@, Json::Str(s)),
    }
}

/// Whether `j` is an array of the strings `paths`.
pub open spec fn encodes_strings(paths: Seq<String>, j: Json) -> bool {
    j matches Json::Array(a) && a@.len() == paths.len()
        && forall|k: int| 0 <= k < paths.len() ==> a@[k] == Json::Str(#[trigger] paths[k])
}

/// Whether `j` is the JSON encoding of `v`: scalars as themselves, every
/// other value as an object with one member named after its kind.
pub open spec fn encodes(v: Value, j: Json) -> bool
    decreases v,
{
    match v {
        Value::Null => j == Json::Null,
        Value::Bool(b) => j == Json::Bool(b),
        Value::Int(i) => tagged(j, "Int"@, Json::Int(i)),
        Value::Float(f) => tagged(j, "Float"@, Json::Float(f)),
        Value::String(s) => tagged(j, "String"@, Json::Str(s)),
        Value::List(items) => tagged_any(j, "List"@) && (tag_value(j) matches Json::Array(a)
            && a@.len() == items@.len()
            && forall|k: int| 0 <= k < items@.len() ==> encodes(#[trigger] items@[k], a@[k])),
        Value::Scope(s) => tagged_any(j, "Scope"@) && (tag_value(j) matches Json::Object(m)
            && m@.len() == 3
            && m@[0].0@ == "kind"@ && encodes_kind(s.kind, m@[0].1)
            && m@[1].0@ == "paths"@ && encodes_strings(s.paths@, m@[1].1)
            && m@[2].0@ == "resolved"@ && m@[2].1 == Json::Bool(s.resolved)),
        Value::ConnectionPoint(cp) => tagged_any(j, "ConnectionPoint"@) && (tag_value(j) matches Json::Object(m)
            && m@.len() == 3
            && m@[0].0@ == "name"@ && m@[0].1 == Json::Str(cp.name)
            && m@[1].0@ == "kind"@ && m@[1].1 == Json::Str(cp.kind)
            && m@[2].0@ == "data"@ && (m@[2].1 matches Json::Object(d) && d@.len() == 0)),
    }
}

/// An object with the one member `key: inner`.
fn tag(key: &str, inner: Json) -> (j: Json)
    ensures
        tagged(j, key@, inner),
{
    let mut m: Vec<(String, Json)> = Vec::new();
    m.push((String::from_str(key), inner));
    Json::Object(m)
}

/// The JSON encoding of a value.
#[verifier::loop_isolation(false)]
pub fn value_to_json(value: &Value) -> (j: Json)
    ensures
        encodes(*value, j),
    decreases value,
{
    proof {
        reveal_strlit("Int");
        reveal_strlit("Float");
        reveal_strlit("String");
        reveal_strlit("List");
        reveal_strlit("Scope");
        reveal_strlit("kind");
        reveal_strlit("paths");
        reveal_strlit("resolved");
        reveal_strlit("File");
        reveal_strlit("Folder");
        reveal_strlit("Glob");
        reveal_strlit("ConnectionPoint");
        reveal_strlit("name");
        reveal_strlit("data");
    }
    match value {
        Value::Null => Json::Null,
        Value::Bool(b) => Json::Bool(*b),
        Value::Int(i) => tag("Int", Json::Int(*i)),
        Value::Float(f) => tag("Float", Json::Float(f.clone())),
        Value::String(s) => tag("String", Json::Str(s.clone())),
        Value::List(items) => {
            let mut a: Vec<Json> = Vec::new();
            let mut i: usize = 0;
            while i < items.len()
                invariant
                    i <= items@.len(),
                    a@.len() == i,
                    forall|k: int| 0 <= k < i ==> encodes(#[trigger] items@[k], a@[k]),
                decreases items@.len() - i,
            {
                proof {
                    assert(decreases_to!(*items => items[i as int]));
                }
                let e = value_to_json(&items[i]);
                a.push(e);
                i = i + 1;
            }
            tag("List", Json::Array(a))
        },
        Value::Scope(s) => {
            let kind = match &s.kind {
                ScopeKind::File(p) => tag("File", Json::Str(p.clone())),
                ScopeKind::Folder(p) => tag("Folder", Json::Str(p.clone())),
                ScopeKind::Glob(p) => tag("Glob", Json::Str(p.clone())),
            };
            let mut paths: Vec<Json> = Vec::new();
            let mut i: usize = 0;
            while i < s.paths.len()
                invariant
                    i <= s.paths@.len(),
                    paths@.len() == i,
                    forall|k: int| 0 <= k < i ==> paths@[k] == Json::Str(#[trigger] s.paths@[k]),
                decreases s.paths@.len() - i,
            {
                paths.push(Json::Str(s.paths[i].clone()));
                i = i + 1;
            }
            let mut m: Vec<(String, Json)> = Vec::new();
            m.push((String::from_str("kind"), kind));
            m.push((String::from_str("paths"), Json::Array(paths)));
            m.push((String::from_str("resolved"), Json::Bool(s.resolved)));
            tag("Scope", Json::Object(m))
        },
        Value::ConnectionPoint(cp) => {
            let mut m: Vec<(String, Json)> = Vec::new();
            m.push((String::from_str("name"), Json::Str(cp.name.clone())));
            m.push((String::from_str("kind"), Json::Str(cp.kind.clone())));
            m.push((String::from_str("data"), Json::Object(Vec::new())));
            tag("ConnectionPoint", Json::Object(m))
        },
    }
}

/// The index of the first member at or after `i` named `key`, or -1.
pub open spec fn key_index_from(m: Seq<(String, Json)>, key: Seq<char>, i: int) -> int
    decreases m.len() - i,
{
    if i < 0 || i >= m.len() {
        -1
    } else if m[i].0@ == key {
        i
    } else {
        key_index_from(m, key, i + 1)
    }
}

/// The index of the first member named `key`, or -1.
pub open spec fn key_index(m: Seq<(String, Json)>, key: Seq<char>) -> int {
    key_index_from(m, key, 0)
}

/// The value of the first member named `key`.
pub open spec fn member(m: Seq<(String, Json)>, key: Seq<char>) -> Option<Json> {
    let i = key_index(m, key);
    if 0 <= i < m.len() { Some(m[i].1) } else { None }
}

proof fn lemma_key_index_from(m: Seq<(String, Json)>, key: Seq<char>, i: int)
    requires
        0 <= i,
    ensures
        key_index_from(m, key, i) == -1 || (i <= key_index_from(m, key, i) < m.len()
            && m[key_index_from(m, key, i)].0@ == key),
        key_index_from(m, key, i) == -1 ==> forall|k: int| i <= k < m.len() ==> m[k].0@ != key,
        key_index_from(m, key, i) != -1 ==> forall|k: int| i <= k < key_index_from(m, key, i) ==> m[k].0@ != key,
    decreases m.len() - i,
{
    if i < m.len() && m[i].0@ != key {
        lemma_key_index_from(m, key, i + 1);
    }
}

/// The index of the first member of `m` named `key`.
fn find_key(m: &Vec<(String, Json)>, key: &str) -> (r: Option<usize>)
    ensures
        match r {
            Some(i) => i as int == key_index(m@, key@) && i < m@.len(),
            None => key_index(m@, key@) == -1,
        },
{
    let mut i: usize = 0;
    while i < m.len()
        invariant
            i <= m@.len(),
            key_index_from(m@, key@, i as int) == key_index(m@, key@),
        decreases m@.len() - i,
    {
        if str_eq(m[i].0.as_str(), key) {
            return Some(i);
        }
        i = i + 1;
    }
    None
}

/// The member of `m` named `key`.
fn get<'a>(m: &'a Vec<(String, Json)>, key: &str) -> (r: Option<&'a Json>)
    ensures
        match r {
            Some(j) => member(m@, key@) == Some(*j),
            None => member(m@, key@) is None,
        },
{
    proof {
        lemma_key_index_from(m@, key@, 0);
    }
    match find_key(m, key) {
        Some(i) => Some(&m[i].1),
        None => None,
    }
}

/// The text of a JSON string (`Value::as_str`, defaulting to the empty text).
fn text_or_empty(j: Option<&Json>) -> (r: String)
    ensures
        r@ == str_or_empty(match j { Some(x) => Some(*x), None => None }),
{
    match j {
        Some(Json::Str(s)) => s.clone(),
        _ => String::new(),
    }
}

/// What `{"Float": x}` decodes to: the number `x`, or zero.
pub open spec fn decodes_float(x: Option<Json>, f: FloatValue) -> bool {
    match x {
        Some(Json::Float(g)) => f == g,
        Some(Json::Int(i)) => f.text@ == int_text(i as int) && f.truncated == i,
        _ => f.text@ == seq!['0'] && f.truncated == 0,
    }
}

/// The strings among `a`, in order.
pub open spec fn strings_in(a: Seq<Json>) -> Seq<Seq<char>>
    decreases a.len(),
{
    if a.len() == 0 {
        Seq::empty()
    } else {
        let rest = strings_in(a.drop_last());
        match a.last() {
            Json::Str(s) => rest.push(s@),
            _ => rest,
        }
    }
}

/// The kind of a scope as a tag (file, folder, glob) and its text.
pub open spec fn kind_view(k: ScopeKind) -> (int, Seq<char>) {
    match k {
        ScopeKind::File(s) => (0, s@),
        ScopeKind::Folder(s) => (1, s@),
        ScopeKind::Glob(s) => (2, s@),
    }
}

/// The scope kind that the member `kind` of a scope object describes; a
/// file with an empty name where it describes none.
pub open spec fn decoded_kind(k: Option<Json>) -> (int, Seq<char>) {
    match k {
        Some(Json::Object(km)) => if member(km@, "File"@) is Some {
            (0, str_or_empty(member(km@, "File"@)))
        } else if member(km@, "Folder"@) is Some {
            (1, str_or_empty(member(km@, "Folder"@)))
        } else if member(km@, "Glob"@) is Some {
            (2, str_or_empty(member(km@, "Glob"@)))
        } else {
            (0, Seq::empty())
        },
        _ => (0, Seq::empty()),
    }
}

/// Whether `s` is the scope that the scope object with members `sm` describes.
pub open spec fn decodes_scope(sm: Seq<(String, Json)>, s: Scope) -> bool {
    &&& kind_view(s.kind) == decoded_kind(member(sm, "kind"@))
    &&& s.paths@.map_values(|p: String| p@) == strings_in(match member(sm, "paths"@) {
        Some(Json::Array(a)) => a@,
        _ => Seq::empty(),
    })
    &&& s.resolved == match member(sm, "resolved"@) {
        Some(Json::Bool(b)) => b,
        _ => false,
    }
}

/// Whether an object with members `m` names a scalar kind (`String`,
/// `Int`, `Float` or `Bool`).
pub open spec fn names_scalar(m: Seq<(String, Json)>) -> bool {
    member(m, "String"@) is Some || member(m, "Int"@) is Some || member(m, "Float"@) is Some
        || member(m, "Bool"@) is Some
}

/// Whether `j` can be turned into a value: any JSON but an array, where an
/// object must name its kind, and a list's items must all be decodable.
pub open spec fn decodable(j: Json) -> bool
    decreases j,
{
    match j {
        Json::Array(_) => false,
        Json::Object(m) => {
            if names_scalar(m@) {
                true
            } else {
                let i = key_index(m@, "List"@);
                if 0 <= i < m@.len() && m@[i].1 is Array {
                    match m@[i].1 {
                        Json::Array(items) => forall|k: int| 0 <= k < items@.len() ==> decodable(#[trigger] items@[k]),
                        _ => false,
                    }
                } else {
                    member(m@, "Scope"@) matches Some(Json::Object(_))
                }
            }
        },
        _ => true,
    }
}

/// Whether `v` is what `j` decodes to.
pub open spec fn decodes(j: Json, v: Value) -> bool
    decreases j,
{
    match j {
        Json::Null => v == Value::Null,
        Json::Bool(b) => v == Value::Bool(b),
        Json::Int(i) => v == Value::Int(i),
        Json::Float(f) => v == Value::Float(f),
        Json::Str(s) => v == Value::String(s),
        Json::Array(_) => false,
        Json::Object(m) => {
            if member(m@, "String"@) is Some {
                v matches Value::String(s) && s@ == str_or_empty(member(m@, "String"@))
            } else if member(m@, "Int"@) is Some {
                v == Value::Int(match member(m@, "Int"@) { Some(Json::Int(i)) => i, _ => 0 })
            } else if member(m@, "Float"@) is Some {
                v matches Value::Float(f) && decodes_float(member(m@, "Float"@), f)
            } else if member(m@, "Bool"@) is Some {
                v == Value::Bool(match member(m@, "Bool"@) { Some(Json::Bool(b)) => b, _ => false })
            } else {
                let i = key_index(m@, "List"@);
                if 0 <= i < m@.len() && m@[i].1 is Array {
                    match m@[i].1 {
                        Json::Array(items) => v matches Value::List(vs) && vs@.len() == items@.len()
                            && forall|k: int| 0 <= k < items@.len() ==> decodes(#[trigger] items@[k], vs@[k]),
                        _ => false,
                    }
                } else {
                    match member(m@, "Scope"@) {
                        Some(Json::Object(sm)) => v matches Value::Scope(s) && decodes_scope(sm@, s),
                        _ => false,
                    }
                }
            }
        },
    }
}

/// The index of the first item at or after `k` that is not decodable, or -1.
pub open spec fn first_bad_from(items: Seq<Json>, k: int) -> int
    decreases items.len() - k,
{
    if k < 0 || k >= items.len() {
        -1
    } else if !decodable(items[k]) {
        k
    } else {
        first_bad_from(items, k + 1)
    }
}

/// The part of `j` that cannot be decoded: the first undecodable item of a
/// list, followed down, or else `j` itself.
pub open spec fn blame(j: Json) -> Json
    decreases j,
{
    match j {
        Json::Object(m) => {
            if names_scalar(m@) {
                j
            } else {
                let i = key_index(m@, "List"@);
                if 0 <= i < m@.len() && m@[i].1 is Array {
                    match m@[i].1 {
                        Json::Array(items) => {
                            let b = first_bad_from(items@, 0);
                            if 0 <= b < items@.len() { blame(items@[b]) } else { j }
                        },
                        _ => j,
                    }
                } else {
                    j
                }
            }
        },
        _ => j,
    }
}


proof fn lemma_first_bad_from(items: Seq<Json>, k: int)
    requires
        0 <= k,
    ensures
        first_bad_from(items, k) == -1 <==> forall|i: int| k <= i < items.len() ==> decodable(#[trigger] items[i]),
        first_bad_from(items, k) != -1 ==> k <= first_bad_from(items, k) < items.len(),
    decreases items.len() - k,
{
    if k < items.len() && decodable(items[k]) {
        lemma_first_bad_from(items, k + 1);
        assert forall|i: int| k <= i < items.len() && first_bad_from(items, k + 1) == -1 implies decodable(#[trigger] items[i]) by {
            if i > k {
            }
        }
    }
}

/// The scope that a scope object with members `sm` describes.
fn scope_from_members(sm: &Vec<(String, Json)>) -> (s: Scope)
    ensures
        decodes_scope(sm@, s),
{
    proof {
        reveal_strlit("kind");
        reveal_strlit("paths");
        reveal_strlit("resolved");
        reveal_strlit("File");
        reveal_strlit("Folder");
        reveal_strlit("Glob");
    }
    let kind = match get(sm, "kind") {
        Some(Json::Object(km)) => {
            if get(km, "File").is_some() {
                ScopeKind::File(text_or_empty(get(km, "File")))
            } else if get(km, "Folder").is_some() {
                ScopeKind::Folder(text_or_empty(get(km, "Folder")))
            } else if get(km, "Glob").is_some() {
                ScopeKind::Glob(text_or_empty(get(km, "Glob")))
            } else {
                ScopeKind::File(String::new())
            }
        },
        _ => ScopeKind::File(String::new()),
    };
    let mut paths: Vec<String> = Vec::new();
    match get(sm, "paths") {
        Some(Json::Array(a)) => {
            let mut i: usize = 0;
            while i < a.len()
                invariant
                    i <= a@.len(),
                    paths@.map_values(|p: String| p@) == strings_in(a@.take(i as int)),
                decreases a@.len() - i,
            {
                let ghost before = paths@;
                assert(a@.take(i + 1).drop_last() =~= a@.take(i as int));
                match &a[i] {
                    Json::Str(t) => {
                        paths.push(t.clone());
                        assert(paths@.map_values(|p: String| p@) =~= before.map_values(|p: String| p@).push(t@));
                    },
                    _ => {},
                }
                i = i + 1;
            }
            assert(a@.take(i as int) =~= a@);
        },
        _ => {
            assert(paths@.map_values(|p: String| p@) =~= Seq::<Seq<char>>::empty());
        },
    }
    let resolved = match get(sm, "resolved") {
        Some(Json::Bool(b)) => *b,
        _ => false,
    };
    Scope { kind, paths, resolved }
}

/// Convert JSON to a value. Scalars convert to themselves; an object names
/// its kind by its member `String`, `Int`, `Float`, `Bool`, `List` or
/// `Scope` (tried in that order). On failure the part of `json` that could
/// not be converted is returned.
#[verifier::loop_isolation(false)]
pub fn json_to_value<'a>(json: &'a Json) -> (r: Result<Value, &'a Json>)
    ensures
        r is Ok <==> decodable(*json),
        r matches Ok(v) ==> decodes(*json, v),
        r matches Err(b) ==> *b == blame(*json),
    decreases json,
{
    proof {
        reveal_strlit("String");
        reveal_strlit("Int");
        reveal_strlit("Float");
        reveal_strlit("Bool");
        reveal_strlit("List");
        reveal_strlit("Scope");
        reveal_strlit("0");
    }
    match json {
        Json::Null => Ok(Value::Null),
        Json::Bool(b) => Ok(Value::Bool(*b)),
        Json::Int(i) => Ok(Value::Int(*i)),
        Json::Float(f) => Ok(Value::Float(f.clone())),
        Json::Str(s) => Ok(Value::String(s.clone())),
        Json::Array(_) => Err(json),
        Json::Object(m) => {
            if get(m, "String").is_some() {
                return Ok(Value::String(text_or_empty(get(m, "String"))));
            }
            if get(m, "Int").is_some() {
                let i = match get(m, "Int") {
                    Some(Json::Int(i)) => *i,
                    _ => 0,
                };
                return Ok(Value::Int(i));
            }
            if get(m, "Float").is_some() {
                let f = match get(m, "Float") {
                    Some(Json::Float(g)) => g.clone(),
                    Some(Json::Int(i)) => FloatValue { text: i64_text(*i), truncated: *i },
                    _ => {
                        let z = FloatValue { text: String::from_str("0"), truncated: 0 };
                        assert(z.text@ =~= seq!['0']);
                        z
                    },
                };
                assert(decodes_float(member(m@, "Float"@), f));
                return Ok(Value::Float(f));
            }
            if get(m, "Bool").is_some() {
                let b = match get(m, "Bool") {
                    Some(Json::Bool(b)) => *b,
                    _ => false,
                };
                return Ok(Value::Bool(b));
            }
            proof {
                lemma_key_index_from(m@, "List"@, 0);
            }
            match find_key(m, "List") {
                Some(li) => {
                    match &m[li].1 {
                        Json::Array(items) => {
                            let mut values: Vec<Value> = Vec::new();
                            let mut k: usize = 0;
                            while k < items.len()
                                invariant
                                    k <= items@.len(),
                                    values@.len() == k,
                                    forall|q: int| 0 <= q < k ==> decodable(#[trigger] items@[q]),
                                    forall|q: int| 0 <= q < k ==> decodes(#[trigger] items@[q], values@[q]),
                                decreases items@.len() - k,
                            {
                                proof {
                                    assert(decreases_to!(*items => items[k as int]));
                                }
                                match json_to_value(&items[k]) {
                                    Ok(v) => values.push(v),
                                    Err(b) => {
                                        proof {
                                            lemma_first_bad_from(items@, 0);
                                            assert(first_bad_from(items@, 0) == first_bad_from(items@, k as int)) by {
                                                lemma_first_bad_prefix(items@, k as int);
                                            }
                                        }
                                        return Err(b);
                                    },
                                }
                                k = k + 1;
                            }
                            return Ok(Value::List(values));
                        },
                        _ => {},
                    }
                },
                None => {},
            }
            match get(m, "Scope") {
                Some(Json::Object(sm)) => Ok(Value::Scope(scope_from_members(sm))),
                _ => Err(json),
            }
        },
    }
}

proof fn lemma_first_bad_prefix(items: Seq<Json>, k: int)
    requires
        0 <= k <= items.len(),
        forall|q: int| 0 <= q < k ==> decodable(#[trigger] items[q]),
    ensures
        first_bad_from(items, 0) == first_bad_from(items, k),
    decreases k,
{
    if k > 0 {
        lemma_first_bad_prefix_step(items, 0, k);
    }
}

proof fn lemma_first_bad_prefix_step(items: Seq<Json>, j: int, k: int)
    requires
        0 <= j <= k <= items.len(),
        forall|q: int| j <= q < k ==> decodable(#[trigger] items[q]),
    ensures
        first_bad_from(items, j) == first_bad_from(items, k),
    decreases k - j,
{
    if j < k {
        assert(decodable(items[j]));
        lemma_first_bad_prefix_step(items, j + 1, k);
    }
}


/// A check result as a tag (0 pass, 1 fail, 2 error) and its message.
pub open spec fn check_view(r: CheckResult) -> (int, Seq<char>) {
    match r {
        CheckResult::Pass => (0, Seq::empty()),
        CheckResult::Fail(m) => (1, m@),
        CheckResult::Error(m) => (2, m@),
    }
}

/// Whether `j` is a JSON string with the text `t`.
pub open spec fn is_text(j: Option<Json>, t: Seq<char>) -> bool {
    j matches Some(Json::Str(s)) && s@ == t
}

/// The member `message` of an object, or `default` where it is no string.
pub open spec fn message_or(m: Seq<(String, Json)>, default: Seq<char>) -> Seq<char> {
    match member(m, "message"@) {
        Some(Json::Str(t)) => t@,
        _ => default,
    }
}

/// The check result that `j` describes, if any. An object says `Pass`,
/// `Fail` or `Error` by a member of that name, or by a member `result`
/// (`"pass"`, `"fail"` or `"error"`) and an optional `message`. Where
/// `accept_text` holds, a plain string also answers: `pass`, `ok` or `true`
/// (in any case) pass, `fail` or `false` fail, any other text fails with
/// that text as its message.
pub open spec fn check_result_of(j: Json, accept_text: bool) -> Option<(int, Seq<char>)> {
    match j {
        Json::Object(m) => {
            let res = member(m@, "result"@);
            if member(m@, "Pass"@) is Some || is_text(res, "pass"@) {
                Some((0, Seq::empty()))
            } else if member(m@, "Fail"@) is Some {
                Some((1, str_or_empty(member(m@, "Fail"@))))
            } else if member(m@, "Error"@) is Some {
                Some((2, str_or_empty(member(m@, "Error"@))))
            } else if is_text(res, "fail"@) {
                Some((1, message_or(m@, "Check failed"@)))
            } else if is_text(res, "error"@) {
                Some((2, message_or(m@, "Check error"@)))
            } else {
                None
            }
        },
        Json::Str(s) => {
            if !accept_text {
                None
            } else {
                let l = lowercase_of(s@);
                if l == "pass"@ || l == "ok"@ || l == "true"@ {
                    Some((0, Seq::empty()))
                } else if l == "fail"@ || l == "false"@ {
                    Some((1, "Check failed"@))
                } else {
                    Some((1, s@))
                }
            }
        },
        _ => None,
    }
}

/// Convert JSON to a check result (see `check_result_of`); `None` where it
/// describes none.
pub fn json_to_check_result(json: &Json, accept_text: bool) -> (r: Option<CheckResult>)
    ensures
        match r {
            Some(c) => check_result_of(*json, accept_text) == Some(check_view(c)),
            None => check_result_of(*json, accept_text) is None,
        },
{
    proof {
        reveal_strlit("result");
        reveal_strlit("Pass");
        reveal_strlit("Fail");
        reveal_strlit("Error");
        reveal_strlit("message");
    }
    match json {
        Json::Object(m) => {
            let res = get(m, "result");
            let res_text: Option<&str> = match res {
                Some(Json::Str(s)) => Some(s.as_str()),
                _ => None,
            };
            let is_pass_text = match res_text {
                Some(t) => str_eq(t, "pass"),
                None => false,
            };
            proof {
                reveal_strlit("pass");
            }
            if get(m, "Pass").is_some() || is_pass_text {
                return Some(CheckResult::Pass);
            }
            if get(m, "Fail").is_some() {
                return Some(CheckResult::Fail(text_or_empty(get(m, "Fail"))));
            }
            if get(m, "Error").is_some() {
                return Some(CheckResult::Error(text_or_empty(get(m, "Error"))));
            }
            match res_text {
                Some(t) => {
                    proof {
                        reveal_strlit("fail");
                        reveal_strlit("error");
                    }
                    if str_eq(t, "fail") {
                        let msg = match get(m, "message") {
                            Some(Json::Str(x)) => x.clone(),
                            _ => String::from_str("Check failed"),
                        };
                        return Some(CheckResult::Fail(msg));
                    }
                    if str_eq(t, "error") {
                        let msg = match get(m, "message") {
                            Some(Json::Str(x)) => x.clone(),
                            _ => String::from_str("Check error"),
                        };
                        return Some(CheckResult::Error(msg));
                    }
                    None
                },
                None => None,
            }
        },
        Json::Str(s) => {
            if !accept_text {
                return None;
            }
            let l = to_lowercase(s.as_str());
            proof {
                reveal_strlit("pass");
                reveal_strlit("ok");
                reveal_strlit("true");
                reveal_strlit("fail");
                reveal_strlit("false");
                reveal_strlit("Check failed");
            }
            if str_eq(l.as_str(), "pass") || str_eq(l.as_str(), "ok") || str_eq(l.as_str(), "true") {
                Some(CheckResult::Pass)
            } else if str_eq(l.as_str(), "fail") || str_eq(l.as_str(), "false") {
                Some(CheckResult::Fail(String::from_str("Check failed")))
            } else {
                Some(CheckResult::Fail(s.clone()))
            }
        },
        _ => None,
    }
}

/// What the reply of an external library process stands for, given its
/// error member (the error's code and message, where the reply has a
/// non-null one) and its result member: the error as a library error with
/// the code `E<code>`; else the result, where there is one and it is not
/// null; else the error E507.
pub fn rpc_outcome(error: Option<(i64, String)>, result: Option<Json>) -> (r: Result<Json, LibraryError>)
    ensures
        error matches Some((c, m)) ==> (r matches Err(e) && e.code@ == "E"@ + int_text(c as int) && e.message@ == m@),
        error is None ==> match result {
            Some(j) => if j is Null {
                r matches Err(e) && e.code@ == "E507"@ && e.message@ == "External process returned empty result"@
            } else {
                r == Ok::<Json, LibraryError>(j)
            },
            None => r matches Err(e) && e.code@ == "E507"@ && e.message@ == "External process returned empty result"@,
        },
{
    if let Some((c, m)) = error {
        let code = concat("E", i64_text(c).as_str());
        return Err(LibraryError::new(code.as_str(), m.as_str()));
    }
    match result {
        Some(Json::Null) | None => Err(LibraryError::new("E507", "External process returned empty result")),
        Some(j) => Ok(j),
    }
}

/// The parameters of a library request: the function's name, its
/// arguments in JSON, and the workspace.
pub fn request_params(function: &str, args: &Vec<Value>, workspace: &str) -> (j: Json)
    ensures
        j matches Json::Object(m) && m@.len() == 3
            && m@[0].0@ == "function"@ && (m@[0].1 matches Json::Str(f) && f@ == function@)
            && m@[1].0@ == "args"@ && (m@[1].1 matches Json::Array(a) && a@.len() == args@.len()
                && forall|k: int| 0 <= k < args@.len() ==> encodes(#[trigger] args@[k], a@[k]))
            && m@[2].0@ == "workspace"@ && (m@[2].1 matches Json::Str(w) && w@ == workspace@),
{
    let mut a: Vec<Json> = Vec::new();
    let mut i: usize = 0;
    while i < args.len()
        invariant
            i <= args@.len(),
            a@.len() == i,
            forall|k: int| 0 <= k < i ==> encodes(#[trigger] args@[k], a@[k]),
        decreases args@.len() - i,
    {
        a.push(value_to_json(&args[i]));
        i = i + 1;
    }
    proof {
        reveal_strlit("function");
        reveal_strlit("args");
        reveal_strlit("workspace");
    }
    let mut m: Vec<(String, Json)> = Vec::new();
    m.push((String::from_str("function"), Json::Str(String::from_str(function))));
    m.push((String::from_str("args"), Json::Array(a)));
    m.push((String::from_str("workspace"), Json::Str(String::from_str(workspace))));
    Json::Object(m)
}


/// A JSON string with the text `s`.
pub fn str_json(s: &str) -> (j: Json)
    ensures
        j matches Json::Str(t) && t@ == s@,
{
    Json::Str(String::from_str(s))
}

/// The JSON number for a count: an integer where it fits an `i64`.
pub open spec fn counts_as(j: Json, n: nat) -> bool {
    if n <= i64::MAX { j == Json::Int(n as i64) } else { j is Float }
}

/// The JSON number for the count `n`.
pub fn count_json(n: usize) -> (j: Json)
    ensures
        counts_as(j, n as nat),
{
    if (n as u64) <= 9223372036854775807u64 {
        Json::Int(n as i64)
    } else {
        Json::Float(FloatValue { text: crate::text::u64_text(n as u64), truncated: i64::MAX })
    }
}

/// An object with the members `members`, in order.
pub fn object(members: Vec<(String, Json)>) -> (j: Json)
    ensures
        j == Json::Object(members),
{
    Json::Object(members)
}

/// The member `key: value`.
pub fn member_of(key: &str, value: Json) -> (m: (String, Json))
    ensures
        m.0@ == key@,
        m.1 == value,
{
    (String::from_str(key), value)
}


/// The value of the first member named `key` (`Map::get`).
pub fn lookup<'a>(members: &'a Vec<(String, Json)>, key: &str) -> (r: Option<&'a Json>)
    ensures
        match r {
            Some(j) => obj_get(members@, key@) == Some(*j),
            None => obj_get(members@, key@) is None,
        },
{
    let mut i: usize = 0;
    assert(members@.skip(0) =~= members@);
    while i < members.len()
        invariant
            i <= members@.len(),
            obj_get(members@.skip(i as int), key@) == obj_get(members@, key@),
        decreases members@.len() - i,
    {
        assert(members@.skip(i as int)[0] == members@[i as int]);
        assert(members@.skip(i as int).drop_first() =~= members@.skip(i + 1));
        if str_eq(members[i].0.as_str(), key) {
            return Some(&members[i].1);
        }
        i = i + 1;
    }
    None
}


/// Whether `v` holds no connection point, at any depth of its lists.
pub open spec fn without_connection_points(v: Value) -> bool
    decreases v,
{
    match v {
        Value::ConnectionPoint(_) => false,
        Value::List(items) => forall|k: int| 0 <= k < items@.len() ==> without_connection_points(#[trigger] items@[k]),
        _ => true,
    }
}

proof fn lemma_single_member(m: Seq<(String, Json)>, key: Seq<char>)
    requires
        m.len() == 1,
    ensures
        key_index(m, key) == (if m[0].0@ == key { 0int } else { -1int }),
        member(m, key) == (if m[0].0@ == key { Some(m[0].1) } else { None::<Json> }),
{
    reveal_with_fuel(key_index_from, 2);
}

proof fn lemma_member_at(m: Seq<(String, Json)>, key: Seq<char>, i: int)
    requires
        0 <= i < m.len(),
        m[i].0@ == key,
        forall|k: int| 0 <= k < i ==> m[k].0@ != key,
    ensures
        member(m, key) == Some(m[i].1),
{
    lemma_key_index_from(m, key, 0);
}

proof fn lemma_strings_in(a: Seq<Json>, paths: Seq<String>)
    requires
        a.len() == paths.len(),
        forall|k: int| 0 <= k < paths.len() ==> a[k] == Json::Str(#[trigger] paths[k]),
    ensures
        strings_in(a) == paths.map_values(|p: String| p@),
    decreases a.len(),
{
    if a.len() > 0 {
        lemma_strings_in(a.drop_last(), paths.drop_last());
        assert(paths.map_values(|p: String| p@) =~= paths.drop_last().map_values(|p: String| p@).push(paths.last()@));
    } else {
        assert(paths.map_values(|p: String| p@) =~= Seq::<Seq<char>>::empty());
    }
}

/// Decoding gives back what encoding took: the JSON encoding of a value
/// that holds no connection point converts back, and to that value (texts,
/// numbers, flags, scope kinds and paths, list items, in order).
pub proof fn law_value_json_round_trip(v: Value, j: Json)
    requires
        encodes(v, j),
        without_connection_points(v),
    ensures
        decodable(j),
        decodes(j, v),
    decreases v,
{
    reveal_strlit("String");
    reveal_strlit("Int");
    reveal_strlit("Float");
    reveal_strlit("Bool");
    reveal_strlit("List");
    reveal_strlit("Scope");
    reveal_strlit("kind");
    reveal_strlit("paths");
    reveal_strlit("resolved");
    reveal_strlit("File");
    reveal_strlit("Folder");
    reveal_strlit("Glob");
    assert("String"@ != "Int"@) by {
        assert("String"@.len() != "Int"@.len());
    }
    assert("String"@ != "Float"@) by {
        assert("String"@.len() != "Float"@.len());
    }
    assert("String"@ != "Bool"@) by {
        assert("String"@.len() != "Bool"@.len());
    }
    assert("String"@ != "List"@) by {
        assert("String"@.len() != "List"@.len());
    }
    assert("String"@ != "Scope"@) by {
        assert("String"@.len() != "Scope"@.len());
    }
    assert("Int"@ != "Float"@) by {
        assert("Int"@.len() != "Float"@.len());
    }
    assert("Int"@ != "Bool"@) by {
        assert("Int"@.len() != "Bool"@.len());
    }
    assert("Int"@ != "List"@) by {
        assert("Int"@.len() != "List"@.len());
    }
    assert("Int"@ != "Scope"@) by {
        assert("Int"@.len() != "Scope"@.len());
    }
    assert("Float"@ != "Bool"@) by {
        assert("Float"@.len() != "Bool"@.len());
    }
    assert("Float"@ != "List"@) by {
        assert("Float"@.len() != "List"@.len());
    }
    assert("Float"@ != "Scope"@) by {
        assert("Float"@[0] != "Scope"@[0]);
    }
    assert("Bool"@ != "List"@) by {
        assert("Bool"@[0] != "List"@[0]);
    }
    assert("Bool"@ != "Scope"@) by {
        assert("Bool"@.len() != "Scope"@.len());
    }
    assert("List"@ != "Scope"@) by {
        assert("List"@.len() != "Scope"@.len());
    }
    assert("File"@ != "Folder"@) by {
        assert("File"@.len() != "Folder"@.len());
    }
    assert("File"@ != "Glob"@) by {
        assert("File"@[0] != "Glob"@[0]);
    }
    assert("Folder"@ != "Glob"@) by {
        assert("Folder"@.len() != "Glob"@.len());
    }
    assert("kind"@ != "paths"@) by {
        assert("kind"@.len() != "paths"@.len());
    }
    assert("kind"@ != "resolved"@) by {
        assert("kind"@.len() != "resolved"@.len());
    }
    assert("paths"@ != "resolved"@) by {
        assert("paths"@.len() != "resolved"@.len());
    }
    match v {
        Value::Int(i) => {
            if let Json::Object(m) = j {
                lemma_single_member(m@, "String"@);
                lemma_single_member(m@, "Int"@);
                assert(member(m@, "Int"@) == Some(Json::Int(i)));
                assert(member(m@, "String"@) is None);
                assert(decodes(j, Value::Int(i)));
            }
            assert(v == Value::Int(i));
            assert(decodes(j, v));
        },
        Value::Float(f) => {
            if let Json::Object(m) = j {
                lemma_single_member(m@, "String"@);
                lemma_single_member(m@, "Int"@);
                lemma_single_member(m@, "Float"@);
                assert(decodes_float(member(m@, "Float"@), f));
            }
            assert(decodes(j, v));
        },
        Value::String(t) => {
            if let Json::Object(m) = j {
                lemma_single_member(m@, "String"@);
                assert(member(m@, "String"@) == Some(Json::Str(t)));
            }
            assert(decodes(j, v));
        },
        Value::List(items) => {
            if let Json::Object(m) = j {
                lemma_single_member(m@, "String"@);
                lemma_single_member(m@, "Int"@);
                lemma_single_member(m@, "Float"@);
                lemma_single_member(m@, "Bool"@);
                lemma_single_member(m@, "List"@);
                if let Json::Array(a) = m@[0].1 {
                    assert forall|k: int| 0 <= k < a@.len() implies decodable(#[trigger] a@[k]) && decodes(a@[k], items@[k]) by {
                        assert(decreases_to!(v => items@[k]));
                        law_value_json_round_trip(items@[k], a@[k]);
                    }
                    assert forall|k: int| 0 <= k < a@.len() implies #[trigger] decodes(a@[k], items@[k]) by {
                        assert(decodable(a@[k]));
                    }
                    assert(decodable(j));
                    assert(decodes(j, v));
                }
            }
            assert(decodes(j, v));
        },
        Value::Scope(sc) => {
            if let Json::Object(m) = j {
                lemma_single_member(m@, "String"@);
                lemma_single_member(m@, "Int"@);
                lemma_single_member(m@, "Float"@);
                lemma_single_member(m@, "Bool"@);
                lemma_single_member(m@, "List"@);
                lemma_single_member(m@, "Scope"@);
                if let Json::Object(sm) = m@[0].1 {
                    lemma_member_at(sm@, "kind"@, 0);
                    lemma_member_at(sm@, "paths"@, 1);
                    lemma_member_at(sm@, "resolved"@, 2);
                    if let Json::Object(km) = sm@[0].1 {
                        lemma_single_member(km@, "File"@);
                        lemma_single_member(km@, "Folder"@);
                        lemma_single_member(km@, "Glob"@);
                    }
                    if let Json::Array(a) = sm@[1].1 {
                        lemma_strings_in(a@, sc.paths@);
                    }
                    assert(member(sm@, "kind"@) == Some(sm@[0].1));
                    assert(member(sm@, "paths"@) == Some(sm@[1].1));
                    assert(member(sm@, "resolved"@) == Some(sm@[2].1));
                    assert(decodes_scope(sm@, sc));
                }
                assert(decodable(j));
            }
            assert(decodes(j, v));
        },
        _ => {
            assert(decodes(j, v));
        },
    }
}

} // verus!
