//! Text searches over source files that the language libraries share.

use vstd::prelude::*;
use crate::stdlib::source::{SourceFile, texts};
use crate::text::{contains_str, spec_contains};

verus! {

/// Whether `c` contains one of `needles`.
pub open spec fn any_needle(c: Seq<char>, needles: Seq<Seq<char>>) -> bool {
    exists|k: int| 0 <= k < needles.len() && spec_contains(c, #[trigger] needles[k])
}

/// Whether the file was read and its text satisfies `pred`.
pub open spec fn file_has(f: SourceFile, pred: spec_fn(Seq<char>) -> bool) -> bool {
    f.content matches Some(c) && pred(c@)
}

/// The paths of the files of `files` that were read and whose text
/// satisfies `pred`, in order.
pub open spec fn select_paths(files: Seq<SourceFile>, pred: spec_fn(Seq<char>) -> bool) -> Seq<Seq<char>>
    decreases files.len(),
{
    if files.len() == 0 {
        Seq::empty()
    } else {
        let rest = select_paths(files.drop_last(), pred);
        if file_has(files.last(), pred) { rest.push(files.last().path@) } else { rest }
    }
}

/// Whether some file of `files` was read and its text satisfies `pred`.
pub open spec fn some_file(files: Seq<SourceFile>, pred: spec_fn(Seq<char>) -> bool) -> bool {
    exists|i: int| 0 <= i < files.len() && file_has(#[trigger] files[i], pred)
}

/// Whether `c` contains one of `needles`.
pub fn contains_any(c: &str, needles: &Vec<String>) -> (b: bool)
    ensures
        b == any_needle(c@, texts(needles@)),
{
    let mut k: usize = 0;
    while k < needles.len()
        invariant
            k <= needles@.len(),
            forall|j: int| 0 <= j < k ==> !spec_contains(c@, texts(needles@)[j]),
        decreases needles@.len() - k,
    {
        if contains_str(c, needles[k].as_str()) {
            assert(spec_contains(c@, texts(needles@)[k as int]));
            return true;
        }
        k = k + 1;
    }
    false
}

/// The paths of the files that were read and contain one of `needles`.
pub fn paths_containing_any(files: &Vec<SourceFile>, needles: &Vec<String>) -> (r: Vec<String>)
    ensures
        texts(r@) == select_paths(files@, |c: Seq<char>| any_needle(c, texts(needles@))),
{
    let ghost pred = |c: Seq<char>| any_needle(c, texts(needles@));
    let mut out: Vec<String> = Vec::new();
    let mut i: usize = 0;
    while i < files.len()
        invariant
            i <= files@.len(),
            texts(out@) == select_paths(files@.take(i as int), pred),
            pred == (|c: Seq<char>| any_needle(c, texts(needles@))),
        decreases files@.len() - i,
    {
        assert(files@.take(i + 1).drop_last() =~= files@.take(i as int));
        assert(files@.take(i + 1).last() == files@[i as int]);
        let hit = match &files[i].content {
            Some(c) => contains_any(c.as_str(), needles),
            None => false,
        };
        if hit {
            out.push(files[i].path.clone());
            assert(texts(out@) =~= select_paths(files@.take(i as int), pred).push(files@[i as int].path@));
        }
        i = i + 1;
    }
    assert(files@.take(i as int) =~= files@);
    out
}

/// Whether some file was read and contains one of `needles`.
pub fn some_file_contains_any(files: &Vec<SourceFile>, needles: &Vec<String>) -> (b: bool)
    ensures
        b == some_file(files@, |c: Seq<char>| any_needle(c, texts(needles@))),
{
    let ghost pred = |c: Seq<char>| any_needle(c, texts(needles@));
    let mut i: usize = 0;
    while i < files.len()
        invariant
            i <= files@.len(),
            forall|j: int| 0 <= j < i ==> !file_has(#[trigger] files@[j], pred),
            pred == (|c: Seq<char>| any_needle(c, texts(needles@))),
        decreases files@.len() - i,
    {
        let hit = match &files[i].content {
            Some(c) => contains_any(c.as_str(), needles),
            None => false,
        };
        if hit {
            assert(file_has(files@[i as int], pred));
            return true;
        }
        i = i + 1;
    }
    false
}

/// A list of texts, each `prefix` + `name` + one of `suffixes`.
pub fn needles_for(prefixes: &Vec<&str>, name: &str, suffixes: &Vec<&str>) -> (r: Vec<String>)
    requires
        prefixes@.len() == suffixes@.len(),
    ensures
        r@.len() == prefixes@.len(),
        forall|k: int| 0 <= k < r@.len() ==> (#[trigger] r@[k])@ == prefixes@[k]@ + name@ + suffixes@[k]@,
{
    let mut out: Vec<String> = Vec::new();
    let mut k: usize = 0;
    while k < prefixes.len()
        invariant
            k <= prefixes@.len(),
            prefixes@.len() == suffixes@.len(),
            out@.len() == k,
            forall|j: int| 0 <= j < k ==> (#[trigger] out@[j])@ == prefixes@[j]@ + name@ + suffixes@[j]@,
        decreases prefixes@.len() - k,
    {
        let mut s = String::from_str(prefixes[k]);
        s.append(name);
        s.append(suffixes[k]);
        out.push(s);
        k = k + 1;
    }
    out
}

} // verus!
