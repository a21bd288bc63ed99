//! Source files as the libraries read them, and the path operations that
//! the libraries apply to file names.

use vstd::prelude::*;

verus! {

/// A file and its text; `None` where it could not be read as UTF-8 text.
#[derive(Debug)]
pub struct SourceFile {
    pub path: String,
    pub content: Option<String>,
}

impl SourceFile {
    /// A file with the text `content`.
    pub fn new(path: &str, content: Option<String>) -> (f: Self)
        ensures
            f.path@ == path@,
            f.content == content,
    {
        SourceFile { path: String::from_str(path), content }
    }
}

/// The text of a file, or the empty text where it could not be read.
pub open spec fn text_of(f: SourceFile) -> Seq<char> {
    match f.content {
        Some(c) => c@,
        None => Seq::empty(),
    }
}

/// What `Path::file_stem` gives for the path `p`, as text.
pub uninterp spec fn file_stem_of(p: Seq<char>) -> Option<Seq<char>>;

/// What `Path::file_name` gives for the path `p`, as text.
pub uninterp spec fn file_name_of(p: Seq<char>) -> Option<Seq<char>>;

/// What `Path::parent` gives for the path `p`, as text.
pub uninterp spec fn parent_of(p: Seq<char>) -> Option<Seq<char>>;

/// `Path::file_stem`: the file name of `p` without its extension; `None`
/// where `p` has no file name or it is not valid text.
#[verifier::external_body]
pub(crate) fn path_file_stem(p: &str) -> (r: Option<String>)
    ensures
        match r {
            Some(s) => file_stem_of(p@) == Some(s@),
            None => file_stem_of(p@) is None,
        },
{
    std::path::Path::new(p).file_stem().and_then(|s| s.to_str()).map(|s| s.to_string())
}

/// `Path::file_name`: the last component of `p`; `None` where it ends in
/// `..`, is a root, or is not valid text.
#[verifier::external_body]
pub(crate) fn path_file_name(p: &str) -> (r: Option<String>)
    ensures
        match r {
            Some(s) => file_name_of(p@) == Some(s@),
            None => file_name_of(p@) is None,
        },
{
    std::path::Path::new(p).file_name().and_then(|s| s.to_str()).map(|s| s.to_string())
}

/// `Path::parent`: `p` without its last component; `None` where `p` ends
/// in a root or is empty.
#[verifier::external_body]
pub(crate) fn path_parent(p: &str) -> (r: Option<String>)
    ensures
        match r {
            Some(s) => parent_of(p@) == Some(s@),
            None => parent_of(p@) is None,
        },
{
    std::path::Path::new(p).parent().and_then(|s| s.to_str()).map(|s| s.to_string())
}

/// Whether `a` comes strictly before `b` in the order of `String`: by
/// characters (their UTF-8 encodings order alike), a prefix first.
pub open spec fn text_lt(a: Seq<char>, b: Seq<char>) -> bool
    decreases a.len(),
{
    if b.len() == 0 {
        false
    } else if a.len() == 0 {
        true
    } else if a[0] != b[0] {
        a[0] < b[0]
    } else {
        text_lt(a.drop_first(), b.drop_first())
    }
}

/// Whether the texts `s` are in strictly increasing order, hence without
/// repetitions.
pub open spec fn strictly_sorted(s: Seq<Seq<char>>) -> bool {
    forall|i: int, j: int| 0 <= i < j < s.len() ==> text_lt(s[i], s[j])
}

/// The texts of a list of strings.
pub open spec fn texts(v: Seq<String>) -> Seq<Seq<char>> {
    v.map_values(|s: String| s@)
}

/// Whether `a` comes before `b`.
pub(crate) fn text_less(a: &str, b: &str) -> (r: bool)
    ensures
        r == text_lt(a@, b@),
{
    let x = crate::text::chars_of(a);
    let y = crate::text::chars_of(b);
    let mut i: usize = 0;
    proof {
        assert(a@.skip(0) =~= a@);
        assert(b@.skip(0) =~= b@);
    }
    while i < x.len() && i < y.len() && x[i] == y[i]
        invariant
            i <= x@.len(),
            i <= y@.len(),
            x@ == a@,
            y@ == b@,
            text_lt(a@, b@) == text_lt(a@.skip(i as int), b@.skip(i as int)),
        decreases x@.len() - i,
    {
        assert(a@.skip(i as int).drop_first() =~= a@.skip(i + 1));
        assert(b@.skip(i as int).drop_first() =~= b@.skip(i + 1));
        i = i + 1;
    }
    if i == y.len() {
        assert(b@.skip(i as int).len() == 0);
        false
    } else if i == x.len() {
        assert(a@.skip(i as int).len() == 0);
        true
    } else {
        assert(a@.skip(i as int)[0] == x@[i as int]);
        assert(b@.skip(i as int)[0] == y@[i as int]);
        x[i] < y[i]
    }
}

pub(crate) proof fn lemma_text_lt_irreflexive(a: Seq<char>)
    ensures
        !text_lt(a, a),
    decreases a.len(),
{
    if a.len() > 0 {
        lemma_text_lt_irreflexive(a.drop_first());
    }
}

pub(crate) proof fn lemma_text_lt_transitive(a: Seq<char>, b: Seq<char>, c: Seq<char>)
    requires
        text_lt(a, b),
        text_lt(b, c),
    ensures
        text_lt(a, c),
    decreases a.len(),
{
    if a.len() > 0 && b.len() > 0 && c.len() > 0 && a[0] == b[0] && b[0] == c[0] {
        lemma_text_lt_transitive(a.drop_first(), b.drop_first(), c.drop_first());
    }
}

pub(crate) proof fn lemma_text_lt_total(a: Seq<char>, b: Seq<char>)
    ensures
        a == b || text_lt(a, b) || text_lt(b, a),
    decreases a.len(),
{
    if a.len() > 0 && b.len() > 0 && a[0] == b[0] {
        lemma_text_lt_total(a.drop_first(), b.drop_first());
        if a.drop_first() == b.drop_first() {
            assert(a =~= seq![a[0]] + a.drop_first());
            assert(b =~= seq![b[0]] + b.drop_first());
        }
    } else if a.len() == 0 && b.len() == 0 {
        assert(a =~= b);
    }

}

/// The texts of `v`, sorted and without repetitions: what sorting a list of
/// strings and removing consecutive repetitions gives.
pub fn sorted_unique(v: Vec<String>) -> (r: Vec<String>)
    ensures
        strictly_sorted(texts(r@)),
        forall|t: Seq<char>| #[trigger] texts(r@).contains(t) <==> texts(v@).contains(t),
{
    let mut out: Vec<String> = Vec::new();
    let mut i: usize = 0;
    while i < v.len()
        invariant
            i <= v@.len(),
            strictly_sorted(texts(out@)),
            forall|t: Seq<char>| #[trigger] texts(out@).contains(t) <==> texts(v@.take(i as int)).contains(t),
        decreases v@.len() - i,
    {
        let ghost outv = texts(out@);
        let item = &v[i];
        // find the insertion point
        let mut k: usize = 0;
        while k < out.len() && text_less(out[k].as_str(), item.as_str())
            invariant
                k <= out@.len(),
                outv == texts(out@),
                forall|j: int| 0 <= j < k ==> text_lt(outv[j], item@),
            decreases out@.len() - k,
        {
            k = k + 1;
        }
        let dup = k < out.len() && crate::text::str_eq(out[k].as_str(), item.as_str());
        proof {
            assert(texts(v@.take(i + 1)) =~= texts(v@.take(i as int)).push(item@));
        }
        if !dup {
            proof {
                if k < out@.len() {
                    lemma_text_lt_total(outv[k as int], item@);
                    assert(text_lt(item@, outv[k as int]));
                }
            }
            out.insert(k, item.clone());
            proof {
                let nv = texts(out@);
                assert(nv =~= outv.insert(k as int, item@));
                assert forall|a: int, b: int| 0 <= a < b < nv.len() implies text_lt(nv[a], nv[b]) by {
                    if b < k {
                    } else if b == k {
                    } else {
                        // nv[b] == outv[b - 1], and item < outv[b - 1]
                        if b - 1 > k {
                            lemma_text_lt_transitive(item@, outv[k as int], outv[b - 1]);
                        }
                        assert(text_lt(item@, outv[b - 1]));
                        if a < k {
                            lemma_text_lt_transitive(outv[a], item@, outv[b - 1]);
                        } else if a == k {
                        } else {
                        }
                    }
                }
                assert forall|t: Seq<char>| nv.contains(t) <==> (outv.contains(t) || t == item@) by {
                    if nv.contains(t) {
                        let j = choose|j: int| 0 <= j < nv.len() && nv[j] == t;
                        if j < k {
                            assert(outv[j] == t);
                        } else if j > k {
                            assert(outv[j - 1] == t);
                        }
                    }
                    if outv.contains(t) {
                        let j = choose|j: int| 0 <= j < outv.len() && outv[j] == t;
                        if j < k {
                            assert(nv[j] == t);
                        } else {
                            assert(nv[j + 1] == t);
                        }
                    }
                    if t == item@ {
                        assert(nv[k as int] == t);
                    }
                }
            }
        } else {
            proof {
                assert(outv[k as int] == item@);
            }
        }
        proof {
            let prev = texts(v@.take(i as int));
            assert forall|t: Seq<char>| prev.push(item@).contains(t) <==> (prev.contains(t) || t == item@) by {
                if prev.push(item@).contains(t) {
                    let j = choose|j: int| 0 <= j < prev.push(item@).len() && prev.push(item@)[j] == t;
                    if j < prev.len() {
                        assert(prev[j] == t);
                    }
                }
                if prev.contains(t) {
                    let j = choose|j: int| 0 <= j < prev.len() && prev[j] == t;
                    assert(prev.push(item@)[j] == t);
                }
                if t == item@ {
                    assert(prev.push(item@)[prev.len() as int] == t);
                }
            }
        }
        i = i + 1;
    }
    assert(v@.take(i as int) =~= v@);
    out
}


/// What a sequence with one more element contains.
pub proof fn lemma_push_contains<A>(s: Seq<A>, x: A, t: A)
    ensures
        s.push(x).contains(t) <==> (s.contains(t) || t == x),
{
    if s.push(x).contains(t) {
        let j = choose|j: int| 0 <= j < s.push(x).len() && s.push(x)[j] == t;
        if j < s.len() {
            assert(s[j] == t);
        }
    }
    if s.contains(t) {
        let j = choose|j: int| 0 <= j < s.len() && s[j] == t;
        assert(s.push(x)[j] == t);
    }
    if t == x {
        assert(s.push(x)[s.len() as int] == t);
    }
}

} // verus!
