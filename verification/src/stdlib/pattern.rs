//! Regular-expression searches, done by the `regex` crate, and the
//! escaping of literal text for them.

use vstd::prelude::*;
use crate::text::{chars_of, string_from_chars};

verus! {

/// Whether the regular expression `pattern` matches somewhere in `text`
/// (`Regex::new` then `Regex::is_match`); `None` where `pattern` does not
/// compile.
pub uninterp spec fn regex_search(pattern: Seq<char>, text: Seq<char>) -> Option<bool>;

/// The text of the first capture group of the leftmost match of `pattern`
/// in `text` (`Regex::new`, `Regex::captures`, `Captures::get(1)`); `None`
/// where the pattern does not compile, does not match, or its first group
/// takes no part in the match.
pub uninterp spec fn regex_first_group(pattern: Seq<char>, text: Seq<char>) -> Option<Seq<char>>;

/// Whether `c` has a meaning in a regular expression (`regex::escape`
/// puts a backslash before exactly these).
pub open spec fn is_regex_meta(c: char) -> bool {
    c == '\\' || c == '.' || c == '+' || c == '*' || c == '?' || c == '(' || c == ')' || c == '|' || c == '['
        || c == ']' || c == '{' || c == '}' || c == '^' || c == '$' || c == '#' || c == '&' || c == '-' || c == '~'
}

/// `s` with a backslash before each regular-expression metacharacter: the
/// text that matches `s` literally.
pub open spec fn regex_escaped(s: Seq<char>) -> Seq<char>
    decreases s.len(),
{
    if s.len() == 0 {
        Seq::empty()
    } else if is_regex_meta(s.last()) {
        regex_escaped(s.drop_last()) + seq!['\\', s.last()]
    } else {
        regex_escaped(s.drop_last()).push(s.last())
    }
}

/// `Regex::new(pattern)` and `Regex::is_match(text)`: whether `pattern`
/// matches in `text`; `None` where the pattern does not compile. The
/// result is a function of the two texts.
#[verifier::external_body]
pub(crate) fn regex_is_match(pattern: &str, text: &str) -> (r: Option<bool>)
    ensures
        r == regex_search(pattern@, text@),
{
    regex::Regex::new(pattern).ok().map(|re| re.is_match(text))
}

/// `Regex::new(pattern)`, `Regex::captures(text)` and `Captures::get(1)`:
/// the first group of the leftmost match. The result is a function of the
/// two texts.
#[verifier::external_body]
pub(crate) fn regex_first_capture(pattern: &str, text: &str) -> (r: Option<String>)
    ensures
        match r {
            Some(g) => regex_first_group(pattern@, text@) == Some(g@),
            None => regex_first_group(pattern@, text@) is None,
        },
{
    let re = regex::Regex::new(pattern).ok()?;
    let caps = re.captures(text)?;
    caps.get(1).map(|m| m.as_str().to_string())
}

/// The text that matches `s` literally (`regex::escape`).
pub fn escape_regex(s: &str) -> (r: String)
    ensures
        r@ == regex_escaped(s@),
{
    let cs = chars_of(s);
    let mut out: Vec<char> = Vec::new();
    let mut i: usize = 0;
    while i < cs.len()
        invariant
            cs@ == s@,
            i <= cs@.len(),
            out@ == regex_escaped(cs@.take(i as int)),
        decreases cs@.len() - i,
    {
        let c = cs[i];
        proof {
            assert(cs@.take(i + 1).drop_last() =~= cs@.take(i as int));
        }
        if c == '\\' || c == '.' || c == '+' || c == '*' || c == '?' || c == '(' || c == ')' || c == '|' || c == '['
            || c == ']' || c == '{' || c == '}' || c == '^' || c == '$' || c == '#' || c == '&' || c == '-' || c == '~' {
            let ghost before = out@;
            out.push('\\');
            out.push(c);
            assert(out@ =~= before + seq!['\\', c]);
        } else {
            out.push(c);
        }
        i = i + 1;
    }
    assert(cs@.take(cs@.len() as int) =~= cs@);
    let n = out.len();
    assert(out@.subrange(0, n as int) =~= out@);
    string_from_chars(&out, 0, n)
}

} // verus!
