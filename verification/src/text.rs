//! Character-level helpers shared by the lexer, the parser and the renderers.

use vstd::prelude::*;
use vstd::string::*;

verus! {

/// Number of bytes that the UTF-8 encoding of `c` takes.
pub open spec fn spec_utf8_len(c: char) -> nat {
    if (c as u32) < 0x80u32 {
        1
    } else if (c as u32) < 0x800u32 {
        2
    } else if (c as u32) < 0x10000u32 {
        3
    } else {
        4
    }
}

/// Number of bytes that the UTF-8 encoding of `c` takes.
pub fn utf8_len(c: char) -> (n: usize)
    ensures
        n == spec_utf8_len(c),
        1 <= n <= 4,
{
    let u = c as u32;
    if u < 0x80u32 {
        1
    } else if u < 0x800u32 {
        2
    } else if u < 0x10000u32 {
        3
    } else {
        4
    }
}

/// The characters of `s`, in order.
pub fn chars_of(s: &str) -> (r: Vec<char>)
    ensures
        r@ == s@,
{
    broadcast use vstd::string::axiom_spec_iter, vstd::string::next_postcondition;
    let mut out: Vec<char> = Vec::new();
    for c in it: s.chars()
        invariant
            it.seq() == s@,
            out@ == s@.take(it.index() as int),
    {
        out.push(c);
    }
    assert(out@ =~= s@);
    out
}

/// The string made of the characters `v[from..to]` (`String::from_iter`).
#[verifier::external_body]
pub(crate) fn string_from_chars(v: &[char], from: usize, to: usize) -> (r: String)
    requires
        from <= to <= v@.len(),
    ensures
        r@ == v@.subrange(from as int, to as int),
{
    String::from_iter(&v[from..to])
}

} // verus!

verus! {

/// What `str::to_lowercase` returns for a string with characters `s`.
pub uninterp spec fn lowercase_of(s: Seq<char>) -> Seq<char>;

/// `str::to_lowercase`: the Unicode lower-case mapping of `s`, which depends
/// on the characters of `s` alone.
#[verifier::external_body]
pub(crate) fn to_lowercase(s: &str) -> (r: String)
    ensures
        r@ == lowercase_of(s@),
{
    s.to_lowercase()
}

/// What `str::to_uppercase` returns for a string with characters `s`.
pub uninterp spec fn uppercase_of(s: Seq<char>) -> Seq<char>;

/// `str::to_uppercase`: the Unicode upper-case mapping of `s`, which depends
/// on the characters of `s` alone.
#[verifier::external_body]
pub(crate) fn to_uppercase(s: &str) -> (r: String)
    ensures
        r@ == uppercase_of(s@),
{
    s.to_uppercase()
}

/// `s` with every space replaced by a dash.
pub open spec fn spec_dash_spaces(s: Seq<char>) -> Seq<char> {
    Seq::new(s.len(), |i: int| if s[i] == ' ' { '-' } else { s[i] })
}

/// `s` with every space replaced by a dash (`str::replace(' ', "-")`).
pub fn dash_spaces(s: &str) -> (r: String)
    ensures
        r@ == spec_dash_spaces(s@),
{
    let chars = chars_of(s);
    let mut out: Vec<char> = Vec::new();
    let mut i: usize = 0;
    while i < chars.len()
        invariant
            i <= chars@.len(),
            chars@ == s@,
            out@ =~= spec_dash_spaces(s@).take(i as int),
        decreases chars@.len() - i,
    {
        let c = chars[i];
        if c == ' ' {
            out.push('-');
        } else {
            out.push(c);
        }
        i = i + 1;
    }
    string_from_chars(out.as_slice(), 0, out.len())
}

/// Whether `s` ends with the character `c`.
pub open spec fn spec_ends_with(s: Seq<char>, c: char) -> bool {
    s.len() > 0 && s.last() == c
}

/// Whether `s` ends with the character `c`.
pub fn ends_with_char(s: &str, c: char) -> (b: bool)
    ensures
        b == spec_ends_with(s@, c),
{
    let chars = chars_of(s);
    chars.len() > 0 && chars[chars.len() - 1] == c
}

} // verus!

verus! {

/// What `str::trim` returns for a string with characters `s`.
pub uninterp spec fn trimmed(s: Seq<char>) -> Seq<char>;

/// `str::trim`: `s` without leading and trailing Unicode white space.
#[verifier::external_body]
pub(crate) fn trim(s: &str) -> (r: String)
    ensures
        r@ == trimmed(s@),
{
    s.trim().to_string()
}

/// `s` without its leading run of `c`.
pub open spec fn spec_trim_start_char(s: Seq<char>, c: char) -> Seq<char>
    decreases s.len(),
{
    if s.len() > 0 && s[0] == c {
        spec_trim_start_char(s.drop_first(), c)
    } else {
        s
    }
}

/// `s` without its leading run of `c` (`str::trim_start_matches(c)`).
pub fn trim_start_char(s: &str, c: char) -> (r: String)
    ensures
        r@ == spec_trim_start_char(s@, c),
{
    let chars = chars_of(s);
    let mut k: usize = 0;
    assert(chars@.skip(0) =~= chars@);
    while k < chars.len() && chars[k] == c
        invariant
            k <= chars@.len(),
            chars@ == s@,
            spec_trim_start_char(chars@.skip(k as int), c) == spec_trim_start_char(s@, c),
        decreases chars@.len() - k,
    {
        assert(chars@.skip(k as int).drop_first() =~= chars@.skip(k + 1));
        k = k + 1;
    }
    proof {
        if k == chars@.len() {
            assert(chars@.skip(k as int).len() == 0);
        }
        assert(chars@.skip(k as int) =~= chars@.subrange(k as int, chars@.len() as int));
    }
    string_from_chars(chars.as_slice(), k, chars.len())
}

} // verus!

verus! {

/// Whether `sub` occurs in `s` at index `i`.
pub open spec fn occurs_at(s: Seq<char>, sub: Seq<char>, i: int) -> bool {
    0 <= i && i + sub.len() <= s.len() && s.subrange(i, i + sub.len()) == sub
}

/// Whether `sub` occurs anywhere in `s`.
pub open spec fn spec_contains(s: Seq<char>, sub: Seq<char>) -> bool {
    exists|i: int| #[trigger] occurs_at(s, sub, i)
}

/// Whether `s` starts with `prefix`.
pub open spec fn spec_starts_with(s: Seq<char>, prefix: Seq<char>) -> bool {
    prefix.len() <= s.len() && s.take(prefix.len() as int) == prefix
}

/// Whether `s` ends with `suffix`.
pub open spec fn spec_ends_with_str(s: Seq<char>, suffix: Seq<char>) -> bool {
    suffix.len() <= s.len() && s.skip(s.len() - suffix.len()) == suffix
}

/// Whether `sub` occurs in `chars` at index `i`.
fn occurs_at_exec(chars: &Vec<char>, sub: &Vec<char>, i: usize) -> (b: bool)
    requires
        i + sub@.len() <= chars@.len(),
    ensures
        b == occurs_at(chars@, sub@, i as int),
{
    let mut k: usize = 0;
    while k < sub.len()
        invariant
            k <= sub@.len(),
            i + sub@.len() <= chars@.len(),
            chars@.len() == chars.len(),
            forall|j: int| 0 <= j < k ==> chars@[i + j] == sub@[j],
        decreases sub@.len() - k,
    {
        if chars[i + k] != sub[k] {
            proof {
                assert(chars@.subrange(i as int, i + sub@.len())[k as int] != sub@[k as int]);
            }
            return false;
        }
        k = k + 1;
    }
    assert(chars@.subrange(i as int, i + sub@.len()) =~= sub@);
    true
}

/// Whether `sub` occurs in `s` (`str::contains`).
pub fn contains_str(s: &str, sub: &str) -> (b: bool)
    ensures
        b == spec_contains(s@, sub@),
{
    let chars = chars_of(s);
    let pat = chars_of(sub);
    if pat.len() > chars.len() {
        proof {
            assert forall|i: int| !occurs_at(s@, sub@, i) by {}
        }
        return false;
    }
    let last = chars.len() - pat.len();
    let mut i: usize = 0;
    loop
        invariant
            i <= last,
            last + pat@.len() == chars@.len(),
            chars@ == s@,
            pat@ == sub@,
            forall|j: int| 0 <= j < i ==> !#[trigger] occurs_at(s@, sub@, j),
        ensures
            forall|j: int| 0 <= j <= last ==> !#[trigger] occurs_at(s@, sub@, j),
        decreases last - i,
    {
        if occurs_at_exec(&chars, &pat, i) {
            return true;
        }
        if i == last {
            break;
        }
        i = i + 1;
    }
    proof {
        assert forall|j: int| !#[trigger] occurs_at(s@, sub@, j) by {
            if 0 <= j <= last {
            }
        }
    }
    false
}

/// Whether `s` starts with `prefix` (`str::starts_with`).
pub fn starts_with_str(s: &str, prefix: &str) -> (b: bool)
    ensures
        b == spec_starts_with(s@, prefix@),
{
    let chars = chars_of(s);
    let pat = chars_of(prefix);
    if pat.len() > chars.len() {
        return false;
    }
    let b = occurs_at_exec(&chars, &pat, 0);
    assert(chars@.subrange(0, pat@.len() as int) =~= chars@.take(pat@.len() as int));
    b
}

/// Whether `s` ends with `suffix` (`str::ends_with`).
pub fn ends_with_str(s: &str, suffix: &str) -> (b: bool)
    ensures
        b == spec_ends_with_str(s@, suffix@),
{
    let chars = chars_of(s);
    let pat = chars_of(suffix);
    if pat.len() > chars.len() {
        return false;
    }
    let start = chars.len() - pat.len();
    let b = occurs_at_exec(&chars, &pat, start);
    assert(chars@.subrange(start as int, chars@.len() as int) =~= chars@.skip(start as int));
    b
}

/// `s` followed by `t`, as a new string.
pub fn concat(s: &str, t: &str) -> (r: String)
    ensures
        r@ == s@ + t@,
{
    let mut r = String::from_str(s);
    r.append(t);
    r
}

} // verus!

verus! {

/// Whether `a` and `b` hold the same characters.
pub fn str_eq(a: &str, b: &str) -> (r: bool)
    ensures
        r == (a@ == b@),
{
    let x = String::from_str(a);
    let y = String::from_str(b);
    x == y
}

} // verus!

verus! {

/// The decimal digit for `d < 10`.
pub open spec fn digit_char(d: nat) -> char {
    if d == 0 { '0' } else if d == 1 { '1' } else if d == 2 { '2' } else if d == 3 { '3' }
    else if d == 4 { '4' } else if d == 5 { '5' } else if d == 6 { '6' } else if d == 7 { '7' }
    else if d == 8 { '8' } else { '9' }
}

/// The decimal text of `n`, without leading zeros.
pub open spec fn nat_text(n: nat) -> Seq<char>
    decreases n,
{
    if n < 10 {
        seq![digit_char(n)]
    } else {
        nat_text(n / 10) + seq![digit_char(n % 10)]
    }
}

/// The decimal text of `n`, with a leading `-` when it is negative.
pub open spec fn int_text(n: int) -> Seq<char> {
    if n < 0 { seq!['-'] + nat_text((-n) as nat) } else { nat_text(n as nat) }
}

fn digit_of(d: u64) -> (c: char)
    requires
        d < 10,
    ensures
        c == digit_char(d as nat),
{
    if d == 0 { '0' } else if d == 1 { '1' } else if d == 2 { '2' } else if d == 3 { '3' }
    else if d == 4 { '4' } else if d == 5 { '5' } else if d == 6 { '6' } else if d == 7 { '7' }
    else if d == 8 { '8' } else { '9' }
}

/// The decimal text of `n` (what `u64::to_string` gives).
pub fn u64_text(n: u64) -> (r: String)
    ensures
        r@ == nat_text(n as nat),
{
    let mut digits: Vec<char> = Vec::new();
    let mut m: u64 = n;
    digits.push(digit_of(m % 10));
    m = m / 10;
    proof {
        assert(nat_text(n as nat) == nat_text((n / 10) as nat) + digits@ || n < 10);
    }
    while m > 0
        invariant
            m <= n,
            m > 0 ==> nat_text(n as nat) == nat_text(m as nat) + digits@,
            m == 0 ==> nat_text(n as nat) == digits@,
        decreases m,
    {
        let ghost before = digits@;
        let d = m % 10;
        digits.insert(0, digit_of(d));
        assert(digits@ =~= seq![digit_char(d as nat)] + before);
        proof {
            if m >= 10 {
                assert(nat_text(m as nat) == nat_text((m / 10) as nat) + seq![digit_char((m % 10) as nat)]);
                assert(nat_text((m / 10) as nat) + seq![digit_char(d as nat)] + before =~= nat_text((m / 10) as nat) + digits@);
            } else {
                assert(nat_text(m as nat) == seq![digit_char(m as nat)]);
            }
        }
        m = m / 10;
    }
    string_from_chars(digits.as_slice(), 0, digits.len())
}

/// The decimal text of `n` (what `i64::to_string` gives).
pub fn i64_text(n: i64) -> (r: String)
    ensures
        r@ == int_text(n as int),
{
    if n < 0 {
        let magnitude: u64 = if n == i64::MIN { 9223372036854775808u64 } else { (-n) as u64 };
        let t = u64_text(magnitude);
        proof {
            reveal_strlit("-");
        }
        concat("-", t.as_str())
    } else {
        u64_text(n as u64)
    }
}

} // verus!

verus! {

/// The index of the first occurrence of `sep` in `s` at or after `i`, or -1.
pub open spec fn find_from(s: Seq<char>, sep: Seq<char>, i: int) -> int
    decreases s.len() + 1 - i,
{
    if i < 0 || i + sep.len() > s.len() {
        -1
    } else if occurs_at(s, sep, i) {
        i
    } else {
        find_from(s, sep, i + 1)
    }
}

/// The last piece of `s.split(sep)`, scanning from `start`: what follows the
/// last of the occurrences of `sep` found left to right without overlap.
pub open spec fn last_piece_from(s: Seq<char>, sep: Seq<char>, start: int) -> Seq<char>
    recommends
        sep.len() > 0,
    decreases s.len() + 1 - start,
{
    let j = find_from(s, sep, start);
    if j < 0 || sep.len() == 0 || j < start || j + sep.len() > s.len() {
        s.skip(start)
    } else {
        last_piece_from(s, sep, j + sep.len())
    }
}

proof fn lemma_find_from(s: Seq<char>, sep: Seq<char>, i: int)
    requires
        0 <= i,
    ensures
        find_from(s, sep, i) == -1 || (i <= find_from(s, sep, i) && occurs_at(s, sep, find_from(s, sep, i))),
    decreases s.len() + 1 - i,
{
    if !(i + sep.len() > s.len()) && !occurs_at(s, sep, i) {
        lemma_find_from(s, sep, i + 1);
    }
}

/// The index of the first occurrence of `sep` in `s` at or after `i`.
pub fn find_str_from(s: &Vec<char>, sep: &Vec<char>, i: usize) -> (r: Option<usize>)
    requires
        i <= s@.len(),
    ensures
        match r {
            Some(j) => j as int == find_from(s@, sep@, i as int),
            None => find_from(s@, sep@, i as int) == -1,
        },
{
    let mut k: usize = i;
    while k <= s.len() && s.len() - k >= sep.len()
        invariant
            i <= k,
            k <= s@.len() + 1,
            find_from(s@, sep@, i as int) == find_from(s@, sep@, k as int),
        decreases s@.len() + 1 - k,
    {
        let mut m: usize = 0;
        let mut same = true;
        while m < sep.len()
            invariant
                m <= sep@.len(),
                k + sep@.len() <= s@.len(),
                s@.len() == s.len(),
                same == (forall|q: int| 0 <= q < m ==> s@[k + q] == sep@[q]),
            decreases sep@.len() - m,
        {
            if s[k + m] != sep[m] {
                same = false;
            }
            m = m + 1;
        }
        if same {
            assert(s@.subrange(k as int, k + sep@.len()) =~= sep@);
            return Some(k);
        }
        proof {
            let q = choose|q: int| 0 <= q < sep@.len() && s@[k + q] != sep@[q];
            assert(s@.subrange(k as int, k + sep@.len())[q] != sep@[q]);
        }
        k = k + 1;
    }
    None
}

/// The last piece of `s.split(sep)` (what `split(sep).last()` gives).
pub fn last_piece(s: &str, sep: &str) -> (r: String)
    requires
        sep@.len() > 0,
    ensures
        r@ == last_piece_from(s@, sep@, 0),
{
    let chars = chars_of(s);
    let pat = chars_of(sep);
    let mut start: usize = 0;
    loop
        invariant
            start <= chars@.len(),
            chars@ == s@,
            pat@ == sep@,
            sep@.len() > 0,
            last_piece_from(s@, sep@, start as int) == last_piece_from(s@, sep@, 0),
        decreases chars@.len() - start,
    {
        proof {
            lemma_find_from(s@, sep@, start as int);
        }
        match find_str_from(&chars, &pat, start) {
            Some(j) => {
                let n = pat.len();
                assert(j + n <= chars.len());
                start = j + n;
            },
            None => {
                assert(chars@.skip(start as int) =~= chars@.subrange(start as int, chars@.len() as int));
                return string_from_chars(chars.as_slice(), start, chars.len());
            },
        }
    }
}

} // verus!

verus! {

/// The second piece of `s.split(sep)`: the text between the first and the
/// second occurrence of `sep` (or the end); `None` where `sep` does not occur.
pub open spec fn second_piece(s: Seq<char>, sep: Seq<char>) -> Option<Seq<char>> {
    let j = find_from(s, sep, 0);
    if j < 0 || j + sep.len() > s.len() {
        None
    } else {
        let k = find_from(s, sep, j + sep.len());
        if k < 0 || k < j + sep.len() {
            Some(s.subrange(j + sep.len(), s.len() as int))
        } else {
            Some(s.subrange(j + sep.len(), k))
        }
    }
}

/// The second piece of `s.split(sep)` (`split(sep).nth(1)`).
pub fn split_second(s: &str, sep: &str) -> (r: Option<String>)
    requires
        sep@.len() > 0,
    ensures
        match r {
            Some(t) => second_piece(s@, sep@) == Some(t@),
            None => second_piece(s@, sep@) is None,
        },
{
    let chars = chars_of(s);
    let pat = chars_of(sep);
    proof {
        lemma_find_from(s@, sep@, 0);
    }
    match find_str_from(&chars, &pat, 0) {
        None => None,
        Some(j) => {
            let n = pat.len();
            assert(j + n <= chars.len());
            let start = j + n;
            proof {
                lemma_find_from(s@, sep@, start as int);
            }
            match find_str_from(&chars, &pat, start) {
                None => Some(string_from_chars(chars.as_slice(), start, chars.len())),
                Some(k) => Some(string_from_chars(chars.as_slice(), start, k)),
            }
        },
    }
}

/// The text of `s` before the first of the characters `stops` (all of `s`
/// where none occurs): the first piece of `s.split(stops)`.
pub open spec fn before_any(s: Seq<char>, stops: Seq<char>) -> Seq<char>
    decreases s.len(),
{
    if s.len() == 0 || stops.contains(s[0]) {
        Seq::empty()
    } else {
        seq![s[0]] + before_any(s.drop_first(), stops)
    }
}

/// The first piece of `s.split(stops)` (`split(..).next()`).
pub fn first_piece(s: &str, stops: &Vec<char>) -> (r: String)
    ensures
        r@ == before_any(s@, stops@),
{
    let chars = chars_of(s);
    let mut i: usize = 0;
    while i < chars.len()
        invariant
            i <= chars@.len(),
            chars@ == s@,
            forall|k: int| 0 <= k < i ==> !stops@.contains(#[trigger] chars@[k]),
        ensures
            i <= chars@.len(),
            forall|k: int| 0 <= k < i ==> !stops@.contains(#[trigger] chars@[k]),
            i == chars@.len() || stops@.contains(chars@[i as int]),
        decreases chars@.len() - i,
    {
        let c = chars[i];
        let mut stop = false;
        let mut q: usize = 0;
        while q < stops.len()
            invariant
                q <= stops@.len(),
                stop == exists|m: int| 0 <= m < q && stops@[m] == c,
            decreases stops@.len() - q,
        {
            if stops[q] == c {
                stop = true;
            }
            q = q + 1;
        }
        if stop {
            assert(stops@.contains(c));
            break;
        }
        i = i + 1;
    }
    proof {
        lemma_before_any(s@, stops@, i as int);
    }
    string_from_chars(chars.as_slice(), 0, i)
}

proof fn lemma_before_any(s: Seq<char>, stops: Seq<char>, i: int)
    requires
        0 <= i <= s.len(),
        forall|k: int| 0 <= k < i ==> !stops.contains(#[trigger] s[k]),
        i == s.len() || stops.contains(s[i]),
    ensures
        before_any(s, stops) == s.subrange(0, i),
    decreases i,
{
    if i == 0 {
        assert(s.subrange(0, 0) =~= Seq::<char>::empty());
    } else {
        assert forall|k: int| 0 <= k < i - 1 implies !stops.contains(#[trigger] s.drop_first()[k]) by {
            assert(s.drop_first()[k] == s[k + 1]);
        }
        if i - 1 < s.drop_first().len() {
            assert(s.drop_first()[i - 1] == s[i]);
        }
        lemma_before_any(s.drop_first(), stops, i - 1);
        assert(s.subrange(0, i) =~= seq![s[0]] + s.drop_first().subrange(0, i - 1));
    }
}

/// The pieces of `s` between the separators `sep`, in order: one more
/// than the separators in `s`.
pub open spec fn pieces(s: Seq<char>, sep: char) -> Seq<Seq<char>>
    decreases s.len(),
{
    if s.len() == 0 {
        seq![Seq::empty()]
    } else {
        let p = pieces(s.drop_last(), sep);
        if s.last() == sep {
            p.push(Seq::empty())
        } else {
            p.update(p.len() - 1, p.last().push(s.last()))
        }
    }
}

pub proof fn lemma_pieces_nonempty(s: Seq<char>, sep: char)
    ensures
        pieces(s, sep).len() >= 1,
    decreases s.len(),
{
    if s.len() > 0 {
        lemma_pieces_nonempty(s.drop_last(), sep);
    }
}

/// The pieces of `s` between the separators `sep` (`str::split`).
pub fn split_pieces(s: &str, sep: char) -> (r: Vec<String>)
    ensures
        r@.map_values(|p: String| p@) == pieces(s@, sep),
{
    let cs = chars_of(s);
    let mut out: Vec<String> = Vec::new();
    let mut start: usize = 0;
    let mut i: usize = 0;
    assert(cs@.subrange(0, 0) =~= Seq::<char>::empty());
    assert(s@.take(0) =~= Seq::<char>::empty());
    assert(out@.map_values(|p: String| p@).push(cs@.subrange(0, 0)) =~= pieces(s@.take(0), sep));
    while i < cs.len()
        invariant
            start <= i <= cs@.len(),
            cs@ == s@,
            out@.map_values(|p: String| p@).push(cs@.subrange(start as int, i as int)) == pieces(s@.take(i as int), sep),
        decreases cs@.len() - i,
    {
        proof {
            lemma_pieces_nonempty(s@.take(i as int), sep);
            assert(s@.take(i + 1).drop_last() =~= s@.take(i as int));
            assert(s@.take(i + 1).last() == cs@[i as int]);
        }
        if cs[i] == sep {
            let piece = string_from_chars(cs.as_slice(), start, i);
            let ghost before = out@.map_values(|p: String| p@);
            out.push(piece);
            assert(out@.map_values(|p: String| p@) =~= before.push(cs@.subrange(start as int, i as int)));
            assert(cs@.subrange(i + 1, i + 1) =~= Seq::<char>::empty());
            start = i + 1;
        } else {
            assert(cs@.subrange(start as int, i + 1) =~= cs@.subrange(start as int, i as int).push(cs@[i as int]));
        }
        i = i + 1;
    }
    let last = string_from_chars(cs.as_slice(), start, i);
    let ghost before = out@.map_values(|p: String| p@);
    out.push(last);
    assert(out@.map_values(|p: String| p@) =~= before.push(cs@.subrange(start as int, i as int)));
    assert(s@.take(i as int) =~= s@);
    out
}

/// `p` without one final carriage return.
pub open spec fn without_cr(p: Seq<char>) -> Seq<char> {
    if p.len() > 0 && p.last() == '\r' { p.drop_last() } else { p }
}

/// The lines of `s` as `str::lines` gives them: the pieces between `\n`,
/// each that a `\n` ends without one final `\r`; the last piece, which no
/// `\n` ends, only where it is not empty, and kept whole.
pub open spec fn lines_of(s: Seq<char>) -> Seq<Seq<char>> {
    let ps = pieces(s, '\n');
    let ended = ps.take(ps.len() - 1).map_values(|p: Seq<char>| without_cr(p));
    if ps.last().len() == 0 { ended } else { ended.push(ps.last()) }
}

/// The lines of `s` (see `lines_of`).
pub fn lines(s: &str) -> (r: Vec<String>)
    ensures
        r@.map_values(|l: String| l@) == lines_of(s@),
{
    let ps = split_pieces(s, '\n');
    let ghost pv = ps@.map_values(|p: String| p@);
    proof {
        lemma_pieces_nonempty(s@, '\n');
    }
    let mut out: Vec<String> = Vec::new();
    let mut k: usize = 0;
    let last = ps.len() - 1;
    while k < last
        invariant
            last + 1 == ps@.len(),
            k <= last,
            pv == ps@.map_values(|p: String| p@),
            pv == pieces(s@, '\n'),
            out@.map_values(|l: String| l@) == pv.take(k as int).map_values(|p: Seq<char>| without_cr(p)),
        decreases last - k,
    {
        let cs = chars_of(ps[k].as_str());
        let ghost before = out@.map_values(|l: String| l@);
        let line = if cs.len() > 0 && cs[cs.len() - 1] == '\r' {
            string_from_chars(cs.as_slice(), 0, cs.len() - 1)
        } else {
            string_from_chars(cs.as_slice(), 0, cs.len())
        };
        assert(pv[k as int] == ps@[k as int]@);
        assert(line@ == without_cr(pv[k as int])) by {
            if cs@.len() > 0 && cs@.last() == '\r' {
                assert(cs@.subrange(0, cs@.len() - 1) =~= cs@.drop_last());
            } else {
                assert(cs@.subrange(0, cs@.len() as int) =~= cs@);
            }
        }
        out.push(line);
        assert(out@.map_values(|l: String| l@) =~= before.push(without_cr(pv[k as int])));
        assert(pv.take(k + 1).map_values(|p: Seq<char>| without_cr(p))
            =~= pv.take(k as int).map_values(|p: Seq<char>| without_cr(p)).push(without_cr(pv[k as int])));
        k = k + 1;
    }
    let ghost ended = out@.map_values(|l: String| l@);
    assert(pv.last() == ps@[last as int]@);
    if ps[last].as_str().unicode_len() > 0 {
        out.push(ps[last].clone());
        assert(out@.map_values(|l: String| l@) =~= ended.push(pv.last()));
    }
    out
}

/// What `char::is_alphanumeric` gives for `c`: whether it is alphabetic
/// or numeric in Unicode.
pub uninterp spec fn alphanumeric_of(c: char) -> bool;

/// Whether `c` is an ASCII letter or digit.
pub open spec fn ascii_alphanumeric(c: char) -> bool {
    ('a' <= c && c <= 'z') || ('A' <= c && c <= 'Z') || ('0' <= c && c <= '9')
}

/// `char::is_alphanumeric`. Among ASCII characters, the letters and the
/// digits are exactly those with the Alphabetic or Numeric property; what
/// it gives on other characters comes from Unicode's tables and is left
/// to the name.
#[verifier::external_body]
pub(crate) fn is_alphanumeric(c: char) -> (b: bool)
    ensures
        b == alphanumeric_of(c),
        (c as u32) < 128 ==> (b <==> ascii_alphanumeric(c)),
{
    c.is_alphanumeric()
}

} // verus!
