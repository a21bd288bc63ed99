//! The interpreter: validates programs and runs their checks against the
//! registered libraries.

use vstd::prelude::*;
use crate::ast::{Element, Expression, ImportPath, ImportStatement, NumberLiteral, Program, Identifier};
use crate::diagnostics::{Diagnostic, DiagnosticSeverity, Diagnostics};
use crate::grammar::{declarations_from_tokens, program_at, program_views};
use crate::lexer::{lexed, token_views, Token};
use crate::parser::Parser;
use crate::span::Span;
use crate::stdlib::{answer_result, CheckResult, FloatValue, Library, LibraryError, LibraryRegistry, Value, registers_at, same_value};
use crate::text::{chars_of, concat, contains_str, ends_with_str, spec_contains, spec_ends_with_str, str_eq,
    string_from_chars};

verus! {

// ---------------------------------------------------------------------------
// Numbers
// ---------------------------------------------------------------------------

/// The value of a decimal digit; any other character counts as zero.
pub open spec fn digit_value(c: char) -> nat {
    if '0' <= c && c <= '9' { (c as u32 - '0' as u32) as nat } else { 0 }
}

/// The number that the decimal digits `s` write.
pub open spec fn digits_value(s: Seq<char>) -> nat
    decreases s.len(),
{
    if s.len() == 0 { 0 } else { digits_value(s.drop_last()) * 10 + digit_value(s.last()) }
}

/// `n`, or `i64::MAX` where it is larger.
pub open spec fn saturate(n: nat) -> i64 {
    if n > i64::MAX { i64::MAX } else { n as i64 }
}

/// Whether every character of `s` is `0`.
pub open spec fn all_zero(s: Seq<char>) -> bool {
    forall|i: int| 0 <= i < s.len() ==> s[i] == '0'
}

/// `s` without its leading zeros, keeping one digit.
pub open spec fn strip_leading_zeros(s: Seq<char>) -> Seq<char>
    decreases s.len(),
{
    if s.len() > 1 && s[0] == '0' { strip_leading_zeros(s.drop_first()) } else { s }
}

/// `s` without its trailing zeros.
pub open spec fn strip_trailing_zeros(s: Seq<char>) -> Seq<char>
    decreases s.len(),
{
    if s.len() > 0 && s.last() == '0' { strip_trailing_zeros(s.drop_last()) } else { s }
}

/// The shortest decimal text of the number with integer digits `whole` and
/// fraction digits `fraction`: `2.50` reads `2.5`, `3.0` reads `3`.
pub open spec fn number_text(whole: Seq<char>, fraction: Seq<char>) -> Seq<char> {
    let w = strip_leading_zeros(whole);
    let f = strip_trailing_zeros(fraction);
    if f.len() == 0 { w } else { w + seq!['.'] + f }
}

/// The integer part of a number literal, saturating at `i64::MAX`.
fn whole_value(whole: &str) -> (r: i64)
    ensures
        r == saturate(digits_value(whole@)),
{
    let chars = chars_of(whole);
    let mut acc: i64 = 0;
    let mut saturated = false;
    let mut i: usize = 0;
    while i < chars.len()
        invariant
            i <= chars@.len(),
            chars@ == whole@,
            !saturated ==> acc as nat == digits_value(chars@.take(i as int)) && acc >= 0,
            saturated ==> digits_value(chars@.take(i as int)) > i64::MAX,
        decreases chars@.len() - i,
    {
        let c = chars[i];
        let d: i64 = if '0' <= c && c <= '9' { (c as u32 - '0' as u32) as i64 } else { 0 };
        assert(chars@.take(i + 1).drop_last() =~= chars@.take(i as int));
        assert(chars@.take(i + 1).last() == c);
        if !saturated {
            if acc > (i64::MAX - d) / 10 {
                saturated = true;
                assert(acc * 10 + d > i64::MAX) by (nonlinear_arith)
                    requires acc > (i64::MAX - d) / 10, 0 <= d <= 9;
            } else {
                assert(acc * 10 + d <= i64::MAX) by (nonlinear_arith)
                    requires acc <= (i64::MAX - d) / 10, 0 <= d <= 9, acc >= 0;
                acc = acc * 10 + d;
            }
        } else {
            assert(digits_value(chars@.take(i + 1)) >= digits_value(chars@.take(i as int))) by (nonlinear_arith)
                requires digits_value(chars@.take(i + 1)) == digits_value(chars@.take(i as int)) * 10 + digit_value(c);
        }
        i = i + 1;
    }
    assert(chars@.take(i as int) =~= whole@);
    if saturated { i64::MAX } else { acc }
}

/// Whether every character of `s` is `0`.
fn is_all_zero(s: &str) -> (b: bool)
    ensures
        b == all_zero(s@),
{
    let chars = chars_of(s);
    let mut i: usize = 0;
    while i < chars.len()
        invariant
            i <= chars@.len(),
            chars@ == s@,
            forall|k: int| 0 <= k < i ==> chars@[k] == '0',
        decreases chars@.len() - i,
    {
        if chars[i] != '0' {
            return false;
        }
        i = i + 1;
    }
    true
}

/// The shortest decimal text of a number literal (see `number_text`).
pub fn number_literal_text(n: &NumberLiteral) -> (r: String)
    ensures
        r@ == number_text(n.whole@, n.fraction@),
{
    let w = chars_of(n.whole.as_str());
    let mut a: usize = 0;
    assert(w@.skip(0) =~= w@);
    while a < w.len() && w.len() - a > 1 && w[a] == '0'
        invariant
            a <= w@.len(),
            w@ == n.whole@,
            strip_leading_zeros(w@.skip(a as int)) == strip_leading_zeros(n.whole@),
        decreases w@.len() - a,
    {
        assert(w@.skip(a as int).drop_first() =~= w@.skip(a + 1));
        a = a + 1;
    }
    assert(w@.skip(a as int) =~= w@.subrange(a as int, w@.len() as int));
    let f = chars_of(n.fraction.as_str());
    let mut b: usize = f.len();
    assert(f@.take(b as int) =~= f@);
    while b > 0 && f[b - 1] == '0'
        invariant
            b <= f@.len(),
            f@ == n.fraction@,
            strip_trailing_zeros(f@.take(b as int)) == strip_trailing_zeros(n.fraction@),
        decreases b,
    {
        assert(f@.take(b as int).drop_last() =~= f@.take(b - 1));
        b = b - 1;
    }
    assert(f@.take(b as int) =~= f@.subrange(0, b as int));
    let whole = string_from_chars(w.as_slice(), a, w.len());
    if b == 0 {
        whole
    } else {
        let frac = string_from_chars(f.as_slice(), 0, b);
        let mut r = whole;
        r.append(".");
        r.append(frac.as_str());
        proof {
            reveal_strlit(".");
        }
        r
    }
}

/// The value of a number literal: an integer where its fraction is zero,
/// else a float; both take the integer part, saturating at `i64::MAX`.
pub fn number_value(n: &NumberLiteral) -> (v: Value)
    ensures
        all_zero(n.fraction@) ==> v == Value::Int(saturate(digits_value(n.whole@))),
        !all_zero(n.fraction@) ==> (v matches Value::Float(f) && f.text@ == number_text(n.whole@, n.fraction@)
            && f.truncated == saturate(digits_value(n.whole@))),
{
    let whole = whole_value(n.whole.as_str());
    if is_all_zero(n.fraction.as_str()) {
        Value::Int(whole)
    } else {
        Value::Float(FloatValue { text: number_literal_text(n), truncated: whole })
    }
}


// ---------------------------------------------------------------------------
// Expression text
// ---------------------------------------------------------------------------

/// The text of an expression, as check results show it.
pub open spec fn expr_text(e: Expression) -> Seq<char>
    decreases e, 0nat,
{
    match e {
        Expression::Identifier(id) => id.name@,
        Expression::String(s) => seq!['\''] + s.value@ + seq!['\''],
        Expression::Number(n) => number_text(n.whole@, n.fraction@),
        Expression::Boolean(b) => if b.value { "true"@ } else { "false"@ },
        Expression::MemberAccess { object, member, .. } => expr_text(*object) + seq!['.'] + member.name@,
        Expression::FunctionCall { function, arguments, .. } => {
            expr_text(*function) + seq!['('] + list_text(arguments@) + seq![')']
        },
        Expression::List { elements, .. } => seq!['['] + list_text(elements@) + seq![']'],
    }
}

/// The texts of `es`, separated by `, `.
pub open spec fn list_text(es: Seq<Expression>) -> Seq<char>
    decreases es, 1nat,
{
    if es.len() == 0 {
        Seq::empty()
    } else if es.len() == 1 {
        expr_text(es[0])
    } else {
        list_text(es.drop_last()) + seq![',', ' '] + expr_text(es.last())
    }
}


/// The text of an expression (see `expr_text`).
pub fn expression_text(expr: &Expression) -> (r: String)
    ensures
        r@ == expr_text(*expr),
    decreases expr, 0nat,
{
    proof {
        reveal_strlit("'");
        reveal_strlit(".");
        reveal_strlit("(");
        reveal_strlit(")");
        reveal_strlit("[");
        reveal_strlit("]");
    }
    match expr {
        Expression::Identifier(id) => id.name.clone(),
        Expression::String(s) => {
            let mut r = String::from_str("'");
            r.append(s.value.as_str());
            r.append("'");
            r
        },
        Expression::Number(n) => number_literal_text(n),
        Expression::Boolean(b) => if b.value { String::from_str("true") } else { String::from_str("false") },
        Expression::MemberAccess { object, member, .. } => {
            let mut r = expression_text(object);
            r.append(".");
            r.append(member.name.as_str());
            r
        },
        Expression::FunctionCall { function, arguments, .. } => {
            let mut r = expression_text(function);
            r.append("(");
            let inner = list_expression_text(arguments);
            r.append(inner.as_str());
            r.append(")");
            r
        },
        Expression::List { elements, .. } => {
            let mut r = String::from_str("[");
            let inner = list_expression_text(elements);
            r.append(inner.as_str());
            r.append("]");
            r
        },
    }
}

/// The texts of `es`, separated by `, ` (see `list_text`).
#[verifier::loop_isolation(false)]
pub fn list_expression_text(es: &Vec<Expression>) -> (r: String)
    ensures
        r@ == list_text(es@),
    decreases es, 1nat,
{
    proof {
        reveal_strlit(", ");
    }
    let mut out = String::new();
    let mut i: usize = 0;
    while i < es.len()
        invariant
            i <= es@.len(),
            out@ == list_text(es@.take(i as int)),
        decreases es@.len() - i,
    {
        proof {
            assert(decreases_to!(*es => es[i as int]));
            assert(es@.take(i + 1).drop_last() =~= es@.take(i as int));
            assert(es@.take(i + 1).last() == es@[i as int]);
            if i == 0 {
                assert(es@.take(1)[0] == es@[0]);
            }
        }
        let t = expression_text(&es[i]);
        if i > 0 {
            out.append(", ");
        }
        out.append(t.as_str());
        i = i + 1;
    }
    assert(es@.take(i as int) =~= es@);
    out
}


// ---------------------------------------------------------------------------
// Results and options
// ---------------------------------------------------------------------------

/// Result of running checks.
#[derive(Debug)]
pub struct CheckOutput {
    pub total: usize,
    pub passed: usize,
    pub failed: usize,
    pub errors: usize,
    pub results: Vec<SingleCheckResult>,
    pub skipped: usize,
}

/// Result of a single check.
#[derive(Debug)]
pub struct SingleCheckResult {
    pub element_path: String,
    pub check_expr: String,
    pub result: CheckResult,
}

/// Options for running checks.
#[derive(Debug)]
pub struct RunOptions {
    /// Run only the checks of elements whose path contains this text
    pub filter: Option<String>,
    /// Run at most this many checks
    pub limit: Option<usize>,
    /// Report progress
    pub verbose: bool,
}

impl Default for RunOptions {
    fn default() -> (o: Self)
        ensures
            o.filter is None,
            o.limit is None,
            !o.verbose,
    {
        RunOptions { filter: None, limit: None, verbose: false }
    }
}

/// A check result as a tag: 0 pass, 1 fail, 2 error.
pub open spec fn result_tag(r: CheckResult) -> int {
    match r {
        CheckResult::Pass => 0,
        CheckResult::Fail(_) => 1,
        CheckResult::Error(_) => 2,
    }
}

/// How many of `rs` have the tag `tag`.
pub open spec fn count_tag(rs: Seq<SingleCheckResult>, tag: int) -> nat
    decreases rs.len(),
{
    if rs.len() == 0 {
        0
    } else {
        count_tag(rs.drop_last(), tag) + if result_tag(rs.last().result) == tag { 1nat } else { 0nat }
    }
}

/// The counts of an output agree with its results: one result per check
/// run, and as many passed, failed and erroneous as the results say.
pub open spec fn output_consistent(o: CheckOutput) -> bool {
    &&& o.results@.len() == o.total
    &&& o.passed == count_tag(o.results@, 0)
    &&& o.failed == count_tag(o.results@, 1)
    &&& o.errors == count_tag(o.results@, 2)
}

/// Every result of `o` belongs to an element whose path contains the filter.
pub open spec fn results_match_filter(o: CheckOutput, filter: Option<String>) -> bool {
    filter matches Some(f) ==> forall|i: int| 0 <= i < o.results@.len() ==> spec_contains((#[trigger] o.results@[i]).element_path@, f@)
}

/// The number of checks in an element and its descendants.
pub open spec fn checks_in(e: Element) -> nat
    decreases e, 0nat,
{
    e.checks@.len() + checks_in_all(e.children@)
}

/// The number of checks in the elements `es` and their descendants.
pub open spec fn checks_in_all(es: Seq<Element>) -> nat
    decreases es, 1nat,
{
    if es.len() == 0 { 0 } else { checks_in_all(es.drop_last()) + checks_in(es.last()) }
}

/// A result as the path of its element and the text of its check.
pub open spec fn result_view(r: SingleCheckResult) -> (Seq<char>, Seq<char>) {
    (r.element_path@, r.check_expr@)
}

/// The checks of an element and of its descendants, in the order in which
/// a run takes them, each as the dotted path of its element and the text
/// of its check; `path` holds the names of the element's ancestors.
pub open spec fn element_plan(e: Element, path: Seq<Seq<char>>) -> Seq<(Seq<char>, Seq<char>)>
    decreases e, 0nat,
{
    Seq::new(e.checks@.len(), |k: int| (join_dots(path.push(e.name.name@)), expr_text(e.checks@[k].expression)))
        + elements_plan(e.children@, path.push(e.name.name@))
}

/// The checks of the elements `es` and of their descendants, in order.
pub open spec fn elements_plan(es: Seq<Element>, path: Seq<Seq<char>>) -> Seq<(Seq<char>, Seq<char>)>
    decreases es, 1nat,
{
    if es.len() == 0 {
        Seq::empty()
    } else {
        elements_plan(es.drop_last(), path) + element_plan(es.last(), path)
    }
}

/// The entries of `plan` whose element path contains the filter, if one
/// is given.
pub open spec fn matching(plan: Seq<(Seq<char>, Seq<char>)>, filter: Option<String>) -> Seq<(Seq<char>, Seq<char>)> {
    match filter {
        Some(f) => plan.filter(|x: (Seq<char>, Seq<char>)| spec_contains(x.0, f@)),
        None => plan,
    }
}

/// The first `limit` entries of `s`, where a limit is given.
pub open spec fn capped(s: Seq<(Seq<char>, Seq<char>)>, limit: Option<usize>) -> Seq<(Seq<char>, Seq<char>)> {
    match limit {
        Some(n) => if s.len() > n { s.take(n as int) } else { s },
        None => s,
    }
}

proof fn lemma_matching_add(a: Seq<(Seq<char>, Seq<char>)>, b: Seq<(Seq<char>, Seq<char>)>, filter: Option<String>)
    ensures
        matching(a + b, filter) == matching(a, filter) + matching(b, filter),
{
    if let Some(f) = filter {
        Seq::filter_distributes_over_add(a, b, |x: (Seq<char>, Seq<char>)| spec_contains(x.0, f@));
    }
}

proof fn lemma_capped_full(s: Seq<(Seq<char>, Seq<char>)>, t: Seq<(Seq<char>, Seq<char>)>, limit: Option<usize>)
    requires
        limit matches Some(n) && s.len() >= n,
    ensures
        capped(s + t, limit) == capped(s, limit),
{
    let n = limit->0;
    assert((s + t).take(n as int) =~= s.take(n as int));
    if s.len() == n {
        assert(s.take(n as int) =~= s);
    }
}

proof fn lemma_capped_capped(s: Seq<(Seq<char>, Seq<char>)>, t: Seq<(Seq<char>, Seq<char>)>, limit: Option<usize>)
    ensures
        capped(capped(s, limit) + t, limit) == capped(s + t, limit),
{
    if let Some(n) = limit {
        if s.len() > n {
            lemma_capped_full(s.take(n as int), t, limit);
            lemma_capped_full(s, t, limit);
            assert(s.take(n as int).take(n as int) =~= s.take(n as int));
        }
    }
}

proof fn lemma_matching_one(x: (Seq<char>, Seq<char>), filter: Option<String>)
    ensures
        matching(seq![x], filter) == (if (filter matches Some(f) ==> spec_contains(x.0, f@)) {
            seq![x]
        } else {
            Seq::<(Seq<char>, Seq<char>)>::empty()
        }),
{
    if let Some(f) = filter {
        reveal_with_fuel(Seq::filter, 2);
        assert(seq![x].drop_last() =~= Seq::<(Seq<char>, Seq<char>)>::empty());
    }
}

proof fn lemma_capped_push(s: Seq<(Seq<char>, Seq<char>)>, x: (Seq<char>, Seq<char>), limit: Option<usize>)
    requires
        limit matches Some(n) ==> s.len() < n,
    ensures
        capped(s.push(x), limit) == capped(s, limit).push(x),
{
}

/// Every result is a pass, a failure or an error.
pub proof fn lemma_count_tags(rs: Seq<SingleCheckResult>)
    ensures
        count_tag(rs, 0) + count_tag(rs, 1) + count_tag(rs, 2) == rs.len(),
    decreases rs.len(),
{
    if rs.len() > 0 {
        lemma_count_tags(rs.drop_last());
    }
}

/// The parts `parts` joined with dots.
pub open spec fn join_dots(parts: Seq<Seq<char>>) -> Seq<char>
    decreases parts.len(),
{
    if parts.len() == 0 {
        Seq::empty()
    } else if parts.len() == 1 {
        parts[0]
    } else {
        join_dots(parts.drop_last()) + seq!['.'] + parts.last()
    }
}

/// The parts `parts` joined with dots.
fn join_path(parts: &Vec<String>) -> (r: String)
    ensures
        r@ == join_dots(parts@.map_values(|s: String| s@)),
{
    let ghost views = parts@.map_values(|s: String| s@);
    let mut out = String::new();
    let mut i: usize = 0;
    proof {
        reveal_strlit(".");
    }
    while i < parts.len()
        invariant
            i <= parts@.len(),
            views == parts@.map_values(|s: String| s@),
            out@ == join_dots(views.take(i as int)),
        decreases parts@.len() - i,
    {
        assert(views.take(i + 1).drop_last() =~= views.take(i as int));
        assert(views.take(i + 1).last() == parts@[i as int]@);
        if i == 0 {
            assert(views.take(1)[0] == parts@[0]@);
        }
        let ghost before = out@;
        proof {
            reveal_strlit(".");
        }
        if i > 0 {
            out.append(".");
            assert(out@ =~= before + seq!['.']);
        }
        out.append(parts[i].as_str());
        proof {
            if i > 0 {
                assert(join_dots(views.take(i + 1)) == join_dots(views.take(i as int)) + seq!['.'] + parts@[i as int]@);
            }
        }
        i = i + 1;
    }
    assert(views.take(i as int) =~= views);
    out
}

/// A copy of a list of strings with one more at its end.
fn with_part(parts: &Vec<String>, last: &String) -> (r: Vec<String>)
    ensures
        r@ == parts@.push(*last),
{
    let mut out: Vec<String> = Vec::new();
    let mut i: usize = 0;
    while i < parts.len()
        invariant
            i <= parts@.len(),
            out@ == parts@.take(i as int),
        decreases parts@.len() - i,
    {
        out.push(parts[i].clone());
        assert(parts@.take(i + 1) =~= parts@.take(i as int).push(parts@[i as int]));
        i = i + 1;
    }
    assert(parts@.take(i as int) =~= parts@);
    out.push(last.clone());
    out
}


// ---------------------------------------------------------------------------
// The interpreter
// ---------------------------------------------------------------------------

/// An error diagnostic with a code, a message and a span, in no file.
fn error_with_span(code: &str, message: &str, span: Span) -> (d: Diagnostic)
    ensures
        d.severity == DiagnosticSeverity::Error,
        d.code@ == code@,
        d.message@ == message@,
        d.span == span,
{
    Diagnostic::error(code, message).with_span(span).build()
}

/// Whether an identifier named `name` can be looked up in scopes stored
/// under `keys` while the element at path `current` runs: its own scope
/// `current.name`, or any scope whose key ends with `.name` or is `name`.
pub open spec fn identifier_known(keys: Seq<Seq<char>>, current: Seq<char>, name: Seq<char>) -> bool {
    keys.contains(current + seq!['.'] + name) || exists|k: int|
        0 <= k < keys.len() && (spec_ends_with_str(#[trigger] keys[k], seq!['.'] + name) || keys[k] == name)
}

/// Whether a scope stored under one of `keys` ends with `text`.
pub open spec fn reference_known(keys: Seq<Seq<char>>, text: Seq<char>) -> bool {
    exists|k: int| 0 <= k < keys.len() && spec_ends_with_str(#[trigger] keys[k], text)
}

/// Whether `k` is a key that a lookup by suffix accepts: it ends with
/// `suffix`, or equals `also` where that is given.
pub open spec fn suffix_match(k: Seq<char>, suffix: Seq<char>, also: Option<Seq<char>>) -> bool {
    spec_ends_with_str(k, suffix) || also == Some(k)
}

/// The position of the first key at or after `i` equal to `key`, or -1.
pub open spec fn first_equal_from(keys: Seq<Seq<char>>, key: Seq<char>, i: int) -> int
    decreases keys.len() - i,
{
    if i < 0 || i >= keys.len() {
        -1
    } else if keys[i] == key {
        i
    } else {
        first_equal_from(keys, key, i + 1)
    }
}

/// The position of the first key at or after `i` that a lookup by suffix
/// accepts, or -1.
pub open spec fn first_suffix_from(keys: Seq<Seq<char>>, suffix: Seq<char>, also: Option<Seq<char>>, i: int) -> int
    decreases keys.len() - i,
{
    if i < 0 || i >= keys.len() {
        -1
    } else if suffix_match(keys[i], suffix, also) {
        i
    } else {
        first_suffix_from(keys, suffix, also, i + 1)
    }
}

/// The scope that an identifier names: the current element's own scope of
/// that name, else the first whose key ends with `.name` or is `name`.
pub open spec fn identifier_scope(keys: Seq<Seq<char>>, current: Seq<char>, name: Seq<char>) -> int {
    let exact = first_equal_from(keys, current + seq!['.'] + name, 0);
    if exact >= 0 { exact } else { first_suffix_from(keys, seq!['.'] + name, Some(name), 0) }
}

/// The scope that a reference names: the first whose key ends with its text.
pub open spec fn reference_scope(keys: Seq<Seq<char>>, text: Seq<char>) -> int {
    first_suffix_from(keys, text, None, 0)
}

proof fn lemma_first_equal(keys: Seq<Seq<char>>, key: Seq<char>, i: int, j: int)
    requires
        0 <= i <= j <= keys.len(),
        forall|k: int| i <= k < j ==> keys[k] != key,
        j < keys.len() ==> keys[j] == key,
    ensures
        first_equal_from(keys, key, i) == (if j < keys.len() { j } else { -1 }),
    decreases j - i,
{
    if i < j {
        lemma_first_equal(keys, key, i + 1, j);
    }
}

proof fn lemma_first_suffix(keys: Seq<Seq<char>>, suffix: Seq<char>, also: Option<Seq<char>>, i: int, j: int)
    requires
        0 <= i <= j <= keys.len(),
        forall|k: int| i <= k < j ==> !suffix_match(#[trigger] keys[k], suffix, also),
        j < keys.len() ==> suffix_match(keys[j], suffix, also),
    ensures
        first_suffix_from(keys, suffix, also, i) == (if j < keys.len() { j } else { -1 }),
    decreases j - i,
{
    if i < j {
        lemma_first_suffix(keys, suffix, also, i + 1, j);
    }
}

/// Whether `function` names a library function: `library.function`.
pub open spec fn is_library_function(function: Expression) -> bool {
    function matches Expression::MemberAccess { object, .. } && (*object is Identifier)
}

/// The library that `function` names, where it names a library function.
pub open spec fn library_of(function: Expression) -> Seq<char> {
    match function {
        Expression::MemberAccess { object, .. } => match *object {
            Expression::Identifier(id) => id.name@,
            _ => Seq::empty(),
        },
        _ => Seq::empty(),
    }
}

/// What evaluating an expression depends on: the names of the registered
/// libraries, the stored scopes (keys and values, in order), the path of
/// the current element and the workspace.
pub struct EvalEnv {
    pub names: Seq<Seq<char>>,
    pub keys: Seq<Seq<char>>,
    pub values: Seq<Value>,
    pub path: Seq<char>,
    pub ws: Seq<char>,
}

/// Whether `r` is what the call of `function` (`library.function`) on the
/// values `vs` gives in `env`: for a library that is not registered, the
/// error E203 "Unknown library: <library>"; otherwise what the library (of
/// type `L`) answers, its error turned into a diagnostic with the same code
/// and message.
pub open spec fn call_reply<L: Library>(env: EvalEnv, function: Expression, vs: Seq<Value>, r: Result<Value, Diagnostic>) -> bool {
    if !env.names.contains(library_of(function)) {
        r matches Err(d) && d.code@ == "E203"@ && d.message@ == "Unknown library: "@ + library_of(function)
    } else {
        exists|lib: L, a: Result<Value, LibraryError>| #[trigger] lib.answers_call(function_name(function), vs, env.ws, a)
            && match a {
                Ok(v) => r == Ok::<Value, Diagnostic>(v),
                Err(e) => r matches Err(d) && d.code@ == e.code@ && d.message@ == e.message@,
            }
    }
}

/// Whether `r` is what evaluating `expr` gives in `env`, with libraries of
/// type `L`. Literals give themselves; an identifier the scope of that name
/// (E200 where there is none); a member access `library.name` is refused
/// (E201), another one gives the scope whose key ends with its text (E202
/// where there is none); a call of what is no `library.function` is
/// refused (E205); another call evaluates its arguments in order, the
/// first error ending it, and then gives what `call_reply` says; a list
/// gives the list of its elements' values, or the first error.
pub open spec fn evaluates<L: Library>(env: EvalEnv, expr: Expression, r: Result<Value, Diagnostic>) -> bool
    decreases expr, 1nat,
{
    match expr {
        Expression::String(s) => r matches Ok(Value::String(t)) && t@ == s.value@,
        Expression::Number(n) => r matches Ok(v) && (all_zero(n.fraction@) ==> v == Value::Int(saturate(digits_value(n.whole@))))
            && (!all_zero(n.fraction@) ==> (v matches Value::Float(f) && f.text@ == number_text(n.whole@, n.fraction@))),
        Expression::Boolean(b) => r matches Ok(Value::Bool(x)) && x == b.value,
        Expression::Identifier(id) => (r is Ok) == identifier_known(env.keys, env.path, id.name@)
            && (r matches Err(d) ==> d.code@ == "E200"@ && d.span == id.span
                && d.message@ == "Undefined identifier: "@ + id.name@)
            && (r matches Ok(v) ==> same_value(env.values[identifier_scope(env.keys, env.path, id.name@)], v)),
        Expression::MemberAccess { object, member, span } => if *object is Identifier {
            r matches Err(d) && d.code@ == "E201"@ && d.span == span
        } else {
            (r is Ok) == reference_known(env.keys, expr_text(expr))
                && (r matches Err(d) ==> d.code@ == "E202"@ && d.span == span
                    && d.message@ == "Undefined reference: "@ + expr_text(expr))
                && (r matches Ok(v) ==> same_value(env.values[reference_scope(env.keys, expr_text(expr))], v))
        },
        Expression::FunctionCall { function, arguments, .. } => if !is_library_function(*function) {
            r matches Err(d) && d.code@ == "E205"@ && d.message@ == "Expected library.function"@
        } else {
            ||| (r matches Err(d) && evaluates_all::<L>(env, arguments@, Err(d)))
            ||| exists|vs: Seq<Value>| #[trigger] call_reply::<L>(env, *function, vs, r) && evaluates_all::<L>(env, arguments@, Ok(vs))
        },
        Expression::List { elements, .. } => match r {
            Ok(v) => v matches Value::List(vs) && evaluates_all::<L>(env, elements@, Ok(vs@)),
            Err(d) => evaluates_all::<L>(env, elements@, Err(d)),
        },
    }
}

/// Whether `vs` has one value for each expression of `es`.
pub open spec fn one_value_each(es: Seq<Expression>, vs: Seq<Value>) -> bool {
    vs.len() == es.len()
}

/// Whether `r` is what evaluating the expressions `es` in order gives in
/// `env`: all their values, or the first error.
pub open spec fn evaluates_all<L: Library>(env: EvalEnv, es: Seq<Expression>, r: Result<Seq<Value>, Diagnostic>) -> bool
    decreases es, 0nat,
{
    if es.len() == 0 {
        r == Ok::<Seq<Value>, Diagnostic>(Seq::empty())
    } else {
        match r {
            Ok(vs) => vs.len() == es.len() && evaluates_all::<L>(env, es.drop_last(), Ok(vs.drop_last()))
                && evaluates::<L>(env, es.last(), Ok(vs.last())),
            Err(d) => evaluates_all::<L>(env, es.drop_last(), Err(d))
                || exists|vs: Seq<Value>| #[trigger] one_value_each(es.drop_last(), vs)
                    && evaluates_all::<L>(env, es.drop_last(), Ok(vs)) && evaluates::<L>(env, es.last(), Err(d)),
        }
    }
}

/// An error of the first `k` expressions of `es` is the error of all of
/// them: evaluation stops at it.
pub proof fn lemma_error_stops<L: Library>(env: EvalEnv, es: Seq<Expression>, k: int, d: Diagnostic)
    requires
        0 <= k <= es.len(),
        evaluates_all::<L>(env, es.take(k), Err(d)),
    ensures
        evaluates_all::<L>(env, es, Err(d)),
    decreases es.len(),
{
    if k == es.len() {
        assert(es.take(k) =~= es);
    } else {
        assert(es.drop_last().take(k) =~= es.take(k));
        lemma_error_stops::<L>(env, es.drop_last(), k, d);
    }
}

/// The Hielements interpreter: it keeps the libraries, the workspace, and
/// the values of the scopes evaluated so far, by `element.path.scope` key.
pub struct Interpreter<L: Library> {
    libraries: LibraryRegistry<L>,
    workspace: String,
    scopes: Vec<(String, Value)>,
    diagnostics: Diagnostics,
    current_element_path: String,
}

impl<L: Library> Interpreter<L> {
    /// The interpreter's invariant.
    pub closed spec fn wf(&self) -> bool {
        self.libraries.wf()
    }

    /// The names of the registered libraries.
    pub closed spec fn library_names(&self) -> Seq<Seq<char>> {
        self.libraries.spec_names()
    }

    /// The registered libraries, in registration order, each under the name
    /// at its position in `library_names`.
    pub closed spec fn registered_libraries(&self) -> Seq<L> {
        self.libraries.spec_libraries()
    }

    /// The keys under which scope values are stored.
    pub closed spec fn scope_keys(&self) -> Seq<Seq<char>> {
        self.scopes@.map_values(|e: (String, Value)| e.0@)
    }

    /// The scope values, in the order of their keys.
    pub closed spec fn scope_values(&self) -> Seq<Value> {
        self.scopes@.map_values(|e: (String, Value)| e.1)
    }

    /// The path of the element whose scopes and checks are evaluated.
    pub closed spec fn current_path(&self) -> Seq<char> {
        self.current_element_path@
    }

    /// The workspace that library functions work in.
    pub closed spec fn spec_workspace(&self) -> Seq<char> {
        self.workspace@
    }

    /// What evaluating an expression depends on, as it now stands.
    pub closed spec fn eval_env(&self) -> EvalEnv {
        EvalEnv {
            names: self.library_names(),
            keys: self.scope_keys(),
            values: self.scope_values(),
            path: self.current_path(),
            ws: self.spec_workspace(),
        }
    }

    /// An interpreter for `workspace` with the libraries `libraries`.
    pub fn new(workspace: &str, libraries: LibraryRegistry<L>) -> (i: Self)
        requires
            libraries.wf(),
        ensures
            i.wf(),
            i.library_names() == libraries.spec_names(),
            i.scope_keys().len() == 0,
            i.spec_workspace() == workspace@,
    {
        let i = Interpreter {
            libraries,
            workspace: String::from_str(workspace),
            scopes: Vec::new(),
            diagnostics: Diagnostics::new(),
            current_element_path: String::new(),
        };
        assert(i.scope_keys() =~= Seq::<Seq<char>>::empty());
        i
    }

    /// Register a library, replacing one of the same name.
    pub fn register_library(&mut self, library: L)
        requires
            old(self).wf(),
        ensures
            final(self).wf(),
            exists|n: Seq<char>, i: int| #[trigger] registers_at(old(self).library_names(), old(self).registered_libraries(),
                final(self).library_names(), final(self).registered_libraries(), library, n, i),
    {
        let ghost old_names = self.libraries.spec_names();
        let ghost old_libs = self.libraries.spec_libraries();
        let ghost lib = library;
        self.libraries.register(library);
        proof {
            let (n, i) = choose|n: Seq<char>, i: int| #[trigger] registers_at(old_names, old_libs,
                self.libraries.spec_names(), self.libraries.spec_libraries(), lib, n, i);
            assert(registers_at(old_names, old_libs, self.library_names(), self.registered_libraries(), lib, n, i));
            assert(old_names == old(self).library_names());
            assert(old_libs == old(self).registered_libraries());
            assert(lib == library);
            assert(registers_at(old(self).library_names(), old(self).registered_libraries(), self.library_names(),
                self.registered_libraries(), library, n, i));
        }
    }

    /// Whether a library named `name` is registered.
    pub fn has_library(&self, name: &str) -> (b: bool)
        requires
            self.wf(),
        ensures
            b == self.library_names().contains(name@),
    {
        self.libraries.has(name)
    }

    /// The position of the first scope stored under `key`.
    fn find_scope(&self, key: &str) -> (r: Option<usize>)
        ensures
            match r {
                Some(i) => i < self.scopes@.len() && self.scope_keys()[i as int] == key@
                    && first_equal_from(self.scope_keys(), key@, 0) == i,
                None => !self.scope_keys().contains(key@) && first_equal_from(self.scope_keys(), key@, 0) == -1,
            },
    {
        let mut i: usize = 0;
        while i < self.scopes.len()
            invariant
                i <= self.scopes@.len(),
                forall|k: int| 0 <= k < i ==> self.scopes@[k].0@ != key@,
            decreases self.scopes@.len() - i,
        {
            if str_eq(self.scopes[i].0.as_str(), key) {
                proof {
                    lemma_first_equal(self.scope_keys(), key@, 0, i as int);
                }
                return Some(i);
            }
            i = i + 1;
        }
        proof {
            lemma_first_equal(self.scope_keys(), key@, 0, self.scope_keys().len() as int);
            if self.scope_keys().contains(key@) {
                let k = choose|k: int| 0 <= k < self.scope_keys().len() && self.scope_keys()[k] == key@;
                assert(self.scopes@[k].0@ == key@);
            }
        }
        None
    }

    /// The position of the first scope whose key ends with `suffix`, or,
    /// where `also_equal` is given, equals it.
    fn find_scope_ending(&self, suffix: &str, also_equal: Option<&str>) -> (r: Option<usize>)
        ensures
            match r {
                Some(i) => i < self.scopes@.len() && (spec_ends_with_str(self.scope_keys()[i as int], suffix@)
                    || (also_equal matches Some(e) && self.scope_keys()[i as int] == e@))
                    && first_suffix_from(self.scope_keys(), suffix@, match also_equal { Some(e) => Some(e@), None => None }, 0) == i,
                None => (forall|k: int| 0 <= k < self.scope_keys().len() ==> !spec_ends_with_str(#[trigger] self.scope_keys()[k], suffix@)
                    && !(also_equal matches Some(e) && self.scope_keys()[k] == e@))
                    && first_suffix_from(self.scope_keys(), suffix@, match also_equal { Some(e) => Some(e@), None => None }, 0) == -1,
            },
    {
        let ghost also = match also_equal { Some(e) => Some(e@), None => None::<Seq<char>> };
        let mut i: usize = 0;
        while i < self.scopes.len()
            invariant
                i <= self.scopes@.len(),
                also == match also_equal { Some(e) => Some(e@), None => None::<Seq<char>> },
                forall|k: int| 0 <= k < i ==> !spec_ends_with_str(#[trigger] self.scope_keys()[k], suffix@)
                    && !(also_equal matches Some(e) && self.scope_keys()[k] == e@),
            decreases self.scopes@.len() - i,
        {
            let key = self.scopes[i].0.as_str();
            let eq = match also_equal {
                Some(e) => str_eq(key, e),
                None => false,
            };
            if ends_with_str(key, suffix) || eq {
                proof {
                    assert forall|k: int| 0 <= k < i implies !suffix_match(#[trigger] self.scope_keys()[k], suffix@, also) by {}
                    lemma_first_suffix(self.scope_keys(), suffix@, also, 0, i as int);
                }
                return Some(i);
            }
            i = i + 1;
        }
        proof {
            assert forall|k: int| 0 <= k < self.scope_keys().len() implies !suffix_match(#[trigger] self.scope_keys()[k], suffix@, also) by {}
            lemma_first_suffix(self.scope_keys(), suffix@, also, 0, self.scope_keys().len() as int);
        }
        None
    }

    /// Store `value` under `key`, replacing the value stored there.
    fn insert_scope(&mut self, key: String, value: Value)
        requires
            old(self).wf(),
        ensures
            final(self).wf(),
            final(self).library_names() == old(self).library_names(),
            final(self).spec_workspace() == old(self).spec_workspace(),
            final(self).current_path() == old(self).current_path(),
            final(self).scope_keys().contains(key@),
            forall|k: Seq<char>| old(self).scope_keys().contains(k) ==> final(self).scope_keys().contains(k),
    {
        let ghost old_keys = self.scope_keys();
        match self.find_scope(key.as_str()) {
            Some(i) => {
                let ghost k = key@;
                self.scopes.set(i, (key, value));
                assert(self.scope_keys() =~= old_keys);
                assert(self.scope_keys()[i as int] == k);
            },
            None => {
                let ghost k = key@;
                self.scopes.push((key, value));
                assert(self.scope_keys() =~= old_keys.push(k));
                assert(self.scope_keys()[old_keys.len() as int] == k);
                assert forall|q: Seq<char>| old_keys.contains(q) implies self.scope_keys().contains(q) by {
                    let j = choose|j: int| 0 <= j < old_keys.len() && old_keys[j] == q;
                    assert(self.scope_keys()[j] == q);
                }
            },
        }
    }

    /// The library and function that a function expression names.
    fn get_library_function(&self, expr: &Expression) -> (r: Result<(String, String), Diagnostic>)
        ensures
            r is Ok <==> is_library_function(*expr),
            r matches Ok(p) ==> p.0@ == library_of(*expr) && (expr matches Expression::MemberAccess { member, .. } && p.1@ == member.name@),
            r matches Err(d) ==> d.code@ == "E205"@ && d.message@ == "Expected library.function"@
                && d.severity == DiagnosticSeverity::Error,
    {
        proof {
            reveal_strlit("E205");
            reveal_strlit("Expected library.function");
        }
        match expr {
            Expression::MemberAccess { object, member, span } => {
                match &**object {
                    Expression::Identifier(lib_id) => Ok((lib_id.name.clone(), member.name.clone())),
                    _ => Err(error_with_span("E205", "Expected library.function", *span)),
                }
            },
            _ => Err(error_with_span("E205", "Expected library.function", expr.span())),
        }
    }

    /// The text of an expression (see `expr_text`).
    pub fn expression_to_string(&self, expr: &Expression) -> (r: String)
        ensures
            r@ == expr_text(*expr),
    {
        expression_text(expr)
    }
}


impl<L: Library> Interpreter<L> {
    /// Evaluate the arguments `arguments` in order; the first error stops.
    #[verifier::loop_isolation(false)]
    fn evaluate_arguments(&mut self, arguments: &Vec<Expression>) -> (r: Result<Vec<Value>, Diagnostic>)
        requires
            old(self).wf(),
        ensures
            final(self).wf(),
            final(self).library_names() == old(self).library_names(),
            final(self).scope_keys() == old(self).scope_keys(),
            final(self).current_path() == old(self).current_path(),
            final(self).spec_workspace() == old(self).spec_workspace(),
            final(self).eval_env() == old(self).eval_env(),
            r matches Ok(vs) ==> evaluates_all::<L>(old(self).eval_env(), arguments@, Ok(vs@)),
            r matches Err(d) ==> d.severity == DiagnosticSeverity::Error
                && evaluates_all::<L>(old(self).eval_env(), arguments@, Err(d)),
            arguments@.len() == 0 ==> r is Ok,
        decreases arguments, 0nat,
    {
        let ghost env = self.eval_env();
        let mut values: Vec<Value> = Vec::new();
        let mut i: usize = 0;
        assert(arguments@.take(0) =~= Seq::<Expression>::empty());
        while i < arguments.len()
            invariant
                i <= arguments@.len(),
                values@.len() == i,
                self.wf(),
                self.library_names() == old(self).library_names(),
                self.scope_keys() == old(self).scope_keys(),
                self.current_path() == old(self).current_path(),
                self.spec_workspace() == old(self).spec_workspace(),
                self.eval_env() == env,
                env == old(self).eval_env(),
                evaluates_all::<L>(env, arguments@.take(i as int), Ok(values@)),
            decreases arguments@.len() - i,
        {
            proof {
                assert(decreases_to!(*arguments => arguments[i as int]));
                assert(arguments@.take(i + 1).drop_last() =~= arguments@.take(i as int));
                assert(arguments@.take(i + 1).last() == arguments@[i as int]);
            }
            let v = match self.evaluate_expression(&arguments[i]) {
                Ok(v) => v,
                Err(d) => {
                    proof {
                        let es = arguments@.take(i + 1);
                        assert(evaluates_all::<L>(env, es.drop_last(), Ok(values@)));
                        assert(evaluates::<L>(env, es.last(), Err(d)));
                        assert(one_value_each(es.drop_last(), values@));
                        assert(evaluates_all::<L>(env, es, Err(d)));
                        lemma_error_stops::<L>(env, arguments@, i + 1, d);
                    }
                    return Err(d);
                },
            };
            let ghost before = values@;
            values.push(v);
            proof {
                assert(values@.drop_last() =~= before);
            }
            i = i + 1;
        }
        assert(arguments@.take(arguments@.len() as int) =~= arguments@);
        Ok(values)
    }

    /// Evaluate an expression to a value. Literals evaluate to themselves;
    /// an identifier to the scope of that name (the current element's own
    /// first); a member access to the scope whose key ends with its text; a
    /// call `library.function(args)` to what the library returns.
    pub fn evaluate_expression(&mut self, expr: &Expression) -> (r: Result<Value, Diagnostic>)
        requires
            old(self).wf(),
        ensures
            final(self).wf(),
            final(self).library_names() == old(self).library_names(),
            final(self).scope_keys() == old(self).scope_keys(),
            final(self).current_path() == old(self).current_path(),
            final(self).spec_workspace() == old(self).spec_workspace(),
            final(self).eval_env() == old(self).eval_env(),
            r matches Err(d) ==> d.severity == DiagnosticSeverity::Error,
            evaluates::<L>(old(self).eval_env(), *expr, r),
            *expr matches Expression::FunctionCall { function, .. } && !is_library_function(*function)
                ==> *final(self) == *old(self),
        decreases expr, 1nat,
    {
        proof {
            reveal_strlit("E200");
            reveal_strlit("E201");
            reveal_strlit("E202");
            reveal_strlit("E203");
            reveal_strlit(".");
            reveal_strlit("Undefined identifier: ");
            reveal_strlit("Undefined reference: ");
        }
        match expr {
            Expression::String(s) => Ok(Value::String(s.value.clone())),
            Expression::Number(n) => Ok(number_value(n)),
            Expression::Boolean(b) => Ok(Value::Bool(b.value)),
            Expression::List { elements, .. } => {
                let values = self.evaluate_arguments(elements)?;
                Ok(Value::List(values))
            },
            Expression::Identifier(id) => {
                assert("."@ =~= seq!['.']);
                let mut key = self.current_element_path.clone();
                key.append(".");
                key.append(id.name.as_str());
                assert(key@ =~= self.current_path() + seq!['.'] + id.name@);
                if let Some(i) = self.find_scope(key.as_str()) {
                    assert(self.scope_keys().contains(key@)) by {
                        assert(self.scope_keys()[i as int] == key@);
                    }
                    return Ok(self.scopes[i].1.clone());
                }
                let suffix = concat(".", id.name.as_str());
                assert(suffix@ =~= seq!['.'] + id.name@);
                match self.find_scope_ending(suffix.as_str(), Some(id.name.as_str())) {
                    Some(i) => {
                        proof {
                            assert(spec_ends_with_str(self.scope_keys()[i as int], seq!['.'] + id.name@)
                                || self.scope_keys()[i as int] == id.name@);
                        }
                        Ok(self.scopes[i].1.clone())
                    },
                    None => {
                        let msg = concat("Undefined identifier: ", id.name.as_str());
                        Err(error_with_span("E200", msg.as_str(), id.span))
                    },
                }
            },
            Expression::MemberAccess { object, member, span } => {
                if let Expression::Identifier(lib_id) = &**object {
                    let mut msg = String::from_str("Member access ");
                    msg.append(lib_id.name.as_str());
                    msg.append(".");
                    msg.append(member.name.as_str());
                    msg.append(" cannot be evaluated directly");
                    return Err(error_with_span("E201", msg.as_str(), *span));
                }
                let scope_name = expression_text(expr);
                match self.find_scope_ending(scope_name.as_str(), None) {
                    Some(i) => Ok(self.scopes[i].1.clone()),
                    None => {
                        let msg = concat("Undefined reference: ", scope_name.as_str());
                        Err(error_with_span("E202", msg.as_str(), *span))
                    },
                }
            },
            Expression::FunctionCall { function, arguments, span } => {
                let ghost env = self.eval_env();
                let (lib_name, func_name) = self.get_library_function(function)?;
                let args = self.evaluate_arguments(arguments)?;
                let ghost args_v = args@;
                let ghost libs = self.libraries.spec_libraries();
                let answer = self.libraries.call(lib_name.as_str(), func_name.as_str(), args, self.workspace.as_str());
                let ghost ans = answer;
                proof {
                    if let Some(a) = ans {
                        let i = choose|i: int| 0 <= i < env.names.len() && env.names[i] == lib_name@
                            && (#[trigger] libs[i]).answers_call(func_name@, args_v, env.ws, a);
                        assert(libs[i].answers_call(function_name(**function), args_v, env.ws, a));
                        assert(env.names.contains(library_of(**function)));
                    }
                }
                let r = match answer {
                    Some(Ok(v)) => Ok(v),
                    Some(Err(e)) => Err(error_with_span(e.code.as_str(), e.message.as_str(), *span)),
                    None => {
                        let msg = concat("Unknown library: ", lib_name.as_str());
                        Err(error_with_span("E203", msg.as_str(), *span))
                    },
                };
                assert(call_reply::<L>(env, **function, args_v, r));
                r
            },
        }
    }
}


/// `o` with one more result `x`, which is counted.
proof fn lemma_count_push(rs: Seq<SingleCheckResult>, x: SingleCheckResult, t: int)
    ensures
        count_tag(rs.push(x), t) == count_tag(rs, t) + if result_tag(x.result) == t { 1nat } else { 0nat },
{
    assert(rs.push(x).drop_last() =~= rs);
}

/// The number of checks in `es.take(i + 1)` adds those of `es[i]`.
proof fn lemma_checks_in_take(es: Seq<Element>, i: int)
    requires
        0 <= i < es.len(),
    ensures
        checks_in_all(es.take(i + 1)) == checks_in_all(es.take(i)) + checks_in(es[i]),
{
    assert(es.take(i + 1).drop_last() =~= es.take(i));
    assert(es.take(i + 1).last() == es[i]);
}

/// A check result as plain values: its kind (0 pass, 1 fail, 2 error) and
/// its message (empty for a pass).
pub open spec fn outcome_view(c: CheckResult) -> (int, Seq<char>) {
    match c {
        CheckResult::Pass => (0, Seq::empty()),
        CheckResult::Fail(m) => (1, m@),
        CheckResult::Error(m) => (2, m@),
    }
}

/// The function that `function` names (`library.function`).
pub open spec fn function_name(function: Expression) -> Seq<char> {
    match function {
        Expression::MemberAccess { member, .. } => member.name@,
        _ => Seq::empty(),
    }
}

/// A member access `a.b.s` whose text is the key of a stored scope (as a
/// scope `s` of the element `a.b` is stored) finds a scope: it evaluates
/// to a value, never to the error E202.
pub proof fn law_stored_scope_is_found<L: Library>(env: EvalEnv, e: Expression, r: Result<Value, Diagnostic>)
    requires
        e matches Expression::MemberAccess { object, .. } && !(*object is Identifier),
        env.keys.contains(expr_text(e)),
        evaluates::<L>(env, e, r),
    ensures
        r is Ok,
{
    let k = choose|k: int| 0 <= k < env.keys.len() && env.keys[k] == expr_text(e);
    let t = expr_text(e);
    assert(t.skip(t.len() - t.len()) =~= t);
    assert(spec_ends_with_str(env.keys[k], t));
}

/// Whether evaluating `e` can fail for the current element at `path`,
/// with the libraries named `names` in the workspace `ws`, where at least
/// the scopes with the keys `keys` are stored.
pub open spec fn may_fail<L: Library>(names: Seq<Seq<char>>, ws: Seq<char>, keys: Seq<Seq<char>>, path: Seq<char>, e: Expression) -> bool {
    exists|env: EvalEnv, d: Diagnostic| env.names == names && env.ws == ws && env.path == path
        && (forall|k: Seq<char>| keys.contains(k) ==> env.keys.contains(k))
        && #[trigger] evaluates::<L>(env, e, Err(d))
}

/// Whether `c` is what a run records for some answer that a library of
/// type `L` gives to the check `function_name(function)` on the values
/// `vs` in the workspace `ws`.
pub open spec fn library_answers<L: Library>(ws: Seq<char>, function: Expression, vs: Seq<Value>, c: CheckResult) -> bool {
    exists|lib: L, a: Result<CheckResult, LibraryError>|
        #[trigger] lib.answers_check(function_name(function), vs, ws, a) && outcome_view(answer_result(a)) == outcome_view(c)
}

/// Whether `c` is what a run may record for the check `expr` in `env`: for
/// what is no function call, the error "Check must be a function call";
/// for a call of what is no `library.function`, the error "Expected
/// library.function"; where an argument fails to evaluate, an error with
/// the message of the first such failure; else, on the arguments' values,
/// for a library that is not registered the error "Unknown library:
/// <library>", and for one that is what its answer is recorded as (see
/// `answer_result`).
pub open spec fn check_outcome<L: Library>(env: EvalEnv, expr: Expression, c: CheckResult) -> bool {
    match expr {
        Expression::FunctionCall { function, arguments, .. } => if !is_library_function(*function) {
            outcome_view(c) == (2int, "Expected library.function"@)
        } else {
            ||| exists|d: Diagnostic| #[trigger] evaluates_all::<L>(env, arguments@, Err(d)) && outcome_view(c) == (2int, d.message@)
            ||| exists|vs: Seq<Value>| #[trigger] evaluates_all::<L>(env, arguments@, Ok(vs)) && ((!env.names.contains(library_of(*function)) && outcome_view(c) == (2int, "Unknown library: "@ + library_of(*function)))
                || (env.names.contains(library_of(*function)) && library_answers::<L>(env.ws, *function, vs, c)))
        },
        _ => outcome_view(c) == (2int, "Check must be a function call"@),
    }
}

/// Whether the recorded result `r` is an outcome that its check, as its
/// text reads, may have (see `check_outcome`) with the libraries named
/// `names` in the workspace `ws`.
pub open spec fn outcome_justified<L: Library>(names: Seq<Seq<char>>, ws: Seq<char>, r: SingleCheckResult) -> bool {
    exists|e: Expression, env: EvalEnv| #[trigger] check_outcome::<L>(env, e, r.result) && env.names == names && env.ws == ws
        && expr_text(e) == r.check_expr@
}

/// Whether every result of `rs` is justified.
pub open spec fn outcomes_justified<L: Library>(names: Seq<Seq<char>>, ws: Seq<char>, rs: Seq<SingleCheckResult>) -> bool {
    forall|i: int| 0 <= i < rs.len() ==> #[trigger] outcome_justified::<L>(names, ws, rs[i])
}

/// What a run records for the answer to a check of the library named
/// `library`: where the library is not registered (`None`), the error
/// "Unknown library: <library>"; where it answered `Ok(c)`, `c`; where it
/// answered `Err(e)`, an error with `e`'s message.
pub fn answer_outcome(library: &str, answer: Option<Result<CheckResult, LibraryError>>) -> (c: CheckResult)
    ensures
        match answer {
            None => outcome_view(c) == (2int, "Unknown library: "@ + library@),
            Some(a) => outcome_view(c) == outcome_view(answer_result(a)),
        },
{
    match answer {
        Some(Ok(c)) => c,
        Some(Err(e)) => CheckResult::Error(e.message),
        None => CheckResult::Error(concat("Unknown library: ", library)),
    }
}

/// The progress line of a verbose run for a check's result:
/// `[verbose] Running: <path> :: <check> ... ` and then `PASS`,
/// `FAIL: <message>` or `ERROR: <message>`.
pub open spec fn progress_text(r: SingleCheckResult) -> Seq<char> {
    "[verbose] Running: "@ + r.element_path@ + " :: "@ + r.check_expr@ + " ... "@ + match r.result {
        CheckResult::Pass => "PASS"@,
        CheckResult::Fail(m) => "FAIL: "@ + m@,
        CheckResult::Error(m) => "ERROR: "@ + m@,
    }
}

/// The progress lines of a verbose run, one for each result, in order.
pub fn progress_lines(output: &CheckOutput) -> (lines: Vec<String>)
    ensures
        lines@.len() == output.results@.len(),
        forall|i: int| 0 <= i < lines@.len() ==> (#[trigger] lines@[i])@ == progress_text(output.results@[i]),
{
    let mut lines: Vec<String> = Vec::new();
    let mut i: usize = 0;
    while i < output.results.len()
        invariant
            i <= output.results@.len(),
            lines@.len() == i,
            forall|k: int| 0 <= k < i ==> (#[trigger] lines@[k])@ == progress_text(output.results@[k]),
        decreases output.results@.len() - i,
    {
        let r = &output.results[i];
        let mut line = concat("[verbose] Running: ", r.element_path.as_str());
        line.append(" :: ");
        line.append(r.check_expr.as_str());
        line.append(" ... ");
        match &r.result {
            CheckResult::Pass => line.append("PASS"),
            CheckResult::Fail(m) => {
                line.append("FAIL: ");
                line.append(m.as_str());
            },
            CheckResult::Error(m) => {
                line.append("ERROR: ");
                line.append(m.as_str());
            },
        }
        assert(line@ =~= progress_text(output.results@[i as int]));
        lines.push(line);
        i = i + 1;
    }
    lines
}

impl<L: Library> Interpreter<L> {
    /// Run a check: a call `library.check(args)` of a library's check; what
    /// keeps it from running is recorded as an error.
    fn run_check(&mut self, expr: &Expression) -> (r: CheckResult)
        requires
            old(self).wf(),
        ensures
            final(self).wf(),
            final(self).library_names() == old(self).library_names(),
            final(self).scope_keys() == old(self).scope_keys(),
            final(self).current_path() == old(self).current_path(),
            final(self).spec_workspace() == old(self).spec_workspace(),
            final(self).eval_env() == old(self).eval_env(),
            check_outcome::<L>(old(self).eval_env(), *expr, r),
    {
        proof {
            reveal_strlit("Check must be a function call");
        }
        match expr {
            Expression::FunctionCall { function, arguments, span } => {
                let (lib_name, func_name) = match self.get_library_function(function) {
                    Ok(p) => p,
                    Err(d) => return CheckResult::Error(d.message),
                };
                let ghost env = self.eval_env();
                let args = match self.evaluate_arguments(arguments) {
                    Ok(a) => a,
                    Err(d) => {
                        return CheckResult::Error(d.message);
                    },
                };
                let ghost args_v = args@;
                let ghost names = self.library_names();
                let ghost ws = self.spec_workspace();
                let ghost libs = self.libraries.spec_libraries();
                let answer = self.libraries.check(lib_name.as_str(), func_name.as_str(), args, self.workspace.as_str());
                let ghost ans = answer;
                let c = answer_outcome(lib_name.as_str(), answer);
                proof {
                    if let Some(a) = ans {
                        let i = choose|i: int| 0 <= i < names.len() && names[i] == lib_name@
                            && (#[trigger] libs[i]).answers_check(func_name@, args_v, ws, a);
                        let lib = libs[i];
                        assert(lib.answers_check(function_name(**function), args_v, ws, a));
                        assert(names.contains(library_of(**function)));
                        assert(library_answers::<L>(env.ws, **function, args_v, c));
                    }
                }
                assert(evaluates_all::<L>(env, arguments@, Ok(args_v)));
                c
            },
            _ => CheckResult::Error(String::from_str("Check must be a function call")),
        }
    }

    /// Run the checks of an element and of its descendants, after
    /// evaluating its scopes. Checks beyond the limit, and those of elements
    /// whose path does not contain the filter, are skipped.
    #[verifier::rlimit(40)]
    fn run_element_with_options(&mut self, element: &Element, path: &Vec<String>, output: &mut CheckOutput, options: &RunOptions)
        requires
            old(self).wf(),
            output_consistent(*old(output)),
            old(output).total + old(output).skipped + checks_in(*element) <= usize::MAX,
        ensures
            final(self).wf(),
            forall|k: Seq<char>| old(self).scope_keys().contains(k) ==> final(self).scope_keys().contains(k),
            (options.limit matches Some(n) ==> old(output).results@.len() < n) ==> forall|i: int|
                0 <= i < element.scopes@.len() && (#[trigger] element.scopes@[i]).expression is Some ==> (
                final(self).scope_keys().contains(join_dots(path@.map_values(|s: String| s@).push(element.name.name@))
                    + "."@ + element.scopes@[i].name.name@)
                || may_fail::<L>(old(self).library_names(), old(self).spec_workspace(), old(self).scope_keys(),
                    join_dots(path@.map_values(|s: String| s@).push(element.name.name@)), element.scopes@[i].expression->0)),
            final(output).results@.len() >= old(output).results@.len(),
            final(output).results@.take(old(output).results@.len() as int) == old(output).results@,
            old(output).passed <= final(output).passed,
            old(output).failed <= final(output).failed,
            old(output).errors <= final(output).errors,
            outcomes_justified::<L>(old(self).library_names(), old(self).spec_workspace(), old(output).results@)
                ==> outcomes_justified::<L>(old(self).library_names(), old(self).spec_workspace(), final(output).results@),
            final(self).library_names() == old(self).library_names(),
            final(self).spec_workspace() == old(self).spec_workspace(),
            output_consistent(*final(output)),
            results_match_filter(*old(output), options.filter) ==> results_match_filter(*final(output), options.filter),
            old(output).total <= final(output).total,
            old(output).skipped <= final(output).skipped,
            final(output).total + final(output).skipped <= old(output).total + old(output).skipped + checks_in(*element),
            (options.limit matches Some(n) ==> old(output).total <= n) ==> (options.limit matches Some(n) ==> final(output).total <= n),
            options.limit is None && options.filter is None ==> final(output).total == old(output).total + checks_in(*element)
                && final(output).skipped == old(output).skipped
                && final(output).results@.map_values(|r: SingleCheckResult| result_view(r))
                    == old(output).results@.map_values(|r: SingleCheckResult| result_view(r))
                    + element_plan(*element, path@.map_values(|s: String| s@)),
            (options.limit matches Some(n) ==> old(output).total <= n)
                ==> final(output).results@.map_values(|r: SingleCheckResult| result_view(r)) == capped(
                old(output).results@.map_values(|r: SingleCheckResult| result_view(r))
                    + matching(element_plan(*element, path@.map_values(|s: String| s@)), options.filter),
                options.limit),
        decreases element,
    {
        let ghost mf0 = results_match_filter(*output, options.filter);
        let ghost oj0 = outcomes_justified::<L>(self.library_names(), self.spec_workspace(), output.results@);
        let ghost lim0 = options.limit matches Some(n) ==> output.total <= n;
        let current_path = with_part(path, &element.name.name);
        let path_str = join_path(&current_path);
        self.current_element_path = path_str.clone();
        if let Some(limit) = options.limit {
            if output.results.len() >= limit {
                proof {
                    if lim0 {
                        lemma_capped_full(output.results@.map_values(|r: SingleCheckResult| result_view(r)),
                            matching(element_plan(*element, path@.map_values(|s: String| s@)), options.filter), options.limit);
                        assert(output.results@.map_values(|r: SingleCheckResult| result_view(r)).len() == limit);
                        assert(output.results@.map_values(|r: SingleCheckResult| result_view(r)).take(limit as int)
                            =~= output.results@.map_values(|r: SingleCheckResult| result_view(r)));
                    }
                }
                return;
            }
        }
        let matches_filter = match &options.filter {
            Some(f) => contains_str(path_str.as_str(), f.as_str()),
            None => true,
        };
        let ghost start_total = output.total;
        let ghost start_skipped = output.skipped;
        let ghost start_full = output.results@;
        let ghost start_passed = output.passed;
        let ghost start_failed = output.failed;
        let ghost start_errors = output.errors;
        let ghost start_results = output.results@.map_values(|r: SingleCheckResult| result_view(r));
        let ghost pv = path@.map_values(|s: String| s@).push(element.name.name@);
        assert(current_path@.map_values(|s: String| s@) =~= pv);
        let ghost names = self.library_names();
        let ghost ws = self.spec_workspace();
        let ghost keys0 = self.scope_keys();
        let ghost pstr = join_dots(pv);
        proof {
            reveal_strlit(".");
        }
        let mut s: usize = 0;
        while s < element.scopes.len()
            invariant
                s <= element.scopes@.len(),
                self.wf(),
                self.library_names() == names,
                self.spec_workspace() == ws,
                self.current_path() == pstr,
                path_str@ == pstr,
                forall|k: Seq<char>| keys0.contains(k) ==> self.scope_keys().contains(k),
                forall|i: int| 0 <= i < s && (#[trigger] element.scopes@[i]).expression is Some ==> (
                    self.scope_keys().contains(pstr + "."@ + element.scopes@[i].name.name@)
                    || may_fail::<L>(names, ws, keys0, pstr, element.scopes@[i].expression->0)),
            decreases element.scopes@.len() - s,
        {
            let scope = &element.scopes[s];
            let ghost keys1 = self.scope_keys();
            if let Some(e) = &scope.expression {
                let ghost env = self.eval_env();
                match self.evaluate_expression(e) {
                    Ok(value) => {
                        let mut key = path_str.clone();
                        key.append(".");
                        key.append(scope.name.name.as_str());
                        self.insert_scope(key, value);
                        assert(self.scope_keys().contains(pstr + "."@ + element.scopes@[s as int].name.name@));
                    },
                    Err(d) => {
                        proof {
                            assert(evaluates::<L>(env, *e, Err(d)));
                            assert(may_fail::<L>(names, ws, keys0, pstr, element.scopes@[s as int].expression->0));
                        }
                        self.diagnostics.push(d);
                    },
                }
            }
            proof {
                assert forall|i: int| 0 <= i < s + 1 && (#[trigger] element.scopes@[i]).expression is Some implies (
                    self.scope_keys().contains(pstr + "."@ + element.scopes@[i].name.name@)
                    || may_fail::<L>(names, ws, keys0, pstr, element.scopes@[i].expression->0)) by {
                    if i < s {
                        if keys1.contains(pstr + "."@ + element.scopes@[i].name.name@) {
                            assert(self.scope_keys().contains(pstr + "."@ + element.scopes@[i].name.name@));
                        }
                    }
                }
            }
            s = s + 1;
        }
        let mut k: usize = 0;
        while k < element.checks.len()
            invariant
                k <= element.checks@.len(),
                self.wf(),
                self.library_names() == names,
                self.spec_workspace() == ws,
                output.results@.len() >= start_full.len(),
                output.results@.take(start_full.len() as int) == start_full,
                start_passed <= output.passed,
                start_failed <= output.failed,
                start_errors <= output.errors,
                oj0 ==> outcomes_justified::<L>(names, ws, output.results@),
                output_consistent(*output),
                mf0 ==> results_match_filter(*output, options.filter),
                forall|k: Seq<char>| keys0.contains(k) ==> self.scope_keys().contains(k),
                forall|i: int| 0 <= i < element.scopes@.len() && (#[trigger] element.scopes@[i]).expression is Some ==> (
                    self.scope_keys().contains(pstr + "."@ + element.scopes@[i].name.name@)
                    || may_fail::<L>(names, ws, keys0, pstr, element.scopes@[i].expression->0)),
                output.total + output.skipped == start_total + start_skipped + k,
                start_total <= output.total,
                start_skipped <= output.skipped,
                start_total + start_skipped + checks_in(*element) <= usize::MAX,
                lim0 ==> (options.limit matches Some(n) ==> output.total <= n),
                options.limit is None && options.filter is None ==> output.skipped == start_skipped,
                options.filter is None ==> matches_filter,
                matches_filter ==> (options.filter matches Some(f) ==> spec_contains(path_str@, f@)),
                path_str@ == join_dots(pv),
                options.limit is None && options.filter is None ==> output.results@.map_values(|r: SingleCheckResult| result_view(r))
                    == start_results + Seq::new(k as nat, |j: int| (join_dots(pv), expr_text(element.checks@[j].expression))),
                lim0 ==> output.results@.map_values(|r: SingleCheckResult| result_view(r)) == capped(start_results
                    + matching(Seq::new(k as nat, |j: int| (join_dots(pv), expr_text(element.checks@[j].expression))), options.filter),
                    options.limit),
                lim0 ==> (options.limit matches Some(n) ==> start_results.len() <= n),
                matches_filter == (options.filter matches Some(f) ==> spec_contains(path_str@, f@)),
            decreases element.checks@.len() - k,
        {
            let check = &element.checks[k];
            let ghost cur = Seq::new(k as nat, |j: int| (join_dots(pv), expr_text(element.checks@[j].expression)));
            let ghost x = (join_dots(pv), expr_text(check.expression));
            let ghost big_s = start_results + matching(cur, options.filter);
            proof {
                assert(Seq::new((k + 1) as nat, |j: int| (join_dots(pv), expr_text(element.checks@[j].expression))) =~= cur + seq![x]);
                lemma_matching_add(cur, seq![x], options.filter);
                lemma_matching_one(x, options.filter);
                assert(start_results + matching(cur + seq![x], options.filter) =~= big_s + matching(seq![x], options.filter));
            }
            k = k + 1;
            if let Some(limit) = options.limit {
                if output.results.len() >= limit {
                    proof {
                        if lim0 {
                            lemma_capped_full(big_s, matching(seq![x], options.filter), options.limit);
                        }
                    }
                    output.skipped = output.skipped + 1;
                    continue;
                }
            }
            let check_expr = expression_text(&check.expression);
            if !matches_filter {
                proof {
                    assert(big_s + matching(seq![x], options.filter) =~= big_s);
                }
                output.skipped = output.skipped + 1;
                continue;
            }
            proof {
                lemma_count_tags(output.results@);
            }
            output.total = output.total + 1;
            let ghost before = output.results@;
            let result = self.run_check(&check.expression);
            match &result {
                CheckResult::Pass => output.passed = output.passed + 1,
                CheckResult::Fail(_) => output.failed = output.failed + 1,
                CheckResult::Error(_) => output.errors = output.errors + 1,
            }
            let single = SingleCheckResult { element_path: path_str.clone(), check_expr, result };
            output.results.push(single);
            proof {
                assert(output.results@.map_values(|r: SingleCheckResult| result_view(r))
                    =~= before.map_values(|r: SingleCheckResult| result_view(r)).push(result_view(single)));
                assert(result_view(single) == x);
                if lim0 {
                    lemma_capped_push(big_s, x, options.limit);
                }
                assert(big_s + seq![x] =~= big_s.push(x));
                if options.limit is None && options.filter is None {
                    assert(Seq::new(k as nat, |j: int| (join_dots(pv), expr_text(element.checks@[j].expression)))
                        =~= Seq::new((k - 1) as nat, |j: int| (join_dots(pv), expr_text(element.checks@[j].expression)))
                        .push((join_dots(pv), expr_text(element.checks@[k - 1].expression))));
                }
                lemma_count_push(before, single, 0);
                lemma_count_push(before, single, 1);
                lemma_count_push(before, single, 2);
                if mf0 {
                    assert forall|i: int| 0 <= i < output.results@.len() && options.filter is Some
                        implies spec_contains((#[trigger] output.results@[i]).element_path@, options.filter->0@) by {
                        if i < before.len() {
                            assert(output.results@[i] == before[i]);
                        }
                    }
                }
                assert(output.results@.take(start_full.len() as int) =~= before.take(start_full.len() as int));
                assert(outcome_justified::<L>(names, ws, single));
                if oj0 {
                    assert forall|i: int| 0 <= i < output.results@.len() implies #[trigger] outcome_justified::<L>(names, ws, output.results@[i]) by {
                        if i < before.len() {
                            assert(output.results@[i] == before[i]);
                        }
                    }
                }
            }
        }
        let mut c: usize = 0;
        proof {
            assert(element.children@.take(0) =~= Seq::<Element>::empty());
            assert(Seq::new(element.checks@.len(), |j: int| (join_dots(pv), expr_text(element.checks@[j].expression)))
                + elements_plan(element.children@.take(0), pv)
                =~= Seq::new(element.checks@.len(), |j: int| (join_dots(pv), expr_text(element.checks@[j].expression))));
        }
        while c < element.children.len()
            invariant
                c <= element.children@.len(),
                self.wf(),
                self.library_names() == names,
                self.spec_workspace() == ws,
                output.results@.len() >= start_full.len(),
                output.results@.take(start_full.len() as int) == start_full,
                start_passed <= output.passed,
                start_failed <= output.failed,
                start_errors <= output.errors,
                oj0 ==> outcomes_justified::<L>(names, ws, output.results@),
                output_consistent(*output),
                mf0 ==> results_match_filter(*output, options.filter),
                forall|k: Seq<char>| keys0.contains(k) ==> self.scope_keys().contains(k),
                forall|i: int| 0 <= i < element.scopes@.len() && (#[trigger] element.scopes@[i]).expression is Some ==> (
                    self.scope_keys().contains(pstr + "."@ + element.scopes@[i].name.name@)
                    || may_fail::<L>(names, ws, keys0, pstr, element.scopes@[i].expression->0)),
                start_total <= output.total,
                start_skipped <= output.skipped,
                output.total + output.skipped <= start_total + start_skipped + element.checks@.len()
                    + checks_in_all(element.children@.take(c as int)),
                start_total + start_skipped + checks_in(*element) <= usize::MAX,
                checks_in(*element) == element.checks@.len() + checks_in_all(element.children@),
                lim0 ==> (options.limit matches Some(n) ==> output.total <= n),
                options.limit is None && options.filter is None ==> output.total == start_total + element.checks@.len()
                    + checks_in_all(element.children@.take(c as int)) && output.skipped == start_skipped
                    && output.results@.map_values(|r: SingleCheckResult| result_view(r))
                        == start_results + Seq::new(element.checks@.len(), |j: int| (join_dots(pv), expr_text(element.checks@[j].expression)))
                        + elements_plan(element.children@.take(c as int), pv),
                current_path@.map_values(|s: String| s@) == pv,
                lim0 ==> output.results@.map_values(|r: SingleCheckResult| result_view(r)) == capped(start_results
                    + matching(Seq::new(element.checks@.len(), |j: int| (join_dots(pv), expr_text(element.checks@[j].expression)))
                        + elements_plan(element.children@.take(c as int), pv), options.filter), options.limit),
                pv == path@.map_values(|s: String| s@).push(element.name.name@),
            decreases element.children@.len() - c,
        {
            proof {
                lemma_checks_in_take(element.children@, c as int);
                lemma_checks_in_le(element.children@, c as int + 1);
            }
            let ghost checks_seq = Seq::new(element.checks@.len(), |j: int| (join_dots(pv), expr_text(element.checks@[j].expression)));
            let ghost a = checks_seq + elements_plan(element.children@.take(c as int), pv);
            let ghost child_plan = element_plan(element.children@[c as int], pv);
            let ghost big_s = start_results + matching(a, options.filter);
            proof {
                assert(element.children@.take(c + 1).drop_last() =~= element.children@.take(c as int));
                assert(element.children@.take(c + 1).last() == element.children@[c as int]);
                assert(checks_seq + elements_plan(element.children@.take(c + 1), pv) =~= a + child_plan);
                lemma_matching_add(a, child_plan, options.filter);
                lemma_capped_capped(big_s, matching(child_plan, options.filter), options.limit);
                assert(big_s + matching(child_plan, options.filter) =~= start_results + matching(a + child_plan, options.filter));
            }
            self.run_element_with_options(&element.children[c], &current_path, output, options);
            c = c + 1;
        }
        proof {
            assert(element.children@.take(c as int) =~= element.children@);
        }
    }
}

/// The checks of a prefix of `es` are no more than those of `es`.
proof fn lemma_checks_in_le(es: Seq<Element>, n: int)
    requires
        0 <= n <= es.len(),
    ensures
        checks_in_all(es.take(n)) <= checks_in_all(es),
    decreases es.len() - n,
{
    if n < es.len() {
        lemma_checks_in_take(es, n);
        lemma_checks_in_le(es, n + 1);
    } else {
        assert(es.take(n) =~= es);
    }
}


/// Whether an import asks for a library that is not registered: its path
/// is a dotted name whose first part names no library of `names`.
pub open spec fn imports_unknown_library(imp: ImportStatement, names: Seq<Seq<char>>) -> bool {
    imp.path matches ImportPath::Identifier(parts) && parts@.len() > 0 && !names.contains(parts@[0].name@)
}

/// The first part of an import's dotted path.
pub open spec fn import_head(imp: ImportStatement) -> Identifier {
    match imp.path {
        ImportPath::Identifier(parts) => parts@[0],
        _ => arbitrary(),
    }
}

/// Whether `d` is the warning for an unknown library named by `id`.
pub open spec fn unknown_library_warning(d: Diagnostic, id: Identifier, file: Seq<char>) -> bool {
    &&& d.severity == DiagnosticSeverity::Warning
    &&& d.code@ == "W001"@
    &&& d.message@ == "Unknown library '"@ + id.name@ + "' (will be resolved at runtime)"@
    &&& d.file@ == file
    &&& d.span == id.span
}

/// Whether `ds` are the warnings, in order, for the imports of `imports`
/// that ask for a library not among `names`.
pub open spec fn warns_unknown_libraries(imports: Seq<ImportStatement>, names: Seq<Seq<char>>, file: Seq<char>, ds: Seq<Diagnostic>) -> bool
    decreases imports.len(),
{
    if imports.len() == 0 {
        ds.len() == 0
    } else if imports_unknown_library(imports.last(), names) {
        ds.len() > 0 && unknown_library_warning(ds.last(), import_head(imports.last()), file)
            && warns_unknown_libraries(imports.drop_last(), names, file, ds.drop_last())
    } else {
        warns_unknown_libraries(imports.drop_last(), names, file, ds)
    }
}

impl<L: Library> Interpreter<L> {
    /// The warnings for the imports of libraries that are not registered.
    fn validate_semantics(&self, program: &Program, file_path: &str) -> (r: Diagnostics)
        requires
            self.wf(),
        ensures
            warns_unknown_libraries(program.imports@, self.library_names(), file_path@, r@),
    {
        let mut diagnostics = Diagnostics::new();
        let mut i: usize = 0;
        proof {
            reveal_strlit("W001");
            reveal_strlit("Unknown library '");
            reveal_strlit("' (will be resolved at runtime)");
        }
        while i < program.imports.len()
            invariant
                i <= program.imports@.len(),
                self.wf(),
                warns_unknown_libraries(program.imports@.take(i as int), self.library_names(), file_path@, diagnostics@),
            decreases program.imports@.len() - i,
        {
            let imp = &program.imports[i];
            assert(program.imports@.take(i + 1).drop_last() =~= program.imports@.take(i as int));
            assert(program.imports@.take(i + 1).last() == *imp);
            if let ImportPath::Identifier(parts) = &imp.path {
                if parts.len() > 0 {
                    let first = &parts[0];
                    if !self.libraries.has(first.name.as_str()) {
                        let mut msg = String::from_str("Unknown library '");
                        msg.append(first.name.as_str());
                        msg.append("' (will be resolved at runtime)");
                        let d = Diagnostic::warning("W001", msg.as_str()).with_file(file_path).with_span(first.span).build();
                        let ghost before = diagnostics@;
                        diagnostics.push(d);
                        assert(diagnostics@.drop_last() =~= before);
                    }
                }
            }
            i = i + 1;
        }
        assert(program.imports@.take(i as int) =~= program.imports@);
        diagnostics
    }

    /// Parse and validate a source file. The program is always returned; the
    /// diagnostics are the parser's errors followed by a warning for each
    /// import of a library that is not registered.
    pub fn validate(&mut self, source: &str, file_path: &str) -> (r: (Option<Program>, Diagnostics))
        requires
            old(self).wf(),
            source@.len() <= usize::MAX / 8,
        ensures
            final(self).wf(),
            final(self).library_names() == old(self).library_names(),
            r.0 is Some,
            exists|t: Seq<Token>, n: int| #![trigger r.1@.skip(n), program_at(t, 0)] 0 <= n <= r.1@.len()
                && (forall|i: int| 0 <= i < n ==> (#[trigger] r.1@[i]).severity == DiagnosticSeverity::Error)
                && warns_unknown_libraries(r.0.unwrap().imports@, old(self).library_names(), file_path@, r.1@.skip(n))
                && token_views(t) == lexed(source@)
                && (program_at(t, 0) matches Some(pv) ==> n == 0 && program_views(r.0.unwrap(), pv))
                && (program_at(t, 0) is None ==> n > 0)
                && declarations_from_tokens(t, r.0.unwrap()),
    {
        let parser = Parser::new(source, file_path);
        let ghost t = parser.spec_tokens();
        let (program, mut diagnostics) = parser.parse();
        let ghost n = diagnostics@.len() as int;
        let ghost parsed = diagnostics@;
        if let Some(prog) = &program {
            let semantic = self.validate_semantics(prog, file_path);
            diagnostics.extend(semantic);
            assert(diagnostics@.skip(n) =~= semantic@);
            assert forall|i: int| 0 <= i < n implies (#[trigger] diagnostics@[i]).severity == DiagnosticSeverity::Error by {
                assert(diagnostics@[i] == parsed[i]);
            }
        }
        let r = (program, diagnostics);
        assert(r.1@.skip(n) == diagnostics@.skip(n));
        assert(warns_unknown_libraries(r.0.unwrap().imports@, old(self).library_names(), file_path@, r.1@.skip(n)));
        assert(program_at(t, 0) matches Some(pv) ==> n == 0 && program_views(r.0.unwrap(), pv));
        r
    }

    /// Run all checks of a program, with no filter and no limit.
    pub fn run(&mut self, program: &Program) -> (output: CheckOutput)
        requires
            old(self).wf(),
            checks_in_all(program.elements@) <= usize::MAX,
        ensures
            final(self).wf(),
            output_consistent(output),
            output.passed + output.failed + output.errors == output.total,
            output.total == checks_in_all(program.elements@),
            output.skipped == 0,
            output.results@.map_values(|r: SingleCheckResult| result_view(r)) == elements_plan(program.elements@, Seq::empty()),
            outcomes_justified::<L>(old(self).library_names(), old(self).spec_workspace(), output.results@),
    {
        let options = RunOptions { filter: None, limit: None, verbose: false };
        self.run_with_options(program, &options)
    }

    /// Run the checks of a program's elements, in order, with options.
    pub fn run_with_options(&mut self, program: &Program, options: &RunOptions) -> (output: CheckOutput)
        requires
            old(self).wf(),
            checks_in_all(program.elements@) <= usize::MAX,
        ensures
            final(self).wf(),
            final(self).library_names() == old(self).library_names(),
            output_consistent(output),
            output.passed + output.failed + output.errors == output.total,
            results_match_filter(output, options.filter),
            output.total + output.skipped <= checks_in_all(program.elements@),
            options.limit matches Some(n) ==> output.total <= n,
            options.limit is None && options.filter is None ==> output.total == checks_in_all(program.elements@)
                && output.skipped == 0
                && output.results@.map_values(|r: SingleCheckResult| result_view(r)) == elements_plan(program.elements@, Seq::empty()),
            output.results@.map_values(|r: SingleCheckResult| result_view(r))
                == capped(matching(elements_plan(program.elements@, Seq::empty()), options.filter), options.limit),
            outcomes_justified::<L>(old(self).library_names(), old(self).spec_workspace(), output.results@),
    {
        let mut output = CheckOutput { total: 0, passed: 0, failed: 0, errors: 0, results: Vec::new(), skipped: 0 };
        let ghost names = self.library_names();
        let ghost ws = self.spec_workspace();
        let root: Vec<String> = Vec::new();
        let mut e: usize = 0;
        assert(root@.map_values(|s: String| s@) =~= Seq::<Seq<char>>::empty());
        assert(output.results@.map_values(|r: SingleCheckResult| result_view(r)) =~= elements_plan(program.elements@.take(0), Seq::empty()));
        proof {
            reveal(Seq::filter);
        }
        while e < program.elements.len()
            invariant
                e <= program.elements@.len(),
                self.wf(),
                self.library_names() == names,
                self.spec_workspace() == ws,
                outcomes_justified::<L>(names, ws, output.results@),
                output_consistent(output),
                results_match_filter(output, options.filter),
                output.total + output.skipped <= checks_in_all(program.elements@.take(e as int)),
                checks_in_all(program.elements@) <= usize::MAX,
                root@.len() == 0,
                options.limit matches Some(n) ==> output.total <= n,
                options.limit is None && options.filter is None ==> output.total == checks_in_all(program.elements@.take(e as int))
                    && output.skipped == 0,
                options.limit is None && options.filter is None ==> output.results@.map_values(|r: SingleCheckResult| result_view(r))
                    == elements_plan(program.elements@.take(e as int), Seq::empty()),
                root@.map_values(|s: String| s@) == Seq::<Seq<char>>::empty(),
                output.results@.map_values(|r: SingleCheckResult| result_view(r))
                    == capped(matching(elements_plan(program.elements@.take(e as int), Seq::empty()), options.filter), options.limit),
            decreases program.elements@.len() - e,
        {
            proof {
                lemma_checks_in_take(program.elements@, e as int);
                lemma_checks_in_le(program.elements@, e as int + 1);
            }
            let ghost a = elements_plan(program.elements@.take(e as int), Seq::empty());
            let ghost next = element_plan(program.elements@[e as int], Seq::empty());
            proof {
                assert(program.elements@.take(e + 1).drop_last() =~= program.elements@.take(e as int));
                assert(program.elements@.take(e + 1).last() == program.elements@[e as int]);
                lemma_matching_add(a, next, options.filter);
                lemma_capped_capped(matching(a, options.filter), matching(next, options.filter), options.limit);
            }
            self.run_element_with_options(&program.elements[e], &root, &mut output, options);
            e = e + 1;
        }
        proof {
            assert(program.elements@.take(e as int) =~= program.elements@);
            lemma_count_tags(output.results@);
        }
        output
    }
}

} // verus!
