//! Lexer for the Hielements language.
//!
//! The lexer turns source text into tokens. Spaces and tabs inside a line
//! are skipped; indentation at the start of a line produces `Indent` and
//! `Dedent` tokens; `#` comments and `### ... ###` blocks are skipped while
//! `##` documentation comments are kept. Characters that start no token
//! are skipped.

use vstd::prelude::*;
use vstd::string::*;
use crate::span::{Position, Span};
use crate::text::{chars_of, spec_utf8_len, string_from_chars, utf8_len};

verus! {

/// Token kinds for the Hielements language.
#[derive(Debug, Clone, Copy, PartialEq, Eq, Structural)]
pub enum TokenKind {
    // Keywords
    Element,
    Template,
    Implements,
    Scope,
    ConnectionPoint,
    Ref,
    Uses,
    Binds,
    Check,
    Import,
    From,
    As,
    True,
    False,
    Language,
    ConnectionCheck,
    Requires,
    Allows,
    Forbids,
    Descendant,
    Connection,
    RequiresDescendant,
    AllowsConnection,
    ForbidsConnection,
    RequiresConnection,
    To,
    // Punctuation
    Colon,
    Equals,
    Dot,
    Comma,
    LParen,
    RParen,
    LBracket,
    RBracket,
    LBrace,
    RBrace,
    LAngle,
    RAngle,
    Star,
    // Newline (significant for indentation-based syntax)
    Newline,
    // Identifiers
    Identifier,
    // String literals
    StringDouble,
    StringSingle,
    // Number literals
    Number,
    // Comments
    MultiLineComment,
    DocComment,
    Comment,
    // Indentation
    Indent,
    Dedent,
    // End of file
    Eof,
}

impl TokenKind {
    /// Whether tokens of this kind carry no meaning (plain comments).
    pub fn is_trivia(&self) -> (b: bool)
        ensures
            b == (*self == TokenKind::Comment || *self == TokenKind::MultiLineComment),
    {
        match self {
            TokenKind::Comment | TokenKind::MultiLineComment => true,
            _ => false,
        }
    }
}

/// A token with its kind, text, and source span.
#[derive(Debug)]
pub struct Token {
    pub kind: TokenKind,
    pub text: String,
    pub span: Span,
}

impl Clone for Token {
    fn clone(&self) -> (r: Self)
        ensures
            r == *self,
    {
        Token { kind: self.kind, text: self.text.clone(), span: self.span }
    }
}

impl Token {
    pub fn new(kind: TokenKind, text: &str, span: Span) -> (t: Self)
        ensures
            t.kind == kind,
            t.text@ == text@,
            t.span == span,
    {
        Token { kind, text: String::from_str(text), span }
    }
}

/// The keyword that the word `w` spells, if any. `pattern` is another
/// spelling of `template`.
pub open spec fn keyword_kind(w: Seq<char>) -> Option<TokenKind> {
    if w == "element"@ {
        Some(TokenKind::Element)
    } else if w == "template"@ {
        Some(TokenKind::Template)
    } else if w == "pattern"@ {
        Some(TokenKind::Template)
    } else if w == "implements"@ {
        Some(TokenKind::Implements)
    } else if w == "scope"@ {
        Some(TokenKind::Scope)
    } else if w == "connection_point"@ {
        Some(TokenKind::ConnectionPoint)
    } else if w == "ref"@ {
        Some(TokenKind::Ref)
    } else if w == "uses"@ {
        Some(TokenKind::Uses)
    } else if w == "binds"@ {
        Some(TokenKind::Binds)
    } else if w == "check"@ {
        Some(TokenKind::Check)
    } else if w == "import"@ {
        Some(TokenKind::Import)
    } else if w == "from"@ {
        Some(TokenKind::From)
    } else if w == "as"@ {
        Some(TokenKind::As)
    } else if w == "true"@ {
        Some(TokenKind::True)
    } else if w == "false"@ {
        Some(TokenKind::False)
    } else if w == "language"@ {
        Some(TokenKind::Language)
    } else if w == "connection_check"@ {
        Some(TokenKind::ConnectionCheck)
    } else if w == "requires"@ {
        Some(TokenKind::Requires)
    } else if w == "allows"@ {
        Some(TokenKind::Allows)
    } else if w == "forbids"@ {
        Some(TokenKind::Forbids)
    } else if w == "descendant"@ {
        Some(TokenKind::Descendant)
    } else if w == "connection"@ {
        Some(TokenKind::Connection)
    } else if w == "requires_descendant"@ {
        Some(TokenKind::RequiresDescendant)
    } else if w == "allows_connection"@ {
        Some(TokenKind::AllowsConnection)
    } else if w == "forbids_connection"@ {
        Some(TokenKind::ForbidsConnection)
    } else if w == "requires_connection"@ {
        Some(TokenKind::RequiresConnection)
    } else if w == "to"@ {
        Some(TokenKind::To)
    } else {
        None
    }
}

/// The punctuation token that the character `c` makes, if any.
pub open spec fn punct_kind(c: char) -> Option<TokenKind> {
    if c == ':' {
        Some(TokenKind::Colon)
    } else if c == '=' {
        Some(TokenKind::Equals)
    } else if c == '.' {
        Some(TokenKind::Dot)
    } else if c == ',' {
        Some(TokenKind::Comma)
    } else if c == '(' {
        Some(TokenKind::LParen)
    } else if c == ')' {
        Some(TokenKind::RParen)
    } else if c == '[' {
        Some(TokenKind::LBracket)
    } else if c == ']' {
        Some(TokenKind::RBracket)
    } else if c == '{' {
        Some(TokenKind::LBrace)
    } else if c == '}' {
        Some(TokenKind::RBrace)
    } else if c == '<' {
        Some(TokenKind::LAngle)
    } else if c == '>' {
        Some(TokenKind::RAngle)
    } else if c == '*' {
        Some(TokenKind::Star)
    } else {
        None
    }
}

pub open spec fn is_ident_start(c: char) -> bool {
    ('a' <= c && c <= 'z') || ('A' <= c && c <= 'Z') || c == '_'
}

pub open spec fn is_digit(c: char) -> bool {
    '0' <= c && c <= '9'
}

pub open spec fn is_ident_char(c: char) -> bool {
    is_ident_start(c) || is_digit(c)
}

/// `w` is a letter or underscore followed by letters, digits and underscores.
pub open spec fn ident_shape(w: Seq<char>) -> bool {
    &&& w.len() > 0
    &&& is_ident_start(w[0])
    &&& forall|i: int| 0 <= i < w.len() ==> #[trigger] is_ident_char(w[i])
}

pub open spec fn all_digits(w: Seq<char>) -> bool {
    forall|i: int| 0 <= i < w.len() ==> #[trigger] is_digit(w[i])
}

/// `w` is one or more digits, optionally followed by a dot and one or more digits.
pub open spec fn number_shape(w: Seq<char>) -> bool {
    ||| (w.len() > 0 && all_digits(w))
    ||| exists|d: int| 0 < d < w.len() - 1 && #[trigger] w[d] == '.' && all_digits(w.take(d)) && all_digits(w.skip(d + 1))
}

/// `w` starts and ends with the quote `q` and has at least the two quotes.
pub open spec fn quoted(w: Seq<char>, q: char) -> bool {
    w.len() >= 2 && w[0] == q && w.last() == q
}

/// The text of a token agrees with its kind.
pub open spec fn token_ok(t: Token) -> bool {
    let w = t.text@;
    match t.kind {
        TokenKind::Identifier => ident_shape(w) && keyword_kind(w) is None,
        TokenKind::Number => number_shape(w),
        TokenKind::StringDouble => quoted(w, '"'),
        TokenKind::StringSingle => quoted(w, '\''),
        TokenKind::DocComment => w.len() >= 2 && w[0] == '#' && w[1] == '#' && !w.contains('\n'),
        TokenKind::Newline => w == seq!['\n'] || w == seq!['\r', '\n'],
        TokenKind::Indent | TokenKind::Dedent | TokenKind::Eof => w.len() == 0,
        TokenKind::Comment | TokenKind::MultiLineComment => false,
        k => keyword_kind(w) == Some(k) || (w.len() == 1 && punct_kind(w[0]) == Some(k)),
    }
}

/// Open indentation blocks after the tokens `s`: indents minus dedents.
pub open spec fn indent_depth(s: Seq<Token>) -> int
    decreases s.len(),
{
    if s.len() == 0 {
        0
    } else {
        indent_depth(s.drop_last()) + (if s.last().kind == TokenKind::Indent {
            1int
        } else if s.last().kind == TokenKind::Dedent {
            -1int
        } else {
            0int
        })
    }
}

/// No prefix of `s` closes more blocks than it opened.
pub open spec fn dedents_matched(s: Seq<Token>) -> bool {
    forall|k: int| 0 <= k <= s.len() ==> #[trigger] indent_depth(s.take(k)) >= 0
}

/// What every result of tokenizing satisfies: each token's text agrees
/// with its kind, the stream ends with its only `Eof`, and every `Indent`
/// is closed by a later `Dedent`.
pub open spec fn tokens_ok(s: Seq<Token>) -> bool {
    &&& s.len() > 0
    &&& s.last().kind == TokenKind::Eof
    &&& forall|i: int| 0 <= i < s.len() - 1 ==> #[trigger] s[i].kind != TokenKind::Eof
    &&& forall|i: int| 0 <= i < s.len() ==> #[trigger] token_ok(s[i])
    &&& indent_depth(s) == 0
    &&& dedents_matched(s)
}

proof fn lemma_push_depth(s: Seq<Token>, t: Token)
    requires
        dedents_matched(s),
        indent_depth(s) + (if t.kind == TokenKind::Indent { 1int } else if t.kind == TokenKind::Dedent { -1int } else { 0int }) >= 0,
    ensures
        dedents_matched(s.push(t)),
        indent_depth(s.push(t)) == indent_depth(s) + (if t.kind == TokenKind::Indent {
            1int
        } else if t.kind == TokenKind::Dedent {
            -1int
        } else {
            0int
        }),
{
    let u = s.push(t);
    assert(u.drop_last() =~= s);
    assert forall|k: int| 0 <= k <= u.len() implies #[trigger] indent_depth(u.take(k)) >= 0 by {
        if k <= s.len() {
            assert(u.take(k) =~= s.take(k));
        } else {
            assert(u.take(k) =~= u);
        }
    }
}

} // verus!

verus! {

/// Indentation change that a token makes.
pub open spec fn depth_delta(t: Token) -> int {
    if t.kind == TokenKind::Indent {
        1
    } else if t.kind == TokenKind::Dedent {
        -1
    } else {
        0
    }
}

/// Tokens emitted so far: each agrees with its text, none is `Eof`, and
/// no prefix closes more blocks than it opened.
pub open spec fn stream_ok(s: Seq<Token>) -> bool {
    &&& forall|i: int| 0 <= i < s.len() ==> #[trigger] token_ok(s[i])
    &&& forall|i: int| 0 <= i < s.len() ==> #[trigger] s[i].kind != TokenKind::Eof
    &&& dedents_matched(s)
}

/// Whether the texts of the tokens `ts` lie in `src` at the character
/// positions `pos`, in order and without overlapping.
pub open spec fn texts_at(ts: Seq<Token>, src: Seq<char>, pos: Seq<int>) -> bool {
    &&& pos.len() == ts.len()
    &&& forall|k: int| 0 <= k < ts.len() ==> 0 <= #[trigger] pos[k] && pos[k] + ts[k].text@.len() <= src.len()
        && ts[k].text@ == src.subrange(pos[k], pos[k] + ts[k].text@.len())
    &&& forall|k: int, l: int| #![trigger pos[k], pos[l]] 0 <= k < l < ts.len() ==> pos[k] + ts[k].text@.len() <= pos[l]
}

/// Whether the texts of the tokens `ts` are pieces of `src`, in order and
/// without overlapping.
pub open spec fn texts_in_order(ts: Seq<Token>, src: Seq<char>) -> bool {
    exists|pos: Seq<int>| texts_at(ts, src, pos)
}

proof fn lemma_push_text(ts: Seq<Token>, src: Seq<char>, pos: Seq<int>, t: Token, i: int, j: int)
    requires
        texts_at(ts, src, pos),
        forall|k: int| 0 <= k < ts.len() ==> #[trigger] pos[k] + ts[k].text@.len() <= i,
        0 <= i <= j <= src.len(),
        t.text@ == src.subrange(i, j),
    ensures
        texts_at(ts.push(t), src, pos.push(i)),
        forall|k: int| 0 <= k < ts.len() + 1 ==> #[trigger] pos.push(i)[k] + ts.push(t)[k].text@.len() <= j,
{
    let ts2 = ts.push(t);
    let pos2 = pos.push(i);
    assert forall|k: int| 0 <= k < ts2.len() implies 0 <= #[trigger] pos2[k] && pos2[k] + ts2[k].text@.len() <= src.len()
        && ts2[k].text@ == src.subrange(pos2[k], pos2[k] + ts2[k].text@.len()) by {
        if k < ts.len() {
            assert(pos2[k] == pos[k] && ts2[k] == ts[k]);
        }
    }
    assert forall|k: int, l: int| #![trigger pos2[k], pos2[l]] 0 <= k < l < ts2.len() implies pos2[k] + ts2[k].text@.len() <= pos2[l] by {
        assert(pos2[k] == pos[k] && ts2[k] == ts[k]);
        if l < ts.len() {
            assert(pos2[l] == pos[l]);
        }
    }
    assert forall|k: int| 0 <= k < ts2.len() implies #[trigger] pos2[k] + ts2[k].text@.len() <= j by {
        if k < ts.len() {
            assert(pos2[k] == pos[k] && ts2[k] == ts[k]);
        }
    }
}

proof fn lemma_extend_empty(ts: Seq<Token>, ts2: Seq<Token>, src: Seq<char>, pos: Seq<int>, i: int) -> (pos2: Seq<int>)
    requires
        texts_at(ts, src, pos),
        forall|k: int| 0 <= k < ts.len() ==> #[trigger] pos[k] + ts[k].text@.len() <= i,
        0 <= i <= src.len(),
        ts2.len() >= ts.len(),
        ts2.subrange(0, ts.len() as int) == ts,
        forall|k: int| ts.len() <= k < ts2.len() ==> (#[trigger] ts2[k]).text@.len() == 0,
    ensures
        texts_at(ts2, src, pos2),
        forall|k: int| 0 <= k < ts2.len() ==> #[trigger] pos2[k] + ts2[k].text@.len() <= i,
{
    let pos2 = pos + Seq::new((ts2.len() - ts.len()) as nat, |_k: int| i);
    assert forall|k: int| 0 <= k < ts.len() implies ts2[k] == ts[k] by {
        assert(ts2.subrange(0, ts.len() as int)[k] == ts2[k]);
    }
    assert forall|k: int| 0 <= k < ts2.len() implies 0 <= #[trigger] pos2[k] && pos2[k] + ts2[k].text@.len() <= src.len()
        && ts2[k].text@ == src.subrange(pos2[k], pos2[k] + ts2[k].text@.len()) by {
        if k < ts.len() {
            assert(pos2[k] == pos[k]);
        } else {
            assert(pos2[k] == i);
            assert(ts2[k].text@ =~= src.subrange(i, i));
        }
    }
    assert forall|k: int, l: int| #![trigger pos2[k], pos2[l]] 0 <= k < l < ts2.len() implies pos2[k] + ts2[k].text@.len() <= pos2[l] by {
        if l < ts.len() {
            assert(pos2[k] == pos[k] && pos2[l] == pos[l]);
        } else if k < ts.len() {
            assert(pos2[k] == pos[k] && pos2[l] == i);
        } else {
            assert(pos2[k] == i && pos2[l] == i);
        }
    }
    assert forall|k: int| 0 <= k < ts2.len() implies #[trigger] pos2[k] + ts2[k].text@.len() <= i by {
        if k < ts.len() {
            assert(pos2[k] == pos[k]);
        } else {
            assert(pos2[k] == i);
        }
    }
    pos2
}

fn push_token(out: &mut Vec<Token>, t: Token)
    requires
        stream_ok(old(out)@),
        token_ok(t),
        t.kind != TokenKind::Eof,
        indent_depth(old(out)@) + depth_delta(t) >= 0,
    ensures
        final(out)@ == old(out)@.push(t),
        stream_ok(final(out)@),
        indent_depth(final(out)@) == indent_depth(old(out)@) + depth_delta(t),
{
    proof {
        lemma_push_depth(old(out)@, t);
    }
    out.push(t);
}

/// The keyword that `word` spells, if any.
fn keyword_lookup(word: &String) -> (k: Option<TokenKind>)
    ensures
        k == keyword_kind(word@),
{
    if *word == String::from_str("element") {
        Some(TokenKind::Element)
    } else if *word == String::from_str("template") {
        Some(TokenKind::Template)
    } else if *word == String::from_str("pattern") {
        Some(TokenKind::Template)
    } else if *word == String::from_str("implements") {
        Some(TokenKind::Implements)
    } else if *word == String::from_str("scope") {
        Some(TokenKind::Scope)
    } else if *word == String::from_str("connection_point") {
        Some(TokenKind::ConnectionPoint)
    } else if *word == String::from_str("ref") {
        Some(TokenKind::Ref)
    } else if *word == String::from_str("uses") {
        Some(TokenKind::Uses)
    } else if *word == String::from_str("binds") {
        Some(TokenKind::Binds)
    } else if *word == String::from_str("check") {
        Some(TokenKind::Check)
    } else if *word == String::from_str("import") {
        Some(TokenKind::Import)
    } else if *word == String::from_str("from") {
        Some(TokenKind::From)
    } else if *word == String::from_str("as") {
        Some(TokenKind::As)
    } else if *word == String::from_str("true") {
        Some(TokenKind::True)
    } else if *word == String::from_str("false") {
        Some(TokenKind::False)
    } else if *word == String::from_str("language") {
        Some(TokenKind::Language)
    } else if *word == String::from_str("connection_check") {
        Some(TokenKind::ConnectionCheck)
    } else if *word == String::from_str("requires") {
        Some(TokenKind::Requires)
    } else if *word == String::from_str("allows") {
        Some(TokenKind::Allows)
    } else if *word == String::from_str("forbids") {
        Some(TokenKind::Forbids)
    } else if *word == String::from_str("descendant") {
        Some(TokenKind::Descendant)
    } else if *word == String::from_str("connection") {
        Some(TokenKind::Connection)
    } else if *word == String::from_str("requires_descendant") {
        Some(TokenKind::RequiresDescendant)
    } else if *word == String::from_str("allows_connection") {
        Some(TokenKind::AllowsConnection)
    } else if *word == String::from_str("forbids_connection") {
        Some(TokenKind::ForbidsConnection)
    } else if *word == String::from_str("requires_connection") {
        Some(TokenKind::RequiresConnection)
    } else if *word == String::from_str("to") {
        Some(TokenKind::To)
    } else {
        None
    }
}

/// The punctuation token that `c` makes, if any.
fn punct_lookup(c: char) -> (k: Option<TokenKind>)
    ensures
        k == punct_kind(c),
{
    if c == ':' {
        Some(TokenKind::Colon)
    } else if c == '=' {
        Some(TokenKind::Equals)
    } else if c == '.' {
        Some(TokenKind::Dot)
    } else if c == ',' {
        Some(TokenKind::Comma)
    } else if c == '(' {
        Some(TokenKind::LParen)
    } else if c == ')' {
        Some(TokenKind::RParen)
    } else if c == '[' {
        Some(TokenKind::LBracket)
    } else if c == ']' {
        Some(TokenKind::RBracket)
    } else if c == '{' {
        Some(TokenKind::LBrace)
    } else if c == '}' {
        Some(TokenKind::RBrace)
    } else if c == '<' {
        Some(TokenKind::LAngle)
    } else if c == '>' {
        Some(TokenKind::RAngle)
    } else if c == '*' {
        Some(TokenKind::Star)
    } else {
        None
    }
}

fn ident_start_char(c: char) -> (b: bool)
    ensures
        b == is_ident_start(c),
{
    ('a' <= c && c <= 'z') || ('A' <= c && c <= 'Z') || c == '_'
}

fn digit_char(c: char) -> (b: bool)
    ensures
        b == is_digit(c),
{
    '0' <= c && c <= '9'
}

/// End of the identifier that starts at `i`.
fn scan_ident(chars: &Vec<char>, i: usize) -> (j: usize)
    requires
        chars@.len() <= usize::MAX / 8,
        i < chars@.len(),
        is_ident_start(chars@[i as int]),
    ensures
        i < j <= chars@.len(),
        ident_shape(chars@.subrange(i as int, j as int)),
        j == chars@.len() || !is_ident_char(chars@[j as int]),
        j == ident_end(chars@, i + 1),
{
    let mut j = i + 1;
    while j < chars.len() && (ident_start_char(chars[j]) || digit_char(chars[j]))
        invariant
            i < j <= chars@.len(),
            ident_end(chars@, i + 1) == ident_end(chars@, j as int),
            chars@.len() <= usize::MAX / 8,
            is_ident_start(chars@[i as int]),
            forall|k: int| i <= k < j ==> #[trigger] is_ident_char(chars@[k]),
        decreases chars@.len() - j,
    {
        j = j + 1;
    }
    let ghost w = chars@.subrange(i as int, j as int);
    assert forall|k: int| 0 <= k < w.len() implies #[trigger] is_ident_char(w[k]) by {
        assert(w[k] == chars@[i + k]);
    }
    j
}

/// End of the run of digits that starts at `i`.
fn scan_digits(chars: &Vec<char>, i: usize) -> (j: usize)
    requires
        chars@.len() <= usize::MAX / 8,
        i <= chars@.len(),
    ensures
        i <= j <= chars@.len(),
        forall|k: int| i <= k < j ==> #[trigger] is_digit(chars@[k]),
        j == chars@.len() || !is_digit(chars@[j as int]),
        j == digits_end(chars@, i as int),
{
    let mut j = i;
    while j < chars.len() && digit_char(chars[j])
        invariant
            i <= j <= chars@.len(),
            digits_end(chars@, i as int) == digits_end(chars@, j as int),
            forall|k: int| i <= k < j ==> #[trigger] is_digit(chars@[k]),
        decreases chars@.len() - j,
    {
        j = j + 1;
    }
    j
}

/// End of the number that starts at `i`: digits, then optionally a dot
/// followed by at least one digit.
fn scan_number(chars: &Vec<char>, i: usize) -> (j: usize)
    requires
        chars@.len() <= usize::MAX / 8,
        i < chars@.len(),
        is_digit(chars@[i as int]),
    ensures
        i < j <= chars@.len(),
        number_shape(chars@.subrange(i as int, j as int)),
        j == number_end(chars@, i as int),
{
    let d = scan_digits(chars, i);
    if d + 1 < chars.len() && chars[d] == '.' && digit_char(chars[d + 1]) {
        let e = scan_digits(chars, d + 1);
        let ghost w = chars@.subrange(i as int, e as int);
        let ghost dd = (d - i) as int;
        assert(w[dd] == '.');
        assert(w.take(dd) =~= chars@.subrange(i as int, d as int));
        assert(w.skip(dd + 1) =~= chars@.subrange(d + 1, e as int));
        assert(all_digits(w.take(dd)));
        assert(all_digits(w.skip(dd + 1)));
        e
    } else {
        let ghost w = chars@.subrange(i as int, d as int);
        assert(all_digits(w));
        d
    }
}

/// End of the quoted string that starts at `i` with quote `q`, if it is
/// closed: any character but the quote or a backslash, or a backslash
/// followed by any character but a line break, up to the closing quote.
fn scan_string(chars: &Vec<char>, i: usize, q: char) -> (r: Option<usize>)
    requires
        chars@.len() <= usize::MAX / 8,
        i < chars@.len(),
        chars@[i as int] == q,
    ensures
        r matches Some(j) ==> i + 2 <= j <= chars@.len() && quoted(chars@.subrange(i as int, j as int), q),
        match r {
            Some(j) => string_end(chars@, i + 1, q) == Some(j as int),
            None => string_end(chars@, i + 1, q) is None,
        },
{
    let mut k = i + 1;
    while k < chars.len()
        invariant
            i < k,
            chars@.len() <= usize::MAX / 8,
            chars@[i as int] == q,
            string_end(chars@, i + 1, q) == string_end(chars@, k as int, q),
        decreases chars@.len() - k,
    {
        let c = chars[k];
        if c == q {
            return Some(k + 1);
        } else if c == '\\' {
            if k + 1 < chars.len() && chars[k + 1] != '\n' {
                k = k + 2;
            } else {
                return None;
            }
        } else {
            k = k + 1;
        }
    }
    None
}

/// End of the line that contains `i`: the first line break at or after `i`.
fn scan_to_eol(chars: &Vec<char>, i: usize) -> (e: usize)
    requires
        i <= chars@.len(),
    ensures
        i <= e <= chars@.len(),
        forall|k: int| i <= k < e ==> #[trigger] chars@[k] != '\n',
        e == chars@.len() || chars@[e as int] == '\n',
        e == eol(chars@, i as int),
{
    let mut e = i;
    while e < chars.len() && chars[e] != '\n'
        invariant
            i <= e <= chars@.len(),
            eol(chars@, i as int) == eol(chars@, e as int),
            forall|k: int| i <= k < e ==> #[trigger] chars@[k] != '\n',
        decreases chars@.len() - e,
    {
        e = e + 1;
    }
    e
}

/// How a comment that starts at a `#` ends.
enum CommentScan {
    /// A `### ... ###` block, skipped; it ends at the index given.
    Block(usize),
    /// A `##` documentation comment, kept; it runs to the end of its line.
    Doc(usize),
    /// A plain `#` comment, skipped; it runs to the end of its line.
    Plain(usize),
}

/// Classify the comment that starts at `i`. A block `###...###` (with no
/// `#` inside) wins over a documentation comment unless the line goes on
/// past its end.
fn scan_comment(chars: &Vec<char>, i: usize) -> (r: CommentScan)
    requires
        chars@.len() <= usize::MAX / 8,
        i < chars@.len(),
        chars@[i as int] == '#',
    ensures
        match r {
            CommentScan::Block(j) => i < j <= chars@.len(),
            CommentScan::Doc(e) => i + 2 <= e <= chars@.len() && chars@[i + 1] == '#'
                && forall|k: int| i <= k < e ==> #[trigger] chars@[k] != '\n',
            CommentScan::Plain(e) => i < e <= chars@.len(),
        },
        match r {
            CommentScan::Block(j) => comment_block_end(chars@, i as int) == Some(j as int),
            CommentScan::Doc(e) => comment_block_end(chars@, i as int) is None && e == eol(chars@, i as int),
            CommentScan::Plain(e) => !(i + 1 < chars@.len() && chars@[i + 1] == '#') && e == eol(chars@, i as int),
        },
{
    let e = scan_to_eol(chars, i);
    if i + 1 < chars.len() && chars[i + 1] == '#' {
        if i + 2 < chars.len() && chars[i + 2] == '#' {
            let mut k = i + 3;
            while k < chars.len() && chars[k] != '#'
                invariant
                    i + 3 <= k <= chars@.len(),
                    chars@.len() <= usize::MAX / 8,
                    hash_from(chars@, i + 3) == hash_from(chars@, k as int),
                decreases chars@.len() - k,
            {
                k = k + 1;
            }
            if k + 2 < chars.len() && chars[k + 1] == '#' && chars[k + 2] == '#' && k + 3 >= e {
                return CommentScan::Block(k + 3);
            }
        }
        CommentScan::Doc(e)
    } else {
        CommentScan::Plain(e)
    }
}

/// Number of UTF-8 bytes of `chars[from..to]`.
fn byte_len(chars: &Vec<char>, from: usize, to: usize) -> (n: usize)
    requires
        from <= to <= chars@.len(),
        chars@.len() <= usize::MAX / 8,
    ensures
        to - from <= n <= 4 * (to - from),
        n == utf8_bytes(chars@.subrange(from as int, to as int)),
{
    let mut n: usize = 0;
    let mut k = from;
    assert(chars@.subrange(from as int, from as int) =~= Seq::<char>::empty());
    while k < to
        invariant
            from <= k <= to,
            to <= chars@.len(),
            chars@.len() <= usize::MAX / 8,
            k - from <= n <= 4 * (k - from),
            n == utf8_bytes(chars@.subrange(from as int, k as int)),
        decreases to - k,
    {
        assert(chars@.subrange(from as int, k + 1).drop_last() =~= chars@.subrange(from as int, k as int));
        n = n + utf8_len(chars[k]);
        k = k + 1;
    }
    n
}

/// Position of byte `offset` on line `line` that starts at byte `line_start`.
fn pos_at(line: usize, line_start: usize, offset: usize) -> (p: Position)
    requires
        line_start <= offset < usize::MAX,
    ensures
        p.line == line,
        p.column == offset - line_start + 1,
        p.offset == offset,
        p == pos_of(line as int, line_start as int, offset as int),
{
    Position::new(line, offset - line_start + 1, offset)
}

/// Indentation of the line that starts at `i` (at byte `b`): push an
/// `Indent` when it is deeper than the current block, and one `Dedent` per
/// block that it leaves. Blank lines change nothing, nor do comment lines,
/// except that a deeper comment line opens a block.
fn process_indentation(
    chars: &Vec<char>,
    i: usize,
    b: usize,
    line: usize,
    out: &mut Vec<Token>,
    stack: &mut Vec<usize>,
)
    requires
        i <= chars@.len(),
        chars@.len() <= usize::MAX / 8,
        b <= 4 * i,
        stream_ok(old(out)@),
        indent_depth(old(out)@) == old(stack)@.len() - 1,
        old(stack)@.len() >= 1,
        old(stack)@[0] == 0,
    ensures
        stream_ok(final(out)@),
        indent_depth(final(out)@) == final(stack)@.len() - 1,
        final(stack)@.len() >= 1,
        final(stack)@[0] == 0,
        final(out)@.len() >= old(out)@.len(),
        final(out)@.subrange(0, old(out)@.len() as int) == old(out)@,
        forall|k: int| old(out)@.len() <= k < final(out)@.len() ==> (#[trigger] final(out)@[k]).text@.len() == 0,
        token_views(final(out)@) == token_views(old(out)@) + indent_step(chars@, i as int, b as int, line as int, old(stack)@).0,
        final(stack)@ == indent_step(chars@, i as int, b as int, line as int, old(stack)@).1,
{
    let ghost out0 = out@;
    let ghost stack0 = stack@;
    let mut indent: usize = 0;
    let mut k = i;
    let mut comment_line = false;
    while k < chars.len()
        invariant_except_break
            lead(chars@, i as int, 0) == lead(chars@, k as int, indent as int),
            !comment_line,
        invariant
            i <= k <= chars@.len(),
            stack@ == stack0,
            chars@.len() <= usize::MAX / 8,
            indent <= 4 * (k - i),
            out@ == out0,
            stream_ok(out@),
            indent_depth(out@) == stack@.len() - 1,
            stack@.len() >= 1,
            stack@[0] == 0,
        ensures
            lead(chars@, i as int, 0) == (indent as int, k as int, false),
            comment_line == (k < chars@.len() && chars@[k as int] == '#'),
        decreases chars@.len() - k,
    {
        let c = chars[k];
        if c == ' ' {
            indent = indent + 1;
            k = k + 1;
        } else if c == '\t' {
            indent = indent + 4;
            k = k + 1;
        } else if c == '\n' || c == '\r' {
            assert(out@.subrange(0, out0.len() as int) =~= out0);
            assert(token_views(out@) =~= token_views(out0) + Seq::<TokenView>::empty());
            return;
        } else {
            if c == '#' {
                comment_line = true;
            }
            break;
        }
    }
    let pos = b + (k - i);
    let top = stack[stack.len() - 1];
    if indent > top {
        stack.push(indent);
        let span = Span::new(pos_at(line, b, b), pos_at(line, b, pos));
        let t = Token::new(TokenKind::Indent, "", span);
        proof {
            reveal_strlit("");
        }
        push_token(out, t);
        proof {
            lemma_views_push(out0, t);
            assert(t.text@ =~= Seq::<char>::empty());
            assert(token_view(t) == (TokenKind::Indent, Seq::<char>::empty(), span_on(line as int, b as int, b as int, pos as int)));
            assert(token_views(out@) =~= token_views(out0) + seq![(TokenKind::Indent, Seq::<char>::empty(), span_on(line as int, b as int, b as int, pos as int))]);
        }
        assert(stack@[0] == 0);
        assert(out@.subrange(0, out0.len() as int) =~= out0);
    } else if !comment_line {
        assert(out@.subrange(0, out0.len() as int) =~= out0);
        assert(token_views(out@) =~= token_views(out0) + layout_tokens(0, TokenKind::Dedent, span_on(line as int, b as int, b as int, b as int)));
        assert(stack@ =~= stack0.take(stack0.len() as int));
        while stack.len() > 0 && stack[stack.len() - 1] > indent
            invariant
                stack@.len() <= stack0.len(),
                stack@ == stack0.take(stack@.len() as int),
                dedent_count(stack0, indent as int) == (stack0.len() - stack@.len()) + dedent_count(stack@, indent as int),
                token_views(out@) == token_views(out0) + layout_tokens((stack0.len() - stack@.len()) as nat, TokenKind::Dedent,
                    span_on(line as int, b as int, b as int, b as int)),
                out@.len() >= out0.len(),
                out@.subrange(0, out0.len() as int) == out0,
                forall|k: int| out0.len() <= k < out@.len() ==> (#[trigger] out@[k]).text@.len() == 0,
                stream_ok(out@),
                indent_depth(out@) == stack@.len() - 1,
                stack@.len() >= 1,
                stack@[0] == 0,
                b < usize::MAX,
            decreases stack@.len(),
        {
            stack.pop();
            let span = Span::new(pos_at(line, b, b), pos_at(line, b, b));
            let t = Token::new(TokenKind::Dedent, "", span);
            proof {
                reveal_strlit("");
            }
            let ghost before = out@;
            push_token(out, t);
            assert(out@.subrange(0, out0.len() as int) =~= before.subrange(0, out0.len() as int));
            proof {
                lemma_views_push(before, t);
                assert(t.text@ =~= Seq::<char>::empty());
                assert(token_view(t) == (TokenKind::Dedent, Seq::<char>::empty(), span_on(line as int, b as int, b as int, b as int)));
                assert(token_views(out@) =~= token_views(out0) + layout_tokens((stack0.len() - stack@.len()) as nat, TokenKind::Dedent,
                    span_on(line as int, b as int, b as int, b as int)));
                assert(stack@ =~= stack0.take(stack@.len() as int));
            }
        }
    } else {
        assert(out@.subrange(0, out0.len() as int) =~= out0);
        assert(token_views(out@) =~= token_views(out0) + Seq::<TokenView>::empty());
    }
}

/// A token as plain values: its kind, its text and its span.
pub type TokenView = (TokenKind, Seq<char>, Span);

pub open spec fn token_view(t: Token) -> TokenView {
    (t.kind, t.text@, t.span)
}

/// The number of bytes of the UTF-8 encoding of `w`.
pub open spec fn utf8_bytes(w: Seq<char>) -> int
    decreases w.len(),
{
    if w.len() == 0 {
        0
    } else {
        utf8_bytes(w.drop_last()) + spec_utf8_len(w.last())
    }
}

/// The position of byte `offset` on line `line`, which starts at byte
/// `line_start`; columns count bytes from 1.
pub open spec fn pos_of(line: int, line_start: int, offset: int) -> Position {
    Position { line: line as usize, column: (offset - line_start + 1) as usize, offset: offset as usize }
}

/// The span from byte `from` to byte `to` on line `line`, which starts at
/// byte `line_start`.
pub open spec fn span_on(line: int, line_start: int, from: int, to: int) -> Span {
    Span { start: pos_of(line, line_start, from), end: pos_of(line, line_start, to) }
}

/// The tokens `ts` as plain values.
pub open spec fn token_views(ts: Seq<Token>) -> Seq<TokenView> {
    ts.map_values(|t: Token| token_view(t))
}

proof fn lemma_views_push(ts: Seq<Token>, t: Token)
    ensures
        token_views(ts.push(t)) == token_views(ts).push(token_view(t)),
{
    assert(token_views(ts.push(t)) =~= token_views(ts).push(token_view(t)));
}

/// The end of the run of identifier characters from `i`.
pub open spec fn ident_end(c: Seq<char>, i: int) -> int
    decreases c.len() - i,
{
    if 0 <= i < c.len() && is_ident_char(c[i]) {
        ident_end(c, i + 1)
    } else {
        i
    }
}

/// The end of the run of digits from `i`.
pub open spec fn digits_end(c: Seq<char>, i: int) -> int
    decreases c.len() - i,
{
    if 0 <= i < c.len() && is_digit(c[i]) {
        digits_end(c, i + 1)
    } else {
        i
    }
}

/// The end of the number at `i`: digits, then a dot and more digits if a
/// digit follows the dot.
pub open spec fn number_end(c: Seq<char>, i: int) -> int {
    let d = digits_end(c, i);
    if d + 1 < c.len() && c[d] == '.' && is_digit(c[d + 1]) {
        digits_end(c, d + 1)
    } else {
        d
    }
}

/// The end of a string with quote `q` whose body starts at `k`: just after
/// the closing quote; a backslash takes the next character along, unless it
/// is a line break or the input ends. None where the string is not closed.
pub open spec fn string_end(c: Seq<char>, k: int, q: char) -> Option<int>
    decreases c.len() - k,
{
    if 0 <= k < c.len() {
        if c[k] == q {
            Some(k + 1)
        } else if c[k] == '\\' {
            if k + 1 < c.len() && c[k + 1] != '\n' {
                string_end(c, k + 2, q)
            } else {
                None
            }
        } else {
            string_end(c, k + 1, q)
        }
    } else {
        None
    }
}

/// The first line break at or after `i`, or the end of input.
pub open spec fn eol(c: Seq<char>, i: int) -> int
    decreases c.len() - i,
{
    if 0 <= i < c.len() && c[i] != '\n' {
        eol(c, i + 1)
    } else {
        i
    }
}

/// The first `#` at or after `k`, or the end of input.
pub open spec fn hash_from(c: Seq<char>, k: int) -> int
    decreases c.len() - k,
{
    if 0 <= k < c.len() && c[k] != '#' {
        hash_from(c, k + 1)
    } else {
        k
    }
}

/// The end of a `### ... ###` block comment at `i`, where the block has no
/// `#` inside and its line goes on no further than the block.
pub open spec fn comment_block_end(c: Seq<char>, i: int) -> Option<int> {
    if 0 <= i && i + 2 < c.len() && c[i + 1] == '#' && c[i + 2] == '#' {
        let k = hash_from(c, i + 3);
        if k + 2 < c.len() && c[k + 1] == '#' && c[k + 2] == '#' && k + 3 >= eol(c, i) {
            Some(k + 3)
        } else {
            None
        }
    } else {
        None
    }
}

/// The end of the comment at `i`: of its block, or of its line.
pub open spec fn comment_end(c: Seq<char>, i: int) -> int {
    match comment_block_end(c, i) {
        Some(j) => j,
        None => eol(c, i),
    }
}

/// The comment at `i` is a `##` documentation comment.
pub open spec fn is_doc_comment(c: Seq<char>, i: int) -> bool {
    comment_block_end(c, i) is None && 0 <= i && i + 1 < c.len() && c[i + 1] == '#'
}

/// The indentation from `k` after width `w` so far: its width (a tab counts
/// four), the position where it stops, and whether the line is blank there.
pub open spec fn lead(c: Seq<char>, k: int, w: int) -> (int, int, bool)
    decreases c.len() - k,
{
    if 0 <= k < c.len() {
        if c[k] == ' ' {
            lead(c, k + 1, w + 1)
        } else if c[k] == '\t' {
            lead(c, k + 1, w + 4)
        } else if c[k] == '\n' || c[k] == '\r' {
            (w, k, true)
        } else {
            (w, k, false)
        }
    } else {
        (w, k, false)
    }
}

/// The number of open blocks deeper than `w`, from the innermost.
pub open spec fn dedent_count(stack: Seq<usize>, w: int) -> nat
    decreases stack.len(),
{
    if stack.len() > 0 && stack.last() > w {
        1 + dedent_count(stack.drop_last(), w)
    } else {
        0
    }
}

/// `n` tokens of kind `k` with no text and the span `sp`.
pub open spec fn layout_tokens(n: nat, k: TokenKind, sp: Span) -> Seq<TokenView> {
    Seq::new(n, |_i: int| (k, Seq::<char>::empty(), sp))
}

/// The tokens that the indentation of the line at `i` (at byte `b`, line
/// `line`) makes with the open blocks `stack`, and the blocks open after
/// it: an indent, spanning the indentation, when the line is deeper than
/// the innermost block; an empty dedent at the line's start for each block
/// that it leaves; nothing for blank lines, nor for comment lines that are
/// not deeper.
pub open spec fn indent_step(c: Seq<char>, i: int, b: int, line: int, stack: Seq<usize>) -> (Seq<TokenView>, Seq<usize>) {
    let (w, k, blank) = lead(c, i, 0);
    if blank {
        (Seq::empty(), stack)
    } else if w > stack.last() {
        (seq![(TokenKind::Indent, Seq::<char>::empty(), span_on(line, b, b, b + (k - i)))], stack.push(w as usize))
    } else if !(0 <= k < c.len() && c[k] == '#') {
        let n = dedent_count(stack, w);
        (layout_tokens(n, TokenKind::Dedent, span_on(line, b, b, b)), stack.take(stack.len() - n))
    } else {
        (Seq::empty(), stack)
    }
}

pub proof fn lemma_ends(c: Seq<char>, i: int)
    requires
        0 <= i <= c.len(),
    ensures
        i <= ident_end(c, i) <= c.len(),
        i <= digits_end(c, i) <= c.len(),
        i <= eol(c, i) <= c.len(),
        i <= hash_from(c, i) <= c.len(),
    decreases c.len() - i,
{
    if i < c.len() {
        lemma_ends(c, i + 1);
    }
}

pub proof fn lemma_string_end(c: Seq<char>, k: int, q: char)
    requires
        0 <= k,
    ensures
        string_end(c, k, q) matches Some(j) ==> k < j <= c.len(),
    decreases c.len() - k,
{
    if 0 <= k < c.len() {
        if c[k] != q && c[k] == '\\' && k + 1 < c.len() && c[k + 1] != '\n' {
            lemma_string_end(c, k + 2, q);
        } else if c[k] != q && c[k] != '\\' {
            lemma_string_end(c, k + 1, q);
        }
    }
}

pub proof fn lemma_comment_end(c: Seq<char>, i: int)
    requires
        0 <= i < c.len(),
        c[i] == '#',
    ensures
        i < comment_end(c, i) <= c.len(),
{
    lemma_ends(c, i);
    lemma_ends(c, i + 1);
    if 0 <= i && i + 2 < c.len() && c[i + 1] == '#' && c[i + 2] == '#' {
        lemma_ends(c, i + 3);
    }
}

/// The tokens that the characters `c` make from `i`, after the tokens
/// `acc`, with the blocks `stack` open; `i` stands at byte `b` of line
/// `line`, which starts at byte `ls`. At the start of a line
/// (`at_line_start`) its indentation comes first. Each token spans its
/// text; at the end of input every open block but the outermost is closed,
/// and `Eof` ends the tokens, all of them empty, at column 1 of the last line.
pub open spec fn lex_from(
    c: Seq<char>,
    i: int,
    b: int,
    line: int,
    ls: int,
    at_line_start: bool,
    stack: Seq<usize>,
    acc: Seq<TokenView>,
) -> Seq<TokenView>
    decreases c.len() - i, (if at_line_start { 1nat } else { 0nat }),
{
    if !(0 <= i <= c.len()) {
        acc
    } else if at_line_start {
        let (ts, st) = indent_step(c, i, b, line, stack);
        lex_from(c, i, b, line, ls, false, st, acc + ts)
    } else if i == c.len() {
        let end = Position { line: line as usize, column: 1, offset: b as usize };
        let sp = Span { start: end, end: end };
        acc + layout_tokens((stack.len() - 1) as nat, TokenKind::Dedent, sp) + seq![(TokenKind::Eof, Seq::<char>::empty(), sp)]
    } else {
        let ch = c[i];
        proof {
            lemma_ends(c, i);
            lemma_ends(c, i + 1);
        }
        if ch == ' ' || ch == '\t' {
            lex_from(c, i + 1, b + 1, line, ls, false, stack, acc)
        } else if ch == '\n' {
            lex_from(c, i + 1, b + 1, line + 1, b + 1, true, stack,
                acc.push((TokenKind::Newline, seq!['\n'], span_on(line, ls, b, b + 1))))
        } else if ch == '\r' && i + 1 < c.len() && c[i + 1] == '\n' {
            lex_from(c, i + 2, b + 2, line + 1, b + 2, true, stack,
                acc.push((TokenKind::Newline, seq!['\r', '\n'], span_on(line, ls, b, b + 2))))
        } else if ch == '#' {
            let j = comment_end(c, i);
            proof {
                lemma_comment_end(c, i);
            }
            let eb = b + utf8_bytes(c.subrange(i, j));
            let acc2 = if is_doc_comment(c, i) {
                acc.push((TokenKind::DocComment, c.subrange(i, j), span_on(line, ls, b, eb)))
            } else {
                acc
            };
            lex_from(c, j, eb, line, ls, false, stack, acc2)
        } else if is_ident_start(ch) {
            let j = ident_end(c, i + 1);
            let w = c.subrange(i, j);
            let eb = b + utf8_bytes(w);
            let k = match keyword_kind(w) {
                Some(k) => k,
                None => TokenKind::Identifier,
            };
            lex_from(c, j, eb, line, ls, false, stack, acc.push((k, w, span_on(line, ls, b, eb))))
        } else if is_digit(ch) {
            let d = digits_end(c, i);
            proof {
                if d + 1 < c.len() {
                    lemma_ends(c, d + 1);
                }
            }
            let j = number_end(c, i);
            let eb = b + utf8_bytes(c.subrange(i, j));
            lex_from(c, j, eb, line, ls, false, stack, acc.push((TokenKind::Number, c.subrange(i, j), span_on(line, ls, b, eb))))
        } else if ch == '"' || ch == '\'' {
            proof {
                lemma_string_end(c, i + 1, ch);
            }
            match string_end(c, i + 1, ch) {
                Some(j) => {
                    let eb = b + utf8_bytes(c.subrange(i, j));
                    lex_from(c, j, eb, line, ls, false, stack, acc.push((
                        if ch == '"' { TokenKind::StringDouble } else { TokenKind::StringSingle },
                        c.subrange(i, j),
                        span_on(line, ls, b, eb),
                    )))
                },
                None => lex_from(c, i + 1, b + 1, line, ls, false, stack, acc),
            }
        } else {
            match punct_kind(ch) {
                Some(k) => lex_from(c, i + 1, b + 1, line, ls, false, stack, acc.push((k, seq![ch], span_on(line, ls, b, b + 1)))),
                None => lex_from(c, i + 1, b + spec_utf8_len(ch), line, ls, false, stack, acc),
            }
        }
    }
}

/// The tokens of the source `c`, as plain values.
pub open spec fn lexed(c: Seq<char>) -> Seq<TokenView> {
    lex_from(c, 0, 0, 1, 0, true, seq![0usize], Seq::empty())
}

/// One step of tokenizing, outside indentation: the token at `i` (at byte
/// `b` of line `line`, which starts at byte `line_start`), if any, pushed
/// onto `out`; the positions after it, and whether a line starts there.
#[verifier::rlimit(60)]
fn lex_token(
    chars: &Vec<char>,
    i: usize,
    b: usize,
    line: usize,
    line_start: usize,
    out: &mut Vec<Token>,
    Ghost(stack): Ghost<Seq<usize>>,
    Ghost(pos0): Ghost<Seq<int>>,
) -> (r: (usize, usize, usize, usize, bool, Ghost<Seq<int>>))
    requires
        texts_at(old(out)@, chars@, pos0),
        forall|k: int| 0 <= k < old(out)@.len() ==> #[trigger] pos0[k] + old(out)@[k].text@.len() <= i,
        chars@.len() <= usize::MAX / 8,
        i < chars@.len(),
        b <= 4 * i,
        line_start <= b,
        line <= i + 1,
        stream_ok(old(out)@),
        indent_depth(old(out)@) >= 0,
    ensures
        i < r.0 <= chars@.len(),
        r.1 <= 4 * r.0,
        r.3 <= r.1,
        r.2 <= r.0 + 1,
        r.4 ==> r.3 == r.1,
        texts_at(final(out)@, chars@, r.5@),
        forall|k: int| 0 <= k < final(out)@.len() ==> #[trigger] r.5@[k] + final(out)@[k].text@.len() <= r.0,
        stream_ok(final(out)@),
        indent_depth(final(out)@) == indent_depth(old(out)@),
        lex_from(chars@, i as int, b as int, line as int, line_start as int, false, stack, token_views(old(out)@))
            == lex_from(chars@, r.0 as int, r.1 as int, r.2 as int, r.3 as int, r.4, stack, token_views(final(out)@)),
{
    let n = chars.len();
    let ghost mut pos = pos0;
    let mut i: usize = i;
    let mut b: usize = b;
    let mut line: usize = line;
    let mut line_start: usize = line_start;
    let mut at_line_start = false;
    let c = chars[i];
    if c == ' ' || c == '\t' {
        i = i + 1;
        b = b + 1;
    } else if c == '\n' || (c == '\r' && i + 1 < n && chars[i + 1] == '\n') {
        let j = if c == '\n' { i + 1 } else { i + 2 };
        let eb = b + (j - i);
        let text = string_from_chars(chars.as_slice(), i, j);
        proof {
            if c == '\n' {
                assert(text@ =~= seq!['\n']);
            } else {
                assert(text@ =~= seq!['\r', '\n']);
            }
        }
        let span = Span::new(pos_at(line, line_start, b), pos_at(line, line_start, eb));
        let t = Token { kind: TokenKind::Newline, text, span };
        proof {
            lemma_push_text(out@, chars@, pos, t, i as int, j as int);
            pos = pos.push(i as int);
            lemma_views_push(out@, t);
        }
        push_token(out, t);
        line = line + 1;
        line_start = eb;
        b = eb;
        i = j;
        at_line_start = true;
    } else if c == '#' {
        let scanned = scan_comment(chars, i);
        let j = match scanned {
            CommentScan::Block(j) => j,
            CommentScan::Doc(j) => j,
            CommentScan::Plain(j) => j,
        };
        let eb = b + byte_len(chars, i, j);
        match scanned {
            CommentScan::Doc(e) => {
                let text = string_from_chars(chars.as_slice(), i, e);
                proof {
                    let w = text@;
                    assert(w[0] == '#' && w[1] == '#');
                    assert(!w.contains('\n')) by {
                        if w.contains('\n') {
                            let k = choose|k: int| 0 <= k < w.len() && w[k] == '\n';
                            assert(chars@[i + k] == '\n');
                        }
                    }
                }
                let span = Span::new(pos_at(line, line_start, b), pos_at(line, line_start, eb));
                let t = Token { kind: TokenKind::DocComment, text, span };
                proof {
                    lemma_push_text(out@, chars@, pos, t, i as int, e as int);
                    pos = pos.push(i as int);
                    lemma_views_push(out@, t);
                }
                push_token(out, t);
            },
            _ => {},
        }
        i = j;
        b = eb;
    } else if ident_start_char(c) {
        let j = scan_ident(chars, i);
        let eb = b + byte_len(chars, i, j);
        let text = string_from_chars(chars.as_slice(), i, j);
        let kind = match keyword_lookup(&text) {
            Some(k) => k,
            None => TokenKind::Identifier,
        };
        proof {
            if kind != TokenKind::Identifier {
                assert(keyword_kind(text@) == Some(kind));
            }
        }
        let span = Span::new(pos_at(line, line_start, b), pos_at(line, line_start, eb));
        let t = Token { kind, text, span };
        proof {
            lemma_push_text(out@, chars@, pos, t, i as int, j as int);
            pos = pos.push(i as int);
            lemma_views_push(out@, t);
        }
        push_token(out, t);
        i = j;
        b = eb;
    } else if digit_char(c) {
        let j = scan_number(chars, i);
        let eb = b + byte_len(chars, i, j);
        let text = string_from_chars(chars.as_slice(), i, j);
        let span = Span::new(pos_at(line, line_start, b), pos_at(line, line_start, eb));
        let t = Token { kind: TokenKind::Number, text, span };
        proof {
            lemma_push_text(out@, chars@, pos, t, i as int, j as int);
            pos = pos.push(i as int);
            lemma_views_push(out@, t);
        }
        push_token(out, t);
        i = j;
        b = eb;
    } else if c == '"' || c == '\'' {
        match scan_string(chars, i, c) {
            Some(j) => {
                let eb = b + byte_len(chars, i, j);
                let text = string_from_chars(chars.as_slice(), i, j);
                let kind = if c == '"' { TokenKind::StringDouble } else { TokenKind::StringSingle };
                let span = Span::new(pos_at(line, line_start, b), pos_at(line, line_start, eb));
                let t = Token { kind, text, span };
                proof {
                    lemma_push_text(out@, chars@, pos, t, i as int, j as int);
                    pos = pos.push(i as int);
                    lemma_views_push(out@, t);
                }
                push_token(out, t);
                i = j;
                b = eb;
            },
            None => {
                i = i + 1;
                b = b + 1;
            },
        }
    } else {
        match punct_lookup(c) {
            Some(kind) => {
                let text = string_from_chars(chars.as_slice(), i, i + 1);
                proof {
                    assert(text@.len() == 1 && text@[0] == c);
                    assert(keyword_kind(text@) == Some(kind) || punct_kind(text@[0]) == Some(kind));
                }
                let span = Span::new(pos_at(line, line_start, b), pos_at(line, line_start, b + 1));
                let t = Token { kind, text, span };
                proof {
                    lemma_push_text(out@, chars@, pos, t, i as int, i + 1);
                    pos = pos.push(i as int);
                    lemma_views_push(out@, t);
                    assert(text@ =~= seq![c]);
                }
                push_token(out, t);
                i = i + 1;
                b = b + 1;
            },
            None => {
                b = b + utf8_len(c);
                i = i + 1;
            },
        }
    }
    (i, b, line, line_start, at_line_start, Ghost(pos))
}

/// Tokenize `chars`.
fn lex(chars: &Vec<char>) -> (tokens: Vec<Token>)
    requires
        chars@.len() <= usize::MAX / 8,
    ensures
        tokens_ok(tokens@),
        texts_in_order(tokens@, chars@),
        token_views(tokens@) == lexed(chars@),
{
    let n = chars.len();
    let mut out: Vec<Token> = Vec::new();
    let mut stack: Vec<usize> = Vec::new();
    stack.push(0);
    let mut i: usize = 0;
    let mut b: usize = 0;
    let mut line: usize = 1;
    let mut line_start: usize = 0;
    let mut at_line_start = true;
    let ghost mut pos: Seq<int> = Seq::empty();
    loop
        invariant
            texts_at(out@, chars@, pos),
            forall|k: int| 0 <= k < out@.len() ==> #[trigger] pos[k] + out@[k].text@.len() <= i,
            n == chars@.len(),
            n <= usize::MAX / 8,
            i <= n,
            b <= 4 * i,
            line_start <= b,
            line <= i + 1,
            at_line_start ==> line_start == b,
            stream_ok(out@),
            indent_depth(out@) == stack@.len() - 1,
            stack@.len() >= 1,
            stack@[0] == 0,
            lexed(chars@) == lex_from(chars@, i as int, b as int, line as int, line_start as int, at_line_start, stack@, token_views(out@)),
        ensures
            i == n,
            lexed(chars@) == lex_from(chars@, i as int, b as int, line as int, line_start as int, false, stack@, token_views(out@)),
        decreases n - i,
    {
        if at_line_start {
            at_line_start = false;
            let ghost before = out@;
            process_indentation(chars, i, b, line, &mut out, &mut stack);
            proof {
                pos = lemma_extend_empty(before, out@, chars@, pos, i as int);
            }
            assert(lexed(chars@) == lex_from(chars@, i as int, b as int, line as int, line_start as int, at_line_start, stack@, token_views(out@)));
        }
        if i >= n {
            break;
        }
        let (i2, b2, line2, ls2, at2, pos2) = lex_token(chars, i, b, line, line_start, &mut out, Ghost(stack@), Ghost(pos));
        i = i2;
        b = b2;
        line = line2;
        line_start = ls2;
        at_line_start = at2;
        proof {
            pos = pos2@;
        }
    }
    // End of input: close every open block, then mark the end.
    let end = Position::new(line, 1, b);
    let ghost sp = Span { start: end, end: end };
    let ghost v0 = token_views(out@);
    let ghost s0 = stack@;
    assert(token_views(out@) =~= v0 + layout_tokens(0, TokenKind::Dedent, sp));
    assert(end == Position { line: line as usize, column: 1, offset: b as usize });
    while stack.len() > 1
        invariant
            s0.len() >= stack@.len() >= 1,
            sp == (Span { start: end, end: end }),
            lexed(chars@) == v0 + layout_tokens((s0.len() - 1) as nat, TokenKind::Dedent, sp)
                + seq![(TokenKind::Eof, Seq::<char>::empty(), sp)],
            token_views(out@) == v0 + layout_tokens((s0.len() - stack@.len()) as nat, TokenKind::Dedent, sp),
            texts_at(out@, chars@, pos),
            forall|k: int| 0 <= k < out@.len() ==> #[trigger] pos[k] + out@[k].text@.len() <= n,
            n == chars@.len(),
            stream_ok(out@),
            indent_depth(out@) == stack@.len() - 1,
            stack@.len() >= 1,
        decreases stack@.len(),
    {
        stack.pop();
        let t = Token::new(TokenKind::Dedent, "", Span::new(end, end));
        proof {
            reveal_strlit("");
            assert(t.text@ =~= chars@.subrange(n as int, n as int));
            lemma_push_text(out@, chars@, pos, t, n as int, n as int);
            pos = pos.push(n as int);
            lemma_views_push(out@, t);
            assert(t.text@ =~= Seq::<char>::empty());
            assert(token_views(out@.push(t)) =~= v0 + layout_tokens((s0.len() - stack@.len()) as nat, TokenKind::Dedent, sp));
        }
        push_token(&mut out, t);
    }
    let eof = Token::new(TokenKind::Eof, "", Span::new(end, end));
    proof {
        reveal_strlit("");
        lemma_push_depth(out@, eof);
        assert(eof.text@ =~= chars@.subrange(n as int, n as int));
        lemma_push_text(out@, chars@, pos, eof, n as int, n as int);
        pos = pos.push(n as int);
        lemma_views_push(out@, eof);
        assert(eof.text@ =~= Seq::<char>::empty());
        assert(token_views(out@.push(eof)) =~= lexed(chars@));
    }
    out.push(eof);
    assert(texts_at(out@, chars@, pos));
    out
}

/// Lexer for the Hielements language. It tokenizes the whole source up
/// front and hands the tokens out one at a time.
pub struct Lexer {
    tokens: Vec<Token>,
    index: usize,
}

impl Lexer {
    /// The tokens that `next_token` and `tokenize` have not handed out yet,
    /// ending with `Eof`.
    pub closed spec fn remaining(&self) -> Seq<Token> {
        self.tokens@.skip(self.index as int)
    }

    pub closed spec fn wf(&self) -> bool {
        &&& tokens_ok(self.tokens@)
        &&& self.index < self.tokens@.len()
    }

    /// A lexer over `source`, which it tokenizes whole: the tokens are well
    /// formed (see `tokens_ok`), and their texts are pieces of the source,
    /// in order and without overlapping.
    pub fn new(source: &str) -> (l: Self)
        requires
            source@.len() <= usize::MAX / 8,
        ensures
            l.wf(),
            tokens_ok(l.remaining()),
            texts_in_order(l.remaining(), source@),
            token_views(l.remaining()) == lexed(source@),
    {
        let chars = chars_of(source);
        let tokens = lex(&chars);
        let l = Lexer { tokens, index: 0 };
        assert(l.tokens@.skip(0) =~= l.tokens@);
        l
    }

    /// Get the next token; after the end, `Eof` again and again.
    pub fn next_token(&mut self) -> (t: Token)
        requires
            old(self).wf(),
        ensures
            final(self).wf(),
            t == old(self).remaining()[0],
            t.kind == TokenKind::Eof ==> final(self).remaining() == old(self).remaining(),
            t.kind != TokenKind::Eof ==> final(self).remaining() == old(self).remaining().drop_first(),
            t.kind == TokenKind::Eof ==> t.text@.len() == 0 && final(self).remaining()[0] == t,
    {
        let t = self.tokens[self.index].clone();
        assert(token_ok(self.tokens@[self.index as int]));
        if self.index < self.tokens.len() - 1 {
            self.index = self.index + 1;
            assert(self.tokens@.skip(self.index as int) =~= old(self).remaining().drop_first());
        } else {
            assert(self.index == self.tokens@.len() - 1);
        }
        t
    }

    /// Tokenize the rest of the source, up to and including `Eof`.
    pub fn tokenize(&mut self) -> (tokens: Vec<Token>)
        requires
            old(self).wf(),
        ensures
            final(self).wf(),
            tokens@ == old(self).remaining(),
            final(self).remaining().len() == 1,
    {
        let mut tokens: Vec<Token> = Vec::new();
        let mut k = self.index;
        while k < self.tokens.len()
            invariant
                self.index <= k <= self.tokens@.len(),
                tokens@ == self.tokens@.subrange(self.index as int, k as int),
            decreases self.tokens@.len() - k,
        {
            tokens.push(self.tokens[k].clone());
            k = k + 1;
            assert(tokens@ =~= self.tokens@.subrange(self.index as int, k as int));
        }
        self.index = self.tokens.len() - 1;
        tokens
    }
}

/// However many tokens a lexer has handed out, some remain, and the last
/// of them is `Eof`: the end of input is never consumed.
pub proof fn law_tokens_well_formed(l: Lexer)
    requires
        l.wf(),
    ensures
        l.remaining().len() > 0,
        l.remaining().last().kind == TokenKind::Eof,
{
    assert(l.tokens@.skip(l.index as int).last() == l.tokens@.last());
}

} // verus!
