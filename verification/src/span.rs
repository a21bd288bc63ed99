//! Source span tracking for error reporting.

use vstd::prelude::*;
use crate::text::{chars_of, spec_utf8_len, utf8_len};

verus! {

/// A position in the source code.
#[derive(Debug, Clone, Copy, PartialEq, Eq, Structural)]
pub struct Position {
    /// Line number (1-indexed)
    pub line: usize,
    /// Column number (1-indexed)
    pub column: usize,
    /// Byte offset from the start of the file
    pub offset: usize,
}

impl Position {
    pub fn new(line: usize, column: usize, offset: usize) -> (p: Self)
        ensures
            p.line == line,
            p.column == column,
            p.offset == offset,
    {
        Position { line, column, offset }
    }
}

impl Default for Position {
    fn default() -> (p: Self)
        ensures
            p.line == 0 && p.column == 0 && p.offset == 0,
    {
        Position { line: 0, column: 0, offset: 0 }
    }
}

/// A span in the source code.
#[derive(Debug, Clone, Copy, PartialEq, Eq, Structural)]
pub struct Span {
    /// Start position
    pub start: Position,
    /// End position
    pub end: Position,
}

/// Line and column reached after walking `chars` from byte offset `cur`,
/// stopping at the first character that starts at or after byte `offset`.
pub open spec fn walk_position(chars: Seq<char>, offset: int, line: int, column: int, cur: int) -> (int, int)
    decreases chars.len(),
{
    if chars.len() == 0 || cur >= offset {
        (line, column)
    } else if chars[0] == '\n' {
        walk_position(chars.drop_first(), offset, line + 1, 1, cur + spec_utf8_len(chars[0]))
    } else {
        walk_position(chars.drop_first(), offset, line, column + 1, cur + spec_utf8_len(chars[0]))
    }
}

/// The line and column of byte `offset` in `source` (both 1-indexed).
pub open spec fn spec_offset_to_position(source: Seq<char>, offset: int) -> (int, int) {
    walk_position(source, offset, 1, 1, 0)
}

/// The span that starts at the earlier start and ends at the later end.
pub open spec fn spec_merge(a: Span, b: Span) -> Span {
    Span {
        start: if a.start.offset < b.start.offset { a.start } else { b.start },
        end: if a.end.offset > b.end.offset { a.end } else { b.end },
    }
}

proof fn lemma_walk_bounds(chars: Seq<char>, offset: int, line: int, column: int, cur: int)
    requires
        line >= 1,
        column >= 1,
    ensures
        line <= walk_position(chars, offset, line, column, cur).0 <= line + chars.len(),
        1 <= walk_position(chars, offset, line, column, cur).1 <= column + chars.len(),
    decreases chars.len(),
{
    if chars.len() == 0 || cur >= offset {
    } else if chars[0] == '\n' {
        lemma_walk_bounds(chars.drop_first(), offset, line + 1, 1, cur + spec_utf8_len(chars[0]));
    } else {
        lemma_walk_bounds(chars.drop_first(), offset, line, column + 1, cur + spec_utf8_len(chars[0]));
    }
}

impl Span {
    pub fn new(start: Position, end: Position) -> (s: Self)
        ensures
            s.start == start,
            s.end == end,
    {
        Span { start, end }
    }

    /// Create a span from byte offsets and source text.
    pub fn from_offsets(source: &str, start_offset: usize, end_offset: usize) -> (s: Self)
        requires
            source@.len() + 2 <= usize::MAX,
        ensures
            s.start.offset == start_offset,
            s.end.offset == end_offset,
            (s.start.line as int, s.start.column as int) == spec_offset_to_position(source@, start_offset as int),
            (s.end.line as int, s.end.column as int) == spec_offset_to_position(source@, end_offset as int),
    {
        let chars = chars_of(source);
        let start = Self::offset_to_position(&chars, start_offset);
        let end = Self::offset_to_position(&chars, end_offset);
        Span { start, end }
    }

    /// Convert a byte offset to a position.
    fn offset_to_position(chars: &Vec<char>, offset: usize) -> (p: Position)
        requires
            chars@.len() + 2 <= usize::MAX,
        ensures
            p.offset == offset,
            (p.line as int, p.column as int) == spec_offset_to_position(chars@, offset as int),
    {
        let mut line: usize = 1;
        let mut column: usize = 1;
        let mut current_offset: usize = 0;
        let mut i: usize = 0;
        proof {
            lemma_walk_bounds(chars@, offset as int, 1, 1, 0);
            assert(chars@.skip(0) =~= chars@);
        }
        while i < chars.len() && current_offset < offset
            invariant
                i <= chars@.len(),
                chars@.len() + 2 <= usize::MAX,
                1 <= line <= i + 1,
                1 <= column <= i + 1,
                walk_position(chars@.skip(i as int), offset as int, line as int, column as int, current_offset as int)
                    == spec_offset_to_position(chars@, offset as int),
            decreases chars@.len() - i,
        {
            let ghost before = chars@.skip(i as int);
            assert(before.drop_first() =~= chars@.skip(i + 1));
            assert(before[0] == chars@[i as int]);
            let ghost true_next = current_offset + spec_utf8_len(chars@[i as int]);
            let ch = chars[i];
            if ch == '\n' {
                line = line + 1;
                column = 1;
            } else {
                column = column + 1;
            }
            current_offset = current_offset.saturating_add(utf8_len(ch));
            proof {
                let rest = chars@.skip(i + 1);
                if true_next != current_offset as int {
                    // Saturation only happens past `offset`: the walk stops either way.
                    assert(walk_position(rest, offset as int, line as int, column as int, true_next)
                        == (line as int, column as int));
                    assert(walk_position(rest, offset as int, line as int, column as int, current_offset as int)
                        == (line as int, column as int));
                }
            }
            i = i + 1;
        }
        proof {
            if i == chars.len() {
                assert(chars@.skip(i as int).len() == 0);
            }
        }
        Position::new(line, column, offset)
    }

    /// Merge two spans into one that covers both.
    pub fn merge(&self, other: &Span) -> (s: Span)
        ensures
            s == spec_merge(*self, *other),
    {
        let start = if self.start.offset < other.start.offset { self.start } else { other.start };
        let end = if self.end.offset > other.end.offset { self.end } else { other.end };
        Span { start, end }
    }
}

impl Default for Span {
    fn default() -> (s: Self)
        ensures
            s.start == (Position { line: 0, column: 0, offset: 0 }),
            s.end == (Position { line: 0, column: 0, offset: 0 }),
    {
        Span { start: Position::default(), end: Position::default() }
    }
}

/// A value with an associated source span.
#[derive(Debug, Clone, PartialEq, Eq)]
pub struct Spanned<T> {
    pub value: T,
    pub span: Span,
}

impl<T> Spanned<T> {
    pub fn new(value: T, span: Span) -> (s: Self)
        ensures
            s.value == value,
            s.span == span,
    {
        Spanned { value, span }
    }
}

/// Merging is commutative up to ties: when the two starts and the two ends
/// differ in offset, merging `a` with `b` gives the same span as `b` with `a`.
pub proof fn law_merge_commutes(a: Span, b: Span)
    requires
        a.start.offset != b.start.offset,
        a.end.offset != b.end.offset,
    ensures
        spec_merge(a, b) == spec_merge(b, a),
{
}

/// A merged span covers both of its inputs: it starts no later and ends no
/// earlier than either of them.
pub proof fn law_merge_covers(a: Span, b: Span)
    ensures
        spec_merge(a, b).start.offset <= a.start.offset,
        spec_merge(a, b).start.offset <= b.start.offset,
        spec_merge(a, b).end.offset >= a.end.offset,
        spec_merge(a, b).end.offset >= b.end.offset,
        spec_merge(a, b).start == a.start || spec_merge(a, b).start == b.start,
        spec_merge(a, b).end == a.end || spec_merge(a, b).end == b.end,
{
}

} // verus!
