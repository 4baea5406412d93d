//! Source positions: half-open ranges of character offsets within one source
//! buffer, and the `Spanned` wrapper that pairs a value with its range.

use vstd::prelude::*;

verus! {

/// Identifier of a source buffer in the caller's file table.
pub type FileID = usize;

/// Half-open range `[start, end)` of character offsets within the source
/// buffer named by `file_id`.
#[derive(Clone, Copy, Debug, PartialEq, Eq, Hash, Structural)]
pub struct Span {
    pub file_id: FileID,
    pub start: usize,
    pub end: usize,
}

/// Character offset where the line containing offset `i` begins: the position
/// right after the previous newline, or the start of the buffer.
pub open spec fn line_start_of(s: Seq<char>, i: int) -> int
    decreases i,
{
    if i <= 0 {
        0
    } else if s[i - 1] == '\n' {
        i
    } else {
        line_start_of(s, i - 1)
    }
}

/// Character offset where the line containing offset `i` ends: the position
/// of the next newline, or the end of the buffer.
pub open spec fn line_end_of(s: Seq<char>, i: int) -> int
    decreases s.len() - i,
{
    if i >= s.len() {
        s.len() as int
    } else if s[i] == '\n' {
        i
    } else {
        line_end_of(s, i + 1)
    }
}

impl Span {
    /// A span is ordered and lies within a buffer of `len` characters.
    pub open spec fn wf_within(self, len: nat) -> bool {
        self.start <= self.end <= len
    }

    pub fn new(file_id: FileID, start: usize, end: usize) -> (s: Span)
        ensures
            s == (Span { file_id, start, end }),
    {
        Span { file_id, start, end }
    }

    /// The enclosing span of `self` and `rhs`: it keeps the start and file of
    /// `self` and takes the end of `rhs`. Callers must ensure both spans
    /// belong to the same buffer.
    pub fn combine(self, rhs: Span) -> (s: Span)
        ensures
            s == (Span { file_id: self.file_id, start: self.start, end: rhs.end }),
    {
        Span { file_id: self.file_id, start: self.start, end: rhs.end }
    }

    /// Widens the span by `n` characters, moving only its end.
    pub fn widen(self, n: usize) -> (s: Span)
        requires
            self.end + n <= usize::MAX,
        ensures
            s == (Span { file_id: self.file_id, start: self.start, end: (self.end + n) as usize }),
    {
        Span { file_id: self.file_id, start: self.start, end: self.end + n }
    }

    /// Expands the span to the full line(s) containing it, scanning backward
    /// and forward to the nearest newline or buffer edge.
    pub fn line_bounds(&self, source: &str) -> (r: Span)
        requires
            self.start <= self.end,
            self.end <= source@.len(),
        ensures
            r.file_id == self.file_id,
            r.start == line_start_of(source@, self.start as int),
            r.end == line_end_of(source@, self.end as int),
    {
        let mut line_start: usize = self.start;
        while line_start > 0 && source.get_char(line_start - 1) != '\n'
            invariant
                line_start <= self.start <= self.end <= source@.len(),
                line_start_of(source@, self.start as int) == line_start_of(
                    source@,
                    line_start as int,
                ),
            decreases line_start,
        {
            line_start = line_start - 1;
        }
        let len: usize = source.unicode_len();
        let mut line_end: usize = self.end;
        while line_end < len && source.get_char(line_end) != '\n'
            invariant
                self.end <= line_end <= len == source@.len(),
                line_end_of(source@, self.end as int) == line_end_of(source@, line_end as int),
            decreases len - line_end,
        {
            line_end = line_end + 1;
        }
        Span { file_id: self.file_id, start: line_start, end: line_end }
    }

    /// The span of the final line of a source buffer.
    pub fn from_last_line(source: &str, file_id: FileID) -> (r: Span)
        ensures
            r.file_id == file_id,
            r.start == line_start_of(source@, source@.len() as int),
            r.end == source@.len(),
    {
        let len: usize = source.unicode_len();
        let mut start: usize = len;
        while start > 0 && source.get_char(start - 1) != '\n'
            invariant
                start <= len == source@.len(),
                line_start_of(source@, source@.len() as int) == line_start_of(
                    source@,
                    start as int,
                ),
            decreases start,
        {
            start = start - 1;
        }
        Span { file_id, start, end: len }
    }
}

/// Access to the span of any span-carrying value.
pub trait SpanUtil {
    spec fn spec_span(&self) -> Span;

    fn get_span(&self) -> (s: Span)
        ensures
            s == self.spec_span(),
    ;

    fn take_span(self) -> (s: Span) where Self: Sized
        ensures
            s == self.spec_span(),
    ;
}

impl SpanUtil for Span {
    open spec fn spec_span(&self) -> Span {
        *self
    }

    fn get_span(&self) -> Span {
        *self
    }

    fn take_span(self) -> Span {
        self
    }
}

/// Wrapping any value with the span of any span-carrying source.
pub trait IntoSpanned {
    /// Wraps a reference to the value.
    fn to_spanned_ref<S: SpanUtil>(&self, span: S) -> (r: Spanned<&Self>)
        ensures
            r.span == span.spec_span(),
    {
        Spanned { item: self, span: span.take_span() }
    }

    /// Wraps the value itself.
    fn to_spanned<S: SpanUtil>(self, span: S) -> (r: Spanned<Self>) where Self: Sized
        ensures
            r.item == self,
            r.span == span.spec_span(),
    {
        Spanned { item: self, span: span.take_span() }
    }

    /// Wraps a copy of the value.
    fn as_spanned<S: SpanUtil>(&self, span: S) -> (r: Spanned<Self>) where Self: Clone + Sized
        ensures
            r.span == span.spec_span(),
    {
        Spanned { item: self.clone(), span: span.take_span() }
    }
}

impl<T> IntoSpanned for T {

}

/// A value of type `T` together with the source range it came from.
#[derive(Clone, Debug, PartialEq, Eq, Hash)]
pub struct Spanned<T> {
    pub item: T,
    pub span: Span,
}

impl<T> Spanned<T> {
    pub fn new(item: T, span: Span) -> (r: Spanned<T>)
        ensures
            r.item == item,
            r.span == span,
    {
        Spanned { item, span }
    }

    /// Moves the item onto the heap, keeping the span.
    pub fn box_item(self) -> (r: Spanned<Box<T>>)
        ensures
            *r.item == self.item,
            r.span == self.span,
    {
        Spanned { item: Box::new(self.item), span: self.span }
    }

    /// Pairs a new item with this wrapper's span.
    pub fn swap_item<U>(&self, item: U) -> (r: Spanned<U>)
        ensures
            r.item == item,
            r.span == self.span,
    {
        Spanned { item, span: self.span }
    }
}

impl<T> Spanned<Box<T>> {
    /// Moves the item back off the heap, keeping the span.
    pub fn deref_item(self) -> (r: Spanned<T>)
        ensures
            r.item == *self.item,
            r.span == self.span,
    {
        Spanned { item: *self.item, span: self.span }
    }
}

impl<T> SpanUtil for Spanned<T> {
    open spec fn spec_span(&self) -> Span {
        self.span
    }

    fn get_span(&self) -> Span {
        self.span
    }

    fn take_span(self) -> Span {
        self.span
    }
}

} // verus!
