use vstd::prelude::*;

verus! {

/// A half-open range `[lo, hi)` in the coordinate space that all registered
/// source fragments share.
#[derive(Clone, Copy, Debug, PartialEq, Eq, Structural)]
pub struct Span {
    pub lo: u32,
    pub hi: u32,
}

/// A resolved position: `line` counts from 1, `column` from 0.
#[derive(Clone, Copy, Debug, PartialEq, Eq, Structural)]
pub struct LineColumn {
    pub line: usize,
    pub column: usize,
}

impl Span {
    /// A span is well formed when it does not run backwards.
    pub open spec fn wf(self) -> bool {
        self.lo <= self.hi
    }

    /// The span that stands for an unspecified location.
    pub open spec fn is_trivial(self) -> bool {
        self.lo == 0 && self.hi == 0
    }

    /// Whether `other` lies entirely inside `self`.
    pub open spec fn contains(self, other: Span) -> bool {
        self.lo <= other.lo && other.hi <= self.hi
    }

    pub fn call_site() -> (r: Span)
        ensures
            r.is_trivial(),
    {
        Span { lo: 0, hi: 0 }
    }

    pub fn mixed_site() -> (r: Span)
        ensures
            r.is_trivial(),
    {
        Span::def_site()
    }

    pub fn def_site() -> (r: Span)
        ensures
            r.is_trivial(),
    {
        Span::call_site()
    }

    /// Spans carry only location, so resolution keeps `self` as it is.
    pub fn resolved_at(&self, other: Span) -> (r: Span)
        ensures
            r == *self,
    {
        *self
    }

    /// Spans carry only location, so the location of `other` is taken.
    pub fn located_at(&self, other: Span) -> (r: Span)
        ensures
            r == other,
    {
        other
    }

    /// The first byte of the span, or the empty span at `lo` if it is empty.
    pub fn first_byte(self) -> (r: Span)
        ensures
            r.lo == self.lo,
            r.hi == (if self.lo < self.hi { self.lo + 1 } else { self.hi as int }),
    {
        let next = self.lo.saturating_add(1);
        Span { lo: self.lo, hi: if next < self.hi { next } else { self.hi } }
    }

    /// The last byte of the span, or the empty span at `hi` if it is empty.
    pub fn last_byte(self) -> (r: Span)
        ensures
            r.hi == self.hi,
            r.lo == (if self.lo < self.hi { self.hi - 1 } else { self.lo as int }),
    {
        let prev = self.hi.saturating_sub(1);
        Span { lo: if prev > self.lo { prev } else { self.lo }, hi: self.hi }
    }

    /// Whether `other` lies entirely inside `self`.
    pub fn span_within(&self, other: Span) -> (r: bool)
        ensures
            r == self.contains(other),
    {
        other.lo >= self.lo && other.hi <= self.hi
    }
}

} // verus!
