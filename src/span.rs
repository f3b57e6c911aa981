use vstd::prelude::*;

verus! {

/// A place in the source text: a byte offset, with the line and column it falls on.
///
/// Positions are ordered by their offset alone.
#[derive(Debug, Clone, Copy, PartialEq, Eq, Structural)]
pub struct Position {
    pub offset: usize,
    pub line: usize,
    pub column: usize,
}

impl Position {
    pub fn new(offset: usize, line: usize, column: usize) -> (r: Position)
        ensures
            r.offset == offset,
            r.line == line,
            r.column == column,
    {
        Position { offset, line, column }
    }

    pub fn offset(&self) -> (r: usize)
        ensures
            r == self.offset,
    {
        self.offset
    }

    pub fn line(&self) -> (r: usize)
        ensures
            r == self.line,
    {
        self.line
    }

    pub fn column(&self) -> (r: usize)
        ensures
            r == self.column,
    {
        self.column
    }

    /// `self` comes strictly before `other` in the source.
    pub open spec fn spec_lt(self, other: Position) -> bool {
        self.offset < other.offset
    }

    pub fn is_before(&self, other: &Position) -> (r: bool)
        ensures
            r == self.spec_lt(*other),
    {
        self.offset < other.offset
    }
}

/// A half-open range `[start, end)` of the source text.
#[derive(Debug, Clone, Copy, PartialEq, Eq, Structural)]
pub struct Span {
    pub start: Position,
    pub end: Position,
}

impl Span {
    pub fn new(start: Position, end: Position) -> (r: Span)
        ensures
            r.start == start,
            r.end == end,
    {
        Span { start, end }
    }

    pub open spec fn spec_is_empty(self) -> bool {
        self.start.offset == self.end.offset
    }

    pub fn is_empty(&self) -> (r: bool)
        ensures
            r == self.spec_is_empty(),
    {
        self.start.offset == self.end.offset
    }

    /// The span lies inside a text of `len` bytes, start not after end.
    pub open spec fn within(self, len: nat) -> bool {
        self.start.offset <= self.end.offset && self.end.offset <= len
    }
}

/// A position in the source together with the index of the token that starts there.
#[derive(Debug, Clone, Copy, PartialEq, Eq, Structural)]
pub struct TokenPosition {
    token_index: usize,
    text_position: Position,
}

impl TokenPosition {
    pub fn new(token_index: usize, text_position: Position) -> (r: TokenPosition)
        ensures
            r.spec_token_index() == token_index,
            r.spec_text_position() == text_position,
    {
        TokenPosition { token_index, text_position }
    }

    pub closed spec fn spec_token_index(&self) -> usize {
        self.token_index
    }

    pub closed spec fn spec_text_position(&self) -> Position {
        self.text_position
    }

    pub fn token_index(&self) -> (r: usize)
        ensures
            r == self.spec_token_index(),
    {
        self.token_index
    }

    pub fn text_position(&self) -> (r: Position)
        ensures
            r == self.spec_text_position(),
    {
        self.text_position
    }
}

/// The tokens from `start` up to `end`.
#[derive(Debug, Clone, Copy, PartialEq, Eq, Structural)]
pub struct TokenRegion {
    start: TokenPosition,
    end: TokenPosition,
}

impl TokenRegion {
    pub fn new(start: TokenPosition, end: TokenPosition) -> (r: TokenRegion)
        ensures
            r.spec_start() == start,
            r.spec_end() == end,
    {
        TokenRegion { start, end }
    }

    pub closed spec fn spec_start(&self) -> TokenPosition {
        self.start
    }

    pub closed spec fn spec_end(&self) -> TokenPosition {
        self.end
    }

    pub fn start(&self) -> (r: &TokenPosition)
        ensures
            *r == self.spec_start(),
    {
        &self.start
    }

    pub fn end(&self) -> (r: &TokenPosition)
        ensures
            *r == self.spec_end(),
    {
        &self.end
    }

    pub fn region(&self) -> (r: &TokenRegion)
        ensures
            *r == *self,
    {
        self
    }
}

} // verus!
