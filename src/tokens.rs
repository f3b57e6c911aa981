use vstd::prelude::*;
use crate::span::{Position, Span};

verus! {

/// Declares `erl_tokenize::Keyword`, the tokenizer's reserved words. Keyword tokens
/// carry it as an opaque value; the layout never looks inside.
#[verifier::external_type_specification]
#[verifier::external_body]
pub struct ExKeyword(erl_tokenize::Keyword);

/// Declares `erl_tokenize::Symbol`, the tokenizer's punctuation and operator symbols.
/// Symbol tokens carry it as an opaque value; the layout never looks inside.
#[verifier::external_type_specification]
#[verifier::external_body]
pub struct ExSymbol(erl_tokenize::Symbol);

/// An atom, such as `foo` or `'Foo'`, with its name.
#[derive(Debug)]
pub struct AtomToken {
    value: String,
    start: Position,
    end: Position,
}

impl AtomToken {
    /// This token moved to `span`, its value unchanged.
    pub closed spec fn spec_with_span(&self, span: Span) -> AtomToken {
        AtomToken { start: span.start, end: span.end, ..*self }
    }

    pub fn new(value: &str, start: Position, end: Position) -> (r: AtomToken)
        ensures
            r.spec_value() == value@,
            r.spec_span() == (Span { start, end }),
    {
        AtomToken { value: value.to_owned(), start, end }
    }

    pub closed spec fn spec_value(&self) -> Seq<char> {
        self.value@
    }

    pub fn value(&self) -> (r: &str)
        ensures
            r@ == self.spec_value(),
    {
        self.value.as_str()
    }

    pub closed spec fn spec_span(&self) -> Span {
        Span { start: self.start, end: self.end }
    }

    pub fn span(&self) -> (r: Span)
        ensures
            r == self.spec_span(),
    {
        Span { start: self.start, end: self.end }
    }
}

/// A character literal, such as `$a`.
#[derive(Debug)]
pub struct CharToken {
    start: Position,
    end: Position,
}

impl CharToken {
    /// This token moved to `span`, its value unchanged.
    pub closed spec fn spec_with_span(&self, span: Span) -> CharToken {
        CharToken { start: span.start, end: span.end, ..*self }
    }

    pub fn new(start: Position, end: Position) -> (r: CharToken)
        ensures
            r.spec_span() == (Span { start, end }),
    {
        CharToken { start, end }
    }

    pub closed spec fn spec_span(&self) -> Span {
        Span { start: self.start, end: self.end }
    }

    pub fn span(&self) -> (r: Span)
        ensures
            r == self.spec_span(),
    {
        Span { start: self.start, end: self.end }
    }
}

/// A floating-point literal, such as `12.3`.
#[derive(Debug)]
pub struct FloatToken {
    start: Position,
    end: Position,
}

impl FloatToken {
    /// This token moved to `span`, its value unchanged.
    pub closed spec fn spec_with_span(&self, span: Span) -> FloatToken {
        FloatToken { start: span.start, end: span.end, ..*self }
    }

    pub fn new(start: Position, end: Position) -> (r: FloatToken)
        ensures
            r.spec_span() == (Span { start, end }),
    {
        FloatToken { start, end }
    }

    pub closed spec fn spec_span(&self) -> Span {
        Span { start: self.start, end: self.end }
    }

    pub fn span(&self) -> (r: Span)
        ensures
            r == self.spec_span(),
    {
        Span { start: self.start, end: self.end }
    }
}

/// An integer literal, such as `12`.
#[derive(Debug)]
pub struct IntegerToken {
    start: Position,
    end: Position,
}

impl IntegerToken {
    /// This token moved to `span`, its value unchanged.
    pub closed spec fn spec_with_span(&self, span: Span) -> IntegerToken {
        IntegerToken { start: span.start, end: span.end, ..*self }
    }

    pub fn new(start: Position, end: Position) -> (r: IntegerToken)
        ensures
            r.spec_span() == (Span { start, end }),
    {
        IntegerToken { start, end }
    }

    pub closed spec fn spec_span(&self) -> Span {
        Span { start: self.start, end: self.end }
    }

    pub fn span(&self) -> (r: Span)
        ensures
            r == self.spec_span(),
    {
        Span { start: self.start, end: self.end }
    }
}

/// A reserved word, such as `case` or `when`.
#[derive(Debug)]
pub struct KeywordToken {
    value: erl_tokenize::Keyword,
    start: Position,
    end: Position,
}

impl KeywordToken {
    /// This token moved to `span`, its value unchanged.
    pub closed spec fn spec_with_span(&self, span: Span) -> KeywordToken {
        KeywordToken { start: span.start, end: span.end, ..*self }
    }

    pub fn new(value: erl_tokenize::Keyword, start: Position, end: Position) -> (r: KeywordToken)
        ensures
            r.spec_value() == value,
            r.spec_span() == (Span { start, end }),
    {
        KeywordToken { value, start, end }
    }

    pub closed spec fn spec_value(&self) -> erl_tokenize::Keyword {
        self.value
    }

    pub fn value(&self) -> (r: erl_tokenize::Keyword)
        ensures
            r == self.spec_value(),
    {
        self.value
    }

    pub closed spec fn spec_span(&self) -> Span {
        Span { start: self.start, end: self.end }
    }

    pub fn span(&self) -> (r: Span)
        ensures
            r == self.spec_span(),
    {
        Span { start: self.start, end: self.end }
    }
}

/// A string literal, with its contents.
#[derive(Debug)]
pub struct StringToken {
    value: String,
    start: Position,
    end: Position,
}

impl StringToken {
    /// This token moved to `span`, its value unchanged.
    pub closed spec fn spec_with_span(&self, span: Span) -> StringToken {
        StringToken { start: span.start, end: span.end, ..*self }
    }

    pub fn new(value: &str, start: Position, end: Position) -> (r: StringToken)
        ensures
            r.spec_value() == value@,
            r.spec_span() == (Span { start, end }),
    {
        StringToken { value: value.to_owned(), start, end }
    }

    pub closed spec fn spec_value(&self) -> Seq<char> {
        self.value@
    }

    pub fn value(&self) -> (r: &str)
        ensures
            r@ == self.spec_value(),
    {
        self.value.as_str()
    }

    pub closed spec fn spec_span(&self) -> Span {
        Span { start: self.start, end: self.end }
    }

    pub fn span(&self) -> (r: Span)
        ensures
            r == self.spec_span(),
    {
        Span { start: self.start, end: self.end }
    }
}

/// A punctuation or operator symbol, such as `,` or `<<`.
#[derive(Debug)]
pub struct SymbolToken {
    value: erl_tokenize::Symbol,
    start: Position,
    end: Position,
}

impl SymbolToken {
    /// This token moved to `span`, its value unchanged.
    pub closed spec fn spec_with_span(&self, span: Span) -> SymbolToken {
        SymbolToken { start: span.start, end: span.end, ..*self }
    }

    pub fn new(value: erl_tokenize::Symbol, start: Position, end: Position) -> (r: SymbolToken)
        ensures
            r.spec_value() == value,
            r.spec_span() == (Span { start, end }),
    {
        SymbolToken { value, start, end }
    }

    pub closed spec fn spec_value(&self) -> erl_tokenize::Symbol {
        self.value
    }

    pub fn value(&self) -> (r: erl_tokenize::Symbol)
        ensures
            r == self.spec_value(),
    {
        self.value
    }

    pub closed spec fn spec_span(&self) -> Span {
        Span { start: self.start, end: self.end }
    }

    pub fn span(&self) -> (r: Span)
        ensures
            r == self.spec_span(),
    {
        Span { start: self.start, end: self.end }
    }
}

/// A variable, such as `Foo`, with its name.
#[derive(Debug)]
pub struct VariableToken {
    value: String,
    start: Position,
    end: Position,
}

impl VariableToken {
    /// This token moved to `span`, its value unchanged.
    pub closed spec fn spec_with_span(&self, span: Span) -> VariableToken {
        VariableToken { start: span.start, end: span.end, ..*self }
    }

    pub fn new(value: &str, start: Position, end: Position) -> (r: VariableToken)
        ensures
            r.spec_value() == value@,
            r.spec_span() == (Span { start, end }),
    {
        VariableToken { value: value.to_owned(), start, end }
    }

    pub closed spec fn spec_value(&self) -> Seq<char> {
        self.value@
    }

    pub fn value(&self) -> (r: &str)
        ensures
            r@ == self.spec_value(),
    {
        self.value.as_str()
    }

    pub closed spec fn spec_span(&self) -> Span {
        Span { start: self.start, end: self.end }
    }

    pub fn span(&self) -> (r: Span)
        ensures
            r == self.spec_span(),
    {
        Span { start: self.start, end: self.end }
    }
}

/// A token of the source, as the layout engine sees it.
pub type Token = VisibleToken;

/// A token that is written to the output.
#[derive(Debug)]
pub enum VisibleToken {
    Atom(AtomToken),
    Char(CharToken),
    Float(FloatToken),
    Integer(IntegerToken),
    Keyword(KeywordToken),
    String(StringToken),
    Symbol(SymbolToken),
    Variable(VariableToken),
}

impl VisibleToken {
    pub open spec fn spec_span(&self) -> Span {
        match self {
            VisibleToken::Atom(x) => x.spec_span(),
            VisibleToken::Char(x) => x.spec_span(),
            VisibleToken::Float(x) => x.spec_span(),
            VisibleToken::Integer(x) => x.spec_span(),
            VisibleToken::Keyword(x) => x.spec_span(),
            VisibleToken::String(x) => x.spec_span(),
            VisibleToken::Symbol(x) => x.spec_span(),
            VisibleToken::Variable(x) => x.spec_span(),
        }
    }

    pub fn span(&self) -> (r: Span)
        ensures
            r == self.spec_span(),
    {
        match self {
            VisibleToken::Atom(x) => x.span(),
            VisibleToken::Char(x) => x.span(),
            VisibleToken::Float(x) => x.span(),
            VisibleToken::Integer(x) => x.span(),
            VisibleToken::Keyword(x) => x.span(),
            VisibleToken::String(x) => x.span(),
            VisibleToken::Symbol(x) => x.span(),
            VisibleToken::Variable(x) => x.span(),
        }
    }

    pub fn start_position(&self) -> (r: Position)
        ensures
            r == self.spec_span().start,
    {
        self.span().start
    }

    pub open spec fn spec_with_span(&self, span: Span) -> VisibleToken {
        match self {
            VisibleToken::Atom(x) => VisibleToken::Atom(x.spec_with_span(span)),
            VisibleToken::Char(x) => VisibleToken::Char(x.spec_with_span(span)),
            VisibleToken::Float(x) => VisibleToken::Float(x.spec_with_span(span)),
            VisibleToken::Integer(x) => VisibleToken::Integer(x.spec_with_span(span)),
            VisibleToken::Keyword(x) => VisibleToken::Keyword(x.spec_with_span(span)),
            VisibleToken::String(x) => VisibleToken::String(x.spec_with_span(span)),
            VisibleToken::Symbol(x) => VisibleToken::Symbol(x.spec_with_span(span)),
            VisibleToken::Variable(x) => VisibleToken::Variable(x.spec_with_span(span)),
        }
    }

    /// Moves the token to `span`, its kind and value unchanged.
    pub fn set_span(&mut self, span: Span)
        ensures
            *final(self) == old(self).spec_with_span(span),
            final(self).spec_span() == span,
    {
        match self {
            VisibleToken::Atom(x) => {
                x.start = span.start;
                x.end = span.end;
            },
            VisibleToken::Char(x) => {
                x.start = span.start;
                x.end = span.end;
            },
            VisibleToken::Float(x) => {
                x.start = span.start;
                x.end = span.end;
            },
            VisibleToken::Integer(x) => {
                x.start = span.start;
                x.end = span.end;
            },
            VisibleToken::Keyword(x) => {
                x.start = span.start;
                x.end = span.end;
            },
            VisibleToken::String(x) => {
                x.start = span.start;
                x.end = span.end;
            },
            VisibleToken::Symbol(x) => {
                x.start = span.start;
                x.end = span.end;
            },
            VisibleToken::Variable(x) => {
                x.start = span.start;
                x.end = span.end;
            },
        }
    }

    pub fn end_position(&self) -> (r: Position)
        ensures
            r == self.spec_span().end,
    {
        self.span().end
    }

    pub open spec fn spec_is_symbol(&self) -> bool {
        self is Symbol
    }

    pub fn is_symbol(&self) -> (r: bool)
        ensures
            r == self.spec_is_symbol(),
    {
        matches!(self, VisibleToken::Symbol(_))
    }

    /// Two adjacent tokens that are both words (atoms, variables, numbers, characters,
    /// strings, keywords) need a separating space; a symbol on either side needs none.
    pub open spec fn spec_needs_space(&self, next: &VisibleToken) -> bool {
        !self.spec_is_symbol() && !next.spec_is_symbol()
    }

    pub fn needs_space(&self, next: &VisibleToken) -> (r: bool)
        ensures
            r == self.spec_needs_space(next),
            r == next.spec_needs_space(self),
    {
        !self.is_symbol() && !next.is_symbol()
    }
}

/// Where a comment stands relative to the code around it.
#[derive(Debug, Clone, Copy, PartialEq, Eq, Structural)]
pub enum CommentKind {
    /// On a line of its own, before the next code token.
    Post,
    /// After code, on the same line.
    Trailing,
}

/// A comment: its span in the source and where it stands.
#[derive(Debug, Clone, Copy, PartialEq, Eq, Structural)]
pub struct CommentToken {
    start: Position,
    end: Position,
    kind: CommentKind,
}

impl CommentToken {
    pub fn new(kind: CommentKind, start: Position, end: Position) -> (r: CommentToken)
        ensures
            r.spec_kind() == kind,
            r.spec_span() == (Span { start, end }),
    {
        CommentToken { start, end, kind }
    }

    pub closed spec fn spec_kind(&self) -> CommentKind {
        self.kind
    }

    pub closed spec fn spec_span(&self) -> Span {
        Span { start: self.start, end: self.end }
    }

    pub fn kind(&self) -> (r: CommentKind)
        ensures
            r == self.spec_kind(),
    {
        self.kind
    }

    pub fn span(&self) -> (r: Span)
        ensures
            r == self.spec_span(),
    {
        Span { start: self.start, end: self.end }
    }

    pub fn start_position(&self) -> (r: Position)
        ensures
            r == self.spec_span().start,
    {
        self.start
    }

    pub fn end_position(&self) -> (r: Position)
        ensures
            r == self.spec_span().end,
    {
        self.end
    }
}

/// A run of whitespace in the source; the layout engine writes its own.
#[derive(Debug, Clone, Copy, PartialEq, Eq, Structural)]
pub struct WhitespaceToken {
    start: Position,
    end: Position,
}

impl WhitespaceToken {
    pub fn new(start: Position, end: Position) -> (r: WhitespaceToken)
        ensures
            r.spec_span() == (Span { start, end }),
    {
        WhitespaceToken { start, end }
    }

    pub closed spec fn spec_span(&self) -> Span {
        Span { start: self.start, end: self.end }
    }

    pub fn start_position(&self) -> (r: Position)
        ensures
            r == self.spec_span().start,
    {
        self.start
    }

    pub fn end_position(&self) -> (r: Position)
        ensures
            r == self.spec_span().end,
    {
        self.end
    }
}

} // verus!
