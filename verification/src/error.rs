//! Position-tagged diagnostics.
//!
//! Every failure of the attribute or shape parsers is fatal to the declaration
//! being parsed and carries the source position of the offending token, so
//! that the embedder can anchor a compile-time diagnostic there.

use vstd::prelude::*;

use crate::syntax::Span;

verus! {

/// The kinds of failure the parsers report.
#[derive(Clone, Copy, Debug, PartialEq, Eq, Structural)]
pub enum ErrorKind {
    /// An attribute body is not a parenthesized `key = literal` list.
    ExpectedNamedList,
    /// An entry of the list is not a single `identifier = literal` pair.
    ExpectedNamedParameter,
    /// A key is not in the recognized set for this attribute's position.
    UnrecognizedParameter,
    /// A literal's kind does not match the requested type.
    InvalidAttributeType,
    /// A name string has a character count outside 1..=32.
    NameLengthOutOfRange,
    /// A description string has a character count outside 1..=100.
    DescriptionLengthOutOfRange,
    /// A mandatory key, or a mandatory attribute itself, is absent.
    MissingRequiredAttribute,
    /// Neither an explicit description nor a usable documentation comment.
    DescriptionRequired,
    /// A struct's shape is neither named-field nor unit.
    UnsupportedShape,
    /// An enum variant is not an unnamed variant of exactly one field.
    InvalidVariantShape,
    /// An enum has no variants at all.
    EmptyEnum,
    /// A variant's field type is not expressible as a type path.
    UnsupportedFieldType,
}

/// The mathematical content of a [`ParseError`].
#[verifier::ext_equal]
pub struct ParseErrorView {
    pub span: Span,
    pub kind: ErrorKind,
    pub expected: Seq<Seq<char>>,
}

/// A position-tagged parse failure.
///
/// `expected` lists what would have been accepted where the error arose: the
/// recognized key set for [`ErrorKind::UnrecognizedParameter`], the expected
/// literal kind for [`ErrorKind::InvalidAttributeType`], and nothing for the
/// other kinds.
#[derive(Debug)]
pub struct ParseError {
    pub span: Span,
    pub kind: ErrorKind,
    pub expected: Vec<String>,
}

impl View for ParseError {
    type V = ParseErrorView;

    open spec fn view(&self) -> ParseErrorView {
        ParseErrorView { span: self.span, kind: self.kind, expected: self.expected.deep_view() }
    }
}

impl DeepView for ParseError {
    type V = ParseErrorView;

    open spec fn deep_view(&self) -> ParseErrorView {
        self.view()
    }
}

impl ParseError {
    /// An error with nothing expected alongside it.
    pub fn new(span: Span, kind: ErrorKind) -> (e: Self)
        ensures
            e@ == (ParseErrorView { span, kind, expected: Seq::<Seq<char>>::empty() }),
    {
        let e = ParseError { span, kind, expected: Vec::new() };
        proof {
            assert(e@.expected =~= Seq::<Seq<char>>::empty());
            assert(e@ =~= (ParseErrorView { span, kind, expected: Seq::<Seq<char>>::empty() }));
        }
        e
    }

    /// An error carrying what would have been accepted in place of the
    /// offending token.
    pub fn with_expected(span: Span, kind: ErrorKind, expected: Vec<String>) -> (e: Self)
        ensures
            e@ == (ParseErrorView { span, kind, expected: expected.deep_view() }),
    {
        ParseError { span, kind, expected }
    }
}

} // verus!
