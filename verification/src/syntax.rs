//! The attribute-side syntax model.
//!
//! Declarations reach this crate as plain data: an attribute is a path plus a
//! body, a body is a parenthesized entry list, a single `name = literal`
//! binding, a bare word, or something else, and a literal is a string, a
//! boolean, or another literal kind. Every piece carries a [`Span`], so that
//! diagnostics can point at the exact offending token. The embedder converts
//! its own syntax-tree representation into these types before calling the
//! parsers.

use vstd::prelude::*;

use crate::error::{ErrorKind, ParseError, ParseErrorView};

verus! {

/// A source position.
///
/// The crate only carries positions through to the errors it reports; the
/// embedder chooses the encoding (byte offsets into the source, or indices
/// into a table of its own position values).
#[derive(Clone, Copy, Debug, PartialEq, Eq, Structural)]
pub struct Span {
    pub lo: usize,
    pub hi: usize,
}

/// One literal token.
#[derive(Debug)]
pub enum Lit {
    /// A string literal, with its text.
    Str(String),
    /// A boolean literal.
    Bool(bool),
    /// Any other literal kind (integer, float, character, ...).
    Other,
}

/// The mathematical content of a [`Lit`].
#[verifier::ext_equal]
pub enum LitView {
    Str(Seq<char>),
    Bool(bool),
    Other,
}

impl View for Lit {
    type V = LitView;

    open spec fn view(&self) -> LitView {
        match self {
            Lit::Str(s) => LitView::Str(s@),
            Lit::Bool(b) => LitView::Bool(*b),
            Lit::Other => LitView::Other,
        }
    }
}

impl DeepView for Lit {
    type V = LitView;

    open spec fn deep_view(&self) -> LitView {
        self.view()
    }
}

impl Lit {
    /// A value equal to this literal.
    pub fn duplicate(&self) -> (r: Lit)
        ensures
            r@ == self@,
    {
        match self {
            Lit::Str(s) => Lit::Str(s.clone()),
            Lit::Bool(b) => Lit::Bool(*b),
            Lit::Other => Lit::Other,
        }
    }
}

/// The mathematical content of an [`AttrValue`].
#[verifier::ext_equal]
pub struct AttrValueView {
    pub lit: LitView,
    pub span: Span,
}

/// One attribute value: a literal together with its source position.
///
/// Typed accessors ([`AttrValue::parse_string`], [`AttrValue::parse_bool`])
/// succeed exactly when the literal has the requested kind, and otherwise
/// fail with [`ErrorKind::InvalidAttributeType`] at the literal's position.
#[derive(Debug)]
pub struct AttrValue {
    pub lit: Lit,
    pub span: Span,
}

impl View for AttrValue {
    type V = AttrValueView;

    open spec fn view(&self) -> AttrValueView {
        AttrValueView { lit: self.lit@, span: self.span }
    }
}

impl DeepView for AttrValue {
    type V = AttrValueView;

    open spec fn deep_view(&self) -> AttrValueView {
        self.view()
    }
}

/// What [`AttrValue::parse_string`] returns: the text of a string literal,
/// or a kind-mismatch error at the literal's position.
pub open spec fn parse_string_spec(v: AttrValueView) -> Result<Seq<char>, ParseErrorView> {
    match v.lit {
        LitView::Str(s) => Ok(s),
        _ => Err(
            ParseErrorView {
                span: v.span,
                kind: ErrorKind::InvalidAttributeType,
                expected: seq!["string"@],
            },
        ),
    }
}

/// What [`AttrValue::parse_bool`] returns: the value of a boolean literal,
/// or a kind-mismatch error at the literal's position.
pub open spec fn parse_bool_spec(v: AttrValueView) -> Result<bool, ParseErrorView> {
    match v.lit {
        LitView::Bool(b) => Ok(b),
        _ => Err(
            ParseErrorView {
                span: v.span,
                kind: ErrorKind::InvalidAttributeType,
                expected: seq!["boolean"@],
            },
        ),
    }
}

impl AttrValue {
    /// The literal's source position.
    pub fn span(&self) -> (s: Span)
        ensures
            s == self.span,
    {
        self.span
    }

    /// The text of the literal, if it is a string literal.
    pub fn parse_string(&self) -> (r: Result<String, ParseError>)
        ensures
            crate::result_view(r) == parse_string_spec(self@),
    {
        match &self.lit {
            Lit::Str(s) => Ok(s.clone()),
            _ => {
                let mut expected: Vec<String> = Vec::new();
                expected.push("string".to_owned());
                let e = ParseError::with_expected(
                    self.span,
                    ErrorKind::InvalidAttributeType,
                    expected,
                );
                proof {
                    assert(e@.expected =~= seq!["string"@]);
                }
                Err(e)
            },
        }
    }

    /// The value of the literal, if it is a boolean literal.
    pub fn parse_bool(&self) -> (r: Result<bool, ParseError>)
        ensures
            crate::result_view(r) == parse_bool_spec(self@),
    {
        match &self.lit {
            Lit::Bool(b) => Ok(*b),
            _ => {
                let mut expected: Vec<String> = Vec::new();
                expected.push("boolean".to_owned());
                let e = ParseError::with_expected(
                    self.span,
                    ErrorKind::InvalidAttributeType,
                    expected,
                );
                proof {
                    assert(e@.expected =~= seq!["boolean"@]);
                }
                Err(e)
            },
        }
    }

    /// A value equal to this one.
    pub fn duplicate(&self) -> (r: AttrValue)
        ensures
            r@ == self@,
    {
        AttrValue { lit: self.lit.duplicate(), span: self.span }
    }
}

/// The mathematical content of a [`MetaEntry`].
#[verifier::ext_equal]
pub enum MetaEntryView {
    NameValue { key: Seq<Seq<char>>, key_span: Span, value: AttrValueView },
    Other { span: Span },
}

/// One entry of a parenthesized attribute body.
///
/// A well-formed entry is a `key = literal` binding whose key is a path;
/// anything else (a bare identifier, a nested list, a plain literal) is kept
/// as [`MetaEntry::Other`] with its position, to be rejected by the list
/// parser.
#[derive(Debug)]
pub enum MetaEntry {
    NameValue { key: Vec<String>, key_span: Span, value: AttrValue },
    Other { span: Span },
}

impl View for MetaEntry {
    type V = MetaEntryView;

    open spec fn view(&self) -> MetaEntryView {
        match self {
            MetaEntry::NameValue { key, key_span, value } => MetaEntryView::NameValue {
                key: key.deep_view(),
                key_span: *key_span,
                value: value@,
            },
            MetaEntry::Other { span } => MetaEntryView::Other { span: *span },
        }
    }
}

impl DeepView for MetaEntry {
    type V = MetaEntryView;

    open spec fn deep_view(&self) -> MetaEntryView {
        self.view()
    }
}

/// The mathematical content of a [`Meta`].
#[verifier::ext_equal]
pub enum MetaView {
    List(Seq<MetaEntryView>),
    NameValue(AttrValueView),
    Word,
    Other,
}

/// The body of an attribute.
#[derive(Debug)]
pub enum Meta {
    /// A parenthesized, comma-separated entry list: `#[command(...)]`.
    List(Vec<MetaEntry>),
    /// A single `name = literal` binding: `#[doc = "..."]`.
    NameValue(AttrValue),
    /// A bare word: `#[command]`.
    Word,
    /// A body of any other shape.
    Other,
}

impl View for Meta {
    type V = MetaView;

    open spec fn view(&self) -> MetaView {
        match self {
            Meta::List(entries) => MetaView::List(entries.deep_view()),
            Meta::NameValue(v) => MetaView::NameValue(v@),
            Meta::Word => MetaView::Word,
            Meta::Other => MetaView::Other,
        }
    }
}

impl DeepView for Meta {
    type V = MetaView;

    open spec fn deep_view(&self) -> MetaView {
        self.view()
    }
}

/// The mathematical content of an [`Attribute`].
#[verifier::ext_equal]
pub struct AttributeView {
    pub span: Span,
    pub path: Seq<Seq<char>>,
    pub meta: MetaView,
}

/// One attribute attached to a declaration, a field or a variant.
#[derive(Debug)]
pub struct Attribute {
    /// The position of the whole attribute.
    pub span: Span,
    /// The segments of the attribute's path (`doc`, `command`, ...).
    pub path: Vec<String>,
    /// The attribute's body.
    pub meta: Meta,
}

impl View for Attribute {
    type V = AttributeView;

    open spec fn view(&self) -> AttributeView {
        AttributeView { span: self.span, path: self.path.deep_view(), meta: self.meta.deep_view() }
    }
}

impl DeepView for Attribute {
    type V = AttributeView;

    open spec fn deep_view(&self) -> AttributeView {
        self.view()
    }
}

} // verus!
