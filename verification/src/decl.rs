//! The declaration-side syntax model: field types, fields and variants.
//!
//! A struct's or enum's shape reaches the normalizers as plain data; like the
//! attribute model in [`crate::syntax`], these types are what the embedder
//! converts its own syntax trees into.

use vstd::prelude::*;

use crate::syntax::{Attribute, AttributeView, Span};
use crate::text::clone_strings;

verus! {

/// The mathematical content of a [`TypePath`].
#[verifier::ext_equal]
pub struct TypePathView {
    pub span: Span,
    pub segments: Seq<Seq<char>>,
}

/// A type written as a path, segment by segment.
#[derive(Debug)]
pub struct TypePath {
    pub span: Span,
    pub segments: Vec<String>,
}

impl View for TypePath {
    type V = TypePathView;

    open spec fn view(&self) -> TypePathView {
        TypePathView { span: self.span, segments: self.segments.deep_view() }
    }
}

impl DeepView for TypePath {
    type V = TypePathView;

    open spec fn deep_view(&self) -> TypePathView {
        self.view()
    }
}

impl TypePath {
    /// A value equal to this path.
    pub fn duplicate(&self) -> (r: TypePath)
        ensures
            r@ == self@,
    {
        TypePath { span: self.span, segments: clone_strings(&self.segments) }
    }
}

/// The mathematical content of a [`Ty`].
#[verifier::ext_equal]
pub enum TyView {
    Path(TypePathView),
    Other { span: Span },
}

/// A declared type: a path, or any other type form with its position.
#[derive(Debug)]
pub enum Ty {
    Path(TypePath),
    Other { span: Span },
}

impl View for Ty {
    type V = TyView;

    open spec fn view(&self) -> TyView {
        match self {
            Ty::Path(p) => TyView::Path(p@),
            Ty::Other { span } => TyView::Other { span: *span },
        }
    }
}

impl DeepView for Ty {
    type V = TyView;

    open spec fn deep_view(&self) -> TyView {
        self.view()
    }
}

impl Ty {
    /// A value equal to this type.
    pub fn duplicate(&self) -> (r: Ty)
        ensures
            r@ == self@,
    {
        match self {
            Ty::Path(p) => Ty::Path(p.duplicate()),
            Ty::Other { span } => Ty::Other { span: *span },
        }
    }
}

/// The mathematical content of a [`NamedField`].
#[verifier::ext_equal]
pub struct NamedFieldView {
    pub span: Span,
    pub ident: Seq<char>,
    pub attrs: Seq<AttributeView>,
    pub ty: TyView,
}

/// One named field of a struct, with its attributes and declared type.
#[derive(Debug)]
pub struct NamedField {
    pub span: Span,
    pub ident: String,
    pub attrs: Vec<Attribute>,
    pub ty: Ty,
}

impl View for NamedField {
    type V = NamedFieldView;

    open spec fn view(&self) -> NamedFieldView {
        NamedFieldView {
            span: self.span,
            ident: self.ident@,
            attrs: self.attrs.deep_view(),
            ty: self.ty.deep_view(),
        }
    }
}

impl DeepView for NamedField {
    type V = NamedFieldView;

    open spec fn deep_view(&self) -> NamedFieldView {
        self.view()
    }
}

/// The mathematical content of an [`UnnamedField`].
#[verifier::ext_equal]
pub struct UnnamedFieldView {
    pub span: Span,
    pub ty: TyView,
}

/// One unnamed field of a tuple struct or variant.
#[derive(Debug)]
pub struct UnnamedField {
    pub span: Span,
    pub ty: Ty,
}

impl View for UnnamedField {
    type V = UnnamedFieldView;

    open spec fn view(&self) -> UnnamedFieldView {
        UnnamedFieldView { span: self.span, ty: self.ty.deep_view() }
    }
}

impl DeepView for UnnamedField {
    type V = UnnamedFieldView;

    open spec fn deep_view(&self) -> UnnamedFieldView {
        self.view()
    }
}

/// The mathematical content of a [`Fields`].
#[verifier::ext_equal]
pub enum FieldsView {
    Named(Seq<NamedFieldView>),
    Unnamed(Seq<UnnamedFieldView>),
    Unit,
}

/// The field list of a struct or variant: named, unnamed, or none.
#[derive(Debug)]
pub enum Fields {
    Named(Vec<NamedField>),
    Unnamed(Vec<UnnamedField>),
    Unit,
}

impl View for Fields {
    type V = FieldsView;

    open spec fn view(&self) -> FieldsView {
        match self {
            Fields::Named(fs) => FieldsView::Named(fs.deep_view()),
            Fields::Unnamed(fs) => FieldsView::Unnamed(fs.deep_view()),
            Fields::Unit => FieldsView::Unit,
        }
    }
}

impl DeepView for Fields {
    type V = FieldsView;

    open spec fn deep_view(&self) -> FieldsView {
        self.view()
    }
}

/// The mathematical content of a [`Variant`].
#[verifier::ext_equal]
pub struct VariantView {
    pub span: Span,
    pub ident: Seq<char>,
    pub attrs: Seq<AttributeView>,
    pub fields: FieldsView,
}

/// One variant of an enum declaration.
#[derive(Debug)]
pub struct Variant {
    pub span: Span,
    pub ident: String,
    pub attrs: Vec<Attribute>,
    pub fields: Fields,
}

impl View for Variant {
    type V = VariantView;

    open spec fn view(&self) -> VariantView {
        VariantView {
            span: self.span,
            ident: self.ident@,
            attrs: self.attrs.deep_view(),
            fields: self.fields.deep_view(),
        }
    }
}

impl DeepView for Variant {
    type V = VariantView;

    open spec fn deep_view(&self) -> VariantView {
        self.view()
    }
}

} // verus!
