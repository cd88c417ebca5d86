//! The shape normalizer for struct declarations: a named-field struct yields
//! one option descriptor per field, a unit struct yields none, and any other
//! shape is rejected.

use vstd::prelude::*;

use crate::attributes::{field_attribute_spec, find_attr, find_attr_spec, name_default_spec,
    FieldAttribute, FieldAttributeView};
use crate::decl::{Fields, FieldsView, NamedField, NamedFieldView, Ty, TyView};
use crate::error::{ErrorKind, ParseError, ParseErrorView};
use crate::syntax::Span;
use crate::result_view;

verus! {

/// The mathematical content of a [`ParsedField`].
#[verifier::ext_equal]
pub struct ParsedFieldView {
    pub span: Span,
    pub ident: Seq<char>,
    pub attribute: FieldAttributeView,
    pub ty: TyView,
}

/// One normalized command option: the field's position, identifier, parsed
/// attribute, and declared type.
#[derive(Debug)]
pub struct ParsedField {
    pub span: Span,
    pub ident: String,
    pub attribute: FieldAttribute,
    pub ty: Ty,
}

impl View for ParsedField {
    type V = ParsedFieldView;

    open spec fn view(&self) -> ParsedFieldView {
        ParsedFieldView {
            span: self.span,
            ident: self.ident@,
            attribute: self.attribute@,
            ty: self.ty.deep_view(),
        }
    }
}

impl DeepView for ParsedField {
    type V = ParsedFieldView;

    open spec fn deep_view(&self) -> ParsedFieldView {
        self.view()
    }
}

/// What normalizing one named field yields: its parsed `#[command(...)]`
/// attribute when one stands on it, the all-default attribute model
/// otherwise.
pub open spec fn from_field_spec(f: NamedFieldView) -> Result<ParsedFieldView, ParseErrorView> {
    match find_attr_spec(f.attrs, "command"@) {
        Some(a) => match field_attribute_spec(a) {
            Err(e) => Err(e),
            Ok(fa) => Ok(
                ParsedFieldView { span: f.span, ident: f.ident, attribute: fa, ty: f.ty },
            ),
        },
        None => Ok(
            ParsedFieldView {
                span: f.span,
                ident: f.ident,
                attribute: FieldAttributeView { rename: None, desc: None },
                ty: f.ty,
            },
        ),
    }
}

/// The fields normalized in order, stopping at the first failure.
pub open spec fn map_fields(fs: Seq<NamedFieldView>) -> Result<Seq<ParsedFieldView>, ParseErrorView>
    decreases fs.len(),
{
    if fs.len() == 0 {
        Ok(Seq::empty())
    } else {
        match from_field_spec(fs[0]) {
            Err(e) => Err(e),
            Ok(p) => match map_fields(fs.drop_first()) {
                Err(e) => Err(e),
                Ok(ps) => Ok(seq![p] + ps),
            },
        }
    }
}

/// What normalizing a struct's shape yields: one descriptor per named field
/// in declaration order, none at all for a unit struct, and
/// `UnsupportedShape` at `span` for a tuple struct.
pub open spec fn from_fields_spec(fields: FieldsView, span: Span) -> Result<
    Seq<ParsedFieldView>,
    ParseErrorView,
> {
    match fields {
        FieldsView::Named(fs) => map_fields(fs),
        FieldsView::Unit => Ok(Seq::empty()),
        FieldsView::Unnamed(_) => Err(
            ParseErrorView { span, kind: ErrorKind::UnsupportedShape, expected: Seq::empty() },
        ),
    }
}

proof fn lemma_map_fields_err_at(fs: Seq<NamedFieldView>, i: int)
    requires
        0 <= i < fs.len(),
        forall|k: int| 0 <= k < i ==> from_field_spec(#[trigger] fs[k]) is Ok,
        from_field_spec(fs[i]) is Err,
    ensures
        map_fields(fs) == Result::<Seq<ParsedFieldView>, ParseErrorView>::Err(
            from_field_spec(fs[i])->Err_0,
        ),
    decreases i,
{
    if i > 0 {
        let t = fs.drop_first();
        assert forall|k: int| 0 <= k < i - 1 implies from_field_spec(#[trigger] t[k]) is Ok by {
            assert(t[k] == fs[k + 1]);
        }
        assert(t[i - 1] == fs[i]);
        lemma_map_fields_err_at(t, i - 1);
    }
}

proof fn lemma_map_fields_ok(fs: Seq<NamedFieldView>)
    requires
        forall|k: int| 0 <= k < fs.len() ==> from_field_spec(#[trigger] fs[k]) is Ok,
    ensures
        map_fields(fs) matches Ok(ps) && ps.len() == fs.len() && forall|k: int|
            0 <= k < fs.len() ==> ps[k] == from_field_spec(#[trigger] fs[k])->Ok_0,
    decreases fs.len(),
{
    if fs.len() > 0 {
        let t = fs.drop_first();
        assert forall|k: int| 0 <= k < t.len() implies from_field_spec(#[trigger] t[k]) is Ok by {
            assert(t[k] == fs[k + 1]);
        }
        lemma_map_fields_ok(t);
        let p = from_field_spec(fs[0])->Ok_0;
        let ps = map_fields(t)->Ok_0;
        assert forall|k: int| 0 <= k < fs.len() implies (seq![p] + ps)[k] == from_field_spec(
            #[trigger] fs[k],
        )->Ok_0 by {
            if k > 0 {
                assert((seq![p] + ps)[k] == ps[k - 1]);
                assert(t[k - 1] == fs[k]);
            }
        }
    }
}

/// A field that carries no `#[command(...)]` attribute normalizes to the
/// all-default attribute model, so its effective option name is its declared
/// identifier, verbatim.
pub proof fn lemma_unattributed_field_keeps_ident(f: NamedFieldView)
    requires
        find_attr_spec(f.attrs, "command"@) is None,
    ensures
        from_field_spec(f) matches Ok(p) && p.attribute.rename is None && name_default_spec(
            p.attribute,
            f.ident,
        ) == f.ident,
{
}

/// A unit struct produces an option list of length zero.
pub proof fn lemma_unit_struct_no_options(span: Span)
    ensures
        from_fields_spec(FieldsView::Unit, span) matches Ok(ps) && ps.len() == 0,
{
}

/// A named-field struct whose fields each normalize produces exactly one
/// descriptor per field, in declaration order, identifier included.
pub proof fn lemma_fields_keep_order(fs: Seq<NamedFieldView>, span: Span)
    requires
        forall|i: int| 0 <= i < fs.len() ==> from_field_spec(#[trigger] fs[i]) is Ok,
    ensures
        from_fields_spec(FieldsView::Named(fs), span) matches Ok(ps) && ps.len() == fs.len() && (
        forall|i: int| 0 <= i < fs.len() ==> ps[i] == from_field_spec(#[trigger] fs[i])->Ok_0) && (
        forall|i: int| 0 <= i < fs.len() ==> ps[i].ident == fs[i].ident),
{
    lemma_map_fields_ok(fs);
    let ps = map_fields(fs)->Ok_0;
    assert forall|i: int| 0 <= i < fs.len() implies ps[i].ident == fs[i].ident by {
        assert(ps[i] == from_field_spec(fs[i])->Ok_0);
    }
}

impl ParsedField {
    /// Normalize a struct's field list into its option descriptors.
    ///
    /// `span` is the position of the whole declaration, where an unsupported
    /// shape is reported.
    pub fn from_fields(fields: &Fields, span: Span) -> (r: Result<Vec<ParsedField>, ParseError>)
        ensures
            result_view(r) == from_fields_spec(fields.deep_view(), span),
    {
        let fs = match fields {
            Fields::Named(fs) => fs,
            Fields::Unit => {
                let out: Vec<ParsedField> = Vec::new();
                proof {
                    assert(out.deep_view() =~= Seq::<ParsedFieldView>::empty());
                }
                return Ok(out);
            },
            Fields::Unnamed(_) => {
                return Err(ParseError::new(span, ErrorKind::UnsupportedShape));
            },
        };
        let ghost fvs = fs.deep_view();
        let mut out: Vec<ParsedField> = Vec::new();
        let mut i: usize = 0;
        while i < fs.len()
            invariant
                i <= fs.len(),
                fvs == fs.deep_view(),
                fields.deep_view() == FieldsView::Named(fvs),
                out.deep_view().len() == i,
                forall|k: int| 0 <= k < i ==> from_field_spec(#[trigger] fvs[k]) is Ok,
                forall|k: int| 0 <= k < i ==> out.deep_view()[k] == from_field_spec(
                    #[trigger] fvs[k],
                )->Ok_0,
            decreases fs.len() - i,
        {
            let p = match Self::from_field(&fs[i]) {
                Ok(p) => p,
                Err(e) => {
                    proof {
                        lemma_map_fields_err_at(fvs, i as int);
                    }
                    return Err(e);
                },
            };
            out.push(p);
            i += 1;
        }
        proof {
            lemma_map_fields_ok(fvs);
            assert forall|k: int| 0 <= k < fvs.len() implies out.deep_view()[k] == map_fields(
                fvs,
            )->Ok_0[k] by {
                assert(out.deep_view()[k] == from_field_spec(fvs[k])->Ok_0);
                assert(map_fields(fvs)->Ok_0[k] == from_field_spec(fvs[k])->Ok_0);
            }
            assert(out.deep_view() =~= map_fields(fvs)->Ok_0);
        }
        Ok(out)
    }

    /// Normalize a single named field.
    fn from_field(field: &NamedField) -> (r: Result<ParsedField, ParseError>)
        ensures
            result_view(r) == from_field_spec(field.deep_view()),
    {
        let attribute = match find_attr(&field.attrs, "command") {
            Some(attr) => match FieldAttribute::parse(attr) {
                Ok(a) => a,
                Err(e) => {
                    return Err(e);
                },
            },
            None => FieldAttribute::default(),
        };
        Ok(
            ParsedField {
                span: field.span,
                ident: field.ident.clone(),
                attribute,
                ty: field.ty.duplicate(),
            },
        )
    }
}

} // verus!
