//! Parsing of subcommand groups: enums whose variants are single-field
//! unnamed variants, each naming one subcommand.

use vstd::prelude::*;

use crate::attributes::{find_attr, find_attr_spec, named_attrs_spec, parse_name, parse_name_spec,
    variant_attr_keys, variant_attr_keys_vec, NamedAttrs};
use crate::decl::{Fields, FieldsView, TypePath, TypePathView, Ty, TyView, Variant, VariantView};
use crate::error::{ErrorKind, ParseError, ParseErrorView};
use crate::syntax::{Attribute, AttributeView, Span};
use crate::result_view;

verus! {

/// The mathematical content of a [`VariantAttribute`].
#[verifier::ext_equal]
pub struct VariantAttributeView {
    pub name: Seq<char>,
}

/// The parsed variant-level attribute of a subcommand:
/// `#[command(name = "...")]`.
#[derive(Debug)]
pub struct VariantAttribute {
    /// The subcommand's name.
    pub name: String,
}

impl View for VariantAttribute {
    type V = VariantAttributeView;

    open spec fn view(&self) -> VariantAttributeView {
        VariantAttributeView { name: self.name@ }
    }
}

impl DeepView for VariantAttribute {
    type V = VariantAttributeView;

    open spec fn deep_view(&self) -> VariantAttributeView {
        self.view()
    }
}

/// What parsing a variant-level attribute yields: `name` is mandatory and
/// validated as a name; no other key is recognized.
pub open spec fn variant_attribute_spec(attr: AttributeView) -> Result<
    VariantAttributeView,
    ParseErrorView,
> {
    match named_attrs_spec(attr.meta, attr.span, variant_attr_keys()) {
        Err(e) => Err(e),
        Ok(m) => if !m.contains_key("name"@) {
            Err(
                ParseErrorView {
                    span: attr.span,
                    kind: ErrorKind::MissingRequiredAttribute,
                    expected: Seq::empty(),
                },
            )
        } else {
            match parse_name_spec(m["name"@]) {
                Err(e) => Err(e),
                Ok(name) => Ok(VariantAttributeView { name }),
            }
        },
    }
}

impl VariantAttribute {
    /// Parse a variant-level `#[command(...)]` attribute.
    pub fn parse(attr: &Attribute) -> (r: Result<VariantAttribute, ParseError>)
        ensures
            result_view(r) == variant_attribute_spec(attr.deep_view()),
    {
        let expected = variant_attr_keys_vec();
        let attrs = match NamedAttrs::parse(&attr.meta, attr.span, &expected) {
            Ok(a) => a,
            Err(e) => {
                return Err(e);
            },
        };
        let name = match attrs.get("name") {
            Some(val) => match parse_name(val) {
                Ok(s) => s,
                Err(e) => {
                    return Err(e);
                },
            },
            None => {
                return Err(ParseError::new(attr.span, ErrorKind::MissingRequiredAttribute));
            },
        };
        Ok(VariantAttribute { name })
    }
}

/// The mathematical content of a [`ParsedVariant`].
#[verifier::ext_equal]
pub struct ParsedVariantView {
    pub span: Span,
    pub ident: Seq<char>,
    pub attribute: VariantAttributeView,
    pub inner: TypePathView,
}

/// One normalized subcommand: the variant's position, identifier, parsed
/// attribute, and the type path of its single field.
#[derive(Debug)]
pub struct ParsedVariant {
    pub span: Span,
    pub ident: String,
    pub attribute: VariantAttribute,
    pub inner: TypePath,
}

impl View for ParsedVariant {
    type V = ParsedVariantView;

    open spec fn view(&self) -> ParsedVariantView {
        ParsedVariantView {
            span: self.span,
            ident: self.ident@,
            attribute: self.attribute@,
            inner: self.inner@,
        }
    }
}

impl DeepView for ParsedVariant {
    type V = ParsedVariantView;

    open spec fn deep_view(&self) -> ParsedVariantView {
        self.view()
    }
}

/// What parsing one variant yields: it must be an unnamed variant of exactly
/// one field, the field's type must be a path, and a `#[command(...)]`
/// attribute must stand on it.
pub open spec fn from_variant_spec(v: VariantView) -> Result<ParsedVariantView, ParseErrorView> {
    match v.fields {
        FieldsView::Unnamed(fs) => if fs.len() != 1 {
            Err(
                ParseErrorView {
                    span: v.span,
                    kind: ErrorKind::InvalidVariantShape,
                    expected: Seq::empty(),
                },
            )
        } else {
            match fs[0].ty {
                TyView::Path(tp) => match find_attr_spec(v.attrs, "command"@) {
                    Some(a) => match variant_attribute_spec(a) {
                        Err(e) => Err(e),
                        Ok(va) => Ok(
                            ParsedVariantView {
                                span: v.span,
                                ident: v.ident,
                                attribute: va,
                                inner: tp,
                            },
                        ),
                    },
                    None => Err(
                        ParseErrorView {
                            span: v.span,
                            kind: ErrorKind::MissingRequiredAttribute,
                            expected: Seq::empty(),
                        },
                    ),
                },
                TyView::Other { span } => Err(
                    ParseErrorView {
                        span,
                        kind: ErrorKind::UnsupportedFieldType,
                        expected: Seq::empty(),
                    },
                ),
            }
        },
        _ => Err(
            ParseErrorView {
                span: v.span,
                kind: ErrorKind::InvalidVariantShape,
                expected: Seq::empty(),
            },
        ),
    }
}

/// The variants parsed in order, stopping at the first failure.
pub open spec fn map_variants(vs: Seq<VariantView>) -> Result<Seq<ParsedVariantView>, ParseErrorView>
    decreases vs.len(),
{
    if vs.len() == 0 {
        Ok(Seq::empty())
    } else {
        match from_variant_spec(vs[0]) {
            Err(e) => Err(e),
            Ok(p) => match map_variants(vs.drop_first()) {
                Err(e) => Err(e),
                Ok(ps) => Ok(seq![p] + ps),
            },
        }
    }
}

/// What parsing a whole enum yields: at least one variant, each parsed in
/// declaration order.
pub open spec fn from_variants_spec(vs: Seq<VariantView>, input_span: Span) -> Result<
    Seq<ParsedVariantView>,
    ParseErrorView,
> {
    if vs.len() == 0 {
        Err(ParseErrorView { span: input_span, kind: ErrorKind::EmptyEnum, expected: Seq::empty() })
    } else {
        map_variants(vs)
    }
}

proof fn lemma_map_variants_err_at(vs: Seq<VariantView>, i: int)
    requires
        0 <= i < vs.len(),
        forall|k: int| 0 <= k < i ==> from_variant_spec(#[trigger] vs[k]) is Ok,
        from_variant_spec(vs[i]) is Err,
    ensures
        map_variants(vs) == Result::<Seq<ParsedVariantView>, ParseErrorView>::Err(
            from_variant_spec(vs[i])->Err_0,
        ),
    decreases i,
{
    if i > 0 {
        let t = vs.drop_first();
        assert forall|k: int| 0 <= k < i - 1 implies from_variant_spec(#[trigger] t[k]) is Ok by {
            assert(t[k] == vs[k + 1]);
        }
        assert(t[i - 1] == vs[i]);
        lemma_map_variants_err_at(t, i - 1);
    }
}

proof fn lemma_map_variants_ok(vs: Seq<VariantView>)
    requires
        forall|k: int| 0 <= k < vs.len() ==> from_variant_spec(#[trigger] vs[k]) is Ok,
    ensures
        map_variants(vs) matches Ok(ps) && ps.len() == vs.len() && forall|k: int|
            0 <= k < vs.len() ==> ps[k] == from_variant_spec(#[trigger] vs[k])->Ok_0,
    decreases vs.len(),
{
    if vs.len() > 0 {
        let t = vs.drop_first();
        assert forall|k: int| 0 <= k < t.len() implies from_variant_spec(#[trigger] t[k]) is Ok by {
            assert(t[k] == vs[k + 1]);
        }
        lemma_map_variants_ok(t);
        let p = from_variant_spec(vs[0])->Ok_0;
        let ps = map_variants(t)->Ok_0;
        assert forall|k: int| 0 <= k < vs.len() implies (seq![p] + ps)[k] == from_variant_spec(
            #[trigger] vs[k],
        )->Ok_0 by {
            if k > 0 {
                assert((seq![p] + ps)[k] == ps[k - 1]);
                assert(t[k - 1] == vs[k]);
            }
        }
    }
}

/// An enum with no variants at all is rejected as `EmptyEnum`, at the
/// position of the whole declaration.
pub proof fn lemma_empty_enum(input_span: Span)
    ensures
        from_variants_spec(Seq::empty(), input_span) matches Err(e) && e.kind
            == ErrorKind::EmptyEnum && e.span == input_span,
{
}

/// An enum whose variants each parse succeeds as a whole, and its output
/// keeps the declaration order: the descriptor at each position comes from
/// the variant at that position, identifier included.
pub proof fn lemma_variants_keep_order(vs: Seq<VariantView>, input_span: Span)
    requires
        vs.len() > 0,
        forall|i: int| 0 <= i < vs.len() ==> from_variant_spec(#[trigger] vs[i]) is Ok,
    ensures
        from_variants_spec(vs, input_span) matches Ok(ps) && ps.len() == vs.len() && (forall|i: int|
            0 <= i < vs.len() ==> ps[i] == from_variant_spec(#[trigger] vs[i])->Ok_0) && (forall|
            i: int,
        |
            0 <= i < vs.len() ==> ps[i].ident == vs[i].ident),
{
    lemma_map_variants_ok(vs);
    let ps = map_variants(vs)->Ok_0;
    assert forall|i: int| 0 <= i < vs.len() implies ps[i].ident == vs[i].ident by {
        assert(ps[i] == from_variant_spec(vs[i])->Ok_0);
    }
}

impl ParsedVariant {
    /// Parse every variant of an enum declaration, in declaration order.
    ///
    /// `input_span` is the position of the whole declaration, where an empty
    /// enum is reported.
    pub fn from_variants(variants: &Vec<Variant>, input_span: Span) -> (r: Result<
        Vec<ParsedVariant>,
        ParseError,
    >)
        ensures
            result_view(r) == from_variants_spec(variants.deep_view(), input_span),
    {
        let ghost vvs = variants.deep_view();
        if variants.len() == 0 {
            return Err(ParseError::new(input_span, ErrorKind::EmptyEnum));
        }
        let mut out: Vec<ParsedVariant> = Vec::new();
        let mut i: usize = 0;
        while i < variants.len()
            invariant
                i <= variants.len(),
                vvs == variants.deep_view(),
                vvs.len() > 0,
                out.deep_view().len() == i,
                forall|k: int| 0 <= k < i ==> from_variant_spec(#[trigger] vvs[k]) is Ok,
                forall|k: int| 0 <= k < i ==> out.deep_view()[k] == from_variant_spec(
                    #[trigger] vvs[k],
                )->Ok_0,
            decreases variants.len() - i,
        {
            let p = match Self::from_variant(&variants[i]) {
                Ok(p) => p,
                Err(e) => {
                    proof {
                        lemma_map_variants_err_at(vvs, i as int);
                    }
                    return Err(e);
                },
            };
            out.push(p);
            i += 1;
        }
        proof {
            lemma_map_variants_ok(vvs);
            assert forall|k: int| 0 <= k < vvs.len() implies out.deep_view()[k] == map_variants(
                vvs,
            )->Ok_0[k] by {
                assert(out.deep_view()[k] == from_variant_spec(vvs[k])->Ok_0);
                assert(map_variants(vvs)->Ok_0[k] == from_variant_spec(vvs[k])->Ok_0);
            }
            assert(out.deep_view() =~= map_variants(vvs)->Ok_0);
        }
        Ok(out)
    }

    /// Parse a single variant.
    fn from_variant(variant: &Variant) -> (r: Result<ParsedVariant, ParseError>)
        ensures
            result_view(r) == from_variant_spec(variant.deep_view()),
    {
        let span = variant.span;
        let fields = match &variant.fields {
            Fields::Unnamed(fields) => fields,
            _ => {
                return Err(ParseError::new(span, ErrorKind::InvalidVariantShape));
            },
        };
        if fields.len() != 1 {
            return Err(ParseError::new(span, ErrorKind::InvalidVariantShape));
        }
        let inner = match &fields[0].ty {
            Ty::Path(ty) => ty.duplicate(),
            Ty::Other { span: other_span } => {
                return Err(ParseError::new(*other_span, ErrorKind::UnsupportedFieldType));
            },
        };
        let attribute = match find_attr(&variant.attrs, "command") {
            Some(attr) => match VariantAttribute::parse(attr) {
                Ok(a) => a,
                Err(e) => {
                    return Err(e);
                },
            },
            None => {
                return Err(ParseError::new(span, ErrorKind::MissingRequiredAttribute));
            },
        };
        Ok(ParsedVariant { span, ident: variant.ident.clone(), attribute, inner })
    }
}

/// The resolved-name invariant at the variant level: a successfully parsed
/// variant attribute carries a subcommand name of 1 to 32 characters.
pub proof fn lemma_variant_attribute_bounds(attr: AttributeView)
    requires
        variant_attribute_spec(attr) is Ok,
    ensures
        crate::attributes::name_len_ok(variant_attribute_spec(attr)->Ok_0.name),
{
}

} // verus!
