//! Parsing of `#[command(...)]` attributes.
//!
//! A raw attribute body is validated as a parenthesized list of
//! `key = literal` entries over a fixed recognized-key set and folded into a
//! last-write-wins table ([`NamedAttrs`]); the name and description
//! validators, the documentation-comment extractor, and the type- and
//! field-level attribute models build on that table.

use vstd::prelude::*;
use vstd::string::StrSliceExecFns;
use vstd::string::StringExecFns;

use crate::error::{ErrorKind, ParseError, ParseErrorView};
use crate::syntax::{Attribute, AttributeView, AttrValue, AttrValueView, Lit, LitView, Meta,
    MetaEntry, MetaEntryView, MetaView, Span};
use crate::text::{clone_strings, contains_str, str_eq, trim_spec, trim_text};
use crate::result_view;

verus! {

/// Whether the attribute's path is the single identifier `name`.
pub open spec fn attr_named(a: AttributeView, name: Seq<char>) -> bool {
    a.path.len() == 1 && a.path[0] == name
}

/// The first attribute of `attrs` whose path is the single identifier
/// `name`, if any.
pub open spec fn find_attr_spec(attrs: Seq<AttributeView>, name: Seq<char>) -> Option<AttributeView>
    decreases attrs.len(),
{
    if attrs.len() == 0 {
        None
    } else if attr_named(attrs[0], name) {
        Some(attrs[0])
    } else {
        find_attr_spec(attrs.drop_first(), name)
    }
}

proof fn lemma_find_attr_at(attrs: Seq<AttributeView>, name: Seq<char>, i: int)
    requires
        0 <= i < attrs.len(),
        forall|k: int| 0 <= k < i ==> !attr_named(#[trigger] attrs[k], name),
        attr_named(attrs[i], name),
    ensures
        find_attr_spec(attrs, name) == Some(attrs[i]),
    decreases i,
{
    if i > 0 {
        let t = attrs.drop_first();
        assert forall|k: int| 0 <= k < i - 1 implies !attr_named(#[trigger] t[k], name) by {
            assert(t[k] == attrs[k + 1]);
        }
        assert(t[i - 1] == attrs[i]);
        lemma_find_attr_at(t, name, i - 1);
    }
}

proof fn lemma_find_attr_none(attrs: Seq<AttributeView>, name: Seq<char>)
    requires
        forall|k: int| 0 <= k < attrs.len() ==> !attr_named(#[trigger] attrs[k], name),
    ensures
        find_attr_spec(attrs, name) is None,
    decreases attrs.len(),
{
    if attrs.len() > 0 {
        let t = attrs.drop_first();
        assert forall|k: int| 0 <= k < t.len() implies !attr_named(#[trigger] t[k], name) by {
            assert(t[k] == attrs[k + 1]);
        }
        lemma_find_attr_none(t, name);
    }
}

/// The first attribute named `name`, searching in declaration order.
pub fn find_attr<'a>(attrs: &'a Vec<Attribute>, name: &str) -> (r: Option<&'a Attribute>)
    ensures
        match r {
            Some(a) => find_attr_spec(attrs.deep_view(), name@) == Some(a.deep_view()),
            None => find_attr_spec(attrs.deep_view(), name@) is None,
        },
{
    let mut i: usize = 0;
    while i < attrs.len()
        invariant
            i <= attrs.len(),
            forall|k: int| 0 <= k < i ==> !attr_named(#[trigger] attrs.deep_view()[k], name@),
        decreases attrs.len() - i,
    {
        let a = &attrs[i];
        if a.path.len() == 1 && str_eq(a.path[0].as_str(), name) {
            proof {
                assert(attr_named(attrs.deep_view()[i as int], name@));
                lemma_find_attr_at(attrs.deep_view(), name@, i as int);
            }
            return Some(a);
        }
        i += 1;
    }
    proof {
        lemma_find_attr_none(attrs.deep_view(), name@);
    }
    None
}

/// Whether the entry is a single `identifier = literal` pair.
pub open spec fn entry_is_pair(e: MetaEntryView) -> bool {
    match e {
        MetaEntryView::NameValue { key, .. } => key.len() == 1,
        MetaEntryView::Other { .. } => false,
    }
}

/// The entry's key identifier (meaningful for pairs).
pub open spec fn entry_key(e: MetaEntryView) -> Seq<char> {
    match e {
        MetaEntryView::NameValue { key, .. } => if key.len() >= 1 {
            key[0]
        } else {
            Seq::empty()
        },
        MetaEntryView::Other { .. } => Seq::empty(),
    }
}

/// The entry's value (meaningful for pairs).
pub open spec fn entry_value(e: MetaEntryView) -> AttrValueView {
    match e {
        MetaEntryView::NameValue { value, .. } => value,
        MetaEntryView::Other { span } => AttrValueView { lit: LitView::Other, span },
    }
}

/// Whether the entry is a pair whose key is in the recognized set.
pub open spec fn entry_ok(e: MetaEntryView, keys: Seq<Seq<char>>) -> bool {
    entry_is_pair(e) && keys.contains(entry_key(e))
}

/// The error an offending entry is rejected with.
pub open spec fn entry_error(e: MetaEntryView, keys: Seq<Seq<char>>) -> ParseErrorView {
    match e {
        MetaEntryView::Other { span } => ParseErrorView {
            span,
            kind: ErrorKind::ExpectedNamedParameter,
            expected: Seq::empty(),
        },
        MetaEntryView::NameValue { key, key_span, .. } => if key.len() == 1 {
            ParseErrorView { span: key_span, kind: ErrorKind::UnrecognizedParameter, expected: keys }
        } else {
            ParseErrorView {
                span: key_span,
                kind: ErrorKind::ExpectedNamedParameter,
                expected: Seq::empty(),
            }
        },
    }
}

/// Whether every entry is a recognized `identifier = literal` pair.
pub open spec fn entries_ok(entries: Seq<MetaEntryView>, keys: Seq<Seq<char>>) -> bool {
    forall|i: int| 0 <= i < entries.len() ==> entry_ok(#[trigger] entries[i], keys)
}

/// The error of the first offending entry (meaningful when one exists).
pub open spec fn first_error(entries: Seq<MetaEntryView>, keys: Seq<Seq<char>>) -> ParseErrorView
    decreases entries.len(),
{
    if entries.len() == 0 {
        ParseErrorView {
            span: Span { lo: 0, hi: 0 },
            kind: ErrorKind::ExpectedNamedParameter,
            expected: Seq::empty(),
        }
    } else if !entry_ok(entries[0], keys) {
        entry_error(entries[0], keys)
    } else {
        first_error(entries.drop_first(), keys)
    }
}

/// The last-write-wins table folded from the entries, in order.
pub open spec fn table_of(entries: Seq<MetaEntryView>) -> Map<Seq<char>, AttrValueView>
    decreases entries.len(),
{
    if entries.len() == 0 {
        Map::empty()
    } else {
        let m = table_of(entries.drop_last());
        let e = entries.last();
        if entry_is_pair(e) {
            m.insert(entry_key(e), entry_value(e))
        } else {
            m
        }
    }
}

/// What parsing an attribute body against a recognized-key set yields: the
/// key-to-value table if the body is a list of recognized pairs, the error of
/// the first offending entry otherwise, and [`ErrorKind::ExpectedNamedList`]
/// at `meta_span` if the body is not a list at all.
pub open spec fn named_attrs_spec(meta: MetaView, meta_span: Span, keys: Seq<Seq<char>>) -> Result<
    Map<Seq<char>, AttrValueView>,
    ParseErrorView,
> {
    match meta {
        MetaView::List(entries) => if entries_ok(entries, keys) {
            Ok(table_of(entries))
        } else {
            Err(first_error(entries, keys))
        },
        _ => Err(
            ParseErrorView { span: meta_span, kind: ErrorKind::ExpectedNamedList, expected: Seq::empty() },
        ),
    }
}

proof fn lemma_first_error_at(entries: Seq<MetaEntryView>, keys: Seq<Seq<char>>, i: int)
    requires
        0 <= i < entries.len(),
        forall|k: int| 0 <= k < i ==> entry_ok(#[trigger] entries[k], keys),
        !entry_ok(entries[i], keys),
    ensures
        !entries_ok(entries, keys),
        first_error(entries, keys) == entry_error(entries[i], keys),
    decreases i,
{
    if i > 0 {
        let t = entries.drop_first();
        assert forall|k: int| 0 <= k < i - 1 implies entry_ok(#[trigger] t[k], keys) by {
            assert(t[k] == entries[k + 1]);
        }
        assert(t[i - 1] == entries[i]);
        lemma_first_error_at(t, keys, i - 1);
    }
}

#[derive(Debug)]
struct TableEntry {
    key: String,
    value: AttrValue,
}

spec fn as_map(entries: Seq<TableEntry>) -> Map<Seq<char>, AttrValueView>
    decreases entries.len(),
{
    if entries.len() == 0 {
        Map::empty()
    } else {
        as_map(entries.drop_last()).insert(entries.last().key@, entries.last().value@)
    }
}

proof fn lemma_as_map_found(entries: Seq<TableEntry>, k: Seq<char>, i: int)
    requires
        0 <= i < entries.len(),
        entries[i].key@ == k,
        forall|j: int| i < j < entries.len() ==> #[trigger] entries[j].key@ != k,
    ensures
        as_map(entries).contains_key(k),
        as_map(entries)[k] == entries[i].value@,
    decreases entries.len(),
{
    if i < entries.len() - 1 {
        let t = entries.drop_last();
        assert(t[i] == entries[i]);
        assert forall|j: int| i < j < t.len() implies #[trigger] t[j].key@ != k by {
            assert(t[j] == entries[j]);
        }
        lemma_as_map_found(t, k, i);
    }
}

proof fn lemma_as_map_absent(entries: Seq<TableEntry>, k: Seq<char>)
    requires
        forall|j: int| 0 <= j < entries.len() ==> #[trigger] entries[j].key@ != k,
    ensures
        !as_map(entries).contains_key(k),
    decreases entries.len(),
{
    if entries.len() > 0 {
        let t = entries.drop_last();
        assert forall|j: int| 0 <= j < t.len() implies #[trigger] t[j].key@ != k by {
            assert(t[j] == entries[j]);
        }
        lemma_as_map_absent(t, k);
    }
}

/// A parsed list of named attribute entries, keyed for lookup.
///
/// Built once per raw attribute; every key present was validated against the
/// recognized-key set at construction, and a key written twice keeps its last
/// value. The view is the key-to-value table itself.
#[derive(Debug)]
pub struct NamedAttrs {
    entries: Vec<TableEntry>,
}

impl View for NamedAttrs {
    type V = Map<Seq<char>, AttrValueView>;

    closed spec fn view(&self) -> Map<Seq<char>, AttrValueView> {
        as_map(self.entries@)
    }
}

impl DeepView for NamedAttrs {
    type V = Map<Seq<char>, AttrValueView>;

    open spec fn deep_view(&self) -> Map<Seq<char>, AttrValueView> {
        self.view()
    }
}

impl NamedAttrs {
    /// Parse an attribute body into a table, against a recognized-key set.
    ///
    /// The body must be a parenthesized list; every entry must be a single
    /// `identifier = literal` pair; every key must be recognized. The first
    /// offence is reported at its own position, as [`named_attrs_spec`]
    /// states.
    pub fn parse(meta: &Meta, meta_span: Span, expected: &Vec<String>) -> (r: Result<
        NamedAttrs,
        ParseError,
    >)
        ensures
            result_view(r) == named_attrs_spec(meta.deep_view(), meta_span, expected.deep_view()),
    {
        let list = match meta {
            Meta::List(entries) => entries,
            _ => {
                return Err(ParseError::new(meta_span, ErrorKind::ExpectedNamedList));
            },
        };
        let ghost evs = list.deep_view();
        let ghost keys = expected.deep_view();
        let mut table: Vec<TableEntry> = Vec::new();
        let mut idx: usize = 0;
        while idx < list.len()
            invariant
                idx <= list.len(),
                evs == list.deep_view(),
                keys == expected.deep_view(),
                meta.deep_view() == MetaView::List(evs),
                forall|k: int| 0 <= k < idx ==> entry_ok(#[trigger] evs[k], keys),
                as_map(table@) == table_of(evs.take(idx as int)),
            decreases list.len() - idx,
        {
            match &list[idx] {
                MetaEntry::Other { span } => {
                    proof {
                        assert(evs[idx as int] == (MetaEntryView::Other { span: *span }));
                        lemma_first_error_at(evs, keys, idx as int);
                    }
                    return Err(ParseError::new(*span, ErrorKind::ExpectedNamedParameter));
                },
                MetaEntry::NameValue { key, key_span, value } => {
                    proof {
                        assert(evs[idx as int] == (MetaEntryView::NameValue {
                            key: key.deep_view(),
                            key_span: *key_span,
                            value: value@,
                        }));
                    }
                    if key.len() != 1 {
                        proof {
                            assert(key.deep_view().len() != 1);
                            lemma_first_error_at(evs, keys, idx as int);
                        }
                        return Err(ParseError::new(*key_span, ErrorKind::ExpectedNamedParameter));
                    }
                    if !contains_str(expected, key[0].as_str()) {
                        proof {
                            assert(key.deep_view()[0] == key@[0]@);
                            assert(entry_key(evs[idx as int]) == key@[0]@);
                            lemma_first_error_at(evs, keys, idx as int);
                        }
                        return Err(ParseError::with_expected(
                            *key_span,
                            ErrorKind::UnrecognizedParameter,
                            clone_strings(expected),
                        ));
                    }
                    let ghost t0 = table@;
                    table.push(TableEntry { key: key[0].clone(), value: value.duplicate() });
                    proof {
                        assert(key.deep_view()[0] == key@[0]@);
                        assert(entry_key(evs[idx as int]) == key@[0]@);
                        assert(entry_value(evs[idx as int]) == value@);
                        assert(table@.drop_last() =~= t0);
                        assert(table@.last().key@ == key@[0]@);
                        assert(evs.take(idx as int + 1).drop_last() =~= evs.take(idx as int));
                        assert(evs.take(idx as int + 1).last() == evs[idx as int]);
                    }
                },
            }
            idx += 1;
        }
        proof {
            assert(evs.take(list.len() as int) =~= evs);
        }
        Ok(NamedAttrs { entries: table })
    }

    /// Look a parsed parameter up by name.
    pub fn get(&self, name: &str) -> (r: Option<&AttrValue>)
        ensures
            match r {
                Some(v) => self@.contains_key(name@) && v@ == self@[name@],
                None => !self@.contains_key(name@),
            },
    {
        let mut idx: usize = self.entries.len();
        while idx > 0
            invariant
                idx <= self.entries.len(),
                forall|j: int| idx <= j < self.entries@.len() ==> #[trigger] self.entries@[j].key@
                    != name@,
            decreases idx,
        {
            idx -= 1;
            if str_eq(self.entries[idx].key.as_str(), name) {
                proof {
                    lemma_as_map_found(self.entries@, name@, idx as int);
                }
                return Some(&self.entries[idx].value);
            }
        }
        proof {
            lemma_as_map_absent(self.entries@, name@);
        }
        None
    }
}

/// Whether no key is bound twice among the entries.
pub open spec fn distinct_keys(entries: Seq<MetaEntryView>) -> bool {
    forall|i: int, j: int| 0 <= i < j < entries.len() ==> entry_key(#[trigger] entries[i])
        != entry_key(#[trigger] entries[j])
}

proof fn lemma_table_bindings(entries: Seq<MetaEntryView>)
    requires
        forall|i: int| 0 <= i < entries.len() ==> entry_is_pair(#[trigger] entries[i]),
        distinct_keys(entries),
    ensures
        forall|i: int| 0 <= i < entries.len() ==> table_of(entries).contains_key(
            entry_key(#[trigger] entries[i]),
        ) && table_of(entries)[entry_key(entries[i])] == entry_value(entries[i]),
        forall|k: Seq<char>| #[trigger] table_of(entries).contains_key(k) ==> exists|i: int|
            0 <= i < entries.len() && entry_key(#[trigger] entries[i]) == k,
    decreases entries.len(),
{
    if entries.len() > 0 {
        let t = entries.drop_last();
        lemma_table_bindings(t);
        let last = entries.last();
        assert forall|i: int| 0 <= i < entries.len() implies table_of(entries).contains_key(
            entry_key(#[trigger] entries[i]),
        ) && table_of(entries)[entry_key(entries[i])] == entry_value(entries[i]) by {
            if i < entries.len() - 1 {
                assert(t[i] == entries[i]);
                assert(entry_key(entries[i]) != entry_key(last));
            }
        }
        assert forall|k: Seq<char>| #[trigger] table_of(entries).contains_key(k) implies exists|
            i: int,
        |
            0 <= i < entries.len() && entry_key(#[trigger] entries[i]) == k by {
            if k == entry_key(last) {
                assert(entry_key(entries[entries.len() - 1]) == k);
            } else {
                let i = choose|i: int| 0 <= i < t.len() && entry_key(#[trigger] t[i]) == k;
                assert(entry_key(entries[i]) == k);
            }
        }
    }
}

/// Lookup is order-independent: two entry lists that bind the same keys to
/// the same values, each key once, fold to the same table, whatever the
/// order of their entries.
pub proof fn lemma_table_order_independent(e1: Seq<MetaEntryView>, e2: Seq<MetaEntryView>)
    requires
        forall|i: int| 0 <= i < e1.len() ==> entry_is_pair(#[trigger] e1[i]),
        forall|i: int| 0 <= i < e2.len() ==> entry_is_pair(#[trigger] e2[i]),
        distinct_keys(e1),
        distinct_keys(e2),
        forall|i: int| 0 <= i < e1.len() ==> exists|j: int|
            0 <= j < e2.len() && entry_key(#[trigger] e2[j]) == entry_key(#[trigger] e1[i])
                && entry_value(e2[j]) == entry_value(e1[i]),
        forall|i: int| 0 <= i < e2.len() ==> exists|j: int|
            0 <= j < e1.len() && entry_key(#[trigger] e1[j]) == entry_key(#[trigger] e2[i])
                && entry_value(e1[j]) == entry_value(e2[i]),
    ensures
        table_of(e1) == table_of(e2),
{
    lemma_table_bindings(e1);
    lemma_table_bindings(e2);
    assert forall|k: Seq<char>| #[trigger] table_of(e1).contains_key(k) implies table_of(
        e2,
    ).contains_key(k) && table_of(e2)[k] == table_of(e1)[k] by {
        let i = choose|i: int| 0 <= i < e1.len() && entry_key(#[trigger] e1[i]) == k;
        let j = choose|j: int|
            0 <= j < e2.len() && entry_key(#[trigger] e2[j]) == entry_key(e1[i]) && entry_value(
                e2[j],
            ) == entry_value(e1[i]);
    }
    assert forall|k: Seq<char>| #[trigger] table_of(e2).contains_key(k) implies table_of(
        e1,
    ).contains_key(k) by {
        let i = choose|i: int| 0 <= i < e2.len() && entry_key(#[trigger] e2[i]) == k;
        let j = choose|j: int|
            0 <= j < e1.len() && entry_key(#[trigger] e1[j]) == entry_key(e2[i]) && entry_value(
                e1[j],
            ) == entry_value(e2[i]);
    }
    assert(table_of(e1) =~= table_of(e2));
}

/// A key outside the recognized set always fails the list with
/// [`ErrorKind::UnrecognizedParameter`] carrying that set, however many
/// recognized keys stand beside it.
pub proof fn lemma_unrecognized_key_fails(
    entries: Seq<MetaEntryView>,
    meta_span: Span,
    keys: Seq<Seq<char>>,
)
    requires
        forall|i: int| 0 <= i < entries.len() ==> entry_is_pair(#[trigger] entries[i]),
        exists|i: int| 0 <= i < entries.len() && !keys.contains(entry_key(#[trigger] entries[i])),
    ensures
        named_attrs_spec(MetaView::List(entries), meta_span, keys) matches Err(e)
            && e.kind == ErrorKind::UnrecognizedParameter && e.expected == keys,
    decreases entries.len(),
{
    let iw = choose|i: int| 0 <= i < entries.len() && !keys.contains(entry_key(#[trigger] entries[i]));
    if !entry_ok(entries[0], keys) {
        lemma_first_error_at(entries, keys, 0);
    } else {
        let t = entries.drop_first();
        assert forall|i: int| 0 <= i < t.len() implies entry_is_pair(#[trigger] t[i]) by {
            assert(t[i] == entries[i + 1]);
        }
        assert(iw >= 1);
        assert(t[iw - 1] == entries[iw]);
        assert(!keys.contains(entry_key(t[iw - 1])));
        lemma_unrecognized_key_fails(t, meta_span, keys);
        assert(!entries_ok(t, keys));
        let ib = choose|i: int| 0 <= i < t.len() && !entry_ok(#[trigger] t[i], keys);
        assert(entries[ib + 1] == t[ib]);
        assert(!entries_ok(entries, keys));
    }
}

/// A valid name: 1 to 32 Unicode scalar values.
pub open spec fn name_len_ok(s: Seq<char>) -> bool {
    1 <= s.len() <= 32
}

/// A valid description: 1 to 100 Unicode scalar values.
pub open spec fn desc_len_ok(s: Seq<char>) -> bool {
    1 <= s.len() <= 100
}

/// What name validation yields: the text of a string literal of valid
/// length, unchanged; a length error at the literal's position otherwise.
pub open spec fn parse_name_spec(v: AttrValueView) -> Result<Seq<char>, ParseErrorView> {
    match crate::syntax::parse_string_spec(v) {
        Err(e) => Err(e),
        Ok(s) => if name_len_ok(s) {
            Ok(s)
        } else {
            Err(
                ParseErrorView {
                    span: v.span,
                    kind: ErrorKind::NameLengthOutOfRange,
                    expected: Seq::empty(),
                },
            )
        },
    }
}

/// What description validation yields, with the 1-to-100 bound.
pub open spec fn parse_description_spec(v: AttrValueView) -> Result<Seq<char>, ParseErrorView> {
    match crate::syntax::parse_string_spec(v) {
        Err(e) => Err(e),
        Ok(s) => if desc_len_ok(s) {
            Ok(s)
        } else {
            Err(
                ParseErrorView {
                    span: v.span,
                    kind: ErrorKind::DescriptionLengthOutOfRange,
                    expected: Seq::empty(),
                },
            )
        },
    }
}

/// A string literal of 1 to 32 characters passes name validation unchanged;
/// any other length fails with `NameLengthOutOfRange` at the literal's
/// position, and a literal of another kind with `InvalidAttributeType`.
pub proof fn lemma_name_rule(v: AttrValueView)
    ensures
        v.lit is Str && name_len_ok(v.lit->Str_0) ==> parse_name_spec(v) == Ok::<
            Seq<char>,
            ParseErrorView,
        >(v.lit->Str_0),
        v.lit is Str && !name_len_ok(v.lit->Str_0) ==> (parse_name_spec(v) matches Err(e)
            && e.kind == ErrorKind::NameLengthOutOfRange && e.span == v.span),
        !(v.lit is Str) ==> (parse_name_spec(v) matches Err(e) && e.kind
            == ErrorKind::InvalidAttributeType && e.span == v.span),
{
}

/// A string literal of 1 to 100 characters passes description validation
/// unchanged; any other length fails with `DescriptionLengthOutOfRange` at
/// the literal's position, and a literal of another kind with
/// `InvalidAttributeType`.
pub proof fn lemma_description_rule(v: AttrValueView)
    ensures
        v.lit is Str && desc_len_ok(v.lit->Str_0) ==> parse_description_spec(v) == Ok::<
            Seq<char>,
            ParseErrorView,
        >(v.lit->Str_0),
        v.lit is Str && !desc_len_ok(v.lit->Str_0) ==> (parse_description_spec(v) matches Err(e)
            && e.kind == ErrorKind::DescriptionLengthOutOfRange && e.span == v.span),
        !(v.lit is Str) ==> (parse_description_spec(v) matches Err(e) && e.kind
            == ErrorKind::InvalidAttributeType && e.span == v.span),
{
}

/// Validate a command, option or subcommand name.
pub fn parse_name(val: &AttrValue) -> (r: Result<String, ParseError>)
    ensures
        result_view(r) == parse_name_spec(val@),
{
    let span = val.span();
    let s = match val.parse_string() {
        Ok(s) => s,
        Err(e) => {
            return Err(e);
        },
    };
    let n = s.as_str().unicode_len();
    if 1 <= n && n <= 32 {
        Ok(s)
    } else {
        Err(ParseError::new(span, ErrorKind::NameLengthOutOfRange))
    }
}

/// Validate a command or option description.
pub fn parse_description(val: &AttrValue) -> (r: Result<String, ParseError>)
    ensures
        result_view(r) == parse_description_spec(val@),
{
    let span = val.span();
    let s = match val.parse_string() {
        Ok(s) => s,
        Err(e) => {
            return Err(e);
        },
    };
    let n = s.as_str().unicode_len();
    if 1 <= n && n <= 100 {
        Ok(s)
    } else {
        Err(ParseError::new(span, ErrorKind::DescriptionLengthOutOfRange))
    }
}

/// The line a documentation attribute contributes: its text and a newline
/// for `#[doc = "..."]`, nothing for any other attribute.
pub open spec fn doc_piece(a: AttributeView) -> Seq<char> {
    match a.meta {
        MetaView::NameValue(v) => match v.lit {
            LitView::Str(text) => if a.path.len() == 1 && a.path[0] == "doc"@ {
                text + "\n"@
            } else {
                Seq::empty()
            },
            _ => Seq::empty(),
        },
        _ => Seq::empty(),
    }
}

/// The concatenation of a declaration's documentation lines, in order.
pub open spec fn doc_text(attrs: Seq<AttributeView>) -> Seq<char>
    decreases attrs.len(),
{
    if attrs.len() == 0 {
        Seq::empty()
    } else {
        doc_text(attrs.drop_last()) + doc_piece(attrs.last())
    }
}

/// What documentation extraction yields: the trimmed concatenation of the
/// documentation lines when it has 1 to 100 characters,
/// `DescriptionRequired` at the fallback position when it is empty, and
/// `DescriptionLengthOutOfRange` there when it is longer.
pub open spec fn parse_doc_spec(attrs: Seq<AttributeView>, span: Span) -> Result<
    Seq<char>,
    ParseErrorView,
> {
    let doc = trim_spec(doc_text(attrs));
    if doc.len() == 0 {
        Err(ParseErrorView { span, kind: ErrorKind::DescriptionRequired, expected: Seq::empty() })
    } else if doc.len() <= 100 {
        Ok(doc)
    } else {
        Err(
            ParseErrorView {
                span,
                kind: ErrorKind::DescriptionLengthOutOfRange,
                expected: Seq::empty(),
            },
        )
    }
}

/// Extract a description from the declaration's documentation comments.
///
/// Each `#[doc = "..."]` attribute contributes one line; the lines are
/// joined with newlines and the result is trimmed. Errors that concern the
/// declaration as a whole are reported at `span`.
pub fn parse_doc(attrs: &Vec<Attribute>, span: Span) -> (r: Result<String, ParseError>)
    ensures
        result_view(r) == parse_doc_spec(attrs.deep_view(), span),
{
    let ghost avs = attrs.deep_view();
    let mut doc = String::new();
    let mut i: usize = 0;
    while i < attrs.len()
        invariant
            i <= attrs.len(),
            avs == attrs.deep_view(),
            doc@ == doc_text(avs.take(i as int)),
        decreases attrs.len() - i,
    {
        let a = &attrs[i];
        let ghost av = avs[i as int];
        proof {
            assert(av == a.deep_view());
        }
        let is_doc = a.path.len() == 1 && str_eq(a.path[0].as_str(), "doc");
        if is_doc {
            match &a.meta {
                Meta::NameValue(v) => {
                    match &v.lit {
                        Lit::Str(text) => {
                            let ghost d0 = doc@;
                            doc.append(text.as_str());
                            doc.append("\n");
                            proof {
                                assert(doc_piece(av) == text@ + "\n"@);
                                assert(doc@ =~= d0 + doc_piece(av));
                            }
                        },
                        _ => {
                            proof {
                                assert(doc_piece(av) == Seq::<char>::empty());
                            }
                        },
                    }
                },
                _ => {
                    proof {
                        assert(doc_piece(av) == Seq::<char>::empty());
                    }
                },
            }
        } else {
            proof {
                assert(doc_piece(av) == Seq::<char>::empty());
            }
        }
        proof {
            assert(avs.take(i as int + 1).drop_last() =~= avs.take(i as int));
            assert(avs.take(i as int + 1).last() == av);
            assert(doc@ =~= doc_text(avs.take(i as int)) + doc_piece(av));
        }
        i += 1;
    }
    proof {
        assert(avs.take(attrs.len() as int) =~= avs);
    }
    let t = trim_text(doc.as_str());
    let n = t.as_str().unicode_len();
    if n == 0 {
        Err(ParseError::new(span, ErrorKind::DescriptionRequired))
    } else if n <= 100 {
        Ok(t)
    } else {
        Err(ParseError::new(span, ErrorKind::DescriptionLengthOutOfRange))
    }
}

/// The recognized keys of a type-level `#[command(...)]` attribute.
pub open spec fn type_attr_keys() -> Seq<Seq<char>> {
    seq!["name"@, "desc"@, "default_permission"@]
}

/// The recognized keys of a field-level `#[command(...)]` attribute.
pub open spec fn field_attr_keys() -> Seq<Seq<char>> {
    seq!["rename"@, "desc"@]
}

/// The recognized keys of a variant-level `#[command(...)]` attribute.
pub open spec fn variant_attr_keys() -> Seq<Seq<char>> {
    seq!["name"@]
}

pub(crate) fn type_attr_keys_vec() -> (r: Vec<String>)
    ensures
        r.deep_view() == type_attr_keys(),
{
    let mut r: Vec<String> = Vec::new();
    r.push("name".to_owned());
    r.push("desc".to_owned());
    r.push("default_permission".to_owned());
    proof {
        assert(r.deep_view() =~= type_attr_keys());
    }
    r
}

pub(crate) fn field_attr_keys_vec() -> (r: Vec<String>)
    ensures
        r.deep_view() == field_attr_keys(),
{
    let mut r: Vec<String> = Vec::new();
    r.push("rename".to_owned());
    r.push("desc".to_owned());
    proof {
        assert(r.deep_view() =~= field_attr_keys());
    }
    r
}

pub(crate) fn variant_attr_keys_vec() -> (r: Vec<String>)
    ensures
        r.deep_view() == variant_attr_keys(),
{
    let mut r: Vec<String> = Vec::new();
    r.push("name".to_owned());
    proof {
        assert(r.deep_view() =~= variant_attr_keys());
    }
    r
}

/// The mathematical content of a [`TypeAttribute`].
#[verifier::ext_equal]
pub struct TypeAttributeView {
    pub name: Seq<char>,
    pub desc: Option<Seq<char>>,
    pub default_permission: bool,
}

/// The parsed type-level attribute of a command declaration:
/// `#[command(name = "...", desc = "...", default_permission = ...)]`.
#[derive(Debug)]
pub struct TypeAttribute {
    /// The command's name.
    pub name: String,
    /// An explicit description, overriding the documentation comment.
    pub desc: Option<String>,
    /// Whether the command is enabled by default; `true` when absent.
    pub default_permission: bool,
}

impl View for TypeAttribute {
    type V = TypeAttributeView;

    open spec fn view(&self) -> TypeAttributeView {
        TypeAttributeView {
            name: self.name@,
            desc: self.desc.deep_view(),
            default_permission: self.default_permission,
        }
    }
}

impl DeepView for TypeAttribute {
    type V = TypeAttributeView;

    open spec fn deep_view(&self) -> TypeAttributeView {
        self.view()
    }
}

/// What parsing a type-level attribute yields: `name` is mandatory and
/// validated as a name, `desc` optional and validated as a description, and
/// `default_permission` optional, a boolean, `true` when absent.
pub open spec fn type_attribute_spec(attr: AttributeView) -> Result<
    TypeAttributeView,
    ParseErrorView,
> {
    match named_attrs_spec(attr.meta, attr.span, type_attr_keys()) {
        Err(e) => Err(e),
        Ok(m) => if !m.contains_key("name"@) {
            Err(
                ParseErrorView {
                    span: attr.span,
                    kind: ErrorKind::MissingRequiredAttribute,
                    expected: Seq::empty(),
                },
            )
        } else {
            match parse_name_spec(m["name"@]) {
                Err(e) => Err(e),
                Ok(name) => {
                    let desc_r: Result<Option<Seq<char>>, ParseErrorView> = if m.contains_key(
                        "desc"@,
                    ) {
                        match parse_description_spec(m["desc"@]) {
                            Err(e) => Err(e),
                            Ok(d) => Ok(Some(d)),
                        }
                    } else {
                        Ok(None)
                    };
                    match desc_r {
                        Err(e) => Err(e),
                        Ok(desc) => {
                            let dp_r: Result<bool, ParseErrorView> = if m.contains_key(
                                "default_permission"@,
                            ) {
                                crate::syntax::parse_bool_spec(m["default_permission"@])
                            } else {
                                Ok(true)
                            };
                            match dp_r {
                                Err(e) => Err(e),
                                Ok(dp) => Ok(
                                    TypeAttributeView { name, desc, default_permission: dp },
                                ),
                            }
                        },
                    }
                },
            }
        },
    }
}

impl TypeAttribute {
    /// Parse the type-level `#[command(...)]` attribute.
    pub fn parse(attr: &Attribute) -> (r: Result<TypeAttribute, ParseError>)
        ensures
            result_view(r) == type_attribute_spec(attr.deep_view()),
    {
        let expected = type_attr_keys_vec();
        let attrs = match NamedAttrs::parse(&attr.meta, attr.span, &expected) {
            Ok(a) => a,
            Err(e) => {
                return Err(e);
            },
        };
        let name = match attrs.get("name") {
            Some(val) => match parse_name(val) {
                Ok(s) => s,
                Err(e) => {
                    return Err(e);
                },
            },
            None => {
                return Err(ParseError::new(attr.span, ErrorKind::MissingRequiredAttribute));
            },
        };
        let desc = match attrs.get("desc") {
            Some(val) => match parse_description(val) {
                Ok(s) => Some(s),
                Err(e) => {
                    return Err(e);
                },
            },
            None => None,
        };
        let default_permission = match attrs.get("default_permission") {
            Some(val) => match val.parse_bool() {
                Ok(b) => b,
                Err(e) => {
                    return Err(e);
                },
            },
            None => true,
        };
        Ok(TypeAttribute { name, desc, default_permission })
    }
}

/// `default_permission` resolves to `true` when its key is absent from a
/// successfully parsed type-level attribute, and to the written boolean when
/// its key is present.
pub proof fn lemma_default_permission(attr: AttributeView)
    requires
        type_attribute_spec(attr) is Ok,
    ensures
        ({
            let m = named_attrs_spec(attr.meta, attr.span, type_attr_keys())->Ok_0;
            let t = type_attribute_spec(attr)->Ok_0;
            &&& (!m.contains_key("default_permission"@) ==> t.default_permission == true)
            &&& (m.contains_key("default_permission"@) ==> m["default_permission"@].lit
                == LitView::Bool(t.default_permission))
        }),
{
}

/// The mathematical content of a [`FieldAttribute`].
#[verifier::ext_equal]
pub struct FieldAttributeView {
    pub rename: Option<Seq<char>>,
    pub desc: Option<Seq<char>>,
}

/// The parsed field-level attribute of a command option:
/// `#[command(rename = "...", desc = "...")]`.
///
/// A field with no attribute at all gets the default model, both fields
/// absent.
#[derive(Debug)]
pub struct FieldAttribute {
    /// The option's name, overriding the field's identifier.
    pub rename: Option<String>,
    /// An explicit description, overriding the documentation comment.
    pub desc: Option<String>,
}

impl View for FieldAttribute {
    type V = FieldAttributeView;

    open spec fn view(&self) -> FieldAttributeView {
        FieldAttributeView { rename: self.rename.deep_view(), desc: self.desc.deep_view() }
    }
}

impl DeepView for FieldAttribute {
    type V = FieldAttributeView;

    open spec fn deep_view(&self) -> FieldAttributeView {
        self.view()
    }
}

impl Default for FieldAttribute {
    /// The model of a field that carries no attribute.
    fn default() -> (r: FieldAttribute)
        ensures
            r@ == (FieldAttributeView { rename: None, desc: None }),
    {
        FieldAttribute { rename: None, desc: None }
    }
}

/// What parsing a field-level attribute yields: `rename` optional and
/// validated as a name, `desc` optional and validated as a description.
pub open spec fn field_attribute_spec(attr: AttributeView) -> Result<
    FieldAttributeView,
    ParseErrorView,
> {
    match named_attrs_spec(attr.meta, attr.span, field_attr_keys()) {
        Err(e) => Err(e),
        Ok(m) => {
            let rename_r: Result<Option<Seq<char>>, ParseErrorView> = if m.contains_key(
                "rename"@,
            ) {
                match parse_name_spec(m["rename"@]) {
                    Err(e) => Err(e),
                    Ok(n) => Ok(Some(n)),
                }
            } else {
                Ok(None)
            };
            match rename_r {
                Err(e) => Err(e),
                Ok(rename) => {
                    let desc_r: Result<Option<Seq<char>>, ParseErrorView> = if m.contains_key(
                        "desc"@,
                    ) {
                        match parse_description_spec(m["desc"@]) {
                            Err(e) => Err(e),
                            Ok(d) => Ok(Some(d)),
                        }
                    } else {
                        Ok(None)
                    };
                    match desc_r {
                        Err(e) => Err(e),
                        Ok(desc) => Ok(FieldAttributeView { rename, desc }),
                    }
                },
            }
        },
    }
}

/// The effective option name of a field: the rename when one was written,
/// the declared identifier otherwise.
pub open spec fn name_default_spec(a: FieldAttributeView, default: Seq<char>) -> Seq<char> {
    match a.rename {
        Some(n) => n,
        None => default,
    }
}

impl FieldAttribute {
    /// Parse a field-level `#[command(...)]` attribute.
    pub fn parse(attr: &Attribute) -> (r: Result<FieldAttribute, ParseError>)
        ensures
            result_view(r) == field_attribute_spec(attr.deep_view()),
    {
        let expected = field_attr_keys_vec();
        let attrs = match NamedAttrs::parse(&attr.meta, attr.span, &expected) {
            Ok(a) => a,
            Err(e) => {
                return Err(e);
            },
        };
        let rename = match attrs.get("rename") {
            Some(val) => match parse_name(val) {
                Ok(s) => Some(s),
                Err(e) => {
                    return Err(e);
                },
            },
            None => None,
        };
        let desc = match attrs.get("desc") {
            Some(val) => match parse_description(val) {
                Ok(s) => Some(s),
                Err(e) => {
                    return Err(e);
                },
            },
            None => None,
        };
        Ok(FieldAttribute { rename, desc })
    }

    /// The effective option name, falling back to the declared identifier.
    pub fn name_default(&self, default: String) -> (r: String)
        ensures
            r@ == name_default_spec(self.deep_view(), default@),
    {
        match &self.rename {
            Some(name) => name.clone(),
            None => default,
        }
    }
}

/// The resolved-name invariant at the type level: a successfully parsed
/// type attribute carries a name of 1 to 32 characters, and a description,
/// when present, of 1 to 100.
pub proof fn lemma_type_attribute_bounds(attr: AttributeView)
    requires
        type_attribute_spec(attr) is Ok,
    ensures
        name_len_ok(type_attribute_spec(attr)->Ok_0.name),
        match type_attribute_spec(attr)->Ok_0.desc {
            Some(d) => desc_len_ok(d),
            None => true,
        },
{
}

/// The resolved-name invariant at the field level: a successfully parsed
/// field attribute carries a rename, when present, of 1 to 32 characters,
/// and a description, when present, of 1 to 100.
pub proof fn lemma_field_attribute_bounds(attr: AttributeView)
    requires
        field_attribute_spec(attr) is Ok,
    ensures
        match field_attribute_spec(attr)->Ok_0.rename {
            Some(n) => name_len_ok(n),
            None => true,
        },
        match field_attribute_spec(attr)->Ok_0.desc {
            Some(d) => desc_len_ok(d),
            None => true,
        },
{
}

/// A successfully extracted documentation description has 1 to 100
/// characters.
pub proof fn lemma_doc_bounds(attrs: Seq<AttributeView>, span: Span)
    requires
        parse_doc_spec(attrs, span) is Ok,
    ensures
        desc_len_ok(parse_doc_spec(attrs, span)->Ok_0),
{
}

} // verus!
