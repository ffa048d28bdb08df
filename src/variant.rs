//! Enum variants as this crate holds them, and the merge of a template's
//! named fields into one variant.

use vstd::prelude::*;

use crate::syntax::{attr_ident, attr_path_ident, clone_field};

verus! {

/// The attribute name that marks the common-field template variant.
pub const MARKER: &'static str = "enum_expand";

/// A braced list of named fields.
pub struct NamedFields {
    pub brace: syn::token::Brace,
    pub named: Vec<syn::Field>,
}

/// The shape of a variant's fields.
pub enum Fields {
    Named(NamedFields),
    Unnamed(syn::FieldsUnnamed),
    Unit,
}

/// One variant of an enum definition.
pub struct Variant {
    pub attrs: Vec<syn::Attribute>,
    pub ident: syn::Ident,
    pub fields: Fields,
    pub discriminant: Option<(syn::token::Eq, syn::Expr)>,
}

/// The model of `NamedFields`: its brace token and its fields in order.
pub struct NamedFieldsView {
    pub brace: syn::token::Brace,
    pub named: Seq<syn::Field>,
}

/// The model of `Fields`.
pub enum FieldsView {
    Named(NamedFieldsView),
    Unnamed(syn::FieldsUnnamed),
    Unit,
}

/// The model of `Variant`.
pub struct VariantView {
    pub attrs: Seq<syn::Attribute>,
    pub ident: syn::Ident,
    pub fields: FieldsView,
    pub discriminant: Option<(syn::token::Eq, syn::Expr)>,
}

impl View for NamedFields {
    type V = NamedFieldsView;

    open spec fn view(&self) -> NamedFieldsView {
        NamedFieldsView { brace: self.brace, named: self.named@ }
    }
}

impl View for Fields {
    type V = FieldsView;

    open spec fn view(&self) -> FieldsView {
        match self {
            Fields::Named(n) => FieldsView::Named(n@),
            Fields::Unnamed(u) => FieldsView::Unnamed(*u),
            Fields::Unit => FieldsView::Unit,
        }
    }
}

impl View for Variant {
    type V = VariantView;

    open spec fn view(&self) -> VariantView {
        VariantView {
            attrs: self.attrs@,
            ident: self.ident,
            fields: self.fields@,
            discriminant: self.discriminant,
        }
    }
}

/// An attribute is the marker when its path is the single identifier `MARKER`.
pub open spec fn is_marker(a: syn::Attribute) -> bool {
    attr_path_ident(a) == Some(MARKER@)
}

/// A variant is the template when any of its attributes is the marker.
pub open spec fn is_template(v: VariantView) -> bool {
    exists|i: int| 0 <= i < v.attrs.len() && is_marker(#[trigger] v.attrs[i])
}

/// The fields of `f` once the template's fields `t` are merged in: appended
/// to named fields, ignored by tuple fields, and taken whole by a unit shape.
pub open spec fn merged_fields(t: NamedFieldsView, f: FieldsView) -> FieldsView {
    match f {
        FieldsView::Named(n) => FieldsView::Named(NamedFieldsView { brace: n.brace, named: n.named + t.named }),
        FieldsView::Unnamed(u) => FieldsView::Unnamed(u),
        FieldsView::Unit => FieldsView::Named(t),
    }
}

/// The variant `v` with the template's fields `t` merged into its fields.
pub open spec fn merged_variant(t: NamedFieldsView, v: VariantView) -> VariantView {
    VariantView { fields: merged_fields(t, v.fields), ..v }
}

fn is_marker_attr(a: &syn::Attribute) -> (r: bool)
    ensures
        r == is_marker(*a),
{
    match attr_ident(a) {
        Some(name) => {
            let marker = MARKER.to_owned();
            proof {
                reveal_strlit("enum_expand");
            }
            name == marker
        },
        None => false,
    }
}

/// Whether the variant carries the marker attribute.
pub fn is_common_part(variant: &Variant) -> (r: bool)
    ensures
        r == is_template(variant@),
{
    let mut i: usize = 0;
    while i < variant.attrs.len()
        invariant
            i <= variant.attrs.len(),
            forall|k: int| 0 <= k < i ==> !is_marker(#[trigger] variant.attrs@[k]),
        decreases variant.attrs.len() - i,
    {
        if is_marker_attr(&variant.attrs[i]) {
            assert(is_marker(variant@.attrs[i as int]));
            return true;
        }
        i = i + 1;
    }
    false
}

/// Merges the template's fields `src` into `dst`.
pub fn insert_field(src: &NamedFields, dst: &mut Fields)
    ensures
        final(dst)@ == merged_fields(src@, old(dst)@),
{
    match dst {
        Fields::Named(fields_named) => {
            append_fields(&src.named, &mut fields_named.named);
        },
        Fields::Unnamed(_) => {},
        Fields::Unit => {
            *dst = Fields::Named(clone_named(src));
        },
    }
}

fn append_fields(src: &Vec<syn::Field>, dst: &mut Vec<syn::Field>)
    ensures
        final(dst)@ == old(dst)@ + src@,
{
    let ghost start = dst@;
    let mut i: usize = 0;
    while i < src.len()
        invariant
            i <= src.len(),
            dst@ == start + src@.subrange(0, i as int),
        decreases src.len() - i,
    {
        dst.push(clone_field(&src[i]));
        i = i + 1;
    }
    assert(src@.subrange(0, i as int) == src@);
}

fn clone_named(src: &NamedFields) -> (r: NamedFields)
    ensures
        r@ == src@,
{
    let mut named: Vec<syn::Field> = Vec::new();
    append_fields(&src.named, &mut named);
    NamedFields { brace: src.brace, named }
}

} // verus!
