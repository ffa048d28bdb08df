//! The `syn` items this crate relies on, and what it assumes of them.

use vstd::prelude::*;

verus! {

#[verifier::external_type_specification]
#[verifier::external_body]
pub struct ExAttribute(syn::Attribute);

#[verifier::external_type_specification]
#[verifier::external_body]
pub struct ExField(syn::Field);

#[verifier::external_type_specification]
#[verifier::external_body]
pub struct ExFieldsUnnamed(syn::FieldsUnnamed);

#[verifier::external_type_specification]
#[verifier::external_body]
pub struct ExIdent(syn::Ident);

#[verifier::external_type_specification]
#[verifier::external_body]
pub struct ExExpr(syn::Expr);

#[verifier::external_type_specification]
#[verifier::external_body]
pub struct ExEqToken(syn::token::Eq);

#[verifier::external_type_specification]
#[verifier::external_body]
pub struct ExBrace(syn::token::Brace);

/// The identifier that an attribute's path consists of, when the path is a
/// single identifier with no leading `::` and no generic arguments.
pub uninterp spec fn attr_path_ident(a: syn::Attribute) -> Option<Seq<char>>;

/// Relies on `syn::Attribute::path` and `syn::Path::get_ident`: the path's
/// sole identifier, if it is one, written out by `Ident`'s `Display`.
#[verifier::external_body]
pub(crate) fn attr_ident(a: &syn::Attribute) -> (r: Option<String>)
    ensures
        attr_path_ident(*a) == (match r {
            Some(s) => Some(s@),
            None => None,
        }),
{
    a.path().get_ident().map(ToString::to_string)
}

/// Relies on `syn::Field`'s `Clone`, which copies every member of the field:
/// the copy is the same field.
#[verifier::external_body]
pub(crate) fn clone_field(f: &syn::Field) -> (r: syn::Field)
    ensures
        r == *f,
{
    f.clone()
}

} // verus!
