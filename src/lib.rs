//! Merges the named fields of one marked enum variant into every other
//! variant of the enum, and drops the marked variant.
//!
//! The syntax tree itself comes from `syn`; this crate holds the variants in a
//! shape of its own, so that the classification and merge rules are verified.

mod expand;
pub mod laws;
mod syntax;
mod variant;

pub use expand::{
    enum_expand, expansion, first_template, has_template_from, next_template, views, ExpandError,
};
pub use syntax::attr_path_ident;
pub use variant::{
    insert_field, is_common_part, is_marker, is_template, merged_fields, merged_variant, Fields,
    FieldsView, NamedFields, NamedFieldsView, Variant, VariantView, MARKER,
};
