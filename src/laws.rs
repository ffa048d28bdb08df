//! Properties of the expansion, stated over the model of `expansion`.

use vstd::prelude::*;

use crate::expand::{
    expansion, first_template, has_template_from, lemma_first_unique, lemma_next_unique, ExpandError,
};
use crate::variant::{
    is_template, merged_variant, FieldsView, NamedFieldsView, VariantView,
};

verus! {

/// The position, in the output, of the input variant at `k` when the template
/// at `i` is left out.
pub open spec fn out_pos(i: int, k: int) -> int {
    if k < i {
        k
    } else {
        k - 1
    }
}

/// With a single marked variant, at `i`, whose fields `t` are named, the
/// expansion is the other variants in their order, each with `t` merged in.
pub proof fn lemma_single_template(vs: Seq<VariantView>, i: int, t: NamedFieldsView)
    requires
        0 <= i < vs.len(),
        is_template(vs[i]),
        vs[i].fields == FieldsView::Named(t),
        forall|k: int| 0 <= k < vs.len() && k != i ==> !is_template(#[trigger] vs[k]),
    ensures
        expansion(vs) == Ok::<Seq<VariantView>, ExpandError>(
            vs.remove(i).map_values(|v: VariantView| merged_variant(t, v)),
        ),
{
    lemma_first_unique(vs, i);
    if has_template_from(vs, i + 1) {
        let j = choose|j: int| i + 1 <= j < vs.len() && is_template(#[trigger] vs[j]);
        assert(!is_template(vs[j]));
    }
}

/// An enum with no marked variant comes back unchanged.
pub proof fn lemma_no_template_pass_through(vs: Seq<VariantView>)
    requires
        forall|k: int| 0 <= k < vs.len() ==> !is_template(#[trigger] vs[k]),
    ensures
        expansion(vs) == Ok::<Seq<VariantView>, ExpandError>(vs),
{
    if has_template_from(vs, 0) {
        let j = choose|j: int| 0 <= j < vs.len() && is_template(#[trigger] vs[j]);
        assert(!is_template(vs[j]));
    }
}

/// A marked variant with named fields `t` and one unit variant: the result is
/// that variant alone, now holding exactly the fields `t`.
pub proof fn lemma_template_into_unit(vs: Seq<VariantView>, i: int, t: NamedFieldsView)
    requires
        vs.len() == 2,
        0 <= i < 2,
        is_template(vs[i]),
        vs[i].fields == FieldsView::Named(t),
        !is_template(vs[1 - i]),
        vs[1 - i].fields == FieldsView::Unit,
    ensures
        expansion(vs) == Ok::<Seq<VariantView>, ExpandError>(
            seq![VariantView { fields: FieldsView::Named(t), ..vs[1 - i] }],
        ),
{
    lemma_single_template(vs, i, t);
    let out = vs.remove(i).map_values(|v: VariantView| merged_variant(t, v));
    assert(out =~= seq![VariantView { fields: FieldsView::Named(t), ..vs[1 - i] }]);
}

/// A variant with named fields keeps its own fields first, followed by the
/// template's fields in the template's order.
pub proof fn lemma_named_appends(vs: Seq<VariantView>, i: int, t: NamedFieldsView, k: int)
    requires
        0 <= i < vs.len(),
        is_template(vs[i]),
        vs[i].fields == FieldsView::Named(t),
        forall|m: int| 0 <= m < vs.len() && m != i ==> !is_template(#[trigger] vs[m]),
        0 <= k < vs.len(),
        k != i,
        vs[k].fields is Named,
    ensures
        expansion(vs) matches Ok(out) && out[out_pos(i, k)].fields == FieldsView::Named(
            NamedFieldsView {
                brace: vs[k].fields->Named_0.brace,
                named: vs[k].fields->Named_0.named + t.named,
            },
        ),
{
    lemma_single_template(vs, i, t);
    assert(vs.remove(i)[out_pos(i, k)] == vs[k]);
}

/// A variant with tuple fields comes out exactly as it went in.
pub proof fn lemma_unnamed_untouched(vs: Seq<VariantView>, i: int, t: NamedFieldsView, k: int)
    requires
        0 <= i < vs.len(),
        is_template(vs[i]),
        vs[i].fields == FieldsView::Named(t),
        forall|m: int| 0 <= m < vs.len() && m != i ==> !is_template(#[trigger] vs[m]),
        0 <= k < vs.len(),
        k != i,
        vs[k].fields is Unnamed,
    ensures
        expansion(vs) matches Ok(out) && out[out_pos(i, k)] == vs[k],
{
    lemma_single_template(vs, i, t);
    assert(vs.remove(i)[out_pos(i, k)] == vs[k]);
}

/// Two marked variants, the first of them with named fields: the expansion
/// fails with `DuplicateTemplate` on the second.
pub proof fn lemma_duplicate_rejected(vs: Seq<VariantView>, i: int, j: int)
    requires
        0 <= i < j < vs.len(),
        is_template(vs[i]),
        is_template(vs[j]),
        vs[i].fields is Named,
        forall|k: int| 0 <= k < vs.len() && k != i && k != j ==> !is_template(#[trigger] vs[k]),
    ensures
        expansion(vs) == Err::<Seq<VariantView>, ExpandError>(ExpandError::DuplicateTemplate(j as usize)),
{
    lemma_first_unique(vs, i);
    assert(has_template_from(vs, i + 1));
    lemma_next_unique(vs, i, j);
}

/// The first marked variant without named fields makes the expansion fail
/// with `TemplateNotNamed` on it.
pub proof fn lemma_not_named_rejected(vs: Seq<VariantView>, i: int)
    requires
        first_template(vs, i),
        !(vs[i].fields is Named),
    ensures
        expansion(vs) == Err::<Seq<VariantView>, ExpandError>(ExpandError::TemplateNotNamed(i as usize)),
{
    lemma_first_unique(vs, i);
}

} // verus!
