//! Classification of an enum's variants and the expansion of the template.

use vstd::prelude::*;

use crate::variant::{
    insert_field, is_common_part, is_template, merged_variant, Fields, FieldsView, NamedFields,
    NamedFieldsView, Variant, VariantView,
};

verus! {

/// Why an enum cannot be expanded. Each error holds the position, among the
/// input variants, of the variant it is about.
#[derive(Debug, Clone, Copy, PartialEq, Eq, Structural)]
pub enum ExpandError {
    /// A second variant carries the marker.
    DuplicateTemplate(usize),
    /// The marked variant does not have named fields.
    TemplateNotNamed(usize),
}

impl ExpandError {
    /// The position of the offending variant.
    pub fn index(&self) -> (r: usize)
        ensures
            r == match *self {
                ExpandError::DuplicateTemplate(i) => i,
                ExpandError::TemplateNotNamed(i) => i,
            },
    {
        match *self {
            ExpandError::DuplicateTemplate(i) => i,
            ExpandError::TemplateNotNamed(i) => i,
        }
    }

    /// The diagnostic text of the error.
    pub fn message(&self) -> (r: &'static str)
        ensures
            r@ == match *self {
                ExpandError::DuplicateTemplate(_) => "duplicate expand common target"@,
                ExpandError::TemplateNotNamed(_) => "expand common target is not a named variant"@,
            },
    {
        match *self {
            ExpandError::DuplicateTemplate(_) => "duplicate expand common target",
            ExpandError::TemplateNotNamed(_) => "expand common target is not a named variant",
        }
    }
}

/// The models of a sequence of variants.
pub open spec fn views(vs: Seq<Variant>) -> Seq<VariantView> {
    vs.map_values(|v: Variant| v@)
}

/// `i` is the position of the first template variant of `vs`.
pub open spec fn first_template(vs: Seq<VariantView>, i: int) -> bool {
    &&& 0 <= i < vs.len()
    &&& is_template(vs[i])
    &&& forall|k: int| 0 <= k < i ==> !is_template(#[trigger] vs[k])
}

/// `j` is the position of the first template variant of `vs` after `i`.
pub open spec fn next_template(vs: Seq<VariantView>, i: int, j: int) -> bool {
    &&& i < j < vs.len()
    &&& is_template(vs[j])
    &&& forall|k: int| i < k < j ==> !is_template(#[trigger] vs[k])
}

/// Some variant of `vs` at or after `lo` is a template.
pub open spec fn has_template_from(vs: Seq<VariantView>, lo: int) -> bool {
    exists|i: int| lo <= i < vs.len() && is_template(#[trigger] vs[i])
}

/// The result of expanding an enum whose variants are `vs`: with no marked
/// variant, `vs` unchanged; otherwise, when the first marked variant has named
/// fields and no other is marked, the other variants in their order, each with
/// those fields merged in; else the error on the offending variant.
pub open spec fn expansion(vs: Seq<VariantView>) -> Result<Seq<VariantView>, ExpandError> {
    if !has_template_from(vs, 0) {
        Ok(vs)
    } else {
        let i = choose|i: int| first_template(vs, i);
        match vs[i].fields {
            FieldsView::Named(t) => {
                if has_template_from(vs, i + 1) {
                    let j = choose|j: int| next_template(vs, i, j);
                    Err(ExpandError::DuplicateTemplate(j as usize))
                } else {
                    Ok(vs.remove(i).map_values(|v: VariantView| merged_variant(t, v)))
                }
            },
            _ => Err(ExpandError::TemplateNotNamed(i as usize)),
        }
    }
}

/// Expands an enum whose variants are `variants`: the first variant that
/// carries the marker is the template; it must have named fields and be the
/// only marked one. Its fields are merged into every other variant and it is
/// left out of the result.
pub fn enum_expand(variants: Vec<Variant>) -> (r: Result<Vec<Variant>, ExpandError>)
    ensures
        match r {
            Ok(out) => expansion(views(variants@)) == Ok::<Seq<VariantView>, ExpandError>(views(out@)),
            Err(e) => expansion(views(variants@)) == Err::<Seq<VariantView>, ExpandError>(e),
        },
{
    let ghost input = views(variants@);
    // The length as a `usize`, which bounds the position counter below.
    let len: usize = variants.len();
    let ghost n = len as int;
    let mut ordinary: Vec<Variant> = Vec::new();
    let mut common: Option<NamedFields> = None;
    let ghost mut at: int = 0;
    let mut idx: usize = 0;
    for variant in it: variants.into_iter()
        invariant
            it.seq() == variants@,
            input == views(variants@),
            n == input.len(),
            idx == it.index(),
            idx <= n,
            n <= usize::MAX,
            common is None ==> {
                &&& !has_template_from(input.take(idx as int), 0)
                &&& views(ordinary@) == input.take(idx as int)
            },
            common matches Some(t) ==> {
                &&& first_template(input, at)
                &&& at < idx
                &&& input[at].fields == FieldsView::Named(t@)
                &&& forall|k: int| at < k < idx ==> !is_template(#[trigger] input[k])
                &&& views(ordinary@) == input.take(idx as int).remove(at)
            },
    {
        assert(input[idx as int] == variant@);
        if is_common_part(&variant) {
            match common {
                Some(_) => {
                    proof {
                        assert(next_template(input, at, idx as int));
                        assert(has_template_from(input, at + 1));
                        lemma_first_unique(input, at);
                        lemma_next_unique(input, at, idx as int);
                    }
                    return Err(ExpandError::DuplicateTemplate(idx));
                },
                None => {
                    proof {
                        assert forall|k: int| 0 <= k < idx implies !is_template(#[trigger] input[k]) by {
                            assert(input.take(idx as int)[k] == input[k]);
                        }
                        assert(first_template(input, idx as int));
                        lemma_first_unique(input, idx as int);
                    }
                    match variant.fields {
                        Fields::Named(named) => {
                            proof {
                                at = idx as int;
                                assert(input.take(idx + 1).remove(at) == input.take(idx as int));
                            }
                            common = Some(named);
                        },
                        _ => {
                            return Err(ExpandError::TemplateNotNamed(idx));
                        },
                    }
                },
            }
        } else {
            proof {
                assert(views(ordinary@.push(variant)) == views(ordinary@).push(variant@));
                if common is None {
                    assert(input.take(idx + 1) == input.take(idx as int).push(variant@));
                    assert forall|i: int| 0 <= i < idx + 1 implies !is_template(#[trigger] input.take(idx + 1)[i]) by {
                        if i < idx {
                            assert(input.take(idx + 1)[i] == input.take(idx as int)[i]);
                        }
                    }
                } else {
                    assert(input.take(idx + 1).remove(at) == input.take(idx as int).remove(at).push(variant@));
                }
            }
            ordinary.push(variant);
        }
        idx = idx + 1;
    }
    proof {
        assert(input.take(idx as int) == input);
    }
    match common {
        None => Ok(ordinary),
        Some(template) => {
            proof {
                lemma_first_unique(input, at);
                assert(!has_template_from(input, at + 1));
            }
            let ghost before = views(ordinary@);
            let mut out: Vec<Variant> = Vec::new();
            for variant in it2: ordinary.into_iter()
                invariant
                    it2.seq() == ordinary@,
                    before == views(ordinary@),
                    views(out@) == before.take(it2.index() as int).map_values(
                        |v: VariantView| merged_variant(template@, v),
                    ),
            {
                let mut variant = variant;
                insert_field(&template, &mut variant.fields);
                proof {
                    let k = it2.index() as int;
                    assert(before.take(k + 1) == before.take(k).push(before[k]));
                    assert(views(out@.push(variant)) == views(out@).push(variant@));
                }
                out.push(variant);
            }
            proof {
                assert(before.take(before.len() as int) == before);
            }
            Ok(out)
        },
    }
}

/// The first template position is the one `choose` picks.
pub(crate) proof fn lemma_first_unique(vs: Seq<VariantView>, i: int)
    requires
        first_template(vs, i),
    ensures
        has_template_from(vs, 0),
        (choose|x: int| first_template(vs, x)) == i,
{
    let x = choose|x: int| first_template(vs, x);
    if x < i {
        assert(!is_template(vs[x]));
    } else if i < x {
        assert(!is_template(vs[i]));
    }
}

/// The next template position after `i` is the one `choose` picks.
pub(crate) proof fn lemma_next_unique(vs: Seq<VariantView>, i: int, j: int)
    requires
        next_template(vs, i, j),
    ensures
        has_template_from(vs, i + 1),
        (choose|x: int| next_template(vs, i, x)) == j,
{
    let x = choose|x: int| next_template(vs, i, x);
    if x < j {
        assert(!is_template(vs[x]));
    } else if j < x {
        assert(!is_template(vs[j]));
    }
}

} // verus!
