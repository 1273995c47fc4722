use vstd::prelude::*;

verus! {

use crate::attribute::{
    av_index_of, av_contains, av_vals, spec_add_attr, spec_swap_remove_at, lemma_av_index_of,
    lemma_av_index_of_is, spec_merge_one, spec_display_items,
};
use crate::value::JsonView;
use crate::definition::Definition;
use crate::renderer::{spec_render_wrap, spec_to_output_string};

// The general laws of the library, stated once and proved from the
// contracts the functions themselves carry.

/// Adding class values twice accumulates: after adding `x` and then `y`
/// under the class name, the class value list reads x then y.
pub proof fn lemma_class_accumulates(a: Seq<(Seq<char>, Seq<Seq<char>>)>, x: Seq<char>, y: Seq<char>)
    requires
        !av_contains(a, "class"@),
    ensures
        av_vals(
            spec_add_attr(spec_add_attr(a, "class"@, seq![x]), "class"@, seq![y]),
            "class"@,
        ) =~= seq![x, y],
{
    lemma_av_index_of(a, "class"@);
    let a1 = spec_add_attr(a, "class"@, seq![x]);
    assert(a1 == a.push(("class"@, seq![x])));
    lemma_av_index_of_is(a1, "class"@, a.len() as int);
    let a2 = spec_add_attr(a1, "class"@, seq![y]);
    assert(a2 == a1.update(a.len() as int, ("class"@, seq![x] + seq![y])));
    lemma_av_index_of_is(a2, "class"@, a.len() as int);
    assert(seq![x] + seq![y] =~= seq![x, y]);
}

/// Re-adding any other attribute replaces it: after adding `x` and then
/// `y` under a name that is neither class nor style, only y remains.
pub proof fn lemma_attribute_replaces(
    a: Seq<(Seq<char>, Seq<Seq<char>>)>,
    name: Seq<char>,
    x: Seq<char>,
    y: Seq<char>,
)
    requires
        name != "class"@,
        name != "style"@,
        !av_contains(a, name),
    ensures
        av_vals(spec_add_attr(spec_add_attr(a, name, seq![x]), name, seq![y]), name) =~= seq![y],
{
    lemma_av_index_of(a, name);
    let a1 = spec_add_attr(a, name, seq![x]);
    assert(a1 == a.push((name, seq![x])));
    lemma_av_index_of_is(a1, name, a.len() as int);
    let removed = spec_swap_remove_at(a1, a.len() as int);
    assert(removed =~= a);
    lemma_av_index_of(removed, name);
    let a2 = spec_add_attr(a1, name, seq![y]);
    assert(a2 =~= a.push((name, seq![y])));
    lemma_av_index_of_is(a2, name, a.len() as int);
}

/// Merge is asymmetric: merging a list value into an existing scalar
/// attribute puts the new values first and the old value last.
pub proof fn lemma_merge_list_into_scalar(
    a: Seq<(Seq<char>, Seq<Seq<char>>)>,
    k: Seq<char>,
    old_val: Seq<char>,
    items: Seq<JsonView>,
)
    requires
        k != "class"@,
        k != "style"@,
        av_contains(a, k),
        av_vals(a, k) == seq![old_val],
        forall|j: int| 0 <= j < a.len() && j != av_index_of(a, k) ==> a[j].0 != k,
    ensures
        av_vals(spec_merge_one(a, k, JsonView::Array(items)), k) =~= spec_display_items(
            items,
        ).push(old_val),
{
    lemma_av_index_of(a, k);
    let i = av_index_of(a, k);
    let merged = spec_merge_one(a, k, JsonView::Array(items));
    let nv = spec_display_items(items) + av_vals(a, k);
    assert(merged == spec_add_attr(a, k, nv));
    let removed = spec_swap_remove_at(a, i);
    assert(forall|j: int| 0 <= j < removed.len() ==> #[trigger] removed[j].0 != k) by {
        assert(forall|j: int|
            0 <= j < removed.len() ==> removed[j] == a.update(i, a.last())[j]);
    }
    lemma_av_index_of(removed, k);
    if av_contains(removed, k) {
        assert(removed[av_index_of(removed, k)].0 == k);
    }
    assert(merged == removed.push((k, nv)));
    lemma_av_index_of_is(merged, k, removed.len() as int);
    assert(nv =~= spec_display_items(items).push(old_val));
}

/// Merge is asymmetric for scalars too: merging a string value into an
/// existing scalar attribute puts the new value first and keeps the
/// existing value after it.
pub proof fn lemma_merge_scalar_into_scalar(
    a: Seq<(Seq<char>, Seq<Seq<char>>)>,
    k: Seq<char>,
    old_val: Seq<char>,
    s: Seq<char>,
)
    requires
        k != "class"@,
        k != "style"@,
        av_contains(a, k),
        av_vals(a, k) == seq![old_val],
        forall|j: int| 0 <= j < a.len() && j != av_index_of(a, k) ==> a[j].0 != k,
    ensures
        av_vals(spec_merge_one(a, k, JsonView::Str(s)), k) =~= seq![s, old_val],
{
    lemma_av_index_of(a, k);
    let i = av_index_of(a, k);
    let merged = spec_merge_one(a, k, JsonView::Str(s));
    let nv = seq![s] + av_vals(a, k);
    assert(merged == spec_add_attr(a, k, nv));
    let removed = spec_swap_remove_at(a, i);
    assert(forall|j: int| 0 <= j < removed.len() ==> #[trigger] removed[j].0 != k) by {
        assert(forall|j: int|
            0 <= j < removed.len() ==> removed[j] == a.update(i, a.last())[j]);
    }
    lemma_av_index_of(removed, k);
    if av_contains(removed, k) {
        assert(removed[av_index_of(removed, k)].0 == k);
    }
    assert(merged == removed.push((k, nv)));
    lemma_av_index_of_is(merged, k, removed.len() as int);
    assert(nv =~= seq![s, old_val]);
}

/// Rendering is deterministic: two renders of the same payload with the
/// same design system definition and format read the same.
pub proof fn lemma_render_deterministic(
    v: JsonView,
    def: Definition,
    fmt: Seq<char>,
    r1: Seq<char>,
    r2: Seq<char>,
)
    requires
        r1 == spec_to_output_string(spec_render_wrap(v, def), fmt),
        r2 == spec_to_output_string(spec_render_wrap(v, def), fmt),
    ensures
        r1 == r2,
{
}

} // verus!
