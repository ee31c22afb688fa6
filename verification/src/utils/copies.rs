//! Copies of values that hold text, with what the copy holds stated.

use vstd::prelude::*;

verus! {

/// What a result says: what its value says, or what its error says.
pub open spec fn result_view<T: DeepView, E: DeepView>(r: Result<T, E>) -> Result<T::V, E::V> {
    match r {
        Ok(value) => Ok(value.deep_view()),
        Err(error) => Err(error.deep_view()),
    }
}

/// What a list says once an item is added to its end.
pub proof fn lemma_push_deep_view<T: DeepView>(before: Vec<T>, after: Vec<T>, item: T)
    requires
        after@ == before@.push(item),
    ensures
        after.deep_view() == before.deep_view().push(item.deep_view()),
{
    assert(after.deep_view() =~= before.deep_view().push(item.deep_view()));
}

/// A copy of `value`.
pub fn copy_text(value: &Option<String>) -> (r: Option<String>)
    ensures
        r.deep_view() == value.deep_view(),
{
    match value {
        Some(text) => Some(text.clone()),
        None => None,
    }
}

/// A copy of `values`.
pub fn copy_texts(values: &Vec<String>) -> (r: Vec<String>)
    ensures
        r.deep_view() == values.deep_view(),
{
    let mut out: Vec<String> = Vec::with_capacity(values.len());
    let mut i: usize = 0;
    while i < values.len()
        invariant
            i <= values.len(),
            out.len() == i,
            out.deep_view() == values.deep_view().subrange(0, i as int),
        decreases values.len() - i,
    {
        out.push(values[i].clone());
        assert(out.deep_view() =~= values.deep_view().subrange(0, i + 1));
        i += 1;
    }
    assert(values.deep_view().subrange(0, i as int) =~= values.deep_view());
    out
}

/// A copy of `pairs`.
pub fn copy_pairs(pairs: &Vec<(String, String)>) -> (r: Vec<(String, String)>)
    ensures
        r.deep_view() == pairs.deep_view(),
{
    let mut out: Vec<(String, String)> = Vec::with_capacity(pairs.len());
    let mut i: usize = 0;
    while i < pairs.len()
        invariant
            i <= pairs.len(),
            out.len() == i,
            out.deep_view() == pairs.deep_view().subrange(0, i as int),
        decreases pairs.len() - i,
    {
        out.push((pairs[i].0.clone(), pairs[i].1.clone()));
        assert(out.deep_view() =~= pairs.deep_view().subrange(0, i + 1));
        i += 1;
    }
    assert(pairs.deep_view().subrange(0, i as int) =~= pairs.deep_view());
    out
}

} // verus!
