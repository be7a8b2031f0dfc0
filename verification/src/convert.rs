//! Lists whose items are converted one by one.
use vstd::prelude::*;

verus! {

/// Converts every item of a list. `meaning` is what the conversion does to the
/// model of an item.
pub(crate) fn convert_all<A: DeepView, B: DeepView, F: Fn(A) -> B>(
    items: Vec<A>,
    convert: F,
    Ghost(meaning): Ghost<spec_fn(A::V) -> B::V>,
) -> (converted: Vec<B>)
    requires
        forall|i: int| 0 <= i < items.len() ==> call_requires(convert, (#[trigger] items[i],)),
        forall|item: A, result: B|
            call_ensures(convert, (item,), result) ==> result.deep_view() == meaning(
                item.deep_view(),
            ),
    ensures
        converted.deep_view() == items.deep_view().map_values(meaning),
{
    let ghost all = items@;
    let ghost goal = items.deep_view().map_values(meaning);
    let mut left = items;
    let mut converted: Vec<B> = Vec::new();
    assert(converted.deep_view() =~= goal.take(0));
    assert(all.skip(0) =~= all);
    while left.len() > 0
        invariant
            forall|i: int| 0 <= i < all.len() ==> call_requires(convert, (#[trigger] all[i],)),
            forall|item: A, result: B|
                call_ensures(convert, (item,), result) ==> result.deep_view() == meaning(
                    item.deep_view(),
                ),
            goal.len() == all.len(),
            forall|i: int| 0 <= i < all.len() ==> goal[i] == meaning((#[trigger] all[i]).deep_view()),
            left.len() + converted.len() == all.len(),
            left@ == all.skip(converted.len() as int),
            converted.deep_view() == goal.take(converted.len() as int),
        decreases left.len(),
    {
        let ghost before = converted.deep_view();
        let ghost n = converted.len() as int;
        assert(left[0] == all[n]);
        let item = left.remove(0);
        assert(left@ =~= all.skip(n + 1));
        let result = convert(item);
        converted.push(result);
        assert(converted.deep_view() =~= before.push(result.deep_view()));
        assert(goal.take(n + 1) =~= before.push(goal[n]));
    }
    assert(goal.take(converted.len() as int) =~= goal);
    converted
}

} // verus!
