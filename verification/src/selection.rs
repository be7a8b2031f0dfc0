//! Which instances are upgraded, and which of them together.
use crate::instance::{Instance, InstanceView};
use crate::options::{ToDo, ToDoView};
use crate::order::{
    compare_keys, key_less, law_key_order_is_strict, law_key_order_is_total,
    law_key_order_is_transitive, KeyOrder,
};
use vstd::prelude::*;
use vstd::string::StringExecFns;

verus! {

/// The instance is one of those that are to be upgraded.
pub open spec fn wanted(todo: ToDoView, instance: InstanceView) -> bool {
    match todo {
        ToDoView::MinorUpgrade => !instance.meta.nightly,
        ToDoView::NightlyUpgrade => instance.meta.nightly,
        ToDoView::InstanceUpgrade(name, _) => instance.name == name,
    }
}

/// The instances that are to be upgraded, in the order they were found.
pub open spec fn selected(todo: ToDoView, all: Seq<InstanceView>) -> Seq<InstanceView> {
    all.filter(|one: InstanceView| wanted(todo, one))
}

/// Whether the instance is one of those that are to be upgraded.
fn is_wanted(todo: &ToDo, instance: &Instance) -> (yes: bool)
    ensures
        yes == wanted(todo@, instance@),
{
    match todo {
        ToDo::MinorUpgrade => !instance.meta.nightly,
        ToDo::NightlyUpgrade => instance.meta.nightly,
        ToDo::InstanceUpgrade(name, _) => instance.name == *name,
    }
}

/// The instances that are to be upgraded, in the order they were found.
pub fn get_instances(todo: &ToDo, all: &Vec<Instance>) -> (instances: Vec<Instance>)
    ensures
        instances.deep_view() == selected(todo@, all.deep_view()),
{
    let mut instances: Vec<Instance> = Vec::new();
    let mut i: usize = 0;
    let ghost keep = |one: InstanceView| wanted(todo@, one);
    proof {
        reveal(Seq::filter);
        assert(all.deep_view().take(0).filter(keep) == Seq::<InstanceView>::empty());
        assert(instances.deep_view() == Seq::<InstanceView>::empty());
    }
    while i < all.len()
        invariant
            i <= all.len(),
            keep == (|one: InstanceView| wanted(todo@, one)),
            instances.deep_view() == all.deep_view().take(i as int).filter(keep),
        decreases all.len() - i,
    {
        let ghost before = instances.deep_view();
        let ghost found = all.deep_view().take(i as int);
        proof {
            assert(all.deep_view().take(i + 1) == found.push(all[i as int]@));
            found.lemma_filter_push(all[i as int]@, keep);
        }
        if is_wanted(todo, &all[i]) {
            instances.push(all[i].clone());
            assert(instances.deep_view() =~= before.push(all[i as int]@));
        }
        i = i + 1;
    }
    assert(all.deep_view().take(i as int) == all.deep_view());
    instances
}

/// The names of the instances, with commas between them.
pub open spec fn joined_names(instances: Seq<InstanceView>) -> Seq<char>
    decreases instances.len(),
{
    if instances.len() == 0 {
        Seq::empty()
    } else if instances.len() == 1 {
        instances[0].name
    } else {
        joined_names(instances.drop_last()) + ", "@ + instances.last().name
    }
}

/// The names of the instances, with commas between them.
pub fn join_names(instances: &Vec<Instance>) -> (names: String)
    ensures
        names@ == joined_names(instances.deep_view()),
{
    let mut names = String::new();
    let mut i: usize = 0;
    while i < instances.len()
        invariant
            i <= instances.len(),
            names@ == joined_names(instances.deep_view().take(i as int)),
        decreases instances.len() - i,
    {
        proof {
            let part = instances.deep_view().take(i + 1);
            assert(part.drop_last() == instances.deep_view().take(i as int));
            assert(part.last() == instances[i as int]@);
        }
        if i > 0 {
            names.append(", ");
        }
        names.append(instances[i].name.as_str());
        assert(i == 0 ==> names@ =~= instances[i as int]@.name);
        i = i + 1;
    }
    assert(instances.deep_view().take(i as int) == instances.deep_view());
    names
}

/// What instances are put together by.
#[derive(Clone, Copy, Debug, PartialEq, Eq, Structural)]
pub enum Grouping {
    /// The way they are installed.
    Method,
    /// Their major version.
    Major,
}

/// What the instance is put in its place by.
pub open spec fn sort_key(instance: InstanceView, by: Grouping) -> Seq<u64> {
    match by {
        Grouping::Method => instance.meta.method.key,
        Grouping::Major => instance.meta.version.key,
    }
}

/// The groups with one more instance: in the group of its key, at the end, or
/// in a new group that stands in its place among the others.
pub open spec fn with_instance(
    groups: Seq<Seq<InstanceView>>,
    instance: InstanceView,
    by: Grouping,
) -> Seq<Seq<InstanceView>>
    decreases groups.len(),
{
    if groups.len() == 0 {
        seq![seq![instance]]
    } else {
        let key = sort_key(instance, by);
        let first = sort_key(groups[0][0], by);
        if key == first {
            groups.update(0, groups[0].push(instance))
        } else if key_less(key, first) {
            seq![seq![instance]] + groups
        } else {
            seq![groups[0]] + with_instance(groups.drop_first(), instance, by)
        }
    }
}

/// The instances, put together by key.
pub open spec fn grouped(instances: Seq<InstanceView>, by: Grouping) -> Seq<Seq<InstanceView>>
    decreases instances.len(),
{
    if instances.len() == 0 {
        seq![]
    } else {
        with_instance(grouped(instances.drop_last(), by), instances.last(), by)
    }
}

/// What the instance is put in its place by.
fn key_of(instance: &Instance, by: Grouping) -> (key: &Vec<u64>)
    ensures
        key@ == sort_key(instance@, by),
{
    match by {
        Grouping::Method => &instance.meta.method.key,
        Grouping::Major => &instance.meta.version.key,
    }
}

/// Adds an instance to the groups.
fn add_instance(groups: &mut Vec<Vec<Instance>>, instance: Instance, by: Grouping)
    requires
        forall|i: int| 0 <= i < old(groups).len() ==> (#[trigger] old(groups)[i]).len() > 0,
    ensures
        final(groups).deep_view() == with_instance(old(groups).deep_view(), instance@, by),
        forall|i: int| 0 <= i < final(groups).len() ==> (#[trigger] final(groups)[i]).len() > 0,
{
    let mut i: usize = 0;
    let ghost before = groups.deep_view();
    assert(before.skip(0) == before);
    assert(before.take(0) + with_instance(before, instance@, by) == with_instance(
        before,
        instance@,
        by,
    ));
    while i < groups.len()
        invariant
            i <= groups.len(),
            groups.deep_view() == before,
            *groups == *old(groups),
            forall|j: int| 0 <= j < groups.len() ==> (#[trigger] groups[j]).len() > 0,
            with_instance(before, instance@, by) == before.take(i as int) + with_instance(
                before.skip(i as int),
                instance@,
                by,
            ),
        ensures
            with_instance(before.skip(i as int), instance@, by) == seq![seq![instance@]]
                + before.skip(i as int),
        decreases groups.len() - i,
    {
        let ghost rest = before.skip(i as int);
        assert(rest[0] == groups[i as int].deep_view());
        assert(rest[0][0] == groups[i as int][0]@);
        match compare_keys(key_of(&instance, by), key_of(&groups[i][0], by)) {
            KeyOrder::Equal => {
                let mut group = groups.remove(i);
                let ghost members = group.deep_view();
                group.push(instance);
                assert(group.deep_view() =~= members.push(instance@));
                groups.insert(i, group);
                assert(groups.deep_view() =~= before.take(i as int) + rest.update(
                    0,
                    rest[0].push(instance@),
                ));
                return;
            },
            KeyOrder::Less => {
                proof { law_key_order_is_strict(sort_key(instance@, by), sort_key(rest[0][0], by)); }
                break;
            },
            KeyOrder::Greater => {
                proof {
                    law_key_order_is_strict(sort_key(instance@, by), sort_key(rest[0][0], by));
                    assert(rest.drop_first() == before.skip(i + 1));
                    assert(before.take(i as int) + (seq![rest[0]] + with_instance(
                        rest.drop_first(),
                        instance@,
                        by,
                    )) == before.take(i + 1) + with_instance(before.skip(i + 1), instance@, by));
                }
                i = i + 1;
            },
        }
    }
    let mut group: Vec<Instance> = Vec::new();
    group.push(instance);
    assert(group.deep_view() =~= seq![instance@]);
    groups.insert(i, group);
    assert(groups.deep_view() =~= before.take(i as int) + (seq![seq![instance@]] + before.skip(
        i as int,
    )));
}

/// Puts the instances together by key: the groups in the order of their keys,
/// the instances of each group in the order they came.
pub fn group_instances(instances: Vec<Instance>, by: Grouping) -> (groups: Vec<Vec<Instance>>)
    ensures
        groups.deep_view() == grouped(instances.deep_view(), by),
        forall|i: int| 0 <= i < groups.len() ==> (#[trigger] groups[i]).len() > 0,
{
    let mut groups: Vec<Vec<Instance>> = Vec::new();
    let mut i: usize = 0;
    assert(groups.deep_view() =~= seq![]);
    while i < instances.len()
        invariant
            i <= instances.len(),
            groups.deep_view() == grouped(instances.deep_view().take(i as int), by),
            forall|j: int| 0 <= j < groups.len() ==> (#[trigger] groups[j]).len() > 0,
        decreases instances.len() - i,
    {
        proof {
            let part = instances.deep_view().take(i + 1);
            assert(part.drop_last() == instances.deep_view().take(i as int));
            assert(part.last() == instances[i as int]@);
        }
        add_instance(&mut groups, instances[i].clone(), by);
        i = i + 1;
    }
    assert(instances.deep_view().take(i as int) == instances.deep_view());
    groups
}

/// The key of a group: that of its first instance.
pub open spec fn group_key(group: Seq<InstanceView>, by: Grouping) -> Seq<u64> {
    sort_key(group[0], by)
}

/// No group is empty, and each comes before those that follow it.
pub open spec fn in_key_order(groups: Seq<Seq<InstanceView>>, by: Grouping) -> bool {
    &&& forall|i: int| 0 <= i < groups.len() ==> (#[trigger] groups[i]).len() > 0
    &&& forall|i: int, j: int|
        0 <= i < j < groups.len() ==> key_less(
            group_key(#[trigger] groups[i], by),
            group_key(#[trigger] groups[j], by),
        )
}

/// The instances that have the key, in the order they came.
pub open spec fn having_key(
    instances: Seq<InstanceView>,
    key: Seq<u64>,
    by: Grouping,
) -> Seq<InstanceView> {
    instances.filter(|one: InstanceView| sort_key(one, by) == key)
}

/// The first group that has the key, or no instance.
spec fn group_with(groups: Seq<Seq<InstanceView>>, key: Seq<u64>, by: Grouping) -> Seq<
    InstanceView,
>
    decreases groups.len(),
{
    if groups.len() == 0 {
        seq![]
    } else if group_key(groups[0], by) == key {
        groups[0]
    } else {
        group_with(groups.drop_first(), key, by)
    }
}

proof fn lemma_group_with_is_found(groups: Seq<Seq<InstanceView>>, key: Seq<u64>, by: Grouping)
    ensures
        group_with(groups, key, by).len() > 0 ==> exists|i: int|
            0 <= i < groups.len() && #[trigger] groups[i] == group_with(groups, key, by)
                && group_key(groups[i], by) == key,
        (forall|i: int| 0 <= i < groups.len() ==> group_key(#[trigger] groups[i], by) != key)
            ==> group_with(groups, key, by).len() == 0,
    decreases groups.len(),
{
    if groups.len() > 0 && group_key(groups[0], by) != key {
        let rest = groups.drop_first();
        lemma_group_with_is_found(rest, key, by);
        if group_with(rest, key, by).len() > 0 {
            let i = choose|i: int|
                0 <= i < rest.len() && #[trigger] rest[i] == group_with(rest, key, by)
                    && group_key(rest[i], by) == key;
            assert(groups[i + 1] == rest[i]);
        }
        assert(forall|i: int| 0 <= i < rest.len() ==> #[trigger] rest[i] == groups[i + 1]);
    }
}

proof fn lemma_group_with_own_key(groups: Seq<Seq<InstanceView>>, i: int, by: Grouping)
    requires
        in_key_order(groups, by),
        0 <= i < groups.len(),
    ensures
        group_with(groups, group_key(groups[i], by), by) == groups[i],
    decreases groups.len(),
{
    if i > 0 {
        law_key_order_is_strict(group_key(groups[0], by), group_key(groups[i], by));
        assert(key_less(group_key(groups[0], by), group_key(groups[i], by)));
        let rest = groups.drop_first();
        assert(forall|k: int| 0 <= k < rest.len() ==> #[trigger] rest[k] == groups[k + 1]);
        lemma_group_with_own_key(rest, i - 1, by);
    }
}

proof fn lemma_with_instance(
    groups: Seq<Seq<InstanceView>>,
    instance: InstanceView,
    key: Seq<u64>,
    by: Grouping,
)
    requires
        in_key_order(groups, by),
    ensures
        in_key_order(with_instance(groups, instance, by), by),
        forall|i: int|
            0 <= i < with_instance(groups, instance, by).len() ==> group_key(
                #[trigger] with_instance(groups, instance, by)[i],
                by,
            ) == sort_key(instance, by) || exists|j: int|
                0 <= j < groups.len() && group_key(#[trigger] groups[j], by) == group_key(
                    with_instance(groups, instance, by)[i],
                    by,
                ),
        group_with(with_instance(groups, instance, by), key, by) == if key == sort_key(
            instance,
            by,
        ) {
            group_with(groups, key, by).push(instance)
        } else {
            group_with(groups, key, by)
        },
    decreases groups.len(),
{
    let result = with_instance(groups, instance, by);
    let own = sort_key(instance, by);
    if groups.len() == 0 {
        assert(result.drop_first() == groups);
        assert(seq![instance] =~= Seq::<InstanceView>::empty().push(instance));
    } else {
        let first = group_key(groups[0], by);
        let rest = groups.drop_first();
        assert forall|k: int| 0 <= k < rest.len() implies #[trigger] rest[k] == groups[k + 1] by {}
        if own == first {
            assert(result.drop_first() == rest);
            assert forall|i: int| 0 <= i < result.len() implies group_key(
                #[trigger] result[i],
                by,
            ) == group_key(groups[i], by) by {}
        } else if key_less(own, first) {
            assert(result.drop_first() == groups);
            assert forall|i: int| 0 <= i < groups.len() implies key_less(
                own,
                group_key(#[trigger] groups[i], by),
            ) by {
                if i > 0 {
                    law_key_order_is_transitive(own, first, group_key(groups[i], by));
                }
            }
            assert forall|i: int| 0 <= i < groups.len() implies group_key(
                #[trigger] groups[i],
                by,
            ) != own by {
                law_key_order_is_strict(own, own);
            }
            lemma_group_with_is_found(groups, own, by);
            assert(seq![instance] =~= group_with(groups, own, by).push(instance));
            assert forall|i: int| 1 <= i < result.len() implies #[trigger] result[i] == groups[i
                - 1] by {}
        } else {
            law_key_order_is_total(own, first);
            lemma_with_instance(rest, instance, key, by);
            let tail = with_instance(rest, instance, by);
            assert(result.drop_first() == tail);
            assert forall|i: int| 1 <= i < result.len() implies #[trigger] result[i] == tail[i
                - 1] by {}
            assert forall|i: int| 0 <= i < tail.len() implies key_less(
                first,
                group_key(#[trigger] tail[i], by),
            ) by {
                if group_key(tail[i], by) != own {
                    let j = choose|j: int|
                        0 <= j < rest.len() && group_key(#[trigger] rest[j], by) == group_key(
                            tail[i],
                            by,
                        );
                    assert(rest[j] == groups[j + 1]);
                }
            }
            assert forall|i: int| 0 <= i < result.len() implies group_key(
                #[trigger] result[i],
                by,
            ) == own || exists|j: int|
                0 <= j < groups.len() && group_key(#[trigger] groups[j], by) == group_key(
                    result[i],
                    by,
                ) by {
                if i > 0 && group_key(tail[i - 1], by) != own {
                    let j = choose|j: int|
                        0 <= j < rest.len() && group_key(#[trigger] rest[j], by) == group_key(
                            tail[i - 1],
                            by,
                        );
                    assert(group_key(groups[j + 1], by) == group_key(result[i], by));
                }
            }
        }
    }
}

proof fn lemma_grouped(instances: Seq<InstanceView>, key: Seq<u64>, by: Grouping)
    ensures
        in_key_order(grouped(instances, by), by),
        group_with(grouped(instances, by), key, by) == having_key(instances, key, by),
    decreases instances.len(),
{
    let keep = |one: InstanceView| sort_key(one, by) == key;
    if instances.len() == 0 {
        reveal(Seq::filter);
        assert(having_key(instances, key, by) =~= seq![]);
    } else {
        let before = instances.drop_last();
        lemma_grouped(before, key, by);
        lemma_with_instance(grouped(before, by), instances.last(), key, by);
        before.lemma_filter_push(instances.last(), keep);
        assert(before.push(instances.last()) == instances);
    }
}

/// The groups stand in the order of their keys, no key has two groups, and each
/// group holds exactly the instances of its key, in the order they came.
pub proof fn law_groups_are_by_key(instances: Seq<InstanceView>, by: Grouping)
    ensures
        in_key_order(grouped(instances, by), by),
        forall|i: int|
            0 <= i < grouped(instances, by).len() ==> #[trigger] grouped(instances, by)[i]
                == having_key(instances, group_key(grouped(instances, by)[i], by), by),
{
    let groups = grouped(instances, by);
    lemma_grouped(instances, seq![], by);
    assert forall|i: int| 0 <= i < groups.len() implies #[trigger] groups[i] == having_key(
        instances,
        group_key(groups[i], by),
        by,
    ) by {
        lemma_grouped(instances, group_key(groups[i], by), by);
        lemma_group_with_own_key(groups, i, by);
    }
}

/// Every instance stands in a group.
pub proof fn law_every_instance_is_grouped(
    instances: Seq<InstanceView>,
    instance: InstanceView,
    by: Grouping,
)
    requires
        instances.contains(instance),
    ensures
        exists|i: int|
            0 <= i < grouped(instances, by).len() && (#[trigger] grouped(
                instances,
                by,
            )[i]).contains(instance),
{
    let key = sort_key(instance, by);
    let keep = |one: InstanceView| sort_key(one, by) == key;
    lemma_grouped(instances, key, by);
    instances.lemma_filter_contains(keep, instances.index_of(instance));
    lemma_group_with_is_found(grouped(instances, by), key, by);
}

/// Every instance is upgraded by exactly one of the two upgrades without a
/// name.
pub proof fn law_every_instance_has_one_upgrade(all: Seq<InstanceView>, instance: InstanceView)
    requires
        all.contains(instance),
    ensures
        selected(ToDoView::MinorUpgrade, all).contains(instance) <==> !selected(
            ToDoView::NightlyUpgrade,
            all,
        ).contains(instance),
        selected(ToDoView::MinorUpgrade, all).contains(instance) <==> !instance.meta.nightly,
{
    law_selected_are_wanted(ToDoView::MinorUpgrade, all, instance);
    law_selected_are_wanted(ToDoView::NightlyUpgrade, all, instance);
}

/// Of the instances found, exactly those that are wanted are selected.
pub proof fn law_selected_are_wanted(
    todo: ToDoView,
    all: Seq<InstanceView>,
    instance: InstanceView,
)
    ensures
        selected(todo, all).contains(instance) <==> all.contains(instance) && wanted(
            todo,
            instance,
        ),
{
    let keep = |one: InstanceView| wanted(todo, one);
    if all.contains(instance) && wanted(todo, instance) {
        all.lemma_filter_contains(keep, all.index_of(instance));
    }
    if selected(todo, all).contains(instance) {
        all.lemma_filter_pred(keep, selected(todo, all).index_of(instance));
        all.lemma_filter_contains_rev(keep, instance);
    }
}

} // verus!
