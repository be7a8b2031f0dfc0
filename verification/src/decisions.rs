//! What is decided, spelled out over the fields that decide it.
use crate::instance::InstanceView;
use crate::listing::DirEntryView;
use crate::options::{ToDoView, UpgradeView};
use crate::order::{key_less, law_key_order_is_strict};
use crate::run::{by_major, by_method};
use crate::selection::{
    group_key, grouped, having_key, joined_names, law_every_instance_is_grouped,
    law_groups_are_by_key, law_selected_are_wanted, selected, sort_key, wanted, Grouping,
};
use crate::version::{
    installed_version, up_to_date, InstalledPackageView, VersionQueryView, VersionView,
};
use vstd::prelude::*;

verus! {

proof fn lemma_key_less_after(a: Seq<u64>, b: Seq<u64>, k: int)
    requires
        0 <= k <= a.len(),
        k <= b.len(),
        forall|i: int| 0 <= i < k ==> a[i] == b[i],
    ensures
        key_less(a, b) == key_less(a.skip(k), b.skip(k)),
    decreases k,
{
    if k == 0 {
        assert(a.skip(0) =~= a);
        assert(b.skip(0) =~= b);
    } else {
        let a1 = a.drop_first();
        let b1 = b.drop_first();
        assert(a[0] == b[0]);
        assert forall|i: int| 0 <= i < k - 1 implies a1[i] == b1[i] by {
            assert(a[i + 1] == b[i + 1]);
        }
        lemma_key_less_after(a1, b1, k - 1);
        assert(a1.skip(k - 1) =~= a.skip(k));
        assert(b1.skip(k - 1) =~= b.skip(k));
    }
}

/// Keys that agree up to a place are ordered by the first component in which
/// they differ, however far back that stands.
pub proof fn law_first_difference_decides(a: Seq<u64>, b: Seq<u64>, k: int)
    requires
        0 <= k < a.len(),
        k < b.len(),
        forall|i: int| 0 <= i < k ==> a[i] == b[i],
        a[k] != b[k],
    ensures
        key_less(a, b) <==> a[k] < b[k],
{
    lemma_key_less_after(a, b, k);
}

/// Of two keys of which one starts with the other, the shorter one comes first;
/// a key does not come before itself.
pub proof fn law_prefix_comes_first(a: Seq<u64>, b: Seq<u64>)
    requires
        a.len() <= b.len(),
        forall|i: int| 0 <= i < a.len() ==> a[i] == b[i],
    ensures
        key_less(a, b) <==> a.len() < b.len(),
        !key_less(b, a),
{
    let k = a.len() as int;
    lemma_key_less_after(a, b, k);
    lemma_key_less_after(b, a, k);
}

/// An upgrade is held to be up to date exactly if it is not forced, a version is
/// installed, and that version does not come before the one on offer.
pub proof fn law_up_to_date_goes_by_the_key(
    old_version: Option<VersionView>,
    new_version: VersionView,
    force: bool,
)
    ensures
        up_to_date(old_version, new_version, force) <==> {
            &&& !force
            &&& old_version is Some
            &&& !key_less(old_version->0.key, new_version.key)
        },
        old_version is Some && key_less(old_version->0.key, new_version.key) ==> !up_to_date(
            old_version,
            new_version,
            force,
        ),
{
}

/// An installed version whose key differs from that on offer first in a smaller
/// component is never up to date; one that differs first in a greater component
/// always is, unless the upgrade is forced.
pub proof fn law_any_component_can_make_a_version_older(
    old_version: VersionView,
    new_version: VersionView,
    k: int,
)
    requires
        0 <= k < old_version.key.len(),
        k < new_version.key.len(),
        forall|i: int| 0 <= i < k ==> old_version.key[i] == new_version.key[i],
        old_version.key[k] != new_version.key[k],
    ensures
        up_to_date(Some(old_version), new_version, false) <==> old_version.key[k]
            > new_version.key[k],
        !up_to_date(Some(old_version), new_version, true),
        old_version.at_least(new_version) <==> old_version.key[k] > new_version.key[k],
{
    law_first_difference_decides(old_version.key, new_version.key, k);
}

/// A version is at least another exactly if its key does not come before the
/// other's; what the versions are called has no part in it.
pub proof fn law_at_least_goes_by_the_key(one: VersionView, other: VersionView)
    ensures
        one.at_least(other) <==> !key_less(one.key, other.key),
        one.key == other.key ==> one.at_least(other) && other.at_least(one),
        one.at_least(other) || other.at_least(one),
{
    law_key_order_is_strict(one.key, other.key);
    law_prefix_comes_first(one.key, one.key);
}

/// The installed version is that of the first package that matches, whatever
/// packages come after it.
pub proof fn law_first_match_is_installed(packages: Seq<InstalledPackageView>, k: int)
    requires
        0 <= k < packages.len(),
        packages[k].matches,
        forall|i: int| 0 <= i < k ==> !(#[trigger] packages[i]).matches,
    ensures
        installed_version(packages) == Some(packages[k].full_version),
    decreases k,
{
    if k > 0 {
        assert(!packages[0].matches);
        let rest = packages.drop_first();
        assert forall|i: int| 0 <= i < k - 1 implies !(#[trigger] rest[i]).matches by {
            assert(rest[i] == packages[i + 1]);
        }
        law_first_match_is_installed(rest, k - 1);
    }
}

/// Where no package matches, no version is installed.
pub proof fn law_no_match_is_not_installed(packages: Seq<InstalledPackageView>)
    requires
        forall|i: int| 0 <= i < packages.len() ==> !(#[trigger] packages[i]).matches,
    ensures
        installed_version(packages) is None,
    decreases packages.len(),
{
    if packages.len() > 0 {
        assert(!packages[0].matches);
        let rest = packages.drop_first();
        assert forall|i: int| 0 <= i < rest.len() implies !(#[trigger] rest[i]).matches by {
            assert(rest[i] == packages[i + 1]);
        }
        law_no_match_is_not_installed(rest);
    }
}

/// A name asks for that instance alone, whatever else is asked for; without a
/// name, `nightly` alone decides between the two other upgrades.
pub proof fn law_options_decide_what_is_done(options: UpgradeView)
    ensures
        options.name is Some ==> {
            &&& options.todo() is InstanceUpgrade
            &&& options.todo()->InstanceUpgrade_0 == options.name->0
        },
        options.name is None && options.nightly ==> options.todo() is NightlyUpgrade,
        options.name is None && !options.nightly ==> options.todo() is MinorUpgrade,
        options.conflicting() <==> options.name is Some && options.nightly,
{
}

/// A named instance is upgraded to the nightly exactly if that is asked for,
/// and otherwise to the version that is asked for, or to the latest where none
/// is.
pub proof fn law_options_decide_the_version(options: UpgradeView)
    requires
        options.name is Some,
    ensures
        options.todo()->InstanceUpgrade_1 is Nightly <==> options.to_nightly,
        !options.to_nightly ==> options.todo()->InstanceUpgrade_1 == VersionQueryView::Stable(
            options.to_version,
        ),
{
}

/// For a named upgrade, whatever the version asked for, exactly the instances of
/// that name are selected, nightlies or not, in the order they were found.
pub proof fn law_name_alone_selects(
    name: Seq<char>,
    query: VersionQueryView,
    all: Seq<InstanceView>,
    instance: InstanceView,
)
    ensures
        selected(ToDoView::InstanceUpgrade(name, query), all).contains(instance)
            <==> all.contains(instance) && instance.name == name,
        selected(ToDoView::InstanceUpgrade(name, query), all) == all.filter(
            |one: InstanceView| one.name == name,
        ),
{
    let todo = ToDoView::InstanceUpgrade(name, query);
    law_selected_are_wanted(todo, all, instance);
    assert((|one: InstanceView| wanted(todo, one)) =~= (|one: InstanceView| one.name == name));
}

/// Without a name, exactly the nightlies are selected where they are asked for,
/// and exactly the others where they are not, in the order they were found,
/// whatever their names, versions and methods.
pub proof fn law_nightly_alone_selects(all: Seq<InstanceView>, instance: InstanceView)
    ensures
        selected(ToDoView::NightlyUpgrade, all).contains(instance) <==> all.contains(instance)
            && instance.meta.nightly,
        selected(ToDoView::MinorUpgrade, all).contains(instance) <==> all.contains(instance)
            && !instance.meta.nightly,
        selected(ToDoView::NightlyUpgrade, all) == all.filter(
            |one: InstanceView| one.meta.nightly,
        ),
        selected(ToDoView::MinorUpgrade, all) == all.filter(
            |one: InstanceView| !one.meta.nightly,
        ),
{
    law_selected_are_wanted(ToDoView::NightlyUpgrade, all, instance);
    law_selected_are_wanted(ToDoView::MinorUpgrade, all, instance);
    assert((|one: InstanceView| wanted(ToDoView::NightlyUpgrade, one)) =~= (|one: InstanceView|
        one.meta.nightly));
    assert((|one: InstanceView| wanted(ToDoView::MinorUpgrade, one)) =~= (|one: InstanceView|
        !one.meta.nightly));
}

/// An entry whose type cannot be determined ends the listing; otherwise it is
/// the instance of its name exactly if it is a directory and has a name that is
/// valid, and is passed over if not.
pub proof fn law_entries_are_told_apart(entry: DirEntryView)
    ensures
        entry.item() is Untyped <==> entry.is_dir is None,
        entry.item() is Candidate <==> entry.is_dir == Some(true) && entry.name is Some
            && entry.valid_name,
        entry.item() is Candidate ==> entry.name == Some(entry.item()->Candidate_0),
{
}

/// Names are joined in order, with a comma and a space between every two.
pub proof fn law_names_are_joined(instances: Seq<InstanceView>, last: InstanceView)
    ensures
        joined_names(seq![]).len() == 0,
        joined_names(seq![last]) == last.name,
        instances.len() > 0 ==> joined_names(instances.push(last)) == joined_names(instances)
            + seq![',', ' '] + last.name,
{
    reveal_strlit(", ");
    let more = instances.push(last);
    assert(more.drop_last() =~= instances);
    assert(", "@ =~= seq![',', ' ']);
}

/// The instances of a group by method are exactly those with the key of its
/// method, in the order they came; its method is that of the first of them; and
/// the groups stand in ascending order of their keys.
pub proof fn law_method_groups(instances: Seq<InstanceView>, i: int)
    requires
        0 <= i < by_method(instances).len(),
    ensures
        ({
            let group = by_method(instances)[i];
            &&& group.instances.len() > 0
            &&& group.method == group.instances[0].meta.method
            &&& group.instances == instances.filter(
                |one: InstanceView| one.meta.method.key == group.method.key,
            )
            &&& forall|j: int|
                i < j < by_method(instances).len() ==> key_less(
                    group.method.key,
                    (#[trigger] by_method(instances)[j]).method.key,
                )
        }),
{
    let by = Grouping::Method;
    let groups = grouped(instances, by);
    law_groups_are_by_key(instances, by);
    let key = by_method(instances)[i].method.key;
    assert(groups[i] == having_key(instances, group_key(groups[i], by), by));
    assert((|one: InstanceView| sort_key(one, by) == key) =~= (|one: InstanceView|
        one.meta.method.key == key));
    assert forall|j: int| i < j < by_method(instances).len() implies key_less(
        key,
        (#[trigger] by_method(instances)[j]).method.key,
    ) by {
        assert(key_less(group_key(groups[i], by), group_key(groups[j], by)));
    }
}

/// The instances of a group by major version are exactly those with the key of
/// its version, in the order they came; its version is that of the first of
/// them; and the groups stand in ascending order of their keys.
pub proof fn law_major_groups(instances: Seq<InstanceView>, i: int)
    requires
        0 <= i < by_major(instances).len(),
    ensures
        ({
            let group = by_major(instances)[i];
            &&& group.instances.len() > 0
            &&& group.version == group.instances[0].meta.version
            &&& group.instances == instances.filter(
                |one: InstanceView| one.meta.version.key == group.version.key,
            )
            &&& forall|j: int|
                i < j < by_major(instances).len() ==> key_less(
                    group.version.key,
                    (#[trigger] by_major(instances)[j]).version.key,
                )
        }),
{
    let by = Grouping::Major;
    let groups = grouped(instances, by);
    law_groups_are_by_key(instances, by);
    let key = by_major(instances)[i].version.key;
    assert(groups[i] == having_key(instances, group_key(groups[i], by), by));
    assert((|one: InstanceView| sort_key(one, by) == key) =~= (|one: InstanceView|
        one.meta.version.key == key));
    assert forall|j: int| i < j < by_major(instances).len() implies key_less(
        key,
        (#[trigger] by_major(instances)[j]).version.key,
    ) by {
        assert(key_less(group_key(groups[i], by), group_key(groups[j], by)));
    }
}

/// No instance is lost when instances are put together by method or by major
/// version.
pub proof fn law_no_instance_is_lost(instances: Seq<InstanceView>, instance: InstanceView)
    requires
        instances.contains(instance),
    ensures
        exists|i: int|
            0 <= i < by_method(instances).len() && (#[trigger] by_method(
                instances,
            )[i]).instances.contains(instance),
        exists|i: int|
            0 <= i < by_major(instances).len() && (#[trigger] by_major(
                instances,
            )[i]).instances.contains(instance),
{
    law_every_instance_is_grouped(instances, instance, Grouping::Method);
    let i = choose|i: int|
        0 <= i < grouped(instances, Grouping::Method).len() && (#[trigger] grouped(
            instances,
            Grouping::Method,
        )[i]).contains(instance);
    assert(by_method(instances)[i].instances.contains(instance));
    law_every_instance_is_grouped(instances, instance, Grouping::Major);
    let j = choose|j: int|
        0 <= j < grouped(instances, Grouping::Major).len() && (#[trigger] grouped(
            instances,
            Grouping::Major,
        )[j]).contains(instance);
    assert(by_major(instances)[j].instances.contains(instance));
}

} // verus!
