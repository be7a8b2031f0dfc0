//! What an upgrade within major versions installs, and that the order in which
//! instances are listed makes no difference to it.
use crate::course::{after_all, law_run_goes_on, lemma_server_end};
use crate::instance::{InstallMethodView, InstanceView};
use crate::options::{ToDoView, UpgradeView};
use crate::order::{key_less, law_key_order_is_strict};
use crate::requests::{InstallPlanView, SettingsView};
use crate::run::{by_major, method_jobs, OutcomeView, RunView};
use crate::script::{all_marked, in_turn, minor_jobs, minor_upgrade, start_part, stop_part};
use crate::selection::{
    group_key, grouped, having_key, law_every_instance_is_grouped, law_groups_are_by_key, sort_key,
    Grouping,
};
use crate::task::{ActionView, JobView, MajorGroupView, OpView, ReplyView, TaskView, WorkView};
use crate::version::{
    installed_version, up_to_date, PackageInfoView, VersionQueryView, VersionView,
};
use vstd::prelude::*;

verus! {

/// Instances whose major versions have the same key have the same major
/// version.
pub open spec fn keys_tell_versions(instances: Seq<InstanceView>) -> bool {
    forall|i: int, j: int|
        0 <= i < instances.len() && 0 <= j < instances.len() && (
        #[trigger] instances[i]).meta.version.key == (#[trigger] instances[j]).meta.version.key
            ==> instances[i].meta.version == instances[j].meta.version
}

spec fn ascending(keys: Seq<Seq<u64>>) -> bool {
    forall|i: int, j: int|
        0 <= i < j < keys.len() ==> key_less(#[trigger] keys[i], #[trigger] keys[j])
}

proof fn lemma_same_ascending(a: Seq<Seq<u64>>, b: Seq<Seq<u64>>)
    requires
        ascending(a),
        ascending(b),
        forall|key: Seq<u64>| a.contains(key) <==> b.contains(key),
    ensures
        a == b,
    decreases a.len(),
{
    if a.len() == 0 {
        if b.len() > 0 {
            assert(b.contains(b[0]));
        }
    } else {
        assert(a.contains(a[0]));
        assert(b.contains(a[0]));
        let j = b.index_of(a[0]);
        assert(b.contains(b[0]));
        assert(a.contains(b[0]));
        let i = a.index_of(b[0]);
        if j > 0 {
            assert(key_less(b[0], b[j]));
            law_key_order_is_strict(b[0], a[0]);
            if i > 0 {
                assert(key_less(a[0], a[i]));
            }
        }
        assert(a[0] == b[0]);
        let a1 = a.drop_first();
        let b1 = b.drop_first();
        assert forall|key: Seq<u64>| a1.contains(key) <==> b1.contains(key) by {
            if a1.contains(key) {
                let k = a1.index_of(key);
                assert(key_less(a[0], a[k + 1]));
                law_key_order_is_strict(a[0], key);
                assert(a.contains(a[k + 1]));
                let m = b.index_of(key);
                assert(b1[m - 1] == key);
            }
            if b1.contains(key) {
                let k = b1.index_of(key);
                assert(key_less(b[0], b[k + 1]));
                law_key_order_is_strict(b[0], key);
                assert(b.contains(b[k + 1]));
                let m = a.index_of(key);
                assert(a1[m - 1] == key);
            }
        }
        assert forall|i: int, j: int| 0 <= i < j < a1.len() implies key_less(
            #[trigger] a1[i],
            #[trigger] a1[j],
        ) by {
            assert(key_less(a[i + 1], a[j + 1]));
        }
        assert forall|i: int, j: int| 0 <= i < j < b1.len() implies key_less(
            #[trigger] b1[i],
            #[trigger] b1[j],
        ) by {
            assert(key_less(b[i + 1], b[j + 1]));
        }
        lemma_same_ascending(a1, b1);
        assert(a =~= seq![a[0]] + a1);
        assert(b =~= seq![b[0]] + b1);
    }
}

/// The keys of the groups, in order.
spec fn group_keys(instances: Seq<InstanceView>, by: Grouping) -> Seq<Seq<u64>> {
    grouped(instances, by).map_values(|group: Seq<InstanceView>| group_key(group, by))
}

proof fn lemma_in_having_key(
    instances: Seq<InstanceView>,
    key: Seq<u64>,
    by: Grouping,
    instance: InstanceView,
)
    ensures
        having_key(instances, key, by).contains(instance) <==> instances.contains(instance)
            && sort_key(instance, by) == key,
{
    let keep = |one: InstanceView| sort_key(one, by) == key;
    let kept = having_key(instances, key, by);
    if kept.contains(instance) {
        instances.lemma_filter_pred(keep, kept.index_of(instance));
        instances.lemma_filter_contains_rev(keep, instance);
    }
    if instances.contains(instance) && sort_key(instance, by) == key {
        instances.lemma_filter_contains(keep, instances.index_of(instance));
    }
}

proof fn lemma_group_keys(instances: Seq<InstanceView>, by: Grouping, key: Seq<u64>)
    ensures
        ascending(group_keys(instances, by)),
        group_keys(instances, by).contains(key) <==> exists|instance: InstanceView| #[trigger]
            instances.contains(instance) && sort_key(instance, by) == key,
{
    let groups = grouped(instances, by);
    let keys = group_keys(instances, by);
    law_groups_are_by_key(instances, by);
    assert forall|i: int, j: int| 0 <= i < j < keys.len() implies key_less(
        #[trigger] keys[i],
        #[trigger] keys[j],
    ) by {
        assert(key_less(group_key(groups[i], by), group_key(groups[j], by)));
    }
    if keys.contains(key) {
        let i = keys.index_of(key);
        assert(groups[i].len() > 0);
        assert(groups[i].contains(groups[i][0]));
        lemma_in_having_key(instances, key, by, groups[i][0]);
        assert(instances.contains(groups[i][0]));
    }
    if exists|instance: InstanceView| #[trigger]
        instances.contains(instance) && sort_key(instance, by) == key {
        let instance = choose|instance: InstanceView| #[trigger]
            instances.contains(instance) && sort_key(instance, by) == key;
        law_every_instance_is_grouped(instances, instance, by);
        let i = choose|i: int| 0 <= i < groups.len() && (#[trigger] groups[i]).contains(instance);
        lemma_in_having_key(instances, group_key(groups[i], by), by, instance);
        assert(keys[i] == key);
    }
}

proof fn lemma_same_members(a: Seq<InstanceView>, b: Seq<InstanceView>)
    requires
        a.to_multiset() == b.to_multiset(),
    ensures
        forall|instance: InstanceView| a.contains(instance) <==> b.contains(instance),
{
    a.to_multiset_ensures();
    b.to_multiset_ensures();
    assert forall|instance: InstanceView| a.contains(instance) <==> b.contains(instance) by {
        assert(a.contains(instance) <==> a.to_multiset().count(instance) > 0);
        assert(b.contains(instance) <==> b.to_multiset().count(instance) > 0);
    }
}

proof fn lemma_filter_multiset(instances: Seq<InstanceView>, keep: spec_fn(InstanceView) -> bool)
    ensures
        instances.filter(keep).to_multiset() == instances.to_multiset().filter(keep),
    decreases instances.len(),
{
    broadcast use vstd::multiset::group_multiset_axioms;

    if instances.len() == 0 {
        reveal(Seq::filter);
        instances.to_multiset_ensures();
        instances.filter(keep).to_multiset_ensures();
        assert(instances.filter(keep) =~= instances);
        assert forall|one: InstanceView| instances.to_multiset().count(one) == 0 by {
            assert(!instances.contains(one));
        }
        assert(instances.filter(keep).to_multiset() =~= instances.to_multiset().filter(keep));
    } else {
        let earlier = instances.drop_last();
        let last = instances.last();
        lemma_filter_multiset(earlier, keep);
        assert(instances =~= earlier.push(last));
        earlier.lemma_filter_push(last, keep);
        earlier.to_multiset_ensures();
        earlier.filter(keep).to_multiset_ensures();
        assert(instances.filter(keep).to_multiset() =~= instances.to_multiset().filter(keep));
    }
}

/// Where the same instances are listed in another order, and versions with the
/// same key are the same, the major versions are the same, in the same order,
/// and each has the same instances.
pub proof fn law_listing_order_leaves_the_major_versions(
    a: Seq<InstanceView>,
    b: Seq<InstanceView>,
)
    requires
        a.to_multiset() == b.to_multiset(),
        keys_tell_versions(a),
    ensures
        by_major(a).len() == by_major(b).len(),
        forall|i: int|
            0 <= i < by_major(a).len() ==> {
                let one = #[trigger] by_major(a)[i];
                let other = by_major(b)[i];
                &&& one.version == other.version
                &&& one.instances.to_multiset() == other.instances.to_multiset()
            },
{
    let by = Grouping::Major;
    lemma_same_members(a, b);
    lemma_group_keys(a, by, seq![]);
    lemma_group_keys(b, by, seq![]);
    assert forall|key: Seq<u64>| group_keys(a, by).contains(key) <==> group_keys(b, by).contains(
        key,
    ) by {
        lemma_group_keys(a, by, key);
        lemma_group_keys(b, by, key);
    }
    lemma_same_ascending(group_keys(a, by), group_keys(b, by));
    assert(group_keys(a, by).len() == group_keys(b, by).len());
    law_groups_are_by_key(a, by);
    law_groups_are_by_key(b, by);
    assert forall|i: int| 0 <= i < by_major(a).len() implies {
        let one = #[trigger] by_major(a)[i];
        let other = by_major(b)[i];
        &&& one.version == other.version
        &&& one.instances.to_multiset() == other.instances.to_multiset()
    } by {
        let one = grouped(a, by)[i];
        let other = grouped(b, by)[i];
        assert(group_keys(a, by)[i] == group_keys(b, by)[i]);
        let key = group_key(one, by);
        assert(group_key(other, by) == key);
        lemma_filter_multiset(a, |x: InstanceView| sort_key(x, by) == key);
        lemma_filter_multiset(b, |x: InstanceView| sort_key(x, by) == key);
        assert(one == having_key(a, key, by));
        assert(other == having_key(b, key, by));
        assert(one.contains(one[0]) && other.contains(other[0]));
        lemma_in_having_key(a, key, by, one[0]);
        lemma_in_having_key(b, key, by, other[0]);
        let k = a.index_of(one[0]);
        let m = a.index_of(other[0]);
        assert(a[k].meta.version.key == a[m].meta.version.key);
    }
}

/// The replies are what `answer` gives to what the run asks for, one after the
/// other, until the run is over.
pub open spec fn plays_out(
    run: RunView,
    answer: spec_fn(ActionView) -> ReplyView,
    replies: Seq<ReplyView>,
) -> bool
    decreases replies.len(),
{
    if replies.len() == 0 {
        run.pending() is None
    } else {
        &&& run.accepts(replies[0])
        &&& replies[0] == answer(run.pending()->0)
        &&& plays_out(run.after(replies[0]), answer, replies.drop_first())
    }
}

/// What the run tells the installer, in order.
pub open spec fn installs(run: RunView, replies: Seq<ReplyView>) -> Seq<SettingsView>
    decreases replies.len(),
{
    if replies.len() == 0 {
        seq![]
    } else {
        let later = installs(run.after(replies[0]), replies.drop_first());
        match run.pending() {
            Some(ActionView::Install(settings)) => seq![settings] + later,
            _ => later,
        }
    }
}

/// What the run tells the installer, and whether it fails.
pub open spec fn result(run: RunView, replies: Seq<ReplyView>) -> (Seq<SettingsView>, bool) {
    (installs(run, replies), after_all(run, replies).failure is Some)
}

/// The result of what was told before, and of what comes after.
pub open spec fn told(settings: SettingsView, later: (Seq<SettingsView>, bool)) -> (
    Seq<SettingsView>,
    bool,
) {
    (seq![settings] + later.0, later.1)
}

proof fn lemma_step(
    run: RunView,
    answer: spec_fn(ActionView) -> ReplyView,
    replies: Seq<ReplyView>,
)
    requires
        plays_out(run, answer, replies),
        run.tasks.len() > 0,
    ensures
        replies.len() > 0,
        replies[0] == answer(run.tasks[0].work.action()),
        run.accepts(replies[0]),
        plays_out(run.after(replies[0]), answer, replies.drop_first()),
        result(run, replies) == match run.tasks[0].work.action() {
            ActionView::Install(settings) => told(
                settings,
                result(run.after(replies[0]), replies.drop_first()),
            ),
            _ => result(run.after(replies[0]), replies.drop_first()),
        },
{
    let first = seq![replies[0]];
    assert(replies =~= first + replies.drop_first());
    assert(first.drop_last() =~= seq![]);
    assert(after_all(run, seq![]) == run);
    assert(after_all(run, first) == run.after(replies[0]));
    law_run_goes_on(run, first, replies.drop_first());
}

proof fn lemma_failed(
    run: RunView,
    answer: spec_fn(ActionView) -> ReplyView,
    replies: Seq<ReplyView>,
)
    requires
        plays_out(run, answer, replies),
        run.failure is Some,
        forall|i: int| 0 <= i < run.tasks.len() ==> (#[trigger] run.tasks[i]).work is EndServer,
    ensures
        result(run, replies) == (Seq::<SettingsView>::empty(), true),
    decreases replies.len(),
{
    if run.tasks.len() > 0 {
        lemma_step(run, answer, replies);
        assert(run.tasks[0].work is EndServer);
        let next = run.after(replies[0]);
        assert forall|i: int| 0 <= i < next.tasks.len() implies (
        #[trigger] next.tasks[i]).work is EndServer by {
            assert(next.tasks[i] == run.tasks[i + 1]);
        }
        lemma_failed(next, answer, replies.drop_first());
    }
}

/// What comes of the first task: a failure, which ends the run, or other tasks
/// in its place.
proof fn lemma_first(
    run: RunView,
    answer: spec_fn(ActionView) -> ReplyView,
    replies: Seq<ReplyView>,
)
    requires
        plays_out(run, answer, replies),
        run.failure is None,
        run.tasks.len() > 0,
    ensures
        replies.len() > 0,
        ({
            let work = run.tasks[0].work;
            let rest = replies.drop_first();
            match run.tasks[0].outcome(run.options, answer(work.action())) {
                OutcomeView::Next(next) => {
                    let later = RunView { tasks: next + run.tasks.drop_first(), ..run };
                    &&& plays_out(later, answer, rest)
                    &&& result(run, replies) == match work {
                        WorkView::Install(plan) => told(plan.settings(), result(later, rest)),
                        _ => result(later, rest),
                    }
                },
                OutcomeView::Failure(_) => result(run, replies) == match work {
                    WorkView::Install(plan) => (seq![plan.settings()], true),
                    _ => (seq![], true),
                },
                OutcomeView::Unfit => false,
            }
        }),
{
    lemma_step(run, answer, replies);
    let next = run.after(replies[0]);
    if run.tasks[0].outcome(run.options, replies[0]) is Failure {
        lemma_server_end(run.tasks);
        lemma_failed(next, answer, replies.drop_first());
        assert(result(next, replies.drop_first()).0 =~= seq![]);
        if let WorkView::Install(plan) = run.tasks[0].work {
            assert(seq![plan.settings()] + Seq::<SettingsView>::empty() =~= seq![plan.settings()]);
        }
    }
}

/// Control of the instance cannot be taken.
pub open spec fn control_fails(answer: spec_fn(ActionView) -> ReplyView, instance: InstanceView) -> bool {
    answer(ActionView::Do(OpView::GetControl(instance.control()))) is Failed
}

/// The instance cannot be started.
pub open spec fn start_fails(answer: spec_fn(ActionView) -> ReplyView, instance: InstanceView) -> bool {
    answer(ActionView::Do(OpView::Start { name: instance.name, foreground: false })) is Failed
}

/// Control of one of the instances cannot be taken.
pub open spec fn some_control_fails(
    answer: spec_fn(ActionView) -> ReplyView,
    instances: Seq<InstanceView>,
) -> bool {
    exists|i: int| 0 <= i < instances.len() && control_fails(answer, #[trigger] instances[i])
}

/// Control of one of the instances cannot be taken, or it cannot be started.
pub open spec fn some_start_fails(
    answer: spec_fn(ActionView) -> ReplyView,
    instances: Seq<InstanceView>,
) -> bool {
    exists|i: int|
        0 <= i < instances.len() && (control_fails(answer, #[trigger] instances[i]) || start_fails(
            answer,
            instances[i],
        ))
}

proof fn lemma_in_turn_first(
    instances: Seq<InstanceView>,
    part: spec_fn(InstanceView) -> Seq<TaskView>,
)
    requires
        instances.len() > 0,
    ensures
        in_turn(instances, part) == part(instances[0]) + in_turn(instances.drop_first(), part),
    decreases instances.len(),
{
    let rest = instances.drop_first();
    let earlier = instances.drop_last();
    if instances.len() == 1 {
        assert(in_turn(earlier, part) =~= seq![]);
        assert(in_turn(rest, part) =~= seq![]);
        assert(in_turn(instances, part) =~= part(instances[0]) + in_turn(rest, part));
    } else {
        lemma_in_turn_first(earlier, part);
        assert(earlier.drop_first() =~= rest.drop_last());
        assert(in_turn(instances, part) =~= part(instances[0]) + in_turn(rest, part));
    }
}

/// Takes control of an instance, as the first task.
proof fn lemma_control(
    run: RunView,
    answer: spec_fn(ActionView) -> ReplyView,
    replies: Seq<ReplyView>,
    instance: InstanceView,
)
    requires
        plays_out(run, answer, replies),
        run.failure is None,
        run.tasks.len() > 0,
        run.tasks[0].work == WorkView::Do(OpView::GetControl(instance.control())),
    ensures
        replies.len() > 0,
        if control_fails(answer, instance) {
            result(run, replies) == (Seq::<SettingsView>::empty(), true)
        } else {
            let later = RunView { tasks: run.tasks.drop_first(), ..run };
            plays_out(later, answer, replies.drop_first()) && result(run, replies) == result(
                later,
                replies.drop_first(),
            )
        },
{
    lemma_first(run, answer, replies);
    assert(Seq::<TaskView>::empty() + run.tasks.drop_first() =~= run.tasks.drop_first());
}

proof fn lemma_stops(
    run: RunView,
    answer: spec_fn(ActionView) -> ReplyView,
    replies: Seq<ReplyView>,
    instances: Seq<InstanceView>,
    rest: Seq<TaskView>,
) -> (left: Seq<ReplyView>)
    requires
        plays_out(run, answer, replies),
        run.failure is None,
        run.tasks == in_turn(instances, |instance: InstanceView| stop_part(instance)) + rest,
    ensures
        if some_control_fails(answer, instances) {
            result(run, replies) == (Seq::<SettingsView>::empty(), true)
        } else {
            let later = RunView { tasks: rest, ..run };
            plays_out(later, answer, left) && result(run, replies) == result(later, left)
        },
    decreases instances.len(),
{
    let part = |instance: InstanceView| stop_part(instance);
    if instances.len() == 0 {
        assert(in_turn(instances, part) + rest =~= rest);
        replies
    } else {
        let instance = instances[0];
        let others = instances.drop_first();
        let after = in_turn(others, part) + rest;
        lemma_in_turn_first(instances, part);
        assert(run.tasks =~= stop_part(instance) + after);
        lemma_control(run, answer, replies, instance);
        if control_fails(answer, instance) {
            replies
        } else {
            let run1 = RunView { tasks: run.tasks.drop_first(), ..run };
            let replies1 = replies.drop_first();
            lemma_first(run1, answer, replies1);
            assert(run1.tasks.drop_first() =~= after);
            let run2 = RunView { tasks: after, ..run };
            let replies2 = lemma_stop_tried(run1, answer, replies1, instance.name, after);
            let left = lemma_stops(run2, answer, replies2, others, rest);
            assert(some_control_fails(answer, instances) == some_control_fails(answer, others)) by {
                if some_control_fails(answer, instances) {
                    let i = choose|i: int|
                        0 <= i < instances.len() && control_fails(answer, #[trigger] instances[i]);
                    assert(others[i - 1] == instances[i]);
                }
                if some_control_fails(answer, others) {
                    let i = choose|i: int|
                        0 <= i < others.len() && control_fails(answer, #[trigger] others[i]);
                    assert(instances[i + 1] == others[i]);
                }
            }
            left
        }
    }
}

/// Stops an instance if that is possible, as the first task.
proof fn lemma_stop_tried(
    run: RunView,
    answer: spec_fn(ActionView) -> ReplyView,
    replies: Seq<ReplyView>,
    name: Seq<char>,
    rest: Seq<TaskView>,
) -> (left: Seq<ReplyView>)
    requires
        plays_out(run, answer, replies),
        run.failure is None,
        run.tasks.len() > 0,
        run.tasks[0].work == WorkView::TryStop(name),
        run.tasks.drop_first() == rest,
    ensures
        plays_out(RunView { tasks: rest, ..run }, answer, left),
        result(run, replies) == result(RunView { tasks: rest, ..run }, left),
{
    lemma_first(run, answer, replies);
    let reply = answer(run.tasks[0].work.action());
    let next = run.tasks[0].outcome(run.options, reply)->Next_0;
    let replies1 = replies.drop_first();
    if reply is Done {
        assert(next + rest =~= rest);
        replies1
    } else {
        let run1 = RunView { tasks: next + rest, ..run };
        lemma_first(run1, answer, replies1);
        assert(seq![] + run1.tasks.drop_first() =~= rest);
        replies1.drop_first()
    }
}

proof fn lemma_starts(
    run: RunView,
    answer: spec_fn(ActionView) -> ReplyView,
    replies: Seq<ReplyView>,
    instances: Seq<InstanceView>,
    rest: Seq<TaskView>,
) -> (left: Seq<ReplyView>)
    requires
        plays_out(run, answer, replies),
        run.failure is None,
        run.tasks == in_turn(instances, |instance: InstanceView| start_part(instance)) + rest,
    ensures
        if some_start_fails(answer, instances) {
            result(run, replies) == (Seq::<SettingsView>::empty(), true)
        } else {
            let later = RunView { tasks: rest, ..run };
            plays_out(later, answer, left) && result(run, replies) == result(later, left)
        },
    decreases instances.len(),
{
    let part = |instance: InstanceView| start_part(instance);
    if instances.len() == 0 {
        assert(in_turn(instances, part) + rest =~= rest);
        replies
    } else {
        let instance = instances[0];
        let others = instances.drop_first();
        let after = in_turn(others, part) + rest;
        lemma_in_turn_first(instances, part);
        assert(run.tasks =~= start_part(instance) + after);
        lemma_control(run, answer, replies, instance);
        if control_fails(answer, instance) {
            replies
        } else {
            let run1 = RunView { tasks: run.tasks.drop_first(), ..run };
            let replies1 = replies.drop_first();
            lemma_first(run1, answer, replies1);
            if start_fails(answer, instance) {
                replies
            } else {
                assert(seq![] + run1.tasks.drop_first() =~= after);
                let run2 = RunView { tasks: after, ..run };
                let left = lemma_starts(run2, answer, replies1.drop_first(), others, rest);
                assert(some_start_fails(answer, instances) == some_start_fails(
                    answer,
                    others,
                )) by {
                    if some_start_fails(answer, instances) {
                        let i = choose|i: int|
                            0 <= i < instances.len() && (control_fails(
                                answer,
                                #[trigger] instances[i],
                            ) || start_fails(answer, instances[i]));
                        assert(others[i - 1] == instances[i]);
                    }
                    if some_start_fails(answer, others) {
                        let i = choose|i: int|
                            0 <= i < others.len() && (control_fails(answer, #[trigger] others[i])
                                || start_fails(answer, others[i]));
                        assert(instances[i + 1] == others[i]);
                    }
                }
                left
            }
        }
    }
}

/// The query for the version on offer, and for the installed one, of a major
/// version.
pub open spec fn major_query(group: MajorGroupView) -> VersionQueryView {
    VersionQueryView::Stable(Some(group.version))
}

/// The version on offer of a major version is told, and so is what is
/// installed.
pub open spec fn versions_known(
    group: MajorGroupView,
    answer: spec_fn(ActionView) -> ReplyView,
) -> bool {
    &&& answer(ActionView::GetVersion(major_query(group))) is Package
    &&& answer(ActionView::InstalledVersions(major_query(group))) is Packages
}

/// The major version is up to date.
pub open spec fn major_up_to_date(
    group: MajorGroupView,
    answer: spec_fn(ActionView) -> ReplyView,
    force: bool,
) -> bool {
    up_to_date(
        installed_version(answer(ActionView::InstalledVersions(major_query(group)))->Packages_0),
        answer(ActionView::GetVersion(major_query(group)))->Package_0.full_version,
        force,
    )
}

/// What the installer is told to install for a major version.
pub open spec fn major_settings(
    method: InstallMethodView,
    group: MajorGroupView,
    answer: spec_fn(ActionView) -> ReplyView,
) -> SettingsView {
    let package = answer(ActionView::GetVersion(major_query(group)))->Package_0;
    let plan = InstallPlanView {
        method,
        package_name: package.package_name,
        major_version: group.version,
        version: package.version,
        nightly: false,
    };
    plan.settings()
}

/// What the upgrade of the major versions tells the installer, and whether it
/// fails.
pub open spec fn minor_result(
    method: InstallMethodView,
    groups: Seq<MajorGroupView>,
    answer: spec_fn(ActionView) -> ReplyView,
    force: bool,
) -> (Seq<SettingsView>, bool)
    decreases groups.len(),
{
    if groups.len() == 0 {
        (seq![], false)
    } else {
        let group = groups[0];
        let settings = major_settings(method, group, answer);
        if !versions_known(group, answer) {
            (seq![], true)
        } else if major_up_to_date(group, answer, force) {
            (seq![], false)
        } else if some_control_fails(answer, group.instances) {
            (seq![], true)
        } else if answer(ActionView::Install(settings)) is Failed || some_start_fails(
            answer,
            group.instances,
        ) {
            (seq![settings], true)
        } else {
            told(settings, minor_result(method, groups.drop_first(), answer, force))
        }
    }
}

proof fn lemma_minor_upgrade(
    run: RunView,
    answer: spec_fn(ActionView) -> ReplyView,
    replies: Seq<ReplyView>,
    method: InstallMethodView,
    group: MajorGroupView,
    rest: Seq<MajorGroupView>,
    package: PackageInfoView,
    old_version: Option<VersionView>,
) -> (left: Seq<ReplyView>)
    requires
        plays_out(run, answer, replies),
        run.failure is None,
        run.tasks == minor_upgrade(method, group, rest, package, old_version),
    ensures
        ({
            let plan = InstallPlanView {
                method,
                package_name: package.package_name,
                major_version: group.version,
                version: package.version,
                nightly: false,
            };
            let settings = plan.settings();
            let later = RunView { tasks: minor_jobs(method, rest), ..run };
            if some_control_fails(answer, group.instances) {
                result(run, replies) == (Seq::<SettingsView>::empty(), true)
            } else if answer(ActionView::Install(settings)) is Failed || some_start_fails(
                answer,
                group.instances,
            ) {
                result(run, replies) == (seq![settings], true)
            } else {
                plays_out(later, answer, left) && result(run, replies) == told(
                    settings,
                    result(later, left),
                )
            }
        }),
{
    let marked = all_marked(group.instances, old_version, package.full_version);
    let plan = InstallPlanView {
        method,
        package_name: package.package_name,
        major_version: group.version,
        version: package.version,
        nightly: false,
    };
    let stops = in_turn(marked, |instance: InstanceView| stop_part(instance));
    let starts = in_turn(marked, |instance: InstanceView| start_part(instance));
    let jobs = minor_jobs(method, rest);
    let install = seq![run.tasks[stops.len() as int + 1]];
    lemma_marked_fails(answer, group.instances, marked);
    lemma_first(run, answer, replies);
    assert(seq![] + run.tasks.drop_first() =~= stops + (install + (starts + jobs)));
    let run1 = RunView { tasks: stops + (install + (starts + jobs)), ..run };
    let replies1 = lemma_stops(
        run1,
        answer,
        replies.drop_first(),
        marked,
        install + (starts + jobs),
    );
    if some_control_fails(answer, marked) {
        replies
    } else {
        let run2 = RunView { tasks: install + (starts + jobs), ..run };
        assert(run2.tasks[0].work == WorkView::Install(plan));
        lemma_first(run2, answer, replies1);
        if answer(ActionView::Install(plan.settings())) is Failed {
            replies
        } else {
            assert(seq![] + run2.tasks.drop_first() =~= starts + jobs);
            let run3 = RunView { tasks: starts + jobs, ..run };
            let left = lemma_starts(run3, answer, replies1.drop_first(), marked, jobs);
            assert(seq![plan.settings()] + Seq::<SettingsView>::empty() =~= seq![plan.settings()]);
            left
        }
    }
}

proof fn lemma_marked_fails(
    answer: spec_fn(ActionView) -> ReplyView,
    instances: Seq<InstanceView>,
    marked: Seq<InstanceView>,
)
    requires
        marked.len() == instances.len(),
        forall|i: int|
            0 <= i < instances.len() ==> (#[trigger] marked[i]).control() == instances[i].control()
                && marked[i].name == instances[i].name,
    ensures
        some_control_fails(answer, marked) == some_control_fails(answer, instances),
        some_start_fails(answer, marked) == some_start_fails(answer, instances),
{
    if some_control_fails(answer, instances) {
        let i = choose|i: int|
            0 <= i < instances.len() && control_fails(answer, #[trigger] instances[i]);
        assert(control_fails(answer, marked[i]));
    }
    if some_start_fails(answer, instances) {
        let i = choose|i: int|
            0 <= i < instances.len() && (control_fails(answer, #[trigger] instances[i])
                || start_fails(answer, instances[i]));
        assert(control_fails(answer, marked[i]) || start_fails(answer, marked[i]));
    }
}

proof fn lemma_minor_jobs(
    run: RunView,
    answer: spec_fn(ActionView) -> ReplyView,
    replies: Seq<ReplyView>,
    method: InstallMethodView,
    groups: Seq<MajorGroupView>,
)
    requires
        plays_out(run, answer, replies),
        run.failure is None,
        run.tasks == minor_jobs(method, groups),
    ensures
        result(run, replies) == minor_result(method, groups, answer, run.options.force),
    decreases groups.len(),
{
    if groups.len() == 0 {
        assert(replies.len() == 0);
    } else {
        let group = groups[0];
        let rest = groups.drop_first();
        let query = VersionQueryView::Stable(Some(group.version));
        assert(run.tasks.drop_first() =~= seq![]);
        lemma_first(run, answer, replies);
        if let ReplyView::Package(package) = answer(ActionView::GetVersion(query)) {
            let job = JobView::Minor(group, rest);
            let tasks1 = run.tasks[0].outcome(
                run.options,
                ReplyView::Package(package),
            )->Next_0 + run.tasks.drop_first();
            let run1 = RunView { tasks: tasks1, ..run };
            let replies1 = replies.drop_first();
            assert(run1.tasks[0].work == WorkView::GetInstalled(method, job, package));
            assert(run1.tasks.drop_first() =~= seq![]);
            lemma_first(run1, answer, replies1);
            if let ReplyView::Packages(packages) = answer(ActionView::InstalledVersions(query)) {
                let old_version = installed_version(packages);
                let replies2 = replies1.drop_first();
                let next = run1.tasks[0].outcome(
                    run.options,
                    ReplyView::Packages(packages),
                )->Next_0;
                assert(next + run1.tasks.drop_first() =~= next);
                let run2 = RunView { tasks: next, ..run };
                if up_to_date(old_version, package.full_version, run.options.force) {
                    lemma_first(run2, answer, replies2);
                    assert(seq![] + run2.tasks.drop_first() =~= seq![]);
                } else {
                    let left = lemma_minor_upgrade(
                        run2,
                        answer,
                        replies2,
                        method,
                        group,
                        rest,
                        package,
                        old_version,
                    );
                    let run3 = RunView { tasks: minor_jobs(method, rest), ..run };
                    if plays_out(run3, answer, left) {
                        lemma_minor_jobs(run3, answer, left, method, rest);
                    }
                }
            }
        }
    }
}

proof fn lemma_same_fails(
    answer: spec_fn(ActionView) -> ReplyView,
    a: Seq<InstanceView>,
    b: Seq<InstanceView>,
)
    requires
        forall|instance: InstanceView| a.contains(instance) ==> b.contains(instance),
    ensures
        some_control_fails(answer, a) ==> some_control_fails(answer, b),
        some_start_fails(answer, a) ==> some_start_fails(answer, b),
{
    if some_control_fails(answer, a) {
        let i = choose|i: int| 0 <= i < a.len() && control_fails(answer, #[trigger] a[i]);
        assert(a.contains(a[i]));
        assert(control_fails(answer, b[b.index_of(a[i])]));
    }
    if some_start_fails(answer, a) {
        let i = choose|i: int|
            0 <= i < a.len() && (control_fails(answer, #[trigger] a[i]) || start_fails(
                answer,
                a[i],
            ));
        assert(a.contains(a[i]));
        let j = b.index_of(a[i]);
        assert(control_fails(answer, b[j]) || start_fails(answer, b[j]));
    }
}

proof fn lemma_same_minor_result(
    method: InstallMethodView,
    a: Seq<MajorGroupView>,
    b: Seq<MajorGroupView>,
    answer: spec_fn(ActionView) -> ReplyView,
    force: bool,
)
    requires
        a.len() == b.len(),
        forall|i: int|
            0 <= i < a.len() ==> (#[trigger] a[i]).version == b[i].version
                && a[i].instances.to_multiset() == b[i].instances.to_multiset(),
    ensures
        minor_result(method, a, answer, force) == minor_result(method, b, answer, force),
    decreases a.len(),
{
    if a.len() > 0 {
        assert(a[0].version == b[0].version);
        lemma_same_members(a[0].instances, b[0].instances);
        lemma_same_fails(answer, a[0].instances, b[0].instances);
        lemma_same_fails(answer, b[0].instances, a[0].instances);
        let a1 = a.drop_first();
        let b1 = b.drop_first();
        assert forall|i: int| 0 <= i < a1.len() implies (#[trigger] a1[i]).version == b1[i].version
            && a1[i].instances.to_multiset() == b1[i].instances.to_multiset() by {
            assert(a1[i] == a[i + 1]);
        }
        lemma_same_minor_result(method, a1, b1, answer, force);
    }
}

/// The run of an upgrade within major versions, of instances that are installed
/// by one method.
pub open spec fn minor_run(
    options: UpgradeView,
    method: InstallMethodView,
    instances: Seq<InstanceView>,
) -> RunView {
    RunView {
        options,
        tasks: method_jobs(ToDoView::MinorUpgrade, method, instances),
        failure: None,
    }
}

/// What an upgrade within major versions tells the installer, and whether it
/// fails, as the answers to what it asks for have it.
pub proof fn law_minor_run_has_its_result(
    options: UpgradeView,
    method: InstallMethodView,
    instances: Seq<InstanceView>,
    answer: spec_fn(ActionView) -> ReplyView,
    replies: Seq<ReplyView>,
)
    requires
        plays_out(minor_run(options, method, instances), answer, replies),
    ensures
        result(minor_run(options, method, instances), replies) == minor_result(
            method,
            by_major(instances),
            answer,
            options.force,
        ),
{
    lemma_minor_jobs(
        minor_run(options, method, instances),
        answer,
        replies,
        method,
        by_major(instances),
    );
}

proof fn lemma_minor_success(
    method: InstallMethodView,
    groups: Seq<MajorGroupView>,
    answer: spec_fn(ActionView) -> ReplyView,
    force: bool,
)
    requires
        !minor_result(method, groups, answer, force).1,
    ensures
        ({
            let told = minor_result(method, groups, answer, force).0;
            let n = told.len() as int;
            &&& n <= groups.len()
            &&& forall|i: int|
                0 <= i < n ==> #[trigger] told[i] == major_settings(method, groups[i], answer)
                    && !major_up_to_date(groups[i], answer, force)
            &&& n < groups.len() ==> major_up_to_date(groups[n], answer, force)
        }),
    decreases groups.len(),
{
    if groups.len() > 0 && !major_up_to_date(groups[0], answer, force) {
        let rest = groups.drop_first();
        lemma_minor_success(method, rest, answer, force);
        let later = minor_result(method, rest, answer, force).0;
        let told = minor_result(method, groups, answer, force).0;
        assert(told =~= seq![major_settings(method, groups[0], answer)] + later);
        assert forall|i: int| 0 <= i < told.len() implies #[trigger] told[i] == major_settings(
            method,
            groups[i],
            answer,
        ) && !major_up_to_date(groups[i], answer, force) by {
            if i > 0 {
                assert(told[i] == later[i - 1]);
                assert(rest[i - 1] == groups[i]);
            }
        }
        if told.len() < groups.len() {
            assert(rest[later.len() as int] == groups[told.len() as int]);
        }
    }
}

/// An upgrade within major versions that succeeds installs the versions on
/// offer of the major versions, in ascending order, up to the first that is up
/// to date, and no further; where it is forced, it installs all of them.
pub proof fn law_minor_success_installs_in_ascending_order(
    options: UpgradeView,
    method: InstallMethodView,
    instances: Seq<InstanceView>,
    answer: spec_fn(ActionView) -> ReplyView,
    replies: Seq<ReplyView>,
)
    requires
        plays_out(minor_run(options, method, instances), answer, replies),
        !result(minor_run(options, method, instances), replies).1,
    ensures
        ({
            let groups = by_major(instances);
            let told = installs(minor_run(options, method, instances), replies);
            let n = told.len() as int;
            &&& n <= groups.len()
            &&& forall|i: int|
                0 <= i < n ==> #[trigger] told[i] == major_settings(method, groups[i], answer)
                    && told[i].major_version == groups[i].version && !major_up_to_date(
                    groups[i],
                    answer,
                    options.force,
                )
            &&& forall|i: int, j: int|
                0 <= i < j < n ==> key_less(
                    (#[trigger] told[i]).major_version.key,
                    (#[trigger] told[j]).major_version.key,
                )
            &&& n < groups.len() ==> major_up_to_date(groups[n], answer, options.force)
            &&& options.force ==> n == groups.len()
        }),
{
    let groups = by_major(instances);
    let lists = grouped(instances, Grouping::Major);
    let told = installs(minor_run(options, method, instances), replies);
    law_minor_run_has_its_result(options, method, instances, answer, replies);
    lemma_minor_success(method, groups, answer, options.force);
    law_groups_are_by_key(instances, Grouping::Major);
    assert forall|i: int, j: int| 0 <= i < j < told.len() implies key_less(
        (#[trigger] told[i]).major_version.key,
        (#[trigger] told[j]).major_version.key,
    ) by {
        assert(key_less(
            group_key(lists[i], Grouping::Major),
            group_key(lists[j], Grouping::Major),
        ));
        assert(told[i].major_version == groups[i].version);
        assert(told[j].major_version == groups[j].version);
    }
}

/// Where the same instances are listed in another order, versions with the same
/// key are the same, and what is asked for is answered the same whenever it is
/// asked, an upgrade within major versions tells the installer the same, in the
/// same order, and either fails or does not.
pub proof fn law_listing_order_leaves_the_installs(
    options: UpgradeView,
    method: InstallMethodView,
    a: Seq<InstanceView>,
    b: Seq<InstanceView>,
    answer: spec_fn(ActionView) -> ReplyView,
    a_replies: Seq<ReplyView>,
    b_replies: Seq<ReplyView>,
)
    requires
        a.to_multiset() == b.to_multiset(),
        keys_tell_versions(a),
        plays_out(minor_run(options, method, a), answer, a_replies),
        plays_out(minor_run(options, method, b), answer, b_replies),
    ensures
        result(minor_run(options, method, a), a_replies) == result(
            minor_run(options, method, b),
            b_replies,
        ),
{
    law_listing_order_leaves_the_major_versions(a, b);
    law_minor_run_has_its_result(options, method, a, answer, a_replies);
    law_minor_run_has_its_result(options, method, b, answer, b_replies);
    lemma_same_minor_result(method, by_major(a), by_major(b), answer, options.force);
}

} // verus!
