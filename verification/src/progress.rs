//! A run comes to an end.
use crate::course::after_all;
use crate::instance::{InstallMethodView, InstanceView};
use crate::options::{ToDoView, UpgradeView};
use crate::order::key_less;
use crate::reach::{all_tasks, lemma_in_turn_all, lemma_server_end_all};
use crate::requests::ReinitView;
use crate::run::{by_major, job_tasks, method_checks, method_jobs, server_end, OutcomeView, RunView};
use crate::script::{
    all_marked, dump_part, in_turn, minor_jobs, restore_part, restore_to, start_part, stop_part,
};
use crate::selection::{grouped, sort_key, with_instance, Grouping};
use crate::task::{JobView, MajorGroupView, MethodGroupView, ReplyView, TaskView, WorkView};
use crate::version::{installed_version, up_to_date, PackageInfoView, VersionView};
use vstd::prelude::*;

verus! {

/// The work is part of finding the instances.
pub open spec fn finds_instances(work: WorkView) -> bool {
    match work {
        WorkView::LocateInstances => true,
        WorkView::CheckInstances(_) => true,
        WorkView::OpenInstances(_) => true,
        WorkView::NextEntry(_) => true,
        WorkView::ReadMetadata(_, _) => true,
        _ => false,
    }
}

/// How many replies the upgrades of the major versions can take.
pub open spec fn majors_left(groups: Seq<MajorGroupView>) -> nat
    decreases groups.len(),
{
    if groups.len() == 0 {
        0
    } else {
        4 + 5 * groups[0].instances.len() + majors_left(groups.drop_first())
    }
}

/// How many replies a job can take, once the version on offer is known.
pub open spec fn job_left(job: JobView) -> nat {
    match job {
        JobView::Minor(group, rest) => 3 + 5 * group.instances.len() + majors_left(rest),
        JobView::Nightly(instances) => 2 + 23 * instances.len(),
        JobView::Single(_, _) => 25,
    }
}

/// How many replies the instances of a method can take.
pub open spec fn method_left(group: MethodGroupView) -> nat {
    5 + 26 * group.instances.len()
}

/// How many replies the instances of the methods can take.
pub open spec fn methods_left(groups: Seq<MethodGroupView>) -> nat
    decreases groups.len(),
{
    if groups.len() == 0 {
        0
    } else {
        method_left(groups[0]) + methods_left(groups.drop_first())
    }
}

/// How many replies the work, once the instances are found, can take.
pub open spec fn work_left(work: WorkView) -> nat {
    match work {
        WorkView::DetectOs(groups) => 2 + methods_left(groups),
        WorkView::ListMethods(groups) => 1 + methods_left(groups),
        WorkView::CheckMethod(group) => method_left(group),
        WorkView::MakeMethod(group) => (method_left(group) - 1) as nat,
        WorkView::GetVersion(_, job) => 1 + job_left(job),
        WorkView::GetInstalled(_, job, _) => job_left(job),
        WorkView::TryStop(_) => 2,
        WorkView::DumpSocket(_) => 6,
        WorkView::DumpPath(_, _) => 5,
        WorkView::CheckDump(_) => 2,
        WorkView::StampBackup(_) => 2,
        WorkView::Identify(_) => 3,
        WorkView::EncodeMarker(_, _) => 2,
        WorkView::RestoreSocket(_) => 3,
        _ => 1,
    }
}

/// How many replies the tasks, once the instances are found, can take.
pub open spec fn left(tasks: Seq<TaskView>) -> nat
    decreases tasks.len(),
{
    if tasks.len() == 0 {
        0
    } else {
        work_left(tasks[0].work) + left(tasks.drop_first())
    }
}

/// None of the tasks is part of finding the instances.
pub open spec fn instances_found(tasks: Seq<TaskView>) -> bool {
    all_tasks(tasks, |task: TaskView| !finds_instances(task.work))
}

proof fn lemma_left_concat(a: Seq<TaskView>, b: Seq<TaskView>)
    ensures
        left(a + b) == left(a) + left(b),
    decreases a.len(),
{
    if a.len() == 0 {
        assert(a + b =~= b);
    } else {
        assert((a + b).drop_first() =~= a.drop_first() + b);
        lemma_left_concat(a.drop_first(), b);
    }
}

proof fn lemma_left_in_turn(
    instances: Seq<InstanceView>,
    part: spec_fn(InstanceView) -> Seq<TaskView>,
    each: nat,
)
    requires
        forall|instance: InstanceView| left(#[trigger] part(instance)) == each,
    ensures
        left(in_turn(instances, part)) == instances.len() * each,
    decreases instances.len(),
{
    if instances.len() == 0 {
        assert(0 * each == 0);
    } else {
        lemma_left_in_turn(instances.drop_last(), part, each);
        lemma_left_concat(in_turn(instances.drop_last(), part), part(instances.last()));
        let n = instances.len();
        assert((n - 1) * each + each == n * each) by (nonlinear_arith);
    }
}

proof fn lemma_left_parts(instance: InstanceView)
    ensures
        left(stop_part(instance)) == 3,
        left(start_part(instance)) == 2,
        left(dump_part(instance)) == 9,
{
    reveal_with_fuel(left, 5);
}

proof fn lemma_left_restore_part(reinit: ReinitView)
    ensures
        left(restore_part(reinit)) == 14,
{
    reveal_with_fuel(left, 10);
}

proof fn lemma_left_one(task: TaskView)
    ensures
        left(seq![task]) == work_left(task.work),
{
    reveal_with_fuel(left, 2);
}

proof fn lemma_left_minor_jobs(method: InstallMethodView, groups: Seq<MajorGroupView>)
    ensures
        left(minor_jobs(method, groups)) == majors_left(groups),
{
    if groups.len() > 0 {
        lemma_left_one(minor_jobs(method, groups)[0]);
    }
}

proof fn lemma_left_job(
    method: InstallMethodView,
    job: JobView,
    package: PackageInfoView,
    old_version: Option<VersionView>,
    force: bool,
)
    ensures
        left(job_tasks(method, job, package, old_version, force)) < job_left(job),
        instances_found(job_tasks(method, job, package, old_version, force)),
{
    let tasks = job_tasks(method, job, package, old_version, force);
    let found = |task: TaskView| !finds_instances(task.work);
    if up_to_date(old_version, package.full_version, force) {
        lemma_left_one(tasks[0]);
        assert(tasks =~= seq![tasks[0]]);
    } else {
        match job {
            JobView::Minor(group, rest) => {
                let marked = all_marked(group.instances, old_version, package.full_version);
                let stop = |instance: InstanceView| stop_part(instance);
                let start = |instance: InstanceView| start_part(instance);
                let stops = in_turn(marked, stop);
                let starts = in_turn(marked, start);
                lemma_in_turn_all(marked, stop, found);
                lemma_in_turn_all(marked, start, found);
                assert forall|instance: InstanceView| left(#[trigger] stop(instance)) == 3 by {
                    lemma_left_parts(instance);
                }
                assert forall|instance: InstanceView| left(#[trigger] start(instance)) == 2 by {
                    lemma_left_parts(instance);
                }
                lemma_left_in_turn(marked, stop, 3);
                lemma_left_in_turn(marked, start, 2);
                lemma_left_minor_jobs(method, rest);
                let tell = seq![tasks[0]];
                let install = seq![tasks[stops.len() as int + 1]];
                assert(tasks =~= tell + stops + install + starts + minor_jobs(method, rest));
                assert(all_tasks(minor_jobs(method, rest), found));
                lemma_left_one(tell[0]);
                lemma_left_one(install[0]);
                lemma_left_concat(tell, stops);
                lemma_left_concat(tell + stops, install);
                lemma_left_concat(tell + stops + install, starts);
                lemma_left_concat(tell + stops + install + starts, minor_jobs(method, rest));
            },
            JobView::Nightly(instances) => {
                let marked = all_marked(instances, old_version, package.full_version);
                let dump = |instance: InstanceView| dump_part(instance);
                let restore = restore_to(package.major_version, true, method);
                let dumps = in_turn(marked, dump);
                let restores = in_turn(marked, restore);
                lemma_in_turn_all(marked, dump, found);
                lemma_in_turn_all(marked, restore, found);
                assert forall|instance: InstanceView| left(#[trigger] dump(instance)) == 9 by {
                    lemma_left_parts(instance);
                }
                assert forall|instance: InstanceView| left(#[trigger] restore(instance)) == 14 by {
                    lemma_left_restore_part(
                        ReinitView {
                            instance,
                            version: package.major_version,
                            nightly: true,
                            method,
                        },
                    );
                }
                lemma_left_in_turn(marked, dump, 9);
                lemma_left_in_turn(marked, restore, 14);
                let install = seq![tasks[dumps.len() as int]];
                assert(tasks =~= dumps + install + restores);
                lemma_left_one(install[0]);
                lemma_left_concat(dumps, install);
                lemma_left_concat(dumps + install, restores);
            },
            JobView::Single(instance, query) => {
                let marked = instance.marked(old_version, package.full_version);
                let reinit = ReinitView {
                    instance: marked,
                    version: package.version,
                    nightly: query is Nightly,
                    method,
                };
                let install = seq![tasks[4]];
                assert(tasks =~= dump_part(marked) + install + restore_part(reinit));
                lemma_left_parts(marked);
                lemma_left_restore_part(reinit);
                lemma_left_one(install[0]);
                lemma_left_concat(dump_part(marked), install);
                lemma_left_concat(dump_part(marked) + install, restore_part(reinit));
            },
        }
    }
}

/// How many replies groups of instances can take.
spec fn groups_left(groups: Seq<Seq<InstanceView>>) -> nat
    decreases groups.len(),
{
    if groups.len() == 0 {
        0
    } else {
        4 + 5 * groups[0].len() + groups_left(groups.drop_first())
    }
}

proof fn lemma_groups_left_with(
    groups: Seq<Seq<InstanceView>>,
    instance: InstanceView,
    by: Grouping,
)
    ensures
        groups_left(with_instance(groups, instance, by)) <= groups_left(groups) + 9,
    decreases groups.len(),
{
    let result = with_instance(groups, instance, by);
    reveal_with_fuel(groups_left, 2);
    if groups.len() > 0 {
        let key = sort_key(instance, by);
        let first = sort_key(groups[0][0], by);
        let rest = groups.drop_first();
        if key == first {
            assert(result.drop_first() =~= rest);
        } else if key_less(key, first) {
            assert(result.drop_first() =~= groups);
        } else {
            lemma_groups_left_with(rest, instance, by);
            assert(result.drop_first() =~= with_instance(rest, instance, by));
        }
    }
}

proof fn lemma_groups_left(instances: Seq<InstanceView>, by: Grouping)
    ensures
        groups_left(grouped(instances, by)) <= 9 * instances.len(),
    decreases instances.len(),
{
    if instances.len() > 0 {
        lemma_groups_left(instances.drop_last(), by);
        lemma_groups_left_with(grouped(instances.drop_last(), by), instances.last(), by);
    }
}

proof fn lemma_majors_left(groups: Seq<MajorGroupView>, lists: Seq<Seq<InstanceView>>)
    requires
        groups.len() == lists.len(),
        forall|i: int| 0 <= i < groups.len() ==> (#[trigger] groups[i]).instances == lists[i],
    ensures
        majors_left(groups) == groups_left(lists),
    decreases groups.len(),
{
    if groups.len() > 0 {
        let rest = groups.drop_first();
        assert forall|i: int| 0 <= i < rest.len() implies (#[trigger] rest[i]).instances
            == lists.drop_first()[i] by {
            assert(rest[i] == groups[i + 1]);
        }
        assert(groups[0].instances == lists[0]);
        lemma_majors_left(rest, lists.drop_first());
    }
}

proof fn lemma_left_each(tasks: Seq<TaskView>, each: nat)
    requires
        forall|i: int| 0 <= i < tasks.len() ==> work_left((#[trigger] tasks[i]).work) == each,
    ensures
        left(tasks) == tasks.len() * each,
    decreases tasks.len(),
{
    let n = tasks.len();
    if n == 0 {
        assert(0 * each == 0);
    } else {
        let rest = tasks.drop_first();
        assert forall|i: int| 0 <= i < rest.len() implies work_left((#[trigger] rest[i]).work)
            == each by {
            assert(rest[i] == tasks[i + 1]);
        }
        assert(work_left(tasks[0].work) == each);
        lemma_left_each(rest, each);
        assert((n - 1) * each + each == n * each) by (nonlinear_arith);
    }
}

proof fn lemma_left_method_jobs(
    todo: ToDoView,
    method: InstallMethodView,
    instances: Seq<InstanceView>,
)
    ensures
        left(method_jobs(todo, method, instances)) < 4 + 26 * instances.len(),
        instances_found(method_jobs(todo, method, instances)),
{
    match todo {
        ToDoView::MinorUpgrade => {
            lemma_left_minor_jobs(method, by_major(instances));
            lemma_majors_left(by_major(instances), grouped(instances, Grouping::Major));
            lemma_groups_left(instances, Grouping::Major);
        },
        ToDoView::NightlyUpgrade => {
            lemma_left_one(method_jobs(todo, method, instances)[0]);
        },
        ToDoView::InstanceUpgrade(_, _) => {
            lemma_left_each(method_jobs(todo, method, instances), 26);
        },
    }
}

proof fn lemma_left_method_checks(groups: Seq<MethodGroupView>)
    ensures
        left(method_checks(groups)) == methods_left(groups),
        instances_found(method_checks(groups)),
    decreases groups.len(),
{
    if groups.len() > 0 {
        assert(method_checks(groups).drop_first() =~= method_checks(groups.drop_first()));
        lemma_left_method_checks(groups.drop_first());
    }
}

proof fn lemma_left_outcome(options: UpgradeView, task: TaskView, reply: ReplyView)
    requires
        !finds_instances(task.work),
    ensures
        task.outcome(options, reply) matches OutcomeView::Next(next) ==> left(next) < work_left(
            task.work,
        ) && instances_found(next),
{
    reveal_with_fuel(left, 4);
    match (task.work, reply) {
        (WorkView::ListMethods(groups), ReplyView::Done) => {
            lemma_left_method_checks(groups);
        },
        (WorkView::MakeMethod(group), ReplyView::Method(method)) => {
            lemma_left_method_jobs(options.todo(), method, group.instances);
        },
        (WorkView::GetInstalled(method, job, package), ReplyView::Packages(packages)) => {
            lemma_left_job(method, job, package, installed_version(packages), options.force);
        },
        _ => {},
    }
}

proof fn lemma_left_server_end(tasks: Seq<TaskView>)
    ensures
        left(server_end(tasks)) <= left(tasks),
    decreases tasks.len(),
{
    if tasks.len() > 0 {
        lemma_left_one(tasks[0]);
        lemma_left_server_end(tasks.drop_first());
    }
}

/// Once the instances are found, each reply that is taken brings the end of the
/// run nearer.
pub proof fn law_each_reply_brings_the_end_nearer(run: RunView, reply: ReplyView)
    requires
        instances_found(run.tasks),
        run.accepts(reply),
    ensures
        left(run.after(reply).tasks) < left(run.tasks),
        instances_found(run.after(reply).tasks),
{
    let found = |task: TaskView| !finds_instances(task.work);
    let task = run.tasks[0];
    let rest = run.tasks.drop_first();
    assert(found(task));
    lemma_left_outcome(run.options, task, reply);
    match task.outcome(run.options, reply) {
        OutcomeView::Next(next) => {
            lemma_left_concat(next, rest);
            assert forall|i: int| 0 <= i < (next + rest).len() implies found(
                #[trigger] (next + rest)[i],
            ) by {
                if i < next.len() {
                    assert((next + rest)[i] == next[i]);
                } else {
                    assert((next + rest)[i] == run.tasks[i - next.len() + 1]);
                }
            }
        },
        OutcomeView::Failure(_) => {
            lemma_left_server_end(rest);
            lemma_server_end_all(run.tasks, found);
        },
        OutcomeView::Unfit => {},
    }
}

/// Once the instances are found, a run takes no more than so many replies.
pub proof fn law_run_ends(run: RunView, replies: Seq<ReplyView>)
    requires
        instances_found(run.tasks),
        forall|n: int|
            0 <= n < replies.len() ==> (#[trigger] after_all(run, replies.take(n))).accepts(
                replies[n],
            ),
    ensures
        replies.len() + left(after_all(run, replies).tasks) <= left(run.tasks),
        instances_found(after_all(run, replies).tasks),
    decreases replies.len(),
{
    if replies.len() > 0 {
        let earlier = replies.drop_last();
        assert forall|n: int| 0 <= n < earlier.len() implies (#[trigger] after_all(
            run,
            earlier.take(n),
        )).accepts(earlier[n]) by {
            assert(earlier.take(n) =~= replies.take(n));
            assert(after_all(run, replies.take(n)).accepts(replies[n]));
        }
        law_run_ends(run, earlier);
        assert(replies.take(earlier.len() as int) =~= earlier);
        assert(after_all(run, replies.take(earlier.len() as int)).accepts(replies.last()));
        law_each_reply_brings_the_end_nearer(after_all(run, earlier), replies.last());
    }
}

} // verus!
