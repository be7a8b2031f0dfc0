//! What a run that succeeds has done.
use crate::course::{
    after_all, law_options_and_failure_stay, law_run_goes_on, law_tasks_are_done_in_order,
};
use crate::instance::{InstallMethodView, InstanceView};
use crate::location::LocationView;
use crate::requests::{dump_of, restore_of, InstallPlanView, ReinitView};
use crate::run::RunView;
use crate::script::{
    dump_part, instance_upgrade, minor_upgrade, nightly_upgrade, restore_part, start_part,
};
use crate::sequence::{
    law_instance_upgrade_dumps_then_installs_then_restores,
    law_minor_upgrade_stops_then_installs_then_starts,
    law_nightly_upgrade_dumps_then_installs_then_restores,
};
use crate::task::{ActionView, MajorGroupView, OpView, ReplyView, WorkView};
use crate::version::{PackageInfoView, VersionQueryView, VersionView};
use vstd::prelude::*;

verus! {

/// The run has not failed yet, and the replies lead it to its end without a
/// failure.
pub open spec fn succeeds(run: RunView, replies: Seq<ReplyView>) -> bool {
    &&& run.failure is None
    &&& after_all(run, replies).failure is None
    &&& after_all(run, replies).pending() is None
}

/// The task at `i` has its turn at the reply `n`: the tasks before it are done,
/// and the reply leads on from it.
pub open spec fn turn_at(run: RunView, replies: Seq<ReplyView>, i: int, n: int) -> bool {
    &&& after_all(run, replies.take(n)) == (RunView { tasks: run.tasks.skip(i), ..run })
    &&& run.tasks[i].outcome(run.options, replies[n]) is Next
}

/// The reply at `n` says that what the run waited for, `action`, was done.
pub open spec fn done_by(
    run: RunView,
    replies: Seq<ReplyView>,
    n: int,
    action: ActionView,
) -> bool {
    after_all(run, replies.take(n)).pending() == Some(action) && replies[n] is Done
}

/// The first reply that is taken leads on.
proof fn lemma_first_leads_on(run: RunView, replies: Seq<ReplyView>) -> (n: int)
    requires
        succeeds(run, replies),
        run.tasks.len() > 0,
    ensures
        0 <= n < replies.len(),
        after_all(run, replies.take(n)) == run,
        run.tasks[0].outcome(run.options, replies[n]) is Next,
    decreases replies.len(),
{
    assert(replies.len() > 0);
    let first = seq![replies[0]];
    let rest = replies.drop_first();
    let next = run.after(replies[0]);
    assert(replies =~= first + rest);
    assert(first.drop_last() =~= seq![]);
    assert(after_all(run, seq![]) == run);
    assert(after_all(run, first) == next);
    law_run_goes_on(run, first, rest);
    law_options_and_failure_stay(next, rest);
    if run.tasks[0].outcome(run.options, replies[0]) is Next {
        assert(replies.take(0) =~= seq![]);
        0
    } else {
        let n = lemma_first_leads_on(run, rest);
        assert(replies.take(n + 1) =~= first + rest.take(n));
        law_run_goes_on(run, first, rest.take(n));
        n + 1
    }
}

/// Where a run succeeds, every one of its tasks has its turn.
pub proof fn law_success_gives_every_task_its_turn(
    run: RunView,
    replies: Seq<ReplyView>,
    i: int,
)
    requires
        succeeds(run, replies),
        0 <= i < run.tasks.len(),
    ensures
        exists|n: int| 0 <= n < replies.len() && #[trigger] turn_at(run, replies, i, n),
{
    let first = run.tasks.take(i);
    let second = run.tasks.skip(i);
    assert(run.tasks =~= first + second);
    law_tasks_are_done_in_order(run, first, second, replies);
    let k = choose|k: int|
        0 <= k <= replies.len() && #[trigger] after_all(run, replies.take(k)) == (RunView {
            tasks: second,
            ..run
        });
    let middle = after_all(run, replies.take(k));
    let rest = replies.skip(k);
    assert(replies =~= replies.take(k) + rest);
    law_run_goes_on(run, replies.take(k), rest);
    let n = lemma_first_leads_on(middle, rest);
    assert(replies.take(k + n) =~= replies.take(k) + rest.take(n));
    law_run_goes_on(run, replies.take(k), rest.take(n));
    assert(turn_at(run, replies, i, k + n));
}

/// What comes after the turn of a task: the run, and the replies that are left.
proof fn lemma_after_turn(run: RunView, replies: Seq<ReplyView>, i: int, n: int) -> (later: (
    RunView,
    Seq<ReplyView>,
))
    requires
        succeeds(run, replies),
        0 <= i < run.tasks.len(),
        0 <= n < replies.len(),
        turn_at(run, replies, i, n),
    ensures
        later.0 == (RunView {
            tasks: run.tasks[i].outcome(run.options, replies[n])->Next_0 + run.tasks.skip(i + 1),
            ..run
        }),
        later.1 == replies.skip(n + 1),
        later.0 == after_all(run, replies.take(n + 1)),
        succeeds(later.0, later.1),
{
    let now = replies.take(n + 1);
    assert(now.drop_last() =~= replies.take(n));
    assert(run.tasks.skip(i).drop_first() =~= run.tasks.skip(i + 1));
    assert(replies =~= now + replies.skip(n + 1));
    law_run_goes_on(run, now, replies.skip(n + 1));
    (after_all(run, now), replies.skip(n + 1))
}

/// What a later part of the run has done, the run has done.
proof fn lemma_done_later(
    run: RunView,
    replies: Seq<ReplyView>,
    k: int,
    n: int,
    action: ActionView,
)
    requires
        0 <= k <= replies.len(),
        0 <= n < replies.len() - k,
        done_by(after_all(run, replies.take(k)), replies.skip(k), n, action),
    ensures
        done_by(run, replies, k + n, action),
{
    let rest = replies.skip(k);
    assert(replies.take(k + n) =~= replies.take(k) + rest.take(n));
    law_run_goes_on(run, replies.take(k), rest.take(n));
}

/// The work is to do one thing, and nothing comes of it.
pub open spec fn one_step(work: WorkView) -> bool {
    work is Do || work is Install || work is EndServer || work is Tell
}

/// Where a run succeeds, each single step among its tasks has been asked for,
/// and was done.
pub proof fn law_success_does_every_step(run: RunView, replies: Seq<ReplyView>, i: int)
    requires
        succeeds(run, replies),
        0 <= i < run.tasks.len(),
        one_step(run.tasks[i].work),
    ensures
        exists|n: int|
            0 <= n < replies.len() && #[trigger] done_by(
                run,
                replies,
                n,
                run.tasks[i].work.action(),
            ),
{
    law_success_gives_every_task_its_turn(run, replies, i);
    let n = choose|n: int| 0 <= n < replies.len() && #[trigger] turn_at(run, replies, i, n);
    assert(done_by(run, replies, n, run.tasks[i].work.action()));
}

/// The reply at `n` says that a dump of the instance was done.
pub open spec fn dump_done(
    run: RunView,
    replies: Seq<ReplyView>,
    n: int,
    instance: InstanceView,
) -> bool {
    exists|socket: Seq<u8>, data_path: Seq<u8>|
        done_by(
            run,
            replies,
            n,
            ActionView::Do(OpView::Dump(#[trigger] dump_of(instance, socket, data_path))),
        )
}

proof fn lemma_success_dumps_through(
    run: RunView,
    replies: Seq<ReplyView>,
    instance: InstanceView,
    socket: Seq<u8>,
) -> (done: (int, Seq<u8>))
    requires
        succeeds(run, replies),
        run.tasks.len() > 0,
        run.tasks[0].work == WorkView::DumpPath(instance, socket),
    ensures
        0 <= done.0 < replies.len(),
        done_by(
            run,
            replies,
            done.0,
            ActionView::Do(OpView::Dump(dump_of(instance, socket, done.1))),
        ),
{
    law_success_gives_every_task_its_turn(run, replies, 0);
    let n1 = choose|n: int| 0 <= n < replies.len() && #[trigger] turn_at(run, replies, 0, n);
    let data_path = replies[n1]->Path_0;
    let (run1, replies1) = lemma_after_turn(run, replies, 0, n1);
    let action = ActionView::Do(OpView::Dump(dump_of(instance, socket, data_path)));
    assert(run1.tasks[2].work.action() == action);
    law_success_does_every_step(run1, replies1, 2);
    let n2 = choose|n: int| 0 <= n < replies1.len() && #[trigger] done_by(run1, replies1, n, action);
    lemma_done_later(run, replies, n1 + 1, n2, action);
    (n1 + 1 + n2, data_path)
}

/// Where a run succeeds, each instance whose dump was planned has been dumped.
pub proof fn law_success_dumps(
    run: RunView,
    replies: Seq<ReplyView>,
    i: int,
    instance: InstanceView,
)
    requires
        succeeds(run, replies),
        0 <= i < run.tasks.len(),
        run.tasks[i].work == WorkView::DumpSocket(instance),
    ensures
        exists|n: int| 0 <= n < replies.len() && #[trigger] dump_done(run, replies, n, instance),
{
    law_success_gives_every_task_its_turn(run, replies, i);
    let n1 = choose|n: int| 0 <= n < replies.len() && #[trigger] turn_at(run, replies, i, n);
    let socket = replies[n1]->Path_0;
    let (run1, replies1) = lemma_after_turn(run, replies, i, n1);
    assert(run1.tasks[0].work == WorkView::DumpPath(instance, socket));
    let (n2, data_path) = lemma_success_dumps_through(run1, replies1, instance, socket);
    let action = ActionView::Do(OpView::Dump(dump_of(instance, socket, data_path)));
    lemma_done_later(run, replies, n1 + 1, n2, action);
    assert(dump_done(run, replies, n1 + 1 + n2, instance));
}

/// The reply at `n` says that the record of a backup was written to the place.
pub open spec fn record_done(
    run: RunView,
    replies: Seq<ReplyView>,
    n: int,
    place: LocationView,
) -> bool {
    match after_all(run, replies.take(n)).pending() {
        Some(ActionView::Do(OpView::WriteBackupMeta { path, meta: _ })) => {
            path == place && replies[n] is Done
        },
        _ => false,
    }
}

/// Where a run succeeds, each record of a backup that was planned has been
/// written.
pub proof fn law_success_records_the_backup(
    run: RunView,
    replies: Seq<ReplyView>,
    i: int,
    place: LocationView,
)
    requires
        succeeds(run, replies),
        0 <= i < run.tasks.len(),
        run.tasks[i].work == WorkView::StampBackup(place),
    ensures
        exists|n: int| 0 <= n < replies.len() && #[trigger] record_done(run, replies, n, place),
{
    law_success_gives_every_task_its_turn(run, replies, i);
    let n1 = choose|n: int| 0 <= n < replies.len() && #[trigger] turn_at(run, replies, i, n);
    let (run1, replies1) = lemma_after_turn(run, replies, i, n1);
    let action = run1.tasks[0].work.action();
    law_success_does_every_step(run1, replies1, 0);
    let n2 = choose|n: int| 0 <= n < replies1.len() && #[trigger] done_by(run1, replies1, n, action);
    lemma_done_later(run, replies, n1 + 1, n2, action);
    assert(record_done(run, replies, n1 + 1 + n2, place));
}

/// The reply at `n` says that the instance was initialized anew.
pub open spec fn init_done(
    run: RunView,
    replies: Seq<ReplyView>,
    n: int,
    reinit: ReinitView,
) -> bool {
    exists|marker: Seq<char>|
        done_by(
            run,
            replies,
            n,
            ActionView::Do(OpView::Init(#[trigger] reinit.init_options(marker))),
        )
}

/// Where a run succeeds, each instance that was to be initialized anew has been
/// initialized.
pub proof fn law_success_initializes(
    run: RunView,
    replies: Seq<ReplyView>,
    i: int,
    reinit: ReinitView,
)
    requires
        succeeds(run, replies),
        0 <= i < run.tasks.len(),
        run.tasks[i].work == WorkView::Identify(reinit),
    ensures
        exists|n: int| 0 <= n < replies.len() && #[trigger] init_done(run, replies, n, reinit),
{
    law_success_gives_every_task_its_turn(run, replies, i);
    let n1 = choose|n: int| 0 <= n < replies.len() && #[trigger] turn_at(run, replies, i, n);
    let (run1, replies1) = lemma_after_turn(run, replies, i, n1);
    assert(run1.tasks[0].work is EncodeMarker);
    law_success_gives_every_task_its_turn(run1, replies1, 0);
    let n2 = choose|n: int| 0 <= n < replies1.len() && #[trigger] turn_at(run1, replies1, 0, n);
    let marker = replies1[n2]->Text_0;
    let (run2, replies2) = lemma_after_turn(run1, replies1, 0, n2);
    let action = ActionView::Do(OpView::Init(reinit.init_options(marker)));
    assert(run2.tasks[0].work.action() == action);
    law_success_does_every_step(run2, replies2, 0);
    let n3 = choose|n: int| 0 <= n < replies2.len() && #[trigger] done_by(run2, replies2, n, action);
    lemma_done_later(run1, replies1, n2 + 1, n3, action);
    lemma_done_later(run, replies, n1 + 1, n2 + 1 + n3, action);
    assert(init_done(run, replies, n1 + 1 + (n2 + 1 + n3), reinit));
}

/// The reply at `n` says that a restore of the instance was done.
pub open spec fn restore_done(
    run: RunView,
    replies: Seq<ReplyView>,
    n: int,
    instance: InstanceView,
) -> bool {
    exists|socket: Seq<u8>|
        done_by(
            run,
            replies,
            n,
            ActionView::Do(OpView::Restore(#[trigger] restore_of(instance, socket))),
        )
}

/// Where a run succeeds, each instance whose restore was planned has been
/// restored.
pub proof fn law_success_restores(
    run: RunView,
    replies: Seq<ReplyView>,
    i: int,
    instance: InstanceView,
)
    requires
        succeeds(run, replies),
        0 <= i < run.tasks.len(),
        run.tasks[i].work == WorkView::RestoreSocket(instance),
    ensures
        exists|n: int| 0 <= n < replies.len() && #[trigger] restore_done(run, replies, n, instance),
{
    law_success_gives_every_task_its_turn(run, replies, i);
    let n1 = choose|n: int| 0 <= n < replies.len() && #[trigger] turn_at(run, replies, i, n);
    let socket = replies[n1]->Path_0;
    let (run1, replies1) = lemma_after_turn(run, replies, i, n1);
    let action = ActionView::Do(OpView::Restore(restore_of(instance, socket)));
    assert(run1.tasks[1].work.action() == action);
    law_success_does_every_step(run1, replies1, 1);
    let n2 = choose|n: int| 0 <= n < replies1.len() && #[trigger] done_by(run1, replies1, n, action);
    lemma_done_later(run, replies, n1 + 1, n2, action);
    assert(restore_done(run, replies, n1 + 1 + n2, instance));
}

/// Where the upgrade of instances within a major version succeeds, the package
/// has been installed, and each of the instances has been started.
pub proof fn law_successful_minor_upgrade(
    run: RunView,
    replies: Seq<ReplyView>,
    method: InstallMethodView,
    group: MajorGroupView,
    rest: Seq<MajorGroupView>,
    package: PackageInfoView,
    old_version: Option<VersionView>,
    i: int,
)
    requires
        succeeds(run, replies),
        minor_upgrade(method, group, rest, package, old_version).is_prefix_of(run.tasks),
        0 <= i < group.instances.len(),
    ensures
        exists|n: int|
            0 <= n < replies.len() && #[trigger] done_by(
                run,
                replies,
                n,
                ActionView::Install(
                    (InstallPlanView {
                        method,
                        package_name: package.package_name,
                        major_version: group.version,
                        version: package.version,
                        nightly: false,
                    }).settings(),
                ),
            ),
        exists|n: int|
            0 <= n < replies.len() && #[trigger] done_by(
                run,
                replies,
                n,
                ActionView::Do(
                    OpView::Start { name: group.instances[i].name, foreground: false },
                ),
            ),
{
    let tasks = minor_upgrade(method, group, rest, package, old_version);
    let n = group.instances.len() as int;
    law_minor_upgrade_stops_then_installs_then_starts(method, group, rest, package, old_version);
    let marked = group.instances[i].marked(old_version, package.full_version);
    let starts = tasks.subrange(2 * n + 2 * i + 2, 2 * n + 2 * i + 4);
    assert(starts == start_part(marked));
    assert(starts[1] == run.tasks[2 * n + 2 * i + 3]);
    assert(run.tasks[2 * n + 1] == tasks[2 * n + 1]);
    law_success_does_every_step(run, replies, 2 * n + 1);
    law_success_does_every_step(run, replies, 2 * n + 2 * i + 3);
}

/// The instance has been dumped, initialized anew, restored and started.
pub open spec fn brought_over(
    run: RunView,
    replies: Seq<ReplyView>,
    reinit: ReinitView,
) -> bool {
    let name = reinit.instance.name;
    let start = ActionView::Do(OpView::Start { name, foreground: false });
    &&& exists|n: int|
        0 <= n < replies.len() && #[trigger] dump_done(run, replies, n, reinit.instance)
    &&& exists|n: int| 0 <= n < replies.len() && #[trigger] init_done(run, replies, n, reinit)
    &&& exists|n: int|
        0 <= n < replies.len() && #[trigger] restore_done(run, replies, n, reinit.instance)
    &&& exists|n: int| 0 <= n < replies.len() && #[trigger] done_by(run, replies, n, start)
}

proof fn lemma_brought_over(
    run: RunView,
    replies: Seq<ReplyView>,
    reinit: ReinitView,
    dump: int,
    restore: int,
)
    requires
        succeeds(run, replies),
        0 <= dump,
        dump + 4 <= run.tasks.len(),
        run.tasks.subrange(dump, dump + 4) == dump_part(reinit.instance),
        0 <= restore,
        restore + 9 <= run.tasks.len(),
        run.tasks.subrange(restore, restore + 9) == restore_part(reinit),
    ensures
        brought_over(run, replies, reinit),
{
    let dumps = run.tasks.subrange(dump, dump + 4);
    let restores = run.tasks.subrange(restore, restore + 9);
    assert(run.tasks[dump + 2] == dumps[2]);
    assert(run.tasks[restore + 2] == restores[2]);
    assert(run.tasks[restore + 6] == restores[6]);
    assert(run.tasks[restore + 8] == restores[8]);
    law_success_dumps(run, replies, dump + 2, reinit.instance);
    law_success_initializes(run, replies, restore + 2, reinit);
    law_success_restores(run, replies, restore + 6, reinit.instance);
    law_success_does_every_step(run, replies, restore + 8);
}

/// Where the upgrade of nightlies succeeds, each of them has been dumped,
/// initialized anew, restored and started.
pub proof fn law_successful_nightly_upgrade(
    run: RunView,
    replies: Seq<ReplyView>,
    method: InstallMethodView,
    instances: Seq<InstanceView>,
    package: PackageInfoView,
    old_version: Option<VersionView>,
    i: int,
)
    requires
        succeeds(run, replies),
        nightly_upgrade(method, instances, package, old_version).is_prefix_of(run.tasks),
        0 <= i < instances.len(),
    ensures
        brought_over(
            run,
            replies,
            (ReinitView {
                instance: instances[i].marked(old_version, package.full_version),
                version: package.major_version,
                nightly: true,
                method,
            }),
        ),
{
    let tasks = nightly_upgrade(method, instances, package, old_version);
    let n = instances.len() as int;
    law_nightly_upgrade_dumps_then_installs_then_restores(
        method,
        instances,
        package,
        old_version,
    );
    let instance = instances[i].marked(old_version, package.full_version);
    let restore = 4 * n + 9 * i + 1;
    assert(tasks.subrange(4 * i, 4 * i + 4) == dump_part(instance));
    assert(run.tasks.subrange(4 * i, 4 * i + 4) =~= tasks.subrange(4 * i, 4 * i + 4));
    assert(run.tasks.subrange(restore, restore + 9) =~= tasks.subrange(restore, restore + 9));
    lemma_brought_over(
        run,
        replies,
        ReinitView { instance, version: package.major_version, nightly: true, method },
        4 * i,
        restore,
    );
}

/// Where the upgrade of one instance succeeds, it has been dumped, initialized
/// anew, restored and started.
pub proof fn law_successful_instance_upgrade(
    run: RunView,
    replies: Seq<ReplyView>,
    method: InstallMethodView,
    instance: InstanceView,
    query: VersionQueryView,
    package: PackageInfoView,
    old_version: Option<VersionView>,
)
    requires
        succeeds(run, replies),
        instance_upgrade(method, instance, query, package, old_version).is_prefix_of(run.tasks),
    ensures
        brought_over(
            run,
            replies,
            (ReinitView {
                instance: instance.marked(old_version, package.full_version),
                version: package.version,
                nightly: query is Nightly,
                method,
            }),
        ),
{
    let tasks = instance_upgrade(method, instance, query, package, old_version);
    law_instance_upgrade_dumps_then_installs_then_restores(
        method,
        instance,
        query,
        package,
        old_version,
    );
    let marked = instance.marked(old_version, package.full_version);
    assert(run.tasks.subrange(0, 4) =~= tasks.take(4));
    assert(run.tasks.subrange(5, 14) =~= tasks.skip(5));
    lemma_brought_over(
        run,
        replies,
        ReinitView {
            instance: marked,
            version: package.version,
            nightly: query is Nightly,
            method,
        },
        0,
        5,
    );
}

} // verus!
