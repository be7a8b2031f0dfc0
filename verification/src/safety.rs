//! No data is lost, and no server is left running.
use crate::course::{law_options_and_failure_stay, reached};
use crate::instance::{InstallMethodView, InstanceView};
use crate::location::{backup_name, dump_name, LocationView};
use crate::options::UpgradeView;
use crate::reach::{
    all_tasks, home_is, in_restore, law_all_is_done_in_the_data_directory, lemma_head_within,
    lemma_in_turn_all,
};
use crate::requests::{InitOptionsView, ReinitView, RestoreRequestView};
use crate::run::{job_tasks, server_end, OutcomeView, RunView};
use crate::script::{
    all_marked, dump_part, in_turn, instance_tasks, minor_jobs, minor_tasks, nightly_tasks,
    restore_part, restore_to, start_part, stop_part,
};
use crate::task::{ActionView, JobView, OpView, ReplyView, TaskView, WorkView};
use crate::version::{installed_version, up_to_date, PackageInfoView, VersionView};
use vstd::prelude::*;

verus! {

/// The task is the dump of an instance, or what it begins with.
spec fn dumps(task: TaskView) -> bool {
    task.scope is Dump && match task.work {
        WorkView::DumpSocket(_) => true,
        WorkView::DumpPath(_, _) => true,
        WorkView::Do(OpView::Dump(_)) => true,
        _ => false,
    }
}

/// The task is part of the restore of an instance, and not only the end of the
/// server.
spec fn restores(task: TaskView) -> bool {
    task.scope is Restore && !(task.work is EndServer)
}

/// The names of the instances that the tasks dump.
spec fn dumped_by(tasks: Seq<TaskView>) -> Set<Seq<char>>
    decreases tasks.len(),
{
    if tasks.len() == 0 {
        Set::empty()
    } else if dumps(tasks[0]) {
        dumped_by(tasks.drop_first()).insert(tasks[0].scope->Dump_0)
    } else {
        dumped_by(tasks.drop_first())
    }
}

/// Each part of a restore comes after the dump of the same instance, or the
/// instance is one of those dumped already.
spec fn guarded(tasks: Seq<TaskView>, dumped: Set<Seq<char>>) -> bool
    decreases tasks.len(),
{
    tasks.len() > 0 ==> {
        &&& restores(tasks[0]) ==> dumped.contains(tasks[0].scope->Restore_0)
        &&& guarded(
            tasks.drop_first(),
            if dumps(tasks[0]) {
                dumped.insert(tasks[0].scope->Dump_0)
            } else {
                dumped
            },
        )
    }
}

proof fn lemma_guarded_more(
    tasks: Seq<TaskView>,
    dumped: Set<Seq<char>>,
    more: Set<Seq<char>>,
)
    requires
        guarded(tasks, dumped),
        dumped.subset_of(more),
    ensures
        guarded(tasks, more),
    decreases tasks.len(),
{
    if tasks.len() > 0 {
        let rest = tasks.drop_first();
        if dumps(tasks[0]) {
            let name = tasks[0].scope->Dump_0;
            lemma_guarded_more(rest, dumped.insert(name), more.insert(name));
        } else {
            lemma_guarded_more(rest, dumped, more);
        }
    }
}

proof fn lemma_guarded_concat(a: Seq<TaskView>, b: Seq<TaskView>, dumped: Set<Seq<char>>)
    requires
        guarded(a, dumped),
        guarded(b, dumped.union(dumped_by(a))),
    ensures
        guarded(a + b, dumped),
    decreases a.len(),
{
    if a.len() == 0 {
        assert(a + b =~= b);
        assert(dumped.union(dumped_by(a)) =~= dumped);
    } else {
        let rest = a.drop_first();
        assert((a + b).drop_first() =~= rest + b);
        assert((a + b)[0] == a[0]);
        if dumps(a[0]) {
            let name = a[0].scope->Dump_0;
            assert(dumped.insert(name).union(dumped_by(rest)) =~= dumped.union(dumped_by(a)));
            lemma_guarded_concat(rest, b, dumped.insert(name));
        } else {
            lemma_guarded_concat(rest, b, dumped);
        }
    }
}

proof fn lemma_dumped_by_concat(a: Seq<TaskView>, b: Seq<TaskView>)
    ensures
        dumped_by(a + b) == dumped_by(a).union(dumped_by(b)),
    decreases a.len(),
{
    if a.len() == 0 {
        assert(a + b =~= b);
        assert(dumped_by(a).union(dumped_by(b)) =~= dumped_by(b));
    } else {
        let rest = a.drop_first();
        assert((a + b).drop_first() =~= rest + b);
        assert((a + b)[0] == a[0]);
        lemma_dumped_by_concat(rest, b);
        assert(dumped_by(a + b) =~= dumped_by(a).union(dumped_by(b)));
    }
}

/// What the tasks restore is one of the instances dumped already.
spec fn allowed(tasks: Seq<TaskView>, dumped: Set<Seq<char>>) -> bool {
    all_tasks(
        tasks,
        |task: TaskView| restores(task) ==> dumped.contains(task.scope->Restore_0),
    )
}

proof fn lemma_guarded_allowed(tasks: Seq<TaskView>, dumped: Set<Seq<char>>)
    requires
        allowed(tasks, dumped),
    ensures
        guarded(tasks, dumped),
    decreases tasks.len(),
{
    if tasks.len() > 0 {
        let rest = tasks.drop_first();
        let more = if dumps(tasks[0]) {
            dumped.insert(tasks[0].scope->Dump_0)
        } else {
            dumped
        };
        assert forall|i: int| 0 <= i < rest.len() && restores(
            #[trigger] rest[i],
        ) implies more.contains(rest[i].scope->Restore_0) by {
            assert(rest[i] == tasks[i + 1]);
            assert(dumped.contains(tasks[i + 1].scope->Restore_0));
        }
        assert(restores(tasks[0]) ==> dumped.contains(tasks[0].scope->Restore_0));
        lemma_guarded_allowed(rest, more);
    }
}

/// Tasks that are allowed can come before any others.
proof fn lemma_guarded_after_allowed(
    a: Seq<TaskView>,
    b: Seq<TaskView>,
    dumped: Set<Seq<char>>,
)
    requires
        allowed(a, dumped),
        guarded(b, dumped),
    ensures
        guarded(a + b, dumped),
{
    lemma_guarded_allowed(a, dumped);
    lemma_guarded_more(b, dumped, dumped.union(dumped_by(a)));
    lemma_guarded_concat(a, b, dumped);
}

/// The tasks restore nothing.
spec fn restore_nothing(tasks: Seq<TaskView>) -> bool {
    all_tasks(tasks, |task: TaskView| !restores(task))
}

proof fn lemma_dump_part(instance: InstanceView)
    ensures
        restore_nothing(dump_part(instance)),
        dumped_by(dump_part(instance)).contains(instance.name),
{
    let tasks = dump_part(instance);
    assert(dumps(tasks[2]));
    assert(tasks.drop_first().drop_first()[0] == tasks[2]);
    assert(dumped_by(tasks.drop_first().drop_first()).contains(instance.name));
    assert(dumped_by(tasks.drop_first()).contains(instance.name));
}

proof fn lemma_dump_all(instances: Seq<InstanceView>, part: spec_fn(InstanceView) -> Seq<TaskView>)
    requires
        part == (|instance: InstanceView| dump_part(instance)),
    ensures
        restore_nothing(in_turn(instances, part)),
        forall|i: int|
            0 <= i < instances.len() ==> dumped_by(in_turn(instances, part)).contains(
                (#[trigger] instances[i]).name,
            ),
    decreases instances.len(),
{
    if instances.len() > 0 {
        let earlier = instances.drop_last();
        lemma_dump_all(earlier, part);
        lemma_dump_part(instances.last());
        let first = in_turn(earlier, part);
        let last = part(instances.last());
        lemma_dumped_by_concat(first, last);
        assert forall|i: int| 0 <= i < (first + last).len() implies !restores(
            #[trigger] (first + last)[i],
        ) by {
            if i < first.len() {
                assert((first + last)[i] == first[i]);
            } else {
                assert((first + last)[i] == last[i - first.len()]);
            }
        }
        assert forall|i: int| 0 <= i < instances.len() implies dumped_by(first + last).contains(
            (#[trigger] instances[i]).name,
        ) by {
            if i < earlier.len() {
                assert(earlier[i] == instances[i]);
            }
        }
    }
}

proof fn lemma_restore_part(reinit: ReinitView, dumped: Set<Seq<char>>)
    requires
        dumped.contains(reinit.instance.name),
    ensures
        guarded(restore_part(reinit), dumped),
{
    lemma_guarded_allowed(restore_part(reinit), dumped);
}

proof fn lemma_restore_all(
    instances: Seq<InstanceView>,
    version: VersionView,
    nightly: bool,
    method: InstallMethodView,
    dumped: Set<Seq<char>>,
)
    requires
        forall|i: int| 0 <= i < instances.len() ==> dumped.contains((#[trigger] instances[i]).name),
    ensures
        guarded(in_turn(instances, restore_to(version, nightly, method)), dumped),
    decreases instances.len(),
{
    if instances.len() > 0 {
        let part = restore_to(version, nightly, method);
        let earlier = instances.drop_last();
        let last = instances.last();
        assert forall|i: int| 0 <= i < earlier.len() implies dumped.contains(
            (#[trigger] earlier[i]).name,
        ) by {
            assert(earlier[i] == instances[i]);
        }
        lemma_restore_all(earlier, version, nightly, method, dumped);
        assert(dumped.contains(instances[instances.len() - 1].name));
        let more = dumped.union(dumped_by(in_turn(earlier, part)));
        lemma_restore_part(ReinitView { instance: last, version, nightly, method }, more);
        lemma_guarded_concat(in_turn(earlier, part), part(last), dumped);
    }
}

proof fn lemma_job_guarded(
    method: InstallMethodView,
    job: JobView,
    package: PackageInfoView,
    old_version: Option<VersionView>,
    force: bool,
    dumped: Set<Seq<char>>,
)
    ensures
        guarded(job_tasks(method, job, package, old_version, force), dumped),
{
    let still = |task: TaskView| !restores(task);
    match job {
        JobView::Minor(group, rest) => {
            let marked = all_marked(group.instances, old_version, package.full_version);
            lemma_in_turn_all(marked, |instance: InstanceView| stop_part(instance), still);
            lemma_in_turn_all(marked, |instance: InstanceView| start_part(instance), still);
            assert(restore_nothing(minor_jobs(method, rest)));
            lemma_guarded_allowed(
                minor_tasks(method, group, rest, package, old_version, force),
                dumped,
            );
        },
        JobView::Nightly(instances) => {
            let tasks = nightly_tasks(method, instances, package, old_version, force);
            if up_to_date(old_version, package.full_version, force) {
                lemma_guarded_allowed(tasks, dumped);
            } else {
                let marked = all_marked(instances, old_version, package.full_version);
                let part = |instance: InstanceView| dump_part(instance);
                lemma_dump_all(marked, part);
                let first = in_turn(marked, part);
                let install = seq![tasks[first.len() as int]];
                let second = in_turn(marked, restore_to(package.major_version, true, method));
                assert(tasks =~= first + install + second);
                assert(restore_nothing(first + install));
                lemma_dumped_by_concat(first, install);
                let more = dumped.union(dumped_by(first + install));
                lemma_restore_all(marked, package.major_version, true, method, more);
                lemma_guarded_allowed(first + install, dumped);
                lemma_guarded_concat(first + install, second, dumped);
            }
        },
        JobView::Single(instance, query) => {
            let tasks = instance_tasks(method, instance, query, package, old_version, force);
            if up_to_date(old_version, package.full_version, force) {
                lemma_guarded_allowed(tasks, dumped);
            } else {
                let marked = instance.marked(old_version, package.full_version);
                let reinit = ReinitView {
                    instance: marked,
                    version: package.version,
                    nightly: query is Nightly,
                    method,
                };
                lemma_dump_part(marked);
                let first = dump_part(marked);
                let install = seq![tasks[first.len() as int]];
                assert(tasks =~= first + install + restore_part(reinit));
                assert(restore_nothing(first + install));
                lemma_dumped_by_concat(first, install);
                let more = dumped.union(dumped_by(first + install));
                lemma_restore_part(reinit, more);
                lemma_guarded_allowed(first + install, dumped);
                lemma_guarded_concat(first + install, restore_part(reinit), dumped);
            }
        },
    }
}

/// The names of the instances whose dump was done.
spec fn dumped_so_far(options: UpgradeView, replies: Seq<ReplyView>) -> Set<Seq<char>>
    decreases replies.len(),
{
    if replies.len() == 0 {
        Set::empty()
    } else {
        let earlier = replies.drop_last();
        let run = reached(options, earlier);
        match run.pending() {
            Some(ActionView::Do(OpView::Dump(_))) => if replies.last() is Done {
                dumped_so_far(options, earlier).insert(run.tasks[0].scope->Dump_0)
            } else {
                dumped_so_far(options, earlier)
            },
            _ => dumped_so_far(options, earlier),
        }
    }
}

proof fn lemma_guarded_step(
    options: UpgradeView,
    tasks: Seq<TaskView>,
    reply: ReplyView,
    dumped: Set<Seq<char>>,
)
    requires
        tasks.len() > 0,
        guarded(tasks, dumped),
    ensures
        tasks[0].outcome(options, reply) matches OutcomeView::Next(next) ==> guarded(
            next + tasks.drop_first(),
            if tasks[0].work is Do && tasks[0].work->Do_0 is Dump && tasks[0].scope is Dump {
                dumped.insert(tasks[0].scope->Dump_0)
            } else {
                dumped
            },
        ),
{
    let task = tasks[0];
    let rest = tasks.drop_first();
    if let OutcomeView::Next(next) = task.outcome(options, reply) {
        match task.work {
            WorkView::GetInstalled(method, job, package) => {
                let old_version = installed_version(reply->Packages_0);
                lemma_job_guarded(method, job, package, old_version, options.force, dumped);
                lemma_guarded_more(rest, dumped, dumped.union(dumped_by(next)));
                lemma_guarded_concat(next, rest, dumped);
            },
            WorkView::DumpSocket(_) => {
                assert(next.drop_first() =~= seq![]);
                if task.scope is Dump {
                    assert(dumped_by(next.drop_first()) =~= Set::empty());
                    assert(dumped.union(dumped_by(next)) =~= dumped.insert(task.scope->Dump_0));
                    lemma_guarded_allowed(next, dumped);
                    lemma_guarded_concat(next, rest, dumped);
                } else {
                    lemma_guarded_after_allowed(next, rest, dumped);
                }
            },
            WorkView::DumpPath(_, _) => {
                if task.scope is Dump {
                    assert(dumps(next[2]));
                    let last = next.drop_first().drop_first();
                    assert(last[0] == next[2]);
                    assert(dumped_by(last).contains(task.scope->Dump_0));
                    assert(dumped_by(next.drop_first()).contains(task.scope->Dump_0));
                    lemma_guarded_allowed(next, dumped);
                    lemma_guarded_more(
                        rest,
                        dumped.insert(task.scope->Dump_0),
                        dumped.union(dumped_by(next)),
                    );
                    lemma_guarded_concat(next, rest, dumped);
                } else {
                    lemma_guarded_after_allowed(next, rest, dumped);
                }
            },
            WorkView::Do(_) => {
                assert(next + rest =~= rest);
            },
            _ => {
                assert(allowed(next, dumped));
                lemma_guarded_after_allowed(next, rest, dumped);
            },
        }
    }
}

proof fn lemma_guarded(options: UpgradeView, replies: Seq<ReplyView>)
    ensures
        guarded(reached(options, replies).tasks, dumped_so_far(options, replies)),
    decreases replies.len(),
{
    if replies.len() == 0 {
        lemma_guarded_allowed(RunView::start(options).tasks, Set::empty());
    } else {
        let earlier = replies.drop_last();
        let run = reached(options, earlier);
        let dumped = dumped_so_far(options, earlier);
        lemma_guarded(options, earlier);
        law_options_and_failure_stay(RunView::start(options), earlier);
        if run.tasks.len() > 0 {
            lemma_guarded_step(options, run.tasks, replies.last(), dumped);
            lemma_head_within(options, earlier);
            match run.tasks[0].outcome(options, replies.last()) {
                OutcomeView::Next(_) => {},
                OutcomeView::Failure(_) => {
                    lemma_server_end_restores_nothing(run.tasks);
                    lemma_guarded_allowed(server_end(run.tasks), dumped);
                },
                OutcomeView::Unfit => {},
            }
        }
    }
}

proof fn lemma_server_end_restores_nothing(tasks: Seq<TaskView>)
    ensures
        restore_nothing(server_end(tasks)),
    decreases tasks.len(),
{
    if tasks.len() > 0 {
        lemma_server_end_restores_nothing(tasks.drop_first());
    }
}

/// The reply at `n` says that the dump of the named instance was done.
pub open spec fn dump_done_by(
    options: UpgradeView,
    replies: Seq<ReplyView>,
    n: int,
    name: Seq<char>,
) -> bool {
    match reached(options, replies.take(n)).pending() {
        Some(ActionView::Do(OpView::Dump(request))) => {
            &&& replies[n] is Done
            &&& request.path.names == seq![dump_name(name)]
        },
        _ => false,
    }
}

proof fn lemma_dumped_so_far(options: UpgradeView, replies: Seq<ReplyView>, name: Seq<char>)
    requires
        dumped_so_far(options, replies).contains(name),
    ensures
        exists|n: int| 0 <= n < replies.len() && #[trigger] dump_done_by(options, replies, n, name),
    decreases replies.len(),
{
    let earlier = replies.drop_last();
    let run = reached(options, earlier);
    if dumped_so_far(options, earlier).contains(name) {
        lemma_dumped_so_far(options, earlier, name);
        let n = choose|n: int|
            0 <= n < earlier.len() && #[trigger] dump_done_by(options, earlier, n, name);
        assert(replies.take(n) =~= earlier.take(n));
        assert(dump_done_by(options, replies, n, name));
    } else {
        lemma_head_within(options, earlier);
        let n = earlier.len() as int;
        assert(replies.take(n) =~= earlier);
        assert(dump_done_by(options, replies, n, name));
    }
}

/// No part of the restore of an instance is done until the instance has been
/// dumped; only the end of a server can come without.
pub proof fn law_restore_comes_after_the_dump(options: UpgradeView, replies: Seq<ReplyView>)
    requires
        reached(options, replies).tasks.len() > 0,
        reached(options, replies).tasks[0].scope is Restore,
        reached(options, replies).pending() != Some(ActionView::EndServer),
    ensures
        exists|n: int|
            0 <= n < replies.len() && #[trigger] dump_done_by(
                options,
                replies,
                n,
                reached(options, replies).tasks[0].scope->Restore_0,
            ),
{
    lemma_guarded(options, replies);
    lemma_dumped_so_far(options, replies, reached(options, replies).tasks[0].scope->Restore_0);
}

/// The data of an instance is moved only once the instance has been dumped.
pub proof fn law_data_is_moved_only_once_dumped(
    options: UpgradeView,
    replies: Seq<ReplyView>,
    from: LocationView,
    to: LocationView,
)
    requires
        reached(options, replies).pending() == Some(ActionView::Do(OpView::Rename { from, to })),
    ensures
        exists|n: int|
            0 <= n < replies.len() && #[trigger] dump_done_by(
                options,
                replies,
                n,
                from.names.last(),
            ),
{
    lemma_head_within(options, replies);
    law_restore_comes_after_the_dump(options, replies);
    let name = reached(options, replies).tasks[0].scope->Restore_0;
    let parent = choose|parent: LocationView|
        from == #[trigger] parent.join(name) && to == parent.join(backup_name(name));
    assert(from.names.last() == name);
}

/// An instance is initialized anew only once it has been dumped.
pub proof fn law_instance_is_initialized_only_once_dumped(
    options: UpgradeView,
    replies: Seq<ReplyView>,
    init: InitOptionsView,
)
    requires
        reached(options, replies).pending() == Some(ActionView::Do(OpView::Init(init))),
    ensures
        exists|n: int|
            0 <= n < replies.len() && #[trigger] dump_done_by(options, replies, n, init.name),
{
    lemma_head_within(options, replies);
    law_restore_comes_after_the_dump(options, replies);
}

/// The reply at `n` says that a dump to the place was done.
pub open spec fn dump_done_to(
    options: UpgradeView,
    replies: Seq<ReplyView>,
    n: int,
    place: LocationView,
) -> bool {
    match reached(options, replies.take(n)).pending() {
        Some(ActionView::Do(OpView::Dump(request))) => {
            &&& replies[n] is Done
            &&& request.path == place
        },
        _ => false,
    }
}

/// Where the run is always told the same directory of instances, an instance is
/// restored from where a dump was done to.
pub proof fn law_restore_reads_what_was_dumped(
    options: UpgradeView,
    replies: Seq<ReplyView>,
    home: LocationView,
    request: RestoreRequestView,
)
    requires
        home_is(options, replies, home),
        reached(options, replies).pending() == Some(ActionView::Do(OpView::Restore(request))),
    ensures
        exists|n: int|
            0 <= n < replies.len() && #[trigger] dump_done_to(options, replies, n, request.path),
{
    lemma_head_within(options, replies);
    law_restore_comes_after_the_dump(options, replies);
    law_all_is_done_in_the_data_directory(options, replies, home, OpView::Restore(request));
    let name = reached(options, replies).tasks[0].scope->Restore_0;
    let n = choose|n: int|
        0 <= n < replies.len() && #[trigger] dump_done_by(options, replies, n, name);
    let earlier = replies.take(n);
    assert forall|m: int| 0 <= m < earlier.len() && (#[trigger] reached(
        options,
        earlier.take(m),
    ).pending() matches Some(ActionView::DataPath { system: _ })) implies (
    earlier[m] matches ReplyView::Path(path) ==> LocationView::top(path) == home) by {
        assert(earlier.take(m) =~= replies.take(m));
        assert(reached(options, replies.take(m)).pending() is Some);
    }
    let dump = reached(options, earlier).pending()->0->Do_0->Dump_0;
    law_all_is_done_in_the_data_directory(options, earlier, home, OpView::Dump(dump));
    let own = dump_name(reached(options, earlier).tasks[0].scope->Dump_0);
    assert(home.join(own).names.last() == own);
    assert(seq![dump_name(name)].last() == dump_name(name));
    assert(dump_done_to(options, replies, n, request.path));
}

/// Whether a server is running once the tasks are done, if it was `on` before.
spec fn on_after(tasks: Seq<TaskView>, on: bool) -> bool
    decreases tasks.len(),
{
    if tasks.len() == 0 {
        on
    } else {
        on_after(
            tasks.drop_first(),
            match tasks[0].work {
                WorkView::Do(OpView::RunServer { args: _ }) => true,
                WorkView::EndServer => false,
                _ => on,
            },
        )
    }
}

/// No server is run or ended twice, and while one runs, all that is done is
/// part of a restore.
spec fn bracketed(tasks: Seq<TaskView>, on: bool) -> bool
    decreases tasks.len(),
{
    tasks.len() > 0 ==> {
        let rest = tasks.drop_first();
        &&& on ==> tasks[0].scope is Restore
        &&& match tasks[0].work {
            WorkView::Do(OpView::RunServer { args: _ }) => !on && bracketed(rest, true),
            WorkView::EndServer => on && bracketed(rest, false),
            _ => bracketed(rest, on),
        }
    }
}

proof fn lemma_bracketed_concat(a: Seq<TaskView>, b: Seq<TaskView>, on: bool)
    requires
        bracketed(a, on),
        bracketed(b, on_after(a, on)),
    ensures
        bracketed(a + b, on),
        on_after(a + b, on) == on_after(b, on_after(a, on)),
    decreases a.len(),
{
    if a.len() == 0 {
        assert(a + b =~= b);
    } else {
        let rest = a.drop_first();
        assert((a + b).drop_first() =~= rest + b);
        assert((a + b)[0] == a[0]);
        match a[0].work {
            WorkView::Do(OpView::RunServer { args: _ }) => {
                lemma_bracketed_concat(rest, b, true);
            },
            WorkView::EndServer => {
                lemma_bracketed_concat(rest, b, false);
            },
            _ => {
                lemma_bracketed_concat(rest, b, on);
            },
        }
    }
}

/// The task neither runs nor ends a server.
spec fn leaves_server(task: TaskView) -> bool {
    match task.work {
        WorkView::Do(OpView::RunServer { args: _ }) => false,
        WorkView::EndServer => false,
        _ => true,
    }
}

proof fn lemma_bracketed_quiet(tasks: Seq<TaskView>, on: bool)
    requires
        all_tasks(tasks, |task: TaskView| leaves_server(task)),
        on ==> all_tasks(tasks, |task: TaskView| task.scope is Restore),
    ensures
        bracketed(tasks, on),
        on_after(tasks, on) == on,
    decreases tasks.len(),
{
    if tasks.len() > 0 {
        let rest = tasks.drop_first();
        assert forall|i: int| 0 <= i < rest.len() implies leaves_server(#[trigger] rest[i]) && (on
            ==> rest[i].scope is Restore) by {
            assert(rest[i] == tasks[i + 1]);
            assert(leaves_server(tasks[i + 1]));
        }
        assert(leaves_server(tasks[0]));
        lemma_bracketed_quiet(rest, on);
    }
}

proof fn lemma_bracketed_restore(reinit: ReinitView)
    ensures
        bracketed(restore_part(reinit), false),
        !on_after(restore_part(reinit), false),
{
    reveal_with_fuel(bracketed, 10);
    reveal_with_fuel(on_after, 10);
}

proof fn lemma_bracketed_restore_all(
    instances: Seq<InstanceView>,
    version: VersionView,
    nightly: bool,
    method: InstallMethodView,
)
    ensures
        bracketed(in_turn(instances, restore_to(version, nightly, method)), false),
        !on_after(in_turn(instances, restore_to(version, nightly, method)), false),
    decreases instances.len(),
{
    if instances.len() > 0 {
        let part = restore_to(version, nightly, method);
        let earlier = in_turn(instances.drop_last(), part);
        lemma_bracketed_restore_all(instances.drop_last(), version, nightly, method);
        lemma_bracketed_restore(
            ReinitView { instance: instances.last(), version, nightly, method },
        );
        lemma_bracketed_concat(earlier, part(instances.last()), false);
    }
}

proof fn lemma_bracketed_job(
    method: InstallMethodView,
    job: JobView,
    package: PackageInfoView,
    old_version: Option<VersionView>,
    force: bool,
)
    ensures
        bracketed(job_tasks(method, job, package, old_version, force), false),
        !on_after(job_tasks(method, job, package, old_version, force), false),
{
    let quiet = |task: TaskView| leaves_server(task);
    let tasks = job_tasks(method, job, package, old_version, force);
    if up_to_date(old_version, package.full_version, force) {
        lemma_bracketed_quiet(tasks, false);
    } else {
        match job {
            JobView::Minor(group, rest) => {
                let marked = all_marked(group.instances, old_version, package.full_version);
                lemma_in_turn_all(marked, |instance: InstanceView| stop_part(instance), quiet);
                lemma_in_turn_all(marked, |instance: InstanceView| start_part(instance), quiet);
                assert(all_tasks(minor_jobs(method, rest), quiet));
                lemma_bracketed_quiet(tasks, false);
            },
            JobView::Nightly(instances) => {
                let marked = all_marked(instances, old_version, package.full_version);
                let part = |instance: InstanceView| dump_part(instance);
                lemma_in_turn_all(marked, part, quiet);
                let dumps = in_turn(marked, part);
                let first = dumps + seq![tasks[dumps.len() as int]];
                let second = in_turn(marked, restore_to(package.major_version, true, method));
                assert(tasks =~= first + second);
                lemma_bracketed_quiet(first, false);
                lemma_bracketed_restore_all(marked, package.major_version, true, method);
                lemma_bracketed_concat(first, second, false);
            },
            JobView::Single(instance, query) => {
                let marked = instance.marked(old_version, package.full_version);
                let reinit = ReinitView {
                    instance: marked,
                    version: package.version,
                    nightly: query is Nightly,
                    method,
                };
                let first = dump_part(marked) + seq![tasks[4]];
                assert(tasks =~= first + restore_part(reinit));
                lemma_bracketed_quiet(first, false);
                lemma_bracketed_restore(reinit);
                lemma_bracketed_concat(first, restore_part(reinit), false);
            },
        }
    }
}

proof fn lemma_bracketed_end(tasks: Seq<TaskView>, on: bool)
    requires
        bracketed(tasks, on),
        !on_after(tasks, on),
    ensures
        bracketed(server_end(tasks), on),
        !on_after(server_end(tasks), on),
        server_end(tasks).len() == if on {
            1int
        } else {
            0
        },
    decreases tasks.len(),
{
    if tasks.len() > 0 {
        match tasks[0].work {
            WorkView::EndServer => {
                reveal_with_fuel(bracketed, 2);
                reveal_with_fuel(on_after, 2);
            },
            WorkView::Do(OpView::RunServer { args: _ }) => {},
            _ => {
                lemma_bracketed_end(tasks.drop_first(), on);
            },
        }
    }
}

/// After the replies, a server is running that the run has started.
pub open spec fn server_on(options: UpgradeView, replies: Seq<ReplyView>) -> bool
    decreases replies.len(),
{
    if replies.len() == 0 {
        false
    } else {
        let earlier = replies.drop_last();
        if replies.last() is Done {
            match reached(options, earlier).pending() {
                Some(ActionView::Do(OpView::RunServer { args: _ })) => true,
                Some(ActionView::EndServer) => false,
                _ => server_on(options, earlier),
            }
        } else {
            server_on(options, earlier)
        }
    }
}

proof fn lemma_bracketed_step(
    options: UpgradeView,
    tasks: Seq<TaskView>,
    reply: ReplyView,
    on: bool,
)
    requires
        tasks.len() > 0,
        bracketed(tasks, on),
        !on_after(tasks, on),
        tasks[0].scope is Restore ==> in_restore(tasks[0].work),
    ensures
        tasks[0].outcome(options, reply) matches OutcomeView::Next(next) ==> {
            let now = match tasks[0].work {
                WorkView::Do(OpView::RunServer { args: _ }) => true,
                WorkView::EndServer => false,
                _ => on,
            };
            &&& bracketed(next + tasks.drop_first(), now)
            &&& !on_after(next + tasks.drop_first(), now)
        },
{
    let task = tasks[0];
    let rest = tasks.drop_first();
    if let OutcomeView::Next(next) = task.outcome(options, reply) {
        match task.work {
            WorkView::GetInstalled(method, job, package) => {
                let old_version = installed_version(reply->Packages_0);
                lemma_bracketed_job(method, job, package, old_version, options.force);
                lemma_bracketed_concat(next, rest, on);
            },
            WorkView::Do(_) => {
                assert(next + rest =~= rest);
            },
            WorkView::EndServer => {
                assert(next + rest =~= rest);
            },
            WorkView::MakeMethod(group) => {
                assert(all_tasks(next, |task: TaskView| leaves_server(task)));
                lemma_bracketed_quiet(next, on);
                lemma_bracketed_concat(next, rest, on);
            },
            _ => {
                assert(all_tasks(next, |task: TaskView| leaves_server(task)));
                assert(on ==> all_tasks(next, |task: TaskView| task.scope is Restore));
                lemma_bracketed_quiet(next, on);
                lemma_bracketed_concat(next, rest, on);
            },
        }
    }
}

proof fn lemma_bracketed(options: UpgradeView, replies: Seq<ReplyView>)
    ensures
        bracketed(reached(options, replies).tasks, server_on(options, replies)),
        !on_after(reached(options, replies).tasks, server_on(options, replies)),
    decreases replies.len(),
{
    if replies.len() == 0 {
        lemma_bracketed_quiet(RunView::start(options).tasks, false);
    } else {
        let earlier = replies.drop_last();
        let run = reached(options, earlier);
        let on = server_on(options, earlier);
        lemma_bracketed(options, earlier);
        law_options_and_failure_stay(RunView::start(options), earlier);
        if run.tasks.len() > 0 {
            lemma_head_within(options, earlier);
            lemma_bracketed_step(options, run.tasks, replies.last(), on);
            lemma_bracketed_end(run.tasks, on);
        }
    }
}

/// A run that is over, whether it has failed or not, has left no server
/// running.
pub proof fn law_no_server_is_left_running(options: UpgradeView, replies: Seq<ReplyView>)
    requires
        reached(options, replies).pending() is None,
    ensures
        !server_on(options, replies),
{
    lemma_bracketed(options, replies);
}

/// While a server runs, all that is asked for is part of the restore of an
/// instance, and no second server is run.
pub proof fn law_server_runs_for_a_restore(options: UpgradeView, replies: Seq<ReplyView>)
    requires
        server_on(options, replies),
    ensures
        reached(options, replies).tasks.len() > 0,
        reached(options, replies).tasks[0].scope is Restore,
        !(reached(options, replies).pending() matches Some(ActionView::Do(op)) && op is RunServer),
{
    lemma_bracketed(options, replies);
}

/// A server is only ended while one runs.
pub proof fn law_only_a_running_server_is_ended(options: UpgradeView, replies: Seq<ReplyView>)
    requires
        reached(options, replies).pending() == Some(ActionView::EndServer),
    ensures
        server_on(options, replies),
{
    lemma_bracketed(options, replies);
}

} // verus!
