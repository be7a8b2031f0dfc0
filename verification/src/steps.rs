//! What a run asks for, and what each reply leads to, step by step.
use crate::course::{law_options_and_failure_stay, reached};
use crate::decisions::{
    law_first_match_is_installed, law_no_match_is_not_installed, law_up_to_date_goes_by_the_key,
};
use crate::instance::{BackupMeta, ControlRequestView, InstallMethodView, InstanceView};
use crate::location::LocationView;
use crate::options::UpgradeView;
use crate::order::key_less;
use crate::requests::{dump_of, restore_of, InstallPlanView, ReinitView};
use crate::run::{by_major, by_method, server_end, RunView};
use crate::script::{
    dump_part, instance_upgrade, minor_upgrade, nightly_upgrade, restore_part, start_part,
    stop_part,
};
use crate::selection::{joined_names, selected};
use crate::sequence::{
    law_instance_upgrade_dumps_then_installs_then_restores,
    law_minor_upgrade_stops_then_installs_then_starts,
    law_nightly_upgrade_dumps_then_installs_then_restores,
};
use crate::task::{
    ActionView, ContextView, JobView, MajorGroupView, OpView, ReplyView, ReportView, ScopeView,
    TaskView, WorkView,
};
use crate::version::{
    installed_version, InstalledPackageView, PackageInfoView, VersionQueryView, VersionView,
};
use vstd::prelude::*;

verus! {

/// A run begins with the search for the instances, after a word to the user
/// where one instance and all nightlies were asked for.
pub proof fn law_run_begins(options: UpgradeView)
    ensures
        ({
            let run = RunView::start(options);
            let locate = TaskView { scope: ScopeView::Upgrade, work: WorkView::LocateInstances };
            let tell = TaskView {
                scope: ScopeView::Upgrade,
                work: WorkView::Tell(ReportView::NameWithNightly),
            };
            &&& run.options == options
            &&& run.failure is None
            &&& options.name is Some && options.nightly ==> run.tasks == seq![tell, locate]
            &&& options.name is None || !options.nightly ==> run.tasks == seq![locate]
        }),
{
    let run = RunView::start(options);
    let locate = TaskView { scope: ScopeView::Upgrade, work: WorkView::LocateInstances };
    if options.name is Some && options.nightly {
        assert(run.tasks =~= seq![run.tasks[0], locate]);
    } else {
        assert(run.tasks =~= seq![locate]);
    }
}

/// A run that has tasks left waits for what the first of them asks for, and one
/// that has none is over.
pub proof fn law_first_task_is_waited_for(run: RunView)
    ensures
        run.tasks.len() == 0 ==> run.pending() is None,
        run.tasks.len() > 0 ==> run.pending() == Some(run.tasks[0].work.action()),
{
}

/// What each piece of work asks for.
pub proof fn law_work_asks(work: WorkView)
    ensures
        match work {
            WorkView::LocateInstances => work.action() == (ActionView::DataPath { system: false }),
            WorkView::CheckInstances(path) => work.action() == ActionView::Exists(path),
            WorkView::OpenInstances(path) => work.action() == ActionView::ReadDir(path),
            WorkView::NextEntry(_) => work.action() is NextEntry,
            WorkView::ReadMetadata(listing, name) => work.action() == ActionView::ReadMetadata(
                listing.path.join(name).join("metadata.json"@),
            ),
            WorkView::DetectOs(_) => work.action() is CurrentOs,
            WorkView::ListMethods(_) => work.action() is AvailableMethods,
            WorkView::CheckMethod(group) => work.action() == ActionView::IsSupported(group.method),
            WorkView::MakeMethod(group) => work.action() == ActionView::MakeMethod(group.method),
            WorkView::GetVersion(_, job) => work.action() == ActionView::GetVersion(job.query()),
            WorkView::GetInstalled(_, job, _) => work.action() == ActionView::InstalledVersions(
                job.query(),
            ),
            WorkView::Install(plan) => work.action() == ActionView::Install(plan.settings()),
            WorkView::Do(op) => work.action() == ActionView::Do(op),
            WorkView::TryStop(name) => work.action() == ActionView::Do(OpView::Stop { name }),
            WorkView::DumpSocket(_) => work.action() == (ActionView::GetSocket { admin: true }),
            WorkView::DumpPath(_, _) => work.action() == (ActionView::DataPath { system: false }),
            WorkView::CheckDump(path) => work.action() == ActionView::Exists(path),
            WorkView::StampBackup(_) => work.action() is Now,
            WorkView::Identify(_) => work.action() is Identity,
            WorkView::EncodeMarker(_, meta) => work.action() == ActionView::Encode(meta),
            WorkView::RestoreSocket(_) => work.action() == (ActionView::GetSocket { admin: true }),
            WorkView::EndServer => work.action() is EndServer,
            WorkView::Tell(report) => work.action() == ActionView::Tell(report),
        },
{
}

/// The reply is taken, and these tasks stand in the place of the first one.
pub open spec fn leads_to(run: RunView, reply: ReplyView, tasks: Seq<TaskView>) -> bool {
    let after = run.after(reply);
    &&& run.accepts(reply)
    &&& after.tasks == tasks + run.tasks.drop_first()
    &&& after.options == run.options
    &&& after.failure == run.failure
}

/// How the instances are found: the directory is asked for, looked for, opened
/// and read to its end; an instance whose metadata cannot be read is told and
/// left out; and at the end the instances asked for go on, or the user is told
/// that there are none.
pub proof fn law_finding_steps(run: RunView, reply: ReplyView)
    requires
        run.tasks.len() > 0,
    ensures
        ({
            let upgrade = ScopeView::Upgrade;
            match (run.tasks[0].work, reply) {
                (WorkView::LocateInstances, ReplyView::Path(path)) => leads_to(
                    run,
                    reply,
                    seq![
                        TaskView {
                            scope: upgrade,
                            work: WorkView::CheckInstances(
                                LocationView { base: path, names: seq![] },
                            ),
                        },
                    ],
                ),
                (WorkView::CheckInstances(path), ReplyView::Answer(true)) => leads_to(
                    run,
                    reply,
                    seq![TaskView { scope: upgrade, work: WorkView::OpenInstances(path) }],
                ),
                (WorkView::CheckInstances(path), ReplyView::Answer(false)) => leads_to(
                    run,
                    reply,
                    seq![
                        TaskView {
                            scope: upgrade,
                            work: WorkView::Tell(
                                ReportView::NoInstances { without_nightly: !run.options.nightly },
                            ),
                        },
                    ],
                ),
                (WorkView::OpenInstances(path), ReplyView::Done) => {
                    &&& run.accepts(reply)
                    &&& run.after(reply).tasks.len() == run.tasks.len()
                    &&& run.after(reply).tasks.drop_first() == run.tasks.drop_first()
                    &&& run.after(reply).failure == run.failure
                    &&& run.after(reply).options == run.options
                    &&& run.after(reply).tasks[0].scope is Upgrade
                    &&& run.after(reply).tasks[0].work is NextEntry
                    &&& run.after(reply).tasks[0].work->NextEntry_0.path == path
                    &&& run.after(reply).tasks[0].work->NextEntry_0.found.len() == 0
                },
                (WorkView::NextEntry(listing), ReplyView::End) => {
                    let instances = selected(run.options.todo(), listing.found);
                    &&& instances.len() == 0 ==> leads_to(
                        run,
                        reply,
                        seq![
                            TaskView {
                                scope: upgrade,
                                work: WorkView::Tell(
                                    ReportView::NoInstances {
                                        without_nightly: !run.options.nightly,
                                    },
                                ),
                            },
                        ],
                    )
                    &&& instances.len() > 0 ==> leads_to(
                        run,
                        reply,
                        seq![
                            TaskView {
                                scope: upgrade,
                                work: WorkView::DetectOs(by_method(instances)),
                            },
                        ],
                    )
                },
                (WorkView::NextEntry(listing), ReplyView::Entry(entry)) => {
                    &&& entry.is_dir is None ==> {
                        &&& run.accepts(reply)
                        &&& run.after(reply).failure == Some(
                            seq![ContextView::DeterminingEntryType(listing.path)],
                        )
                        &&& run.after(reply).options == run.options
                        &&& run.after(reply).tasks == server_end(run.tasks)
                    }
                    &&& entry.is_dir == Some(true) && entry.name is Some && entry.valid_name
                        ==> leads_to(
                        run,
                        reply,
                        seq![
                            TaskView {
                                scope: upgrade,
                                work: WorkView::ReadMetadata(listing, entry.name->0),
                            },
                        ],
                    )
                    &&& entry.is_dir == Some(false) || (entry.is_dir is Some && (entry.name is None
                        || !entry.valid_name)) ==> leads_to(
                        run,
                        reply,
                        seq![TaskView { scope: upgrade, work: WorkView::NextEntry(listing) }],
                    )
                },
                (WorkView::ReadMetadata(listing, name), ReplyView::Metadata(meta)) => leads_to(
                    run,
                    reply,
                    seq![
                        TaskView {
                            scope: upgrade,
                            work: WorkView::NextEntry(listing.with(name, meta)),
                        },
                    ],
                ),
                (WorkView::ReadMetadata(listing, name), ReplyView::Failed) => leads_to(
                    run,
                    reply,
                    seq![
                        TaskView {
                            scope: upgrade,
                            work: WorkView::Tell(ReportView::MetadataUnreadable { name }),
                        },
                        TaskView { scope: upgrade, work: WorkView::NextEntry(listing) },
                    ],
                ),
                _ => true,
            }
        }),
{
    match (run.tasks[0].work, reply) {
        (WorkView::LocateInstances, ReplyView::Path(path)) => {
            assert(LocationView::top(path) =~= LocationView { base: path, names: seq![] });
        },
        (WorkView::CheckInstances(_), ReplyView::Answer(false)) => {
            reveal(Seq::filter);
            assert(selected(run.options.todo(), seq![]).len() == 0);
        },
        (WorkView::OpenInstances(_), ReplyView::Done) => {
            assert(run.after(reply).tasks.drop_first() =~= run.tasks.drop_first());
        },
        _ => {},
    }
}

/// How the methods are gone through: each group is looked at, and told of where
/// its method is not supported; a method that is made ready begins the jobs of
/// its instances, as the options have them; and each job asks for the version
/// on offer before it asks for what is installed.
pub proof fn law_method_steps(run: RunView, reply: ReplyView)
    requires
        run.tasks.len() > 0,
    ensures
        ({
            let upgrade = ScopeView::Upgrade;
            match (run.tasks[0].work, reply) {
                (WorkView::DetectOs(groups), ReplyView::Done) => leads_to(
                    run,
                    reply,
                    seq![TaskView { scope: upgrade, work: WorkView::ListMethods(groups) }],
                ),
                (WorkView::ListMethods(groups), ReplyView::Done) => leads_to(
                    run,
                    reply,
                    Seq::new(
                        groups.len(),
                        |i: int|
                            TaskView { scope: upgrade, work: WorkView::CheckMethod(groups[i]) },
                    ),
                ),
                (WorkView::CheckMethod(group), ReplyView::Answer(true)) => leads_to(
                    run,
                    reply,
                    seq![TaskView { scope: upgrade, work: WorkView::MakeMethod(group) }],
                ),
                (WorkView::CheckMethod(group), ReplyView::Answer(false)) => leads_to(
                    run,
                    reply,
                    seq![
                        TaskView {
                            scope: upgrade,
                            work: WorkView::Tell(
                                ReportView::MethodUnavailable {
                                    title: group.method.title,
                                    instances: joined_names(group.instances),
                                },
                            ),
                        },
                    ],
                ),
                (WorkView::MakeMethod(group), ReplyView::Method(method)) => {
                    let groups = by_major(group.instances);
                    let named = run.options.name is Some;
                    &&& named ==> leads_to(
                        run,
                        reply,
                        Seq::new(
                            group.instances.len(),
                            |i: int|
                                TaskView {
                                    scope: upgrade,
                                    work: WorkView::GetVersion(
                                        method,
                                        JobView::Single(
                                            group.instances[i],
                                            if run.options.to_nightly {
                                                VersionQueryView::Nightly
                                            } else {
                                                VersionQueryView::Stable(run.options.to_version)
                                            },
                                        ),
                                    ),
                                },
                        ),
                    )
                    &&& !named && run.options.nightly ==> leads_to(
                        run,
                        reply,
                        seq![
                            TaskView {
                                scope: upgrade,
                                work: WorkView::GetVersion(
                                    method,
                                    JobView::Nightly(group.instances),
                                ),
                            },
                        ],
                    )
                    &&& !named && !run.options.nightly && groups.len() > 0 ==> leads_to(
                        run,
                        reply,
                        seq![
                            TaskView {
                                scope: upgrade,
                                work: WorkView::GetVersion(
                                    method,
                                    JobView::Minor(groups[0], groups.drop_first()),
                                ),
                            },
                        ],
                    )
                    &&& !named && !run.options.nightly && groups.len() == 0 ==> leads_to(
                        run,
                        reply,
                        seq![],
                    )
                },
                (WorkView::GetVersion(method, job), ReplyView::Package(package)) => leads_to(
                    run,
                    reply,
                    seq![
                        TaskView {
                            scope: upgrade,
                            work: WorkView::GetInstalled(method, job, package),
                        },
                    ],
                ),
                _ => true,
            }
        }),
{
    match (run.tasks[0].work, reply) {
        (WorkView::ListMethods(groups), ReplyView::Done) => {
            let upgrade = ScopeView::Upgrade;
            let checks = Seq::new(
                groups.len(),
                |i: int| TaskView { scope: upgrade, work: WorkView::CheckMethod(groups[i]) },
            );
            assert(run.after(reply).tasks =~= checks + run.tasks.drop_first());
        },
        (WorkView::MakeMethod(group), ReplyView::Method(method)) => {
            if let Some(_) = run.options.name {
                let upgrade = ScopeView::Upgrade;
                let jobs = Seq::new(
                    group.instances.len(),
                    |i: int|
                        TaskView {
                            scope: upgrade,
                            work: WorkView::GetVersion(
                                method,
                                JobView::Single(
                                    group.instances[i],
                                    if run.options.to_nightly {
                                        VersionQueryView::Nightly
                                    } else {
                                        VersionQueryView::Stable(run.options.to_version)
                                    },
                                ),
                            ),
                        },
                );
                assert(run.after(reply).tasks =~= jobs + run.tasks.drop_first());
            }
        },
        _ => {},
    }
}

/// How an instance is dumped: through the socket that was told, to the
/// directory that was told, after an old dump that stands there is removed; and
/// every step is part of the same dump.
pub proof fn law_dump_steps(run: RunView, reply: ReplyView)
    requires
        run.tasks.len() > 0,
    ensures
        ({
            let scope = run.tasks[0].scope;
            match (run.tasks[0].work, reply) {
                (WorkView::DumpSocket(instance), ReplyView::Path(socket)) => leads_to(
                    run,
                    reply,
                    seq![TaskView { scope, work: WorkView::DumpPath(instance, socket) }],
                ),
                (WorkView::DumpPath(instance, socket), ReplyView::Path(path)) => {
                    let request = dump_of(instance, socket, path);
                    leads_to(
                        run,
                        reply,
                        seq![
                            TaskView { scope, work: WorkView::CheckDump(request.path) },
                            TaskView {
                                scope,
                                work: WorkView::Do(OpView::Connect(request.conn_params)),
                            },
                            TaskView { scope, work: WorkView::Do(OpView::Dump(request)) },
                        ],
                    )
                },
                (WorkView::CheckDump(path), ReplyView::Answer(true)) => leads_to(
                    run,
                    reply,
                    seq![TaskView { scope, work: WorkView::Do(OpView::RemoveDirAll(path)) }],
                ),
                (WorkView::CheckDump(path), ReplyView::Answer(false)) => leads_to(
                    run,
                    reply,
                    seq![],
                ),
                _ => true,
            }
        }),
{
}

/// How an instance is restored: the backup is stamped with the time that was
/// told; the record holds the time and the process that were told; the text of
/// the record is the marker of the initialization; and the restore goes through
/// the socket that was told.
pub proof fn law_restore_steps(run: RunView, reply: ReplyView)
    requires
        run.tasks.len() > 0,
    ensures
        ({
            let scope = run.tasks[0].scope;
            match (run.tasks[0].work, reply) {
                (WorkView::StampBackup(path), ReplyView::Time(timestamp)) => leads_to(
                    run,
                    reply,
                    seq![
                        TaskView {
                            scope,
                            work: WorkView::Do(
                                OpView::WriteBackupMeta { path, meta: BackupMeta { timestamp } },
                            ),
                        },
                    ],
                ),
                (WorkView::Identify(reinit), ReplyView::Identity(started, pid)) => leads_to(
                    run,
                    reply,
                    seq![
                        TaskView {
                            scope,
                            work: WorkView::EncodeMarker(
                                reinit,
                                reinit.instance.upgrade_meta(started, pid),
                            ),
                        },
                    ],
                ),
                (WorkView::EncodeMarker(reinit, _), ReplyView::Text(marker)) => leads_to(
                    run,
                    reply,
                    seq![
                        TaskView {
                            scope,
                            work: WorkView::Do(OpView::Init(reinit.init_options(marker))),
                        },
                    ],
                ),
                (WorkView::RestoreSocket(instance), ReplyView::Path(socket)) => {
                    let request = restore_of(instance, socket);
                    leads_to(
                        run,
                        reply,
                        seq![
                            TaskView {
                                scope,
                                work: WorkView::Do(OpView::Connect(request.conn_params)),
                            },
                            TaskView { scope, work: WorkView::Do(OpView::Restore(request)) },
                        ],
                    )
                },
                _ => true,
            }
        }),
{
}

/// What is done leads to nothing more; a stop that was only tried is told where
/// it has failed, and the run goes on.
pub proof fn law_what_is_done_is_done(run: RunView, reply: ReplyView)
    requires
        run.tasks.len() > 0,
    ensures
        match (run.tasks[0].work, reply) {
            (WorkView::Do(_), ReplyView::Done) => leads_to(run, reply, seq![]),
            (WorkView::Install(_), ReplyView::Done) => leads_to(run, reply, seq![]),
            (WorkView::EndServer, ReplyView::Done) => leads_to(run, reply, seq![]),
            (WorkView::Tell(_), ReplyView::Done) => leads_to(run, reply, seq![]),
            (WorkView::TryStop(_), ReplyView::Done) => leads_to(run, reply, seq![]),
            (WorkView::TryStop(name), ReplyView::Failed) => leads_to(
                run,
                reply,
                seq![
                    TaskView {
                        scope: ScopeView::Upgrade,
                        work: WorkView::Tell(ReportView::StopFailed { name }),
                    },
                ],
            ),
            _ => true,
        },
{
}

/// Whatever else fails ends the run, with what was being done, from the inside
/// out: what failed, and then the dump or the restore that it was part of.
/// Nothing is left to do but to end a server that is running.
pub proof fn law_failures_end_the_run(run: RunView)
    requires
        run.tasks.len() > 0,
    ensures
        ({
            let after = run.after(ReplyView::Failed);
            let inner = match run.tasks[0].work {
                WorkView::NextEntry(listing) => seq![ContextView::ListingInstances(listing.path)],
                WorkView::GetVersion(_, _) => seq![ContextView::DeterminingVersion],
                WorkView::Do(OpView::WriteBackupMeta { path, meta: _ }) => seq![
                    ContextView::WritingBackupMeta(path),
                ],
                WorkView::Do(OpView::RunServer { args: _ }) => seq![ContextView::RunningServer],
                _ => seq![],
            };
            let outer = match run.tasks[0].scope {
                ScopeView::Upgrade => seq![],
                ScopeView::Dump(name) => seq![ContextView::Dumping(name)],
                ScopeView::Restore(name) => seq![ContextView::Restoring(name)],
            };
            match run.tasks[0].work {
                WorkView::CheckInstances(_) => !run.accepts(ReplyView::Failed),
                WorkView::ReadMetadata(_, _) => run.accepts(ReplyView::Failed),
                WorkView::CheckMethod(_) => !run.accepts(ReplyView::Failed),
                WorkView::TryStop(_) => run.accepts(ReplyView::Failed),
                WorkView::CheckDump(_) => !run.accepts(ReplyView::Failed),
                WorkView::StampBackup(_) => !run.accepts(ReplyView::Failed),
                WorkView::Identify(_) => !run.accepts(ReplyView::Failed),
                WorkView::EncodeMarker(_, _) => !run.accepts(ReplyView::Failed),
                WorkView::EndServer => !run.accepts(ReplyView::Failed),
                WorkView::Tell(_) => !run.accepts(ReplyView::Failed),
                _ => {
                    &&& run.accepts(ReplyView::Failed)
                    &&& after.failure == Some(inner + outer)
                    &&& after.options == run.options
                    &&& after.tasks == server_end(run.tasks)
                },
            }
        }),
{
}

/// A reply that is none to what was asked for is not taken, and changes nothing;
/// and a run that is over takes none.
pub proof fn law_other_replies_are_not_taken(run: RunView, reply: ReplyView)
    ensures
        run.accepts(reply) <==> run.tasks.len() > 0 && match run.tasks[0].work {
            WorkView::LocateInstances => reply is Path || reply is Failed,
            WorkView::CheckInstances(_) => reply is Answer,
            WorkView::OpenInstances(_) => reply is Done || reply is Failed,
            WorkView::NextEntry(_) => reply is End || reply is Entry || reply is Failed,
            WorkView::ReadMetadata(_, _) => reply is Metadata || reply is Failed,
            WorkView::DetectOs(_) => reply is Done || reply is Failed,
            WorkView::ListMethods(_) => reply is Done || reply is Failed,
            WorkView::CheckMethod(_) => reply is Answer,
            WorkView::MakeMethod(_) => reply is Method || reply is Failed,
            WorkView::GetVersion(_, _) => reply is Package || reply is Failed,
            WorkView::GetInstalled(_, _, _) => reply is Packages || reply is Failed,
            WorkView::Install(_) => reply is Done || reply is Failed,
            WorkView::Do(_) => reply is Done || reply is Failed,
            WorkView::TryStop(_) => reply is Done || reply is Failed,
            WorkView::DumpSocket(_) => reply is Path || reply is Failed,
            WorkView::DumpPath(_, _) => reply is Path || reply is Failed,
            WorkView::CheckDump(_) => reply is Answer,
            WorkView::StampBackup(_) => reply is Time,
            WorkView::Identify(_) => reply is Identity,
            WorkView::EncodeMarker(_, _) => reply is Text,
            WorkView::RestoreSocket(_) => reply is Path || reply is Failed,
            WorkView::EndServer => reply is Done,
            WorkView::Tell(_) => reply is Done,
        },
        !run.accepts(reply) ==> run.after(reply) == run,
{
}

/// The task that ends a server outlasts a failure exactly if it comes before any
/// that runs one.
pub proof fn law_end_of_a_running_server_is_kept(tasks: Seq<TaskView>, k: int)
    requires
        0 <= k <= tasks.len(),
        forall|i: int|
            0 <= i < k ==> !((#[trigger] tasks[i]).work is EndServer) && !(tasks[i].work is Do
                && tasks[i].work->Do_0 is RunServer),
    ensures
        k == tasks.len() ==> server_end(tasks).len() == 0,
        k < tasks.len() && tasks[k].work is EndServer ==> server_end(tasks) == seq![tasks[k]],
        k < tasks.len() && tasks[k].work is Do && tasks[k].work->Do_0 is RunServer
            ==> server_end(tasks).len() == 0,
    decreases k,
{
    if k > 0 {
        let rest = tasks.drop_first();
        assert(!(tasks[0].work is EndServer));
        assert forall|i: int| 0 <= i < k - 1 implies !((#[trigger] rest[i]).work is EndServer)
            && !(rest[i].work is Do && rest[i].work->Do_0 is RunServer) by {
            assert(rest[i] == tasks[i + 1]);
        }
        law_end_of_a_running_server_is_kept(rest, k - 1);
    }
}

/// What stopping an instance before its package is installed consists of.
pub proof fn law_stop_part(instance: InstanceView)
    ensures
        ({
            let tasks = stop_part(instance);
            &&& tasks.len() == 2
            &&& tasks[0] == (TaskView {
                scope: ScopeView::Upgrade,
                work: WorkView::Do(
                    OpView::GetControl(
                        ControlRequestView {
                            name: instance.name,
                            system: instance.system,
                            meta: instance.meta,
                        },
                    ),
                ),
            })
            &&& tasks[1] == (TaskView {
                scope: ScopeView::Upgrade,
                work: WorkView::TryStop(instance.name),
            })
        }),
{
}

/// What starting an instance after its package is installed consists of.
pub proof fn law_start_part(instance: InstanceView)
    ensures
        ({
            let tasks = start_part(instance);
            &&& tasks.len() == 2
            &&& tasks[0] == (TaskView {
                scope: ScopeView::Upgrade,
                work: WorkView::Do(
                    OpView::GetControl(
                        ControlRequestView {
                            name: instance.name,
                            system: instance.system,
                            meta: instance.meta,
                        },
                    ),
                ),
            })
            &&& tasks[1] == (TaskView {
                scope: ScopeView::Upgrade,
                work: WorkView::Do(OpView::Start { name: instance.name, foreground: false }),
            })
        }),
{
}

/// What the dump of an instance consists of: it is started first, in case it is
/// not, and stopped at the end.
pub proof fn law_dump_part(instance: InstanceView)
    ensures
        ({
            let tasks = dump_part(instance);
            let scope = ScopeView::Dump(instance.name);
            &&& tasks.len() == 4
            &&& tasks[0] == (TaskView {
                scope,
                work: WorkView::Do(
                    OpView::GetControl(
                        ControlRequestView {
                            name: instance.name,
                            system: instance.system,
                            meta: instance.meta,
                        },
                    ),
                ),
            })
            &&& tasks[1] == (TaskView {
                scope,
                work: WorkView::Do(OpView::Start { name: instance.name, foreground: false }),
            })
            &&& tasks[2] == (TaskView { scope, work: WorkView::DumpSocket(instance) })
            &&& tasks[3] == (TaskView {
                scope,
                work: WorkView::Do(OpView::Stop { name: instance.name }),
            })
        }),
{
}

/// What the restore of an instance consists of: its data is moved, the backup
/// recorded, the instance initialized, a server run, the dump restored through
/// it, the server ended, and the instance started.
pub proof fn law_restore_part(reinit: ReinitView)
    ensures
        ({
            let tasks = restore_part(reinit);
            let instance = reinit.instance;
            let scope = ScopeView::Restore(instance.name);
            let parent = instance.data_dir.parent;
            let backup = LocationView {
                base: parent.base,
                names: parent.names.push(instance.name + ".backup"@),
            };
            &&& tasks.len() == 9
            &&& tasks[0] == (TaskView {
                scope,
                work: WorkView::Do(
                    OpView::Rename {
                        from: LocationView {
                            base: parent.base,
                            names: parent.names.push(instance.data_dir.file_name),
                        },
                        to: backup,
                    },
                ),
            })
            &&& tasks[1] == (TaskView {
                scope,
                work: WorkView::StampBackup(
                    LocationView { base: backup.base, names: backup.names.push("backup.json"@) },
                ),
            })
            &&& tasks[2] == (TaskView { scope, work: WorkView::Identify(reinit) })
            &&& tasks[3] == (TaskView {
                scope,
                work: WorkView::Do(
                    OpView::GetControl(
                        ControlRequestView {
                            name: instance.name,
                            system: instance.system,
                            meta: instance.meta,
                        },
                    ),
                ),
            })
            &&& tasks[4] == (TaskView { scope, work: WorkView::Do(OpView::RunCommand) })
            &&& tasks[5] == (TaskView {
                scope,
                work: WorkView::Do(
                    OpView::RunServer {
                        args: seq![
                            "--default-database=edgedb"@,
                            "--default-database-user=edgedb"@,
                        ],
                    },
                ),
            })
            &&& tasks[6] == (TaskView { scope, work: WorkView::RestoreSocket(instance) })
            &&& tasks[7] == (TaskView { scope, work: WorkView::EndServer })
            &&& tasks[8] == (TaskView {
                scope,
                work: WorkView::Do(OpView::Start { name: instance.name, foreground: false }),
            })
        }),
{
}

/// What an upgrade within a major version begins and ends with, and what it
/// installs: the user is told the versions and the instances; the package on
/// offer is installed for the major version; and then the next major version
/// has its turn.
pub proof fn law_minor_upgrade_in_full(
    method: InstallMethodView,
    group: MajorGroupView,
    rest: Seq<MajorGroupView>,
    package: PackageInfoView,
    old_version: Option<VersionView>,
)
    ensures
        ({
            let tasks = minor_upgrade(method, group, rest, package, old_version);
            let n = group.instances.len() as int;
            &&& tasks[0] == (TaskView {
                scope: ScopeView::Upgrade,
                work: WorkView::Tell(
                    ReportView::Upgrading {
                        version: group.version,
                        new_version: package.version,
                        revision: package.revision,
                        instances: joined_names(group.instances),
                    },
                ),
            })
            &&& tasks[2 * n + 1] == (TaskView {
                scope: ScopeView::Upgrade,
                work: WorkView::Install(
                    InstallPlanView {
                        method,
                        package_name: package.package_name,
                        major_version: group.version,
                        version: package.version,
                        nightly: false,
                    },
                ),
            })
            &&& forall|i: int|
                0 <= i < n ==> {
                    let instance = #[trigger] group.instances[i];
                    let stop = WorkView::TryStop(instance.name);
                    let start = OpView::Start { name: instance.name, foreground: false };
                    let control = OpView::GetControl(
                        ControlRequestView {
                            name: instance.name,
                            system: instance.system,
                            meta: instance.meta,
                        },
                    );
                    &&& tasks[2 * i + 1].work == WorkView::Do(control)
                    &&& tasks[2 * i + 2].work == stop
                    &&& tasks[2 * n + 2 * i + 2].work == WorkView::Do(control)
                    &&& tasks[2 * n + 2 * i + 3].work == WorkView::Do(start)
                }
            &&& rest.len() == 0 ==> tasks.len() == 4 * n + 2
            &&& rest.len() > 0 ==> {
                &&& tasks.len() == 4 * n + 3
                &&& tasks[4 * n + 2] == (TaskView {
                    scope: ScopeView::Upgrade,
                    work: WorkView::GetVersion(method, JobView::Minor(rest[0], rest.drop_first())),
                })
            }
        }),
{
    let tasks = minor_upgrade(method, group, rest, package, old_version);
    let n = group.instances.len() as int;
    law_minor_upgrade_stops_then_installs_then_starts(method, group, rest, package, old_version);
    assert forall|i: int| 0 <= i < n implies {
        let instance = #[trigger] group.instances[i];
        let stop = WorkView::TryStop(instance.name);
        let start = OpView::Start { name: instance.name, foreground: false };
        let control = OpView::GetControl(
            ControlRequestView {
                name: instance.name,
                system: instance.system,
                meta: instance.meta,
            },
        );
        &&& tasks[2 * i + 1].work == WorkView::Do(control)
        &&& tasks[2 * i + 2].work == stop
        &&& tasks[2 * n + 2 * i + 2].work == WorkView::Do(control)
        &&& tasks[2 * n + 2 * i + 3].work == WorkView::Do(start)
    } by {
        let marked = group.instances[i].marked(old_version, package.full_version);
        let stops = tasks.subrange(2 * i + 1, 2 * i + 3);
        let starts = tasks.subrange(2 * n + 2 * i + 2, 2 * n + 2 * i + 4);
        assert(stops == stop_part(marked));
        assert(starts == start_part(marked));
        assert(stops[0] == tasks[2 * i + 1] && stops[1] == tasks[2 * i + 2]);
        assert(starts[0] == tasks[2 * n + 2 * i + 2] && starts[1] == tasks[2 * n + 2 * i + 3]);
    }
    if rest.len() > 0 {
        assert(tasks.skip(4 * n + 2)[0] == tasks[4 * n + 2]);
    }
}

/// What an upgrade of nightlies and an upgrade of one instance install, and to
/// what they initialize: the nightlies to the major version on offer, the one
/// instance to the version on offer, each marked with the full version on offer
/// and with the one that was installed.
pub proof fn law_installs_and_targets(
    method: InstallMethodView,
    instances: Seq<InstanceView>,
    instance: InstanceView,
    query: VersionQueryView,
    package: PackageInfoView,
    old_version: Option<VersionView>,
)
    ensures
        ({
            let tasks = nightly_upgrade(method, instances, package, old_version);
            let n = instances.len() as int;
            &&& tasks.len() == 13 * n + 1
            &&& tasks[4 * n] == (TaskView {
                scope: ScopeView::Upgrade,
                work: WorkView::Install(
                    InstallPlanView {
                        method,
                        package_name: package.package_name,
                        major_version: package.major_version,
                        version: package.version,
                        nightly: true,
                    },
                ),
            })
            &&& forall|i: int|
                0 <= i < n ==> {
                    let one = #[trigger] instances[i];
                    let marked = InstanceView {
                        source: old_version,
                        version: Some(package.full_version),
                        ..one
                    };
                    &&& tasks[4 * i + 2].work == WorkView::DumpSocket(marked)
                    &&& tasks[4 * n + 9 * i + 3].work == WorkView::Identify(
                        ReinitView {
                            instance: marked,
                            version: package.major_version,
                            nightly: true,
                            method,
                        },
                    )
                    &&& tasks[4 * n + 9 * i + 7].work == WorkView::RestoreSocket(marked)
                }
        }),
        ({
            let tasks = instance_upgrade(method, instance, query, package, old_version);
            let marked = InstanceView {
                source: old_version,
                version: Some(package.full_version),
                ..instance
            };
            &&& tasks.len() == 14
            &&& tasks[2].work == WorkView::DumpSocket(marked)
            &&& tasks[4] == (TaskView {
                scope: ScopeView::Upgrade,
                work: WorkView::Install(
                    InstallPlanView {
                        method,
                        package_name: package.package_name,
                        major_version: package.major_version,
                        version: package.version,
                        nightly: query is Nightly,
                    },
                ),
            })
            &&& tasks[7].work == WorkView::Identify(
                ReinitView {
                    instance: marked,
                    version: package.version,
                    nightly: query is Nightly,
                    method,
                },
            )
            &&& tasks[11].work == WorkView::RestoreSocket(marked)
        }),
{
    law_nightly_upgrade_dumps_then_installs_then_restores(
        method,
        instances,
        package,
        old_version,
    );
    law_instance_upgrade_dumps_then_installs_then_restores(
        method,
        instance,
        query,
        package,
        old_version,
    );
    let tasks = nightly_upgrade(method, instances, package, old_version);
    let n = instances.len() as int;
    assert forall|i: int| 0 <= i < n implies {
        let one = #[trigger] instances[i];
        let marked = InstanceView {
            source: old_version,
            version: Some(package.full_version),
            ..one
        };
        &&& tasks[4 * i + 2].work == WorkView::DumpSocket(marked)
        &&& tasks[4 * n + 9 * i + 3].work == WorkView::Identify(
            ReinitView {
                instance: marked,
                version: package.major_version,
                nightly: true,
                method,
            },
        )
        &&& tasks[4 * n + 9 * i + 7].work == WorkView::RestoreSocket(marked)
    } by {
        let marked = instances[i].marked(old_version, package.full_version);
        let dumps = tasks.subrange(4 * i, 4 * i + 4);
        let restores = tasks.subrange(4 * n + 9 * i + 1, 4 * n + 9 * i + 10);
        assert(dumps == dump_part(marked));
        assert(dumps[2] == tasks[4 * i + 2]);
        assert(restores[2] == tasks[4 * n + 9 * i + 3]);
        assert(restores[6] == tasks[4 * n + 9 * i + 7]);
    }
    let one = instance_upgrade(method, instance, query, package, old_version);
    assert(one.take(4)[2] == one[2]);
    assert(one.skip(5)[2] == one[7]);
    assert(one.skip(5)[6] == one[11]);
}

/// What is done once the installed packages are told: where the upgrade is not
/// forced and a version is installed that does not come before the one on
/// offer, the user is told so, and for these instances, and the major versions
/// after theirs, nothing else is done; in every other case they are upgraded.
pub proof fn law_installed_version_decides(
    run: RunView,
    packages: Seq<InstalledPackageView>,
    method: InstallMethodView,
    job: JobView,
    package: PackageInfoView,
)
    requires
        run.tasks.len() > 0,
        run.tasks[0].work == WorkView::GetInstalled(method, job, package),
    ensures
        ({
            let reply = ReplyView::Packages(packages);
            let old_version = installed_version(packages);
            let current = !run.options.force && old_version is Some && !key_less(
                old_version->0.key,
                package.full_version.key,
            );
            let report = match job {
                JobView::Minor(group, _) => ReportView::VersionUpToDate {
                    version: group.version,
                    installed: old_version->0,
                    instances: joined_names(group.instances),
                },
                JobView::Nightly(instances) => ReportView::NightlyUpToDate {
                    installed: old_version->0,
                    instances: joined_names(instances),
                },
                JobView::Single(instance, query) => ReportView::InstanceUpToDate {
                    query,
                    installed: old_version->0,
                    name: instance.name,
                },
            };
            &&& current ==> leads_to(
                run,
                reply,
                seq![TaskView { scope: ScopeView::Upgrade, work: WorkView::Tell(report) }],
            )
            &&& !current ==> leads_to(
                run,
                reply,
                match job {
                    JobView::Minor(group, rest) => minor_upgrade(
                        method,
                        group,
                        rest,
                        package,
                        old_version,
                    ),
                    JobView::Nightly(instances) => nightly_upgrade(
                        method,
                        instances,
                        package,
                        old_version,
                    ),
                    JobView::Single(instance, query) => instance_upgrade(
                        method,
                        instance,
                        query,
                        package,
                        old_version,
                    ),
                },
            )
        }),
{
    law_up_to_date_goes_by_the_key(
        installed_version(packages),
        package.full_version,
        run.options.force,
    );
}

proof fn lemma_upgrade_installs(
    method: InstallMethodView,
    job: JobView,
    package: PackageInfoView,
    old_version: Option<VersionView>,
) -> (i: int)
    ensures
        ({
            let tasks = match job {
                JobView::Minor(group, rest) => minor_upgrade(
                    method,
                    group,
                    rest,
                    package,
                    old_version,
                ),
                JobView::Nightly(instances) => nightly_upgrade(
                    method,
                    instances,
                    package,
                    old_version,
                ),
                JobView::Single(instance, query) => instance_upgrade(
                    method,
                    instance,
                    query,
                    package,
                    old_version,
                ),
            };
            &&& 0 <= i < tasks.len()
            &&& tasks[i].work is Install
            &&& tasks[i].work->Install_0.method == method
            &&& tasks[i].work->Install_0.package_name == package.package_name
            &&& tasks[i].work->Install_0.version == package.version
            &&& tasks[0].work is Tell ==> tasks[0].work->Tell_0 is Upgrading
        }),
{
    match job {
        JobView::Minor(group, rest) => {
            law_minor_upgrade_in_full(method, group, rest, package, old_version);
            law_minor_upgrade_stops_then_installs_then_starts(
                method,
                group,
                rest,
                package,
                old_version,
            );
            2 * group.instances.len() as int + 1
        },
        JobView::Nightly(instances) => {
            law_nightly_upgrade_dumps_then_installs_then_restores(
                method,
                instances,
                package,
                old_version,
            );
            let tasks = nightly_upgrade(method, instances, package, old_version);
            if instances.len() > 0 {
                let marked = instances[0].marked(old_version, package.full_version);
                assert(tasks.subrange(0, 4) == dump_part(marked));
                assert(tasks.subrange(0, 4)[0] == tasks[0]);
            }
            4 * instances.len() as int
        },
        JobView::Single(instance, query) => {
            law_instance_upgrade_dumps_then_installs_then_restores(
                method,
                instance,
                query,
                package,
                old_version,
            );
            4
        },
    }
}

/// A run that is forced installs the package on offer whatever is told to be
/// installed, for upgrades of every kind, and reports nothing to be up to date.
pub proof fn law_forced_run_installs(
    options: UpgradeView,
    replies: Seq<ReplyView>,
    query: VersionQueryView,
    packages: Seq<InstalledPackageView>,
)
    requires
        options.force,
        reached(options, replies).pending() == Some(ActionView::InstalledVersions(query)),
    ensures
        reached(options, replies).tasks[0].work is GetInstalled,
        ({
            let method = reached(options, replies).tasks[0].work->GetInstalled_0;
            let package = reached(options, replies).tasks[0].work->GetInstalled_2;
            let told = reached(options, replies.push(ReplyView::Packages(packages)));
            &&& exists|i: int|
                0 <= i < told.tasks.len() && ((
                #[trigger] told.tasks[i]).work matches WorkView::Install(plan) && plan.method
                    == method && plan.package_name == package.package_name && plan.version
                    == package.version)
            &&& told.failure == reached(options, replies).failure
            &&& !(told.tasks[0].work matches WorkView::Tell(report) && (report is VersionUpToDate
                || report is NightlyUpToDate || report is InstanceUpToDate))
        }),
{
    let run = reached(options, replies);
    let reply = ReplyView::Packages(packages);
    let method = run.tasks[0].work->GetInstalled_0;
    let job = run.tasks[0].work->GetInstalled_1;
    let package = run.tasks[0].work->GetInstalled_2;
    law_options_and_failure_stay(RunView::start(options), replies);
    assert(replies.push(reply).drop_last() =~= replies);
    law_installed_version_decides(run, packages, method, job, package);
    let i = lemma_upgrade_installs(method, job, package, installed_version(packages));
    let told = run.after(reply);
    assert(told.tasks[i].work is Install);
}

/// A run that is not forced leaves a version that is no older than the one on
/// offer alone: the user is told, and of all that was to be done for it nothing
/// is left. One that is older, or not installed, is upgraded to the package on
/// offer.
pub proof fn law_unforced_run_goes_by_the_installed_version(
    options: UpgradeView,
    replies: Seq<ReplyView>,
    query: VersionQueryView,
    packages: Seq<InstalledPackageView>,
    k: int,
)
    requires
        !options.force,
        reached(options, replies).pending() == Some(ActionView::InstalledVersions(query)),
        0 <= k <= packages.len(),
        forall|i: int| 0 <= i < k ==> !(#[trigger] packages[i]).matches,
        k < packages.len() ==> packages[k].matches,
    ensures
        ({
            let run = reached(options, replies);
            let package = run.tasks[0].work->GetInstalled_2;
            let told = reached(options, replies.push(ReplyView::Packages(packages)));
            if k < packages.len() && !key_less(
                packages[k].full_version.key,
                package.full_version.key,
            ) {
                &&& told.tasks.drop_first() == run.tasks.drop_first()
                &&& told.tasks[0].work is Tell
            } else {
                exists|i: int|
                    0 <= i < told.tasks.len() && ((
                    #[trigger] told.tasks[i]).work matches WorkView::Install(plan)
                        && plan.package_name == package.package_name && plan.version
                        == package.version)
            }
        }),
{
    let run = reached(options, replies);
    let reply = ReplyView::Packages(packages);
    let method = run.tasks[0].work->GetInstalled_0;
    let job = run.tasks[0].work->GetInstalled_1;
    let package = run.tasks[0].work->GetInstalled_2;
    let told = run.after(reply);
    if k < packages.len() {
        law_first_match_is_installed(packages, k);
    } else {
        law_no_match_is_not_installed(packages);
    }
    law_options_and_failure_stay(RunView::start(options), replies);
    assert(replies.push(reply).drop_last() =~= replies);
    law_installed_version_decides(run, packages, method, job, package);
    if k < packages.len() && !key_less(packages[k].full_version.key, package.full_version.key) {
        assert(told.tasks.drop_first() =~= run.tasks.drop_first());
    } else {
        let i = lemma_upgrade_installs(method, job, package, installed_version(packages));
        assert(told.tasks[i].work is Install);
    }
}

} // verus!
