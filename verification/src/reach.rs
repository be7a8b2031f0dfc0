//! What a run can touch.
use crate::course::{law_options_and_failure_stay, reached};
use crate::instance::{
    unknown_version, BackupMeta, ControlRequestView, InstallMethodView, InstanceView, MetadataView,
};
use crate::listing::{instance_in, InstanceIteratorView};
use crate::location::{backup_name, dump_name, LocationView};
use crate::options::{ToDoView, UpgradeView};
use crate::requests::{dump_of, restore_of, ConnParamsView, ReinitView};
use crate::run::{
    after_listing, by_major, by_method, job_tasks, method_checks, method_jobs, server_end,
    OutcomeView, RunView,
};
use crate::script::{
    all_marked, dump_part, in_turn, minor_jobs, restore_part, restore_to, start_part, stop_part,
};
use crate::selection::{
    group_key, grouped, law_groups_are_by_key, law_selected_are_wanted, selected, sort_key, wanted,
    Grouping,
};
use crate::task::{
    ActionView, JobView, MajorGroupView, OpView, ReplyView, ScopeView, TaskView, WorkView,
};
use crate::version::{installed_version, PackageInfoView, VersionView};
use std::time::SystemTime;
use vstd::prelude::*;

verus! {

/// What a run keeps to: what is to be done, the directory that holds the
/// instances, where that is always the same, and which instances are known.
ghost struct Bounds {
    todo: ToDoView,
    home: Option<LocationView>,
    known: spec_fn(InstanceView) -> bool,
}

/// The bounds that what is to be done sets, and no others.
spec fn bounds_of(todo: ToDoView) -> Bounds {
    Bounds { todo, home: None, known: |instance: InstanceView| true }
}

/// The instance is known, and is one of those that are to be upgraded.
spec fn eligible(bounds: Bounds, instance: InstanceView) -> bool {
    (bounds.known)(instance) && wanted(bounds.todo, instance)
}

/// The instance as it was found: before the versions that it is upgraded from
/// and to were set.
spec fn as_found(instance: InstanceView) -> InstanceView {
    InstanceView { source: None, version: None, ..instance }
}

/// The database is reached as it always is, through whatever socket.
pub open spec fn usual_connection(params: ConnParamsView) -> bool {
    &&& params.user == "edgedb"@
    &&& params.database == "edgedb"@
    &&& params.wait_until_available == 30
}

/// What the operation takes control of, starts, stops, initializes, removes,
/// moves, writes or reads is that of the instance, and it is done as it is for
/// every instance.
pub open spec fn concerns(instance: InstanceView, op: OpView) -> bool {
    let dump = instance.data_dir.with_file_name(dump_name(instance.name));
    let backup = instance.data_dir.with_file_name(backup_name(instance.name));
    match op {
        OpView::GetControl(request) => request == instance.control(),
        OpView::Start { name, foreground: _ } => name == instance.name,
        OpView::Stop { name } => name == instance.name,
        OpView::RemoveDirAll(path) => path.names == seq![dump_name(instance.name)],
        OpView::Dump(request) => {
            &&& request.path.names == seq![dump_name(instance.name)]
            &&& request.command_line
            &&& !request.styled
            &&& usual_connection(request.conn_params)
        },
        OpView::Rename { from, to } => from == instance.data_dir.location() && to == backup,
        OpView::WriteBackupMeta { path, meta: _ } => path == backup.join("backup.json"@),
        OpView::Init(options) => {
            &&& options.name == instance.name
            &&& options.system == instance.system
            &&& options.port == Some(instance.meta.port)
            &&& options.start_conf == instance.meta.start_conf
            &&& options.version is Some
            &&& options.method is Some
            &&& options.upgrade_marker is Some
            &&& !options.interactive
            &&& options.overwrite
            &&& options.inhibit_start
            &&& options.inhibit_user_creation
            &&& options.default_user == "edgedb"@
            &&& options.default_database == "edgedb"@
        },
        OpView::Restore(request) => {
            &&& request.path == dump
            &&& request.all
            &&& !request.allow_non_empty
            &&& !request.verbose
            &&& request.command_line
            &&& !request.styled
            &&& usual_connection(request.conn_params)
        },
        OpView::Connect(params) => usual_connection(params),
        OpView::RunCommand => true,
        OpView::RunServer { args } => {
            args == seq!["--default-database=edgedb"@, "--default-database-user=edgedb"@]
        },
    }
}

/// The place is the directory that holds the instances.
spec fn at_home(bounds: Bounds, place: LocationView) -> bool {
    bounds.home is Some ==> place == bounds.home->0
}

/// The instance is wanted, and stands in a directory of its own name.
spec fn proper(bounds: Bounds, instance: InstanceView) -> bool {
    &&& wanted(bounds.todo, instance)
    &&& instance.data_dir.file_name == instance.name
    &&& at_home(bounds, instance.data_dir.parent)
    &&& (bounds.known)(as_found(instance))
}

/// All of the instances are wanted, and stand in directories of their own
/// names.
spec fn all_proper(bounds: Bounds, instances: Seq<InstanceView>) -> bool {
    forall|i: int| 0 <= i < instances.len() ==> proper(bounds, #[trigger] instances[i])
}

/// Where one instance is to be upgraded, it has this name.
pub open spec fn name_wanted(todo: ToDoView, name: Seq<char>) -> bool {
    todo is InstanceUpgrade ==> name == todo->InstanceUpgrade_0
}

/// The control asked for is that of a wanted instance.
pub open spec fn control_wanted(todo: ToDoView, request: ControlRequestView) -> bool {
    match todo {
        ToDoView::MinorUpgrade => !request.meta.nightly,
        ToDoView::NightlyUpgrade => request.meta.nightly,
        ToDoView::InstanceUpgrade(name, _) => request.name == name,
    }
}

/// The job is one of those that the upgrade consists of.
spec fn job_proper(bounds: Bounds, job: JobView) -> bool {
    match job {
        JobView::Minor(group, rest) => {
            &&& bounds.todo is MinorUpgrade
            &&& all_proper(bounds, group.instances)
            &&& majors_proper(bounds, rest)
        },
        JobView::Nightly(instances) => bounds.todo is NightlyUpgrade && all_proper(bounds, instances),
        JobView::Single(instance, query) => {
            &&& bounds.todo is InstanceUpgrade
            &&& query == bounds.todo->InstanceUpgrade_1
            &&& proper(bounds, instance)
        },
    }
}

spec fn majors_proper(bounds: Bounds, groups: Seq<MajorGroupView>) -> bool {
    forall|i: int| 0 <= i < groups.len() ==> all_proper(bounds, (#[trigger] groups[i]).instances)
}

/// The operation, done for the named instance where it is part of a dump or a
/// restore, touches what belongs to that instance and nothing else.
pub open spec fn op_within(scope: ScopeView, op: OpView) -> bool {
    match op {
        OpView::GetControl(request) => match scope {
            ScopeView::Upgrade => true,
            ScopeView::Dump(name) => request.name == name,
            ScopeView::Restore(name) => request.name == name,
        },
        OpView::Start { name: started, foreground } => !foreground && match scope {
            ScopeView::Upgrade => true,
            ScopeView::Dump(name) => started == name,
            ScopeView::Restore(name) => started == name,
        },
        OpView::Stop { name: stopped } => scope == ScopeView::Dump(stopped),
        OpView::RemoveDirAll(path) => {
            &&& scope is Dump
            &&& path.names == seq![dump_name(scope->Dump_0)]
        },
        OpView::Dump(request) => {
            &&& scope is Dump
            &&& request.path.names == seq![dump_name(scope->Dump_0)]
        },
        OpView::Connect(_) => !(scope is Upgrade),
        OpView::Rename { from, to } => {
            &&& scope is Restore
            &&& exists|parent: LocationView|
                from == #[trigger] parent.join(scope->Restore_0) && to == parent.join(
                    backup_name(scope->Restore_0),
                )
        },
        OpView::WriteBackupMeta { path, meta: _ } => {
            &&& scope is Restore
            &&& exists|parent: LocationView|
                path == #[trigger] parent.join(backup_name(scope->Restore_0)).join("backup.json"@)
        },
        OpView::Init(options) => scope == ScopeView::Restore(options.name),
        OpView::RunCommand => scope is Restore,
        OpView::RunServer { args: _ } => scope is Restore,
        OpView::Restore(request) => {
            &&& scope is Restore
            &&& exists|parent: LocationView|
                request.path == #[trigger] parent.join(dump_name(scope->Restore_0))
        },
    }
}

/// What the operation touches, done for the named instance, stands in the
/// directory `home`.
pub open spec fn op_in_home(home: LocationView, scope: ScopeView, op: OpView) -> bool {
    match op {
        OpView::RemoveDirAll(path) => path == home.join(dump_name(scope->Dump_0)),
        OpView::Dump(request) => request.path == home.join(dump_name(scope->Dump_0)),
        OpView::Rename { from, to } => {
            &&& from == home.join(scope->Restore_0)
            &&& to == home.join(backup_name(scope->Restore_0))
        },
        OpView::WriteBackupMeta { path, meta: _ } => {
            path == home.join(backup_name(scope->Restore_0)).join("backup.json"@)
        },
        OpView::Restore(request) => request.path == home.join(dump_name(scope->Restore_0)),
        _ => true,
    }
}

spec fn op_proper(bounds: Bounds, scope: ScopeView, op: OpView) -> bool {
    &&& op_within(scope, op)
    &&& bounds.home is Some ==> op_in_home(bounds.home->0, scope, op)
    &&& op matches OpView::GetControl(request) ==> control_wanted(bounds.todo, request)
    &&& op matches OpView::Start { name, foreground: _ } ==> name_wanted(bounds.todo, name)
    &&& exists|instance: InstanceView| #[trigger]
        eligible(bounds, instance) && concerns(instance, op)
}

/// Work that the restore of an instance consists of.
pub open spec fn in_restore(work: WorkView) -> bool {
    match work {
        WorkView::Do(_) => true,
        WorkView::StampBackup(_) => true,
        WorkView::Identify(_) => true,
        WorkView::EncodeMarker(_, _) => true,
        WorkView::RestoreSocket(_) => true,
        WorkView::EndServer => true,
        _ => false,
    }
}

/// What every task of a run satisfies.
spec fn task_proper(bounds: Bounds, task: TaskView) -> bool {
    &&& match task.scope {
        ScopeView::Upgrade => true,
        ScopeView::Dump(name) => !(bounds.todo is MinorUpgrade) && name_wanted(bounds.todo, name),
        ScopeView::Restore(name) => {
            &&& !(bounds.todo is MinorUpgrade)
            &&& name_wanted(bounds.todo, name)
            &&& in_restore(task.work)
        },
    }
    &&& match task.work {
        WorkView::CheckInstances(path) => at_home(bounds, path),
        WorkView::OpenInstances(path) => at_home(bounds, path),
        WorkView::NextEntry(listing) => listing_proper(bounds, listing),
        WorkView::ReadMetadata(listing, _) => listing_proper(bounds, listing),
        WorkView::DetectOs(groups) => forall|i: int|
            0 <= i < groups.len() ==> all_proper(bounds, (#[trigger] groups[i]).instances),
        WorkView::ListMethods(groups) => forall|i: int|
            0 <= i < groups.len() ==> all_proper(bounds, (#[trigger] groups[i]).instances),
        WorkView::CheckMethod(group) => all_proper(bounds, group.instances),
        WorkView::MakeMethod(group) => all_proper(bounds, group.instances),
        WorkView::GetVersion(_, job) => job_proper(bounds, job),
        WorkView::GetInstalled(_, job, _) => job_proper(bounds, job),
        WorkView::Do(op) => op_proper(bounds, task.scope, op),
        WorkView::TryStop(name) => {
            &&& name_wanted(bounds.todo, name)
            &&& exists|instance: InstanceView| #[trigger]
                eligible(bounds, instance) && concerns(instance, OpView::Stop { name })
        },
        WorkView::DumpSocket(instance) => {
            &&& proper(bounds, instance)
            &&& task.scope == ScopeView::Dump(instance.name)
        },
        WorkView::DumpPath(instance, _) => {
            &&& proper(bounds, instance)
            &&& task.scope == ScopeView::Dump(instance.name)
        },
        WorkView::CheckDump(path) => {
            &&& task.scope is Dump
            &&& path.names == seq![dump_name(task.scope->Dump_0)]
            &&& bounds.home is Some ==> path == bounds.home->0.join(
                dump_name(task.scope->Dump_0),
            )
            &&& exists|instance: InstanceView| #[trigger]
                eligible(bounds, instance) && concerns(instance, OpView::RemoveDirAll(path))
        },
        WorkView::StampBackup(path) => {
            &&& task.scope is Restore
            &&& bounds.home is Some ==> path == bounds.home->0.join(
                backup_name(task.scope->Restore_0),
            ).join("backup.json"@)
            &&& exists|parent: LocationView|
                path == #[trigger] parent.join(backup_name(task.scope->Restore_0)).join(
                    "backup.json"@,
                )
            &&& exists|instance: InstanceView| #[trigger]
                eligible(bounds, instance) && path == instance.data_dir.with_file_name(
                    backup_name(instance.name),
                ).join("backup.json"@)
        },
        WorkView::Identify(reinit) => {
            &&& proper(bounds, reinit.instance)
            &&& task.scope == ScopeView::Restore(reinit.instance.name)
        },
        WorkView::EncodeMarker(reinit, _) => {
            &&& proper(bounds, reinit.instance)
            &&& task.scope == ScopeView::Restore(reinit.instance.name)
        },
        WorkView::RestoreSocket(instance) => {
            &&& proper(bounds, instance)
            &&& task.scope == ScopeView::Restore(instance.name)
        },
        WorkView::EndServer => task.scope is Restore,
        _ => true,
    }
}

spec fn listing_proper(bounds: Bounds, listing: InstanceIteratorView) -> bool {
    at_home(bounds, listing.path) && found_proper(bounds, listing.found)
}

spec fn found_proper(bounds: Bounds, found: Seq<InstanceView>) -> bool {
    forall|i: int|
        0 <= i < found.len() ==> (#[trigger] found[i]).data_dir.file_name == found[i].name
            && at_home(bounds, found[i].data_dir.parent) && (bounds.known)(as_found(found[i]))
}

/// All of the tasks are good.
pub open spec fn all_tasks(tasks: Seq<TaskView>, good: spec_fn(TaskView) -> bool) -> bool {
    forall|i: int| 0 <= i < tasks.len() ==> good(#[trigger] tasks[i])
}

pub proof fn lemma_in_turn_all(
    instances: Seq<InstanceView>,
    part: spec_fn(InstanceView) -> Seq<TaskView>,
    good: spec_fn(TaskView) -> bool,
)
    requires
        forall|i: int| 0 <= i < instances.len() ==> all_tasks(part(#[trigger] instances[i]), good),
    ensures
        all_tasks(in_turn(instances, part), good),
    decreases instances.len(),
{
    if instances.len() > 0 {
        let earlier = instances.drop_last();
        assert forall|i: int| 0 <= i < earlier.len() implies all_tasks(
            part(#[trigger] earlier[i]),
            good,
        ) by {
            assert(earlier[i] == instances[i]);
        }
        lemma_in_turn_all(earlier, part, good);
        let first = in_turn(earlier, part);
        let last = part(instances.last());
        assert(all_tasks(part(instances[instances.len() - 1]), good));
        assert forall|i: int| 0 <= i < (first + last).len() implies good(
            #[trigger] (first + last)[i],
        ) by {
            if i < first.len() {
                assert((first + last)[i] == first[i]);
            } else {
                assert((first + last)[i] == last[i - first.len()]);
            }
        }
    }
}

proof fn lemma_grouped_proper(bounds: Bounds, instances: Seq<InstanceView>, by: Grouping)
    requires
        all_proper(bounds, instances),
    ensures
        forall|i: int|
            0 <= i < grouped(instances, by).len() ==> all_proper(
                bounds,
                #[trigger] grouped(instances, by)[i],
            ),
{
    let groups = grouped(instances, by);
    law_groups_are_by_key(instances, by);
    assert forall|i: int| 0 <= i < groups.len() implies all_proper(bounds, #[trigger] groups[i]) by {
        let key = group_key(groups[i], by);
        assert forall|j: int| 0 <= j < groups[i].len() implies proper(
            bounds,
            #[trigger] groups[i][j],
        ) by {
            let keep = |one: InstanceView| sort_key(one, by) == key;
            assert(groups[i] == instances.filter(keep));
            assert(instances.filter(keep).contains(groups[i][j]));
            instances.lemma_filter_contains_rev(keep, groups[i][j]);
            let k = instances.index_of(groups[i][j]);
            assert(proper(bounds, instances[k]));
        }
    }
}

proof fn lemma_after_listing(options: UpgradeView, bounds: Bounds, found: Seq<InstanceView>)
    requires
        bounds.todo == options.todo(),
        found_proper(bounds, found),
    ensures
        all_tasks(
            after_listing(options, found),
            |task: TaskView| task_proper(bounds, task),
        ),
{
    let instances = selected(bounds.todo, found);
    assert forall|i: int| 0 <= i < instances.len() implies proper(
        bounds,
        #[trigger] instances[i],
    ) by {
        assert(instances.contains(instances[i]));
        law_selected_are_wanted(bounds.todo, found, instances[i]);
        let k = found.index_of(instances[i]);
        assert(found[k].data_dir.file_name == found[k].name && at_home(
            bounds,
            found[k].data_dir.parent,
        ) && (bounds.known)(as_found(found[k])));
    }
    lemma_grouped_proper(bounds, instances, Grouping::Method);
    let groups = by_method(instances);
    assert forall|i: int| 0 <= i < groups.len() implies all_proper(
        bounds,
        (#[trigger] groups[i]).instances,
    ) by {
        assert(groups[i].instances == grouped(instances, Grouping::Method)[i]);
    }
}

proof fn lemma_method_jobs(
    bounds: Bounds,
    method: InstallMethodView,
    instances: Seq<InstanceView>,
)
    requires
        all_proper(bounds, instances),
    ensures
        all_tasks(
            method_jobs(bounds.todo, method, instances),
            |task: TaskView| task_proper(bounds, task),
        ),
{
    lemma_grouped_proper(bounds, instances, Grouping::Major);
    let groups = by_major(instances);
    assert forall|i: int| 0 <= i < groups.len() implies all_proper(
        bounds,
        (#[trigger] groups[i]).instances,
    ) by {
        assert(groups[i].instances == grouped(instances, Grouping::Major)[i]);
    }
    if bounds.todo is MinorUpgrade && groups.len() > 0 {
        let rest = groups.drop_first();
        assert(all_proper(bounds, groups[0].instances));
        assert forall|i: int| 0 <= i < rest.len() implies all_proper(
            bounds,
            (#[trigger] rest[i]).instances,
        ) by {
            assert(rest[i] == groups[i + 1]);
        }
    }
}

proof fn lemma_parts_proper(bounds: Bounds, instance: InstanceView)
    requires
        proper(bounds, instance),
    ensures
        all_tasks(stop_part(instance), |task: TaskView| task_proper(bounds, task)),
        all_tasks(start_part(instance), |task: TaskView| task_proper(bounds, task)),
        !(bounds.todo is MinorUpgrade) ==> all_tasks(
            dump_part(instance),
            |task: TaskView| task_proper(bounds, task),
        ),
{
    let found = as_found(instance);
    assert(eligible(bounds, found));
    let control = OpView::GetControl(instance.control());
    let start = OpView::Start { name: instance.name, foreground: false };
    let stop = OpView::Stop { name: instance.name };
    assert(concerns(found, control) && concerns(found, start) && concerns(found, stop));
    assert(task_proper(bounds, stop_part(instance)[0]));
    assert(task_proper(bounds, stop_part(instance)[1]));
    assert(task_proper(bounds, start_part(instance)[0]));
    assert(task_proper(bounds, start_part(instance)[1]));
    if !(bounds.todo is MinorUpgrade) {
        assert(task_proper(bounds, dump_part(instance)[0]));
        assert(task_proper(bounds, dump_part(instance)[1]));
        assert(task_proper(bounds, dump_part(instance)[2]));
        assert(task_proper(bounds, dump_part(instance)[3]));
    }
}

proof fn lemma_restore_proper(bounds: Bounds, reinit: ReinitView)
    requires
        proper(bounds, reinit.instance),
        !(bounds.todo is MinorUpgrade),
    ensures
        all_tasks(restore_part(reinit), |task: TaskView| task_proper(bounds, task)),
{
    let instance = reinit.instance;
    let parent = instance.data_dir.parent;
    let tasks = restore_part(reinit);
    let found = as_found(instance);
    assert(eligible(bounds, found));
    assert(concerns(found, tasks[0].work->Do_0));
    assert(concerns(found, tasks[3].work->Do_0));
    assert(concerns(found, tasks[4].work->Do_0));
    assert(concerns(found, tasks[5].work->Do_0));
    assert(concerns(found, tasks[8].work->Do_0));
    assert(tasks[0].scope->Restore_0 == instance.name);
    assert(instance.data_dir.location() == parent.join(instance.name));
    assert(task_proper(bounds, tasks[0]));
    assert(tasks[1].work->StampBackup_0 == parent.join(backup_name(instance.name)).join(
        "backup.json"@,
    ));
    assert(task_proper(bounds, tasks[1]));
    assert(task_proper(bounds, tasks[2]));
    assert(task_proper(bounds, tasks[3]));
    assert(task_proper(bounds, tasks[4]));
    assert(task_proper(bounds, tasks[5]));
    assert(task_proper(bounds, tasks[8]));
}

proof fn lemma_marked_proper(
    bounds: Bounds,
    instances: Seq<InstanceView>,
    old_version: Option<VersionView>,
    new_version: VersionView,
)
    requires
        all_proper(bounds, instances),
    ensures
        all_proper(bounds, all_marked(instances, old_version, new_version)),
{
    let marked = all_marked(instances, old_version, new_version);
    assert forall|i: int| 0 <= i < marked.len() implies proper(bounds, #[trigger] marked[i]) by {
        assert(proper(bounds, instances[i]));
        assert(as_found(marked[i]) == as_found(instances[i]));
    }
}

proof fn lemma_job_tasks(
    bounds: Bounds,
    method: InstallMethodView,
    job: JobView,
    package: PackageInfoView,
    old_version: Option<VersionView>,
    force: bool,
)
    requires
        job_proper(bounds, job),
    ensures
        all_tasks(
            job_tasks(method, job, package, old_version, force),
            |task: TaskView| task_proper(bounds, task),
        ),
{
    let good = |task: TaskView| task_proper(bounds, task);
    match job {
        JobView::Minor(group, rest) => {
            let marked = all_marked(group.instances, old_version, package.full_version);
            lemma_marked_proper(bounds, group.instances, old_version, package.full_version);
            assert forall|i: int| 0 <= i < marked.len() implies all_tasks(
                stop_part(#[trigger] marked[i]),
                good,
            ) && all_tasks(start_part(marked[i]), good) by {
                lemma_parts_proper(bounds, marked[i]);
            }
            lemma_in_turn_all(marked, |instance: InstanceView| stop_part(instance), good);
            lemma_in_turn_all(marked, |instance: InstanceView| start_part(instance), good);
            if rest.len() > 0 {
                assert(all_proper(bounds, rest[0].instances));
                assert forall|i: int| 0 <= i < rest.drop_first().len() implies all_proper(
                    bounds,
                    (#[trigger] rest.drop_first()[i]).instances,
                ) by {
                    assert(rest.drop_first()[i] == rest[i + 1]);
                }
            }
            assert(all_tasks(minor_jobs(method, rest), good));
        },
        JobView::Nightly(instances) => {
            let marked = all_marked(instances, old_version, package.full_version);
            let restore = restore_to(package.major_version, true, method);
            lemma_marked_proper(bounds, instances, old_version, package.full_version);
            assert forall|i: int| 0 <= i < marked.len() implies all_tasks(
                dump_part(#[trigger] marked[i]),
                good,
            ) && all_tasks(restore(marked[i]), good) by {
                lemma_parts_proper(bounds, marked[i]);
                lemma_restore_proper(
                    bounds,
                    ReinitView {
                        instance: marked[i],
                        version: package.major_version,
                        nightly: true,
                        method,
                    },
                );
            }
            lemma_in_turn_all(marked, |instance: InstanceView| dump_part(instance), good);
            lemma_in_turn_all(marked, restore, good);
        },
        JobView::Single(instance, query) => {
            let marked = instance.marked(old_version, package.full_version);
            assert(as_found(marked) == as_found(instance));
            lemma_parts_proper(bounds, marked);
            lemma_restore_proper(
                bounds,
                ReinitView {
                    instance: marked,
                    version: package.version,
                    nightly: query is Nightly,
                    method,
                },
            );
        },
    }
}

/// A reply that tells the directory of the instances tells the same as ever.
spec fn reply_at_home(bounds: Bounds, task: TaskView, reply: ReplyView) -> bool {
    task.work.action() is DataPath ==> (reply matches ReplyView::Path(path) ==> at_home(
        bounds,
        LocationView::top(path),
    ))
}

/// A reply that tells the metadata of an instance makes known no other one.
spec fn reply_known(bounds: Bounds, task: TaskView, reply: ReplyView) -> bool {
    match (task.work, reply) {
        (WorkView::ReadMetadata(listing, name), ReplyView::Metadata(meta)) => (bounds.known)(
            instance_in(listing.path, name, meta),
        ),
        _ => true,
    }
}

proof fn lemma_outcome_proper(
    options: UpgradeView,
    bounds: Bounds,
    task: TaskView,
    reply: ReplyView,
)
    requires
        bounds.todo == options.todo(),
        task_proper(bounds, task),
        reply_at_home(bounds, task, reply),
        reply_known(bounds, task, reply),
    ensures
        task.outcome(options, reply) matches OutcomeView::Next(tasks) ==> all_tasks(
            tasks,
            |task: TaskView| task_proper(bounds, task),
        ),
{
    let good = |task: TaskView| task_proper(bounds, task);
    match (task.work, reply) {
        (WorkView::CheckInstances(_), ReplyView::Answer(_)) => {
            lemma_after_listing(options, bounds, seq![]);
        },
        (WorkView::NextEntry(listing), ReplyView::End) => {
            lemma_after_listing(options, bounds, listing.found);
        },
        (WorkView::ReadMetadata(listing, name), ReplyView::Metadata(meta)) => {
            let instance = instance_in(listing.path, name, meta);
            assert(as_found(instance) == instance);
        },
        (WorkView::ListMethods(groups), ReplyView::Done) => {
            let checks = method_checks(groups);
            assert forall|i: int| 0 <= i < checks.len() implies good(#[trigger] checks[i]) by {
                assert(all_proper(bounds, groups[i].instances));
            }
        },
        (WorkView::MakeMethod(group), ReplyView::Method(method)) => {
            lemma_method_jobs(bounds, method, group.instances);
        },
        (WorkView::GetInstalled(method, job, package), ReplyView::Packages(packages)) => {
            lemma_job_tasks(
                bounds,
                method,
                job,
                package,
                installed_version(packages),
                options.force,
            );
        },
        (WorkView::DumpPath(instance, socket), ReplyView::Path(path)) => {
            let request = dump_of(instance, socket, path);
            let found = as_found(instance);
            assert(request.path.names =~= seq![dump_name(instance.name)]);
            assert(eligible(bounds, found));
            assert(concerns(found, OpView::RemoveDirAll(request.path)));
            assert(concerns(found, OpView::Connect(request.conn_params)));
            assert(concerns(found, OpView::Dump(request)));
        },
        (WorkView::EncodeMarker(reinit, _), ReplyView::Text(marker)) => {
            let found = as_found(reinit.instance);
            assert(eligible(bounds, found));
            assert(concerns(found, OpView::Init(reinit.init_options(marker))));
        },
        (WorkView::StampBackup(path), ReplyView::Time(timestamp)) => {
            let parent = choose|parent: LocationView|
                path == #[trigger] parent.join(backup_name(task.scope->Restore_0)).join(
                    "backup.json"@,
                );
            assert(path == parent.join(backup_name(task.scope->Restore_0)).join("backup.json"@));
            let found = choose|instance: InstanceView| #[trigger]
                eligible(bounds, instance) && path == instance.data_dir.with_file_name(
                    backup_name(instance.name),
                ).join("backup.json"@);
            let meta = BackupMeta { timestamp };
            assert(concerns(found, OpView::WriteBackupMeta { path, meta }));
        },
        (WorkView::RestoreSocket(instance), ReplyView::Path(socket)) => {
            let request = restore_of(instance, socket);
            let found = as_found(instance);
            assert(request.path == instance.data_dir.parent.join(dump_name(instance.name)));
            assert(eligible(bounds, found));
            assert(concerns(found, OpView::Connect(request.conn_params)));
            assert(concerns(found, OpView::Restore(request)));
        },
        _ => {},
    }
}

pub proof fn lemma_server_end_all(tasks: Seq<TaskView>, good: spec_fn(TaskView) -> bool)
    requires
        all_tasks(tasks, good),
    ensures
        all_tasks(server_end(tasks), good),
    decreases tasks.len(),
{
    if tasks.len() > 0 {
        let rest = tasks.drop_first();
        assert forall|i: int| 0 <= i < rest.len() implies good(#[trigger] rest[i]) by {
            assert(rest[i] == tasks[i + 1]);
        }
        lemma_server_end_all(rest, good);
        assert(good(tasks[0]));
    }
}

/// The instances that were found: those whose metadata was read, in the order
/// they were listed.
pub open spec fn found_so_far(options: UpgradeView, replies: Seq<ReplyView>) -> Seq<InstanceView>
    decreases replies.len(),
{
    if replies.len() == 0 {
        seq![]
    } else {
        let earlier = replies.drop_last();
        let found = found_so_far(options, earlier);
        let run = reached(options, earlier);
        if run.tasks.len() == 0 {
            found
        } else {
            match (run.tasks[0].work, replies.last()) {
                (WorkView::ReadMetadata(listing, name), ReplyView::Metadata(meta)) => found.push(
                    instance_in(listing.path, name, meta),
                ),
                _ => found,
            }
        }
    }
}

/// All instances found are known.
spec fn all_known(bounds: Bounds, options: UpgradeView, replies: Seq<ReplyView>) -> bool {
    forall|instance: InstanceView| #[trigger]
        found_so_far(options, replies).contains(instance) ==> (bounds.known)(instance)
}

proof fn lemma_known_before(bounds: Bounds, options: UpgradeView, replies: Seq<ReplyView>)
    requires
        all_known(bounds, options, replies),
        replies.len() > 0,
    ensures
        all_known(bounds, options, replies.drop_last()),
        reached(options, replies.drop_last()).tasks.len() > 0 ==> reply_known(
            bounds,
            reached(options, replies.drop_last()).tasks[0],
            replies.last(),
        ),
{
    let earlier = found_so_far(options, replies.drop_last());
    let found = found_so_far(options, replies);
    assert forall|instance: InstanceView| #[trigger] earlier.contains(
        instance,
    ) implies (bounds.known)(instance) by {
        let i = earlier.index_of(instance);
        assert(found[i] == instance);
        assert(found.contains(instance));
    }
    if found.len() > earlier.len() {
        assert(found.contains(found.last()));
    }
}

proof fn lemma_reached_proper(options: UpgradeView, bounds: Bounds, replies: Seq<ReplyView>)
    requires
        bounds.todo == options.todo(),
        all_known(bounds, options, replies),
        bounds.home is Some ==> home_is(options, replies, bounds.home->0),
    ensures
        all_tasks(
            reached(options, replies).tasks,
            |task: TaskView| task_proper(bounds, task),
        ),
    decreases replies.len(),
{
    let good = |task: TaskView| task_proper(bounds, task);
    if replies.len() > 0 {
        let earlier = replies.drop_last();
        let before = reached(options, earlier);
        if bounds.home is Some {
            lemma_home_before(options, replies, bounds.home->0);
        }
        lemma_known_before(bounds, options, replies);
        lemma_reached_proper(options, bounds, earlier);
        law_options_and_failure_stay(RunView::start(options), earlier);
        if before.tasks.len() > 0 {
            assert(good(before.tasks[0]));
            lemma_outcome_proper(options, bounds, before.tasks[0], replies.last());
            lemma_server_end_all(before.tasks, good);
            match before.tasks[0].outcome(options, replies.last()) {
                OutcomeView::Next(tasks) => {
                    let rest = before.tasks.drop_first();
                    assert forall|i: int| 0 <= i < (tasks + rest).len() implies good(
                        #[trigger] (tasks + rest)[i],
                    ) by {
                        if i < tasks.len() {
                            assert((tasks + rest)[i] == tasks[i]);
                        } else {
                            assert((tasks + rest)[i] == before.tasks[i - tasks.len() + 1]);
                        }
                    }
                },
                _ => {},
            }
        }
    }
}

/// Whenever the run asks for the directory that holds the instances, it is told
/// the same one.
pub open spec fn home_is(
    options: UpgradeView,
    replies: Seq<ReplyView>,
    home: LocationView,
) -> bool {
    forall|n: int|
        0 <= n < replies.len() && (#[trigger] reached(options, replies.take(n)).pending() matches Some(
            ActionView::DataPath { system: _ },
        )) ==> (replies[n] matches ReplyView::Path(path) ==> LocationView::top(path) == home)
}

proof fn lemma_home_before(options: UpgradeView, replies: Seq<ReplyView>, home: LocationView)
    requires
        home_is(options, replies, home),
        replies.len() > 0,
    ensures
        home_is(options, replies.drop_last(), home),
        reached(options, replies.drop_last()).pending() matches Some(
            ActionView::DataPath { system: _ },
        ) ==> (replies.last() matches ReplyView::Path(path) ==> LocationView::top(path) == home),
{
    let earlier = replies.drop_last();
    assert(replies.take(earlier.len() as int) =~= earlier);
    assert forall|n: int| 0 <= n < earlier.len() && (#[trigger] reached(
        options,
        earlier.take(n),
    ).pending() matches Some(ActionView::DataPath { system: _ })) implies (
    earlier[n] matches ReplyView::Path(path) ==> LocationView::top(path) == home) by {
        assert(earlier.take(n) =~= replies.take(n));
        assert(reached(options, replies.take(n)).pending() is Some);
    }
}

/// What a run waits for keeps to what is to be done.
proof fn lemma_head_proper(options: UpgradeView, replies: Seq<ReplyView>)
    requires
        reached(options, replies).tasks.len() > 0,
    ensures
        task_proper(bounds_of(options.todo()), reached(options, replies).tasks[0]),
{
    let bounds = bounds_of(options.todo());
    lemma_reached_proper(options, bounds, replies);
    assert(task_proper(bounds, reached(options, replies).tasks[0]));
}

/// What a run waits for is within what it is done for.
pub proof fn lemma_head_within(options: UpgradeView, replies: Seq<ReplyView>)
    requires
        reached(options, replies).tasks.len() > 0,
    ensures
        ({
            let task = reached(options, replies).tasks[0];
            &&& task.work matches WorkView::Do(op) ==> op_within(task.scope, op)
            &&& task.scope is Restore ==> in_restore(task.work)
        }),
{
    lemma_head_proper(options, replies);
}

/// Only instances that are to be upgraded are taken control of: those that are
/// no nightlies, the nightlies, or the one that was named.
pub proof fn law_only_wanted_instances_are_controlled(
    options: UpgradeView,
    replies: Seq<ReplyView>,
    request: ControlRequestView,
)
    requires
        reached(options, replies).pending() == Some(ActionView::Do(OpView::GetControl(request))),
    ensures
        control_wanted(options.todo(), request),
{
    lemma_head_proper(options, replies);
}

/// Every operation concerns an instance that was found and is to be upgraded:
/// no other instance is taken control of, started, stopped, initialized, dumped
/// or restored, and the data of no other is touched.
pub proof fn law_only_found_and_wanted_instances_are_touched(
    options: UpgradeView,
    replies: Seq<ReplyView>,
    op: OpView,
)
    requires
        reached(options, replies).pending() == Some(ActionView::Do(op)),
    ensures
        exists|instance: InstanceView| #[trigger]
            found_so_far(options, replies).contains(instance) && wanted(options.todo(), instance)
                && concerns(instance, op),
{
    let bounds = Bounds {
        todo: options.todo(),
        home: None,
        known: |instance: InstanceView| found_so_far(options, replies).contains(instance),
    };
    lemma_reached_proper(options, bounds, replies);
    let task = reached(options, replies).tasks[0];
    assert(task_proper(bounds, task));
    let instance = choose|instance: InstanceView| #[trigger]
        eligible(bounds, instance) && concerns(instance, op);
    assert(eligible(bounds, instance) && concerns(instance, op));
    assert(found_so_far(options, replies).contains(instance));
}

/// The instance that a piece of a dump or a restore works on.
pub open spec fn instance_of(work: WorkView) -> Option<InstanceView> {
    match work {
        WorkView::DumpSocket(instance) => Some(instance),
        WorkView::DumpPath(instance, _) => Some(instance),
        WorkView::Identify(reinit) => Some(reinit.instance),
        WorkView::EncodeMarker(reinit, _) => Some(reinit.instance),
        WorkView::RestoreSocket(instance) => Some(instance),
        _ => None,
    }
}

/// Only instances that are to be upgraded are dumped, initialized anew and
/// restored; and what is done so is done under the name of the instance, which
/// is that of its directory.
pub proof fn law_only_wanted_instances_are_dumped_and_restored(
    options: UpgradeView,
    replies: Seq<ReplyView>,
    instance: InstanceView,
)
    requires
        reached(options, replies).tasks.len() > 0,
        instance_of(reached(options, replies).tasks[0].work) == Some(instance),
    ensures
        wanted(options.todo(), instance),
        instance.data_dir.file_name == instance.name,
        ({
            let scope = reached(options, replies).tasks[0].scope;
            scope == ScopeView::Dump(instance.name) || scope == ScopeView::Restore(instance.name)
        }),
{
    lemma_head_proper(options, replies);
}

/// An upgrade within major versions takes control of instances, stops them and
/// starts them, and does no other operation: no data is dumped, moved, removed
/// or initialized.
pub proof fn law_minor_upgrade_leaves_data_alone(
    options: UpgradeView,
    replies: Seq<ReplyView>,
    op: OpView,
)
    requires
        options.todo() is MinorUpgrade,
        reached(options, replies).pending() == Some(ActionView::Do(op)),
    ensures
        op is GetControl || op is Start || op is Stop,
{
    lemma_head_proper(options, replies);
}

/// The upgrade of a named instance touches what belongs to that instance and
/// nothing else.
pub proof fn law_named_upgrade_touches_nothing_else(
    options: UpgradeView,
    replies: Seq<ReplyView>,
    name: Seq<char>,
    op: OpView,
)
    requires
        options.name == Some(name),
        reached(options, replies).pending() == Some(ActionView::Do(op)),
    ensures
        op_within(ScopeView::Dump(name), op) || op_within(ScopeView::Restore(name), op),
{
    lemma_head_proper(options, replies);
}

/// Nothing is ever removed but an old dump of the instance that is dumped
/// next.
pub proof fn law_only_old_dumps_are_removed(
    options: UpgradeView,
    replies: Seq<ReplyView>,
    path: LocationView,
)
    requires
        reached(options, replies).pending() == Some(ActionView::Do(OpView::RemoveDirAll(path))),
    ensures
        reached(options, replies).tasks[0].scope is Dump,
        path.names == seq![dump_name(reached(options, replies).tasks[0].scope->Dump_0)],
{
    lemma_head_proper(options, replies);
}

/// Data is moved only from the directory of an instance, and only to the backup
/// of the same instance beside it.
pub proof fn law_data_is_moved_to_its_backup(
    options: UpgradeView,
    replies: Seq<ReplyView>,
    from: LocationView,
    to: LocationView,
)
    requires
        reached(options, replies).pending() == Some(
            ActionView::Do(OpView::Rename { from, to }),
        ),
    ensures
        exists|parent: LocationView, name: Seq<char>|
            from == #[trigger] parent.join(name) && to == parent.join(backup_name(name)),
{
    lemma_head_proper(options, replies);
    let scope = reached(options, replies).tasks[0].scope;
    let parent = choose|parent: LocationView|
        from == #[trigger] parent.join(scope->Restore_0) && to == parent.join(
            backup_name(scope->Restore_0),
        );
    assert(from == parent.join(scope->Restore_0));
}

/// Where the run is always told the same directory of instances, what it
/// removes, writes, moves and reads stands in that directory, under the name of
/// the instance that it is done for.
pub proof fn law_all_is_done_in_the_data_directory(
    options: UpgradeView,
    replies: Seq<ReplyView>,
    home: LocationView,
    op: OpView,
)
    requires
        home_is(options, replies, home),
        reached(options, replies).pending() == Some(ActionView::Do(op)),
    ensures
        op_in_home(home, reached(options, replies).tasks[0].scope, op),
{
    let bounds = Bounds { home: Some(home), ..bounds_of(options.todo()) };
    lemma_reached_proper(options, bounds, replies);
    assert(task_proper(bounds, reached(options, replies).tasks[0]));
}

/// The directory of an instance, its dump and its backup are three different
/// places.
pub proof fn law_data_dump_and_backup_are_apart(parent: LocationView, name: Seq<char>)
    ensures
        parent.join(name) != parent.join(dump_name(name)),
        parent.join(name) != parent.join(backup_name(name)),
        parent.join(dump_name(name)) != parent.join(backup_name(name)),
{
    reveal_strlit(".dump");
    reveal_strlit(".backup");
    assert(dump_name(name).len() == name.len() + 5);
    assert(backup_name(name).len() == name.len() + 7);
    assert(parent.join(name).names.last() == name);
    assert(parent.join(dump_name(name)).names.last() == dump_name(name));
    assert(parent.join(backup_name(name)).names.last() == backup_name(name));
}

/// An instance is restored from where it was dumped to.
pub proof fn law_restore_reads_the_dump(
    data_path: Seq<u8>,
    name: Seq<char>,
    meta: MetadataView,
    old_version: Option<VersionView>,
    new_version: VersionView,
    dump_socket: Seq<u8>,
    restore_socket: Seq<u8>,
)
    ensures
        ({
            let found = instance_in(LocationView::top(data_path), name, meta);
            let instance = found.marked(old_version, new_version);
            restore_of(instance, restore_socket).path == dump_of(
                instance,
                dump_socket,
                data_path,
            ).path
        }),
{
}

/// The record of an upgrade names the version on offer as the one upgraded to,
/// and the installed one, where there is one, as the one upgraded from.
pub proof fn law_record_names_the_versions(
    instance: InstanceView,
    old_version: Option<VersionView>,
    new_version: VersionView,
    started: SystemTime,
    pid: u32,
)
    ensures
        ({
            let meta = instance.marked(old_version, new_version).upgrade_meta(started, pid);
            &&& meta.target == new_version
            &&& old_version is Some ==> meta.source == old_version->0
            &&& old_version is None ==> meta.source == unknown_version()
            &&& meta.started == started
            &&& meta.pid == pid
        }),
{
}

} // verus!
