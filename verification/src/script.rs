//! What an upgrade does, in order.
use crate::convert::convert_all;
use crate::instance::{Instance, InstallMethod, InstallMethodView, InstanceView};
use crate::location::{backup_file_name, backup_name};
use crate::requests::{InstallPlan, InstallPlanView, Reinit, ReinitView};
use crate::selection::{join_names, joined_names};
use crate::task::{
    Job, JobView, MajorGroup, MajorGroupView, Op, OpView, Report, ReportView, Scope, ScopeView,
    Task, TaskView, Work, WorkView,
};
use crate::version::{
    is_up_to_date, up_to_date, PackageInfo, PackageInfoView, Version, VersionQuery,
    VersionQueryView, VersionView,
};
use vstd::prelude::*;

verus! {

/// Work that is part of no dump or restore.
pub open spec fn plain(work: WorkView) -> TaskView {
    TaskView { scope: ScopeView::Upgrade, work }
}

/// Work that is part of no dump or restore.
pub fn plain_task(work: Work) -> (task: Task)
    ensures
        task@ == plain(work@),
{
    Task { scope: Scope::Upgrade, work }
}

/// An operation in a scope.
pub open spec fn op_in(scope: ScopeView, op: OpView) -> TaskView {
    TaskView { scope, work: WorkView::Do(op) }
}

/// An operation in a scope.
pub fn op_task(scope: &Scope, op: Op) -> (task: Task)
    ensures
        task@ == op_in(scope@, op@),
{
    Task { scope: scope.clone(), work: Work::Do(op) }
}

/// Appends a task.
pub fn push_task(tasks: &mut Vec<Task>, task: Task)
    ensures
        final(tasks).deep_view() == old(tasks).deep_view().push(task@),
{
    let ghost before = tasks.deep_view();
    tasks.push(task);
    assert(tasks.deep_view() =~= before.push(task@));
}

/// Appends all of the other tasks.
pub fn append_tasks(tasks: &mut Vec<Task>, mut others: Vec<Task>)
    ensures
        final(tasks).deep_view() == old(tasks).deep_view() + others.deep_view(),
{
    let ghost before = tasks.deep_view();
    let ghost rest = others.deep_view();
    tasks.append(&mut others);
    assert(tasks.deep_view() =~= before + rest);
}

/// No task.
pub fn no_tasks() -> (tasks: Vec<Task>)
    ensures
        tasks.deep_view() == Seq::<TaskView>::empty(),
{
    let tasks: Vec<Task> = Vec::new();
    assert(tasks.deep_view() =~= Seq::<TaskView>::empty());
    tasks
}

/// One task.
pub fn one_task(task: Task) -> (tasks: Vec<Task>)
    ensures
        tasks.deep_view() == seq![task@],
{
    let mut tasks = no_tasks();
    push_task(&mut tasks, task);
    assert(tasks.deep_view() =~= seq![task@]);
    tasks
}

/// The part that each instance has in the work, one instance after the other.
pub open spec fn in_turn(
    instances: Seq<InstanceView>,
    part: spec_fn(InstanceView) -> Seq<TaskView>,
) -> Seq<TaskView>
    decreases instances.len(),
{
    if instances.len() == 0 {
        seq![]
    } else {
        in_turn(instances.drop_last(), part) + part(instances.last())
    }
}

/// Takes control of an instance and stops it if that is possible.
pub open spec fn stop_part(instance: InstanceView) -> Seq<TaskView> {
    seq![
        plain(WorkView::Do(OpView::GetControl(instance.control()))),
        plain(WorkView::TryStop(instance.name)),
    ]
}

/// Takes control of an instance and starts it.
pub open spec fn start_part(instance: InstanceView) -> Seq<TaskView> {
    seq![
        plain(WorkView::Do(OpView::GetControl(instance.control()))),
        plain(WorkView::Do(OpView::Start { name: instance.name, foreground: false })),
    ]
}

/// Takes control of an instance, starts it, dumps it and stops it.
pub open spec fn dump_part(instance: InstanceView) -> Seq<TaskView> {
    let scope = ScopeView::Dump(instance.name);
    seq![
        op_in(scope, OpView::GetControl(instance.control())),
        op_in(scope, OpView::Start { name: instance.name, foreground: false }),
        TaskView { scope, work: WorkView::DumpSocket(instance) },
        op_in(scope, OpView::Stop { name: instance.name }),
    ]
}

/// The arguments that the server is run with while an instance is restored.
pub open spec fn server_args() -> Seq<Seq<char>> {
    seq!["--default-database=edgedb"@, "--default-database-user=edgedb"@]
}

/// Moves the data of an instance out of the way, initializes the instance anew,
/// restores it through a server of its own, and starts it.
pub open spec fn restore_part(reinit: ReinitView) -> Seq<TaskView> {
    let instance = reinit.instance;
    let scope = ScopeView::Restore(instance.name);
    let backup = instance.data_dir.with_file_name(backup_name(instance.name));
    seq![
        op_in(scope, OpView::Rename { from: instance.data_dir.location(), to: backup }),
        TaskView { scope, work: WorkView::StampBackup(backup.join("backup.json"@)) },
        TaskView { scope, work: WorkView::Identify(reinit) },
        op_in(scope, OpView::GetControl(instance.control())),
        op_in(scope, OpView::RunCommand),
        op_in(scope, OpView::RunServer { args: server_args() }),
        TaskView { scope, work: WorkView::RestoreSocket(instance) },
        TaskView { scope, work: WorkView::EndServer },
        op_in(scope, OpView::Start { name: instance.name, foreground: false }),
    ]
}

/// Takes control of an instance, starts it, dumps it and stops it.
pub fn dump_and_stop(instance: &Instance) -> (tasks: Vec<Task>)
    ensures
        tasks.deep_view() == dump_part(instance@),
{
    let scope = Scope::Dump(instance.name.clone());
    let mut tasks = no_tasks();
    push_task(&mut tasks, op_task(&scope, Op::GetControl(instance.get_control())));
    push_task(
        &mut tasks,
        op_task(&scope, Op::Start { name: instance.name.clone(), foreground: false }),
    );
    push_task(
        &mut tasks,
        Task { scope: scope.clone(), work: Work::DumpSocket(instance.clone()) },
    );
    push_task(&mut tasks, op_task(&scope, Op::Stop { name: instance.name.clone() }));
    assert(tasks.deep_view() =~= dump_part(instance@));
    tasks
}

/// The arguments that the server is run with while an instance is restored.
fn make_server_args() -> (args: Vec<String>)
    ensures
        args.deep_view() == server_args(),
{
    let mut args: Vec<String> = Vec::new();
    args.push("--default-database=edgedb".to_string());
    args.push("--default-database-user=edgedb".to_string());
    assert(args.deep_view() =~= server_args());
    args
}

/// Moves the data of an instance out of the way, initializes the instance anew,
/// restores it through a server of its own, and starts it.
pub fn reinit_and_restore(
    instance: &Instance,
    version: &Version,
    nightly: bool,
    method: &InstallMethod,
) -> (tasks: Vec<Task>)
    ensures
        tasks.deep_view() == restore_part(
            (ReinitView { instance: instance@, version: version@, nightly, method: method@ }),
        ),
{
    let scope = Scope::Restore(instance.name.clone());
    let backup = instance.data_dir.with_file_name(backup_file_name(&instance.name));
    let reinit = Reinit {
        instance: instance.clone(),
        version: version.clone(),
        nightly,
        method: method.clone(),
    };
    let record = backup.join("backup.json".to_string());
    let mut tasks = no_tasks();
    push_task(
        &mut tasks,
        op_task(&scope, Op::Rename { from: instance.data_dir.location(), to: backup }),
    );
    push_task(&mut tasks, Task { scope: scope.clone(), work: Work::StampBackup(record) });
    push_task(&mut tasks, Task { scope: scope.clone(), work: Work::Identify(reinit) });
    push_task(&mut tasks, op_task(&scope, Op::GetControl(instance.get_control())));
    push_task(&mut tasks, op_task(&scope, Op::RunCommand));
    push_task(&mut tasks, op_task(&scope, Op::RunServer { args: make_server_args() }));
    push_task(
        &mut tasks,
        Task { scope: scope.clone(), work: Work::RestoreSocket(instance.clone()) },
    );
    push_task(&mut tasks, Task { scope: scope.clone(), work: Work::EndServer });
    push_task(
        &mut tasks,
        op_task(&scope, Op::Start { name: instance.name.clone(), foreground: false }),
    );
    assert(tasks.deep_view() =~= restore_part(reinit@));
    tasks
}

/// The part that restores an instance after an upgrade to the version.
pub open spec fn restore_to(
    version: VersionView,
    nightly: bool,
    method: InstallMethodView,
) -> spec_fn(InstanceView) -> Seq<TaskView> {
    |instance: InstanceView| restore_part(ReinitView { instance, version, nightly, method })
}

/// A part that each instance can have in the work.
enum Part<'a> {
    Stop,
    Start,
    Dump,
    /// The restore after an upgrade to the version.
    Restore(&'a Version, bool, &'a InstallMethod),
}

impl<'a> Part<'a> {
    /// The tasks that the part consists of.
    spec fn meaning(self) -> spec_fn(InstanceView) -> Seq<TaskView> {
        match self {
            Part::Stop => |instance: InstanceView| stop_part(instance),
            Part::Start => |instance: InstanceView| start_part(instance),
            Part::Dump => |instance: InstanceView| dump_part(instance),
            Part::Restore(version, nightly, method) => restore_to(version@, nightly, method@),
        }
    }

    /// The tasks that the part consists of.
    fn tasks(&self, instance: &Instance) -> (tasks: Vec<Task>)
        ensures
            tasks.deep_view() == self.meaning()(instance@),
    {
        match self {
            Part::Stop => {
                let control = Op::GetControl(instance.get_control());
                let mut tasks = one_task(plain_task(Work::Do(control)));
                push_task(&mut tasks, plain_task(Work::TryStop(instance.name.clone())));
                assert(tasks.deep_view() =~= stop_part(instance@));
                tasks
            },
            Part::Start => {
                let control = Op::GetControl(instance.get_control());
                let start = Op::Start { name: instance.name.clone(), foreground: false };
                let mut tasks = one_task(plain_task(Work::Do(control)));
                push_task(&mut tasks, plain_task(Work::Do(start)));
                assert(tasks.deep_view() =~= start_part(instance@));
                tasks
            },
            Part::Dump => dump_and_stop(instance),
            Part::Restore(version, nightly, method) => reinit_and_restore(
                instance,
                version,
                *nightly,
                method,
            ),
        }
    }

    /// The part of each instance, one instance after the other.
    fn of_all(&self, instances: &Vec<Instance>) -> (tasks: Vec<Task>)
        ensures
            tasks.deep_view() == in_turn(instances.deep_view(), self.meaning()),
    {
        let mut tasks = no_tasks();
        let mut i: usize = 0;
        while i < instances.len()
            invariant
                i <= instances.len(),
                tasks.deep_view() == in_turn(
                    instances.deep_view().take(i as int),
                    self.meaning(),
                ),
            decreases instances.len() - i,
        {
            append_tasks(&mut tasks, self.tasks(&instances[i]));
            proof {
                let seen = instances.deep_view().take(i + 1);
                assert(seen.drop_last() == instances.deep_view().take(i as int));
                assert(seen.last() == instances[i as int]@);
            }
            i = i + 1;
        }
        assert(instances.deep_view().take(i as int) == instances.deep_view());
        tasks
    }
}

/// The instances, each with the versions that it is upgraded from and to.
pub open spec fn all_marked(
    instances: Seq<InstanceView>,
    old_version: Option<VersionView>,
    new_version: VersionView,
) -> Seq<InstanceView> {
    instances.map_values(|instance: InstanceView| instance.marked(old_version, new_version))
}

/// Sets the versions that the instances are upgraded from and to.
fn mark_all(
    instances: Vec<Instance>,
    old_version: &Option<Version>,
    new_version: &Version,
) -> (marked: Vec<Instance>)
    ensures
        marked.deep_view() == all_marked(
            instances.deep_view(),
            old_version.deep_view(),
            new_version@,
        ),
{
    convert_all(
        instances,
        |mut instance: Instance| -> (marked: Instance)
            ensures
                marked@ == instance@.marked(old_version.deep_view(), new_version@)
            {
                instance.mark(old_version, new_version);
                instance
            },
        Ghost(
            |instance: InstanceView| instance.marked(old_version.deep_view(), new_version@),
        ),
    )
}

/// The upgrade of the instances of the major versions, one version after the
/// other.
pub open spec fn minor_jobs(
    method: InstallMethodView,
    groups: Seq<MajorGroupView>,
) -> Seq<TaskView> {
    if groups.len() == 0 {
        seq![]
    } else {
        seq![plain(WorkView::GetVersion(method, JobView::Minor(groups[0], groups.drop_first())))]
    }
}

/// The upgrade of the instances of the major versions, one version after the
/// other.
pub fn start_minor_jobs(method: &InstallMethod, mut groups: Vec<MajorGroup>) -> (tasks: Vec<Task>)
    ensures
        tasks.deep_view() == minor_jobs(method@, groups.deep_view()),
{
    if groups.len() == 0 {
        return no_tasks();
    }
    let ghost all = groups.deep_view();
    let group = groups.remove(0);
    assert(groups.deep_view() =~= all.drop_first());
    one_task(plain_task(Work::GetVersion(method.clone(), Job::Minor(group, groups))))
}

/// Upgrades the instances of a major version: stops them, installs the package,
/// starts them; then goes on with the other versions.
pub open spec fn minor_upgrade(
    method: InstallMethodView,
    group: MajorGroupView,
    rest: Seq<MajorGroupView>,
    package: PackageInfoView,
    old_version: Option<VersionView>,
) -> Seq<TaskView> {
    let instances = all_marked(group.instances, old_version, package.full_version);
    seq![
        plain(
            WorkView::Tell(
                ReportView::Upgrading {
                    version: group.version,
                    new_version: package.version,
                    revision: package.revision,
                    instances: joined_names(group.instances),
                },
            ),
        ),
    ] + in_turn(instances, |instance: InstanceView| stop_part(instance)) + seq![
        plain(
            WorkView::Install(
                InstallPlanView {
                    method,
                    package_name: package.package_name,
                    major_version: group.version,
                    version: package.version,
                    nightly: false,
                },
            ),
        ),
    ] + in_turn(instances, |instance: InstanceView| start_part(instance)) + minor_jobs(method, rest)
}

/// What is done for the instances of a major version. Where they need no
/// upgrade, nothing is done for those of the other versions either.
pub open spec fn minor_tasks(
    method: InstallMethodView,
    group: MajorGroupView,
    rest: Seq<MajorGroupView>,
    package: PackageInfoView,
    old_version: Option<VersionView>,
    force: bool,
) -> Seq<TaskView> {
    if up_to_date(old_version, package.full_version, force) {
        seq![
            plain(
                WorkView::Tell(
                    ReportView::VersionUpToDate {
                        version: group.version,
                        installed: old_version->0,
                        instances: joined_names(group.instances),
                    },
                ),
            ),
        ]
    } else {
        minor_upgrade(method, group, rest, package, old_version)
    }
}

/// What is done for the instances of a major version, and after that for those
/// of the other versions.
pub fn do_minor_upgrade(
    method: InstallMethod,
    group: MajorGroup,
    rest: Vec<MajorGroup>,
    package: PackageInfo,
    old_version: Option<Version>,
    force: bool,
) -> (tasks: Vec<Task>)
    ensures
        tasks.deep_view() == minor_tasks(
            method@,
            group@,
            rest.deep_view(),
            package@,
            old_version.deep_view(),
            force,
        ),
{
    let names = join_names(&group.instances);
    if is_up_to_date(&old_version, &package.full_version, force) {
        if let Some(installed) = old_version {
            return one_task(
                plain_task(
                    Work::Tell(
                        Report::VersionUpToDate {
                            version: group.version,
                            installed,
                            instances: names,
                        },
                    ),
                ),
            );
        }
    }
    let ghost all = group@;
    let MajorGroup { version, instances } = group;
    let instances = mark_all(instances, &old_version, &package.full_version);
    let mut tasks = one_task(
        plain_task(
            Work::Tell(
                Report::Upgrading {
                    version: version.clone(),
                    new_version: package.version.clone(),
                    revision: package.revision,
                    instances: names,
                },
            ),
        ),
    );
    append_tasks(&mut tasks, Part::Stop.of_all(&instances));
    let plan = InstallPlan {
        method: method.clone(),
        package_name: package.package_name,
        major_version: version,
        version: package.version,
        nightly: false,
    };
    let ghost before = tasks.deep_view();
    push_task(&mut tasks, plain_task(Work::Install(plan)));
    assert(tasks.deep_view() =~= before + seq![plain(WorkView::Install(plan@))]);
    append_tasks(&mut tasks, Part::Start.of_all(&instances));
    append_tasks(&mut tasks, start_minor_jobs(&method, rest));
    tasks
}

/// Upgrades instances to the nightly: dumps and stops all of them, installs the
/// package, and then restores all of them.
pub open spec fn nightly_upgrade(
    method: InstallMethodView,
    instances: Seq<InstanceView>,
    package: PackageInfoView,
    old_version: Option<VersionView>,
) -> Seq<TaskView> {
    let marked = all_marked(instances, old_version, package.full_version);
    in_turn(marked, |instance: InstanceView| dump_part(instance)) + seq![
        plain(
            WorkView::Install(
                InstallPlanView {
                    method,
                    package_name: package.package_name,
                    major_version: package.major_version,
                    version: package.version,
                    nightly: true,
                },
            ),
        ),
    ] + in_turn(marked, restore_to(package.major_version, true, method))
}

/// What is done for the nightly instances.
pub open spec fn nightly_tasks(
    method: InstallMethodView,
    instances: Seq<InstanceView>,
    package: PackageInfoView,
    old_version: Option<VersionView>,
    force: bool,
) -> Seq<TaskView> {
    if up_to_date(old_version, package.full_version, force) {
        seq![
            plain(
                WorkView::Tell(
                    ReportView::NightlyUpToDate {
                        installed: old_version->0,
                        instances: joined_names(instances),
                    },
                ),
            ),
        ]
    } else {
        nightly_upgrade(method, instances, package, old_version)
    }
}

/// What is done for the nightly instances.
pub fn do_nightly_upgrade(
    method: InstallMethod,
    instances: Vec<Instance>,
    package: PackageInfo,
    old_version: Option<Version>,
    force: bool,
) -> (tasks: Vec<Task>)
    ensures
        tasks.deep_view() == nightly_tasks(
            method@,
            instances.deep_view(),
            package@,
            old_version.deep_view(),
            force,
        ),
{
    if is_up_to_date(&old_version, &package.full_version, force) {
        let names = join_names(&instances);
        if let Some(installed) = old_version {
            return one_task(
                plain_task(Work::Tell(Report::NightlyUpToDate { installed, instances: names })),
            );
        }
    }
    let marked = mark_all(instances, &old_version, &package.full_version);
    let mut tasks = Part::Dump.of_all(&marked);
    let restores = Part::Restore(&package.major_version, true, &method).of_all(&marked);
    let plan = InstallPlan {
        method,
        package_name: package.package_name,
        major_version: package.major_version,
        version: package.version,
        nightly: true,
    };
    let ghost before = tasks.deep_view();
    push_task(&mut tasks, plain_task(Work::Install(plan)));
    assert(tasks.deep_view() =~= before + seq![plain(WorkView::Install(plan@))]);
    append_tasks(&mut tasks, restores);
    tasks
}

/// Upgrades one instance: dumps and stops it, installs the package, and then
/// restores it.
pub open spec fn instance_upgrade(
    method: InstallMethodView,
    instance: InstanceView,
    query: VersionQueryView,
    package: PackageInfoView,
    old_version: Option<VersionView>,
) -> Seq<TaskView> {
    let marked = instance.marked(old_version, package.full_version);
    dump_part(marked) + seq![
        plain(
            WorkView::Install(
                InstallPlanView {
                    method,
                    package_name: package.package_name,
                    major_version: package.major_version,
                    version: package.version,
                    nightly: query is Nightly,
                },
            ),
        ),
    ] + restore_part(
        ReinitView {
            instance: marked,
            version: package.version,
            nightly: query is Nightly,
            method,
        },
    )
}

/// What is done for one instance.
pub open spec fn instance_tasks(
    method: InstallMethodView,
    instance: InstanceView,
    query: VersionQueryView,
    package: PackageInfoView,
    old_version: Option<VersionView>,
    force: bool,
) -> Seq<TaskView> {
    if up_to_date(old_version, package.full_version, force) {
        seq![
            plain(
                WorkView::Tell(
                    ReportView::InstanceUpToDate {
                        query,
                        installed: old_version->0,
                        name: instance.name,
                    },
                ),
            ),
        ]
    } else {
        instance_upgrade(method, instance, query, package, old_version)
    }
}

/// What is done for one instance.
pub fn do_instance_upgrade(
    method: InstallMethod,
    mut instance: Instance,
    query: VersionQuery,
    package: PackageInfo,
    old_version: Option<Version>,
    force: bool,
) -> (tasks: Vec<Task>)
    ensures
        tasks.deep_view() == instance_tasks(
            method@,
            instance@,
            query@,
            package@,
            old_version.deep_view(),
            force,
        ),
{
    if is_up_to_date(&old_version, &package.full_version, force) {
        if let Some(installed) = old_version {
            return one_task(
                plain_task(
                    Work::Tell(
                        Report::InstanceUpToDate { query, installed, name: instance.name },
                    ),
                ),
            );
        }
    }
    instance.mark(&old_version, &package.full_version);
    let mut tasks = dump_and_stop(&instance);
    let restore = reinit_and_restore(&instance, &package.version, query.is_nightly(), &method);
    let plan = InstallPlan {
        method,
        package_name: package.package_name,
        major_version: package.major_version,
        version: package.version,
        nightly: query.is_nightly(),
    };
    let ghost before = tasks.deep_view();
    push_task(&mut tasks, plain_task(Work::Install(plan)));
    assert(tasks.deep_view() =~= before + seq![plain(WorkView::Install(plan@))]);
    append_tasks(&mut tasks, restore);
    tasks
}

} // verus!
