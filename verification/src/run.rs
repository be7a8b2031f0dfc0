//! An upgrade from start to end.
use crate::convert::convert_all;
use crate::instance::{BackupMeta, Instance, InstallMethod, InstallMethodView, InstanceView};
use crate::listing::{InstanceIterator, InstanceIteratorView, Item, ItemView};
use crate::location::{Location, LocationView};
use crate::options::{interpret_options, ToDo, ToDoView, Upgrade, UpgradeView};
use crate::requests::{dump_instance, dump_of, restore_instance, restore_of};
use crate::script::{
    do_instance_upgrade, do_minor_upgrade, do_nightly_upgrade, instance_tasks, minor_jobs,
    minor_tasks, nightly_tasks, no_tasks, one_task, op_in, op_task, plain, plain_task, push_task,
    start_minor_jobs,
};
use crate::selection::{
    get_instances, group_instances, grouped, join_names, joined_names, selected, Grouping,
};
use crate::task::{
    Action, ActionView, Context, ContextView, Job, JobView, MajorGroup, MajorGroupView,
    MethodGroup, MethodGroupView, Op, OpView, Reply, ReplyView, Report, ReportView, Scope,
    ScopeView, Task, TaskView, Work, WorkView,
};
use crate::version::{
    get_installed, installed_version, PackageInfo, PackageInfoView, Version, VersionView,
};
use vstd::prelude::*;

verus! {

/// The instances, put together by the way they are installed.
pub open spec fn by_method(instances: Seq<InstanceView>) -> Seq<MethodGroupView> {
    grouped(instances, Grouping::Method).map_values(
        |group: Seq<InstanceView>|
            MethodGroupView { method: group[0].meta.method, instances: group },
    )
}

/// The instances, put together by their major version.
pub open spec fn by_major(instances: Seq<InstanceView>) -> Seq<MajorGroupView> {
    grouped(instances, Grouping::Major).map_values(
        |group: Seq<InstanceView>|
            MajorGroupView { version: group[0].meta.version, instances: group },
    )
}

/// The instances, put together by the way they are installed.
pub fn group_by_method(instances: Vec<Instance>) -> (groups: Vec<MethodGroup>)
    ensures
        groups.deep_view() == by_method(instances.deep_view()),
{
    convert_all(
        group_instances(instances, Grouping::Method),
        |list: Vec<Instance>| -> (group: MethodGroup)
            requires
                list.len() > 0,
            ensures
                group@.method == list.deep_view()[0].meta.method,
                group@.instances == list.deep_view()
            { MethodGroup { method: list[0].meta.method.clone(), instances: list } },
        Ghost(
            |group: Seq<InstanceView>|
                MethodGroupView { method: group[0].meta.method, instances: group },
        ),
    )
}

/// The instances, put together by their major version.
pub fn group_by_major(instances: Vec<Instance>) -> (groups: Vec<MajorGroup>)
    ensures
        groups.deep_view() == by_major(instances.deep_view()),
{
    convert_all(
        group_instances(instances, Grouping::Major),
        |list: Vec<Instance>| -> (group: MajorGroup)
            requires
                list.len() > 0,
            ensures
                group@.version == list.deep_view()[0].meta.version,
                group@.instances == list.deep_view()
            { MajorGroup { version: list[0].meta.version.clone(), instances: list } },
        Ghost(
            |group: Seq<InstanceView>|
                MajorGroupView { version: group[0].meta.version, instances: group },
        ),
    )
}

/// What is done once all instances are found.
pub open spec fn after_listing(options: UpgradeView, found: Seq<InstanceView>) -> Seq<TaskView> {
    let instances = selected(options.todo(), found);
    if instances.len() == 0 {
        seq![plain(WorkView::Tell(ReportView::NoInstances { without_nightly: !options.nightly }))]
    } else {
        seq![plain(WorkView::DetectOs(by_method(instances)))]
    }
}

/// What is done once all instances are found.
pub fn start_upgrade(options: &Upgrade, found: &Vec<Instance>) -> (tasks: Vec<Task>)
    ensures
        tasks.deep_view() == after_listing(options@, found.deep_view()),
{
    let todo = interpret_options(options);
    let instances = get_instances(&todo, found);
    if instances.len() == 0 {
        let report = Report::NoInstances { without_nightly: !options.nightly };
        one_task(plain_task(Work::Tell(report)))
    } else {
        one_task(plain_task(Work::DetectOs(group_by_method(instances))))
    }
}

/// A look at the method of each group, one group after the other.
pub open spec fn method_checks(groups: Seq<MethodGroupView>) -> Seq<TaskView> {
    groups.map_values(|group: MethodGroupView| plain(WorkView::CheckMethod(group)))
}

/// A look at the method of each group, one group after the other.
fn check_methods(groups: Vec<MethodGroup>) -> (tasks: Vec<Task>)
    ensures
        tasks.deep_view() == method_checks(groups.deep_view()),
{
    convert_all(
        groups,
        |group: MethodGroup| -> (task: Task)
            ensures
                task@ == plain(WorkView::CheckMethod(group@))
            { plain_task(Work::CheckMethod(group)) },
        Ghost(|group: MethodGroupView| plain(WorkView::CheckMethod(group))),
    )
}

/// The upgrade of the instances that are installed by one method.
pub open spec fn method_jobs(
    todo: ToDoView,
    method: InstallMethodView,
    instances: Seq<InstanceView>,
) -> Seq<TaskView> {
    match todo {
        ToDoView::MinorUpgrade => minor_jobs(method, by_major(instances)),
        ToDoView::NightlyUpgrade => seq![
            plain(WorkView::GetVersion(method, JobView::Nightly(instances))),
        ],
        ToDoView::InstanceUpgrade(_, query) => instances.map_values(
            |instance: InstanceView|
                plain(WorkView::GetVersion(method, JobView::Single(instance, query))),
        ),
    }
}

/// The upgrade of the instances that are installed by one method.
pub fn start_jobs(todo: ToDo, method: InstallMethod, instances: Vec<Instance>) -> (tasks: Vec<
    Task,
>)
    ensures
        tasks.deep_view() == method_jobs(todo@, method@, instances.deep_view()),
{
    match todo {
        ToDo::MinorUpgrade => start_minor_jobs(&method, group_by_major(instances)),
        ToDo::NightlyUpgrade => one_task(
            plain_task(Work::GetVersion(method, Job::Nightly(instances))),
        ),
        ToDo::InstanceUpgrade(_, query) => {
            convert_all(
                instances,
                |instance: Instance| -> (task: Task)
                    ensures
                        task@ == plain(
                            WorkView::GetVersion(method@, JobView::Single(instance@, query@)),
                        )
                    {
                        let job = Job::Single(instance, query.clone());
                        plain_task(Work::GetVersion(method.clone(), job))
                    },
                Ghost(
                    |instance: InstanceView|
                        plain(WorkView::GetVersion(method@, JobView::Single(instance, query@))),
                ),
            )
        },
    }
}

/// What is done once the version on offer and the installed one are known.
pub open spec fn job_tasks(
    method: InstallMethodView,
    job: JobView,
    package: PackageInfoView,
    old_version: Option<VersionView>,
    force: bool,
) -> Seq<TaskView> {
    match job {
        JobView::Minor(group, rest) => minor_tasks(
            method,
            group,
            rest,
            package,
            old_version,
            force,
        ),
        JobView::Nightly(instances) => nightly_tasks(
            method,
            instances,
            package,
            old_version,
            force,
        ),
        JobView::Single(instance, query) => instance_tasks(
            method,
            instance,
            query,
            package,
            old_version,
            force,
        ),
    }
}

/// What is done once the version on offer and the installed one are known.
pub fn do_job(
    method: InstallMethod,
    job: Job,
    package: PackageInfo,
    old_version: Option<Version>,
    force: bool,
) -> (tasks: Vec<Task>)
    ensures
        tasks.deep_view() == job_tasks(
            method@,
            job@,
            package@,
            old_version.deep_view(),
            force,
        ),
{
    match job {
        Job::Minor(group, rest) => do_minor_upgrade(
            method,
            group,
            rest,
            package,
            old_version,
            force,
        ),
        Job::Nightly(instances) => do_nightly_upgrade(
            method,
            instances,
            package,
            old_version,
            force,
        ),
        Job::Single(instance, query) => do_instance_upgrade(
            method,
            instance,
            query,
            package,
            old_version,
            force,
        ),
    }
}

impl WorkView {
    /// The work comes to nothing and ends the run if what it asks for fails.
    pub open spec fn can_fail(self) -> bool {
        match self {
            WorkView::LocateInstances => true,
            WorkView::OpenInstances(_) => true,
            WorkView::NextEntry(_) => true,
            WorkView::DetectOs(_) => true,
            WorkView::ListMethods(_) => true,
            WorkView::MakeMethod(_) => true,
            WorkView::GetVersion(_, _) => true,
            WorkView::GetInstalled(_, _, _) => true,
            WorkView::Install(_) => true,
            WorkView::Do(_) => true,
            WorkView::DumpSocket(_) => true,
            WorkView::DumpPath(_, _) => true,
            WorkView::RestoreSocket(_) => true,
            _ => false,
        }
    }

    /// What was being done, if what the work asks for fails.
    pub open spec fn contexts(self) -> Seq<ContextView> {
        match self {
            WorkView::NextEntry(listing) => seq![ContextView::ListingInstances(listing.path)],
            WorkView::GetVersion(_, _) => seq![ContextView::DeterminingVersion],
            WorkView::Do(OpView::WriteBackupMeta { path, meta: _ }) => seq![
                ContextView::WritingBackupMeta(path),
            ],
            WorkView::Do(OpView::RunServer { args: _ }) => seq![ContextView::RunningServer],
            _ => seq![],
        }
    }
}

impl ScopeView {
    /// What was being done, if work in this scope fails.
    pub open spec fn contexts(self) -> Seq<ContextView> {
        match self {
            ScopeView::Upgrade => seq![],
            ScopeView::Dump(name) => seq![ContextView::Dumping(name)],
            ScopeView::Restore(name) => seq![ContextView::Restoring(name)],
        }
    }
}

/// What a reply leads to.
#[verifier::ext_equal]
pub enum OutcomeView {
    /// These tasks come before all that is left.
    Next(Seq<TaskView>),
    /// The run has failed. What was being done, from the inside out.
    Failure(Seq<ContextView>),
    /// The reply is none to what was asked.
    Unfit,
}

/// What a reply leads to.
#[derive(Debug)]
pub enum Outcome {
    /// These tasks come before all that is left.
    Next(Vec<Task>),
    /// The run has failed. What was being done, from the inside out.
    Failure(Vec<Context>),
}

impl View for Outcome {
    type V = OutcomeView;

    open spec fn view(&self) -> OutcomeView {
        match self {
            Outcome::Next(tasks) => OutcomeView::Next(tasks.deep_view()),
            Outcome::Failure(contexts) => OutcomeView::Failure(contexts.deep_view()),
        }
    }
}

impl TaskView {
    /// What a reply to what the task asks for leads to.
    pub open spec fn outcome(self, options: UpgradeView, reply: ReplyView) -> OutcomeView {
        let scope = self.scope;
        match (self.work, reply) {
            (WorkView::LocateInstances, ReplyView::Path(path)) => OutcomeView::Next(
                seq![plain(WorkView::CheckInstances(LocationView::top(path)))],
            ),
            (WorkView::CheckInstances(path), ReplyView::Answer(there)) => OutcomeView::Next(
                if there {
                    seq![plain(WorkView::OpenInstances(path))]
                } else {
                    after_listing(options, seq![])
                },
            ),
            (WorkView::OpenInstances(path), ReplyView::Done) => OutcomeView::Next(
                seq![plain(WorkView::NextEntry(InstanceIteratorView::at(path)))],
            ),
            (WorkView::NextEntry(listing), ReplyView::End) => OutcomeView::Next(
                after_listing(options, listing.found),
            ),
            (WorkView::NextEntry(listing), ReplyView::Entry(entry)) => match entry.item() {
                ItemView::Untyped => OutcomeView::Failure(
                    seq![ContextView::DeterminingEntryType(listing.path)],
                ),
                ItemView::Skipped => OutcomeView::Next(seq![plain(WorkView::NextEntry(listing))]),
                ItemView::Candidate(name) => OutcomeView::Next(
                    seq![plain(WorkView::ReadMetadata(listing, name))],
                ),
            },
            (WorkView::ReadMetadata(listing, name), ReplyView::Metadata(meta)) => {
                OutcomeView::Next(seq![plain(WorkView::NextEntry(listing.with(name, meta)))])
            },
            (WorkView::ReadMetadata(listing, name), ReplyView::Failed) => OutcomeView::Next(
                seq![
                    plain(WorkView::Tell(ReportView::MetadataUnreadable { name })),
                    plain(WorkView::NextEntry(listing)),
                ],
            ),
            (WorkView::DetectOs(groups), ReplyView::Done) => OutcomeView::Next(
                seq![plain(WorkView::ListMethods(groups))],
            ),
            (WorkView::ListMethods(groups), ReplyView::Done) => OutcomeView::Next(
                method_checks(groups),
            ),
            (WorkView::CheckMethod(group), ReplyView::Answer(supported)) => OutcomeView::Next(
                if supported {
                    seq![plain(WorkView::MakeMethod(group))]
                } else {
                    seq![
                        plain(
                            WorkView::Tell(
                                ReportView::MethodUnavailable {
                                    title: group.method.title,
                                    instances: joined_names(group.instances),
                                },
                            ),
                        ),
                    ]
                },
            ),
            (WorkView::MakeMethod(group), ReplyView::Method(method)) => OutcomeView::Next(
                method_jobs(options.todo(), method, group.instances),
            ),
            (WorkView::GetVersion(method, job), ReplyView::Package(package)) => {
                OutcomeView::Next(seq![plain(WorkView::GetInstalled(method, job, package))])
            },
            (WorkView::GetInstalled(method, job, package), ReplyView::Packages(packages)) => {
                OutcomeView::Next(
                    job_tasks(method, job, package, installed_version(packages), options.force),
                )
            },
            (WorkView::Install(_), ReplyView::Done) => OutcomeView::Next(seq![]),
            (WorkView::Do(_), ReplyView::Done) => OutcomeView::Next(seq![]),
            (WorkView::TryStop(_), ReplyView::Done) => OutcomeView::Next(seq![]),
            (WorkView::TryStop(name), ReplyView::Failed) => OutcomeView::Next(
                seq![plain(WorkView::Tell(ReportView::StopFailed { name }))],
            ),
            (WorkView::DumpSocket(instance), ReplyView::Path(socket)) => OutcomeView::Next(
                seq![TaskView { scope, work: WorkView::DumpPath(instance, socket) }],
            ),
            (WorkView::DumpPath(instance, socket), ReplyView::Path(path)) => {
                let request = dump_of(instance, socket, path);
                OutcomeView::Next(
                    seq![
                        TaskView { scope, work: WorkView::CheckDump(request.path) },
                        op_in(scope, OpView::Connect(request.conn_params)),
                        op_in(scope, OpView::Dump(request)),
                    ],
                )
            },
            (WorkView::CheckDump(path), ReplyView::Answer(there)) => OutcomeView::Next(
                if there {
                    seq![op_in(scope, OpView::RemoveDirAll(path))]
                } else {
                    seq![]
                },
            ),
            (WorkView::StampBackup(path), ReplyView::Time(timestamp)) => OutcomeView::Next(
                seq![
                    op_in(
                        scope,
                        OpView::WriteBackupMeta { path, meta: BackupMeta { timestamp } },
                    ),
                ],
            ),
            (WorkView::Identify(reinit), ReplyView::Identity(started, pid)) => OutcomeView::Next(
                seq![
                    TaskView {
                        scope,
                        work: WorkView::EncodeMarker(
                            reinit,
                            reinit.instance.upgrade_meta(started, pid),
                        ),
                    },
                ],
            ),
            (WorkView::EncodeMarker(reinit, _), ReplyView::Text(marker)) => OutcomeView::Next(
                seq![op_in(scope, OpView::Init(reinit.init_options(marker)))],
            ),
            (WorkView::RestoreSocket(instance), ReplyView::Path(socket)) => {
                let request = restore_of(instance, socket);
                OutcomeView::Next(
                    seq![
                        op_in(scope, OpView::Connect(request.conn_params)),
                        op_in(scope, OpView::Restore(request)),
                    ],
                )
            },
            (WorkView::EndServer, ReplyView::Done) => OutcomeView::Next(seq![]),
            (WorkView::Tell(_), ReplyView::Done) => OutcomeView::Next(seq![]),
            (work, ReplyView::Failed) => if work.can_fail() {
                OutcomeView::Failure(work.contexts() + scope.contexts())
            } else {
                OutcomeView::Unfit
            },
            _ => OutcomeView::Unfit,
        }
    }
}

/// Whether the reply is one to what the work asks for.
pub fn fits(work: &Work, reply: &Reply) -> (yes: bool)
    ensures
        forall|options: UpgradeView, scope: ScopeView|
            yes == !((#[trigger] (TaskView { scope, work: work@ }).outcome(
                options,
                reply@,
            )) is Unfit),
{
    match (work, reply) {
        (Work::LocateInstances, Reply::Path(_) | Reply::Failed) => true,
        (Work::CheckInstances(_), Reply::Answer(_)) => true,
        (Work::OpenInstances(_), Reply::Done | Reply::Failed) => true,
        (Work::NextEntry(_), Reply::End | Reply::Entry(_) | Reply::Failed) => true,
        (Work::ReadMetadata(_, _), Reply::Metadata(_) | Reply::Failed) => true,
        (Work::DetectOs(_), Reply::Done | Reply::Failed) => true,
        (Work::ListMethods(_), Reply::Done | Reply::Failed) => true,
        (Work::CheckMethod(_), Reply::Answer(_)) => true,
        (Work::MakeMethod(_), Reply::Method(_) | Reply::Failed) => true,
        (Work::GetVersion(_, _), Reply::Package(_) | Reply::Failed) => true,
        (Work::GetInstalled(_, _, _), Reply::Packages(_) | Reply::Failed) => true,
        (Work::Install(_), Reply::Done | Reply::Failed) => true,
        (Work::Do(_), Reply::Done | Reply::Failed) => true,
        (Work::TryStop(_), Reply::Done | Reply::Failed) => true,
        (Work::DumpSocket(_), Reply::Path(_) | Reply::Failed) => true,
        (Work::DumpPath(_, _), Reply::Path(_) | Reply::Failed) => true,
        (Work::CheckDump(_), Reply::Answer(_)) => true,
        (Work::StampBackup(_), Reply::Time(_)) => true,
        (Work::Identify(_), Reply::Identity(_, _)) => true,
        (Work::EncodeMarker(_, _), Reply::Text(_)) => true,
        (Work::RestoreSocket(_), Reply::Path(_) | Reply::Failed) => true,
        (Work::EndServer, Reply::Done) => true,
        (Work::Tell(_), Reply::Done) => true,
        _ => false,
    }
}

impl Scope {
    /// Adds what was being done, if work in this scope fails.
    fn add_contexts(self, contexts: &mut Vec<Context>)
        ensures
            final(contexts).deep_view() == old(contexts).deep_view() + self@.contexts(),
    {
        let ghost before = contexts.deep_view();
        match self {
            Scope::Upgrade => {},
            Scope::Dump(name) => {
                contexts.push(Context::Dumping(name));
            },
            Scope::Restore(name) => {
                contexts.push(Context::Restoring(name));
            },
        }
        assert(contexts.deep_view() =~= before + self@.contexts());
    }
}

impl Work {
    /// What was being done, if what the work asks for fails.
    fn contexts(self) -> (contexts: Vec<Context>)
        ensures
            contexts.deep_view() == self@.contexts(),
    {
        let mut contexts: Vec<Context> = Vec::new();
        match self {
            Work::NextEntry(listing) => {
                contexts.push(Context::ListingInstances(listing.path));
            },
            Work::GetVersion(_, _) => {
                contexts.push(Context::DeterminingVersion);
            },
            Work::Do(Op::WriteBackupMeta { path, meta: _ }) => {
                contexts.push(Context::WritingBackupMeta(path));
            },
            Work::Do(Op::RunServer { args: _ }) => {
                contexts.push(Context::RunningServer);
            },
            _ => {},
        }
        assert(contexts.deep_view() =~= self@.contexts());
        contexts
    }
}

/// What is done after a look at an entry of the directory.
fn after_entry(listing: InstanceIterator, item: Item) -> (outcome: Outcome)
    ensures
        outcome@ == match item@ {
            ItemView::Untyped => OutcomeView::Failure(
                seq![ContextView::DeterminingEntryType(listing@.path)],
            ),
            ItemView::Skipped => OutcomeView::Next(seq![plain(WorkView::NextEntry(listing@))]),
            ItemView::Candidate(name) => OutcomeView::Next(
                seq![plain(WorkView::ReadMetadata(listing@, name))],
            ),
        },
{
    match item {
        Item::Untyped => {
            let mut contexts: Vec<Context> = Vec::new();
            contexts.push(Context::DeterminingEntryType(listing.path));
            assert(contexts.deep_view() =~= seq![
                ContextView::DeterminingEntryType(listing@.path),
            ]);
            Outcome::Failure(contexts)
        },
        Item::Skipped => Outcome::Next(one_task(plain_task(Work::NextEntry(listing)))),
        Item::Candidate(name) => Outcome::Next(
            one_task(plain_task(Work::ReadMetadata(listing, name))),
        ),
    }
}

/// The dump of an instance, once its socket and its place are known.
fn dump_tasks(scope: Scope, instance: Instance, socket: Vec<u8>, path: Vec<u8>) -> (tasks: Vec<
    Task,
>)
    ensures
        tasks.deep_view() == seq![
            TaskView {
                scope: scope@,
                work: WorkView::CheckDump(dump_of(instance@, socket@, path@).path),
            },
            op_in(scope@, OpView::Connect(dump_of(instance@, socket@, path@).conn_params)),
            op_in(scope@, OpView::Dump(dump_of(instance@, socket@, path@))),
        ],
{
    let request = dump_instance(&instance, &socket, path);
    let mut tasks = one_task(
        Task { scope: scope.clone(), work: Work::CheckDump(request.path.clone()) },
    );
    push_task(&mut tasks, op_task(&scope, Op::Connect(request.conn_params.clone())));
    push_task(&mut tasks, op_task(&scope, Op::Dump(request)));
    tasks
}

/// The restore of an instance, once its socket is known.
fn restore_tasks(scope: Scope, instance: Instance, socket: Vec<u8>) -> (tasks: Vec<Task>)
    ensures
        tasks.deep_view() == seq![
            op_in(scope@, OpView::Connect(restore_of(instance@, socket@).conn_params)),
            op_in(scope@, OpView::Restore(restore_of(instance@, socket@))),
        ],
{
    let request = restore_instance(&instance, &socket);
    let mut tasks = one_task(op_task(&scope, Op::Connect(request.conn_params.clone())));
    push_task(&mut tasks, op_task(&scope, Op::Restore(request)));
    tasks
}

impl Task {
    /// What a reply to what the task asks for leads to.
    pub fn outcome(self, options: &Upgrade, reply: Reply) -> (outcome: Outcome)
        requires
            !(self@.outcome(options@, reply@) is Unfit),
        ensures
            outcome@ == self@.outcome(options@, reply@),
    {
        let Task { scope, work } = self;
        let tasks = match (work, reply) {
            (Work::LocateInstances, Reply::Path(path)) => one_task(
                plain_task(Work::CheckInstances(Location::top(path))),
            ),
            (Work::CheckInstances(path), Reply::Answer(there)) => if there {
                one_task(plain_task(Work::OpenInstances(path)))
            } else {
                let found: Vec<Instance> = Vec::new();
                assert(found.deep_view() =~= seq![]);
                start_upgrade(options, &found)
            },
            (Work::OpenInstances(path), Reply::Done) => one_task(
                plain_task(Work::NextEntry(InstanceIterator::at(path))),
            ),
            (Work::NextEntry(listing), Reply::End) => start_upgrade(options, &listing.found),
            (Work::NextEntry(listing), Reply::Entry(entry)) => {
                let item = listing.read_item(entry);
                return after_entry(listing, item);
            },
            (Work::ReadMetadata(mut listing, name), Reply::Metadata(meta)) => {
                listing.found(name, meta);
                one_task(plain_task(Work::NextEntry(listing)))
            },
            (Work::ReadMetadata(listing, name), Reply::Failed) => {
                let mut tasks = one_task(
                    plain_task(Work::Tell(Report::MetadataUnreadable { name })),
                );
                push_task(&mut tasks, plain_task(Work::NextEntry(listing)));
                tasks
            },
            (Work::DetectOs(groups), Reply::Done) => one_task(
                plain_task(Work::ListMethods(groups)),
            ),
            (Work::ListMethods(groups), Reply::Done) => check_methods(groups),
            (Work::CheckMethod(group), Reply::Answer(supported)) => if supported {
                one_task(plain_task(Work::MakeMethod(group)))
            } else {
                let instances = join_names(&group.instances);
                let title = group.method.title;
                one_task(plain_task(Work::Tell(Report::MethodUnavailable { title, instances })))
            },
            (Work::MakeMethod(group), Reply::Method(method)) => start_jobs(
                interpret_options(options),
                method,
                group.instances,
            ),
            (Work::GetVersion(method, job), Reply::Package(package)) => one_task(
                plain_task(Work::GetInstalled(method, job, package)),
            ),
            (Work::GetInstalled(method, job, package), Reply::Packages(packages)) => do_job(
                method,
                job,
                package,
                get_installed(&packages),
                options.force,
            ),
            (Work::TryStop(name), Reply::Failed) => one_task(
                plain_task(Work::Tell(Report::StopFailed { name })),
            ),
            (Work::DumpSocket(instance), Reply::Path(socket)) => one_task(
                Task { scope, work: Work::DumpPath(instance, socket) },
            ),
            (Work::DumpPath(instance, socket), Reply::Path(path)) => dump_tasks(
                scope,
                instance,
                socket,
                path,
            ),
            (Work::CheckDump(path), Reply::Answer(there)) => if there {
                one_task(op_task(&scope, Op::RemoveDirAll(path)))
            } else {
                no_tasks()
            },
            (Work::StampBackup(path), Reply::Time(timestamp)) => one_task(
                op_task(&scope, Op::WriteBackupMeta { path, meta: BackupMeta { timestamp } }),
            ),
            (Work::Identify(reinit), Reply::Identity(started, pid)) => {
                let meta = reinit.instance.upgrade_meta(started, pid);
                one_task(Task { scope, work: Work::EncodeMarker(reinit, meta) })
            },
            (Work::EncodeMarker(reinit, _), Reply::Text(marker)) => one_task(
                op_task(&scope, Op::Init(reinit.init_options(marker))),
            ),
            (Work::RestoreSocket(instance), Reply::Path(socket)) => restore_tasks(
                scope,
                instance,
                socket,
            ),
            (work, Reply::Failed) => {
                let mut contexts = work.contexts();
                scope.add_contexts(&mut contexts);
                return Outcome::Failure(contexts);
            },
            _ => no_tasks(),
        };
        Outcome::Next(tasks)
    }
}

/// An upgrade that is under way or over.
#[derive(Debug)]
pub struct UpgradeRun {
    options: Upgrade,
    tasks: Vec<Task>,
    failure: Option<Vec<Context>>,
}

#[verifier::ext_equal]
pub struct RunView {
    pub options: UpgradeView,
    /// What is left to do, in order.
    pub tasks: Seq<TaskView>,
    /// What was being done when the run failed, from the inside out.
    pub failure: Option<Seq<ContextView>>,
}

impl View for UpgradeRun {
    type V = RunView;

    closed spec fn view(&self) -> RunView {
        RunView {
            options: self.options@,
            tasks: self.tasks.deep_view(),
            failure: self.failure.deep_view(),
        }
    }
}

/// The task that ends the server, where that comes before any that runs one:
/// the server is running.
pub open spec fn server_end(tasks: Seq<TaskView>) -> Seq<TaskView>
    decreases tasks.len(),
{
    if tasks.len() == 0 {
        seq![]
    } else {
        match tasks[0].work {
            WorkView::EndServer => seq![tasks[0]],
            WorkView::Do(OpView::RunServer { args: _ }) => seq![],
            _ => server_end(tasks.drop_first()),
        }
    }
}

/// The task that ends the server, where the server is running.
fn end_of_server(tasks: &Vec<Task>) -> (end: Vec<Task>)
    ensures
        end.deep_view() == server_end(tasks.deep_view()),
{
    let mut i: usize = 0;
    assert(tasks.deep_view().skip(0) =~= tasks.deep_view());
    while i < tasks.len()
        invariant
            i <= tasks.len(),
            server_end(tasks.deep_view()) == server_end(tasks.deep_view().skip(i as int)),
        decreases tasks.len() - i,
    {
        assert(tasks.deep_view().skip(i as int)[0] == tasks[i as int]@);
        assert(tasks.deep_view().skip(i as int).drop_first() =~= tasks.deep_view().skip(i + 1));
        match &tasks[i].work {
            Work::EndServer => {
                return one_task(Task { scope: tasks[i].scope.clone(), work: Work::EndServer });
            },
            Work::Do(Op::RunServer { args: _ }) => {
                return no_tasks();
            },
            _ => {},
        }
        i = i + 1;
    }
    no_tasks()
}

impl RunView {
    /// An upgrade that has just begun. A conflict in the options is only told.
    pub open spec fn start(options: UpgradeView) -> RunView {
        RunView {
            options,
            tasks: (if options.conflicting() {
                seq![plain(WorkView::Tell(ReportView::NameWithNightly))]
            } else {
                seq![]
            }) + seq![plain(WorkView::LocateInstances)],
            failure: None,
        }
    }

    /// What the run waits for; nothing where it is over.
    pub open spec fn pending(self) -> Option<ActionView> {
        if self.tasks.len() == 0 {
            None
        } else {
            Some(self.tasks[0].work.action())
        }
    }

    /// The reply is one to what the run waits for.
    pub open spec fn accepts(self, reply: ReplyView) -> bool {
        self.tasks.len() > 0 && !(self.tasks[0].outcome(self.options, reply) is Unfit)
    }

    /// The run after a reply. What the first task leads to comes before all
    /// that was left; a failure leaves nothing, but for a running server that
    /// is to be ended. A reply to something else changes nothing.
    pub open spec fn after(self, reply: ReplyView) -> RunView {
        if self.tasks.len() == 0 {
            self
        } else {
            match self.tasks[0].outcome(self.options, reply) {
                OutcomeView::Next(tasks) => RunView {
                    tasks: tasks + self.tasks.drop_first(),
                    ..self
                },
                OutcomeView::Failure(contexts) => RunView {
                    tasks: server_end(self.tasks),
                    failure: Some(contexts),
                    ..self
                },
                OutcomeView::Unfit => self,
            }
        }
    }
}

/// Begins an upgrade.
pub fn upgrade(options: &Upgrade) -> (run: UpgradeRun)
    ensures
        run@ == RunView::start(options@),
{
    let mut tasks = no_tasks();
    if options.name.is_some() && options.nightly {
        push_task(&mut tasks, plain_task(Work::Tell(Report::NameWithNightly)));
    }
    push_task(&mut tasks, plain_task(Work::LocateInstances));
    let run = UpgradeRun { options: options.clone(), tasks, failure: None };
    assert(run@ =~= RunView::start(options@));
    run
}

impl UpgradeRun {
    /// What the run waits for; nothing where it is over.
    pub fn pending(&self) -> (action: Option<Action>)
        ensures
            action.deep_view() == self@.pending(),
    {
        if self.tasks.len() == 0 {
            None
        } else {
            Some(self.tasks[0].work.action())
        }
    }

    /// What was being done when the run failed, from the inside out; nothing
    /// where it has not failed.
    pub fn failure(&self) -> (failure: &Option<Vec<Context>>)
        ensures
            failure.deep_view() == self@.failure,
    {
        &self.failure
    }

    /// Goes on with the reply to what the run waits for. A reply to something
    /// else is not taken.
    pub fn resume(&mut self, reply: Reply) -> (taken: bool)
        ensures
            final(self)@ == old(self)@.after(reply@),
            taken == old(self)@.accepts(reply@),
    {
        if self.tasks.len() == 0 {
            return false;
        }
        let ghost before = self@;
        assert(before.tasks[0] == self.tasks[0]@);
        if !fits(&self.tasks[0].work, &reply) {
            assert((TaskView { scope: before.tasks[0].scope, work: before.tasks[0].work })
                == before.tasks[0]);
            return false;
        }
        let end = end_of_server(&self.tasks);
        let task = self.tasks.remove(0);
        assert(self.tasks.deep_view() =~= before.tasks.drop_first());
        assert((TaskView { scope: task.scope@, work: task.work@ }).outcome(
            self.options@,
            reply@,
        ) == task@.outcome(self.options@, reply@));
        match task.outcome(&self.options, reply) {
            Outcome::Next(mut tasks) => {
                let ghost first = tasks.deep_view();
                let ghost rest = self.tasks.deep_view();
                tasks.append(&mut self.tasks);
                assert(tasks.deep_view() =~= first + rest);
                self.tasks = tasks;
            },
            Outcome::Failure(contexts) => {
                self.tasks = end;
                self.failure = Some(contexts);
            },
        }
        true
    }
}

} // verus!
