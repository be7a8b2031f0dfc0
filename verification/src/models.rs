//! The models that contracts speak of hold all that the values hold.
use crate::version::{InstalledPackage, PackageInfo, Version, VersionQuery, VersionQueryView};
use crate::instance::{ControlRequest, InstallMethod, Instance, Metadata, UpgradeMeta};
use crate::location::{EntryPath, Location};
use crate::options::{ToDo, ToDoView, Upgrade};
use crate::listing::{DirEntry, InstanceIterator, Item, ItemView};
use crate::requests::{
    map_entries, ConnParams, DumpRequest, InitOptions, InstallPlan, Reinit, RestoreRequest,
    Settings,
};
use crate::task::{
    Action, ActionView, Context, ContextView, Job, JobView, MajorGroup, MethodGroup, Op, OpView,
    Reply, ReplyView, Report, ReportView, Scope, ScopeView, Task, Work, WorkView,
};
use crate::run::{Outcome, OutcomeView};
use vstd::prelude::*;

verus! {

/// The model of a version holds each of its fields.
pub proof fn law_model_of_version(it: Version)
    ensures
        it@.text == it.text@,
        it@.key == it.key@,
        it.deep_view() == it@,
{
}

/// The model of a version query tells its variants apart, and holds what each holds.
pub proof fn law_model_of_version_query(it: VersionQuery)
    ensures
        it@ == match it {
            VersionQuery::Nightly => VersionQueryView::Nightly,
            VersionQuery::Stable(version) => VersionQueryView::Stable(version.deep_view()),
        },
{
}

/// The model of a package info holds each of its fields.
pub proof fn law_model_of_package_info(it: PackageInfo)
    ensures
        it@.package_name == it.package_name@,
        it@.major_version == it.major_version@,
        it@.version == it.version@,
        it@.revision == it.revision@,
        it@.full_version == it.full_version@,
{
}

/// The model of an installed package holds each of its fields.
pub proof fn law_model_of_installed_package(it: InstalledPackage)
    ensures
        it@.full_version == it.full_version@,
        it@.matches == it.matches,
        it.deep_view() == it@,
{
}

/// The model of an install method holds each of its fields.
pub proof fn law_model_of_install_method(it: InstallMethod)
    ensures
        it@.name == it.name@,
        it@.title == it.title@,
        it@.key == it.key@,
        it.deep_view() == it@,
{
}

/// The model of a metadata holds each of its fields.
pub proof fn law_model_of_metadata(it: Metadata)
    ensures
        it@.version == it.version@,
        it@.nightly == it.nightly,
        it@.method == it.method@,
        it@.port == it.port,
        it@.start_conf == it.start_conf@,
{
}

/// The model of an instance holds each of its fields.
pub proof fn law_model_of_instance(it: Instance)
    ensures
        it@.name == it.name@,
        it@.meta == it.meta@,
        it@.system == it.system,
        it@.data_dir == it.data_dir@,
        it@.source == it.source.deep_view(),
        it@.version == it.version.deep_view(),
        it.deep_view() == it@,
{
}

/// The model of a control request holds each of its fields.
pub proof fn law_model_of_control_request(it: ControlRequest)
    ensures
        it@.name == it.name@,
        it@.system == it.system,
        it@.meta == it.meta@,
{
}

/// The model of an upgrade meta holds each of its fields.
pub proof fn law_model_of_upgrade_meta(it: UpgradeMeta)
    ensures
        it@.source == it.source@,
        it@.target == it.target@,
        it@.started == it.started,
        it@.pid == it.pid,
{
}

/// The model of a location holds each of its fields.
pub proof fn law_model_of_location(it: Location)
    ensures
        it@.base == it.base@,
        it@.names == it.names.deep_view(),
{
}

/// The model of an entry path holds each of its fields.
pub proof fn law_model_of_entry_path(it: EntryPath)
    ensures
        it@.parent == it.parent@,
        it@.file_name == it.file_name@,
{
}

/// The model of an upgrade holds each of its fields.
pub proof fn law_model_of_upgrade(it: Upgrade)
    ensures
        it@.name == it.name.deep_view(),
        it@.nightly == it.nightly,
        it@.to_nightly == it.to_nightly,
        it@.to_version == it.to_version.deep_view(),
        it@.force == it.force,
{
}

/// The model of what is to be done tells its variants apart, and holds what each holds.
pub proof fn law_model_of_to_do(it: ToDo)
    ensures
        it@ == match it {
            ToDo::MinorUpgrade => ToDoView::MinorUpgrade,
            ToDo::InstanceUpgrade(name, query) => ToDoView::InstanceUpgrade(name@, query@),
            ToDo::NightlyUpgrade => ToDoView::NightlyUpgrade,
        },
{
}

/// The model of a dir entry holds each of its fields.
pub proof fn law_model_of_dir_entry(it: DirEntry)
    ensures
        it@.is_dir == it.is_dir,
        it@.name == it.name.deep_view(),
        it@.valid_name == it.valid_name,
{
}

/// The model of an item of a listing tells its variants apart, and holds what each holds.
pub proof fn law_model_of_item(it: Item)
    ensures
        it@ == match it {
            Item::Untyped => ItemView::Untyped,
            Item::Skipped => ItemView::Skipped,
            Item::Candidate(name) => ItemView::Candidate(name@),
        },
{
}

/// The model of an instance iterator holds each of its fields.
pub proof fn law_model_of_instance_iterator(it: InstanceIterator)
    ensures
        it@.path == it.path@,
        it@.found == it.found.deep_view(),
{
}

/// The model of a settings holds each of its fields.
pub proof fn law_model_of_settings(it: Settings)
    ensures
        it@.method == it.method@,
        it@.package_name == it.package_name@,
        it@.major_version == it.major_version@,
        it@.version == it.version@,
        it@.nightly == it.nightly,
        it@.extra == map_entries(it.extra),
{
}

/// The model of an install plan holds each of its fields.
pub proof fn law_model_of_install_plan(it: InstallPlan)
    ensures
        it@.method == it.method@,
        it@.package_name == it.package_name@,
        it@.major_version == it.major_version@,
        it@.version == it.version@,
        it@.nightly == it.nightly,
{
}

/// The model of an init options holds each of its fields.
pub proof fn law_model_of_init_options(it: InitOptions)
    ensures
        it@.name == it.name@,
        it@.system == it.system,
        it@.interactive == it.interactive,
        it@.nightly == it.nightly,
        it@.version == it.version.deep_view(),
        it@.method == it.method.deep_view(),
        it@.port == it.port,
        it@.start_conf == it.start_conf@,
        it@.inhibit_user_creation == it.inhibit_user_creation,
        it@.inhibit_start == it.inhibit_start,
        it@.upgrade_marker == it.upgrade_marker.deep_view(),
        it@.overwrite == it.overwrite,
        it@.default_user == it.default_user@,
        it@.default_database == it.default_database@,
{
}

/// The model of a reinit holds each of its fields.
pub proof fn law_model_of_reinit(it: Reinit)
    ensures
        it@.instance == it.instance@,
        it@.version == it.version@,
        it@.nightly == it.nightly,
        it@.method == it.method@,
{
}

/// The model of a conn params holds each of its fields.
pub proof fn law_model_of_conn_params(it: ConnParams)
    ensures
        it@.user == it.user@,
        it@.database == it.database@,
        it@.unix_addr == it.unix_addr@,
        it@.wait_until_available == it.wait_until_available,
{
}

/// The model of a dump request holds each of its fields.
pub proof fn law_model_of_dump_request(it: DumpRequest)
    ensures
        it@.command_line == it.command_line,
        it@.styled == it.styled,
        it@.conn_params == it.conn_params@,
        it@.path == it.path@,
{
}

/// The model of a restore request holds each of its fields.
pub proof fn law_model_of_restore_request(it: RestoreRequest)
    ensures
        it@.command_line == it.command_line,
        it@.styled == it.styled,
        it@.conn_params == it.conn_params@,
        it@.path == it.path@,
        it@.all == it.all,
        it@.allow_non_empty == it.allow_non_empty,
        it@.verbose == it.verbose,
{
}

/// The model of a report tells its variants apart, and holds what each holds.
pub proof fn law_model_of_report(it: Report)
    ensures
        it@ == match it {
            Report::NameWithNightly => ReportView::NameWithNightly,
            Report::NoInstances { without_nightly } => ReportView::NoInstances {
                without_nightly: without_nightly,
            },
            Report::MetadataUnreadable { name } => ReportView::MetadataUnreadable { name: name@ },
            Report::MethodUnavailable { title, instances } => ReportView::MethodUnavailable {
                title: title@,
                instances: instances@,
            },
            Report::VersionUpToDate { version, installed, instances } => {
                ReportView::VersionUpToDate {
                    version: version@,
                    installed: installed@,
                    instances: instances@,
                }
            },
            Report::NightlyUpToDate { installed, instances } => ReportView::NightlyUpToDate {
                installed: installed@,
                instances: instances@,
            },
            Report::InstanceUpToDate { query, installed, name } => {
                ReportView::InstanceUpToDate {
                    query: query@,
                    installed: installed@,
                    name: name@,
                }
            },
            Report::Upgrading { version, new_version, revision, instances } => {
                ReportView::Upgrading {
                    version: version@,
                    new_version: new_version@,
                    revision: revision@,
                    instances: instances@,
                }
            },
            Report::StopFailed { name } => ReportView::StopFailed { name: name@ },
        },
{
}

/// The model of a context tells its variants apart, and holds what each holds.
pub proof fn law_model_of_context(it: Context)
    ensures
        it@ == match it {
            Context::DeterminingVersion => ContextView::DeterminingVersion,
            Context::ListingInstances(path) => ContextView::ListingInstances(path@),
            Context::DeterminingEntryType(path) => ContextView::DeterminingEntryType(path@),
            Context::WritingBackupMeta(path) => ContextView::WritingBackupMeta(path@),
            Context::RunningServer => ContextView::RunningServer,
            Context::Dumping(name) => ContextView::Dumping(name@),
            Context::Restoring(name) => ContextView::Restoring(name@),
        },
        it.deep_view() == it@,
{
}

/// The model of a scope tells its variants apart, and holds what each holds.
pub proof fn law_model_of_scope(it: Scope)
    ensures
        it@ == match it {
            Scope::Upgrade => ScopeView::Upgrade,
            Scope::Dump(name) => ScopeView::Dump(name@),
            Scope::Restore(name) => ScopeView::Restore(name@),
        },
{
}

/// The model of a method group holds each of its fields.
pub proof fn law_model_of_method_group(it: MethodGroup)
    ensures
        it@.method == it.method@,
        it@.instances == it.instances.deep_view(),
        it.deep_view() == it@,
{
}

/// The model of a major group holds each of its fields.
pub proof fn law_model_of_major_group(it: MajorGroup)
    ensures
        it@.version == it.version@,
        it@.instances == it.instances.deep_view(),
        it.deep_view() == it@,
{
}

/// The model of a job tells its variants apart, and holds what each holds.
pub proof fn law_model_of_job(it: Job)
    ensures
        it@ == match it {
            Job::Minor(group, rest) => JobView::Minor(group@, rest.deep_view()),
            Job::Nightly(instances) => JobView::Nightly(instances.deep_view()),
            Job::Single(instance, query) => JobView::Single(instance@, query@),
        },
{
}

/// The model of an operation tells its variants apart, and holds what each holds.
pub proof fn law_model_of_op(it: Op)
    ensures
        it@ == match it {
            Op::GetControl(request) => OpView::GetControl(request@),
            Op::Start { name, foreground } => OpView::Start {
                name: name@,
                foreground: foreground,
            },
            Op::Stop { name } => OpView::Stop { name: name@ },
            Op::RemoveDirAll(path) => OpView::RemoveDirAll(path@),
            Op::Connect(params) => OpView::Connect(params@),
            Op::Dump(request) => OpView::Dump(request@),
            Op::Rename { from, to } => OpView::Rename { from: from@, to: to@ },
            Op::WriteBackupMeta { path, meta } => OpView::WriteBackupMeta {
                path: path@,
                meta: meta,
            },
            Op::Init(options) => OpView::Init(options@),
            Op::RunCommand => OpView::RunCommand,
            Op::RunServer { args } => OpView::RunServer { args: args.deep_view() },
            Op::Restore(request) => OpView::Restore(request@),
        },
{
}

/// The model of a piece of work tells its variants apart, and holds what each holds.
pub proof fn law_model_of_work(it: Work)
    ensures
        it@ == match it {
            Work::LocateInstances => WorkView::LocateInstances,
            Work::CheckInstances(path) => WorkView::CheckInstances(path@),
            Work::OpenInstances(path) => WorkView::OpenInstances(path@),
            Work::NextEntry(listing) => WorkView::NextEntry(listing@),
            Work::ReadMetadata(listing, name) => WorkView::ReadMetadata(listing@, name@),
            Work::DetectOs(groups) => WorkView::DetectOs(groups.deep_view()),
            Work::ListMethods(groups) => WorkView::ListMethods(groups.deep_view()),
            Work::CheckMethod(group) => WorkView::CheckMethod(group@),
            Work::MakeMethod(group) => WorkView::MakeMethod(group@),
            Work::GetVersion(method, job) => WorkView::GetVersion(method@, job@),
            Work::GetInstalled(method, job, package) => WorkView::GetInstalled(
                method@,
                job@,
                package@,
            ),
            Work::Install(plan) => WorkView::Install(plan@),
            Work::Do(op) => WorkView::Do(op@),
            Work::TryStop(name) => WorkView::TryStop(name@),
            Work::DumpSocket(instance) => WorkView::DumpSocket(instance@),
            Work::DumpPath(instance, socket) => WorkView::DumpPath(instance@, socket@),
            Work::CheckDump(path) => WorkView::CheckDump(path@),
            Work::StampBackup(path) => WorkView::StampBackup(path@),
            Work::Identify(reinit) => WorkView::Identify(reinit@),
            Work::EncodeMarker(reinit, meta) => WorkView::EncodeMarker(reinit@, meta@),
            Work::RestoreSocket(instance) => WorkView::RestoreSocket(instance@),
            Work::EndServer => WorkView::EndServer,
            Work::Tell(report) => WorkView::Tell(report@),
        },
{
}

/// The model of a task holds each of its fields.
pub proof fn law_model_of_task(it: Task)
    ensures
        it@.scope == it.scope@,
        it@.work == it.work@,
        it.deep_view() == it@,
{
}

/// The model of an action tells its variants apart, and holds what each holds.
pub proof fn law_model_of_action(it: Action)
    ensures
        it@ == match it {
            Action::DataPath { system } => ActionView::DataPath { system: system },
            Action::Exists(path) => ActionView::Exists(path@),
            Action::ReadDir(path) => ActionView::ReadDir(path@),
            Action::NextEntry => ActionView::NextEntry,
            Action::ReadMetadata(path) => ActionView::ReadMetadata(path@),
            Action::CurrentOs => ActionView::CurrentOs,
            Action::AvailableMethods => ActionView::AvailableMethods,
            Action::IsSupported(method) => ActionView::IsSupported(method@),
            Action::MakeMethod(method) => ActionView::MakeMethod(method@),
            Action::GetVersion(query) => ActionView::GetVersion(query@),
            Action::InstalledVersions(query) => ActionView::InstalledVersions(query@),
            Action::Install(settings) => ActionView::Install(settings@),
            Action::GetSocket { admin } => ActionView::GetSocket { admin: admin },
            Action::Now => ActionView::Now,
            Action::Identity => ActionView::Identity,
            Action::Encode(meta) => ActionView::Encode(meta@),
            Action::EndServer => ActionView::EndServer,
            Action::Do(op) => ActionView::Do(op@),
            Action::Tell(report) => ActionView::Tell(report@),
        },
        it.deep_view() == it@,
{
}

/// The model of a reply tells its variants apart, and holds what each holds.
pub proof fn law_model_of_reply(it: Reply)
    ensures
        it@ == match it {
            Reply::Done => ReplyView::Done,
            Reply::Failed => ReplyView::Failed,
            Reply::Answer(answer) => ReplyView::Answer(answer),
            Reply::Path(path) => ReplyView::Path(path@),
            Reply::Entry(entry) => ReplyView::Entry(entry@),
            Reply::End => ReplyView::End,
            Reply::Metadata(meta) => ReplyView::Metadata(meta@),
            Reply::Method(method) => ReplyView::Method(method@),
            Reply::Package(package) => ReplyView::Package(package@),
            Reply::Packages(packages) => ReplyView::Packages(packages.deep_view()),
            Reply::Time(time) => ReplyView::Time(time),
            Reply::Identity(time, pid) => ReplyView::Identity(time, pid),
            Reply::Text(text) => ReplyView::Text(text@),
        },
{
}

/// The model of an outcome tells its variants apart, and holds what each holds.
pub proof fn law_model_of_outcome(it: Outcome)
    ensures
        it@ == match it {
            Outcome::Next(tasks) => OutcomeView::Next(tasks.deep_view()),
            Outcome::Failure(contexts) => OutcomeView::Failure(contexts.deep_view()),
        },
{
}

} // verus!
