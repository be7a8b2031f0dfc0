//! What a run is made of: the work that is left, what it asks for, and what
//! comes back.
use crate::instance::{
    BackupMeta, ControlRequest, ControlRequestView, Instance, InstallMethod, InstallMethodView,
    InstanceView, Metadata, MetadataView, UpgradeMeta, UpgradeMetaView,
};
use crate::listing::{DirEntry, DirEntryView, InstanceIterator, InstanceIteratorView};
use crate::location::{copy_strings, Location, LocationView};
use crate::requests::{
    ConnParams, ConnParamsView, DumpRequest, DumpRequestView, InitOptions, InitOptionsView,
    InstallPlan, InstallPlanView, Reinit, ReinitView, RestoreRequest, RestoreRequestView, Settings,
    SettingsView,
};
use crate::version::{
    InstalledPackage, InstalledPackageView, PackageInfo, PackageInfoView, Version, VersionQuery,
    VersionQueryView, VersionView,
};
use std::time::SystemTime;
use vstd::prelude::*;

verus! {

/// What the user is told.
#[derive(Debug)]
pub enum Report {
    /// One instance and all nightly instances were asked for; the one is
    /// upgraded.
    NameWithNightly,
    /// No instance is to be upgraded. Whether nightly instances were left out.
    NoInstances { without_nightly: bool },
    /// The metadata of an instance cannot be read; it is left alone.
    MetadataUnreadable { name: String },
    /// Instances are installed in a way that is not available; they are left
    /// alone.
    MethodUnavailable { title: String, instances: String },
    /// The instances of a major version need no upgrade.
    VersionUpToDate { version: Version, installed: Version, instances: String },
    /// The nightly instances need no upgrade.
    NightlyUpToDate { installed: Version, instances: String },
    /// The instance asked for needs no upgrade.
    InstanceUpToDate { query: VersionQuery, installed: Version, name: String },
    /// The instances of a major version are upgraded now.
    Upgrading { version: Version, new_version: Version, revision: String, instances: String },
    /// An instance could not be stopped; the upgrade goes on.
    StopFailed { name: String },
}

#[verifier::ext_equal]
pub enum ReportView {
    NameWithNightly,
    NoInstances { without_nightly: bool },
    MetadataUnreadable { name: Seq<char> },
    MethodUnavailable { title: Seq<char>, instances: Seq<char> },
    VersionUpToDate { version: VersionView, installed: VersionView, instances: Seq<char> },
    NightlyUpToDate { installed: VersionView, instances: Seq<char> },
    InstanceUpToDate { query: VersionQueryView, installed: VersionView, name: Seq<char> },
    Upgrading {
        version: VersionView,
        new_version: VersionView,
        revision: Seq<char>,
        instances: Seq<char>,
    },
    StopFailed { name: Seq<char> },
}

impl View for Report {
    type V = ReportView;

    open spec fn view(&self) -> ReportView {
        match self {
            Report::NameWithNightly => ReportView::NameWithNightly,
            Report::NoInstances { without_nightly } => ReportView::NoInstances {
                without_nightly: *without_nightly,
            },
            Report::MetadataUnreadable { name } => ReportView::MetadataUnreadable { name: name@ },
            Report::MethodUnavailable { title, instances } => ReportView::MethodUnavailable {
                title: title@,
                instances: instances@,
            },
            Report::VersionUpToDate { version, installed, instances } => {
                ReportView::VersionUpToDate {
                    version: version@,
                    installed: installed@,
                    instances: instances@,
                }
            },
            Report::NightlyUpToDate { installed, instances } => ReportView::NightlyUpToDate {
                installed: installed@,
                instances: instances@,
            },
            Report::InstanceUpToDate { query, installed, name } => {
                ReportView::InstanceUpToDate {
                    query: query@,
                    installed: installed@,
                    name: name@,
                }
            },
            Report::Upgrading { version, new_version, revision, instances } => {
                ReportView::Upgrading {
                    version: version@,
                    new_version: new_version@,
                    revision: revision@,
                    instances: instances@,
                }
            },
            Report::StopFailed { name } => ReportView::StopFailed { name: name@ },
        }
    }
}

impl Clone for Report {
    fn clone(&self) -> (copy: Self)
        ensures
            copy@ == self@,
    {
        match self {
            Report::NameWithNightly => Report::NameWithNightly,
            Report::NoInstances { without_nightly } => Report::NoInstances {
                without_nightly: *without_nightly,
            },
            Report::MetadataUnreadable { name } => Report::MetadataUnreadable {
                name: name.clone(),
            },
            Report::MethodUnavailable { title, instances } => Report::MethodUnavailable {
                title: title.clone(),
                instances: instances.clone(),
            },
            Report::VersionUpToDate { version, installed, instances } => {
                Report::VersionUpToDate {
                    version: version.clone(),
                    installed: installed.clone(),
                    instances: instances.clone(),
                }
            },
            Report::NightlyUpToDate { installed, instances } => Report::NightlyUpToDate {
                installed: installed.clone(),
                instances: instances.clone(),
            },
            Report::InstanceUpToDate { query, installed, name } => Report::InstanceUpToDate {
                query: query.clone(),
                installed: installed.clone(),
                name: name.clone(),
            },
            Report::Upgrading { version, new_version, revision, instances } => {
                Report::Upgrading {
                    version: version.clone(),
                    new_version: new_version.clone(),
                    revision: revision.clone(),
                    instances: instances.clone(),
                }
            },
            Report::StopFailed { name } => Report::StopFailed { name: name.clone() },
        }
    }
}

/// What was being done when an operation failed.
#[derive(Debug)]
pub enum Context {
    /// Determining the version on offer.
    DeterminingVersion,
    /// Listing the directory that holds the instances.
    ListingInstances(Location),
    /// Determining the type of an entry of that directory.
    DeterminingEntryType(Location),
    /// Writing the record of a backup.
    WritingBackupMeta(Location),
    /// Running the server.
    RunningServer,
    /// Dumping the named instance.
    Dumping(String),
    /// Restoring the named instance.
    Restoring(String),
}

#[verifier::ext_equal]
pub enum ContextView {
    DeterminingVersion,
    ListingInstances(LocationView),
    DeterminingEntryType(LocationView),
    WritingBackupMeta(LocationView),
    RunningServer,
    Dumping(Seq<char>),
    Restoring(Seq<char>),
}

impl View for Context {
    type V = ContextView;

    open spec fn view(&self) -> ContextView {
        match self {
            Context::DeterminingVersion => ContextView::DeterminingVersion,
            Context::ListingInstances(path) => ContextView::ListingInstances(path@),
            Context::DeterminingEntryType(path) => ContextView::DeterminingEntryType(path@),
            Context::WritingBackupMeta(path) => ContextView::WritingBackupMeta(path@),
            Context::RunningServer => ContextView::RunningServer,
            Context::Dumping(name) => ContextView::Dumping(name@),
            Context::Restoring(name) => ContextView::Restoring(name@),
        }
    }
}

impl DeepView for Context {
    type V = ContextView;

    open spec fn deep_view(&self) -> ContextView {
        self@
    }
}

/// What a piece of work is part of.
#[derive(Debug)]
pub enum Scope {
    Upgrade,
    /// The dump of the named instance.
    Dump(String),
    /// The restore of the named instance.
    Restore(String),
}

#[verifier::ext_equal]
pub enum ScopeView {
    Upgrade,
    Dump(Seq<char>),
    Restore(Seq<char>),
}

impl View for Scope {
    type V = ScopeView;

    open spec fn view(&self) -> ScopeView {
        match self {
            Scope::Upgrade => ScopeView::Upgrade,
            Scope::Dump(name) => ScopeView::Dump(name@),
            Scope::Restore(name) => ScopeView::Restore(name@),
        }
    }
}

impl Clone for Scope {
    fn clone(&self) -> (copy: Self)
        ensures
            copy@ == self@,
    {
        match self {
            Scope::Upgrade => Scope::Upgrade,
            Scope::Dump(name) => Scope::Dump(name.clone()),
            Scope::Restore(name) => Scope::Restore(name.clone()),
        }
    }
}

/// Instances that are installed the same way.
#[derive(Debug)]
pub struct MethodGroup {
    pub method: InstallMethod,
    pub instances: Vec<Instance>,
}

#[verifier::ext_equal]
pub struct MethodGroupView {
    pub method: InstallMethodView,
    pub instances: Seq<InstanceView>,
}

impl View for MethodGroup {
    type V = MethodGroupView;

    open spec fn view(&self) -> MethodGroupView {
        MethodGroupView { method: self.method@, instances: self.instances.deep_view() }
    }
}

impl DeepView for MethodGroup {
    type V = MethodGroupView;

    open spec fn deep_view(&self) -> MethodGroupView {
        self@
    }
}

/// Instances of the same major version.
#[derive(Debug)]
pub struct MajorGroup {
    pub version: Version,
    pub instances: Vec<Instance>,
}

#[verifier::ext_equal]
pub struct MajorGroupView {
    pub version: VersionView,
    pub instances: Seq<InstanceView>,
}

impl View for MajorGroup {
    type V = MajorGroupView;

    open spec fn view(&self) -> MajorGroupView {
        MajorGroupView { version: self.version@, instances: self.instances.deep_view() }
    }
}

impl DeepView for MajorGroup {
    type V = MajorGroupView;

    open spec fn deep_view(&self) -> MajorGroupView {
        self@
    }
}

/// An upgrade of instances that are installed by one method.
#[derive(Debug)]
pub enum Job {
    /// The instances of one major version, and those of the others after them.
    Minor(MajorGroup, Vec<MajorGroup>),
    /// All nightly instances.
    Nightly(Vec<Instance>),
    /// One instance.
    Single(Instance, VersionQuery),
}

#[verifier::ext_equal]
pub enum JobView {
    Minor(MajorGroupView, Seq<MajorGroupView>),
    Nightly(Seq<InstanceView>),
    Single(InstanceView, VersionQueryView),
}

impl View for Job {
    type V = JobView;

    open spec fn view(&self) -> JobView {
        match self {
            Job::Minor(group, rest) => JobView::Minor(group@, rest.deep_view()),
            Job::Nightly(instances) => JobView::Nightly(instances.deep_view()),
            Job::Single(instance, query) => JobView::Single(instance@, query@),
        }
    }
}

impl JobView {
    /// The version that the job asks for.
    pub open spec fn query(self) -> VersionQueryView {
        match self {
            JobView::Minor(group, _) => VersionQueryView::Stable(Some(group.version)),
            JobView::Nightly(_) => VersionQueryView::Nightly,
            JobView::Single(_, query) => query,
        }
    }
}

impl Job {
    /// The version that the job asks for.
    pub fn query(&self) -> (query: VersionQuery)
        ensures
            query@ == self@.query(),
    {
        match self {
            Job::Minor(group, _) => VersionQuery::Stable(Some(group.version.clone())),
            Job::Nightly(_) => VersionQuery::Nightly,
            Job::Single(_, query) => query.clone(),
        }
    }
}

/// An operation that is done or fails.
#[derive(Debug)]
pub enum Op {
    /// Take control of an instance. The operations on an instance that follow
    /// are for the one that was taken control of last.
    GetControl(ControlRequest),
    Start { name: String, foreground: bool },
    Stop { name: String },
    RemoveDirAll(Location),
    Connect(ConnParams),
    Dump(DumpRequest),
    Rename { from: Location, to: Location },
    WriteBackupMeta { path: Location, meta: BackupMeta },
    Init(InitOptions),
    /// Ask for the command that runs the server.
    RunCommand,
    /// Run the server by that command, with these arguments too.
    RunServer { args: Vec<String> },
    Restore(RestoreRequest),
}

#[verifier::ext_equal]
pub enum OpView {
    GetControl(ControlRequestView),
    Start { name: Seq<char>, foreground: bool },
    Stop { name: Seq<char> },
    RemoveDirAll(LocationView),
    Connect(ConnParamsView),
    Dump(DumpRequestView),
    Rename { from: LocationView, to: LocationView },
    WriteBackupMeta { path: LocationView, meta: BackupMeta },
    Init(InitOptionsView),
    RunCommand,
    RunServer { args: Seq<Seq<char>> },
    Restore(RestoreRequestView),
}

impl View for Op {
    type V = OpView;

    open spec fn view(&self) -> OpView {
        match self {
            Op::GetControl(request) => OpView::GetControl(request@),
            Op::Start { name, foreground } => OpView::Start {
                name: name@,
                foreground: *foreground,
            },
            Op::Stop { name } => OpView::Stop { name: name@ },
            Op::RemoveDirAll(path) => OpView::RemoveDirAll(path@),
            Op::Connect(params) => OpView::Connect(params@),
            Op::Dump(request) => OpView::Dump(request@),
            Op::Rename { from, to } => OpView::Rename { from: from@, to: to@ },
            Op::WriteBackupMeta { path, meta } => OpView::WriteBackupMeta {
                path: path@,
                meta: *meta,
            },
            Op::Init(options) => OpView::Init(options@),
            Op::RunCommand => OpView::RunCommand,
            Op::RunServer { args } => OpView::RunServer { args: args.deep_view() },
            Op::Restore(request) => OpView::Restore(request@),
        }
    }
}

impl Clone for Op {
    fn clone(&self) -> (copy: Self)
        ensures
            copy@ == self@,
    {
        match self {
            Op::GetControl(request) => Op::GetControl(request.clone()),
            Op::Start { name, foreground } => Op::Start {
                name: name.clone(),
                foreground: *foreground,
            },
            Op::Stop { name } => Op::Stop { name: name.clone() },
            Op::RemoveDirAll(path) => Op::RemoveDirAll(path.clone()),
            Op::Connect(params) => Op::Connect(params.clone()),
            Op::Dump(request) => Op::Dump(request.clone()),
            Op::Rename { from, to } => Op::Rename { from: from.clone(), to: to.clone() },
            Op::WriteBackupMeta { path, meta } => Op::WriteBackupMeta {
                path: path.clone(),
                meta: *meta,
            },
            Op::Init(options) => Op::Init(options.clone()),
            Op::RunCommand => Op::RunCommand,
            Op::RunServer { args } => Op::RunServer { args: copy_strings(args) },
            Op::Restore(request) => Op::Restore(request.clone()),
        }
    }
}

/// A piece of work that is left.
#[derive(Debug)]
pub enum Work {
    /// Find out where the instances stand.
    LocateInstances,
    /// Find out whether that directory is there.
    CheckInstances(Location),
    /// Start to list it.
    OpenInstances(Location),
    /// Look at its next entry.
    NextEntry(InstanceIterator),
    /// Read the metadata of the named instance.
    ReadMetadata(InstanceIterator, String),
    /// Find out what the operating system is.
    DetectOs(Vec<MethodGroup>),
    /// Find out how it can install the server.
    ListMethods(Vec<MethodGroup>),
    /// Find out whether it can do so in the way of these instances.
    CheckMethod(MethodGroup),
    /// Make ready to do so.
    MakeMethod(MethodGroup),
    /// Find the version on offer for the job of the method.
    GetVersion(InstallMethod, Job),
    /// Find the version that is installed.
    GetInstalled(InstallMethod, Job, PackageInfo),
    /// Install a package.
    Install(InstallPlan),
    /// Do an operation that has to succeed.
    Do(Op),
    /// Stop the named instance if that is possible.
    TryStop(String),
    /// Find the socket that the instance is dumped through.
    DumpSocket(Instance),
    /// Find out where it is dumped to.
    DumpPath(Instance, Vec<u8>),
    /// Find out whether an old dump is in the way.
    CheckDump(Location),
    /// Find out the time that the record of the backup gives.
    StampBackup(Location),
    /// Find out the time and the process that the upgrade's record gives.
    Identify(Reinit),
    /// Put that record in writing.
    EncodeMarker(Reinit, UpgradeMeta),
    /// Find the socket that the instance is restored through.
    RestoreSocket(Instance),
    /// End the server that was run.
    EndServer,
    /// Tell the user.
    Tell(Report),
}

#[verifier::ext_equal]
pub enum WorkView {
    LocateInstances,
    CheckInstances(LocationView),
    OpenInstances(LocationView),
    NextEntry(InstanceIteratorView),
    ReadMetadata(InstanceIteratorView, Seq<char>),
    DetectOs(Seq<MethodGroupView>),
    ListMethods(Seq<MethodGroupView>),
    CheckMethod(MethodGroupView),
    MakeMethod(MethodGroupView),
    GetVersion(InstallMethodView, JobView),
    GetInstalled(InstallMethodView, JobView, PackageInfoView),
    Install(InstallPlanView),
    Do(OpView),
    TryStop(Seq<char>),
    DumpSocket(InstanceView),
    DumpPath(InstanceView, Seq<u8>),
    CheckDump(LocationView),
    StampBackup(LocationView),
    Identify(ReinitView),
    EncodeMarker(ReinitView, UpgradeMetaView),
    RestoreSocket(InstanceView),
    EndServer,
    Tell(ReportView),
}

impl View for Work {
    type V = WorkView;

    open spec fn view(&self) -> WorkView {
        match self {
            Work::LocateInstances => WorkView::LocateInstances,
            Work::CheckInstances(path) => WorkView::CheckInstances(path@),
            Work::OpenInstances(path) => WorkView::OpenInstances(path@),
            Work::NextEntry(listing) => WorkView::NextEntry(listing@),
            Work::ReadMetadata(listing, name) => WorkView::ReadMetadata(listing@, name@),
            Work::DetectOs(groups) => WorkView::DetectOs(groups.deep_view()),
            Work::ListMethods(groups) => WorkView::ListMethods(groups.deep_view()),
            Work::CheckMethod(group) => WorkView::CheckMethod(group@),
            Work::MakeMethod(group) => WorkView::MakeMethod(group@),
            Work::GetVersion(method, job) => WorkView::GetVersion(method@, job@),
            Work::GetInstalled(method, job, package) => WorkView::GetInstalled(
                method@,
                job@,
                package@,
            ),
            Work::Install(plan) => WorkView::Install(plan@),
            Work::Do(op) => WorkView::Do(op@),
            Work::TryStop(name) => WorkView::TryStop(name@),
            Work::DumpSocket(instance) => WorkView::DumpSocket(instance@),
            Work::DumpPath(instance, socket) => WorkView::DumpPath(instance@, socket@),
            Work::CheckDump(path) => WorkView::CheckDump(path@),
            Work::StampBackup(path) => WorkView::StampBackup(path@),
            Work::Identify(reinit) => WorkView::Identify(reinit@),
            Work::EncodeMarker(reinit, meta) => WorkView::EncodeMarker(reinit@, meta@),
            Work::RestoreSocket(instance) => WorkView::RestoreSocket(instance@),
            Work::EndServer => WorkView::EndServer,
            Work::Tell(report) => WorkView::Tell(report@),
        }
    }
}

/// A piece of work, and what it is part of.
#[derive(Debug)]
pub struct Task {
    pub scope: Scope,
    pub work: Work,
}

#[verifier::ext_equal]
pub struct TaskView {
    pub scope: ScopeView,
    pub work: WorkView,
}

impl View for Task {
    type V = TaskView;

    open spec fn view(&self) -> TaskView {
        TaskView { scope: self.scope@, work: self.work@ }
    }
}

impl DeepView for Task {
    type V = TaskView;

    open spec fn deep_view(&self) -> TaskView {
        self@
    }
}

/// What is asked of the outside.
pub enum Action {
    /// The path of the directory that holds the instances.
    DataPath { system: bool },
    /// Whether there is something at a path.
    Exists(Location),
    /// Start to list a directory.
    ReadDir(Location),
    /// Its next entry.
    NextEntry,
    /// The metadata that a file holds.
    ReadMetadata(Location),
    /// The operating system.
    CurrentOs,
    /// The ways it has to install the server.
    AvailableMethods,
    /// Whether a method is one of them.
    IsSupported(InstallMethod),
    /// Make a method ready, and tell what it is called.
    MakeMethod(InstallMethod),
    /// The package on offer, by the method that was made ready last.
    GetVersion(VersionQuery),
    /// The packages that are installed by it, held against the query.
    InstalledVersions(VersionQuery),
    /// Install a package by it.
    Install(Settings),
    /// The path of the socket of the instance.
    GetSocket { admin: bool },
    /// The time.
    Now,
    /// The time, and the process that the upgrade is done by.
    Identity,
    /// The text of a record.
    Encode(UpgradeMeta),
    /// End the server that was run.
    EndServer,
    /// Do an operation.
    Do(Op),
    /// Tell the user.
    Tell(Report),
}

#[verifier::ext_equal]
pub enum ActionView {
    DataPath { system: bool },
    Exists(LocationView),
    ReadDir(LocationView),
    NextEntry,
    ReadMetadata(LocationView),
    CurrentOs,
    AvailableMethods,
    IsSupported(InstallMethodView),
    MakeMethod(InstallMethodView),
    GetVersion(VersionQueryView),
    InstalledVersions(VersionQueryView),
    Install(SettingsView),
    GetSocket { admin: bool },
    Now,
    Identity,
    Encode(UpgradeMetaView),
    EndServer,
    Do(OpView),
    Tell(ReportView),
}

impl View for Action {
    type V = ActionView;

    open spec fn view(&self) -> ActionView {
        match self {
            Action::DataPath { system } => ActionView::DataPath { system: *system },
            Action::Exists(path) => ActionView::Exists(path@),
            Action::ReadDir(path) => ActionView::ReadDir(path@),
            Action::NextEntry => ActionView::NextEntry,
            Action::ReadMetadata(path) => ActionView::ReadMetadata(path@),
            Action::CurrentOs => ActionView::CurrentOs,
            Action::AvailableMethods => ActionView::AvailableMethods,
            Action::IsSupported(method) => ActionView::IsSupported(method@),
            Action::MakeMethod(method) => ActionView::MakeMethod(method@),
            Action::GetVersion(query) => ActionView::GetVersion(query@),
            Action::InstalledVersions(query) => ActionView::InstalledVersions(query@),
            Action::Install(settings) => ActionView::Install(settings@),
            Action::GetSocket { admin } => ActionView::GetSocket { admin: *admin },
            Action::Now => ActionView::Now,
            Action::Identity => ActionView::Identity,
            Action::Encode(meta) => ActionView::Encode(meta@),
            Action::EndServer => ActionView::EndServer,
            Action::Do(op) => ActionView::Do(op@),
            Action::Tell(report) => ActionView::Tell(report@),
        }
    }
}

impl DeepView for Action {
    type V = ActionView;

    open spec fn deep_view(&self) -> ActionView {
        self@
    }
}

impl WorkView {
    /// What the work asks for first.
    pub open spec fn action(self) -> ActionView {
        match self {
            WorkView::LocateInstances => ActionView::DataPath { system: false },
            WorkView::CheckInstances(path) => ActionView::Exists(path),
            WorkView::OpenInstances(path) => ActionView::ReadDir(path),
            WorkView::NextEntry(_) => ActionView::NextEntry,
            WorkView::ReadMetadata(listing, name) => ActionView::ReadMetadata(
                listing.metadata_path(name),
            ),
            WorkView::DetectOs(_) => ActionView::CurrentOs,
            WorkView::ListMethods(_) => ActionView::AvailableMethods,
            WorkView::CheckMethod(group) => ActionView::IsSupported(group.method),
            WorkView::MakeMethod(group) => ActionView::MakeMethod(group.method),
            WorkView::GetVersion(_, job) => ActionView::GetVersion(job.query()),
            WorkView::GetInstalled(_, job, _) => ActionView::InstalledVersions(job.query()),
            WorkView::Install(plan) => ActionView::Install(plan.settings()),
            WorkView::Do(op) => ActionView::Do(op),
            WorkView::TryStop(name) => ActionView::Do(OpView::Stop { name }),
            WorkView::DumpSocket(_) => ActionView::GetSocket { admin: true },
            WorkView::DumpPath(_, _) => ActionView::DataPath { system: false },
            WorkView::CheckDump(path) => ActionView::Exists(path),
            WorkView::StampBackup(_) => ActionView::Now,
            WorkView::Identify(_) => ActionView::Identity,
            WorkView::EncodeMarker(_, meta) => ActionView::Encode(meta),
            WorkView::RestoreSocket(_) => ActionView::GetSocket { admin: true },
            WorkView::EndServer => ActionView::EndServer,
            WorkView::Tell(report) => ActionView::Tell(report),
        }
    }
}

impl Work {
    /// What the work asks for first.
    pub fn action(&self) -> (action: Action)
        ensures
            action@ == self@.action(),
    {
        match self {
            Work::LocateInstances => Action::DataPath { system: false },
            Work::CheckInstances(path) => Action::Exists(path.clone()),
            Work::OpenInstances(path) => Action::ReadDir(path.clone()),
            Work::NextEntry(_) => Action::NextEntry,
            Work::ReadMetadata(listing, name) => Action::ReadMetadata(listing.metadata_path(name)),
            Work::DetectOs(_) => Action::CurrentOs,
            Work::ListMethods(_) => Action::AvailableMethods,
            Work::CheckMethod(group) => Action::IsSupported(group.method.clone()),
            Work::MakeMethod(group) => Action::MakeMethod(group.method.clone()),
            Work::GetVersion(_, job) => Action::GetVersion(job.query()),
            Work::GetInstalled(_, job, _) => Action::InstalledVersions(job.query()),
            Work::Install(plan) => Action::Install(plan.settings()),
            Work::Do(op) => Action::Do(op.clone()),
            Work::TryStop(name) => Action::Do(Op::Stop { name: name.clone() }),
            Work::DumpSocket(_) => Action::GetSocket { admin: true },
            Work::DumpPath(_, _) => Action::DataPath { system: false },
            Work::CheckDump(path) => Action::Exists(path.clone()),
            Work::StampBackup(_) => Action::Now,
            Work::Identify(_) => Action::Identity,
            Work::EncodeMarker(_, meta) => Action::Encode(meta.clone()),
            Work::RestoreSocket(_) => Action::GetSocket { admin: true },
            Work::EndServer => Action::EndServer,
            Work::Tell(report) => Action::Tell(report.clone()),
        }
    }
}

/// What comes back from the outside.
#[derive(Debug)]
pub enum Reply {
    /// It was done.
    Done,
    /// It failed.
    Failed,
    /// Yes or no.
    Answer(bool),
    /// The bytes of a path.
    Path(Vec<u8>),
    /// An entry of the directory that is listed.
    Entry(DirEntry),
    /// It has no more entries.
    End,
    Metadata(Metadata),
    /// What the method that was made ready is called.
    Method(InstallMethod),
    Package(PackageInfo),
    Packages(Vec<InstalledPackage>),
    Time(SystemTime),
    Identity(SystemTime, u32),
    Text(String),
}

#[verifier::ext_equal]
pub enum ReplyView {
    Done,
    Failed,
    Answer(bool),
    Path(Seq<u8>),
    Entry(DirEntryView),
    End,
    Metadata(MetadataView),
    Method(InstallMethodView),
    Package(PackageInfoView),
    Packages(Seq<InstalledPackageView>),
    Time(SystemTime),
    Identity(SystemTime, u32),
    Text(Seq<char>),
}

impl View for Reply {
    type V = ReplyView;

    open spec fn view(&self) -> ReplyView {
        match self {
            Reply::Done => ReplyView::Done,
            Reply::Failed => ReplyView::Failed,
            Reply::Answer(answer) => ReplyView::Answer(*answer),
            Reply::Path(path) => ReplyView::Path(path@),
            Reply::Entry(entry) => ReplyView::Entry(entry@),
            Reply::End => ReplyView::End,
            Reply::Metadata(meta) => ReplyView::Metadata(meta@),
            Reply::Method(method) => ReplyView::Method(method@),
            Reply::Package(package) => ReplyView::Package(package@),
            Reply::Packages(packages) => ReplyView::Packages(packages.deep_view()),
            Reply::Time(time) => ReplyView::Time(*time),
            Reply::Identity(time, pid) => ReplyView::Identity(*time, *pid),
            Reply::Text(text) => ReplyView::Text(text@),
        }
    }
}

} // verus!
