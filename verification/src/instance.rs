//! Instances, and what is recorded about them.
use crate::location::{EntryPath, EntryPathView};
use crate::version::{copy_version, Version, VersionView};
use std::time::SystemTime;
use vstd::prelude::*;

verus! {

/// A point in time, carried as it is.
#[verifier::external_type_specification]
#[verifier::external_body]
pub struct ExSystemTime(SystemTime);

/// A way to install the server.
#[derive(Debug)]
pub struct InstallMethod {
    pub name: String,
    /// How the method is called in messages.
    pub title: String,
    /// What methods are ordered by, and told apart by.
    pub key: Vec<u64>,
}

#[verifier::ext_equal]
pub struct InstallMethodView {
    pub name: Seq<char>,
    pub title: Seq<char>,
    pub key: Seq<u64>,
}

impl View for InstallMethod {
    type V = InstallMethodView;

    open spec fn view(&self) -> InstallMethodView {
        InstallMethodView { name: self.name@, title: self.title@, key: self.key@ }
    }
}

impl DeepView for InstallMethod {
    type V = InstallMethodView;

    open spec fn deep_view(&self) -> InstallMethodView {
        self@
    }
}

impl Clone for InstallMethod {
    fn clone(&self) -> (copy: Self)
        ensures
            copy@ == self@,
    {
        let key = self.key.clone();
        assert(key@ =~= self.key@);
        InstallMethod { name: self.name.clone(), title: self.title.clone(), key }
    }
}

/// What an instance's metadata file says.
#[derive(Debug)]
pub struct Metadata {
    /// The major version that the instance runs.
    pub version: Version,
    pub nightly: bool,
    pub method: InstallMethod,
    pub port: u16,
    /// When the instance is started, as the file spells it.
    pub start_conf: String,
}

#[verifier::ext_equal]
pub struct MetadataView {
    pub version: VersionView,
    pub nightly: bool,
    pub method: InstallMethodView,
    pub port: u16,
    pub start_conf: Seq<char>,
}

impl View for Metadata {
    type V = MetadataView;

    open spec fn view(&self) -> MetadataView {
        MetadataView {
            version: self.version@,
            nightly: self.nightly,
            method: self.method@,
            port: self.port,
            start_conf: self.start_conf@,
        }
    }
}

impl Clone for Metadata {
    fn clone(&self) -> (copy: Self)
        ensures
            copy@ == self@,
    {
        Metadata {
            version: self.version.clone(),
            nightly: self.nightly,
            method: self.method.clone(),
            port: self.port,
            start_conf: self.start_conf.clone(),
        }
    }
}

/// An instance of the server.
#[derive(Debug)]
pub struct Instance {
    pub name: String,
    pub meta: Metadata,
    pub system: bool,
    pub data_dir: EntryPath,
    /// The version that it is upgraded from, where that is known.
    pub source: Option<Version>,
    /// The version that it is upgraded to, once that is known.
    pub version: Option<Version>,
}

#[verifier::ext_equal]
pub struct InstanceView {
    pub name: Seq<char>,
    pub meta: MetadataView,
    pub system: bool,
    pub data_dir: EntryPathView,
    pub source: Option<VersionView>,
    pub version: Option<VersionView>,
}

impl View for Instance {
    type V = InstanceView;

    open spec fn view(&self) -> InstanceView {
        InstanceView {
            name: self.name@,
            meta: self.meta@,
            system: self.system,
            data_dir: self.data_dir@,
            source: self.source.deep_view(),
            version: self.version.deep_view(),
        }
    }
}

impl DeepView for Instance {
    type V = InstanceView;

    open spec fn deep_view(&self) -> InstanceView {
        self@
    }
}

impl Clone for Instance {
    fn clone(&self) -> (copy: Self)
        ensures
            copy@ == self@,
    {
        Instance {
            name: self.name.clone(),
            meta: self.meta.clone(),
            system: self.system,
            data_dir: self.data_dir.clone(),
            source: copy_version(&self.source),
            version: copy_version(&self.version),
        }
    }
}

/// What identifies the instance that is to be controlled.
#[derive(Debug)]
pub struct ControlRequest {
    pub name: String,
    pub system: bool,
    pub meta: Metadata,
}

#[verifier::ext_equal]
pub struct ControlRequestView {
    pub name: Seq<char>,
    pub system: bool,
    pub meta: MetadataView,
}

impl View for ControlRequest {
    type V = ControlRequestView;

    open spec fn view(&self) -> ControlRequestView {
        ControlRequestView { name: self.name@, system: self.system, meta: self.meta@ }
    }
}

impl Clone for ControlRequest {
    fn clone(&self) -> (copy: Self)
        ensures
            copy@ == self@,
    {
        ControlRequest {
            name: self.name.clone(),
            system: self.system,
            meta: self.meta.clone(),
        }
    }
}

/// The record that marks an instance whose upgrade has begun.
#[derive(Debug)]
pub struct UpgradeMeta {
    pub source: Version,
    pub target: Version,
    pub started: SystemTime,
    pub pid: u32,
}

#[verifier::ext_equal]
pub struct UpgradeMetaView {
    pub source: VersionView,
    pub target: VersionView,
    pub started: SystemTime,
    pub pid: u32,
}

impl View for UpgradeMeta {
    type V = UpgradeMetaView;

    open spec fn view(&self) -> UpgradeMetaView {
        UpgradeMetaView {
            source: self.source@,
            target: self.target@,
            started: self.started,
            pid: self.pid,
        }
    }
}

impl Clone for UpgradeMeta {
    fn clone(&self) -> (copy: Self)
        ensures
            copy@ == self@,
    {
        UpgradeMeta {
            source: self.source.clone(),
            target: self.target.clone(),
            started: self.started,
            pid: self.pid,
        }
    }
}

/// The record kept beside data that was moved out of the way.
#[derive(Clone, Copy, Debug)]
pub struct BackupMeta {
    pub timestamp: SystemTime,
}

/// What stands for a version that is not known. It is written down by its text;
/// its key is not used.
pub open spec fn unknown_version() -> VersionView {
    VersionView { text: "unknown"@, key: seq![] }
}

/// The version, or what stands for an unknown one.
pub open spec fn version_or_unknown(version: Option<VersionView>) -> VersionView {
    match version {
        Some(version) => version,
        None => unknown_version(),
    }
}

/// The version, or what stands for an unknown one.
fn known_version(version: &Option<Version>) -> (known: Version)
    ensures
        known@ == version_or_unknown(version.deep_view()),
{
    match version {
        Some(version) => version.clone(),
        None => {
            let known = Version { text: "unknown".to_string(), key: Vec::new() };
            assert(known@ =~= unknown_version());
            known
        },
    }
}

impl InstanceView {
    /// This instance, with the versions that it is upgraded from and to.
    pub open spec fn marked(
        self,
        old_version: Option<VersionView>,
        new_version: VersionView,
    ) -> InstanceView {
        InstanceView { source: old_version, version: Some(new_version), ..self }
    }

    /// What identifies this instance when it is to be controlled.
    pub open spec fn control(self) -> ControlRequestView {
        ControlRequestView { name: self.name, system: self.system, meta: self.meta }
    }

    /// The record of an upgrade of this instance, begun by the process `pid`.
    pub open spec fn upgrade_meta(self, started: SystemTime, pid: u32) -> UpgradeMetaView {
        UpgradeMetaView {
            source: version_or_unknown(self.source),
            target: version_or_unknown(self.version),
            started,
            pid,
        }
    }
}

impl Instance {
    /// Sets the versions that the instance is upgraded from and to.
    pub fn mark(&mut self, old_version: &Option<Version>, new_version: &Version)
        ensures
            final(self)@ == old(self)@.marked(old_version.deep_view(), new_version@),
    {
        self.source = copy_version(old_version);
        self.version = Some(new_version.clone());
    }

    /// What identifies this instance when it is to be controlled.
    pub fn get_control(&self) -> (request: ControlRequest)
        ensures
            request@ == self@.control(),
    {
        ControlRequest {
            name: self.name.clone(),
            system: self.system,
            meta: self.meta.clone(),
        }
    }

    /// The record of an upgrade of this instance, begun at `started` by the
    /// process `pid`.
    pub fn upgrade_meta(&self, started: SystemTime, pid: u32) -> (meta: UpgradeMeta)
        ensures
            meta@ == self@.upgrade_meta(started, pid),
    {
        UpgradeMeta {
            source: known_version(&self.source),
            target: known_version(&self.version),
            started,
            pid,
        }
    }
}

} // verus!
