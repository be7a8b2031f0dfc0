//! What is handed to the installer, to the initialization of an instance and
//! to the database.
use crate::instance::{Instance, InstanceView, InstallMethod, InstallMethodView};
use crate::location::{copy_bytes, dump_file_name, dump_name, Location, LocationView};
use crate::version::{copy_version, Version, VersionView};
use linked_hash_map::LinkedHashMap;
use vstd::prelude::*;

verus! {

/// A hash map that keeps the order of insertion.
#[verifier::external_type_specification]
#[verifier::external_body]
#[verifier::reject_recursive_types(K)]
#[verifier::reject_recursive_types(V)]
#[verifier::reject_recursive_types(S)]
pub struct ExLinkedHashMap<K, V, S>(LinkedHashMap<K, V, S>);

/// The entries of the map, in the order they were inserted.
pub uninterp spec fn map_entries(map: LinkedHashMap<String, String>) -> Seq<
    (Seq<char>, Seq<char>),
>;

/// `LinkedHashMap::new`: the map that it makes has no entries.
#[verifier::external_body]
fn empty_map() -> (map: LinkedHashMap<String, String>)
    ensures
        map_entries(map) == Seq::<(Seq<char>, Seq<char>)>::empty(),
{
    LinkedHashMap::new()
}

/// What the installer is told to install.
pub struct Settings {
    pub method: InstallMethod,
    pub package_name: String,
    pub major_version: Version,
    pub version: Version,
    pub nightly: bool,
    pub extra: LinkedHashMap<String, String>,
}

#[verifier::ext_equal]
pub struct SettingsView {
    pub method: InstallMethodView,
    pub package_name: Seq<char>,
    pub major_version: VersionView,
    pub version: VersionView,
    pub nightly: bool,
    pub extra: Seq<(Seq<char>, Seq<char>)>,
}

impl View for Settings {
    type V = SettingsView;

    open spec fn view(&self) -> SettingsView {
        SettingsView {
            method: self.method@,
            package_name: self.package_name@,
            major_version: self.major_version@,
            version: self.version@,
            nightly: self.nightly,
            extra: map_entries(self.extra),
        }
    }
}

/// A package that is to be installed.
#[derive(Debug)]
pub struct InstallPlan {
    pub method: InstallMethod,
    pub package_name: String,
    pub major_version: Version,
    pub version: Version,
    pub nightly: bool,
}

#[verifier::ext_equal]
pub struct InstallPlanView {
    pub method: InstallMethodView,
    pub package_name: Seq<char>,
    pub major_version: VersionView,
    pub version: VersionView,
    pub nightly: bool,
}

impl View for InstallPlan {
    type V = InstallPlanView;

    open spec fn view(&self) -> InstallPlanView {
        InstallPlanView {
            method: self.method@,
            package_name: self.package_name@,
            major_version: self.major_version@,
            version: self.version@,
            nightly: self.nightly,
        }
    }
}

impl InstallPlanView {
    /// What the installer is told: the plan, and nothing extra.
    pub open spec fn settings(self) -> SettingsView {
        SettingsView {
            method: self.method,
            package_name: self.package_name,
            major_version: self.major_version,
            version: self.version,
            nightly: self.nightly,
            extra: seq![],
        }
    }
}

impl InstallPlan {
    /// What the installer is told.
    pub fn settings(&self) -> (settings: Settings)
        ensures
            settings@ == self@.settings(),
    {
        Settings {
            method: self.method.clone(),
            package_name: self.package_name.clone(),
            major_version: self.major_version.clone(),
            version: self.version.clone(),
            nightly: self.nightly,
            extra: empty_map(),
        }
    }
}

/// How an instance is initialized.
#[derive(Debug)]
pub struct InitOptions {
    pub name: String,
    pub system: bool,
    pub interactive: bool,
    pub nightly: bool,
    pub version: Option<Version>,
    pub method: Option<InstallMethod>,
    pub port: Option<u16>,
    pub start_conf: String,
    pub inhibit_user_creation: bool,
    pub inhibit_start: bool,
    pub upgrade_marker: Option<String>,
    pub overwrite: bool,
    pub default_user: String,
    pub default_database: String,
}

#[verifier::ext_equal]
pub struct InitOptionsView {
    pub name: Seq<char>,
    pub system: bool,
    pub interactive: bool,
    pub nightly: bool,
    pub version: Option<VersionView>,
    pub method: Option<InstallMethodView>,
    pub port: Option<u16>,
    pub start_conf: Seq<char>,
    pub inhibit_user_creation: bool,
    pub inhibit_start: bool,
    pub upgrade_marker: Option<Seq<char>>,
    pub overwrite: bool,
    pub default_user: Seq<char>,
    pub default_database: Seq<char>,
}

impl View for InitOptions {
    type V = InitOptionsView;

    open spec fn view(&self) -> InitOptionsView {
        InitOptionsView {
            name: self.name@,
            system: self.system,
            interactive: self.interactive,
            nightly: self.nightly,
            version: self.version.deep_view(),
            method: self.method.deep_view(),
            port: self.port,
            start_conf: self.start_conf@,
            inhibit_user_creation: self.inhibit_user_creation,
            inhibit_start: self.inhibit_start,
            upgrade_marker: self.upgrade_marker.deep_view(),
            overwrite: self.overwrite,
            default_user: self.default_user@,
            default_database: self.default_database@,
        }
    }
}

impl Clone for InitOptions {
    fn clone(&self) -> (copy: Self)
        ensures
            copy@ == self@,
    {
        let method = match &self.method {
            Some(method) => Some(method.clone()),
            None => None,
        };
        let upgrade_marker = match &self.upgrade_marker {
            Some(marker) => Some(marker.clone()),
            None => None,
        };
        InitOptions {
            name: self.name.clone(),
            system: self.system,
            interactive: self.interactive,
            nightly: self.nightly,
            version: copy_version(&self.version),
            method,
            port: self.port,
            start_conf: self.start_conf.clone(),
            inhibit_user_creation: self.inhibit_user_creation,
            inhibit_start: self.inhibit_start,
            upgrade_marker,
            overwrite: self.overwrite,
            default_user: self.default_user.clone(),
            default_database: self.default_database.clone(),
        }
    }
}

/// An instance that is to be initialized anew.
#[derive(Debug)]
pub struct Reinit {
    pub instance: Instance,
    pub version: Version,
    pub nightly: bool,
    pub method: InstallMethod,
}

#[verifier::ext_equal]
pub struct ReinitView {
    pub instance: InstanceView,
    pub version: VersionView,
    pub nightly: bool,
    pub method: InstallMethodView,
}

impl View for Reinit {
    type V = ReinitView;

    open spec fn view(&self) -> ReinitView {
        ReinitView {
            instance: self.instance@,
            version: self.version@,
            nightly: self.nightly,
            method: self.method@,
        }
    }
}

impl ReinitView {
    /// How the instance is initialized: on its old port and with its old start
    /// configuration, over what stands there, neither started nor given a user,
    /// and marked as being upgraded.
    pub open spec fn init_options(self, marker: Seq<char>) -> InitOptionsView {
        InitOptionsView {
            name: self.instance.name,
            system: self.instance.system,
            interactive: false,
            nightly: self.nightly,
            version: Some(self.version),
            method: Some(self.method),
            port: Some(self.instance.meta.port),
            start_conf: self.instance.meta.start_conf,
            inhibit_user_creation: true,
            inhibit_start: true,
            upgrade_marker: Some(marker),
            overwrite: true,
            default_user: "edgedb"@,
            default_database: "edgedb"@,
        }
    }
}

impl Reinit {
    /// How the instance is initialized.
    pub fn init_options(&self, marker: String) -> (options: InitOptions)
        ensures
            options@ == self@.init_options(marker@),
    {
        InitOptions {
            name: self.instance.name.clone(),
            system: self.instance.system,
            interactive: false,
            nightly: self.nightly,
            version: Some(self.version.clone()),
            method: Some(self.method.clone()),
            port: Some(self.instance.meta.port),
            start_conf: self.instance.meta.start_conf.clone(),
            inhibit_user_creation: true,
            inhibit_start: true,
            upgrade_marker: Some(marker),
            overwrite: true,
            default_user: "edgedb".to_string(),
            default_database: "edgedb".to_string(),
        }
    }
}

/// How the database of an instance is reached.
#[derive(Debug)]
pub struct ConnParams {
    pub user: String,
    pub database: String,
    /// The bytes of the path of the socket.
    pub unix_addr: Vec<u8>,
    /// For how many seconds to wait for the server.
    pub wait_until_available: u64,
}

#[verifier::ext_equal]
pub struct ConnParamsView {
    pub user: Seq<char>,
    pub database: Seq<char>,
    pub unix_addr: Seq<u8>,
    pub wait_until_available: u64,
}

impl View for ConnParams {
    type V = ConnParamsView;

    open spec fn view(&self) -> ConnParamsView {
        ConnParamsView {
            user: self.user@,
            database: self.database@,
            unix_addr: self.unix_addr@,
            wait_until_available: self.wait_until_available,
        }
    }
}

impl Clone for ConnParams {
    fn clone(&self) -> (copy: Self)
        ensures
            copy@ == self@,
    {
        ConnParams {
            user: self.user.clone(),
            database: self.database.clone(),
            unix_addr: copy_bytes(&self.unix_addr),
            wait_until_available: self.wait_until_available,
        }
    }
}

impl ConnParamsView {
    /// How the database behind the socket is reached.
    pub open spec fn through(socket: Seq<u8>) -> ConnParamsView {
        ConnParamsView {
            user: "edgedb"@,
            database: "edgedb"@,
            unix_addr: socket,
            wait_until_available: 30,
        }
    }
}

impl ConnParams {
    /// How the database behind the socket is reached.
    pub fn through(socket: &Vec<u8>) -> (params: ConnParams)
        ensures
            params@ == ConnParamsView::through(socket@),
    {
        ConnParams {
            user: "edgedb".to_string(),
            database: "edgedb".to_string(),
            unix_addr: copy_bytes(socket),
            wait_until_available: 30,
        }
    }
}

/// A dump of all databases of an instance.
#[derive(Debug)]
pub struct DumpRequest {
    pub command_line: bool,
    /// Whether the output is styled.
    pub styled: bool,
    pub conn_params: ConnParams,
    pub path: Location,
}

#[verifier::ext_equal]
pub struct DumpRequestView {
    pub command_line: bool,
    pub styled: bool,
    pub conn_params: ConnParamsView,
    pub path: LocationView,
}

impl View for DumpRequest {
    type V = DumpRequestView;

    open spec fn view(&self) -> DumpRequestView {
        DumpRequestView {
            command_line: self.command_line,
            styled: self.styled,
            conn_params: self.conn_params@,
            path: self.path@,
        }
    }
}

impl Clone for DumpRequest {
    fn clone(&self) -> (copy: Self)
        ensures
            copy@ == self@,
    {
        DumpRequest {
            command_line: self.command_line,
            styled: self.styled,
            conn_params: self.conn_params.clone(),
            path: self.path.clone(),
        }
    }
}

/// How the instance behind the socket is dumped, where instances stand in the
/// directory `data_path`.
pub open spec fn dump_of(
    instance: InstanceView,
    socket: Seq<u8>,
    data_path: Seq<u8>,
) -> DumpRequestView {
    DumpRequestView {
        command_line: true,
        styled: false,
        conn_params: ConnParamsView::through(socket),
        path: LocationView::top(data_path).join(dump_name(instance.name)),
    }
}

/// How the instance behind the socket is dumped, where instances stand in the
/// directory `data_path`.
pub fn dump_instance(instance: &Instance, socket: &Vec<u8>, data_path: Vec<u8>) -> (request:
    DumpRequest)
    ensures
        request@ == dump_of(instance@, socket@, data_path@),
{
    DumpRequest {
        command_line: true,
        styled: false,
        conn_params: ConnParams::through(socket),
        path: Location::top(data_path).join(dump_file_name(&instance.name)),
    }
}

/// A restore of all databases of an instance.
#[derive(Debug)]
pub struct RestoreRequest {
    pub command_line: bool,
    /// Whether the output is styled.
    pub styled: bool,
    pub conn_params: ConnParams,
    pub path: Location,
    pub all: bool,
    pub allow_non_empty: bool,
    pub verbose: bool,
}

#[verifier::ext_equal]
pub struct RestoreRequestView {
    pub command_line: bool,
    pub styled: bool,
    pub conn_params: ConnParamsView,
    pub path: LocationView,
    pub all: bool,
    pub allow_non_empty: bool,
    pub verbose: bool,
}

impl View for RestoreRequest {
    type V = RestoreRequestView;

    open spec fn view(&self) -> RestoreRequestView {
        RestoreRequestView {
            command_line: self.command_line,
            styled: self.styled,
            conn_params: self.conn_params@,
            path: self.path@,
            all: self.all,
            allow_non_empty: self.allow_non_empty,
            verbose: self.verbose,
        }
    }
}

impl Clone for RestoreRequest {
    fn clone(&self) -> (copy: Self)
        ensures
            copy@ == self@,
    {
        RestoreRequest {
            command_line: self.command_line,
            styled: self.styled,
            conn_params: self.conn_params.clone(),
            path: self.path.clone(),
            all: self.all,
            allow_non_empty: self.allow_non_empty,
            verbose: self.verbose,
        }
    }
}

/// How the instance behind the socket is restored.
pub open spec fn restore_of(instance: InstanceView, socket: Seq<u8>) -> RestoreRequestView {
    RestoreRequestView {
        command_line: true,
        styled: false,
        conn_params: ConnParamsView::through(socket),
        path: instance.data_dir.with_file_name(dump_name(instance.name)),
        all: true,
        allow_non_empty: false,
        verbose: false,
    }
}

/// How the instance behind the socket is restored.
pub fn restore_instance(instance: &Instance, socket: &Vec<u8>) -> (request: RestoreRequest)
    ensures
        request@ == restore_of(instance@, socket@),
{
    RestoreRequest {
        command_line: true,
        styled: false,
        conn_params: ConnParams::through(socket),
        path: instance.data_dir.with_file_name(dump_file_name(&instance.name)),
        all: true,
        allow_non_empty: false,
        verbose: false,
    }
}

} // verus!
