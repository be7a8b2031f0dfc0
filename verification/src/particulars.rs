//! What is handed on, spelled out field by field.
use crate::instance::{InstanceView, MetadataView};
use crate::listing::{instance_in, InstanceIteratorView};
use crate::location::{backup_name, dump_name, EntryPathView, LocationView};
use crate::requests::{
    dump_of, restore_of, ConnParamsView, InstallPlanView, ReinitView,
};
use crate::script::{all_marked, server_args};
use crate::task::{JobView, MajorGroupView};
use crate::version::{VersionQueryView, VersionView};
use std::time::SystemTime;
use vstd::prelude::*;

verus! {

/// An instance is initialized on the port it had and with the start
/// configuration it had, whatever it is upgraded to; over what stands there,
/// without a user and without being started; and the marker is handed on.
pub proof fn law_init_keeps_what_the_instance_had(reinit: ReinitView, marker: Seq<char>)
    ensures
        ({
            let init = reinit.init_options(marker);
            &&& init.name == reinit.instance.name
            &&& init.system == reinit.instance.system
            &&& init.port == Some(reinit.instance.meta.port)
            &&& init.start_conf == reinit.instance.meta.start_conf
            &&& init.version == Some(reinit.version)
            &&& init.nightly == reinit.nightly
            &&& init.method == Some(reinit.method)
            &&& init.upgrade_marker == Some(marker)
            &&& !init.interactive
            &&& init.inhibit_user_creation
            &&& init.inhibit_start
            &&& init.overwrite
            &&& init.default_user == "edgedb"@
            &&& init.default_database == "edgedb"@
        }),
{
}

/// All databases of an instance are restored, into an empty server and without
/// detail, from the dump beside its data, through the socket that was told;
/// whatever else the instance is.
pub proof fn law_restore_is_of_all_databases(instance: InstanceView, socket: Seq<u8>)
    ensures
        ({
            let request = restore_of(instance, socket);
            &&& request.all
            &&& !request.allow_non_empty
            &&& !request.verbose
            &&& request.command_line
            &&& !request.styled
            &&& request.path.base == instance.data_dir.parent.base
            &&& request.path.names == instance.data_dir.parent.names.push(
                instance.name + ".dump"@,
            )
            &&& request.conn_params.unix_addr == socket
            &&& request.conn_params.user == "edgedb"@
            &&& request.conn_params.database == "edgedb"@
            &&& request.conn_params.wait_until_available == 30
        }),
{
}

/// An instance is dumped to the directory of instances that was told, under its
/// name, through the socket that was told; whatever else the instance is.
pub proof fn law_dump_goes_under_the_name(
    instance: InstanceView,
    socket: Seq<u8>,
    data_path: Seq<u8>,
)
    ensures
        ({
            let request = dump_of(instance, socket, data_path);
            &&& request.command_line
            &&& !request.styled
            &&& request.path.base == data_path
            &&& request.path.names == seq![instance.name + ".dump"@]
            &&& request.conn_params.unix_addr == socket
            &&& request.conn_params.user == "edgedb"@
            &&& request.conn_params.database == "edgedb"@
            &&& request.conn_params.wait_until_available == 30
        }),
{
    let request = dump_of(instance, socket, data_path);
    assert(request.path.names =~= seq![instance.name + ".dump"@]);
}

/// The database behind any socket is reached in the same way.
pub proof fn law_connection_is_the_same_for_all(socket: Seq<u8>)
    ensures
        ({
            let params = ConnParamsView::through(socket);
            &&& params.unix_addr == socket
            &&& params.user == "edgedb"@
            &&& params.database == "edgedb"@
            &&& params.wait_until_available == 30
        }),
{
}

/// The installer is told what was planned, and nothing extra.
pub proof fn law_installer_is_told_the_plan(plan: InstallPlanView)
    ensures
        ({
            let settings = plan.settings();
            &&& settings.method == plan.method
            &&& settings.package_name == plan.package_name
            &&& settings.major_version == plan.major_version
            &&& settings.version == plan.version
            &&& settings.nightly == plan.nightly
            &&& settings.extra.len() == 0
        }),
{
}

/// The server is run with exactly these arguments too.
pub proof fn law_server_has_its_arguments()
    ensures
        server_args().len() == 2,
        server_args()[0] == "--default-database=edgedb"@,
        server_args()[1] == "--default-database-user=edgedb"@,
{
}

/// A dump and a backup are called by the name of the instance and an ending.
pub proof fn law_endings(name: Seq<char>)
    ensures
        dump_name(name) == name + seq!['.', 'd', 'u', 'm', 'p'],
        backup_name(name) == name + seq!['.', 'b', 'a', 'c', 'k', 'u', 'p'],
{
    reveal_strlit(".dump");
    reveal_strlit(".backup");
    assert(".dump"@ =~= seq!['.', 'd', 'u', 'm', 'p']);
    assert(".backup"@ =~= seq!['.', 'b', 'a', 'c', 'k', 'u', 'p']);
}

/// An entry of a directory has the path of the directory and its own name
/// behind that; what stands beside it differs in the name alone.
pub proof fn law_places(
    base: Seq<u8>,
    place: LocationView,
    entry: EntryPathView,
    name: Seq<char>,
)
    ensures
        LocationView::top(base).base == base,
        LocationView::top(base).names.len() == 0,
        place.join(name).base == place.base,
        place.join(name).names == place.names.push(name),
        entry.location().base == entry.parent.base,
        entry.location().names == entry.parent.names.push(entry.file_name),
        entry.with_file_name(name).base == entry.parent.base,
        entry.with_file_name(name).names == entry.parent.names.push(name),
{
}

/// What identifies an instance that is to be controlled is its name, whether it
/// is the system's, and its metadata.
pub proof fn law_control_is_by_name_and_metadata(instance: InstanceView)
    ensures
        instance.control().name == instance.name,
        instance.control().system == instance.system,
        instance.control().meta == instance.meta,
{
}

/// Marking an instance sets the versions that it is upgraded from and to, and
/// leaves all else as it was.
pub proof fn law_marking_sets_the_versions(
    instance: InstanceView,
    old_version: Option<VersionView>,
    new_version: VersionView,
)
    ensures
        ({
            let marked = instance.marked(old_version, new_version);
            &&& marked.source == old_version
            &&& marked.version == Some(new_version)
            &&& marked.name == instance.name
            &&& marked.meta == instance.meta
            &&& marked.system == instance.system
            &&& marked.data_dir == instance.data_dir
        }),
{
}

/// Each of the instances is marked, and none is left out or moved.
pub proof fn law_all_are_marked(
    instances: Seq<InstanceView>,
    old_version: Option<VersionView>,
    new_version: VersionView,
)
    ensures
        all_marked(instances, old_version, new_version).len() == instances.len(),
        forall|i: int|
            0 <= i < instances.len() ==> {
                let marked = #[trigger] all_marked(instances, old_version, new_version)[i];
                &&& marked.source == old_version
                &&& marked.version == Some(new_version)
                &&& marked.name == instances[i].name
                &&& marked.meta == instances[i].meta
                &&& marked.system == instances[i].system
                &&& marked.data_dir == instances[i].data_dir
            },
{
}

/// The record of an upgrade names the versions that the instance is upgraded
/// from and to, or says that they are unknown, and holds the time and the
/// process that it was given.
pub proof fn law_record_holds_what_it_is_given(
    instance: InstanceView,
    started: SystemTime,
    pid: u32,
)
    ensures
        ({
            let meta = instance.upgrade_meta(started, pid);
            &&& instance.source is Some ==> meta.source == instance.source->0
            &&& instance.source is None ==> meta.source.text == "unknown"@
            &&& instance.version is Some ==> meta.target == instance.version->0
            &&& instance.version is None ==> meta.target.text == "unknown"@
            &&& meta.started == started
            &&& meta.pid == pid
        }),
{
}

/// An instance that is found has the name and the metadata it was found with,
/// is not the system's, stands in the directory under its name, and has no
/// versions set yet.
pub proof fn law_found_instance(path: LocationView, name: Seq<char>, meta: MetadataView)
    ensures
        ({
            let instance = instance_in(path, name, meta);
            &&& instance.name == name
            &&& instance.meta == meta
            &&& !instance.system
            &&& instance.data_dir.parent == path
            &&& instance.data_dir.file_name == name
            &&& instance.source is None
            &&& instance.version is None
        }),
{
}

/// A listing begins with nothing found, keeps to its directory, and adds what is
/// found behind what was found before. The metadata of an instance stands in
/// the directory of the instance.
pub proof fn law_listing_adds_what_is_found(
    path: LocationView,
    listing: InstanceIteratorView,
    name: Seq<char>,
    meta: MetadataView,
)
    ensures
        InstanceIteratorView::at(path).path == path,
        InstanceIteratorView::at(path).found.len() == 0,
        listing.with(name, meta).path == listing.path,
        listing.with(name, meta).found.len() == listing.found.len() + 1,
        listing.with(name, meta).found.drop_last() == listing.found,
        listing.with(name, meta).found.last().name == name,
        listing.with(name, meta).found.last().meta == meta,
        listing.with(name, meta).found.last().data_dir.parent == listing.path,
        listing.with(name, meta).found.last().data_dir.file_name == name,
        !listing.with(name, meta).found.last().system,
        listing.with(name, meta).found.last().source is None,
        listing.with(name, meta).found.last().version is None,
        listing.metadata_path(name).base == listing.path.base,
        listing.metadata_path(name).names == listing.path.names.push(name).push(
            "metadata.json"@,
        ),
{
    assert(listing.with(name, meta).found.drop_last() =~= listing.found);
}

/// Instances of a major version are upgraded within it, nightlies to the
/// nightly, and a named instance to what was asked for.
pub proof fn law_jobs_ask_for_their_version(
    group: MajorGroupView,
    rest: Seq<MajorGroupView>,
    instances: Seq<InstanceView>,
    instance: InstanceView,
    query: VersionQueryView,
)
    ensures
        JobView::Minor(group, rest).query() == VersionQueryView::Stable(Some(group.version)),
        JobView::Nightly(instances).query() == VersionQueryView::Nightly,
        JobView::Single(instance, query).query() == query,
{
}

} // verus!
