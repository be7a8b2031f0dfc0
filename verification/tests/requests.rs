//! What is written down, and what is handed on.
use edgedb_upgrade::instance::{Instance, InstallMethod, Metadata};
use edgedb_upgrade::location::{backup_file_name, dump_file_name, EntryPath, Location};
use edgedb_upgrade::requests::{dump_instance, restore_instance, ConnParams, InstallPlan, Reinit};
use edgedb_upgrade::version::Version;
use std::time::{Duration, SystemTime};

fn version(text: &str, key: &[u64]) -> Version {
    Version::new(text.to_string(), key.to_vec())
}

fn instance() -> Instance {
    Instance {
        name: "main".to_string(),
        meta: Metadata {
            version: version("1-alpha4", &[1, 4]),
            nightly: false,
            method: method(),
            port: 10701,
            start_conf: "manual".to_string(),
        },
        system: true,
        data_dir: EntryPath {
            parent: Location::top(b"/var/data".to_vec()),
            file_name: "main".to_string(),
        },
        source: None,
        version: None,
    }
}

fn method() -> InstallMethod {
    InstallMethod {
        name: "package".to_string(),
        title: "Native System Package".to_string(),
        key: vec![0],
    }
}

#[test]
fn unknown_versions_are_written_as_unknown() {
    let started = SystemTime::UNIX_EPOCH + Duration::from_secs(77);
    let meta = instance().upgrade_meta(started, 42);
    assert_eq!(meta.source.text, "unknown");
    assert_eq!(meta.target.text, "unknown");
    assert_eq!(meta.started, started);
    assert_eq!(meta.pid, 42);
}

#[test]
fn the_record_names_the_versions() {
    let mut marked = instance();
    marked.mark(&Some(version("1.0-1", &[1, 0, 1])), &version("1.0-2", &[1, 0, 2]));
    let meta = marked.upgrade_meta(SystemTime::UNIX_EPOCH, 1);
    assert_eq!(meta.source.text, "1.0-1");
    assert_eq!(meta.target.text, "1.0-2");
    marked.mark(&None, &version("1.0-3", &[1, 0, 3]));
    let meta = marked.upgrade_meta(SystemTime::UNIX_EPOCH, 1);
    assert_eq!(meta.source.text, "unknown");
    assert_eq!(meta.target.text, "1.0-3");
}

#[test]
fn control_is_asked_for_by_name_and_metadata() {
    let request = instance().get_control();
    assert_eq!(request.name, "main");
    assert!(request.system);
    assert_eq!(request.meta.port, 10701);
    assert_eq!(request.meta.version.text, "1-alpha4");
}

#[test]
fn file_names_have_their_endings() {
    assert_eq!(dump_file_name(&"main".to_string()), "main.dump");
    assert_eq!(backup_file_name(&"main".to_string()), "main.backup");
    assert_eq!(dump_file_name(&String::new()), ".dump");
}

#[test]
fn entries_stand_beside_each_other() {
    let entry = instance().data_dir;
    assert_eq!(entry.location().names, vec!["main"]);
    assert_eq!(entry.location().base, b"/var/data".to_vec());
    assert_eq!(entry.with_file_name("other".to_string()).names, vec!["other"]);
    let deep = entry.location().join("x".to_string());
    assert_eq!(deep.names, vec!["main", "x"]);
}

#[test]
fn the_database_is_reached_through_the_socket() {
    let params = ConnParams::through(&b"/run/s".to_vec());
    assert_eq!(params.user, "edgedb");
    assert_eq!(params.database, "edgedb");
    assert_eq!(params.unix_addr, b"/run/s".to_vec());
    assert_eq!(params.wait_until_available, 30);
}

#[test]
fn a_dump_goes_beside_the_data_and_a_restore_reads_it() {
    let dump = dump_instance(&instance(), &b"/run/s".to_vec(), b"/var/data".to_vec());
    assert!(dump.command_line);
    assert!(!dump.styled);
    assert_eq!(dump.conn_params.unix_addr, b"/run/s".to_vec());
    assert_eq!(dump.path.base, b"/var/data".to_vec());
    assert_eq!(dump.path.names, vec!["main.dump"]);
    let restore = restore_instance(&instance(), &b"/run/t".to_vec());
    assert!(restore.command_line);
    assert!(!restore.styled);
    assert_eq!(restore.conn_params.unix_addr, b"/run/t".to_vec());
    assert_eq!(restore.path.base, dump.path.base);
    assert_eq!(restore.path.names, dump.path.names);
    assert!(restore.all);
    assert!(!restore.allow_non_empty);
    assert!(!restore.verbose);
}

#[test]
fn an_instance_is_initialized_as_it_was() {
    let reinit = Reinit {
        instance: instance(),
        version: version("1-alpha5", &[1, 5]),
        nightly: true,
        method: method(),
    };
    let init = reinit.init_options("{}".to_string());
    assert_eq!(init.name, "main");
    assert!(init.system);
    assert!(!init.interactive);
    assert!(init.nightly);
    assert_eq!(init.version.map(|version| version.text), Some("1-alpha5".to_string()));
    assert_eq!(init.method.map(|method| method.name), Some("package".to_string()));
    assert_eq!(init.port, Some(10701));
    assert_eq!(init.start_conf, "manual");
    assert!(init.inhibit_user_creation);
    assert!(init.inhibit_start);
    assert_eq!(init.upgrade_marker, Some("{}".to_string()));
    assert!(init.overwrite);
    assert_eq!(init.default_user, "edgedb");
    assert_eq!(init.default_database, "edgedb");
}

#[test]
fn the_installer_is_told_nothing_extra() {
    let plan = InstallPlan {
        method: method(),
        package_name: "edgedb-server-1".to_string(),
        major_version: version("1", &[1]),
        version: version("1.5", &[1, 5]),
        nightly: false,
    };
    let settings = plan.settings();
    assert_eq!(settings.method.name, "package");
    assert_eq!(settings.package_name, "edgedb-server-1");
    assert_eq!(settings.major_version.text, "1");
    assert_eq!(settings.version.text, "1.5");
    assert!(!settings.nightly);
    assert!(settings.extra.is_empty());
    assert_eq!(settings.extra.iter().count(), 0);
}

#[test]
fn data_dump_and_backup_are_apart() {
    let data = instance().data_dir;
    let dump = data.with_file_name(dump_file_name(&"main".to_string()));
    let backup = data.with_file_name(backup_file_name(&"main".to_string()));
    assert_ne!(data.location().names, dump.names);
    assert_ne!(data.location().names, backup.names);
    assert_ne!(dump.names, backup.names);
}
